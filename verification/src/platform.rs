//! The platform the manager runs on, path joining, and the locations of
//! the OpenClaw configuration directory and the manager's own runtime
//! directory.
use vstd::prelude::*;
use crate::text::{cat, cat3, copy_str, str_eq, chars_of, string_of, sub_chars};
use crate::runtime::opt_str;
use crate::command::opt_view;

verus! {

/// Whether the operating system name (as in `std::env::consts::OS`) is
/// `"windows"`.
pub fn is_windows(os: &str) -> (r: bool)
    ensures
        r == (os@ == "windows"@),
{
    str_eq(os, "windows")
}

/// Whether the operating system name is `"macos"`.
pub fn is_macos(os: &str) -> (r: bool)
    ensures
        r == (os@ == "macos"@),
{
    str_eq(os, "macos")
}

/// Whether the operating system name is `"linux"`.
pub fn is_linux(os: &str) -> (r: bool)
    ensures
        r == (os@ == "linux"@),
{
    str_eq(os, "linux")
}

/// A path separator: `/`, and on Windows also `\`.
pub open spec fn is_sep(c: char, windows: bool) -> bool {
    c == '/' || (windows && c == '\\')
}

pub open spec fn main_sep(windows: bool) -> char {
    if windows {
        '\\'
    } else {
        '/'
    }
}

pub open spec fn is_ascii_alpha(c: char) -> bool {
    ('a' <= c <= 'z') || ('A' <= c <= 'Z')
}

/// A Windows drive prefix such as `C:` at the start of `s`.
pub open spec fn has_drive(s: Seq<char>, windows: bool) -> bool {
    windows && s.len() >= 2 && is_ascii_alpha(s[0]) && s[1] == ':'
}

/// What `PathBuf::push` makes of `base` and `comp`.  A `comp` that is
/// absolute (Unix), has a drive such as `C:` or starts with two separators
/// (Windows) replaces `base`; a Windows `comp` that starts with one
/// separator keeps only the drive of `base`; otherwise `comp` is appended,
/// with the platform's separator in between unless `base` is empty, already
/// ends with a separator, or is a bare drive.
pub open spec fn path_join(base: Seq<char>, comp: Seq<char>, windows: bool) -> Seq<char> {
    if (!windows && comp.len() > 0 && comp[0] == '/') || has_drive(comp, windows) || (windows
        && comp.len() >= 2 && is_sep(comp[0], true) && is_sep(comp[1], true)) {
        comp
    } else if windows && comp.len() > 0 && is_sep(comp[0], true) {
        if has_drive(base, windows) {
            base.subrange(0, 2) + comp
        } else {
            comp
        }
    } else if base.len() == 0 || is_sep(base.last(), windows) || (has_drive(base, windows)
        && base.len() == 2) {
        base + comp
    } else {
        base.push(main_sep(windows)) + comp
    }
}

fn is_alpha(c: char) -> (r: bool)
    ensures
        r == is_ascii_alpha(c),
{
    ('a' <= c && c <= 'z') || ('A' <= c && c <= 'Z')
}

fn is_separator(c: char, windows: bool) -> (r: bool)
    ensures
        r == is_sep(c, windows),
{
    c == '/' || (windows && c == '\\')
}

/// `Path::join` of `base` and `comp`.
pub fn join_path(base: &str, comp: &str, windows: bool) -> (r: String)
    ensures
        r@ == path_join(base@, comp@, windows),
{
    let b = chars_of(base);
    let c = chars_of(comp);
    let comp_drive = windows && c.len() >= 2 && is_alpha(c[0]) && c[1] == ':';
    let base_drive = windows && b.len() >= 2 && is_alpha(b[0]) && b[1] == ':';
    if (!windows && c.len() > 0 && c[0] == '/') || comp_drive || (windows && c.len() >= 2
        && is_separator(c[0], true) && is_separator(c[1], true)) {
        copy_str(comp)
    } else if windows && c.len() > 0 && is_separator(c[0], true) {
        if base_drive {
            let d = sub_chars(&b, 0, 2);
            let ds = string_of(&d);
            cat(ds.as_str(), comp)
        } else {
            copy_str(comp)
        }
    } else if b.len() == 0 || is_separator(b[b.len() - 1], windows) || (base_drive && b.len()
        == 2) {
        cat(base, comp)
    } else {
        let mut v = b;
        if windows {
            v.push('\\');
        } else {
            v.push('/');
        }
        let s = string_of(&v);
        cat(s.as_str(), comp)
    }
}

/// `base` joined with each of `comps` in turn.
pub open spec fn join_all(base: Seq<char>, comps: Seq<Seq<char>>, windows: bool) -> Seq<char>
    decreases comps.len(),
{
    if comps.len() == 0 {
        base
    } else {
        join_all(path_join(base, comps[0], windows), comps.drop_first(), windows)
    }
}

/// `base.join(c0).join(c1)...`.
pub fn join_path_all(base: &str, comps: &Vec<&str>, windows: bool) -> (r: String)
    ensures
        r@ == join_all(base@, comps@.map_values(|c: &str| c@), windows),
{
    let ghost cv = comps@.map_values(|c: &str| c@);
    let mut acc = copy_str(base);
    let mut i: usize = 0;
    assert(cv.subrange(0, cv.len() as int) =~= cv);
    while i < comps.len()
        invariant
            i <= comps.len(),
            cv == comps@.map_values(|c: &str| c@),
            join_all(base@, cv, windows) == join_all(acc@, cv.subrange(i as int, cv.len() as int), windows),
        decreases comps.len() - i,
    {
        assert(cv.subrange(i as int, cv.len() as int).drop_first() =~= cv.subrange(i + 1, cv.len() as int));
        acc = join_path(acc.as_str(), comps[i], windows);
        i = i + 1;
    }
    assert(cv.subrange(i as int, cv.len() as int) =~= Seq::<Seq<char>>::empty());
    acc
}

/// `dirs::home_dir`, the user's home directory as text (`Path::display`).
/// It reads the environment (`HOME`) and the user database, so nothing is
/// stated of what comes back.
#[verifier::external_body]
pub fn home_dir() -> (r: Option<String>) {
    dirs::home_dir().map(|p| p.display().to_string())
}

/// `dirs::data_local_dir`, the user's local data directory as text.  It
/// reads the environment, so nothing is stated of what comes back.
#[verifier::external_body]
pub fn data_local_dir() -> (r: Option<String>) {
    dirs::data_local_dir().map(|p| p.display().to_string())
}

/// The OpenClaw configuration directory for a home directory:
/// `<home>/.openclaw` (`<home>\.openclaw` on Windows), or `~/.openclaw`
/// when the home directory is unknown.
pub open spec fn config_dir_spec(home: Option<Seq<char>>, windows: bool) -> Seq<char> {
    match home {
        Some(h) => if windows {
            h + "\\.openclaw"@
        } else {
            h + "/.openclaw"@
        },
        None => "~/.openclaw"@,
    }
}

pub fn config_dir_for(home: Option<&str>, windows: bool) -> (r: String)
    ensures
        r@ == config_dir_spec(opt_str(home), windows),
{
    match home {
        Some(h) => if windows {
            cat(h, "\\.openclaw")
        } else {
            cat(h, "/.openclaw")
        },
        None => copy_str("~/.openclaw"),
    }
}

/// The variables by which OpenClaw's files are moved, as the environment
/// holds them: `OPENCLAW_CONFIG_PATH` (the configuration file),
/// `OPENCLAW_STATE_DIR` (the state directory, which holds the env file and
/// the logs) and `OPENCLAW_HOME` (the home directory that `.openclaw` is
/// looked for in).  A variable that is unset or empty moves nothing.
pub struct PathOverrides {
    pub config_path: Option<String>,
    pub state_dir: Option<String>,
    pub openclaw_home: Option<String>,
}

/// A variable's value when it is set and not empty.
pub open spec fn set_value(o: Option<String>) -> Option<Seq<char>> {
    match o {
        Some(s) => if s@.len() > 0 {
            Some(s@)
        } else {
            None
        },
        None => None,
    }
}

/// The OpenClaw state directory: `OPENCLAW_STATE_DIR`, else `.openclaw`
/// under `OPENCLAW_HOME`, else `.openclaw` under the user's home directory.
pub open spec fn state_dir_spec(o: PathOverrides, home: Option<Seq<char>>, windows: bool) -> Seq<
    char,
> {
    match set_value(o.state_dir) {
        Some(d) => d,
        None => match set_value(o.openclaw_home) {
            Some(h) => config_dir_spec(Some(h), windows),
            None => config_dir_spec(home, windows),
        },
    }
}

/// Whether the state directory depends on the user's home directory: when
/// neither `OPENCLAW_STATE_DIR` nor `OPENCLAW_HOME` is set.
pub open spec fn home_needed(o: PathOverrides) -> bool {
    set_value(o.state_dir) is None && set_value(o.openclaw_home) is None
}

/// `openclaw.json`: `OPENCLAW_CONFIG_PATH`, else in the state directory.
pub open spec fn config_file_spec(o: PathOverrides, home: Option<Seq<char>>, windows: bool) -> Seq<
    char,
> {
    match set_value(o.config_path) {
        Some(p) => p,
        None => in_config_dir(state_dir_spec(o, home, windows), "openclaw.json"@, windows),
    }
}

fn set_value_of(o: &Option<String>) -> (r: Option<String>)
    ensures
        opt_view(r) == set_value(*o),
{
    match o {
        Some(s) => if s.unicode_len() > 0 {
            Some(s.clone())
        } else {
            None
        },
        None => None,
    }
}

/// The state directory, given the user's home directory where it is known.
pub fn config_dir_with(o: &PathOverrides, home: Option<&str>, windows: bool) -> (r: String)
    ensures
        r@ == state_dir_spec(*o, opt_str(home), windows),
{
    match set_value_of(&o.state_dir) {
        Some(d) => d,
        None => match set_value_of(&o.openclaw_home) {
            Some(h) => config_dir_for(Some(h.as_str()), windows),
            None => config_dir_for(home, windows),
        },
    }
}

/// The OpenClaw configuration (state) directory of the current user.  The
/// home directory is asked for only when no variable moves the directory.
pub fn get_config_dir(o: &PathOverrides, windows: bool) -> (r: String)
    ensures
        exists|h: Option<Seq<char>>| r@ == #[trigger] state_dir_spec(*o, h, windows),
        !home_needed(*o) ==> r@ == state_dir_spec(*o, None, windows),
{
    if set_value_of(&o.state_dir).is_some() || set_value_of(&o.openclaw_home).is_some() {
        let r = config_dir_with(o, None, windows);
        assert(r@ == state_dir_spec(*o, None::<Seq<char>>, windows));
        r
    } else {
        let home = home_dir();
        match home {
            Some(h) => {
                let r = config_dir_with(o, Some(h.as_str()), windows);
                assert(r@ == state_dir_spec(*o, Some(h@), windows));
                r
            },
            None => {
                let r = config_dir_with(o, None, windows);
                assert(r@ == state_dir_spec(*o, None::<Seq<char>>, windows));
                r
            },
        }
    }
}

/// A file inside the configuration directory, named with the platform's
/// separator.
pub open spec fn in_config_dir(config_dir: Seq<char>, name: Seq<char>, windows: bool) -> Seq<
    char,
> {
    if windows {
        config_dir + "\\"@ + name
    } else {
        config_dir + "/"@ + name
    }
}

/// `<config>/env`: the file of environment variables for the gateway.
pub fn env_file_path_in(config_dir: &str, windows: bool) -> (r: String)
    ensures
        r@ == in_config_dir(config_dir@, "env"@, windows),
{
    if windows {
        cat3(config_dir, "\\", "env")
    } else {
        cat3(config_dir, "/", "env")
    }
}

/// `<config>/openclaw.json`.
pub fn config_file_path_in(config_dir: &str, windows: bool) -> (r: String)
    ensures
        r@ == in_config_dir(config_dir@, "openclaw.json"@, windows),
{
    if windows {
        cat3(config_dir, "\\", "openclaw.json")
    } else {
        cat3(config_dir, "/", "openclaw.json")
    }
}

/// `openclaw.json`, given the user's home directory where it is known.
pub fn config_file_path_with(o: &PathOverrides, home: Option<&str>, windows: bool) -> (r: String)
    ensures
        r@ == config_file_spec(*o, opt_str(home), windows),
{
    match set_value_of(&o.config_path) {
        Some(p) => p,
        None => {
            let d = config_dir_with(o, home, windows);
            config_file_path_in(d.as_str(), windows)
        },
    }
}

/// The gateway error log's path inside the configuration directory.
pub open spec fn log_file_name(windows: bool) -> Seq<char> {
    if windows {
        "logs\\gateway.err.log"@
    } else {
        "logs/gateway.err.log"@
    }
}

/// `<config>/logs/gateway.err.log`.
pub fn log_file_path_in(config_dir: &str, windows: bool) -> (r: String)
    ensures
        r@ == in_config_dir(config_dir@, log_file_name(windows), windows),
{
    if windows {
        cat3(config_dir, "\\", "logs\\gateway.err.log")
    } else {
        cat3(config_dir, "/", "logs/gateway.err.log")
    }
}

/// The environment-variable file of the current user's configuration, in
/// the state directory.
pub fn get_env_file_path(o: &PathOverrides, windows: bool) -> (r: String)
    ensures
        exists|h: Option<Seq<char>>|
            r@ == #[trigger] in_config_dir(state_dir_spec(*o, h, windows), "env"@, windows),
        !home_needed(*o) ==> r@ == in_config_dir(state_dir_spec(*o, None, windows), "env"@, windows),
{
    let d = get_config_dir(o, windows);
    let r = env_file_path_in(d.as_str(), windows);
    proof {
        let h = choose|h: Option<Seq<char>>| d@ == #[trigger] state_dir_spec(*o, h, windows);
        assert(r@ == in_config_dir(state_dir_spec(*o, h, windows), "env"@, windows));
    }
    r
}

/// The `openclaw.json` of the current user: `OPENCLAW_CONFIG_PATH`, else in
/// the state directory.  The home directory is asked for only when neither
/// the file nor the directory is moved.
pub fn get_config_file_path(o: &PathOverrides, windows: bool) -> (r: String)
    ensures
        exists|h: Option<Seq<char>>| r@ == #[trigger] config_file_spec(*o, h, windows),
        set_value(o.config_path) is Some || !home_needed(*o) ==> r@ == config_file_spec(
            *o,
            None,
            windows,
        ),
{
    if set_value_of(&o.config_path).is_some() {
        let r = config_file_path_with(o, None, windows);
        assert(r@ == config_file_spec(*o, None::<Seq<char>>, windows));
        r
    } else {
        let d = get_config_dir(o, windows);
        let r = config_file_path_in(d.as_str(), windows);
        proof {
            let h = choose|h: Option<Seq<char>>| d@ == #[trigger] state_dir_spec(*o, h, windows);
            assert(r@ == config_file_spec(*o, h, windows));
        }
        r
    }
}

/// The gateway's error log of the current user, under the state directory.
pub fn get_log_file_path(o: &PathOverrides, windows: bool) -> (r: String)
    ensures
        exists|h: Option<Seq<char>>|
            r@ == #[trigger] in_config_dir(
                state_dir_spec(*o, h, windows),
                log_file_name(windows),
                windows,
            ),
        !home_needed(*o) ==> r@ == in_config_dir(
            state_dir_spec(*o, None, windows),
            log_file_name(windows),
            windows,
        ),
{
    let d = get_config_dir(o, windows);
    let r = log_file_path_in(d.as_str(), windows);
    proof {
        let h = choose|h: Option<Seq<char>>| d@ == #[trigger] state_dir_spec(*o, h, windows);
        assert(r@ == in_config_dir(state_dir_spec(*o, h, windows), log_file_name(windows), windows));
    }
    r
}

/// The manager's runtime directory under a base directory:
/// `<base>/bosiclaw/runtime` (`<base>\BosiClaw\runtime` on Windows).
pub open spec fn manager_runtime_dir_spec(base: Seq<char>, windows: bool) -> Seq<char> {
    path_join(
        path_join(
            base,
            if windows {
                "BosiClaw"@
            } else {
                "bosiclaw"@
            },
            windows,
        ),
        "runtime"@,
        windows,
    )
}

pub fn manager_runtime_dir_in(base: &str, windows: bool) -> (r: String)
    ensures
        r@ == manager_runtime_dir_spec(base@, windows),
{
    let app = if windows {
        join_path(base, "BosiClaw", windows)
    } else {
        join_path(base, "bosiclaw", windows)
    };
    join_path(app.as_str(), "runtime", windows)
}

/// The base that the manager's runtime directory goes under: the local
/// data directory, else the home directory, else `.`.
pub open spec fn runtime_base(data_local: Option<Seq<char>>, home: Option<Seq<char>>) -> Seq<char> {
    match data_local {
        Some(d) => d,
        None => match home {
            Some(h) => h,
            None => "."@,
        },
    }
}

/// The manager's runtime directory, given the local data directory and the
/// home directory where they are known.
pub fn manager_runtime_dir_for(data_local: Option<&str>, home: Option<&str>, windows: bool) -> (r:
    String)
    ensures
        r@ == manager_runtime_dir_spec(runtime_base(opt_str(data_local), opt_str(home)), windows),
{
    match data_local {
        Some(d) => manager_runtime_dir_in(d, windows),
        None => match home {
            Some(h) => manager_runtime_dir_in(h, windows),
            None => manager_runtime_dir_in(".", windows),
        },
    }
}

/// The manager's runtime directory: under the local data directory, else
/// under the home directory, else under `.`.  The home directory is asked
/// for only when the local data directory is unknown.
pub fn get_manager_runtime_dir(windows: bool) -> (r: String)
    ensures
        exists|d: Option<Seq<char>>, h: Option<Seq<char>>|
            r@ == #[trigger] manager_runtime_dir_spec(runtime_base(d, h), windows),
{
    match data_local_dir() {
        Some(d) => {
            let r = manager_runtime_dir_for(Some(d.as_str()), None, windows);
            assert(r@ == manager_runtime_dir_spec(runtime_base(Some(d@), None), windows));
            r
        },
        None => {
            let h = home_dir();
            match h {
                Some(h) => {
                    let r = manager_runtime_dir_for(None, Some(h.as_str()), windows);
                    assert(r@ == manager_runtime_dir_spec(runtime_base(None, Some(h@)), windows));
                    r
                },
                None => {
                    let r = manager_runtime_dir_for(None, None, windows);
                    assert(r@ == manager_runtime_dir_spec(runtime_base(None, None), windows));
                    r
                },
            }
        },
    }
}

} // verus!
