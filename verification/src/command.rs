//! Commands to run, described as values, and the reading of what a run
//! printed.  The caller runs a `CommandSpec` and hands back a
//! `CommandOutcome`.
use vstd::prelude::*;
use crate::text::{
    cat, cat3, chars_of, copy_str, find_ch, is_ws, lemma_split_ch_pieces, split_ch, split_chars,
    string_of, trim, trim_chars, trim_end_ws, trim_start_ws, trim_ws, views,
};

verus! {

/// A process to start: program, arguments, working directory, extra
/// environment variables (set in order, so a later one wins), and whether
/// the console window is hidden (Windows `CREATE_NO_WINDOW`).
pub struct CommandSpec {
    pub program: String,
    pub args: Vec<String>,
    pub current_dir: Option<String>,
    pub envs: Vec<(String, String)>,
    pub hide_window: bool,
}

/// What running a command gave: it ran to an exit status, with its output
/// decoded as text, or it could not be run at all.
pub enum CommandOutcome {
    Finished { success: bool, code: Option<i32>, stdout: String, stderr: String },
    NotRun { error: String },
}

/// The environment every command of the manager gets: whether the platform
/// is Windows, and the `PATH` to run with.
pub struct ShellEnv {
    pub windows: bool,
    pub path: String,
}

pub open spec fn env_views(e: Seq<(String, String)>) -> Seq<(Seq<char>, Seq<char>)> {
    e.map_values(|p: (String, String)| (p.0@, p.1@))
}

pub open spec fn opt_view(o: Option<String>) -> Option<Seq<char>> {
    match o {
        Some(s) => Some(s@),
        None => None,
    }
}

pub open spec fn result_view(r: Result<String, String>) -> Result<Seq<char>, Seq<char>> {
    match r {
        Ok(s) => Ok(s@),
        Err(e) => Err(e@),
    }
}

/// The command `program args...` with the common environment of `env`:
/// `PATH` set to `env.path`, console hidden on Windows.
pub open spec fn is_common_command(
    c: CommandSpec,
    program: Seq<char>,
    args: Seq<Seq<char>>,
    env: ShellEnv,
) -> bool {
    &&& c.program@ == program
    &&& views(c.args@) == args
    &&& c.current_dir is None
    &&& env_views(c.envs@) == seq![("PATH"@, env.path@)]
    &&& c.hide_window == env.windows
}

fn strings_of(items: &Vec<&str>) -> (r: Vec<String>)
    ensures
        views(r@) == items@.map_values(|s: &str| s@),
{
    let mut r: Vec<String> = Vec::new();
    let mut i: usize = 0;
    while i < items.len()
        invariant
            i <= items.len(),
            views(r@) == items@.subrange(0, i as int).map_values(|s: &str| s@),
        decreases items.len() - i,
    {
        r.push(copy_str(items[i]));
        proof {
            assert(items@.subrange(0, i + 1).map_values(|s: &str| s@) =~= items@.subrange(
                0,
                i as int,
            ).map_values(|s: &str| s@).push(items@[i as int]@));
            assert(views(r@) =~= views(r@.drop_last()).push(r@.last()@));
        }
        i = i + 1;
    }
    assert(items@.subrange(0, i as int) =~= items@);
    r
}

/// Copies of the strings in `items`.
pub fn clone_strings(items: &Vec<String>) -> (r: Vec<String>)
    ensures
        views(r@) == views(items@),
{
    let mut r: Vec<String> = Vec::new();
    let mut i: usize = 0;
    while i < items.len()
        invariant
            i <= items.len(),
            views(r@) == views(items@.subrange(0, i as int)),
        decreases items.len() - i,
    {
        r.push(items[i].clone());
        proof {
            assert(views(items@.subrange(0, i + 1)) =~= views(items@.subrange(0, i as int)).push(
                items@[i as int]@,
            ));
            assert(views(r@) =~= views(r@.drop_last()).push(r@.last()@));
        }
        i = i + 1;
    }
    assert(items@.subrange(0, i as int) =~= items@);
    r
}

/// Sets the environment every command gets: `PATH` and, on Windows, no
/// console window.
pub fn apply_common_env(command: &mut CommandSpec, env: &ShellEnv)
    ensures
        final(command).program == old(command).program,
        final(command).args == old(command).args,
        final(command).current_dir == old(command).current_dir,
        env_views(final(command).envs@) == env_views(old(command).envs@).push(
            ("PATH"@, env.path@),
        ),
        final(command).hide_window == env.windows,
{
    let ghost before = command.envs@;
    command.envs.push((copy_str("PATH"), env.path.clone()));
    command.hide_window = env.windows;
    assert(env_views(command.envs@) =~= env_views(before).push(("PATH"@, env.path@)));
}

fn common_command(program: &str, args: &Vec<&str>, env: &ShellEnv) -> (c: CommandSpec)
    ensures
        is_common_command(c, program@, args@.map_values(|s: &str| s@), *env),
{
    let mut c = CommandSpec {
        program: copy_str(program),
        args: strings_of(args),
        current_dir: None,
        envs: Vec::new(),
        hide_window: false,
    };
    apply_common_env(&mut c, env);
    assert(env_views(c.envs@) =~= seq![("PATH"@, env.path@)]);
    c
}

/// `cmd args...` with the common environment.
pub fn run_command(cmd: &str, args: &Vec<String>, env: &ShellEnv) -> (c: CommandSpec)
    ensures
        is_common_command(c, cmd@, views(args@), *env),
{
    let mut c = CommandSpec {
        program: copy_str(cmd),
        args: clone_strings(args),
        current_dir: None,
        envs: Vec::new(),
        hide_window: false,
    };
    apply_common_env(&mut c, env);
    assert(env_views(c.envs@) =~= seq![("PATH"@, env.path@)]);
    c
}

/// `bash -c <script>` with the common environment.
pub fn run_bash(script: &str, env: &ShellEnv) -> (c: CommandSpec)
    ensures
        is_common_command(c, "bash"@, seq!["-c"@, script@], *env),
{
    let args = vec!["-c", script];
    let c = common_command("bash", &args, env);
    assert(args@.map_values(|s: &str| s@) =~= seq!["-c"@, script@]);
    c
}

/// `cmd /c <script>` with the common environment.
pub fn run_cmd(script: &str, env: &ShellEnv) -> (c: CommandSpec)
    ensures
        is_common_command(c, "cmd"@, seq!["/c"@, script@], *env),
{
    let args = vec!["/c", script];
    let c = common_command("cmd", &args, env);
    assert(args@.map_values(|s: &str| s@) =~= seq!["/c"@, script@]);
    c
}

pub open spec fn powershell_args(script: Seq<char>) -> Seq<Seq<char>> {
    seq![
        "-NoProfile"@,
        "-NonInteractive"@,
        "-ExecutionPolicy"@,
        "Bypass"@,
        "-Command"@,
        script,
    ]
}

/// `powershell -NoProfile -NonInteractive -ExecutionPolicy Bypass -Command
/// <script>` with the common environment.
pub fn run_powershell(script: &str, env: &ShellEnv) -> (c: CommandSpec)
    ensures
        is_common_command(c, "powershell"@, powershell_args(script@), *env),
{
    let args = vec![
        "-NoProfile",
        "-NonInteractive",
        "-ExecutionPolicy",
        "Bypass",
        "-Command",
        script,
    ];
    let c = common_command("powershell", &args, env);
    assert(args@.map_values(|s: &str| s@) =~= powershell_args(script@));
    c
}

/// A script for the platform's shell: `cmd /c` on Windows (which has no
/// PowerShell execution-policy trouble), `bash -c` elsewhere.
pub open spec fn is_script_command(c: CommandSpec, script: Seq<char>, env: ShellEnv) -> bool {
    if env.windows {
        is_common_command(c, "cmd"@, seq!["/c"@, script], env)
    } else {
        is_common_command(c, "bash"@, seq!["-c"@, script], env)
    }
}

/// The command that runs `script` in the platform's shell.
pub fn run_script(script: &str, env: &ShellEnv) -> (c: CommandSpec)
    ensures
        is_script_command(c, script@, *env),
{
    if env.windows {
        run_cmd(script, env)
    } else {
        run_bash(script, env)
    }
}

/// The command that starts `script` in the background, in the platform's
/// shell; the caller does not wait for it.
pub fn spawn_background(script: &str, env: &ShellEnv) -> (c: CommandSpec)
    ensures
        is_script_command(c, script@, *env),
{
    run_script(script, env)
}

/// The command that asks whether `cmd` is on the `PATH`: `where` on
/// Windows, `which` elsewhere.
pub fn command_lookup(cmd: &str, env: &ShellEnv) -> (c: CommandSpec)
    ensures
        is_common_command(
            c,
            if env.windows {
                "where"@
            } else {
                "which"@
            },
            seq![cmd@],
            *env,
        ),
{
    let args = vec![cmd];
    assert(args@.map_values(|s: &str| s@) =~= seq![cmd@]);
    if env.windows {
        common_command("where", &args, env)
    } else {
        common_command("which", &args, env)
    }
}

/// A command exists when its lookup ran and succeeded.
pub fn command_exists(outcome: &CommandOutcome) -> (r: bool)
    ensures
        r == (match *outcome {
            CommandOutcome::Finished { success, .. } => success,
            CommandOutcome::NotRun { .. } => false,
        }),
{
    match outcome {
        CommandOutcome::Finished { success, .. } => *success,
        CommandOutcome::NotRun { .. } => false,
    }
}

/// The decimal digit `d`.
pub open spec fn digit_char(d: nat) -> char {
    if d == 0 {
        '0'
    } else if d == 1 {
        '1'
    } else if d == 2 {
        '2'
    } else if d == 3 {
        '3'
    } else if d == 4 {
        '4'
    } else if d == 5 {
        '5'
    } else if d == 6 {
        '6'
    } else if d == 7 {
        '7'
    } else if d == 8 {
        '8'
    } else {
        '9'
    }
}

/// The decimal digits of `n`.
pub open spec fn decimal(n: nat) -> Seq<char>
    decreases n,
{
    if n < 10 {
        seq![digit_char(n)]
    } else {
        decimal(n / 10).push(digit_char(n % 10))
    }
}

/// `{:?}` of an `i32`.
pub open spec fn debug_i32(n: i32) -> Seq<char> {
    if n < 0 {
        seq!['-'] + decimal((-n) as nat)
    } else {
        decimal(n as nat)
    }
}

/// `{:?}` of an `Option<i32>`: `Some(3)`, `Some(-1)` or `None`.
pub open spec fn debug_opt_i32(o: Option<i32>) -> Seq<char> {
    match o {
        Some(n) => "Some("@ + debug_i32(n) + ")"@,
        None => "None"@,
    }
}

fn digit_of(d: u32) -> (c: char)
    requires
        d < 10,
    ensures
        c == digit_char(d as nat),
{
    if d == 0 {
        '0'
    } else if d == 1 {
        '1'
    } else if d == 2 {
        '2'
    } else if d == 3 {
        '3'
    } else if d == 4 {
        '4'
    } else if d == 5 {
        '5'
    } else if d == 6 {
        '6'
    } else if d == 7 {
        '7'
    } else if d == 8 {
        '8'
    } else {
        '9'
    }
}

fn decimal_chars(n: u32) -> (r: Vec<char>)
    ensures
        r@ == decimal(n as nat),
    decreases n,
{
    if n < 10 {
        let mut v: Vec<char> = Vec::new();
        v.push(digit_of(n));
        assert(v@ =~= seq![digit_char(n as nat)]);
        v
    } else {
        let mut v = decimal_chars(n / 10);
        v.push(digit_of(n % 10));
        v
    }
}

/// `format!("{:?}", code)`.
pub fn debug_exit_code(code: Option<i32>) -> (r: String)
    ensures
        r@ == debug_opt_i32(code),
{
    match code {
        Some(n) => {
            let mut v: Vec<char> = Vec::new();
            if n < 0 {
                v.push('-');
                let m: u32 = (0i64 - (n as i64)) as u32;
                let d = decimal_chars(m);
                let mut i: usize = 0;
                while i < d.len()
                    invariant
                        i <= d.len(),
                        v@ == seq!['-'] + d@.subrange(0, i as int),
                    decreases d.len() - i,
                {
                    v.push(d[i]);
                    i = i + 1;
                }
                assert(d@.subrange(0, i as int) =~= d@);
            } else {
                v = decimal_chars(n as u32);
            }
            let digits = string_of(&v);
            cat3("Some(", digits.as_str(), ")")
        },
        None => copy_str("None"),
    }
}

/// How the manager reads a finished command: on success the trimmed
/// standard output; on failure the trimmed standard error, else the trimmed
/// standard output, else the exit code; when the command could not run,
/// the error.
pub open spec fn output_result(o: CommandOutcome) -> Result<Seq<char>, Seq<char>> {
    match o {
        CommandOutcome::NotRun { error } => Err(error@),
        CommandOutcome::Finished { success, code, stdout, stderr } => {
            if success {
                Ok(trim_ws(stdout@))
            } else if trim_ws(stderr@).len() > 0 {
                Err(trim_ws(stderr@))
            } else if trim_ws(stdout@).len() > 0 {
                Err(trim_ws(stdout@))
            } else {
                Err("Command failed with exit code: "@ + debug_opt_i32(code))
            }
        },
    }
}

/// The text of a command's outcome, or why it failed.
pub fn output_to_string(outcome: &CommandOutcome) -> (r: Result<String, String>)
    ensures
        result_view(r) == output_result(*outcome),
{
    match outcome {
        CommandOutcome::NotRun { error } => Err(error.clone()),
        CommandOutcome::Finished { success, code, stdout, stderr } => {
            if *success {
                Ok(trim(stdout.as_str()))
            } else {
                let err = trim(stderr.as_str());
                if err.unicode_len() > 0 {
                    Err(err)
                } else {
                    let out = trim(stdout.as_str());
                    if out.unicode_len() > 0 {
                        Err(out)
                    } else {
                        let c = debug_exit_code(*code);
                        Err(cat("Command failed with exit code: ", c.as_str()))
                    }
                }
            }
        },
    }
}

/// The output of a command run with `run_command`.
pub fn run_command_output(outcome: &CommandOutcome) -> (r: Result<String, String>)
    ensures
        result_view(r) == output_result(*outcome),
{
    output_to_string(outcome)
}

/// The output of a script run with `run_bash`.
pub fn run_bash_output(outcome: &CommandOutcome) -> (r: Result<String, String>)
    ensures
        result_view(r) == output_result(*outcome),
{
    output_to_string(outcome)
}

/// The output of a script run with `run_cmd`.
pub fn run_cmd_output(outcome: &CommandOutcome) -> (r: Result<String, String>)
    ensures
        result_view(r) == output_result(*outcome),
{
    output_to_string(outcome)
}

/// The output of a script run with `run_powershell`.
pub fn run_powershell_output(outcome: &CommandOutcome) -> (r: Result<String, String>)
    ensures
        result_view(r) == output_result(*outcome),
{
    output_to_string(outcome)
}

/// The output of a script run with `run_script`.
pub fn run_script_output(outcome: &CommandOutcome) -> (r: Result<String, String>)
    ensures
        result_view(r) == output_result(*outcome),
{
    output_to_string(outcome)
}

/// The trimmed, non-empty lines among `pieces`.
pub open spec fn trimmed_nonempty(pieces: Seq<Seq<char>>) -> Seq<Seq<char>>
    decreases pieces.len(),
{
    if pieces.len() == 0 {
        Seq::<Seq<char>>::empty()
    } else {
        let r = trimmed_nonempty(pieces.drop_last());
        if trim_ws(pieces.last()).len() > 0 {
            r.push(trim_ws(pieces.last()))
        } else {
            r
        }
    }
}

/// The lines of `s`, each trimmed, the empty ones left out.
pub open spec fn normalized_lines(s: Seq<char>) -> Seq<Seq<char>> {
    trimmed_nonempty(split_ch(s, '\n'))
}

proof fn lemma_trim_start_shape(s: Seq<char>)
    ensures
        exists|k: int|
            0 <= k <= s.len() && trim_start_ws(s) == s.subrange(k, s.len() as int) && (k
                == s.len() || !is_ws(s[k])),
    decreases s.len(),
{
    if s.len() > 0 && is_ws(s[0]) {
        lemma_trim_start_shape(s.drop_first());
        let k = choose|k: int|
            0 <= k <= s.drop_first().len() && trim_start_ws(s.drop_first())
                == s.drop_first().subrange(k, s.drop_first().len() as int) && (k
                == s.drop_first().len() || !is_ws(s.drop_first()[k]));
        assert(s.drop_first().subrange(k, s.drop_first().len() as int) =~= s.subrange(
            k + 1,
            s.len() as int,
        ));
        assert(k + 1 == s.len() || !is_ws(s[k + 1]));
    } else {
        assert(s.subrange(0, s.len() as int) =~= s);
    }
}

proof fn lemma_trim_end_shape(s: Seq<char>)
    ensures
        exists|k: int|
            0 <= k <= s.len() && trim_end_ws(s) == s.subrange(0, k) && (k == 0 || !is_ws(
                s[k - 1],
            )),
    decreases s.len(),
{
    if s.len() > 0 && is_ws(s.last()) {
        lemma_trim_end_shape(s.drop_last());
        let k = choose|k: int|
            0 <= k <= s.drop_last().len() && trim_end_ws(s.drop_last()) == s.drop_last().subrange(
                0,
                k,
            ) && (k == 0 || !is_ws(s.drop_last()[k - 1]));
        assert(s.drop_last().subrange(0, k) =~= s.subrange(0, k));
        assert(k == 0 || !is_ws(s[k - 1]));
    } else {
        assert(s.subrange(0, s.len() as int) =~= s);
    }
}

/// A trimmed string is a piece of the original with no whitespace at
/// either end.
pub proof fn lemma_trim_ws_shape(s: Seq<char>)
    ensures
        exists|a: int, b: int|
            0 <= a <= b <= s.len() && trim_ws(s) == s.subrange(a, b),
        trim_ws(s).len() > 0 ==> !is_ws(trim_ws(s)[0]) && !is_ws(trim_ws(s).last()),
        trim_ws(trim_ws(s)) == trim_ws(s),
{
    lemma_trim_start_shape(s);
    let k = choose|k: int|
        0 <= k <= s.len() && trim_start_ws(s) == s.subrange(k, s.len() as int) && (k == s.len()
            || !is_ws(s[k]));
    let t = trim_start_ws(s);
    lemma_trim_end_shape(t);
    let m = choose|m: int|
        0 <= m <= t.len() && trim_end_ws(t) == t.subrange(0, m) && (m == 0 || !is_ws(t[m - 1]));
    let y = trim_ws(s);
    assert(y =~= s.subrange(k, k + m));
    if y.len() > 0 {
        assert(y[0] == s[k]);
        assert(y.last() == t[m - 1]);
        assert(trim_start_ws(y) == y);
        assert(trim_end_ws(y) == y);
    } else {
        assert(trim_start_ws(y) == y);
        assert(trim_end_ws(y) == y);
    }
}

proof fn lemma_trimmed_nonempty_lines(pieces: Seq<Seq<char>>)
    requires
        forall|i: int, j: int|
            0 <= i < pieces.len() && 0 <= j < pieces[i].len() ==> pieces[i][j] != '\n',
    ensures
        forall|i: int|
            0 <= i < trimmed_nonempty(pieces).len() ==> {
                let l = #[trigger] trimmed_nonempty(pieces)[i];
                &&& l.len() > 0
                &&& trim_ws(l) == l
                &&& forall|j: int| 0 <= j < l.len() ==> l[j] != '\n'
            },
    decreases pieces.len(),
{
    if pieces.len() > 0 {
        let q = pieces.drop_last();
        assert forall|i: int, j: int| 0 <= i < q.len() && 0 <= j < q[i].len() implies q[i][j]
            != '\n' by {
            assert(q[i] == pieces[i]);
        }
        lemma_trimmed_nonempty_lines(q);
        let last = pieces.last();
        lemma_trim_ws_shape(last);
        let (a, b) = choose|a: int, b: int|
            0 <= a <= b <= last.len() && trim_ws(last) == last.subrange(a, b);
        assert forall|j: int| 0 <= j < trim_ws(last).len() implies trim_ws(last)[j] != '\n' by {
            assert(trim_ws(last)[j] == last[a + j]);
            assert(pieces[pieces.len() - 1] == last);
        }
        let r = trimmed_nonempty(q);
        let all = trimmed_nonempty(pieces);
        assert forall|i: int| 0 <= i < all.len() implies {
            let l = #[trigger] all[i];
            &&& l.len() > 0
            &&& trim_ws(l) == l
            &&& forall|j: int| 0 <= j < l.len() ==> l[j] != '\n'
        } by {
            if i < r.len() {
                assert(all[i] == r[i]);
            } else {
                assert(all[i] == trim_ws(last));
            }
        }
    }
}

fn trimmed_nonempty_of(pieces: &Vec<Vec<char>>) -> (r: Vec<String>)
    ensures
        forall|ps: Seq<Seq<char>>|
            ps.len() == pieces@.len() && (forall|k: int|
                0 <= k < ps.len() ==> #[trigger] ps[k] == pieces@[k]@) ==> views(r@)
                == trimmed_nonempty(ps),
{
    let mut r: Vec<String> = Vec::new();
    let mut i: usize = 0;
    let ghost pv = pieces@.map_values(|p: Vec<char>| p@);
    assert(pv.subrange(0, 0) =~= Seq::<Seq<char>>::empty());
    while i < pieces.len()
        invariant
            i <= pieces.len(),
            pv == pieces@.map_values(|p: Vec<char>| p@),
            views(r@) == trimmed_nonempty(pv.subrange(0, i as int)),
        decreases pieces.len() - i,
    {
        assert(pv.subrange(0, i + 1).drop_last() =~= pv.subrange(0, i as int));
        let t = trim_chars(&pieces[i]);
        if t.len() > 0 {
            let ghost before = r@;
            r.push(string_of(&t));
            assert(views(r@) =~= views(before).push(t@));
        }
        i = i + 1;
    }
    assert(pv.subrange(0, i as int) =~= pv);
    assert forall|ps: Seq<Seq<char>>|
        ps.len() == pieces@.len() && (forall|k: int|
            0 <= k < ps.len() ==> #[trigger] ps[k] == pieces@[k]@) implies views(r@)
        == trimmed_nonempty(ps) by {
        assert(ps =~= pv);
    }
    r
}

/// The non-empty lines of a command's output, each trimmed.  Every line it
/// returns is non-empty, has no whitespace at either end and no line break.
pub fn normalize_lines(output: &str) -> (r: Vec<String>)
    ensures
        views(r@) == normalized_lines(output@),
        forall|i: int|
            0 <= i < r@.len() ==> {
                let l = #[trigger] r@[i]@;
                &&& l.len() > 0
                &&& trim_ws(l) == l
                &&& forall|j: int| 0 <= j < l.len() ==> l[j] != '\n'
            },
{
    let v = chars_of(output);
    let pieces = split_chars(&v, '\n');
    let r = trimmed_nonempty_of(&pieces);
    proof {
        let ps = split_ch(v@, '\n');
        lemma_split_ch_pieces(v@, '\n');
        lemma_trimmed_nonempty_lines(ps);
        assert(ps.len() == pieces@.len() && (forall|k: int|
            0 <= k < ps.len() ==> #[trigger] ps[k] == pieces@[k]@));
        assert(views(r@) == trimmed_nonempty(ps));
        assert forall|i: int| 0 <= i < r@.len() implies {
            let l = #[trigger] r@[i]@;
            &&& l.len() > 0
            &&& trim_ws(l) == l
            &&& forall|j: int| 0 <= j < l.len() ==> l[j] != '\n'
        } by {
            assert(r@[i]@ == views(r@)[i]);
        }
    }
    r
}

/// The lines of the output keep their order: adding a line after the
/// output adds its trimmed text at the end of the lines, unless it is blank.
pub proof fn law_normalized_lines_append(out: Seq<char>, line: Seq<char>)
    requires
        forall|j: int| 0 <= j < line.len() ==> line[j] != '\n',
    ensures
        normalized_lines(out + "\n"@ + line) == normalized_lines(out) + if trim_ws(line).len() > 0 {
            seq![trim_ws(line)]
        } else {
            Seq::<Seq<char>>::empty()
        },
{
    reveal_strlit("\n");
    assert(out + "\n"@ + line =~= out.push('\n') + line);
    crate::text::lemma_split_append_piece(out, line, '\n');
    let sc = split_ch(out, '\n');
    assert(sc.push(line).drop_last() =~= sc);
    if trim_ws(line).len() > 0 {
        assert(normalized_lines(out) + seq![trim_ws(line)] =~= normalized_lines(out).push(
            trim_ws(line),
        ));
    } else {
        assert(normalized_lines(out) + Seq::<Seq<char>>::empty() =~= normalized_lines(out));
    }
}

/// A single line (no newline) gives its trimmed text, or nothing when it
/// is blank.
pub proof fn law_normalized_single_line(line: Seq<char>)
    requires
        forall|j: int| 0 <= j < line.len() ==> line[j] != '\n',
    ensures
        normalized_lines(line) == if trim_ws(line).len() > 0 {
            seq![trim_ws(line)]
        } else {
            Seq::<Seq<char>>::empty()
        },
{
    crate::text::lemma_find_ch(line, '\n');
    crate::text::lemma_split_ch_first(line, '\n');
    if find_ch(line, '\n') is Some {
        let i = find_ch(line, '\n')->0;
        assert(line[i] == '\n');
    }
    let sp = split_ch(line, '\n');
    assert(sp =~= seq![line]);
    assert(sp.drop_last() =~= Seq::<Seq<char>>::empty());
    assert(trimmed_nonempty(Seq::<Seq<char>>::empty()) =~= Seq::<Seq<char>>::empty());
    if trim_ws(line).len() > 0 {
        assert(Seq::<Seq<char>>::empty().push(trim_ws(line)) =~= seq![trim_ws(line)]);
    }
}

} // verus!
