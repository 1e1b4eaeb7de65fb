//! Where Node.js and OpenClaw are found: the bundled runtime shipped with
//! the application, else a system installation.  Resolution is a function
//! of the paths that exist; the caller probes the disk and records what it
//! found in an `ExistingPaths`.
use vstd::prelude::*;
use crate::text::{
    cat, cat3, chars_of, copy_str, ends_with_chars, has_prefix, has_suffix, split_ch, split_chars, starts_with_chars, string_of,
    sub_chars, trim, trim_chars, trim_ws, views,
};
use crate::command::{
    apply_common_env, env_views, output_result, output_to_string, CommandOutcome, is_common_command, normalized_lines, normalize_lines, opt_view, result_view, run_bash, run_cmd,
    run_command, CommandSpec, ShellEnv,
};
use crate::platform::{has_drive, is_sep, join_all, join_path_all};
use crate::envfile::{env_vars_of, load_openclaw_env_vars, pairs_map, unique_keys};

verus! {

/// A Node.js runtime: the bundled one (its directory and binary) or a
/// system one (its binary).
pub enum NodeRuntime {
    Bundled { root: String, path: String },
    System(String),
}

/// The bundled OpenClaw runtime: the runtime root, the bundled Node.js
/// directory and binary, the OpenClaw package directory and its entry
/// script.
pub struct BundledOpenClawRuntime {
    pub runtime_root: String,
    pub node_root: String,
    pub node_path: String,
    pub package_root: String,
    pub entry_path: String,
}

/// A system installation of OpenClaw: its executable.
pub struct SystemOpenClawRuntime {
    pub executable_path: String,
}

pub enum OpenClawRuntime {
    Bundled(BundledOpenClawRuntime),
    System(SystemOpenClawRuntime),
}

/// The paths found to exist on disk.
pub struct ExistingPaths {
    pub paths: Vec<String>,
}

pub open spec fn exists_in(e: Seq<String>, p: Seq<char>) -> bool {
    exists|i: int| 0 <= i < e.len() && #[trigger] e[i]@ == p
}

impl ExistingPaths {
    pub open spec fn has(&self, p: Seq<char>) -> bool {
        exists_in(self.paths@, p)
    }

    /// No path known to exist.
    pub fn new() -> (r: ExistingPaths)
        ensures
            forall|p: Seq<char>| !r.has(p),
    {
        ExistingPaths { paths: Vec::new() }
    }

    /// Records that `path` exists.
    pub fn mark(&mut self, path: &str)
        ensures
            forall|p: Seq<char>| final(self).has(p) <==> (old(self).has(p) || p == path@),
    {
        let ghost before = self.paths@;
        self.paths.push(copy_str(path));
        assert forall|p: Seq<char>| self.has(p) <==> (exists_in(before, p) || p == path@) by {
            if exists_in(before, p) {
                let i = choose|i: int| 0 <= i < before.len() && #[trigger] before[i]@ == p;
                assert(self.paths@[i]@ == p);
            }
            if p == path@ {
                assert(self.paths@[before.len() as int]@ == p);
            }
            if self.has(p) {
                let i = choose|i: int| 0 <= i < self.paths@.len() && #[trigger] self.paths@[i]@ == p;
                if i < before.len() {
                    assert(before[i]@ == p);
                }
            }
        }
    }

    /// Whether `path` is known to exist.
    pub fn contains(&self, path: &str) -> (r: bool)
        ensures
            r == self.has(path@),
    {
        let q = copy_str(path);
        let mut i: usize = 0;
        while i < self.paths.len()
            invariant
                i <= self.paths.len(),
                q@ == path@,
                forall|k: int| 0 <= k < i ==> self.paths@[k]@ != path@,
            decreases self.paths.len() - i,
        {
            if self.paths[i] == q {
                return true;
            }
            i = i + 1;
        }
        false
    }
}

/// The first of `candidates` that exists.
pub open spec fn first_existing(candidates: Seq<Seq<char>>, e: ExistingPaths) -> Option<Seq<char>>
    decreases candidates.len(),
{
    if candidates.len() == 0 {
        None
    } else if e.has(candidates[0]) {
        Some(candidates[0])
    } else {
        first_existing(candidates.drop_first(), e)
    }
}

/// The first of `candidates` that exists.
pub fn first_existing_path(candidates: &Vec<String>, existing: &ExistingPaths) -> (r: Option<
    String,
>)
    ensures
        match r {
            Some(p) => first_existing(views(candidates@), *existing) == Some(p@),
            None => first_existing(views(candidates@), *existing) is None,
        },
{
    let ghost cv = views(candidates@);
    let mut i: usize = 0;
    assert(cv.subrange(0, cv.len() as int) =~= cv);
    while i < candidates.len()
        invariant
            i <= candidates.len(),
            cv == views(candidates@),
            first_existing(cv, *existing) == first_existing(
                cv.subrange(i as int, cv.len() as int),
                *existing,
            ),
        decreases candidates.len() - i,
    {
        let ghost rest = cv.subrange(i as int, cv.len() as int);
        assert(rest[0] == candidates@[i as int]@);
        if existing.contains(candidates[i].as_str()) {
            return Some(candidates[i].clone());
        }
        assert(rest.drop_first() =~= cv.subrange(i + 1, cv.len() as int));
        i = i + 1;
    }
    None
}

pub open spec fn lits(s: Seq<&str>) -> Seq<Seq<char>> {
    s.map_values(|c: &str| c@)
}

/// The directories where the bundled Node.js may be, in order.
pub open spec fn node_root_candidates(root: Seq<char>, w: bool) -> Seq<Seq<char>> {
    seq![
        join_all(root, seq!["tools"@, "node"@], w),
        join_all(root, seq!["node"@], w),
        join_all(root, seq!["nodejs"@], w),
    ]
}

/// The binaries in a Node.js directory, in order.
pub open spec fn node_binary_candidates(dir: Seq<char>, w: bool) -> Seq<Seq<char>> {
    if w {
        seq![join_all(dir, seq!["node.exe"@], w), join_all(dir, seq!["bin"@, "node.exe"@], w)]
    } else {
        seq![join_all(dir, seq!["bin"@, "node"@], w), join_all(dir, seq!["node"@], w)]
    }
}

/// The first directory among `dirs` that exists and holds a Node.js
/// binary, with that binary.
pub open spec fn node_in(dirs: Seq<Seq<char>>, w: bool, e: ExistingPaths) -> Option<
    (Seq<char>, Seq<char>),
>
    decreases dirs.len(),
{
    if dirs.len() == 0 {
        None
    } else if e.has(dirs[0]) && first_existing(node_binary_candidates(dirs[0], w), e) is Some {
        Some((dirs[0], first_existing(node_binary_candidates(dirs[0], w), e)->0))
    } else {
        node_in(dirs.drop_first(), w, e)
    }
}

/// The bundled Node.js under a runtime root.
pub open spec fn bundled_node_spec(root: Option<Seq<char>>, w: bool, e: ExistingPaths) -> Option<
    (Seq<char>, Seq<char>),
> {
    match root {
        Some(r) => node_in(node_root_candidates(r, w), w, e),
        None => None,
    }
}

pub open spec fn node_view(n: NodeRuntime) -> (bool, Seq<char>, Seq<char>) {
    match n {
        NodeRuntime::Bundled { root, path } => (true, root@, path@),
        NodeRuntime::System(p) => (false, Seq::<char>::empty(), p@),
    }
}

fn join1(base: &str, a: &str, w: bool) -> (r: String)
    ensures
        r@ == join_all(base@, seq![a@], w),
{
    let c = vec![a];
    assert(lits(c@) =~= seq![a@]);
    join_path_all(base, &c, w)
}

fn join2(base: &str, a: &str, b: &str, w: bool) -> (r: String)
    ensures
        r@ == join_all(base@, seq![a@, b@], w),
{
    let c = vec![a, b];
    assert(lits(c@) =~= seq![a@, b@]);
    join_path_all(base, &c, w)
}

fn join3(base: &str, a: &str, b: &str, d: &str, w: bool) -> (r: String)
    ensures
        r@ == join_all(base@, seq![a@, b@, d@], w),
{
    let c = vec![a, b, d];
    assert(lits(c@) =~= seq![a@, b@, d@]);
    join_path_all(base, &c, w)
}

fn join4(base: &str, a: &str, b: &str, d: &str, e: &str, w: bool) -> (r: String)
    ensures
        r@ == join_all(base@, seq![a@, b@, d@, e@], w),
{
    let c = vec![a, b, d, e];
    assert(lits(c@) =~= seq![a@, b@, d@, e@]);
    join_path_all(base, &c, w)
}

fn join5(base: &str, a: &str, b: &str, d: &str, e: &str, f: &str, w: bool) -> (r: String)
    ensures
        r@ == join_all(base@, seq![a@, b@, d@, e@, f@], w),
{
    let c = vec![a, b, d, e, f];
    assert(lits(c@) =~= seq![a@, b@, d@, e@, f@]);
    join_path_all(base, &c, w)
}

fn node_roots(root: &str, windows: bool) -> (r: Vec<String>)
    ensures
        views(r@) == node_root_candidates(root@, windows),
{
    let r = vec![
        join2(root, "tools", "node", windows),
        join1(root, "node", windows),
        join1(root, "nodejs", windows),
    ];
    assert(views(r@) =~= node_root_candidates(root@, windows));
    r
}

fn node_binaries(dir: &str, windows: bool) -> (r: Vec<String>)
    ensures
        views(r@) == node_binary_candidates(dir@, windows),
{
    let r = if windows {
        vec![join1(dir, "node.exe", windows), join2(dir, "bin", "node.exe", windows)]
    } else {
        vec![join2(dir, "bin", "node", windows), join1(dir, "node", windows)]
    };
    assert(views(r@) =~= node_binary_candidates(dir@, windows));
    r
}

/// The first Node.js directory among `dirs` that exists and holds a binary.
fn find_node(dirs: &Vec<String>, windows: bool, existing: &ExistingPaths) -> (r: Option<
    (String, String),
>)
    ensures
        match r {
            Some(p) => node_in(views(dirs@), windows, *existing) == Some((p.0@, p.1@)),
            None => node_in(views(dirs@), windows, *existing) is None,
        },
{
    let ghost dv = views(dirs@);
    let mut i: usize = 0;
    assert(dv.subrange(0, dv.len() as int) =~= dv);
    while i < dirs.len()
        invariant
            i <= dirs.len(),
            dv == views(dirs@),
            node_in(dv, windows, *existing) == node_in(
                dv.subrange(i as int, dv.len() as int),
                windows,
                *existing,
            ),
        decreases dirs.len() - i,
    {
        let ghost rest = dv.subrange(i as int, dv.len() as int);
        assert(rest[0] == dirs@[i as int]@);
        if existing.contains(dirs[i].as_str()) {
            let bins = node_binaries(dirs[i].as_str(), windows);
            match first_existing_path(&bins, existing) {
                Some(p) => {
                    return Some((dirs[i].clone(), p));
                },
                None => {},
            }
        }
        assert(rest.drop_first() =~= dv.subrange(i + 1, dv.len() as int));
        i = i + 1;
    }
    None
}

/// The bundled Node.js: the first of `<root>/tools/node`, `<root>/node`,
/// `<root>/nodejs` that exists and holds `bin/node` or `node` (on Windows
/// `node.exe` or `bin/node.exe`).
pub fn resolve_bundled_node_runtime(
    runtime_root: Option<&str>,
    windows: bool,
    existing: &ExistingPaths,
) -> (r: Option<NodeRuntime>)
    ensures
        match r {
            Some(n) => n is Bundled && bundled_node_spec(
                match runtime_root {
                    Some(x) => Some(x@),
                    None => None,
                },
                windows,
                *existing,
            ) == Some((node_view(n).1, node_view(n).2)),
            None => bundled_node_spec(
                match runtime_root {
                    Some(x) => Some(x@),
                    None => None,
                },
                windows,
                *existing,
            ) is None,
        },
{
    match runtime_root {
        Some(root) => {
            let dirs = node_roots(root, windows);
            match find_node(&dirs, windows, existing) {
                Some((d, p)) => Some(NodeRuntime::Bundled { root: d, path: p }),
                None => None,
            }
        },
        None => None,
    }
}

/// The directories where the bundled OpenClaw package may be, in order.
pub open spec fn package_root_candidates(root: Seq<char>, w: bool) -> Seq<Seq<char>> {
    seq![
        join_all(root, seq!["lib"@, "node_modules"@, "openclaw"@], w),
        join_all(root, seq!["openclaw"@], w),
        join_all(root, seq!["packages"@, "openclaw"@], w),
    ]
}

/// The entry scripts of an OpenClaw package, in order.
pub open spec fn entry_candidates(dir: Seq<char>, w: bool) -> Seq<Seq<char>> {
    seq![join_all(dir, seq!["openclaw.mjs"@], w), join_all(dir, seq!["dist"@, "entry.js"@], w)]
}

/// The first package directory among `dirs` that exists and holds an
/// entry script, with that script.
pub open spec fn package_in(dirs: Seq<Seq<char>>, w: bool, e: ExistingPaths) -> Option<
    (Seq<char>, Seq<char>),
>
    decreases dirs.len(),
{
    if dirs.len() == 0 {
        None
    } else if e.has(dirs[0]) && first_existing(entry_candidates(dirs[0], w), e) is Some {
        Some((dirs[0], first_existing(entry_candidates(dirs[0], w), e)->0))
    } else {
        package_in(dirs.drop_first(), w, e)
    }
}

/// The bundled OpenClaw runtime under a runtime root: its bundled Node.js
/// and its package, both of which must be found.
pub open spec fn bundled_openclaw_spec(root: Option<Seq<char>>, w: bool, e: ExistingPaths) -> Option<
    (Seq<char>, Seq<char>, Seq<char>, Seq<char>, Seq<char>),
> {
    match root {
        Some(r) => match node_in(node_root_candidates(r, w), w, e) {
            Some((nr, np)) => match package_in(package_root_candidates(r, w), w, e) {
                Some((pr, ep)) => Some((r, nr, np, pr, ep)),
                None => None,
            },
            None => None,
        },
        None => None,
    }
}

pub open spec fn bundled_view(b: BundledOpenClawRuntime) -> (
    Seq<char>,
    Seq<char>,
    Seq<char>,
    Seq<char>,
    Seq<char>,
) {
    (b.runtime_root@, b.node_root@, b.node_path@, b.package_root@, b.entry_path@)
}

fn package_roots(root: &str, windows: bool) -> (r: Vec<String>)
    ensures
        views(r@) == package_root_candidates(root@, windows),
{
    let r = vec![
        join3(root, "lib", "node_modules", "openclaw", windows),
        join1(root, "openclaw", windows),
        join2(root, "packages", "openclaw", windows),
    ];
    assert(views(r@) =~= package_root_candidates(root@, windows));
    r
}

fn entries(dir: &str, windows: bool) -> (r: Vec<String>)
    ensures
        views(r@) == entry_candidates(dir@, windows),
{
    let r = vec![join1(dir, "openclaw.mjs", windows), join2(dir, "dist", "entry.js", windows)];
    assert(views(r@) =~= entry_candidates(dir@, windows));
    r
}

fn find_package(dirs: &Vec<String>, windows: bool, existing: &ExistingPaths) -> (r: Option<
    (String, String),
>)
    ensures
        match r {
            Some(p) => package_in(views(dirs@), windows, *existing) == Some((p.0@, p.1@)),
            None => package_in(views(dirs@), windows, *existing) is None,
        },
{
    let ghost dv = views(dirs@);
    let mut i: usize = 0;
    assert(dv.subrange(0, dv.len() as int) =~= dv);
    while i < dirs.len()
        invariant
            i <= dirs.len(),
            dv == views(dirs@),
            package_in(dv, windows, *existing) == package_in(
                dv.subrange(i as int, dv.len() as int),
                windows,
                *existing,
            ),
        decreases dirs.len() - i,
    {
        let ghost rest = dv.subrange(i as int, dv.len() as int);
        assert(rest[0] == dirs@[i as int]@);
        if existing.contains(dirs[i].as_str()) {
            let es = entries(dirs[i].as_str(), windows);
            match first_existing_path(&es, existing) {
                Some(p) => {
                    return Some((dirs[i].clone(), p));
                },
                None => {},
            }
        }
        assert(rest.drop_first() =~= dv.subrange(i + 1, dv.len() as int));
        i = i + 1;
    }
    None
}

/// The bundled OpenClaw runtime: the bundled Node.js (as
/// `resolve_bundled_node_runtime` finds it) and the first of
/// `<root>/lib/node_modules/openclaw`, `<root>/openclaw`,
/// `<root>/packages/openclaw` that exists and holds `openclaw.mjs` or
/// `dist/entry.js`.
pub fn resolve_bundled_openclaw_runtime(
    runtime_root: Option<&str>,
    windows: bool,
    existing: &ExistingPaths,
) -> (r: Option<BundledOpenClawRuntime>)
    ensures
        match r {
            Some(b) => bundled_openclaw_spec(
                match runtime_root {
                    Some(x) => Some(x@),
                    None => None,
                },
                windows,
                *existing,
            ) == Some(bundled_view(b)),
            None => bundled_openclaw_spec(
                match runtime_root {
                    Some(x) => Some(x@),
                    None => None,
                },
                windows,
                *existing,
            ) is None,
        },
{
    match runtime_root {
        Some(root) => {
            let node = resolve_bundled_node_runtime(Some(root), windows, existing);
            let (node_root, node_path) = match node {
                Some(NodeRuntime::Bundled { root: nr, path: np }) => (nr, np),
                _ => return None,
            };
            let dirs = package_roots(root, windows);
            match find_package(&dirs, windows, existing) {
                Some((package_root, entry_path)) => Some(
                    BundledOpenClawRuntime {
                        runtime_root: copy_str(root),
                        node_root,
                        node_path,
                        package_root,
                        entry_path,
                    },
                ),
                None => None,
            }
        },
        None => None,
    }
}

/// Every path whose existence the bundled resolution reads.
pub open spec fn bundled_probe_list(root: Seq<char>, w: bool) -> Seq<Seq<char>> {
    let nr = node_root_candidates(root, w);
    let pr = package_root_candidates(root, w);
    nr + node_binary_candidates(nr[0], w) + node_binary_candidates(nr[1], w)
        + node_binary_candidates(nr[2], w) + pr + entry_candidates(pr[0], w) + entry_candidates(
        pr[1],
        w,
    ) + entry_candidates(pr[2], w)
}

fn append_all(out: &mut Vec<String>, items: Vec<String>)
    ensures
        views(final(out)@) == views(old(out)@) + views(items@),
{
    let mut items = items;
    let ghost start = views(out@);
    let ghost iv = views(items@);
    let mut i: usize = 0;
    while i < items.len()
        invariant
            i <= items.len(),
            iv == views(items@),
            views(out@) == start + iv.subrange(0, i as int),
        decreases items.len() - i,
    {
        let ghost before = views(out@);
        out.push(items[i].clone());
        assert(views(out@) =~= before.push(iv[i as int]));
        assert(iv.subrange(0, i + 1) =~= iv.subrange(0, i as int).push(iv[i as int]));
        i = i + 1;
    }
    assert(iv.subrange(0, i as int) =~= iv);
}

/// The paths to probe before resolving the bundled runtime under
/// `runtime_root`: the Node.js directories and binaries, the package
/// directories and entry scripts.
pub fn bundled_probe_paths(runtime_root: &str, windows: bool) -> (r: Vec<String>)
    ensures
        views(r@) == bundled_probe_list(runtime_root@, windows),
{
    let nr = node_roots(runtime_root, windows);
    let pr = package_roots(runtime_root, windows);
    let mut out: Vec<String> = Vec::new();
    append_all(&mut out, clone_all(&nr));
    append_all(&mut out, node_binaries(nr[0].as_str(), windows));
    append_all(&mut out, node_binaries(nr[1].as_str(), windows));
    append_all(&mut out, node_binaries(nr[2].as_str(), windows));
    append_all(&mut out, clone_all(&pr));
    append_all(&mut out, entries(pr[0].as_str(), windows));
    append_all(&mut out, entries(pr[1].as_str(), windows));
    append_all(&mut out, entries(pr[2].as_str(), windows));
    assert(views(nr@)[0] == nr@[0]@);
    assert(views(nr@)[1] == nr@[1]@);
    assert(views(nr@)[2] == nr@[2]@);
    assert(views(pr@)[0] == pr@[0]@);
    assert(views(pr@)[1] == pr@[1]@);
    assert(views(pr@)[2] == pr@[2]@);
    assert(views(out@) =~= bundled_probe_list(runtime_root@, windows));
    out
}

fn clone_all(v: &Vec<String>) -> (r: Vec<String>)
    ensures
        views(r@) == views(v@),
{
    crate::command::clone_strings(v)
}


/// A trimmed, non-empty version read from nvm's `alias/default` file.
pub open spec fn nvm_default_version(content: Option<Seq<char>>) -> Option<Seq<char>> {
    match content {
        Some(c) => if trim_ws(c).len() > 0 {
            Some(trim_ws(c))
        } else {
            None
        },
        None => None,
    }
}

fn default_version(content: Option<&str>) -> (r: Option<String>)
    ensures
        opt_view(r) == nvm_default_version(
            match content {
                Some(c) => Some(c@),
                None => None,
            },
        ),
{
    match content {
        Some(c) => {
            let t = trim(c);
            if t.unicode_len() > 0 {
                Some(t)
            } else {
                None
            }
        },
        None => None,
    }
}

/// nvm's file naming its default Node.js version: `<home>/.nvm/alias/default`.
pub fn nvm_alias_file(home: &str) -> (r: String)
    ensures
        r@ == home@ + "/.nvm/alias/default"@,
{
    cat(home, "/.nvm/alias/default")
}

pub open spec fn opt_str(o: Option<&str>) -> Option<Seq<char>> {
    match o {
        Some(s) => Some(s@),
        None => None,
    }
}

/// Where a system Node.js may be on macOS and Linux, in order: the version
/// nvm names as default, the package-manager locations, a few nvm
/// versions, then fnm, Volta, asdf and mise.
pub open spec fn unix_node_paths(home: Option<Seq<char>>, nvm_default: Option<Seq<char>>) -> Seq<
    Seq<char>,
> {
    let base = seq![
        "/opt/homebrew/bin/node"@,
        "/usr/local/bin/node"@,
        "/usr/bin/node"@,
    ];
    match home {
        None => base,
        Some(h) => {
            let mid = base + seq![
                h + "/.nvm/versions/node/v22.0.0/bin/node"@,
                h + "/.nvm/versions/node/v22.1.0/bin/node"@,
                h + "/.nvm/versions/node/v22.2.0/bin/node"@,
                h + "/.nvm/versions/node/v22.11.0/bin/node"@,
                h + "/.nvm/versions/node/v22.12.0/bin/node"@,
                h + "/.nvm/versions/node/v23.0.0/bin/node"@,
            ];
            let first = match nvm_default_version(nvm_default) {
                Some(v) => seq![h + "/.nvm/versions/node/v"@ + v + "/bin/node"@] + mid,
                None => mid,
            };
            first + seq![
                h + "/.fnm/aliases/default/bin/node"@,
                h + "/.volta/bin/node"@,
                h + "/.asdf/shims/node"@,
                h + "/.local/share/mise/shims/node"@,
            ]
        },
    }
}

fn cat4(a: &str, b: &str, c: &str, d: &str) -> (r: String)
    ensures
        r@ == a@ + b@ + c@ + d@,
{
    let x = cat3(a, b, c);
    cat(x.as_str(), d)
}

/// The candidate system Node.js binaries on macOS and Linux, given the home
/// directory and the content of nvm's default-version file.
pub fn get_unix_node_paths(home: Option<&str>, nvm_default: Option<&str>) -> (r: Vec<String>)
    ensures
        views(r@) == unix_node_paths(opt_str(home), opt_str(nvm_default)),
{
    let mut paths = vec![
        copy_str("/opt/homebrew/bin/node"),
        copy_str("/usr/local/bin/node"),
        copy_str("/usr/bin/node"),
    ];
    match home {
        None => {
            assert(views(paths@) =~= unix_node_paths(opt_str(home), opt_str(nvm_default)));
            paths
        },
        Some(h) => {
            let ghost base = views(paths@);
            append_all(
                &mut paths,
                vec![
                    cat(h, "/.nvm/versions/node/v22.0.0/bin/node"),
                    cat(h, "/.nvm/versions/node/v22.1.0/bin/node"),
                    cat(h, "/.nvm/versions/node/v22.2.0/bin/node"),
                    cat(h, "/.nvm/versions/node/v22.11.0/bin/node"),
                    cat(h, "/.nvm/versions/node/v22.12.0/bin/node"),
                    cat(h, "/.nvm/versions/node/v23.0.0/bin/node"),
                ],
            );
            let ghost mid = views(paths@);
            match default_version(nvm_default) {
                Some(v) => {
                    paths.insert(0, cat4(h, "/.nvm/versions/node/v", v.as_str(), "/bin/node"));
                    assert(views(paths@) =~= seq![h@ + "/.nvm/versions/node/v"@ + v@ + "/bin/node"@]
                        + mid);
                },
                None => {},
            }
            append_all(
                &mut paths,
                vec![
                    cat(h, "/.fnm/aliases/default/bin/node"),
                    cat(h, "/.volta/bin/node"),
                    cat(h, "/.asdf/shims/node"),
                    cat(h, "/.local/share/mise/shims/node"),
                ],
            );
            assert(views(paths@) =~= unix_node_paths(opt_str(home), opt_str(nvm_default)));
            paths
        },
    }
}

/// The Node.js version that a line of nvm-windows' `settings.txt` names
/// as current: the trimmed text after a leading `current:`, if not empty.
pub open spec fn current_version(line: Seq<char>) -> Option<Seq<char>> {
    if has_prefix(line, "current:"@) {
        let v = trim_ws(line.subrange(("current:"@).len() as int, line.len() as int));
        if v.len() > 0 {
            Some(v)
        } else {
            None
        }
    } else {
        None
    }
}

/// For each `current:` line, `<nvm_home>\v<version>\node.exe`; a later
/// line comes first.
pub open spec fn nvm_current_paths(lines: Seq<Seq<char>>, nvm_home: Seq<char>) -> Seq<Seq<char>>
    decreases lines.len(),
{
    if lines.len() == 0 {
        Seq::<Seq<char>>::empty()
    } else {
        let r = nvm_current_paths(lines.drop_last(), nvm_home);
        match current_version(lines.last()) {
            Some(v) => seq![nvm_home + "\\v"@ + v + "\\node.exe"@] + r,
            None => r,
        }
    }
}

/// Where a system Node.js may be on Windows, in order: the versions
/// nvm-windows' settings name as current, its symlink, the installer's and
/// version managers' locations, then `ProgramFiles` and
/// `ProgramFiles(x86)`.
pub open spec fn windows_node_paths(
    home: Option<Seq<char>>,
    program_files: Option<Seq<char>>,
    program_files_x86: Option<Seq<char>>,
    nvm_symlink: Option<Seq<char>>,
    nvm_home: Option<Seq<char>>,
    nvm_settings: Option<Seq<char>>,
) -> Seq<Seq<char>> {
    let base = seq![
        "C:\\Program Files\\nodejs\\node.exe"@,
        "C:\\Program Files (x86)\\nodejs\\node.exe"@,
        "C:\\nvm4w\\nodejs\\node.exe"@,
    ];
    let with_home = match home {
        Some(h) => base + seq![
            h + "\\AppData\\Roaming\\nvm\\current\\node.exe"@,
            h + "\\AppData\\Roaming\\fnm\\aliases\\default\\node.exe"@,
            h + "\\AppData\\Local\\fnm\\aliases\\default\\node.exe"@,
            h + "\\.fnm\\aliases\\default\\node.exe"@,
            h + "\\AppData\\Local\\Volta\\bin\\node.exe"@,
            h + "\\scoop\\apps\\nodejs\\current\\node.exe"@,
            h + "\\scoop\\apps\\nodejs-lts\\current\\node.exe"@,
            "C:\\ProgramData\\chocolatey\\lib\\nodejs\\tools\\node.exe"@,
        ],
        None => base,
    };
    let with_pf = match program_files {
        Some(p) => with_home.push(p + "\\nodejs\\node.exe"@),
        None => with_home,
    };
    let with_pf86 = match program_files_x86 {
        Some(p) => with_pf.push(p + "\\nodejs\\node.exe"@),
        None => with_pf,
    };
    let with_link = match nvm_symlink {
        Some(l) => seq![l + "\\node.exe"@] + with_pf86,
        None => with_pf86,
    };
    match (nvm_home, nvm_settings) {
        (Some(nh), Some(content)) => nvm_current_paths(split_ch(content, '\n'), nh) + with_link,
        _ => with_link,
    }
}

/// nvm-windows' settings file: `<nvm_home>\settings.txt`.
pub fn nvm_settings_file(nvm_home: &str) -> (r: String)
    ensures
        r@ == nvm_home@ + "\\settings.txt"@,
{
    cat(nvm_home, "\\settings.txt")
}

fn current_version_of(line: &Vec<char>) -> (r: Option<String>)
    ensures
        opt_view(r) == current_version(line@),
{
    let prefix = chars_of("current:");
    if starts_with_chars(line, &prefix) {
        let rest = sub_chars(line, prefix.len(), line.len());
        let v = trim_chars(&rest);
        if v.len() > 0 {
            Some(string_of(&v))
        } else {
            None
        }
    } else {
        None
    }
}

fn nvm_current(content: &str, nvm_home: &str) -> (r: Vec<String>)
    ensures
        views(r@) == nvm_current_paths(split_ch(content@, '\n'), nvm_home@),
{
    let v = chars_of(content);
    let lines = split_chars(&v, '\n');
    let ghost lv = lines@.map_values(|p: Vec<char>| p@);
    let mut out: Vec<String> = Vec::new();
    let mut i: usize = 0;
    assert(lv.subrange(0, 0) =~= Seq::<Seq<char>>::empty());
    while i < lines.len()
        invariant
            i <= lines.len(),
            lv == lines@.map_values(|p: Vec<char>| p@),
            views(out@) == nvm_current_paths(lv.subrange(0, i as int), nvm_home@),
        decreases lines.len() - i,
    {
        assert(lv.subrange(0, i + 1).drop_last() =~= lv.subrange(0, i as int));
        assert(lv.subrange(0, i + 1).last() == lines@[i as int]@);
        match current_version_of(&lines[i]) {
            Some(ver) => {
                let ghost before = views(out@);
                out.insert(0, cat4(nvm_home, "\\v", ver.as_str(), "\\node.exe"));
                assert(views(out@) =~= seq![nvm_home@ + "\\v"@ + ver@ + "\\node.exe"@] + before);
            },
            None => {},
        }
        i = i + 1;
    }
    assert(lv.subrange(0, i as int) =~= lv);
    assert(lv =~= split_ch(v@, '\n'));
    out
}

/// The candidate system Node.js binaries on Windows, given the home
/// directory, the `ProgramFiles`, `ProgramFiles(x86)`, `NVM_SYMLINK` and
/// `NVM_HOME` variables and the content of nvm-windows' `settings.txt`.
pub fn get_windows_node_paths(
    home: Option<&str>,
    program_files: Option<&str>,
    program_files_x86: Option<&str>,
    nvm_symlink: Option<&str>,
    nvm_home: Option<&str>,
    nvm_settings: Option<&str>,
) -> (r: Vec<String>)
    ensures
        views(r@) == windows_node_paths(
            opt_str(home),
            opt_str(program_files),
            opt_str(program_files_x86),
            opt_str(nvm_symlink),
            opt_str(nvm_home),
            opt_str(nvm_settings),
        ),
{
    let mut paths = vec![
        copy_str("C:\\Program Files\\nodejs\\node.exe"),
        copy_str("C:\\Program Files (x86)\\nodejs\\node.exe"),
        copy_str("C:\\nvm4w\\nodejs\\node.exe"),
    ];
    match home {
        Some(h) => {
            append_all(
                &mut paths,
                vec![
                    cat(h, "\\AppData\\Roaming\\nvm\\current\\node.exe"),
                    cat(h, "\\AppData\\Roaming\\fnm\\aliases\\default\\node.exe"),
                    cat(h, "\\AppData\\Local\\fnm\\aliases\\default\\node.exe"),
                    cat(h, "\\.fnm\\aliases\\default\\node.exe"),
                    cat(h, "\\AppData\\Local\\Volta\\bin\\node.exe"),
                    cat(h, "\\scoop\\apps\\nodejs\\current\\node.exe"),
                    cat(h, "\\scoop\\apps\\nodejs-lts\\current\\node.exe"),
                    copy_str("C:\\ProgramData\\chocolatey\\lib\\nodejs\\tools\\node.exe"),
                ],
            );
        },
        None => {},
    }
    let ghost with_home = views(paths@);
    match program_files {
        Some(p) => {
            paths.push(cat(p, "\\nodejs\\node.exe"));
            assert(views(paths@) =~= with_home.push(p@ + "\\nodejs\\node.exe"@));
        },
        None => {},
    }
    let ghost with_pf = views(paths@);
    match program_files_x86 {
        Some(p) => {
            paths.push(cat(p, "\\nodejs\\node.exe"));
            assert(views(paths@) =~= with_pf.push(p@ + "\\nodejs\\node.exe"@));
        },
        None => {},
    }
    let ghost with_pf86 = views(paths@);
    match nvm_symlink {
        Some(l) => {
            paths.insert(0, cat(l, "\\node.exe"));
            assert(views(paths@) =~= seq![l@ + "\\node.exe"@] + with_pf86);
        },
        None => {},
    }
    match (nvm_home, nvm_settings) {
        (Some(nh), Some(content)) => {
            let mut front = nvm_current(content, nh);
            append_all(&mut front, paths);
            paths = front;
        },
        _ => {},
    }
    assert(views(paths@) =~= windows_node_paths(
        opt_str(home),
        opt_str(program_files),
        opt_str(program_files_x86),
        opt_str(nvm_symlink),
        opt_str(nvm_home),
        opt_str(nvm_settings),
    ));
    paths
}

/// Where a system OpenClaw may be on macOS and Linux, in order.
pub open spec fn unix_openclaw_paths(home: Option<Seq<char>>, nvm_default: Option<Seq<char>>) -> Seq<
    Seq<char>,
> {
    let base = seq![
        "/usr/local/bin/openclaw"@,
        "/opt/homebrew/bin/openclaw"@,
        "/usr/bin/openclaw"@,
    ];
    match home {
        None => base,
        Some(h) => {
            let mid = base + seq![
                h + "/.npm-global/bin/openclaw"@,
                h + "/.nvm/versions/node/v22.0.0/bin/openclaw"@,
                h + "/.nvm/versions/node/v22.1.0/bin/openclaw"@,
                h + "/.nvm/versions/node/v22.2.0/bin/openclaw"@,
                h + "/.nvm/versions/node/v22.11.0/bin/openclaw"@,
                h + "/.nvm/versions/node/v22.12.0/bin/openclaw"@,
                h + "/.nvm/versions/node/v23.0.0/bin/openclaw"@,
            ];
            let first = match nvm_default_version(nvm_default) {
                Some(v) => seq![h + "/.nvm/versions/node/v"@ + v + "/bin/openclaw"@] + mid,
                None => mid,
            };
            first + seq![
                h + "/.fnm/aliases/default/bin/openclaw"@,
                h + "/.volta/bin/openclaw"@,
                h + "/.pnpm/bin/openclaw"@,
                h + "/Library/pnpm/openclaw"@,
                h + "/.asdf/shims/openclaw"@,
                h + "/.local/share/mise/shims/openclaw"@,
                h + "/.yarn/bin/openclaw"@,
                h + "/.config/yarn/global/node_modules/.bin/openclaw"@,
            ]
        },
    }
}

/// The candidate system OpenClaw executables on macOS and Linux.
pub fn get_unix_openclaw_paths(home: Option<&str>, nvm_default: Option<&str>) -> (r: Vec<String>)
    ensures
        views(r@) == unix_openclaw_paths(opt_str(home), opt_str(nvm_default)),
{
    let mut paths = vec![
        copy_str("/usr/local/bin/openclaw"),
        copy_str("/opt/homebrew/bin/openclaw"),
        copy_str("/usr/bin/openclaw"),
    ];
    match home {
        None => {
            assert(views(paths@) =~= unix_openclaw_paths(opt_str(home), opt_str(nvm_default)));
            paths
        },
        Some(h) => {
            append_all(
                &mut paths,
                vec![
                    cat(h, "/.npm-global/bin/openclaw"),
                    cat(h, "/.nvm/versions/node/v22.0.0/bin/openclaw"),
                    cat(h, "/.nvm/versions/node/v22.1.0/bin/openclaw"),
                    cat(h, "/.nvm/versions/node/v22.2.0/bin/openclaw"),
                    cat(h, "/.nvm/versions/node/v22.11.0/bin/openclaw"),
                    cat(h, "/.nvm/versions/node/v22.12.0/bin/openclaw"),
                    cat(h, "/.nvm/versions/node/v23.0.0/bin/openclaw"),
                ],
            );
            let ghost mid = views(paths@);
            match default_version(nvm_default) {
                Some(v) => {
                    paths.insert(
                        0,
                        cat4(h, "/.nvm/versions/node/v", v.as_str(), "/bin/openclaw"),
                    );
                    assert(views(paths@) =~= seq![
                        h@ + "/.nvm/versions/node/v"@ + v@ + "/bin/openclaw"@,
                    ] + mid);
                },
                None => {},
            }
            append_all(
                &mut paths,
                vec![
                    cat(h, "/.fnm/aliases/default/bin/openclaw"),
                    cat(h, "/.volta/bin/openclaw"),
                    cat(h, "/.pnpm/bin/openclaw"),
                    cat(h, "/Library/pnpm/openclaw"),
                    cat(h, "/.asdf/shims/openclaw"),
                    cat(h, "/.local/share/mise/shims/openclaw"),
                    cat(h, "/.yarn/bin/openclaw"),
                    cat(h, "/.config/yarn/global/node_modules/.bin/openclaw"),
                ],
            );
            assert(views(paths@) =~= unix_openclaw_paths(opt_str(home), opt_str(nvm_default)));
            paths
        },
    }
}

/// Where a system OpenClaw may be on Windows, in order.
pub open spec fn windows_openclaw_paths(home: Option<Seq<char>>) -> Seq<Seq<char>> {
    match home {
        Some(h) => seq![
            "C:\\nvm4w\\nodejs\\openclaw.cmd"@,
            h + "\\AppData\\Roaming\\npm\\openclaw.cmd"@,
            "C:\\Program Files\\nodejs\\openclaw.cmd"@,
        ],
        None => seq!["C:\\nvm4w\\nodejs\\openclaw.cmd"@, "C:\\Program Files\\nodejs\\openclaw.cmd"@],
    }
}

/// The candidate system OpenClaw executables on Windows.
pub fn get_windows_openclaw_paths(home: Option<&str>) -> (r: Vec<String>)
    ensures
        views(r@) == windows_openclaw_paths(opt_str(home)),
{
    let mut paths = vec![copy_str("C:\\nvm4w\\nodejs\\openclaw.cmd")];
    match home {
        Some(h) => paths.push(cat(h, "\\AppData\\Roaming\\npm\\openclaw.cmd")),
        None => {},
    }
    paths.push(copy_str("C:\\Program Files\\nodejs\\openclaw.cmd"));
    assert(views(paths@) =~= windows_openclaw_paths(opt_str(home)));
    paths
}


/// The command that looks Node.js up on the `PATH`: `where node` (through
/// `cmd /c`) on Windows, `which node` elsewhere.
pub fn node_lookup_command(env: &ShellEnv) -> (c: CommandSpec)
    ensures
        if env.windows {
            is_common_command(c, "cmd"@, seq!["/c"@, "where node"@], *env)
        } else {
            is_common_command(c, "which"@, seq!["node"@], *env)
        },
{
    if env.windows {
        run_cmd("where node", env)
    } else {
        let args = vec![copy_str("node")];
        assert(views(args@) =~= seq!["node"@]);
        run_command("which", &args, env)
    }
}

/// The first line of a lookup's output that names an existing path.
pub open spec fn lookup_result(lookup: Result<Seq<char>, Seq<char>>, e: ExistingPaths) -> Option<
    Seq<char>,
> {
    match lookup {
        Ok(out) => first_existing(normalized_lines(out), e),
        Err(_) => None,
    }
}

/// The Node.js that the `PATH` lookup found: the first line of its output
/// (as `run_command_output`/`run_cmd_output` read it) that exists.
pub fn resolve_node_from_path(lookup: &Result<String, String>, existing: &ExistingPaths) -> (r:
    Option<String>)
    ensures
        opt_view(r) == lookup_result(result_view(*lookup), *existing),
{
    match lookup {
        Ok(out) => {
            let lines = normalize_lines(out.as_str());
            first_existing_path(&lines, existing)
        },
        Err(_) => None,
    }
}

/// A system Node.js: the one on the `PATH`, else the first existing
/// candidate.
pub fn resolve_system_node_runtime(
    from_path: Option<String>,
    candidates: &Vec<String>,
    existing: &ExistingPaths,
) -> (r: Option<NodeRuntime>)
    ensures
        match r {
            Some(n) => n is System && Some(node_view(n).2) == match opt_view(from_path) {
                Some(p) => Some(p),
                None => first_existing(views(candidates@), *existing),
            },
            None => from_path is None && first_existing(views(candidates@), *existing) is None,
        },
{
    match from_path {
        Some(p) => Some(NodeRuntime::System(p)),
        None => match first_existing_path(candidates, existing) {
            Some(p) => Some(NodeRuntime::System(p)),
            None => None,
        },
    }
}

/// The Node.js runtime: the bundled one when there is one, else the system
/// one.
pub fn resolve_node_runtime(bundled: Option<NodeRuntime>, system: Option<NodeRuntime>) -> (r:
    Option<NodeRuntime>)
    ensures
        r == if bundled is Some {
            bundled
        } else {
            system
        },
{
    match bundled {
        Some(b) => Some(b),
        None => system,
    }
}

/// The next step in looking for a system OpenClaw.
pub enum SystemOpenClawStep {
    /// The search is over, with this result.
    Done(Option<SystemOpenClawRuntime>),
    /// Run `command_lookup("openclaw")` and call again with its result.
    CheckCommand,
    /// Run `shell_lookup_command()` and call again with its output.
    ShellLookup,
}

/// The script that asks a login shell where `openclaw` is.
pub open spec fn shell_lookup_script() -> Seq<char> {
    "source ~/.zshrc 2>/dev/null || source ~/.bashrc 2>/dev/null; which openclaw 2>/dev/null"@
}

/// `which openclaw` in bash after sourcing the user's shell profile.
pub fn shell_lookup_command(env: &ShellEnv) -> (c: CommandSpec)
    ensures
        is_common_command(c, "bash"@, seq!["-c"@, shell_lookup_script()], *env),
{
    run_bash(
        "source ~/.zshrc 2>/dev/null || source ~/.bashrc 2>/dev/null; which openclaw 2>/dev/null",
        env,
    )
}

pub open spec fn system_step_view(s: SystemOpenClawStep) -> Option<Option<Seq<char>>> {
    match s {
        SystemOpenClawStep::Done(Some(r)) => Some(Some(r.executable_path@)),
        SystemOpenClawStep::Done(None) => Some(None),
        _ => None,
    }
}

/// The search for a system OpenClaw: the first existing candidate; else,
/// if `openclaw` is on the `PATH`, `openclaw` itself; else (not on Windows)
/// the first line of the login shell's `which openclaw` that exists.
pub open spec fn system_openclaw_spec(
    windows: bool,
    candidates: Seq<Seq<char>>,
    e: ExistingPaths,
    command_found: Option<bool>,
    shell_lookup: Option<Result<Seq<char>, Seq<char>>>,
) -> Option<Option<Seq<char>>> {
    match first_existing(candidates, e) {
        Some(p) => Some(Some(p)),
        None => match command_found {
            None => None,
            Some(true) => Some(Some("openclaw"@)),
            Some(false) => if windows {
                Some(None)
            } else {
                match shell_lookup {
                    None => None,
                    Some(l) => Some(lookup_result(l, e)),
                }
            },
        },
    }
}

/// One step of the search for a system OpenClaw.  `command_found` is the
/// result of the `PATH` lookup once it has run, `shell_lookup` the output
/// of the shell lookup once it has run; the step says which to run next
/// when the search needs it.
pub fn resolve_system_openclaw_runtime(
    windows: bool,
    candidates: &Vec<String>,
    existing: &ExistingPaths,
    command_found: Option<bool>,
    shell_lookup: &Option<Result<String, String>>,
) -> (r: SystemOpenClawStep)
    ensures
        system_step_view(r) == system_openclaw_spec(
            windows,
            views(candidates@),
            *existing,
            command_found,
            match *shell_lookup {
                Some(l) => Some(result_view(l)),
                None => None,
            },
        ),
        r is CheckCommand ==> first_existing(views(candidates@), *existing) is None
            && command_found is None,
        r is ShellLookup ==> !windows && command_found == Some(false) && shell_lookup is None,
{
    match first_existing_path(candidates, existing) {
        Some(p) => SystemOpenClawStep::Done(Some(SystemOpenClawRuntime { executable_path: p })),
        None => match command_found {
            None => SystemOpenClawStep::CheckCommand,
            Some(true) => SystemOpenClawStep::Done(
                Some(SystemOpenClawRuntime { executable_path: copy_str("openclaw") }),
            ),
            Some(false) => if windows {
                SystemOpenClawStep::Done(None)
            } else {
                match shell_lookup {
                    None => SystemOpenClawStep::ShellLookup,
                    Some(l) => match resolve_node_from_path(l, existing) {
                        Some(p) => SystemOpenClawStep::Done(
                            Some(SystemOpenClawRuntime { executable_path: p }),
                        ),
                        None => SystemOpenClawStep::Done(None),
                    },
                }
            },
        },
    }
}

/// The OpenClaw runtime: the bundled one when there is one, else the system
/// one.
pub fn resolve_openclaw_runtime(
    bundled: Option<BundledOpenClawRuntime>,
    system: Option<SystemOpenClawRuntime>,
) -> (r: Option<OpenClawRuntime>)
    ensures
        match bundled {
            Some(b) => r == Some(OpenClawRuntime::Bundled(b)),
            None => match system {
                Some(s) => r == Some(OpenClawRuntime::System(s)),
                None => r is None,
            },
        },
{
    match bundled {
        Some(b) => Some(OpenClawRuntime::Bundled(b)),
        None => match system {
            Some(s) => Some(OpenClawRuntime::System(s)),
            None => None,
        },
    }
}

impl NodeRuntime {
    /// The Node.js binary.
    pub fn path(&self) -> (r: &String)
        ensures
            r@ == node_view(*self).2,
    {
        match self {
            NodeRuntime::Bundled { path, .. } => path,
            NodeRuntime::System(path) => path,
        }
    }
}

pub open spec fn mode_of(r: OpenClawRuntime) -> Seq<char> {
    match r {
        OpenClawRuntime::Bundled(_) => "bundled"@,
        OpenClawRuntime::System(_) => "system"@,
    }
}

/// The path a runtime is shown by: the entry script of the bundled
/// runtime, the executable of a system one.
pub open spec fn display_path_of(r: OpenClawRuntime) -> Seq<char> {
    match r {
        OpenClawRuntime::Bundled(b) => b.entry_path@,
        OpenClawRuntime::System(s) => s.executable_path@,
    }
}

impl OpenClawRuntime {
    /// `"bundled"` or `"system"`.
    pub fn mode(&self) -> (r: &'static str)
        ensures
            r@ == mode_of(*self),
    {
        match self {
            OpenClawRuntime::Bundled(_) => "bundled",
            OpenClawRuntime::System(_) => "system",
        }
    }

    pub fn display_path(&self) -> (r: String)
        ensures
            r@ == display_path_of(*self),
    {
        match self {
            OpenClawRuntime::Bundled(b) => b.entry_path.clone(),
            OpenClawRuntime::System(s) => s.executable_path.clone(),
        }
    }

    /// The bundled runtime's root; a system runtime has none.
    pub fn runtime_root(&self) -> (r: Option<&String>)
        ensures
            match *self {
                OpenClawRuntime::Bundled(b) => r == Some(&b.runtime_root),
                OpenClawRuntime::System(_) => r is None,
            },
    {
        match self {
            OpenClawRuntime::Bundled(b) => Some(&b.runtime_root),
            OpenClawRuntime::System(_) => None,
        }
    }
}

/// The runtime mode shown to the user: `"bundled"`, `"system"`, or
/// `"missing"` when no OpenClaw was found.
pub open spec fn runtime_mode_of(r: Option<OpenClawRuntime>) -> Seq<char> {
    match r {
        Some(x) => mode_of(x),
        None => "missing"@,
    }
}

/// The current runtime mode.
pub fn get_runtime_mode(runtime: &Option<OpenClawRuntime>) -> (r: String)
    ensures
        r@ == runtime_mode_of(*runtime),
{
    match runtime {
        Some(x) => copy_str(x.mode()),
        None => copy_str("missing"),
    }
}

/// The bundled runtime's root, when the bundled runtime is in use.
pub fn get_runtime_root(runtime: &Option<OpenClawRuntime>) -> (r: Option<String>)
    ensures
        match *runtime {
            Some(OpenClawRuntime::Bundled(b)) => opt_view(r) == Some(b.runtime_root@),
            _ => r is None,
        },
{
    match runtime {
        Some(x) => match x.runtime_root() {
            Some(root) => Some(root.clone()),
            None => None,
        },
        None => None,
    }
}

/// Whether the bundled runtime is in use.
pub fn is_bundled_runtime_active(runtime: &Option<OpenClawRuntime>) -> (r: bool)
    ensures
        r == (*runtime matches Some(OpenClawRuntime::Bundled(_))),
{
    match runtime {
        Some(OpenClawRuntime::Bundled(_)) => true,
        _ => false,
    }
}

/// The path of the OpenClaw in use: the bundled entry script, else the
/// system executable.
pub fn get_openclaw_path(runtime: &Option<OpenClawRuntime>) -> (r: Option<String>)
    ensures
        match *runtime {
            Some(x) => opt_view(r) == Some(display_path_of(x)),
            None => r is None,
        },
{
    match runtime {
        Some(x) => Some(x.display_path()),
        None => None,
    }
}

/// The runtime mode says `bundled` exactly when the bundled runtime is in
/// use, and `missing` exactly when no OpenClaw was found.
pub proof fn law_runtime_mode_consistent(r: Option<OpenClawRuntime>)
    ensures
        (runtime_mode_of(r) == "bundled"@) <==> (r matches Some(OpenClawRuntime::Bundled(_))),
        (runtime_mode_of(r) == "missing"@) <==> r is None,
{
    reveal_strlit("bundled");
    reveal_strlit("system");
    reveal_strlit("missing");
    assert("bundled"@.len() != "system"@.len());
    assert("missing"@[0] != "bundled"@[0]);
    assert("missing"@.len() != "system"@.len());
}


/// How OpenClaw is started under a runtime: the bundled Node.js running the
/// entry script from the package directory; a system `.cmd` through
/// `cmd /c`; any other system executable directly.  The program, the
/// arguments before the caller's, and the working directory.
pub open spec fn openclaw_launch(r: OpenClawRuntime) -> (Seq<char>, Seq<Seq<char>>, Option<
    Seq<char>,
>) {
    match r {
        OpenClawRuntime::Bundled(b) => (b.node_path@, seq![b.entry_path@], Some(b.package_root@)),
        OpenClawRuntime::System(s) => if has_suffix(s.executable_path@, ".cmd"@) {
            ("cmd"@, seq!["/c"@, s.executable_path@], None)
        } else {
            (s.executable_path@, Seq::<Seq<char>>::empty(), None)
        },
    }
}

/// `c` runs OpenClaw under `r` with `args`, before any extra variables are
/// added.
pub open spec fn is_openclaw_command(
    c: CommandSpec,
    r: OpenClawRuntime,
    args: Seq<Seq<char>>,
    env: ShellEnv,
) -> bool {
    &&& c.program@ == openclaw_launch(r).0
    &&& views(c.args@) == openclaw_launch(r).1 + args
    &&& opt_view(c.current_dir) == openclaw_launch(r).2
    &&& c.hide_window == env.windows
}

/// The command that runs OpenClaw under `runtime` with `args`, with the
/// common environment.
pub fn build_openclaw_command(runtime: &OpenClawRuntime, args: &Vec<String>, env: &ShellEnv) -> (c:
    CommandSpec)
    ensures
        is_openclaw_command(c, *runtime, views(args@), *env),
        env_views(c.envs@) == seq![("PATH"@, env.path@)],
{
    let mut c = match runtime {
        OpenClawRuntime::Bundled(b) => CommandSpec {
            program: b.node_path.clone(),
            args: vec![b.entry_path.clone()],
            current_dir: Some(b.package_root.clone()),
            envs: Vec::new(),
            hide_window: false,
        },
        OpenClawRuntime::System(sys) => {
            let exe = chars_of(sys.executable_path.as_str());
            let suffix = chars_of(".cmd");
            if ends_with_chars(&exe, &suffix) {
                CommandSpec {
                    program: copy_str("cmd"),
                    args: vec![copy_str("/c"), sys.executable_path.clone()],
                    current_dir: None,
                    envs: Vec::new(),
                    hide_window: false,
                }
            } else {
                CommandSpec {
                    program: sys.executable_path.clone(),
                    args: Vec::new(),
                    current_dir: None,
                    envs: Vec::new(),
                    hide_window: false,
                }
            }
        },
    };
    assert(views(c.args@) == openclaw_launch(*runtime).1);
    append_all(&mut c.args, clone_all(args));
    apply_common_env(&mut c, env);
    assert(env_views(c.envs@) =~= seq![("PATH"@, env.path@)]);
    c
}

/// The index of the last separator in `p`.
pub open spec fn last_sep(p: Seq<char>, w: bool) -> Option<int>
    decreases p.len(),
{
    if p.len() == 0 {
        None
    } else if is_sep(p.last(), w) {
        Some(p.len() - 1)
    } else {
        last_sep(p.drop_last(), w)
    }
}

/// The length of the root that `p` starts with: a Windows drive such as
/// `C:` with the separator after it, if any, or a leading separator.
pub open spec fn root_len(p: Seq<char>, w: bool) -> int {
    if has_drive(p, w) {
        if p.len() > 2 && is_sep(p[2], w) {
            3
        } else {
            2
        }
    } else if p.len() > 0 && is_sep(p[0], w) {
        1
    } else {
        0
    }
}

/// Whether the last character of `p` is left out when `Path` reads its
/// components: a trailing separator, or a `.` component after a separator.
pub open spec fn ends_in_noise(p: Seq<char>, w: bool) -> bool {
    p.len() > root_len(p, w) && (is_sep(p.last(), w) || (p.last() == '.' && p.len() >= 2
        && is_sep(p[p.len() - 2], w)))
}

/// `p` without trailing separators and trailing `.` components, down to
/// its root.
pub open spec fn trim_tail(p: Seq<char>, w: bool) -> Seq<char>
    decreases p.len(),
{
    if ends_in_noise(p, w) {
        trim_tail(p.drop_last(), w)
    } else {
        p
    }
}

/// The directory of a path, as `Path::parent` gives it: trailing
/// separators and `.` components are left out, then the last component,
/// then the separators (and `.` components) before it, down to the root.
/// A path that is only a root, or empty, has none; a single component has
/// the empty path, or its drive (`C:name` on Windows).
pub open spec fn parent_of(p: Seq<char>, w: bool) -> Option<Seq<char>> {
    let q = trim_tail(p, w);
    let rl = root_len(q, w);
    if q.len() <= rl {
        None
    } else {
        match last_sep(q, w) {
            Some(k) => if k >= rl {
                Some(trim_tail(q.subrange(0, k), w))
            } else {
                Some(q.subrange(0, rl))
            },
            None => Some(q.subrange(0, rl)),
        }
    }
}

proof fn lemma_last_sep(p: Seq<char>, w: bool)
    ensures
        match last_sep(p, w) {
            Some(k) => 0 <= k < p.len() && is_sep(p[k], w),
            None => true,
        },
    decreases p.len(),
{
    if p.len() > 0 && !is_sep(p.last(), w) {
        lemma_last_sep(p.drop_last(), w);
    }
}

fn is_sep_char(c: char, w: bool) -> (r: bool)
    ensures
        r == is_sep(c, w),
{
    c == '/' || (w && c == '\\')
}

/// `root_len` of the first `end` characters of `v`.
fn root_len_of(v: &Vec<char>, end: usize, w: bool) -> (r: usize)
    requires
        end <= v.len(),
    ensures
        r as int == root_len(v@.subrange(0, end as int), w),
        r <= end,
{
    let ghost s = v@.subrange(0, end as int);
    let drive = w && end >= 2 && (('a' <= v[0] && v[0] <= 'z') || ('A' <= v[0] && v[0] <= 'Z'))
        && v[1] == ':';
    assert(end >= 2 ==> s[0] == v@[0] && s[1] == v@[1]);
    assert(end >= 3 ==> s[2] == v@[2]);
    assert(end >= 1 ==> s[0] == v@[0]);
    if drive {
        if end > 2 && is_sep_char(v[2], w) {
            3
        } else {
            2
        }
    } else if end > 0 && is_sep_char(v[0], w) {
        1
    } else {
        0
    }
}

/// The end of `trim_tail` of the first `end` characters of `v`.
fn trim_tail_len(v: &Vec<char>, end: usize, w: bool) -> (j: usize)
    requires
        end <= v.len(),
    ensures
        j <= end,
        trim_tail(v@.subrange(0, end as int), w) == v@.subrange(0, j as int),
{
    let mut j: usize = end;
    loop
        invariant
            j <= end <= v.len(),
            trim_tail(v@.subrange(0, end as int), w) == trim_tail(v@.subrange(0, j as int), w),
        decreases j,
    {
        let ghost s = v@.subrange(0, j as int);
        let rl = root_len_of(v, j, w);
        let noise = j > rl && (is_sep_char(v[j - 1], w) || (v[j - 1] == '.' && j >= 2
            && is_sep_char(v[j - 2], w)));
        proof {
            if j > 0 {
                assert(s.last() == v@[j - 1]);
            }
            if j >= 2 {
                assert(s[s.len() - 2] == v@[j - 2]);
            }
            assert(noise == ends_in_noise(s, w));
        }
        if !noise {
            return j;
        }
        assert(s.drop_last() =~= v@.subrange(0, j - 1));
        j = j - 1;
    }
}

/// The last separator among the first `end` characters of `v`.
fn last_sep_in(v: &Vec<char>, end: usize, w: bool) -> (r: Option<usize>)
    requires
        end <= v.len(),
    ensures
        match r {
            Some(k) => last_sep(v@.subrange(0, end as int), w) == Some(k as int),
            None => last_sep(v@.subrange(0, end as int), w) is None,
        },
{
    let mut i: usize = end;
    while i > 0 && !is_sep_char(v[i - 1], w)
        invariant
            i <= end <= v.len(),
            last_sep(v@.subrange(0, end as int), w) == last_sep(v@.subrange(0, i as int), w),
        decreases i,
    {
        assert(v@.subrange(0, i as int).drop_last() =~= v@.subrange(0, i - 1));
        i = i - 1;
    }
    if i == 0 {
        assert(last_sep(v@.subrange(0, 0), w) is None);
        None
    } else {
        assert(v@.subrange(0, i as int).last() == v@[i - 1]);
        Some(i - 1)
    }
}

/// The directory of the path `p` (`Path::parent`).
pub fn parent_dir(p: &str, windows: bool) -> (r: Option<String>)
    ensures
        opt_view(r) == parent_of(p@, windows),
{
    let v = chars_of(p);
    assert(v@.subrange(0, v@.len() as int) =~= v@);
    let jq = trim_tail_len(&v, v.len(), windows);
    let ghost q = v@.subrange(0, jq as int);
    let rl = root_len_of(&v, jq, windows);
    if jq <= rl {
        return None;
    }
    match last_sep_in(&v, jq, windows) {
        Some(k) => {
            proof {
                lemma_last_sep(q, windows);
            }
            assert(q.subrange(0, k as int) =~= v@.subrange(0, k as int));
            assert(q.subrange(0, rl as int) =~= v@.subrange(0, rl as int));
            if k >= rl {
                let jh = trim_tail_len(&v, k, windows);
                Some(string_of(&sub_chars(&v, 0, jh)))
            } else {
                Some(string_of(&sub_chars(&v, 0, rl)))
            }
        },
        None => {
            assert(q.subrange(0, rl as int) =~= v@.subrange(0, rl as int));
            Some(string_of(&sub_chars(&v, 0, rl)))
        },
    }
}

/// The nvm versions whose `bin` directory is looked for, in order.
pub open spec fn nvm_bins(h: Seq<char>, w: bool) -> Seq<Seq<char>> {
    seq![
        join_all(h, seq![".nvm"@, "versions"@, "node"@, "v22.22.0"@, "bin"@], w),
        join_all(h, seq![".nvm"@, "versions"@, "node"@, "v22.12.0"@, "bin"@], w),
        join_all(h, seq![".nvm"@, "versions"@, "node"@, "v22.11.0"@, "bin"@], w),
        join_all(h, seq![".nvm"@, "versions"@, "node"@, "v22.0.0"@, "bin"@], w),
        join_all(h, seq![".nvm"@, "versions"@, "node"@, "v23.0.0"@, "bin"@], w),
    ]
}

/// The version managers' directories under the home directory.
pub open spec fn manager_dirs(h: Seq<char>, w: bool) -> Seq<Seq<char>> {
    if w {
        seq![
            join_all(h, seq!["AppData"@, "Roaming"@, "npm"@], w),
            join_all(h, seq!["AppData"@, "Local"@, "Volta"@, "bin"@], w),
        ]
    } else {
        seq![
            join_all(h, seq![".fnm"@, "aliases"@, "default"@, "bin"@], w),
            join_all(h, seq![".volta"@, "bin"@], w),
            join_all(h, seq![".asdf"@, "shims"@], w),
            join_all(h, seq![".local"@, "share"@, "mise"@, "shims"@], w),
            join_all(h, seq![".npm-global"@, "bin"@], w),
            join_all(h, seq![".pnpm"@, "bin"@], w),
            join_all(h, seq!["Library"@, "pnpm"@], w),
        ]
    }
}

pub open spec fn opt_seq(o: Option<Seq<char>>) -> Seq<Seq<char>> {
    match o {
        Some(x) => seq![x],
        None => Seq::<Seq<char>>::empty(),
    }
}

/// The directories put before the inherited `PATH`, in order: the bundled
/// Node.js binary's directory; on macOS and Linux the Homebrew and system
/// `bin` directories; the `bin` of nvm's default version, the first nvm
/// version found, and the version managers' directories under the home
/// directory.
pub open spec fn extended_path_spec(
    bundled_node: Option<NodeRuntime>,
    w: bool,
    home: Option<Seq<char>>,
    nvm_default: Option<Seq<char>>,
    e: ExistingPaths,
) -> Seq<Seq<char>> {
    let bundled = match bundled_node {
        Some(NodeRuntime::Bundled { path, .. }) => opt_seq(parent_of(path@, w)),
        _ => Seq::<Seq<char>>::empty(),
    };
    let system = if w {
        Seq::<Seq<char>>::empty()
    } else {
        seq!["/opt/homebrew/bin"@, "/usr/local/bin"@, "/usr/bin"@, "/bin"@]
    };
    let at_home = match home {
        Some(h) => opt_seq(
            match nvm_default_version(nvm_default) {
                Some(v) => Some(
                    join_all(h, seq![".nvm"@, "versions"@, "node"@, "v"@ + v, "bin"@], w),
                ),
                None => None,
            },
        ) + opt_seq(first_existing(nvm_bins(h, w), e)) + manager_dirs(h, w),
        None => Seq::<Seq<char>>::empty(),
    };
    bundled + system + at_home
}

fn nvm_bin_dirs(h: &str, w: bool) -> (r: Vec<String>)
    ensures
        views(r@) == nvm_bins(h@, w),
{
    let r = vec![
        join5(h, ".nvm", "versions", "node", "v22.22.0", "bin", w),
        join5(h, ".nvm", "versions", "node", "v22.12.0", "bin", w),
        join5(h, ".nvm", "versions", "node", "v22.11.0", "bin", w),
        join5(h, ".nvm", "versions", "node", "v22.0.0", "bin", w),
        join5(h, ".nvm", "versions", "node", "v23.0.0", "bin", w),
    ];
    assert(views(r@) =~= nvm_bins(h@, w));
    r
}

/// The directories to probe before computing the extended `PATH`.
pub fn extended_path_probe_paths(home: &str, windows: bool) -> (r: Vec<String>)
    ensures
        views(r@) == nvm_bins(home@, windows),
{
    nvm_bin_dirs(home, windows)
}

fn manager_dirs_of(h: &str, w: bool) -> (r: Vec<String>)
    ensures
        views(r@) == manager_dirs(h@, w),
{
    let r = if w {
        vec![join3(h, "AppData", "Roaming", "npm", w), join4(h, "AppData", "Local", "Volta", "bin", w)]
    } else {
        vec![
            join4(h, ".fnm", "aliases", "default", "bin", w),
            join2(h, ".volta", "bin", w),
            join2(h, ".asdf", "shims", w),
            join4(h, ".local", "share", "mise", "shims", w),
            join2(h, ".npm-global", "bin", w),
            join2(h, ".pnpm", "bin", w),
            join2(h, "Library", "pnpm", w),
        ]
    };
    assert(views(r@) =~= manager_dirs(h@, w));
    r
}

fn opt_vec(o: Option<String>) -> (r: Vec<String>)
    ensures
        views(r@) == opt_seq(opt_view(o)),
{
    match o {
        Some(x) => {
            let r = vec![x];
            assert(views(r@) =~= opt_seq(opt_view(o)));
            r
        },
        None => {
            let r: Vec<String> = Vec::new();
            assert(views(r@) =~= opt_seq(opt_view(o)));
            r
        },
    }
}

/// The entries of the `PATH` that GUI-started commands get: the directories
/// that let Node.js and OpenClaw be found as in the user's shell, then every
/// entry of the inherited `PATH` (`inherited`, as split by the caller), in
/// order.
pub fn get_extended_path(
    bundled_node: &Option<NodeRuntime>,
    windows: bool,
    home: Option<&str>,
    nvm_default: Option<&str>,
    existing: &ExistingPaths,
    inherited: &Vec<String>,
) -> (r: Vec<String>)
    ensures
        views(r@) == extended_path_spec(
            *bundled_node,
            windows,
            opt_str(home),
            opt_str(nvm_default),
            *existing,
        ) + views(inherited@),
{
    let mut paths: Vec<String> = match bundled_node {
        Some(NodeRuntime::Bundled { path, .. }) => opt_vec(parent_dir(path.as_str(), windows)),
        _ => Vec::new(),
    };
    assert(views(paths@) =~= match *bundled_node {
        Some(NodeRuntime::Bundled { path, .. }) => opt_seq(parent_of(path@, windows)),
        _ => Seq::<Seq<char>>::empty(),
    });
    if !windows {
        append_all(
            &mut paths,
            vec![
                copy_str("/opt/homebrew/bin"),
                copy_str("/usr/local/bin"),
                copy_str("/usr/bin"),
                copy_str("/bin"),
            ],
        );
    }
    match home {
        Some(h) => {
            let dv = default_version(nvm_default);
            let default_dir = match dv {
                Some(v) => {
                    let tagged = cat("v", v.as_str());
                    Some(join5(h, ".nvm", "versions", "node", tagged.as_str(), "bin", windows))
                },
                None => None,
            };
            append_all(&mut paths, opt_vec(default_dir));
            let bins = nvm_bin_dirs(h, windows);
            append_all(&mut paths, opt_vec(first_existing_path(&bins, existing)));
            append_all(&mut paths, manager_dirs_of(h, windows));
        },
        None => {},
    }
    assert(views(paths@) =~= extended_path_spec(
        *bundled_node,
        windows,
        opt_str(home),
        opt_str(nvm_default),
        *existing,
    ));
    append_all(&mut paths, clone_all(inherited));
    paths
}

/// The bundled Node.js comes first: when the bundled Node.js is in use, the
/// directory of its binary heads the extended `PATH`, ahead of every
/// system and version-manager directory.
pub proof fn law_bundled_node_dir_leads_path(
    root: String,
    path: String,
    w: bool,
    home: Option<Seq<char>>,
    nvm_default: Option<Seq<char>>,
    e: ExistingPaths,
)
    requires
        parent_of(path@, w) is Some,
    ensures
        extended_path_spec(Some(NodeRuntime::Bundled { root, path }), w, home, nvm_default, e).len()
            > 0,
        extended_path_spec(Some(NodeRuntime::Bundled { root, path }), w, home, nvm_default, e)[0]
            == parent_of(path@, w)->0,
{
}

/// `<node> --version`, run without the common environment.
pub fn node_version_command(runtime: &NodeRuntime) -> (c: CommandSpec)
    ensures
        c.program@ == node_view(*runtime).2,
        views(c.args@) == seq!["--version"@],
        c.current_dir is None,
        c.envs@.len() == 0,
        !c.hide_window,
{
    let args = vec![copy_str("--version")];
    assert(views(args@) =~= seq!["--version"@]);
    CommandSpec {
        program: runtime.path().clone(),
        args,
        current_dir: None,
        envs: Vec::new(),
        hide_window: false,
    }
}

/// The Node.js version that `node --version` printed, when it ran and
/// printed something starting with `v`.
pub open spec fn node_version_of(o: CommandOutcome) -> Option<Seq<char>> {
    match output_result(o) {
        Ok(v) => if v.len() > 0 && v[0] == 'v' {
            Some(v)
        } else {
            None
        },
        Err(_) => None,
    }
}

/// The Node.js version from the outcome of `node_version_command`.
pub fn get_node_version(outcome: &CommandOutcome) -> (r: Option<String>)
    ensures
        opt_view(r) == node_version_of(*outcome),
{
    match output_to_string(outcome) {
        Ok(v) => {
            if v.unicode_len() > 0 && v.as_str().get_char(0) == 'v' {
                Some(v)
            } else {
                None
            }
        },
        Err(_) => None,
    }
}

/// The message when no OpenClaw was found.
pub open spec fn openclaw_missing_message() -> Seq<char> {
    "找不到 openclaw 命令，请先准备内置运行时或通过 npm install -g openclaw 安装"@
}

/// The command that runs `openclaw args...`, or the error that there is no
/// OpenClaw to run.
pub fn run_openclaw(runtime: &Option<OpenClawRuntime>, args: &Vec<String>, env: &ShellEnv) -> (r:
    Result<CommandSpec, String>)
    ensures
        match *runtime {
            Some(x) => match r {
                Ok(c) => is_openclaw_command(c, x, views(args@), *env) && env_views(c.envs@)
                    == seq![("PATH"@, env.path@)],
                Err(_) => false,
            },
            None => match r {
                Ok(_) => false,
                Err(e) => e@ == openclaw_missing_message(),
            },
        },
{
    match runtime {
        Some(x) => Ok(build_openclaw_command(x, args, env)),
        None => Err(
            copy_str("找不到 openclaw 命令，请先准备内置运行时或通过 npm install -g openclaw 安装"),
        ),
    }
}

/// How the manager reads an OpenClaw run: on success its standard output
/// as printed; on failure standard output and standard error on two lines,
/// trimmed; when it could not run, why.
pub open spec fn openclaw_result(o: CommandOutcome) -> Result<Seq<char>, Seq<char>> {
    match o {
        CommandOutcome::NotRun { error } => Err("执行 openclaw 失败: "@ + error@),
        CommandOutcome::Finished { success, stdout, stderr, .. } => if success {
            Ok(stdout@)
        } else {
            Err(trim_ws(stdout@ + "\n"@ + stderr@))
        },
    }
}

/// The result of running OpenClaw.
pub fn openclaw_output(outcome: &CommandOutcome) -> (r: Result<String, String>)
    ensures
        result_view(r) == openclaw_result(*outcome),
{
    match outcome {
        CommandOutcome::NotRun { error } => Err(cat("执行 openclaw 失败: ", error.as_str())),
        CommandOutcome::Finished { success, stdout, stderr, .. } => {
            if *success {
                Ok(stdout.clone())
            } else {
                let both = cat3(stdout.as_str(), "\n", stderr.as_str());
                Err(trim(both.as_str()))
            }
        },
    }
}

/// What it takes to start the gateway in the background: the command, the
/// log directory to create, and the files its standard output and
/// standard error are appended to.
pub struct GatewayLaunch {
    pub command: CommandSpec,
    pub logs_dir: String,
    pub stdout_log: String,
    pub stderr_log: String,
}

/// The variables the gateway gets besides `PATH`: those of the env file,
/// then, for the bundled runtime, its root and its Node.js directory.
pub open spec fn gateway_envs(r: OpenClawRuntime, file: Seq<(Seq<char>, Seq<char>)>) -> Seq<
    (Seq<char>, Seq<char>),
> {
    match r {
        OpenClawRuntime::Bundled(b) => file + seq![
            ("BOSICLAW_BUNDLED_RUNTIME_ROOT"@, b.runtime_root@),
            ("BOSICLAW_BUNDLED_NODE_ROOT"@, b.node_root@),
        ],
        OpenClawRuntime::System(_) => file,
    }
}

/// `openclaw gateway --port 18789` started in the background with the
/// variables of the env file (its content, when it could be read), logging
/// to `<config>/logs/gateway.log` and `<config>/logs/gateway.err.log`; or
/// the error that there is no OpenClaw.
pub fn spawn_openclaw_gateway(
    runtime: &Option<OpenClawRuntime>,
    env_file: Option<&str>,
    config_dir: &str,
    env: &ShellEnv,
) -> (r: Result<GatewayLaunch, String>)
    ensures
        match *runtime {
            None => match r {
                Ok(_) => false,
                Err(e) => e@ == openclaw_missing_message(),
            },
            Some(x) => match r {
                Err(_) => false,
                Ok(g) => {
                    &&& is_openclaw_command(
                        g.command,
                        x,
                        seq!["gateway"@, "--port"@, "18789"@],
                        *env,
                    )
                    &&& env_views(g.command.envs@)[0] == ("PATH"@, env.path@)
                    &&& exists|file: Seq<(Seq<char>, Seq<char>)>|
                        {
                            &&& unique_keys(file)
                            &&& pairs_map(file) == match env_file {
                                Some(c) => env_vars_of(c@),
                                None => Map::<Seq<char>, Seq<char>>::empty(),
                            }
                            &&& env_views(g.command.envs@) == seq![("PATH"@, env.path@)]
                                + #[trigger] gateway_envs(x, file)
                        }
                    &&& g.logs_dir@ == config_dir@ + "/logs"@
                    &&& g.stdout_log@ == config_dir@ + "/logs"@ + "/gateway.log"@
                    &&& g.stderr_log@ == config_dir@ + "/logs"@ + "/gateway.err.log"@
                },
            },
        },
{
    if runtime.is_none() {
        return Err(
            copy_str("找不到 openclaw 命令，请先准备内置运行时或通过 npm install -g openclaw 安装"),
        );
    }
    let x = runtime.as_ref().unwrap();
    assert(*runtime == Some(*x));
    let args = vec![copy_str("gateway"), copy_str("--port"), copy_str("18789")];
    assert(views(args@) =~= seq!["gateway"@, "--port"@, "18789"@]);
    let mut command = build_openclaw_command(x, &args, env);
    let file = match env_file {
        Some(c) => load_openclaw_env_vars(c),
        None => Vec::new(),
    };
    let ghost fv = env_views(file@);
    assert(unique_keys(fv) && pairs_map(fv) == match env_file {
        Some(c) => env_vars_of(c@),
        None => Map::<Seq<char>, Seq<char>>::empty(),
    }) by {
        if env_file is None {
            assert(fv.len() == 0);
        }
    }
    let ghost start = env_views(command.envs@);
    let mut i: usize = 0;
    while i < file.len()
        invariant
            i <= file.len(),
            fv == env_views(file@),
            env_views(command.envs@) == start + fv.subrange(0, i as int),
            is_openclaw_command(command, *x, seq!["gateway"@, "--port"@, "18789"@], *env),
        decreases file.len() - i,
    {
        let ghost before = env_views(command.envs@);
        command.envs.push((file[i].0.clone(), file[i].1.clone()));
        assert(env_views(command.envs@) =~= before.push(fv[i as int]));
        assert(fv.subrange(0, i + 1) =~= fv.subrange(0, i as int).push(fv[i as int]));
        i = i + 1;
    }
    assert(fv.subrange(0, i as int) =~= fv);
    match x {
        OpenClawRuntime::Bundled(b) => {
            let ghost before = env_views(command.envs@);
            command.envs.push((copy_str("BOSICLAW_BUNDLED_RUNTIME_ROOT"), b.runtime_root.clone()));
            command.envs.push((copy_str("BOSICLAW_BUNDLED_NODE_ROOT"), b.node_root.clone()));
            assert(env_views(command.envs@) =~= before + seq![
                ("BOSICLAW_BUNDLED_RUNTIME_ROOT"@, b.runtime_root@),
                ("BOSICLAW_BUNDLED_NODE_ROOT"@, b.node_root@),
            ]);
        },
        OpenClawRuntime::System(_) => {},
    }
    assert(env_views(command.envs@) =~= seq![("PATH"@, env.path@)] + gateway_envs(*x, fv));
    let logs_dir = cat(config_dir, "/logs");
    let stdout_log = cat(logs_dir.as_str(), "/gateway.log");
    let stderr_log = cat(logs_dir.as_str(), "/gateway.err.log");
    Ok(GatewayLaunch { command, logs_dir, stdout_log, stderr_log })
}

/// The message when the gateway could not be started.
pub fn gateway_spawn_error(runtime: &OpenClawRuntime, error: &str) -> (r: String)
    ensures
        r@ == "启动失败 (运行时: "@ + display_path_of(*runtime) + "): "@ + error@,
{
    let shown = runtime.display_path();
    let head = cat3("启动失败 (运行时: ", shown.as_str(), "): ");
    cat(head.as_str(), error)
}


proof fn lemma_first_existing_agree(c: Seq<Seq<char>>, e1: ExistingPaths, e2: ExistingPaths)
    requires
        forall|i: int| 0 <= i < c.len() ==> e1.has(#[trigger] c[i]) == e2.has(c[i]),
    ensures
        first_existing(c, e1) == first_existing(c, e2),
    decreases c.len(),
{
    if c.len() > 0 {
        assert(e1.has(c[0]) == e2.has(c[0]));
        let d = c.drop_first();
        assert forall|i: int| 0 <= i < d.len() implies e1.has(#[trigger] d[i]) == e2.has(d[i]) by {
            assert(d[i] == c[i + 1]);
        }
        lemma_first_existing_agree(d, e1, e2);
    }
}

/// Two snapshots agree on the paths of `list`.
pub open spec fn agree_on(list: Seq<Seq<char>>, e1: ExistingPaths, e2: ExistingPaths) -> bool {
    forall|i: int| 0 <= i < list.len() ==> e1.has(#[trigger] list[i]) == e2.has(list[i])
}

proof fn lemma_three_agree(
    d: Seq<Seq<char>>,
    b0: Seq<Seq<char>>,
    b1: Seq<Seq<char>>,
    b2: Seq<Seq<char>>,
    e1: ExistingPaths,
    e2: ExistingPaths,
)
    requires
        d.len() == 3,
        agree_on(d, e1, e2),
        agree_on(b0, e1, e2),
        agree_on(b1, e1, e2),
        agree_on(b2, e1, e2),
    ensures
        first_existing(b0, e1) == first_existing(b0, e2),
        first_existing(b1, e1) == first_existing(b1, e2),
        first_existing(b2, e1) == first_existing(b2, e2),
        e1.has(d[0]) == e2.has(d[0]),
        e1.has(d[1]) == e2.has(d[1]),
        e1.has(d[2]) == e2.has(d[2]),
{
    lemma_first_existing_agree(b0, e1, e2);
    lemma_first_existing_agree(b1, e1, e2);
    lemma_first_existing_agree(b2, e1, e2);
}

proof fn lemma_agree_part(
    all: Seq<Seq<char>>,
    part: Seq<Seq<char>>,
    off: int,
    e1: ExistingPaths,
    e2: ExistingPaths,
)
    requires
        agree_on(all, e1, e2),
        0 <= off,
        off + part.len() <= all.len(),
        forall|i: int| 0 <= i < part.len() ==> part[i] == all[off + i],
    ensures
        agree_on(part, e1, e2),
{
    assert forall|i: int| 0 <= i < part.len() implies e1.has(#[trigger] part[i]) == e2.has(
        part[i],
    ) by {
        assert(part[i] == all[off + i]);
    }
}

/// The bundled runtime that is found depends only on which of the
/// `bundled_probe_paths` exist: two views of the disk that agree on those
/// paths find the same bundled runtime.
pub proof fn law_bundled_resolution_reads_only_probe_paths(
    root: Seq<char>,
    w: bool,
    e1: ExistingPaths,
    e2: ExistingPaths,
)
    requires
        agree_on(bundled_probe_list(root, w), e1, e2),
    ensures
        bundled_openclaw_spec(Some(root), w, e1) == bundled_openclaw_spec(Some(root), w, e2),
        bundled_node_spec(Some(root), w, e1) == bundled_node_spec(Some(root), w, e2),
{
    let all = bundled_probe_list(root, w);
    let nr = node_root_candidates(root, w);
    let pr = package_root_candidates(root, w);
    let b0 = node_binary_candidates(nr[0], w);
    let b1 = node_binary_candidates(nr[1], w);
    let b2 = node_binary_candidates(nr[2], w);
    let p0 = entry_candidates(pr[0], w);
    let p1 = entry_candidates(pr[1], w);
    let p2 = entry_candidates(pr[2], w);
    lemma_agree_part(all, nr, 0, e1, e2);
    lemma_agree_part(all, b0, 3, e1, e2);
    lemma_agree_part(all, b1, 5, e1, e2);
    lemma_agree_part(all, b2, 7, e1, e2);
    lemma_agree_part(all, pr, 9, e1, e2);
    lemma_agree_part(all, p0, 12, e1, e2);
    lemma_agree_part(all, p1, 14, e1, e2);
    lemma_agree_part(all, p2, 16, e1, e2);
    lemma_three_agree(nr, b0, b1, b2, e1, e2);
    lemma_three_agree(pr, p0, p1, p2, e1, e2);
    let n1 = nr.drop_first();
    let n2 = n1.drop_first();
    let n3 = n2.drop_first();
    assert(n1[0] == nr[1] && n2[0] == nr[2] && n3.len() == 0);
    assert(node_in(n3, w, e1) == node_in(n3, w, e2));
    assert(node_in(n2, w, e1) == node_in(n2, w, e2));
    assert(node_in(n1, w, e1) == node_in(n1, w, e2));
    assert(node_in(nr, w, e1) == node_in(nr, w, e2));
    let q1 = pr.drop_first();
    let q2 = q1.drop_first();
    let q3 = q2.drop_first();
    assert(q1[0] == pr[1] && q2[0] == pr[2] && q3.len() == 0);
    assert(package_in(q3, w, e1) == package_in(q3, w, e2));
    assert(package_in(q2, w, e1) == package_in(q2, w, e2));
    assert(package_in(q1, w, e1) == package_in(q1, w, e2));
    assert(package_in(pr, w, e1) == package_in(pr, w, e2));
}

/// `first_existing` gives the first candidate, in order, that exists, and
/// nothing when none does.
pub proof fn law_first_existing_is_first(c: Seq<Seq<char>>, e: ExistingPaths)
    ensures
        match first_existing(c, e) {
            Some(p) => exists|i: int|
                0 <= i < c.len() && c[i] == p && e.has(p) && forall|j: int|
                    0 <= j < i ==> !e.has(#[trigger] c[j]),
            None => forall|j: int| 0 <= j < c.len() ==> !e.has(#[trigger] c[j]),
        },
    decreases c.len(),
{
    if c.len() > 0 {
        let t = c.drop_first();
        law_first_existing_is_first(t, e);
        assert(forall|j: int| 0 <= j < t.len() ==> t[j] == c[j + 1]);
        if !e.has(c[0]) {
            match first_existing(t, e) {
                Some(p) => {
                    let i = choose|i: int|
                        0 <= i < t.len() && t[i] == p && e.has(p) && forall|j: int|
                            0 <= j < i ==> !e.has(#[trigger] t[j]);
                    assert(c[i + 1] == p);
                    assert forall|j: int| 0 <= j < i + 1 implies !e.has(#[trigger] c[j]) by {
                        if j > 0 {
                            assert(c[j] == t[j - 1]);
                        }
                    }
                },
                None => {
                    assert forall|j: int| 0 <= j < c.len() implies !e.has(#[trigger] c[j]) by {
                        if j > 0 {
                            assert(c[j] == t[j - 1]);
                        }
                    }
                },
            }
        }
    }
}

/// The lookup of a program on the `PATH` takes the first line of the
/// lookup's output, in output order, that names an existing path; it finds
/// nothing when no line does, or when the lookup failed.
pub proof fn law_lookup_takes_first_existing_line(
    lookup: Result<Seq<char>, Seq<char>>,
    e: ExistingPaths,
)
    ensures
        match lookup {
            Ok(out) => match lookup_result(lookup, e) {
                Some(p) => exists|i: int|
                    0 <= i < normalized_lines(out).len() && normalized_lines(out)[i] == p && e.has(p)
                        && forall|j: int|
                        0 <= j < i ==> !e.has(#[trigger] normalized_lines(out)[j]),
                None => forall|j: int|
                    0 <= j < normalized_lines(out).len() ==> !e.has(
                        #[trigger] normalized_lines(out)[j],
                    ),
            },
            Err(_) => lookup_result(lookup, e) is None,
        },
{
    match lookup {
        Ok(out) => law_first_existing_is_first(normalized_lines(out), e),
        Err(_) => {},
    }
}

/// A directory that holds an OpenClaw package: it exists, with its
/// `openclaw.mjs` or its `dist/entry.js`.
pub open spec fn holds_package(d: Seq<char>, w: bool, e: ExistingPaths) -> bool {
    e.has(d) && (e.has(join_all(d, seq!["openclaw.mjs"@], w)) || e.has(
        join_all(d, seq!["dist"@, "entry.js"@], w),
    ))
}

/// The package found among `dirs` is the first directory that holds one;
/// its entry script is `openclaw.mjs` whenever that exists, else
/// `dist/entry.js`.
pub proof fn law_package_entry_prefers_openclaw_mjs(
    dirs: Seq<Seq<char>>,
    w: bool,
    e: ExistingPaths,
)
    ensures
        match package_in(dirs, w, e) {
            Some((d, p)) => {
                &&& exists|i: int|
                    0 <= i < dirs.len() && dirs[i] == d && forall|j: int|
                        0 <= j < i ==> !holds_package(#[trigger] dirs[j], w, e)
                &&& holds_package(d, w, e)
                &&& e.has(p)
                &&& e.has(join_all(d, seq!["openclaw.mjs"@], w)) ==> p == join_all(
                    d,
                    seq!["openclaw.mjs"@],
                    w,
                )
                &&& !e.has(join_all(d, seq!["openclaw.mjs"@], w)) ==> p == join_all(
                    d,
                    seq!["dist"@, "entry.js"@],
                    w,
                )
            },
            None => forall|j: int| 0 <= j < dirs.len() ==> !holds_package(#[trigger] dirs[j], w, e),
        },
    decreases dirs.len(),
{
    if dirs.len() > 0 {
        let d0 = dirs[0];
        let c = entry_candidates(d0, w);
        let a = join_all(d0, seq!["openclaw.mjs"@], w);
        let b = join_all(d0, seq!["dist"@, "entry.js"@], w);
        assert(c[0] == a && c[1] == b);
        assert(c.drop_first() =~= seq![b]);
        assert(seq![b].drop_first() =~= Seq::<Seq<char>>::empty());
        assert(first_existing(Seq::<Seq<char>>::empty(), e) is None);
        assert(first_existing(seq![b], e) == if e.has(b) {
            Some(b)
        } else {
            None::<Seq<char>>
        });
        assert(first_existing(c, e) == if e.has(a) {
            Some(a)
        } else if e.has(b) {
            Some(b)
        } else {
            None::<Seq<char>>
        });
        let t = dirs.drop_first();
        law_package_entry_prefers_openclaw_mjs(t, w, e);
        assert(forall|j: int| 0 <= j < t.len() ==> t[j] == dirs[j + 1]);
        if !holds_package(d0, w, e) {
            match package_in(t, w, e) {
                Some((d, p)) => {
                    let i = choose|i: int|
                        0 <= i < t.len() && t[i] == d && forall|j: int|
                            0 <= j < i ==> !holds_package(#[trigger] t[j], w, e);
                    assert(dirs[i + 1] == d);
                    assert forall|j: int| 0 <= j < i + 1 implies !holds_package(
                        #[trigger] dirs[j],
                        w,
                        e,
                    ) by {
                        if j > 0 {
                            assert(dirs[j] == t[j - 1]);
                        }
                    }
                },
                None => {
                    assert forall|j: int| 0 <= j < dirs.len() implies !holds_package(
                        #[trigger] dirs[j],
                        w,
                        e,
                    ) by {
                        if j > 0 {
                            assert(dirs[j] == t[j - 1]);
                        }
                    }
                },
            }
        } else {
            assert(dirs[0] == d0);
        }
    }
}

/// The bundled runtime runs `openclaw.mjs` whenever its package directory
/// holds one.
pub proof fn law_bundled_entry_is_openclaw_mjs_when_present(
    root: Option<Seq<char>>,
    w: bool,
    e: ExistingPaths,
)
    ensures
        match bundled_openclaw_spec(root, w, e) {
            Some((r, nr, np, pr, ep)) => e.has(ep) && (e.has(join_all(pr, seq!["openclaw.mjs"@], w))
                ==> ep == join_all(pr, seq!["openclaw.mjs"@], w)),
            None => true,
        },
{
    match root {
        Some(r) => law_package_entry_prefers_openclaw_mjs(package_root_candidates(r, w), w, e),
        None => {},
    }
}

/// The Node.js binary a directory is searched for first: `node.exe` on
/// Windows, `bin/node` elsewhere.
pub open spec fn primary_node_binary(d: Seq<char>, w: bool) -> Seq<char> {
    if w {
        join_all(d, seq!["node.exe"@], w)
    } else {
        join_all(d, seq!["bin"@, "node"@], w)
    }
}

/// The Node.js binary a directory is searched for second: `bin\node.exe`
/// on Windows, `node` elsewhere.
pub open spec fn secondary_node_binary(d: Seq<char>, w: bool) -> Seq<char> {
    if w {
        join_all(d, seq!["bin"@, "node.exe"@], w)
    } else {
        join_all(d, seq!["node"@], w)
    }
}

/// A directory that holds a Node.js: it exists, with one of its binaries.
pub open spec fn holds_node(d: Seq<char>, w: bool, e: ExistingPaths) -> bool {
    e.has(d) && (e.has(primary_node_binary(d, w)) || e.has(secondary_node_binary(d, w)))
}

/// The Node.js found among `dirs` is in the first directory that holds one;
/// its binary is the primary one whenever that exists, else the secondary.
pub proof fn law_node_binary_order(dirs: Seq<Seq<char>>, w: bool, e: ExistingPaths)
    ensures
        match node_in(dirs, w, e) {
            Some((d, p)) => {
                &&& exists|i: int|
                    0 <= i < dirs.len() && dirs[i] == d && forall|j: int|
                        0 <= j < i ==> !holds_node(#[trigger] dirs[j], w, e)
                &&& holds_node(d, w, e)
                &&& e.has(primary_node_binary(d, w)) ==> p == primary_node_binary(d, w)
                &&& !e.has(primary_node_binary(d, w)) ==> p == secondary_node_binary(d, w)
            },
            None => forall|j: int| 0 <= j < dirs.len() ==> !holds_node(#[trigger] dirs[j], w, e),
        },
    decreases dirs.len(),
{
    if dirs.len() > 0 {
        let d0 = dirs[0];
        let c = node_binary_candidates(d0, w);
        let a = primary_node_binary(d0, w);
        let b = secondary_node_binary(d0, w);
        assert(c[0] == a && c[1] == b);
        assert(c.drop_first() =~= seq![b]);
        assert(seq![b].drop_first() =~= Seq::<Seq<char>>::empty());
        assert(first_existing(Seq::<Seq<char>>::empty(), e) is None);
        assert(first_existing(seq![b], e) == if e.has(b) {
            Some(b)
        } else {
            None::<Seq<char>>
        });
        assert(first_existing(c, e) == if e.has(a) {
            Some(a)
        } else if e.has(b) {
            Some(b)
        } else {
            None::<Seq<char>>
        });
        let t = dirs.drop_first();
        law_node_binary_order(t, w, e);
        assert(forall|j: int| 0 <= j < t.len() ==> t[j] == dirs[j + 1]);
        if !holds_node(d0, w, e) {
            match node_in(t, w, e) {
                Some((d, p)) => {
                    let i = choose|i: int|
                        0 <= i < t.len() && t[i] == d && forall|j: int|
                            0 <= j < i ==> !holds_node(#[trigger] t[j], w, e);
                    assert(dirs[i + 1] == d);
                    assert forall|j: int| 0 <= j < i + 1 implies !holds_node(
                        #[trigger] dirs[j],
                        w,
                        e,
                    ) by {
                        if j > 0 {
                            assert(dirs[j] == t[j - 1]);
                        }
                    }
                },
                None => {
                    assert forall|j: int| 0 <= j < dirs.len() implies !holds_node(
                        #[trigger] dirs[j],
                        w,
                        e,
                    ) by {
                        if j > 0 {
                            assert(dirs[j] == t[j - 1]);
                        }
                    }
                },
            }
        } else {
            assert(dirs[0] == d0);
        }
    }
}

} // verus!
