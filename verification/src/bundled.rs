//! The OpenClaw runtime that ships as `openclaw-runtime.tgz` and is
//! unpacked under `~/.openclaw/runtime/openclaw`: its layout, the version
//! recorded in the archive, and when it has to be unpacked again.
use vstd::prelude::*;
use crate::text::{cat, copy_str, str_eq, trim, trim_ws};
use crate::platform::{join_all, join_path};
use crate::command::{opt_view, result_view};
use crate::runtime::ExistingPaths;

verus! {

/// `<config>/runtime`: where the manager keeps the unpacked runtime.
pub open spec fn runtime_dir_spec(config_dir: Seq<char>, w: bool) -> Seq<char> {
    join_all(config_dir, seq!["runtime"@], w)
}

/// `<config>/runtime/openclaw`: the unpacked OpenClaw package.
pub open spec fn openclaw_dir_spec(config_dir: Seq<char>, w: bool) -> Seq<char> {
    join_all(runtime_dir_spec(config_dir, w), seq!["openclaw"@], w)
}

/// `<config>/runtime/.version`: the version of the unpacked package.
pub open spec fn version_file_spec(config_dir: Seq<char>, w: bool) -> Seq<char> {
    join_all(runtime_dir_spec(config_dir, w), seq![".version"@], w)
}

/// `<config>/runtime/openclaw/openclaw.mjs`: the unpacked entry script.
pub open spec fn entry_script_spec(config_dir: Seq<char>, w: bool) -> Seq<char> {
    join_all(openclaw_dir_spec(config_dir, w), seq!["openclaw.mjs"@], w)
}

fn join_one(base: &str, comp: &str, w: bool) -> (r: String)
    ensures
        r@ == join_all(base@, seq![comp@], w),
{
    let r = join_path(base, comp, w);
    let ghost c = seq![comp@];
    assert(c[0] == comp@);
    assert(c.drop_first() =~= Seq::<Seq<char>>::empty());
    assert(join_all(r@, Seq::<Seq<char>>::empty(), w) == r@);
    r
}

/// The runtime directory under the configuration directory.
pub fn get_runtime_dir(config_dir: &str, windows: bool) -> (r: String)
    ensures
        r@ == runtime_dir_spec(config_dir@, windows),
{
    join_one(config_dir, "runtime", windows)
}

/// The unpacked OpenClaw package's directory.
pub fn get_runtime_openclaw_dir(config_dir: &str, windows: bool) -> (r: String)
    ensures
        r@ == openclaw_dir_spec(config_dir@, windows),
{
    let d = get_runtime_dir(config_dir, windows);
    join_one(d.as_str(), "openclaw", windows)
}

/// The file recording the unpacked version.
pub fn get_version_file(config_dir: &str, windows: bool) -> (r: String)
    ensures
        r@ == version_file_spec(config_dir@, windows),
{
    let d = get_runtime_dir(config_dir, windows);
    join_one(d.as_str(), ".version", windows)
}

/// The unpacked entry script.
pub fn get_entry_script(config_dir: &str, windows: bool) -> (r: String)
    ensures
        r@ == entry_script_spec(config_dir@, windows),
{
    let d = get_runtime_openclaw_dir(config_dir, windows);
    join_one(d.as_str(), "openclaw.mjs", windows)
}

/// The Node.js shipped next to the application's executable (`node`, or
/// `node.exe` on Windows), when it exists.
pub open spec fn bundled_node_path_spec(exe_dir: Option<Seq<char>>, w: bool, e: ExistingPaths) -> Option<
    Seq<char>,
> {
    match exe_dir {
        Some(d) => {
            let p = join_all(
                d,
                seq![
                    if w {
                        "node.exe"@
                    } else {
                        "node"@
                    },
                ],
                w,
            );
            if e.has(p) {
                Some(p)
            } else {
                None
            }
        },
        None => None,
    }
}

/// The Node.js shipped next to the executable, given the executable's
/// directory.
pub fn get_bundled_node_path(exe_dir: Option<&str>, windows: bool, existing: &ExistingPaths) -> (r:
    Option<String>)
    ensures
        opt_view(r) == bundled_node_path_spec(
            match exe_dir {
                Some(d) => Some(d@),
                None => None,
            },
            windows,
            *existing,
        ),
{
    match exe_dir {
        Some(d) => {
            let p = if windows {
                join_one(d, "node.exe", windows)
            } else {
                join_one(d, "node", windows)
            };
            if existing.contains(p.as_str()) {
                Some(p)
            } else {
                None
            }
        },
        None => None,
    }
}

/// `get_bundled_node_path`, as text.
pub fn get_bundled_node_path_str(exe_dir: Option<&str>, windows: bool, existing: &ExistingPaths) -> (r:
    Option<String>)
    ensures
        opt_view(r) == bundled_node_path_spec(
            match exe_dir {
                Some(d) => Some(d@),
                None => None,
            },
            windows,
            *existing,
        ),
{
    get_bundled_node_path(exe_dir, windows, existing)
}

/// The unpacked entry script, when it exists.
pub fn get_runtime_openclaw_path(config_dir: &str, windows: bool, existing: &ExistingPaths) -> (r:
    Option<String>)
    ensures
        opt_view(r) == if existing.has(entry_script_spec(config_dir@, windows)) {
            Some(entry_script_spec(config_dir@, windows))
        } else {
            None
        },
{
    let p = get_entry_script(config_dir, windows);
    if existing.contains(p.as_str()) {
        Some(p)
    } else {
        None
    }
}

/// The unpacked runtime is ready when its entry script and its version
/// file exist.
pub fn is_runtime_ready(config_dir: &str, windows: bool, existing: &ExistingPaths) -> (r: bool)
    ensures
        r == (existing.has(entry_script_spec(config_dir@, windows)) && existing.has(
            version_file_spec(config_dir@, windows),
        )),
{
    let p = get_entry_script(config_dir, windows);
    let v = get_version_file(config_dir, windows);
    existing.contains(p.as_str()) && existing.contains(v.as_str())
}

/// What `flate2::read::GzDecoder` decodes from `data` by `read_to_end`:
/// the bytes it produced, and the error that stopped it, if any.
pub uninterp spec fn gunzip_spec(data: Seq<u8>) -> (Seq<u8>, Option<Seq<char>>);

/// `flate2::read::GzDecoder` over `data`, read to the end.  Its result is a
/// function of `data` alone, named by `gunzip_spec`; nothing more is
/// stated of the gzip format.
#[verifier::external_body]
fn gunzip(data: &[u8]) -> (r: (Vec<u8>, Option<String>))
    ensures
        (r.0@, opt_view(r.1)) == gunzip_spec(data@),
{
    let mut out = Vec::new();
    let res = std::io::Read::read_to_end(&mut flate2::read::GzDecoder::new(data), &mut out);
    (out, res.err().map(|e| e.to_string()))
}

/// What `tar::Archive::entries` reads from `data`: each entry's path (as
/// `to_string_lossy` shows it) and content, in archive order, up to the
/// first error; and that error, with whether it came from reading an
/// entry's path (`Entry::path`) rather than the entry itself.
pub uninterp spec fn tar_entries_spec(data: Seq<u8>) -> (
    Seq<(Seq<char>, Seq<u8>)>,
    Option<(bool, Seq<char>)>,
);

pub open spec fn entries_view(v: Seq<(String, Vec<u8>)>) -> Seq<(Seq<char>, Seq<u8>)> {
    v.map_values(|e: (String, Vec<u8>)| (e.0@, e.1@))
}

pub open spec fn tar_error_view(e: Option<(bool, String)>) -> Option<(bool, Seq<char>)> {
    match e {
        Some((path_failed, msg)) => Some((path_failed, msg@)),
        None => None,
    }
}

/// The entries of the tar archive `data` (`tar::Archive::entries`, each
/// entry's `path` and content).  Its result is a function of `data`,
/// named by `tar_entries_spec`; nothing more is stated of the tar format.
#[verifier::external_body]
fn tar_entries(data: &[u8]) -> (r: (Vec<(String, Vec<u8>)>, Option<(bool, String)>))
    ensures
        (entries_view(r.0@), tar_error_view(r.1)) == tar_entries_spec(data@),
{
    let mut out = Vec::new();
    let res = tar::Archive::new(data).entries().map_err(|e| (false, e)).and_then(|es| {
        for e in es {
            let mut e = e.map_err(|e| (false, e))?;
            let path = e.path().map_err(|e| (true, e))?.to_string_lossy().to_string();
            let mut content = Vec::new();
            std::io::Read::read_to_end(&mut e, &mut content).map_err(|e| (false, e))?;
            out.push((path, content));
        }
        Ok(())
    });
    (out, res.err().map(|(p, e)| (p, e.to_string())))
}

/// What `serde_json::from_slice::<serde_json::Value>` makes of `data`, read
/// for the top-level member `key`: a parse error, or the member's text
/// when it is a JSON string (none when it is missing or not a string).
pub uninterp spec fn json_string_member_spec(data: Seq<u8>, key: Seq<char>) -> Result<
    Option<Seq<char>>,
    Seq<char>,
>;

pub open spec fn member_view(r: Result<Option<String>, String>) -> Result<
    Option<Seq<char>>,
    Seq<char>,
> {
    match r {
        Ok(o) => Ok(opt_view(o)),
        Err(e) => Err(e@),
    }
}

/// `serde_json::from_slice` of `data`, then `Value::get(key)` and
/// `Value::as_str`.  Its result is a function of `data` and `key`, named by
/// `json_string_member_spec`; nothing more is stated of JSON.
#[verifier::external_body]
fn json_string_member(data: &[u8], key: &str) -> (r: Result<Option<String>, String>)
    ensures
        member_view(r) == json_string_member_spec(data@, key@),
{
    serde_json::from_slice::<serde_json::Value>(data).map(
        |v| v.get(key).and_then(|x| x.as_str()).map(|s| s.to_string()),
    ).map_err(|e| e.to_string())
}

/// An archive entry that is the package manifest: `package.json` or
/// `./package.json`.
pub open spec fn is_manifest_path(p: Seq<char>) -> bool {
    p == "package.json"@ || p == "./package.json"@
}

/// The content of the first manifest entry.
pub open spec fn find_manifest(entries: Seq<(Seq<char>, Seq<u8>)>) -> Option<Seq<u8>>
    decreases entries.len(),
{
    if entries.len() == 0 {
        None
    } else if is_manifest_path(entries[0].0) {
        Some(entries[0].1)
    } else {
        find_manifest(entries.drop_first())
    }
}

/// The version recorded in a gzipped tar archive: the `version` string of
/// its first `package.json`; otherwise why there is none (a damaged gzip
/// stream first, as the entries are read from it).
pub open spec fn tgz_version_spec(tgz: Seq<u8>) -> Result<Seq<char>, Seq<char>> {
    let raw = gunzip_spec(tgz);
    let entries = tar_entries_spec(raw.0);
    match find_manifest(entries.0) {
        Some(data) => match json_string_member_spec(data, "version"@) {
            Ok(Some(v)) => Ok(v),
            Ok(None) => Err("package.json 中未找到 version 字段"@),
            Err(e) => Err("解析 package.json 失败: "@ + e),
        },
        None => match raw.1 {
            Some(e) => Err("读取 entry 失败: "@ + e),
            None => match entries.1 {
                Some((true, e)) => Err("读取 path 失败: "@ + e),
                Some((false, e)) => Err("读取 entry 失败: "@ + e),
                None => Err("tgz 中未找到 package.json"@),
            },
        },
    }
}

fn find_manifest_entry(entries: &Vec<(String, Vec<u8>)>) -> (r: Option<usize>)
    ensures
        match r {
            Some(i) => i < entries@.len() && find_manifest(entries_view(entries@)) == Some(
                entries@[i as int].1@,
            ),
            None => find_manifest(entries_view(entries@)) is None,
        },
{
    let ghost ev = entries_view(entries@);
    let mut i: usize = 0;
    assert(ev.subrange(0, ev.len() as int) =~= ev);
    while i < entries.len()
        invariant
            i <= entries.len(),
            ev == entries_view(entries@),
            find_manifest(ev) == find_manifest(ev.subrange(i as int, ev.len() as int)),
        decreases entries.len() - i,
    {
        let ghost rest = ev.subrange(i as int, ev.len() as int);
        assert(rest[0] == (entries@[i as int].0@, entries@[i as int].1@));
        if str_eq(entries[i].0.as_str(), "package.json") || str_eq(
            entries[i].0.as_str(),
            "./package.json",
        ) {
            return Some(i);
        }
        assert(rest.drop_first() =~= ev.subrange(i + 1, ev.len() as int));
        i = i + 1;
    }
    None
}

/// Reads the `version` of the `package.json` in the runtime archive (the
/// archive's bytes).
pub fn read_version_from_tgz(tgz: &[u8]) -> (r: Result<String, String>)
    ensures
        result_view(r) == tgz_version_spec(tgz@),
{
    let (raw, gz_error) = gunzip(tgz);
    let (entries, tar_error) = tar_entries(raw.as_slice());
    match find_manifest_entry(&entries) {
        Some(i) => match json_string_member(entries[i].1.as_slice(), "version") {
            Ok(Some(v)) => Ok(v),
            Ok(None) => Err(copy_str("package.json 中未找到 version 字段")),
            Err(e) => Err(cat("解析 package.json 失败: ", e.as_str())),
        },
        None => match gz_error {
            Some(e) => Err(cat("读取 entry 失败: ", e.as_str())),
            None => match tar_error {
                Some((true, e)) => Err(cat("读取 path 失败: ", e.as_str())),
                Some((false, e)) => Err(cat("读取 entry 失败: ", e.as_str())),
                None => Err(copy_str("tgz 中未找到 package.json")),
            },
        },
    }
}

/// The next step in making sure the runtime archive is unpacked.
pub enum ExtractionStep {
    /// Stop with this error.
    Fail(String),
    /// Read the archive's bytes and its version (`read_version_from_tgz`),
    /// then call again.
    ReadArchive,
    /// The unpacked runtime is current; use it.
    UpToDate,
    /// Unpack the archive afresh, then record this version.
    Extract(String),
}

/// The version the archive is taken to have: its recorded version, or
/// `unknown` when that could not be read.
pub open spec fn bundled_version_of(r: Result<Seq<char>, Seq<char>>) -> Seq<char> {
    match r {
        Ok(v) => v,
        Err(_) => "unknown"@,
    }
}

pub open spec fn extraction_spec(
    archive_exists: bool,
    archive_version: Option<Result<Seq<char>, Seq<char>>>,
    entry_exists: bool,
    version_file_exists: bool,
    installed_version: Option<Seq<char>>,
) -> Option<Result<Option<Seq<char>>, Seq<char>>> {
    if !archive_exists {
        Some(Err("未找到内置 openclaw-runtime.tgz"@))
    } else {
        match archive_version {
            None => None,
            Some(r) => {
                let v = bundled_version_of(r);
                if entry_exists && version_file_exists && installed_version is Some && trim_ws(
                    installed_version->0,
                ) == v {
                    Some(Ok(None))
                } else {
                    Some(Ok(Some(v)))
                }
            },
        }
    }
}

pub open spec fn step_view(s: ExtractionStep) -> Option<Result<Option<Seq<char>>, Seq<char>>> {
    match s {
        ExtractionStep::Fail(e) => Some(Err(e@)),
        ExtractionStep::ReadArchive => None,
        ExtractionStep::UpToDate => Some(Ok(None)),
        ExtractionStep::Extract(v) => Some(Ok(Some(v@))),
    }
}

/// One step of `ensure_openclaw_extracted`: without the archive there is
/// nothing to unpack; once its version is known, the unpacked runtime is
/// kept when its entry script and version file exist and the recorded
/// version (trimmed) is the archive's; otherwise it is unpacked afresh.
pub fn ensure_openclaw_extracted(
    archive_exists: bool,
    archive_version: &Option<Result<String, String>>,
    entry_exists: bool,
    version_file_exists: bool,
    installed_version: Option<&str>,
) -> (r: ExtractionStep)
    ensures
        step_view(r) == extraction_spec(
            archive_exists,
            match *archive_version {
                Some(x) => Some(result_view(x)),
                None => None,
            },
            entry_exists,
            version_file_exists,
            match installed_version {
                Some(x) => Some(x@),
                None => None,
            },
        ),
{
    if !archive_exists {
        return ExtractionStep::Fail(copy_str("未找到内置 openclaw-runtime.tgz"));
    }
    match archive_version {
        None => ExtractionStep::ReadArchive,
        Some(r) => {
            let v = match r {
                Ok(v) => v.clone(),
                Err(_) => copy_str("unknown"),
            };
            if entry_exists && version_file_exists {
                match installed_version {
                    Some(installed) => {
                        let t = trim(installed);
                        if t == v {
                            return ExtractionStep::UpToDate;
                        }
                    },
                    None => {},
                }
            }
            ExtractionStep::Extract(v)
        },
    }
}

/// After unpacking: the entry script when it is there, else the error
/// that it is missing.
pub fn finish_openclaw_extraction(entry_exists: bool, entry_path: &str) -> (r: Result<
    String,
    String,
>)
    ensures
        result_view(r) == if entry_exists {
            Ok::<Seq<char>, Seq<char>>(entry_path@)
        } else {
            Err("解压完成但未找到 openclaw.mjs: "@ + entry_path@)
        },
{
    if entry_exists {
        Ok(copy_str(entry_path))
    } else {
        Err(cat("解压完成但未找到 openclaw.mjs: ", entry_path))
    }
}

/// The unpacked runtime is kept only when its recorded version (trimmed) is
/// exactly the archive's version, with its entry script and version file in
/// place; in every other case the archive's version is unpacked afresh.
/// An archive whose version cannot be read counts as version `unknown`.
pub proof fn law_runtime_kept_only_on_equal_versions(
    archive_version: Result<Seq<char>, Seq<char>>,
    entry_exists: bool,
    version_file_exists: bool,
    installed: Option<Seq<char>>,
)
    ensures
        ({
            let v = match archive_version {
                Ok(x) => x,
                Err(_) => "unknown"@,
            };
            let s = extraction_spec(
                true,
                Some(archive_version),
                entry_exists,
                version_file_exists,
                installed,
            );
            &&& (s == Some(Ok::<Option<Seq<char>>, Seq<char>>(None))) <==> (entry_exists
                && version_file_exists && installed is Some && trim_ws(installed->0) == v)
            &&& s != Some(Ok::<Option<Seq<char>>, Seq<char>>(None)) ==> s == Some(
                Ok::<Option<Seq<char>>, Seq<char>>(Some(v)),
            )
        }),
{
}

/// Unpacking settles the matter: once the archive's version `v` has been
/// unpacked and recorded, the next check keeps the runtime.
pub proof fn law_extraction_then_up_to_date(archive_version: Result<Seq<char>, Seq<char>>, v: Seq<char>)
    requires
        extraction_spec(true, Some(archive_version), false, false, None) == Some(
            Ok::<Option<Seq<char>>, Seq<char>>(Some(v)),
        ),
        trim_ws(v) == v,
    ensures
        extraction_spec(true, Some(archive_version), true, true, Some(v)) == Some(
            Ok::<Option<Seq<char>>, Seq<char>>(None),
        ),
{
}

/// Without the archive there is nothing to unpack: the step fails whatever
/// else is known.
pub proof fn law_missing_archive_fails(
    archive_version: Option<Result<Seq<char>, Seq<char>>>,
    entry_exists: bool,
    version_file_exists: bool,
    installed: Option<Seq<char>>,
)
    ensures
        extraction_spec(false, archive_version, entry_exists, version_file_exists, installed)
            == Some(Err::<Option<Seq<char>>, Seq<char>>("未找到内置 openclaw-runtime.tgz"@)),
{
}

} // verus!
