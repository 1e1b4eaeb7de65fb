use bosiclaw::command::{CommandOutcome, ShellEnv};
use bosiclaw::runtime::{
    build_openclaw_command, bundled_probe_paths, extended_path_probe_paths, first_existing_path,
    gateway_spawn_error, get_extended_path, get_node_version, get_openclaw_path, get_runtime_mode,
    get_runtime_root, get_unix_node_paths, get_unix_openclaw_paths, get_windows_node_paths,
    get_windows_openclaw_paths, is_bundled_runtime_active, node_lookup_command,
    node_version_command, nvm_alias_file, nvm_settings_file, openclaw_output, parent_dir,
    resolve_bundled_node_runtime, resolve_bundled_openclaw_runtime, resolve_node_from_path,
    resolve_node_runtime, resolve_openclaw_runtime, resolve_system_node_runtime,
    resolve_system_openclaw_runtime, run_openclaw, shell_lookup_command, spawn_openclaw_gateway,
    BundledOpenClawRuntime, ExistingPaths, NodeRuntime, OpenClawRuntime, SystemOpenClawRuntime,
    SystemOpenClawStep,
};

const ROOT: &str = "/Applications/BosiClaw.app/Contents/Resources/runtime";

fn unix() -> ShellEnv {
    ShellEnv { windows: false, path: "/usr/bin".to_string() }
}

fn existing(paths: &[&str]) -> ExistingPaths {
    let mut e = ExistingPaths::new();
    for p in paths {
        e.mark(p);
    }
    e
}

fn strings(v: &[&str]) -> Vec<String> {
    v.iter().map(|s| s.to_string()).collect()
}

fn bundled() -> BundledOpenClawRuntime {
    BundledOpenClawRuntime {
        runtime_root: ROOT.to_string(),
        node_root: format!("{}/tools/node", ROOT),
        node_path: format!("{}/tools/node/bin/node", ROOT),
        package_root: format!("{}/lib/node_modules/openclaw", ROOT),
        entry_path: format!("{}/lib/node_modules/openclaw/openclaw.mjs", ROOT),
    }
}

fn system(p: &str) -> SystemOpenClawRuntime {
    SystemOpenClawRuntime { executable_path: p.to_string() }
}

fn finished(success: bool, stdout: &str, stderr: &str) -> CommandOutcome {
    CommandOutcome::Finished {
        success,
        code: Some(if success { 0 } else { 1 }),
        stdout: stdout.to_string(),
        stderr: stderr.to_string(),
    }
}

#[test]
fn existing_paths_records_marks() {
    let e = existing(&["/a", "/b"]);
    assert!(e.contains("/a"));
    assert!(e.contains("/b"));
    assert!(!e.contains("/c"));
    assert!(!ExistingPaths::new().contains("/a"));
}

#[test]
fn first_existing_path_takes_the_first() {
    let c = strings(&["/x", "/y", "/z"]);
    assert_eq!(first_existing_path(&c, &existing(&["/z", "/y"])), Some("/y".to_string()));
    assert_eq!(first_existing_path(&c, &existing(&["/q"])), None);
    assert_eq!(first_existing_path(&Vec::new(), &existing(&["/q"])), None);
}

#[test]
fn bundled_runtime_is_found_in_the_standard_layout() {
    let e = existing(&[
        &format!("{}/tools/node", ROOT),
        &format!("{}/tools/node/bin/node", ROOT),
        &format!("{}/lib/node_modules/openclaw", ROOT),
        &format!("{}/lib/node_modules/openclaw/openclaw.mjs", ROOT),
    ]);
    let b = resolve_bundled_openclaw_runtime(Some(ROOT), false, &e).unwrap();
    let expected = bundled();
    assert_eq!(b.runtime_root, expected.runtime_root);
    assert_eq!(b.node_root, expected.node_root);
    assert_eq!(b.node_path, expected.node_path);
    assert_eq!(b.package_root, expected.package_root);
    assert_eq!(b.entry_path, expected.entry_path);
    match resolve_bundled_node_runtime(Some(ROOT), false, &e) {
        Some(NodeRuntime::Bundled { root, path }) => {
            assert_eq!(root, expected.node_root);
            assert_eq!(path, expected.node_path);
        }
        _ => panic!("bundled node expected"),
    }
}

#[test]
fn bundled_runtime_falls_back_through_candidates() {
    // tools/node exists but holds no binary: `node` is used; the package is
    // under packages/openclaw with dist/entry.js.
    let e = existing(&[
        &format!("{}/tools/node", ROOT),
        &format!("{}/node", ROOT),
        &format!("{}/node/node", ROOT),
        &format!("{}/packages/openclaw", ROOT),
        &format!("{}/packages/openclaw/dist/entry.js", ROOT),
    ]);
    let b = resolve_bundled_openclaw_runtime(Some(ROOT), false, &e).unwrap();
    assert_eq!(b.node_root, format!("{}/node", ROOT));
    assert_eq!(b.node_path, format!("{}/node/node", ROOT));
    assert_eq!(b.entry_path, format!("{}/packages/openclaw/dist/entry.js", ROOT));
}

#[test]
fn bundled_runtime_needs_node_and_package() {
    let only_node = existing(&[&format!("{}/nodejs", ROOT), &format!("{}/nodejs/bin/node", ROOT)]);
    assert!(resolve_bundled_openclaw_runtime(Some(ROOT), false, &only_node).is_none());
    assert!(resolve_bundled_node_runtime(Some(ROOT), false, &only_node).is_some());
    let only_package = existing(&[&format!("{}/openclaw", ROOT), &format!("{}/openclaw/openclaw.mjs", ROOT)]);
    assert!(resolve_bundled_openclaw_runtime(Some(ROOT), false, &only_package).is_none());
    assert!(resolve_bundled_openclaw_runtime(None, false, &only_package).is_none());
    assert!(resolve_bundled_node_runtime(None, false, &only_node).is_none());
}

#[test]
fn bundled_runtime_on_windows() {
    let root = "C:\\Program Files\\BosiClaw\\runtime";
    let e = existing(&[
        "C:\\Program Files\\BosiClaw\\runtime\\tools\\node",
        "C:\\Program Files\\BosiClaw\\runtime\\tools\\node\\node.exe",
        "C:\\Program Files\\BosiClaw\\runtime\\lib\\node_modules\\openclaw",
        "C:\\Program Files\\BosiClaw\\runtime\\lib\\node_modules\\openclaw\\openclaw.mjs",
    ]);
    let b = resolve_bundled_openclaw_runtime(Some(root), true, &e).unwrap();
    assert_eq!(b.node_path, "C:\\Program Files\\BosiClaw\\runtime\\tools\\node\\node.exe");
}

#[test]
fn bundled_probe_paths_lists_every_candidate() {
    let p = bundled_probe_paths(ROOT, false);
    assert_eq!(p.len(), 18);
    assert_eq!(p[0], format!("{}/tools/node", ROOT));
    assert_eq!(p[3], format!("{}/tools/node/bin/node", ROOT));
    assert_eq!(p[9], format!("{}/lib/node_modules/openclaw", ROOT));
    assert_eq!(p[17], format!("{}/packages/openclaw/dist/entry.js", ROOT));
}

#[test]
fn law_bundled_resolution_reads_only_probe_paths_example() {
    let full = existing(&[
        &format!("{}/tools/node", ROOT),
        &format!("{}/tools/node/bin/node", ROOT),
        &format!("{}/lib/node_modules/openclaw", ROOT),
        &format!("{}/lib/node_modules/openclaw/openclaw.mjs", ROOT),
        "/usr/local/bin/openclaw",
        "/unrelated",
    ]);
    let mut probed = ExistingPaths::new();
    for p in bundled_probe_paths(ROOT, false) {
        if full.contains(&p) {
            probed.mark(&p);
        }
    }
    let a = resolve_bundled_openclaw_runtime(Some(ROOT), false, &full).unwrap();
    let b = resolve_bundled_openclaw_runtime(Some(ROOT), false, &probed).unwrap();
    assert_eq!(a.entry_path, b.entry_path);
    assert_eq!(a.node_path, b.node_path);
}

#[test]
fn bundled_runtime_is_preferred() {
    let r = resolve_openclaw_runtime(Some(bundled()), Some(system("/usr/local/bin/openclaw")));
    assert!(matches!(r, Some(OpenClawRuntime::Bundled(_))));
    let r = resolve_openclaw_runtime(None, Some(system("/usr/local/bin/openclaw")));
    assert!(matches!(r, Some(OpenClawRuntime::System(_))));
    assert!(resolve_openclaw_runtime(None, None).is_none());
    let n = resolve_node_runtime(
        Some(NodeRuntime::Bundled { root: "/r".to_string(), path: "/r/bin/node".to_string() }),
        Some(NodeRuntime::System("/usr/bin/node".to_string())),
    );
    assert_eq!(n.unwrap().path(), "/r/bin/node");
    let n = resolve_node_runtime(None, Some(NodeRuntime::System("/usr/bin/node".to_string())));
    assert_eq!(n.unwrap().path(), "/usr/bin/node");
}

#[test]
fn system_node_from_path_lookup() {
    let e = existing(&["/usr/local/bin/node"]);
    let out: Result<String, String> = Ok("/missing/node\n  /usr/local/bin/node \n".to_string());
    assert_eq!(resolve_node_from_path(&out, &e), Some("/usr/local/bin/node".to_string()));
    assert_eq!(resolve_node_from_path(&Err("not found".to_string()), &e), None);
    let c = node_lookup_command(&unix());
    assert_eq!((c.program.as_str(), c.args.clone()), ("which", vec!["node".to_string()]));
    let w = node_lookup_command(&ShellEnv { windows: true, path: String::new() });
    assert_eq!(w.args, vec!["/c", "where node"]);
}

#[test]
fn system_node_runtime() {
    let cands = strings(&["/opt/homebrew/bin/node", "/usr/bin/node"]);
    let e = existing(&["/usr/bin/node"]);
    match resolve_system_node_runtime(Some("/from/path/node".to_string()), &cands, &e) {
        Some(NodeRuntime::System(p)) => assert_eq!(p, "/from/path/node"),
        _ => panic!(),
    }
    match resolve_system_node_runtime(None, &cands, &e) {
        Some(NodeRuntime::System(p)) => assert_eq!(p, "/usr/bin/node"),
        _ => panic!(),
    }
    assert!(resolve_system_node_runtime(None, &cands, &existing(&[])).is_none());
}

#[test]
fn unix_node_candidates() {
    let p = get_unix_node_paths(Some("/home/u"), Some(" 22.5.0\n"));
    assert_eq!(p.len(), 14);
    assert_eq!(p[0], "/home/u/.nvm/versions/node/v22.5.0/bin/node");
    assert_eq!(p[1], "/opt/homebrew/bin/node");
    assert_eq!(p[4], "/home/u/.nvm/versions/node/v22.0.0/bin/node");
    assert_eq!(p[13], "/home/u/.local/share/mise/shims/node");
    assert_eq!(get_unix_node_paths(Some("/home/u"), Some("  ")).len(), 13);
    assert_eq!(get_unix_node_paths(None, Some("22")), strings(&["/opt/homebrew/bin/node", "/usr/local/bin/node", "/usr/bin/node"]));
    assert_eq!(nvm_alias_file("/home/u"), "/home/u/.nvm/alias/default");
}

#[test]
fn windows_node_candidates() {
    let settings = "root: C:\\nvm\r\ncurrent: 20.1.0\r\ncurrent:22.3.0\r\ncurrent:\r\n";
    let p = get_windows_node_paths(
        Some("C:\\Users\\u"),
        Some("C:\\Program Files"),
        None,
        Some("C:\\nvm4w\\nodejs"),
        Some("C:\\nvm"),
        Some(settings),
    );
    assert_eq!(p[0], "C:\\nvm\\v22.3.0\\node.exe");
    assert_eq!(p[1], "C:\\nvm\\v20.1.0\\node.exe");
    assert_eq!(p[2], "C:\\nvm4w\\nodejs\\node.exe");
    assert_eq!(p[3], "C:\\Program Files\\nodejs\\node.exe");
    assert_eq!(p[6], "C:\\Users\\u\\AppData\\Roaming\\nvm\\current\\node.exe");
    assert_eq!(p.last().unwrap(), "C:\\Program Files\\nodejs\\node.exe");
    assert_eq!(p.len(), 3 + 3 + 8 + 1);
    let bare = get_windows_node_paths(None, None, None, None, Some("C:\\nvm"), None);
    assert_eq!(bare.len(), 3);
    assert_eq!(nvm_settings_file("C:\\nvm"), "C:\\nvm\\settings.txt");
}

#[test]
fn openclaw_candidates() {
    let p = get_unix_openclaw_paths(Some("/home/u"), Some("22.5.0"));
    assert_eq!(p.len(), 19);
    assert_eq!(p[0], "/home/u/.nvm/versions/node/v22.5.0/bin/openclaw");
    assert_eq!(p[1], "/usr/local/bin/openclaw");
    assert_eq!(p[4], "/home/u/.npm-global/bin/openclaw");
    assert_eq!(p[18], "/home/u/.config/yarn/global/node_modules/.bin/openclaw");
    assert_eq!(get_unix_openclaw_paths(None, None).len(), 3);
    assert_eq!(
        get_windows_openclaw_paths(Some("C:\\Users\\u")),
        strings(&[
            "C:\\nvm4w\\nodejs\\openclaw.cmd",
            "C:\\Users\\u\\AppData\\Roaming\\npm\\openclaw.cmd",
            "C:\\Program Files\\nodejs\\openclaw.cmd",
        ])
    );
    assert_eq!(get_windows_openclaw_paths(None).len(), 2);
}

#[test]
fn system_openclaw_search_steps() {
    let cands = strings(&["/usr/local/bin/openclaw", "/usr/bin/openclaw"]);
    let found = existing(&["/usr/bin/openclaw"]);
    match resolve_system_openclaw_runtime(false, &cands, &found, None, &None) {
        SystemOpenClawStep::Done(Some(r)) => assert_eq!(r.executable_path, "/usr/bin/openclaw"),
        _ => panic!(),
    }
    let none = existing(&["/home/u/.bun/bin/openclaw"]);
    assert!(matches!(resolve_system_openclaw_runtime(false, &cands, &none, None, &None), SystemOpenClawStep::CheckCommand));
    match resolve_system_openclaw_runtime(false, &cands, &none, Some(true), &None) {
        SystemOpenClawStep::Done(Some(r)) => assert_eq!(r.executable_path, "openclaw"),
        _ => panic!(),
    }
    assert!(matches!(resolve_system_openclaw_runtime(true, &cands, &none, Some(false), &None), SystemOpenClawStep::Done(None)));
    assert!(matches!(resolve_system_openclaw_runtime(false, &cands, &none, Some(false), &None), SystemOpenClawStep::ShellLookup));
    let shell = Some(Ok("/home/u/.bun/bin/openclaw\n".to_string()));
    match resolve_system_openclaw_runtime(false, &cands, &none, Some(false), &shell) {
        SystemOpenClawStep::Done(Some(r)) => assert_eq!(r.executable_path, "/home/u/.bun/bin/openclaw"),
        _ => panic!(),
    }
    let failed = Some(Err("exit 1".to_string()));
    assert!(matches!(resolve_system_openclaw_runtime(false, &cands, &none, Some(false), &failed), SystemOpenClawStep::Done(None)));
    let c = shell_lookup_command(&unix());
    assert_eq!(c.args[1], "source ~/.zshrc 2>/dev/null || source ~/.bashrc 2>/dev/null; which openclaw 2>/dev/null");
}

#[test]
fn runtime_mode_root_and_path() {
    let b = Some(OpenClawRuntime::Bundled(bundled()));
    let s = Some(OpenClawRuntime::System(system("/usr/bin/openclaw")));
    assert_eq!(get_runtime_mode(&b), "bundled");
    assert_eq!(get_runtime_mode(&s), "system");
    assert_eq!(get_runtime_mode(&None), "missing");
    assert_eq!(get_runtime_root(&b), Some(ROOT.to_string()));
    assert_eq!(get_runtime_root(&s), None);
    assert_eq!(get_runtime_root(&None), None);
    assert!(is_bundled_runtime_active(&b));
    assert!(!is_bundled_runtime_active(&s));
    assert!(!is_bundled_runtime_active(&None));
    assert_eq!(get_openclaw_path(&b), Some(bundled().entry_path));
    assert_eq!(get_openclaw_path(&s), Some("/usr/bin/openclaw".to_string()));
    assert_eq!(get_openclaw_path(&None), None);
}

#[test]
fn law_runtime_mode_consistent_example() {
    for r in [Some(OpenClawRuntime::Bundled(bundled())), Some(OpenClawRuntime::System(system("x"))), None] {
        assert_eq!(get_runtime_mode(&r) == "bundled", is_bundled_runtime_active(&r));
        assert_eq!(get_runtime_root(&r).is_some(), is_bundled_runtime_active(&r));
        assert_eq!(get_runtime_mode(&r) == "missing", r.is_none());
    }
}

#[test]
fn openclaw_commands() {
    let args = strings(&["--version"]);
    let c = build_openclaw_command(&OpenClawRuntime::Bundled(bundled()), &args, &unix());
    assert_eq!(c.program, bundled().node_path);
    assert_eq!(c.args, vec![bundled().entry_path, "--version".to_string()]);
    assert_eq!(c.current_dir, Some(bundled().package_root));
    assert_eq!(c.envs, vec![("PATH".to_string(), "/usr/bin".to_string())]);

    let win = ShellEnv { windows: true, path: "P".to_string() };
    let c = build_openclaw_command(&OpenClawRuntime::System(system("C:\\npm\\openclaw.cmd")), &args, &win);
    assert_eq!(c.program, "cmd");
    assert_eq!(c.args, vec!["/c", "C:\\npm\\openclaw.cmd", "--version"]);
    assert!(c.hide_window);

    let c = build_openclaw_command(&OpenClawRuntime::System(system("/usr/bin/openclaw")), &args, &unix());
    assert_eq!(c.program, "/usr/bin/openclaw");
    assert_eq!(c.args, vec!["--version"]);
    assert_eq!(c.current_dir, None);

    assert_eq!(
        run_openclaw(&None, &args, &unix()).err(),
        Some("找不到 openclaw 命令，请先准备内置运行时或通过 npm install -g openclaw 安装".to_string())
    );
    let c = run_openclaw(&Some(OpenClawRuntime::System(system("/usr/bin/openclaw"))), &args, &unix()).unwrap();
    assert_eq!(c.program, "/usr/bin/openclaw");
}

#[test]
fn openclaw_output_cases() {
    assert_eq!(openclaw_output(&finished(true, " 2026.2.1\n", "")), Ok(" 2026.2.1\n".to_string()));
    assert_eq!(openclaw_output(&finished(false, "partial\n", "boom\n")), Err("partial\n\nboom".to_string()));
    assert_eq!(openclaw_output(&finished(false, "", "")), Err("".to_string()));
    assert_eq!(
        openclaw_output(&CommandOutcome::NotRun { error: "denied".to_string() }),
        Err("执行 openclaw 失败: denied".to_string())
    );
}

#[test]
fn node_version_reading() {
    let c = node_version_command(&NodeRuntime::System("/usr/bin/node".to_string()));
    assert_eq!(c.program, "/usr/bin/node");
    assert_eq!(c.args, vec!["--version"]);
    assert!(c.envs.is_empty());
    assert_eq!(get_node_version(&finished(true, "v22.12.0\n", "")), Some("v22.12.0".to_string()));
    assert_eq!(get_node_version(&finished(true, "22.12.0", "")), None);
    assert_eq!(get_node_version(&finished(false, "v22", "")), None);
    assert_eq!(get_node_version(&CommandOutcome::NotRun { error: "x".to_string() }), None);
}

#[test]
fn parent_dir_of_binaries() {
    assert_eq!(parent_dir("/r/tools/node/bin/node", false), Some("/r/tools/node/bin".to_string()));
    assert_eq!(parent_dir("C:\\r\\node.exe", true), Some("C:\\r".to_string()));
    assert_eq!(parent_dir("C:\\node.exe", true), Some("C:\\".to_string()));
    assert_eq!(parent_dir("/node", false), Some("/".to_string()));
    assert_eq!(parent_dir("node", false), Some("".to_string()));
    assert_eq!(parent_dir("", false), None);
    assert_eq!(parent_dir("/a//b", false), Some("/a".to_string()));
    assert_eq!(parent_dir("/a/b/", false), Some("/a".to_string()));
    assert_eq!(parent_dir("/", false), None);
    assert_eq!(parent_dir("C:\\", true), None);
    assert_eq!(parent_dir("C:node.exe", true), Some("C:".to_string()));
    assert_eq!(parent_dir("C:\\\\node.exe", true), Some("C:\\".to_string()));
    for p in [
        "/r/tools/node/bin/node", "/node", "node", "/a/b", "/a//b", "/a/b/", "/a/b//", "//a", "/",
        "a/", "./a", "a/./b", "a/b/.", "/.", ".", "a/..", "../a", "a//b//c/", "/a/./", "",
    ] {
        let std = std::path::Path::new(p).parent().map(|x| x.display().to_string());
        assert_eq!(parent_dir(p, false), std);
    }
}

#[test]
fn extended_path_puts_bundled_node_first() {
    let node = Some(NodeRuntime::Bundled {
        root: format!("{}/tools/node", ROOT),
        path: format!("{}/tools/node/bin/node", ROOT),
    });
    let e = existing(&["/home/u/.nvm/versions/node/v22.12.0/bin", "/home/u/.nvm/versions/node/v23.0.0/bin"]);
    let p = get_extended_path(&node, false, Some("/home/u"), Some("22.1.0\n"), &e, &Vec::new());
    assert_eq!(p[0], format!("{}/tools/node/bin", ROOT));
    assert_eq!(&p[1..5], &strings(&["/opt/homebrew/bin", "/usr/local/bin", "/usr/bin", "/bin"])[..]);
    assert_eq!(p[5], "/home/u/.nvm/versions/node/v22.1.0/bin");
    assert_eq!(p[6], "/home/u/.nvm/versions/node/v22.12.0/bin");
    assert_eq!(p[7], "/home/u/.fnm/aliases/default/bin");
    assert_eq!(p.last().unwrap(), "/home/u/Library/pnpm");
    assert_eq!(p.len(), 1 + 4 + 1 + 1 + 7);

    let w = get_extended_path(&None, true, Some("C:\\Users\\u"), None, &existing(&[]), &Vec::new());
    assert_eq!(w, strings(&["C:\\Users\\u\\AppData\\Roaming\\npm", "C:\\Users\\u\\AppData\\Local\\Volta\\bin"]));
    let bare = get_extended_path(&Some(NodeRuntime::System("/usr/bin/node".to_string())), false, None, None, &existing(&[]), &Vec::new());
    assert_eq!(bare, strings(&["/opt/homebrew/bin", "/usr/local/bin", "/usr/bin", "/bin"]));
    assert_eq!(extended_path_probe_paths("/home/u", false)[0], "/home/u/.nvm/versions/node/v22.22.0/bin");
}

#[test]
fn inherited_path_entries_follow_in_order() {
    let inherited = strings(&["/usr/bin", "/home/u/bin", "/usr/bin"]);
    let p = get_extended_path(&None, false, None, None, &existing(&[]), &inherited);
    assert_eq!(
        p,
        strings(&["/opt/homebrew/bin", "/usr/local/bin", "/usr/bin", "/bin", "/usr/bin", "/home/u/bin", "/usr/bin"])
    );
}

#[test]
fn bundled_node_dir_leads_path_on_windows() {
    let node = Some(NodeRuntime::Bundled {
        root: "C:\\App\\runtime\\tools\\node".to_string(),
        path: "C:\\App\\runtime\\tools\\node\\node.exe".to_string(),
    });
    let p = get_extended_path(&node, true, Some("C:\\Users\\u"), None, &existing(&[]), &Vec::new());
    assert_eq!(p[0], "C:\\App\\runtime\\tools\\node");
    assert_eq!(p[1], "C:\\Users\\u\\AppData\\Roaming\\npm");
}

#[test]
fn gateway_launch() {
    let rt = Some(OpenClawRuntime::Bundled(bundled()));
    let g = spawn_openclaw_gateway(&rt, Some("export A=1\nB=\"2\"\n# c\n"), "/home/u/.openclaw", &unix()).unwrap();
    assert_eq!(g.command.args, vec![bundled().entry_path, "gateway".to_string(), "--port".to_string(), "18789".to_string()]);
    assert_eq!(g.command.envs[0], ("PATH".to_string(), "/usr/bin".to_string()));
    assert!(g.command.envs.contains(&("A".to_string(), "1".to_string())));
    assert!(g.command.envs.contains(&("B".to_string(), "2".to_string())));
    let n = g.command.envs.len();
    assert_eq!(g.command.envs[n - 2], ("BOSICLAW_BUNDLED_RUNTIME_ROOT".to_string(), ROOT.to_string()));
    assert_eq!(g.command.envs[n - 1], ("BOSICLAW_BUNDLED_NODE_ROOT".to_string(), bundled().node_root));
    assert_eq!(n, 5);
    assert_eq!(g.logs_dir, "/home/u/.openclaw/logs");
    assert_eq!(g.stdout_log, "/home/u/.openclaw/logs/gateway.log");
    assert_eq!(g.stderr_log, "/home/u/.openclaw/logs/gateway.err.log");

    let sys = Some(OpenClawRuntime::System(system("/usr/bin/openclaw")));
    let g = spawn_openclaw_gateway(&sys, None, "/h", &unix()).unwrap();
    assert_eq!(g.command.envs.len(), 1);
    assert!(spawn_openclaw_gateway(&None, None, "/h", &unix()).is_err());
    assert_eq!(
        gateway_spawn_error(&OpenClawRuntime::System(system("/usr/bin/openclaw")), "permission denied"),
        "启动失败 (运行时: /usr/bin/openclaw): permission denied"
    );
}
