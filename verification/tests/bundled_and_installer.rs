use bosiclaw::bundled::{
    ensure_openclaw_extracted, finish_openclaw_extraction, get_bundled_node_path,
    get_bundled_node_path_str, get_entry_script, get_runtime_dir, get_runtime_openclaw_dir,
    get_runtime_openclaw_path, get_version_file, is_runtime_ready, read_version_from_tgz,
    ExtractionStep,
};
use bosiclaw::command::ShellEnv;
use bosiclaw::scripts::{
    NODEJS_LINUX_SCRIPT, NODEJS_MACOS_SCRIPT, NODEJS_MACOS_TERMINAL, NODEJS_WINDOWS_SCRIPT,
    NODEJS_WINDOWS_TERMINAL, OPENCLAW_LINUX_TERMINAL, OPENCLAW_MACOS_TERMINAL, OPENCLAW_UNIX_SCRIPT,
    OPENCLAW_WINDOWS_SCRIPT, OPENCLAW_WINDOWS_TERMINAL, UNINSTALL_UNIX_SCRIPT, UPDATE_UNIX_SCRIPT,
};
use bosiclaw::installer::{
    check_environment, check_openclaw_update, get_latest_openclaw_version, get_openclaw_version,
    init_openclaw_config, install_nodejs, install_nodejs_linux, install_nodejs_macos,
    install_nodejs_windows, install_openclaw, install_openclaw_unix, install_openclaw_windows,
    latest_version_command, needs_latest_version, open_install_terminal,
    open_nodejs_install_terminal, open_openclaw_install_terminal, uninstall_openclaw,
    uninstall_openclaw_unix, uninstall_openclaw_windows, update_openclaw, update_openclaw_unix,
    update_openclaw_windows, InstallMethod, InstallResult, InstallStep, InstallTarget,
    TerminalLaunch, finish_install_terminal, gateway_stop_args, linux_terminal_step,
    nodejs_install_command, openclaw_install_command, openclaw_version_args, uninstall_command,
    update_command, TerminalFailure,
    TerminalStep,
};
use bosiclaw::runtime::{
    resolve_bundled_openclaw_runtime, resolve_openclaw_runtime, ExistingPaths, OpenClawRuntime,
    SystemOpenClawRuntime,
};
use std::io::Write;

fn tgz(entries: &[(&str, &[u8])]) -> Vec<u8> {
    let mut builder = tar::Builder::new(Vec::new());
    for (path, data) in entries {
        let mut header = tar::Header::new_gnu();
        header.set_size(data.len() as u64);
        header.set_mode(0o644);
        header.set_cksum();
        builder.append_data(&mut header, path, *data).unwrap();
    }
    let raw = builder.into_inner().unwrap();
    let mut gz = flate2::write::GzEncoder::new(Vec::new(), flate2::Compression::default());
    gz.write_all(&raw).unwrap();
    gz.finish().unwrap()
}

fn done(step: InstallStep) -> InstallResult {
    match step {
        InstallStep::Done(r) => r,
        InstallStep::Run(_) => panic!("expected a result"),
    }
}

fn ok(s: &str) -> Result<String, String> {
    Ok(s.to_string())
}

fn err(s: &str) -> Result<String, String> {
    Err(s.to_string())
}

#[test]
fn runtime_layout_under_config_dir() {
    let c = "/home/u/.openclaw";
    assert_eq!(get_runtime_dir(c, false), "/home/u/.openclaw/runtime");
    assert_eq!(get_runtime_openclaw_dir(c, false), "/home/u/.openclaw/runtime/openclaw");
    assert_eq!(get_version_file(c, false), "/home/u/.openclaw/runtime/.version");
    assert_eq!(get_entry_script(c, false), "/home/u/.openclaw/runtime/openclaw/openclaw.mjs");
    assert_eq!(get_runtime_dir("C:\\u\\.openclaw", true), "C:\\u\\.openclaw\\runtime");
}

#[test]
fn runtime_readiness() {
    let c = "/home/u/.openclaw";
    let mut e = ExistingPaths::new();
    assert_eq!(get_runtime_openclaw_path(c, false, &e), None);
    assert!(!is_runtime_ready(c, false, &e));
    e.mark("/home/u/.openclaw/runtime/openclaw/openclaw.mjs");
    assert_eq!(
        get_runtime_openclaw_path(c, false, &e),
        Some("/home/u/.openclaw/runtime/openclaw/openclaw.mjs".to_string())
    );
    assert!(!is_runtime_ready(c, false, &e));
    e.mark("/home/u/.openclaw/runtime/.version");
    assert!(is_runtime_ready(c, false, &e));
}

#[test]
fn bundled_node_next_to_executable() {
    let mut e = ExistingPaths::new();
    e.mark("/opt/BosiClaw/node");
    assert_eq!(get_bundled_node_path(Some("/opt/BosiClaw"), false, &e), Some("/opt/BosiClaw/node".to_string()));
    assert_eq!(get_bundled_node_path_str(Some("/opt/BosiClaw"), false, &e), Some("/opt/BosiClaw/node".to_string()));
    assert_eq!(get_bundled_node_path(Some("/opt/BosiClaw"), true, &e), None);
    assert_eq!(get_bundled_node_path(None, false, &e), None);
    e.mark("C:\\BosiClaw\\node.exe");
    assert_eq!(get_bundled_node_path(Some("C:\\BosiClaw"), true, &e), Some("C:\\BosiClaw\\node.exe".to_string()));
}

#[test]
fn version_is_read_from_the_archive() {
    let a = tgz(&[("README.md", b"hi"), ("package.json", br#"{"name":"openclaw","version":"2026.2.1"}"#)]);
    assert_eq!(read_version_from_tgz(&a), Ok("2026.2.1".to_string()));
    let b = tgz(&[("./package.json", br#"{"version":"1.0.0"}"#), ("./openclaw.mjs", b"x")]);
    assert_eq!(read_version_from_tgz(&b), Ok("1.0.0".to_string()));
    // the first manifest counts
    let c = tgz(&[("package.json", br#"{"version":"1"}"#), ("./package.json", br#"{"version":"2"}"#)]);
    assert_eq!(read_version_from_tgz(&c), Ok("1".to_string()));
    // a nested package.json is not the manifest
    let d = tgz(&[("package/package.json", br#"{"version":"9"}"#)]);
    assert_eq!(read_version_from_tgz(&d), Err("tgz 中未找到 package.json".to_string()));
}

#[test]
fn archive_errors() {
    let no_version = tgz(&[("package.json", br#"{"name":"openclaw","version":3}"#)]);
    assert_eq!(read_version_from_tgz(&no_version), Err("package.json 中未找到 version 字段".to_string()));
    let bad_json = tgz(&[("package.json", b"{not json")]);
    assert!(read_version_from_tgz(&bad_json).unwrap_err().starts_with("解析 package.json 失败: "));
    let not_gzip = b"definitely not gzip".to_vec();
    assert!(read_version_from_tgz(&not_gzip).unwrap_err().starts_with("读取 entry 失败: "));
    assert_eq!(read_version_from_tgz(&tgz(&[])), Err("tgz 中未找到 package.json".to_string()));
    // a gzip stream cut short: the decoder's error is reported
    let full = tgz(&[("README.md", &[b'x'; 4096][..]), ("package.json", br#"{"version":"1"}"#)]);
    let cut = &full[..full.len() / 2];
    let e = read_version_from_tgz(cut).unwrap_err();
    assert!(e.starts_with("读取 entry 失败: "), "{}", e);
}

#[test]
fn extraction_steps() {
    match ensure_openclaw_extracted(false, &None, true, true, Some("1.0.0")) {
        ExtractionStep::Fail(e) => assert_eq!(e, "未找到内置 openclaw-runtime.tgz"),
        _ => panic!(),
    }
    assert!(matches!(ensure_openclaw_extracted(true, &None, true, true, None), ExtractionStep::ReadArchive));
    assert!(matches!(
        ensure_openclaw_extracted(true, &Some(ok("1.0.0")), true, true, Some(" 1.0.0\n")),
        ExtractionStep::UpToDate
    ));
    match ensure_openclaw_extracted(true, &Some(ok("1.0.1")), true, true, Some("1.0.0")) {
        ExtractionStep::Extract(v) => assert_eq!(v, "1.0.1"),
        _ => panic!(),
    }
    match ensure_openclaw_extracted(true, &Some(ok("1.0.0")), false, true, Some("1.0.0")) {
        ExtractionStep::Extract(v) => assert_eq!(v, "1.0.0"),
        _ => panic!(),
    }
    match ensure_openclaw_extracted(true, &Some(err("broken")), true, true, Some("1.0.0")) {
        ExtractionStep::Extract(v) => assert_eq!(v, "unknown"),
        _ => panic!(),
    }
    assert!(matches!(
        ensure_openclaw_extracted(true, &Some(err("broken")), true, true, Some("unknown")),
        ExtractionStep::UpToDate
    ));
    assert_eq!(finish_openclaw_extraction(true, "/r/openclaw.mjs"), Ok("/r/openclaw.mjs".to_string()));
    assert_eq!(
        finish_openclaw_extraction(false, "/r/openclaw.mjs"),
        Err("解压完成但未找到 openclaw.mjs: /r/openclaw.mjs".to_string())
    );
}

fn system_runtime() -> Option<OpenClawRuntime> {
    Some(OpenClawRuntime::System(SystemOpenClawRuntime { executable_path: "/usr/local/bin/openclaw".to_string() }))
}

#[test]
fn environment_report() {
    let root = "/Applications/BosiClaw.app/Contents/Resources/runtime";
    let mut e = ExistingPaths::new();
    for p in ["tools/node", "tools/node/bin/node", "lib/node_modules/openclaw", "lib/node_modules/openclaw/openclaw.mjs"] {
        e.mark(&format!("{}/{}", root, p));
    }
    let bundled = resolve_openclaw_runtime(resolve_bundled_openclaw_runtime(Some(root), false, &e), None);
    let s = check_environment(
        "macos".to_string(),
        &bundled,
        Some("v22.12.0".to_string()),
        Some("2026.2.1".to_string()),
        true,
    );
    assert!(s.node_installed && s.node_version_ok && s.openclaw_installed && s.ready);
    assert_eq!(s.runtime_mode, "bundled");
    assert_eq!(s.runtime_root, Some(root.to_string()));
    let s = check_environment("linux".to_string(), &system_runtime(), Some("v20.0.0".to_string()), Some("1".to_string()), false);
    assert!(s.node_installed && !s.node_version_ok && !s.ready);
    assert_eq!(s.runtime_mode, "system");
    assert_eq!(s.runtime_root, None);
    let s = check_environment("linux".to_string(), &None, Some("v22.0.0".to_string()), None, false);
    assert!(!s.openclaw_installed && !s.ready);
    assert_eq!(s.runtime_mode, "missing");
    let s = check_environment("windows".to_string(), &None, None, None, true);
    assert!(!s.node_installed && !s.node_version_ok && !s.ready && s.config_dir_exists);
    assert_eq!(s.os, "windows");
}

#[test]
fn openclaw_version_reading() {
    assert_eq!(get_openclaw_version(&ok(" 2026.2.1\n")), Some("2026.2.1".to_string()));
    assert_eq!(get_openclaw_version(&err("missing")), None);
    assert_eq!(get_latest_openclaw_version(&ok("2026.3.0\n")), Some("2026.3.0".to_string()));
    assert_eq!(get_latest_openclaw_version(&ok("  \n")), None);
    assert_eq!(get_latest_openclaw_version(&err("offline")), None);
    let env = ShellEnv { windows: false, path: String::new() };
    assert_eq!(latest_version_command(&env).args, vec!["-c", "npm view openclaw version 2>/dev/null"]);
    let env = ShellEnv { windows: true, path: String::new() };
    assert_eq!(latest_version_command(&env).args, vec!["/c", "npm view openclaw version"]);
}

#[test]
fn bundled_runtime_is_not_managed_in_app() {
    for os in ["windows", "macos", "linux", "freebsd"] {
        let r = done(install_nodejs(true, os));
        assert!(r.success);
        assert_eq!(r.message, "当前版本已内置 Node.js，无需额外安装");
        let r = done(install_openclaw(true, os));
        assert!(r.success);
        assert_eq!(r.message, "当前版本已内置 OpenClaw，无需额外安装");
        let r = done(uninstall_openclaw(true, os));
        assert!(!r.success);
        assert_eq!(r.error, Some("请通过重新打包或发布新版本应用来移除内置 OpenClaw".to_string()));
        let r = done(update_openclaw(true, os));
        assert!(!r.success);
        assert_eq!(r.message, "当前版本使用内置 OpenClaw，不支持应用内更新");
        assert_eq!(open_install_terminal(true, "nodejs").err(), Some("当前版本使用内置运行时，无需打开安装终端".to_string()));
    }
}

#[test]
fn install_dispatch() {
    assert!(matches!(install_nodejs(false, "windows"), InstallStep::Run(InstallMethod::Windows)));
    assert!(matches!(install_nodejs(false, "macos"), InstallStep::Run(InstallMethod::Macos)));
    assert!(matches!(install_nodejs(false, "linux"), InstallStep::Run(InstallMethod::Linux)));
    let r = done(install_nodejs(false, "freebsd"));
    assert!(!r.success);
    assert_eq!(r.message, "不支持的操作系统");
    assert_eq!(r.error, Some("不支持的操作系统: freebsd".to_string()));
    assert!(matches!(install_openclaw(false, "windows"), InstallStep::Run(InstallMethod::Windows)));
    assert!(matches!(install_openclaw(false, "freebsd"), InstallStep::Run(InstallMethod::Unix)));
    assert!(matches!(uninstall_openclaw(false, "macos"), InstallStep::Run(InstallMethod::Unix)));
    assert!(matches!(update_openclaw(false, "windows"), InstallStep::Run(InstallMethod::Windows)));
}

#[test]
fn install_results() {
    let r = install_nodejs_windows(&ok("done"), true);
    assert!(r.success);
    assert_eq!(r.message, "Node.js 安装成功！请重启应用以使环境变量生效。");
    let r = install_nodejs_windows(&ok("done"), false);
    assert_eq!((r.success, r.message.as_str(), r.error), (false, "安装后需要重启应用", Some("done".to_string())));
    let r = install_nodejs_windows(&err("winget failed"), true);
    assert_eq!((r.success, r.message.as_str(), r.error), (false, "Node.js 安装失败", Some("winget failed".to_string())));
    let r = install_nodejs_macos(&ok("v22.12.0"));
    assert_eq!((r.success, r.message.as_str()), (true, "Node.js 安装成功！v22.12.0"));
    let r = install_nodejs_linux(&err("no apt"));
    assert_eq!((r.success, r.message.as_str(), r.error), (false, "Node.js 安装失败", Some("no apt".to_string())));
    let r = install_openclaw_windows(&ok("x"), true);
    assert_eq!((r.success, r.message.as_str()), (true, "OpenClaw 安装成功！"));
    let r = install_openclaw_windows(&ok("x"), false);
    assert_eq!(r.error, Some("x".to_string()));
    let r = install_openclaw_unix(&ok("2026.2.1"));
    assert_eq!(r.message, "OpenClaw 安装成功！2026.2.1");
    let r = install_openclaw_unix(&err("EACCES"));
    assert_eq!((r.message.as_str(), r.error), ("OpenClaw 安装失败", Some("EACCES".to_string())));
}

#[test]
fn config_init_results() {
    let r = init_openclaw_config(&ok("token1234567890"));
    assert_eq!((r.success, r.message.as_str(), r.error), (true, "配置初始化成功！", None));
    let r = init_openclaw_config(&err("disk full"));
    assert_eq!((r.success, r.message.as_str(), r.error), (false, "配置初始化失败", Some("disk full".to_string())));
}

#[test]
fn install_terminals() {
    assert!(matches!(open_install_terminal(false, "nodejs"), Ok(InstallTarget::NodeJs)));
    assert!(matches!(open_install_terminal(false, "openclaw"), Ok(InstallTarget::OpenClaw)));
    assert_eq!(open_install_terminal(false, "python").err(), Some("未知的安装类型: python".to_string()));
    match open_nodejs_install_terminal("windows") {
        Ok(TerminalLaunch::PowerShell(script)) => assert_eq!(script, NODEJS_WINDOWS_TERMINAL),
        _ => panic!(),
    }
    match open_nodejs_install_terminal("macos") {
        Ok(TerminalLaunch::MacScript { path, content }) => {
            assert_eq!(path, "/tmp/openclaw_install_nodejs.command");
            assert_eq!(content, NODEJS_MACOS_TERMINAL);
            assert!(content.starts_with("#!/bin/bash"));
        }
        _ => panic!(),
    }
    assert_eq!(open_nodejs_install_terminal("linux").err(), Some("请手动安装 Node.js: https://nodejs.org/".to_string()));
    match open_openclaw_install_terminal("linux") {
        Ok(TerminalLaunch::LinuxScript { script_path, content, terminals, failure }) => {
            assert_eq!(script_path, "/tmp/openclaw_install_openclaw.sh");
            assert_eq!(content, OPENCLAW_LINUX_TERMINAL);
            assert_eq!(terminals, vec!["gnome-terminal", "xfce4-terminal", "konsole", "xterm"]);
            assert_eq!(failure, "无法启动终端，请手动运行: npm install -g openclaw");
        }
        _ => panic!(),
    }
    match open_openclaw_install_terminal("macos") {
        Ok(TerminalLaunch::MacScript { path, content }) => {
            assert_eq!(path, "/tmp/openclaw_install_openclaw.command");
            assert_eq!(content, OPENCLAW_MACOS_TERMINAL);
        }
        _ => panic!(),
    }
    match open_openclaw_install_terminal("windows") {
        Ok(TerminalLaunch::PowerShell(script)) => {
            assert_eq!(script, OPENCLAW_WINDOWS_TERMINAL);
            assert!(script.contains("npm install -g openclaw@latest"));
        }
        _ => panic!(),
    }
}

#[test]
fn uninstall_and_update_results() {
    let r = uninstall_openclaw_windows(&ok("removed"), false);
    assert_eq!((r.success, r.message.as_str()), (true, "OpenClaw 已成功卸载！"));
    let r = uninstall_openclaw_windows(&ok("removed"), true);
    assert_eq!(
        (r.success, r.message.as_str(), r.error),
        (false, "卸载命令已执行，但 OpenClaw 仍然存在，请尝试手动卸载", Some("removed".to_string()))
    );
    let r = uninstall_openclaw_windows(&err("npm missing"), false);
    assert_eq!((r.message.as_str(), r.error), ("OpenClaw 卸载失败", Some("npm missing".to_string())));
    let r = uninstall_openclaw_unix(&ok("OpenClaw 已成功卸载"));
    assert_eq!(r.message, "OpenClaw 已成功卸载！OpenClaw 已成功卸载");
    let r = update_openclaw_windows(&ok("added 1 package"), Some("2026.3.0".to_string()));
    assert_eq!(r.message, "OpenClaw 已更新到 2026.3.0");
    let r = update_openclaw_windows(&ok("added 1 package"), None);
    assert_eq!(r.message, "OpenClaw 已更新到 最新版本");
    let r = update_openclaw_windows(&err("E404"), None);
    assert_eq!((r.success, r.message.as_str(), r.error), (false, "OpenClaw 更新失败", Some("E404".to_string())));
    let r = update_openclaw_unix(&ok("2026.3.0"));
    assert_eq!(r.message, "OpenClaw 已更新！2026.3.0");
}

#[test]
fn update_check() {
    let s = Some("2026.1.0".to_string());
    assert!(!needs_latest_version(true, &s));
    assert!(!needs_latest_version(false, &None));
    assert!(needs_latest_version(false, &s));

    let i = check_openclaw_update(true, s.clone(), None);
    assert!(!i.update_available);
    assert_eq!(i.current_version, s);
    assert_eq!(i.error, Some("当前版本使用内置 OpenClaw，请通过重新打包应用更新".to_string()));
    let i = check_openclaw_update(false, None, None);
    assert_eq!(i.error, Some("OpenClaw 未安装".to_string()));
    let i = check_openclaw_update(false, s.clone(), None);
    assert_eq!(i.error, Some("无法获取最新版本信息".to_string()));
    let i = check_openclaw_update(false, s.clone(), Some("2026.2.0".to_string()));
    assert!(i.update_available);
    assert_eq!(i.latest_version, Some("2026.2.0".to_string()));
    assert_eq!(i.error, None);
    let i = check_openclaw_update(false, s.clone(), Some("2026.1.0".to_string()));
    assert!(!i.update_available);
}

#[test]
fn linux_terminals_are_tried_in_order_until_one_starts() {
    let terminals: Vec<String> = ["gnome-terminal", "xfce4-terminal", "konsole", "xterm"]
        .iter()
        .map(|t| t.to_string())
        .collect();
    let script = "/tmp/openclaw_install_openclaw.sh";
    let failure = "无法启动终端，请手动运行: npm install -g openclaw";
    match linux_terminal_step(&terminals, script, failure, 0, false) {
        TerminalStep::Spawn { program, args } => {
            assert_eq!(program, "gnome-terminal");
            assert_eq!(args, vec!["--".to_string(), script.to_string()]);
        }
        TerminalStep::Done(_) => panic!("expected a spawn"),
    }
    match linux_terminal_step(&terminals, script, failure, 1, false) {
        TerminalStep::Spawn { program, .. } => assert_eq!(program, "xfce4-terminal"),
        TerminalStep::Done(_) => panic!("expected a spawn"),
    }
    match linux_terminal_step(&terminals, script, failure, 2, true) {
        TerminalStep::Done(r) => assert_eq!(r, Ok("已打开安装终端".to_string())),
        TerminalStep::Spawn { .. } => panic!("the search should stop"),
    }
    match linux_terminal_step(&terminals, script, failure, 4, false) {
        TerminalStep::Done(r) => assert_eq!(r, Err(failure.to_string())),
        TerminalStep::Spawn { .. } => panic!("no terminal is left"),
    }
}

#[test]
fn install_terminal_results() {
    assert_eq!(finish_install_terminal(&Ok(())), Ok("已打开安装终端".to_string()));
    assert_eq!(
        finish_install_terminal(&Err((TerminalFailure::WriteScript, "denied".to_string()))),
        Err("创建脚本失败: denied".to_string())
    );
    assert_eq!(
        finish_install_terminal(&Err((TerminalFailure::Chmod, "x".to_string()))),
        Err("设置权限失败: x".to_string())
    );
    assert_eq!(
        finish_install_terminal(&Err((TerminalFailure::Open, "y".to_string()))),
        Err("启动终端失败: y".to_string())
    );
    assert_eq!(
        finish_install_terminal(&Err((TerminalFailure::PowerShell, "ps failed".to_string()))),
        Err("ps failed".to_string())
    );
}

#[test]
fn openclaw_and_npm_commands() {
    assert_eq!(openclaw_version_args(), vec!["--version".to_string()]);
    assert_eq!(gateway_stop_args(), vec!["gateway".to_string(), "stop".to_string()]);
    let env = ShellEnv { windows: true, path: "C:\\Windows".to_string() };
    let u = uninstall_command(&InstallMethod::Windows, &env);
    assert_eq!(u.program, "cmd");
    assert_eq!(u.args, vec!["/c".to_string(), "npm uninstall -g openclaw".to_string()]);
    let p = update_command(&InstallMethod::Windows, &env);
    assert_eq!(p.args, vec!["/c".to_string(), "npm install -g openclaw@latest".to_string()]);
    assert!(p.hide_window);
    let unix = ShellEnv { windows: false, path: "/usr/bin".to_string() };
    let u = uninstall_command(&InstallMethod::Unix, &unix);
    assert_eq!(u.args, vec!["-c".to_string(), UNINSTALL_UNIX_SCRIPT.to_string()]);
    let p = update_command(&InstallMethod::Unix, &unix);
    assert_eq!(p.program, "bash");
    assert_eq!(p.args, vec!["-c".to_string(), UPDATE_UNIX_SCRIPT.to_string()]);
}

#[test]
fn install_scripts_follow_the_method() {
    let env = ShellEnv { windows: true, path: "C:\\Windows".to_string() };
    let w = nodejs_install_command(&InstallMethod::Windows, &env).unwrap();
    assert_eq!(w.program, "powershell");
    assert_eq!(w.args.last().unwrap(), NODEJS_WINDOWS_SCRIPT);
    assert_eq!(w.args[0], "-NoProfile");
    let unix = ShellEnv { windows: false, path: "/usr/bin".to_string() };
    let m = nodejs_install_command(&InstallMethod::Macos, &unix).unwrap();
    assert_eq!(m.program, "bash");
    assert_eq!(m.args, vec!["-c".to_string(), NODEJS_MACOS_SCRIPT.to_string()]);
    assert!(NODEJS_MACOS_SCRIPT.contains("brew install node@22"));
    let l = nodejs_install_command(&InstallMethod::Linux, &unix).unwrap();
    assert_eq!(l.args[1], NODEJS_LINUX_SCRIPT);
    assert!(nodejs_install_command(&InstallMethod::Unix, &unix).is_none());
    let o = openclaw_install_command(&InstallMethod::Windows, &env);
    assert_eq!(o.args.last().unwrap(), OPENCLAW_WINDOWS_SCRIPT);
    let o = openclaw_install_command(&InstallMethod::Unix, &unix);
    assert_eq!(o.args, vec!["-c".to_string(), OPENCLAW_UNIX_SCRIPT.to_string()]);
    assert_eq!(o.envs, vec![("PATH".to_string(), "/usr/bin".to_string())]);
}
