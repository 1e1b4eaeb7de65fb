use bosiclaw::command::{
    command_exists, command_lookup, debug_exit_code, normalize_lines, output_to_string,
    run_bash, run_bash_output, run_cmd, run_cmd_output, run_command, run_command_output,
    run_powershell, run_powershell_output, run_script, run_script_output, spawn_background,
    CommandOutcome, CommandSpec, ShellEnv,
};
use bosiclaw::envfile::load_openclaw_env_vars;
use bosiclaw::platform::{
    config_dir_for, config_dir_with, config_file_path_in, config_file_path_with, env_file_path_in, get_config_dir, get_config_file_path,
    get_env_file_path, get_log_file_path, get_manager_runtime_dir, is_linux, is_macos,
    is_windows, join_path, log_file_path_in, manager_runtime_dir_for, manager_runtime_dir_in,
    PathOverrides,
};
use std::collections::HashMap;

fn unix() -> ShellEnv {
    ShellEnv { windows: false, path: "/usr/bin:/bin".to_string() }
}

fn win() -> ShellEnv {
    ShellEnv { windows: true, path: "C:\\Windows".to_string() }
}

fn finished(success: bool, code: Option<i32>, stdout: &str, stderr: &str) -> CommandOutcome {
    CommandOutcome::Finished {
        success,
        code,
        stdout: stdout.to_string(),
        stderr: stderr.to_string(),
    }
}

fn envs(c: &CommandSpec) -> Vec<(String, String)> {
    c.envs.clone()
}

#[test]
fn os_names() {
    assert!(is_windows("windows"));
    assert!(!is_windows("Windows"));
    assert!(is_macos("macos"));
    assert!(is_linux("linux"));
    assert!(!is_linux("freebsd"));
}

#[test]
fn join_path_follows_pathbuf_push() {
    assert_eq!(join_path("/home/u", ".openclaw", false), "/home/u/.openclaw");
    assert_eq!(join_path("/home/u/", "x", false), "/home/u/x");
    assert_eq!(join_path("", "x", false), "x");
    assert_eq!(join_path("/a", "/b", false), "/b");
    assert_eq!(join_path("C:\\Users\\u", "x", true), "C:\\Users\\u\\x");
    assert_eq!(join_path("C:", "x", true), "C:x");
    assert_eq!(join_path("C:\\Users", "D:\\y", true), "D:\\y");
    assert_eq!(join_path("C:\\Users", "\\y", true), "C:\\y");
    for (base, comp) in [("/home/u", "a"), ("/home/u/", "a"), ("", "a"), ("/a", "/b"), ("rel", "x/y")] {
        let expected = std::path::Path::new(base).join(comp).display().to_string();
        assert_eq!(join_path(base, comp, false), expected);
    }
}

#[test]
fn config_paths() {
    assert_eq!(config_dir_for(Some("/home/u"), false), "/home/u/.openclaw");
    assert_eq!(config_dir_for(Some("C:\\Users\\u"), true), "C:\\Users\\u\\.openclaw");
    assert_eq!(config_dir_for(None, false), "~/.openclaw");
    assert_eq!(config_dir_for(None, true), "~/.openclaw");
    assert_eq!(env_file_path_in("/home/u/.openclaw", false), "/home/u/.openclaw/env");
    assert_eq!(env_file_path_in("C:\\u\\.openclaw", true), "C:\\u\\.openclaw\\env");
    assert_eq!(config_file_path_in("/h/.openclaw", false), "/h/.openclaw/openclaw.json");
    assert_eq!(log_file_path_in("/h/.openclaw", false), "/h/.openclaw/logs/gateway.err.log");
    assert_eq!(log_file_path_in("C:\\h", true), "C:\\h\\logs\\gateway.err.log");
}

fn no_overrides() -> PathOverrides {
    PathOverrides { config_path: None, state_dir: None, openclaw_home: None }
}

#[test]
fn config_dir_follows_home_dir() {
    let expected = match dirs::home_dir() {
        Some(h) => format!("{}/.openclaw", h.display()),
        None => "~/.openclaw".to_string(),
    };
    let o = no_overrides();
    assert_eq!(get_config_dir(&o, false), expected);
    assert_eq!(get_env_file_path(&o, false), format!("{}/env", expected));
    assert_eq!(get_config_file_path(&o, false), format!("{}/openclaw.json", expected));
    assert_eq!(get_log_file_path(&o, false), format!("{}/logs/gateway.err.log", expected));
    let empty = PathOverrides {
        config_path: Some(String::new()),
        state_dir: Some(String::new()),
        openclaw_home: Some(String::new()),
    };
    assert_eq!(get_config_file_path(&empty, false), format!("{}/openclaw.json", expected));
}

#[test]
fn openclaw_variables_move_the_paths() {
    let config = PathOverrides {
        config_path: Some("/etc/openclaw/custom.json".to_string()),
        state_dir: None,
        openclaw_home: None,
    };
    assert_eq!(get_config_file_path(&config, false), "/etc/openclaw/custom.json");
    let state = PathOverrides {
        config_path: None,
        state_dir: Some("/var/lib/openclaw".to_string()),
        openclaw_home: Some("/ignored".to_string()),
    };
    assert_eq!(get_config_dir(&state, false), "/var/lib/openclaw");
    assert_eq!(get_log_file_path(&state, false), "/var/lib/openclaw/logs/gateway.err.log");
    assert_eq!(get_env_file_path(&state, false), "/var/lib/openclaw/env");
    assert_eq!(get_config_file_path(&state, false), "/var/lib/openclaw/openclaw.json");
    let home = PathOverrides {
        config_path: None,
        state_dir: None,
        openclaw_home: Some("/srv/oc".to_string()),
    };
    assert_eq!(get_config_dir(&home, false), "/srv/oc/.openclaw");
    assert_eq!(get_log_file_path(&home, true), "/srv/oc\\.openclaw\\logs\\gateway.err.log");
    assert_eq!(config_dir_with(&no_overrides(), Some("/h"), false), "/h/.openclaw");
    assert_eq!(config_dir_with(&no_overrides(), None, false), "~/.openclaw");
    assert_eq!(config_file_path_with(&home, Some("/h"), false), "/srv/oc/.openclaw/openclaw.json");
    assert_eq!(config_file_path_with(&config, Some("/h"), false), "/etc/openclaw/custom.json");
}

#[test]
fn manager_runtime_dir_prefers_local_data_then_home() {
    assert_eq!(manager_runtime_dir_for(Some("/d"), Some("/h"), false), "/d/bosiclaw/runtime");
    assert_eq!(manager_runtime_dir_for(None, Some("/h"), false), "/h/bosiclaw/runtime");
    assert_eq!(manager_runtime_dir_for(None, None, false), "./bosiclaw/runtime");
    assert_eq!(manager_runtime_dir_for(None, None, true), ".\\BosiClaw\\runtime");
}

#[test]
fn manager_runtime_dir() {
    assert_eq!(manager_runtime_dir_in("/home/u/.local/share", false), "/home/u/.local/share/bosiclaw/runtime");
    assert_eq!(manager_runtime_dir_in("C:\\Users\\u\\AppData\\Local", true), "C:\\Users\\u\\AppData\\Local\\BosiClaw\\runtime");
    let base = dirs::data_local_dir().or_else(dirs::home_dir).unwrap_or_else(|| ".".into());
    assert_eq!(get_manager_runtime_dir(false), base.join("bosiclaw").join("runtime").display().to_string());
}

#[test]
fn shell_commands() {
    let c = run_bash("echo hi", &unix());
    assert_eq!(c.program, "bash");
    assert_eq!(c.args, vec!["-c", "echo hi"]);
    assert_eq!(c.current_dir, None);
    assert_eq!(envs(&c), vec![("PATH".to_string(), "/usr/bin:/bin".to_string())]);
    assert!(!c.hide_window);

    let c = run_cmd("dir", &win());
    assert_eq!(c.program, "cmd");
    assert_eq!(c.args, vec!["/c", "dir"]);
    assert!(c.hide_window);

    let c = run_powershell("Get-Date", &win());
    assert_eq!(c.program, "powershell");
    assert_eq!(
        c.args,
        vec!["-NoProfile", "-NonInteractive", "-ExecutionPolicy", "Bypass", "-Command", "Get-Date"]
    );

    let c = run_command("which", &vec!["node".to_string()], &unix());
    assert_eq!(c.program, "which");
    assert_eq!(c.args, vec!["node"]);

    let s = run_script("echo x", &win());
    assert_eq!((s.program.as_str(), s.args.clone()), ("cmd", vec!["/c".to_string(), "echo x".to_string()]));
    let s = run_script("echo x", &unix());
    assert_eq!(s.program, "bash");
    let b = spawn_background("sleep 1", &unix());
    assert_eq!(b.args, vec!["-c", "sleep 1"]);

    assert_eq!(command_lookup("openclaw", &unix()).program, "which");
    assert_eq!(command_lookup("openclaw", &win()).program, "where");
    assert_eq!(command_lookup("openclaw", &win()).args, vec!["openclaw"]);
}

#[test]
fn command_exists_reads_success() {
    assert!(command_exists(&finished(true, Some(0), "/usr/bin/node\n", "")));
    assert!(!command_exists(&finished(false, Some(1), "", "")));
    assert!(!command_exists(&CommandOutcome::NotRun { error: "no such file".to_string() }));
}

#[test]
fn output_to_string_cases() {
    assert_eq!(output_to_string(&finished(true, Some(0), "  v22.1.0\n", "warn")), Ok("v22.1.0".to_string()));
    assert_eq!(output_to_string(&finished(false, Some(1), "out", " bad thing \n")), Err("bad thing".to_string()));
    assert_eq!(output_to_string(&finished(false, Some(1), " out \n", "  \n")), Err("out".to_string()));
    assert_eq!(
        output_to_string(&finished(false, Some(2), "", "")),
        Err("Command failed with exit code: Some(2)".to_string())
    );
    assert_eq!(
        output_to_string(&finished(false, None, " ", "\t")),
        Err("Command failed with exit code: None".to_string())
    );
    assert_eq!(
        output_to_string(&finished(false, Some(-1), "", "")),
        Err("Command failed with exit code: Some(-1)".to_string())
    );
    assert_eq!(
        output_to_string(&CommandOutcome::NotRun { error: "No such file or directory (os error 2)".to_string() }),
        Err("No such file or directory (os error 2)".to_string())
    );
    let o = finished(true, Some(0), " x ", "");
    assert_eq!(run_command_output(&o), Ok("x".to_string()));
    assert_eq!(run_bash_output(&o), Ok("x".to_string()));
    assert_eq!(run_cmd_output(&o), Ok("x".to_string()));
    assert_eq!(run_powershell_output(&o), Ok("x".to_string()));
    assert_eq!(run_script_output(&o), Ok("x".to_string()));
}

#[test]
fn debug_exit_code_matches_std() {
    for code in [Some(0), Some(7), Some(-1), Some(255), Some(i32::MAX), Some(i32::MIN), None] {
        assert_eq!(debug_exit_code(code), format!("{:?}", code));
    }
}

#[test]
fn normalize_lines_trims_and_drops_empty() {
    assert_eq!(
        normalize_lines("  /usr/bin/node \r\n\n\t\n/opt/homebrew/bin/node\n"),
        vec!["/usr/bin/node", "/opt/homebrew/bin/node"]
    );
    assert_eq!(normalize_lines(""), Vec::<String>::new());
    let sample = " a\n\nb  \r\n  c d \n";
    let expected: Vec<String> = sample
        .lines()
        .map(|l| l.trim().to_string())
        .filter(|l| !l.is_empty())
        .collect();
    assert_eq!(normalize_lines(sample), expected);
    for line in normalize_lines(sample) {
        assert!(!line.is_empty());
        assert_eq!(line.trim(), line);
        assert!(!line.contains('\n'));
    }
}

fn as_map(v: Vec<(String, String)>) -> HashMap<String, String> {
    v.into_iter().collect()
}

#[test]
fn env_file_is_read_like_a_shell() {
    let content = "# comment\n\nexport OPENAI_API_KEY=\"sk-abc\"\nANTHROPIC_KEY='x y'\n  PORT = 18789  \nnot an assignment\nA==b\n";
    let vars = load_openclaw_env_vars(content);
    let m = as_map(vars.clone());
    assert_eq!(vars.len(), m.len());
    assert_eq!(m.get("OPENAI_API_KEY").map(String::as_str), Some("sk-abc"));
    assert_eq!(m.get("ANTHROPIC_KEY").map(String::as_str), Some("x y"));
    assert_eq!(m.get("PORT").map(String::as_str), Some("18789"));
    assert_eq!(m.get("A").map(String::as_str), Some("=b"));
    assert_eq!(m.len(), 4);
    assert!(load_openclaw_env_vars("").is_empty());
    assert!(load_openclaw_env_vars("# only\n   \n").is_empty());
}

#[test]
fn env_values_end_at_closing_quote_or_comment() {
    let m = as_map(load_openclaw_env_vars("export TOKEN=\"abc\" # gateway token\n"));
    assert_eq!(m.get("TOKEN").map(String::as_str), Some("abc"));
    let m = as_map(load_openclaw_env_vars(
        "A='x # y' # note\nB=plain # note\nC=a#b\nD=\"unclosed\nE=\"\"\nF=\t# only a comment\n",
    ));
    assert_eq!(m.get("A").map(String::as_str), Some("x # y"));
    assert_eq!(m.get("B").map(String::as_str), Some("plain"));
    assert_eq!(m.get("C").map(String::as_str), Some("a#b"));
    assert_eq!(m.get("D").map(String::as_str), Some("unclosed"));
    assert_eq!(m.get("E").map(String::as_str), Some(""));
    assert_eq!(m.get("F").map(String::as_str), Some(""));
}

#[test]
fn law_later_assignment_wins_example() {
    let m = as_map(load_openclaw_env_vars("KEY=one\nOTHER=2\nKEY=two"));
    assert_eq!(m.get("KEY").map(String::as_str), Some("two"));
    assert_eq!(m.get("OTHER").map(String::as_str), Some("2"));
    assert_eq!(load_openclaw_env_vars("KEY=one\nOTHER=2\nKEY=two").len(), 2);
}

#[test]
fn env_quotes_are_removed_as_a_shell_does() {
    let m = as_map(load_openclaw_env_vars("A=\"'v'\"\nB='\"v\"'\nC=\"\"x\"\""));
    assert_eq!(m.get("A").map(String::as_str), Some("'v'"));
    assert_eq!(m.get("B").map(String::as_str), Some("\"v\""));
    assert_eq!(m.get("C").map(String::as_str), Some("x"));
}
