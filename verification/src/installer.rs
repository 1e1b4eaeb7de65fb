//! The installer's decisions: the environment report, whether and how to
//! install, uninstall or update Node.js and OpenClaw, and what each
//! attempt reports back.
use vstd::prelude::*;
use crate::text::{cat, copy_str, trim, trim_ws};
use crate::command::{
    is_common_command, opt_view, powershell_args, result_view, run_bash, run_cmd, run_powershell,
    CommandSpec, ShellEnv,
};
use crate::version::{check_node_version_requirement, compare_versions, node_version_ok, update_available};
use crate::platform::{is_linux, is_macos, is_windows};
use crate::scripts::{
    NODEJS_LINUX_SCRIPT, NODEJS_MACOS_SCRIPT, NODEJS_MACOS_TERMINAL, NODEJS_WINDOWS_SCRIPT,
    NODEJS_WINDOWS_TERMINAL, OPENCLAW_LINUX_TERMINAL, OPENCLAW_MACOS_TERMINAL, OPENCLAW_UNIX_SCRIPT,
    OPENCLAW_WINDOWS_SCRIPT, OPENCLAW_WINDOWS_TERMINAL, UNINSTALL_UNIX_SCRIPT, UPDATE_UNIX_SCRIPT,
};
use crate::runtime::{get_runtime_mode, get_runtime_root, runtime_mode_of, OpenClawRuntime};

verus! {

/// The environment report.
pub struct EnvironmentStatus {
    /// Node.js was found.
    pub node_installed: bool,
    /// The Node.js version.
    pub node_version: Option<String>,
    /// The Node.js version is at least 22.
    pub node_version_ok: bool,
    /// OpenClaw was found.
    pub openclaw_installed: bool,
    /// The OpenClaw version.
    pub openclaw_version: Option<String>,
    /// The configuration directory exists.
    pub config_dir_exists: bool,
    /// Everything needed is in place.
    pub ready: bool,
    /// The operating system.
    pub os: String,
    /// `bundled`, `system` or `missing`.
    pub runtime_mode: String,
    /// The bundled runtime's root.
    pub runtime_root: Option<String>,
}

/// Progress of an installation.
pub struct InstallProgress {
    pub step: String,
    pub progress: u8,
    pub message: String,
    pub error: Option<String>,
}

/// The outcome of an installation, uninstallation or update.
pub struct InstallResult {
    pub success: bool,
    pub message: String,
    pub error: Option<String>,
}

/// Whether an OpenClaw update is available.
pub struct UpdateInfo {
    pub update_available: bool,
    pub current_version: Option<String>,
    pub latest_version: Option<String>,
    pub error: Option<String>,
}

pub open spec fn result_is(r: InstallResult, success: bool, message: Seq<char>, error: Option<
    Seq<char>,
>) -> bool {
    r.success == success && r.message@ == message && opt_view(r.error) == error
}

fn install_result(success: bool, message: &str, error: Option<String>) -> (r: InstallResult)
    ensures
        result_is(r, success, message@, opt_view(error)),
{
    InstallResult { success, message: copy_str(message), error }
}

/// The OpenClaw version that `openclaw --version` printed, trimmed.
pub fn get_openclaw_version(run: &Result<String, String>) -> (r: Option<String>)
    ensures
        opt_view(r) == match result_view(*run) {
            Ok(v) => Some(trim_ws(v)),
            Err(_) => None,
        },
{
    match run {
        Ok(v) => Some(trim(v.as_str())),
        Err(_) => None,
    }
}

/// The environment report from what was found: Node.js counts as installed
/// when its version is known, OpenClaw when its version is known, and all
/// is ready when Node.js is installed at version 22 or later and OpenClaw
/// is installed.  The runtime mode and root are those of the OpenClaw
/// runtime in use (`get_runtime_mode`, `get_runtime_root`).
pub fn check_environment(
    os: String,
    runtime: &Option<OpenClawRuntime>,
    node_version: Option<String>,
    openclaw_version: Option<String>,
    config_dir_exists: bool,
) -> (r: EnvironmentStatus)
    ensures
        r.node_installed == node_version is Some,
        r.node_version == node_version,
        r.node_version_ok == node_version_ok(opt_view(node_version)),
        r.openclaw_installed == openclaw_version is Some,
        r.openclaw_version == openclaw_version,
        r.config_dir_exists == config_dir_exists,
        r.ready == (r.node_installed && r.node_version_ok && r.openclaw_installed),
        r.os == os,
        r.runtime_mode@ == runtime_mode_of(*runtime),
        opt_view(r.runtime_root) == match *runtime {
            Some(OpenClawRuntime::Bundled(b)) => Some(b.runtime_root@),
            _ => None,
        },
        r.runtime_mode@ == "bundled"@ || r.runtime_mode@ == "system"@ || r.runtime_mode@
            == "missing"@,
        r.runtime_root is Some ==> r.runtime_mode@ == "bundled"@,
{
    let node_installed = node_version.is_some();
    let node_version_ok = check_node_version_requirement(&node_version);
    let openclaw_installed = openclaw_version.is_some();
    let ready = node_installed && node_version_ok && openclaw_installed;
    EnvironmentStatus {
        node_installed,
        node_version,
        node_version_ok,
        openclaw_installed,
        openclaw_version,
        config_dir_exists,
        ready,
        os,
        runtime_mode: get_runtime_mode(runtime),
        runtime_root: get_runtime_root(runtime),
    }
}

/// How an installation, uninstallation or update is carried out.
pub enum InstallMethod {
    Windows,
    Macos,
    Linux,
    /// Any system but Windows, through npm.
    Unix,
}

/// What to do for an install, uninstall or update request: report at
/// once, or run the method for the platform.
pub enum InstallStep {
    Done(InstallResult),
    Run(InstallMethod),
}

/// Installing Node.js: nothing to do with the bundled runtime; Windows,
/// macOS and Linux each have a method; any other system is refused.
pub fn install_nodejs(bundled_active: bool, os: &str) -> (r: InstallStep)
    ensures
        bundled_active ==> (r matches InstallStep::Done(x) && result_is(
            x,
            true,
            "当前版本已内置 Node.js，无需额外安装"@,
            None,
        )),
        !bundled_active ==> (if os@ == "windows"@ {
            r matches InstallStep::Run(InstallMethod::Windows)
        } else if os@ == "macos"@ {
            r matches InstallStep::Run(InstallMethod::Macos)
        } else if os@ == "linux"@ {
            r matches InstallStep::Run(InstallMethod::Linux)
        } else {
            r matches InstallStep::Done(x) && result_is(
                x,
                false,
                "不支持的操作系统"@,
                Some("不支持的操作系统: "@ + os@),
            )
        }),
{
    if bundled_active {
        return InstallStep::Done(install_result(true, "当前版本已内置 Node.js，无需额外安装", None));
    }
    if is_windows(os) {
        InstallStep::Run(InstallMethod::Windows)
    } else if is_macos(os) {
        InstallStep::Run(InstallMethod::Macos)
    } else if is_linux(os) {
        InstallStep::Run(InstallMethod::Linux)
    } else {
        InstallStep::Done(
            install_result(false, "不支持的操作系统", Some(cat("不支持的操作系统: ", os))),
        )
    }
}

/// After the Windows Node.js script: success when Node.js is then found
/// (`node_found`, asked only when the script succeeded).
pub fn install_nodejs_windows(script: &Result<String, String>, node_found: bool) -> (r:
    InstallResult)
    ensures
        match result_view(*script) {
            Ok(out) => if node_found {
                result_is(r, true, "Node.js 安装成功！请重启应用以使环境变量生效。"@, None)
            } else {
                result_is(r, false, "安装后需要重启应用"@, Some(out))
            },
            Err(e) => result_is(r, false, "Node.js 安装失败"@, Some(e)),
        },
{
    match script {
        Ok(out) => if node_found {
            install_result(true, "Node.js 安装成功！请重启应用以使环境变量生效。", None)
        } else {
            install_result(false, "安装后需要重启应用", Some(out.clone()))
        },
        Err(e) => install_result(false, "Node.js 安装失败", Some(e.clone())),
    }
}

/// A script's result as an install result: success with the message
/// followed by the script's output, or failure with the script's error.
pub open spec fn script_result(
    r: InstallResult,
    script: Result<Seq<char>, Seq<char>>,
    success_prefix: Seq<char>,
    failure: Seq<char>,
) -> bool {
    match script {
        Ok(out) => result_is(r, true, success_prefix + out, None),
        Err(e) => result_is(r, false, failure, Some(e)),
    }
}

fn from_script(script: &Result<String, String>, success_prefix: &str, failure: &str) -> (r:
    InstallResult)
    ensures
        script_result(r, result_view(*script), success_prefix@, failure@),
{
    match script {
        Ok(out) => InstallResult {
            success: true,
            message: cat(success_prefix, out.as_str()),
            error: None,
        },
        Err(e) => install_result(false, failure, Some(e.clone())),
    }
}

/// After the Homebrew script on macOS.
pub fn install_nodejs_macos(script: &Result<String, String>) -> (r: InstallResult)
    ensures
        script_result(r, result_view(*script), "Node.js 安装成功！"@, "Node.js 安装失败"@),
{
    from_script(script, "Node.js 安装成功！", "Node.js 安装失败")
}

/// After the package-manager script on Linux.
pub fn install_nodejs_linux(script: &Result<String, String>) -> (r: InstallResult)
    ensures
        script_result(r, result_view(*script), "Node.js 安装成功！"@, "Node.js 安装失败"@),
{
    from_script(script, "Node.js 安装成功！", "Node.js 安装失败")
}

/// Installing OpenClaw: nothing to do with the bundled runtime; Windows
/// has its own method, every other system uses npm.
pub fn install_openclaw(bundled_active: bool, os: &str) -> (r: InstallStep)
    ensures
        bundled_active ==> (r matches InstallStep::Done(x) && result_is(
            x,
            true,
            "当前版本已内置 OpenClaw，无需额外安装"@,
            None,
        )),
        !bundled_active ==> (if os@ == "windows"@ {
            r matches InstallStep::Run(InstallMethod::Windows)
        } else {
            r matches InstallStep::Run(InstallMethod::Unix)
        }),
{
    if bundled_active {
        return InstallStep::Done(install_result(true, "当前版本已内置 OpenClaw，无需额外安装", None));
    }
    if is_windows(os) {
        InstallStep::Run(InstallMethod::Windows)
    } else {
        InstallStep::Run(InstallMethod::Unix)
    }
}

/// After the Windows OpenClaw script: success when OpenClaw then reports
/// a version (`openclaw_found`, asked only when the script succeeded).
pub fn install_openclaw_windows(script: &Result<String, String>, openclaw_found: bool) -> (r:
    InstallResult)
    ensures
        match result_view(*script) {
            Ok(out) => if openclaw_found {
                result_is(r, true, "OpenClaw 安装成功！"@, None)
            } else {
                result_is(r, false, "安装后需要重启应用"@, Some(out))
            },
            Err(e) => result_is(r, false, "OpenClaw 安装失败"@, Some(e)),
        },
{
    match script {
        Ok(out) => if openclaw_found {
            install_result(true, "OpenClaw 安装成功！", None)
        } else {
            install_result(false, "安装后需要重启应用", Some(out.clone()))
        },
        Err(e) => install_result(false, "OpenClaw 安装失败", Some(e.clone())),
    }
}

/// After the npm script on macOS and Linux.
pub fn install_openclaw_unix(script: &Result<String, String>) -> (r: InstallResult)
    ensures
        script_result(r, result_view(*script), "OpenClaw 安装成功！"@, "OpenClaw 安装失败"@),
{
    from_script(script, "OpenClaw 安装成功！", "OpenClaw 安装失败")
}

/// After preparing the local gateway configuration (its token, or why it
/// failed).
pub fn init_openclaw_config(config: &Result<String, String>) -> (r: InstallResult)
    ensures
        match result_view(*config) {
            Ok(_) => result_is(r, true, "配置初始化成功！"@, None),
            Err(e) => result_is(r, false, "配置初始化失败"@, Some(e)),
        },
{
    match config {
        Ok(_) => install_result(true, "配置初始化成功！", None),
        Err(e) => install_result(false, "配置初始化失败", Some(e.clone())),
    }
}

/// What an install terminal is opened for.
pub enum InstallTarget {
    NodeJs,
    OpenClaw,
}

/// Which install terminal to open: none with the bundled runtime;
/// `nodejs` or `openclaw`; any other kind is unknown.
pub fn open_install_terminal(bundled_active: bool, install_type: &str) -> (r: Result<
    InstallTarget,
    String,
>)
    ensures
        bundled_active ==> (r matches Err(e) && e@ == "当前版本使用内置运行时，无需打开安装终端"@),
        !bundled_active ==> (if install_type@ == "nodejs"@ {
            r matches Ok(InstallTarget::NodeJs)
        } else if install_type@ == "openclaw"@ {
            r matches Ok(InstallTarget::OpenClaw)
        } else {
            r matches Err(e) && e@ == "未知的安装类型: "@ + install_type@
        }),
{
    if bundled_active {
        return Err(copy_str("当前版本使用内置运行时，无需打开安装终端"));
    }
    if crate::text::str_eq(install_type, "nodejs") {
        Ok(InstallTarget::NodeJs)
    } else if crate::text::str_eq(install_type, "openclaw") {
        Ok(InstallTarget::OpenClaw)
    } else {
        Err(cat("未知的安装类型: ", install_type))
    }
}

/// How an install terminal is opened: a PowerShell command (its script);
/// a script file opened in Terminal.app (its path and content); or a
/// script file run in the first Linux terminal that starts (its path and
/// content, the terminals to try in order, and the error when none starts).
pub enum TerminalLaunch {
    PowerShell(String),
    MacScript { path: String, content: String },
    LinuxScript { script_path: String, content: String, terminals: Vec<String>, failure: String },
}

/// Opening a terminal that installs Node.js: PowerShell on Windows, a
/// Terminal.app script on macOS; elsewhere the user is sent to nodejs.org.
pub fn open_nodejs_install_terminal(os: &str) -> (r: Result<TerminalLaunch, String>)
    ensures
        if os@ == "windows"@ {
            r matches Ok(TerminalLaunch::PowerShell(s)) && s@ == NODEJS_WINDOWS_TERMINAL@
        } else if os@ == "macos"@ {
            r matches Ok(TerminalLaunch::MacScript { path, content }) && path@
                == "/tmp/openclaw_install_nodejs.command"@ && content@ == NODEJS_MACOS_TERMINAL@
        } else {
            r matches Err(e) && e@ == "请手动安装 Node.js: https://nodejs.org/"@
        },
{
    if is_windows(os) {
        Ok(TerminalLaunch::PowerShell(copy_str(NODEJS_WINDOWS_TERMINAL)))
    } else if is_macos(os) {
        Ok(
            TerminalLaunch::MacScript {
                path: copy_str("/tmp/openclaw_install_nodejs.command"),
                content: copy_str(NODEJS_MACOS_TERMINAL),
            },
        )
    } else {
        Err(copy_str("请手动安装 Node.js: https://nodejs.org/"))
    }
}

pub open spec fn linux_terminals() -> Seq<Seq<char>> {
    seq!["gnome-terminal"@, "xfce4-terminal"@, "konsole"@, "xterm"@]
}

/// Opening a terminal that installs OpenClaw: PowerShell on Windows, a
/// Terminal.app script on macOS, and on Linux a script run in the first of
/// GNOME Terminal, Xfce Terminal, Konsole and xterm that starts.
pub fn open_openclaw_install_terminal(os: &str) -> (r: Result<TerminalLaunch, String>)
    ensures
        if os@ == "windows"@ {
            r matches Ok(TerminalLaunch::PowerShell(s)) && s@ == OPENCLAW_WINDOWS_TERMINAL@
        } else if os@ == "macos"@ {
            r matches Ok(TerminalLaunch::MacScript { path, content }) && path@
                == "/tmp/openclaw_install_openclaw.command"@ && content@ == OPENCLAW_MACOS_TERMINAL@
        } else {
            r matches Ok(TerminalLaunch::LinuxScript { script_path, content, terminals, failure })
                && {
                &&& script_path@ == "/tmp/openclaw_install_openclaw.sh"@
                &&& content@ == OPENCLAW_LINUX_TERMINAL@
                &&& crate::text::views(terminals@) == linux_terminals()
                &&& failure@ == "无法启动终端，请手动运行: npm install -g openclaw"@
            }
        },
{
    if is_windows(os) {
        Ok(TerminalLaunch::PowerShell(copy_str(OPENCLAW_WINDOWS_TERMINAL)))
    } else if is_macos(os) {
        Ok(
            TerminalLaunch::MacScript {
                path: copy_str("/tmp/openclaw_install_openclaw.command"),
                content: copy_str(OPENCLAW_MACOS_TERMINAL),
            },
        )
    } else {
        let terminals = vec![
            copy_str("gnome-terminal"),
            copy_str("xfce4-terminal"),
            copy_str("konsole"),
            copy_str("xterm"),
        ];
        assert(crate::text::views(terminals@) =~= linux_terminals());
        Ok(
            TerminalLaunch::LinuxScript {
                script_path: copy_str("/tmp/openclaw_install_openclaw.sh"),
                content: copy_str(OPENCLAW_LINUX_TERMINAL),
                terminals,
                failure: copy_str("无法启动终端，请手动运行: npm install -g openclaw"),
            },
        )
    }
}

/// The message once an install terminal has been opened.
pub open spec fn terminal_opened_message() -> Seq<char> {
    "已打开安装终端"@
}

/// The next step in opening the Linux install terminal.
pub enum TerminalStep {
    /// Start `program` with `args` without waiting for it, then call again
    /// with whether it started.
    Spawn { program: String, args: Vec<String> },
    /// Stop with this result.
    Done(Result<String, String>),
}

/// One step of opening the Linux install terminal: the terminals are tried
/// in order, each started as `<terminal> -- <script_path>`; the first that
/// starts ends the search with the "opened" message, and when none starts
/// the result is `failure`.  `tried` is the number of terminals tried so
/// far and `last_started` whether the last of them started (false at the
/// first call).
pub fn linux_terminal_step(
    terminals: &Vec<String>,
    script_path: &str,
    failure: &str,
    tried: usize,
    last_started: bool,
) -> (r: TerminalStep)
    ensures
        last_started ==> (r matches TerminalStep::Done(Ok(m)) && m@ == terminal_opened_message()),
        !last_started && tried < terminals@.len() ==> (r matches TerminalStep::Spawn {
            program,
            args,
        } && program@ == terminals@[tried as int]@ && crate::text::views(args@) == seq![
            "--"@,
            script_path@,
        ]),
        !last_started && tried >= terminals@.len() ==> (r matches TerminalStep::Done(Err(e)) && e@
            == failure@),
{
    if last_started {
        TerminalStep::Done(Ok(copy_str("已打开安装终端")))
    } else if tried < terminals.len() {
        let args = vec![copy_str("--"), copy_str(script_path)];
        assert(crate::text::views(args@) =~= seq!["--"@, script_path@]);
        TerminalStep::Spawn { program: terminals[tried].clone(), args }
    } else {
        TerminalStep::Done(Err(copy_str(failure)))
    }
}

/// What failed while opening an install terminal.
pub enum TerminalFailure {
    /// The PowerShell command that opens the terminal (its error as is).
    PowerShell,
    /// Writing the script.
    WriteScript,
    /// Making it executable (`chmod +x`).
    Chmod,
    /// Starting the terminal (`open`).
    Open,
}

/// The result of opening an install terminal once the steps before it have
/// run: the "opened" message, or the failure with its stage named.
pub fn finish_install_terminal(outcome: &Result<(), (TerminalFailure, String)>) -> (r: Result<
    String,
    String,
>)
    ensures
        match *outcome {
            Ok(_) => r matches Ok(m) && m@ == terminal_opened_message(),
            Err((stage, e)) => r matches Err(x) && x@ == match stage {
                TerminalFailure::PowerShell => Seq::<char>::empty(),
                TerminalFailure::WriteScript => "创建脚本失败: "@,
                TerminalFailure::Chmod => "设置权限失败: "@,
                TerminalFailure::Open => "启动终端失败: "@,
            } + e@,
        },
{
    match outcome {
        Ok(_) => Ok(copy_str("已打开安装终端")),
        Err((TerminalFailure::PowerShell, e)) => {
            assert(Seq::<char>::empty() + e@ =~= e@);
            Err(e.clone())
        },
        Err((TerminalFailure::WriteScript, e)) => Err(cat("创建脚本失败: ", e.as_str())),
        Err((TerminalFailure::Chmod, e)) => Err(cat("设置权限失败: ", e.as_str())),
        Err((TerminalFailure::Open, e)) => Err(cat("启动终端失败: ", e.as_str())),
    }
}

/// Uninstalling OpenClaw: refused with the bundled runtime; otherwise the
/// Windows method or npm.
pub fn uninstall_openclaw(bundled_active: bool, os: &str) -> (r: InstallStep)
    ensures
        bundled_active ==> (r matches InstallStep::Done(x) && result_is(
            x,
            false,
            "当前版本使用内置 OpenClaw，不支持应用内卸载"@,
            Some("请通过重新打包或发布新版本应用来移除内置 OpenClaw"@),
        )),
        !bundled_active ==> (if os@ == "windows"@ {
            r matches InstallStep::Run(InstallMethod::Windows)
        } else {
            r matches InstallStep::Run(InstallMethod::Unix)
        }),
{
    if bundled_active {
        return InstallStep::Done(
            install_result(
                false,
                "当前版本使用内置 OpenClaw，不支持应用内卸载",
                Some(copy_str("请通过重新打包或发布新版本应用来移除内置 OpenClaw")),
            ),
        );
    }
    if is_windows(os) {
        InstallStep::Run(InstallMethod::Windows)
    } else {
        InstallStep::Run(InstallMethod::Unix)
    }
}

/// After `npm uninstall -g openclaw` on Windows: success when OpenClaw no
/// longer reports a version (`still_installed`, asked only when npm
/// succeeded).
pub fn uninstall_openclaw_windows(npm: &Result<String, String>, still_installed: bool) -> (r:
    InstallResult)
    ensures
        match result_view(*npm) {
            Ok(out) => if !still_installed {
                result_is(r, true, "OpenClaw 已成功卸载！"@, None)
            } else {
                result_is(
                    r,
                    false,
                    "卸载命令已执行，但 OpenClaw 仍然存在，请尝试手动卸载"@,
                    Some(out),
                )
            },
            Err(e) => result_is(r, false, "OpenClaw 卸载失败"@, Some(e)),
        },
{
    match npm {
        Ok(out) => if !still_installed {
            install_result(true, "OpenClaw 已成功卸载！", None)
        } else {
            install_result(
                false,
                "卸载命令已执行，但 OpenClaw 仍然存在，请尝试手动卸载",
                Some(out.clone()),
            )
        },
        Err(e) => install_result(false, "OpenClaw 卸载失败", Some(e.clone())),
    }
}

/// After the npm uninstall script on macOS and Linux.
pub fn uninstall_openclaw_unix(script: &Result<String, String>) -> (r: InstallResult)
    ensures
        script_result(r, result_view(*script), "OpenClaw 已成功卸载！"@, "OpenClaw 卸载失败"@),
{
    from_script(script, "OpenClaw 已成功卸载！", "OpenClaw 卸载失败")
}

/// Whether the update check asks the registry: only without the bundled
/// runtime and with OpenClaw installed.
pub fn needs_latest_version(bundled_active: bool, current_version: &Option<String>) -> (r: bool)
    ensures
        r == (!bundled_active && current_version is Some),
{
    !bundled_active && current_version.is_some()
}

pub open spec fn info_is(
    r: UpdateInfo,
    available: bool,
    current: Option<Seq<char>>,
    latest: Option<Seq<char>>,
    error: Option<Seq<char>>,
) -> bool {
    &&& r.update_available == available
    &&& opt_view(r.current_version) == current
    &&& opt_view(r.latest_version) == latest
    &&& opt_view(r.error) == error
}

/// The update report: with the bundled runtime no update is offered; with
/// OpenClaw missing, or the registry's version unknown, none either; else
/// an update is available when the registry's version is newer.  `latest`
/// is read only when `needs_latest_version` says so.
pub fn check_openclaw_update(
    bundled_active: bool,
    current_version: Option<String>,
    latest_version: Option<String>,
) -> (r: UpdateInfo)
    ensures
        bundled_active ==> info_is(
            r,
            false,
            opt_view(current_version),
            None,
            Some("当前版本使用内置 OpenClaw，请通过重新打包应用更新"@),
        ),
        !bundled_active && current_version is None ==> info_is(
            r,
            false,
            None,
            None,
            Some("OpenClaw 未安装"@),
        ),
        !bundled_active && current_version is Some && latest_version is None ==> info_is(
            r,
            false,
            opt_view(current_version),
            None,
            Some("无法获取最新版本信息"@),
        ),
        !bundled_active && current_version is Some && latest_version is Some ==> info_is(
            r,
            update_available(current_version->0@, latest_version->0@),
            opt_view(current_version),
            opt_view(latest_version),
            None,
        ),
        r.update_available ==> !bundled_active && current_version is Some && latest_version is Some,
{
    if bundled_active {
        return UpdateInfo {
            update_available: false,
            current_version,
            latest_version: None,
            error: Some(copy_str("当前版本使用内置 OpenClaw，请通过重新打包应用更新")),
        };
    }
    match current_version {
        None => UpdateInfo {
            update_available: false,
            current_version: None,
            latest_version: None,
            error: Some(copy_str("OpenClaw 未安装")),
        },
        Some(current) => match latest_version {
            None => UpdateInfo {
                update_available: false,
                current_version: Some(current),
                latest_version: None,
                error: Some(copy_str("无法获取最新版本信息")),
            },
            Some(latest) => {
                let update_available = compare_versions(current.as_str(), latest.as_str());
                UpdateInfo {
                    update_available,
                    current_version: Some(current),
                    latest_version: Some(latest),
                    error: None,
                }
            },
        },
    }
}

/// The arguments with which OpenClaw reports its version.
pub fn openclaw_version_args() -> (r: Vec<String>)
    ensures
        crate::text::views(r@) == seq!["--version"@],
{
    let r = vec![copy_str("--version")];
    assert(crate::text::views(r@) =~= seq!["--version"@]);
    r
}

/// The arguments that stop a running gateway, before an uninstall or an
/// update.
pub fn gateway_stop_args() -> (r: Vec<String>)
    ensures
        crate::text::views(r@) == seq!["gateway"@, "stop"@],
{
    let r = vec![copy_str("gateway"), copy_str("stop")];
    assert(crate::text::views(r@) =~= seq!["gateway"@, "stop"@]);
    r
}

/// The command that installs Node.js by `method`: the PowerShell script on
/// Windows, the Homebrew script on macOS, the package-manager script on
/// Linux; the generic Unix method has none.
pub fn nodejs_install_command(method: &InstallMethod, env: &ShellEnv) -> (r: Option<CommandSpec>)
    ensures
        match *method {
            InstallMethod::Windows => r matches Some(c) && is_common_command(
                c,
                "powershell"@,
                powershell_args(NODEJS_WINDOWS_SCRIPT@),
                *env,
            ),
            InstallMethod::Macos => r matches Some(c) && is_common_command(
                c,
                "bash"@,
                seq!["-c"@, NODEJS_MACOS_SCRIPT@],
                *env,
            ),
            InstallMethod::Linux => r matches Some(c) && is_common_command(
                c,
                "bash"@,
                seq!["-c"@, NODEJS_LINUX_SCRIPT@],
                *env,
            ),
            InstallMethod::Unix => r is None,
        },
{
    match method {
        InstallMethod::Windows => Some(run_powershell(NODEJS_WINDOWS_SCRIPT, env)),
        InstallMethod::Macos => Some(run_bash(NODEJS_MACOS_SCRIPT, env)),
        InstallMethod::Linux => Some(run_bash(NODEJS_LINUX_SCRIPT, env)),
        InstallMethod::Unix => None,
    }
}

/// The command that installs OpenClaw with npm: the PowerShell script on
/// Windows, the bash script elsewhere.
pub fn openclaw_install_command(method: &InstallMethod, env: &ShellEnv) -> (c: CommandSpec)
    ensures
        if *method is Windows {
            is_common_command(c, "powershell"@, powershell_args(OPENCLAW_WINDOWS_SCRIPT@), *env)
        } else {
            is_common_command(c, "bash"@, seq!["-c"@, OPENCLAW_UNIX_SCRIPT@], *env)
        },
{
    match method {
        InstallMethod::Windows => run_powershell(OPENCLAW_WINDOWS_SCRIPT, env),
        _ => run_bash(OPENCLAW_UNIX_SCRIPT, env),
    }
}

/// The command that uninstalls OpenClaw: `npm uninstall -g openclaw`
/// through `cmd /c` on Windows, the bash script elsewhere.
pub fn uninstall_command(method: &InstallMethod, env: &ShellEnv) -> (c: CommandSpec)
    ensures
        if *method is Windows {
            is_common_command(c, "cmd"@, seq!["/c"@, "npm uninstall -g openclaw"@], *env)
        } else {
            is_common_command(c, "bash"@, seq!["-c"@, UNINSTALL_UNIX_SCRIPT@], *env)
        },
{
    match method {
        InstallMethod::Windows => run_cmd("npm uninstall -g openclaw", env),
        _ => run_bash(UNINSTALL_UNIX_SCRIPT, env),
    }
}

/// The command that updates OpenClaw: `npm install -g openclaw@latest`
/// through `cmd /c` on Windows, the bash script elsewhere.
pub fn update_command(method: &InstallMethod, env: &ShellEnv) -> (c: CommandSpec)
    ensures
        if *method is Windows {
            is_common_command(c, "cmd"@, seq!["/c"@, "npm install -g openclaw@latest"@], *env)
        } else {
            is_common_command(c, "bash"@, seq!["-c"@, UPDATE_UNIX_SCRIPT@], *env)
        },
{
    match method {
        InstallMethod::Windows => run_cmd("npm install -g openclaw@latest", env),
        _ => run_bash(UPDATE_UNIX_SCRIPT, env),
    }
}

/// The command that asks the npm registry for OpenClaw's latest version.
pub fn latest_version_command(env: &ShellEnv) -> (c: CommandSpec)
    ensures
        if env.windows {
            is_common_command(c, "cmd"@, seq!["/c"@, "npm view openclaw version"@], *env)
        } else {
            is_common_command(
                c,
                "bash"@,
                seq!["-c"@, "npm view openclaw version 2>/dev/null"@],
                *env,
            )
        },
{
    if env.windows {
        run_cmd("npm view openclaw version", env)
    } else {
        run_bash("npm view openclaw version 2>/dev/null", env)
    }
}

/// The registry's latest version: the command's output trimmed, when it
/// succeeded and printed something.
pub fn get_latest_openclaw_version(npm: &Result<String, String>) -> (r: Option<String>)
    ensures
        opt_view(r) == match result_view(*npm) {
            Ok(v) => if trim_ws(v).len() > 0 {
                Some(trim_ws(v))
            } else {
                None
            },
            Err(_) => None,
        },
{
    match npm {
        Ok(v) => {
            let t = trim(v.as_str());
            if t.unicode_len() > 0 {
                Some(t)
            } else {
                None
            }
        },
        Err(_) => None,
    }
}

/// Updating OpenClaw: refused with the bundled runtime; otherwise the
/// Windows method or npm.
pub fn update_openclaw(bundled_active: bool, os: &str) -> (r: InstallStep)
    ensures
        bundled_active ==> (r matches InstallStep::Done(x) && result_is(
            x,
            false,
            "当前版本使用内置 OpenClaw，不支持应用内更新"@,
            Some("请重新构建并发布包含新 OpenClaw 版本的应用"@),
        )),
        !bundled_active ==> (if os@ == "windows"@ {
            r matches InstallStep::Run(InstallMethod::Windows)
        } else {
            r matches InstallStep::Run(InstallMethod::Unix)
        }),
{
    if bundled_active {
        return InstallStep::Done(
            install_result(
                false,
                "当前版本使用内置 OpenClaw，不支持应用内更新",
                Some(copy_str("请重新构建并发布包含新 OpenClaw 版本的应用")),
            ),
        );
    }
    if is_windows(os) {
        InstallStep::Run(InstallMethod::Windows)
    } else {
        InstallStep::Run(InstallMethod::Unix)
    }
}

/// After `npm install -g openclaw@latest` on Windows: the version OpenClaw
/// then reports (`new_version`, asked only when npm succeeded), or
/// "最新版本" when it reports none.
pub fn update_openclaw_windows(npm: &Result<String, String>, new_version: Option<String>) -> (r:
    InstallResult)
    ensures
        match result_view(*npm) {
            Ok(_) => result_is(
                r,
                true,
                "OpenClaw 已更新到 "@ + match opt_view(new_version) {
                    Some(v) => v,
                    None => "最新版本"@,
                },
                None,
            ),
            Err(e) => result_is(r, false, "OpenClaw 更新失败"@, Some(e)),
        },
{
    match npm {
        Ok(_) => {
            let shown = match new_version {
                Some(v) => v,
                None => copy_str("最新版本"),
            };
            InstallResult {
                success: true,
                message: cat("OpenClaw 已更新到 ", shown.as_str()),
                error: None,
            }
        },
        Err(e) => install_result(false, "OpenClaw 更新失败", Some(e.clone())),
    }
}

/// After the npm update script on macOS and Linux.
pub fn update_openclaw_unix(script: &Result<String, String>) -> (r: InstallResult)
    ensures
        script_result(r, result_view(*script), "OpenClaw 已更新！"@, "OpenClaw 更新失败"@),
{
    from_script(script, "OpenClaw 已更新！", "OpenClaw 更新失败")
}

} // verus!
