//! Preparing the Harness checkout (installing its locked dependencies and
//! building it) as a state machine, the first installation of the checkout,
//! and the installation of the system tools.
use vstd::prelude::*;
use crate::command::{CommandSpec, command_from, join_strings, joined, strings_of};
use crate::models::{AppConfig, DependencyStatus, UpdatePhase, string_views};
use crate::progress::{ProgressReport, report, reports};
use crate::start::{first_missing, lemma_first_missing, unavailable_message, unavailable_text};
use crate::text::{contains_seq, trim};
use crate::validation::{command_error, config_error, validate_config};
use crate::versions::first_unavailable;

verus! {

/// Where a preparation stands.
#[derive(Debug, Clone, Copy, PartialEq, Eq, Structural)]
pub enum PrepareStage {
    CheckingService,
    CheckingSource,
    CheckingDependencies,
    Installing,
    CheckingCancel,
    Building,
    CheckingArtifacts,
    Done,
    Failed,
}

/// What the application reports back.
#[derive(Debug)]
pub enum PrepareEvent {
    /// Whether a service (started here or left over) is running.
    ServiceBusy(bool),
    /// Whether the checkout (with its `.git`) exists.
    SourcePresent(bool),
    /// The status of each tool.
    Dependencies(Vec<DependencyStatus>),
    /// The installation or the build finished, or failed with this error.
    StepFinished(Result<(), String>),
    /// Whether the user asked to cancel.
    CancelRequested(bool),
    /// Whether the build output exists.
    ArtifactsPresent(bool),
}

/// What the application is to do next.
#[derive(Debug, Clone, PartialEq)]
pub enum PrepareAction {
    CheckService,
    CheckSource,
    CheckDependencies,
    /// Run this command in the checkout, logged under this label.
    Run(CommandSpec, String),
    CheckCancel,
    CheckArtifacts,
    /// Record the preparation as complete.
    Finish,
    /// Report the preparation as failed with this error.
    Fail(String),
    Halt,
}

/// Progress reports to send, in order, then an action.
#[derive(Debug, Clone, PartialEq)]
pub struct PrepareStep {
    pub progress: Vec<ProgressReport>,
    pub action: PrepareAction,
}

/// Whether `e` is what the stage `s` waits for.
pub open spec fn prepare_event_fits(s: PrepareStage, e: PrepareEvent) -> bool {
    match s {
        PrepareStage::CheckingService => e is ServiceBusy,
        PrepareStage::CheckingSource => e is SourcePresent,
        PrepareStage::CheckingDependencies => e is Dependencies,
        PrepareStage::Installing | PrepareStage::Building => e is StepFinished,
        PrepareStage::CheckingCancel => e is CancelRequested,
        PrepareStage::CheckingArtifacts => e is ArtifactsPresent,
        PrepareStage::Done | PrepareStage::Failed => true,
    }
}

/// Whether `e` is what the stage `s` waits for.
pub fn prepare_event_fits_exec(s: PrepareStage, e: &PrepareEvent) -> (b: bool)
    ensures
        b == prepare_event_fits(s, *e),
{
    match s {
        PrepareStage::CheckingService => matches!(e, PrepareEvent::ServiceBusy(_)),
        PrepareStage::CheckingSource => matches!(e, PrepareEvent::SourcePresent(_)),
        PrepareStage::CheckingDependencies => matches!(e, PrepareEvent::Dependencies(_)),
        PrepareStage::Installing | PrepareStage::Building => matches!(e, PrepareEvent::StepFinished(_)),
        PrepareStage::CheckingCancel => matches!(e, PrepareEvent::CancelRequested(_)),
        PrepareStage::CheckingArtifacts => matches!(e, PrepareEvent::ArtifactsPresent(_)),
        PrepareStage::Done | PrepareStage::Failed => true,
    }
}

/// Whether the step reports nothing and fails with `m`.
pub open spec fn prepare_fails_with(out: PrepareStep, m: Seq<char>) -> bool {
    &&& out.progress.len() == 0
    &&& out.action matches PrepareAction::Fail(x) && x@ == m
}

/// Whether the step reports nothing and carries out `a`.
pub open spec fn prepare_does(out: PrepareStep, a: PrepareAction) -> bool {
    out.progress.len() == 0 && out.action == a
}

/// Whether `out` runs the configured command `program args` under `label`.
pub open spec fn prepare_runs(out: PrepareStep, program: Seq<char>, args: Seq<Seq<char>>, label: Seq<char>) -> bool {
    out.action matches PrepareAction::Run(spec, l) && spec.program@ == trim(program) && string_views(
        spec.args@,
    ) == args && l@ == label
}

/// What a preparation does in stage `s` on learning `e`, with the
/// configuration `c`: the next stage `t` and the step `out`.
pub open spec fn prepare_transition(c: AppConfig, windows: bool, s: PrepareStage, e: PrepareEvent, t: PrepareStage, out: PrepareStep) -> bool {
    let install = c.harness.install_command;
    let build = c.harness.build_command;
    match s {
        PrepareStage::Done | PrepareStage::Failed => t == s && prepare_does(out, PrepareAction::Halt),
        PrepareStage::CheckingService => match e {
            PrepareEvent::ServiceBusy(true) => t == PrepareStage::Failed && prepare_fails_with(
                out,
                "Harness 正在运行，请先停止服务后再安装依赖和构建"@,
            ),
            PrepareEvent::ServiceBusy(false) => match config_error(c, windows) {
                Some(m) => t == PrepareStage::Failed && prepare_fails_with(out, m),
                None => t == PrepareStage::CheckingSource && prepare_does(
                    out,
                    PrepareAction::CheckSource,
                ),
            },
            _ => false,
        },
        PrepareStage::CheckingSource => match e {
            PrepareEvent::SourcePresent(false) => t == PrepareStage::Failed && prepare_fails_with(
                out,
                "找不到 Harness 源码，请先完成首次安装"@,
            ),
            PrepareEvent::SourcePresent(true) => t == PrepareStage::CheckingDependencies
                && prepare_does(out, PrepareAction::CheckDependencies),
            _ => false,
        },
        PrepareStage::CheckingDependencies => match e {
            PrepareEvent::Dependencies(ds) => match first_missing(ds@) {
                Some(d) => t == PrepareStage::Failed && prepare_fails_with(
                    out,
                    unavailable_text("无法准备 Harness："@, d),
                ),
                None => {
                    &&& out.progress.len() >= 1
                    &&& reports(out.progress[0], UpdatePhase::Checking, "准备 Harness 依赖和构建"@, None, Some(5u8), true)
                    &&& match command_error(install.program@, string_views(install.args@)) {
                        Some(m) => {
                            &&& t == PrepareStage::Failed
                            &&& out.progress.len() == 1
                            &&& out.action matches PrepareAction::Fail(x) && x@ == m
                        },
                        None => {
                            &&& t == PrepareStage::Installing
                            &&& out.progress.len() == 2
                            &&& reports(
                                out.progress[1],
                                UpdatePhase::InstallingDependencies,
                                "安装锁定依赖"@,
                                None,
                                Some(25u8),
                                true,
                            )
                            &&& prepare_runs(
                                out,
                                install.program@,
                                string_views(install.args@),
                                "安装 Harness 依赖"@,
                            )
                        },
                    }
                },
            },
            _ => false,
        },
        PrepareStage::Installing => match e {
            PrepareEvent::StepFinished(Err(m)) => t == PrepareStage::Failed && prepare_fails_with(
                out,
                m@,
            ),
            PrepareEvent::StepFinished(Ok(())) => t == PrepareStage::CheckingCancel && prepare_does(
                out,
                PrepareAction::CheckCancel,
            ),
            _ => false,
        },
        PrepareStage::CheckingCancel => match e {
            PrepareEvent::CancelRequested(true) => t == PrepareStage::Failed && prepare_fails_with(
                out,
                "准备构建已取消"@,
            ),
            PrepareEvent::CancelRequested(false) => match command_error(
                build.program@,
                string_views(build.args@),
            ) {
                Some(m) => t == PrepareStage::Failed && prepare_fails_with(out, m),
                None => {
                    &&& t == PrepareStage::Building
                    &&& out.progress.len() == 1
                    &&& reports(
                        out.progress[0],
                        UpdatePhase::Building,
                        "构建 Harness Web 产物"@,
                        Some(joined(string_views(c.harness.artifact_paths@), ", "@)),
                        Some(65u8),
                        true,
                    )
                    &&& prepare_runs(out, build.program@, string_views(build.args@), "构建 Harness"@)
                },
            },
            _ => false,
        },
        PrepareStage::Building => match e {
            PrepareEvent::StepFinished(Err(m)) => t == PrepareStage::Failed && prepare_fails_with(
                out,
                m@,
            ),
            PrepareEvent::StepFinished(Ok(())) => t == PrepareStage::CheckingArtifacts
                && prepare_does(out, PrepareAction::CheckArtifacts),
            _ => false,
        },
        PrepareStage::CheckingArtifacts => match e {
            PrepareEvent::ArtifactsPresent(false) => t == PrepareStage::Failed && prepare_fails_with(
                out,
                "构建命令已结束，但仍未找到预期产物，请查看实时日志"@,
            ),
            PrepareEvent::ArtifactsPresent(true) => {
                &&& t == PrepareStage::Done
                &&& out.progress.len() == 1
                &&& reports(
                    out.progress[0],
                    UpdatePhase::Completed,
                    "Harness 依赖和构建已完成"@,
                    None,
                    Some(100u8),
                    false,
                )
                &&& out.action is Finish
            },
            _ => false,
        },
    }
}

fn prepare_fail(message: String) -> (r: (PrepareStage, PrepareStep))
    ensures
        r.0 == PrepareStage::Failed,
        prepare_fails_with(r.1, message@),
{
    (PrepareStage::Failed, PrepareStep { progress: Vec::new(), action: PrepareAction::Fail(message) })
}

fn prepare_go(stage: PrepareStage, action: PrepareAction) -> (r: (PrepareStage, PrepareStep))
    ensures
        r.0 == stage,
        prepare_does(r.1, action),
{
    (stage, PrepareStep { progress: Vec::new(), action })
}

/// How a preparation begins: by asking whether a service runs.
pub fn prepare_begin() -> (r: (PrepareStage, PrepareStep))
    ensures
        r.0 == PrepareStage::CheckingService,
        prepare_does(r.1, PrepareAction::CheckService),
{
    prepare_go(PrepareStage::CheckingService, PrepareAction::CheckService)
}

/// What a preparation does next, in stage `s`, having learnt `e`.
pub fn prepare_step(config: &AppConfig, windows: bool, s: PrepareStage, e: PrepareEvent) -> (r: (PrepareStage, PrepareStep))
    requires
        prepare_event_fits(s, e),
    ensures
        prepare_transition(*config, windows, s, e, r.0, r.1),
{
    match s {
        PrepareStage::Done | PrepareStage::Failed => prepare_go(s, PrepareAction::Halt),
        PrepareStage::CheckingService => match e {
            PrepareEvent::ServiceBusy(true) => prepare_fail(
                String::from_str("Harness 正在运行，请先停止服务后再安装依赖和构建"),
            ),
            _ => match validate_config(config, windows) {
                Err(m) => prepare_fail(m),
                Ok(()) => prepare_go(PrepareStage::CheckingSource, PrepareAction::CheckSource),
            },
        },
        PrepareStage::CheckingSource => match e {
            PrepareEvent::SourcePresent(true) => prepare_go(
                PrepareStage::CheckingDependencies,
                PrepareAction::CheckDependencies,
            ),
            _ => prepare_fail(String::from_str("找不到 Harness 源码，请先完成首次安装")),
        },
        PrepareStage::CheckingDependencies => match e {
            PrepareEvent::Dependencies(ds) => match first_unavailable(&ds) {
                Some(i) => {
                    proof {
                        lemma_first_missing(ds@, i as int);
                    }
                    prepare_fail(unavailable_message("无法准备 Harness：", &ds[i]))
                },
                None => {
                    assert(first_missing(ds@) is None) by {
                        if exists|i: int| 0 <= i < ds@.len() && !(#[trigger] ds@[i]).available {
                            let i = choose|i: int| 0 <= i < ds@.len() && !(#[trigger] ds@[i]).available;
                            assert(ds@[i].available);
                        }
                    }
                    let mut progress: Vec<ProgressReport> = Vec::new();
                    progress.push(report(UpdatePhase::Checking, "准备 Harness 依赖和构建", None, Some(5), true));
                    match command_from(&config.harness.install_command) {
                        Err(m) => (
                            PrepareStage::Failed,
                            PrepareStep { progress, action: PrepareAction::Fail(m) },
                        ),
                        Ok(spec) => {
                            progress.push(
                                report(UpdatePhase::InstallingDependencies, "安装锁定依赖", None, Some(25), true),
                            );
                            (
                                PrepareStage::Installing,
                                PrepareStep {
                                    progress,
                                    action: PrepareAction::Run(spec, String::from_str("安装 Harness 依赖")),
                                },
                            )
                        },
                    }
                },
            },
            _ => prepare_fail(String::new()),
        },
        PrepareStage::Installing => match e {
            PrepareEvent::StepFinished(Err(m)) => prepare_fail(m),
            _ => prepare_go(PrepareStage::CheckingCancel, PrepareAction::CheckCancel),
        },
        PrepareStage::CheckingCancel => match e {
            PrepareEvent::CancelRequested(true) => prepare_fail(String::from_str("准备构建已取消")),
            _ => match command_from(&config.harness.build_command) {
                Err(m) => prepare_fail(m),
                Ok(spec) => {
                    let detail = join_strings(&config.harness.artifact_paths, ", ");
                    let mut progress: Vec<ProgressReport> = Vec::new();
                    progress.push(
                        report(UpdatePhase::Building, "构建 Harness Web 产物", Some(detail), Some(65), true),
                    );
                    (
                        PrepareStage::Building,
                        PrepareStep {
                            progress,
                            action: PrepareAction::Run(spec, String::from_str("构建 Harness")),
                        },
                    )
                },
            },
        },
        PrepareStage::Building => match e {
            PrepareEvent::StepFinished(Err(m)) => prepare_fail(m),
            _ => prepare_go(PrepareStage::CheckingArtifacts, PrepareAction::CheckArtifacts),
        },
        PrepareStage::CheckingArtifacts => match e {
            PrepareEvent::ArtifactsPresent(true) => {
                let mut progress: Vec<ProgressReport> = Vec::new();
                progress.push(report(UpdatePhase::Completed, "Harness 依赖和构建已完成", None, Some(100), false));
                (PrepareStage::Done, PrepareStep { progress, action: PrepareAction::Finish })
            },
            _ => prepare_fail(String::from_str("构建命令已结束，但仍未找到预期产物，请查看实时日志")),
        },
    }
}

/// The build of a preparation runs only after the dependencies were
/// installed and the user did not cancel; nothing is installed while a
/// service runs.
pub proof fn law_build_follows_install(c: AppConfig, windows: bool, s: PrepareStage, e: PrepareEvent, t: PrepareStage, out: PrepareStep)
    requires
        prepare_transition(c, windows, s, e, t, out),
    ensures
        t == PrepareStage::Building ==> s == PrepareStage::CheckingCancel && e matches PrepareEvent::CancelRequested(false),
        t == PrepareStage::Installing ==> s == PrepareStage::CheckingDependencies,
        e matches PrepareEvent::ServiceBusy(true) && s == PrepareStage::CheckingService ==> t
            == PrepareStage::Failed,
        (s == PrepareStage::Done || s == PrepareStage::Failed) ==> t == s,
{
}

// ---------------------------------------------------------------------
// Reports after a failed operation
// ---------------------------------------------------------------------

/// The report sent when a preparation failed with `detail`.
pub fn prepare_failure_report(detail: String) -> (p: ProgressReport)
    ensures
        reports(p, UpdatePhase::Failed, "Harness 准备失败，后续步骤已停止"@, Some(detail@), None, false),
{
    report(UpdatePhase::Failed, "Harness 准备失败，后续步骤已停止", Some(detail), None, false)
}

/// The report sent when an update failed with `detail`.
pub fn update_failure_report(detail: String) -> (p: ProgressReport)
    ensures
        reports(p, UpdatePhase::Failed, "Harness 更新失败，后续步骤已停止"@, Some(detail@), None, false),
{
    report(UpdatePhase::Failed, "Harness 更新失败，后续步骤已停止", Some(detail), None, false)
}

// ---------------------------------------------------------------------
// The first installation of the checkout
// ---------------------------------------------------------------------

/// Why the checkout cannot be cloned into its target, if it cannot: the
/// target exists and is no empty directory. User files are never
/// overwritten.
pub fn clone_target_refusal(exists: bool, empty_dir: bool) -> (r: Option<String>)
    ensures
        (exists && !empty_dir) ==> (r matches Some(m) && m@ == "目标目录已存在且非空；为保护用户文件，未执行覆盖或清理"@),
        !(exists && !empty_dir) ==> r is None,
{
    if exists && !empty_dir {
        Some(String::from_str("目标目录已存在且非空；为保护用户文件，未执行覆盖或清理"))
    } else {
        None
    }
}

/// The `git clone` of the configured repository into `target`.
pub fn clone_command(repo_url: &str, target: &str) -> (spec: CommandSpec)
    ensures
        spec.program@ == "git"@,
        string_views(spec.args@) == seq!["clone"@, repo_url@, target@],
{
    crate::command::git_spec(vec!["clone", repo_url, target])
}

// ---------------------------------------------------------------------
// Installing the system tools
// ---------------------------------------------------------------------

/// The systems with a package manager that can install the tools.
#[derive(Debug, Clone, Copy, PartialEq, Eq, Structural)]
pub enum Platform {
    MacOs,
    Windows,
    Other,
}

/// The winget arguments shared by every package.
pub open spec fn winget_args(package: Seq<char>) -> Seq<Seq<char>> {
    seq![
        "install"@,
        "--exact"@,
        "--upgrade"@,
        "--source"@,
        "winget"@,
        "--accept-source-agreements"@,
        "--accept-package-agreements"@,
        "--id"@,
        package,
    ]
}

/// Whether `spec` installs `package` with winget.
pub open spec fn is_winget_install(spec: CommandSpec, package: Seq<char>) -> bool {
    spec.program@ == "winget"@ && string_views(spec.args@) == winget_args(package)
}

/// The message when no package manager can install the tools here.
pub open spec fn no_installer_message() -> Seq<char> {
    "当前系统没有安全的内置包管理器安装流程，请先手动安装 Git、Node.js 22.19+ 或 24+、pnpm 11.7+"@
}

fn winget_install(package: &str) -> (spec: CommandSpec)
    ensures
        is_winget_install(spec, package@),
{
    let args = strings_of(
        &vec![
            "install",
            "--exact",
            "--upgrade",
            "--source",
            "winget",
            "--accept-source-agreements",
            "--accept-package-agreements",
            "--id",
            package,
        ],
    );
    assert(string_views(args@) =~= winget_args(package@));
    CommandSpec { program: String::from_str("winget"), args }
}

/// The commands that install Git, Node.js and pnpm on `platform`, once the
/// package manager was looked for (`manager`: found, or the error of the
/// search): Homebrew on macOS, winget on Windows, none elsewhere.
pub fn system_dependency_commands(platform: Platform, manager: Result<(), String>) -> (r: Result<Vec<CommandSpec>, String>)
    ensures
        match platform {
            Platform::MacOs => match manager {
                Err(e) => r matches Err(x) && x@ == e@,
                Ok(()) => r matches Ok(v) && v.len() == 1 && v[0].program@ == "brew"@ && string_views(
                    v[0].args@,
                ) == seq!["install"@, "git"@, "node"@, "pnpm"@],
            },
            Platform::Windows => match manager {
                Err(e) => r matches Err(x) && x@ == e@,
                Ok(()) => r matches Ok(v) && v.len() == 3 && is_winget_install(v[0], "Git.Git"@)
                    && is_winget_install(v[1], "OpenJS.NodeJS.LTS"@) && is_winget_install(
                    v[2],
                    "pnpm.pnpm"@,
                ),
            },
            Platform::Other => r matches Err(x) && x@ == no_installer_message(),
        },
{
    match platform {
        Platform::MacOs => match manager {
            Err(e) => Err(e),
            Ok(()) => {
                let args = strings_of(&vec!["install", "git", "node", "pnpm"]);
                assert(string_views(args@) =~= seq!["install"@, "git"@, "node"@, "pnpm"@]);
                let mut v = Vec::new();
                v.push(CommandSpec { program: String::from_str("brew"), args });
                Ok(v)
            },
        },
        Platform::Windows => match manager {
            Err(e) => Err(e),
            Ok(()) => {
                let mut v = Vec::new();
                v.push(winget_install("Git.Git"));
                v.push(winget_install("OpenJS.NodeJS.LTS"));
                v.push(winget_install("pnpm.pnpm"));
                Ok(v)
            },
        },
        Platform::Other => Err(
            String::from_str(
                "当前系统没有安全的内置包管理器安装流程，请先手动安装 Git、Node.js 22.19+ 或 24+、pnpm 11.7+",
            ),
        ),
    }
}

/// The program that looks for the package manager on `platform`.
pub fn package_manager(platform: Platform) -> (r: Option<&'static str>)
    ensures
        platform == Platform::MacOs ==> (r matches Some(s) && s@ == "brew"@),
        platform == Platform::Windows ==> (r matches Some(s) && s@ == "winget"@),
        platform == Platform::Other ==> r is None,
{
    match platform {
        Platform::MacOs => Some("brew"),
        Platform::Windows => Some("winget"),
        Platform::Other => None,
    }
}

/// The error shown when the tools cannot be installed: a missing package
/// manager is named with how to get it; other errors stay as they are.
pub open spec fn installer_error_text(platform: Platform, error: Seq<char>) -> Seq<char> {
    if contains_seq(error, "找不到可执行文件"@) {
        match platform {
            Platform::MacOs => "未找到 Homebrew。请先从 https://brew.sh 安装 Homebrew，再重试“安装系统依赖”"@,
            Platform::Windows => "未找到 winget。请更新 App Installer 或手动安装 Git、Node.js 和 pnpm 后重试"@,
            Platform::Other => error,
        }
    } else {
        error
    }
}

/// The error shown when the tools cannot be installed.
pub fn installer_error(platform: Platform, error: String) -> (m: String)
    ensures
        m@ == installer_error_text(platform, error@),
{
    if crate::process::text_contains(error.as_str(), "找不到可执行文件") {
        match platform {
            Platform::MacOs => String::from_str(
                "未找到 Homebrew。请先从 https://brew.sh 安装 Homebrew，再重试“安装系统依赖”",
            ),
            Platform::Windows => String::from_str(
                "未找到 winget。请更新 App Installer 或手动安装 Git、Node.js 和 pnpm 后重试",
            ),
            Platform::Other => error,
        }
    } else {
        error
    }
}

/// The program and arguments of each command that installs the system
/// tools on `platform`, in the order they run.
pub open spec fn tool_commands(platform: Platform) -> Seq<(Seq<char>, Seq<Seq<char>>)> {
    match platform {
        Platform::MacOs => seq![("brew"@, seq!["install"@, "git"@, "node"@, "pnpm"@])],
        Platform::Windows => seq![
            ("winget"@, winget_args("Git.Git"@)),
            ("winget"@, winget_args("OpenJS.NodeJS.LTS"@)),
            ("winget"@, winget_args("pnpm.pnpm"@)),
        ],
        Platform::Other => seq![],
    }
}

/// One command of the installation of the system tools, with the report
/// shown before it runs.
#[derive(Debug, Clone, PartialEq)]
pub struct SystemInstallStep {
    pub command: CommandSpec,
    pub progress: ProgressReport,
}

/// The installation of the system tools: a report at the start, the
/// commands, and a report at the end.
#[derive(Debug, Clone, PartialEq)]
pub struct SystemInstallPlan {
    pub intro: ProgressReport,
    pub steps: Vec<SystemInstallStep>,
    pub done: ProgressReport,
}

/// Whether `st` runs the `i`-th command `tool`, announced at 20, 45, 70, ...
/// percent with its arguments as detail.
pub open spec fn runs_tool(st: SystemInstallStep, tool: (Seq<char>, Seq<Seq<char>>), i: int) -> bool {
    &&& st.command.program@ == tool.0
    &&& string_views(st.command.args@) == tool.1
    &&& reports(
        st.progress,
        UpdatePhase::InstallingDependencies,
        "安装系统依赖"@,
        Some(joined(tool.1, " "@)),
        Some((20 + 25 * i) as u8),
        false,
    )
}

/// The message when the tools would be installed under a running service.
pub open spec fn service_running_message() -> Seq<char> {
    "Harness 正在运行，请先停止服务后再安装系统依赖"@
}

/// How the system tools are installed on `platform`, once the package
/// manager was looked for (`manager`): never while the service started here
/// runs; with Homebrew on macOS and winget on Windows; a missing package
/// manager is named with how to get it.
pub fn system_install_plan(service_running: bool, platform: Platform, manager: Result<(), String>) -> (r: Result<SystemInstallPlan, String>)
    ensures
        service_running ==> (r matches Err(m) && m@ == service_running_message()),
        !service_running ==> match platform {
            Platform::Other => r matches Err(m) && m@ == no_installer_message(),
            _ => match manager {
                Err(e) => r matches Err(m) && m@ == installer_error_text(platform, e@),
                Ok(()) => r matches Ok(p) && {
                    &&& reports(
                        p.intro,
                        UpdatePhase::InstallingDependencies,
                        "安装系统依赖"@,
                        Some("只会安装 Git、Node.js 和 pnpm，不会修改 Harness 源码"@),
                        Some(10u8),
                        false,
                    )
                    &&& reports(p.done, UpdatePhase::Completed, "系统依赖安装完成，请重新检测"@, None, Some(100u8), false)
                    &&& p.steps.len() == tool_commands(platform).len()
                    &&& forall|i: int| 0 <= i < p.steps.len() ==> runs_tool(#[trigger] p.steps[i], tool_commands(platform)[i], i)
                },
            },
        },
{
    if service_running {
        return Err(String::from_str("Harness 正在运行，请先停止服务后再安装系统依赖"));
    }
    if platform == Platform::Other {
        return Err(
            String::from_str(
                "当前系统没有安全的内置包管理器安装流程，请先手动安装 Git、Node.js 22.19+ 或 24+、pnpm 11.7+",
            ),
        );
    }
    let commands = match system_dependency_commands(platform, manager) {
        Err(e) => return Err(installer_error(platform, e)),
        Ok(v) => v,
    };
    let ghost tools = tool_commands(platform);
    assert(commands.len() == tools.len());
    assert forall|i: int| 0 <= i < commands.len() implies commands[i].program@ == (#[trigger] tools[i]).0
        && string_views(commands[i].args@) == tools[i].1 by {}
    let n = commands.len();
    let mut steps: Vec<SystemInstallStep> = Vec::new();
    let mut k: usize = 0;
    while k < n
        invariant
            n == commands.len() == tools.len() <= 3,
            k <= n,
            steps.len() == k,
            forall|i: int| 0 <= i < commands.len() ==> commands[i].program@ == (#[trigger] tools[i]).0
                && string_views(commands[i].args@) == tools[i].1,
            forall|i: int| 0 <= i < k ==> runs_tool(#[trigger] steps[i], tools[i], i),
        decreases n - k,
    {
        let c = &commands[k];
        let percent: u8 = 20 + (k as u8) * 25;
        let detail = join_strings(&c.args, " ");
        let command = CommandSpec {
            program: String::from_str(c.program.as_str()),
            args: crate::command::copy_strings(&c.args),
        };
        let progress = report(UpdatePhase::InstallingDependencies, "安装系统依赖", Some(detail), Some(percent), false);
        steps.push(SystemInstallStep { command, progress });
        k = k + 1;
    }
    Ok(SystemInstallPlan {
        intro: report(
            UpdatePhase::InstallingDependencies,
            "安装系统依赖",
            Some(String::from_str("只会安装 Git、Node.js 和 pnpm，不会修改 Harness 源码")),
            Some(10),
            false,
        ),
        steps,
        done: report(UpdatePhase::Completed, "系统依赖安装完成，请重新检测", None, Some(100), false),
    })
}

} // verus!
