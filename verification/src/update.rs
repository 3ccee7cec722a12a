//! The safe update of the Harness checkout, as a state machine.
//!
//! The application runs the steps (stopping the service, Git, the package
//! manager, removing build output, restarting) and reports what each gave;
//! the machine decides what comes next. An update stops the service and
//! waits for its port to be free, checks the worktree (aborting on local
//! changes unless a backup stash was asked for), fetches, merges only
//! fast-forward, installs the locked dependencies, removes the configured
//! build paths, rebuilds, and restarts the service only when it ran before.
//! Any failure ends the update.
use vstd::prelude::*;
use crate::command::{CommandSpec, command_from, join_strings, joined, strings_of};
use crate::models::{AppConfig, UpdateOptions, UpdatePhase, string_views};
use crate::progress::{ProgressReport, report, reports};
use crate::text::{chars_of, contains_seq, find_from, lemma_find, trim};
use crate::validation::{command_error, config_error, validate_config};

verus! {

/// Where an update stands.
#[derive(Debug, Clone, Copy, PartialEq, Eq, Structural)]
pub enum UpdateStage {
    /// Waiting to learn whether the service runs.
    Start,
    /// Waiting for the service to stop.
    Stopping,
    /// Waiting for the service port to be released.
    AwaitingPort,
    /// Waiting to learn whether the worktree has local changes.
    Inspecting,
    /// Waiting for the backup stash.
    Stashing,
    /// Waiting to learn whether the user cancelled.
    CheckingCancel,
    /// Waiting for the branch to follow.
    ResolvingBranch,
    /// Waiting for `git fetch`.
    Fetching,
    /// Waiting for the fast-forward merge.
    FastForwarding,
    /// Waiting for the dependency installation.
    Installing,
    /// Waiting for the old build paths to be removed.
    Cleaning,
    /// Waiting for the build.
    Building,
    /// Waiting for the service to restart.
    Restarting,
    /// The update succeeded.
    Done,
    /// The update failed or was cancelled.
    Failed,
}

/// The state of an update.
#[derive(Debug, Clone, PartialEq)]
pub struct UpdateState {
    pub stage: UpdateStage,
    /// Whether the service ran when the update began.
    pub was_running: bool,
    /// Whether the user asked for a backup stash of local changes.
    pub create_stash: bool,
    /// The branch that the update follows, once it is known.
    pub branch: String,
    /// The percentage of the last progress report.
    pub last_percent: u8,
}

/// What the application reports back after carrying out an action.
#[derive(Debug)]
pub enum UpdateEvent {
    /// Whether the service (started here or left over) is running.
    ServiceRunning(bool),
    /// The service was stopped, or why not.
    StopFinished(Result<(), String>),
    /// Whether the service port was released in time.
    PortReleased(bool),
    /// Whether the worktree has local changes or untracked files.
    WorktreeDirty(bool),
    /// The output of the stash command, or its error.
    StashFinished(Result<String, String>),
    /// Whether the user asked to cancel.
    CancelRequested(bool),
    /// The branch to follow, or why none was found.
    BranchResolved(Result<String, String>),
    /// A Git command, the installation, the removal of build paths, the
    /// build or the restart finished, or failed with this error.
    StepFinished(Result<(), String>),
}

/// What the application is to do next.
#[derive(Debug, Clone, PartialEq)]
pub enum UpdateAction {
    /// Find out whether the service runs.
    CheckService,
    /// Stop the service.
    StopService,
    /// Wait until this port is free.
    AwaitPortRelease(u16),
    /// Find out whether the worktree has local changes.
    InspectWorktree,
    /// Run `git` with these arguments, logged under this label.
    RunGit(Vec<String>, String),
    /// Find out whether the user asked to cancel.
    CheckCancel,
    /// Find the branch to follow.
    ResolveBranch,
    /// Run this command in the checkout, logged under this label.
    Run(CommandSpec, String),
    /// Remove these checkout-relative paths.
    Clean(Vec<String>),
    /// Start the service again.
    Restart,
    /// Record the update as complete.
    Finish,
    /// Record the update as failed with this error.
    Fail(String),
    /// Nothing more: the update has ended.
    Halt,
}

/// A progress report to send (if any), then an action to carry out.
#[derive(Debug, Clone, PartialEq)]
pub struct UpdateStep {
    pub progress: Option<ProgressReport>,
    pub action: UpdateAction,
}

/// Whether `e` is the kind of report that the stage `s` waits for.
pub open spec fn event_fits(s: UpdateStage, e: UpdateEvent) -> bool {
    match s {
        UpdateStage::Start => e is ServiceRunning,
        UpdateStage::Stopping => e is StopFinished,
        UpdateStage::AwaitingPort => e is PortReleased,
        UpdateStage::Inspecting => e is WorktreeDirty,
        UpdateStage::Stashing => e is StashFinished,
        UpdateStage::CheckingCancel => e is CancelRequested,
        UpdateStage::ResolvingBranch => e is BranchResolved,
        UpdateStage::Fetching | UpdateStage::FastForwarding | UpdateStage::Installing
        | UpdateStage::Cleaning | UpdateStage::Building | UpdateStage::Restarting => e is StepFinished,
        UpdateStage::Done | UpdateStage::Failed => true,
    }
}

/// Whether `e` is the kind of report that the stage `s` waits for.
pub fn update_event_fits(s: UpdateStage, e: &UpdateEvent) -> (b: bool)
    ensures
        b == event_fits(s, *e),
{
    match s {
        UpdateStage::Start => matches!(e, UpdateEvent::ServiceRunning(_)),
        UpdateStage::Stopping => matches!(e, UpdateEvent::StopFinished(_)),
        UpdateStage::AwaitingPort => matches!(e, UpdateEvent::PortReleased(_)),
        UpdateStage::Inspecting => matches!(e, UpdateEvent::WorktreeDirty(_)),
        UpdateStage::Stashing => matches!(e, UpdateEvent::StashFinished(_)),
        UpdateStage::CheckingCancel => matches!(e, UpdateEvent::CancelRequested(_)),
        UpdateStage::ResolvingBranch => matches!(e, UpdateEvent::BranchResolved(_)),
        UpdateStage::Fetching | UpdateStage::FastForwarding | UpdateStage::Installing
        | UpdateStage::Cleaning | UpdateStage::Building | UpdateStage::Restarting => matches!(
            e,
            UpdateEvent::StepFinished(_)
        ),
        UpdateStage::Done | UpdateStage::Failed => true,
    }
}

// ---------------------------------------------------------------------
// The transitions
// ---------------------------------------------------------------------

/// Whether `t` is `s` moved to `stage`, with `percent` as its last
/// reported percentage.
pub open spec fn moved(s: UpdateState, t: UpdateState, stage: UpdateStage, percent: u8) -> bool {
    &&& t.stage == stage
    &&& t.was_running == s.was_running
    &&& t.create_stash == s.create_stash
    &&& t.branch@ == s.branch@
    &&& t.last_percent == percent
}

/// Whether `out` reports this progress (when `p` is given) and carries out
/// the action that `act` accepts.
pub open spec fn step_is(
    out: UpdateStep,
    p: Option<(UpdatePhase, Seq<char>, Option<Seq<char>>, Option<u8>, bool)>,
) -> bool {
    match p {
        Some((phase, message, detail, percent, cancellable)) => out.progress matches Some(r)
            && reports(r, phase, message, detail, percent, cancellable),
        None => out.progress is None,
    }
}

/// Whether the step fails with `message`.
pub open spec fn fails_with(out: UpdateStep, message: Seq<char>) -> bool {
    out.action matches UpdateAction::Fail(m) && m@ == message
}

/// Whether `out` runs `git` with the arguments `args` under `label`.
pub open spec fn runs_git(out: UpdateStep, args: Seq<Seq<char>>, label: Seq<char>) -> bool {
    out.action matches UpdateAction::RunGit(a, l) && string_views(a@) == args && l@ == label
}

/// Whether `out` runs the configured command `program args` under `label`.
pub open spec fn runs_command(
    out: UpdateStep,
    program: Seq<char>,
    args: Seq<Seq<char>>,
    label: Seq<char>,
) -> bool {
    out.action matches UpdateAction::Run(spec, l) && spec.program@ == trim(program)
        && string_views(spec.args@) == args && l@ == label
}

/// The message when local changes would be lost.
pub open spec fn dirty_message() -> Seq<char> {
    "工作区存在本地修改或未跟踪文件。更新已中止；如需继续，请明确选择创建备份 stash"@
}

/// The step into the dependency installation, once the merge succeeded.
pub open spec fn installs(c: AppConfig, s: UpdateState, t: UpdateState, out: UpdateStep) -> bool {
    let cmd = c.harness.install_command;
    &&& step_is(out, Some((UpdatePhase::InstallingDependencies, "安装锁定依赖"@, None, Some(55u8), true)))
    &&& match command_error(cmd.program@, string_views(cmd.args@)) {
        Some(m) => moved(s, t, UpdateStage::Failed, 55) && fails_with(out, m),
        None => moved(s, t, UpdateStage::Installing, 55) && runs_command(
            out,
            cmd.program@,
            string_views(cmd.args@),
            "安装 Harness 依赖"@,
        ),
    }
}

/// The step into the build, once the old build paths are gone.
pub open spec fn builds(c: AppConfig, s: UpdateState, t: UpdateState, out: UpdateStep) -> bool {
    let cmd = c.harness.build_command;
    &&& step_is(out, Some((UpdatePhase::Building, "重新构建 Harness"@, None, Some(78u8), true)))
    &&& match command_error(cmd.program@, string_views(cmd.args@)) {
        Some(m) => moved(s, t, UpdateStage::Failed, 78) && fails_with(out, m),
        None => moved(s, t, UpdateStage::Building, 78) && runs_command(
            out,
            cmd.program@,
            string_views(cmd.args@),
            "构建 Harness"@,
        ),
    }
}

/// The step that completes the update.
pub open spec fn finishes(s: UpdateState, t: UpdateState, out: UpdateStep) -> bool {
    &&& moved(s, t, UpdateStage::Done, 100)
    &&& step_is(out, Some((UpdatePhase::Completed, "Harness 更新完成"@, None, Some(100u8), false)))
    &&& out.action is Finish
}

/// The step that checks the worktree.
pub open spec fn inspects(s: UpdateState, t: UpdateState, out: UpdateStep) -> bool {
    &&& moved(s, t, UpdateStage::Inspecting, 20)
    &&& step_is(out, Some((UpdatePhase::ValidatingWorkspace, "检查 Git 工作区"@, None, Some(20u8), true)))
    &&& out.action is InspectWorktree
}

/// Whether the step fails with the error `m`, reporting no progress.
pub open spec fn aborts(s: UpdateState, t: UpdateState, out: UpdateStep, m: Seq<char>) -> bool {
    moved(s, t, UpdateStage::Failed, s.last_percent) && step_is(out, None) && fails_with(out, m)
}

/// The upstream ref that the fast-forward merge takes.
pub open spec fn upstream_ref(remote: Seq<char>, branch: Seq<char>) -> Seq<char> {
    "refs/remotes/"@ + remote + "/"@ + branch
}

/// What the update does when it is in the state `s` and learns `e`, with
/// the configuration `c`: the next state `t` and the step `out`.
pub open spec fn update_transition(
    c: AppConfig,
    s: UpdateState,
    e: UpdateEvent,
    t: UpdateState,
    out: UpdateStep,
) -> bool {
    let remote = c.update.remote_name@;
    match s.stage {
        UpdateStage::Done | UpdateStage::Failed => moved(s, t, s.stage, s.last_percent) && step_is(
            out,
            None,
        ) && out.action is Halt,
        UpdateStage::Start => match e {
            UpdateEvent::ServiceRunning(true) => {
                &&& t.stage == UpdateStage::Stopping
                &&& t.was_running
                &&& t.create_stash == s.create_stash
                &&& t.branch@ == s.branch@
                &&& t.last_percent == 12
                &&& step_is(
                    out,
                    Some((UpdatePhase::Stopping, "停止 Harness 并确认端口释放"@, None, Some(12u8), true)),
                )
                &&& out.action is StopService
            },
            UpdateEvent::ServiceRunning(false) => {
                &&& t.stage == UpdateStage::Inspecting
                &&& !t.was_running
                &&& t.create_stash == s.create_stash
                &&& t.branch@ == s.branch@
                &&& t.last_percent == 20
                &&& step_is(
                    out,
                    Some((UpdatePhase::ValidatingWorkspace, "检查 Git 工作区"@, None, Some(20u8), true)),
                )
                &&& out.action is InspectWorktree
            },
            _ => false,
        },
        UpdateStage::Stopping => match e {
            UpdateEvent::StopFinished(Err(m)) => aborts(s, t, out, m@),
            UpdateEvent::StopFinished(Ok(())) => moved(s, t, UpdateStage::AwaitingPort, s.last_percent)
                && step_is(out, None) && out.action == UpdateAction::AwaitPortRelease(c.harness.port),
            _ => false,
        },
        UpdateStage::AwaitingPort => match e {
            UpdateEvent::PortReleased(true) => inspects(s, t, out),
            UpdateEvent::PortReleased(false) => aborts(s, t, out, "服务端口仍被占用，未继续替换构建产物"@),
            _ => false,
        },
        UpdateStage::Inspecting => match e {
            UpdateEvent::WorktreeDirty(false) => moved(s, t, UpdateStage::CheckingCancel, s.last_percent)
                && step_is(out, None) && out.action is CheckCancel,
            UpdateEvent::WorktreeDirty(true) => if s.create_stash {
                &&& moved(s, t, UpdateStage::Stashing, 25)
                &&& step_is(
                    out,
                    Some((
                        UpdatePhase::Stashing,
                        "创建本地修改备份"@,
                        Some("stash 将保留在 Harness Git 仓库中，更新不会自动删除它"@),
                        Some(25u8),
                        true,
                    )),
                )
                &&& runs_git(
                    out,
                    seq!["stash"@, "push"@, "--include-untracked"@, "-m"@, "DeepSeek-Desktop backup"@],
                    "创建备份 stash"@,
                )
            } else {
                aborts(s, t, out, dirty_message())
            },
            _ => false,
        },
        UpdateStage::Stashing => match e {
            UpdateEvent::StashFinished(Err(m)) => aborts(s, t, out, m@),
            UpdateEvent::StashFinished(Ok(output)) => if contains_seq(output@, "No local changes"@) {
                aborts(s, t, out, "Git 未能创建备份 stash，更新已中止"@)
            } else {
                moved(s, t, UpdateStage::CheckingCancel, s.last_percent) && step_is(out, None)
                    && out.action is CheckCancel
            },
            _ => false,
        },
        UpdateStage::CheckingCancel => match e {
            UpdateEvent::CancelRequested(true) => {
                &&& moved(s, t, UpdateStage::Failed, s.last_percent)
                &&& step_is(out, Some((UpdatePhase::Cancelled, "更新已取消"@, None, None, false)))
                &&& fails_with(out, "更新已取消"@)
            },
            UpdateEvent::CancelRequested(false) => moved(
                s,
                t,
                UpdateStage::ResolvingBranch,
                s.last_percent,
            ) && step_is(out, None) && out.action is ResolveBranch,
            _ => false,
        },
        UpdateStage::ResolvingBranch => match e {
            UpdateEvent::BranchResolved(Err(m)) => aborts(s, t, out, m@),
            UpdateEvent::BranchResolved(Ok(b)) => {
                &&& t.stage == UpdateStage::Fetching
                &&& t.was_running == s.was_running
                &&& t.create_stash == s.create_stash
                &&& t.branch@ == b@
                &&& t.last_percent == 32
                &&& step_is(
                    out,
                    Some((
                        UpdatePhase::Fetching,
                        "获取 Harness 上游 Git 更新"@,
                        Some("remote="@ + remote + ", branch="@ + b@),
                        Some(32u8),
                        true,
                    )),
                )
                &&& runs_git(out, seq!["fetch"@, "--prune"@, remote, b@], "git fetch"@)
            },
            _ => false,
        },
        UpdateStage::Fetching => match e {
            UpdateEvent::StepFinished(Err(m)) => aborts(s, t, out, m@),
            UpdateEvent::StepFinished(Ok(())) => {
                &&& moved(s, t, UpdateStage::FastForwarding, 42)
                &&& step_is(
                    out,
                    Some((UpdatePhase::FastForwarding, "仅执行 fast-forward 更新"@, None, Some(42u8), true)),
                )
                &&& runs_git(
                    out,
                    seq!["merge"@, "--ff-only"@, upstream_ref(remote, s.branch@)],
                    "git merge --ff-only"@,
                )
            },
            _ => false,
        },
        UpdateStage::FastForwarding => match e {
            UpdateEvent::StepFinished(Err(m)) => aborts(s, t, out, m@),
            UpdateEvent::StepFinished(Ok(())) => installs(c, s, t, out),
            _ => false,
        },
        UpdateStage::Installing => match e {
            UpdateEvent::StepFinished(Err(m)) => aborts(s, t, out, m@),
            UpdateEvent::StepFinished(Ok(())) => {
                &&& moved(s, t, UpdateStage::Cleaning, 68)
                &&& step_is(
                    out,
                    Some((
                        UpdatePhase::CleaningBuild,
                        "清理配置中指定的旧构建产物"@,
                        Some(joined(string_views(c.harness.clean_paths@), ", "@)),
                        Some(68u8),
                        true,
                    )),
                )
                &&& out.action matches UpdateAction::Clean(p) && string_views(p@) == string_views(
                    c.harness.clean_paths@,
                )
            },
            _ => false,
        },
        UpdateStage::Cleaning => match e {
            UpdateEvent::StepFinished(Err(m)) => aborts(s, t, out, m@),
            UpdateEvent::StepFinished(Ok(())) => builds(c, s, t, out),
            _ => false,
        },
        UpdateStage::Building => match e {
            UpdateEvent::StepFinished(Err(m)) => aborts(s, t, out, m@),
            UpdateEvent::StepFinished(Ok(())) => if s.was_running {
                &&& moved(s, t, UpdateStage::Restarting, 92)
                &&& step_is(
                    out,
                    Some((UpdatePhase::Restarting, "构建成功，重新启动 Harness"@, None, Some(92u8), true)),
                )
                &&& out.action is Restart
            } else {
                finishes(s, t, out)
            },
            _ => false,
        },
        UpdateStage::Restarting => match e {
            UpdateEvent::StepFinished(Err(m)) => aborts(s, t, out, m@),
            UpdateEvent::StepFinished(Ok(())) => finishes(s, t, out),
            _ => false,
        },
    }
}

/// How an update begins with the configuration `c` (checked as on Windows
/// when `windows`) and the user's choice `o`; `source_present` says whether
/// the checkout has a `.git`.
pub open spec fn update_start(
    c: AppConfig,
    windows: bool,
    o: UpdateOptions,
    source_present: bool,
    t: UpdateState,
    out: UpdateStep,
) -> bool {
    &&& t.was_running == false
    &&& t.create_stash == o.create_stash
    &&& t.branch@ == Seq::<char>::empty()
    &&& match config_error(c, windows) {
        Some(m) => t.stage == UpdateStage::Failed && t.last_percent == 0 && step_is(out, None)
            && fails_with(out, m),
        None => if !source_present {
            t.stage == UpdateStage::Failed && t.last_percent == 0 && step_is(out, None)
                && fails_with(out, "尚未安装 Harness 源码"@)
        } else {
            &&& t.stage == UpdateStage::Start
            &&& t.last_percent == 5
            &&& step_is(out, Some((UpdatePhase::Checking, "开始安全更新"@, None, Some(5u8), true)))
            &&& out.action is CheckService
        },
    }
}

// ---------------------------------------------------------------------
// The machine
// ---------------------------------------------------------------------

fn with_stage(s: &UpdateState, stage: UpdateStage, percent: u8) -> (t: UpdateState)
    ensures
        moved(*s, t, stage, percent),
{
    UpdateState {
        stage,
        was_running: s.was_running,
        create_stash: s.create_stash,
        branch: String::from_str(s.branch.as_str()),
        last_percent: percent,
    }
}

fn no_progress(action: UpdateAction) -> (out: UpdateStep)
    ensures
        out.progress is None,
        out.action == action,
{
    UpdateStep { progress: None, action }
}

fn abort(s: &UpdateState, message: String) -> (r: (UpdateState, UpdateStep))
    ensures
        aborts(*s, r.0, r.1, message@),
{
    (with_stage(s, UpdateStage::Failed, s.last_percent), no_progress(UpdateAction::Fail(message)))
}

fn git_action(args: Vec<&str>, label: &str) -> (a: UpdateAction)
    ensures
        a matches UpdateAction::RunGit(x, l) && string_views(x@) == args@.map_values(|v: &str| v@)
            && l@ == label@,
{
    UpdateAction::RunGit(strings_of(&args), String::from_str(label))
}

fn command_step(
    s: &UpdateState,
    stage: UpdateStage,
    percent: u8,
    progress: ProgressReport,
    command: &crate::models::CommandConfig,
    label: &str,
) -> (r: (UpdateState, UpdateStep))
    ensures
        r.1.progress == Some(progress),
        match command_error(command.program@, string_views(command.args@)) {
            Some(m) => moved(*s, r.0, UpdateStage::Failed, percent) && fails_with(r.1, m),
            None => moved(*s, r.0, stage, percent) && runs_command(
                r.1,
                command.program@,
                string_views(command.args@),
                label@,
            ),
        },
{
    match command_from(command) {
        Err(m) => (
            with_stage(s, UpdateStage::Failed, percent),
            UpdateStep { progress: Some(progress), action: UpdateAction::Fail(m) },
        ),
        Ok(spec) => (
            with_stage(s, stage, percent),
            UpdateStep {
                progress: Some(progress),
                action: UpdateAction::Run(spec, String::from_str(label)),
            },
        ),
    }
}

fn finish(s: &UpdateState) -> (r: (UpdateState, UpdateStep))
    ensures
        finishes(*s, r.0, r.1),
{
    (
        with_stage(s, UpdateStage::Done, 100),
        UpdateStep {
            progress: Some(report(UpdatePhase::Completed, "Harness 更新完成", None, Some(100), false)),
            action: UpdateAction::Finish,
        },
    )
}

fn inspect(s: &UpdateState) -> (r: (UpdateState, UpdateStep))
    ensures
        inspects(*s, r.0, r.1),
{
    (
        with_stage(s, UpdateStage::Inspecting, 20),
        UpdateStep {
            progress: Some(report(UpdatePhase::ValidatingWorkspace, "检查 Git 工作区", None, Some(20), true)),
            action: UpdateAction::InspectWorktree,
        },
    )
}

/// How an update begins: the configuration must pass validation and the
/// checkout must exist (`source_present`); then the update reports that it
/// starts and asks whether the service runs.
pub fn update_begin(config: &AppConfig, windows: bool, options: UpdateOptions, source_present: bool) -> (r: (
    UpdateState,
    UpdateStep,
))
    ensures
        update_start(*config, windows, options, source_present, r.0, r.1),
{
    let failed = UpdateState {
        stage: UpdateStage::Failed,
        was_running: false,
        create_stash: options.create_stash,
        branch: String::new(),
        last_percent: 0,
    };
    match validate_config(config, windows) {
        Err(m) => return (failed, no_progress(UpdateAction::Fail(m))),
        Ok(()) => {},
    }
    if !source_present {
        return (failed, no_progress(UpdateAction::Fail(String::from_str("尚未安装 Harness 源码"))));
    }
    (
        UpdateState {
            stage: UpdateStage::Start,
            was_running: false,
            create_stash: options.create_stash,
            branch: String::new(),
            last_percent: 5,
        },
        UpdateStep {
            progress: Some(report(UpdatePhase::Checking, "开始安全更新", None, Some(5), true)),
            action: UpdateAction::CheckService,
        },
    )
}

/// What the update does next, in the state `state`, having learnt `event`.
pub fn update_step(config: &AppConfig, state: &UpdateState, event: UpdateEvent) -> (r: (
    UpdateState,
    UpdateStep,
))
    requires
        event_fits(state.stage, event),
    ensures
        update_transition(*config, *state, event, r.0, r.1),
{
    let s = state;
    match s.stage {
        UpdateStage::Done | UpdateStage::Failed => (
            with_stage(s, s.stage, s.last_percent),
            no_progress(UpdateAction::Halt),
        ),
        UpdateStage::Start => match event {
            UpdateEvent::ServiceRunning(true) => {
                let t = UpdateState {
                    stage: UpdateStage::Stopping,
                    was_running: true,
                    create_stash: s.create_stash,
                    branch: String::from_str(s.branch.as_str()),
                    last_percent: 12,
                };
                (
                    t,
                    UpdateStep {
                        progress: Some(
                            report(UpdatePhase::Stopping, "停止 Harness 并确认端口释放", None, Some(12), true),
                        ),
                        action: UpdateAction::StopService,
                    },
                )
            },
            _ => {
                let t = UpdateState {
                    stage: UpdateStage::Inspecting,
                    was_running: false,
                    create_stash: s.create_stash,
                    branch: String::from_str(s.branch.as_str()),
                    last_percent: 20,
                };
                (
                    t,
                    UpdateStep {
                        progress: Some(
                            report(UpdatePhase::ValidatingWorkspace, "检查 Git 工作区", None, Some(20), true),
                        ),
                        action: UpdateAction::InspectWorktree,
                    },
                )
            },
        },
        UpdateStage::Stopping => match event {
            UpdateEvent::StopFinished(Err(m)) => abort(s, m),
            _ => (
                with_stage(s, UpdateStage::AwaitingPort, s.last_percent),
                no_progress(UpdateAction::AwaitPortRelease(config.harness.port)),
            ),
        },
        UpdateStage::AwaitingPort => match event {
            UpdateEvent::PortReleased(true) => inspect(s),
            _ => abort(s, String::from_str("服务端口仍被占用，未继续替换构建产物")),
        },
        UpdateStage::Inspecting => match event {
            UpdateEvent::WorktreeDirty(true) => {
                if s.create_stash {
                    let args = vec!["stash", "push", "--include-untracked", "-m", "DeepSeek-Desktop backup"];
                    assert(args@.map_values(|v: &str| v@) =~= seq![
                        "stash"@,
                        "push"@,
                        "--include-untracked"@,
                        "-m"@,
                        "DeepSeek-Desktop backup"@,
                    ]);
                    let action = git_action(args, "创建备份 stash");
                    (
                        with_stage(s, UpdateStage::Stashing, 25),
                        UpdateStep {
                            progress: Some(
                                report(
                                    UpdatePhase::Stashing,
                                    "创建本地修改备份",
                                    Some(String::from_str("stash 将保留在 Harness Git 仓库中，更新不会自动删除它")),
                                    Some(25),
                                    true,
                                ),
                            ),
                            action,
                        },
                    )
                } else {
                    abort(
                        s,
                        String::from_str(
                            "工作区存在本地修改或未跟踪文件。更新已中止；如需继续，请明确选择创建备份 stash",
                        ),
                    )
                }
            },
            _ => (
                with_stage(s, UpdateStage::CheckingCancel, s.last_percent),
                no_progress(UpdateAction::CheckCancel),
            ),
        },
        UpdateStage::Stashing => match event {
            UpdateEvent::StashFinished(Ok(output)) => {
                let text = chars_of(output.as_str());
                let needle = chars_of("No local changes");
                proof {
                    lemma_find(text@, needle@);
                }
                assert(text@.subrange(0, text@.len() as int) =~= text@);
                let found = find_from(&text, &needle, 0).is_some();
                assert(found == contains_seq(output@, "No local changes"@));
                if found {
                    abort(s, String::from_str("Git 未能创建备份 stash，更新已中止"))
                } else {
                    (
                        with_stage(s, UpdateStage::CheckingCancel, s.last_percent),
                        no_progress(UpdateAction::CheckCancel),
                    )
                }
            },
            UpdateEvent::StashFinished(Err(m)) => abort(s, m),
            _ => abort(s, String::new()),
        },
        UpdateStage::CheckingCancel => match event {
            UpdateEvent::CancelRequested(true) => (
                with_stage(s, UpdateStage::Failed, s.last_percent),
                UpdateStep {
                    progress: Some(report(UpdatePhase::Cancelled, "更新已取消", None, None, false)),
                    action: UpdateAction::Fail(String::from_str("更新已取消")),
                },
            ),
            _ => (
                with_stage(s, UpdateStage::ResolvingBranch, s.last_percent),
                no_progress(UpdateAction::ResolveBranch),
            ),
        },
        UpdateStage::ResolvingBranch => match event {
            UpdateEvent::BranchResolved(Ok(b)) => {
                let remote = config.update.remote_name.as_str();
                let mut detail = String::from_str("remote=");
                detail.append(remote);
                detail.append(", branch=");
                detail.append(b.as_str());
                let args = vec!["fetch", "--prune", remote, b.as_str()];
                assert(args@.map_values(|v: &str| v@) =~= seq![
                    "fetch"@,
                    "--prune"@,
                    config.update.remote_name@,
                    b@,
                ]);
                let action = git_action(args, "git fetch");
                let t = UpdateState {
                    stage: UpdateStage::Fetching,
                    was_running: s.was_running,
                    create_stash: s.create_stash,
                    branch: b,
                    last_percent: 32,
                };
                (
                    t,
                    UpdateStep {
                        progress: Some(
                            report(UpdatePhase::Fetching, "获取 Harness 上游 Git 更新", Some(detail), Some(32), true),
                        ),
                        action,
                    },
                )
            },
            UpdateEvent::BranchResolved(Err(m)) => abort(s, m),
            _ => abort(s, String::new()),
        },
        UpdateStage::Fetching => match event {
            UpdateEvent::StepFinished(Err(m)) => abort(s, m),
            _ => {
                let mut upstream = String::from_str("refs/remotes/");
                upstream.append(config.update.remote_name.as_str());
                upstream.append("/");
                upstream.append(s.branch.as_str());
                let args = vec!["merge", "--ff-only", upstream.as_str()];
                assert(args@.map_values(|v: &str| v@) =~= seq![
                    "merge"@,
                    "--ff-only"@,
                    upstream_ref(config.update.remote_name@, s.branch@),
                ]);
                let action = git_action(args, "git merge --ff-only");
                (
                    with_stage(s, UpdateStage::FastForwarding, 42),
                    UpdateStep {
                        progress: Some(
                            report(UpdatePhase::FastForwarding, "仅执行 fast-forward 更新", None, Some(42), true),
                        ),
                        action,
                    },
                )
            },
        },
        UpdateStage::FastForwarding => match event {
            UpdateEvent::StepFinished(Err(m)) => abort(s, m),
            _ => command_step(
                s,
                UpdateStage::Installing,
                55,
                report(UpdatePhase::InstallingDependencies, "安装锁定依赖", None, Some(55), true),
                &config.harness.install_command,
                "安装 Harness 依赖",
            ),
        },
        UpdateStage::Installing => match event {
            UpdateEvent::StepFinished(Err(m)) => abort(s, m),
            _ => {
                let detail = join_strings(&config.harness.clean_paths, ", ");
                let paths = crate::command::copy_strings(&config.harness.clean_paths);
                (
                    with_stage(s, UpdateStage::Cleaning, 68),
                    UpdateStep {
                        progress: Some(
                            report(
                                UpdatePhase::CleaningBuild,
                                "清理配置中指定的旧构建产物",
                                Some(detail),
                                Some(68),
                                true,
                            ),
                        ),
                        action: UpdateAction::Clean(paths),
                    },
                )
            },
        },
        UpdateStage::Cleaning => match event {
            UpdateEvent::StepFinished(Err(m)) => abort(s, m),
            _ => command_step(
                s,
                UpdateStage::Building,
                78,
                report(UpdatePhase::Building, "重新构建 Harness", None, Some(78), true),
                &config.harness.build_command,
                "构建 Harness",
            ),
        },
        UpdateStage::Building => match event {
            UpdateEvent::StepFinished(Err(m)) => abort(s, m),
            _ => {
                if s.was_running {
                    (
                        with_stage(s, UpdateStage::Restarting, 92),
                        UpdateStep {
                            progress: Some(
                                report(UpdatePhase::Restarting, "构建成功，重新启动 Harness", None, Some(92), true),
                            ),
                            action: UpdateAction::Restart,
                        },
                    )
                } else {
                    finish(s)
                }
            },
        },
        UpdateStage::Restarting => match event {
            UpdateEvent::StepFinished(Err(m)) => abort(s, m),
            _ => finish(s),
        },
    }
}

// ---------------------------------------------------------------------
// Laws of the update
// ---------------------------------------------------------------------

/// Whether `e` reports that a step failed.
pub open spec fn reports_error(e: UpdateEvent) -> bool {
    ||| e matches UpdateEvent::StopFinished(Err(_))
    ||| e matches UpdateEvent::StashFinished(Err(_))
    ||| e matches UpdateEvent::BranchResolved(Err(_))
    ||| e matches UpdateEvent::StepFinished(Err(_))
}

/// Whether the stage `b` may follow the stage `a` in an update that has
/// not failed: the documented order of the update.
pub open spec fn follows(a: UpdateStage, b: UpdateStage, was_running: bool) -> bool {
    match a {
        UpdateStage::Start => b == UpdateStage::Stopping || b == UpdateStage::Inspecting,
        UpdateStage::Stopping => b == UpdateStage::AwaitingPort,
        UpdateStage::AwaitingPort => b == UpdateStage::Inspecting,
        UpdateStage::Inspecting => b == UpdateStage::Stashing || b == UpdateStage::CheckingCancel,
        UpdateStage::Stashing => b == UpdateStage::CheckingCancel,
        UpdateStage::CheckingCancel => b == UpdateStage::ResolvingBranch,
        UpdateStage::ResolvingBranch => b == UpdateStage::Fetching,
        UpdateStage::Fetching => b == UpdateStage::FastForwarding,
        UpdateStage::FastForwarding => b == UpdateStage::Installing,
        UpdateStage::Installing => b == UpdateStage::Cleaning,
        UpdateStage::Cleaning => b == UpdateStage::Building,
        UpdateStage::Building => if was_running {
            b == UpdateStage::Restarting
        } else {
            b == UpdateStage::Done
        },
        UpdateStage::Restarting => b == UpdateStage::Done,
        UpdateStage::Done | UpdateStage::Failed => b == a,
    }
}

/// The percentages that an update in each stage has last reported.
pub open spec fn percent_fits(s: UpdateState) -> bool {
    match s.stage {
        UpdateStage::Start => s.last_percent == 5,
        UpdateStage::Stopping | UpdateStage::AwaitingPort => s.last_percent == 12,
        UpdateStage::Inspecting => s.last_percent == 20,
        UpdateStage::Stashing => s.last_percent == 25,
        UpdateStage::CheckingCancel | UpdateStage::ResolvingBranch => 20 <= s.last_percent <= 25,
        UpdateStage::Fetching => s.last_percent == 32,
        UpdateStage::FastForwarding => s.last_percent == 42,
        UpdateStage::Installing => s.last_percent == 55,
        UpdateStage::Cleaning => s.last_percent == 68,
        UpdateStage::Building => s.last_percent == 78,
        UpdateStage::Restarting => s.last_percent == 92,
        UpdateStage::Done => s.last_percent == 100,
        UpdateStage::Failed => s.last_percent <= 100,
    }
}

/// An update follows the documented order: stop the service, confirm its
/// port is free, check the worktree (stashing only on request), fetch,
/// fast-forward, install, clean, build, and restart only when the service
/// ran before; a step that does not fail moves to the next stage only.
pub proof fn law_update_follows_documented_order(
    c: AppConfig,
    s: UpdateState,
    e: UpdateEvent,
    t: UpdateState,
    out: UpdateStep,
)
    requires
        update_transition(c, s, e, t, out),
        s.stage == UpdateStage::Start ==> !s.was_running,
    ensures
        t.stage == UpdateStage::Failed || follows(s.stage, t.stage, t.was_running),
        s.stage != UpdateStage::Start ==> t.was_running == s.was_running,
{
}

/// Any failed step ends the update: a reported error leads to the failed
/// stage, which is never left again and starts no further work.
pub proof fn law_failure_stops_later_steps(
    c: AppConfig,
    s: UpdateState,
    e: UpdateEvent,
    t: UpdateState,
    out: UpdateStep,
)
    requires
        update_transition(c, s, e, t, out),
    ensures
        reports_error(e) && s.stage != UpdateStage::Done ==> t.stage == UpdateStage::Failed
            && (s.stage == UpdateStage::Failed ==> out.action is Halt) && (s.stage
            != UpdateStage::Failed ==> out.action is Fail),
        s.stage == UpdateStage::Failed ==> t.stage == UpdateStage::Failed && out.action is Halt,
        s.stage == UpdateStage::Done ==> t.stage == UpdateStage::Done && out.action is Halt,
{
}

/// Local changes abort the update unless the user asked for a backup
/// stash; with it, the stash is made before anything else happens.
pub proof fn law_local_changes_need_backup_stash(
    c: AppConfig,
    s: UpdateState,
    t: UpdateState,
    out: UpdateStep,
)
    requires
        s.stage == UpdateStage::Inspecting,
        update_transition(c, s, UpdateEvent::WorktreeDirty(true), t, out),
    ensures
        !s.create_stash ==> t.stage == UpdateStage::Failed && fails_with(out, dirty_message()),
        s.create_stash ==> t.stage == UpdateStage::Stashing && runs_git(
            out,
            seq!["stash"@, "push"@, "--include-untracked"@, "-m"@, "DeepSeek-Desktop backup"@],
            "创建备份 stash"@,
        ),
{
}

/// The service is restarted only after a successful build, and only when
/// it was running before the update.
pub proof fn law_restart_only_after_successful_build(
    c: AppConfig,
    s: UpdateState,
    e: UpdateEvent,
    t: UpdateState,
    out: UpdateStep,
)
    requires
        update_transition(c, s, e, t, out),
        out.action is Restart,
    ensures
        s.stage == UpdateStage::Building,
        s.was_running,
        e matches UpdateEvent::StepFinished(Ok(_)),
{
}

/// The reported percentage only rises: every step keeps the percentage of
/// its stage, and each percentage it reports is above the last one.
pub proof fn law_progress_only_rises(
    c: AppConfig,
    s: UpdateState,
    e: UpdateEvent,
    t: UpdateState,
    out: UpdateStep,
)
    requires
        percent_fits(s),
        update_transition(c, s, e, t, out),
    ensures
        percent_fits(t),
        s.last_percent <= t.last_percent,
        (out.progress is Some && out.progress->0.percent is Some) ==> s.last_percent
            < out.progress->0.percent->0 && out.progress->0.percent->0 == t.last_percent,
{
}

/// Whether `args` are those of a Git command that keeps local work: a
/// backup `stash push`, a `fetch --prune`, or a `merge --ff-only`.
pub open spec fn keeps_local_work(args: Seq<Seq<char>>) -> bool {
    &&& args.len() >= 2
    &&& {
        ||| args[0] == "stash"@ && args[1] == "push"@
        ||| args[0] == "fetch"@ && args[1] == "--prune"@
        ||| args[0] == "merge"@ && args[1] == "--ff-only"@
    }
}

/// An update runs no Git command that could lose local work (no reset, no
/// forced checkout, no stash pop), and runs no other program than the
/// configured install and build commands.
pub proof fn law_update_runs_only_safe_commands(
    c: AppConfig,
    s: UpdateState,
    e: UpdateEvent,
    t: UpdateState,
    out: UpdateStep,
)
    requires
        update_transition(c, s, e, t, out),
    ensures
        out.action matches UpdateAction::RunGit(a, _) ==> keeps_local_work(string_views(a@)),
        out.action matches UpdateAction::Run(spec, _) ==> {
            ||| spec.program@ == trim(c.harness.install_command.program@) && string_views(spec.args@)
                == string_views(c.harness.install_command.args@)
            ||| spec.program@ == trim(c.harness.build_command.program@) && string_views(spec.args@)
                == string_views(c.harness.build_command.args@)
        },
{
}

/// An update begins in a stage whose percentage fits, and an invalid
/// configuration or a missing checkout fails it before any work.
pub proof fn law_update_begins_safely(
    c: AppConfig,
    windows: bool,
    o: UpdateOptions,
    source_present: bool,
    t: UpdateState,
    out: UpdateStep,
)
    requires
        update_start(c, windows, o, source_present, t, out),
    ensures
        percent_fits(t),
        !t.was_running,
        (config_error(c, windows) is Some || !source_present) ==> t.stage == UpdateStage::Failed
            && out.action is Fail,
        (config_error(c, windows) is None && source_present) ==> t.stage == UpdateStage::Start,
{
}

} // verus!
