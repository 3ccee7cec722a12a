//! Starting the Harness service, as a state machine. A start is refused
//! while the service or a left-over one runs, when the configuration is
//! invalid, when the checkout or a tool is missing, or when the port is
//! taken; missing build output is prepared first. Once spawned, the service
//! must open its port in time, or the start fails with the reason.
use vstd::prelude::*;
use crate::command::{CommandSpec, command_from};
use crate::models::{AppConfig, DependencyStatus, UpdatePhase, string_views};
use crate::process::{start_failure_message, start_failure_text};
use crate::progress::{ProgressReport, report, reports};
use crate::text::{decimal, push_decimal, trim};
use crate::validation::{command_error, config_error, validate_config};
use crate::versions::first_unavailable;

verus! {

/// Where a start stands.
#[derive(Debug, Clone, Copy, PartialEq, Eq, Structural)]
pub enum StartStage {
    /// Waiting to learn whether a service runs.
    CheckingService,
    /// Waiting to learn whether the checkout exists.
    CheckingSource,
    /// Waiting for the tool statuses.
    CheckingDependencies,
    /// Waiting to learn whether the build output exists.
    CheckingArtifacts,
    /// Waiting for the preparation (install and build).
    Preparing,
    /// Waiting to learn whether the port is taken.
    CheckingPort,
    /// Waiting for the process to be spawned.
    Spawning,
    /// Waiting to learn whether the service opened its port.
    AwaitingReady,
    /// The service is up.
    Ready,
    /// The start failed.
    Failed,
}

/// The state of a start; `pid` is known once the process is spawned.
#[derive(Debug, Clone, Copy, PartialEq, Eq)]
pub struct StartState {
    pub stage: StartStage,
    pub pid: u32,
}

/// What the application reports back.
#[derive(Debug)]
pub enum StartEvent {
    /// Whether the service started here runs, and whether a left-over one
    /// does.
    ServiceState { running: bool, orphan: bool },
    /// Whether the checkout (with its `.git`) exists.
    SourcePresent(bool),
    /// The status of each tool.
    Dependencies(Vec<DependencyStatus>),
    /// Whether the build output exists.
    ArtifactsPresent(bool),
    /// The preparation finished, or why not.
    PrepareFinished(Result<(), String>),
    /// Whether something listens on the port.
    PortInUse(bool),
    /// The pid of the spawned process, or why it could not be spawned.
    Spawned(Result<u32, String>),
    /// Whether the port opened in time, and whether the process exited.
    ReadyChecked { ready: bool, exited: bool },
}

/// What the application is to do next.
#[derive(Debug, Clone, PartialEq)]
pub enum StartAction {
    CheckService,
    CheckSource,
    CheckDependencies,
    CheckArtifacts,
    /// Install the dependencies and build first.
    Prepare,
    CheckPort,
    /// Spawn this command in the checkout.
    Spawn(CommandSpec),
    /// Record the spawned service and wait for its port.
    AwaitReady,
    /// Record the service as ready.
    Succeed,
    /// Report that the service did not come up with this message; forget
    /// the recorded process when it exited.
    FailStart { message: String, clear_record: bool },
    /// Report this error.
    Fail(String),
    /// Nothing more.
    Halt,
}

/// A line to log and a progress report (each if any), then an action.
#[derive(Debug, Clone, PartialEq)]
pub struct StartStep {
    pub log: Option<String>,
    pub progress: Option<ProgressReport>,
    pub action: StartAction,
}

/// Whether `e` is what the stage `s` waits for.
pub open spec fn start_event_fits(s: StartStage, e: StartEvent) -> bool {
    match s {
        StartStage::CheckingService => e is ServiceState,
        StartStage::CheckingSource => e is SourcePresent,
        StartStage::CheckingDependencies => e is Dependencies,
        StartStage::CheckingArtifacts => e is ArtifactsPresent,
        StartStage::Preparing => e is PrepareFinished,
        StartStage::CheckingPort => e is PortInUse,
        StartStage::Spawning => e is Spawned,
        StartStage::AwaitingReady => e is ReadyChecked,
        StartStage::Ready | StartStage::Failed => true,
    }
}

/// Whether `e` is what the stage `s` waits for.
pub fn start_event_fits_exec(s: StartStage, e: &StartEvent) -> (b: bool)
    ensures
        b == start_event_fits(s, *e),
{
    match s {
        StartStage::CheckingService => matches!(e, StartEvent::ServiceState { .. }),
        StartStage::CheckingSource => matches!(e, StartEvent::SourcePresent(_)),
        StartStage::CheckingDependencies => matches!(e, StartEvent::Dependencies(_)),
        StartStage::CheckingArtifacts => matches!(e, StartEvent::ArtifactsPresent(_)),
        StartStage::Preparing => matches!(e, StartEvent::PrepareFinished(_)),
        StartStage::CheckingPort => matches!(e, StartEvent::PortInUse(_)),
        StartStage::Spawning => matches!(e, StartEvent::Spawned(_)),
        StartStage::AwaitingReady => matches!(e, StartEvent::ReadyChecked { .. }),
        StartStage::Ready | StartStage::Failed => true,
    }
}

/// The message for a tool that is not available, under `prefix`.
pub open spec fn unavailable_text(prefix: Seq<char>, d: DependencyStatus) -> Seq<char> {
    prefix + d.name@ + " 不可用。"@ + d.suggestion@
}

/// The message for a tool that is not available, under `prefix`.
pub fn unavailable_message(prefix: &str, d: &DependencyStatus) -> (m: String)
    ensures
        m@ == unavailable_text(prefix@, *d),
{
    let mut m = String::from_str(prefix);
    m.append(d.name.as_str());
    m.append(" 不可用。");
    m.append(d.suggestion.as_str());
    m
}

/// The first tool in `ds` that is not available, if any.
pub open spec fn first_missing(ds: Seq<DependencyStatus>) -> Option<DependencyStatus> {
    if exists|i: int| 0 <= i < ds.len() && !(#[trigger] ds[i]).available {
        let i = choose|i: int|
            0 <= i < ds.len() && !(#[trigger] ds[i]).available && forall|j: int|
                0 <= j < i ==> ds[j].available;
        Some(ds[i])
    } else {
        None
    }
}

/// The first missing tool, as `first_unavailable` finds it.
pub proof fn lemma_first_missing(ds: Seq<DependencyStatus>, k: int)
    requires
        0 <= k < ds.len(),
        !ds[k].available,
        forall|j: int| 0 <= j < k ==> ds[j].available,
    ensures
        first_missing(ds) == Some(ds[k]),
{
    assert(!(ds[k]).available);
    let i = choose|i: int|
        0 <= i < ds.len() && !(#[trigger] ds[i]).available && forall|j: int|
            0 <= j < i ==> ds[j].available;
    if i < k {
        assert(ds[i].available);
    } else if i > k {
        assert(ds[k].available);
    }
}

/// The message for a port that is taken.
pub open spec fn port_taken_text(port: u16) -> Seq<char> {
    "端口 "@ + decimal(port as nat) + " 已被占用，请修改端口或停止占用它的服务"@
}

/// Whether the step does nothing but report the error `m`.
pub open spec fn start_fails_with(out: StartStep, m: Seq<char>) -> bool {
    &&& out.log is None
    &&& out.progress is None
    &&& out.action matches StartAction::Fail(x) && x@ == m
}

/// Whether the step only carries out `a`.
pub open spec fn start_does(out: StartStep, a: StartAction) -> bool {
    out.log is None && out.progress is None && out.action == a
}

/// What a start does in the state `s` on learning `e`, with the
/// configuration `c`.
pub open spec fn start_transition(c: AppConfig, windows: bool, s: StartState, e: StartEvent, t: StartState, out: StartStep) -> bool {
    let port = c.harness.port;
    let cmd = c.harness.start_command;
    match s.stage {
        StartStage::Ready | StartStage::Failed => t == s && start_does(out, StartAction::Halt),
        StartStage::CheckingService => match e {
            StartEvent::ServiceState { running, orphan } => if running {
                t.stage == StartStage::Failed && start_fails_with(out, "Harness 已在运行"@)
            } else if orphan {
                t.stage == StartStage::Failed && start_fails_with(
                    out,
                    "发现由上一次运行遗留的 Harness 进程，请先确认并停止它"@,
                )
            } else {
                match config_error(c, windows) {
                    Some(m) => t.stage == StartStage::Failed && start_fails_with(out, m),
                    None => t.stage == StartStage::CheckingSource && start_does(
                        out,
                        StartAction::CheckSource,
                    ),
                }
            },
            _ => false,
        },
        StartStage::CheckingSource => match e {
            StartEvent::SourcePresent(false) => t.stage == StartStage::Failed && start_fails_with(
                out,
                "找不到 Harness 源码，请先完成首次安装"@,
            ),
            StartEvent::SourcePresent(true) => t.stage == StartStage::CheckingDependencies
                && start_does(out, StartAction::CheckDependencies),
            _ => false,
        },
        StartStage::CheckingDependencies => match e {
            StartEvent::Dependencies(ds) => match first_missing(ds@) {
                Some(d) => t.stage == StartStage::Failed && start_fails_with(
                    out,
                    unavailable_text("无法启动 Harness："@, d),
                ),
                None => t.stage == StartStage::CheckingArtifacts && start_does(
                    out,
                    StartAction::CheckArtifacts,
                ),
            },
            _ => false,
        },
        StartStage::CheckingArtifacts => match e {
            StartEvent::ArtifactsPresent(true) => t.stage == StartStage::CheckingPort && start_does(
                out,
                StartAction::CheckPort,
            ),
            StartEvent::ArtifactsPresent(false) => {
                &&& t.stage == StartStage::Preparing
                &&& out.log matches Some(l) && l@ == "未找到 Harness 构建产物，启动前自动安装依赖并构建"@
                &&& out.progress is None
                &&& out.action is Prepare
            },
            _ => false,
        },
        StartStage::Preparing => match e {
            StartEvent::PrepareFinished(Err(m)) => t.stage == StartStage::Failed && start_fails_with(
                out,
                m@,
            ),
            StartEvent::PrepareFinished(Ok(())) => t.stage == StartStage::CheckingPort && start_does(
                out,
                StartAction::CheckPort,
            ),
            _ => false,
        },
        StartStage::CheckingPort => match e {
            StartEvent::PortInUse(true) => t.stage == StartStage::Failed && start_fails_with(
                out,
                port_taken_text(port),
            ),
            StartEvent::PortInUse(false) => match command_error(cmd.program@, string_views(cmd.args@)) {
                Some(m) => t.stage == StartStage::Failed && start_fails_with(out, m),
                None => {
                    &&& t.stage == StartStage::Spawning
                    &&& out.log is None
                    &&& out.progress is None
                    &&& out.action matches StartAction::Spawn(spec) && spec.program@ == trim(
                        cmd.program@,
                    ) && string_views(spec.args@) == string_views(cmd.args@)
                },
            },
            _ => false,
        },
        StartStage::Spawning => match e {
            StartEvent::Spawned(Err(m)) => t.stage == StartStage::Failed && start_fails_with(
                out,
                "启动 Harness 失败: "@ + m@,
            ),
            StartEvent::Spawned(Ok(pid)) => {
                &&& t.stage == StartStage::AwaitingReady
                &&& t.pid == pid
                &&& out.log matches Some(l) && l@ == "Harness 已启动，PID "@ + decimal(pid as nat)
                    + "，等待端口 "@ + decimal(port as nat)
                &&& out.progress is None
                &&& out.action is AwaitReady
            },
            _ => false,
        },
        StartStage::AwaitingReady => match e {
            StartEvent::ReadyChecked { ready, exited } => if ready {
                &&& t.stage == StartStage::Ready
                &&& t.pid == s.pid
                &&& out.log is None
                &&& out.progress matches Some(p) && reports(
                    p,
                    UpdatePhase::Completed,
                    "Harness Web 服务已就绪"@,
                    Some("PID "@ + decimal(s.pid as nat) + "，端口 "@ + decimal(port as nat)),
                    Some(100u8),
                    false,
                )
                &&& out.action is Succeed
            } else {
                &&& t.stage == StartStage::Failed
                &&& t.pid == s.pid
                &&& out.log matches Some(l) && l@ == start_failure_text(port, exited)
                &&& out.progress matches Some(p) && reports(
                    p,
                    UpdatePhase::Failed,
                    "Harness 启动失败，Web 端口未就绪"@,
                    Some("PID "@ + decimal(s.pid as nat)),
                    None,
                    false,
                )
                &&& out.action matches StartAction::FailStart { message, clear_record }
                    && message@ == start_failure_text(port, exited) && clear_record == exited
            },
            _ => false,
        },
    }
}

fn start_fail(message: String) -> (r: (StartState, StartStep))
    ensures
        r.0.stage == StartStage::Failed,
        start_fails_with(r.1, message@),
{
    (
        StartState { stage: StartStage::Failed, pid: 0 },
        StartStep { log: None, progress: None, action: StartAction::Fail(message) },
    )
}

fn start_go(stage: StartStage, action: StartAction) -> (r: (StartState, StartStep))
    ensures
        r.0.stage == stage,
        r.0.pid == 0,
        start_does(r.1, action),
{
    (StartState { stage, pid: 0 }, StartStep { log: None, progress: None, action })
}

/// How a start begins: by asking whether a service runs.
pub fn start_begin() -> (r: (StartState, StartStep))
    ensures
        r.0.stage == StartStage::CheckingService,
        r.0.pid == 0,
        start_does(r.1, StartAction::CheckService),
{
    start_go(StartStage::CheckingService, StartAction::CheckService)
}

/// What a start does next, in the state `s`, having learnt `e`.
pub fn start_step(config: &AppConfig, windows: bool, s: StartState, e: StartEvent) -> (r: (StartState, StartStep))
    requires
        start_event_fits(s.stage, e),
    ensures
        start_transition(*config, windows, s, e, r.0, r.1),
{
    let port = config.harness.port;
    match s.stage {
        StartStage::Ready | StartStage::Failed => (
            s,
            StartStep { log: None, progress: None, action: StartAction::Halt },
        ),
        StartStage::CheckingService => match e {
            StartEvent::ServiceState { running, orphan } => {
                if running {
                    start_fail(String::from_str("Harness 已在运行"))
                } else if orphan {
                    start_fail(String::from_str("发现由上一次运行遗留的 Harness 进程，请先确认并停止它"))
                } else {
                    match validate_config(config, windows) {
                        Err(m) => start_fail(m),
                        Ok(()) => start_go(StartStage::CheckingSource, StartAction::CheckSource),
                    }
                }
            },
            _ => start_fail(String::new()),
        },
        StartStage::CheckingSource => match e {
            StartEvent::SourcePresent(true) => start_go(
                StartStage::CheckingDependencies,
                StartAction::CheckDependencies,
            ),
            _ => start_fail(String::from_str("找不到 Harness 源码，请先完成首次安装")),
        },
        StartStage::CheckingDependencies => match e {
            StartEvent::Dependencies(ds) => match first_unavailable(&ds) {
                Some(i) => {
                    proof {
                        lemma_first_missing(ds@, i as int);
                    }
                    start_fail(unavailable_message("无法启动 Harness：", &ds[i]))
                },
                None => {
                    assert(first_missing(ds@) is None) by {
                        if exists|i: int| 0 <= i < ds@.len() && !(#[trigger] ds@[i]).available {
                            let i = choose|i: int| 0 <= i < ds@.len() && !(#[trigger] ds@[i]).available;
                            assert(ds@[i].available);
                        }
                    }
                    start_go(StartStage::CheckingArtifacts, StartAction::CheckArtifacts)
                },
            },
            _ => start_fail(String::new()),
        },
        StartStage::CheckingArtifacts => match e {
            StartEvent::ArtifactsPresent(true) => start_go(StartStage::CheckingPort, StartAction::CheckPort),
            _ => (
                StartState { stage: StartStage::Preparing, pid: 0 },
                StartStep {
                    log: Some(String::from_str("未找到 Harness 构建产物，启动前自动安装依赖并构建")),
                    progress: None,
                    action: StartAction::Prepare,
                },
            ),
        },
        StartStage::Preparing => match e {
            StartEvent::PrepareFinished(Err(m)) => start_fail(m),
            _ => start_go(StartStage::CheckingPort, StartAction::CheckPort),
        },
        StartStage::CheckingPort => match e {
            StartEvent::PortInUse(true) => {
                let mut m = String::from_str("端口 ");
                push_decimal(&mut m, port as u64);
                m.append(" 已被占用，请修改端口或停止占用它的服务");
                start_fail(m)
            },
            _ => match command_from(&config.harness.start_command) {
                Err(m) => start_fail(m),
                Ok(spec) => start_go(StartStage::Spawning, StartAction::Spawn(spec)),
            },
        },
        StartStage::Spawning => match e {
            StartEvent::Spawned(Ok(pid)) => {
                let mut l = String::from_str("Harness 已启动，PID ");
                push_decimal(&mut l, pid as u64);
                l.append("，等待端口 ");
                push_decimal(&mut l, port as u64);
                (
                    StartState { stage: StartStage::AwaitingReady, pid },
                    StartStep { log: Some(l), progress: None, action: StartAction::AwaitReady },
                )
            },
            StartEvent::Spawned(Err(m)) => start_fail(crate::text::concat2("启动 Harness 失败: ", m.as_str())),
            _ => start_fail(String::new()),
        },
        StartStage::AwaitingReady => match e {
            StartEvent::ReadyChecked { ready, exited } => {
                if ready {
                    let mut d = String::from_str("PID ");
                    push_decimal(&mut d, s.pid as u64);
                    d.append("，端口 ");
                    push_decimal(&mut d, port as u64);
                    (
                        StartState { stage: StartStage::Ready, pid: s.pid },
                        StartStep {
                            log: None,
                            progress: Some(
                                report(UpdatePhase::Completed, "Harness Web 服务已就绪", Some(d), Some(100), false),
                            ),
                            action: StartAction::Succeed,
                        },
                    )
                } else {
                    let message = start_failure_message(port, exited);
                    let log = start_failure_message(port, exited);
                    let mut d = String::from_str("PID ");
                    push_decimal(&mut d, s.pid as u64);
                    (
                        StartState { stage: StartStage::Failed, pid: s.pid },
                        StartStep {
                            log: Some(log),
                            progress: Some(
                                report(UpdatePhase::Failed, "Harness 启动失败，Web 端口未就绪", Some(d), None, false),
                            ),
                            action: StartAction::FailStart { message, clear_record: exited },
                        },
                    )
                }
            },
            _ => start_fail(String::new()),
        },
    }
}

/// A start never goes on while the service, or a service left over from an
/// earlier run, is running.
pub proof fn law_no_second_service(
    c: AppConfig,
    windows: bool,
    s: StartState,
    running: bool,
    orphan: bool,
    t: StartState,
    out: StartStep,
)
    requires
        s.stage == StartStage::CheckingService,
        running || orphan,
        start_transition(c, windows, s, StartEvent::ServiceState { running, orphan }, t, out),
    ensures
        t.stage == StartStage::Failed,
        out.action is Fail,
{
}

/// A process is spawned only once the port was found free, and only with
/// the configured start command.
pub proof fn law_spawn_only_on_free_port(
    c: AppConfig,
    windows: bool,
    s: StartState,
    e: StartEvent,
    t: StartState,
    out: StartStep,
)
    requires
        start_transition(c, windows, s, e, t, out),
        out.action is Spawn,
    ensures
        s.stage == StartStage::CheckingPort,
        e matches StartEvent::PortInUse(false),
        command_error(c.harness.start_command.program@, string_views(c.harness.start_command.args@))
            is None,
{
}

/// A service whose port did not open fails the start with a message that
/// says whether its process exited, and its record is dropped exactly when
/// it exited.
pub proof fn law_failed_start_explains_itself(
    c: AppConfig,
    windows: bool,
    s: StartState,
    exited: bool,
    t: StartState,
    out: StartStep,
)
    requires
        s.stage == StartStage::AwaitingReady,
        start_transition(c, windows, s, StartEvent::ReadyChecked { ready: false, exited }, t, out),
    ensures
        t.stage == StartStage::Failed,
        out.action matches StartAction::FailStart { message, clear_record } && message@
            == start_failure_text(c.harness.port, exited) && clear_record == exited,
{
}

} // verus!
