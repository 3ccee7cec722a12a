//! Stopping the Harness service, as a state machine: an interrupt to the
//! process group, a wait for the process to end and its port to close,
//! then a termination request only if needed, and a second wait. If the
//! service still runs after that, stopping fails and leaves it for
//! inspection; nothing stronger is ever sent.
use vstd::prelude::*;
use crate::process::StopSignal;
use crate::text::{decimal, push_decimal};

verus! {

/// Where stopping stands.
#[derive(Debug, Clone, Copy, PartialEq, Eq, Structural)]
pub enum StopStage {
    /// Waiting for the signal to be sent.
    Signalling(StopSignal),
    /// Waiting for the service to end after the signal.
    Waiting(StopSignal),
    /// The service ended.
    Stopped,
    /// Stopping failed.
    Failed,
}

/// The state of stopping the service with process id `pid` on `port`.
#[derive(Debug, Clone, Copy, PartialEq, Eq)]
pub struct StopState {
    pub stage: StopStage,
    pub pid: u32,
    pub port: u16,
}

/// What the application reports back.
#[derive(Debug)]
pub enum StopEvent {
    /// The signal was sent, or why not.
    SignalSent(Result<(), String>),
    /// Whether the service ended within the wait, or why that could not be
    /// told.
    WaitFinished(Result<bool, String>),
}

/// What the application is to do next.
#[derive(Debug, Clone, PartialEq)]
pub enum StopAction {
    /// Send this signal to the service.
    Signal(StopSignal),
    /// Wait up to this many seconds for the service to end and its port to
    /// close.
    Wait(u64),
    /// Record the service as stopped.
    Finish,
    /// Report that stopping failed with this error.
    Fail(String),
    /// Nothing more.
    Halt,
}

/// A line to log (if any), then an action.
#[derive(Debug, Clone, PartialEq)]
pub struct StopStep {
    pub log: Option<String>,
    pub action: StopAction,
}

/// Whether `e` is what the stage `s` waits for.
pub open spec fn stop_event_fits(s: StopStage, e: StopEvent) -> bool {
    match s {
        StopStage::Signalling(_) => e is SignalSent,
        StopStage::Waiting(_) => e is WaitFinished,
        StopStage::Stopped | StopStage::Failed => true,
    }
}

/// Whether `e` is what the stage `s` waits for.
pub fn stop_event_fits_exec(s: StopStage, e: &StopEvent) -> (b: bool)
    ensures
        b == stop_event_fits(s, *e),
{
    match s {
        StopStage::Signalling(_) => matches!(e, StopEvent::SignalSent(_)),
        StopStage::Waiting(_) => matches!(e, StopEvent::WaitFinished(_)),
        StopStage::Stopped | StopStage::Failed => true,
    }
}

/// The seconds to wait after each signal.
pub open spec fn wait_seconds(k: StopSignal) -> u64 {
    match k {
        StopSignal::Interrupt => 10,
        StopSignal::Terminate => 5,
    }
}

/// The line logged before the interrupt is sent.
pub open spec fn interrupt_log(pid: u32) -> Seq<char> {
    "向 Harness 进程组 "@ + decimal(pid as nat) + " 发送中断信号"@
}

/// The message when no service runs.
pub open spec fn nothing_running_message() -> Seq<char> {
    "没有发现仍在运行的 Harness 进程"@
}

/// The message when the service outlived both signals.
pub open spec fn not_stopped_message() -> Seq<char> {
    "Harness 未在超时内停止，已停止后续强制操作；请检查进程和日志"@
}

/// How stopping begins: the service started here is stopped if there is
/// one (`managed`), else a recorded one that still runs (`recorded`, with
/// `recorded_alive`); it starts with an interrupt.
pub open spec fn stop_start(
    managed: Option<(u32, u16)>,
    recorded: Option<(u32, u16)>,
    recorded_alive: bool,
    t: StopState,
    out: StopStep,
) -> bool {
    let target = match managed {
        Some(m) => Some(m),
        None => if recorded is Some && recorded_alive {
            recorded
        } else {
            None
        },
    };
    match target {
        Some((pid, port)) => {
            &&& t.stage == StopStage::Signalling(StopSignal::Interrupt)
            &&& t.pid == pid
            &&& t.port == port
            &&& out.log matches Some(l) && l@ == interrupt_log(pid)
            &&& out.action == StopAction::Signal(StopSignal::Interrupt)
        },
        None => {
            &&& t.stage == StopStage::Failed
            &&& out.log is None
            &&& out.action matches StopAction::Fail(m) && m@ == nothing_running_message()
        },
    }
}

/// Whether the step logs nothing and reports the failure `m`.
pub open spec fn stop_fails_with(out: StopStep, m: Seq<char>) -> bool {
    &&& out.log is None
    &&& out.action matches StopAction::Fail(x) && x@ == m
}

/// What stopping does in the state `s` on learning `e`.
pub open spec fn stop_transition(s: StopState, e: StopEvent, t: StopState, out: StopStep) -> bool {
    &&& t.pid == s.pid
    &&& t.port == s.port
    &&& match s.stage {
        StopStage::Stopped | StopStage::Failed => t.stage == s.stage && out.log is None
            && out.action is Halt,
        StopStage::Signalling(k) => match e {
            StopEvent::SignalSent(Err(m)) => t.stage == StopStage::Failed && stop_fails_with(out, m@),
            StopEvent::SignalSent(Ok(())) => t.stage == StopStage::Waiting(k) && out.log is None
                && out.action == StopAction::Wait(wait_seconds(k)),
            _ => false,
        },
        StopStage::Waiting(k) => match e {
            StopEvent::WaitFinished(Err(m)) => t.stage == StopStage::Failed && stop_fails_with(out, m@),
            StopEvent::WaitFinished(Ok(true)) => t.stage == StopStage::Stopped && out.log is None
                && out.action is Finish,
            StopEvent::WaitFinished(Ok(false)) => match k {
                StopSignal::Interrupt => {
                    &&& t.stage == StopStage::Signalling(StopSignal::Terminate)
                    &&& out.log matches Some(l) && l@ == "中断信号超时，发送 TERM 信号"@
                    &&& out.action == StopAction::Signal(StopSignal::Terminate)
                },
                StopSignal::Terminate => t.stage == StopStage::Failed
                    && stop_fails_with(out, not_stopped_message()),
            },
            _ => false,
        },
    }
}

/// How stopping begins.
pub fn stop_begin(managed: Option<(u32, u16)>, recorded: Option<(u32, u16)>, recorded_alive: bool) -> (r: (StopState, StopStep))
    ensures
        stop_start(managed, recorded, recorded_alive, r.0, r.1),
{
    let target = match managed {
        Some(m) => Some(m),
        None => if recorded.is_some() && recorded_alive {
            recorded
        } else {
            None
        },
    };
    match target {
        Some((pid, port)) => {
            let mut l = String::from_str("向 Harness 进程组 ");
            push_decimal(&mut l, pid as u64);
            l.append(" 发送中断信号");
            (
                StopState { stage: StopStage::Signalling(StopSignal::Interrupt), pid, port },
                StopStep { log: Some(l), action: StopAction::Signal(StopSignal::Interrupt) },
            )
        },
        None => (
            StopState { stage: StopStage::Failed, pid: 0, port: 0 },
            StopStep {
                log: None,
                action: StopAction::Fail(String::from_str("没有发现仍在运行的 Harness 进程")),
            },
        ),
    }
}

/// What stopping does next, in the state `s`, having learnt `e`.
pub fn stop_step(s: StopState, e: StopEvent) -> (r: (StopState, StopStep))
    requires
        stop_event_fits(s.stage, e),
    ensures
        stop_transition(s, e, r.0, r.1),
{
    let with = |stage: StopStage| -> (t: StopState)
        ensures
            t.stage == stage && t.pid == s.pid && t.port == s.port,
        { StopState { stage, pid: s.pid, port: s.port } };
    match s.stage {
        StopStage::Stopped | StopStage::Failed => (with(s.stage), StopStep { log: None, action: StopAction::Halt }),
        StopStage::Signalling(k) => match e {
            StopEvent::SignalSent(Err(m)) => (
                with(StopStage::Failed),
                StopStep { log: None, action: StopAction::Fail(m) },
            ),
            _ => {
                let secs: u64 = match k {
                    StopSignal::Interrupt => 10,
                    StopSignal::Terminate => 5,
                };
                (with(StopStage::Waiting(k)), StopStep { log: None, action: StopAction::Wait(secs) })
            },
        },
        StopStage::Waiting(k) => match e {
            StopEvent::WaitFinished(Err(m)) => (
                with(StopStage::Failed),
                StopStep { log: None, action: StopAction::Fail(m) },
            ),
            StopEvent::WaitFinished(Ok(true)) => (
                with(StopStage::Stopped),
                StopStep { log: None, action: StopAction::Finish },
            ),
            _ => match k {
                StopSignal::Interrupt => (
                    with(StopStage::Signalling(StopSignal::Terminate)),
                    StopStep {
                        log: Some(String::from_str("中断信号超时，发送 TERM 信号")),
                        action: StopAction::Signal(StopSignal::Terminate),
                    },
                ),
                StopSignal::Terminate => (
                    with(StopStage::Failed),
                    StopStep {
                        log: None,
                        action: StopAction::Fail(
                            String::from_str("Harness 未在超时内停止，已停止后续强制操作；请检查进程和日志"),
                        ),
                    },
                ),
            },
        },
    }
}

/// Stopping begins with an interrupt, never with a termination request.
pub proof fn law_stop_begins_with_interrupt(
    managed: Option<(u32, u16)>,
    recorded: Option<(u32, u16)>,
    recorded_alive: bool,
    t: StopState,
    out: StopStep,
)
    requires
        stop_start(managed, recorded, recorded_alive, t, out),
    ensures
        out.action == StopAction::Signal(StopSignal::Interrupt) || out.action is Fail,
        managed is Some ==> out.action == StopAction::Signal(StopSignal::Interrupt),
{
}

/// A termination request is sent only after the wait that followed the
/// interrupt ran out; when the wait after it runs out too, stopping fails
/// and sends nothing more.
pub proof fn law_terminate_only_after_interrupt_timed_out(
    s: StopState,
    e: StopEvent,
    t: StopState,
    out: StopStep,
)
    requires
        stop_transition(s, e, t, out),
    ensures
        out.action == StopAction::Signal(StopSignal::Terminate) ==> s.stage == StopStage::Waiting(
            StopSignal::Interrupt,
        ) && e matches StopEvent::WaitFinished(Ok(false)),
        (s.stage == StopStage::Waiting(StopSignal::Terminate) && e matches StopEvent::WaitFinished(
            Ok(false),
        )) ==> t.stage == StopStage::Failed && out.action is Fail,
        (s.stage == StopStage::Stopped || s.stage == StopStage::Failed) ==> t.stage == s.stage
            && out.action is Halt,
{
}

} // verus!
