//! Asking the remote whether the followed branch has moved on, as a small
//! state machine. The configuration must be valid and the checkout a Git
//! repository; then the branch to follow is found and a dry-run fetch asks
//! the remote. The application carries out each action and reports back;
//! once the fetch succeeded it inspects the checkout again.
use vstd::prelude::*;
use crate::command::{CommandOutput, ensure_success, failure_detail, strings_of};
use crate::models::{AppConfig, string_views};
use crate::validation::{config_error, redacted, validate_config};

verus! {

/// Where a check for upstream changes stands.
#[derive(Debug, Clone, Copy, PartialEq, Eq, Structural)]
pub enum UpstreamStage {
    /// Waiting for the branch to follow.
    ResolvingBranch,
    /// Waiting for the dry-run fetch.
    Fetching,
    /// The remote answered.
    Done,
    /// The check failed.
    Failed,
}

/// The state of a check for upstream changes.
#[derive(Debug, Clone, PartialEq)]
pub struct UpstreamCheck {
    pub stage: UpstreamStage,
    /// The remote that is asked.
    pub remote: String,
}

/// What the application reports back.
#[derive(Debug)]
pub enum UpstreamEvent {
    /// The branch to follow, or why none was found.
    BranchResolved(Result<String, String>),
    /// What the fetch printed, or why it could not run.
    FetchFinished(Result<CommandOutput, String>),
}

/// What the application is to do next.
#[derive(Debug, Clone, PartialEq)]
pub enum UpstreamAction {
    /// Find the branch to follow.
    ResolveBranch,
    /// Run `git` in the checkout with these arguments, logged under this
    /// label.
    RunGit(Vec<String>, String),
    /// Inspect the checkout and report its status.
    Inspect,
    /// Give up with this error.
    Fail(String),
    /// Nothing more: the check has ended.
    Halt,
}

/// Whether `e` is the kind of report that the stage `s` waits for.
pub open spec fn upstream_event_fits(s: UpstreamStage, e: UpstreamEvent) -> bool {
    match s {
        UpstreamStage::ResolvingBranch => e is BranchResolved,
        UpstreamStage::Fetching => e is FetchFinished,
        UpstreamStage::Done | UpstreamStage::Failed => true,
    }
}

/// Whether `e` is the kind of report that the stage `s` waits for.
pub fn upstream_fits(s: UpstreamStage, e: &UpstreamEvent) -> (b: bool)
    ensures
        b == upstream_event_fits(s, *e),
{
    match s {
        UpstreamStage::ResolvingBranch => matches!(e, UpstreamEvent::BranchResolved(_)),
        UpstreamStage::Fetching => matches!(e, UpstreamEvent::FetchFinished(_)),
        UpstreamStage::Done | UpstreamStage::Failed => true,
    }
}

/// The error when the checkout is no Git repository.
pub open spec fn missing_checkout_message() -> Seq<char> {
    "尚未安装 Harness 源码"@
}

/// The label under which the fetch is logged.
pub open spec fn upstream_label() -> Seq<char> {
    "检查 Harness 上游更新"@
}

/// The Git arguments that ask `remote` about `branch` without changing
/// anything.
pub open spec fn dry_fetch_args(remote: Seq<char>, branch: Seq<char>) -> Seq<Seq<char>> {
    seq!["fetch"@, "--dry-run"@, "--prune"@, remote, branch]
}

/// Whether the check fails with the error `m`.
pub open spec fn upstream_fails(t: UpstreamCheck, a: UpstreamAction, remote: Seq<char>, m: Seq<char>) -> bool {
    &&& t.stage == UpstreamStage::Failed
    &&& t.remote@ == remote
    &&& a matches UpstreamAction::Fail(x) && x@ == m
}

/// How a check begins for `config` (on Windows when `windows`), when the
/// checkout holds a `.git` entry (`git_present`) or not: an invalid
/// configuration fails with its error, a missing repository with
/// `missing_checkout_message`; otherwise the branch is found first.
pub open spec fn upstream_start(config: AppConfig, windows: bool, git_present: bool, t: UpstreamCheck, a: UpstreamAction) -> bool {
    let remote = config.update.remote_name@;
    match config_error(config, windows) {
        Some(e) => upstream_fails(t, a, remote, e),
        None => if !git_present {
            upstream_fails(t, a, remote, missing_checkout_message())
        } else {
            &&& t.stage == UpstreamStage::ResolvingBranch
            &&& t.remote@ == remote
            &&& a is ResolveBranch
        },
    }
}

/// The next state `t` and action `a` after the report `e` in state `s`: a
/// found branch is fetched with `--dry-run`; a fetch that succeeded leads
/// to inspecting the checkout; any failure ends the check with its error,
/// a failed fetch with its redacted report.
pub open spec fn upstream_next(s: UpstreamCheck, e: UpstreamEvent, t: UpstreamCheck, a: UpstreamAction) -> bool {
    let remote = s.remote@;
    match s.stage {
        UpstreamStage::ResolvingBranch => match e {
            UpstreamEvent::BranchResolved(Ok(b)) => {
                &&& t.stage == UpstreamStage::Fetching
                &&& t.remote@ == remote
                &&& a matches UpstreamAction::RunGit(args, l) && string_views(args@)
                    == dry_fetch_args(remote, b@) && l@ == upstream_label()
            },
            UpstreamEvent::BranchResolved(Err(m)) => upstream_fails(t, a, remote, m@),
            _ => false,
        },
        UpstreamStage::Fetching => match e {
            UpstreamEvent::FetchFinished(Ok(o)) => if o.success {
                &&& t.stage == UpstreamStage::Done
                &&& t.remote@ == remote
                &&& a is Inspect
            } else {
                upstream_fails(t, a, remote, redacted(failure_detail(upstream_label(), o)))
            },
            UpstreamEvent::FetchFinished(Err(m)) => upstream_fails(t, a, remote, m@),
            _ => false,
        },
        UpstreamStage::Done | UpstreamStage::Failed => t.stage == s.stage && t.remote@ == remote && a is Halt,
    }
}

fn upstream_failure(remote: String, m: String) -> (r: (UpstreamCheck, UpstreamAction))
    ensures
        upstream_fails(r.0, r.1, remote@, m@),
{
    (UpstreamCheck { stage: UpstreamStage::Failed, remote }, UpstreamAction::Fail(m))
}

/// How a check begins for `config`, given whether the checkout holds a
/// `.git` entry.
pub fn upstream_begin(config: &AppConfig, windows: bool, git_present: bool) -> (r: (UpstreamCheck, UpstreamAction))
    ensures
        upstream_start(*config, windows, git_present, r.0, r.1),
{
    let remote = config.update.remote_name.clone();
    assert(remote@ == config.update.remote_name@);
    match validate_config(config, windows) {
        Err(e) => upstream_failure(remote, e),
        Ok(()) => if !git_present {
            upstream_failure(remote, String::from_str("尚未安装 Harness 源码"))
        } else {
            (
                UpstreamCheck { stage: UpstreamStage::ResolvingBranch, remote },
                UpstreamAction::ResolveBranch,
            )
        },
    }
}

/// The next state and action after the report `event` in state `s`.
pub fn upstream_step(s: &UpstreamCheck, event: UpstreamEvent) -> (r: (UpstreamCheck, UpstreamAction))
    requires
        upstream_event_fits(s.stage, event),
    ensures
        upstream_next(*s, event, r.0, r.1),
{
    let remote = s.remote.clone();
    assert(remote@ == s.remote@);
    match s.stage {
        UpstreamStage::ResolvingBranch => match event {
            UpstreamEvent::BranchResolved(Ok(b)) => {
                let args = vec!["fetch", "--dry-run", "--prune", remote.as_str(), b.as_str()];
                assert(args@.map_values(|v: &str| v@) =~= dry_fetch_args(remote@, b@));
                let a = UpstreamAction::RunGit(strings_of(&args), String::from_str("检查 Harness 上游更新"));
                (UpstreamCheck { stage: UpstreamStage::Fetching, remote }, a)
            },
            UpstreamEvent::BranchResolved(Err(m)) => upstream_failure(remote, m),
            UpstreamEvent::FetchFinished(_) => (UpstreamCheck { stage: s.stage, remote }, UpstreamAction::Halt),
        },
        UpstreamStage::Fetching => match event {
            UpstreamEvent::FetchFinished(Ok(o)) => match ensure_success(o, "检查 Harness 上游更新") {
                Ok(_) => (UpstreamCheck { stage: UpstreamStage::Done, remote }, UpstreamAction::Inspect),
                Err(d) => upstream_failure(remote, d),
            },
            UpstreamEvent::FetchFinished(Err(m)) => upstream_failure(remote, m),
            UpstreamEvent::BranchResolved(_) => (UpstreamCheck { stage: s.stage, remote }, UpstreamAction::Halt),
        },
        UpstreamStage::Done | UpstreamStage::Failed => {
            (UpstreamCheck { stage: s.stage, remote }, UpstreamAction::Halt)
        },
    }
}

} // verus!
