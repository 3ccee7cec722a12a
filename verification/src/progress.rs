//! Progress reports and log entries, as the front end receives them.
use vstd::prelude::*;
use crate::models::{LogEntry, OperationProgress, UpdatePhase, phase_name};
use crate::text::push_decimal;
use crate::validation::{redact, redacted};

verus! {

/// A progress report before it is stamped with the time.
#[derive(Debug, Clone, PartialEq)]
pub struct ProgressReport {
    pub phase: UpdatePhase,
    pub message: String,
    pub detail: Option<String>,
    pub percent: Option<u8>,
    pub cancellable: bool,
}

/// The views of an optional string.
pub open spec fn opt_view(o: Option<String>) -> Option<Seq<char>> {
    match o {
        Some(s) => Some(s@),
        None => None,
    }
}

/// Whether `p` reports `phase` with this message, detail, percentage and
/// cancellability.
pub open spec fn reports(
    p: ProgressReport,
    phase: UpdatePhase,
    message: Seq<char>,
    detail: Option<Seq<char>>,
    percent: Option<u8>,
    cancellable: bool,
) -> bool {
    &&& p.phase == phase
    &&& p.message@ == message
    &&& opt_view(p.detail) == detail
    &&& p.percent == percent
    &&& p.cancellable == cancellable
}

/// A progress report.
pub fn report(
    phase: UpdatePhase,
    message: &str,
    detail: Option<String>,
    percent: Option<u8>,
    cancellable: bool,
) -> (p: ProgressReport)
    ensures
        reports(p, phase, message@, opt_view(detail), percent, cancellable),
{
    ProgressReport { phase, message: String::from_str(message), detail, percent, cancellable }
}

/// The progress entry that the front end receives for a report of the
/// Harness update or preparation, stamped with `timestamp`.
pub fn progress_entry(report: ProgressReport, timestamp: String) -> (e: OperationProgress)
    ensures
        e.operation@ == "harnessUpdate"@,
        e.phase@ == phase_name(report.phase),
        e.message@ == report.message@,
        opt_view(e.detail) == opt_view(report.detail),
        e.percent == report.percent,
        e.cancellable == report.cancellable,
        e.timestamp@ == timestamp@,
{
    OperationProgress {
        operation: String::from_str("harnessUpdate"),
        phase: String::from_str(report.phase.as_str()),
        message: report.message,
        detail: report.detail,
        percent: report.percent,
        cancellable: report.cancellable,
        timestamp,
    }
}

/// A log line for the log view: its secrets are redacted.
pub fn log_entry(stream: &str, line: &str, timestamp: String) -> (e: LogEntry)
    ensures
        e.stream@ == stream@,
        e.line@ == redacted(line@),
        e.timestamp@ == timestamp@,
{
    LogEntry { stream: String::from_str(stream), line: redact(line), timestamp }
}

/// The time stamp written into log entries and progress reports: the whole
/// seconds since the Unix epoch, or `0` when the clock stands before it.
pub open spec fn timestamp_text(seconds: Option<u64>) -> Seq<char> {
    match seconds {
        Some(s) => crate::text::decimal(s as nat),
        None => "0"@,
    }
}

/// The time stamp for `seconds` since the Unix epoch (`None` when the
/// clock stands before it).
pub fn timestamp(seconds: Option<u64>) -> (t: String)
    ensures
        t@ == timestamp_text(seconds),
{
    match seconds {
        Some(s) => {
            let mut t = String::new();
            push_decimal(&mut t, s);
            assert(t@ =~= crate::text::decimal(s as nat));
            t
        },
        None => String::from_str("0"),
    }
}

} // verus!
