//! The decisions a run of a monitored command comes down to: normalizing the
//! child's exit status and choosing which report the monitoring endpoint is
//! owed. The spawning, blocking wait and report delivery live outside the
//! library; every decision they act on is made here.

use vstd::prelude::*;
use crate::strutil::{join_lines, join_lines_spec};

verus! {

/// What a blocking wait on the child reports, reduced to the two plain values
/// the normalization reads: a direct exit code, or the number of the signal
/// that terminated the child.
#[derive(Clone, Copy, Debug)]
pub struct RawStatus {
    pub code: Option<i32>,
    pub signal: Option<i32>,
}

/// The normalized exit value of a terminated child: its exit code when it has
/// one, else 127 plus the terminating signal number (the convention this
/// library fixes), else nothing.
pub open spec fn normalized_exit_spec(status: RawStatus) -> Option<int> {
    match status.code {
        Some(c) => Some(c as int),
        None => match status.signal {
            Some(s) => Some(s + 127),
            None => None,
        },
    }
}

/// Normalize a wait status: a direct exit code is reported as it is; a child
/// terminated by a signal maps to 127 + signal number.
pub fn get_unix_exit_status(status: RawStatus) -> (r: Option<i32>)
    requires
        (match (status.code, status.signal) {
            (None, Some(s)) => s + 127 <= i32::MAX,
            _ => true,
        }),
    ensures
        match r {
            Some(c) => normalized_exit_spec(status) == Some(c as int),
            None => normalized_exit_spec(status) is None,
        },
{
    match status.code {
        Some(c) => Some(c),
        None => match status.signal {
            Some(s) => Some(s + 127),
            None => None,
        },
    }
}

/// The wrapper's own exit code for a run: the child's normalized exit value,
/// or the sentinel 255 when no status could be determined at all.
pub open spec fn exit_code_spec(wait: Option<RawStatus>) -> int {
    match wait {
        Some(status) => match normalized_exit_spec(status) {
            Some(c) => c,
            None => 255,
        },
        None => 255,
    }
}

/// The exit code the wrapper terminates with, from the outcome of waiting on
/// the child (`None` when the wait itself failed).
pub fn normalize_exit_code(wait: Option<RawStatus>) -> (r: i32)
    requires
        (match wait {
            Some(status) => match (status.code, status.signal) {
                (None, Some(s)) => s + 127 <= i32::MAX,
                _ => true,
            },
            None => true,
        }),
    ensures
        r as int == exit_code_spec(wait),
{
    match wait {
        Some(status) => match get_unix_exit_status(status) {
            Some(c) => c,
            None => 255,
        },
        None => 255,
    }
}

/// The report a finished run owes the monitoring endpoint.
pub enum ReportAction {
    /// The child exited with code 0: a completion report, with no output.
    Complete,
    /// Anything else: a failure report with the exit code and the retained
    /// lines joined by single newlines.
    Failure { status: i32, output: String },
}

/// Decide the report owed for a final exit code, with the retained output
/// lines at hand.
pub fn conclude(status: i32, lines: &Vec<String>) -> (r: ReportAction)
    ensures
        status == 0 ==> r is Complete,
        status != 0 ==> (r matches ReportAction::Failure { status: st, output } && st == status
            && output@ == join_lines_spec(lines@.map_values(|s: String| s@))),
{
    if status == 0 {
        ReportAction::Complete
    } else {
        ReportAction::Failure { status, output: join_lines(lines) }
    }
}

/// How delivering one notification to the monitoring endpoint went. Reports
/// are fire-and-forget: this value is observed, perhaps logged, and never fed
/// back into the run.
#[derive(Clone, Copy, Debug, PartialEq, Eq, Structural)]
pub enum ReportOutcome {
    Delivered,
    Failed,
}

/// The wrapper's final exit code over a whole run, stated as a function of
/// the child's wait status and of the outcomes of the start and final
/// notifications — which it does not read.
pub open spec fn wrapper_exit_code(
    wait: Option<RawStatus>,
    start_report: ReportOutcome,
    final_report: ReportOutcome,
) -> int {
    exit_code_spec(wait)
}

/// Law: reporting failures never alter the wrapper's exit code. For the same
/// wait status, any two combinations of notification outcomes leave the
/// wrapper exiting with the same code.
pub proof fn lemma_reporting_never_alters_exit(
    wait: Option<RawStatus>,
    start_a: ReportOutcome,
    final_a: ReportOutcome,
    start_b: ReportOutcome,
    final_b: ReportOutcome,
)
    ensures
        wrapper_exit_code(wait, start_a, final_a) == wrapper_exit_code(wait, start_b, final_b),
{
}

} // verus!
