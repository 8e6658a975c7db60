//! What a viewer is answered: how the end of a run is reported, and how the
//! output of a task is served.

use vstd::prelude::*;
use crate::status::TaskStatus;

verus! {

/// The status with which a good end is reported.
pub const STATUS_OK: u16 = 200;

/// The status with which a bad end is reported, where the viewer asked for
/// the end to be checked.
pub const STATUS_FAILED: u16 = 520;

/// The code reported for a run that a signal ended.
pub const CODE_KILLED: i32 = -1;

/// The code reported for a run's end: its exit code, or `CODE_KILLED`.
pub open spec fn reported_code(code: Option<i32>) -> i32 {
    match code {
        Some(code) => code,
        None => CODE_KILLED,
    }
}

/// The status reported for a run's end: good unless the viewer asked for a
/// check and the code is not zero.
pub open spec fn reported_status(code: Option<i32>, check: bool) -> u16 {
    if !check || reported_code(code) == 0 {
        STATUS_OK
    } else {
        STATUS_FAILED
    }
}

/// How the end of a run is reported: the status, and the code to print.
pub fn exit_report(code: Option<i32>, check: bool) -> (report: (u16, i32))
    ensures
        report.0 == reported_status(code, check),
        report.1 == reported_code(code),
{
    let printed = match code {
        Some(code) => code,
        None => CODE_KILLED,
    };
    if !check || printed == 0 {
        (STATUS_OK, printed)
    } else {
        (STATUS_FAILED, printed)
    }
}

/// How a task's output is served.
#[derive(Debug, Clone, Copy, PartialEq, Eq, Structural)]
pub enum OutputPlan {
    /// What the record holds, and no more.
    Snapshot,
    /// What the record holds, then the chunks as they come.
    SnapshotThenLive,
    /// The chunks as they come.
    Live,
}

/// How a task's output is served to a viewer that asks for it: from the
/// record while no run is under way; during a run the chunks as they come,
/// after what the record holds where the task's runs are buffered.
pub fn output_plan(status: &TaskStatus, buffered: bool) -> (plan: OutputPlan)
    ensures
        plan == if !(*status is Running) {
            OutputPlan::Snapshot
        } else if buffered {
            OutputPlan::SnapshotThenLive
        } else {
            OutputPlan::Live
        },
{
    if !status.is_running() {
        OutputPlan::Snapshot
    } else if buffered {
        OutputPlan::SnapshotThenLive
    } else {
        OutputPlan::Live
    }
}

} // verus!
