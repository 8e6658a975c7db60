//! The transient unit a run lives in: the host's launcher starts each run
//! as a unit named after the task, so that a later stop can address it.

use vstd::prelude::*;
use vstd::string::StringExecFns;
use crate::task::{Conflict, TaskState};

verus! {

/// Each string by its characters.
pub open spec fn strings(list: Seq<String>) -> Seq<Seq<char>> {
    Seq::new(list.len(), |i: int| list[i]@)
}

/// The name of the unit in which the task of this name runs.
pub open spec fn unit_of(task: Seq<char>) -> Seq<char> {
    "taru-task-"@ + task
}

/// The command line that starts `cmdline` as the unit of the task `task`:
/// the launcher, its options, then the command itself.
pub open spec fn launch_line(task: Seq<char>, cmdline: Seq<Seq<char>>) -> Seq<Seq<char>> {
    seq![
        "systemd-run"@,
        "--user"@,
        "--quiet"@,
        "--scope"@,
        "--collect"@,
        "--unit="@ + unit_of(task),
    ] + cmdline
}

/// The command line that asks the host to stop the unit of the task `task`.
pub open spec fn stop_line(task: Seq<char>) -> Seq<Seq<char>> {
    seq!["systemctl"@, "--user"@, "stop"@, unit_of(task) + ".scope"@]
}

/// The name of the unit in which the task of this name runs.
pub fn unit_name(task: &str) -> (unit: String)
    ensures
        unit@ == unit_of(task@),
{
    String::from_str("taru-task-").concat(task)
}

/// The command line on which a run of `task` is launched, program first.
/// It is refused while the task is running: no second process is started.
pub fn launch_command(task: &TaskState, cmdline: &Vec<String>) -> (launch: Result<
    Vec<String>,
    Conflict,
>)
    ensures
        launch is Err <==> task.status is Running,
        launch matches Ok(line) ==> strings(line@) == launch_line(task.name@, strings(cmdline@)),
{
    if task.status.is_running() {
        return Err(Conflict);
    }
    let mut line: Vec<String> = Vec::new();
    line.push(String::from_str("systemd-run"));
    line.push(String::from_str("--user"));
    line.push(String::from_str("--quiet"));
    line.push(String::from_str("--scope"));
    line.push(String::from_str("--collect"));
    let unit = unit_name(task.name.as_str());
    line.push(String::from_str("--unit=").concat(unit.as_str()));
    let ghost head = strings(line@);
    let n = cmdline.len();
    let mut i: usize = 0;
    while i < n
        invariant
            i <= n,
            n == cmdline@.len(),
            strings(line@) == head + strings(cmdline@).subrange(0, i as int),
        decreases n - i,
    {
        let ghost before = strings(line@);
        line.push(cmdline[i].clone());
        assert(strings(line@) =~= before.push(cmdline@[i as int]@));
        assert(strings(cmdline@).subrange(0, i + 1) =~= strings(cmdline@).subrange(
            0,
            i as int,
        ).push(cmdline@[i as int]@));
        i += 1;
    }
    assert(strings(cmdline@).subrange(0, n as int) =~= strings(cmdline@));
    assert(head =~= launch_line(task.name@, Seq::empty()));
    assert(strings(line@) =~= launch_line(task.name@, strings(cmdline@)));
    Ok(line)
}

/// The command line that stops the run of `task`, program first; none
/// unless the task is running. The record is not touched: the task is
/// finished when its supervisor sees the process exit.
pub fn stop_task(task: &TaskState) -> (stop: Option<Vec<String>>)
    ensures
        stop is Some <==> task.status is Running,
        stop matches Some(line) ==> strings(line@) == stop_line(task.name@),
{
    if !task.status.is_running() {
        return None;
    }
    let mut line: Vec<String> = Vec::new();
    line.push(String::from_str("systemctl"));
    line.push(String::from_str("--user"));
    line.push(String::from_str("stop"));
    line.push(unit_name(task.name.as_str()).concat(".scope"));
    assert(strings(line@) =~= stop_line(task.name@));
    Some(line)
}

} // verus!
