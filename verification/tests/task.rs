use taru::dict::Dict;
use taru::event::{Event, EventBus};
use taru::status::TaskStatus;
use taru::task::{Conflict, TaskState, QUEUE_BOUND};
use taru::unit::{launch_command, stop_task, unit_name};

fn strings(list: &[&str]) -> Vec<String> {
    list.iter().map(|s| s.to_string()).collect()
}

#[test]
fn new_record_is_new_and_empty() {
    let task = TaskState::new("build".to_string());
    assert_eq!(task.name, "build");
    assert_eq!(task.status, TaskStatus::New);
    assert_eq!(task.output.len(), 0);
    assert_eq!(task.events.subscriptions(), 0);
    assert_eq!(task.data.len(), 0);
    assert_eq!(task.arguments.len(), 0);
}

#[test]
fn queue_bound_is_sixteen() {
    assert_eq!(QUEUE_BOUND, 16);
}

#[test]
fn begin_makes_a_new_task_running() {
    let mut task = TaskState::new("build".to_string());
    let mut arguments = Dict::new();
    arguments.insert("target".to_string(), "x86".to_string());
    assert_eq!(task.begin(arguments), Ok(()));
    assert_eq!(task.status, TaskStatus::Running);
    assert_eq!(task.arguments.get("target"), Some(&"x86".to_string()));
}

#[test]
fn begin_is_refused_while_running() {
    let mut task = TaskState::new("build".to_string());
    let mut first = Dict::new();
    first.insert("n".to_string(), "1".to_string());
    assert_eq!(task.begin(first), Ok(()));
    let mut second = Dict::new();
    second.insert("n".to_string(), "2".to_string());
    assert_eq!(task.begin(second), Err(Conflict));
    assert_eq!(task.status, TaskStatus::Running);
    assert_eq!(task.arguments.get("n"), Some(&"1".to_string()));
}

#[test]
fn begin_empties_the_output_of_the_last_run() {
    let mut task = TaskState::new("build".to_string());
    task.output.extend_from_slice(b"old output");
    task.status = TaskStatus::Finished(Some(0));
    assert_eq!(task.begin(Dict::new()), Ok(()));
    assert_eq!(task.output.len(), 0);
    assert_eq!(task.status, TaskStatus::Running);
}

#[test]
fn set_data_keeps_the_value_and_tells_the_bus() {
    let mut bus = EventBus::new();
    let mut listener = bus.sender().subscribe();
    let mut task = TaskState::new("build".to_string());
    task.set_data(&mut bus, "branch".to_string(), "main".to_string());
    assert_eq!(task.data.get("branch"), Some(&"main".to_string()));
    assert!(matches!(
        listener.try_recv(),
        Ok(Event::TaskData(task, key, value)) if task == "build" && key == "branch" && value == "main"
    ));
}

#[test]
fn set_data_again_replaces_the_value() {
    let mut bus = EventBus::new();
    let mut task = TaskState::new("build".to_string());
    task.set_data(&mut bus, "branch".to_string(), "main".to_string());
    task.set_data(&mut bus, "other".to_string(), "x".to_string());
    task.set_data(&mut bus, "branch".to_string(), "dev".to_string());
    assert_eq!(task.data.len(), 2);
    assert_eq!(task.data.get("branch"), Some(&"dev".to_string()));
    assert_eq!(task.data.get("other"), Some(&"x".to_string()));
}

#[test]
fn set_data_leaves_status_and_output() {
    let mut bus = EventBus::new();
    let mut task = TaskState::new("build".to_string());
    task.begin(Dict::new()).unwrap();
    task.set_data(&mut bus, "k".to_string(), "v".to_string());
    assert_eq!(task.status, TaskStatus::Running);
    assert_eq!(task.output.len(), 0);
}

#[test]
fn snapshot_of_a_new_task() {
    let task = TaskState::new("build".to_string());
    let shot = task.snapshot();
    assert_eq!(shot.status, TaskStatus::New);
    assert_eq!(shot.exit_code, None);
    assert!(shot.output.is_empty());
    assert_eq!(shot.arguments.len(), 0);
    assert_eq!(shot.data.len(), 0);
}

#[test]
fn snapshot_of_a_finished_task() {
    let mut bus = EventBus::new();
    let mut task = TaskState::new("build".to_string());
    let mut arguments = Dict::new();
    arguments.insert("target".to_string(), "x86".to_string());
    task.begin(arguments).unwrap();
    task.output.extend_from_slice(b"compiled\n");
    task.set_data(&mut bus, "branch".to_string(), "main".to_string());
    task.status = TaskStatus::Finished(Some(3));
    let shot = task.snapshot();
    assert_eq!(shot.status, TaskStatus::Finished(Some(3)));
    assert_eq!(shot.exit_code, Some(3));
    assert_eq!(shot.output, b"compiled\n".to_vec());
    assert_eq!(shot.arguments.get("target"), Some(&"x86".to_string()));
    assert_eq!(shot.data.get("branch"), Some(&"main".to_string()));
    task.status = TaskStatus::Finished(None);
    assert_eq!(task.snapshot().exit_code, None);
    task.status = TaskStatus::Running;
    assert_eq!(task.snapshot().exit_code, None);
}

#[test]
fn unit_is_named_after_the_task() {
    assert_eq!(unit_name("build"), "taru-task-build");
    assert_eq!(unit_name(""), "taru-task-");
}

#[test]
fn launch_command_wraps_the_command_line() {
    let task = TaskState::new("echo-test".to_string());
    let line = launch_command(&task, &strings(&["sh", "-c", "echo out1"]));
    assert_eq!(
        line,
        Ok(strings(&[
            "systemd-run",
            "--user",
            "--quiet",
            "--scope",
            "--collect",
            "--unit=taru-task-echo-test",
            "sh",
            "-c",
            "echo out1",
        ]))
    );
}

#[test]
fn launch_command_with_empty_command_line() {
    let task = TaskState::new("t".to_string());
    let line = launch_command(&task, &Vec::new()).unwrap();
    assert_eq!(line.len(), 6);
    assert_eq!(line[5], "--unit=taru-task-t");
}

#[test]
fn launch_command_is_refused_while_running() {
    let mut task = TaskState::new("build".to_string());
    task.begin(Dict::new()).unwrap();
    assert_eq!(launch_command(&task, &strings(&["true"])), Err(Conflict));
}

#[test]
fn launch_command_is_given_after_a_finish() {
    let mut task = TaskState::new("build".to_string());
    task.status = TaskStatus::Finished(None);
    assert!(launch_command(&task, &strings(&["true"])).is_ok());
}

#[test]
fn stop_task_addresses_the_unit_of_a_running_task() {
    let mut task = TaskState::new("build".to_string());
    task.begin(Dict::new()).unwrap();
    assert_eq!(
        stop_task(&task),
        Some(strings(&["systemctl", "--user", "stop", "taru-task-build.scope"]))
    );
    assert_eq!(task.status, TaskStatus::Running);
}

#[test]
fn stop_task_is_nothing_unless_running() {
    let mut task = TaskState::new("build".to_string());
    assert_eq!(stop_task(&task), None);
    task.status = TaskStatus::Finished(Some(0));
    assert_eq!(stop_task(&task), None);
}
