use taru::status::{TaskOutput, TaskStatus};

#[test]
fn new_task_is_not_finished() {
    assert!(!TaskStatus::New.is_finished());
    assert_eq!(TaskStatus::New.as_finished(), None);
}

#[test]
fn running_task_is_not_finished() {
    assert!(!TaskStatus::Running.is_finished());
    assert!(TaskStatus::Running.is_running());
    assert_eq!(TaskStatus::Running.as_finished(), None);
}

#[test]
fn finished_task_gives_its_exit_code() {
    assert!(TaskStatus::Finished(Some(3)).is_finished());
    assert_eq!(TaskStatus::Finished(Some(3)).as_finished(), Some(3));
}

#[test]
fn killed_task_is_finished_without_a_code() {
    assert!(TaskStatus::Finished(None).is_finished());
    assert_eq!(TaskStatus::Finished(None).as_finished(), None);
}

#[test]
fn status_in_a_word() {
    assert_eq!(TaskStatus::New.label(), "new");
    assert_eq!(TaskStatus::Running.label(), "running");
    assert_eq!(TaskStatus::Finished(Some(0)).label(), "finished");
    assert_eq!(TaskStatus::Finished(None).label(), "finished");
}

#[test]
fn chunk_of_an_output_event() {
    assert_eq!(TaskOutput::Stdout(vec![1, 2]).into_chunk(), Some(vec![1, 2]));
    assert_eq!(TaskOutput::Stderr(vec![3]).into_chunk(), Some(vec![3]));
    assert_eq!(TaskOutput::Stdout(vec![]).into_chunk(), Some(vec![]));
    assert_eq!(TaskOutput::Finished(Some(0)).into_chunk(), None);
    assert_eq!(TaskOutput::Finished(None).into_chunk(), None);
}

#[test]
fn clone_of_an_output_event() {
    let event = TaskOutput::Stdout(vec![9, 8, 7]);
    assert_eq!(format!("{:?}", event.clone()), format!("{:?}", event));
}
