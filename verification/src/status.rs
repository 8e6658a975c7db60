//! The lifecycle of a task and the events a run puts on its channel.

use vstd::prelude::*;
use vstd::slice::slice_to_vec;
use crate::broadcast::Message;

verus! {

/// An event on a task's channel, as contracts see it.
pub enum OutputEvent {
    Stdout(Seq<u8>),
    Stderr(Seq<u8>),
    Finished(Option<i32>),
}

/// An event on a task's channel: a chunk the process wrote to its standard
/// output or standard error, or the end of the run with its exit code.
#[derive(Debug)]
pub enum TaskOutput {
    Stdout(Vec<u8>),
    Stderr(Vec<u8>),
    Finished(Option<i32>),
}

impl View for TaskOutput {
    type V = OutputEvent;

    open spec fn view(&self) -> OutputEvent {
        match *self {
            TaskOutput::Stdout(bytes) => OutputEvent::Stdout(bytes@),
            TaskOutput::Stderr(bytes) => OutputEvent::Stderr(bytes@),
            TaskOutput::Finished(code) => OutputEvent::Finished(code),
        }
    }
}

impl Clone for TaskOutput {
    fn clone(&self) -> (copy: Self)
        ensures
            copy@ == self@,
    {
        match self {
            TaskOutput::Stdout(bytes) => TaskOutput::Stdout(slice_to_vec(bytes.as_slice())),
            TaskOutput::Stderr(bytes) => TaskOutput::Stderr(slice_to_vec(bytes.as_slice())),
            TaskOutput::Finished(code) => TaskOutput::Finished(*code),
        }
    }
}

impl TaskOutput {
    /// The bytes of a chunk; none for the end of the run, which ends the
    /// stream of chunks.
    pub fn into_chunk(self) -> (bytes: Option<Vec<u8>>)
        ensures
            match self@ {
                OutputEvent::Stdout(chunk) => bytes matches Some(b) && b@ == chunk,
                OutputEvent::Stderr(chunk) => bytes matches Some(b) && b@ == chunk,
                OutputEvent::Finished(_) => bytes is None,
            },
    {
        match self {
            TaskOutput::Stdout(bytes) => Some(bytes),
            TaskOutput::Stderr(bytes) => Some(bytes),
            TaskOutput::Finished(_) => None,
        }
    }
}

impl Message for TaskOutput {
    fn duplicate(&self) -> (copy: Self) {
        self.clone()
    }
}

/// Where a task stands: never run, running, or finished with the exit code
/// of its process (absent when a signal ended it).
#[derive(Debug, Clone, Copy, PartialEq, Eq, Structural)]
pub enum TaskStatus {
    New,
    Running,
    Finished(Option<i32>),
}

impl TaskStatus {
    /// The exit code of a finished run; `None` while the task is new or
    /// running, and for a run that a signal ended.
    pub fn as_finished(&self) -> (code: Option<i32>)
        ensures
            code == match *self {
                TaskStatus::Finished(c) => c,
                _ => None,
            },
    {
        if let TaskStatus::Finished(code) = self {
            return *code;
        }
        None
    }

    /// The status in a word.
    pub open spec fn word(self) -> Seq<char> {
        match self {
            TaskStatus::New => "new"@,
            TaskStatus::Running => "running"@,
            TaskStatus::Finished(_) => "finished"@,
        }
    }

    /// The status in a word: `new`, `running` or `finished`.
    pub fn label(&self) -> (label: &'static str)
        ensures
            label@ == self.word(),
    {
        match self {
            TaskStatus::New => "new",
            TaskStatus::Running => "running",
            TaskStatus::Finished(_) => "finished",
        }
    }

    /// Whether a run is under way.
    pub fn is_running(&self) -> (running: bool)
        ensures
            running == (*self is Running),
    {
        match self {
            TaskStatus::Running => true,
            _ => false,
        }
    }

    /// Whether the last run has ended.
    pub fn is_finished(&self) -> (finished: bool)
        ensures
            finished == (*self is Finished),
    {
        match self {
            TaskStatus::Finished(_) => true,
            _ => false,
        }
    }
}

} // verus!
