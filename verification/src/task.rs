//! The record of one task: its status, the output of its current run, the
//! channel on which the run is told, and the data attached to it.

use vstd::prelude::*;
use vstd::slice::slice_to_vec;
use bytes::BytesMut;
use crate::broadcast::{BroadcastChannel, ChannelView};
use crate::buffer::{buffer_bytes, held};
use crate::dict::{lemma_texts_put, put, texts, Dict};
use crate::event::{Event, EventBus, EventView};
use crate::status::{OutputEvent, TaskOutput, TaskStatus};

verus! {

/// The bound of each viewer's queue on a task's channel.
pub const QUEUE_BOUND: usize = 16;

/// A task's record, as contracts see it.
pub struct TaskView {
    pub name: Seq<char>,
    pub status: TaskStatus,
    pub output: Seq<u8>,
    pub events: ChannelView<OutputEvent>,
    pub data: Seq<(Seq<char>, Seq<char>)>,
    pub arguments: Seq<(Seq<char>, Seq<char>)>,
}

impl TaskView {
    /// The channel is well formed, and while no run is under way nothing
    /// has been sent that a subscriber could still get: whoever subscribes
    /// between two runs sees the next run from its first event.
    pub open spec fn wf(self) -> bool {
        &&& self.events.wf()
        &&& !(self.status is Running) ==> self.events.epoch == self.events.history.len()
    }

    /// The record of a task that was never run.
    pub open spec fn fresh(name: Seq<char>) -> Self {
        TaskView {
            name,
            status: TaskStatus::New,
            output: Seq::empty(),
            events: ChannelView::fresh(QUEUE_BOUND as nat),
            data: Seq::empty(),
            arguments: Seq::empty(),
        }
    }

    /// The record once a run with these arguments has started: it is
    /// running and its output is empty again.
    pub open spec fn started(self, arguments: Seq<(Seq<char>, Seq<char>)>) -> Self {
        TaskView { status: TaskStatus::Running, output: Seq::empty(), arguments, ..self }
    }
}

/// The record of one task.
pub struct TaskState {
    /// The task's name. It never changes.
    pub name: String,
    /// Where the task stands.
    pub status: TaskStatus,
    /// What the current run has written so far, where the run keeps it.
    pub output: BytesMut,
    /// The channel on which the run is told to its viewers.
    pub events: BroadcastChannel<TaskOutput>,
    /// Data attached to the task from outside.
    pub data: Dict<String>,
    /// The arguments of the last run.
    pub arguments: Dict<String>,
}

impl View for TaskState {
    type V = TaskView;

    open spec fn view(&self) -> TaskView {
        TaskView {
            name: self.name@,
            status: self.status,
            output: buffer_bytes(self.output),
            events: self.events@,
            data: texts(self.data@),
            arguments: texts(self.arguments@),
        }
    }
}

/// What a task's record holds at one moment.
#[derive(Debug)]
pub struct Snapshot {
    pub status: TaskStatus,
    /// The exit code of the last run, where the task is finished and the run
    /// ended with one.
    pub exit_code: Option<i32>,
    /// The output kept of the current or the last run.
    pub output: Vec<u8>,
    pub arguments: Dict<String>,
    pub data: Dict<String>,
}

/// A start was refused because the task is running.
#[derive(Debug, Clone, Copy, PartialEq, Eq, Structural)]
pub struct Conflict;

impl TaskState {
    pub open spec fn wf(&self) -> bool {
        self@.wf()
    }

    /// The record of a task that was never run.
    pub fn new(name: String) -> (task: Self)
        ensures
            task@ == TaskView::fresh(name@),
            task.wf(),
    {
        let task = TaskState {
            name,
            status: TaskStatus::New,
            output: BytesMut::new(),
            events: BroadcastChannel::new(QUEUE_BOUND),
            data: Dict::new(),
            arguments: Dict::new(),
        };
        assert(task@.data =~= Seq::empty());
        assert(task@.arguments =~= Seq::empty());
        task
    }

    /// Takes the record from idle to running, as one step: a record that is
    /// running is left as it is and the start is refused.
    pub fn begin(&mut self, arguments: Dict<String>) -> (begun: Result<(), Conflict>)
        requires
            old(self).wf(),
        ensures
            begun is Err <==> old(self).status is Running,
            begun is Err ==> *final(self) == *old(self),
            begun is Ok ==> final(self)@ == old(self)@.started(texts(arguments@)),
            final(self).wf(),
    {
        if self.status.is_running() {
            return Err(Conflict);
        }
        self.status = TaskStatus::Running;
        self.output = BytesMut::new();
        self.arguments = arguments;
        Ok(())
    }

    /// What the record holds now.
    pub fn snapshot(&self) -> (shot: Snapshot)
        ensures
            shot.status == self.status,
            shot.exit_code == match self.status {
                TaskStatus::Finished(code) => code,
                _ => None,
            },
            shot.output@ == self@.output,
            texts(shot.arguments@) == self@.arguments,
            texts(shot.data@) == self@.data,
    {
        Snapshot {
            status: self.status,
            exit_code: self.status.as_finished(),
            output: slice_to_vec(held(&self.output)),
            arguments: self.arguments.clone(),
            data: self.data.clone(),
        }
    }

    /// Attaches `value` to the task under `key` and tells the bus.
    pub fn set_data(&mut self, bus: &mut EventBus, key: String, value: String)
        ensures
            final(self)@ == (TaskView { data: put(old(self)@.data, key@, value@), ..old(self)@ }),
            final(bus).posted() == old(bus).posted().push(
                EventView::TaskData(old(self).name@, key@, value@),
            ),
    {
        let event = Event::TaskData(self.name.clone(), key.clone(), value.clone());
        proof {
            lemma_texts_put(self.data@, key@, value);
        }
        self.data.insert(key, value);
        bus.post(event);
    }
}

} // verus!
