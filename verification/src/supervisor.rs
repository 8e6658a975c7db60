//! The supervisor of one run: which step comes next, given what the last
//! one brought.
//!
//! The caller owns the process, its two pipes and the poller. It performs
//! the action the supervisor names (poll, read, wait) and hands back what
//! came of it. The supervisor decides: it walks through what the poller
//! reported in the order reported, has each readable pipe drained before it
//! looks at the next report, sends every chunk on the task's channel and
//! keeps it in the record where the run buffers, counts the pipes that have
//! ended, and, once the process is reaped, finishes the record and tells the
//! channel and the bus.

use vstd::prelude::*;
use crate::broadcast::{lemma_closed_wf, lemma_sends_wf, lemma_subscribed_wf, ChannelView};
use crate::buffer::buffer_bytes;
use crate::dict::{texts, Dict};
use crate::event::{Event, EventBus, EventView};
use crate::status::{OutputEvent, TaskOutput, TaskStatus};
use crate::task::{Conflict, TaskState, TaskView};

verus! {

/// One of the two pipes of a process.
#[derive(Debug, Clone, Copy, PartialEq, Eq, Structural)]
pub enum Pipe {
    Stdout,
    Stderr,
}

/// What the poller reported of one pipe.
#[derive(Debug, Clone, Copy, PartialEq, Eq, Structural)]
pub struct Readiness {
    pub pipe: Pipe,
    pub readable: bool,
    pub read_closed: bool,
}

/// What the supervisor asks the caller to do next.
#[derive(Debug, Clone, Copy, PartialEq, Eq, Structural)]
pub enum Action {
    /// Wait until the poller reports, and hand over all it reports.
    Poll,
    /// Read once from this pipe, without blocking.
    Read(Pipe),
    /// Wait for the process to exit.
    Wait,
    /// Nothing: the run is over.
    Done,
}

/// What came of the action.
#[derive(Debug)]
pub enum Input {
    /// The poller's reports, in its order.
    Ready(Vec<Readiness>),
    /// The read brought these bytes; none at the end of the stream.
    Read(Vec<u8>),
    /// The read would have blocked.
    WouldBlock,
    /// The poll failed, or the read failed otherwise.
    Failed,
    /// The process exited, with this code unless a signal ended it.
    Exited(Option<i32>),
}

/// An input, as contracts see it.
pub enum InputView {
    Ready(Seq<Readiness>),
    Read(Seq<u8>),
    WouldBlock,
    Failed,
    Exited(Option<i32>),
}

impl View for Input {
    type V = InputView;

    open spec fn view(&self) -> InputView {
        match *self {
            Input::Ready(reports) => InputView::Ready(reports@),
            Input::Read(bytes) => InputView::Read(bytes@),
            Input::WouldBlock => InputView::WouldBlock,
            Input::Failed => InputView::Failed,
            Input::Exited(code) => InputView::Exited(code),
        }
    }
}

/// Where a run stands.
#[derive(Debug, Clone, Copy, PartialEq, Eq, Structural)]
pub enum Phase {
    /// Waiting for the poller.
    Polling,
    /// Reading this pipe until it has no more.
    Draining(Pipe),
    /// Both pipes have ended, or reading failed: waiting for the exit.
    Reaping,
    /// The record is finished.
    Done,
}

/// What a step does to the task's record.
pub enum Effect {
    Nothing,
    /// This chunk is sent, and kept where the run buffers.
    Chunk(OutputEvent),
    /// The record is finished with this code, the end is sent, and the
    /// channel's subscribers are closed.
    Finish(Option<i32>),
}

/// The chunk that `bytes` read from `pipe` make.
pub open spec fn chunk(pipe: Pipe, bytes: Seq<u8>) -> OutputEvent {
    match pipe {
        Pipe::Stdout => OutputEvent::Stdout(bytes),
        Pipe::Stderr => OutputEvent::Stderr(bytes),
    }
}

/// The bytes an event carries.
pub open spec fn bytes_of(event: OutputEvent) -> Seq<u8> {
    match event {
        OutputEvent::Stdout(bytes) => bytes,
        OutputEvent::Stderr(bytes) => bytes,
        OutputEvent::Finished(_) => Seq::empty(),
    }
}

/// The bytes of all chunks among `events`, one after the other.
pub open spec fn chunk_bytes(events: Seq<OutputEvent>) -> Seq<u8>
    decreases events.len(),
{
    if events.len() == 0 {
        Seq::empty()
    } else {
        chunk_bytes(events.drop_last()) + bytes_of(events.last())
    }
}

/// A supervisor, as contracts see it.
pub struct SupervisorView {
    /// The task's name.
    pub name: Seq<char>,
    /// Whether the run keeps its output in the record.
    pub buffer: bool,
    pub phase: Phase,
    /// The poller's reports not yet looked at.
    pub pending: Seq<Readiness>,
    /// Whether standard output has ended.
    pub out_closed: bool,
    /// Whether standard error has ended.
    pub err_closed: bool,
    /// The events this run has sent on the task's channel, in order.
    pub emitted: Seq<OutputEvent>,
    /// The events this run has put on the global bus through its own
    /// handle, in order.
    pub posted: Seq<EventView>,
    /// How many events the task's channel had carried when the run began.
    pub base: nat,
}

impl SupervisorView {
    /// A run that has just begun.
    pub open spec fn start(name: Seq<char>, buffer: bool, base: nat) -> Self {
        SupervisorView {
            name,
            buffer,
            phase: Phase::Polling,
            pending: Seq::empty(),
            out_closed: false,
            err_closed: false,
            emitted: Seq::empty(),
            posted: Seq::empty(),
            base,
        }
    }

    /// The action that the phase calls for.
    pub open spec fn expected(self) -> Action {
        match self.phase {
            Phase::Polling => Action::Poll,
            Phase::Draining(pipe) => Action::Read(pipe),
            Phase::Reaping => Action::Wait,
            Phase::Done => Action::Done,
        }
    }

    /// With `pipe` noted as ended.
    pub open spec fn closes(self, pipe: Pipe) -> Self {
        match pipe {
            Pipe::Stdout => SupervisorView { out_closed: true, ..self },
            Pipe::Stderr => SupervisorView { err_closed: true, ..self },
        }
    }

    /// Walks through the pending reports: notes each pipe reported closed,
    /// and stops at the first readable pipe to have it drained. With no
    /// report left, the run waits for the exit if both pipes have ended,
    /// and polls again if not.
    pub open spec fn settle(self) -> (Self, Action)
        decreases self.pending.len(),
    {
        if self.pending.len() == 0 {
            if self.out_closed && self.err_closed {
                (SupervisorView { phase: Phase::Reaping, ..self }, Action::Wait)
            } else {
                (SupervisorView { phase: Phase::Polling, ..self }, Action::Poll)
            }
        } else {
            let report = self.pending[0];
            let noted = if report.read_closed {
                self.closes(report.pipe)
            } else {
                self
            };
            let rest = SupervisorView { pending: self.pending.skip(1), ..noted };
            if report.readable {
                (
                    SupervisorView { phase: Phase::Draining(report.pipe), ..rest },
                    Action::Read(report.pipe),
                )
            } else {
                rest.settle()
            }
        }
    }

    /// Whether a record's output that holds `held` bytes has room for what
    /// the step on `input` adds to it: a buffer grows only while it holds at
    /// most half the bytes an allocation can have.
    pub open spec fn fits(self, input: InputView, held: nat) -> bool {
        self.buffer ==> match self.effect(input) {
            Effect::Chunk(event) => held + bytes_of(event).len() <= isize::MAX / 2,
            _ => true,
        }
    }

    /// What the step on `input` does to the task's record.
    pub open spec fn effect(self, input: InputView) -> Effect {
        match (self.phase, input) {
            (Phase::Draining(pipe), InputView::Read(bytes)) => if bytes.len() == 0 {
                Effect::Nothing
            } else {
                Effect::Chunk(chunk(pipe, bytes))
            },
            (Phase::Reaping, InputView::Exited(code)) => Effect::Finish(code),
            _ => Effect::Nothing,
        }
    }

    /// The supervisor after `input`, and the action it asks for.
    ///
    /// While polling, the poller's reports are taken and walked through.
    /// While a pipe is drained: bytes are a chunk, and the pipe is read
    /// again; no bytes mean the pipe has ended; that, and a read that would
    /// block, end the drain and the walk goes on. A poll or a read that
    /// failed ends all reading, and the run waits for the exit. While
    /// reaping, the exit finishes the run. An input that does not answer the action asked for
    /// changes nothing, and the action is asked for again.
    pub open spec fn advance(self, input: InputView) -> (Self, Action) {
        match (self.phase, input) {
            (Phase::Polling, InputView::Ready(reports)) => (SupervisorView {
                pending: reports,
                ..self
            }).settle(),
            (Phase::Draining(pipe), InputView::Read(bytes)) => if bytes.len() == 0 {
                self.closes(pipe).settle()
            } else {
                (
                    SupervisorView { emitted: self.emitted.push(chunk(pipe, bytes)), ..self },
                    Action::Read(pipe),
                )
            },
            (Phase::Draining(_), InputView::WouldBlock) => self.settle(),
            (Phase::Polling, InputView::Failed) => (
                SupervisorView { phase: Phase::Reaping, ..self },
                Action::Wait,
            ),
            (Phase::Draining(_), InputView::Failed) => (
                SupervisorView { phase: Phase::Reaping, ..self },
                Action::Wait,
            ),
            (Phase::Reaping, InputView::Exited(code)) => (
                SupervisorView {
                    phase: Phase::Done,
                    emitted: self.emitted.push(OutputEvent::Finished(code)),
                    posted: self.posted.push(EventView::Finished(self.name, code)),
                    ..self
                },
                Action::Done,
            ),
            _ => (self, self.expected()),
        }
    }

    /// The supervisor after these inputs, one after the other.
    pub open spec fn run(self, inputs: Seq<InputView>) -> Self
        decreases inputs.len(),
    {
        if inputs.len() == 0 {
            self
        } else {
            self.run(inputs.drop_last()).advance(inputs.last()).0
        }
    }

    /// The end of the run is sent once the run is done, not before, and as
    /// the last event; and the bus is told of the end when the run is done,
    /// and of nothing else.
    pub open spec fn wf(self) -> bool {
        &&& self.phase is Done ==> self.emitted.len() > 0 && self.emitted.last() is Finished
        &&& forall|i: int|
            0 <= i < self.emitted.len() && #[trigger] self.emitted[i] is Finished
                ==> self.phase is Done && i == self.emitted.len() - 1
        &&& self.posted.len() == if self.phase is Done {
            1nat
        } else {
            0nat
        }
        &&& self.phase is Done ==> self.posted[0] == EventView::Finished(
            self.name,
            self.emitted.last()->Finished_0,
        )
    }

    /// This supervisor's run is the one that `task` is in: the channel has
    /// carried, since the run began, exactly what the run sent; the record
    /// holds the bytes of the run's chunks where the run buffers, and none
    /// where it does not; the task is running until the run is done, and
    /// finished with the run's exit code from then on; the channel's
    /// subscribers were last closed before the run, until its end closes
    /// them again; and a subscriber from before that close is dead and took
    /// nothing of this run.
    pub open spec fn coupled(self, task: TaskView) -> bool {
        &&& self.wf()
        &&& task.events.wf()
        &&& task.name == self.name
        &&& self.base <= task.events.history.len()
        &&& task.events.history.skip(self.base as int) == self.emitted
        &&& forall|i: int|
            0 <= i < task.events.slots.len() && (#[trigger] task.events.slots[i]).joined
                < self.base ==> !task.events.slots[i].live && task.events.slots[i].joined
                + task.events.slots[i].accepted.len() <= self.base
        &&& task.output == if self.buffer {
            chunk_bytes(self.emitted)
        } else {
            Seq::empty()
        }
        &&& if self.phase is Done {
            &&& task.status == TaskStatus::Finished(self.emitted.last()->Finished_0)
            &&& task.events.epoch == task.events.history.len()
        } else {
            &&& task.status is Running
            &&& task.events.epoch == self.base
        }
    }
}

impl TaskView {
    /// `after` is this record once `effect` was done to it.
    pub open spec fn follows(self, effect: Effect, buffer: bool, after: Self) -> bool {
        match effect {
            Effect::Nothing => after == self,
            Effect::Chunk(event) => {
                &&& self.events.sends(event, after.events)
                &&& after == TaskView {
                    events: after.events,
                    output: if buffer {
                        self.output + bytes_of(event)
                    } else {
                        self.output
                    },
                    ..self
                }
            },
            Effect::Finish(code) => {
                &&& exists|sent: ChannelView<OutputEvent>|
                    self.events.sends(OutputEvent::Finished(code), sent) && after.events
                        == sent.closed()
                &&& after == TaskView {
                    events: after.events,
                    status: TaskStatus::Finished(code),
                    ..self
                }
            },
        }
    }
}

/// The supervisor of one run.
pub struct Supervisor {
    name: String,
    buffer: bool,
    phase: Phase,
    pending: Vec<Readiness>,
    cursor: usize,
    out_closed: bool,
    err_closed: bool,
    bus: EventBus,
    emitted: Ghost<Seq<OutputEvent>>,
    base: Ghost<nat>,
}

impl View for Supervisor {
    type V = SupervisorView;

    closed spec fn view(&self) -> SupervisorView {
        SupervisorView {
            name: self.name@,
            buffer: self.buffer,
            phase: self.phase,
            pending: self.pending@.skip(self.cursor as int),
            out_closed: self.out_closed,
            err_closed: self.err_closed,
            emitted: self.emitted@,
            posted: self.bus.posted(),
            base: self.base@,
        }
    }
}

impl Supervisor {
    /// The sending side of the bus on which the run tells its end.
    pub closed spec fn transport(&self) -> tokio::sync::broadcast::Sender<Event> {
        self.bus.transport()
    }

    /// The supervisor's own bookkeeping is in order.
    pub closed spec fn inv(&self) -> bool {
        self.cursor <= self.pending@.len()
    }

    /// This supervisor's run is the one that `task` is in.
    pub open spec fn drives(&self, task: &TaskState) -> bool {
        self.inv() && self@.coupled(task@)
    }

    /// The action the supervisor is waiting on.
    pub fn expected(&self) -> (action: Action)
        ensures
            action == self@.expected(),
    {
        match self.phase {
            Phase::Polling => Action::Poll,
            Phase::Draining(pipe) => Action::Read(pipe),
            Phase::Reaping => Action::Wait,
            Phase::Done => Action::Done,
        }
    }

    /// Whether the run keeps its output in the record.
    pub fn buffers(&self) -> (buffer: bool)
        ensures
            buffer == self@.buffer,
    {
        self.buffer
    }

    fn note_closed(&mut self, pipe: Pipe)
        requires
            old(self).inv(),
        ensures
            final(self).inv(),
            final(self)@ == old(self)@.closes(pipe),
            final(self).cursor == old(self).cursor,
            final(self).pending == old(self).pending,
            final(self).transport() == old(self).transport(),
    {
        match pipe {
            Pipe::Stdout => {
                self.out_closed = true;
            },
            Pipe::Stderr => {
                self.err_closed = true;
            },
        }
    }

    fn settle(&mut self) -> (action: Action)
        requires
            old(self).inv(),
        ensures
            final(self).inv(),
            (final(self)@, action) == old(self)@.settle(),
            final(self).transport() == old(self).transport(),
    {
        let ghost start = self@;
        while self.cursor < self.pending.len()
            invariant
                self.inv(),
                start == old(self)@,
                self.transport() == old(self).transport(),
                self@.settle() == start.settle(),
            decreases self.pending@.len() - self.cursor,
        {
            let ghost before = self@;
            let report = self.pending[self.cursor];
            assert(before.pending[0] == report);
            if report.read_closed {
                self.note_closed(report.pipe);
            }
            self.cursor = self.cursor + 1;
            assert(self@.pending =~= before.pending.skip(1));
            if report.readable {
                self.phase = Phase::Draining(report.pipe);
                return Action::Read(report.pipe);
            }
        }
        if self.out_closed && self.err_closed {
            self.phase = Phase::Reaping;
            Action::Wait
        } else {
            self.phase = Phase::Polling;
            Action::Poll
        }
    }

    /// Takes the step on `input` where the record's output has room for
    /// what the step adds to it. Where it has not, nothing changes and there
    /// is no action.
    pub fn try_step(&mut self, task: &mut TaskState, input: Input) -> (action: Option<Action>)
        requires
            old(self).drives(old(task)),
        ensures
            final(self).drives(final(task)),
            final(self).transport() == old(self).transport(),
            old(self)@.fits(input@, buffer_bytes(old(task).output).len()) ==> {
                &&& action matches Some(next)
                &&& (final(self)@, next) == old(self)@.advance(input@)
                &&& old(task)@.follows(
                    old(self)@.effect(input@),
                    old(self)@.buffer,
                    final(task)@,
                )
            },
            !old(self)@.fits(input@, buffer_bytes(old(task).output).len()) ==> {
                &&& action is None
                &&& *final(self) == *old(self)
                &&& *final(task) == *old(task)
            },
    {
        let room = match (self.buffer, self.phase, &input) {
            (true, Phase::Draining(_), Input::Read(bytes)) => {
                let limit: usize = (isize::MAX / 2) as usize;
                let held = task.output.len();
                bytes.len() == 0 || (held <= limit && bytes.len() <= limit - held)
            },
            _ => true,
        };
        if room {
            Some(self.step(task, input))
        } else {
            None
        }
    }

    /// Takes what came of the last action and says what to do next.
    pub fn step(&mut self, task: &mut TaskState, input: Input) -> (action: Action)
        requires
            old(self).drives(old(task)),
            old(self)@.fits(input@, buffer_bytes(old(task).output).len()),
        ensures
            (final(self)@, action) == old(self)@.advance(input@),
            old(task)@.follows(old(self)@.effect(input@), old(self)@.buffer, final(task)@),
            final(self).drives(final(task)),
            final(self).transport() == old(self).transport(),
    {
        let ghost before = self@;
        let ghost record = task@;
        let ghost given = input@;
        let action = match (self.phase, input) {
            (Phase::Polling, Input::Ready(reports)) => {
                self.pending = reports;
                self.cursor = 0;
                assert(self@.pending =~= reports@);
                self.settle()
            },
            (Phase::Draining(pipe), Input::Read(bytes)) => {
                if bytes.len() == 0 {
                    self.note_closed(pipe);
                    self.settle()
                } else {
                    if self.buffer {
                        task.output.extend_from_slice(bytes.as_slice());
                    }
                    let event = match pipe {
                        Pipe::Stdout => TaskOutput::Stdout(bytes),
                        Pipe::Stderr => TaskOutput::Stderr(bytes),
                    };
                    proof {
                        self.emitted@ = self.emitted@.push(event@);
                    }
                    task.events.send(event);
                    Action::Read(pipe)
                }
            },
            (Phase::Draining(_), Input::WouldBlock) => self.settle(),
            (Phase::Polling, Input::Failed) => {
                self.phase = Phase::Reaping;
                Action::Wait
            },
            (Phase::Draining(_), Input::Failed) => {
                self.phase = Phase::Reaping;
                Action::Wait
            },
            (Phase::Reaping, Input::Exited(code)) => {
                task.status = TaskStatus::Finished(code);
                task.events.send(TaskOutput::Finished(code));
                let ghost sent = task.events@;
                task.events.close();
                self.bus.post(Event::Finished(self.name.clone(), code));
                self.phase = Phase::Done;
                proof {
                    self.emitted@ = self.emitted@.push(OutputEvent::Finished(code));
                    assert(record.events.sends(OutputEvent::Finished(code), sent));
                    assert(task@.events == sent.closed());
                }
                Action::Done
            },
            _ => self.expected(),
        };
        proof {
            law_step_keeps_coupling(before, record, given, task@);
        }
        action
    }
}

/// Walking through the reports changes the phase, the reports left and the
/// note of which pipes have ended, nothing else; and it never ends the run.
pub proof fn lemma_settle_frame(s: SupervisorView)
    ensures
        s.settle().0 == (SupervisorView {
            phase: s.settle().0.phase,
            pending: s.settle().0.pending,
            out_closed: s.settle().0.out_closed,
            err_closed: s.settle().0.err_closed,
            ..s
        }),
        !(s.settle().0.phase is Done),
        s.settle().1 == s.settle().0.expected(),
    decreases s.pending.len(),
{
    if s.pending.len() > 0 {
        let report = s.pending[0];
        let noted = if report.read_closed {
            s.closes(report.pipe)
        } else {
            s
        };
        let rest = SupervisorView { pending: s.pending.skip(1), ..noted };
        if !report.readable {
            lemma_settle_frame(rest);
        }
    }
}

/// Subscribers that are dead and took nothing from `base` on are so after
/// a send too.
proof fn lemma_send_keeps_stale(
    before: ChannelView<OutputEvent>,
    m: OutputEvent,
    after: ChannelView<OutputEvent>,
    base: nat,
)
    requires
        before.sends(m, after),
        forall|i: int|
            0 <= i < before.slots.len() && (#[trigger] before.slots[i]).joined < base
                ==> !before.slots[i].live && before.slots[i].joined
                + before.slots[i].accepted.len() <= base,
    ensures
        forall|i: int|
            0 <= i < after.slots.len() && (#[trigger] after.slots[i]).joined < base
                ==> !after.slots[i].live && after.slots[i].joined + after.slots[i].accepted.len()
                <= base,
{
    assert forall|i: int|
        0 <= i < after.slots.len() && (#[trigger] after.slots[i]).joined < base implies !after.slots[i].live
        && after.slots[i].joined + after.slots[i].accepted.len() <= base by {
        assert(ChannelView::<OutputEvent>::slot_after_send(before.slots[i], m, after.slots[i]));
        assert(before.slots[i].joined < base);
    }
}

/// One more event adds its bytes at the end.
pub proof fn lemma_chunk_bytes_push(events: Seq<OutputEvent>, event: OutputEvent)
    ensures
        chunk_bytes(events.push(event)) == chunk_bytes(events) + bytes_of(event),
{
    assert(events.push(event).drop_last() =~= events);
}

/// A run that has just begun is well formed.
pub proof fn law_start_wf(name: Seq<char>, buffer: bool, base: nat)
    ensures
        SupervisorView::start(name, buffer, base).wf(),
{
}

/// Whatever the input, a step leaves the supervisor well formed.
pub proof fn law_advance_keeps_wf(s: SupervisorView, input: InputView)
    requires
        s.wf(),
    ensures
        s.advance(input).0.wf(),
{
    lemma_settle_frame(s);
    match (s.phase, input) {
        (Phase::Polling, InputView::Ready(reports)) => {
            lemma_settle_frame(SupervisorView { pending: reports, ..s });
        },
        (Phase::Draining(pipe), InputView::Read(bytes)) => {
            lemma_settle_frame(s.closes(pipe));
        },
        (Phase::Reaping, InputView::Exited(code)) => {
            let after = s.advance(input).0;
            assert(after.emitted.drop_last() =~= s.emitted);
            assert forall|i: int|
                0 <= i < after.emitted.len() && #[trigger] after.emitted[i] is Finished implies i
                == after.emitted.len() - 1 by {
                if i < s.emitted.len() {
                    assert(s.emitted[i] is Finished);
                }
            }
        },
        _ => {},
    }
}

/// Exactly one end, and last: whatever inputs a run is given, the end of
/// the run is among the events it has sent if and only if the run is done,
/// and then it is there once, as the last of them.
pub proof fn law_finished_once_and_last(
    name: Seq<char>,
    buffer: bool,
    base: nat,
    inputs: Seq<InputView>,
)
    ensures
        ({
            let s = SupervisorView::start(name, buffer, base).run(inputs);
            &&& s.wf()
            &&& s.phase is Done ==> s.emitted.len() > 0 && s.emitted.last() is Finished
            &&& forall|i: int|
                0 <= i < s.emitted.len() && #[trigger] s.emitted[i] is Finished ==> s.phase is Done
                    && i == s.emitted.len() - 1
        }),
    decreases inputs.len(),
{
    let first = SupervisorView::start(name, buffer, base);
    if inputs.len() > 0 {
        law_finished_once_and_last(name, buffer, base, inputs.drop_last());
        law_advance_keeps_wf(first.run(inputs.drop_last()), inputs.last());
    }
}

/// A step keeps the supervisor and the record of its task together:
/// whatever the input, and whichever subscribers take what the step sends.
pub proof fn law_step_keeps_coupling(
    s: SupervisorView,
    task: TaskView,
    input: InputView,
    after: TaskView,
)
    requires
        s.coupled(task),
        task.follows(s.effect(input), s.buffer, after),
    ensures
        s.advance(input).0.coupled(after),
{
    let next = s.advance(input).0;
    law_advance_keeps_wf(s, input);
    lemma_settle_frame(s);
    match (s.phase, input) {
        (Phase::Polling, InputView::Ready(reports)) => {
            lemma_settle_frame(SupervisorView { pending: reports, ..s });
        },
        (Phase::Draining(pipe), InputView::Read(bytes)) => {
            lemma_settle_frame(s.closes(pipe));
            if bytes.len() > 0 {
                let event = chunk(pipe, bytes);
                lemma_sends_wf(task.events, event, after.events);
                lemma_chunk_bytes_push(s.emitted, event);
                lemma_send_keeps_stale(task.events, event, after.events, s.base);
                assert(after.events.history.skip(s.base as int) =~= task.events.history.skip(
                    s.base as int,
                ).push(event));
            }
        },
        (Phase::Reaping, InputView::Exited(code)) => {
            let event = OutputEvent::Finished(code);
            let sent = choose|sent: ChannelView<OutputEvent>|
                task.events.sends(event, sent) && after.events == sent.closed();
            lemma_sends_wf(task.events, event, sent);
            lemma_closed_wf(sent);
            lemma_chunk_bytes_push(s.emitted, event);
            lemma_send_keeps_stale(task.events, event, sent, s.base);
            assert(after.events.history.skip(s.base as int) =~= task.events.history.skip(
                s.base as int,
            ).push(event));
            assert(bytes_of(event) =~= Seq::empty());
            assert(chunk_bytes(next.emitted) =~= chunk_bytes(s.emitted));
        },
        _ => {},
    }
}

/// The action asked for is the one that the phase then calls for.
pub proof fn law_action_is_expected(s: SupervisorView, input: InputView)
    ensures
        s.advance(input).1 == s.advance(input).0.expected(),
{
    lemma_settle_frame(s);
    match (s.phase, input) {
        (Phase::Polling, InputView::Ready(reports)) => {
            lemma_settle_frame(SupervisorView { pending: reports, ..s });
        },
        (Phase::Draining(pipe), InputView::Read(bytes)) => {
            lemma_settle_frame(s.closes(pipe));
        },
        _ => {},
    }
}

/// No run is stranded: wherever a run stands, once reading fails and the
/// process has exited the run is done. So a run can always be finished,
/// whatever the poller and the pipes do.
pub proof fn law_never_stranded(s: SupervisorView, code: Option<i32>)
    requires
        !(s.phase is Done),
    ensures
        s.advance(InputView::Failed).0.advance(InputView::Exited(code)).0.phase is Done,
        s.advance(InputView::Failed).0.advance(InputView::Exited(code)).0.emitted.last()
            == OutputEvent::Finished(code),
{
}

/// One run at a time: from its start until it is done, the task of a run is
/// running, so that every start in between is refused; once it is done, the
/// task is finished with the run's exit code, and a start is taken again.
pub proof fn law_running_until_done(s: SupervisorView, task: TaskView)
    requires
        s.coupled(task),
    ensures
        !(s.phase is Done) ==> task.status is Running,
        s.phase is Done ==> task.status == TaskStatus::Finished(s.emitted.last()->Finished_0),
{
}

/// A viewer that subscribes leaves the supervisor and the record together.
pub proof fn law_subscribe_keeps_coupling(s: SupervisorView, task: TaskView)
    requires
        s.coupled(task),
    ensures
        s.coupled(TaskView { events: task.events.subscribed(), ..task }),
{
    lemma_subscribed_wf(task.events);
}

/// The buffer is the concatenation: where the run buffers, the record's
/// output is the bytes of the chunks the run has sent, in the order sent;
/// where it does not, the output is empty.
pub proof fn law_buffer_is_concatenation(s: SupervisorView, task: TaskView)
    requires
        s.coupled(task),
    ensures
        s.buffer ==> task.output == chunk_bytes(s.emitted),
        !s.buffer ==> task.output == Seq::<u8>::empty(),
{
}

/// What a subscriber of this run observes: a stretch of the events the run
/// has sent, in the order sent, from the event at which it subscribed; all
/// of them to the last while it is live; and the end of the run at most
/// once, as the last event it ever takes.
pub proof fn law_subscriber_sees_the_run_in_order(s: SupervisorView, task: TaskView, i: int)
    requires
        s.coupled(task),
        0 <= i < task.events.slots.len(),
        task.events.slots[i].joined >= s.base,
    ensures
        ({
            let slot = task.events.slots[i];
            let from = slot.joined - s.base;
            &&& from + slot.accepted.len() <= s.emitted.len()
            &&& slot.accepted == s.emitted.subrange(from, from + slot.accepted.len())
            &&& slot.live ==> from + slot.accepted.len() == s.emitted.len()
            &&& forall|k: int|
                0 <= k < slot.accepted.len() && #[trigger] slot.accepted[k] is Finished
                    ==> s.phase is Done && k == slot.accepted.len() - 1 && from
                    + slot.accepted.len() == s.emitted.len()
        }),
{
    let slot = task.events.slots[i];
    let from = slot.joined - s.base;
    assert(task.events.slot_wf(i));
    assert(slot.accepted =~= s.emitted.subrange(from, from + slot.accepted.len())) by {
        assert forall|k: int| 0 <= k < slot.accepted.len() implies slot.accepted[k]
            == s.emitted[from + k] by {
            assert(task.events.history.skip(s.base as int)[from + k] == task.events.history[s.base
                + from + k]);
        }
    }
    assert forall|k: int|
        0 <= k < slot.accepted.len() && #[trigger] slot.accepted[k] is Finished implies s.phase is Done
        && k == slot.accepted.len() - 1 && from + slot.accepted.len() == s.emitted.len() by {
        assert(s.emitted[from + k] is Finished);
    }
}

/// A subscriber from before the run observes nothing of it: it is dead, and
/// all it took was sent before the run began.
pub proof fn law_stale_subscriber_sees_nothing(s: SupervisorView, task: TaskView, i: int)
    requires
        s.coupled(task),
        0 <= i < task.events.slots.len(),
        task.events.slots[i].joined < s.base,
    ensures
        !task.events.slots[i].live,
        task.events.slots[i].joined + task.events.slots[i].accepted.len() <= s.base,
{
}

/// Starts a run of `task`, unless one is under way: then the start is
/// refused, and neither the record nor the bus changes. A run that starts
/// makes the task running, empties its output, notes the arguments, and
/// tells the bus of the start; its supervisor holds a handle on that bus, on
/// which it will tell the end.
pub fn spawn_task(
    global_events: &mut EventBus,
    task: &mut TaskState,
    arguments: Dict<String>,
    buffer: bool,
) -> (spawned: Result<Supervisor, Conflict>)
    requires
        old(task).wf(),
    ensures
        spawned is Err <==> old(task).status is Running,
        spawned is Err ==> *final(task) == *old(task) && *final(global_events) == *old(
            global_events,
        ),
        final(global_events).transport() == old(global_events).transport(),
        spawned matches Ok(supervisor) ==> {
            &&& final(task)@ == old(task)@.started(texts(arguments@))
            &&& final(global_events).posted() == old(global_events).posted().push(
                EventView::Started(old(task)@.name, texts(arguments@)),
            )
            &&& supervisor@ == SupervisorView::start(
                old(task)@.name,
                buffer,
                old(task)@.events.history.len(),
            )
            &&& supervisor.transport() == old(global_events).transport()
            &&& supervisor.drives(final(task))
        },
{
    let started = Event::Started(task.name.clone(), arguments.clone());
    match task.begin(arguments) {
        Err(conflict) => Err(conflict),
        Ok(_) => {
            global_events.post(started);
            let supervisor = Supervisor {
                name: task.name.clone(),
                buffer,
                phase: Phase::Polling,
                pending: Vec::new(),
                cursor: 0,
                out_closed: false,
                err_closed: false,
                bus: global_events.handle(),
                emitted: Ghost(Seq::empty()),
                base: Ghost(task@.events.history.len()),
            };
            proof {
                assert(supervisor@.pending =~= Seq::empty());
                assert(task@.events.history.skip(supervisor@.base as int) =~= Seq::empty());
                assert forall|i: int|
                    0 <= i < task@.events.slots.len() && (#[trigger] task@.events.slots[i]).joined
                        < supervisor@.base implies !task@.events.slots[i].live
                    && task@.events.slots[i].joined + task@.events.slots[i].accepted.len()
                    <= supervisor@.base by {
                    assert(task@.events.slot_wf(i));
                }
            }
            Ok(supervisor)
        },
    }
}

} // verus!
