//! The global events: what happens to any task, told to whoever listens.

use vstd::prelude::*;
use vstd::string::StringExecFns;
use vstd::utf8::encode_utf8;
use bytes::Bytes;
use tokio::sync::broadcast::Sender;
use crate::buffer::{freeze, frozen_bytes};
use crate::bus::{open_bus, second_handle};
use crate::dict::{texts, Dict};
use crate::json::{object_json, write_object, Member, MemberView};

verus! {

/// A global event, as contracts see it: strings by their characters, the
/// arguments of a start as pairs of name and value.
pub enum EventView {
    Ping,
    Started(Seq<char>, Seq<(Seq<char>, Seq<char>)>),
    Finished(Seq<char>, Option<i32>),
    TaskData(Seq<char>, Seq<char>, Seq<char>),
    UpdateConfig,
}

impl EventView {
    /// The name under which the event goes out.
    pub open spec fn label(self) -> Seq<char> {
        match self {
            EventView::Ping => "ping"@,
            EventView::Started(_, _) => "started"@,
            EventView::Finished(_, _) => "finished"@,
            EventView::TaskData(_, _, _) => "task_data"@,
            EventView::UpdateConfig => "update_config"@,
        }
    }

    /// The members of the object that goes out with the event: for a start
    /// the task and the arguments, each argument a string under its name;
    /// for a finish the task and the exit code, `null` where a signal ended
    /// the run; none for the others.
    pub open spec fn members(self) -> Seq<(Seq<char>, MemberView)> {
        match self {
            EventView::Started(task, arguments) => seq![
                ("task"@, MemberView::Text(task)),
                ("arguments"@, MemberView::Texts(arguments)),
            ],
            EventView::Finished(task, exit_code) => seq![
                ("task"@, MemberView::Text(task)),
                (
                    "exit_code"@,
                    match exit_code {
                        Some(code) => MemberView::Number(code),
                        None => MemberView::Null,
                    },
                ),
            ],
            _ => Seq::empty(),
        }
    }

    /// The data that goes out with the event: a JSON object for a start and
    /// for a finish, nothing for the others.
    pub open spec fn payload(self) -> Seq<u8> {
        match self {
            EventView::Started(_, _) => object_json(self.members()),
            EventView::Finished(_, _) => object_json(self.members()),
            _ => Seq::empty(),
        }
    }

    /// The event as one message of an event stream.
    pub open spec fn frame(self) -> Seq<u8> {
        framed(self.label(), self.payload())
    }
}

/// One message of an event stream: a line with the event's name, a line
/// with its data, and an empty line.
pub open spec fn framed(label: Seq<char>, payload: Seq<u8>) -> Seq<u8> {
    encode_utf8("event: "@) + encode_utf8(label) + encode_utf8("\ndata: "@) + payload
        + encode_utf8("\n\n"@)
}

/// A global event.
#[derive(Debug)]
pub enum Event {
    /// A sign of life.
    Ping,
    /// A task was started, with these arguments.
    Started(String, Dict<String>),
    /// A task's run ended, with this exit code.
    Finished(String, Option<i32>),
    /// A task's data changed: task, key, value.
    TaskData(String, String, String),
    /// The configuration was read again.
    UpdateConfig,
}

impl View for Event {
    type V = EventView;

    open spec fn view(&self) -> EventView {
        match *self {
            Event::Ping => EventView::Ping,
            Event::Started(task, arguments) => EventView::Started(task@, texts(arguments@)),
            Event::Finished(task, exit_code) => EventView::Finished(task@, exit_code),
            Event::TaskData(task, key, value) => EventView::TaskData(task@, key@, value@),
            Event::UpdateConfig => EventView::UpdateConfig,
        }
    }
}

impl Clone for Event {
    fn clone(&self) -> (copy: Self)
        ensures
            copy@ == self@,
    {
        match self {
            Event::Ping => Event::Ping,
            Event::Started(task, arguments) => Event::Started(task.clone(), arguments.clone()),
            Event::Finished(task, exit_code) => Event::Finished(task.clone(), *exit_code),
            Event::TaskData(task, key, value) => Event::TaskData(
                task.clone(),
                key.clone(),
                value.clone(),
            ),
            Event::UpdateConfig => Event::UpdateConfig,
        }
    }
}

fn append(out: &mut Vec<u8>, bytes: &[u8])
    ensures
        final(out)@ == old(out)@ + bytes@,
{
    let n = bytes.len();
    let mut i: usize = 0;
    while i < n
        invariant
            i <= n,
            n == bytes@.len(),
            out@ == old(out)@ + bytes@.subrange(0, i as int),
        decreases n - i,
    {
        out.push(bytes[i]);
        assert(bytes@.subrange(0, i + 1) =~= bytes@.subrange(0, i as int).push(bytes@[i as int]));
        i += 1;
    }
    assert(bytes@.subrange(0, n as int) =~= bytes@);
}

/// Frames an event's name and data as one message of an event stream.
pub fn frame_event(name: &str, payload: &[u8]) -> (frame: Vec<u8>)
    ensures
        frame@ == framed(name@, payload@),
{
    let mut frame: Vec<u8> = Vec::new();
    append(&mut frame, "event: ".as_bytes());
    append(&mut frame, name.as_bytes());
    append(&mut frame, "\ndata: ".as_bytes());
    append(&mut frame, payload);
    append(&mut frame, "\n\n".as_bytes());
    frame
}

impl Event {
    /// The name under which the event goes out.
    pub fn name(&self) -> (name: &'static str)
        ensures
            name@ == self@.label(),
    {
        match self {
            Self::Ping => "ping",
            Self::Started(_, _) => "started",
            Self::Finished(_, _) => "finished",
            Self::TaskData(_, _, _) => "task_data",
            Self::UpdateConfig => "update_config",
        }
    }

    /// The members of the object that goes out with the event.
    pub fn members(&self) -> (members: Vec<(String, Member)>)
        ensures
            crate::json::members_of(members@) == self@.members(),
    {
        let mut members: Vec<(String, Member)> = Vec::new();
        match self {
            Self::Started(task, arguments) => {
                members.push((String::from_str("task"), Member::Text(task.clone())));
                members.push((String::from_str("arguments"), Member::Texts(arguments.clone())));
            },
            Self::Finished(task, exit_code) => {
                members.push((String::from_str("task"), Member::Text(task.clone())));
                let code = match exit_code {
                    Some(code) => Member::Number(*code),
                    None => Member::Null,
                };
                members.push((String::from_str("exit_code"), code));
            },
            _ => {},
        }
        assert(crate::json::members_of(members@) =~= self@.members());
        members
    }

    /// The event as one message of an event stream.
    pub fn to_event(&self) -> (message: Bytes)
        ensures
            frozen_bytes(message) == self@.frame(),
    {
        let payload = match self {
            Self::Started(_, _) => write_object(&self.members()),
            Self::Finished(_, _) => write_object(&self.members()),
            _ => Vec::new(),
        };
        freeze(frame_event(self.name(), payload.as_slice()))
    }
}

/// What a listener is told first, as soon as it listens: a sign of life, so
/// that it has a message before anything happens.
pub fn greeting() -> (event: Event)
    ensures
        event@ == EventView::Ping,
{
    Event::Ping
}

/// Puts a message on a bus. That nobody listens is no error.
pub fn send_message<T>(sender: &Sender<T>, message: T) {
    let _ = sender.send(message);
}

/// The bound of the global bus: how many events it keeps for a listener
/// that lags.
pub const BUS_BOUND: usize = 16;

/// One handle on the global bus, with a record of what it put there.
pub struct EventBus {
    sender: Sender<Event>,
    posted: Ghost<Seq<EventView>>,
}

impl EventBus {
    /// The events put on the bus through this handle, in order.
    pub closed spec fn posted(&self) -> Seq<EventView> {
        self.posted@
    }

    /// The sending side of the bus that this handle holds.
    pub closed spec fn transport(&self) -> Sender<Event> {
        self.sender
    }

    /// A new bus, which keeps up to `BUS_BOUND` events for listeners that
    /// lag.
    pub fn new() -> (bus: Self)
        ensures
            bus.posted() == Seq::<EventView>::empty(),
    {
        EventBus { sender: open_bus(BUS_BOUND), posted: Ghost(Seq::empty()) }
    }

    /// Another handle on the same bus, which has put nothing there yet.
    pub fn handle(&self) -> (other: Self)
        ensures
            other.transport() == self.transport(),
            other.posted() == Seq::<EventView>::empty(),
    {
        EventBus { sender: second_handle(&self.sender), posted: Ghost(Seq::empty()) }
    }

    /// Puts `event` on the bus. The handle holds the sending side it held.
    pub fn post(&mut self, event: Event)
        ensures
            final(self).posted() == old(self).posted().push(event@),
            final(self).transport() == old(self).transport(),
    {
        proof {
            self.posted@ = self.posted@.push(event@);
        }
        send_message(&self.sender, event);
    }

    /// The sending side that this handle holds, from which listeners
    /// subscribe.
    pub fn sender(&self) -> (sender: &Sender<Event>)
        ensures
            *sender == self.transport(),
    {
        &self.sender
    }
}

} // verus!
