//! The transport of the global event bus: tokio's `broadcast` channel.
//! Nothing here is proved; each item states what tokio's source shows.

use vstd::prelude::*;
use tokio::sync::broadcast::{SendError, Sender};
use crate::event::Event;

verus! {

/// `tokio::sync::broadcast::Sender`: the sending side of a bus. Opaque.
#[verifier::external_type_specification]
#[verifier::external_body]
#[verifier::reject_recursive_types(T)]
pub struct ExSender<T>(Sender<T>);

/// `tokio::sync::broadcast::SendError`: a value that found no listener.
/// Opaque.
#[verifier::external_type_specification]
#[verifier::external_body]
#[verifier::reject_recursive_types(T)]
pub struct ExSendError<T>(SendError<T>);

/// The most events a bus can be made to keep.
pub const BUS_LIMIT: usize = 65536;

/// `tokio::sync::broadcast::channel` makes a bus that keeps up to
/// `capacity` values for listeners that lag, and this hands out its sending
/// side. It panics when `capacity` is zero or more than `usize::MAX >> 1`,
/// and it allocates all its slots at once, as many as the next power of two,
/// which panics when they are more than an allocation can be; `BUS_LIMIT`
/// slots of events are far from that. Nothing is claimed of the sender.
#[verifier::external_body]
pub(crate) fn open_bus(capacity: usize) -> (sender: Sender<Event>)
    requires
        0 < capacity <= BUS_LIMIT,
{
    tokio::sync::broadcast::channel(capacity).0
}

/// `Sender::send` hands a value to the listeners there are at that moment,
/// and fails when there is none. Which it is depends on who listens, so
/// nothing is claimed of the result.
pub assume_specification<T>[ Sender::<T>::send ](sender: &Sender<T>, value: T) -> (sent: Result<
    usize,
    SendError<T>,
>)
;

/// `Sender::clone` gives a second handle on the same bus: a sender that
/// holds what the first holds, the bus's shared state.
#[verifier::external_body]
pub(crate) fn second_handle<T>(sender: &Sender<T>) -> (handle: Sender<T>)
    ensures
        handle == *sender,
{
    sender.clone()
}

} // verus!
