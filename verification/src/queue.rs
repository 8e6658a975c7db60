//! The bounded queue between a channel and one subscriber: tokio's
//! `mpsc` channel. Nothing here is proved; each item states what tokio's
//! source shows.

use vstd::prelude::*;
use tokio::sync::mpsc::error::TrySendError;
use tokio::sync::mpsc::{Receiver, Sender};

verus! {

/// `tokio::sync::mpsc::Sender`: the sending half of a bounded queue. Opaque.
#[verifier::external_type_specification]
#[verifier::external_body]
#[verifier::reject_recursive_types(T)]
pub struct ExSender<T>(Sender<T>);

/// `tokio::sync::mpsc::Receiver`: the receiving half, handed to the
/// subscriber. Opaque.
#[verifier::external_type_specification]
#[verifier::external_body]
#[verifier::reject_recursive_types(T)]
pub struct ExReceiver<T>(Receiver<T>);

/// `tokio::sync::mpsc::error::TrySendError`: why a queue refused a value
/// (it is full, or its receiver is gone). Opaque.
#[verifier::external_type_specification]
#[verifier::external_body]
#[verifier::reject_recursive_types(T)]
pub struct ExTrySendError<T>(TrySendError<T>);

/// `tokio::sync::mpsc::channel` makes a queue that holds up to `buffer`
/// values. It panics when `buffer` is zero, and when `buffer` is more than
/// its semaphore can count (`usize::MAX >> 2`); both are left out. Nothing
/// is claimed of the two halves.
pub assume_specification<T>[ tokio::sync::mpsc::channel::<T> ](buffer: usize) -> (ends: (
    Sender<T>,
    Receiver<T>,
))
    requires
        0 < buffer <= usize::MAX / 4,
;

/// `Sender::try_send` offers a value to the queue without waiting. Whether
/// the queue takes it depends on its receiver, so nothing is claimed of the
/// result: callers handle both outcomes.
pub assume_specification<T>[ Sender::<T>::try_send ](
    sender: &mut Sender<T>,
    message: T,
) -> (taken: Result<(), TrySendError<T>>)
;

} // verus!
