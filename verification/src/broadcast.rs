//! The fan-out channel: one producer, any number of subscribers, each with a
//! bounded queue of its own.
//!
//! A subscriber whose queue refuses a value (its receiver is gone, or it has
//! fallen a full queue behind) is pruned on that `send` and never offered a
//! value again, so a dead or slow subscriber cannot hold up the producer or
//! the other subscribers.
//!
//! The channel keeps, as ghost state, the values sent so far and for every
//! subscription the values its queue took. A queue hands its values out in
//! the order it took them, so that record is what the subscriber observes.

use vstd::prelude::*;
use tokio::sync::mpsc::{Receiver, Sender};

verus! {

/// A value that can be handed to several subscribers: `duplicate` makes a
/// copy that views the same.
pub trait Message: Sized + View {
    fn duplicate(&self) -> (copy: Self)
        ensures
            copy@ == self@,
    ;
}

/// One subscription, as contracts see it.
pub struct SlotView<V> {
    /// Whether the channel still offers values to it.
    pub live: bool,
    /// How many values had been sent when it subscribed.
    pub joined: nat,
    /// The values its queue took, in order.
    pub accepted: Seq<V>,
}

/// A channel, as contracts see it.
pub struct ChannelView<V> {
    /// The bound of each subscriber's queue.
    pub capacity: nat,
    /// Every value sent so far, in order.
    pub history: Seq<V>,
    /// How many values had been sent when the subscribers were last closed.
    pub epoch: nat,
    /// Every subscription ever made, in order; a pruned one stays, dead.
    pub slots: Seq<SlotView<V>>,
}

impl<V> SlotView<V> {
    /// A live subscription once its queue has answered the offer of `m`: it
    /// has taken `m` where the queue took it, and is dead where it did not.
    pub open spec fn answered(self, m: V, taken: bool) -> Self {
        if taken {
            SlotView { accepted: self.accepted.push(m), ..self }
        } else {
            SlotView { live: false, ..self }
        }
    }
}

impl<V> ChannelView<V> {
    /// Subscription `i` took a run of consecutive values that starts where
    /// it joined; while it is live it joined after the last close and the
    /// run reaches the end of the history.
    pub open spec fn slot_wf(self, i: int) -> bool {
        let s = self.slots[i];
        &&& s.joined + s.accepted.len() <= self.history.len()
        &&& s.accepted == self.history.subrange(
            s.joined as int,
            (s.joined + s.accepted.len()) as int,
        )
        &&& s.live ==> self.epoch <= s.joined && s.joined + s.accepted.len()
            == self.history.len()
    }

    pub open spec fn wf(self) -> bool {
        &&& 0 < self.capacity <= usize::MAX / 4
        &&& self.epoch <= self.history.len()
        &&& forall|i: int| 0 <= i < self.slots.len() ==> #[trigger] self.slot_wf(i)
    }

    /// A channel on which nothing has happened yet.
    pub open spec fn fresh(capacity: nat) -> Self {
        ChannelView { capacity, history: Seq::empty(), epoch: 0, slots: Seq::empty() }
    }

    /// The channel after one more subscription.
    pub open spec fn subscribed(self) -> Self {
        ChannelView {
            slots: self.slots.push(
                SlotView { live: true, joined: self.history.len(), accepted: Seq::empty() },
            ),
            ..self
        }
    }

    /// What one subscription may look like after `m` was sent: a dead one is
    /// as before; a live one was offered `m`, and is as its queue answered.
    pub open spec fn slot_after_send(before: SlotView<V>, m: V, after: SlotView<V>) -> bool {
        if before.live {
            after == before.answered(m, true) || after == before.answered(m, false)
        } else {
            after == before
        }
    }

    /// `after` is this channel once `m` has been sent on it.
    pub open spec fn sends(self, m: V, after: Self) -> bool {
        &&& after.capacity == self.capacity
        &&& after.epoch == self.epoch
        &&& after.history == self.history.push(m)
        &&& after.slots.len() == self.slots.len()
        &&& forall|i: int|
            0 <= i < self.slots.len() ==> #[trigger] Self::slot_after_send(
                self.slots[i],
                m,
                after.slots[i],
            )
    }

    /// The channel after every subscriber was closed: what each took stays
    /// on record, none is live.
    pub open spec fn closed(self) -> Self {
        ChannelView {
            epoch: self.history.len(),
            slots: Seq::new(
                self.slots.len(),
                |i: int| SlotView { live: false, ..self.slots[i] },
            ),
            ..self
        }
    }
}

/// A channel stays well formed when a subscriber joins.
pub proof fn lemma_subscribed_wf<V>(c: ChannelView<V>)
    requires
        c.wf(),
    ensures
        c.subscribed().wf(),
{
    let after = c.subscribed();
    assert forall|i: int| 0 <= i < after.slots.len() implies #[trigger] after.slot_wf(i) by {
        if i < c.slots.len() {
            assert(c.slot_wf(i));
        } else {
            assert(after.slots[i].accepted =~= after.history.subrange(
                after.slots[i].joined as int,
                after.slots[i].joined as int,
            ));
        }
    }
}

/// A channel stays well formed when a value is sent, whoever takes it.
pub proof fn lemma_sends_wf<V>(c: ChannelView<V>, m: V, after: ChannelView<V>)
    requires
        c.wf(),
        c.sends(m, after),
    ensures
        after.wf(),
{
    assert forall|i: int| 0 <= i < after.slots.len() implies #[trigger] after.slot_wf(i) by {
        assert(c.slot_wf(i));
        assert(ChannelView::<V>::slot_after_send(c.slots[i], m, after.slots[i]));
        let s = after.slots[i];
        assert(s.accepted =~= after.history.subrange(
            s.joined as int,
            (s.joined + s.accepted.len()) as int,
        ));
    }
}

/// A channel stays well formed when its subscribers are closed.
pub proof fn lemma_closed_wf<V>(c: ChannelView<V>)
    requires
        c.wf(),
    ensures
        c.closed().wf(),
{
    let after = c.closed();
    assert forall|i: int| 0 <= i < after.slots.len() implies #[trigger] after.slot_wf(i) by {
        assert(c.slot_wf(i));
    }
}

/// Order is kept: the `k`-th value a subscriber took is the `k`-th value
/// sent since it subscribed. What it observes is a stretch of what was
/// sent, in the order sent, with nothing left out in between.
pub proof fn law_order_preserved<V>(c: ChannelView<V>, i: int, k: int)
    requires
        c.wf(),
        0 <= i < c.slots.len(),
        0 <= k < c.slots[i].accepted.len(),
    ensures
        c.slots[i].joined + k < c.history.len(),
        c.slots[i].accepted[k] == c.history[c.slots[i].joined + k],
{
    assert(c.slot_wf(i));
}

/// A live subscriber has taken everything sent since it subscribed.
pub proof fn law_live_subscriber_has_all<V>(c: ChannelView<V>, i: int)
    requires
        c.wf(),
        0 <= i < c.slots.len(),
        c.slots[i].live,
    ensures
        c.slots[i].accepted == c.history.skip(c.slots[i].joined as int),
{
    assert(c.slot_wf(i));
    assert(c.slots[i].accepted =~= c.history.skip(c.slots[i].joined as int));
}

/// A dead subscriber harms nobody: whichever subscribers a send finds dead
/// or prunes, every subscriber that is live after it has taken the value.
pub proof fn law_dead_subscriber_harms_nobody<V>(
    before: ChannelView<V>,
    m: V,
    after: ChannelView<V>,
    dead: int,
    other: int,
)
    requires
        before.sends(m, after),
        0 <= dead < before.slots.len(),
        0 <= other < before.slots.len(),
        !after.slots[dead].live,
        after.slots[other].live,
    ensures
        before.slots[other].live,
        after.slots[other].accepted == before.slots[other].accepted.push(m),
{
    assert(ChannelView::<V>::slot_after_send(before.slots[other], m, after.slots[other]));
}

/// A pruned subscriber is pruned for good: a send leaves it as it is.
pub proof fn law_pruned_for_good<V>(before: ChannelView<V>, m: V, after: ChannelView<V>, i: int)
    requires
        before.sends(m, after),
        0 <= i < before.slots.len(),
        !before.slots[i].live,
    ensures
        after.slots[i] == before.slots[i],
{
    assert(ChannelView::<V>::slot_after_send(before.slots[i], m, after.slots[i]));
}

#[verifier::reject_recursive_types(T)]
struct Subscriber<T: Message> {
    sender: Option<Sender<T>>,
    joined: Ghost<nat>,
    accepted: Ghost<Seq<T::V>>,
}

impl<T: Message> Subscriber<T> {
    spec fn model(self) -> SlotView<T::V> {
        SlotView { live: self.sender is Some, joined: self.joined@, accepted: self.accepted@ }
    }

    /// Takes the answer of the queue to which `message` was offered: a
    /// subscriber whose queue took it has it on record, one whose queue
    /// refused it is pruned.
    fn settle(&mut self, taken: bool, message: &T)
        requires
            old(self).model().live,
        ensures
            final(self).model() == old(self).model().answered(message@, taken),
    {
        if taken {
            self.accepted = Ghost(self.accepted@.push(message@));
        } else {
            self.sender = None;
        }
    }
}

/// The fan-out channel.
#[verifier::reject_recursive_types(T)]
pub struct BroadcastChannel<T: Message> {
    subscribers: Vec<Subscriber<T>>,
    buffer: usize,
    history: Ghost<Seq<T::V>>,
    epoch: Ghost<nat>,
}

impl<T: Message> View for BroadcastChannel<T> {
    type V = ChannelView<T::V>;

    closed spec fn view(&self) -> ChannelView<T::V> {
        ChannelView {
            capacity: self.buffer as nat,
            history: self.history@,
            epoch: self.epoch@,
            slots: Seq::new(self.subscribers@.len(), |i: int| self.subscribers@[i].model()),
        }
    }
}

impl<T: Message> BroadcastChannel<T> {
    pub open spec fn wf(&self) -> bool {
        self@.wf()
    }

    /// A channel without subscribers, whose subscribers will each get a
    /// queue of `buffer` values.
    pub fn new(buffer: usize) -> (channel: Self)
        requires
            0 < buffer <= usize::MAX / 4,
        ensures
            channel@ == ChannelView::<T::V>::fresh(buffer as nat),
            channel.wf(),
    {
        let channel = BroadcastChannel {
            subscribers: Vec::new(),
            buffer,
            history: Ghost(Seq::empty()),
            epoch: Ghost(0),
        };
        assert(channel@.slots =~= Seq::empty());
        channel
    }

    /// Adds a subscriber and returns the receiving end of its queue. It sees
    /// the values sent from now on.
    pub fn subscribe(&mut self) -> (receiver: Receiver<T>)
        requires
            old(self).wf(),
        ensures
            final(self)@ == old(self)@.subscribed(),
            final(self).wf(),
    {
        let (sender, receiver) = tokio::sync::mpsc::channel(self.buffer);
        let ghost before = self@;
        self.subscribers.push(
            Subscriber {
                sender: Some(sender),
                joined: Ghost(self.history@.len()),
                accepted: Ghost(Seq::empty()),
            },
        );
        proof {
            assert(self@.slots =~= before.subscribed().slots);
            lemma_subscribed_wf(before);
        }
        receiver
    }

    /// Offers a copy of `msg` to every live subscriber, in the order they
    /// subscribed, and prunes each one whose queue refuses it.
    pub fn send(&mut self, msg: T)
        requires
            old(self).wf(),
        ensures
            old(self)@.sends(msg@, final(self)@),
            final(self).wf(),
    {
        let ghost before = self@;
        let ghost m = msg@;
        let n = self.subscribers.len();
        let mut i: usize = 0;
        while i < n
            invariant
                i <= n,
                n == self.subscribers.len(),
                n == before.slots.len(),
                before.wf(),
                m == msg@,
                self.buffer == before.capacity,
                self.history@ == before.history,
                self.epoch@ == before.epoch,
                forall|k: int|
                    0 <= k < i ==> ChannelView::<T::V>::slot_after_send(
                        before.slots[k],
                        m,
                        #[trigger] self.subscribers@[k].model(),
                    ),
                forall|k: int|
                    i <= k < n ==> #[trigger] self.subscribers@[k].model() == before.slots[k],
            decreases n - i,
        {
            let ghost earlier = self.subscribers@;
            assert(earlier[i as int].model() == before.slots[i as int]);
            let subscriber = &mut self.subscribers[i];
            let answer = match &mut subscriber.sender {
                Some(sender) => Some(sender.try_send(msg.duplicate()).is_ok()),
                None => None,
            };
            if let Some(taken) = answer {
                subscriber.settle(taken, &msg);
            }
            proof {
                assert(forall|k: int|
                    0 <= k < n && k != i ==> self.subscribers@[k] == earlier[k]);
            }
            i += 1;
        }
        self.history = Ghost(self.history@.push(m));
        proof {
            let after = self@;
            assert forall|k: int| 0 <= k < before.slots.len() implies #[trigger] ChannelView::<
                T::V,
            >::slot_after_send(before.slots[k], m, after.slots[k]) by {
                assert(after.slots[k] == self.subscribers@[k].model());
            }
            lemma_sends_wf(before, m, after);
        }
    }

    /// Closes every subscriber's queue: each receiver still yields what its
    /// queue holds and then ends. Subscribers that come later see only what
    /// is sent after this.
    pub fn close(&mut self)
        requires
            old(self).wf(),
        ensures
            final(self)@ == old(self)@.closed(),
            final(self).wf(),
    {
        let ghost before = self@;
        let n = self.subscribers.len();
        let mut i: usize = 0;
        while i < n
            invariant
                i <= n,
                n == self.subscribers.len(),
                n == before.slots.len(),
                self.buffer == before.capacity,
                self.history@ == before.history,
                self.epoch@ == before.epoch,
                forall|k: int|
                    0 <= k < i ==> #[trigger] self.subscribers@[k].model() == (SlotView {
                        live: false,
                        ..before.slots[k]
                    }),
                forall|k: int|
                    i <= k < n ==> #[trigger] self.subscribers@[k].model() == before.slots[k],
            decreases n - i,
        {
            let ghost earlier = self.subscribers@;
            assert(earlier[i as int].model() == before.slots[i as int]);
            let subscriber = &mut self.subscribers[i];
            subscriber.sender = None;
            proof {
                assert(forall|k: int|
                    0 <= k < n && k != i ==> self.subscribers@[k] == earlier[k]);
            }
            i += 1;
        }
        self.epoch = Ghost(self.history@.len());
        proof {
            assert(self@.slots =~= before.closed().slots);
            lemma_closed_wf(before);
        }
    }

    /// How many subscriptions were made so far, pruned ones included.
    pub fn subscriptions(&self) -> (count: usize)
        ensures
            count == self@.slots.len(),
    {
        self.subscribers.len()
    }

    /// Whether subscription `index` exists and is still offered values.
    pub fn is_live(&self, index: usize) -> (live: bool)
        ensures
            live == (index < self@.slots.len() && self@.slots[index as int].live),
    {
        if index < self.subscribers.len() {
            self.subscribers[index].sender.is_some()
        } else {
            false
        }
    }
}

} // verus!
