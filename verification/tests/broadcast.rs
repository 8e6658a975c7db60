use taru::broadcast::BroadcastChannel;
use taru::status::TaskOutput;
use tokio::sync::mpsc::error::TryRecvError;

fn chunk(text: &str) -> TaskOutput {
    TaskOutput::Stdout(text.as_bytes().to_vec())
}

fn is_chunk(got: &Result<TaskOutput, TryRecvError>, text: &str) -> bool {
    matches!(got, Ok(TaskOutput::Stdout(bytes)) if bytes.as_slice() == text.as_bytes())
}

#[test]
fn new_channel_has_no_subscriptions() {
    let channel: BroadcastChannel<TaskOutput> = BroadcastChannel::new(16);
    assert_eq!(channel.subscriptions(), 0);
    assert!(!channel.is_live(0));
}

#[test]
fn send_without_subscribers_does_nothing() {
    let mut channel: BroadcastChannel<TaskOutput> = BroadcastChannel::new(16);
    channel.send(chunk("lost"));
    assert_eq!(channel.subscriptions(), 0);
}

#[test]
fn subscriber_gets_what_is_sent_in_order() {
    let mut channel: BroadcastChannel<TaskOutput> = BroadcastChannel::new(16);
    let mut rx = channel.subscribe();
    channel.send(chunk("one"));
    channel.send(chunk("two"));
    channel.send(chunk("three"));
    assert!(is_chunk(&rx.try_recv(), "one"));
    assert!(is_chunk(&rx.try_recv(), "two"));
    assert!(is_chunk(&rx.try_recv(), "three"));
    assert!(matches!(rx.try_recv(), Err(TryRecvError::Empty)));
    assert!(channel.is_live(0));
}

#[test]
fn subscriber_sees_only_what_is_sent_after_it_subscribed() {
    let mut channel: BroadcastChannel<TaskOutput> = BroadcastChannel::new(16);
    let mut early = channel.subscribe();
    channel.send(chunk("one"));
    let mut late = channel.subscribe();
    channel.send(chunk("two"));
    assert!(is_chunk(&early.try_recv(), "one"));
    assert!(is_chunk(&early.try_recv(), "two"));
    assert!(is_chunk(&late.try_recv(), "two"));
    assert!(matches!(late.try_recv(), Err(TryRecvError::Empty)));
}

#[test]
fn every_subscriber_gets_its_own_copy() {
    let mut channel: BroadcastChannel<TaskOutput> = BroadcastChannel::new(16);
    let mut a = channel.subscribe();
    let mut b = channel.subscribe();
    let mut c = channel.subscribe();
    channel.send(chunk("x"));
    assert!(is_chunk(&a.try_recv(), "x"));
    assert!(is_chunk(&b.try_recv(), "x"));
    assert!(is_chunk(&c.try_recv(), "x"));
    assert_eq!(channel.subscriptions(), 3);
}

#[test]
fn dropped_subscriber_is_pruned_and_others_go_on() {
    let mut channel: BroadcastChannel<TaskOutput> = BroadcastChannel::new(16);
    let gone = channel.subscribe();
    let mut stays = channel.subscribe();
    drop(gone);
    assert!(channel.is_live(0));
    channel.send(chunk("one"));
    assert!(!channel.is_live(0));
    assert!(channel.is_live(1));
    channel.send(chunk("two"));
    assert!(!channel.is_live(0));
    assert!(is_chunk(&stays.try_recv(), "one"));
    assert!(is_chunk(&stays.try_recv(), "two"));
    assert_eq!(channel.subscriptions(), 2);
}

#[test]
fn closed_receiver_is_pruned() {
    let mut channel: BroadcastChannel<TaskOutput> = BroadcastChannel::new(16);
    let mut rx = channel.subscribe();
    rx.close();
    channel.send(chunk("one"));
    assert!(!channel.is_live(0));
}

#[test]
fn full_queue_prunes_the_subscriber_and_does_not_stall() {
    let mut channel: BroadcastChannel<TaskOutput> = BroadcastChannel::new(2);
    let mut slow = channel.subscribe();
    let mut quick = channel.subscribe();
    channel.send(chunk("one"));
    assert!(is_chunk(&quick.try_recv(), "one"));
    channel.send(chunk("two"));
    assert!(is_chunk(&quick.try_recv(), "two"));
    assert!(channel.is_live(0));
    channel.send(chunk("three"));
    assert!(!channel.is_live(0));
    assert!(channel.is_live(1));
    assert!(is_chunk(&quick.try_recv(), "three"));
    assert!(is_chunk(&slow.try_recv(), "one"));
    assert!(is_chunk(&slow.try_recv(), "two"));
    assert!(matches!(slow.try_recv(), Err(TryRecvError::Closed)));
}

#[test]
fn queue_holds_as_many_as_its_bound() {
    let mut channel: BroadcastChannel<TaskOutput> = BroadcastChannel::new(16);
    let mut rx = channel.subscribe();
    for i in 0..16 {
        channel.send(chunk(&format!("{}", i)));
    }
    assert!(channel.is_live(0));
    for i in 0..16 {
        assert!(is_chunk(&rx.try_recv(), &format!("{}", i)));
    }
    assert!(matches!(rx.try_recv(), Err(TryRecvError::Empty)));
}

#[test]
fn close_ends_every_queue_after_what_it_holds() {
    let mut channel: BroadcastChannel<TaskOutput> = BroadcastChannel::new(16);
    let mut a = channel.subscribe();
    let mut b = channel.subscribe();
    channel.send(chunk("last"));
    channel.close();
    assert!(!channel.is_live(0));
    assert!(!channel.is_live(1));
    assert!(is_chunk(&a.try_recv(), "last"));
    assert!(matches!(a.try_recv(), Err(TryRecvError::Closed)));
    assert!(is_chunk(&b.try_recv(), "last"));
    assert!(matches!(b.try_recv(), Err(TryRecvError::Closed)));
}

#[test]
fn subscriber_after_close_sees_only_what_follows() {
    let mut channel: BroadcastChannel<TaskOutput> = BroadcastChannel::new(16);
    let mut old = channel.subscribe();
    channel.send(chunk("before"));
    channel.close();
    let mut new = channel.subscribe();
    channel.send(chunk("after"));
    assert!(is_chunk(&old.try_recv(), "before"));
    assert!(matches!(old.try_recv(), Err(TryRecvError::Closed)));
    assert!(is_chunk(&new.try_recv(), "after"));
    assert!(channel.is_live(1));
    assert!(!channel.is_live(0));
}

#[test]
fn the_copy_handed_out_equals_the_message() {
    let mut channel: BroadcastChannel<TaskOutput> = BroadcastChannel::new(16);
    let mut rx = channel.subscribe();
    channel.send(TaskOutput::Stderr(vec![0, 255, 10, 13]));
    channel.send(TaskOutput::Finished(Some(-7)));
    channel.send(TaskOutput::Finished(None));
    assert!(matches!(rx.try_recv(), Ok(TaskOutput::Stderr(bytes)) if bytes == vec![0, 255, 10, 13]));
    assert!(matches!(rx.try_recv(), Ok(TaskOutput::Finished(Some(-7)))));
    assert!(matches!(rx.try_recv(), Ok(TaskOutput::Finished(None))));
}
