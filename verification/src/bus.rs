//! The event bus: one sender that fans each event out to every receiver
//! subscribed at that moment.
//!
//! The fan-out is `tokio::sync::broadcast`. A receiver that does not keep up
//! loses the oldest events rather than holding the publisher back. What the
//! channel does between tasks is not modelled; the contracts say of a call
//! only what holds however the tasks interleave.

use crate::events::{
    forward, forward_step, player_update, EventSubscription, Forward, Received, ServerEvent,
};
use crate::snowflake::unix_time_ms;
use vstd::prelude::*;

verus! {

/// `tokio::sync::broadcast::Sender`, the sending half of the channel. Opaque
/// to the proofs.
#[verifier::external_type_specification]
#[verifier::external_body]
#[verifier::reject_recursive_types(T)]
pub struct ExSender<T>(tokio::sync::broadcast::Sender<T>);

/// `tokio::sync::broadcast::Receiver`, one receiving half of the channel.
/// Opaque to the proofs.
#[verifier::external_type_specification]
#[verifier::external_body]
#[verifier::reject_recursive_types(T)]
pub struct ExReceiver<T>(tokio::sync::broadcast::Receiver<T>);

/// The largest capacity a channel can be made with.
pub const MAX_CAPACITY: usize = usize::MAX / 2;

/// `tokio::sync::broadcast::channel`, of which the sender is kept: a channel
/// that retains up to `capacity` events for receivers that lag. The call
/// panics on a capacity of zero or above half of `usize::MAX`, which the
/// precondition leaves out.
#[verifier::external_body]
fn open_channel(capacity: usize) -> (sender: tokio::sync::broadcast::Sender<ServerEvent>)
    requires
        0 < capacity <= MAX_CAPACITY,
{
    tokio::sync::broadcast::channel(capacity).0
}

/// `tokio::sync::broadcast::Sender::send`: hands the event to the receivers
/// subscribed now and answers with their number, which is at least one; with
/// no receiver the event is dropped and the answer is `None`.
#[verifier::external_body]
fn send_event(sender: &tokio::sync::broadcast::Sender<ServerEvent>, event: ServerEvent) -> (receivers:
    Option<usize>)
    ensures
        receivers matches Some(n) ==> n >= 1,
{
    sender.send(event).ok()
}

/// `tokio::sync::broadcast::Sender::subscribe`: a receiver for the events
/// sent from now on.
#[verifier::external_body]
fn new_receiver(sender: &tokio::sync::broadcast::Sender<ServerEvent>) -> (receiver:
    tokio::sync::broadcast::Receiver<ServerEvent>) {
    sender.subscribe()
}

/// `tokio::sync::broadcast::Receiver::try_recv`: the next event that waits
/// for this receiver, the report that it fell behind or that every sender is
/// gone, or `None` where nothing waits.
#[verifier::external_body]
fn try_receive(receiver: &mut tokio::sync::broadcast::Receiver<ServerEvent>) -> (received: Option<
    Received,
>) {
    match receiver.try_recv() {
        Ok(event) => Some(Received::Event(event)),
        Err(tokio::sync::broadcast::error::TryRecvError::Empty) => None,
        Err(tokio::sync::broadcast::error::TryRecvError::Lagged(missed)) => Some(
            Received::Lagged(missed),
        ),
        Err(tokio::sync::broadcast::error::TryRecvError::Closed) => Some(Received::Closed),
    }
}

/// The number of subscribers an event was handed to, given what the
/// channel said of the send: none where it had no receiver.
pub open spec fn delivered_count(receivers: Option<usize>) -> usize {
    match receivers {
        Some(n) => n,
        None => 0,
    }
}

/// Reads what the channel said of a send.
pub fn delivered(receivers: Option<usize>) -> (count: usize)
    ensures
        count == delivered_count(receivers),
{
    match receivers {
        Some(n) => n,
        None => 0,
    }
}

/// The bus that events are published on.
pub struct EventBus {
    sender: tokio::sync::broadcast::Sender<ServerEvent>,
}

/// One subscription to the bus: a receiver and the filter its events pass.
pub struct Subscriber {
    receiver: tokio::sync::broadcast::Receiver<ServerEvent>,
    subscription: EventSubscription,
}

impl EventBus {
    /// A bus that retains up to `capacity` events for subscribers that lag;
    /// `None` for a capacity that no channel can have.
    pub fn new(capacity: usize) -> (bus: Option<EventBus>)
        ensures
            bus is Some <==> 0 < capacity <= MAX_CAPACITY,
    {
        if capacity == 0 || capacity > MAX_CAPACITY {
            None
        } else {
            Some(EventBus { sender: open_channel(capacity) })
        }
    }

    /// Publishes an event without waiting for anyone. The answer is the
    /// number of subscribers it was handed to, before their filters: what
    /// the channel said of the send, none where it had no receiver. How many
    /// are subscribed at the moment of the call is the channel's to say.
    pub fn publish(&self, event: ServerEvent) -> (count: usize)
        ensures
            exists|receivers: Option<usize>|
                (receivers matches Some(n) ==> n >= 1) && count == #[trigger] delivered_count(
                    receivers,
                ),
    {
        let receivers = send_event(&self.sender, event);
        delivered(receivers)
    }

    /// Subscribes to the events published from now on.
    pub fn subscribe(&self, subscription: EventSubscription) -> (subscriber: Subscriber)
        ensures
            subscriber.subscription() == subscription,
    {
        Subscriber { receiver: new_receiver(&self.sender), subscription }
    }
}

impl Subscriber {
    /// The filter of this subscription.
    pub closed spec fn subscription(&self) -> EventSubscription {
        self.subscription
    }

    /// The filter of this subscription.
    pub fn filter(&self) -> (subscription: &EventSubscription)
        ensures
            *subscription == self.subscription(),
    {
        &self.subscription
    }

    /// Takes what waits for this subscriber off the bus and decides what
    /// becomes of it, as a forwarder does; `None` where nothing waits.
    pub fn poll(&mut self) -> (next: Option<Forward>)
        ensures
            final(self).subscription() == old(self).subscription(),
            next matches Some(step) ==> exists|received: Received|
                step == #[trigger] forward_step(old(self).subscription()@, received),
    {
        match try_receive(&mut self.receiver) {
            None => None,
            Some(received) => {
                let step = forward(&self.subscription, received);
                assert(step == forward_step(self.subscription()@, received));
                Some(step)
            },
        }
    }

    /// Parts the receiver from its filter, for a forwarder that waits on the
    /// receiver itself.
    pub fn into_parts(self) -> (parts: (
        tokio::sync::broadcast::Receiver<ServerEvent>,
        EventSubscription,
    ))
        ensures
            parts.1 == self.subscription(),
    {
        (self.receiver, self.subscription)
    }
}

/// Publishes an event on the bus. The answer is the number of subscribers it
/// was handed to, none where nobody is subscribed.
pub fn broadcast_event(bus: &EventBus, event: ServerEvent) -> (count: usize)
    ensures
        exists|receivers: Option<usize>|
            (receivers matches Some(n) ==> n >= 1) && count == #[trigger] delivered_count(
                receivers,
            ),
{
    bus.publish(event)
}

/// Tells every proxy, as of `now_ms`, that the standing of a player changed.
/// The answer is the number of subscribers the event was handed to.
pub fn announce_player(bus: &EventBus, player_name: String, player_ipv4: String, now_ms: u64) -> (count:
    usize)
    ensures
        exists|receivers: Option<usize>|
            (receivers matches Some(n) ==> n >= 1) && count == #[trigger] delivered_count(
                receivers,
            ),
{
    broadcast_event(bus, player_update(player_name, player_ipv4, now_ms))
}

/// Tells every proxy that a player's account left the group or changed its
/// roles there. The answer is the number of subscribers the event was handed
/// to. With a clock that reads a time before the epoch the event is stamped
/// with zero.
pub fn guild_member_removal(bus: &EventBus, player_name: String, player_ipv4: String) -> (count:
    usize)
    ensures
        exists|receivers: Option<usize>|
            (receivers matches Some(n) ==> n >= 1) && count == #[trigger] delivered_count(
                receivers,
            ),
{
    let now_ms = match unix_time_ms() {
        Some(now_ms) => now_ms,
        None => 0,
    };
    announce_player(bus, player_name, player_ipv4, now_ms)
}

/// How many of the counts are above zero.
pub open spec fn reached_count(counts: Seq<usize>) -> nat
    decreases counts.len(),
{
    if counts.len() == 0 {
        0
    } else {
        reached_count(counts.drop_last()) + if counts.last() > 0 {
            1nat
        } else {
            0nat
        }
    }
}

/// No more counts are above zero than there are counts.
pub proof fn lemma_reached_count_bound(counts: Seq<usize>)
    ensures
        reached_count(counts) <= counts.len(),
    decreases counts.len(),
{
    if counts.len() > 0 {
        lemma_reached_count_bound(counts.drop_last());
    }
}

/// Counts the events that reached a subscriber, given for each the number
/// of subscribers it was handed to.
pub fn count_reached(counts: &Vec<usize>) -> (reached: usize)
    ensures
        reached == reached_count(counts@),
{
    let mut reached: usize = 0;
    let mut i: usize = 0;
    assert(counts@.take(0) =~= Seq::empty());
    while i < counts.len()
        invariant
            i <= counts.len(),
            reached <= i,
            reached == reached_count(counts@.take(i as int)),
        decreases counts.len() - i,
    {
        assert(counts@.take(i + 1).drop_last() =~= counts@.take(i as int));
        assert(counts@.take(i + 1).last() == counts@[i as int]);
        if counts[i] > 0 {
            reached += 1;
        }
        i += 1;
    }
    assert(counts@.take(i as int) =~= counts@);
    reached
}

/// Publishes each of `events` in turn and answers, for each in the same
/// order, with the number of subscribers it was handed to.
pub fn broadcast_each(bus: &EventBus, events: &Vec<ServerEvent>) -> (counts: Vec<usize>)
    ensures
        counts.len() == events.len(),
{
    let mut counts: Vec<usize> = Vec::new();
    let mut i: usize = 0;
    while i < events.len()
        invariant
            i <= events.len(),
            counts.len() == i,
        decreases events.len() - i,
    {
        let count = broadcast_event(bus, events[i].clone());
        counts.push(count);
        i += 1;
    }
    counts
}

/// Publishes each of `events` in turn. The answer is the number of events
/// that reached at least one subscriber: the number of counts above zero
/// among those, one for each event, that the bus gave.
pub fn broadcast_all(bus: &EventBus, events: &Vec<ServerEvent>) -> (reached: usize)
    ensures
        exists|counts: Seq<usize>|
            counts.len() == events.len() && reached == #[trigger] reached_count(counts),
        reached <= events.len(),
{
    let counts = broadcast_each(bus, events);
    proof {
        lemma_reached_count_bound(counts@);
    }
    count_reached(&counts)
}

} // verus!
