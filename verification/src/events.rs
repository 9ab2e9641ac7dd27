//! Events, the filter of a subscription, and what a forwarder does with what
//! it receives.

use crate::model::{views, PlayerIdentity, PlayerView};
use vstd::prelude::*;

verus! {

/// The kinds of event the service publishes.
#[derive(Clone, Copy, Debug, PartialEq, Eq, Structural)]
pub enum EventType {
    /// The standing of a player changed: proxies should ask again.
    PlayerUpdate,
}

/// The player an update is about.
#[derive(Debug)]
pub struct PlayerUpdateEvent {
    pub player_name: String,
    pub player_ipv4: String,
}

/// What an event carries.
#[derive(Debug)]
pub enum EventData {
    PlayerUpdate(PlayerUpdateEvent),
}

/// An event on the bus. `timestamp` counts milliseconds since the Unix epoch;
/// an event without a target, or with an empty one, is meant for every proxy.
#[derive(Debug)]
pub struct ServerEvent {
    pub event_type: EventType,
    pub timestamp: i64,
    pub target_proxy_id: Option<String>,
    pub event_data: Option<EventData>,
}

/// What a proxy asks to be told: the kinds of event, none meaning all.
#[derive(Debug)]
pub struct EventSubscription {
    pub proxy_id: String,
    pub event_types: Vec<EventType>,
}

pub struct PlayerUpdateView {
    pub player_name: Seq<char>,
    pub player_ipv4: Seq<char>,
}

pub enum EventDataView {
    PlayerUpdate(PlayerUpdateView),
}

pub struct ServerEventView {
    pub event_type: EventType,
    pub timestamp: i64,
    pub target_proxy_id: Option<Seq<char>>,
    pub event_data: Option<EventDataView>,
}

pub struct SubscriptionView {
    pub proxy_id: Seq<char>,
    pub event_types: Seq<EventType>,
}

impl View for PlayerUpdateEvent {
    type V = PlayerUpdateView;

    open spec fn view(&self) -> PlayerUpdateView {
        PlayerUpdateView { player_name: self.player_name@, player_ipv4: self.player_ipv4@ }
    }
}

impl View for EventData {
    type V = EventDataView;

    open spec fn view(&self) -> EventDataView {
        match *self {
            EventData::PlayerUpdate(update) => EventDataView::PlayerUpdate(update@),
        }
    }
}

impl View for ServerEvent {
    type V = ServerEventView;

    open spec fn view(&self) -> ServerEventView {
        ServerEventView {
            event_type: self.event_type,
            timestamp: self.timestamp,
            target_proxy_id: match self.target_proxy_id {
                Some(target) => Some(target@),
                None => None,
            },
            event_data: match self.event_data {
                Some(data) => Some(data@),
                None => None,
            },
        }
    }
}

impl View for EventSubscription {
    type V = SubscriptionView;

    open spec fn view(&self) -> SubscriptionView {
        SubscriptionView { proxy_id: self.proxy_id@, event_types: self.event_types@ }
    }
}

impl Clone for PlayerUpdateEvent {
    fn clone(&self) -> (copy: Self)
        ensures
            copy@ == self@,
    {
        PlayerUpdateEvent {
            player_name: self.player_name.clone(),
            player_ipv4: self.player_ipv4.clone(),
        }
    }
}

impl Clone for EventData {
    fn clone(&self) -> (copy: Self)
        ensures
            copy@ == self@,
    {
        match self {
            EventData::PlayerUpdate(update) => EventData::PlayerUpdate(update.clone()),
        }
    }
}

impl Clone for ServerEvent {
    fn clone(&self) -> (copy: Self)
        ensures
            copy@ == self@,
    {
        ServerEvent {
            event_type: self.event_type,
            timestamp: self.timestamp,
            target_proxy_id: match &self.target_proxy_id {
                Some(target) => Some(target.clone()),
                None => None,
            },
            event_data: match &self.event_data {
                Some(data) => Some(data.clone()),
                None => None,
            },
        }
    }
}

/// The kinds a subscriber asked for cover this kind: it asked for none in
/// particular, or for this one.
pub open spec fn type_matches(wanted: Seq<EventType>, event_type: EventType) -> bool {
    wanted.len() == 0 || wanted.contains(event_type)
}

/// An event with this target is meant for this proxy: it has no target, an
/// empty one, or the proxy's own identifier.
pub open spec fn target_matches(target: Option<Seq<char>>, proxy_id: Seq<char>) -> bool {
    match target {
        None => true,
        Some(t) => t.len() == 0 || t == proxy_id,
    }
}

/// The subscription lets the event through.
pub open spec fn accepts(subscription: SubscriptionView, event: ServerEventView) -> bool {
    type_matches(subscription.event_types, event.event_type) && target_matches(
        event.target_proxy_id,
        subscription.proxy_id,
    )
}

/// The time of an event made at `now_ms`: the same number of milliseconds,
/// held at the largest value the field can carry.
pub open spec fn event_time(now_ms: u64) -> i64 {
    if now_ms > i64::MAX as u64 {
        i64::MAX
    } else {
        now_ms as i64
    }
}

/// The update that tells every proxy about a player.
pub open spec fn player_update_view(
    player_name: Seq<char>,
    player_ipv4: Seq<char>,
    now_ms: u64,
) -> ServerEventView {
    ServerEventView {
        event_type: EventType::PlayerUpdate,
        timestamp: event_time(now_ms),
        target_proxy_id: None,
        event_data: Some(
            EventDataView::PlayerUpdate(PlayerUpdateView { player_name, player_ipv4 }),
        ),
    }
}

/// The update about a stored player.
pub open spec fn update_about(now_ms: u64) -> spec_fn(PlayerView) -> ServerEventView {
    |p: PlayerView| player_update_view(p.name, p.address, now_ms)
}

impl EventSubscription {
    /// Whether events of this kind are asked for.
    pub fn wants(&self, event_type: EventType) -> (wanted: bool)
        ensures
            wanted == type_matches(self.event_types@, event_type),
    {
        if self.event_types.len() == 0 {
            return true;
        }
        let mut i: usize = 0;
        while i < self.event_types.len()
            invariant
                i <= self.event_types.len(),
                forall|j: int| 0 <= j < i ==> self.event_types@[j] != event_type,
            decreases self.event_types.len() - i,
        {
            if self.event_types[i] == event_type {
                return true;
            }
            i += 1;
        }
        false
    }

    /// Whether the subscription lets the event through: its kind is asked
    /// for, and it is meant for every proxy or for the subscriber's own.
    pub fn accepts(&self, event: &ServerEvent) -> (accepted: bool)
        ensures
            accepted == accepts(self@, event@),
    {
        let for_us = match &event.target_proxy_id {
            None => true,
            Some(target) => target.as_str().is_empty() || *target == self.proxy_id,
        };
        self.wants(event.event_type) && for_us
    }
}

/// What a forwarder got from the bus.
#[derive(Debug)]
pub enum Received {
    /// The next event.
    Event(ServerEvent),
    /// The forwarder fell behind and this many events were lost to it.
    Lagged(u64),
    /// The bus is gone.
    Closed,
}

/// What a forwarder does next.
#[derive(Debug)]
pub enum Forward {
    /// Hand the event to the subscriber, and stop if the subscriber is gone.
    Deliver(ServerEvent),
    /// Let go of what was received and wait for the next.
    Skip,
    /// End the stream.
    Stop,
}

/// The step of a forwarder: an event that the subscription accepts is
/// delivered and any other event is passed over; a forwarder that has fallen
/// behind has missed events and goes on with those that are left; and the
/// stream ends once the bus is gone.
pub open spec fn forward_step(subscription: SubscriptionView, received: Received) -> Forward {
    match received {
        Received::Event(event) => if accepts(subscription, event@) {
            Forward::Deliver(event)
        } else {
            Forward::Skip
        },
        Received::Lagged(_) => Forward::Skip,
        Received::Closed => Forward::Stop,
    }
}

/// What became of handing an event to the subscriber.
#[derive(Clone, Copy, Debug, PartialEq, Eq, Structural)]
pub enum Delivery {
    /// The subscriber took the event.
    Taken,
    /// The subscriber is gone.
    Gone,
}

/// Whether a forwarder goes on after a delivery: it ends once the subscriber
/// is gone.
pub open spec fn goes_on(delivery: Delivery) -> bool {
    delivery == Delivery::Taken
}

/// Decides whether a forwarder goes on after a delivery.
pub fn after_delivery(delivery: Delivery) -> (go_on: bool)
    ensures
        go_on == goes_on(delivery),
{
    match delivery {
        Delivery::Taken => true,
        Delivery::Gone => false,
    }
}

/// Decides what a forwarder does with what it received.
pub fn forward(subscription: &EventSubscription, received: Received) -> (next: Forward)
    ensures
        next == forward_step(subscription@, received),
{
    match received {
        Received::Event(event) => {
            if subscription.accepts(&event) {
                Forward::Deliver(event)
            } else {
                Forward::Skip
            }
        },
        Received::Lagged(_) => Forward::Skip,
        Received::Closed => Forward::Stop,
    }
}

/// The time of an event made at `now_ms`.
pub fn event_timestamp(now_ms: u64) -> (timestamp: i64)
    ensures
        timestamp == event_time(now_ms),
{
    if now_ms > 0x7fff_ffff_ffff_ffff {
        i64::MAX
    } else {
        now_ms as i64
    }
}

/// The update that tells every proxy about a player.
pub fn player_update(player_name: String, player_ipv4: String, now_ms: u64) -> (event: ServerEvent)
    ensures
        event@ == player_update_view(player_name@, player_ipv4@, now_ms),
{
    ServerEvent {
        event_type: EventType::PlayerUpdate,
        timestamp: event_timestamp(now_ms),
        target_proxy_id: None,
        event_data: Some(EventData::PlayerUpdate(PlayerUpdateEvent { player_name, player_ipv4 })),
    }
}

/// One update for each of `players`, in their order.
pub fn player_updates(players: &Vec<PlayerIdentity>, now_ms: u64) -> (events: Vec<ServerEvent>)
    ensures
        views(events@) == views(players@).map_values(update_about(now_ms)),
{
    let mut events: Vec<ServerEvent> = Vec::new();
    let mut i: usize = 0;
    while i < players.len()
        invariant
            i <= players.len(),
            views(events@) == views(players@).take(i as int).map_values(update_about(now_ms)),
        decreases players.len() - i,
    {
        let ghost before = views(events@);
        events.push(player_update(players[i].name.clone(), players[i].address.clone(), now_ms));
        assert(views(events@) =~= before.push(update_about(now_ms)(players@[i as int]@)));
        assert(views(players@).take(i + 1).map_values(update_about(now_ms)) =~= before.push(
            update_about(now_ms)(players@[i as int]@),
        ));
        i += 1;
    }
    assert(views(players@).take(i as int) =~= views(players@));
    events
}

} // verus!
