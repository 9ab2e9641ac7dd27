use twig::access::{AccessStatus, AccessStep, PlayerAccessRequest};
use twig::bus::{
    broadcast_all, broadcast_each, broadcast_event, count_reached, guild_member_removal, EventBus, Subscriber,
    MAX_CAPACITY,
};
use twig::events::{
    after_delivery, event_timestamp, forward, player_update, player_updates, Delivery, EventData, EventSubscription,
    EventType, Forward, Received, ServerEvent,
};
use twig::linking::{Exchange, OAuthParams};
use twig::minecraft::MinecraftServerType;
use twig::model::PlayerIdentity;
use twig::oauth::LinkingConfig;
use twig::service::{member_updates, GrpcServiceState, MinecraftBridgeService};
use twig::snowflake::get_generator;
use twig::store::IdentityStore;

fn subscription(proxy: &str, types: Vec<EventType>) -> EventSubscription {
    EventSubscription { proxy_id: proxy.to_string(), event_types: types }
}

fn update(target: Option<&str>) -> ServerEvent {
    let mut event = player_update("steve".to_string(), "10.0.0.1".to_string(), 1000);
    event.target_proxy_id = target.map(|t| t.to_string());
    event
}

fn delivered(subscriber: &mut Subscriber) -> Vec<ServerEvent> {
    let mut out = Vec::new();
    loop {
        match subscriber.poll() {
            None => return out,
            Some(Forward::Deliver(event)) => out.push(event),
            Some(Forward::Skip) => {}
            Some(Forward::Stop) => return out,
        }
    }
}

#[test]
fn untargeted_event_reaches_every_subscriber_and_a_targeted_one_its_proxy() {
    let bus = EventBus::new(16).unwrap();
    let mut a = bus.subscribe(subscription("", vec![EventType::PlayerUpdate]));
    let mut b = bus.subscribe(subscription("p2", vec![]));
    assert_eq!(broadcast_event(&bus, update(None)), 2);
    assert_eq!(delivered(&mut a).len(), 1);
    assert_eq!(delivered(&mut b).len(), 1);
    assert_eq!(broadcast_event(&bus, update(Some("p2"))), 2);
    assert_eq!(delivered(&mut a).len(), 0);
    let for_b = delivered(&mut b);
    assert_eq!(for_b.len(), 1);
    assert_eq!(for_b[0].target_proxy_id.as_deref(), Some("p2"));
}

#[test]
fn filters() {
    let all = subscription("p1", vec![]);
    let updates = subscription("p1", vec![EventType::PlayerUpdate]);
    assert!(all.wants(EventType::PlayerUpdate));
    assert!(updates.wants(EventType::PlayerUpdate));
    assert!(all.accepts(&update(None)));
    assert!(all.accepts(&update(Some(""))));
    assert!(all.accepts(&update(Some("p1"))));
    assert!(!all.accepts(&update(Some("p2"))));
    assert!(!all.accepts(&update(Some("P1"))));
    assert!(updates.accepts(&update(Some("p1"))));
    assert!(!updates.accepts(&update(Some("p11"))));
    assert!(!subscription("", vec![]).accepts(&update(Some("p1"))));
}

#[test]
fn forwarder_steps() {
    let sub = subscription("p1", vec![]);
    assert!(matches!(forward(&sub, Received::Event(update(None))), Forward::Deliver(_)));
    assert!(matches!(forward(&sub, Received::Event(update(Some("p2")))), Forward::Skip));
    assert!(matches!(forward(&sub, Received::Lagged(3)), Forward::Skip));
    assert!(matches!(forward(&sub, Received::Closed), Forward::Stop));
    match forward(&sub, Received::Event(update(Some("p1")))) {
        Forward::Deliver(event) => {
            assert_eq!(event.timestamp, 1000);
            assert_eq!(event.target_proxy_id.as_deref(), Some("p1"));
        }
        other => panic!("{:?}", other),
    }
}

#[test]
fn publishing_to_nobody() {
    let bus = EventBus::new(4).unwrap();
    assert_eq!(broadcast_event(&bus, update(None)), 0);
    let mut late = bus.subscribe(subscription("p1", vec![]));
    assert!(late.poll().is_none());
    assert_eq!(guild_member_removal(&bus, "steve".to_string(), "10.0.0.1".to_string()), 1);
    let got = delivered(&mut late);
    assert_eq!(got.len(), 1);
    assert!(got[0].timestamp > 1_600_000_000_000);
    assert_eq!(got[0].target_proxy_id, None);
    drop(late);
    assert_eq!(broadcast_event(&bus, update(None)), 0);
}

#[test]
fn bus_capacities() {
    assert!(EventBus::new(0).is_none());
    assert!(EventBus::new(1).is_some());
    assert!(EventBus::new(100).is_some());
    assert!(EventBus::new(MAX_CAPACITY + 1).is_none());
    assert!(EventBus::new(usize::MAX).is_none());
}

#[test]
fn a_subscriber_that_falls_behind_misses_events_and_goes_on() {
    let bus = EventBus::new(2).unwrap();
    let mut slow = bus.subscribe(subscription("p1", vec![]));
    for stamp in 0..5u64 {
        assert_eq!(broadcast_event(&bus, player_update("steve".to_string(), "10.0.0.1".to_string(), stamp)), 1);
    }
    assert!(matches!(slow.poll(), Some(Forward::Skip)));
    let left = delivered(&mut slow);
    let stamps: Vec<i64> = left.iter().map(|e| e.timestamp).collect();
    assert_eq!(stamps, vec![3, 4]);
    assert_eq!(broadcast_event(&bus, update(None)), 1);
    assert_eq!(delivered(&mut slow).len(), 1);
}

#[test]
fn a_closed_bus_stops_the_stream() {
    let bus = EventBus::new(2).unwrap();
    let mut sub = bus.subscribe(subscription("p1", vec![]));
    assert_eq!(broadcast_event(&bus, update(None)), 1);
    drop(bus);
    assert!(matches!(sub.poll(), Some(Forward::Deliver(_))));
    assert!(matches!(sub.poll(), Some(Forward::Stop)));
}

#[test]
fn subscriber_parts() {
    let bus = EventBus::new(2).unwrap();
    let sub = bus.subscribe(subscription("p1", vec![EventType::PlayerUpdate]));
    assert_eq!(sub.filter().proxy_id, "p1");
    let (mut receiver, filter) = sub.into_parts();
    assert_eq!(filter.event_types, vec![EventType::PlayerUpdate]);
    assert_eq!(broadcast_event(&bus, update(None)), 1);
    assert!(receiver.try_recv().is_ok());
}

#[test]
fn event_times() {
    assert_eq!(event_timestamp(0), 0);
    assert_eq!(event_timestamp(1_700_000_000_000), 1_700_000_000_000);
    assert_eq!(event_timestamp(i64::MAX as u64), i64::MAX);
    assert_eq!(event_timestamp(i64::MAX as u64 + 1), i64::MAX);
    assert_eq!(event_timestamp(u64::MAX), i64::MAX);
}

#[test]
fn updates_for_players() {
    let players = vec![
        PlayerIdentity { id: 1, name: "steve".to_string(), address: "10.0.0.1".to_string(), account: Some(7) },
        PlayerIdentity { id: 2, name: "alex".to_string(), address: "10.0.0.2".to_string(), account: Some(7) },
    ];
    let events = player_updates(&players, 55);
    assert_eq!(events.len(), 2);
    for (event, player) in events.iter().zip(players.iter()) {
        assert_eq!(event.event_type, EventType::PlayerUpdate);
        assert_eq!(event.timestamp, 55);
        assert_eq!(event.target_proxy_id, None);
        match &event.event_data {
            Some(EventData::PlayerUpdate(update)) => {
                assert_eq!(update.player_name, player.name);
                assert_eq!(update.player_ipv4, player.address);
            }
            None => panic!("no payload"),
        }
    }
    assert!(player_updates(&vec![], 55).is_empty());
}

#[test]
fn updates_for_the_players_of_an_account() {
    let mut store = IdentityStore::new();
    assert!(store.add_player(1, "steve", "10.0.0.1"));
    assert!(store.add_player(2, "alex", "10.0.0.2"));
    assert!(store.add_player(3, "steve", "10.0.0.3"));
    assert!(store.link_account(1, 7));
    assert!(store.link_account(2, 8));
    assert!(store.link_account(3, 7));
    let events = member_updates(&store, 7, 99);
    let addresses: Vec<String> = events
        .iter()
        .map(|e| match &e.event_data {
            Some(EventData::PlayerUpdate(update)) => update.player_ipv4.clone(),
            None => String::new(),
        })
        .collect();
    assert_eq!(addresses, vec!["10.0.0.1".to_string(), "10.0.0.3".to_string()]);
    assert!(member_updates(&store, 9, 99).is_empty());
    let bus = EventBus::new(8).unwrap();
    assert_eq!(broadcast_all(&bus, &events), 0);
    let mut sub = bus.subscribe(subscription("p1", vec![]));
    assert_eq!(broadcast_all(&bus, &events), 2);
    assert_eq!(delivered(&mut sub).len(), 2);
}

fn service() -> MinecraftBridgeService {
    MinecraftBridgeService::new(GrpcServiceState {
        store: IdentityStore::new(),
        event_tx: EventBus::new(100).unwrap(),
        generator: get_generator(),
        config: LinkingConfig::discord("https://twig.example.com", "1234"),
    })
}

#[test]
fn unknown_player_signs_up_and_one_update_is_published() {
    let mut service = service();
    service.register_proxy("p1", &vec!["arena".to_string()]).unwrap();
    assert!(service.assign_group("p1", Some(900)));
    assert!(service.configure_server("p1", "arena", Some(MinecraftServerType::Game), Some(77)));
    assert!(!service.assign_group("p9", Some(900)));
    assert!(!service.configure_server("p1", "nowhere", None, None));
    let mut watcher = service.subscribe_events(subscription("p1", vec![]));
    let request = PlayerAccessRequest {
        player_name: "steve".to_string(),
        player_ipv4: "10.0.0.1".to_string(),
        server_name: "arena".to_string(),
        proxy_id: "p1".to_string(),
    };
    let response = match service.check_player_access(&request) {
        Ok(AccessStep::Respond(response)) => response,
        other => panic!("{:?}", other),
    };
    assert_eq!(response.status, AccessStatus::RequiresSignup);
    assert_eq!(response.expires_in, Some(300));
    let url = response.authentication_url.unwrap();
    assert!(url.starts_with("https://discord.com/oauth2/authorize?client_id=1234&"));
    let token = url.rsplit("state=").next().unwrap().to_string();
    assert!(delivered(&mut watcher).is_empty());
    let params = OAuthParams { code: Some("code".to_string()), state: Some(token.clone()) };
    assert_eq!(service.oauth_callback(&params, Exchange::Account(4242)), Ok("Sucesso!".to_string()));
    let seen = delivered(&mut watcher);
    assert_eq!(seen.len(), 1);
    assert_eq!(seen[0].event_type, EventType::PlayerUpdate);
    match &seen[0].event_data {
        Some(EventData::PlayerUpdate(update)) => {
            assert_eq!(update.player_name, "steve");
            assert_eq!(update.player_ipv4, "10.0.0.1");
        }
        None => panic!("no payload"),
    }
    assert_eq!(service.identity_store().find_player("steve", "10.0.0.1").unwrap().account, Some(4242));
    assert!(service.oauth_callback(&params, Exchange::Account(4242)).is_err());
    assert!(delivered(&mut watcher).is_empty());
    assert!(matches!(service.check_player_access(&request), Ok(AccessStep::Lookup(_))));
    assert_eq!(service.guild_member_update(4242), 1);
    assert_eq!(delivered(&mut watcher).len(), 1);
    assert_eq!(service.guild_member_update(1), 0);
}

#[test]
fn successes_are_counted() {
    assert_eq!(count_reached(&vec![]), 0);
    assert_eq!(count_reached(&vec![0]), 0);
    assert_eq!(count_reached(&vec![3]), 1);
    assert_eq!(count_reached(&vec![1, 0, 2, 1, 0]), 3);
}

#[test]
fn each_event_has_its_outcome() {
    let bus = EventBus::new(8).unwrap();
    let events = vec![update(None), update(Some("p1")), update(None)];
    assert_eq!(broadcast_each(&bus, &events), vec![0, 0, 0]);
    assert_eq!(broadcast_all(&bus, &events), 0);
    let mut first = bus.subscribe(subscription("p1", vec![]));
    let mut second = bus.subscribe(subscription("p2", vec![]));
    assert_eq!(broadcast_each(&bus, &events), vec![2, 2, 2]);
    assert_eq!(delivered(&mut first).len(), 3);
    assert_eq!(delivered(&mut second).len(), 2);
    drop(second);
    assert_eq!(broadcast_each(&bus, &events), vec![1, 1, 1]);
    assert_eq!(broadcast_all(&bus, &events), 3);
    assert_eq!(delivered(&mut first).len(), 6);
    assert!(broadcast_each(&bus, &vec![]).is_empty());
    assert_eq!(broadcast_all(&bus, &vec![]), 0);
}

#[test]
fn a_forwarder_ends_when_its_subscriber_is_gone() {
    assert!(after_delivery(Delivery::Taken));
    assert!(!after_delivery(Delivery::Gone));
}

#[test]
fn an_event_published_to_nobody_is_not_kept() {
    let bus = EventBus::new(8).unwrap();
    assert_eq!(bus.publish(update(None)), 0);
    let mut late = bus.subscribe(subscription("p1", vec![]));
    assert!(late.poll().is_none());
    assert_eq!(bus.publish(update(None)), 1);
    assert_eq!(delivered(&mut late).len(), 1);
}
