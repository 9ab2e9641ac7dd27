use twig::events::{EventData, EventType};
use twig::bus::EventBus;
use twig::events::{EventSubscription, Forward};
use twig::linking::{
    check_redemption, check_redirect, check_token, oauth_callback, oauth_callback_at, oauth_callback_begin, redeem,
    redeem_at, Exchange, LinkError, OAuthParams, UpstreamFault, FIVE_MINUTES_MS,
};
use twig::snowflake::{generate_id, get_generator};
use twig::oauth::LinkingConfig;
use twig::store::IdentityStore;

const MADE_AT_MS: u64 = 1_700_000_000_000;

fn linkage_id(made_at_ms: u64) -> i64 {
    ((made_at_ms << 22) | 7) as i64
}

fn pending() -> IdentityStore {
    let mut store = IdentityStore::new();
    assert!(store.add_player(50, "steve", "10.0.0.1"));
    assert!(store.put_linkage(linkage_id(MADE_AT_MS), "token", 50));
    store
}

fn params(code: Option<&str>, state: Option<&str>) -> OAuthParams {
    OAuthParams { code: code.map(|s| s.to_string()), state: state.map(|s| s.to_string()) }
}

#[test]
fn redemption_links_the_player_and_names_the_event() {
    let mut store = pending();
    let event = redeem_at(&mut store, "token", Exchange::Account(4242), MADE_AT_MS + 1000).unwrap();
    assert_eq!(event.event_type, EventType::PlayerUpdate);
    assert_eq!(event.timestamp, (MADE_AT_MS + 1000) as i64);
    assert_eq!(event.target_proxy_id, None);
    match event.event_data {
        Some(EventData::PlayerUpdate(update)) => {
            assert_eq!(update.player_name, "steve");
            assert_eq!(update.player_ipv4, "10.0.0.1");
        }
        None => panic!("no payload"),
    }
    assert_eq!(store.find_player("steve", "10.0.0.1").unwrap().account, Some(4242));
}

#[test]
fn redemption_at_the_edge_of_the_window() {
    let mut store = pending();
    assert_eq!(FIVE_MINUTES_MS, 300_000);
    assert!(check_redemption(&store, "token", MADE_AT_MS + 300_000).is_ok());
    assert!(matches!(check_redemption(&store, "token", MADE_AT_MS + 300_001), Err(LinkError::Expired)));
    assert!(check_redemption(&store, "token", MADE_AT_MS).is_ok());
    assert!(check_redemption(&store, "token", MADE_AT_MS - 5).is_ok());
    let late = redeem_at(&mut store, "token", Exchange::Account(4242), MADE_AT_MS + 300_001);
    assert!(matches!(late, Err(LinkError::Expired)));
    assert_eq!(store.find_player("steve", "10.0.0.1").unwrap().account, None);
    let in_time = redeem_at(&mut store, "token", Exchange::Account(4242), MADE_AT_MS + 300_000);
    assert!(in_time.is_ok());
}

#[test]
fn a_token_is_redeemed_once() {
    let mut store = pending();
    assert!(redeem_at(&mut store, "token", Exchange::Account(4242), MADE_AT_MS + 10).is_ok());
    let again = redeem_at(&mut store, "token", Exchange::Account(4242), MADE_AT_MS + 20);
    assert!(matches!(again, Err(LinkError::InvalidToken)));
    let other = redeem_at(&mut store, "token", Exchange::Account(9), MADE_AT_MS + 20);
    assert!(matches!(other, Err(LinkError::InvalidToken)));
    assert_eq!(store.find_player("steve", "10.0.0.1").unwrap().account, Some(4242));
}

#[test]
fn unknown_tokens_are_invalid() {
    let mut store = pending();
    let unknown = redeem_at(&mut store, "nekot", Exchange::Account(4242), MADE_AT_MS + 10);
    assert!(matches!(unknown, Err(LinkError::InvalidToken)));
    assert!(!store.put_linkage(linkage_id(MADE_AT_MS), "orphan", 99));
    assert!(store.find_linkage("orphan").is_none());
    let orphan = redeem_at(&mut store, "orphan", Exchange::Account(4242), MADE_AT_MS + 10);
    assert!(matches!(orphan, Err(LinkError::InvalidToken)));
    assert_eq!(store.find_player("steve", "10.0.0.1").unwrap().account, None);
}

#[test]
fn failed_exchange_links_nothing() {
    let mut store = pending();
    let failed = redeem_at(&mut store, "token", Exchange::Failed(UpstreamFault::Contact), MADE_AT_MS + 10);
    assert!(matches!(failed, Err(LinkError::Upstream(UpstreamFault::Contact))));
    assert_eq!(store.find_player("steve", "10.0.0.1").unwrap().account, None);
    assert!(redeem_at(&mut store, "token", Exchange::Account(4242), MADE_AT_MS + 20).is_ok());
}

#[test]
fn an_account_is_held_by_one_player() {
    let mut store = pending();
    assert!(store.add_player(51, "alex", "10.0.0.2"));
    assert!(store.link_account(51, 4242));
    let taken = redeem_at(&mut store, "token", Exchange::Account(4242), MADE_AT_MS + 10);
    assert!(matches!(taken, Err(LinkError::AlreadyLinked)));
    assert_eq!(store.find_player("steve", "10.0.0.1").unwrap().account, None);
    assert!(redeem_at(&mut store, "token", Exchange::Account(4243), MADE_AT_MS + 10).is_ok());
    assert_eq!(store.find_player("steve", "10.0.0.1").unwrap().account, Some(4243));
    assert_eq!(store.find_player("alex", "10.0.0.2").unwrap().account, Some(4242));
}

#[test]
fn callback_checks_in_order() {
    let mut store = pending();
    let now = MADE_AT_MS + 10;
    let run = |store: &mut IdentityStore, configured: bool, p: OAuthParams, x: Exchange, at: u64| {
        oauth_callback_at(store, configured, &p, x, at).map(|_| ())
    };
    assert_eq!(run(&mut store, true, params(None, None), Exchange::Failed(UpstreamFault::Contact), now), Err(LinkError::NoCode));
    assert_eq!(run(&mut store, true, params(Some(""), Some("token")), Exchange::Failed(UpstreamFault::Contact), now), Err(LinkError::NoCode));
    assert_eq!(run(&mut store, true, params(Some("c"), None), Exchange::Failed(UpstreamFault::Contact), now), Err(LinkError::NoState));
    assert_eq!(run(&mut store, true, params(Some("c"), Some("")), Exchange::Failed(UpstreamFault::Contact), now), Err(LinkError::NoState));
    assert_eq!(
        run(&mut store, false, params(Some("c"), Some("nekot")), Exchange::Failed(UpstreamFault::Contact), now),
        Err(LinkError::InvalidToken)
    );
    assert_eq!(
        run(&mut store, false, params(Some("c"), Some("token")), Exchange::Failed(UpstreamFault::Contact), now + 400_000),
        Err(LinkError::Expired)
    );
    assert_eq!(
        run(&mut store, false, params(Some("c"), Some("token")), Exchange::Account(1), now),
        Err(LinkError::NotConfigured)
    );
    assert_eq!(
        run(&mut store, true, params(Some("c"), Some("token")), Exchange::Failed(UpstreamFault::Contact), now),
        Err(LinkError::Upstream(UpstreamFault::Contact))
    );
    assert_eq!(store.find_player("steve", "10.0.0.1").unwrap().account, None);
    assert_eq!(run(&mut store, true, params(Some("c"), Some("token")), Exchange::Account(1), now), Ok(()));
    assert_eq!(store.find_player("steve", "10.0.0.1").unwrap().account, Some(1));
}

#[test]
fn callback_names_what_to_exchange() {
    let store = pending();
    let config = LinkingConfig::discord("https://twig.example.com", "1234").unwrap();
    let request =
        oauth_callback_begin(&store, Some(&config), &params(Some("the-code"), Some("token")), MADE_AT_MS + 1).unwrap();
    assert_eq!(request.code, "the-code");
    assert_eq!(request.client_id, "1234");
    assert_eq!(request.redirect_uri, "https://twig.example.com/discord/callback");
    let unconfigured = oauth_callback_begin(&store, None, &params(Some("the-code"), Some("token")), MADE_AT_MS + 1);
    assert!(matches!(unconfigured, Err(LinkError::NotConfigured)));
    let stale =
        oauth_callback_begin(&store, Some(&config), &params(Some("the-code"), Some("token")), MADE_AT_MS + 300_001);
    assert!(matches!(stale, Err(LinkError::Expired)));
    let no_code = oauth_callback_begin(&store, Some(&config), &params(None, Some("token")), MADE_AT_MS + 1);
    assert!(matches!(no_code, Err(LinkError::NoCode)));
}

#[test]
fn link_errors_as_http() {
    assert_eq!(LinkError::NoCode.http_status(), 400);
    assert_eq!(LinkError::NoState.http_status(), 400);
    assert_eq!(LinkError::InvalidToken.http_status(), 400);
    assert_eq!(LinkError::Expired.http_status(), 400);
    assert_eq!(LinkError::AlreadyLinked.http_status(), 400);
    assert_eq!(LinkError::NotConfigured.http_status(), 500);
    assert_eq!(LinkError::Upstream(UpstreamFault::Contact).http_status(), 502);
    assert_eq!(LinkError::Upstream(UpstreamFault::UserResponse).http_status(), 502);
    assert_eq!(LinkError::NoCode.message(), "No code provided");
    assert_eq!(LinkError::NoState.message(), "No state provided");
    assert_eq!(LinkError::InvalidToken.message(), "Invalid state token");
    assert_eq!(LinkError::Expired.message(), "Registration token expired");
    assert_eq!(LinkError::NotConfigured.message(), "Discord OAuth is not configured");
    assert_eq!(LinkError::Upstream(UpstreamFault::Contact).message(), "Failed to contact Discord");
    assert_eq!(
        LinkError::Upstream(UpstreamFault::TokenResponse).message(),
        "Failed to parse Discord token response"
    );
    assert_eq!(LinkError::Upstream(UpstreamFault::FetchUser).message(), "Failed to fetch Discord user");
    assert_eq!(
        LinkError::Upstream(UpstreamFault::UserResponse).message(),
        "Failed to parse Discord user response"
    );
    assert_eq!(
        LinkError::AlreadyLinked.message(),
        "Este usuário do Discord já está vinculado a outra conta Minecraft."
    );
}

#[test]
fn redeeming_now_publishes_the_update() {
    let mut store = IdentityStore::new();
    let mut generator = get_generator();
    assert!(store.add_player(50, "steve", "10.0.0.1"));
    assert!(store.put_linkage(generate_id(&mut generator).unwrap(), "fresh", 50));
    let bus = EventBus::new(8).unwrap();
    let mut watcher = bus.subscribe(EventSubscription { proxy_id: "p1".to_string(), event_types: vec![] });
    assert_eq!(redeem(&mut store, &bus, "stale", Exchange::Account(7)), Err(LinkError::InvalidToken));
    assert!(watcher.poll().is_none());
    assert_eq!(redeem(&mut store, &bus, "fresh", Exchange::Failed(UpstreamFault::Contact)), Err(LinkError::Upstream(UpstreamFault::Contact)));
    assert_eq!(redeem(&mut store, &bus, "fresh", Exchange::Account(7)), Ok(()));
    assert!(matches!(watcher.poll(), Some(Forward::Deliver(_))));
    assert!(watcher.poll().is_none());
    assert_eq!(redeem(&mut store, &bus, "fresh", Exchange::Account(7)), Err(LinkError::InvalidToken));
    assert_eq!(store.player_by_id(50).unwrap().account, Some(7));
}

#[test]
fn an_old_linkage_is_expired_now() {
    let mut store = IdentityStore::new();
    assert!(store.add_player(50, "steve", "10.0.0.1"));
    assert!(store.put_linkage(linkage_id(MADE_AT_MS), "old", 50));
    let bus = EventBus::new(8).unwrap();
    assert_eq!(redeem(&mut store, &bus, "old", Exchange::Account(7)), Err(LinkError::Expired));
    assert_eq!(store.player_by_id(50).unwrap().account, None);
}

#[test]
fn a_redirect_is_checked_before_the_clock() {
    let mut store = pending();
    assert_eq!(check_redirect(&store, &params(None, None)), Some(LinkError::NoCode));
    assert_eq!(check_redirect(&store, &params(None, Some("token"))), Some(LinkError::NoCode));
    assert_eq!(check_redirect(&store, &params(Some(""), Some(""))), Some(LinkError::NoCode));
    assert_eq!(check_redirect(&store, &params(Some("c"), None)), Some(LinkError::NoState));
    assert_eq!(check_redirect(&store, &params(Some("c"), Some(""))), Some(LinkError::NoState));
    assert_eq!(check_redirect(&store, &params(Some("c"), Some("nekot"))), Some(LinkError::InvalidToken));
    assert_eq!(check_redirect(&store, &params(Some("c"), Some("token"))), None);
    let (linkage, player) = check_token(&store, "token").unwrap();
    assert_eq!(linkage.state_token, "token");
    assert_eq!(player.id, 50);
    assert!(matches!(check_token(&store, "nekot"), Err(LinkError::InvalidToken)));
    let bus = EventBus::new(8).unwrap();
    let run = |store: &mut IdentityStore, p: OAuthParams| {
        oauth_callback(store, &bus, true, &p, Exchange::Account(7))
    };
    assert_eq!(run(&mut store, params(None, None)), Err(LinkError::NoCode));
    assert_eq!(run(&mut store, params(Some("c"), None)), Err(LinkError::NoState));
    assert_eq!(run(&mut store, params(Some("c"), Some("nekot"))), Err(LinkError::InvalidToken));
    assert_eq!(run(&mut store, params(Some("c"), Some("token"))), Err(LinkError::Expired));
    assert!(store.link_account(50, 9));
    assert_eq!(run(&mut store, params(Some("c"), Some("token"))), Err(LinkError::InvalidToken));
    assert_eq!(check_redirect(&store, &params(Some("c"), Some("token"))), Some(LinkError::InvalidToken));
}
