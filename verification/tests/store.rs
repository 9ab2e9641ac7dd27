use twig::minecraft::MinecraftServerType;
use twig::store::IdentityStore;

#[test]
fn a_new_store_is_empty() {
    let store = IdentityStore::new();
    assert!(store.proxies().is_empty());
    assert!(store.servers().is_empty());
    assert!(store.players().is_empty());
    assert!(store.linkages().is_empty());
    assert_eq!(store.proxy_group("p1"), None);
    assert!(store.find_server("p1", "lobby").is_none());
    assert!(store.find_player("steve", "10.0.0.1").is_none());
    assert!(store.player_by_id(1).is_none());
    assert!(store.find_linkage("token").is_none());
    assert!(!store.has_other_holder(1, 1));
}

#[test]
fn proxies_are_kept_apart_by_identifier() {
    let mut store = IdentityStore::new();
    store.ensure_proxy("p1");
    store.ensure_proxy("p2");
    assert!(store.assign_group("p1", Some(7)));
    store.ensure_proxy("p1");
    assert_eq!(store.proxies().len(), 2);
    assert_eq!(store.proxy_group("p1"), Some(Some(7)));
    assert_eq!(store.proxy_group("p2"), Some(None));
    assert!(store.assign_group("p1", None));
    assert_eq!(store.proxy_group("p1"), Some(None));
}

#[test]
fn servers_stand_behind_stored_proxies() {
    let mut store = IdentityStore::new();
    assert!(!store.add_server(1, "p1", "lobby"));
    store.ensure_proxy("p1");
    store.ensure_proxy("p2");
    assert!(store.add_server(1, "p1", "lobby"));
    assert!(!store.add_server(2, "p1", "lobby"));
    assert!(store.add_server(3, "p2", "lobby"));
    assert!(store.add_server(4, "p1", "arena"));
    assert_eq!(store.find_server("p1", "lobby").unwrap().id, 1);
    assert_eq!(store.find_server("p2", "lobby").unwrap().id, 3);
    let of_p1: Vec<i64> = store.servers_of("p1").iter().map(|s| s.id).collect();
    assert_eq!(of_p1, vec![1, 4]);
    store.retain_servers("p1", &vec!["arena".to_string(), "duel".to_string()]);
    let left: Vec<i64> = store.servers().iter().map(|s| s.id).collect();
    assert_eq!(left, vec![3, 4]);
}

#[test]
fn only_game_servers_keep_a_role() {
    let mut store = IdentityStore::new();
    store.ensure_proxy("p1");
    assert!(store.add_server(1, "p1", "s"));
    assert!(store.configure_server("p1", "s", Some(MinecraftServerType::Game), Some(5)));
    assert_eq!(store.find_server("p1", "s").unwrap().role, Some(5));
    assert!(store.configure_server("p1", "s", Some(MinecraftServerType::Game), None));
    assert_eq!(store.find_server("p1", "s").unwrap().role, None);
    assert_eq!(store.find_server("p1", "s").unwrap().kind, Some(MinecraftServerType::Game));
    assert!(store.configure_server("p1", "s", None, Some(5)));
    assert_eq!(store.find_server("p1", "s").unwrap().role, None);
    assert_eq!(store.find_server("p1", "s").unwrap().kind, None);
    assert_eq!(store.find_server("p1", "s").unwrap().id, 1);
}

#[test]
fn players_are_kept_apart_by_key_and_identifier() {
    let mut store = IdentityStore::new();
    assert!(store.add_player(1, "steve", "10.0.0.1"));
    assert!(!store.add_player(2, "steve", "10.0.0.1"));
    assert!(!store.add_player(1, "alex", "10.0.0.2"));
    assert!(store.add_player(2, "steve", "10.0.0.2"));
    assert!(store.add_player(3, "alex", "10.0.0.1"));
    assert_eq!(store.players().len(), 3);
    assert_eq!(store.find_player("steve", "10.0.0.2").unwrap().id, 2);
    assert_eq!(store.player_by_id(3).unwrap().name, "alex");
    assert!(!store.link_account(9, 70));
    assert!(store.link_account(2, 70));
    assert!(store.link_account(3, 70));
    assert!(store.has_other_holder(70, 1));
    assert!(store.has_other_holder(70, 2));
    assert!(!store.has_other_holder(71, 1));
    assert!(store.link_account(3, 71));
    assert!(!store.has_other_holder(70, 2));
    let linked: Vec<i64> = store.players_linked_to(70).iter().map(|p| p.id).collect();
    assert_eq!(linked, vec![2]);
}

#[test]
fn a_player_has_one_linkage_and_a_token_one_player() {
    let mut store = IdentityStore::new();
    assert!(store.add_player(1, "steve", "10.0.0.1"));
    assert!(store.add_player(2, "alex", "10.0.0.2"));
    assert!(!store.put_linkage(10, "a", 3));
    assert!(store.put_linkage(10, "a", 1));
    assert!(store.put_linkage(11, "b", 2));
    assert!(store.put_linkage(12, "c", 1));
    assert!(store.find_linkage("a").is_none());
    assert_eq!(store.find_linkage("c").unwrap().player_id, 1);
    assert_eq!(store.linkage_of_player(1).unwrap().state_token, "c");
    assert_eq!(store.linkage_of_player(2).unwrap().id, 11);
    assert!(store.linkage_of_player(3).is_none());
    assert!(store.put_linkage(13, "b", 1));
    assert!(store.linkage_of_player(2).is_none());
    let left: Vec<(i64, String, i64)> =
        store.linkages().into_iter().map(|l| (l.id, l.state_token, l.player_id)).collect();
    assert_eq!(left, vec![(13, "b".to_string(), 1)]);
}
