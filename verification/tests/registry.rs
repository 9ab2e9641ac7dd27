use twig::minecraft::MinecraftServerType;
use twig::registry::{
    has_unique_elements, register_proxy, register_proxy_with, RegistrationResponse, RegistryError,
};
use twig::snowflake::get_generator;
use twig::status::StatusCode;
use twig::store::IdentityStore;

fn names(list: &[&str]) -> Vec<String> {
    list.iter().map(|s| s.to_string()).collect()
}

fn stored_names(store: &IdentityStore, proxy: &str) -> Vec<String> {
    let mut found: Vec<String> = store.servers_of(proxy).into_iter().map(|s| s.name).collect();
    found.sort();
    found
}

#[test]
fn reregistration_keeps_arena_and_its_identifier() {
    let mut store = IdentityStore::new();
    let mut generator = get_generator();
    let first = register_proxy(&mut store, &mut generator, "p1", &names(&["lobby", "arena"]));
    assert_eq!(first, Ok(RegistrationResponse { success: true }));
    let arena_before = store.find_server("p1", "arena").unwrap();
    let second = register_proxy(&mut store, &mut generator, "p1", &names(&["arena", "duel"]));
    assert_eq!(second, Ok(RegistrationResponse { success: true }));
    assert_eq!(stored_names(&store, "p1"), names(&["arena", "duel"]));
    let arena_after = store.find_server("p1", "arena").unwrap();
    assert_eq!(arena_after.id, arena_before.id);
    assert!(store.find_server("p1", "lobby").is_none());
}

#[test]
fn reregistration_keeps_kind_and_role() {
    let mut store = IdentityStore::new();
    let ids = vec![11, 12];
    register_proxy_with(&mut store, "p1", &names(&["lobby", "arena"]), &ids).unwrap();
    assert!(store.configure_server("p1", "arena", Some(MinecraftServerType::Game), Some(77)));
    assert!(store.assign_group("p1", Some(5)));
    register_proxy_with(&mut store, "p1", &names(&["duel", "arena"]), &vec![21, 22]).unwrap();
    let arena = store.find_server("p1", "arena").unwrap();
    assert_eq!(arena.id, 12);
    assert_eq!(arena.kind, Some(MinecraftServerType::Game));
    assert_eq!(arena.role, Some(77));
    let duel = store.find_server("p1", "duel").unwrap();
    assert_eq!(duel.id, 21);
    assert_eq!(duel.kind, None);
    assert_eq!(duel.role, None);
    assert_eq!(store.proxy_group("p1"), Some(Some(5)));
}

#[test]
fn new_servers_take_the_identifier_at_their_position() {
    let mut store = IdentityStore::new();
    register_proxy_with(&mut store, "p1", &names(&["a", "b", "c"]), &vec![1, 2, 3]).unwrap();
    assert_eq!(store.find_server("p1", "a").unwrap().id, 1);
    assert_eq!(store.find_server("p1", "b").unwrap().id, 2);
    assert_eq!(store.find_server("p1", "c").unwrap().id, 3);
    register_proxy_with(&mut store, "p1", &names(&["c", "d"]), &vec![8, 9]).unwrap();
    assert_eq!(store.find_server("p1", "c").unwrap().id, 3);
    assert_eq!(store.find_server("p1", "d").unwrap().id, 9);
}

#[test]
fn duplicate_name_changes_nothing() {
    let mut store = IdentityStore::new();
    let mut generator = get_generator();
    register_proxy(&mut store, &mut generator, "p1", &names(&["lobby"])).unwrap();
    let result = register_proxy(&mut store, &mut generator, "p1", &names(&["a", "b", "a"]));
    assert_eq!(result, Err(RegistryError::DuplicateServerNames));
    assert_eq!(stored_names(&store, "p1"), names(&["lobby"]));
    let unknown = register_proxy(&mut store, &mut generator, "p9", &names(&["x", "x"]));
    assert_eq!(unknown, Err(RegistryError::DuplicateServerNames));
    assert_eq!(store.proxy_group("p9"), None);
}

#[test]
fn empty_proxy_id_is_refused_before_duplicates() {
    let mut store = IdentityStore::new();
    let mut generator = get_generator();
    let result = register_proxy(&mut store, &mut generator, "", &names(&["a", "a"]));
    assert_eq!(result, Err(RegistryError::EmptyProxyId));
    assert_eq!(store.proxy_group(""), None);
}

#[test]
fn empty_list_drops_every_server_of_the_proxy_only() {
    let mut store = IdentityStore::new();
    let mut generator = get_generator();
    register_proxy(&mut store, &mut generator, "p1", &names(&["lobby", "arena"])).unwrap();
    register_proxy(&mut store, &mut generator, "p2", &names(&["lobby"])).unwrap();
    register_proxy(&mut store, &mut generator, "p1", &names(&[])).unwrap();
    assert!(store.servers_of("p1").is_empty());
    assert_eq!(stored_names(&store, "p2"), names(&["lobby"]));
    assert_eq!(store.proxy_group("p1"), Some(None));
}

#[test]
fn registration_creates_the_proxy_once() {
    let mut store = IdentityStore::new();
    let mut generator = get_generator();
    assert_eq!(store.proxy_group("p1"), None);
    register_proxy(&mut store, &mut generator, "p1", &names(&[])).unwrap();
    assert_eq!(store.proxy_group("p1"), Some(None));
    assert!(store.assign_group("p1", Some(42)));
    register_proxy(&mut store, &mut generator, "p1", &names(&["lobby"])).unwrap();
    assert_eq!(store.proxy_group("p1"), Some(Some(42)));
}

#[test]
fn fresh_servers_get_distinct_identifiers() {
    let mut store = IdentityStore::new();
    let mut generator = get_generator();
    register_proxy(&mut store, &mut generator, "p1", &names(&["a", "b", "c"])).unwrap();
    let mut ids: Vec<i64> = store.servers_of("p1").into_iter().map(|s| s.id).collect();
    assert!(ids.iter().all(|id| *id >= 0));
    ids.sort();
    ids.dedup();
    assert_eq!(ids.len(), 3);
}

#[test]
fn unique_elements() {
    assert!(has_unique_elements(&names(&[])));
    assert!(has_unique_elements(&names(&["a"])));
    assert!(has_unique_elements(&names(&["a", "b", "c"])));
    assert!(!has_unique_elements(&names(&["a", "b", "a"])));
    assert!(!has_unique_elements(&names(&["", ""])));
    assert!(has_unique_elements(&names(&["a", "A"])));
}

#[test]
fn registry_errors_are_faults_of_the_request() {
    assert_eq!(RegistryError::EmptyProxyId.status(), StatusCode::InvalidArgument);
    assert_eq!(RegistryError::DuplicateServerNames.status(), StatusCode::InvalidArgument);
    assert_eq!(RegistryError::EmptyProxyId.message(), "proxy_id cannot be empty");
    assert_eq!(RegistryError::DuplicateServerNames.message(), "Server names must be unique");
    assert_eq!(RegistryError::IdentifiersSpent.status(), StatusCode::Internal);
    assert_eq!(RegistryError::IdentifiersSpent.message(), "No identifier is left");
}

#[test]
fn lobby_keeps_no_role() {
    let mut store = IdentityStore::new();
    register_proxy_with(&mut store, "p1", &names(&["lobby"]), &vec![1]).unwrap();
    assert!(store.configure_server("p1", "lobby", Some(MinecraftServerType::Lobby), Some(9)));
    let lobby = store.find_server("p1", "lobby").unwrap();
    assert_eq!(lobby.kind, Some(MinecraftServerType::Lobby));
    assert_eq!(lobby.role, None);
    assert!(!store.configure_server("p1", "nowhere", None, None));
    assert!(!store.assign_group("p7", Some(1)));
}

#[test]
fn an_empty_name_is_passed_over() {
    let mut store = IdentityStore::new();
    register_proxy_with(&mut store, "p1", &names(&["lobby", "", "arena"]), &vec![1, 2, 3]).unwrap();
    assert_eq!(stored_names(&store, "p1"), names(&["arena", "lobby"]));
    assert_eq!(store.find_server("p1", "arena").unwrap().id, 3);
    assert!(store.find_server("p1", "").is_none());
    let mut generator = get_generator();
    register_proxy(&mut store, &mut generator, "p1", &names(&[""])).unwrap();
    assert!(store.servers_of("p1").is_empty());
}

#[test]
fn drawn_identifiers_rise() {
    let mut store = IdentityStore::new();
    let mut generator = get_generator();
    let list: Vec<String> = (0..50).map(|i| format!("s{}", i)).collect();
    register_proxy(&mut store, &mut generator, "p1", &list).unwrap();
    let ids: Vec<i64> = store.servers_of("p1").iter().map(|s| s.id).collect();
    assert_eq!(ids.len(), 50);
    assert!(ids.windows(2).all(|w| w[0] < w[1]));
    assert!(ids[0] >= 0);
}

fn spent_generator() -> twig::snowflake::IdGenerator {
    let mut generator = get_generator();
    for _ in 0..4096 {
        assert!(generator.draw_at(Some(u64::MAX)).is_some());
    }
    assert!(generator.is_spent());
    generator
}

#[test]
fn a_spent_generator_registers_nothing_new() {
    let mut store = IdentityStore::new();
    let mut fresh = get_generator();
    register_proxy(&mut store, &mut fresh, "p1", &names(&["lobby"])).unwrap();
    let mut spent = spent_generator();
    let result = register_proxy(&mut store, &mut spent, "p1", &names(&["arena"]));
    assert_eq!(result, Err(RegistryError::IdentifiersSpent));
    assert_eq!(stored_names(&store, "p1"), names(&["lobby"]));
    assert_eq!(store.proxy_group("p2"), None);
    let other = register_proxy(&mut store, &mut spent, "p2", &names(&["a"]));
    assert_eq!(other, Err(RegistryError::IdentifiersSpent));
    assert_eq!(store.proxy_group("p2"), None);
    assert_eq!(register_proxy(&mut store, &mut spent, "", &names(&["a"])), Err(RegistryError::EmptyProxyId));
    assert!(register_proxy(&mut store, &mut spent, "p1", &names(&[])).is_ok());
    assert!(store.servers_of("p1").is_empty());
}

#[test]
fn identifiers_of_two_registrations_differ() {
    let mut store = IdentityStore::new();
    let mut generator = get_generator();
    register_proxy(&mut store, &mut generator, "p1", &names(&["lobby", "arena"])).unwrap();
    let arena = store.find_server("p1", "arena").unwrap().id;
    let lobby = store.find_server("p1", "lobby").unwrap().id;
    register_proxy(&mut store, &mut generator, "p1", &names(&["arena", "duel"])).unwrap();
    let duel = store.find_server("p1", "duel").unwrap().id;
    assert_eq!(store.find_server("p1", "arena").unwrap().id, arena);
    assert!(duel > arena && duel > lobby);
    register_proxy(&mut store, &mut generator, "p2", &names(&["lobby"])).unwrap();
    assert!(store.find_server("p2", "lobby").unwrap().id > duel);
}
