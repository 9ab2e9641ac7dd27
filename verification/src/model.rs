//! The entities the service keeps, and what each one is to the proofs.

use crate::minecraft::MinecraftServerType;
use vstd::prelude::*;

verus! {

/// A client process that fronts game servers. `group` is the community group
/// it answers to, once one has been assigned.
#[derive(Debug)]
pub struct Proxy {
    pub id: String,
    pub group: Option<u64>,
}

/// A game server behind a proxy. Its name is unique within the proxy; its kind
/// and required role are assigned after registration.
#[derive(Debug)]
pub struct Server {
    pub id: i64,
    pub proxy_id: String,
    pub name: String,
    pub kind: Option<MinecraftServerType>,
    pub role: Option<u64>,
}

/// A player as the proxies see one: a display name at a network address, and
/// the community account it has been linked to, if any.
#[derive(Debug)]
pub struct PlayerIdentity {
    pub id: i64,
    pub name: String,
    pub address: String,
    pub account: Option<u64>,
}

/// An offer to link a player to a community account. The identifier carries
/// the moment the offer was made; the token is handed to the player.
#[derive(Debug)]
pub struct PendingLinkage {
    pub id: i64,
    pub state_token: String,
    pub player_id: i64,
}

pub struct ProxyView {
    pub id: Seq<char>,
    pub group: Option<u64>,
}

pub struct ServerView {
    pub id: i64,
    pub proxy_id: Seq<char>,
    pub name: Seq<char>,
    pub kind: Option<MinecraftServerType>,
    pub role: Option<u64>,
}

pub struct PlayerView {
    pub id: i64,
    pub name: Seq<char>,
    pub address: Seq<char>,
    pub account: Option<u64>,
}

pub struct LinkageView {
    pub id: i64,
    pub state_token: Seq<char>,
    pub player_id: i64,
}

impl View for Proxy {
    type V = ProxyView;

    open spec fn view(&self) -> ProxyView {
        ProxyView { id: self.id@, group: self.group }
    }
}

impl View for Server {
    type V = ServerView;

    open spec fn view(&self) -> ServerView {
        ServerView {
            id: self.id,
            proxy_id: self.proxy_id@,
            name: self.name@,
            kind: self.kind,
            role: self.role,
        }
    }
}

impl View for PlayerIdentity {
    type V = PlayerView;

    open spec fn view(&self) -> PlayerView {
        PlayerView { id: self.id, name: self.name@, address: self.address@, account: self.account }
    }
}

impl View for PendingLinkage {
    type V = LinkageView;

    open spec fn view(&self) -> LinkageView {
        LinkageView { id: self.id, state_token: self.state_token@, player_id: self.player_id }
    }
}

impl Clone for Proxy {
    fn clone(&self) -> (copy: Self)
        ensures
            copy@ == self@,
    {
        Proxy { id: self.id.clone(), group: self.group }
    }
}

impl Clone for Server {
    fn clone(&self) -> (copy: Self)
        ensures
            copy@ == self@,
    {
        Server {
            id: self.id,
            proxy_id: self.proxy_id.clone(),
            name: self.name.clone(),
            kind: self.kind,
            role: self.role,
        }
    }
}

impl Clone for PlayerIdentity {
    fn clone(&self) -> (copy: Self)
        ensures
            copy@ == self@,
    {
        PlayerIdentity {
            id: self.id,
            name: self.name.clone(),
            address: self.address.clone(),
            account: self.account,
        }
    }
}

impl Clone for PendingLinkage {
    fn clone(&self) -> (copy: Self)
        ensures
            copy@ == self@,
    {
        PendingLinkage {
            id: self.id,
            state_token: self.state_token.clone(),
            player_id: self.player_id,
        }
    }
}

/// The view of an optional row.
pub open spec fn view_of<T: View>(row: Option<T>) -> Option<T::V> {
    match row {
        Some(r) => Some(r@),
        None => None,
    }
}

/// The views of a run of rows.
pub open spec fn views<T: View>(rows: Seq<T>) -> Seq<T::V> {
    rows.map_values(|r: T| r@)
}

/// The views of a run of strings.
pub open spec fn texts(strings: Seq<String>) -> Seq<Seq<char>> {
    strings.map_values(|s: String| s@)
}

/// Selects the proxy with the given identifier.
pub open spec fn proxy_is(id: Seq<char>) -> spec_fn(ProxyView) -> bool {
    |r: ProxyView| r.id == id
}

/// Selects the server of the given name behind the given proxy.
pub open spec fn server_is(proxy: Seq<char>, name: Seq<char>) -> spec_fn(ServerView) -> bool {
    |r: ServerView| r.proxy_id == proxy && r.name == name
}

/// Selects the servers behind the given proxy.
pub open spec fn behind(proxy: Seq<char>) -> spec_fn(ServerView) -> bool {
    |r: ServerView| r.proxy_id == proxy
}

/// Selects the player of the given name at the given address.
pub open spec fn player_is(name: Seq<char>, address: Seq<char>) -> spec_fn(PlayerView) -> bool {
    |r: PlayerView| r.name == name && r.address == address
}

/// Selects the player with the given identifier.
pub open spec fn player_has_id(id: i64) -> spec_fn(PlayerView) -> bool {
    |r: PlayerView| r.id == id
}

/// Selects a player linked to `account` other than the player `player_id`.
pub open spec fn other_holder(account: u64, player_id: i64) -> spec_fn(PlayerView) -> bool {
    |r: PlayerView| r.account == Some(account) && r.id != player_id
}

/// Selects the players linked to `account`.
pub open spec fn linked_to(account: u64) -> spec_fn(PlayerView) -> bool {
    |r: PlayerView| r.account == Some(account)
}

/// Selects the linkage of the player with the given identifier.
pub open spec fn linkage_of(player_id: i64) -> spec_fn(LinkageView) -> bool {
    |r: LinkageView| r.player_id == player_id
}

/// Selects the linkage with the given token.
pub open spec fn linkage_has_token(token: Seq<char>) -> spec_fn(LinkageView) -> bool {
    |r: LinkageView| r.state_token == token
}

} // verus!
