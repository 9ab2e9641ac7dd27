//! The identity store: proxies, their servers, players and pending linkages.
//!
//! The store is a value. Each operation says, over the store's view, what it
//! reads and what it leaves behind, and keeps the tables well formed: no two
//! proxies share an identifier, no two servers of one proxy a name, no two
//! players a name and address or an identifier, no two linkages a token or a
//! player, and a lobby carries no required role.

use crate::minecraft::MinecraftServerType;
use crate::model::{
    behind, linkage_has_token, linkage_of, linked_to, other_holder, player_has_id, player_is,
    proxy_is, server_is, texts, view_of, views, LinkageView, PendingLinkage, PlayerIdentity,
    PlayerView, Proxy, ProxyView, Server, ServerView,
};
use crate::table::{
    any, find, lemma_any_push, lemma_any_update, lemma_find_same, lemma_position,
    lemma_position_at, lemma_position_none, position,
};
use vstd::prelude::*;

verus! {

broadcast use vstd::seq_lib::group_seq_properties;

/// What the store holds, table by table, in the order the rows were added.
pub struct StoreView {
    pub proxies: Seq<ProxyView>,
    pub servers: Seq<ServerView>,
    pub players: Seq<PlayerView>,
    pub linkages: Seq<LinkageView>,
}

/// A server just registered: neither kind nor role assigned.
pub open spec fn unconfigured(id: i64, proxy: Seq<char>, name: Seq<char>) -> ServerView {
    ServerView { id, proxy_id: proxy, name, kind: None, role: None }
}

/// The role kept with a kind of server: only a game server keeps one.
pub open spec fn role_kept(kind: Option<MinecraftServerType>, role: Option<u64>) -> Option<u64> {
    if kind == Some(MinecraftServerType::Game) {
        role
    } else {
        None
    }
}

/// Keeps the servers of other proxies, and of `proxy` those named in `names`.
pub open spec fn kept_by(proxy: Seq<char>, names: Seq<Seq<char>>) -> spec_fn(ServerView) -> bool {
    |r: ServerView| r.proxy_id != proxy || names.contains(r.name)
}

/// Keeps the linkages that a new linkage with this token for this player
/// does not supersede.
pub open spec fn not_superseded(token: Seq<char>, player_id: i64) -> spec_fn(LinkageView) -> bool {
    |r: LinkageView| r.state_token != token && r.player_id != player_id
}

impl StoreView {
    pub open spec fn empty() -> StoreView {
        StoreView {
            proxies: Seq::empty(),
            servers: Seq::empty(),
            players: Seq::empty(),
            linkages: Seq::empty(),
        }
    }

    /// The proxy with this identifier.
    pub open spec fn proxy(self, id: Seq<char>) -> Option<ProxyView> {
        find(self.proxies, proxy_is(id))
    }

    /// The server of this name behind this proxy.
    pub open spec fn server(self, proxy: Seq<char>, name: Seq<char>) -> Option<ServerView> {
        find(self.servers, server_is(proxy, name))
    }

    /// The player of this name at this address.
    pub open spec fn player(self, name: Seq<char>, address: Seq<char>) -> Option<PlayerView> {
        find(self.players, player_is(name, address))
    }

    /// The player with this identifier.
    pub open spec fn player_by_id(self, id: i64) -> Option<PlayerView> {
        find(self.players, player_has_id(id))
    }

    /// The linkage with this token.
    pub open spec fn linkage(self, token: Seq<char>) -> Option<LinkageView> {
        find(self.linkages, linkage_has_token(token))
    }

    /// The names of the servers stored for this proxy.
    pub open spec fn server_names(self, proxy: Seq<char>) -> Set<Seq<char>> {
        Set::new(|name: Seq<char>| self.server(proxy, name) is Some)
    }

    /// The tables keep their keys apart, a lobby carries no role, every
    /// server stands behind a stored proxy and every linkage belongs to a
    /// stored player.
    pub open spec fn wf(self) -> bool {
        &&& forall|i: int|
            0 <= i < self.servers.len() ==> any(
                self.proxies,
                proxy_is((#[trigger] self.servers[i]).proxy_id),
            )
        &&& forall|i: int|
            0 <= i < self.linkages.len() ==> any(
                self.players,
                player_has_id((#[trigger] self.linkages[i]).player_id),
            )
        &&& forall|i: int, j: int|
            0 <= i < j < self.proxies.len() ==> (#[trigger] self.proxies[i]).id != (
            #[trigger] self.proxies[j]).id
        &&& forall|i: int, j: int|
            0 <= i < j < self.servers.len() ==> !((#[trigger] self.servers[i]).proxy_id
                == (#[trigger] self.servers[j]).proxy_id && self.servers[i].name
                == self.servers[j].name)
        &&& forall|i: int|
            0 <= i < self.servers.len() ==> (#[trigger] self.servers[i]).role == role_kept(
                self.servers[i].kind,
                self.servers[i].role,
            )
        &&& forall|i: int, j: int|
            0 <= i < j < self.players.len() ==> !((#[trigger] self.players[i]).name
                == (#[trigger] self.players[j]).name && self.players[i].address
                == self.players[j].address)
        &&& forall|i: int, j: int|
            0 <= i < j < self.players.len() ==> (#[trigger] self.players[i]).id != (
            #[trigger] self.players[j]).id
        &&& forall|i: int, j: int|
            0 <= i < j < self.linkages.len() ==> (#[trigger] self.linkages[i]).state_token != (
            #[trigger] self.linkages[j]).state_token
        &&& forall|i: int, j: int|
            0 <= i < j < self.linkages.len() ==> (#[trigger] self.linkages[i]).player_id != (
            #[trigger] self.linkages[j]).player_id
    }

    /// No server, player or linkage has an identifier above `bound`.
    pub open spec fn ids_at_most(self, bound: int) -> bool {
        &&& forall|i: int| 0 <= i < self.servers.len() ==> (#[trigger] self.servers[i]).id <= bound
        &&& forall|i: int| 0 <= i < self.players.len() ==> (#[trigger] self.players[i]).id <= bound
        &&& forall|i: int|
            0 <= i < self.linkages.len() ==> (#[trigger] self.linkages[i]).id <= bound
    }

    /// The store with a proxy of this identifier: added without a group where
    /// there was none.
    pub open spec fn with_proxy(self, id: Seq<char>) -> StoreView {
        if self.proxy(id) is Some {
            self
        } else {
            StoreView { proxies: self.proxies.push(ProxyView { id, group: None }), ..self }
        }
    }

    /// The store with the group of this proxy set, where the proxy exists.
    pub open spec fn with_group(self, id: Seq<char>, group: Option<u64>) -> StoreView {
        match position(self.proxies, proxy_is(id)) {
            Some(i) => StoreView {
                proxies: self.proxies.update(i, ProxyView { id, group }),
                ..self
            },
            None => self,
        }
    }

    /// The store without the servers of `proxy` that `names` does not name.
    pub open spec fn without_absent(self, proxy: Seq<char>, names: Seq<Seq<char>>) -> StoreView {
        StoreView { servers: self.servers.filter(kept_by(proxy, names)), ..self }
    }

    /// Whether a server of this name can be added behind this proxy: the
    /// proxy is stored and has none of that name.
    pub open spec fn admits_server(self, proxy: Seq<char>, name: Seq<char>) -> bool {
        self.proxy(proxy) is Some && self.server(proxy, name) is None
    }

    /// The store with an unconfigured server of this name behind this proxy,
    /// where it can be added.
    pub open spec fn with_server(self, id: i64, proxy: Seq<char>, name: Seq<char>) -> StoreView {
        if self.admits_server(proxy, name) {
            StoreView { servers: self.servers.push(unconfigured(id, proxy, name)), ..self }
        } else {
            self
        }
    }

    /// The store with the kind and role of this server set, where it exists.
    pub open spec fn with_assignment(
        self,
        proxy: Seq<char>,
        name: Seq<char>,
        kind: Option<MinecraftServerType>,
        role: Option<u64>,
    ) -> StoreView {
        match position(self.servers, server_is(proxy, name)) {
            Some(i) => StoreView {
                servers: self.servers.update(
                    i,
                    ServerView { kind, role: role_kept(kind, role), ..self.servers[i] },
                ),
                ..self
            },
            None => self,
        }
    }

    /// Whether a player of this name and address, with this identifier, can
    /// be added: neither the pair nor the identifier is taken.
    pub open spec fn admits_player(self, id: i64, name: Seq<char>, address: Seq<char>) -> bool {
        self.player(name, address) is None && self.player_by_id(id) is None
    }

    /// The store with an unlinked player added, where it can be.
    pub open spec fn with_player(self, id: i64, name: Seq<char>, address: Seq<char>) -> StoreView {
        if self.admits_player(id, name, address) {
            StoreView {
                players: self.players.push(PlayerView { id, name, address, account: None }),
                ..self
            }
        } else {
            self
        }
    }

    /// The store with the player of this identifier linked to `account`, where
    /// the player exists.
    pub open spec fn with_account(self, player_id: i64, account: u64) -> StoreView {
        match position(self.players, player_has_id(player_id)) {
            Some(i) => StoreView {
                players: self.players.update(
                    i,
                    PlayerView { account: Some(account), ..self.players[i] },
                ),
                ..self
            },
            None => self,
        }
    }

    /// The store with a linkage for a stored player, which supersedes those
    /// of the same token or the same player. For a player that is not stored
    /// nothing changes.
    pub open spec fn with_linkage(self, id: i64, token: Seq<char>, player_id: i64) -> StoreView {
        if self.player_by_id(player_id) is Some {
            StoreView {
                linkages: self.linkages.filter(not_superseded(token, player_id)).push(
                    LinkageView { id, state_token: token, player_id },
                ),
                ..self
            }
        } else {
            self
        }
    }
}

/// The persistent state of the service, held in memory.
pub struct IdentityStore {
    proxies: Vec<Proxy>,
    servers: Vec<Server>,
    players: Vec<PlayerIdentity>,
    linkages: Vec<PendingLinkage>,
}

impl View for IdentityStore {
    type V = StoreView;

    closed spec fn view(&self) -> StoreView {
        StoreView {
            proxies: views(self.proxies@),
            servers: views(self.servers@),
            players: views(self.players@),
            linkages: views(self.linkages@),
        }
    }
}

impl IdentityStore {
    /// A store with nothing in it.
    pub fn new() -> (store: Self)
        ensures
            store@ == StoreView::empty(),
            store@.wf(),
    {
        let store = IdentityStore {
            proxies: Vec::new(),
            servers: Vec::new(),
            players: Vec::new(),
            linkages: Vec::new(),
        };
        assert(store@.proxies =~= Seq::empty());
        assert(store@.servers =~= Seq::empty());
        assert(store@.players =~= Seq::empty());
        assert(store@.linkages =~= Seq::empty());
        store
    }

    fn proxy_position(&self, id: &String) -> (found: Option<usize>)
        ensures
            match found {
                Some(i) => position(self@.proxies, proxy_is(id@)) == Some(i as int) && i
                    < self.proxies.len(),
                None => position(self@.proxies, proxy_is(id@)) is None,
            },
    {
        let mut i: usize = 0;
        while i < self.proxies.len()
            invariant
                i <= self.proxies.len(),
                forall|j: int| 0 <= j < i ==> !proxy_is(id@)(#[trigger] self@.proxies[j]),
            decreases self.proxies.len() - i,
        {
            if self.proxies[i].id == *id {
                proof {
                    assert(proxy_is(id@)(self@.proxies[i as int]));
                    lemma_position_at(self@.proxies, proxy_is(id@), i as int);
                }
                return Some(i);
            }
            i += 1;
        }
        proof {
            lemma_position_none(self@.proxies, proxy_is(id@));
        }
        None
    }

    /// The group of a proxy: `None` where no proxy has this identifier,
    /// `Some(None)` where the proxy has no group yet.
    pub fn proxy_group(&self, id: &str) -> (group: Option<Option<u64>>)
        ensures
            group == match self@.proxy(id@) {
                Some(p) => Some(p.group),
                None => None,
            },
    {
        let id = id.to_owned();
        match self.proxy_position(&id) {
            Some(i) => Some(self.proxies[i].group),
            None => None,
        }
    }

    /// Makes sure a proxy of this identifier exists.
    pub fn ensure_proxy(&mut self, id: &str)
        requires
            old(self)@.wf(),
        ensures
            final(self)@ == old(self)@.with_proxy(id@),
            final(self)@.wf(),
    {
        let id = id.to_owned();
        if self.proxy_position(&id).is_none() {
            proof {
                lemma_position(self@.proxies, proxy_is(id@));
            }
            self.proxies.push(Proxy { id, group: None });
            assert(self@.proxies =~= old(self)@.proxies.push(ProxyView { id: id@, group: None }));
            proof {
                assert forall|i: int| 0 <= i < self@.servers.len() implies any(
                    self@.proxies,
                    proxy_is((#[trigger] self@.servers[i]).proxy_id),
                ) by {
                    assert(self@.servers[i] == old(self)@.servers[i]);
                    lemma_any_push(
                        old(self)@.proxies,
                        ProxyView { id: id@, group: None },
                        proxy_is(self@.servers[i].proxy_id),
                    );
                }
                assert(self@.players == old(self)@.players);
                assert(self@.linkages == old(self)@.linkages);
                assert(self@.servers == old(self)@.servers);
                assert(self@.wf());
            }
        }
    }

    /// Assigns a proxy to a group, or takes its group away. Answers whether
    /// the proxy exists.
    pub fn assign_group(&mut self, id: &str, group: Option<u64>) -> (found: bool)
        requires
            old(self)@.wf(),
        ensures
            found == (old(self)@.proxy(id@) is Some),
            final(self)@ == old(self)@.with_group(id@, group),
            final(self)@.wf(),
    {
        let id = id.to_owned();
        match self.proxy_position(&id) {
            Some(i) => {
                proof {
                    lemma_position(self@.proxies, proxy_is(id@));
                }
                self.proxies.set(i, Proxy { id, group });
                assert(self@.proxies =~= old(self)@.proxies.update(
                    i as int,
                    ProxyView { id: id@, group },
                ));
                proof {
                    assert(proxy_is(id@)(old(self)@.proxies[i as int]));
                    assert forall|k: int| 0 <= k < self@.servers.len() implies any(
                        self@.proxies,
                        proxy_is((#[trigger] self@.servers[k]).proxy_id),
                    ) by {
                        assert(self@.servers[k] == old(self)@.servers[k]);
                        lemma_any_update(
                            old(self)@.proxies,
                            i as int,
                            ProxyView { id: id@, group },
                            proxy_is(self@.servers[k].proxy_id),
                        );
                    }
                    assert(self@.players == old(self)@.players);
                    assert(self@.linkages == old(self)@.linkages);
                    assert(self@.servers == old(self)@.servers);
                    assert(self@.wf());
                }
                true
            },
            None => false,
        }
    }
}

/// Whether `names` holds `name`.
pub fn names_contain(names: &Vec<String>, name: &String) -> (found: bool)
    ensures
        found == texts(names@).contains(name@),
{
    let mut i: usize = 0;
    while i < names.len()
        invariant
            i <= names.len(),
            forall|j: int| 0 <= j < i ==> (#[trigger] texts(names@)[j]) != name@,
        decreases names.len() - i,
    {
        if names[i] == *name {
            assert(texts(names@)[i as int] == name@);
            return true;
        }
        i += 1;
    }
    false
}

impl IdentityStore {
    fn server_position(&self, proxy: &String, name: &String) -> (found: Option<usize>)
        ensures
            match found {
                Some(i) => position(self@.servers, server_is(proxy@, name@)) == Some(i as int) && i
                    < self.servers.len(),
                None => position(self@.servers, server_is(proxy@, name@)) is None,
            },
    {
        let mut i: usize = 0;
        while i < self.servers.len()
            invariant
                i <= self.servers.len(),
                forall|j: int|
                    0 <= j < i ==> !server_is(proxy@, name@)(#[trigger] self@.servers[j]),
            decreases self.servers.len() - i,
        {
            if self.servers[i].proxy_id == *proxy && self.servers[i].name == *name {
                proof {
                    assert(server_is(proxy@, name@)(self@.servers[i as int]));
                    lemma_position_at(self@.servers, server_is(proxy@, name@), i as int);
                }
                return Some(i);
            }
            i += 1;
        }
        proof {
            lemma_position_none(self@.servers, server_is(proxy@, name@));
        }
        None
    }

    /// The server of this name behind this proxy.
    pub fn find_server(&self, proxy: &str, name: &str) -> (server: Option<Server>)
        ensures
            view_of(server) == self@.server(proxy@, name@),
    {
        let proxy = proxy.to_owned();
        let name = name.to_owned();
        match self.server_position(&proxy, &name) {
            Some(i) => Some(self.servers[i].clone()),
            None => None,
        }
    }

    /// The servers stored for this proxy, in the order they were added.
    pub fn servers_of(&self, proxy: &str) -> (servers: Vec<Server>)
        ensures
            views(servers@) == self@.servers.filter(behind(proxy@)),
    {
        let proxy = proxy.to_owned();
        let mut out: Vec<Server> = Vec::new();
        let mut i: usize = 0;
        assert(self@.servers.take(0) =~= Seq::empty());
        assert(views(out@) =~= Seq::empty());
        while i < self.servers.len()
            invariant
                i <= self.servers.len(),
                views(out@) == self@.servers.take(i as int).filter(behind(proxy@)),
            decreases self.servers.len() - i,
        {
            let ghost before = views(out@);
            assert(self@.servers.take(i + 1) =~= self@.servers.take(i as int).push(
                self@.servers[i as int],
            ));
            proof {
                self@.servers.take(i as int).lemma_filter_push(
                    self@.servers[i as int],
                    behind(proxy@),
                );
            }
            if self.servers[i].proxy_id == proxy {
                out.push(self.servers[i].clone());
                assert(views(out@) =~= before.push(self@.servers[i as int]));
            }
            i += 1;
        }
        assert(self@.servers.take(i as int) =~= self@.servers);
        out
    }

    /// Drops the servers of `proxy` that `names` does not name.
    pub fn retain_servers(&mut self, proxy: &str, names: &Vec<String>)
        requires
            old(self)@.wf(),
        ensures
            final(self)@ == old(self)@.without_absent(proxy@, texts(names@)),
            final(self)@.wf(),
    {
        let proxy = proxy.to_owned();
        let ghost keep = kept_by(proxy@, texts(names@));
        let ghost rows = self@.servers;
        let mut out: Vec<Server> = Vec::new();
        let mut i: usize = 0;
        assert(rows.take(0) =~= Seq::empty());
        assert(views(out@) =~= Seq::empty());
        while i < self.servers.len()
            invariant
                i <= self.servers.len(),
                rows == self@.servers,
                self@ == old(self)@,
                old(self)@.wf(),
                keep == kept_by(proxy@, texts(names@)),
                views(out@) == rows.take(i as int).filter(keep),
                forall|a: int, b: int|
                    0 <= a < b < out.len() ==> !((#[trigger] views(out@)[a]).proxy_id == (
                    #[trigger] views(out@)[b]).proxy_id && views(out@)[a].name == views(
                        out@,
                    )[b].name),
                forall|a: int, j: int|
                    0 <= a < out.len() && i <= j < rows.len() ==> !((#[trigger] views(
                        out@,
                    )[a]).proxy_id == (#[trigger] rows[j]).proxy_id && views(out@)[a].name
                        == rows[j].name),
                forall|a: int|
                    0 <= a < out.len() ==> (#[trigger] views(out@)[a]).role == role_kept(
                        views(out@)[a].kind,
                        views(out@)[a].role,
                    ),
                forall|a: int|
                    0 <= a < out.len() ==> any(
                        self@.proxies,
                        proxy_is((#[trigger] views(out@)[a]).proxy_id),
                    ),
            decreases self.servers.len() - i,
        {
            let ghost before = views(out@);
            assert(rows.take(i + 1) =~= rows.take(i as int).push(rows[i as int]));
            proof {
                rows.take(i as int).lemma_filter_push(rows[i as int], keep);
            }
            let keeps = !(self.servers[i].proxy_id == proxy) || names_contain(
                names,
                &self.servers[i].name,
            );
            assert(keeps == keep(rows[i as int]));
            if keeps {
                out.push(self.servers[i].clone());
                assert(views(out@) =~= before.push(rows[i as int]));
            }
            i += 1;
        }
        assert(rows.take(i as int) =~= rows);
        self.servers = out;
    }

    /// Adds an unconfigured server of this name behind this proxy, unless the
    /// proxy is not stored or has a server of that name. Answers whether the
    /// server was added.
    pub fn add_server(&mut self, id: i64, proxy: &str, name: &str) -> (added: bool)
        requires
            old(self)@.wf(),
        ensures
            added == old(self)@.admits_server(proxy@, name@),
            final(self)@ == old(self)@.with_server(id, proxy@, name@),
            final(self)@.wf(),
    {
        let proxy = proxy.to_owned();
        let name = name.to_owned();
        if self.proxy_position(&proxy).is_none() {
            return false;
        }
        if self.server_position(&proxy, &name).is_some() {
            return false;
        }
        proof {
            lemma_position(self@.servers, server_is(proxy@, name@));
            lemma_position(self@.proxies, proxy_is(proxy@));
        }
        self.servers.push(Server { id, proxy_id: proxy, name, kind: None, role: None });
        proof {
            let was = old(self)@.servers;
            let now = self@.servers;
            assert(now =~= was.push(unconfigured(id, proxy@, name@)));
            assert forall|i: int, j: int| 0 <= i < j < now.len() implies !((
            #[trigger] now[i]).proxy_id == (#[trigger] now[j]).proxy_id && now[i].name
                == now[j].name) by {
                if j == was.len() {
                    assert(!server_is(proxy@, name@)(was[i]));
                }
            }
            assert forall|i: int| 0 <= i < now.len() implies any(
                self@.proxies,
                proxy_is((#[trigger] now[i]).proxy_id),
            ) by {
                if i < was.len() {
                    assert(now[i] == was[i]);
                }
            }
            assert(self@.proxies == old(self)@.proxies);
            assert(self@.players == old(self)@.players);
            assert(self@.linkages == old(self)@.linkages);
            assert(self@.wf());
        }
        true
    }

    /// Sets the kind of a server and, for a game server, the role it
    /// requires; any other kind keeps no role. Answers whether the server
    /// exists.
    pub fn configure_server(
        &mut self,
        proxy: &str,
        name: &str,
        kind: Option<MinecraftServerType>,
        role: Option<u64>,
    ) -> (found: bool)
        requires
            old(self)@.wf(),
        ensures
            found == (old(self)@.server(proxy@, name@) is Some),
            final(self)@ == old(self)@.with_assignment(proxy@, name@, kind, role),
            final(self)@.wf(),
    {
        let proxy = proxy.to_owned();
        let name = name.to_owned();
        match self.server_position(&proxy, &name) {
            Some(i) => {
                proof {
                    lemma_position(self@.servers, server_is(proxy@, name@));
                }
                let id = self.servers[i].id;
                let role = match kind {
                    Some(MinecraftServerType::Game) => role,
                    _ => None,
                };
                self.servers.set(i, Server { id, proxy_id: proxy, name, kind, role });
                assert(self@.servers =~= old(self)@.servers.update(
                    i as int,
                    ServerView { kind, role, ..old(self)@.servers[i as int] },
                ));
                proof {
                    let was = old(self)@.servers;
                    let now = self@.servers;
                    assert(server_is(proxy@, name@)(was[i as int]));
                    assert forall|a: int, b: int| 0 <= a < b < now.len() implies !((
                    #[trigger] now[a]).proxy_id == (#[trigger] now[b]).proxy_id && now[a].name
                        == now[b].name) by {
                        assert(now[a].proxy_id == was[a].proxy_id && now[a].name == was[a].name);
                        assert(now[b].proxy_id == was[b].proxy_id && now[b].name == was[b].name);
                    }
                    assert forall|a: int| 0 <= a < now.len() implies (#[trigger] now[a]).role
                        == role_kept(now[a].kind, now[a].role) by {
                        if a != i {
                            assert(now[a] == was[a]);
                        }
                    }
                    assert forall|a: int| 0 <= a < now.len() implies any(
                        self@.proxies,
                        proxy_is((#[trigger] now[a]).proxy_id),
                    ) by {
                        assert(now[a].proxy_id == was[a].proxy_id);
                    }
                    assert(self@.proxies == old(self)@.proxies);
                    assert(self@.players == old(self)@.players);
                    assert(self@.linkages == old(self)@.linkages);
                    assert(self@.wf());
                }
                true
            },
            None => false,
        }
    }
}

impl IdentityStore {
    fn player_position(&self, name: &String, address: &String) -> (found: Option<usize>)
        ensures
            match found {
                Some(i) => position(self@.players, player_is(name@, address@)) == Some(i as int)
                    && i < self.players.len(),
                None => position(self@.players, player_is(name@, address@)) is None,
            },
    {
        let mut i: usize = 0;
        while i < self.players.len()
            invariant
                i <= self.players.len(),
                forall|j: int|
                    0 <= j < i ==> !player_is(name@, address@)(#[trigger] self@.players[j]),
            decreases self.players.len() - i,
        {
            if self.players[i].name == *name && self.players[i].address == *address {
                proof {
                    assert(player_is(name@, address@)(self@.players[i as int]));
                    lemma_position_at(self@.players, player_is(name@, address@), i as int);
                }
                return Some(i);
            }
            i += 1;
        }
        proof {
            lemma_position_none(self@.players, player_is(name@, address@));
        }
        None
    }

    fn player_id_position(&self, id: i64) -> (found: Option<usize>)
        ensures
            match found {
                Some(i) => position(self@.players, player_has_id(id)) == Some(i as int) && i
                    < self.players.len(),
                None => position(self@.players, player_has_id(id)) is None,
            },
    {
        let mut i: usize = 0;
        while i < self.players.len()
            invariant
                i <= self.players.len(),
                forall|j: int| 0 <= j < i ==> !player_has_id(id)(#[trigger] self@.players[j]),
            decreases self.players.len() - i,
        {
            if self.players[i].id == id {
                proof {
                    assert(player_has_id(id)(self@.players[i as int]));
                    lemma_position_at(self@.players, player_has_id(id), i as int);
                }
                return Some(i);
            }
            i += 1;
        }
        proof {
            lemma_position_none(self@.players, player_has_id(id));
        }
        None
    }

    /// The player of this name at this address.
    pub fn find_player(&self, name: &str, address: &str) -> (player: Option<PlayerIdentity>)
        ensures
            view_of(player) == self@.player(name@, address@),
    {
        let name = name.to_owned();
        let address = address.to_owned();
        match self.player_position(&name, &address) {
            Some(i) => Some(self.players[i].clone()),
            None => None,
        }
    }

    /// The player with this identifier.
    pub fn player_by_id(&self, id: i64) -> (player: Option<PlayerIdentity>)
        ensures
            view_of(player) == self@.player_by_id(id),
    {
        match self.player_id_position(id) {
            Some(i) => Some(self.players[i].clone()),
            None => None,
        }
    }

    /// Adds an unlinked player, unless its name and address or its identifier
    /// are taken. Answers whether the player was added.
    pub fn add_player(&mut self, id: i64, name: &str, address: &str) -> (added: bool)
        requires
            old(self)@.wf(),
        ensures
            added == old(self)@.admits_player(id, name@, address@),
            final(self)@ == old(self)@.with_player(id, name@, address@),
            final(self)@.wf(),
    {
        let name = name.to_owned();
        let address = address.to_owned();
        if self.player_position(&name, &address).is_some() {
            return false;
        }
        if self.player_id_position(id).is_some() {
            return false;
        }
        proof {
            lemma_position(self@.players, player_is(name@, address@));
            lemma_position(self@.players, player_has_id(id));
        }
        self.players.push(PlayerIdentity { id, name, address, account: None });
        proof {
            let was = old(self)@.players;
            let now = self@.players;
            assert(now =~= was.push(PlayerView { id, name: name@, address: address@, account: None }));
            assert forall|i: int, j: int| 0 <= i < j < now.len() implies !((
            #[trigger] now[i]).name == (#[trigger] now[j]).name && now[i].address
                == now[j].address) by {
                if j == was.len() {
                    assert(!player_is(name@, address@)(was[i]));
                }
            }
            assert forall|i: int, j: int| 0 <= i < j < now.len() implies (#[trigger] now[i]).id != (
            #[trigger] now[j]).id by {
                if j == was.len() {
                    assert(!player_has_id(id)(was[i]));
                }
            }
            assert forall|k: int| 0 <= k < self@.linkages.len() implies any(
                now,
                player_has_id((#[trigger] self@.linkages[k]).player_id),
            ) by {
                assert(self@.linkages[k] == old(self)@.linkages[k]);
                lemma_any_push(
                    was,
                    PlayerView { id, name: name@, address: address@, account: None },
                    player_has_id(self@.linkages[k].player_id),
                );
            }
            assert(self@.proxies == old(self)@.proxies);
            assert(self@.servers == old(self)@.servers);
            assert(self@.linkages == old(self)@.linkages);
            assert(self@.wf());
        }
        true
    }

    /// Links the player of this identifier to a community account. Answers
    /// whether the player exists.
    pub fn link_account(&mut self, player_id: i64, account: u64) -> (found: bool)
        requires
            old(self)@.wf(),
        ensures
            found == (old(self)@.player_by_id(player_id) is Some),
            final(self)@ == old(self)@.with_account(player_id, account),
            final(self)@.wf(),
    {
        match self.player_id_position(player_id) {
            Some(i) => {
                proof {
                    lemma_position(self@.players, player_has_id(player_id));
                }
                let name = self.players[i].name.clone();
                let address = self.players[i].address.clone();
                self.players.set(
                    i,
                    PlayerIdentity { id: player_id, name, address, account: Some(account) },
                );
                proof {
                    let was = old(self)@.players;
                    let now = self@.players;
                    assert(player_has_id(player_id)(was[i as int]));
                    assert(now =~= was.update(
                        i as int,
                        PlayerView { account: Some(account), ..was[i as int] },
                    ));
                    assert forall|a: int, b: int| 0 <= a < b < now.len() implies !((
                    #[trigger] now[a]).name == (#[trigger] now[b]).name && now[a].address
                        == now[b].address) by {
                        assert(now[a].name == was[a].name && now[a].address == was[a].address);
                        assert(now[b].name == was[b].name && now[b].address == was[b].address);
                    }
                    assert forall|a: int, b: int| 0 <= a < b < now.len() implies (
                    #[trigger] now[a]).id != (#[trigger] now[b]).id by {
                        assert(now[a].id == was[a].id);
                        assert(now[b].id == was[b].id);
                    }
                    assert forall|k: int| 0 <= k < self@.linkages.len() implies any(
                        now,
                        player_has_id((#[trigger] self@.linkages[k]).player_id),
                    ) by {
                        assert(self@.linkages[k] == old(self)@.linkages[k]);
                        lemma_any_update(
                            was,
                            i as int,
                            PlayerView { account: Some(account), ..was[i as int] },
                            player_has_id(self@.linkages[k].player_id),
                        );
                    }
                    assert(self@.proxies == old(self)@.proxies);
                    assert(self@.servers == old(self)@.servers);
                    assert(self@.linkages == old(self)@.linkages);
                    assert(self@.wf());
                }
                true
            },
            None => false,
        }
    }

    /// Whether a player other than `player_id` is linked to `account`.
    pub fn has_other_holder(&self, account: u64, player_id: i64) -> (held: bool)
        ensures
            held == any(self@.players, other_holder(account, player_id)),
    {
        let mut i: usize = 0;
        while i < self.players.len()
            invariant
                i <= self.players.len(),
                forall|j: int|
                    0 <= j < i ==> !other_holder(account, player_id)(#[trigger] self@.players[j]),
            decreases self.players.len() - i,
        {
            let linked = match self.players[i].account {
                Some(a) => a == account,
                None => false,
            };
            if linked && self.players[i].id != player_id {
                assert(other_holder(account, player_id)(self@.players[i as int]));
                return true;
            }
            i += 1;
        }
        false
    }

    /// The players linked to `account`, in the order they were added.
    pub fn players_linked_to(&self, account: u64) -> (players: Vec<PlayerIdentity>)
        ensures
            views(players@) == self@.players.filter(linked_to(account)),
    {
        let mut out: Vec<PlayerIdentity> = Vec::new();
        let mut i: usize = 0;
        assert(self@.players.take(0) =~= Seq::empty());
        assert(views(out@) =~= Seq::empty());
        while i < self.players.len()
            invariant
                i <= self.players.len(),
                views(out@) == self@.players.take(i as int).filter(linked_to(account)),
            decreases self.players.len() - i,
        {
            let ghost before = views(out@);
            assert(self@.players.take(i + 1) =~= self@.players.take(i as int).push(
                self@.players[i as int],
            ));
            proof {
                self@.players.take(i as int).lemma_filter_push(
                    self@.players[i as int],
                    linked_to(account),
                );
            }
            let linked = match self.players[i].account {
                Some(a) => a == account,
                None => false,
            };
            if linked {
                out.push(self.players[i].clone());
                assert(views(out@) =~= before.push(self@.players[i as int]));
            }
            i += 1;
        }
        assert(self@.players.take(i as int) =~= self@.players);
        out
    }

    fn linkage_position(&self, token: &String) -> (found: Option<usize>)
        ensures
            match found {
                Some(i) => position(self@.linkages, linkage_has_token(token@)) == Some(i as int)
                    && i < self.linkages.len(),
                None => position(self@.linkages, linkage_has_token(token@)) is None,
            },
    {
        let mut i: usize = 0;
        while i < self.linkages.len()
            invariant
                i <= self.linkages.len(),
                forall|j: int|
                    0 <= j < i ==> !linkage_has_token(token@)(#[trigger] self@.linkages[j]),
            decreases self.linkages.len() - i,
        {
            if self.linkages[i].state_token == *token {
                proof {
                    assert(linkage_has_token(token@)(self@.linkages[i as int]));
                    lemma_position_at(self@.linkages, linkage_has_token(token@), i as int);
                }
                return Some(i);
            }
            i += 1;
        }
        proof {
            lemma_position_none(self@.linkages, linkage_has_token(token@));
        }
        None
    }

    /// The linkage with this token.
    pub fn find_linkage(&self, token: &str) -> (linkage: Option<PendingLinkage>)
        ensures
            view_of(linkage) == self@.linkage(token@),
    {
        let token = token.to_owned();
        match self.linkage_position(&token) {
            Some(i) => Some(self.linkages[i].clone()),
            None => None,
        }
    }

    /// The linkage offered to the player with this identifier.
    pub fn linkage_of_player(&self, player_id: i64) -> (linkage: Option<PendingLinkage>)
        ensures
            view_of(linkage) == find(self@.linkages, linkage_of(player_id)),
    {
        let mut i: usize = 0;
        while i < self.linkages.len()
            invariant
                i <= self.linkages.len(),
                forall|j: int|
                    0 <= j < i ==> !linkage_of(player_id)(#[trigger] self@.linkages[j]),
            decreases self.linkages.len() - i,
        {
            if self.linkages[i].player_id == player_id {
                proof {
                    assert(linkage_of(player_id)(self@.linkages[i as int]));
                    lemma_position_at(self@.linkages, linkage_of(player_id), i as int);
                }
                return Some(self.linkages[i].clone());
            }
            i += 1;
        }
        proof {
            lemma_position_none(self@.linkages, linkage_of(player_id));
        }
        None
    }

    /// Stores a linkage for a stored player. It takes the place of any linkage
    /// with the same token and of any linkage of the same player. Answers
    /// whether the player is stored.
    pub fn put_linkage(&mut self, id: i64, token: &str, player_id: i64) -> (stored: bool)
        requires
            old(self)@.wf(),
        ensures
            stored == (old(self)@.player_by_id(player_id) is Some),
            final(self)@ == old(self)@.with_linkage(id, token@, player_id),
            final(self)@.wf(),
    {
        if self.player_id_position(player_id).is_none() {
            return false;
        }
        proof {
            lemma_position(self@.players, player_has_id(player_id));
        }
        let token = token.to_owned();
        let ghost keep = not_superseded(token@, player_id);
        let ghost rows = self@.linkages;
        let mut out: Vec<PendingLinkage> = Vec::new();
        let mut i: usize = 0;
        assert(rows.take(0) =~= Seq::empty());
        assert(views(out@) =~= Seq::empty());
        while i < self.linkages.len()
            invariant
                i <= self.linkages.len(),
                rows == self@.linkages,
                self@ == old(self)@,
                old(self)@.wf(),
                keep == not_superseded(token@, player_id),
                views(out@) == rows.take(i as int).filter(keep),
                forall|a: int| 0 <= a < out.len() ==> keep(#[trigger] views(out@)[a]),
                forall|a: int|
                    0 <= a < out.len() ==> any(
                        self@.players,
                        player_has_id((#[trigger] views(out@)[a]).player_id),
                    ),
                forall|a: int, b: int|
                    0 <= a < b < out.len() ==> (#[trigger] views(out@)[a]).state_token != (
                    #[trigger] views(out@)[b]).state_token,
                forall|a: int, b: int|
                    0 <= a < b < out.len() ==> (#[trigger] views(out@)[a]).player_id != (
                    #[trigger] views(out@)[b]).player_id,
                forall|a: int, j: int|
                    0 <= a < out.len() && i <= j < rows.len() ==> (#[trigger] views(
                        out@,
                    )[a]).state_token != (#[trigger] rows[j]).state_token && views(
                        out@,
                    )[a].player_id != rows[j].player_id,
            decreases self.linkages.len() - i,
        {
            let ghost before = views(out@);
            assert(rows.take(i + 1) =~= rows.take(i as int).push(rows[i as int]));
            proof {
                rows.take(i as int).lemma_filter_push(rows[i as int], keep);
            }
            let keeps = !(self.linkages[i].state_token == token) && self.linkages[i].player_id
                != player_id;
            assert(keeps == keep(rows[i as int]));
            if keeps {
                out.push(self.linkages[i].clone());
                assert(views(out@) =~= before.push(rows[i as int]));
            }
            i += 1;
        }
        assert(rows.take(i as int) =~= rows);
        let ghost kept = views(out@);
        out.push(PendingLinkage { id, state_token: token, player_id });
        assert(views(out@) =~= kept.push(LinkageView { id, state_token: token@, player_id }));
        self.linkages = out;
        proof {
            let now = self@.linkages;
            assert(now == kept.push(LinkageView { id, state_token: token@, player_id }));
            assert forall|a: int, b: int| 0 <= a < b < now.len() implies (
            #[trigger] now[a]).state_token != (#[trigger] now[b]).state_token by {
                if b == kept.len() {
                    assert(keep(kept[a]));
                }
            }
            assert forall|a: int, b: int| 0 <= a < b < now.len() implies (
            #[trigger] now[a]).player_id != (#[trigger] now[b]).player_id by {
                if b == kept.len() {
                    assert(keep(kept[a]));
                }
            }
            assert forall|a: int| 0 <= a < now.len() implies any(
                self@.players,
                player_has_id((#[trigger] now[a]).player_id),
            ) by {
                if a < kept.len() {
                    assert(now[a] == kept[a]);
                }
            }
            assert(self@.proxies == old(self)@.proxies);
            assert(self@.servers == old(self)@.servers);
            assert(self@.players == old(self)@.players);
            assert(self@.wf());
        }
        true
    }
}

impl IdentityStore {
    /// The proxies, in the order they were added.
    pub fn proxies(&self) -> (rows: Vec<Proxy>)
        ensures
            views(rows@) == self@.proxies,
    {
        let mut rows: Vec<Proxy> = Vec::new();
        let mut i: usize = 0;
        while i < self.proxies.len()
            invariant
                i <= self.proxies.len(),
                views(rows@) == self@.proxies.take(i as int),
            decreases self.proxies.len() - i,
        {
            let ghost before = views(rows@);
            rows.push(self.proxies[i].clone());
            assert(views(rows@) =~= before.push(self@.proxies[i as int]));
            assert(self@.proxies.take(i + 1) =~= before.push(self@.proxies[i as int]));
            i += 1;
        }
        assert(self@.proxies.take(i as int) =~= self@.proxies);
        rows
    }

    /// The servers of every proxy, in the order they were added.
    pub fn servers(&self) -> (rows: Vec<Server>)
        ensures
            views(rows@) == self@.servers,
    {
        let mut rows: Vec<Server> = Vec::new();
        let mut i: usize = 0;
        while i < self.servers.len()
            invariant
                i <= self.servers.len(),
                views(rows@) == self@.servers.take(i as int),
            decreases self.servers.len() - i,
        {
            let ghost before = views(rows@);
            rows.push(self.servers[i].clone());
            assert(views(rows@) =~= before.push(self@.servers[i as int]));
            assert(self@.servers.take(i + 1) =~= before.push(self@.servers[i as int]));
            i += 1;
        }
        assert(self@.servers.take(i as int) =~= self@.servers);
        rows
    }

    /// The players, in the order they were added.
    pub fn players(&self) -> (rows: Vec<PlayerIdentity>)
        ensures
            views(rows@) == self@.players,
    {
        let mut rows: Vec<PlayerIdentity> = Vec::new();
        let mut i: usize = 0;
        while i < self.players.len()
            invariant
                i <= self.players.len(),
                views(rows@) == self@.players.take(i as int),
            decreases self.players.len() - i,
        {
            let ghost before = views(rows@);
            rows.push(self.players[i].clone());
            assert(views(rows@) =~= before.push(self@.players[i as int]));
            assert(self@.players.take(i + 1) =~= before.push(self@.players[i as int]));
            i += 1;
        }
        assert(self@.players.take(i as int) =~= self@.players);
        rows
    }

    /// The pending linkages, in the order they were added.
    pub fn linkages(&self) -> (rows: Vec<PendingLinkage>)
        ensures
            views(rows@) == self@.linkages,
    {
        let mut rows: Vec<PendingLinkage> = Vec::new();
        let mut i: usize = 0;
        while i < self.linkages.len()
            invariant
                i <= self.linkages.len(),
                views(rows@) == self@.linkages.take(i as int),
            decreases self.linkages.len() - i,
        {
            let ghost before = views(rows@);
            rows.push(self.linkages[i].clone());
            assert(views(rows@) =~= before.push(self@.linkages[i as int]));
            assert(self@.linkages.take(i + 1) =~= before.push(self@.linkages[i as int]));
            i += 1;
        }
        assert(self@.linkages.take(i as int) =~= self@.linkages);
        rows
    }
}

/// Adding a player keeps the tables well formed.
pub proof fn lemma_with_player_wf(s: StoreView, id: i64, name: Seq<char>, address: Seq<char>)
    requires
        s.wf(),
    ensures
        s.with_player(id, name, address).wf(),
{
    if s.admits_player(id, name, address) {
        let now = s.with_player(id, name, address).players;
        lemma_position(s.players, player_is(name, address));
        lemma_position(s.players, player_has_id(id));
        assert forall|i: int, j: int| 0 <= i < j < now.len() implies !((#[trigger] now[i]).name
            == (#[trigger] now[j]).name && now[i].address == now[j].address) by {
            if j == s.players.len() {
                assert(!player_is(name, address)(s.players[i]));
            }
        }
        assert forall|i: int, j: int| 0 <= i < j < now.len() implies (#[trigger] now[i]).id != (
        #[trigger] now[j]).id by {
            if j == s.players.len() {
                assert(!player_has_id(id)(s.players[i]));
            }
        }
        assert forall|k: int| 0 <= k < s.linkages.len() implies any(
            now,
            player_has_id((#[trigger] s.linkages[k]).player_id),
        ) by {
            lemma_any_push(
                s.players,
                PlayerView { id, name, address, account: None },
                player_has_id(s.linkages[k].player_id),
            );
        }
    }
}

/// A player found by name and address is the player found by its identifier.
pub proof fn lemma_player_found_by_id(s: StoreView, name: Seq<char>, address: Seq<char>)
    requires
        s.wf(),
        s.player(name, address) is Some,
    ensures
        s.player_by_id(s.player(name, address).unwrap().id) == s.player(name, address),
{
    let player = s.player(name, address).unwrap();
    assert forall|i: int, j: int|
        0 <= i < s.players.len() && 0 <= j < s.players.len() && player_has_id(player.id)(
            #[trigger] s.players[i],
        ) && player_has_id(player.id)(#[trigger] s.players[j]) implies i == j by {
        if i < j {
            assert(s.players[i].id != s.players[j].id);
        }
        if j < i {
            assert(s.players[j].id != s.players[i].id);
        }
    }
    lemma_find_same(s.players, player_is(name, address), player_has_id(player.id));
}

/// Linking a player to an account adds no identifier.
pub proof fn lemma_with_account_ids(s: StoreView, player_id: i64, account: u64, bound: int)
    requires
        s.ids_at_most(bound),
    ensures
        s.with_account(player_id, account).ids_at_most(bound),
{
    lemma_position(s.players, player_has_id(player_id));
    let after = s.with_account(player_id, account);
    assert forall|j: int| 0 <= j < after.players.len() implies (#[trigger] after.players[j]).id
        <= bound by {
        assert(after.players[j].id == s.players[j].id);
    }
}

/// Setting the kind and role of a server adds no identifier.
pub proof fn lemma_with_assignment_ids(
    s: StoreView,
    proxy: Seq<char>,
    name: Seq<char>,
    kind: Option<MinecraftServerType>,
    role: Option<u64>,
    bound: int,
)
    requires
        s.ids_at_most(bound),
    ensures
        s.with_assignment(proxy, name, kind, role).ids_at_most(bound),
{
    lemma_position(s.servers, server_is(proxy, name));
    let after = s.with_assignment(proxy, name, kind, role);
    assert forall|j: int| 0 <= j < after.servers.len() implies (#[trigger] after.servers[j]).id
        <= bound by {
        assert(after.servers[j].id == s.servers[j].id);
    }
}

} // verus!
