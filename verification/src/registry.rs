//! Registration: bringing the stored servers of a proxy in line with the list
//! the proxy submits.
//!
//! Stored servers that the list does not name are dropped, named servers that
//! are not stored are added unconfigured under fresh identifiers, and servers
//! in both keep their identifier, kind and role. An empty list drops every
//! server of the proxy. The steps are separate operations of the store: callers
//! that share a store between tasks and let go of it between the steps get the
//! interleavings that this allows.

use crate::model::{proxy_is, server_is, texts, ProxyView, ServerView};
use crate::snowflake::{generate_id, IdGenerator};
use crate::status::StatusCode;
use crate::store::{kept_by, unconfigured, IdentityStore, StoreView};
use crate::table::{lemma_find_all_dropped, lemma_find_kept, lemma_find_push};
use vstd::prelude::*;

verus! {

/// Why a registration was turned down.
#[derive(Clone, Copy, Debug, PartialEq, Eq, Structural)]
pub enum RegistryError {
    /// The proxy gave no identifier.
    EmptyProxyId,
    /// The list names a server twice.
    DuplicateServerNames,
    /// No identifier is left for a server to add.
    IdentifiersSpent,
}

/// The answer to a registration that was carried out.
#[derive(Clone, Copy, Debug, PartialEq, Eq, Structural)]
pub struct RegistrationResponse {
    pub success: bool,
}

impl RegistryError {
    /// The class of the failure: a fault of the request, or of the service
    /// where it has run out of identifiers.
    pub open spec fn status_of(self) -> StatusCode {
        match self {
            RegistryError::EmptyProxyId => StatusCode::InvalidArgument,
            RegistryError::DuplicateServerNames => StatusCode::InvalidArgument,
            RegistryError::IdentifiersSpent => StatusCode::Internal,
        }
    }

    /// The class of the failure.
    pub fn status(&self) -> (code: StatusCode)
        ensures
            code == self.status_of(),
    {
        match self {
            RegistryError::EmptyProxyId => StatusCode::InvalidArgument,
            RegistryError::DuplicateServerNames => StatusCode::InvalidArgument,
            RegistryError::IdentifiersSpent => StatusCode::Internal,
        }
    }

    /// The text sent back with the failure.
    pub fn message(&self) -> (text: String)
        ensures
            text@ == match *self {
                RegistryError::EmptyProxyId => "proxy_id cannot be empty"@,
                RegistryError::DuplicateServerNames => "Server names must be unique"@,
                RegistryError::IdentifiersSpent => "No identifier is left"@,
            },
    {
        match self {
            RegistryError::EmptyProxyId => "proxy_id cannot be empty".to_owned(),
            RegistryError::DuplicateServerNames => "Server names must be unique".to_owned(),
            RegistryError::IdentifiersSpent => "No identifier is left".to_owned(),
        }
    }
}

/// The store after each of `names` that `proxy` lacks was added in turn, the
/// k-th name under the k-th identifier. An empty name is passed over.
pub open spec fn with_servers(
    s: StoreView,
    proxy: Seq<char>,
    names: Seq<Seq<char>>,
    ids: Seq<i64>,
) -> StoreView
    decreases names.len(),
{
    if names.len() == 0 {
        s
    } else if names.last().len() == 0 {
        with_servers(s, proxy, names.drop_last(), ids.drop_last())
    } else {
        with_servers(s, proxy, names.drop_last(), ids.drop_last()).with_server(
            ids.last(),
            proxy,
            names.last(),
        )
    }
}

/// The names a proxy has servers for once it registered `names`: those of
/// the list, but an empty name only where a server of that name was stored.
pub open spec fn listed(s: StoreView, proxy: Seq<char>, names: Seq<Seq<char>>) -> Set<Seq<char>> {
    Set::new(
        |n: Seq<char>| names.contains(n) && (n.len() > 0 || s.server(proxy, n) is Some),
    )
}

/// Identifiers drawn one after the other by a generator whose largest
/// identifier was `before` and is `after`: each lies above `before`, none
/// above `after`, and each above those drawn before it.
pub open spec fn fresh_run(ids: Seq<i64>, before: int, after: int) -> bool {
    &&& forall|i: int| 0 <= i < ids.len() ==> before < (#[trigger] ids[i]) <= after
    &&& forall|i: int, j: int| 0 <= i < j < ids.len() ==> (#[trigger] ids[i]) < (#[trigger] ids[j])
}

/// The store after `proxy` registered `names`, with `ids` at hand for the
/// servers to add.
pub open spec fn registered(
    s: StoreView,
    proxy: Seq<char>,
    names: Seq<Seq<char>>,
    ids: Seq<i64>,
) -> StoreView {
    with_servers(s.with_proxy(proxy).without_absent(proxy, names), proxy, names, ids)
}

/// What a registration answers: the request is at fault where the proxy has
/// no identifier or a name occurs twice.
pub open spec fn registration_verdict(proxy: Seq<char>, names: Seq<Seq<char>>) -> Result<
    RegistrationResponse,
    RegistryError,
> {
    if proxy.len() == 0 {
        Err(RegistryError::EmptyProxyId)
    } else if !names.no_duplicates() {
        Err(RegistryError::DuplicateServerNames)
    } else {
        Ok(RegistrationResponse { success: true })
    }
}

/// Whether no two of `names` are equal.
pub fn has_unique_elements(names: &Vec<String>) -> (unique: bool)
    ensures
        unique == texts(names@).no_duplicates(),
{
    let ghost all = texts(names@);
    let mut i: usize = 0;
    while i < names.len()
        invariant
            i <= names.len(),
            all == texts(names@),
            forall|a: int, b: int| 0 <= a < b < i ==> all[a] != all[b],
        decreases names.len() - i,
    {
        let mut j: usize = 0;
        while j < i
            invariant
                j <= i < names.len(),
                all == texts(names@),
                forall|a: int| 0 <= a < j ==> all[a] != all[i as int],
            decreases i - j,
        {
            if names[j] == names[i] {
                assert(all[j as int] == all[i as int]);
                return false;
            }
            j += 1;
        }
        i += 1;
    }
    true
}

/// Brings the servers of `proxy_id` in line with `names`, taking the
/// identifier of a server to add from the same position of `ids`.
pub fn reconcile(store: &mut IdentityStore, proxy_id: &str, names: &Vec<String>, ids: &Vec<i64>)
    requires
        old(store)@.wf(),
        ids.len() == names.len(),
    ensures
        final(store)@ == registered(old(store)@, proxy_id@, texts(names@), ids@),
        final(store)@.wf(),
{
    store.ensure_proxy(proxy_id);
    store.retain_servers(proxy_id, names);
    let ghost base = store@;
    let ghost all = texts(names@);
    let mut i: usize = 0;
    assert(all.take(0) =~= Seq::empty());
    while i < names.len()
        invariant
            i <= names.len(),
            ids.len() == names.len(),
            all == texts(names@),
            store@.wf(),
            store@ == with_servers(base, proxy_id@, all.take(i as int), ids@.take(i as int)),
        decreases names.len() - i,
    {
        assert(all.take(i + 1).drop_last() =~= all.take(i as int));
        assert(ids@.take(i + 1).drop_last() =~= ids@.take(i as int));
        assert(all.take(i + 1).last() == names@[i as int]@);
        if !names[i].as_str().is_empty() {
            store.add_server(ids[i], proxy_id, names[i].as_str());
        }
        i += 1;
    }
    assert(all.take(i as int) =~= all);
    assert(ids@.take(i as int) =~= ids@);
}

/// Registers a proxy with the servers it fronts, given the identifiers for
/// the servers to add. A request without a proxy identifier, or with a name
/// that occurs twice, changes nothing.
pub fn register_proxy_with(
    store: &mut IdentityStore,
    proxy_id: &str,
    names: &Vec<String>,
    ids: &Vec<i64>,
) -> (result: Result<RegistrationResponse, RegistryError>)
    requires
        old(store)@.wf(),
        ids.len() == names.len(),
    ensures
        result == registration_verdict(proxy_id@, texts(names@)),
        result is Err ==> final(store)@ == old(store)@,
        result is Ok ==> final(store)@ == registered(
            old(store)@,
            proxy_id@,
            texts(names@),
            ids@,
        ),
        final(store)@.wf(),
{
    if proxy_id.is_empty() {
        return Err(RegistryError::EmptyProxyId);
    }
    if !has_unique_elements(names) {
        return Err(RegistryError::DuplicateServerNames);
    }
    reconcile(store, proxy_id, names, ids);
    Ok(RegistrationResponse { success: true })
}

/// Registers a proxy with the servers it fronts, drawing a fresh identifier
/// for each name of the list. A request without a proxy identifier, or with
/// a name that occurs twice, changes nothing and draws nothing. Where the
/// generator runs out of identifiers the store is left as it was. The
/// identifiers drawn lie above every identifier the generator gave before,
/// rise from one to the next, and none lies above the largest the generator
/// has given by the end; so where no identifier in the store lay above the
/// generator's largest, none does afterwards.
pub fn register_proxy(
    store: &mut IdentityStore,
    generator: &mut IdGenerator,
    proxy_id: &str,
    names: &Vec<String>,
) -> (result: Result<RegistrationResponse, RegistryError>)
    requires
        old(store)@.wf(),
    ensures
        final(store)@.wf(),
        final(generator)@.floor() >= old(generator)@.floor(),
        registration_verdict(proxy_id@, texts(names@)) matches Err(e) ==> result == Err::<
            RegistrationResponse,
            RegistryError,
        >(e) && final(generator)@ == old(generator)@,
        result is Err ==> final(store)@ == old(store)@,
        registration_verdict(proxy_id@, texts(names@)) is Ok ==> result == Ok::<
            RegistrationResponse,
            RegistryError,
        >(RegistrationResponse { success: true }) || (result == Err::<
            RegistrationResponse,
            RegistryError,
        >(RegistryError::IdentifiersSpent) && final(generator)@.spent() && names.len() > 0),
        registration_verdict(proxy_id@, texts(names@)) is Ok && names.len() == 0 ==> result is Ok,
        registration_verdict(proxy_id@, texts(names@)) is Ok && names.len() == 1 && !old(
            generator,
        )@.spent() ==> result is Ok,
        registration_verdict(proxy_id@, texts(names@)) is Ok && names.len() > 0 && old(
            generator,
        )@.spent() ==> result is Err,
        result is Ok ==> exists|ids: Seq<i64>|
            ids.len() == names.len() && final(store)@ == #[trigger] registered(
                old(store)@,
                proxy_id@,
                texts(names@),
                ids,
            ) && fresh_run(ids, old(generator)@.floor(), final(generator)@.floor()),
        old(store)@.ids_at_most(old(generator)@.floor()) ==> final(store)@.ids_at_most(
            final(generator)@.floor(),
        ),
{
    if proxy_id.is_empty() {
        return Err(RegistryError::EmptyProxyId);
    }
    if !has_unique_elements(names) {
        return Err(RegistryError::DuplicateServerNames);
    }
    let ghost floor = generator@.floor();
    let mut ids: Vec<i64> = Vec::new();
    let mut i: usize = 0;
    while i < names.len()
        invariant
            i <= names.len(),
            ids.len() == i,
            store@ == old(store)@,
            store@.wf(),
            registration_verdict(proxy_id@, texts(names@)) is Ok,
            floor == old(generator)@.floor(),
            generator@.floor() >= floor,
            i == 0 ==> generator@ == old(generator)@,
            fresh_run(ids@, floor, generator@.floor()),
        decreases names.len() - i,
    {
        match generate_id(generator) {
            None => {
                return Err(RegistryError::IdentifiersSpent);
            },
            Some(id) => {
                ids.push(id);
            },
        }
        i += 1;
    }
    proof {
        lemma_registered_ids(
            store@,
            proxy_id@,
            texts(names@),
            ids@,
            generator@.floor(),
        );
    }
    reconcile(store, proxy_id, names, &ids);
    Ok(RegistrationResponse { success: true })
}

/// Adding servers under identifiers that lie at or below a bound keeps the
/// identifiers of the store at or below it.
pub proof fn lemma_with_servers_ids(
    s: StoreView,
    proxy: Seq<char>,
    names: Seq<Seq<char>>,
    ids: Seq<i64>,
    bound: int,
)
    requires
        ids.len() == names.len(),
        s.ids_at_most(bound),
        forall|k: int| 0 <= k < ids.len() ==> (#[trigger] ids[k]) <= bound,
    ensures
        with_servers(s, proxy, names, ids).ids_at_most(bound),
    decreases names.len(),
{
    if names.len() > 0 {
        lemma_with_servers_ids(s, proxy, names.drop_last(), ids.drop_last(), bound);
        assert(ids.last() == ids[ids.len() - 1]);
    }
}

/// A registration under identifiers that lie at or below a bound keeps the
/// identifiers of the store at or below it, where they were.
pub proof fn lemma_registered_ids(
    s: StoreView,
    proxy: Seq<char>,
    names: Seq<Seq<char>>,
    ids: Seq<i64>,
    bound: int,
)
    requires
        ids.len() == names.len(),
        forall|k: int| 0 <= k < ids.len() ==> (#[trigger] ids[k]) <= bound,
    ensures
        s.ids_at_most(bound) ==> registered(s, proxy, names, ids).ids_at_most(bound),
{
    if s.ids_at_most(bound) {
        let base = s.with_proxy(proxy).without_absent(proxy, names);
        let keep = kept_by(proxy, names);
        assert forall|i: int| 0 <= i < base.servers.len() implies (#[trigger] base.servers[i]).id
            <= bound by {
            assert(s.servers.filter(keep).contains(base.servers[i]));
            s.servers.lemma_filter_contains_rev(keep, base.servers[i]);
            let j = choose|j: int| 0 <= j < s.servers.len() && s.servers[j] == base.servers[i];
            assert(s.servers[j].id <= bound);
        }
        lemma_with_servers_ids(base, proxy, names, ids, bound);
    }
}

/// What a lookup finds once the servers that `names` does not name are gone:
/// the servers of other proxies and the named servers of `proxy`, as before.
pub proof fn lemma_without_absent(
    s: StoreView,
    proxy: Seq<char>,
    names: Seq<Seq<char>>,
    q: Seq<char>,
    n: Seq<char>,
)
    ensures
        s.with_proxy(proxy).without_absent(proxy, names).server(q, n) == (if q != proxy
            || names.contains(n) {
            s.server(q, n)
        } else {
            None
        }),
{
    let keep = kept_by(proxy, names);
    let pred = server_is(q, n);
    assert(s.with_proxy(proxy).servers == s.servers);
    if q != proxy || names.contains(n) {
        assert forall|r: ServerView| #[trigger] pred(r) implies keep(r) by {}
        lemma_find_kept(s.servers, keep, pred);
    } else {
        assert forall|r: ServerView| #[trigger] pred(r) implies !keep(r) by {}
        lemma_find_all_dropped(s.servers, keep, pred);
    }
}

/// What a lookup finds once the names that `proxy` lacked were added: a server
/// that was there is found as before, a name that was lacking is found
/// unconfigured under the identifier at its position, and nothing else is.
pub proof fn lemma_with_servers(
    s: StoreView,
    proxy: Seq<char>,
    names: Seq<Seq<char>>,
    ids: Seq<i64>,
    q: Seq<char>,
    n: Seq<char>,
)
    requires
        names.no_duplicates(),
        ids.len() == names.len(),
        s.proxy(proxy) is Some,
    ensures
        with_servers(s, proxy, names, ids).proxies == s.proxies,
        with_servers(s, proxy, names, ids).players == s.players,
        with_servers(s, proxy, names, ids).linkages == s.linkages,
        s.server(q, n) is Some ==> with_servers(s, proxy, names, ids).server(q, n) == s.server(
            q,
            n,
        ),
        s.server(q, n) is None && !(q == proxy && names.contains(n) && n.len() > 0)
            ==> with_servers(s, proxy, names, ids).server(q, n) is None,
        forall|k: int|
            0 <= k < names.len() && #[trigger] names[k] == n && n.len() > 0 && q == proxy
                && s.server(q, n) is None ==> with_servers(s, proxy, names, ids).server(q, n)
                == Some(unconfigured(ids[k], proxy, n)),
    decreases names.len(),
{
    if names.len() > 0 {
        let init = names.drop_last();
        let last = names.last();
        let before = with_servers(s, proxy, init, ids.drop_last());
        let after = with_servers(s, proxy, names, ids);
        assert(after == if last.len() == 0 {
            before
        } else {
            before.with_server(ids.last(), proxy, last)
        });
        lemma_with_servers(s, proxy, init, ids.drop_last(), q, n);
        lemma_with_servers(s, proxy, init, ids.drop_last(), proxy, last);
        assert(!init.contains(last)) by {
            if init.contains(last) {
                let a = choose|a: int| 0 <= a < init.len() && init[a] == last;
                assert(names[a] == names[names.len() - 1]);
            }
        }
        lemma_find_push(before.servers, unconfigured(ids.last(), proxy, last), server_is(q, n));
        assert forall|k: int|
            0 <= k < names.len() && #[trigger] names[k] == n && n.len() > 0 && q == proxy
                && s.server(q, n) is None implies after.server(q, n) == Some(
            unconfigured(ids[k], proxy, n),
        ) by {
            if k < init.len() {
                assert(init[k] == n);
                assert(ids.drop_last()[k] == ids[k]);
            }
        }
        if s.server(q, n) is None && !(q == proxy && names.contains(n) && n.len() > 0) {
            if q == proxy && init.contains(n) && n.len() > 0 {
                let a = choose|a: int| 0 <= a < init.len() && init[a] == n;
                assert(names[a] == n);
            }
        }
    }
}

/// After a proxy registered a list of distinct names, the names stored for it
/// are those of the list, an empty name being passed over: exactly those of
/// the list where none of them is empty. A listed server that was stored
/// before is found as it was, with its identifier, kind and role; a listed
/// name that was not stored is found unconfigured under the identifier at
/// its position; the servers of every other proxy are found as they were;
/// and players and linkages are untouched.
pub proof fn lemma_registration_reconciles(
    s: StoreView,
    proxy: Seq<char>,
    names: Seq<Seq<char>>,
    ids: Seq<i64>,
)
    requires
        names.no_duplicates(),
        ids.len() == names.len(),
    ensures
        registered(s, proxy, names, ids).server_names(proxy) == listed(s, proxy, names),
        (forall|i: int| 0 <= i < names.len() ==> (#[trigger] names[i]).len() > 0) ==> registered(
            s,
            proxy,
            names,
            ids,
        ).server_names(proxy) == names.to_set(),
        forall|n: Seq<char>|
            names.contains(n) && s.server(proxy, n) is Some ==> #[trigger] registered(
                s,
                proxy,
                names,
                ids,
            ).server(proxy, n) == s.server(proxy, n),
        forall|k: int|
            0 <= k < names.len() && (#[trigger] names[k]).len() > 0 && s.server(proxy, names[k])
                is None ==> registered(s, proxy, names, ids).server(proxy, names[k]) == Some(
                unconfigured(ids[k], proxy, names[k]),
            ),
        forall|q: Seq<char>, n: Seq<char>|
            q != proxy ==> #[trigger] registered(s, proxy, names, ids).server(q, n) == s.server(
                q,
                n,
            ),
        registered(s, proxy, names, ids).proxy(proxy) is Some,
        registered(s, proxy, names, ids).proxies == s.with_proxy(proxy).proxies,
        registered(s, proxy, names, ids).players == s.players,
        registered(s, proxy, names, ids).linkages == s.linkages,
{
    let base = s.with_proxy(proxy).without_absent(proxy, names);
    let after = registered(s, proxy, names, ids);
    assert(base.proxy(proxy) is Some) by {
        if s.proxy(proxy) is None {
            lemma_find_push(s.proxies, ProxyView { id: proxy, group: None }, proxy_is(proxy));
        }
    }
    lemma_with_servers(base, proxy, names, ids, proxy, proxy);
    assert forall|q: Seq<char>, n: Seq<char>| q != proxy implies #[trigger] after.server(q, n)
        == s.server(q, n) by {
        lemma_without_absent(s, proxy, names, q, n);
        lemma_with_servers(base, proxy, names, ids, q, n);
    }
    assert forall|n: Seq<char>| names.contains(n) && s.server(proxy, n) is Some implies (
    #[trigger] after.server(proxy, n)) == s.server(proxy, n) by {
        lemma_without_absent(s, proxy, names, proxy, n);
        lemma_with_servers(base, proxy, names, ids, proxy, n);
    }
    assert forall|k: int|
        0 <= k < names.len() && (#[trigger] names[k]).len() > 0 && s.server(proxy, names[k])
            is None implies after.server(proxy, names[k]) == Some(
        unconfigured(ids[k], proxy, names[k]),
    ) by {
        lemma_without_absent(s, proxy, names, proxy, names[k]);
        lemma_with_servers(base, proxy, names, ids, proxy, names[k]);
    }
    assert forall|n: Seq<char>| after.server_names(proxy).contains(n) == listed(
        s,
        proxy,
        names,
    ).contains(n) by {
        lemma_without_absent(s, proxy, names, proxy, n);
        lemma_with_servers(base, proxy, names, ids, proxy, n);
        if names.contains(n) {
            let k = choose|k: int| 0 <= k < names.len() && names[k] == n;
            assert(names[k] == n);
        }
    }
    assert(after.server_names(proxy) =~= listed(s, proxy, names));
    if forall|i: int| 0 <= i < names.len() ==> (#[trigger] names[i]).len() > 0 {
        assert forall|n: Seq<char>| listed(s, proxy, names).contains(n) == names.to_set().contains(
            n,
        ) by {
            if names.contains(n) {
                let k = choose|k: int| 0 <= k < names.len() && names[k] == n;
                assert(names[k].len() > 0);
            }
        }
        assert(listed(s, proxy, names) =~= names.to_set());
    }
}

} // verus!
