//! The service as the proxies and the callback see it: one context that holds
//! the store, the bus, the source of identifiers and the linking
//! configuration, made once and handed to every operation.

use crate::access::{
    access_plan, access_step, access_store, check_player_access, drawn, offer_url, step_view,
    AccessError, AccessPlan, AccessStatus, AccessStep, PlayerAccessRequest, LINK_VALIDITY_SECS,
};
use crate::bus::{broadcast_all, reached_count, EventBus, Subscriber};
use crate::events::{player_updates, update_about, EventSubscription, ServerEvent};
use crate::linking::{
    callback_outcome, callback_store, lemma_callback_store_ids, oauth_callback, redirect_fault,
    settled, Exchange, LinkError, OAuthParams,
};
use crate::minecraft::MinecraftServerType;
use crate::model::{linked_to, texts, views};
use crate::oauth::LinkingConfig;
use crate::registry::{
    fresh_run, register_proxy, registered, registration_verdict, RegistrationResponse,
    RegistryError,
};
use crate::snowflake::{unix_time_ms, IdGenerator};
use crate::store::{lemma_with_assignment_ids, IdentityStore, StoreView};
use vstd::prelude::*;

verus! {

/// What the operations of the service share.
pub struct GrpcServiceState {
    /// The identity store.
    pub store: IdentityStore,
    /// The bus that events are published on.
    pub event_tx: EventBus,
    /// The source of fresh identifiers.
    pub generator: IdGenerator,
    /// How players are sent to the identity provider, once the service has
    /// been told.
    pub config: Option<LinkingConfig>,
}

impl GrpcServiceState {
    /// The store keeps its keys apart, the configuration, where there is
    /// one, is sound, and no identifier in the store lies above the largest
    /// that the generator has given.
    pub open spec fn wf(&self) -> bool {
        &&& self.store@.wf()
        &&& self.config matches Some(c) ==> c.wf()
        &&& self.store@.ids_at_most(self.generator@.floor())
    }

    /// The configuration, where there is one.
    pub open spec fn linking(&self) -> Option<&LinkingConfig> {
        match self.config {
            Some(c) => Some(&c),
            None => None,
        }
    }
}

/// The service that proxies talk to.
pub struct MinecraftBridgeService {
    state: GrpcServiceState,
}

impl MinecraftBridgeService {
    /// What the service holds.
    pub closed spec fn state(&self) -> GrpcServiceState {
        self.state
    }

    /// The store as the service holds it.
    pub open spec fn store(&self) -> StoreView {
        self.state().store@
    }

    /// The largest identifier the service has given; below zero before the
    /// first.
    pub open spec fn floor(&self) -> int {
        self.state().generator@.floor()
    }

    /// A service over the given state.
    pub fn new(state: GrpcServiceState) -> (service: Self)
        ensures
            service.state() == state,
    {
        Self { state }
    }

    /// Hands the state back.
    pub fn into_state(self) -> (state: GrpcServiceState)
        ensures
            state == self.state(),
    {
        self.state
    }

    /// The store, to look things up in.
    pub fn identity_store(&self) -> (store: &IdentityStore)
        ensures
            store@ == self.store(),
    {
        &self.state.store
    }

    /// Assigns a proxy to a group, or takes its group away. Answers whether
    /// the proxy exists.
    pub fn assign_group(&mut self, proxy_id: &str, group: Option<u64>) -> (found: bool)
        requires
            old(self).state().wf(),
        ensures
            final(self).state().wf(),
            final(self).state().config == old(self).state().config,
            final(self).floor() == old(self).floor(),
            found == (old(self).store().proxy(proxy_id@) is Some),
            final(self).store() == old(self).store().with_group(proxy_id@, group),
    {
        self.state.store.assign_group(proxy_id, group)
    }

    /// Sets the kind of a server and, for a game server, the role it
    /// requires. Answers whether the server exists.
    pub fn configure_server(
        &mut self,
        proxy_id: &str,
        name: &str,
        kind: Option<MinecraftServerType>,
        role: Option<u64>,
    ) -> (found: bool)
        requires
            old(self).state().wf(),
        ensures
            final(self).state().wf(),
            final(self).state().config == old(self).state().config,
            final(self).floor() == old(self).floor(),
            found == (old(self).store().server(proxy_id@, name@) is Some),
            final(self).store() == old(self).store().with_assignment(proxy_id@, name@, kind, role),
    {
        proof {
            lemma_with_assignment_ids(
                self.state.store@,
                proxy_id@,
                name@,
                kind,
                role,
                self.state.generator@.floor(),
            );
        }
        self.state.store.configure_server(proxy_id, name, kind, role)
    }

    /// Registers a proxy with the servers it fronts, under identifiers that
    /// lie above every identifier in the store and rise from one to the
    /// next.
    pub fn register_proxy(&mut self, proxy_id: &str, names: &Vec<String>) -> (result: Result<
        RegistrationResponse,
        RegistryError,
    >)
        requires
            old(self).state().wf(),
        ensures
            final(self).state().wf(),
            final(self).state().config == old(self).state().config,
            final(self).floor() >= old(self).floor(),
            registration_verdict(proxy_id@, texts(names@)) matches Err(e) ==> result == Err::<
                RegistrationResponse,
                RegistryError,
            >(e) && final(self).floor() == old(self).floor(),
            result is Err ==> final(self).store() == old(self).store(),
            registration_verdict(proxy_id@, texts(names@)) is Ok ==> result == Ok::<
                RegistrationResponse,
                RegistryError,
            >(RegistrationResponse { success: true }) || (result == Err::<
                RegistrationResponse,
                RegistryError,
            >(RegistryError::IdentifiersSpent) && names.len() > 0),
            registration_verdict(proxy_id@, texts(names@)) is Ok && names.len() == 0
                ==> result is Ok,
            result is Ok ==> exists|ids: Seq<i64>|
                ids.len() == names.len() && final(self).store() == #[trigger] registered(
                    old(self).store(),
                    proxy_id@,
                    texts(names@),
                    ids,
                ) && fresh_run(ids, old(self).floor(), final(self).floor()),
    {
        let result = register_proxy(
            &mut self.state.store,
            &mut self.state.generator,
            proxy_id,
            names,
        );
        proof {
            if result is Ok {
                let ids = choose|ids: Seq<i64>|
                    ids.len() == names.len() && self.state.store@ == #[trigger] registered(
                        old(self).state.store@,
                        proxy_id@,
                        texts(names@),
                        ids,
                    ) && fresh_run(
                        ids,
                        old(self).state.generator@.floor(),
                        self.state.generator@.floor(),
                    );
                assert(self.store() == registered(
                    old(self).store(),
                    proxy_id@,
                    texts(names@),
                    ids,
                ));
            }
        }
        result
    }

    /// Answers whether a player may enter a server, as far as the store can
    /// tell: a player without a linked account is offered to link one, and
    /// for a linked player the answer names what to ask the platform. What
    /// is drawn for an offer lies above every identifier in the store.
    pub fn check_player_access(&mut self, request: &PlayerAccessRequest) -> (result: Result<
        AccessStep,
        AccessError,
    >)
        requires
            old(self).state().wf(),
        ensures
            final(self).state().wf(),
            final(self).state().config == old(self).state().config,
            final(self).floor() >= old(self).floor(),
            access_plan(old(self).store(), request@) matches Err(e) ==> result == Err::<
                AccessStep,
                AccessError,
            >(e),
            result == Err::<AccessStep, AccessError>(AccessError::IdentifiersSpent)
                ==> access_plan(old(self).store(), request@) == Ok::<AccessPlan, AccessError>(
                AccessPlan::Link,
            ) && final(self).store() == old(self).store(),
            result == Err::<AccessStep, AccessError>(AccessError::IdentifiersSpent) || exists|
                player_id: i64,
                linkage_id: i64,
                token: Seq<char>,
            |
                {
                    &&& step_view(result) == access_step(
                        old(self).store(),
                        request@,
                        player_id,
                        offer_url(old(self).state().linking(), token),
                    )
                    &&& final(self).store() == #[trigger] access_store(
                        old(self).store(),
                        request@,
                        old(self).state().config is Some,
                        player_id,
                        linkage_id,
                        token,
                    )
                    &&& access_plan(old(self).store(), request@) == Ok::<AccessPlan, AccessError>(
                        AccessPlan::Link,
                    ) && old(self).state().config is Some ==> drawn(
                        old(self).floor(),
                        final(self).floor(),
                        player_id,
                        linkage_id,
                        token,
                    )
                },
            result matches Ok(AccessStep::Respond(response)) ==> response.status
                == AccessStatus::RequiresSignup && response.expires_in == Some(
                LINK_VALIDITY_SECS,
            ) && response.authentication_url is Some
                && response.authentication_url.unwrap()@.len() > 0,
    {
        let ghost linking = self.state.linking();
        let result = check_player_access(
            &mut self.state.store,
            self.state.config.as_ref(),
            &mut self.state.generator,
            request,
        );
        proof {
            if result != Err::<AccessStep, AccessError>(AccessError::IdentifiersSpent) {
                let (player_id, linkage_id, token) = choose|
                    player_id: i64,
                    linkage_id: i64,
                    token: Seq<char>,
                |
                    {
                        &&& step_view(result) == access_step(
                            old(self).state.store@,
                            request@,
                            player_id,
                            offer_url(linking, token),
                        )
                        &&& self.state.store@ == #[trigger] access_store(
                            old(self).state.store@,
                            request@,
                            linking is Some,
                            player_id,
                            linkage_id,
                            token,
                        )
                        &&& access_plan(old(self).state.store@, request@) == Ok::<
                            AccessPlan,
                            AccessError,
                        >(AccessPlan::Link) && linking is Some ==> drawn(
                            old(self).state.generator@.floor(),
                            self.state.generator@.floor(),
                            player_id,
                            linkage_id,
                            token,
                        )
                    };
                assert(self.store() == access_store(
                    old(self).store(),
                    request@,
                    old(self).state().config is Some,
                    player_id,
                    linkage_id,
                    token,
                ));
            }
        }
        result
    }

    /// Subscribes a proxy to the events published from now on that pass its
    /// filter.
    pub fn subscribe_events(&self, subscription: EventSubscription) -> (subscriber: Subscriber)
        ensures
            subscriber.subscription() == subscription,
    {
        self.state.event_tx.subscribe(subscription)
    }

    /// The callback that the identity provider sends a player back to, with
    /// the outcome of the exchange of the authorization code. A redirect
    /// that lacks an entry, or whose token cannot be claimed, is turned down
    /// before the clock is asked.
    pub fn oauth_callback(&mut self, params: &OAuthParams, exchange: Exchange) -> (result: Result<
        String,
        LinkError,
    >)
        requires
            old(self).state().wf(),
        ensures
            final(self).state().wf(),
            final(self).state().config == old(self).state().config,
            final(self).floor() == old(self).floor(),
            result is Err ==> final(self).store() == old(self).store(),
            result matches Ok(text) ==> text@ == "Sucesso!"@,
            redirect_fault(old(self).store(), *params) matches Some(e) ==> result == Err::<
                String,
                LinkError,
            >(e),
            redirect_fault(old(self).store(), *params) is None ==> result == Err::<
                String,
                LinkError,
            >(LinkError::Expired) || exists|now_ms: u64|
                settled(result) == settled(
                    callback_outcome(
                        old(self).store(),
                        old(self).state().config is Some,
                        *params,
                        exchange,
                        now_ms,
                    ),
                ) && final(self).store() == #[trigger] callback_store(
                    old(self).store(),
                    old(self).state().config is Some,
                    *params,
                    exchange,
                    now_ms,
                ),
    {
        let configured = self.state.config.is_some();
        let result = oauth_callback(
            &mut self.state.store,
            &self.state.event_tx,
            configured,
            params,
            exchange,
        );
        proof {
            if redirect_fault(old(self).store(), *params) is None && result != Err::<
                String,
                LinkError,
            >(LinkError::Expired) {
                let now_ms = choose|now_ms: u64|
                    settled(result) == settled(
                        callback_outcome(
                            old(self).state.store@,
                            configured,
                            *params,
                            exchange,
                            now_ms,
                        ),
                    ) && self.state.store@ == #[trigger] callback_store(
                        old(self).state.store@,
                        configured,
                        *params,
                        exchange,
                        now_ms,
                    );
                assert(self.store() == callback_store(
                    old(self).store(),
                    old(self).state().config is Some,
                    *params,
                    exchange,
                    now_ms,
                ));
                lemma_callback_store_ids(
                    old(self).state.store@,
                    configured,
                    *params,
                    exchange,
                    now_ms,
                    self.state.generator@.floor(),
                );
            }
        }
        result
    }

    /// Tells the proxies about every player linked to an account whose
    /// membership or roles changed: one update is published for each such
    /// player, and the answer is the number of updates that the bus handed
    /// to at least one subscriber. With a clock that reads a time before the epoch the
    /// updates are stamped with zero.
    pub fn guild_member_update(&self, account: u64) -> (reached: usize)
        ensures
            exists|counts: Seq<usize>|
                counts.len() == self.store().players.filter(linked_to(account)).len()
                    && reached == #[trigger] reached_count(counts),
            reached <= self.store().players.filter(linked_to(account)).len(),
    {
        let now_ms = match unix_time_ms() {
            Some(now_ms) => now_ms,
            None => 0,
        };
        let events = member_updates(&self.state.store, account, now_ms);
        assert(views(events@).len() == events.len());
        broadcast_all(&self.state.event_tx, &events)
    }
}

/// The updates to publish when the membership or the roles of an account
/// changed: one for each player linked to it, in the order they were stored.
pub fn member_updates(store: &IdentityStore, account: u64, now_ms: u64) -> (events: Vec<
    ServerEvent,
>)
    ensures
        views(events@) == store@.players.filter(linked_to(account)).map_values(
            update_about(now_ms),
        ),
{
    let players = store.players_linked_to(account);
    player_updates(&players, now_ms)
}

} // verus!
