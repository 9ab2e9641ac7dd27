//! The access decision: may this player enter this server now?
//!
//! A request is checked, then the proxy's group and the server's kind and
//! role are resolved, then the player is looked up. A player without a linked
//! account is sent to link one. For a linked player the community platform is
//! asked about the account, and its answer decides: a lobby admits members of
//! the group, a game server members that hold its role, and an answer that
//! could not be had admits nobody.

use crate::address::{is_ipv4, is_valid_ipv4};
use crate::minecraft::MinecraftServerType;
use crate::model::{player_is, PlayerView};
use crate::oauth::{fits, LinkingConfig};
use crate::snowflake::{generate_id, IdGenerator};
use crate::status::StatusCode;
use crate::store::{not_superseded, IdentityStore, StoreView};
use crate::table::lemma_find_push;
use vstd::prelude::*;

verus! {

/// For how many seconds an offer to link an account stands.
pub const LINK_VALIDITY_SECS: i32 = 300;

/// The decision on a player.
#[derive(Clone, Copy, Debug, PartialEq, Eq, Structural)]
pub enum AccessStatus {
    Allowed,
    Prohibited,
    RequiresSignup,
}

/// The question a proxy asks for a connecting player.
#[derive(Debug)]
pub struct PlayerAccessRequest {
    pub player_name: String,
    pub player_ipv4: String,
    pub server_name: String,
    pub proxy_id: String,
}

/// The answer: the decision and, for a player who has to link an account,
/// where to do so and for how many seconds the offer stands.
#[derive(Debug)]
pub struct PlayerAccessResponse {
    pub status: AccessStatus,
    pub authentication_url: Option<String>,
    pub expires_in: Option<i32>,
}

/// Why a question got no decision.
#[derive(Clone, Copy, Debug, PartialEq, Eq, Structural)]
pub enum AccessError {
    EmptyPlayerName,
    InvalidAddress,
    EmptyProxyId,
    EmptyServerName,
    ProxyNotRegistered,
    GuildNotRegistered,
    ServerNotRegistered,
    ServerTypeNotConfigured,
    ServerRoleNotConfigured,
    /// The store did not take the player: the fresh identifier was in use.
    Store,
    /// The service has not been told of the identity provider.
    NotConfigured,
    /// No identifier is left for a player or a linkage.
    IdentifiersSpent,
}

pub struct RequestView {
    pub player_name: Seq<char>,
    pub player_ipv4: Seq<char>,
    pub server_name: Seq<char>,
    pub proxy_id: Seq<char>,
}

pub struct ResponseView {
    pub status: AccessStatus,
    pub authentication_url: Option<Seq<char>>,
    pub expires_in: Option<i32>,
}

impl View for PlayerAccessRequest {
    type V = RequestView;

    open spec fn view(&self) -> RequestView {
        RequestView {
            player_name: self.player_name@,
            player_ipv4: self.player_ipv4@,
            server_name: self.server_name@,
            proxy_id: self.proxy_id@,
        }
    }
}

impl View for PlayerAccessResponse {
    type V = ResponseView;

    open spec fn view(&self) -> ResponseView {
        ResponseView {
            status: self.status,
            authentication_url: match self.authentication_url {
                Some(url) => Some(url@),
                None => None,
            },
            expires_in: self.expires_in,
        }
    }
}

/// What to ask the community platform about a linked account: is it a member
/// of the group, and, where a role is named, does it hold that role?
#[derive(Clone, Copy, Debug, PartialEq, Eq, Structural)]
pub struct MembershipQuery {
    pub account: u64,
    pub group: u64,
    pub role: Option<u64>,
}

/// What the community platform said of an account in a group.
#[derive(Debug)]
pub enum MemberLookup {
    /// The account is a member and holds these roles.
    Member { roles: Vec<u64> },
    /// The account is no member, or the platform could not be asked.
    Failed,
}

/// What is left to do for a request that passed the checks.
#[derive(Clone, Copy, Debug, PartialEq, Eq, Structural)]
pub enum AccessPlan {
    /// The player has no linked account: offer to link one.
    Link,
    /// The player is linked: ask the platform, then decide.
    Lookup(MembershipQuery),
}

/// Where a request stands once the store has been consulted.
#[derive(Debug)]
pub enum AccessStep {
    /// The answer is ready.
    Respond(PlayerAccessResponse),
    /// The platform has to be asked; its answer goes to `decide`.
    Lookup(MembershipQuery),
}

impl AccessError {
    /// The class of the failure: a fault of the request, something unknown
    /// or unconfigured, or a fault of the service.
    pub open spec fn status_of(self) -> StatusCode {
        match self {
            AccessError::EmptyPlayerName => StatusCode::InvalidArgument,
            AccessError::InvalidAddress => StatusCode::InvalidArgument,
            AccessError::EmptyProxyId => StatusCode::InvalidArgument,
            AccessError::EmptyServerName => StatusCode::InvalidArgument,
            AccessError::ProxyNotRegistered => StatusCode::NotFound,
            AccessError::GuildNotRegistered => StatusCode::NotFound,
            AccessError::ServerNotRegistered => StatusCode::NotFound,
            AccessError::ServerTypeNotConfigured => StatusCode::NotFound,
            AccessError::ServerRoleNotConfigured => StatusCode::NotFound,
            AccessError::Store => StatusCode::Internal,
            AccessError::NotConfigured => StatusCode::Internal,
            AccessError::IdentifiersSpent => StatusCode::Internal,
        }
    }

    /// The class of the failure.
    pub fn status(&self) -> (code: StatusCode)
        ensures
            code == self.status_of(),
    {
        match self {
            AccessError::EmptyPlayerName => StatusCode::InvalidArgument,
            AccessError::InvalidAddress => StatusCode::InvalidArgument,
            AccessError::EmptyProxyId => StatusCode::InvalidArgument,
            AccessError::EmptyServerName => StatusCode::InvalidArgument,
            AccessError::ProxyNotRegistered => StatusCode::NotFound,
            AccessError::GuildNotRegistered => StatusCode::NotFound,
            AccessError::ServerNotRegistered => StatusCode::NotFound,
            AccessError::ServerTypeNotConfigured => StatusCode::NotFound,
            AccessError::ServerRoleNotConfigured => StatusCode::NotFound,
            AccessError::Store => StatusCode::Internal,
            AccessError::NotConfigured => StatusCode::Internal,
            AccessError::IdentifiersSpent => StatusCode::Internal,
        }
    }

    /// The text sent back with the failure.
    pub fn message(&self) -> (text: String)
        ensures
            text@ == match *self {
                AccessError::EmptyPlayerName => "Player name is empty"@,
                AccessError::InvalidAddress => "Player IPv4 is empty or invalid"@,
                AccessError::EmptyProxyId => "proxy_id is empty"@,
                AccessError::EmptyServerName => "Server name is empty"@,
                AccessError::ProxyNotRegistered => "Proxy not registered"@,
                AccessError::GuildNotRegistered => "Proxy's guild not registered"@,
                AccessError::ServerNotRegistered => "Server not registered"@,
                AccessError::ServerTypeNotConfigured => "Server type not configured"@,
                AccessError::ServerRoleNotConfigured => "Server role not configured"@,
                AccessError::Store => "Database error"@,
                AccessError::NotConfigured => "Discord OAuth is not configured"@,
                AccessError::IdentifiersSpent => "No identifier is left"@,
            },
    {
        match self {
            AccessError::EmptyPlayerName => "Player name is empty".to_owned(),
            AccessError::InvalidAddress => "Player IPv4 is empty or invalid".to_owned(),
            AccessError::EmptyProxyId => "proxy_id is empty".to_owned(),
            AccessError::EmptyServerName => "Server name is empty".to_owned(),
            AccessError::ProxyNotRegistered => "Proxy not registered".to_owned(),
            AccessError::GuildNotRegistered => "Proxy's guild not registered".to_owned(),
            AccessError::ServerNotRegistered => "Server not registered".to_owned(),
            AccessError::ServerTypeNotConfigured => "Server type not configured".to_owned(),
            AccessError::ServerRoleNotConfigured => "Server role not configured".to_owned(),
            AccessError::Store => "Database error".to_owned(),
            AccessError::NotConfigured => "Discord OAuth is not configured".to_owned(),
            AccessError::IdentifiersSpent => "No identifier is left".to_owned(),
        }
    }
}

/// The first fault of a request, if it has one: each of the four entries
/// must be there, and the address must be one.
pub open spec fn request_fault(request: RequestView) -> Option<AccessError> {
    if request.player_name.len() == 0 {
        Some(AccessError::EmptyPlayerName)
    } else if !is_ipv4(request.player_ipv4) {
        Some(AccessError::InvalidAddress)
    } else if request.proxy_id.len() == 0 {
        Some(AccessError::EmptyProxyId)
    } else if request.server_name.len() == 0 {
        Some(AccessError::EmptyServerName)
    } else {
        None
    }
}

/// The role a server asks for, given its kind: a lobby asks for none, a game
/// server for the one assigned to it, which must be there.
pub open spec fn required_role(kind: MinecraftServerType, role: Option<u64>) -> Result<
    Option<u64>,
    AccessError,
> {
    match kind {
        MinecraftServerType::Lobby => Ok(None),
        MinecraftServerType::Game => match role {
            Some(r) => Ok(Some(r)),
            None => Err(AccessError::ServerRoleNotConfigured),
        },
    }
}

/// What is left to do for a request, or the reason there is no decision on
/// it: a fault of the request, an unknown proxy or one without a group, an
/// unknown server or one without a kind, a game server without a role.
pub open spec fn access_plan(s: StoreView, request: RequestView) -> Result<AccessPlan, AccessError> {
    if let Some(fault) = request_fault(request) {
        Err(fault)
    } else {
        match s.proxy(request.proxy_id) {
            None => Err(AccessError::ProxyNotRegistered),
            Some(proxy) => match proxy.group {
                None => Err(AccessError::GuildNotRegistered),
                Some(group) => match s.server(request.proxy_id, request.server_name) {
                    None => Err(AccessError::ServerNotRegistered),
                    Some(server) => match server.kind {
                        None => Err(AccessError::ServerTypeNotConfigured),
                        Some(kind) => match required_role(kind, server.role) {
                            Err(e) => Err(e),
                            Ok(role) => match s.player(request.player_name, request.player_ipv4) {
                                None => Ok(AccessPlan::Link),
                                Some(player) => match player.account {
                                    None => Ok(AccessPlan::Link),
                                    Some(account) => Ok(
                                        AccessPlan::Lookup(MembershipQuery { account, group, role }),
                                    ),
                                },
                            },
                        },
                    },
                },
            },
        }
    }
}

/// The answer that sends a player to link an account.
pub open spec fn signup_response(url: Seq<char>) -> ResponseView {
    ResponseView {
        status: AccessStatus::RequiresSignup,
        authentication_url: Some(url),
        expires_in: Some(LINK_VALIDITY_SECS),
    }
}

/// The answer that carries a decision and nothing else.
pub open spec fn verdict(status: AccessStatus) -> ResponseView {
    ResponseView { status, authentication_url: None, expires_in: None }
}

/// Whether what the platform said admits the account: it is a member, and
/// holds the role where one is asked for.
pub open spec fn admitted(role: Option<u64>, lookup: MemberLookup) -> bool {
    match lookup {
        MemberLookup::Member { roles } => match role {
            None => true,
            Some(r) => roles@.contains(r),
        },
        MemberLookup::Failed => false,
    }
}

/// The decision on a linked player.
pub open spec fn decision(role: Option<u64>, lookup: MemberLookup) -> AccessStatus {
    if admitted(role, lookup) {
        AccessStatus::Allowed
    } else {
        AccessStatus::Prohibited
    }
}

/// The store once a player without a linked account was offered to link
/// one: the player is stored if it was not, and the new linkage has taken
/// the place of the player's earlier one. Where the player is not stored and
/// cannot be, nothing changes.
pub open spec fn offered(
    s: StoreView,
    name: Seq<char>,
    address: Seq<char>,
    player_id: i64,
    linkage_id: i64,
    token: Seq<char>,
) -> StoreView {
    let stored = s.with_player(player_id, name, address);
    match stored.player(name, address) {
        Some(player) => stored.with_linkage(linkage_id, token, player.id),
        None => s,
    }
}

/// Whether the player is stored or can be stored under `player_id`.
pub open spec fn can_offer(s: StoreView, name: Seq<char>, address: Seq<char>, player_id: i64) -> bool {
    s.player(name, address) is Some || s.player_by_id(player_id) is None
}

fn verdict_response(status: AccessStatus) -> (response: PlayerAccessResponse)
    ensures
        response@ == verdict(status),
{
    PlayerAccessResponse { status, authentication_url: None, expires_in: None }
}

/// Whether `roles` holds `role`.
fn holds_role(roles: &Vec<u64>, role: u64) -> (held: bool)
    ensures
        held == roles@.contains(role),
{
    let mut i: usize = 0;
    while i < roles.len()
        invariant
            i <= roles.len(),
            forall|j: int| 0 <= j < i ==> roles@[j] != role,
        decreases roles.len() - i,
    {
        if roles[i] == role {
            return true;
        }
        i += 1;
    }
    false
}

/// The decision for a lobby: a member is allowed in, and without an answer
/// from the platform nobody is.
pub fn check_is_guild_member(lookup: &MemberLookup) -> (response: PlayerAccessResponse)
    ensures
        response@ == verdict(decision(None, *lookup)),
{
    match lookup {
        MemberLookup::Member { roles: _ } => verdict_response(AccessStatus::Allowed),
        MemberLookup::Failed => verdict_response(AccessStatus::Prohibited),
    }
}

/// The decision for a game server: a member that holds the role is allowed
/// in, and without an answer from the platform nobody is.
pub fn check_user_has_role(lookup: &MemberLookup, role: u64) -> (response: PlayerAccessResponse)
    ensures
        response@ == verdict(decision(Some(role), *lookup)),
{
    match lookup {
        MemberLookup::Member { roles } => {
            if holds_role(roles, role) {
                verdict_response(AccessStatus::Allowed)
            } else {
                verdict_response(AccessStatus::Prohibited)
            }
        },
        MemberLookup::Failed => verdict_response(AccessStatus::Prohibited),
    }
}

/// The decision on a linked player, from what the platform said in answer to
/// `query`.
pub fn decide(query: &MembershipQuery, lookup: &MemberLookup) -> (response: PlayerAccessResponse)
    ensures
        response@ == verdict(decision(query.role, *lookup)),
        response.status == AccessStatus::Allowed <==> admitted(query.role, *lookup),
{
    match query.role {
        None => check_is_guild_member(lookup),
        Some(role) => check_user_has_role(lookup, role),
    }
}

/// Checks a request: each entry is there and the address is one.
pub fn validate_request(request: &PlayerAccessRequest) -> (fault: Option<AccessError>)
    ensures
        fault == request_fault(request@),
{
    if request.player_name.as_str().is_empty() {
        return Some(AccessError::EmptyPlayerName);
    }
    if !is_valid_ipv4(request.player_ipv4.as_str()) {
        return Some(AccessError::InvalidAddress);
    }
    if request.proxy_id.as_str().is_empty() {
        return Some(AccessError::EmptyProxyId);
    }
    if request.server_name.as_str().is_empty() {
        return Some(AccessError::EmptyServerName);
    }
    None
}

/// Checks a request and resolves it against the store, up to the point where
/// the player is either offered to link an account or looked up on the
/// platform. Nothing is changed.
pub fn plan_access(store: &IdentityStore, request: &PlayerAccessRequest) -> (plan: Result<
    AccessPlan,
    AccessError,
>)
    ensures
        plan == access_plan(store@, request@),
{
    if let Some(fault) = validate_request(request) {
        return Err(fault);
    }
    let group = match store.proxy_group(request.proxy_id.as_str()) {
        None => {
            return Err(AccessError::ProxyNotRegistered);
        },
        Some(None) => {
            return Err(AccessError::GuildNotRegistered);
        },
        Some(Some(group)) => group,
    };
    let server = match store.find_server(request.proxy_id.as_str(), request.server_name.as_str()) {
        None => {
            return Err(AccessError::ServerNotRegistered);
        },
        Some(server) => server,
    };
    let kind = match server.kind {
        None => {
            return Err(AccessError::ServerTypeNotConfigured);
        },
        Some(kind) => kind,
    };
    let role = match kind {
        MinecraftServerType::Lobby => None,
        MinecraftServerType::Game => match server.role {
            None => {
                return Err(AccessError::ServerRoleNotConfigured);
            },
            Some(role) => Some(role),
        },
    };
    match store.find_player(request.player_name.as_str(), request.player_ipv4.as_str()) {
        None => Ok(AccessPlan::Link),
        Some(player) => match player.account {
            None => Ok(AccessPlan::Link),
            Some(account) => Ok(AccessPlan::Lookup(MembershipQuery { account, group, role })),
        },
    }
}

/// The address an offer with this token points to, where the service has a
/// configuration for the identity provider.
pub open spec fn offer_url(config: Option<&LinkingConfig>, token: Seq<char>) -> Option<Seq<char>> {
    match config {
        Some(c) => Some(c.authorization_url(token)),
        None => None,
    }
}

/// What an offer to link an account answers, given the address it points
/// to: without a configuration the service is at fault; a player that is not
/// stored and cannot be is the store's failure; and otherwise the player is
/// sent to sign up.
pub open spec fn offer_outcome(
    s: StoreView,
    name: Seq<char>,
    address: Seq<char>,
    player_id: i64,
    url: Option<Seq<char>>,
) -> Result<ResponseView, AccessError> {
    match url {
        None => Err(AccessError::NotConfigured),
        Some(u) => if can_offer(s, name, address, player_id) {
            Ok(signup_response(u))
        } else {
            Err(AccessError::Store)
        },
    }
}

/// The store once an offer was dealt with: changed only where the service
/// is configured.
pub open spec fn offer_store(
    s: StoreView,
    configured: bool,
    name: Seq<char>,
    address: Seq<char>,
    player_id: i64,
    linkage_id: i64,
    token: Seq<char>,
) -> StoreView {
    if configured {
        offered(s, name, address, player_id, linkage_id, token)
    } else {
        s
    }
}

/// The view of a response or of the failure to give one.
pub open spec fn response_view(result: Result<PlayerAccessResponse, AccessError>) -> Result<
    ResponseView,
    AccessError,
> {
    match result {
        Ok(response) => Ok(response@),
        Err(e) => Err(e),
    }
}

/// Offers a player to link an account, given the identifier for the player
/// should it not be stored yet, the identifier of the new linkage, and its
/// token, which is short enough to go into an address. The new linkage takes the place of an earlier one of the player.
/// Without a configuration nothing is offered and nothing changes. Where the
/// player is not stored and the identifier for it is in use, the store is
/// left as it was and the failure is the store's.
pub fn require_registration_with(
    store: &mut IdentityStore,
    config: Option<&LinkingConfig>,
    player_name: &str,
    player_ipv4: &str,
    player_id: i64,
    linkage_id: i64,
    state_token: &str,
) -> (result: Result<PlayerAccessResponse, AccessError>)
    requires
        old(store)@.wf(),
        config matches Some(c) ==> c.wf(),
        fits(state_token@),
    ensures
        response_view(result) == offer_outcome(
            old(store)@,
            player_name@,
            player_ipv4@,
            player_id,
            offer_url(config, state_token@),
        ),
        final(store)@ == offer_store(
            old(store)@,
            config is Some,
            player_name@,
            player_ipv4@,
            player_id,
            linkage_id,
            state_token@,
        ),
        final(store)@.wf(),
        result matches Ok(response) ==> response.authentication_url is Some
            && response.authentication_url.unwrap()@.len() > 0,
{
    let config = match config {
        None => {
            return Err(AccessError::NotConfigured);
        },
        Some(config) => config,
    };
    proof {
        lemma_offer(old(store)@, player_name@, player_ipv4@, player_id);
    }
    store.add_player(player_id, player_name, player_ipv4);
    let player = match store.find_player(player_name, player_ipv4) {
        None => {
            return Err(AccessError::Store);
        },
        Some(player) => player,
    };
    store.put_linkage(linkage_id, state_token, player.id);
    let url = config.authentication_url(state_token);
    Ok(
        PlayerAccessResponse {
            status: AccessStatus::RequiresSignup,
            authentication_url: Some(url),
            expires_in: Some(LINK_VALIDITY_SECS),
        },
    )
}

/// A player can be found after the attempt to store it exactly where it was
/// stored before or its identifier was free.
pub proof fn lemma_offer(s: StoreView, name: Seq<char>, address: Seq<char>, player_id: i64)
    ensures
        s.with_player(player_id, name, address).player(name, address) is Some <==> can_offer(
            s,
            name,
            address,
            player_id,
        ),
        s.player(name, address) is Some ==> s.with_player(player_id, name, address) == s,
        !can_offer(s, name, address, player_id) ==> s.with_player(player_id, name, address) == s,
{
    if s.admits_player(player_id, name, address) {
        lemma_find_push(
            s.players,
            PlayerView { id: player_id, name, address, account: None },
            player_is(name, address),
        );
    }
}

pub enum StepView {
    Respond(ResponseView),
    Lookup(MembershipQuery),
}

impl View for AccessStep {
    type V = StepView;

    open spec fn view(&self) -> StepView {
        match *self {
            AccessStep::Respond(response) => StepView::Respond(response@),
            AccessStep::Lookup(query) => StepView::Lookup(query),
        }
    }
}

/// The view of a step or of the failure to reach one.
pub open spec fn step_view(result: Result<AccessStep, AccessError>) -> Result<StepView, AccessError> {
    match result {
        Ok(step) => Ok(step@),
        Err(e) => Err(e),
    }
}

/// Where a request stands once the store has been consulted, given the
/// identifier to use should the player be offered to link an account, and
/// the address that offer points to, if the service is configured.
pub open spec fn access_step(
    s: StoreView,
    request: RequestView,
    player_id: i64,
    url: Option<Seq<char>>,
) -> Result<StepView, AccessError> {
    match access_plan(s, request) {
        Err(e) => Err(e),
        Ok(AccessPlan::Lookup(query)) => Ok(StepView::Lookup(query)),
        Ok(AccessPlan::Link) => match offer_outcome(
            s,
            request.player_name,
            request.player_ipv4,
            player_id,
            url,
        ) {
            Ok(response) => Ok(StepView::Respond(response)),
            Err(e) => Err(e),
        },
    }
}

/// The store once a request was dealt with: changed only by an offer to link
/// an account.
pub open spec fn access_store(
    s: StoreView,
    request: RequestView,
    configured: bool,
    player_id: i64,
    linkage_id: i64,
    token: Seq<char>,
) -> StoreView {
    match access_plan(s, request) {
        Ok(AccessPlan::Link) => offer_store(
            s,
            configured,
            request.player_name,
            request.player_ipv4,
            player_id,
            linkage_id,
            token,
        ),
        _ => s,
    }
}

/// `uuid::Uuid::new_v4` and its `to_string`: a random token in the hyphenated
/// form, which is 36 characters long. Nothing else is claimed of it.
#[verifier::external_body]
fn fresh_state_token() -> (token: String)
    ensures
        token@.len() == 36,
{
    uuid::Uuid::new_v4().to_string()
}

/// Checks a request, resolves it against the store and, for a player without
/// a linked account, offers to link one with the given identifiers and
/// token. For a linked player the answer names what to ask the platform.
pub fn check_player_access_with(
    store: &mut IdentityStore,
    config: Option<&LinkingConfig>,
    request: &PlayerAccessRequest,
    player_id: i64,
    linkage_id: i64,
    state_token: &str,
) -> (result: Result<AccessStep, AccessError>)
    requires
        old(store)@.wf(),
        config matches Some(c) ==> c.wf(),
        fits(state_token@),
    ensures
        step_view(result) == access_step(
            old(store)@,
            request@,
            player_id,
            offer_url(config, state_token@),
        ),
        final(store)@ == access_store(
            old(store)@,
            request@,
            config is Some,
            player_id,
            linkage_id,
            state_token@,
        ),
        final(store)@.wf(),
        result matches Ok(AccessStep::Respond(response)) ==> response.authentication_url is Some
            && response.authentication_url.unwrap()@.len() > 0,
{
    match plan_access(store, request) {
        Err(e) => Err(e),
        Ok(AccessPlan::Lookup(query)) => Ok(AccessStep::Lookup(query)),
        Ok(AccessPlan::Link) => {
            match require_registration_with(
                store,
                config,
                request.player_name.as_str(),
                request.player_ipv4.as_str(),
                player_id,
                linkage_id,
                state_token,
            ) {
                Ok(response) => Ok(AccessStep::Respond(response)),
                Err(e) => Err(e),
            }
        },
    }
}

/// What is drawn for an offer by a generator whose largest identifier was
/// `before` and is `after`: a token of 36 characters, an identifier for the
/// player above every identifier given before, and above it the identifier
/// of the linkage, the largest given.
pub open spec fn drawn(
    before: int,
    after: int,
    player_id: i64,
    linkage_id: i64,
    token: Seq<char>,
) -> bool {
    token.len() == 36 && before < player_id < linkage_id && linkage_id == after
}

/// An offer under identifiers that lie at or below a bound keeps the
/// identifiers of the store at or below it.
pub proof fn lemma_offered_ids(
    s: StoreView,
    name: Seq<char>,
    address: Seq<char>,
    player_id: i64,
    linkage_id: i64,
    token: Seq<char>,
    bound: int,
)
    requires
        s.ids_at_most(bound),
        player_id <= bound,
        linkage_id <= bound,
    ensures
        offered(s, name, address, player_id, linkage_id, token).ids_at_most(bound),
{
    let stored = s.with_player(player_id, name, address);
    assert(stored.ids_at_most(bound));
    if let Some(player) = stored.player(name, address) {
        let after = stored.with_linkage(linkage_id, token, player.id);
        let keep = not_superseded(token, player.id);
        assert forall|i: int| 0 <= i < after.linkages.len() implies (
        #[trigger] after.linkages[i]).id <= bound by {
            if stored.player_by_id(player.id) is Some && i < stored.linkages.filter(keep).len() {
                let row = stored.linkages.filter(keep)[i];
                assert(stored.linkages.filter(keep).contains(row));
                stored.linkages.lemma_filter_contains_rev(keep, row);
                let j = choose|j: int| 0 <= j < stored.linkages.len() && stored.linkages[j] == row;
                assert(stored.linkages[j].id <= bound);
            }
        }
    }
}

/// Offers a player to link an account, under fresh identifiers and a fresh
/// token. Without a configuration nothing is drawn and nothing changes, and
/// where the generator runs out of identifiers the store is left as it was.
pub fn require_registration(
    store: &mut IdentityStore,
    config: Option<&LinkingConfig>,
    generator: &mut IdGenerator,
    player_name: &str,
    player_ipv4: &str,
) -> (result: Result<PlayerAccessResponse, AccessError>)
    requires
        old(store)@.wf(),
        config matches Some(c) ==> c.wf(),
    ensures
        final(store)@.wf(),
        final(generator)@.floor() >= old(generator)@.floor(),
        config is None ==> result == Err::<PlayerAccessResponse, AccessError>(
            AccessError::NotConfigured,
        ) && final(store)@ == old(store)@ && final(generator)@ == old(generator)@,
        config is Some && old(generator)@.spent() ==> result == Err::<
            PlayerAccessResponse,
            AccessError,
        >(AccessError::IdentifiersSpent),
        result == Err::<PlayerAccessResponse, AccessError>(AccessError::IdentifiersSpent)
            ==> config is Some && final(store)@ == old(store)@ && final(generator)@.spent(),
        result == Err::<PlayerAccessResponse, AccessError>(AccessError::IdentifiersSpent)
            || exists|player_id: i64, linkage_id: i64, token: Seq<char>|
            {
                &&& response_view(result) == offer_outcome(
                    old(store)@,
                    player_name@,
                    player_ipv4@,
                    player_id,
                    offer_url(config, token),
                )
                &&& final(store)@ == #[trigger] offer_store(
                    old(store)@,
                    config is Some,
                    player_name@,
                    player_ipv4@,
                    player_id,
                    linkage_id,
                    token,
                )
                &&& config is Some ==> drawn(
                    old(generator)@.floor(),
                    final(generator)@.floor(),
                    player_id,
                    linkage_id,
                    token,
                )
            },
        result matches Ok(response) ==> response.status == AccessStatus::RequiresSignup
            && response.expires_in == Some(LINK_VALIDITY_SECS)
            && response.authentication_url is Some
            && response.authentication_url.unwrap()@.len() > 0,
        old(store)@.ids_at_most(old(generator)@.floor()) ==> final(store)@.ids_at_most(
            final(generator)@.floor(),
        ),
{
    if config.is_none() {
        assert(store@ == offer_store(
            old(store)@,
            false,
            player_name@,
            player_ipv4@,
            0,
            0,
            Seq::empty(),
        ));
        return Err(AccessError::NotConfigured);
    }
    let player_id = match generate_id(generator) {
        None => {
            return Err(AccessError::IdentifiersSpent);
        },
        Some(id) => id,
    };
    let linkage_id = match generate_id(generator) {
        None => {
            return Err(AccessError::IdentifiersSpent);
        },
        Some(id) => id,
    };
    let state_token = fresh_state_token();
    proof {
        if old(store)@.ids_at_most(old(generator)@.floor()) {
            lemma_offered_ids(
                old(store)@,
                player_name@,
                player_ipv4@,
                player_id,
                linkage_id,
                state_token@,
                generator@.floor(),
            );
        }
    }
    let result = require_registration_with(
        store,
        config,
        player_name,
        player_ipv4,
        player_id,
        linkage_id,
        state_token.as_str(),
    );
    assert(store@ == offer_store(
        old(store)@,
        true,
        player_name@,
        player_ipv4@,
        player_id,
        linkage_id,
        state_token@,
    ));
    result
}

/// Checks a request, resolves it against the store and, for a player without
/// a linked account, offers to link one under fresh identifiers and a fresh
/// token. For a linked player the answer names what to ask the platform.
/// Identifiers are drawn for an offer only.
pub fn check_player_access(
    store: &mut IdentityStore,
    config: Option<&LinkingConfig>,
    generator: &mut IdGenerator,
    request: &PlayerAccessRequest,
) -> (result: Result<AccessStep, AccessError>)
    requires
        old(store)@.wf(),
        config matches Some(c) ==> c.wf(),
    ensures
        final(store)@.wf(),
        final(generator)@.floor() >= old(generator)@.floor(),
        access_plan(old(store)@, request@) matches Err(e) ==> result == Err::<
            AccessStep,
            AccessError,
        >(e),
        access_plan(old(store)@, request@) matches Ok(AccessPlan::Lookup(query)) ==> result matches Ok(
            AccessStep::Lookup(q),
        ) && q == query,
        access_plan(old(store)@, request@) != Ok::<AccessPlan, AccessError>(AccessPlan::Link)
            || config is None ==> final(generator)@ == old(generator)@,
        access_plan(old(store)@, request@) == Ok::<AccessPlan, AccessError>(AccessPlan::Link)
            && config is None ==> result == Err::<AccessStep, AccessError>(
            AccessError::NotConfigured,
        ),
        access_plan(old(store)@, request@) == Ok::<AccessPlan, AccessError>(AccessPlan::Link)
            && config is Some && old(generator)@.spent() ==> result == Err::<
            AccessStep,
            AccessError,
        >(AccessError::IdentifiersSpent),
        result == Err::<AccessStep, AccessError>(AccessError::IdentifiersSpent) ==> access_plan(
            old(store)@,
            request@,
        ) == Ok::<AccessPlan, AccessError>(AccessPlan::Link) && config is Some && final(store)@
            == old(store)@ && final(generator)@.spent(),
        result == Err::<AccessStep, AccessError>(AccessError::IdentifiersSpent) || exists|
            player_id: i64,
            linkage_id: i64,
            token: Seq<char>,
        |
            {
                &&& step_view(result) == access_step(
                    old(store)@,
                    request@,
                    player_id,
                    offer_url(config, token),
                )
                &&& final(store)@ == #[trigger] access_store(
                    old(store)@,
                    request@,
                    config is Some,
                    player_id,
                    linkage_id,
                    token,
                )
                &&& access_plan(old(store)@, request@) == Ok::<AccessPlan, AccessError>(
                    AccessPlan::Link,
                ) && config is Some ==> drawn(
                    old(generator)@.floor(),
                    final(generator)@.floor(),
                    player_id,
                    linkage_id,
                    token,
                )
            },
        result matches Ok(AccessStep::Respond(response)) ==> response.status
            == AccessStatus::RequiresSignup && response.expires_in == Some(LINK_VALIDITY_SECS)
            && response.authentication_url is Some
            && response.authentication_url.unwrap()@.len() > 0,
        old(store)@.ids_at_most(old(generator)@.floor()) ==> final(store)@.ids_at_most(
            final(generator)@.floor(),
        ),
{
    match plan_access(store, request) {
        Err(e) => {
            assert(store@ == access_store(
                old(store)@,
                request@,
                config is Some,
                0,
                0,
                Seq::empty(),
            ));
            Err(e)
        },
        Ok(AccessPlan::Lookup(query)) => {
            assert(store@ == access_store(
                old(store)@,
                request@,
                config is Some,
                0,
                0,
                Seq::empty(),
            ));
            Ok(AccessStep::Lookup(query))
        },
        Ok(AccessPlan::Link) => {
            let offer = require_registration(
                store,
                config,
                generator,
                request.player_name.as_str(),
                request.player_ipv4.as_str(),
            );
            let ghost given = offer;
            let result = match offer {
                Ok(response) => Ok(AccessStep::Respond(response)),
                Err(e) => Err(e),
            };
            proof {
                if given != Err::<PlayerAccessResponse, AccessError>(
                    AccessError::IdentifiersSpent,
                ) {
                    let (player_id, linkage_id, token) = choose|
                        player_id: i64,
                        linkage_id: i64,
                        token: Seq<char>,
                    |
                        {
                            &&& response_view(given) == offer_outcome(
                                old(store)@,
                                request.player_name@,
                                request.player_ipv4@,
                                player_id,
                                offer_url(config, token),
                            )
                            &&& store@ == #[trigger] offer_store(
                                old(store)@,
                                config is Some,
                                request.player_name@,
                                request.player_ipv4@,
                                player_id,
                                linkage_id,
                                token,
                            )
                            &&& config is Some ==> drawn(
                                old(generator)@.floor(),
                                generator@.floor(),
                                player_id,
                                linkage_id,
                                token,
                            )
                        };
                    assert(step_view(result) == access_step(
                        old(store)@,
                        request@,
                        player_id,
                        offer_url(config, token),
                    ));
                    assert(store@ == access_store(
                        old(store)@,
                        request@,
                        config is Some,
                        player_id,
                        linkage_id,
                        token,
                    ));
                }
            }
            result
        },
    }
}

/// A request that passes the checks for a player who is not stored, or is
/// stored without a linked account, is answered with the offer to link one,
/// whatever the kind of the server, wherever the service is configured and
/// the player is stored or the identifier at hand for it is free. The offer
/// stands for 300 seconds.
pub proof fn lemma_unlinked_player_is_offered(
    s: StoreView,
    request: RequestView,
    player_id: i64,
    url: Seq<char>,
)
    requires
        access_plan(s, request) is Ok,
        s.player(request.player_name, request.player_ipv4) matches Some(player)
            ==> player.account is None,
        can_offer(s, request.player_name, request.player_ipv4, player_id),
    ensures
        access_step(s, request, player_id, Some(url)) == Ok::<StepView, AccessError>(
            StepView::Respond(
                ResponseView {
                    status: AccessStatus::RequiresSignup,
                    authentication_url: Some(url),
                    expires_in: Some(300),
                },
            ),
        ),
{
}

/// For a player with a linked account, on a server that is configured behind
/// a proxy with a group, the platform is asked about that account in that
/// group, and its answer decides: on a lobby the player is allowed in exactly
/// where the account is a member of the group, on a game server exactly
/// where it is a member and holds the server's role.
pub proof fn lemma_linked_player_decision(
    s: StoreView,
    request: RequestView,
    player_id: i64,
    url: Option<Seq<char>>,
    lookup: MemberLookup,
)
    requires
        access_plan(s, request) is Ok,
        s.player(request.player_name, request.player_ipv4) matches Some(player)
            && player.account is Some,
    ensures
        ({
            let server = s.server(request.proxy_id, request.server_name).unwrap();
            let account = s.player(request.player_name, request.player_ipv4).unwrap().account.unwrap();
            let group = s.proxy(request.proxy_id).unwrap().group.unwrap();
            let role = if server.kind == Some(MinecraftServerType::Lobby) {
                None
            } else {
                server.role
            };
            &&& access_step(s, request, player_id, url) == Ok::<StepView, AccessError>(
                StepView::Lookup(MembershipQuery { account, group, role }),
            )
            &&& server.kind == Some(MinecraftServerType::Lobby) ==> (decision(role, lookup)
                == AccessStatus::Allowed <==> lookup is Member)
            &&& server.kind == Some(MinecraftServerType::Game) ==> server.role is Some && (
            decision(role, lookup) == AccessStatus::Allowed <==> lookup is Member
                && lookup->roles@.contains(server.role.unwrap()))
            &&& decision(role, lookup) != AccessStatus::Allowed ==> decision(role, lookup)
                == AccessStatus::Prohibited
        }),
{
}

} // verus!
