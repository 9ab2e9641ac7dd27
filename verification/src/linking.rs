//! The linking flow: redeeming the token that a player was sent off with.
//!
//! A token can be redeemed once, within five minutes of the moment its
//! linkage was made, and only for an account that no other player holds. The
//! exchange of the authorization code for an account is the identity
//! provider's business: its outcome is handed in.

use crate::bus::{broadcast_event, EventBus};
use crate::events::{player_update, player_update_view, ServerEvent, ServerEventView};
use crate::access::{can_offer, lemma_offer, offered};
use crate::model::{
    linkage_has_token, other_holder, player_has_id, player_is, LinkageView, PendingLinkage,
    PlayerIdentity, PlayerView,
};
use crate::oauth::LinkingConfig;
use crate::snowflake::{is_snowflake_recent_at, recent_at, unix_time_ms};
use crate::store::{
    lemma_player_found_by_id, lemma_with_account_ids, lemma_with_player_wf, not_superseded,
    IdentityStore, StoreView,
};
use crate::table::{
    any, lemma_find_all_dropped, lemma_find_push, lemma_find_update, lemma_position, position,
};
use vstd::prelude::*;

verus! {

/// For how many milliseconds a linkage can be redeemed.
pub const FIVE_MINUTES_MS: u64 = 300000;

/// What the identity provider's redirect carries.
#[derive(Debug)]
pub struct OAuthParams {
    pub code: Option<String>,
    pub state: Option<String>,
}

/// Why a token was not redeemed.
#[derive(Clone, Copy, Debug, PartialEq, Eq, Structural)]
pub enum LinkError {
    /// The redirect carries no authorization code.
    NoCode,
    /// The redirect carries no token.
    NoState,
    /// No linkage has this token, or its player is linked already.
    InvalidToken,
    /// The linkage is more than five minutes old.
    Expired,
    /// The service has not been told how to reach the identity provider.
    NotConfigured,
    /// The identity provider did not name an account for the code.
    Upstream(UpstreamFault),
    /// Another player holds the account.
    AlreadyLinked,
}

/// Where the exchange with the identity provider broke down.
#[derive(Clone, Copy, Debug, PartialEq, Eq, Structural)]
pub enum UpstreamFault {
    /// The provider could not be reached with the code.
    Contact,
    /// The provider's answer to the code is no token.
    TokenResponse,
    /// The provider could not be asked about the account.
    FetchUser,
    /// The provider's answer about the account names none.
    UserResponse,
}

/// What came of exchanging the authorization code.
#[derive(Clone, Copy, Debug, PartialEq, Eq, Structural)]
pub enum Exchange {
    /// The provider named this account.
    Account(u64),
    /// The exchange broke down.
    Failed(UpstreamFault),
}

/// What to hand to the identity provider in exchange for an account.
#[derive(Debug)]
pub struct ExchangeRequest {
    pub code: String,
    pub client_id: String,
    pub redirect_uri: String,
}

impl LinkError {
    /// The HTTP status the failure is reported with.
    pub open spec fn http_status_of(self) -> u16 {
        match self {
            LinkError::NotConfigured => 500,
            LinkError::Upstream(_) => 502,
            _ => 400,
        }
    }

    /// The HTTP status the failure is reported with.
    pub fn http_status(&self) -> (status: u16)
        ensures
            status == self.http_status_of(),
    {
        match self {
            LinkError::NotConfigured => 500,
            LinkError::Upstream(_) => 502,
            _ => 400,
        }
    }

    /// The text sent back with the failure.
    pub fn message(&self) -> (text: String)
        ensures
            text@ == match *self {
                LinkError::NoCode => "No code provided"@,
                LinkError::NoState => "No state provided"@,
                LinkError::InvalidToken => "Invalid state token"@,
                LinkError::Expired => "Registration token expired"@,
                LinkError::NotConfigured => "Discord OAuth is not configured"@,
                LinkError::Upstream(UpstreamFault::Contact) => "Failed to contact Discord"@,
                LinkError::Upstream(
                    UpstreamFault::TokenResponse,
                ) => "Failed to parse Discord token response"@,
                LinkError::Upstream(UpstreamFault::FetchUser) => "Failed to fetch Discord user"@,
                LinkError::Upstream(
                    UpstreamFault::UserResponse,
                ) => "Failed to parse Discord user response"@,
                LinkError::AlreadyLinked => "Este usuário do Discord já está vinculado a outra conta Minecraft."@,
            },
    {
        match self {
            LinkError::NoCode => "No code provided".to_owned(),
            LinkError::NoState => "No state provided".to_owned(),
            LinkError::InvalidToken => "Invalid state token".to_owned(),
            LinkError::Expired => "Registration token expired".to_owned(),
            LinkError::NotConfigured => "Discord OAuth is not configured".to_owned(),
            LinkError::Upstream(UpstreamFault::Contact) => "Failed to contact Discord".to_owned(),
            LinkError::Upstream(
                UpstreamFault::TokenResponse,
            ) => "Failed to parse Discord token response".to_owned(),
            LinkError::Upstream(
                UpstreamFault::FetchUser,
            ) => "Failed to fetch Discord user".to_owned(),
            LinkError::Upstream(
                UpstreamFault::UserResponse,
            ) => "Failed to parse Discord user response".to_owned(),
            LinkError::AlreadyLinked => "Este usuário do Discord já está vinculado a outra conta Minecraft.".to_owned(),
        }
    }
}

/// The linkage a token stands for and the player it can be redeemed for,
/// whatever the time: the token belongs to a linkage, and the linkage's
/// player is stored and not linked.
pub open spec fn claimable(s: StoreView, token: Seq<char>) -> Result<
    (LinkageView, PlayerView),
    LinkError,
> {
    match s.linkage(token) {
        None => Err(LinkError::InvalidToken),
        Some(linkage) => match s.player_by_id(linkage.player_id) {
            None => Err(LinkError::InvalidToken),
            Some(player) => if player.account is Some {
                Err(LinkError::InvalidToken)
            } else {
                Ok((linkage, player))
            },
        },
    }
}

/// The player a token can be redeemed for at `now_ms`: the token can be
/// claimed, and its linkage is at most five minutes old.
pub open spec fn redeemable(s: StoreView, token: Seq<char>, now_ms: u64) -> Result<
    PlayerView,
    LinkError,
> {
    match claimable(s, token) {
        Err(e) => Err(e),
        Ok((linkage, player)) => if !recent_at(linkage.id, FIVE_MINUTES_MS, now_ms) {
            Err(LinkError::Expired)
        } else {
            Ok(player)
        },
    }
}

/// What is wrong with a redirect before the clock is asked: an entry is
/// missing, the code first, or the token cannot be claimed.
pub open spec fn redirect_fault(s: StoreView, params: OAuthParams) -> Option<LinkError> {
    if entry(params.code) is None {
        Some(LinkError::NoCode)
    } else if entry(params.state) is None {
        Some(LinkError::NoState)
    } else {
        match claimable(s, entry(params.state).unwrap()) {
            Err(e) => Some(e),
            Ok(_) => None,
        }
    }
}

/// What the exchange makes of a redeemable token: the account to link the
/// player to, unless the exchange failed or another player holds the account.
pub open spec fn linkable(s: StoreView, player: PlayerView, exchange: Exchange) -> Result<
    u64,
    LinkError,
> {
    match exchange {
        Exchange::Failed(fault) => Err(LinkError::Upstream(fault)),
        Exchange::Account(account) => if any(s.players, other_holder(account, player.id)) {
            Err(LinkError::AlreadyLinked)
        } else {
            Ok(account)
        },
    }
}

/// What redeeming a token at `now_ms` answers: the event to publish about the
/// player, or the reason the token was not redeemed.
pub open spec fn redemption(s: StoreView, token: Seq<char>, exchange: Exchange, now_ms: u64) -> Result<
    ServerEventView,
    LinkError,
> {
    match redeemable(s, token, now_ms) {
        Err(e) => Err(e),
        Ok(player) => match linkable(s, player, exchange) {
            Err(e) => Err(e),
            Ok(_) => Ok(player_update_view(player.name, player.address, now_ms)),
        },
    }
}

/// The store after a token was redeemed: the player is linked to the account
/// where the redemption succeeds, and nothing has changed where it fails.
pub open spec fn redeemed(s: StoreView, token: Seq<char>, exchange: Exchange, now_ms: u64) -> StoreView {
    match redeemable(s, token, now_ms) {
        Err(_) => s,
        Ok(player) => match linkable(s, player, exchange) {
            Err(_) => s,
            Ok(account) => s.with_account(player.id, account),
        },
    }
}

/// The text of an entry of the redirect that is there and not empty.
pub open spec fn entry(value: Option<String>) -> Option<Seq<char>> {
    match value {
        Some(text) => if text@.len() > 0 {
            Some(text@)
        } else {
            None
        },
        None => None,
    }
}

/// What the provider is handed for a redirect that can be redeemed, or the
/// reason it cannot: an entry is missing, the token is not redeemable, or the
/// service is not configured for the provider.
pub open spec fn callback_check(
    s: StoreView,
    configured: bool,
    params: OAuthParams,
    now_ms: u64,
) -> Result<PlayerView, LinkError> {
    if entry(params.code) is None {
        Err(LinkError::NoCode)
    } else if entry(params.state) is None {
        Err(LinkError::NoState)
    } else {
        match redeemable(s, entry(params.state).unwrap(), now_ms) {
            Err(e) => Err(e),
            Ok(player) => if configured {
                Ok(player)
            } else {
                Err(LinkError::NotConfigured)
            },
        }
    }
}

/// What the callback answers for a redirect, given the outcome of the
/// exchange.
pub open spec fn callback_outcome(
    s: StoreView,
    configured: bool,
    params: OAuthParams,
    exchange: Exchange,
    now_ms: u64,
) -> Result<ServerEventView, LinkError> {
    match callback_check(s, configured, params, now_ms) {
        Err(e) => Err(e),
        Ok(_) => redemption(s, entry(params.state).unwrap(), exchange, now_ms),
    }
}

/// The store after the callback.
pub open spec fn callback_store(
    s: StoreView,
    configured: bool,
    params: OAuthParams,
    exchange: Exchange,
    now_ms: u64,
) -> StoreView {
    match callback_check(s, configured, params, now_ms) {
        Err(_) => s,
        Ok(_) => redeemed(s, entry(params.state).unwrap(), exchange, now_ms),
    }
}

/// The view of an event or of the failure to make one.
pub open spec fn event_view(result: Result<ServerEvent, LinkError>) -> Result<
    ServerEventView,
    LinkError,
> {
    match result {
        Ok(event) => Ok(event@),
        Err(e) => Err(e),
    }
}

/// The view of a player or of the failure to find one.
pub open spec fn player_view(result: Result<PlayerIdentity, LinkError>) -> Result<
    PlayerView,
    LinkError,
> {
    match result {
        Ok(player) => Ok(player@),
        Err(e) => Err(e),
    }
}

/// Whether something came of it, and if not, why not.
pub open spec fn settled<T>(result: Result<T, LinkError>) -> Result<(), LinkError> {
    match result {
        Ok(_) => Ok(()),
        Err(e) => Err(e),
    }
}

/// The view of a linkage and its player or of the failure to find them.
pub open spec fn claim_view(result: Result<(PendingLinkage, PlayerIdentity), LinkError>) -> Result<
    (LinkageView, PlayerView),
    LinkError,
> {
    match result {
        Ok((linkage, player)) => Ok((linkage@, player@)),
        Err(e) => Err(e),
    }
}

/// Whether a token can be claimed, whatever the time: the linkage it stands
/// for and the player it can be redeemed for.
pub fn check_token(store: &IdentityStore, state_token: &str) -> (result: Result<
    (PendingLinkage, PlayerIdentity),
    LinkError,
>)
    ensures
        claim_view(result) == claimable(store@, state_token@),
{
    let linkage = match store.find_linkage(state_token) {
        None => {
            return Err(LinkError::InvalidToken);
        },
        Some(linkage) => linkage,
    };
    let player = match store.player_by_id(linkage.player_id) {
        None => {
            return Err(LinkError::InvalidToken);
        },
        Some(player) => player,
    };
    if player.account.is_some() {
        return Err(LinkError::InvalidToken);
    }
    Ok((linkage, player))
}

/// Whether a token can be redeemed at `now_ms`, and for which player.
pub fn check_redemption(store: &IdentityStore, state_token: &str, now_ms: u64) -> (result: Result<
    PlayerIdentity,
    LinkError,
>)
    ensures
        player_view(result) == redeemable(store@, state_token@, now_ms),
{
    let (linkage, player) = match check_token(store, state_token) {
        Err(e) => {
            return Err(e);
        },
        Ok(claim) => claim,
    };
    if !is_snowflake_recent_at(linkage.id, FIVE_MINUTES_MS, now_ms) {
        return Err(LinkError::Expired);
    }
    Ok(player)
}

/// What is wrong with a redirect before the clock is asked, if anything: an
/// entry is missing, the code first, or the token cannot be claimed.
pub fn check_redirect(store: &IdentityStore, params: &OAuthParams) -> (fault: Option<LinkError>)
    ensures
        fault == redirect_fault(store@, *params),
{
    if present(&params.code).is_none() {
        return Some(LinkError::NoCode);
    }
    let state = match present(&params.state) {
        None => {
            return Some(LinkError::NoState);
        },
        Some(state) => state,
    };
    match check_token(store, state) {
        Err(e) => Some(e),
        Ok(_) => None,
    }
}

/// Redeems a token at `now_ms` with the outcome of the exchange. On success
/// the player is linked to the account and the answer is the event to
/// publish; on failure nothing is changed.
pub fn redeem_at(store: &mut IdentityStore, state_token: &str, exchange: Exchange, now_ms: u64) -> (result:
    Result<ServerEvent, LinkError>)
    requires
        old(store)@.wf(),
    ensures
        event_view(result) == redemption(old(store)@, state_token@, exchange, now_ms),
        final(store)@ == redeemed(old(store)@, state_token@, exchange, now_ms),
        final(store)@.wf(),
{
    let player = match check_redemption(store, state_token, now_ms) {
        Err(e) => {
            return Err(e);
        },
        Ok(player) => player,
    };
    let account = match exchange {
        Exchange::Failed(fault) => {
            return Err(LinkError::Upstream(fault));
        },
        Exchange::Account(account) => account,
    };
    if store.has_other_holder(account, player.id) {
        return Err(LinkError::AlreadyLinked);
    }
    store.link_account(player.id, account);
    Ok(player_update(player.name, player.address, now_ms))
}

/// Redeems a token now and publishes the event about the player. Whether
/// the event reached a subscriber does not matter to the answer. A token
/// that cannot be claimed is turned down before the clock is asked; with a
/// clock that reads a time before the epoch every other token counts as
/// expired.
pub fn redeem(store: &mut IdentityStore, bus: &EventBus, state_token: &str, exchange: Exchange) -> (result:
    Result<(), LinkError>)
    requires
        old(store)@.wf(),
    ensures
        final(store)@.wf(),
        result is Err ==> final(store)@ == old(store)@,
        claimable(old(store)@, state_token@) matches Err(e) ==> result == Err::<(), LinkError>(e),
        claimable(old(store)@, state_token@) is Ok ==> result == Err::<(), LinkError>(
            LinkError::Expired,
        ) || exists|now_ms: u64|
            result == settled(redemption(old(store)@, state_token@, exchange, now_ms))
                && final(store)@ == #[trigger] redeemed(
                old(store)@,
                state_token@,
                exchange,
                now_ms,
            ),
{
    if let Err(e) = check_token(store, state_token) {
        return Err(e);
    }
    let now_ms = match unix_time_ms() {
        None => {
            return Err(LinkError::Expired);
        },
        Some(now_ms) => now_ms,
    };
    match redeem_at(store, state_token, exchange, now_ms) {
        Err(e) => {
            assert(store@ == redeemed(old(store)@, state_token@, exchange, now_ms));
            Err(e)
        },
        Ok(event) => {
            assert(store@ == redeemed(old(store)@, state_token@, exchange, now_ms));
            let _ = broadcast_event(bus, event);
            Ok(())
        },
    }
}

fn present(value: &Option<String>) -> (text: Option<&str>)
    ensures
        match text {
            Some(t) => entry(*value) == Some(t@),
            None => entry(*value) is None,
        },
{
    match value {
        Some(text) => if text.as_str().is_empty() {
            None
        } else {
            Some(text.as_str())
        },
        None => None,
    }
}

/// The first half of the callback: checks the redirect and the token, and
/// names what to hand to the provider in exchange for an account. Nothing is
/// changed.
pub fn oauth_callback_begin(
    store: &IdentityStore,
    config: Option<&LinkingConfig>,
    params: &OAuthParams,
    now_ms: u64,
) -> (result: Result<ExchangeRequest, LinkError>)
    ensures
        match result {
            Ok(request) => callback_check(store@, config is Some, *params, now_ms) is Ok
                && Some(request.code@) == entry(params.code) && request.client_id@
                == config.unwrap().client_id() && request.redirect_uri@
                == config.unwrap().redirect_uri(),
            Err(e) => callback_check(store@, config is Some, *params, now_ms) == Err::<
                PlayerView,
                LinkError,
            >(e),
        },
{
    let code = match present(&params.code) {
        None => {
            return Err(LinkError::NoCode);
        },
        Some(code) => code,
    };
    let state = match present(&params.state) {
        None => {
            return Err(LinkError::NoState);
        },
        Some(state) => state,
    };
    match check_redemption(store, state, now_ms) {
        Err(e) => Err(e),
        Ok(_) => match config {
            None => Err(LinkError::NotConfigured),
            Some(config) => Ok(
                ExchangeRequest {
                    code: code.to_owned(),
                    client_id: config.client_id_text(),
                    redirect_uri: config.callback_url(),
                },
            ),
        },
    }
}

/// The callback at `now_ms`, with the outcome of the exchange: checks the
/// redirect, redeems the token, and answers with the event to publish.
pub fn oauth_callback_at(
    store: &mut IdentityStore,
    configured: bool,
    params: &OAuthParams,
    exchange: Exchange,
    now_ms: u64,
) -> (result: Result<ServerEvent, LinkError>)
    requires
        old(store)@.wf(),
    ensures
        event_view(result) == callback_outcome(
            old(store)@,
            configured,
            *params,
            exchange,
            now_ms,
        ),
        final(store)@ == callback_store(old(store)@, configured, *params, exchange, now_ms),
        final(store)@.wf(),
{
    if present(&params.code).is_none() {
        return Err(LinkError::NoCode);
    }
    let state = match present(&params.state) {
        None => {
            return Err(LinkError::NoState);
        },
        Some(state) => state,
    };
    if let Err(e) = check_redemption(store, state, now_ms) {
        return Err(e);
    }
    if !configured {
        return Err(LinkError::NotConfigured);
    }
    redeem_at(store, state, exchange, now_ms)
}

/// The callback that the identity provider sends a player back to, with the
/// outcome of the exchange: redeems the token now, publishes the event about
/// the player, and answers with the text for the player. A redirect that
/// lacks an entry, or whose token cannot be claimed, is turned down before
/// the clock is asked; with a clock that reads a time before the epoch every
/// other token counts as expired.
pub fn oauth_callback(
    store: &mut IdentityStore,
    bus: &EventBus,
    configured: bool,
    params: &OAuthParams,
    exchange: Exchange,
) -> (result: Result<String, LinkError>)
    requires
        old(store)@.wf(),
    ensures
        final(store)@.wf(),
        result is Err ==> final(store)@ == old(store)@,
        result matches Ok(text) ==> text@ == "Sucesso!"@,
        redirect_fault(old(store)@, *params) matches Some(e) ==> result == Err::<
            String,
            LinkError,
        >(e),
        redirect_fault(old(store)@, *params) is None ==> result == Err::<String, LinkError>(
            LinkError::Expired,
        ) || exists|now_ms: u64|
            settled(result) == settled(
                callback_outcome(old(store)@, configured, *params, exchange, now_ms),
            ) && final(store)@ == #[trigger] callback_store(
                old(store)@,
                configured,
                *params,
                exchange,
                now_ms,
            ),
{
    if let Some(e) = check_redirect(store, params) {
        return Err(e);
    }
    let now_ms = match unix_time_ms() {
        None => {
            return Err(LinkError::Expired);
        },
        Some(now_ms) => now_ms,
    };
    match oauth_callback_at(store, configured, params, exchange, now_ms) {
        Err(e) => {
            assert(store@ == callback_store(old(store)@, configured, *params, exchange, now_ms));
            Err(e)
        },
        Ok(event) => {
            assert(store@ == callback_store(old(store)@, configured, *params, exchange, now_ms));
            let _ = broadcast_event(bus, event);
            Ok("Sucesso!".to_owned())
        },
    }
}

/// What is wrong with a redirect before the clock is asked is what the
/// callback answers at any instant.
pub proof fn lemma_redirect_fault_decides(
    s: StoreView,
    configured: bool,
    params: OAuthParams,
    exchange: Exchange,
    now_ms: u64,
)
    ensures
        redirect_fault(s, params) matches Some(e) ==> callback_outcome(
            s,
            configured,
            params,
            exchange,
            now_ms,
        ) == Err::<ServerEventView, LinkError>(e) && callback_store(
            s,
            configured,
            params,
            exchange,
            now_ms,
        ) == s,
{
}

/// Redeeming a token adds no identifier to the store.
pub proof fn lemma_redeemed_ids(
    s: StoreView,
    token: Seq<char>,
    exchange: Exchange,
    now_ms: u64,
    bound: int,
)
    requires
        s.ids_at_most(bound),
    ensures
        redeemed(s, token, exchange, now_ms).ids_at_most(bound),
{
    if let Ok(player) = redeemable(s, token, now_ms) {
        if let Ok(account) = linkable(s, player, exchange) {
            lemma_with_account_ids(s, player.id, account, bound);
        }
    }
}

/// The callback adds no identifier to the store.
pub proof fn lemma_callback_store_ids(
    s: StoreView,
    configured: bool,
    params: OAuthParams,
    exchange: Exchange,
    now_ms: u64,
    bound: int,
)
    requires
        s.ids_at_most(bound),
    ensures
        callback_store(s, configured, params, exchange, now_ms).ids_at_most(bound),
{
    if callback_check(s, configured, params, now_ms) is Ok {
        lemma_redeemed_ids(s, entry(params.state).unwrap(), exchange, now_ms, bound);
    }
}

/// A token whose linkage is more than five minutes old is not redeemed,
/// whatever the exchange brought, and the store stays as it is; where the
/// linkage's player is stored and not linked the reason given is the age.
pub proof fn lemma_old_linkage_is_refused(
    s: StoreView,
    token: Seq<char>,
    exchange: Exchange,
    now_ms: u64,
)
    requires
        s.linkage(token) matches Some(linkage) && !recent_at(linkage.id, FIVE_MINUTES_MS, now_ms),
    ensures
        redemption(s, token, exchange, now_ms) is Err,
        redeemed(s, token, exchange, now_ms) == s,
        s.player_by_id(s.linkage(token).unwrap().player_id) matches Some(player) && player.account
            is None ==> redemption(s, token, exchange, now_ms) == Err::<
            ServerEventView,
            LinkError,
        >(LinkError::Expired),
{
}

/// A token is redeemed at most once: after it was redeemed, redeeming it again
/// fails as an invalid token, whatever the exchange brings and whenever it is
/// tried, and changes nothing.
pub proof fn lemma_token_is_single_use(
    s: StoreView,
    token: Seq<char>,
    exchange: Exchange,
    now_ms: u64,
    second_exchange: Exchange,
    later_ms: u64,
)
    requires
        redemption(s, token, exchange, now_ms) is Ok,
    ensures
        redemption(redeemed(s, token, exchange, now_ms), token, second_exchange, later_ms) == Err::<
            ServerEventView,
            LinkError,
        >(LinkError::InvalidToken),
        redeemed(redeemed(s, token, exchange, now_ms), token, second_exchange, later_ms)
            == redeemed(s, token, exchange, now_ms),
{
    let linkage = s.linkage(token).unwrap();
    let player = s.player_by_id(linkage.player_id).unwrap();
    let account = linkable(s, player, exchange).unwrap();
    let after = redeemed(s, token, exchange, now_ms);
    assert(after == s.with_account(player.id, account));
    let pred = player_has_id(linkage.player_id);
    lemma_position(s.players, pred);
    let at = position(s.players, pred).unwrap();
    assert(player.id == linkage.player_id);
    lemma_find_update(
        s.players,
        at,
        PlayerView { account: Some(account), ..s.players[at] },
        pred,
    );
    assert(after.player_by_id(linkage.player_id) == Some(
        PlayerView { account: Some(account), ..s.players[at] },
    ));
    assert(after.linkage(token) == s.linkage(token));
}

/// An offer to link an account can be redeemed: once a player without a
/// linked account was offered a linkage, its token is redeemable for that
/// player for as long as the linkage is at most five minutes old.
pub proof fn lemma_offer_is_redeemable(
    s: StoreView,
    name: Seq<char>,
    address: Seq<char>,
    player_id: i64,
    linkage_id: i64,
    token: Seq<char>,
    now_ms: u64,
)
    requires
        s.wf(),
        can_offer(s, name, address, player_id),
        s.player(name, address) matches Some(player) ==> player.account is None,
        recent_at(linkage_id, FIVE_MINUTES_MS, now_ms),
    ensures
        redeemable(offered(s, name, address, player_id, linkage_id, token), token, now_ms)
            matches Ok(player) && player.name == name && player.address == address
            && player.account is None,
{
    let stored = s.with_player(player_id, name, address);
    lemma_offer(s, name, address, player_id);
    lemma_with_player_wf(s, player_id, name, address);
    let player = stored.player(name, address).unwrap();
    lemma_player_found_by_id(stored, name, address);
    let after = stored.with_linkage(linkage_id, token, player.id);
    assert(after == offered(s, name, address, player_id, linkage_id, token));
    lemma_position(stored.players, player_is(name, address));
    if s.admits_player(player_id, name, address) {
        lemma_find_push(
            s.players,
            PlayerView { id: player_id, name, address, account: None },
            player_is(name, address),
        );
    }
    assert(player.name == name && player.address == address && player.account is None);
    // The linkage is found by its token.
    let kept = stored.linkages.filter(not_superseded(token, player.id));
    let linkage = LinkageView { id: linkage_id, state_token: token, player_id: player.id };
    lemma_find_all_dropped(
        stored.linkages,
        not_superseded(token, player.id),
        linkage_has_token(token),
    );
    lemma_find_push(kept, linkage, linkage_has_token(token));
    assert(after.linkage(token) == Some(linkage));
    assert(after.player_by_id(player.id) == Some(player));
}

/// Only the newest offer stands: once a player was offered a second linkage
/// under another token, the token of the first is invalid.
pub proof fn lemma_newer_offer_supersedes(
    s: StoreView,
    name: Seq<char>,
    address: Seq<char>,
    player_id: i64,
    first_id: i64,
    first_token: Seq<char>,
    other_player_id: i64,
    second_id: i64,
    second_token: Seq<char>,
    now_ms: u64,
)
    requires
        s.wf(),
        can_offer(s, name, address, player_id),
        first_token != second_token,
    ensures
        redeemable(
            offered(
                offered(s, name, address, player_id, first_id, first_token),
                name,
                address,
                other_player_id,
                second_id,
                second_token,
            ),
            first_token,
            now_ms,
        ) == Err::<PlayerView, LinkError>(LinkError::InvalidToken),
{
    let stored = s.with_player(player_id, name, address);
    lemma_offer(s, name, address, player_id);
    lemma_with_player_wf(s, player_id, name, address);
    lemma_player_found_by_id(stored, name, address);
    let player = stored.player(name, address).unwrap();
    let once = stored.with_linkage(first_id, first_token, player.id);
    assert(once == offered(s, name, address, player_id, first_id, first_token));
    assert(once.player(name, address) == Some(player));
    lemma_offer(once, name, address, other_player_id);
    assert(once.with_player(other_player_id, name, address) == once);
    let twice = once.with_linkage(second_id, second_token, player.id);
    assert(twice == offered(once, name, address, other_player_id, second_id, second_token));
    let first = LinkageView { id: first_id, state_token: first_token, player_id: player.id };
    let kept_once = stored.linkages.filter(not_superseded(first_token, player.id));
    assert(once.linkages == kept_once.push(first));
    assert forall|i: int|
        0 <= i < once.linkages.len() && linkage_has_token(first_token)(
            #[trigger] once.linkages[i],
        ) implies !not_superseded(second_token, player.id)(once.linkages[i]) by {
        if i < kept_once.len() {
            stored.linkages.lemma_filter_pred(not_superseded(first_token, player.id), i);
            assert(once.linkages[i] == kept_once[i]);
        }
    }
    lemma_find_all_dropped(
        once.linkages,
        not_superseded(second_token, player.id),
        linkage_has_token(first_token),
    );
    lemma_find_push(
        once.linkages.filter(not_superseded(second_token, player.id)),
        LinkageView { id: second_id, state_token: second_token, player_id: player.id },
        linkage_has_token(first_token),
    );
    assert(twice.linkage(first_token) is None);
}

} // verus!
