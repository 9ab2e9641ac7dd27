//! The address a player is sent to in order to link a community account.
//!
//! The address is the identity provider's authorization endpoint with the
//! parameters of an authorization-code request in its query: who asks, what
//! is asked for, where the provider sends the player back to, and the token
//! that tells the returning player apart. Parsing, joining and query encoding
//! are the `url` crate's, reached as `reqwest::Url`.

use vstd::prelude::*;

verus! {

/// The authorization endpoint of the identity provider.
pub const DISCORD_OAUTH_BASE_URL: &'static str = "https://discord.com/oauth2/authorize";

/// Where, below the service's own address, the provider sends players back to.
pub const CALLBACK_PATH: &'static str = "/discord/callback";

/// The longest text, in characters, that is handed to the address parser.
/// The parser counts in 32 bits and fails beyond; texts within this length
/// stay far below that, encoded and joined.
pub const MAX_TEXT: usize = 0x10_0000;

/// The largest number of pairs appended to a query at once.
pub const MAX_PAIRS: usize = 16;

/// The text is short enough for the address parser.
pub open spec fn fits(text: Seq<char>) -> bool {
    text.len() <= MAX_TEXT
}

/// The pairs are few and short enough for the address parser.
pub open spec fn pairs_fit(pairs: Seq<(Seq<char>, Seq<char>)>) -> bool {
    &&& pairs.len() <= MAX_PAIRS
    &&& forall|i: int| 0 <= i < pairs.len() ==> fits((#[trigger] pairs[i]).0) && fits(pairs[i].1)
}

/// Whether `Url::parse` accepts the text.
pub uninterp spec fn url_parses(text: Seq<char>) -> bool;

/// What `Url::join` makes of a reference against a base, as text; `None`
/// where the base does not parse or the reference cannot be joined to it.
pub uninterp spec fn url_joined(base: Seq<char>, reference: Seq<char>) -> Option<Seq<char>>;

/// The text of the address `base` once the pairs were appended to its query
/// in form encoding, as `Serializer::extend_pairs` writes them.
pub uninterp spec fn url_with_query(base: Seq<char>, pairs: Seq<(Seq<char>, Seq<char>)>) -> Seq<
    char,
>;

/// The views of a run of pairs of strings.
pub open spec fn pair_texts(pairs: Seq<(String, String)>) -> Seq<(Seq<char>, Seq<char>)> {
    pairs.map_values(|p: (String, String)| (p.0@, p.1@))
}

/// `Url::join` on the parsed base: the joined address as text, which is
/// `url_joined` of the two texts.
#[verifier::external_body]
fn join_url(base: &str, reference: &str) -> (joined: Option<String>)
    requires
        fits(base@),
        fits(reference@),
    ensures
        match joined {
            Some(text) => url_joined(base@, reference@) == Some(text@),
            None => url_joined(base@, reference@) is None,
        },
{
    match reqwest::Url::parse(base) {
        Ok(url) => match url.join(reference) {
            Ok(joined) => Some(joined.into()),
            Err(_) => None,
        },
        Err(_) => None,
    }
}

/// `Serializer::extend_pairs` on the query of the parsed base: the address
/// with the pairs appended, as text. There is an answer exactly where the
/// base parses; it is `url_with_query` of the texts, and, being an address
/// with a scheme, it is not empty. The parser counts in 32 bits and fails
/// beyond, which the bounds on the texts leave out.
#[verifier::external_body]
fn append_query(base: &str, pairs: &Vec<(String, String)>) -> (extended: Option<String>)
    requires
        fits(base@),
        pairs_fit(pair_texts(pairs@)),
    ensures
        extended is Some <==> url_parses(base@),
        extended matches Some(text) ==> text@ == url_with_query(base@, pair_texts(pairs@))
            && text@.len() > 0,
{
    match reqwest::Url::parse(base) {
        Ok(mut url) => {
            url.query_pairs_mut().extend_pairs(pairs);
            Some(url.into())
        },
        Err(_) => None,
    }
}

/// The parameters of an authorization-code request.
pub open spec fn authorization_pairs(
    client_id: Seq<char>,
    redirect_uri: Seq<char>,
    state: Seq<char>,
) -> Seq<(Seq<char>, Seq<char>)> {
    seq![
        ("client_id"@, client_id),
        ("response_type"@, "code"@),
        ("redirect_uri"@, redirect_uri),
        ("scope"@, "identify"@),
        ("state"@, state),
    ]
}

/// What the linking flow needs to know of the identity provider and of the
/// service's own address.
pub struct LinkingConfig {
    authorize_url: String,
    client_id: String,
    redirect_uri: String,
}

impl LinkingConfig {
    /// The authorization endpoint.
    pub closed spec fn authorize_url(&self) -> Seq<char> {
        self.authorize_url@
    }

    /// The identifier under which the service is known to the provider.
    pub closed spec fn client_id(&self) -> Seq<char> {
        self.client_id@
    }

    /// The address the provider sends players back to.
    pub closed spec fn redirect_uri(&self) -> Seq<char> {
        self.redirect_uri@
    }

    /// The authorization endpoint is an address, and the texts are short
    /// enough for the address parser.
    pub closed spec fn wf(&self) -> bool {
        &&& url_parses(self.authorize_url@)
        &&& fits(self.authorize_url@)
        &&& fits(self.client_id@)
        &&& fits(self.redirect_uri@)
    }

    /// The address a player with this token is sent to.
    pub open spec fn authorization_url(&self, state_token: Seq<char>) -> Seq<char> {
        url_with_query(
            self.authorize_url(),
            authorization_pairs(self.client_id(), self.redirect_uri(), state_token),
        )
    }

    /// Whether a configuration can be made of these texts: each is short
    /// enough, the endpoint is an address, and the callback can be joined to
    /// `app_url` and is short enough.
    pub open spec fn admits(authorize_url: Seq<char>, app_url: Seq<char>, client_id: Seq<char>) -> bool {
        &&& fits(authorize_url)
        &&& fits(app_url)
        &&& fits(client_id)
        &&& url_parses(authorize_url)
        &&& url_joined(app_url, CALLBACK_PATH@) matches Some(callback) && fits(callback)
    }

    /// A configuration for the provider at `authorize_url`, with the callback
    /// below `app_url`; `None` where the endpoint is no address, the
    /// callback cannot be joined to `app_url`, or a text is too long.
    pub fn new(authorize_url: &str, app_url: &str, client_id: &str) -> (config: Option<
        LinkingConfig,
    >)
        ensures
            config is Some <==> LinkingConfig::admits(authorize_url@, app_url@, client_id@),
            config matches Some(c) ==> c.wf() && c.authorize_url() == authorize_url@
                && c.client_id() == client_id@ && Some(c.redirect_uri()) == url_joined(
                app_url@,
                CALLBACK_PATH@,
            ),
    {
        if authorize_url.unicode_len() > MAX_TEXT || app_url.unicode_len() > MAX_TEXT
            || client_id.unicode_len() > MAX_TEXT {
            return None;
        }
        let none: Vec<(String, String)> = Vec::new();
        assert(pair_texts(none@) =~= Seq::empty());
        if append_query(authorize_url, &none).is_none() {
            return None;
        }
        proof {
            reveal_strlit("/discord/callback");
        }
        match join_url(app_url, CALLBACK_PATH) {
            None => None,
            Some(redirect_uri) => {
                if redirect_uri.as_str().unicode_len() > MAX_TEXT {
                    return None;
                }
                Some(
                    LinkingConfig {
                        authorize_url: authorize_url.to_owned(),
                        client_id: client_id.to_owned(),
                        redirect_uri,
                    },
                )
            },
        }
    }

    /// A configuration for Discord, with the callback below `app_url`.
    pub fn discord(app_url: &str, client_id: &str) -> (config: Option<LinkingConfig>)
        ensures
            config is Some <==> LinkingConfig::admits(
                DISCORD_OAUTH_BASE_URL@,
                app_url@,
                client_id@,
            ),
            config matches Some(c) ==> c.wf() && c.authorize_url() == DISCORD_OAUTH_BASE_URL@
                && c.client_id() == client_id@ && Some(c.redirect_uri()) == url_joined(
                app_url@,
                CALLBACK_PATH@,
            ),
    {
        LinkingConfig::new(DISCORD_OAUTH_BASE_URL, app_url, client_id)
    }

    /// The identifier under which the service is known to the provider.
    pub fn client_id_text(&self) -> (id: String)
        ensures
            id@ == self.client_id(),
    {
        self.client_id.clone()
    }

    /// The address the provider sends players back to.
    pub fn callback_url(&self) -> (url: String)
        ensures
            url@ == self.redirect_uri(),
    {
        self.redirect_uri.clone()
    }

    /// The address a player with this token is sent to.
    pub fn authentication_url(&self, state_token: &str) -> (url: String)
        requires
            self.wf(),
            fits(state_token@),
        ensures
            url@ == self.authorization_url(state_token@),
            url@.len() > 0,
    {
        let mut pairs: Vec<(String, String)> = Vec::new();
        pairs.push(("client_id".to_owned(), self.client_id.clone()));
        pairs.push(("response_type".to_owned(), "code".to_owned()));
        pairs.push(("redirect_uri".to_owned(), self.redirect_uri.clone()));
        pairs.push(("scope".to_owned(), "identify".to_owned()));
        pairs.push(("state".to_owned(), state_token.to_owned()));
        assert(pair_texts(pairs@) =~= authorization_pairs(
            self.client_id(),
            self.redirect_uri(),
            state_token@,
        ));
        proof {
            reveal_strlit("client_id");
            reveal_strlit("response_type");
            reveal_strlit("code");
            reveal_strlit("redirect_uri");
            reveal_strlit("scope");
            reveal_strlit("identify");
            reveal_strlit("state");
        }
        match append_query(self.authorize_url.as_str(), &pairs) {
            Some(url) => url,
            None => String::new(),
        }
    }
}

} // verus!
