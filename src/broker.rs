use vstd::prelude::*;
use crate::error::Error;
use crate::guard::guard_outcome;
use crate::ledger::{ledger_take, CsrfPkceLedger};
use crate::text::{all_ascii, contains_seq, form_encoded, hex_encode, hex_of, opt_view};
use crate::tokens::{AuthToken, TokenStore};
use crate::users::{keyed_by_email, upsert, CreateParams, StorageError, UserTable, UserView};

verus! {

/// The provider's authorization endpoint.
pub const GITHUB_AUTHORIZE_URL: &'static str = "https://github.com/login/oauth/authorize";

/// The scope asked for: enough to read the user's email addresses.
pub const GITHUB_SCOPE: &'static str = "user:email";

/// Message sent along with a session token on login.
pub const REGISTERED_MESSAGE: &'static str = "Registered successfully!";

/// Least number of random bytes behind a session token.
pub const MIN_TOKEN_BYTES: usize = 16;

/// The provider's profile of the signed-in user.
pub struct GitHubUser {
    pub login: String,
    pub email: Option<String>,
}

/// One entry of the provider's list of the user's email addresses.
pub struct GitHubEmail {
    pub email: String,
    pub primary: bool,
}

/// Body of the backend login call: an access token the provider issued.
pub struct AuthTokenPayload {
    pub access_token: String,
}

/// Answer to a successful backend login: the session token.
pub struct RegisterResponse {
    pub message: String,
    pub token: String,
}

/// Where an authorization goes: the provider URL to redirect to, and the CSRF
/// state it carries.
pub struct Authorization {
    pub url: String,
    pub state: String,
}

/// Whether `s` parses as an absolute URL.
pub uninterp spec fn parses_as_url(s: Seq<char>) -> bool;

/// The S256 PKCE challenge of a code verifier: the unpadded base64url text of
/// the SHA-256 digest of its bytes.
pub uninterp spec fn pkce_s256_challenge(verifier: Seq<char>) -> Seq<char>;

/// Relies on oauth2's `AuthorizationRequest::url`, fed by
/// `PkceCodeChallenge::new_random_sha256` (whose challenge is
/// `PkceCodeChallenge::from_code_verifier_sha256` of the verifier) and
/// `CsrfToken::new_random`. The URL is the endpoint with the query pairs
/// `client_id`, `state`, `code_challenge`, `code_challenge_method=S256` and
/// `scope` (when not empty) appended, each value form-encoded; the state and the challenge are
/// base64url text, which form encoding leaves as it is. `AuthUrl::new` fails
/// exactly when the endpoint does not parse.
#[verifier::external_body]
fn authorization_request(client_id: &String, auth_url: &String, scope: &String) -> (r: Option<(String, String, String)>)
    ensures
        r is None <==> !parses_as_url(auth_url@),
        r matches Some((url, state, verifier)) ==> {
            &&& contains_seq(url@, "state="@ + state@)
            &&& contains_seq(url@, "code_challenge="@ + pkce_s256_challenge(verifier@))
            &&& contains_seq(url@, "code_challenge_method=S256"@)
            &&& all_ascii(scope@) && scope@.len() > 0 ==> contains_seq(url@, "scope="@ + form_encoded(scope@))
            &&& all_ascii(client_id@) ==> contains_seq(url@, "client_id="@ + form_encoded(client_id@))
        },
{
    let endpoint = oauth2::AuthUrl::new(auth_url.clone()).ok()?;
    let client = oauth2::basic::BasicClient::new(oauth2::ClientId::new(client_id.clone())).set_auth_uri(endpoint);
    let (challenge, verifier) = oauth2::PkceCodeChallenge::new_random_sha256();
    let (url, state) = client
        .authorize_url(oauth2::CsrfToken::new_random)
        .add_scope(oauth2::Scope::new(scope.clone()))
        .set_pkce_challenge(challenge)
        .url();
    Some((url.to_string(), state.secret().clone(), verifier.secret().clone()))
}

/// Why an authorization could not start.
#[derive(Debug)]
pub enum AuthorizationError {
    /// The provider endpoint is not a URL.
    InvalidEndpoint,
    /// The freshly drawn CSRF state is already filed for another
    /// authorization; it is left alone.
    StateInUse(String),
}

/// Starts a web authorization: files a fresh CSRF state, not filed before,
/// with its PKCE verifier, so the ledger grows by exactly that entry, and
/// gives the provider URL, which carries the state, the verifier's S256
/// challenge, the method and the scope. On failure the ledger is unchanged.
pub fn begin_authorization(client_id: &String, auth_url: &String, ledger: &mut CsrfPkceLedger) -> (r: Result<Authorization, AuthorizationError>)
    requires
        old(ledger).wf(),
    ensures
        final(ledger).wf(),
        r matches Err(AuthorizationError::InvalidEndpoint) <==> !parses_as_url(auth_url@),
        r matches Err(AuthorizationError::StateInUse(s)) ==> old(ledger)@.contains_key(s@),
        r is Err ==> final(ledger)@ == old(ledger)@,
        r matches Ok(a) ==> {
            &&& !old(ledger)@.contains_key(a.state@)
            &&& final(ledger)@ == old(ledger)@.insert(a.state@, final(ledger)@[a.state@])
            &&& final(ledger)@.dom() == old(ledger)@.dom().insert(a.state@)
            &&& contains_seq(a.url@, "state="@ + a.state@)
            &&& contains_seq(a.url@, "code_challenge="@ + pkce_s256_challenge(final(ledger)@[a.state@]))
            &&& contains_seq(a.url@, "code_challenge_method=S256"@)
            &&& contains_seq(a.url@, "scope=user%3Aemail"@)
        },
{
    let scope = GITHUB_SCOPE.to_owned();
    proof {
        lemma_scope_encoding();
    }
    match authorization_request(client_id, auth_url, &scope) {
        Some((url, state, verifier)) => {
            if ledger.contains(&state) {
                return Err(AuthorizationError::StateInUse(state));
            }
            let filed = state.clone();
            ledger.insert(filed, verifier);
            assert(ledger@.dom() =~= old(ledger)@.dom().insert(state@));
            Ok(Authorization { url, state })
        },
        None => Err(AuthorizationError::InvalidEndpoint),
    }
}

proof fn lemma_scope_encoding()
    ensures
        all_ascii(GITHUB_SCOPE@),
        GITHUB_SCOPE@.len() > 0,
        "scope="@ + form_encoded(GITHUB_SCOPE@) == "scope=user%3Aemail"@,
{
    reveal_strlit("user:email");
    reveal_strlit("scope=");
    reveal_strlit("scope=user%3Aemail");
    reveal_with_fuel(form_encoded, 11);
    let s = GITHUB_SCOPE@;
    assert(s =~= seq!['u', 's', 'e', 'r', ':', 'e', 'm', 'a', 'i', 'l']);
    assert(form_encoded(s) =~= seq!['u', 's', 'e', 'r', '%', '3', 'A', 'e', 'm', 'a', 'i', 'l']);
    assert("scope="@ + form_encoded(s) =~= "scope=user%3Aemail"@);
}

/// Why a call to the provider failed.
#[derive(Clone, Copy, Debug, PartialEq, Eq, Structural)]
pub enum UpstreamFailure {
    /// No answer: network failure or timeout.
    Unavailable,
    /// An answer of the wrong shape.
    Malformed,
}

/// The error a provider failure is reported as.
pub open spec fn upstream_error(f: UpstreamFailure) -> Error {
    match f {
        UpstreamFailure::Unavailable => Error::UpstreamUnavailable,
        UpstreamFailure::Malformed => Error::UpstreamProtocolError,
    }
}

fn to_error(f: UpstreamFailure) -> (e: Error)
    ensures
        e == upstream_error(f),
{
    match f {
        UpstreamFailure::Unavailable => Error::UpstreamUnavailable,
        UpstreamFailure::Malformed => Error::UpstreamProtocolError,
    }
}

/// An answer from the provider to the last request the flow asked for.
pub enum ProviderReply {
    TokenExchanged(Result<String, UpstreamFailure>),
    Profile(Result<GitHubUser, UpstreamFailure>),
    Emails(Result<Vec<GitHubEmail>, UpstreamFailure>),
}

/// Where a login stands.
pub enum LoginFlow {
    /// Waiting for the authorization code to be exchanged.
    Exchanging,
    /// Waiting for the profile behind `access_token`.
    FetchingProfile { access_token: String },
    /// The profile had no email; waiting for the list of addresses.
    FetchingEmails { access_token: String, username: String },
    /// Nothing more to wait for.
    Done,
}

/// What the driver of a login is to do next.
pub enum LoginAction {
    /// Exchange `code`, with the PKCE `verifier`, for an access token.
    ExchangeCode { code: String, verifier: String },
    FetchProfile { access_token: String },
    FetchEmails { access_token: String },
    /// The identity is known: upsert the user and mint a token.
    Complete { username: String, email: String },
    /// The login failed.
    Fail(Error),
}

/// The address flagged primary that comes first in the list, if any.
pub open spec fn first_primary(emails: Seq<GitHubEmail>) -> Option<Seq<char>>
    decreases emails.len(),
{
    if emails.len() == 0 {
        None
    } else if emails[0].primary {
        Some(emails[0].email@)
    } else {
        first_primary(emails.drop_first())
    }
}

proof fn lemma_first_primary_skip(emails: Seq<GitHubEmail>, i: int)
    requires
        0 <= i < emails.len(),
        forall|j: int| 0 <= j < i ==> !(#[trigger] emails[j]).primary,
    ensures
        first_primary(emails) == first_primary(emails.subrange(i, emails.len() as int)),
    decreases i,
{
    if i > 0 {
        let rest = emails.drop_first();
        assert forall|j: int| 0 <= j < i - 1 implies !(#[trigger] rest[j]).primary by {
            assert(rest[j] == emails[j + 1]);
        }
        lemma_first_primary_skip(rest, i - 1);
        assert(rest.subrange(i - 1, rest.len() as int) =~= emails.subrange(i, emails.len() as int));
    } else {
        assert(emails.subrange(0, emails.len() as int) =~= emails);
    }
}

proof fn lemma_first_primary_none(emails: Seq<GitHubEmail>)
    requires
        forall|j: int| 0 <= j < emails.len() ==> !(#[trigger] emails[j]).primary,
    ensures
        first_primary(emails) is None,
    decreases emails.len(),
{
    if emails.len() > 0 {
        let rest = emails.drop_first();
        assert forall|j: int| 0 <= j < rest.len() implies !(#[trigger] rest[j]).primary by {
            assert(rest[j] == emails[j + 1]);
        }
        lemma_first_primary_none(rest);
    }
}

/// The first address flagged primary.
pub fn select_primary_email(emails: &Vec<GitHubEmail>) -> (r: Option<String>)
    ensures
        opt_view(r) == first_primary(emails@),
{
    let mut i: usize = 0;
    while i < emails.len()
        invariant
            i <= emails@.len(),
            forall|j: int| 0 <= j < i ==> !(#[trigger] emails@[j]).primary,
        decreases emails@.len() - i,
    {
        if emails[i].primary {
            proof {
                lemma_first_primary_skip(emails@, i as int);
            }
            return Some(emails[i].email.clone());
        }
        i = i + 1;
    }
    proof {
        lemma_first_primary_none(emails@);
    }
    None
}

/// Whether a callback with `state` goes on to the code exchange.
pub open spec fn callback_accepts(m: Map<Seq<char>, Seq<char>>, state: Seq<char>) -> bool {
    ledger_take(m, state).1 is Some
}

/// Handles the provider's redirect back with `state` and `code`: the state's
/// ledger entry is looked up and removed in one step; an unknown or used
/// state fails with `InvalidState`, a known one leads to the code exchange
/// with its verifier.
pub fn handle_callback(ledger: &mut CsrfPkceLedger, state: &String, code: String) -> (r: (LoginFlow, LoginAction))
    requires
        old(ledger).wf(),
    ensures
        final(ledger).wf(),
        final(ledger)@ == ledger_take(old(ledger)@, state@).0,
        callback_accepts(old(ledger)@, state@) <==> r.1 is ExchangeCode,
        !callback_accepts(old(ledger)@, state@) ==> r.0 is Done && r.1 == LoginAction::Fail(Error::InvalidState),
        r.1 matches LoginAction::ExchangeCode { code: c, verifier } ==> {
            &&& r.0 is Exchanging
            &&& c@ == code@
            &&& Some(verifier@) == ledger_take(old(ledger)@, state@).1
        },
{
    match ledger.take(state) {
        Some(verifier) => (LoginFlow::Exchanging, LoginAction::ExchangeCode { code, verifier }),
        None => (LoginFlow::Done, LoginAction::Fail(Error::InvalidState)),
    }
}

/// A callback's state is good for one callback: of two callbacks in a row
/// with the same state, the second is refused.
pub proof fn lemma_callback_single_use(m: Map<Seq<char>, Seq<char>>, state: Seq<char>)
    ensures
        !callback_accepts(ledger_take(m, state).0, state),
        !(callback_accepts(m, state) && callback_accepts(ledger_take(m, state).0, state)),
        callback_accepts(m, state) <==> m.contains_key(state),
{
}

/// Starts the login of a client that already holds a provider access token.
pub fn begin_login(payload: AuthTokenPayload) -> (r: (LoginFlow, LoginAction))
    ensures
        r.0 matches LoginFlow::FetchingProfile { access_token } && access_token@ == payload.access_token@,
        r.1 matches LoginAction::FetchProfile { access_token } && access_token@ == payload.access_token@,
{
    let access_token = payload.access_token;
    let fetch = access_token.clone();
    (LoginFlow::FetchingProfile { access_token }, LoginAction::FetchProfile { access_token: fetch })
}

impl LoginFlow {
    /// Takes one step on the provider's answer.
    pub fn step(self, reply: ProviderReply) -> (r: (LoginFlow, LoginAction))
        ensures
            !(r.1 is ExchangeCode),
            r.1 is FetchProfile <==> r.0 is FetchingProfile,
            r.1 is FetchEmails <==> r.0 is FetchingEmails,
            (r.1 is Complete || r.1 is Fail) <==> r.0 is Done,
            r.1 matches LoginAction::FetchProfile { access_token: a }
                ==> r.0 matches LoginFlow::FetchingProfile { access_token: b } && a@ == b@,
            r.1 matches LoginAction::FetchEmails { access_token: a }
                ==> r.0 matches LoginFlow::FetchingEmails { access_token: b, .. } && a@ == b@,
            match (self, reply) {
                (LoginFlow::Exchanging, ProviderReply::TokenExchanged(Ok(t))) =>
                    r.1 matches LoginAction::FetchProfile { access_token } && access_token@ == t@,
                (LoginFlow::Exchanging, ProviderReply::TokenExchanged(Err(f))) =>
                    r.1 == LoginAction::Fail(upstream_error(f)),
                (LoginFlow::FetchingProfile { access_token: t }, ProviderReply::Profile(Ok(p))) => match p.email {
                    Some(e) => r.1 matches LoginAction::Complete { username, email }
                        && username@ == p.login@ && email@ == e@,
                    None => (r.1 matches LoginAction::FetchEmails { access_token } && access_token@ == t@)
                        && (r.0 matches LoginFlow::FetchingEmails { username, .. } && username@ == p.login@),
                },
                (LoginFlow::FetchingProfile { .. }, ProviderReply::Profile(Err(f))) =>
                    r.1 == LoginAction::Fail(upstream_error(f)),
                (LoginFlow::FetchingEmails { username: u, .. }, ProviderReply::Emails(Ok(list))) =>
                    match first_primary(list@) {
                        Some(e) => r.1 matches LoginAction::Complete { username, email }
                            && username@ == u@ && email@ == e,
                        None => r.1 == LoginAction::Fail(Error::NoPrimaryEmail),
                    },
                (LoginFlow::FetchingEmails { .. }, ProviderReply::Emails(Err(f))) =>
                    r.1 == LoginAction::Fail(upstream_error(f)),
                _ => r.1 == LoginAction::Fail(Error::UpstreamProtocolError),
            },
    {
        match self {
            LoginFlow::Exchanging => match reply {
                ProviderReply::TokenExchanged(Ok(t)) => {
                    let fetch = t.clone();
                    (LoginFlow::FetchingProfile { access_token: t }, LoginAction::FetchProfile { access_token: fetch })
                },
                ProviderReply::TokenExchanged(Err(f)) => (LoginFlow::Done, LoginAction::Fail(to_error(f))),
                _ => (LoginFlow::Done, LoginAction::Fail(Error::UpstreamProtocolError)),
            },
            LoginFlow::FetchingProfile { access_token } => match reply {
                ProviderReply::Profile(Ok(GitHubUser { login, email })) => match email {
                    Some(e) => (LoginFlow::Done, LoginAction::Complete { username: login, email: e }),
                    None => {
                        let fetch = access_token.clone();
                        (
                            LoginFlow::FetchingEmails { access_token, username: login },
                            LoginAction::FetchEmails { access_token: fetch },
                        )
                    },
                },
                ProviderReply::Profile(Err(f)) => (LoginFlow::Done, LoginAction::Fail(to_error(f))),
                _ => (LoginFlow::Done, LoginAction::Fail(Error::UpstreamProtocolError)),
            },
            LoginFlow::FetchingEmails { access_token: _, username } => match reply {
                ProviderReply::Emails(Ok(list)) => match select_primary_email(&list) {
                    Some(e) => (LoginFlow::Done, LoginAction::Complete { username, email: e }),
                    None => (LoginFlow::Done, LoginAction::Fail(Error::NoPrimaryEmail)),
                },
                ProviderReply::Emails(Err(f)) => (LoginFlow::Done, LoginAction::Fail(to_error(f))),
                _ => (LoginFlow::Done, LoginAction::Fail(Error::UpstreamProtocolError)),
            },
            LoginFlow::Done => (LoginFlow::Done, LoginAction::Fail(Error::UpstreamProtocolError)),
        }
    }
}

/// Every token on file belongs to a user on file.
pub open spec fn tokens_reference_users(users: Map<Seq<char>, UserView>, tokens: Map<Seq<char>, AuthToken>) -> bool {
    forall|t: Seq<char>| #[trigger] tokens.contains_key(t) ==> exists|e: Seq<char>|
        users.contains_key(e) && #[trigger] users[e].id == tokens[t].user_id.0
}

/// A request the guard lets through acts for a user on file, so the events it
/// records carry an existing user.
pub proof fn lemma_guarded_user_exists(
    users: Map<Seq<char>, UserView>,
    tokens: Map<Seq<char>, AuthToken>,
    bearer: Option<Seq<char>>,
)
    requires
        tokens_reference_users(users, tokens),
    ensures
        guard_outcome(tokens, bearer) matches Ok(u) ==> exists|e: Seq<char>|
            users.contains_key(e) && #[trigger] users[e].id == u.id.0,
{
}

/// Finishes a login whose identity is known: upserts the user by email and
/// issues a new session token, the hex text of `token_bytes`, created at
/// `now`. On a storage failure nothing more is written: a failed user upsert
/// leaves both stores as they were.
pub fn complete_login(
    users: &mut UserTable,
    tokens: &mut TokenStore,
    username: String,
    email: String,
    token_bytes: &Vec<u8>,
    now: i64,
) -> (r: Result<RegisterResponse, Error>)
    requires
        old(users).wf(),
        old(tokens).wf(),
        token_bytes@.len() >= MIN_TOKEN_BYTES,
    ensures
        final(users).wf(),
        final(tokens).wf(),
        keyed_by_email(final(users)@),
        ({
            let users_after = upsert(old(users)@, old(users).fresh_id(), username@, email@, now);
            let exhausted = !old(users)@.contains_key(email@) && old(users).fresh_id() == i32::MAX;
            let taken = old(tokens)@.contains_key(hex_of(token_bytes@));
            &&& exhausted ==> r == Err::<RegisterResponse, Error>(Error::Storage(StorageError::IdsExhausted))
                && final(users)@ == old(users)@ && final(tokens)@ == old(tokens)@
            &&& !exhausted ==> final(users)@ == users_after
            &&& !exhausted && taken ==> r == Err::<RegisterResponse, Error>(Error::Storage(StorageError::DuplicateKey))
                && final(tokens)@ == old(tokens)@
            &&& r is Ok <==> !exhausted && !taken
            &&& tokens_reference_users(old(users)@, old(tokens)@)
                ==> tokens_reference_users(final(users)@, final(tokens)@)
            &&& r matches Ok(resp) ==> {
                &&& resp.token@ == hex_of(token_bytes@)
                &&& final(tokens)@ == old(tokens)@.insert(
                    resp.token@,
                    AuthToken { user_id: crate::users::UserId(users_after[email@].id), created_at: now, disabled_at: None },
                )
            }
        }),
{
    let id = match users.create(CreateParams { username, email, now }) {
        Ok(id) => id,
        Err(e) => return Err(Error::Storage(e)),
    };
    proof {
        let (u0, u1, t0) = (old(users)@, users@, old(tokens)@);
        if tokens_reference_users(u0, t0) {
            assert forall|t: Seq<char>| #[trigger] t0.contains_key(t) implies exists|e: Seq<char>|
                u1.contains_key(e) && #[trigger] u1[e].id == t0[t].user_id.0 by {
                let e = choose|e: Seq<char>| u0.contains_key(e) && #[trigger] u0[e].id == t0[t].user_id.0;
                assert(u1.contains_key(e) && u1[e].id == u0[e].id);
            }
        }
    }
    let token = hex_encode(token_bytes);
    let issued = token.clone();
    match tokens.create(id, issued, now) {
        Ok(()) => {
            proof {
                let (u1, t0, t1) = (users@, old(tokens)@, tokens@);
                if tokens_reference_users(old(users)@, t0) {
                    assert forall|t: Seq<char>| #[trigger] t1.contains_key(t) implies exists|e: Seq<char>|
                        u1.contains_key(e) && #[trigger] u1[e].id == t1[t].user_id.0 by {
                        if t == token@ {
                            assert(u1.contains_key(email@) && u1[email@].id == id.0);
                        } else {
                            assert(t0.contains_key(t));
                        }
                    }
                }
            }
            Ok(RegisterResponse { message: REGISTERED_MESSAGE.to_owned(), token })
        },
        Err(e) => Err(Error::Storage(e)),
    }
}

} // verus!
