use vstd::prelude::*;
use crate::broker::{complete_login, tokens_reference_users, RegisterResponse, MIN_TOKEN_BYTES};
use crate::error::Error;
use crate::guard::{guard_outcome, AuthUser};
use crate::text::hex_of;
use crate::tokens::{disable_token, resolve_token, AuthToken, TokenStore};
use crate::users::{keyed_by_email, upsert, StorageError, UserId, UserTable, UserView};

verus! {

/// Whether `id` is the identifier of a user row.
pub open spec fn user_on_file(users: Map<Seq<char>, UserView>, id: UserId) -> bool {
    exists|e: Seq<char>| users.contains_key(e) && #[trigger] users[e].id == id.0
}

/// The user a bearer token resolves to when looked up across both stores: the
/// token must be on file and not disabled, and its user must be on file.
pub open spec fn resolve_account(
    users: Map<Seq<char>, UserView>,
    tokens: Map<Seq<char>, AuthToken>,
    token: Seq<char>,
) -> Option<UserId> {
    match resolve_token(tokens, token) {
        Some(id) => if user_on_file(users, id) { Some(id) } else { None },
        None => None,
    }
}

/// Users and their bearer tokens, kept together so that every token belongs
/// to a user on file.
pub struct Accounts {
    users: UserTable,
    tokens: TokenStore,
}

impl Accounts {
    pub closed spec fn users_view(&self) -> Map<Seq<char>, UserView> {
        self.users@
    }

    pub closed spec fn tokens_view(&self) -> Map<Seq<char>, AuthToken> {
        self.tokens@
    }

    /// The identifier the next new user will get.
    pub closed spec fn fresh_id(&self) -> i32 {
        self.users.fresh_id()
    }

    /// Both stores are well formed, users are filed by email, and every token
    /// names a user on file.
    pub closed spec fn wf(&self) -> bool {
        &&& self.users.wf()
        &&& self.tokens.wf()
        &&& keyed_by_email(self.users@)
        &&& tokens_reference_users(self.users@, self.tokens@)
    }

    pub fn new() -> (a: Self)
        ensures
            a.wf(),
            a.users_view() == Map::<Seq<char>, UserView>::empty(),
            a.tokens_view() == Map::<Seq<char>, AuthToken>::empty(),
    {
        Accounts { users: UserTable::new(), tokens: TokenStore::new() }
    }

    /// The users, for reading.
    pub fn users(&self) -> (u: &UserTable)
        requires
            self.wf(),
        ensures
            u.wf(),
            u@ == self.users_view(),
            keyed_by_email(u@),
    {
        &self.users
    }

    /// The tokens, for reading.
    pub fn tokens(&self) -> (t: &TokenStore)
        requires
            self.wf(),
        ensures
            t.wf(),
            t@ == self.tokens_view(),
    {
        &self.tokens
    }

    /// The user that `token` authenticates: the token is on file and not
    /// disabled, and its user is on file.
    pub fn find_user_id_from_token(&self, token: &String) -> (r: Option<UserId>)
        requires
            self.wf(),
        ensures
            r == resolve_account(self.users_view(), self.tokens_view(), token@),
            r == resolve_token(self.tokens_view(), token@),
    {
        let r = self.tokens.find_user_id_from_token(token);
        r
    }

    /// The guard across both stores: a request with a bearer token that
    /// resolves acts for that user, who is on file; anything else is refused
    /// with the one `Unauthenticated` answer.
    pub fn authenticate(&self, bearer: Option<&String>) -> (r: Result<AuthUser, Error>)
        requires
            self.wf(),
        ensures
            r == guard_outcome(self.tokens_view(), match bearer { Some(t) => Some(t@), None => None }),
            r matches Ok(u) ==> user_on_file(self.users_view(), u.id),
    {
        let r = AuthUser::from_bearer(&self.tokens, bearer);
        r
    }

    /// Revokes `token` at `now`; returns whether it is on file.
    pub fn disable(&mut self, token: &String, now: i64) -> (found: bool)
        requires
            old(self).wf(),
        ensures
            final(self).wf(),
            found == old(self).tokens_view().contains_key(token@),
            final(self).tokens_view() == disable_token(old(self).tokens_view(), token@, now),
            final(self).users_view() == old(self).users_view(),
    {
        let found = self.tokens.disable(token, now);
        proof {
            let (u, t0, t1) = (self.users@, old(self).tokens@, self.tokens@);
            assert forall|t: Seq<char>| #[trigger] t1.contains_key(t) implies exists|e: Seq<char>|
                u.contains_key(e) && #[trigger] u[e].id == t1[t].user_id.0 by {
                assert(t0.contains_key(t));
            }
        }
        found
    }

    /// Finishes a login: upserts the user by email and issues a new session
    /// token, the hex text of `token_bytes`, for that user.
    pub fn complete_login(&mut self, username: String, email: String, token_bytes: &Vec<u8>, now: i64) -> (r: Result<RegisterResponse, Error>)
        requires
            old(self).wf(),
            token_bytes@.len() >= MIN_TOKEN_BYTES,
        ensures
            final(self).wf(),
            ({
                let users_after = upsert(old(self).users_view(), old(self).fresh_id(), username@, email@, now);
                let exhausted = !old(self).users_view().contains_key(email@) && old(self).fresh_id() == i32::MAX;
                let taken = old(self).tokens_view().contains_key(hex_of(token_bytes@));
                &&& exhausted ==> r == Err::<RegisterResponse, Error>(Error::Storage(StorageError::IdsExhausted))
                    && final(self).users_view() == old(self).users_view()
                    && final(self).tokens_view() == old(self).tokens_view()
                &&& !exhausted ==> final(self).users_view() == users_after
                &&& !exhausted && taken ==> r == Err::<RegisterResponse, Error>(Error::Storage(StorageError::DuplicateKey))
                    && final(self).tokens_view() == old(self).tokens_view()
                &&& r is Ok <==> !exhausted && !taken
                &&& r matches Ok(resp) ==> {
                    &&& resp.token@ == hex_of(token_bytes@)
                    &&& final(self).tokens_view() == old(self).tokens_view().insert(
                        resp.token@,
                        AuthToken { user_id: UserId(users_after[email@].id), created_at: now, disabled_at: None },
                    )
                    &&& resolve_account(final(self).users_view(), final(self).tokens_view(), resp.token@)
                        == Some(UserId(users_after[email@].id))
                }
            }),
    {
        let r = complete_login(&mut self.users, &mut self.tokens, username, email, token_bytes, now);
        proof {
            if let Ok(ref resp) = r {
                let id = UserId(self.users@[email@].id);
                assert(self.tokens@.contains_key(resp.token@));
                assert(self.users@.contains_key(email@) && self.users@[email@].id == id.0);
            }
        }
        r
    }
}

/// A token the account store resolves names a user on file; with the store's
/// invariant this is the same answer as the token lookup alone.
pub proof fn lemma_resolved_token_names_user(
    users: Map<Seq<char>, UserView>,
    tokens: Map<Seq<char>, AuthToken>,
    token: Seq<char>,
)
    requires
        tokens_reference_users(users, tokens),
    ensures
        resolve_account(users, tokens, token) == resolve_token(tokens, token),
        resolve_account(users, tokens, token) matches Some(id) ==> user_on_file(users, id),
{
}

} // verus!
