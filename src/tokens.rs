use vstd::prelude::*;
use crate::string_map::StringMap;
use crate::users::{StorageError, UserId};

verus! {

/// One issued bearer token. Revocation sets `disabled_at`; the row stays.
#[derive(Clone, Copy, Debug, PartialEq, Eq, Structural)]
pub struct AuthToken {
    pub user_id: UserId,
    pub created_at: i64,
    pub disabled_at: Option<i64>,
}

/// The user a token resolves to: only a known token that was never disabled
/// resolves.
pub open spec fn resolve_token(m: Map<Seq<char>, AuthToken>, token: Seq<char>) -> Option<UserId> {
    if m.contains_key(token) && m[token].disabled_at is None {
        Some(m[token].user_id)
    } else {
        None
    }
}

/// The tokens after revoking `token` at `now`; an earlier revocation time is kept.
pub open spec fn disable_token(m: Map<Seq<char>, AuthToken>, token: Seq<char>, now: i64) -> Map<Seq<char>, AuthToken> {
    if m.contains_key(token) && m[token].disabled_at is None {
        m.insert(token, AuthToken { disabled_at: Some(now), ..m[token] })
    } else {
        m
    }
}

/// Bearer tokens by their text. Append-only: a token is never removed and,
/// once disabled, never enabled again.
pub struct TokenStore {
    tokens: StringMap<AuthToken>,
}

impl View for TokenStore {
    type V = Map<Seq<char>, AuthToken>;

    closed spec fn view(&self) -> Map<Seq<char>, AuthToken> {
        self.tokens@
    }
}

impl TokenStore {
    pub closed spec fn wf(&self) -> bool {
        self.tokens.wf()
    }

    pub fn new() -> (s: Self)
        ensures
            s.wf(),
            s@ == Map::<Seq<char>, AuthToken>::empty(),
    {
        TokenStore { tokens: StringMap::new() }
    }

    /// Records a new token for `user_id`, created at `now`. A token text that
    /// is already on file is refused, and nothing changes.
    pub fn create(&mut self, user_id: UserId, token: String, now: i64) -> (r: Result<(), StorageError>)
        requires
            old(self).wf(),
        ensures
            final(self).wf(),
            r is Err <==> old(self)@.contains_key(token@),
            r is Ok ==> final(self)@ == old(self)@.insert(
                token@,
                AuthToken { user_id, created_at: now, disabled_at: None },
            ),
            r matches Err(e) ==> e == StorageError::DuplicateKey && final(self)@ == old(self)@,
    {
        if self.tokens.contains_key(&token) {
            return Err(StorageError::DuplicateKey);
        }
        self.tokens.insert(token, AuthToken { user_id, created_at: now, disabled_at: None });
        Ok(())
    }

    /// Revokes `token` at `now`. Returns whether the token is on file.
    pub fn disable(&mut self, token: &String, now: i64) -> (found: bool)
        requires
            old(self).wf(),
        ensures
            final(self).wf(),
            found == old(self)@.contains_key(token@),
            final(self)@ == disable_token(old(self)@, token@, now),
    {
        match self.tokens.remove(token) {
            Some(row) => {
                let ghost before = old(self)@;
                if row.disabled_at.is_none() {
                    let key = token.clone();
                    self.tokens.insert(key, AuthToken { disabled_at: Some(now), ..row });
                } else {
                    let key = token.clone();
                    self.tokens.insert(key, row);
                }
                assert(self@ =~= disable_token(before, token@, now));
                true
            },
            None => {
                assert(self@ =~= old(self)@);
                false
            },
        }
    }

    /// The user that `token` authenticates, if it is on file and not disabled.
    pub fn find_user_id_from_token(&self, token: &String) -> (r: Option<UserId>)
        requires
            self.wf(),
        ensures
            r == resolve_token(self@, token@),
    {
        match self.tokens.get(token) {
            Some(row) => {
                if row.disabled_at.is_none() {
                    Some(row.user_id)
                } else {
                    None
                }
            },
            None => None,
        }
    }
}

/// An issued token never changes owner or creation time: revoking any token
/// or issuing another one keeps both, and revocation only ever sets
/// `disabled_at`.
pub proof fn lemma_issued_token_is_immutable(
    m: Map<Seq<char>, AuthToken>,
    t: Seq<char>,
    other: Seq<char>,
    now: i64,
    issued: AuthToken,
)
    requires
        m.contains_key(t),
    ensures
        disable_token(m, other, now).contains_key(t),
        disable_token(m, other, now)[t].user_id == m[t].user_id,
        disable_token(m, other, now)[t].created_at == m[t].created_at,
        m[t].disabled_at is Some ==> disable_token(m, other, now)[t] == m[t],
        !m.contains_key(other) ==> m.insert(other, issued)[t] == m[t],
{
}

} // verus!
