use vstd::prelude::*;
use crate::error::Error;
use crate::tokens::{resolve_token, disable_token, AuthToken, TokenStore};
use crate::users::UserId;

verus! {

/// The identity attached to a request once its bearer token resolved.
#[derive(Clone, Copy, Debug, PartialEq, Eq, Structural)]
pub struct AuthUser {
    pub id: UserId,
}

/// What the guard answers for a request that carried `bearer` (or none).
pub open spec fn guard_outcome(m: Map<Seq<char>, AuthToken>, bearer: Option<Seq<char>>) -> Result<AuthUser, Error> {
    match bearer {
        None => Err(Error::Unauthenticated),
        Some(t) => match resolve_token(m, t) {
            Some(id) => Ok(AuthUser { id }),
            None => Err(Error::Unauthenticated),
        },
    }
}

impl AuthUser {
    /// Resolves a bearer token to its user; unknown and disabled tokens give
    /// the same error.
    pub fn from_authorization(store: &TokenStore, token: &String) -> (r: Result<AuthUser, Error>)
        requires
            store.wf(),
        ensures
            r == guard_outcome(store@, Some(token@)),
    {
        match store.find_user_id_from_token(token) {
            Some(id) => Ok(AuthUser { id }),
            None => Err(Error::Unauthenticated),
        }
    }

    /// Resolves the bearer token a request carried, if it carried one.
    pub fn from_bearer(store: &TokenStore, bearer: Option<&String>) -> (r: Result<AuthUser, Error>)
        requires
            store.wf(),
        ensures
            r == guard_outcome(store@, match bearer { Some(t) => Some(t@), None => None }),
    {
        match bearer {
            Some(t) => Self::from_authorization(store, t),
            None => Err(Error::Unauthenticated),
        }
    }
}

/// A disabled token is refused, with the very answer an unknown token gets.
pub proof fn lemma_disabled_token_is_refused(m: Map<Seq<char>, AuthToken>, t: Seq<char>)
    requires
        m.contains_key(t),
        m[t].disabled_at is Some,
    ensures
        guard_outcome(m, Some(t)) == Err::<AuthUser, Error>(Error::Unauthenticated),
        guard_outcome(m, Some(t)) == guard_outcome(m.remove(t), Some(t)),
        guard_outcome(m, Some(t)) == guard_outcome(m, None),
{
}

/// Once a token is disabled it stays refused: revoking any token, or issuing
/// any new one, leaves it disabled.
pub proof fn lemma_disabled_token_stays_refused(
    m: Map<Seq<char>, AuthToken>,
    t: Seq<char>,
    other: Seq<char>,
    now: i64,
    issued: AuthToken,
)
    requires
        m.contains_key(t),
        m[t].disabled_at is Some,
    ensures
        disable_token(m, other, now).contains_key(t),
        disable_token(m, other, now)[t].disabled_at is Some,
        guard_outcome(disable_token(m, other, now), Some(t)) == Err::<AuthUser, Error>(Error::Unauthenticated),
        !m.contains_key(other) ==> m.insert(other, issued)[t].disabled_at is Some,
        !m.contains_key(other) ==> guard_outcome(m.insert(other, issued), Some(t))
            == Err::<AuthUser, Error>(Error::Unauthenticated),
{
}

/// Revoking a token that is on file makes the guard refuse it.
pub proof fn lemma_disable_refuses(m: Map<Seq<char>, AuthToken>, t: Seq<char>, now: i64)
    requires
        m.contains_key(t),
    ensures
        disable_token(m, t, now)[t].disabled_at is Some,
        guard_outcome(disable_token(m, t, now), Some(t)) == Err::<AuthUser, Error>(Error::Unauthenticated),
{
}

} // verus!
