use vstd::prelude::*;
use crate::text::opt_view;

verus! {

/// Backend address a fresh configuration points at.
pub const DEFAULT_BASE_URL: &'static str = "https://localhost";

/// The client's local configuration.
pub struct Config {
    pub base_url: String,
    pub token: Option<String>,
}

impl Config {
    /// The configuration written when none exists yet.
    pub fn initial() -> (c: Self)
        ensures
            c.base_url@ == DEFAULT_BASE_URL@,
            c.token is None,
    {
        Config { base_url: DEFAULT_BASE_URL.to_owned(), token: None }
    }

    /// The configuration written by setup: a backend address and no token.
    pub fn for_backend(base_url: String) -> (c: Self)
        ensures
            c.base_url@ == base_url@,
            c.token is None,
    {
        Config { base_url, token: None }
    }

    /// The same configuration holding a new session token.
    pub fn with_token(self, token: String) -> (c: Self)
        ensures
            c.base_url@ == self.base_url@,
            opt_view(c.token) == Some(token@),
    {
        Config { base_url: self.base_url, token: Some(token) }
    }
}

} // verus!
