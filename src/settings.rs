use vstd::prelude::*;

verus! {

/// Settings of the backend server.
pub struct Config {
    pub database_url: String,
    pub database_max_connections: u32,
    pub port: u16,
    pub github_client_id: String,
    pub github_client_secret: String,
}

} // verus!
