//! Session authentication and editor-activity telemetry: an OAuth2 web broker
//! with PKCE and single-use CSRF state, a device-authorization poller, a bearer
//! token guard, and an activity debouncer, each stated and proved as a pure
//! state-transition core that the surrounding program drives.

pub mod string_map;
pub mod text;
pub mod users;
pub mod tokens;
pub mod error;
pub mod guard;
pub mod ledger;
pub mod events;
pub mod clients;
pub mod debounce;
pub mod device_flow;
pub mod settings;
pub mod broker;
pub mod accounts;
pub mod client_config;
pub mod cli;
