//! Application configuration, as plain data.
//!
//! The values are read from a configuration file outside this crate and
//! handed in as plain strings and integers.
use vstd::prelude::*;

verus! {

/// Application configuration, split into sections mirroring the
/// configuration file.
pub struct Config {
    pub app: AppConfig,
    pub debug: DebugConfig,
    pub server: ServerConfig,
    pub database: DatabaseConfig,
}

pub struct AppConfig {
    /// The email address of the user who can administrate the hackathon.
    pub admin_email: String,
    /// The suffix to remove from user emails when listing them.
    pub email_suffix: String,
    /// The maximum number of teams that a user can create.
    pub max_teams_per_creator: u32,
    /// The number of coins that every user can spend on votes.
    pub coins_to_spend: u32,
}

pub struct DebugConfig {
    /// Fallback identity assumed when no authentication header is present.
    /// Meant for local development only.
    pub unsafe_default_email: Option<String>,
}

pub struct ServerConfig {
    /// The interface address and port to listen on.
    pub listen: String,
    /// The url prefix, in case the app is not hosted at the root of a domain.
    pub prefix: String,
    /// The number of request handler threads to start.
    pub num_threads: u32,
}

pub struct DatabaseConfig {
    /// Path to the database file.
    pub path: String,
}

} // verus!
