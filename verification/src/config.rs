//! The service configuration, constructed once at startup and passed by
//! reference into the components that need it.

use vstd::prelude::*;

verus! {

/// Everything the service is configured with: the store and asset paths,
/// the authorisation codes, the front-end identifiers, and the admin
/// connection's address and credentials.
#[derive(Debug, Clone, PartialEq, Eq)]
pub struct Config {
    pub user_data_path: String,
    pub bn_log_path: String,
    pub valid_code: String,
    pub map_path: String,
    pub map_valid_code: String,
    pub db_path: String,
    pub discord_token: String,
    pub discord_server_id: u64,
    pub discord_report_channel_id: u64,
    pub uid_offset: i32,
    pub bn_server: String,
    pub bn_username: String,
    pub bn_password: String,
}

/// Checks a configuration: the three paths must exist (the caller passes
/// the outcome of those directory checks in), the textual fields must be
/// non-empty, the front-end identifiers positive and the id offset
/// non-negative.
pub fn validate_config(
    config: &Config,
    user_data_path_exists: bool,
    map_path_exists: bool,
    db_path_exists: bool,
) -> (r: bool)
    ensures
        r == (user_data_path_exists && config.bn_log_path@.len() > 0 && config.valid_code@.len()
            > 0 && map_path_exists && config.map_valid_code@.len() > 0 && db_path_exists
            && config.discord_token@.len() > 0 && config.discord_server_id > 0
            && config.discord_report_channel_id > 0 && config.uid_offset >= 0),
{
    if !user_data_path_exists {
        return false;
    }
    if config.bn_log_path.as_str().is_empty() {
        return false;
    }
    if config.valid_code.as_str().is_empty() {
        return false;
    }
    if !map_path_exists {
        return false;
    }
    if config.map_valid_code.as_str().is_empty() {
        return false;
    }
    if !db_path_exists {
        return false;
    }
    if config.discord_token.as_str().is_empty() {
        return false;
    }
    if config.discord_server_id == 0 {
        return false;
    }
    if config.discord_report_channel_id == 0 {
        return false;
    }
    if config.uid_offset < 0 {
        return false;
    }
    true
}

} // verus!
