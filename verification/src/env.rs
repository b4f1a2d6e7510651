//! The bot's environment: the configuration the commands and tasks read.
use vstd::prelude::*;

verus! {

/// The configuration that the commands and tasks read.
pub struct BotEnv {
    /// The name of the role that timed-out members get, where one is configured.
    pub timed_out_role: Option<String>,
    /// The role groups: a tag replaces a member's roles of these groups.
    pub role_groups: Vec<Vec<String>>,
    /// The key for the FF Logs API.
    pub fflogs_api_key: String,
}

} // verus!
