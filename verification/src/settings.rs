//! Configuration as the sweep consumes it. Loading and layering the values
//! (files, environment) is the caller's concern; the sweep only reads them.

use vstd::prelude::*;
use std::collections::HashSet;

verus! {

/// The chat-service section of the configuration.
#[derive(Debug)]
pub struct ChatworkSettings {
    /// Token for the fixed authentication header of every API call.
    pub api_token: String,
    /// Account identifiers whose mentions must not be silently acknowledged.
    pub exclude_account_ids: Vec<String>,
    /// Rooms the operator excluded from the sweep.
    pub exclude_room_ids: HashSet<i32>,
}

/// The whole configuration of the sweeper.
#[derive(Debug)]
pub struct Settings {
    /// Chat-service related settings.
    pub chatwork: ChatworkSettings,
}

} // verus!
