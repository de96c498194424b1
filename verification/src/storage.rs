//! The forms in which the client's state is kept in its settings files.

use vstd::prelude::*;

pub mod channels;

verus! {

/// The settings file of the channel lists of all accounts.
pub const CHANNELS_CACHE_FILE: &'static str = "channels_cache.json";

/// The settings file of the relays.
pub const RELAY_CONFIG_FILE: &'static str = "relay_config.json";

/// The settings file that a user may write by hand for the client to read
/// when it starts.
pub const STARTUP_CONFIG_FILE: &'static str = "startup_config.json";

} // verus!
