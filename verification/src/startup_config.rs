//! Values a user may place in a file to be read once when the client starts.

use vstd::prelude::*;

verus! {

/// The start-up choices: at most one relay to connect to and at most one
/// private key from which to create the account.
#[derive(Debug, Clone)]
pub struct StartupConfig {
    /// Address of the single relay to connect to, such as `wss://relay.damus.io`.
    pub relay: Option<String>,
    /// Private key in `nsec` form.
    pub nsec: Option<String>,
}

/// What a [`StartupConfig`] holds, as mathematical values.
pub struct StartupConfigView {
    pub relay: Option<Seq<char>>,
    pub nsec: Option<Seq<char>>,
}

/// The text of an optional string, if there is one.
pub open spec fn option_text(s: Option<String>) -> Option<Seq<char>> {
    match s {
        Some(t) => Some(t@),
        None => None,
    }
}

impl View for StartupConfig {
    type V = StartupConfigView;

    open spec fn view(&self) -> StartupConfigView {
        StartupConfigView { relay: option_text(self.relay), nsec: option_text(self.nsec) }
    }
}

impl StartupConfig {
    /// A configuration that names neither a relay nor a key.
    pub fn new() -> (config: Self)
        ensures
            config@ == (StartupConfigView { relay: None, nsec: None }),
    {
        StartupConfig { relay: None, nsec: None }
    }

    /// The same configuration with its relay replaced by `relay`.
    pub fn with_relay(self, relay: String) -> (config: Self)
        ensures
            config@ == (StartupConfigView { relay: Some(relay@), nsec: self@.nsec }),
    {
        let mut config = self;
        config.relay = Some(relay);
        config
    }

    /// The same configuration with its key replaced by `nsec`.
    pub fn with_nsec(self, nsec: String) -> (config: Self)
        ensures
            config@ == (StartupConfigView { relay: self@.relay, nsec: Some(nsec@) }),
    {
        let mut config = self;
        config.nsec = Some(nsec);
        config
    }

    /// Whether the configuration names a relay or a key.
    pub fn is_configured(&self) -> (configured: bool)
        ensures
            configured == (self@.relay is Some || self@.nsec is Some),
    {
        self.relay.is_some() || self.nsec.is_some()
    }
}

impl Default for StartupConfig {
    fn default() -> (config: Self)
        ensures
            config@ == (StartupConfigView { relay: None, nsec: None }),
    {
        StartupConfig::new()
    }
}

} // verus!
