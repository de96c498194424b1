//! Channel, relay and start-up state of a Nostr chat client, with the
//! decisions its dialogs and panels take, stated and proved.

pub mod channel_id;
pub mod channels;
pub mod hex;
pub mod keyed;
pub mod pubkey;
pub mod relay_config;
pub mod route;
pub mod startup_config;
pub mod storage;
pub mod text;
pub mod timeline;
pub mod ui;
