//! What the dialogs and panels of the client hold, and what they decide in
//! answer to what the user does. Drawing them is left to the application.

pub mod channel_dialog;
pub mod channel_sidebar;
pub mod channel_switcher;
pub mod chat_view;
pub mod relay_dialog;
pub mod side_panel;
pub mod thread_panel;
