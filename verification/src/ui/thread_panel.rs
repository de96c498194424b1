//! The panel at the side of the window that shows one thread.

use vstd::prelude::*;

verus! {

/// The panel's state: whether it is open, and on which thread.
#[derive(Debug, Clone)]
pub struct ThreadPanel {
    pub is_open: bool,
    /// The identifier of the note whose thread is shown.
    pub selected_thread_id: Option<[u8; 32]>,
}

/// What the user asked of the panel.
#[derive(Debug, Clone, Copy, PartialEq, Eq)]
pub enum ThreadPanelAction {
    Close,
}

impl ThreadPanel {
    /// A closed panel on no thread.
    pub fn new() -> (panel: Self)
        ensures
            !panel.is_open,
            panel.selected_thread_id is None,
    {
        ThreadPanel { is_open: false, selected_thread_id: None }
    }

    /// Opens the panel on a thread.
    pub fn open(&mut self, thread_id: [u8; 32])
        ensures
            final(self).is_open,
            final(self).selected_thread_id == Some(thread_id),
    {
        self.is_open = true;
        self.selected_thread_id = Some(thread_id);
    }

    /// Closes the panel. The thread stays selected.
    pub fn close(&mut self)
        ensures
            !final(self).is_open,
            final(self).selected_thread_id == old(self).selected_thread_id,
    {
        self.is_open = false;
    }

    /// Whether the panel is drawn: it is open and a thread is selected.
    pub fn is_shown(&self) -> (shown: bool)
        ensures
            shown == (self.is_open && self.selected_thread_id is Some),
    {
        self.is_open && self.selected_thread_id.is_some()
    }

    /// What the panel answers to a frame's input: a panel that is drawn is
    /// asked to close by a click beside it or on its close button. The
    /// panel does not close itself.
    pub fn respond(&self, overlay_clicked: bool, close_clicked: bool) -> (action: Option<
        ThreadPanelAction,
    >)
        ensures
            action == if self.is_open && self.selected_thread_id is Some && (overlay_clicked
                || close_clicked) {
                Some(ThreadPanelAction::Close)
            } else {
                None
            },
    {
        if self.is_shown() && (overlay_clicked || close_clicked) {
            Some(ThreadPanelAction::Close)
        } else {
            None
        }
    }
}

impl Default for ThreadPanel {
    fn default() -> (panel: Self)
        ensures
            !panel.is_open,
            panel.selected_thread_id is None,
    {
        ThreadPanel::new()
    }
}

} // verus!
