//! The dialog in which a relay is added.

use vstd::prelude::*;
use vstd::string::*;
use crate::text::{trim, trimmed};

verus! {

/// The dialog's state: the address typed, and whether it is open.
#[derive(Debug, Clone)]
pub struct RelayDialog {
    /// The address typed so far.
    pub relay_url: String,
    pub is_open: bool,
    /// Whether the address field was given the keyboard since the dialog
    /// opened.
    pub focus_requested: bool,
}

/// What the user asked for when the dialog closed.
#[derive(Debug, Clone, PartialEq, Eq)]
pub enum RelayDialogAction {
    Add { url: String },
    Cancel,
}

/// A [`RelayDialog`] as mathematical values.
pub struct RelayDialogView {
    pub relay_url: Seq<char>,
    pub is_open: bool,
    pub focus_requested: bool,
}

/// A [`RelayDialogAction`] as mathematical values.
pub enum RelayDialogActionView {
    Add { url: Seq<char> },
    Cancel,
}

impl View for RelayDialog {
    type V = RelayDialogView;

    open spec fn view(&self) -> RelayDialogView {
        RelayDialogView {
            relay_url: self.relay_url@,
            is_open: self.is_open,
            focus_requested: self.focus_requested,
        }
    }
}

impl View for RelayDialogAction {
    type V = RelayDialogActionView;

    open spec fn view(&self) -> RelayDialogActionView {
        match self {
            RelayDialogAction::Add { url } => RelayDialogActionView::Add { url: url@ },
            RelayDialogAction::Cancel => RelayDialogActionView::Cancel,
        }
    }
}

/// What the user did to the dialog in one frame.
#[derive(Debug, Clone, Copy, PartialEq, Eq)]
pub struct RelayDialogInput {
    pub escape_pressed: bool,
    pub enter_pressed: bool,
    /// Whether the button that adds was clicked.
    pub add_clicked: bool,
    pub cancel_clicked: bool,
}

/// What the dialog answers to a frame's input. A closed dialog answers
/// nothing. Of several things done in one frame the last of these counts:
/// Escape cancels; Enter adds; a click on the add button adds; a click on
/// the cancel button cancels. The address is added trimmed, and nothing is
/// added while it is empty.
pub open spec fn response(dialog: RelayDialogView, input: RelayDialogInput) -> Option<
    RelayDialogActionView,
> {
    let url = trimmed(dialog.relay_url);
    if !dialog.is_open {
        None
    } else if input.cancel_clicked {
        Some(RelayDialogActionView::Cancel)
    } else if (input.add_clicked || input.enter_pressed) && url.len() > 0 {
        Some(RelayDialogActionView::Add { url })
    } else if input.escape_pressed {
        Some(RelayDialogActionView::Cancel)
    } else {
        None
    }
}

/// The view of an action, if there is one.
pub open spec fn action_view(action: Option<RelayDialogAction>) -> Option<RelayDialogActionView> {
    match action {
        Some(a) => Some(a@),
        None => None,
    }
}

impl RelayDialog {
    /// A closed dialog with nothing typed.
    pub fn new() -> (dialog: Self)
        ensures
            dialog@ == (RelayDialogView {
                relay_url: Seq::<char>::empty(),
                is_open: false,
                focus_requested: false,
            }),
    {
        RelayDialog { relay_url: String::new(), is_open: false, focus_requested: false }
    }

    /// Opens the dialog: nothing is typed yet.
    pub fn open(&mut self)
        ensures
            final(self)@ == (RelayDialogView {
                relay_url: Seq::<char>::empty(),
                is_open: true,
                focus_requested: false,
            }),
    {
        self.is_open = true;
        self.relay_url = String::new();
        self.focus_requested = false;
    }

    /// Closes the dialog. What was typed stays until it is opened again.
    pub fn close(&mut self)
        ensures
            final(self)@ == (RelayDialogView { is_open: false, ..old(self)@ }),
    {
        self.is_open = false;
    }

    /// Whether the address field is to be given the keyboard now: once after
    /// each opening.
    pub fn take_focus_request(&mut self) -> (focus: bool)
        ensures
            focus == !old(self)@.focus_requested,
            final(self)@ == (RelayDialogView { focus_requested: true, ..old(self)@ }),
    {
        let focus = !self.focus_requested;
        self.focus_requested = true;
        focus
    }

    /// Whether an address is typed, so that it can be added.
    pub fn can_add(&self) -> (ready: bool)
        ensures
            ready == (trimmed(self@.relay_url).len() > 0),
    {
        !trim(self.relay_url.as_str()).as_str().is_empty()
    }

    /// Answers a frame's input, and closes the dialog where the answer is an
    /// action.
    pub fn respond(&mut self, input: &RelayDialogInput) -> (action: Option<RelayDialogAction>)
        ensures
            action_view(action) == response(old(self)@, *input),
            final(self)@ == (RelayDialogView {
                is_open: old(self)@.is_open && action is None,
                ..old(self)@
            }),
    {
        if !self.is_open {
            return None;
        }
        let mut action: Option<RelayDialogAction> = None;
        if input.escape_pressed {
            action = Some(RelayDialogAction::Cancel);
        }
        if input.enter_pressed || input.add_clicked {
            let url = trim(self.relay_url.as_str());
            if !url.as_str().is_empty() {
                action = Some(RelayDialogAction::Add { url });
            }
        }
        if input.cancel_clicked {
            action = Some(RelayDialogAction::Cancel);
        }
        if action.is_some() {
            self.close();
        }
        action
    }
}

impl Default for RelayDialog {
    fn default() -> (dialog: Self)
        ensures
            dialog@ == (RelayDialogView {
                relay_url: Seq::<char>::empty(),
                is_open: false,
                focus_requested: false,
            }),
    {
        RelayDialog::new()
    }
}

} // verus!
