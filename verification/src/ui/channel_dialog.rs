//! The dialog in which a channel is created or edited.

use vstd::prelude::*;
use vstd::string::*;
use crate::text::{
    chars_of, join, joined, space_flags, split_on, texts, trim, trim_bounds, trimmed,
    whitespace_flags,
};

verus! {

/// The dialog's state: what has been typed, and whether it is open.
#[derive(Debug, Clone)]
pub struct ChannelDialog {
    /// The name typed so far.
    pub name: String,
    /// The hashtags typed so far, separated by commas.
    pub hashtags: String,
    pub is_open: bool,
    /// Whether the name field was given the keyboard since the dialog
    /// opened.
    pub focus_requested: bool,
    /// The index of the channel being edited; none while one is created.
    pub editing_index: Option<usize>,
}

/// What the user asked for when the dialog closed.
#[derive(Debug, Clone, PartialEq, Eq)]
pub enum ChannelDialogAction {
    Create { name: String, hashtags: Vec<String> },
    Edit { index: usize, name: String, hashtags: Vec<String> },
    Cancel,
}

/// A [`ChannelDialog`] as mathematical values.
pub struct ChannelDialogView {
    pub name: Seq<char>,
    pub hashtags: Seq<char>,
    pub is_open: bool,
    pub focus_requested: bool,
    pub editing_index: Option<usize>,
}

/// A [`ChannelDialogAction`] as mathematical values.
pub enum ChannelDialogActionView {
    Create { name: Seq<char>, hashtags: Seq<Seq<char>> },
    Edit { index: usize, name: Seq<char>, hashtags: Seq<Seq<char>> },
    Cancel,
}

impl View for ChannelDialog {
    type V = ChannelDialogView;

    open spec fn view(&self) -> ChannelDialogView {
        ChannelDialogView {
            name: self.name@,
            hashtags: self.hashtags@,
            is_open: self.is_open,
            focus_requested: self.focus_requested,
            editing_index: self.editing_index,
        }
    }
}

impl View for ChannelDialogAction {
    type V = ChannelDialogActionView;

    open spec fn view(&self) -> ChannelDialogActionView {
        match self {
            ChannelDialogAction::Create { name, hashtags } => ChannelDialogActionView::Create {
                name: name@,
                hashtags: texts(hashtags@),
            },
            ChannelDialogAction::Edit { index, name, hashtags } => ChannelDialogActionView::Edit {
                index: *index,
                name: name@,
                hashtags: texts(hashtags@),
            },
            ChannelDialogAction::Cancel => ChannelDialogActionView::Cancel,
        }
    }
}

/// What the user did to the dialog in one frame.
#[derive(Debug, Clone, Copy, PartialEq, Eq)]
pub struct ChannelDialogInput {
    pub escape_pressed: bool,
    pub enter_pressed: bool,
    /// Whether the hashtags field has the keyboard, where Enter starts a new
    /// line.
    pub hashtags_focused: bool,
    /// Whether the button that creates or saves was clicked.
    pub submit_clicked: bool,
    pub cancel_clicked: bool,
}

/// Of the pieces, trimmed, those that are not empty, in order.
pub open spec fn kept_tags(pieces: Seq<Seq<char>>) -> Seq<Seq<char>>
    decreases pieces.len(),
{
    if pieces.len() == 0 {
        Seq::<Seq<char>>::empty()
    } else {
        let before = kept_tags(pieces.drop_last());
        let tag = trimmed(pieces.last());
        if tag.len() > 0 {
            before.push(tag)
        } else {
            before
        }
    }
}

/// The hashtags that a text names: its parts between commas, trimmed, the
/// empty ones left out.
pub open spec fn hashtags_of(text: Seq<char>) -> Seq<Seq<char>> {
    kept_tags(split_on(text, ','))
}

/// The hashtags that a text names.
pub fn parse_hashtags(text: &str) -> (tags: Vec<String>)
    ensures
        texts(tags@) == hashtags_of(text@),
{
    let chars = chars_of(text);
    let spaces = whitespace_flags(&chars);
    let mut tags: Vec<String> = Vec::new();
    let ghost mut done: Seq<Seq<char>> = Seq::empty();
    let mut start: usize = 0;
    let mut i: usize = 0;
    proof {
        assert(chars@.take(0).len() == 0);
        assert(chars@.subrange(0, 0) =~= Seq::<char>::empty());
        assert(seq![Seq::<char>::empty()] =~= done.push(Seq::<char>::empty()));
    }
    while i < chars.len()
        invariant
            chars@ == text@,
            spaces@ == space_flags(chars@),
            start <= i <= chars.len(),
            split_on(chars@.take(i as int), ',') == done.push(
                chars@.subrange(start as int, i as int),
            ),
            texts(tags@) == kept_tags(done),
        decreases chars.len() - i,
    {
        proof {
            let now = chars@.take(i as int + 1);
            assert(now.drop_last() =~= chars@.take(i as int));
            assert(now.last() == chars@[i as int]);
        }
        if chars[i] == ',' {
            let (lo, hi) = trim_bounds(&chars, &spaces, start, i);
            let ghost piece = chars@.subrange(start as int, i as int);
            proof {
                assert(done.push(piece).drop_last() =~= done);
                assert(chars@.subrange(i as int + 1, i as int + 1) =~= Seq::<char>::empty());
            }
            if lo < hi {
                tags.push(text.substring_char(lo, hi).to_owned());
                assert(texts(tags@) =~= kept_tags(done).push(trimmed(piece)));
            }
            proof {
                done = done.push(piece);
            }
            start = i + 1;
        } else {
            proof {
                let piece = chars@.subrange(start as int, i as int);
                assert(done.push(piece).drop_last() =~= done);
                assert(piece.push(chars@[i as int]) =~= chars@.subrange(
                    start as int,
                    i as int + 1,
                ));
            }
        }
        i += 1;
    }
    let (lo, hi) = trim_bounds(&chars, &spaces, start, i);
    let ghost piece = chars@.subrange(start as int, i as int);
    proof {
        assert(chars@.take(i as int) =~= text@);
        assert(done.push(piece).drop_last() =~= done);
    }
    if lo < hi {
        tags.push(text.substring_char(lo, hi).to_owned());
        assert(texts(tags@) =~= kept_tags(done).push(trimmed(piece)));
    }
    tags
}

/// What submitting the dialog asks for: nothing while the name, trimmed, is
/// empty; else that a channel be created, or the one being edited be
/// changed, with the name trimmed and the hashtags that the text names.
pub open spec fn submission(dialog: ChannelDialogView) -> Option<ChannelDialogActionView> {
    if trimmed(dialog.name).len() == 0 {
        None
    } else {
        match dialog.editing_index {
            Some(index) => Some(
                ChannelDialogActionView::Edit {
                    index,
                    name: trimmed(dialog.name),
                    hashtags: hashtags_of(dialog.hashtags),
                },
            ),
            None => Some(
                ChannelDialogActionView::Create {
                    name: trimmed(dialog.name),
                    hashtags: hashtags_of(dialog.hashtags),
                },
            ),
        }
    }
}

/// What the dialog answers to a frame's input. A closed dialog answers
/// nothing. Of several things done in one frame the last of these counts:
/// Escape cancels; Enter outside the hashtags field submits; a click on the
/// submit button submits; a click on the cancel button cancels. Submitting
/// with an empty name does nothing.
pub open spec fn response(
    dialog: ChannelDialogView,
    input: ChannelDialogInput,
) -> Option<ChannelDialogActionView> {
    if !dialog.is_open {
        None
    } else if input.cancel_clicked {
        Some(ChannelDialogActionView::Cancel)
    } else if input.submit_clicked && submission(dialog) is Some {
        submission(dialog)
    } else if input.enter_pressed && !input.hashtags_focused && submission(dialog) is Some {
        submission(dialog)
    } else if input.escape_pressed {
        Some(ChannelDialogActionView::Cancel)
    } else {
        None
    }
}

/// The view of an action, if there is one.
pub open spec fn action_view(action: Option<ChannelDialogAction>) -> Option<
    ChannelDialogActionView,
> {
    match action {
        Some(a) => Some(a@),
        None => None,
    }
}

impl ChannelDialog {
    /// A closed dialog with nothing typed.
    pub fn new() -> (dialog: Self)
        ensures
            dialog@ == (ChannelDialogView {
                name: Seq::<char>::empty(),
                hashtags: Seq::<char>::empty(),
                is_open: false,
                focus_requested: false,
                editing_index: None,
            }),
    {
        ChannelDialog {
            name: String::new(),
            hashtags: String::new(),
            is_open: false,
            focus_requested: false,
            editing_index: None,
        }
    }

    /// Opens the dialog to create a channel: nothing is typed yet.
    pub fn open(&mut self)
        ensures
            final(self)@ == (ChannelDialogView {
                name: Seq::<char>::empty(),
                hashtags: Seq::<char>::empty(),
                is_open: true,
                focus_requested: false,
                editing_index: None,
            }),
    {
        self.is_open = true;
        self.name = String::new();
        self.hashtags = String::new();
        self.focus_requested = false;
        self.editing_index = None;
    }

    /// Opens the dialog to edit the channel at `index`: its name is typed
    /// in, and its hashtags with a comma and a space between them.
    pub fn open_for_edit(&mut self, index: usize, name: String, hashtags: Vec<String>)
        ensures
            final(self)@ == (ChannelDialogView {
                name: name@,
                hashtags: joined(texts(hashtags@), seq![',', ' ']),
                is_open: true,
                focus_requested: false,
                editing_index: Some(index),
            }),
    {
        proof {
            reveal_strlit(", ");
            assert(", "@ =~= seq![',', ' ']);
        }
        self.is_open = true;
        self.name = name;
        self.hashtags = join(&hashtags, ", ");
        self.focus_requested = false;
        self.editing_index = Some(index);
    }

    /// Closes the dialog. What was typed stays until it is opened again.
    pub fn close(&mut self)
        ensures
            final(self)@ == (ChannelDialogView { is_open: false, ..old(self)@ }),
    {
        self.is_open = false;
    }

    /// Whether the dialog edits a channel, rather than creating one.
    pub fn is_editing(&self) -> (editing: bool)
        ensures
            editing == (self@.editing_index is Some),
    {
        self.editing_index.is_some()
    }

    /// Whether the name field is to be given the keyboard now: once after
    /// each opening.
    pub fn take_focus_request(&mut self) -> (focus: bool)
        ensures
            focus == !old(self)@.focus_requested,
            final(self)@ == (ChannelDialogView { focus_requested: true, ..old(self)@ }),
    {
        let focus = !self.focus_requested;
        self.focus_requested = true;
        focus
    }

    /// Whether a name is typed, so that the dialog can be submitted.
    pub fn can_submit(&self) -> (ready: bool)
        ensures
            ready == (submission(self@) is Some),
    {
        !trim(self.name.as_str()).as_str().is_empty()
    }

    /// What submitting the dialog as it stands asks for.
    pub fn submit(&self) -> (action: Option<ChannelDialogAction>)
        ensures
            action_view(action) == submission(self@),
    {
        let name = trim(self.name.as_str());
        if name.as_str().is_empty() {
            return None;
        }
        let hashtags = parse_hashtags(self.hashtags.as_str());
        match self.editing_index {
            Some(index) => Some(ChannelDialogAction::Edit { index, name, hashtags }),
            None => Some(ChannelDialogAction::Create { name, hashtags }),
        }
    }

    /// Answers a frame's input, and closes the dialog where the answer is an
    /// action.
    pub fn respond(&mut self, input: &ChannelDialogInput) -> (action: Option<ChannelDialogAction>)
        ensures
            action_view(action) == response(old(self)@, *input),
            final(self)@ == (ChannelDialogView {
                is_open: old(self)@.is_open && action is None,
                ..old(self)@
            }),
    {
        if !self.is_open {
            return None;
        }
        let mut action: Option<ChannelDialogAction> = None;
        if input.escape_pressed {
            action = Some(ChannelDialogAction::Cancel);
        }
        if input.enter_pressed && !input.hashtags_focused {
            let submitted = self.submit();
            if submitted.is_some() {
                action = submitted;
            }
        }
        if input.submit_clicked {
            let submitted = self.submit();
            if submitted.is_some() {
                action = submitted;
            }
        }
        if input.cancel_clicked {
            action = Some(ChannelDialogAction::Cancel);
        }
        if action.is_some() {
            self.close();
        }
        action
    }
}

impl Default for ChannelDialog {
    fn default() -> (dialog: Self)
        ensures
            dialog@ == (ChannelDialogView {
                name: Seq::<char>::empty(),
                hashtags: Seq::<char>::empty(),
                is_open: false,
                focus_requested: false,
                editing_index: None,
            }),
    {
        ChannelDialog::new()
    }
}

} // verus!
