//! The quick switcher: a search field over the channels of the account in
//! use, steered by the keyboard.

use vstd::prelude::*;
use vstd::string::*;
use crate::channels::{ChannelList, ChannelListView};
use crate::text::{contains, lowercase, occurs_in, to_lowercase};

verus! {

/// The switcher's state.
#[derive(Debug, Clone)]
pub struct ChannelSwitcher {
    pub is_open: bool,
    /// What has been typed into the search field.
    pub search_query: String,
    /// The row that the keyboard or the pointer has marked, counted among
    /// the rows shown.
    pub selected_index: usize,
}

/// What the user asked of the switcher.
#[derive(Debug, Clone, Copy, PartialEq, Eq)]
pub enum ChannelSwitcherAction {
    /// Switch to the channel at this index of the list.
    SelectChannel(usize),
    Close,
}

/// A [`ChannelSwitcher`] as mathematical values.
pub struct ChannelSwitcherView {
    pub is_open: bool,
    pub search_query: Seq<char>,
    pub selected_index: usize,
}

impl View for ChannelSwitcher {
    type V = ChannelSwitcherView;

    open spec fn view(&self) -> ChannelSwitcherView {
        ChannelSwitcherView {
            is_open: self.is_open,
            search_query: self.search_query@,
            selected_index: self.selected_index,
        }
    }
}

/// What the user did with the keyboard, or beside the switcher, in one
/// frame.
#[derive(Debug, Clone, Copy, PartialEq, Eq)]
pub struct SwitcherKeys {
    /// Whether the dimmed area around the switcher was clicked.
    pub overlay_clicked: bool,
    pub escape_pressed: bool,
    pub arrow_down_pressed: bool,
    pub arrow_up_pressed: bool,
    pub enter_pressed: bool,
}

/// How a row of the switcher is drawn.
#[derive(Debug, Clone, Copy, PartialEq, Eq)]
pub enum RowHighlight {
    /// The row that the keyboard or the pointer has marked.
    Marked,
    /// The row of the channel that is selected in the list.
    Current,
    Plain,
}

/// Whether a channel is shown for a query, given both in lower case: the
/// empty query shows every channel, another one those whose name holds it.
pub open spec fn lowered_name_matches(lowered_name: Seq<char>, lowered_query: Seq<char>) -> bool {
    lowered_query.len() == 0 || occurs_in(lowered_query, lowered_name)
}

/// Whether a channel of this name is shown for a query, letter case set
/// aside.
pub open spec fn name_matches(name: Seq<char>, query: Seq<char>) -> bool {
    lowered_name_matches(lowercase(name), lowercase(query))
}

/// The indices of the first `count` channels that are shown for the query,
/// in order.
pub open spec fn shown_among(list: ChannelListView, query: Seq<char>, count: int) -> Seq<usize>
    decreases count,
{
    if count <= 0 {
        Seq::<usize>::empty()
    } else {
        let before = shown_among(list, query, count - 1);
        if name_matches(list.channels[count - 1].name, query) {
            before.push((count - 1) as usize)
        } else {
            before
        }
    }
}

/// The indices of the channels that are shown for the query, in order.
pub open spec fn shown_channels(list: ChannelListView, query: Seq<char>) -> Seq<usize> {
    shown_among(list, query, list.channels.len() as int)
}

/// `n - 1`, or 0 where `n` is 0.
pub open spec fn one_less(n: usize) -> usize {
    if n == 0 {
        0
    } else {
        (n - 1) as usize
    }
}

/// The marked row after the arrow keys of a frame: down moves it on unless
/// it is at the last of `count` channels, then up moves it back unless it is
/// at the first.
pub open spec fn index_after_keys(selected: usize, keys: SwitcherKeys, count: usize) -> usize {
    let down = if keys.arrow_down_pressed && selected < one_less(count) {
        (selected + 1) as usize
    } else {
        selected
    };
    if keys.arrow_up_pressed {
        one_less(down)
    } else {
        down
    }
}

/// What the keys of a frame ask for: Enter the channel at the marked row,
/// as the arrows of the same frame left it; else Escape, or a click beside
/// the switcher, that it be closed.
pub open spec fn action_after_keys(selected: usize, keys: SwitcherKeys, count: usize) -> Option<
    ChannelSwitcherAction,
> {
    if keys.enter_pressed {
        Some(ChannelSwitcherAction::SelectChannel(index_after_keys(selected, keys, count)))
    } else if keys.escape_pressed || keys.overlay_clicked {
        Some(ChannelSwitcherAction::Close)
    } else {
        None
    }
}

/// Whether a channel is shown for a query, given both in lower case.
pub fn matches_lowered(lowered_name: &str, lowered_query: &str) -> (shown: bool)
    ensures
        shown == lowered_name_matches(lowered_name@, lowered_query@),
{
    lowered_query.is_empty() || contains(lowered_name, lowered_query)
}

impl ChannelSwitcher {
    /// A closed switcher with nothing typed.
    pub fn new() -> (switcher: Self)
        ensures
            switcher@ == (ChannelSwitcherView {
                is_open: false,
                search_query: Seq::<char>::empty(),
                selected_index: 0,
            }),
    {
        ChannelSwitcher { is_open: false, search_query: String::new(), selected_index: 0 }
    }

    /// Opens the switcher: nothing is typed and the first row is marked.
    pub fn open(&mut self)
        ensures
            final(self)@ == (ChannelSwitcherView {
                is_open: true,
                search_query: Seq::<char>::empty(),
                selected_index: 0,
            }),
    {
        self.is_open = true;
        self.search_query = String::new();
        self.selected_index = 0;
    }

    /// Closes the switcher.
    pub fn close(&mut self)
        ensures
            final(self)@ == (ChannelSwitcherView { is_open: false, ..old(self)@ }),
    {
        self.is_open = false;
    }

    /// The indices of the channels that are shown for what is typed, in
    /// order.
    pub fn visible_channels(&self, channels: &ChannelList) -> (shown: Vec<usize>)
        ensures
            shown@ == shown_channels(channels@, self@.search_query),
    {
        let query = to_lowercase(self.search_query.as_str());
        let mut shown: Vec<usize> = Vec::new();
        let mut i: usize = 0;
        while i < channels.channels.len()
            invariant
                i <= channels.channels.len(),
                query@ == lowercase(self@.search_query),
                shown@ == shown_among(channels@, self@.search_query, i as int),
            decreases channels.channels.len() - i,
        {
            let name = to_lowercase(channels.channels[i].name.as_str());
            assert(channels@.channels[i as int].name == channels.channels@[i as int].name@);
            if matches_lowered(name.as_str(), query.as_str()) {
                shown.push(i);
            }
            i += 1;
        }
        shown
    }

    /// Whether to say that no channel was found: something is typed and no
    /// row is shown for it.
    pub fn nothing_found(&self, rows_shown: usize) -> (nothing: bool)
        ensures
            nothing == (rows_shown == 0 && lowercase(self@.search_query).len() > 0),
    {
        rows_shown == 0 && !to_lowercase(self.search_query.as_str()).as_str().is_empty()
    }

    /// Takes in the keys of a frame: moves the marked row and says what they
    /// ask for. A closed switcher takes in nothing.
    pub fn handle_keys(&mut self, keys: &SwitcherKeys, num_channels: usize) -> (action: Option<
        ChannelSwitcherAction,
    >)
        ensures
            final(self)@ == if old(self)@.is_open {
                ChannelSwitcherView {
                    selected_index: index_after_keys(
                        old(self)@.selected_index,
                        *keys,
                        num_channels,
                    ),
                    ..old(self)@
                }
            } else {
                old(self)@
            },
            action == if old(self)@.is_open {
                action_after_keys(old(self)@.selected_index, *keys, num_channels)
            } else {
                None
            },
    {
        if !self.is_open {
            return None;
        }
        let mut action: Option<ChannelSwitcherAction> = None;
        if keys.overlay_clicked {
            action = Some(ChannelSwitcherAction::Close);
        }
        if keys.escape_pressed {
            action = Some(ChannelSwitcherAction::Close);
        }
        if keys.arrow_down_pressed {
            if self.selected_index < num_channels.saturating_sub(1) {
                self.selected_index += 1;
            }
        }
        if keys.arrow_up_pressed {
            self.selected_index = self.selected_index.saturating_sub(1);
        }
        if keys.enter_pressed {
            action = Some(ChannelSwitcherAction::SelectChannel(self.selected_index));
        }
        action
    }

    /// How the row at `position` among the rows shown is drawn, which stands
    /// for the channel at index `channel` of a list whose selected channel
    /// is at index `current`.
    pub fn row_highlight(&self, position: usize, channel: usize, current: usize) -> (highlight:
        RowHighlight)
        ensures
            highlight == if position == self@.selected_index {
                RowHighlight::Marked
            } else if channel == current {
                RowHighlight::Current
            } else {
                RowHighlight::Plain
            },
    {
        if position == self.selected_index {
            RowHighlight::Marked
        } else if channel == current {
            RowHighlight::Current
        } else {
            RowHighlight::Plain
        }
    }

    /// Takes in what the pointer did to the row at `position`, which stands
    /// for the channel at index `channel`: a click asks for that channel,
    /// whatever was asked before in this frame; a pointer over the row marks
    /// it.
    pub fn handle_row(
        &mut self,
        position: usize,
        channel: usize,
        clicked: bool,
        hovered: bool,
        pending: Option<ChannelSwitcherAction>,
    ) -> (action: Option<ChannelSwitcherAction>)
        ensures
            action == if clicked {
                Some(ChannelSwitcherAction::SelectChannel(channel))
            } else {
                pending
            },
            final(self)@ == (ChannelSwitcherView {
                selected_index: if hovered {
                    position
                } else {
                    old(self)@.selected_index
                },
                ..old(self)@
            }),
    {
        if hovered {
            self.selected_index = position;
        }
        if clicked {
            Some(ChannelSwitcherAction::SelectChannel(channel))
        } else {
            pending
        }
    }

    /// Ends a frame: the switcher closes where something was asked for.
    pub fn finish(&mut self, action: Option<ChannelSwitcherAction>) -> (result: Option<
        ChannelSwitcherAction,
    >)
        ensures
            result == action,
            final(self)@ == (ChannelSwitcherView {
                is_open: old(self)@.is_open && action is None,
                ..old(self)@
            }),
    {
        if action.is_some() {
            self.close();
        }
        action
    }
}

impl Default for ChannelSwitcher {
    fn default() -> (switcher: Self)
        ensures
            switcher@ == (ChannelSwitcherView {
                is_open: false,
                search_query: Seq::<char>::empty(),
                selected_index: 0,
            }),
    {
        ChannelSwitcher::new()
    }
}

} // verus!
