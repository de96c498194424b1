//! The sidebar that lists the channels of the account in use.

use vstd::prelude::*;
use vstd::string::*;
use crate::text::{decimal, decimal_string};

verus! {

/// What the user asked of the sidebar.
#[derive(Debug, Eq, PartialEq, Clone, Copy)]
pub enum ChannelSidebarAction {
    SelectChannel(usize),
    AddChannel,
    DeleteChannel(usize),
    EditChannel(usize),
}

/// What the user asked of one channel's row.
#[derive(Debug, Eq, PartialEq, Clone, Copy)]
pub enum ChannelItemResponse {
    Select,
    Delete,
    Edit,
    Nothing,
}

/// What the user did to one channel's row in one frame.
#[derive(Debug, Eq, PartialEq, Clone, Copy)]
pub struct ChannelItemInput {
    /// Whether the row was clicked.
    pub clicked: bool,
    /// Whether the menu entry that edits was clicked.
    pub edit_clicked: bool,
    /// Whether the menu entry that deletes was clicked.
    pub delete_clicked: bool,
}

/// The text `99+`, which stands for any number above 99.
pub open spec fn many() -> Seq<char> {
    seq!['9', '9', '+']
}

/// What the badge of a channel says: nothing while nothing is unread, the
/// number of unread notes up to 99, and `99+` above.
pub open spec fn badge_text(unread_count: nat) -> Option<Seq<char>> {
    if unread_count == 0 {
        None
    } else if unread_count > 99 {
        Some(many())
    } else {
        Some(decimal(unread_count))
    }
}

/// What the badge of a channel says.
pub fn unread_badge(unread_count: usize) -> (badge: Option<String>)
    ensures
        match badge {
            Some(text) => badge_text(unread_count as nat) == Some(text@),
            None => badge_text(unread_count as nat) is None,
        },
{
    if unread_count == 0 {
        None
    } else if unread_count > 99 {
        proof {
            reveal_strlit("99+");
            assert("99+"@ =~= many());
        }
        Some("99+".to_owned())
    } else {
        Some(decimal_string(unread_count as u64))
    }
}

/// Whether a channel can be deleted from a list of `total_channels`: the
/// last one cannot.
pub fn can_delete(total_channels: usize) -> (allowed: bool)
    ensures
        allowed == (total_channels > 1),
{
    total_channels > 1
}

/// What a frame's input asks of a row. Of several things done in one frame
/// the last of these counts: a click on the row selects; the menu entry that
/// edits; the menu entry that deletes, which the last channel of a list does
/// not have.
pub open spec fn item_response(input: ChannelItemInput, total_channels: usize) -> ChannelItemResponse {
    if input.delete_clicked && total_channels > 1 {
        ChannelItemResponse::Delete
    } else if input.edit_clicked {
        ChannelItemResponse::Edit
    } else if input.clicked {
        ChannelItemResponse::Select
    } else {
        ChannelItemResponse::Nothing
    }
}

/// What a frame's input asks of a row.
pub fn channel_item(input: &ChannelItemInput, total_channels: usize) -> (response:
    ChannelItemResponse)
    ensures
        response == item_response(*input, total_channels),
{
    let mut response = ChannelItemResponse::Nothing;
    if input.clicked {
        response = ChannelItemResponse::Select;
    }
    if input.edit_clicked {
        response = ChannelItemResponse::Edit;
    }
    if can_delete(total_channels) && input.delete_clicked {
        response = ChannelItemResponse::Delete;
    }
    response
}

/// What is asked of the channel at `index` by its row's response.
pub open spec fn item_action(index: usize, response: ChannelItemResponse) -> Option<
    ChannelSidebarAction,
> {
    match response {
        ChannelItemResponse::Select => Some(ChannelSidebarAction::SelectChannel(index)),
        ChannelItemResponse::Delete => Some(ChannelSidebarAction::DeleteChannel(index)),
        ChannelItemResponse::Edit => Some(ChannelSidebarAction::EditChannel(index)),
        ChannelItemResponse::Nothing => None,
    }
}

/// What the first `count` rows ask for: what the last of them that asks for
/// anything asks.
pub open spec fn rows_action(responses: Seq<ChannelItemResponse>, count: int) -> Option<
    ChannelSidebarAction,
>
    decreases count,
{
    if count <= 0 {
        None
    } else if responses[count - 1] != ChannelItemResponse::Nothing {
        item_action((count - 1) as usize, responses[count - 1])
    } else {
        rows_action(responses, count - 1)
    }
}

/// What a frame asks of the sidebar: what its rows ask, or else, where the
/// button below them was clicked, that a channel be added.
pub open spec fn sidebar_action(responses: Seq<ChannelItemResponse>, add_clicked: bool) -> Option<
    ChannelSidebarAction,
> {
    if rows_action(responses, responses.len() as int) is Some {
        rows_action(responses, responses.len() as int)
    } else if add_clicked {
        Some(ChannelSidebarAction::AddChannel)
    } else {
        None
    }
}

/// What a frame asks of the sidebar, given the response of each channel's
/// row, in the order of the channels, and whether the button that adds a
/// channel was clicked.
pub fn sidebar_response(responses: &Vec<ChannelItemResponse>, add_clicked: bool) -> (action: Option<
    ChannelSidebarAction,
>)
    ensures
        action == sidebar_action(responses@, add_clicked),
{
    let mut selected: Option<ChannelSidebarAction> = None;
    let mut i: usize = 0;
    while i < responses.len()
        invariant
            i <= responses.len(),
            selected == rows_action(responses@, i as int),
        decreases responses.len() - i,
    {
        match responses[i] {
            ChannelItemResponse::Select => {
                selected = Some(ChannelSidebarAction::SelectChannel(i));
            },
            ChannelItemResponse::Delete => {
                selected = Some(ChannelSidebarAction::DeleteChannel(i));
            },
            ChannelItemResponse::Edit => {
                selected = Some(ChannelSidebarAction::EditChannel(i));
            },
            ChannelItemResponse::Nothing => {},
        }
        i += 1;
    }
    if selected.is_some() {
        selected
    } else if add_clicked {
        Some(ChannelSidebarAction::AddChannel)
    } else {
        None
    }
}

} // verus!
