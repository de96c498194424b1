//! The rail of buttons at the side of the window.

use vstd::prelude::*;
use crate::route::{Route, RouteView, Router};

verus! {

/// What a button of the rail asks for.
#[derive(Debug, Eq, PartialEq, Clone, Copy)]
pub enum SidePanelAction {
    Columns,
    ComposeNote,
    Search,
    ExpandSidePanel,
    Wallet,
    Account,
    Settings,
}

/// The buttons of the rail, from top to bottom.
#[derive(Debug, Eq, PartialEq, Clone, Copy)]
pub enum SidePanelButton {
    UserAccount,
    AddAccount,
    Relays,
    ComposeNote,
    Search,
    AddColumn,
}

/// Which buttons of the rail were clicked in one frame.
#[derive(Debug, Eq, PartialEq, Clone, Copy)]
pub struct SidePanelClicks {
    pub user_account: bool,
    pub add_account: bool,
    pub relays: bool,
    pub compose_note: bool,
    pub search: bool,
    pub add_column: bool,
}

/// What is to be done to the stack of views of the column in use.
#[derive(Debug, Clone, PartialEq, Eq)]
pub enum Navigation {
    /// Leave the view on top.
    GoBack,
    /// Put this view on top.
    RouteTo(Route),
    /// Open the picker for a new column.
    NewColumnPicker,
    /// Nothing.
    Stay,
}

/// A [`Navigation`] as mathematical values.
pub enum NavigationView {
    GoBack,
    RouteTo(RouteView),
    NewColumnPicker,
    Stay,
}

impl View for Navigation {
    type V = NavigationView;

    open spec fn view(&self) -> NavigationView {
        match self {
            Navigation::GoBack => NavigationView::GoBack,
            Navigation::RouteTo(route) => NavigationView::RouteTo(route@),
            Navigation::NewColumnPicker => NavigationView::NewColumnPicker,
            Navigation::Stay => NavigationView::Stay,
        }
    }
}

/// The button that counts where several were clicked in one frame: the
/// topmost of them.
pub open spec fn first_clicked(clicks: SidePanelClicks) -> Option<SidePanelButton> {
    if clicks.user_account {
        Some(SidePanelButton::UserAccount)
    } else if clicks.add_account {
        Some(SidePanelButton::AddAccount)
    } else if clicks.relays {
        Some(SidePanelButton::Relays)
    } else if clicks.compose_note {
        Some(SidePanelButton::ComposeNote)
    } else if clicks.search {
        Some(SidePanelButton::Search)
    } else if clicks.add_column {
        Some(SidePanelButton::AddColumn)
    } else {
        None
    }
}

/// What a button asks for. The two account buttons ask for the same.
pub open spec fn button_action(button: SidePanelButton) -> SidePanelAction {
    match button {
        SidePanelButton::UserAccount => SidePanelAction::Account,
        SidePanelButton::AddAccount => SidePanelAction::Account,
        SidePanelButton::Relays => SidePanelAction::Settings,
        SidePanelButton::ComposeNote => SidePanelAction::ComposeNote,
        SidePanelButton::Search => SidePanelAction::Search,
        SidePanelButton::AddColumn => SidePanelAction::Columns,
    }
}

/// Going to `route`, or back where the stack already holds it.
pub open spec fn toggle(routes: Seq<RouteView>, route: RouteView) -> NavigationView {
    if routes.contains(route) {
        NavigationView::GoBack
    } else {
        NavigationView::RouteTo(route)
    }
}

/// What an action of the rail does to a stack of views. Most actions go to
/// their view, or back where the stack already holds it. A note can only be
/// composed by an account that can post: another one is sent to the
/// accounts. The search goes back only where it is on top.
pub open spec fn navigation(
    routes: Seq<RouteView>,
    can_post: bool,
    action: SidePanelAction,
) -> NavigationView {
    match action {
        SidePanelAction::Account => toggle(routes, RouteView::Accounts),
        SidePanelAction::Settings => toggle(routes, RouteView::Relays),
        SidePanelAction::Columns => if routes.contains(RouteView::AddColumn) {
            NavigationView::GoBack
        } else {
            NavigationView::NewColumnPicker
        },
        SidePanelAction::ComposeNote => if !can_post {
            NavigationView::RouteTo(RouteView::Accounts)
        } else {
            toggle(routes, RouteView::ComposeNote)
        },
        SidePanelAction::Search => if routes.len() > 0 && routes.last() == RouteView::Search {
            NavigationView::GoBack
        } else {
            NavigationView::RouteTo(RouteView::Search)
        },
        SidePanelAction::ExpandSidePanel => NavigationView::Stay,
        SidePanelAction::Wallet => toggle(routes, RouteView::Wallet),
    }
}

/// The button that counts among those clicked in one frame, and what it
/// asks for.
pub fn clicked_button(clicks: &SidePanelClicks) -> (clicked: Option<
    (SidePanelButton, SidePanelAction),
>)
    ensures
        match clicked {
            Some((button, action)) => first_clicked(*clicks) == Some(button) && action
                == button_action(button),
            None => first_clicked(*clicks) is None,
        },
{
    if clicks.user_account {
        Some((SidePanelButton::UserAccount, SidePanelAction::Account))
    } else if clicks.add_account {
        Some((SidePanelButton::AddAccount, SidePanelAction::Account))
    } else if clicks.relays {
        Some((SidePanelButton::Relays, SidePanelAction::Settings))
    } else if clicks.compose_note {
        Some((SidePanelButton::ComposeNote, SidePanelAction::ComposeNote))
    } else if clicks.search {
        Some((SidePanelButton::Search, SidePanelAction::Search))
    } else if clicks.add_column {
        Some((SidePanelButton::AddColumn, SidePanelAction::Columns))
    } else {
        None
    }
}

/// Whether two views are the same.
pub fn same_route(a: &Route, b: &Route) -> (same: bool)
    ensures
        same == (a@ == b@),
{
    match (a, b) {
        (Route::Timeline(x), Route::Timeline(y)) => x.same(y),
        (Route::Accounts, Route::Accounts) => true,
        (Route::Relays, Route::Relays) => true,
        (Route::AddColumn, Route::AddColumn) => true,
        (Route::ComposeNote, Route::ComposeNote) => true,
        (Route::Search, Route::Search) => true,
        (Route::Wallet, Route::Wallet) => true,
        (Route::Other, Route::Other) => true,
        _ => false,
    }
}

/// Whether the stack holds a view.
fn holds(router: &Router, route: &Route) -> (held: bool)
    ensures
        held == router@.contains(route@),
{
    let routes = router.routes();
    let mut i: usize = 0;
    while i < routes.len()
        invariant
            i <= routes.len(),
            crate::route::route_views(routes@) == router@,
            forall|j: int| 0 <= j < i ==> router@[j] != route@,
        decreases routes.len() - i,
    {
        if same_route(&routes[i], route) {
            assert(router@[i as int] == route@);
            return true;
        }
        i += 1;
    }
    false
}

/// Going to `route`, or back where the stack already holds it.
fn go_or_back(router: &Router, route: Route) -> (step: Navigation)
    ensures
        step@ == toggle(router@, route@),
{
    if holds(router, &route) {
        Navigation::GoBack
    } else {
        Navigation::RouteTo(route)
    }
}

/// What an action of the rail does to the stack of views of the column in
/// use, given whether the account in use can post.
pub fn perform_action(router: &Router, can_post: bool, action: SidePanelAction) -> (step:
    Navigation)
    ensures
        step@ == navigation(router@, can_post, action),
{
    match action {
        SidePanelAction::Account => go_or_back(router, Route::Accounts),
        SidePanelAction::Settings => go_or_back(router, Route::Relays),
        SidePanelAction::Columns => {
            if holds(router, &Route::AddColumn) {
                Navigation::GoBack
            } else {
                Navigation::NewColumnPicker
            }
        },
        SidePanelAction::ComposeNote => {
            if !can_post {
                Navigation::RouteTo(Route::Accounts)
            } else {
                go_or_back(router, Route::ComposeNote)
            }
        },
        SidePanelAction::Search => {
            let on_top = match router.top() {
                Some(route) => same_route(route, &Route::Search),
                None => false,
            };
            if on_top {
                Navigation::GoBack
            } else {
                Navigation::RouteTo(Route::Search)
            }
        },
        SidePanelAction::ExpandSidePanel => Navigation::Stay,
        SidePanelAction::Wallet => go_or_back(router, Route::Wallet),
    }
}

} // verus!
