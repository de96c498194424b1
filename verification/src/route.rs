//! The views a column can show, and the stack of them that a column keeps.

use vstd::prelude::*;
use crate::timeline::{TimelineKind, TimelineKindView};

verus! {

/// A view that a column can show.
#[derive(Debug, Clone, PartialEq, Eq)]
pub enum Route {
    /// A timeline of notes.
    Timeline(TimelineKind),
    /// The list of accounts.
    Accounts,
    /// The relay settings.
    Relays,
    /// The picker for a new column.
    AddColumn,
    /// The editor for a new note.
    ComposeNote,
    /// The search.
    Search,
    /// The wallet.
    Wallet,
    /// Any other view.
    Other,
}

/// A [`Route`] as mathematical values.
pub enum RouteView {
    Timeline(TimelineKindView),
    Accounts,
    Relays,
    AddColumn,
    ComposeNote,
    Search,
    Wallet,
    Other,
}

impl View for Route {
    type V = RouteView;

    open spec fn view(&self) -> RouteView {
        match self {
            Route::Timeline(kind) => RouteView::Timeline(kind@),
            Route::Accounts => RouteView::Accounts,
            Route::Relays => RouteView::Relays,
            Route::AddColumn => RouteView::AddColumn,
            Route::ComposeNote => RouteView::ComposeNote,
            Route::Search => RouteView::Search,
            Route::Wallet => RouteView::Wallet,
            Route::Other => RouteView::Other,
        }
    }
}

impl Route {
    /// The view of a timeline.
    pub fn timeline(kind: TimelineKind) -> (route: Self)
        ensures
            route@ == RouteView::Timeline(kind@),
    {
        Route::Timeline(kind)
    }
}

/// The views of a sequence of routes, in the same order.
pub open spec fn route_views(routes: Seq<Route>) -> Seq<RouteView> {
    routes.map_values(|r: Route| r@)
}

/// The stack of views of one column: the last one is on top.
#[derive(Debug, Clone, PartialEq, Eq)]
pub struct Router {
    routes: Vec<Route>,
}

impl View for Router {
    type V = Seq<RouteView>;

    closed spec fn view(&self) -> Seq<RouteView> {
        route_views(self.routes@)
    }
}

impl Router {
    /// The stack that holds `routes`, the last one on top.
    pub fn new(routes: Vec<Route>) -> (router: Self)
        ensures
            router@ == route_views(routes@),
    {
        Router { routes }
    }

    /// The views on the stack, the last one on top.
    pub fn routes(&self) -> (routes: &Vec<Route>)
        ensures
            route_views(routes@) == self@,
    {
        &self.routes
    }

    /// The view on top, if the stack holds any.
    pub fn top(&self) -> (top: Option<&Route>)
        ensures
            match top {
                Some(route) => self@.len() > 0 && route@ == self@.last(),
                None => self@.len() == 0,
            },
    {
        if self.routes.len() == 0 {
            None
        } else {
            Some(&self.routes[self.routes.len() - 1])
        }
    }
}

} // verus!
