//! The key under which the subscription cache keeps a timeline.

use vstd::prelude::*;
use crate::text::{clone_strings, same_strings, texts};

verus! {

/// What a timeline shows. Two timelines of the same kind are one
/// subscription.
#[derive(Debug, Clone, PartialEq, Eq)]
pub enum TimelineKind {
    /// The notes that carry one of these hashtags.
    Hashtag(Vec<String>),
}

/// A [`TimelineKind`] as mathematical values.
pub enum TimelineKindView {
    Hashtag(Seq<Seq<char>>),
}

impl View for TimelineKind {
    type V = TimelineKindView;

    open spec fn view(&self) -> TimelineKindView {
        match self {
            TimelineKind::Hashtag(tags) => TimelineKindView::Hashtag(texts(tags@)),
        }
    }
}

impl TimelineKind {
    /// The timeline of the notes that carry one of `tags`.
    pub fn hashtag(tags: Vec<String>) -> (kind: Self)
        ensures
            kind@ == TimelineKindView::Hashtag(texts(tags@)),
    {
        TimelineKind::Hashtag(tags)
    }

    /// Whether two kinds are the same.
    pub fn same(&self, other: &TimelineKind) -> (same: bool)
        ensures
            same == (self@ == other@),
    {
        match (self, other) {
            (TimelineKind::Hashtag(a), TimelineKind::Hashtag(b)) => same_strings(a, b),
        }
    }

    /// A copy of the kind.
    pub fn duplicate(&self) -> (copy: Self)
        ensures
            copy@ == self@,
    {
        match self {
            TimelineKind::Hashtag(tags) => TimelineKind::Hashtag(clone_strings(tags)),
        }
    }
}

} // verus!
