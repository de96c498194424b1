//! Channels: named hashtag filters, the list of them that an account keeps,
//! and the lists of all accounts.

use vstd::prelude::*;
use vstd::string::*;
use crate::channel_id::random_id;
use crate::keyed::{
    collected, distinct_keys, holds_exactly, lemma_collected_distinct, lemma_collected_finite,
    lemma_collected_push, lemma_collected_remove, lemma_collected_update,
};
use crate::pubkey::Pubkey;
use crate::route::{Route, RouteView, Router};
use crate::text::{clone_strings, texts};
use crate::timeline::{TimelineKind, TimelineKindView};

verus! {

/// A channel, as a chat client shows one: a name for the notes that carry
/// certain hashtags.
#[derive(Debug, Clone)]
pub struct Channel {
    /// The identifier: the 16 bytes of a UUID.
    pub id: [u8; 16],
    /// The name shown to the user.
    pub name: String,
    /// The hashtags whose notes the channel shows.
    pub hashtags: Vec<String>,
    /// The key of the channel's subscription, made from the hashtags.
    pub timeline_kind: TimelineKind,
    /// The views opened from the channel.
    pub router: Router,
    /// The number of notes not yet read.
    pub unread_count: usize,
}

/// A [`Channel`] as mathematical values.
pub struct ChannelView {
    pub id: Seq<u8>,
    pub name: Seq<char>,
    pub hashtags: Seq<Seq<char>>,
    pub timeline_kind: TimelineKindView,
    pub routes: Seq<RouteView>,
    pub unread_count: nat,
}

impl View for Channel {
    type V = ChannelView;

    open spec fn view(&self) -> ChannelView {
        ChannelView {
            id: self.id@,
            name: self.name@,
            hashtags: texts(self.hashtags@),
            timeline_kind: self.timeline_kind@,
            routes: self.router@,
            unread_count: self.unread_count as nat,
        }
    }
}

/// The timeline of a channel with these hashtags.
pub open spec fn timeline_of(hashtags: Seq<Seq<char>>) -> TimelineKindView {
    TimelineKindView::Hashtag(hashtags)
}

/// The views a channel starts with: its timeline alone.
pub open spec fn routes_of(hashtags: Seq<Seq<char>>) -> Seq<RouteView> {
    seq![RouteView::Timeline(timeline_of(hashtags))]
}

/// A channel as it is when made: it shows its own timeline and nothing is
/// unread.
pub open spec fn new_channel(
    id: Seq<u8>,
    name: Seq<char>,
    hashtags: Seq<Seq<char>>,
) -> ChannelView {
    ChannelView {
        id,
        name,
        hashtags,
        timeline_kind: timeline_of(hashtags),
        routes: routes_of(hashtags),
        unread_count: 0,
    }
}

/// The channel's timeline is the one of its hashtags.
pub open spec fn channel_consistent(channel: ChannelView) -> bool {
    channel.timeline_kind == timeline_of(channel.hashtags)
}

/// The stack that shows only the timeline of `hashtags`.
fn timeline_router(hashtags: &Vec<String>) -> (router: Router)
    ensures
        router@ == routes_of(texts(hashtags@)),
{
    let kind = TimelineKind::hashtag(clone_strings(hashtags));
    let mut routes: Vec<Route> = Vec::new();
    routes.push(Route::timeline(kind));
    let router = Router::new(routes);
    assert(router@ =~= routes_of(texts(hashtags@)));
    router
}

impl Channel {
    /// A channel with a fresh identifier, drawn at random: a UUID of
    /// version 4.
    pub fn new(name: String, hashtags: Vec<String>) -> (channel: Self)
        ensures
            channel@ == new_channel(channel@.id, name@, texts(hashtags@)),
            channel@.id.len() == 16,
            channel@.id[6] / 16 == 4,
            channel@.id[8] / 64 == 2,
    {
        Channel::with_id(random_id(), name, hashtags)
    }

    /// A channel with the given identifier.
    pub fn with_id(id: [u8; 16], name: String, hashtags: Vec<String>) -> (channel: Self)
        ensures
            channel@ == new_channel(id@, name@, texts(hashtags@)),
    {
        let timeline_kind = TimelineKind::hashtag(clone_strings(&hashtags));
        let router = timeline_router(&hashtags);
        Channel { id, name, hashtags, timeline_kind, router, unread_count: 0 }
    }

    /// The views opened from the channel.
    pub fn router(&self) -> (router: &Router)
        ensures
            router@ == self@.routes,
    {
        &self.router
    }

    /// The views opened from the channel, to be changed in place.
    pub fn router_mut(&mut self) -> (router: &mut Router)
        ensures
            *router == old(self).router,
            *final(self) == (Channel { router: *final(router), ..*old(self) }),
    {
        &mut self.router
    }
}

/// The channels of one account, in the order shown, and which of them is
/// selected.
#[derive(Debug, Clone)]
pub struct ChannelList {
    pub channels: Vec<Channel>,
    pub selected: usize,
}

/// A [`ChannelList`] as mathematical values.
pub struct ChannelListView {
    pub channels: Seq<ChannelView>,
    pub selected: nat,
}

/// The views of a sequence of channels, in the same order.
pub open spec fn channel_views(channels: Seq<Channel>) -> Seq<ChannelView> {
    channels.map_values(|c: Channel| c@)
}

impl View for ChannelList {
    type V = ChannelListView;

    open spec fn view(&self) -> ChannelListView {
        ChannelListView {
            channels: channel_views(self.channels@),
            selected: self.selected as nat,
        }
    }
}

/// The list without channels.
pub open spec fn empty_list() -> ChannelListView {
    ChannelListView { channels: Seq::<ChannelView>::empty(), selected: 0 }
}

/// Where a list holds channels, one of them is selected.
pub open spec fn list_valid(list: ChannelListView) -> bool {
    list.channels.len() > 0 ==> list.selected < list.channels.len()
}

/// The list after a channel was added: it stands last and is selected.
pub open spec fn list_after_add(list: ChannelListView, channel: ChannelView) -> ChannelListView {
    ChannelListView { channels: list.channels.push(channel), selected: list.channels.len() }
}

/// Whether the channel at `index` can be removed: it exists and is not the
/// only one.
pub open spec fn can_remove(list: ChannelListView, index: nat) -> bool {
    index < list.channels.len() && list.channels.len() > 1
}

/// The list after the removal of the channel at `index`. Where that channel
/// cannot be removed the list stays as it is. A selection that would point
/// past the end moves to the last channel.
pub open spec fn list_after_remove(list: ChannelListView, index: nat) -> ChannelListView {
    if can_remove(list, index) {
        let rest = list.channels.remove(index as int);
        ChannelListView {
            channels: rest,
            selected: if list.selected >= rest.len() {
                (rest.len() - 1) as nat
            } else {
                list.selected
            },
        }
    } else {
        list
    }
}

/// The list after the channel at `index` was selected, if there is one.
pub open spec fn list_after_select(list: ChannelListView, index: nat) -> ChannelListView {
    if index < list.channels.len() {
        ChannelListView { selected: index, ..list }
    } else {
        list
    }
}

/// A channel after it got a new name and new hashtags: its timeline and its
/// views are those of the new hashtags, its identifier and its count of
/// unread notes stay.
pub open spec fn channel_after_edit(
    channel: ChannelView,
    name: Seq<char>,
    hashtags: Seq<Seq<char>>,
) -> ChannelView {
    ChannelView {
        name,
        hashtags,
        timeline_kind: timeline_of(hashtags),
        routes: routes_of(hashtags),
        ..channel
    }
}

/// The list after the channel at `index`, if there is one, got a new name
/// and new hashtags.
pub open spec fn list_after_edit(
    list: ChannelListView,
    index: nat,
    name: Seq<char>,
    hashtags: Seq<Seq<char>>,
) -> ChannelListView {
    if index < list.channels.len() {
        ChannelListView {
            channels: list.channels.update(
                index as int,
                channel_after_edit(list.channels[index as int], name, hashtags),
            ),
            ..list
        }
    } else {
        list
    }
}

/// The list with another channel in the place of the selected one.
pub open spec fn list_with_channel(list: ChannelListView, channel: ChannelView) -> ChannelListView {
    ChannelListView { channels: list.channels.update(list.selected as int, channel), ..list }
}

/// What an edit of a channel did, and what is left for the caller to do.
#[derive(Debug, Clone, PartialEq, Eq)]
pub enum ChannelEdit {
    /// There is no channel at that index: nothing changed.
    NoChannel,
    /// The channel was updated and its timeline is the same as before.
    SameTimeline,
    /// The channel was updated and has another timeline now: the
    /// subscription of the old one, given here, is to be dropped.
    NewTimeline(TimelineKind),
}

/// The text `general`, the hashtag of the channel every account starts with.
pub open spec fn general_tag() -> Seq<char> {
    seq!['g', 'e', 'n', 'e', 'r', 'a', 'l']
}

/// The list is the one an account starts with: the one channel, named
/// `name`, for the hashtag `general`.
pub open spec fn is_default_list(list: ChannelListView, name: Seq<char>) -> bool {
    &&& list.channels.len() == 1
    &&& list.selected == 0
    &&& list.channels[0] == new_channel(list.channels[0].id, name, seq![general_tag()])
    &&& list.channels[0].id.len() == 16
}

impl ChannelList {
    /// The list without channels.
    pub fn new() -> (list: Self)
        ensures
            list@ == empty_list(),
    {
        let list = ChannelList { channels: Vec::new(), selected: 0 };
        assert(list@.channels =~= Seq::<ChannelView>::empty());
        list
    }

    /// The list an account starts with: one channel for the hashtag
    /// `general`, under the name given, which is the word for "General" in
    /// the user's language.
    pub fn default_channels(name: &str) -> (list: Self)
        ensures
            is_default_list(list@, name@),
    {
        let mut list = ChannelList::new();
        let mut hashtags: Vec<String> = Vec::new();
        hashtags.push("general".to_owned());
        proof {
            reveal_strlit("general");
            assert("general"@ =~= general_tag());
            assert(texts(hashtags@) =~= seq![general_tag()]);
        }
        list.add_channel(Channel::new(name.to_owned(), hashtags));
        list
    }

    /// Adds a channel at the end and selects it.
    pub fn add_channel(&mut self, channel: Channel)
        ensures
            final(self)@ == list_after_add(old(self)@, channel@),
    {
        self.channels.push(channel);
        self.selected = self.channels.len() - 1;
        assert(self@.channels =~= old(self)@.channels.push(channel@));
    }

    /// Gives the channel at `index` a new name and new hashtags, and says
    /// whether its timeline changed, so that the caller can drop the
    /// subscription of the old one.
    pub fn edit_channel(&mut self, index: usize, name: String, hashtags: Vec<String>) -> (edit:
        ChannelEdit)
        ensures
            final(self)@ == list_after_edit(old(self)@, index as nat, name@, texts(hashtags@)),
            match edit {
                ChannelEdit::NoChannel => index >= old(self)@.channels.len(),
                ChannelEdit::SameTimeline => index < old(self)@.channels.len() && old(
                    self,
                )@.channels[index as int].timeline_kind == timeline_of(texts(hashtags@)),
                ChannelEdit::NewTimeline(dropped) => index < old(self)@.channels.len()
                    && dropped@ == old(self)@.channels[index as int].timeline_kind && dropped@
                    != timeline_of(texts(hashtags@)),
            },
    {
        if index >= self.channels.len() {
            return ChannelEdit::NoChannel;
        }
        let new_kind = TimelineKind::hashtag(clone_strings(&hashtags));
        let router = timeline_router(&hashtags);
        let changed = !self.channels[index].timeline_kind.same(&new_kind);
        let ghost before = self.channels@[index as int];
        let channel = &mut self.channels[index];
        let old_kind = channel.timeline_kind.duplicate();
        channel.name = name;
        channel.hashtags = hashtags;
        channel.timeline_kind = new_kind;
        channel.router = router;
        assert(self.channels@[index as int]@ == channel_after_edit(
            before@,
            name@,
            texts(hashtags@),
        ));
        assert(self@.channels =~= list_after_edit(
            old(self)@,
            index as nat,
            name@,
            texts(hashtags@),
        ).channels);
        if changed {
            ChannelEdit::NewTimeline(old_kind)
        } else {
            ChannelEdit::SameTimeline
        }
    }

    /// Removes the channel at `index` and hands it out, so that the caller
    /// can drop its subscription. The last remaining channel is never
    /// removed.
    pub fn remove_channel(&mut self, index: usize) -> (removed: Option<Channel>)
        ensures
            final(self)@ == list_after_remove(old(self)@, index as nat),
            match removed {
                Some(channel) => can_remove(old(self)@, index as nat) && channel@ == old(
                    self,
                )@.channels[index as int],
                None => !can_remove(old(self)@, index as nat),
            },
    {
        if index < self.channels.len() && self.channels.len() > 1 {
            let removed = self.channels.remove(index);
            if self.selected >= self.channels.len() {
                self.selected = self.channels.len() - 1;
            }
            assert(self@.channels =~= old(self)@.channels.remove(index as int));
            Some(removed)
        } else {
            None
        }
    }

    /// Selects the channel at `index`, if there is one.
    pub fn select_channel(&mut self, index: usize)
        ensures
            final(self)@ == list_after_select(old(self)@, index as nat),
    {
        if index < self.channels.len() {
            self.selected = index;
        }
    }

    /// The selected channel, if the selection points at one.
    pub fn selected_channel(&self) -> (channel: Option<&Channel>)
        ensures
            match channel {
                Some(c) => self.selected < self.channels.len() && *c
                    == self.channels[self.selected as int],
                None => self.selected >= self.channels.len(),
            },
    {
        self.get_channel(self.selected)
    }

    /// The selected channel, to be changed in place.
    pub fn selected_channel_mut(&mut self) -> (channel: Option<&mut Channel>)
        ensures
            final(self).selected == old(self).selected,
            match channel {
                Some(c) => old(self).selected < old(self).channels.len() && *c == old(
                    self,
                ).channels[old(self).selected as int] && final(self).channels@ == old(
                    self,
                ).channels@.update(old(self).selected as int, *final(c)),
                None => old(self).selected >= old(self).channels.len() && *final(self) == *old(
                    self,
                ),
            },
    {
        let index = self.selected;
        if index < self.channels.len() {
            Some(&mut self.channels[index])
        } else {
            None
        }
    }

    /// The number of channels.
    pub fn num_channels(&self) -> (count: usize)
        ensures
            count == self@.channels.len(),
    {
        self.channels.len()
    }

    /// The channel at `index`, if there is one.
    pub fn get_channel(&self, index: usize) -> (channel: Option<&Channel>)
        ensures
            match channel {
                Some(c) => index < self.channels.len() && *c == self.channels[index as int],
                None => index >= self.channels.len(),
            },
    {
        if index < self.channels.len() {
            Some(&self.channels[index])
        } else {
            None
        }
    }

    /// The channel at `index`, to be changed in place.
    pub fn get_channel_mut(&mut self, index: usize) -> (channel: Option<&mut Channel>)
        ensures
            final(self).selected == old(self).selected,
            match channel {
                Some(c) => index < old(self).channels.len() && *c == old(self).channels[index as int]
                    && final(self).channels@ == old(self).channels@.update(
                    index as int,
                    *final(c),
                ),
                None => index >= old(self).channels.len() && *final(self) == *old(self),
            },
    {
        if index < self.channels.len() {
            Some(&mut self.channels[index])
        } else {
            None
        }
    }
}

impl Default for ChannelList {
    fn default() -> (list: Self)
        ensures
            list@ == empty_list(),
    {
        ChannelList::new()
    }
}

/// One change to a list of channels.
pub enum ListChange {
    /// A channel is added.
    Add(ChannelView),
    /// The channel at an index is removed.
    Remove(nat),
    /// The channel at an index is selected.
    Select(nat),
    /// The channel at an index gets a new name and new hashtags.
    Edit(nat, Seq<char>, Seq<Seq<char>>),
}

/// The list after one change.
pub open spec fn list_after(list: ChannelListView, change: ListChange) -> ChannelListView {
    match change {
        ListChange::Add(channel) => list_after_add(list, channel),
        ListChange::Remove(index) => list_after_remove(list, index),
        ListChange::Select(index) => list_after_select(list, index),
        ListChange::Edit(index, name, hashtags) => list_after_edit(list, index, name, hashtags),
    }
}

/// The list after a sequence of changes, made in order.
pub open spec fn list_after_all(list: ChannelListView, changes: Seq<ListChange>) -> ChannelListView
    decreases changes.len(),
{
    if changes.len() == 0 {
        list
    } else {
        list_after(list_after_all(list, changes.drop_last()), changes.last())
    }
}

/// Whatever is added, removed, selected or edited, in whatever order: a
/// list in which a channel is selected whenever there is one stays so, and
/// a list that holds a channel never becomes empty.
pub proof fn lemma_changes_keep_list_valid(list: ChannelListView, changes: Seq<ListChange>)
    requires
        list_valid(list),
    ensures
        list_valid(list_after_all(list, changes)),
        list.channels.len() >= 1 ==> list_after_all(list, changes).channels.len() >= 1,
    decreases changes.len(),
{
    if changes.len() > 0 {
        lemma_changes_keep_list_valid(list, changes.drop_last());
    }
}

/// The timeline of a channel is always that of its hashtags: when the
/// channel is made and after each edit. So two channels with the same
/// hashtags have the same timeline.
pub proof fn lemma_timeline_follows_hashtags(
    id: Seq<u8>,
    channel: ChannelView,
    name: Seq<char>,
    hashtags: Seq<Seq<char>>,
)
    ensures
        channel_consistent(new_channel(id, name, hashtags)),
        channel_consistent(channel_after_edit(channel, name, hashtags)),
{
}

/// What is to be done next while the timelines of a list's channels are
/// subscribed to, one channel after another.
#[derive(Debug, Clone, Copy, PartialEq, Eq)]
pub enum SubscribeStep {
    /// Open a transaction on the note store.
    Begin,
    /// Ask the subscription cache whether it holds the timeline of the
    /// channel at this index.
    Lookup(usize),
    /// Open the timeline of the channel at this index.
    Open(usize),
    /// Nothing is left to do.
    Done,
}

/// The step that takes up the channel at `index` of `count` channels.
pub open spec fn step_at(count: nat, index: nat) -> SubscribeStep {
    if index < count {
        SubscribeStep::Lookup(index as usize)
    } else {
        SubscribeStep::Done
    }
}

/// The step that follows `step` once it was carried out with the outcome
/// `answer`. A transaction that cannot be had ends the whole batch. A
/// timeline that the cache holds is not opened again. Whether a timeline
/// could be opened or not, the next channel is taken up.
pub open spec fn next_step(count: nat, step: SubscribeStep, answer: bool) -> SubscribeStep {
    match step {
        SubscribeStep::Begin => if answer {
            step_at(count, 0)
        } else {
            SubscribeStep::Done
        },
        SubscribeStep::Lookup(index) => if index >= count {
            SubscribeStep::Done
        } else if answer {
            step_at(count, index as nat + 1)
        } else {
            SubscribeStep::Open(index)
        },
        SubscribeStep::Open(index) => if index >= count {
            SubscribeStep::Done
        } else {
            step_at(count, index as nat + 1)
        },
        SubscribeStep::Done => SubscribeStep::Done,
    }
}

/// A bound on the number of steps that can still follow `step`.
pub open spec fn steps_left(count: nat, step: SubscribeStep) -> nat {
    match step {
        SubscribeStep::Begin => 2 * count + 2,
        SubscribeStep::Lookup(index) => if index < count {
            (2 * (count - index) + 1) as nat
        } else {
            1
        },
        SubscribeStep::Open(index) => if index < count {
            (2 * (count - index)) as nat
        } else {
            1
        },
        SubscribeStep::Done => 0,
    }
}

/// Subscribing comes to an end, takes the channels in order, and opens a
/// timeline only after the cache has said that it does not hold it.
pub proof fn lemma_subscribe_progress(count: nat, step: SubscribeStep, answer: bool)
    requires
        count <= usize::MAX,
    ensures
        step != SubscribeStep::Done ==> steps_left(count, next_step(count, step, answer))
            < steps_left(count, step),
        next_step(count, step, answer) matches SubscribeStep::Open(index) ==> step
            == SubscribeStep::Lookup(index) && !answer && index < count,
        next_step(count, step, answer) matches SubscribeStep::Lookup(index) ==> index < count && (
        match step {
            SubscribeStep::Begin => index == 0 && answer,
            SubscribeStep::Lookup(before) => index == before + 1 && answer,
            SubscribeStep::Open(before) => index == before + 1,
            SubscribeStep::Done => false,
        }),
{
}

/// The timelines of a list's channels, in the order of the channels.
pub open spec fn list_timelines(list: ChannelListView) -> Seq<TimelineKindView> {
    Seq::new(list.channels.len(), |i: int| list.channels[i].timeline_kind)
}

/// The views of a sequence of timeline kinds, in the same order.
pub open spec fn kind_views(kinds: Seq<TimelineKind>) -> Seq<TimelineKindView> {
    kinds.map_values(|k: TimelineKind| k@)
}

impl ChannelList {
    /// The step that follows `step`, given how `step` went: for `Begin`
    /// whether the transaction was had, for `Lookup` whether the cache holds
    /// the timeline, for `Open` whether it was opened.
    pub fn subscribe_step(&self, step: SubscribeStep, answer: bool) -> (next: SubscribeStep)
        ensures
            next == next_step(self@.channels.len(), step, answer),
    {
        let count = self.channels.len();
        match step {
            SubscribeStep::Begin => {
                if answer && 0 < count {
                    SubscribeStep::Lookup(0)
                } else {
                    SubscribeStep::Done
                }
            },
            SubscribeStep::Lookup(index) => {
                if index >= count {
                    SubscribeStep::Done
                } else if !answer {
                    SubscribeStep::Open(index)
                } else if index + 1 < count {
                    SubscribeStep::Lookup(index + 1)
                } else {
                    SubscribeStep::Done
                }
            },
            SubscribeStep::Open(index) => {
                if index < count && index + 1 < count {
                    SubscribeStep::Lookup(index + 1)
                } else {
                    SubscribeStep::Done
                }
            },
            SubscribeStep::Done => SubscribeStep::Done,
        }
    }

    /// The timelines whose subscriptions are to be dropped when the list
    /// goes: that of each channel, in the order of the channels.
    pub fn unsubscribe_all(&self) -> (kinds: Vec<TimelineKind>)
        ensures
            kind_views(kinds@) == list_timelines(self@),
    {
        let mut kinds: Vec<TimelineKind> = Vec::new();
        let mut i: usize = 0;
        while i < self.channels.len()
            invariant
                i <= self.channels.len(),
                kinds.len() == i,
                forall|j: int| 0 <= j < i ==> (#[trigger] kinds@[j])@ == self.channels@[j].timeline_kind@,
            decreases self.channels.len() - i,
        {
            kinds.push(self.channels[i].timeline_kind.duplicate());
            i += 1;
        }
        assert(kind_views(kinds@) =~= list_timelines(self@));
        kinds
    }
}

/// The channel lists of all accounts, with a list for the fallback account
/// that is in use while no other is selected.
#[derive(Debug, Clone)]
pub struct ChannelsCache {
    account_to_channels: Vec<(Pubkey, ChannelList)>,
    fallback_pubkey: Pubkey,
}

/// A [`ChannelsCache`] as mathematical values: the list of each account
/// that has one, by the bytes of the account's key, and the key of the
/// fallback account.
pub struct ChannelsCacheView {
    pub lists: Map<Seq<u8>, ChannelListView>,
    pub fallback: Seq<u8>,
}

impl View for ChannelsCache {
    type V = ChannelsCacheView;

    closed spec fn view(&self) -> ChannelsCacheView {
        ChannelsCacheView {
            lists: collected(self.account_to_channels@),
            fallback: self.fallback_pubkey@,
        }
    }
}

/// What the cache answers for `key`: the account's own list, or the
/// fallback account's where it has none.
pub open spec fn list_for(cache: ChannelsCacheView, key: Seq<u8>) -> ChannelListView {
    if cache.lists.dom().contains(key) {
        cache.lists[key]
    } else {
        cache.lists[cache.fallback]
    }
}

/// `lists` is `given` with a list for `key`: the one `given` has, or else
/// the list an account starts with, its channel named `name`.
pub open spec fn with_list_for(
    given: Map<Seq<u8>, ChannelListView>,
    lists: Map<Seq<u8>, ChannelListView>,
    key: Seq<u8>,
    name: Seq<char>,
) -> bool {
    &&& lists.dom().contains(key)
    &&& lists == given.insert(key, lists[key])
    &&& if given.dom().contains(key) {
        lists[key] == given[key]
    } else {
        is_default_list(lists[key], name)
    }
}

impl ChannelsCache {
    /// No account has two lists, and the fallback account has one.
    pub closed spec fn wf(&self) -> bool {
        &&& distinct_keys(self.account_to_channels@)
        &&& self@.lists.dom().contains(self.fallback_pubkey@)
    }

    /// The accounts with their lists, in the order in which they are kept.
    pub closed spec fn entries(&self) -> Seq<(Pubkey, ChannelList)> {
        self.account_to_channels@
    }

    /// The entries of a well-formed cache hold exactly its lists.
    pub proof fn lemma_entries(&self)
        requires
            self.wf(),
        ensures
            holds_exactly(self.entries(), self@.lists),
            self@.lists.dom().contains(self@.fallback),
            self@.lists.dom().finite(),
    {
        lemma_collected_distinct(self.account_to_channels@);
        lemma_collected_finite(self.account_to_channels@);
    }

    /// The place of the entry of `key`, if there is one.
    fn find(&self, key: &Pubkey) -> (place: Option<usize>)
        requires
            distinct_keys(self.account_to_channels@),
        ensures
            match place {
                Some(i) => i < self.account_to_channels.len() && self.account_to_channels[i as int].0@
                    == key@ && self@.lists.dom().contains(key@),
                None => !self@.lists.dom().contains(key@),
            },
    {
        let mut i: usize = 0;
        while i < self.account_to_channels.len()
            invariant
                i <= self.account_to_channels.len(),
                distinct_keys(self.account_to_channels@),
                forall|j: int| 0 <= j < i ==> self.account_to_channels@[j].0@ != key@,
            decreases self.account_to_channels.len() - i,
        {
            if self.account_to_channels[i].0.same(key) {
                proof {
                    lemma_collected_distinct(self.account_to_channels@);
                    assert(self@.lists.dom().contains(self.account_to_channels@[i as int].0@));
                }
                return Some(i);
            }
            i += 1;
        }
        proof {
            lemma_collected_distinct(self.account_to_channels@);
        }
        None
    }
}

impl ChannelsCache {
    /// The cache that holds the given lists, the later of two for one account
    /// winning, and a list for the fallback account: the one given, or else
    /// the list an account starts with, its channel named `default_name`.
    pub fn new(
        account_to_channels: Vec<(Pubkey, ChannelList)>,
        fallback_pubkey: Pubkey,
        default_name: &str,
    ) -> (cache: Self)
        ensures
            cache.wf(),
            cache@.fallback == fallback_pubkey@,
            with_list_for(
                collected(account_to_channels@),
                cache@.lists,
                fallback_pubkey@,
                default_name@,
            ),
    {
        let mut cache = ChannelsCache { account_to_channels: Vec::new(), fallback_pubkey };
        let ghost given = account_to_channels@;
        for entry in it: account_to_channels
            invariant
                it.seq() == given,
                cache.fallback_pubkey == fallback_pubkey,
                distinct_keys(cache.account_to_channels@),
                collected(cache.account_to_channels@) == collected(given.take(it.index())),
        {
            proof {
                let ghost now = given.take(it.index() + 1);
                assert(now.drop_last() =~= given.take(it.index()));
                assert(now.last() == entry);
            }
            cache.put(entry);
        }
        assert(given.take(given.len() as int) =~= given);
        let ghost lists = cache@.lists;
        if cache.find(&fallback_pubkey).is_none() {
            cache.put((fallback_pubkey, ChannelList::default_channels(default_name)));
            assert(cache@.lists =~= lists.insert(fallback_pubkey@, cache@.lists[fallback_pubkey@]));
        } else {
            assert(cache@.lists =~= lists.insert(fallback_pubkey@, cache@.lists[fallback_pubkey@]));
        }
        cache
    }

    /// Puts a list in for an account, in place of the one it had, if any.
    fn put(&mut self, entry: (Pubkey, ChannelList))
        requires
            distinct_keys(old(self).account_to_channels@),
        ensures
            distinct_keys(final(self).account_to_channels@),
            final(self).fallback_pubkey == old(self).fallback_pubkey,
            final(self)@.lists == old(self)@.lists.insert(entry.0@, entry.1@),
    {
        match self.find(&entry.0) {
            Some(at) => {
                proof {
                    lemma_collected_update(self.account_to_channels@, at as int, entry);
                }
                self.account_to_channels[at] = entry;
            },
            None => {
                proof {
                    lemma_collected_push(self.account_to_channels@, entry);
                }
                self.account_to_channels.push(entry);
            },
        }
    }

    /// The cache of a new installation: the fallback account alone, with the
    /// list an account starts with, its channel named `default_name`.
    pub fn default_channels_cache(fallback_pubkey: Pubkey, default_name: &str) -> (cache: Self)
        ensures
            cache.wf(),
            cache@.fallback == fallback_pubkey@,
            cache@.lists.dom() == Set::<Seq<u8>>::empty().insert(fallback_pubkey@),
            is_default_list(cache@.lists[fallback_pubkey@], default_name@),
    {
        let mut account_to_channels: Vec<(Pubkey, ChannelList)> = Vec::new();
        account_to_channels.push(
            (fallback_pubkey, ChannelList::default_channels(default_name)),
        );
        proof {
            lemma_collected_push(Seq::<(Pubkey, ChannelList)>::empty(), account_to_channels@[0]);
            assert(account_to_channels@ =~= Seq::<(Pubkey, ChannelList)>::empty().push(
                account_to_channels@[0],
            ));
        }
        let cache = ChannelsCache::new(account_to_channels, fallback_pubkey, default_name);
        assert(cache@.lists.dom() =~= Set::<Seq<u8>>::empty().insert(fallback_pubkey@));
        cache
    }

    /// The list of an account, or the fallback account's where it has none.
    pub fn get_channels(&self, key: &Pubkey) -> (list: &ChannelList)
        requires
            self.wf(),
        ensures
            list@ == list_for(self@, key@),
    {
        proof {
            lemma_collected_distinct(self.account_to_channels@);
        }
        match self.find(key) {
            Some(at) => &self.account_to_channels[at].1,
            None => self.fallback(),
        }
    }

    /// The place of the entry of an account that has a list.
    fn place_of(&self, key: &Pubkey) -> (at: usize)
        requires
            distinct_keys(self.account_to_channels@),
            self@.lists.dom().contains(key@),
        ensures
            at < self.account_to_channels.len(),
            self.account_to_channels[at as int].0@ == key@,
            self.account_to_channels[at as int].1@ == self@.lists[key@],
    {
        proof {
            lemma_collected_distinct(self.account_to_channels@);
        }
        let mut i: usize = 0;
        loop
            invariant
                distinct_keys(self.account_to_channels@),
                exists|j: int|
                    i <= j < self.account_to_channels.len() && #[trigger] self.account_to_channels@[j].0@
                        == key@,
            decreases self.account_to_channels.len() - i,
        {
            if self.account_to_channels[i].0.same(key) {
                proof {
                    lemma_collected_distinct(self.account_to_channels@);
                    assert(self@.lists.dom().contains(self.account_to_channels@[i as int].0@));
                }
                return i;
            }
            i += 1;
        }
    }

    /// The list of the fallback account.
    pub fn fallback(&self) -> (list: &ChannelList)
        requires
            self.wf(),
        ensures
            list@ == self@.lists[self@.fallback],
    {
        let at = self.place_of(&self.fallback_pubkey);
        &self.account_to_channels[at].1
    }

    /// The list of the fallback account, to be changed in place.
    pub fn fallback_mut(&mut self) -> (list: &mut ChannelList)
        requires
            old(self).wf(),
        ensures
            list@ == old(self)@.lists[old(self)@.fallback],
            final(self).wf(),
            final(self)@.fallback == old(self)@.fallback,
            final(self)@.lists == old(self)@.lists.insert(old(self)@.fallback, final(list)@),
    {
        let at = self.place_of(&self.fallback_pubkey);
        proof {
            let entries = self.account_to_channels@;
            assert forall|list: ChannelList|
                distinct_keys(#[trigger] entries.update(at as int, (entries[at as int].0, list)))
                    && collected(entries.update(at as int, (entries[at as int].0, list)))
                    == collected(entries).insert(entries[at as int].0@, list@) by {
                lemma_collected_update(entries, at as int, (entries[at as int].0, list));
            }
        }
        &mut self.account_to_channels[at].1
    }

    /// The key of the fallback account.
    pub fn get_fallback_pubkey(&self) -> (key: &Pubkey)
        ensures
            key@ == self@.fallback,
    {
        &self.fallback_pubkey
    }

    /// The accounts with their lists, each account once.
    pub fn get_mapping(&self) -> (entries: &Vec<(Pubkey, ChannelList)>)
        requires
            self.wf(),
        ensures
            entries@ == self.entries(),
            holds_exactly(entries@, self@.lists),
    {
        proof {
            lemma_collected_distinct(self.account_to_channels@);
        }
        &self.account_to_channels
    }
}

impl ChannelsCache {
    /// The list of an account, to be changed in place. An account without a
    /// list gets the one an account starts with, its channel named
    /// `default_name`.
    pub fn get_channels_mut(&mut self, default_name: &str, key: &Pubkey) -> (list:
        &mut ChannelList)
        requires
            old(self).wf(),
        ensures
            if old(self)@.lists.dom().contains(key@) {
                list@ == old(self)@.lists[key@]
            } else {
                is_default_list(list@, default_name@)
            },
            final(self).wf(),
            final(self)@.fallback == old(self)@.fallback,
            final(self)@.lists == old(self)@.lists.insert(key@, final(list)@),
    {
        if self.find(key).is_none() {
            self.put((*key, ChannelList::default_channels(default_name)));
        }
        let at = self.place_of(key);
        proof {
            let entries = self.account_to_channels@;
            assert forall|list: ChannelList|
                distinct_keys(#[trigger] entries.update(at as int, (entries[at as int].0, list)))
                    && collected(entries.update(at as int, (entries[at as int].0, list)))
                    == collected(entries).insert(entries[at as int].0@, list@) by {
                lemma_collected_update(entries, at as int, (entries[at as int].0, list));
            }
            assert forall|list: ChannelListView|
                #![trigger old(self)@.lists.insert(key@, list)]
                self@.lists.insert(key@, list) == old(self)@.lists.insert(key@, list) by {
                assert(self@.lists.insert(key@, list) =~= old(self)@.lists.insert(key@, list));
            }
        }
        &mut self.account_to_channels[at].1
    }

    /// The list shown while the account with key `selected` is in use: its
    /// own, or the fallback account's where it has none.
    pub fn active_channels(&self, selected: &Pubkey) -> (list: &ChannelList)
        requires
            self.wf(),
        ensures
            list@ == list_for(self@, selected@),
    {
        self.get_channels(selected)
    }

    /// The list of the account in use, to be changed in place; made first
    /// where the account has none.
    pub fn active_channels_mut(&mut self, default_name: &str, selected: &Pubkey) -> (list:
        &mut ChannelList)
        requires
            old(self).wf(),
        ensures
            if old(self)@.lists.dom().contains(selected@) {
                list@ == old(self)@.lists[selected@]
            } else {
                is_default_list(list@, default_name@)
            },
            final(self).wf(),
            final(self)@.fallback == old(self)@.fallback,
            final(self)@.lists == old(self)@.lists.insert(selected@, final(list)@),
    {
        self.get_channels_mut(default_name, selected)
    }

    /// The channel selected in the list shown for the account in use.
    pub fn selected_channel(&self, selected: &Pubkey) -> (channel: Option<&Channel>)
        requires
            self.wf(),
        ensures
            match channel {
                Some(c) => list_for(self@, selected@).selected < list_for(
                    self@,
                    selected@,
                ).channels.len() && c@ == list_for(self@, selected@).channels[list_for(
                    self@,
                    selected@,
                ).selected as int],
                None => list_for(self@, selected@).selected >= list_for(
                    self@,
                    selected@,
                ).channels.len(),
            },
    {
        self.active_channels(selected).selected_channel()
    }

    /// The channel selected in the list of the account in use, to be changed
    /// in place. The list is made first where the account has none.
    pub fn selected_channel_mut(&mut self, default_name: &str, selected: &Pubkey) -> (channel:
        Option<&mut Channel>)
        requires
            old(self).wf(),
        ensures
            final(self).wf(),
            final(self)@.fallback == old(self)@.fallback,
            final(self)@.lists.dom().contains(selected@),
            final(self)@.lists == old(self)@.lists.insert(selected@, final(self)@.lists[selected@]),
            match channel {
                Some(c) => exists|first: ChannelListView|
                    {
                        &&& if old(self)@.lists.dom().contains(selected@) {
                            first == old(self)@.lists[selected@]
                        } else {
                            is_default_list(first, default_name@)
                        }
                        &&& first.selected < first.channels.len()
                        &&& c@ == first.channels[first.selected as int]
                        &&& final(self)@.lists[selected@] == #[trigger] list_with_channel(
                            first,
                            final(c)@,
                        )
                    },
                None => old(self)@.lists.dom().contains(selected@) && old(
                    self,
                )@.lists[selected@].selected >= old(self)@.lists[selected@].channels.len()
                    && final(self)@ == old(self)@,
            },
    {
        let list = self.active_channels_mut(default_name, selected);
        let ghost first = list@;
        let ghost channels = list.channels@;
        let ghost at = list.selected;
        proof {
            assert forall|after: Channel|
                #![trigger channels.update(at as int, after)]
                at < channels.len() implies list_with_channel(first, after@) == (ChannelListView {
                channels: channel_views(channels.update(at as int, after)),
                selected: at as nat,
            }) by {
                assert(channel_views(channels.update(at as int, after)) =~= first.channels.update(
                    first.selected as int,
                    after@,
                ));
            }
            assert(old(self)@.lists.dom().contains(selected@) ==> old(self)@.lists.insert(
                selected@,
                first,
            ) =~= old(self)@.lists);
        }
        list.selected_channel_mut()
    }

    /// Adds a channel to the list of an account and selects it there. An
    /// account without a list first gets the one an account starts with.
    pub fn add_channel_for_account(&mut self, default_name: &str, pubkey: Pubkey, channel: Channel)
        requires
            old(self).wf(),
        ensures
            final(self).wf(),
            final(self)@.fallback == old(self)@.fallback,
            final(self)@.lists.dom().contains(pubkey@),
            final(self)@.lists == old(self)@.lists.insert(pubkey@, final(self)@.lists[pubkey@]),
            if old(self)@.lists.dom().contains(pubkey@) {
                final(self)@.lists[pubkey@] == list_after_add(old(self)@.lists[pubkey@], channel@)
            } else {
                exists|first: ChannelListView|
                    is_default_list(first, default_name@) && final(self)@.lists[pubkey@]
                        == #[trigger] list_after_add(first, channel@)
            },
    {
        let channels = self.get_channels_mut(default_name, &pubkey);
        let ghost first = channels@;
        channels.add_channel(channel);
        assert(channels@ == list_after_add(first, channel@));
    }

    /// Takes an account's list out of the cache and hands it out, so that the
    /// caller can drop the subscriptions of its channels. Where the fallback
    /// account's list is taken out, a new one takes its place at once: the
    /// list an account starts with, its channel named `default_name`.
    pub fn remove(&mut self, default_name: &str, key: &Pubkey) -> (removed: Option<ChannelList>)
        requires
            old(self).wf(),
        ensures
            final(self).wf(),
            final(self)@.fallback == old(self)@.fallback,
            final(self)@.lists.dom().contains(final(self)@.fallback),
            key@ == old(self)@.fallback ==> final(self)@.lists[final(self)@.fallback].channels.len()
                >= 1,
            match removed {
                Some(list) => {
                    &&& old(self)@.lists.dom().contains(key@)
                    &&& list@ == old(self)@.lists[key@]
                    &&& if key@ == old(self)@.fallback {
                        &&& final(self)@.lists == old(self)@.lists.insert(
                            key@,
                            final(self)@.lists[key@],
                        )
                        &&& is_default_list(final(self)@.lists[key@], default_name@)
                    } else {
                        final(self)@.lists == old(self)@.lists.remove(key@)
                    }
                },
                None => !old(self)@.lists.dom().contains(key@) && final(self)@ == old(self)@,
            },
    {
        let at = match self.find(key) {
            Some(at) => at,
            None => {
                return None;
            },
        };
        proof {
            lemma_collected_distinct(self.account_to_channels@);
            lemma_collected_remove(self.account_to_channels@, at as int);
        }
        let (_, channels) = self.account_to_channels.remove(at);
        let ghost lists = self@.lists;
        if self.find(&self.fallback_pubkey).is_none() {
            let fallback = self.fallback_pubkey;
            self.put((fallback, ChannelList::default_channels(default_name)));
            assert(key@ == fallback@);
            assert(self@.lists =~= old(self)@.lists.insert(key@, self@.lists[key@]));
        }
        Some(channels)
    }
}

} // verus!
