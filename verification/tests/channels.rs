use notedeck_channels::channels::{
    Channel, ChannelEdit, ChannelList, ChannelsCache, SubscribeStep,
};
use notedeck_channels::pubkey::Pubkey;
use notedeck_channels::route::{Route, Router};
use notedeck_channels::timeline::TimelineKind;

fn tags(list: &[&str]) -> Vec<String> {
    list.iter().map(|t| t.to_string()).collect()
}

fn channel(id: u8, name: &str, hashtags: &[&str]) -> Channel {
    Channel::with_id([id; 16], name.to_string(), tags(hashtags))
}

fn key(byte: u8) -> Pubkey {
    Pubkey::new([byte; 32])
}

fn names(list: &ChannelList) -> Vec<String> {
    list.channels.iter().map(|c| c.name.clone()).collect()
}

#[test]
fn a_channel_shows_the_timeline_of_its_hashtags() {
    let c = Channel::with_id([7; 16], "Bitcoin".to_string(), tags(&["bitcoin", "btc"]));
    assert_eq!(c.id, [7; 16]);
    assert_eq!(c.name, "Bitcoin");
    assert_eq!(c.hashtags, tags(&["bitcoin", "btc"]));
    assert_eq!(c.timeline_kind, TimelineKind::Hashtag(tags(&["bitcoin", "btc"])));
    assert_eq!(c.unread_count, 0);
    let expected = vec![Route::Timeline(TimelineKind::Hashtag(tags(&["bitcoin", "btc"])))];
    assert_eq!(c.router().routes(), &expected);
    assert_eq!(c.router().top(), Some(&expected[0]));
}

#[test]
fn a_new_channel_gets_a_random_version_4_identifier() {
    let a = Channel::new("A".to_string(), tags(&["a"]));
    let b = Channel::new("A".to_string(), tags(&["a"]));
    assert_ne!(a.id, b.id);
    for c in [&a, &b] {
        assert_eq!(c.id[6] >> 4, 4);
        assert_eq!(c.id[8] >> 6, 2);
        assert_eq!(c.name, "A");
        assert_eq!(c.timeline_kind, TimelineKind::Hashtag(tags(&["a"])));
        assert_eq!(c.unread_count, 0);
    }
}

#[test]
fn the_stack_of_a_channel_can_be_replaced() {
    let mut c = channel(1, "A", &["a"]);
    *c.router_mut() = Router::new(vec![Route::Search, Route::Relays]);
    assert_eq!(c.router().routes(), &vec![Route::Search, Route::Relays]);
    assert_eq!(c.router().top(), Some(&Route::Relays));
    *c.router_mut() = Router::new(Vec::new());
    assert_eq!(c.router().top(), None);
    assert_eq!(c.name, "A");
}

#[test]
fn timeline_kinds_are_the_same_where_their_hashtags_are() {
    let a = TimelineKind::hashtag(tags(&["x", "y"]));
    assert!(a.same(&TimelineKind::hashtag(tags(&["x", "y"]))));
    assert!(!a.same(&TimelineKind::hashtag(tags(&["y", "x"]))));
    assert!(!a.same(&TimelineKind::hashtag(tags(&["x"]))));
    assert_eq!(a.duplicate(), a);
}

#[test]
fn an_added_channel_stands_last_and_is_selected() {
    let mut list = ChannelList::new();
    assert_eq!(list.num_channels(), 0);
    assert_eq!(list.selected, 0);
    assert!(list.selected_channel().is_none());
    list.add_channel(channel(1, "one", &["1"]));
    assert_eq!(list.selected, 0);
    list.add_channel(channel(2, "two", &["2"]));
    list.add_channel(channel(3, "three", &["3"]));
    assert_eq!(list.num_channels(), 3);
    assert_eq!(list.selected, 2);
    assert_eq!(names(&list), vec!["one", "two", "three"]);
    assert_eq!(list.selected_channel().map(|c| c.id), Some([3; 16]));
    let empty_again = ChannelList::default();
    assert_eq!(empty_again.num_channels(), 0);
}

#[test]
fn the_default_list_holds_the_general_channel() {
    let list = ChannelList::default_channels("General");
    assert_eq!(list.num_channels(), 1);
    assert_eq!(list.selected, 0);
    assert_eq!(list.channels[0].name, "General");
    assert_eq!(list.channels[0].hashtags, tags(&["general"]));
    assert_eq!(list.channels[0].timeline_kind, TimelineKind::Hashtag(tags(&["general"])));
    let other = ChannelList::default_channels("Allgemein");
    assert_eq!(other.channels[0].name, "Allgemein");
    assert_eq!(other.channels[0].hashtags, tags(&["general"]));
}

#[test]
fn removal_keeps_the_last_channel_and_a_valid_selection() {
    let mut list = ChannelList::new();
    assert!(list.remove_channel(0).is_none());
    list.add_channel(channel(1, "one", &["1"]));
    assert!(list.remove_channel(0).is_none());
    assert_eq!(list.num_channels(), 1);
    list.add_channel(channel(2, "two", &["2"]));
    list.add_channel(channel(3, "three", &["3"]));
    assert!(list.remove_channel(3).is_none());
    assert_eq!(list.selected, 2);
    let removed = list.remove_channel(2);
    assert_eq!(removed.map(|c| c.name), Some("three".to_string()));
    assert_eq!(list.selected, 1);
    assert_eq!(names(&list), vec!["one", "two"]);
    let removed = list.remove_channel(0);
    assert_eq!(removed.map(|c| c.timeline_kind), Some(TimelineKind::Hashtag(tags(&["1"]))));
    assert_eq!(list.selected, 0);
    assert_eq!(names(&list), vec!["two"]);
    assert!(list.remove_channel(0).is_none());
    assert_eq!(names(&list), vec!["two"]);
}

#[test]
fn removal_before_the_selection_leaves_the_index_where_it_fits() {
    let mut list = ChannelList::new();
    for (i, name) in ["a", "b", "c", "d"].iter().enumerate() {
        list.add_channel(channel(i as u8, name, &[name]));
    }
    list.select_channel(1);
    assert!(list.remove_channel(0).is_some());
    assert_eq!(list.selected, 1);
    assert_eq!(list.selected_channel().map(|c| c.name.clone()), Some("c".to_string()));
}

#[test]
fn any_run_of_changes_keeps_the_selection_valid() {
    let mut list = ChannelList::new();
    let mut seed: u32 = 12345;
    let mut was_filled = false;
    for step in 0..400u32 {
        seed = seed.wrapping_mul(1664525).wrapping_add(1013904223);
        let index = ((seed >> 8) % 6) as usize;
        match (seed >> 4) % 4 {
            0 => list.add_channel(channel(step as u8, "c", &["t"])),
            1 | 2 => {
                let before = list.num_channels();
                let removed = list.remove_channel(index);
                assert_eq!(removed.is_some(), index < before && before > 1);
            }
            _ => list.select_channel(index),
        }
        if list.num_channels() > 0 {
            was_filled = true;
            assert!(list.selected < list.num_channels());
            assert!(list.selected_channel().is_some());
        }
        if was_filled {
            assert!(list.num_channels() >= 1);
        }
    }
    assert!(was_filled);
}

#[test]
fn selecting_outside_the_list_changes_nothing() {
    let mut list = ChannelList::new();
    list.select_channel(0);
    assert_eq!(list.selected, 0);
    list.add_channel(channel(1, "one", &["1"]));
    list.add_channel(channel(2, "two", &["2"]));
    list.select_channel(0);
    assert_eq!(list.selected, 0);
    list.select_channel(2);
    assert_eq!(list.selected, 0);
    list.select_channel(1);
    assert_eq!(list.selected, 1);
    assert_eq!(list.get_channel(1).map(|c| c.id), Some([2; 16]));
    assert!(list.get_channel(2).is_none());
}

#[test]
fn channels_can_be_changed_in_place() {
    let mut list = ChannelList::new();
    assert!(list.selected_channel_mut().is_none());
    assert!(list.get_channel_mut(0).is_none());
    list.add_channel(channel(1, "one", &["1"]));
    list.add_channel(channel(2, "two", &["2"]));
    if let Some(c) = list.selected_channel_mut() {
        c.unread_count = 4;
    }
    if let Some(c) = list.get_channel_mut(0) {
        c.unread_count = 9;
    }
    assert_eq!(list.channels[0].unread_count, 9);
    assert_eq!(list.channels[1].unread_count, 4);
    assert_eq!(list.selected, 1);
}

#[test]
fn an_edit_reports_the_timeline_to_drop() {
    let mut list = ChannelList::new();
    list.add_channel(channel(1, "one", &["1"]));
    list.channels[0].unread_count = 3;
    *list.channels[0].router_mut() = Router::new(vec![Route::Search]);
    let edit = list.edit_channel(1, "x".to_string(), tags(&["x"]));
    assert_eq!(edit, ChannelEdit::NoChannel);
    assert_eq!(list.channels[0].name, "one");

    let edit = list.edit_channel(0, "uno".to_string(), tags(&["1"]));
    assert_eq!(edit, ChannelEdit::SameTimeline);
    assert_eq!(list.channels[0].name, "uno");
    assert_eq!(list.channels[0].id, [1; 16]);
    assert_eq!(list.channels[0].unread_count, 3);
    let fresh = vec![Route::Timeline(TimelineKind::Hashtag(tags(&["1"])))];
    assert_eq!(list.channels[0].router().routes(), &fresh);

    let edit = list.edit_channel(0, "uno".to_string(), tags(&["1", "one"]));
    assert_eq!(edit, ChannelEdit::NewTimeline(TimelineKind::Hashtag(tags(&["1"]))));
    assert_eq!(list.channels[0].hashtags, tags(&["1", "one"]));
    assert_eq!(list.channels[0].timeline_kind, TimelineKind::Hashtag(tags(&["1", "one"])));
    assert_eq!(list.selected, 0);
}

#[test]
fn subscribing_takes_each_channel_in_turn() {
    let mut list = ChannelList::new();
    assert_eq!(list.subscribe_step(SubscribeStep::Begin, true), SubscribeStep::Done);
    for i in 0..3u8 {
        list.add_channel(channel(i, "c", &["t"]));
    }
    assert_eq!(list.subscribe_step(SubscribeStep::Begin, false), SubscribeStep::Done);
    let cached = [false, true, false];
    let mut opened = Vec::new();
    let mut looked = Vec::new();
    let mut step = list.subscribe_step(SubscribeStep::Begin, true);
    let mut steps = 0;
    while step != SubscribeStep::Done {
        steps += 1;
        assert!(steps <= 7);
        let answer = match step {
            SubscribeStep::Lookup(i) => {
                looked.push(i);
                cached[i]
            }
            SubscribeStep::Open(i) => {
                opened.push(i);
                i == 0
            }
            _ => true,
        };
        step = list.subscribe_step(step, answer);
    }
    assert_eq!(looked, vec![0, 1, 2]);
    assert_eq!(opened, vec![0, 2]);
    assert_eq!(list.subscribe_step(SubscribeStep::Done, true), SubscribeStep::Done);
    assert_eq!(list.subscribe_step(SubscribeStep::Lookup(3), false), SubscribeStep::Done);
    assert_eq!(list.subscribe_step(SubscribeStep::Open(usize::MAX), true), SubscribeStep::Done);
    assert_eq!(list.subscribe_step(SubscribeStep::Lookup(2), true), SubscribeStep::Done);
    assert_eq!(list.subscribe_step(SubscribeStep::Lookup(1), true), SubscribeStep::Lookup(2));
    assert_eq!(list.subscribe_step(SubscribeStep::Lookup(1), false), SubscribeStep::Open(1));
}

#[test]
fn unsubscribing_names_the_timeline_of_each_channel() {
    let mut list = ChannelList::new();
    assert!(list.unsubscribe_all().is_empty());
    list.add_channel(channel(1, "one", &["1"]));
    list.add_channel(channel(2, "two", &["2", "two"]));
    list.add_channel(channel(3, "again", &["1"]));
    let expected = vec![
        TimelineKind::Hashtag(tags(&["1"])),
        TimelineKind::Hashtag(tags(&["2", "two"])),
        TimelineKind::Hashtag(tags(&["1"])),
    ];
    assert_eq!(list.unsubscribe_all(), expected);
}

#[test]
fn the_default_cache_holds_the_fallback_account_alone() {
    let cache = ChannelsCache::default_channels_cache(key(0xaa), "General");
    assert_eq!(cache.get_fallback_pubkey(), &key(0xaa));
    assert_eq!(cache.get_mapping().len(), 1);
    assert_eq!(cache.get_mapping()[0].0, key(0xaa));
    let list = cache.fallback();
    assert_eq!(list.num_channels(), 1);
    assert_eq!(list.selected, 0);
    assert_eq!(list.channels[0].name, "General");
    assert_eq!(list.channels[0].hashtags, tags(&["general"]));
}

#[test]
fn an_account_without_a_list_is_shown_the_fallback() {
    let mut cache = ChannelsCache::default_channels_cache(key(0xaa), "General");
    cache.fallback_mut().add_channel(channel(9, "extra", &["x"]));
    let shown = cache.get_channels(&key(1));
    assert_eq!(names(shown), vec!["General", "extra"]);
    assert_eq!(names(cache.active_channels(&key(1))), vec!["General", "extra"]);
    assert_eq!(cache.selected_channel(&key(1)).map(|c| c.id), Some([9; 16]));
    assert_eq!(cache.get_mapping().len(), 1);
}

#[test]
fn asking_for_a_list_to_change_makes_one() {
    let mut cache = ChannelsCache::default_channels_cache(key(0xaa), "General");
    {
        let list = cache.get_channels_mut("Home", &key(1));
        assert_eq!(names(list), vec!["Home"]);
        list.add_channel(channel(5, "five", &["5"]));
    }
    assert_eq!(cache.get_mapping().len(), 2);
    assert_eq!(names(cache.get_channels(&key(1))), vec!["Home", "five"]);
    assert_eq!(names(cache.fallback()), vec!["General"]);
    {
        let list = cache.active_channels_mut("Other", &key(1));
        assert_eq!(names(list), vec!["Home", "five"]);
    }
    if let Some(c) = cache.selected_channel_mut("Other", &key(1)) {
        assert_eq!(c.name, "five");
        c.unread_count = 2;
    }
    assert_eq!(cache.get_channels(&key(1)).channels[1].unread_count, 2);
    let made = cache.selected_channel_mut("Third", &key(2)).map(|c| c.name.clone());
    assert_eq!(made, Some("Third".to_string()));
    assert_eq!(cache.get_mapping().len(), 3);
}

#[test]
fn a_channel_is_added_to_the_list_of_its_account() {
    let mut cache = ChannelsCache::default_channels_cache(key(0xaa), "General");
    cache.add_channel_for_account("General", key(1), channel(5, "five", &["5"]));
    assert_eq!(names(cache.get_channels(&key(1))), vec!["General", "five"]);
    assert_eq!(cache.get_channels(&key(1)).selected, 1);
    cache.add_channel_for_account("General", key(0xaa), channel(6, "six", &["6"]));
    assert_eq!(names(cache.fallback()), vec!["General", "six"]);
    assert_eq!(cache.get_mapping().len(), 2);
}

#[test]
fn removing_the_fallback_account_leaves_a_new_default_list() {
    let mut cache = ChannelsCache::default_channels_cache(key(0xaa), "General");
    cache.fallback_mut().add_channel(channel(9, "extra", &["x"]));
    let removed = cache.remove("Allgemein", &key(0xaa));
    assert_eq!(removed.map(|l| names(&l)), Some(vec!["General".to_string(), "extra".to_string()]));
    assert_eq!(cache.get_mapping().len(), 1);
    let list = cache.fallback();
    assert_eq!(names(list), vec!["Allgemein"]);
    assert_eq!(list.channels[0].hashtags, tags(&["general"]));
    assert_eq!(list.selected, 0);
}

#[test]
fn removing_an_account_hands_out_its_list() {
    let mut cache = ChannelsCache::default_channels_cache(key(0xaa), "General");
    assert!(cache.remove("General", &key(1)).is_none());
    cache.add_channel_for_account("General", key(1), channel(5, "five", &["5"]));
    cache.add_channel_for_account("General", key(2), channel(6, "six", &["6"]));
    let removed = cache.remove("General", &key(1)).map(|l| l.unsubscribe_all());
    assert_eq!(
        removed,
        Some(vec![
            TimelineKind::Hashtag(tags(&["general"])),
            TimelineKind::Hashtag(tags(&["5"])),
        ])
    );
    assert_eq!(cache.get_mapping().len(), 2);
    assert_eq!(names(cache.get_channels(&key(1))), vec!["General"]);
    assert_eq!(names(cache.get_channels(&key(2))), vec!["General", "six"]);
    assert!(cache.remove("General", &key(1)).is_none());
}

#[test]
fn a_cache_is_made_from_lists_and_given_a_fallback() {
    let mut one = ChannelList::new();
    one.add_channel(channel(1, "one", &["1"]));
    let mut two = ChannelList::new();
    two.add_channel(channel(2, "two", &["2"]));
    let mut later = ChannelList::new();
    later.add_channel(channel(3, "later", &["3"]));
    let cache = ChannelsCache::new(
        vec![(key(1), one), (key(2), two), (key(1), later)],
        key(0xaa),
        "General",
    );
    assert_eq!(cache.get_mapping().len(), 3);
    assert_eq!(names(cache.get_channels(&key(1))), vec!["later"]);
    assert_eq!(names(cache.get_channels(&key(2))), vec!["two"]);
    assert_eq!(names(cache.fallback()), vec!["General"]);

    let mut kept = ChannelList::new();
    kept.add_channel(channel(4, "kept", &["4"]));
    let cache = ChannelsCache::new(vec![(key(0xaa), kept)], key(0xaa), "General");
    assert_eq!(cache.get_mapping().len(), 1);
    assert_eq!(names(cache.fallback()), vec!["kept"]);

    let cache = ChannelsCache::new(vec![(key(7), ChannelList::new())], key(0xaa), "General");
    assert_eq!(cache.get_channels(&key(7)).num_channels(), 0);
    assert!(cache.selected_channel(&key(7)).is_none());
}
