//! Channel lists in the form in which they are kept on disk: identifiers
//! and keys as text, and nothing that can be made again from the rest.

use vstd::prelude::*;
use vstd::string::*;
use crate::channel_id::{
    id_from_str, id_to_string, lemma_uuid_text_round_trip, random_id, uuid_from_text, uuid_text,
};
use crate::channels::{
    is_default_list, new_channel, Channel, ChannelList, ChannelListView,
    ChannelView, ChannelsCache,
};
use crate::hex::hex_text;
use crate::keyed::{collected, distinct_keys, lemma_collected_distinct};
use crate::pubkey::{key_from_hex, lemma_key_hex_round_trip, KeyError, Pubkey};
use crate::text::{clone_strings, texts};

verus! {

/// A channel as it is kept on disk.
#[derive(Debug, Clone, PartialEq, Eq)]
pub struct SerializableChannel {
    /// The identifier in its hyphenated form.
    pub id: String,
    pub name: String,
    pub hashtags: Vec<String>,
}

/// A [`SerializableChannel`] as mathematical values.
pub struct SerializableChannelView {
    pub id: Seq<char>,
    pub name: Seq<char>,
    pub hashtags: Seq<Seq<char>>,
}

impl View for SerializableChannel {
    type V = SerializableChannelView;

    open spec fn view(&self) -> SerializableChannelView {
        SerializableChannelView {
            id: self.id@,
            name: self.name@,
            hashtags: texts(self.hashtags@),
        }
    }
}

/// What is kept of a channel: its identifier as text, its name and its
/// hashtags.
pub open spec fn saved_channel(channel: ChannelView) -> SerializableChannelView {
    SerializableChannelView {
        id: uuid_text(channel.id),
        name: channel.name,
        hashtags: channel.hashtags,
    }
}

/// `channel` is what reading `saved` back can give: a channel as new, with
/// the name and hashtags kept and the identifier that the text writes.
/// Where the text writes none, the channel has some other identifier.
pub open spec fn channel_restored(saved: SerializableChannelView, channel: ChannelView) -> bool {
    &&& channel == new_channel(channel.id, saved.name, saved.hashtags)
    &&& channel.id.len() == 16
    &&& match uuid_from_text(saved.id) {
        Some(id) => channel.id == id,
        None => true,
    }
}

impl SerializableChannel {
    /// What is kept of a channel.
    pub fn from_channel(channel: &Channel) -> (saved: Self)
        ensures
            saved@ == saved_channel(channel@),
    {
        SerializableChannel {
            id: id_to_string(&channel.id),
            name: channel.name.clone(),
            hashtags: clone_strings(&channel.hashtags),
        }
    }

    /// The channel read back. One whose identifier cannot be read gets a
    /// fresh random one.
    pub fn channel(self) -> (channel: Channel)
        ensures
            channel_restored(self@, channel@),
    {
        let id = match id_from_str(self.id.as_str()) {
            Some(id) => id,
            None => random_id(),
        };
        Channel::with_id(id, self.name, self.hashtags)
    }
}

/// The channels of one account as they are kept on disk.
#[derive(Debug, Clone, PartialEq, Eq)]
pub struct SerializableChannelList {
    pub channels: Vec<SerializableChannel>,
    pub selected: usize,
}

/// A [`SerializableChannelList`] as mathematical values.
pub struct SerializableChannelListView {
    pub channels: Seq<SerializableChannelView>,
    pub selected: nat,
}

impl View for SerializableChannelList {
    type V = SerializableChannelListView;

    open spec fn view(&self) -> SerializableChannelListView {
        SerializableChannelListView {
            channels: self.channels@.map_values(|c: SerializableChannel| c@),
            selected: self.selected as nat,
        }
    }
}

/// What is kept of a list: what is kept of each channel, in order, and the
/// selection.
pub open spec fn saved_list(list: ChannelListView) -> SerializableChannelListView {
    SerializableChannelListView {
        channels: list.channels.map_values(|c: ChannelView| saved_channel(c)),
        selected: list.selected,
    }
}

/// `list` is what reading `saved` back can give: the channels read back in
/// the same order, and the same selection.
pub open spec fn list_restored(saved: SerializableChannelListView, list: ChannelListView) -> bool {
    &&& list.selected == saved.selected
    &&& list.channels.len() == saved.channels.len()
    &&& forall|i: int|
        0 <= i < saved.channels.len() ==> channel_restored(
            #[trigger] saved.channels[i],
            list.channels[i],
        )
}

impl SerializableChannelList {
    /// What is kept of a list.
    pub fn from_channel_list(channel_list: &ChannelList) -> (saved: Self)
        ensures
            saved@ == saved_list(channel_list@),
    {
        let mut channels: Vec<SerializableChannel> = Vec::new();
        let mut i: usize = 0;
        while i < channel_list.channels.len()
            invariant
                i <= channel_list.channels.len(),
                channels.len() == i,
                forall|j: int|
                    0 <= j < i ==> (#[trigger] channels@[j])@ == saved_channel(
                        channel_list.channels@[j]@,
                    ),
            decreases channel_list.channels.len() - i,
        {
            channels.push(SerializableChannel::from_channel(&channel_list.channels[i]));
            i += 1;
        }
        let saved = SerializableChannelList { channels, selected: channel_list.selected };
        assert(saved@.channels =~= saved_list(channel_list@).channels);
        saved
    }

    /// The list read back.
    pub fn channel_list(self) -> (list: ChannelList)
        ensures
            list_restored(self@, list@),
    {
        let ghost saved = self@;
        let selected = self.selected;
        let mut channels: Vec<Channel> = Vec::new();
        for channel in it: self.channels
            invariant
                it.seq().map_values(|c: SerializableChannel| c@) == saved.channels,
                channels.len() == it.index(),
                forall|j: int|
                    0 <= j < it.index() ==> channel_restored(
                        #[trigger] saved.channels[j],
                        channels@[j]@,
                    ),
        {
            assert(saved.channels[it.index() as int] == channel@);
            channels.push(channel.channel());
        }
        ChannelList { channels, selected }
    }
}

/// The channel lists of all accounts as they are kept on disk.
#[derive(Debug, Clone, PartialEq, Eq)]
pub struct SerializableChannelsCache {
    pub channels_cache: Vec<(Pubkey, SerializableChannelList)>,
}

/// `lists` is what reading `saved` back can give: each account's list read
/// back, and a list for the fallback account, which is the one an account
/// starts with where none was kept.
pub open spec fn cache_restored(
    saved: Map<Seq<u8>, SerializableChannelListView>,
    fallback: Seq<u8>,
    default_name: Seq<char>,
    lists: Map<Seq<u8>, ChannelListView>,
) -> bool {
    &&& lists.dom() == saved.dom().insert(fallback)
    &&& forall|key: Seq<u8>| #[trigger]
        saved.dom().contains(key) ==> list_restored(saved[key], lists[key])
    &&& !saved.dom().contains(fallback) ==> is_default_list(lists[fallback], default_name)
}

impl SerializableChannelsCache {
    /// What is kept of a cache: each account once, with what is kept of its
    /// list.
    pub fn to_serializable(channels_cache: &ChannelsCache) -> (saved: Self)
        requires
            channels_cache.wf(),
        ensures
            distinct_keys(saved.channels_cache@),
            collected(saved.channels_cache@).dom() == channels_cache@.lists.dom(),
            forall|key: Seq<u8>| #[trigger]
                channels_cache@.lists.dom().contains(key) ==> collected(
                    saved.channels_cache@,
                )[key] == saved_list(channels_cache@.lists[key]),
    {
        let entries = channels_cache.get_mapping();
        let mut saved: Vec<(Pubkey, SerializableChannelList)> = Vec::new();
        let mut i: usize = 0;
        while i < entries.len()
            invariant
                i <= entries.len(),
                saved.len() == i,
                forall|j: int|
                    0 <= j < i ==> (#[trigger] saved@[j]).0 == entries@[j].0 && saved@[j].1@
                        == saved_list(entries@[j].1@),
            decreases entries.len() - i,
        {
            saved.push((entries[i].0, SerializableChannelList::from_channel_list(&entries[i].1)));
            i += 1;
        }
        proof {
            let lists = channels_cache@.lists;
            let kept = collected(saved@);
            assert(distinct_keys(saved@)) by {
                assert forall|a: int, b: int| 0 <= a < b < saved@.len() implies saved@[a].0@
                    != saved@[b].0@ by {
                    assert(saved@[a].0 == entries@[a].0 && saved@[b].0 == entries@[b].0);
                }
            }
            lemma_collected_distinct(saved@);
            assert forall|key: Seq<u8>| kept.dom().contains(key) implies lists.dom().contains(key) by {
                let j = choose|j: int| 0 <= j < saved@.len() && #[trigger] saved@[j].0@ == key;
                assert(lists.dom().contains(entries@[j].0@));
            }
            assert forall|key: Seq<u8>| #[trigger] lists.dom().contains(key) implies kept.dom().contains(
                key,
            ) && kept[key] == saved_list(lists[key]) by {
                let j = choose|j: int| 0 <= j < entries@.len() && #[trigger] entries@[j].0@ == key;
                assert(kept.dom().contains(saved@[j].0@));
                assert(lists.dom().contains(entries@[j].0@));
            }
            assert(kept.dom() =~= lists.dom());
        }
        SerializableChannelsCache { channels_cache: saved }
    }

    /// The cache read back, the later of two lists kept for one account
    /// winning. The fallback account gets the list an account starts with,
    /// its channel named `default_name`, where none was kept for it.
    pub fn channels_cache(self, fallback_pubkey: Pubkey, default_name: &str) -> (cache: ChannelsCache)
        ensures
            cache.wf(),
            cache@.fallback == fallback_pubkey@,
            cache_restored(
                collected(self.channels_cache@),
                fallback_pubkey@,
                default_name@,
                cache@.lists,
            ),
    {
        let ghost saved = self.channels_cache@;
        let mut account_to_channels: Vec<(Pubkey, ChannelList)> = Vec::new();
        for entry in it: self.channels_cache
            invariant
                it.seq() == saved,
                account_to_channels.len() == it.index(),
                forall|j: int|
                    0 <= j < it.index() ==> (#[trigger] account_to_channels@[j]).0 == saved[j].0
                        && list_restored(saved[j].1@, account_to_channels@[j].1@),
        {
            let (key, list) = entry;
            account_to_channels.push((key, list.channel_list()));
        }
        proof {
            lemma_collected_restored(saved, account_to_channels@);
        }
        let cache = ChannelsCache::new(account_to_channels, fallback_pubkey, default_name);
        proof {
            let kept = collected(saved);
            let given = collected(account_to_channels@);
            assert(cache@.lists.dom() =~= kept.dom().insert(fallback_pubkey@));
        }
        cache
    }
}

/// Lists read back entry by entry collect to the collected lists read back.
pub proof fn lemma_collected_restored(
    saved: Seq<(Pubkey, SerializableChannelList)>,
    read: Seq<(Pubkey, ChannelList)>,
)
    requires
        read.len() == saved.len(),
        forall|j: int|
            0 <= j < saved.len() ==> (#[trigger] read[j]).0 == saved[j].0 && list_restored(
                saved[j].1@,
                read[j].1@,
            ),
    ensures
        collected(read).dom() == collected(saved).dom(),
        forall|key: Seq<u8>| #[trigger]
            collected(saved).dom().contains(key) ==> list_restored(
                collected(saved)[key],
                collected(read)[key],
            ),
    decreases saved.len(),
{
    if saved.len() > 0 {
        lemma_collected_restored(saved.drop_last(), read.drop_last());
        assert(read.last().0 == saved.last().0);
        assert(collected(read).dom() =~= collected(saved).dom());
    } else {
        assert(collected(read).dom() =~= collected(saved).dom());
    }
}

/// The entries with each key written as text, as the keys of the settings
/// file are: 64 lower-case hexadecimal digits.
pub fn serialize_map(map: &Vec<(Pubkey, SerializableChannelList)>) -> (stringified: Vec<
    (String, &SerializableChannelList),
>)
    ensures
        stringified.len() == map.len(),
        forall|i: int|
            0 <= i < map.len() ==> (#[trigger] stringified@[i]).0@ == hex_text(map@[i].0@)
                && *stringified@[i].1 == map@[i].1,
{
    let mut stringified: Vec<(String, &SerializableChannelList)> = Vec::new();
    let mut i: usize = 0;
    while i < map.len()
        invariant
            i <= map.len(),
            stringified.len() == i,
            forall|j: int|
                0 <= j < i ==> (#[trigger] stringified@[j]).0@ == hex_text(map@[j].0@)
                    && *stringified@[j].1 == map@[j].1,
        decreases map.len() - i,
    {
        stringified.push((map[i].0.hex(), &map[i].1));
        i += 1;
    }
    stringified
}

/// The entries with each key read from its text. The first key that is not
/// the text of a key fails the whole, with the reason why it is none.
pub fn deserialize_map(stringified: Vec<(String, SerializableChannelList)>) -> (map: Result<
    Vec<(Pubkey, SerializableChannelList)>,
    KeyError,
>)
    ensures
        match map {
            Ok(entries) => {
                &&& entries.len() == stringified.len()
                &&& forall|i: int|
                    0 <= i < stringified.len() ==> key_from_hex(
                        (#[trigger] stringified@[i]).0@,
                    ) == Ok::<Seq<u8>, KeyError>(entries@[i].0@) && entries@[i].1
                        == stringified@[i].1
            },
            Err(error) => exists|i: int|
                {
                    &&& 0 <= i < stringified.len()
                    &&& key_from_hex((#[trigger] stringified@[i]).0@) == Err::<Seq<u8>, KeyError>(
                        error,
                    )
                    &&& forall|j: int|
                        0 <= j < i ==> key_from_hex((#[trigger] stringified@[j]).0@) is Ok
                },
        },
{
    let ghost given = stringified@;
    let mut entries: Vec<(Pubkey, SerializableChannelList)> = Vec::new();
    for entry in it: stringified
        invariant
            it.seq() == given,
            entries.len() == it.index(),
            forall|i: int|
                0 <= i < it.index() ==> key_from_hex((#[trigger] given[i]).0@) == Ok::<
                    Seq<u8>,
                    KeyError,
                >(entries@[i].0@) && entries@[i].1 == given[i].1,
    {
        let (text, list) = entry;
        match Pubkey::from_hex(text.as_str()) {
            Ok(key) => {
                entries.push((key, list));
            },
            Err(error) => {
                assert(key_from_hex(given[it.index() as int].0@) == Err::<Seq<u8>, KeyError>(error));
                return Err(error);
            },
        }
    }
    Ok(entries)
}

/// Two lists agree in what is kept of them: the selection, and the
/// identifier, name and hashtags of each channel, in order.
pub open spec fn same_kept(list: ChannelListView, other: ChannelListView) -> bool {
    &&& other.selected == list.selected
    &&& other.channels.len() == list.channels.len()
    &&& forall|i: int|
        0 <= i < list.channels.len() ==> (#[trigger] other.channels[i]).id == list.channels[i].id
            && other.channels[i].name == list.channels[i].name && other.channels[i].hashtags
            == list.channels[i].hashtags
}

/// Every channel of the list has an identifier of 16 bytes.
pub open spec fn ids_whole(list: ChannelListView) -> bool {
    forall|i: int| 0 <= i < list.channels.len() ==> (#[trigger] list.channels[i]).id.len() == 16
}

/// A channel read back from what was kept of it has the same identifier,
/// name and hashtags, and is otherwise as new.
pub proof fn lemma_channel_round_trip(channel: ChannelView, read: ChannelView)
    requires
        channel.id.len() == 16,
        channel_restored(saved_channel(channel), read),
    ensures
        read == new_channel(channel.id, channel.name, channel.hashtags),
{
    lemma_uuid_text_round_trip(channel.id);
}

/// A list read back from what was kept of it has the same selection and the
/// same channels in the same order, by identifier, name and hashtags.
pub proof fn lemma_list_round_trip(list: ChannelListView, read: ChannelListView)
    requires
        ids_whole(list),
        list_restored(saved_list(list), read),
    ensures
        same_kept(list, read),
        forall|i: int|
            0 <= i < list.channels.len() ==> #[trigger] read.channels[i] == new_channel(
                list.channels[i].id,
                list.channels[i].name,
                list.channels[i].hashtags,
            ),
{
    assert forall|i: int| 0 <= i < list.channels.len() implies #[trigger] read.channels[i]
        == new_channel(list.channels[i].id, list.channels[i].name, list.channels[i].hashtags) by {
        assert(saved_list(list).channels[i] == saved_channel(list.channels[i]));
        lemma_channel_round_trip(list.channels[i], read.channels[i]);
    }
}

/// The lists of a cache read back from what was kept of them are the lists
/// of the same accounts, each with the same selection and the same channels
/// in the same order, by identifier, name and hashtags.
pub proof fn lemma_cache_round_trip(
    lists: Map<Seq<u8>, ChannelListView>,
    fallback: Seq<u8>,
    default_name: Seq<char>,
    saved: Map<Seq<u8>, SerializableChannelListView>,
    read: Map<Seq<u8>, ChannelListView>,
)
    requires
        lists.dom().contains(fallback),
        forall|key: Seq<u8>| #[trigger] lists.dom().contains(key) ==> ids_whole(lists[key]),
        saved.dom() == lists.dom(),
        forall|key: Seq<u8>| #[trigger] lists.dom().contains(key) ==> saved[key] == saved_list(lists[key]),
        cache_restored(saved, fallback, default_name, read),
    ensures
        read.dom() == lists.dom(),
        forall|key: Seq<u8>| #[trigger] lists.dom().contains(key) ==> same_kept(lists[key], read[key]),
{
    assert(read.dom() =~= lists.dom());
    assert forall|key: Seq<u8>| #[trigger] lists.dom().contains(key) implies same_kept(
        lists[key],
        read[key],
    ) by {
        assert(saved.dom().contains(key));
        lemma_list_round_trip(lists[key], read[key]);
    }
}

/// The keys of a cache, written as text and read back, are the same keys.
pub proof fn lemma_keys_round_trip(keys: Seq<Pubkey>)
    ensures
        forall|i: int|
            0 <= i < keys.len() ==> key_from_hex(hex_text((#[trigger] keys[i])@)) == Ok::<
                Seq<u8>,
                KeyError,
            >(keys[i]@),
{
    assert forall|i: int| 0 <= i < keys.len() implies key_from_hex(
        hex_text((#[trigger] keys[i])@),
    ) == Ok::<Seq<u8>, KeyError>(keys[i]@) by {
        lemma_key_hex_round_trip(keys[i]);
    }
}

} // verus!
