//! The relays the client connects to, whichever account is in use.

use vstd::prelude::*;
use vstd::string::*;
use crate::text::{
    compare_text, lemma_text_before_asymmetric, lemma_text_before_transitive, text_before, texts,
    TextOrder,
};

verus! {

/// Each text stands before every later one, so no text occurs twice.
pub open spec fn ascending(list: Seq<Seq<char>>) -> bool {
    forall|i: int, j: int| 0 <= i < j < list.len() ==> text_before(list[i], list[j])
}

/// In an ascending list no text occurs twice.
pub proof fn lemma_ascending_no_duplicates(list: Seq<Seq<char>>)
    requires
        ascending(list),
    ensures
        list.no_duplicates(),
{
    assert forall|i: int, j: int| 0 <= i < list.len() && 0 <= j < list.len() && i != j implies list[i]
        != list[j] by {
        if i < j {
            lemma_text_before_asymmetric(list[i], list[j]);
        } else {
            lemma_text_before_asymmetric(list[j], list[i]);
        }
    }
}

/// The relays a new installation starts with.
pub open spec fn default_relay_set() -> Set<Seq<char>> {
    Set::<Seq<char>>::empty().insert("wss://relay.damus.io"@).insert(
        "wss://relay.nostr.band"@,
    ).insert("wss://nos.lol"@)
}

/// A set of relay addresses. They are kept, and handed out, in ascending
/// order.
#[derive(Debug, Clone)]
pub struct RelayConfig {
    relays: Vec<String>,
}

impl View for RelayConfig {
    type V = Set<Seq<char>>;

    /// The addresses held.
    closed spec fn view(&self) -> Set<Seq<char>> {
        texts(self.relays@).to_set()
    }
}

impl RelayConfig {
    /// The addresses are stored in ascending order.
    pub closed spec fn wf(&self) -> bool {
        ascending(texts(self.relays@))
    }

    /// A well-formed configuration holds finitely many addresses.
    pub proof fn lemma_finite(&self)
        requires
            self.wf(),
        ensures
            self@.finite(),
    {
        vstd::seq_lib::seq_to_set_is_finite(texts(self.relays@));
    }

    /// A configuration without relays.
    pub fn new() -> (config: Self)
        ensures
            config.wf(),
            config@ == Set::<Seq<char>>::empty(),
    {
        let config = RelayConfig { relays: Vec::new() };
        assert(texts(config.relays@).to_set() =~= Set::<Seq<char>>::empty());
        config
    }

    /// The configuration of a new installation: three well-known public
    /// relays.
    pub fn default_relays() -> (config: Self)
        ensures
            config.wf(),
            config@ == default_relay_set(),
    {
        let mut config = RelayConfig::new();
        config.add_relay("wss://relay.damus.io".to_owned());
        config.add_relay("wss://relay.nostr.band".to_owned());
        config.add_relay("wss://nos.lol".to_owned());
        config
    }

    /// Where `url` stands among the stored addresses, or would stand.
    fn position(&self, url: &str) -> (place: (bool, usize))
        requires
            self.wf(),
        ensures
            place.1 <= self.relays.len(),
            forall|j: int| 0 <= j < place.1 ==> text_before(#[trigger] texts(self.relays@)[j], url@),
            place.0 ==> place.1 < self.relays.len() && self.relays[place.1 as int]@ == url@,
            !place.0 ==> forall|j: int|
                place.1 <= j < self.relays.len() ==> text_before(
                    url@,
                    #[trigger] texts(self.relays@)[j],
                ),
            place.0 == self@.contains(url@),
    {
        let ghost list = texts(self.relays@);
        let mut i: usize = 0;
        while i < self.relays.len()
            invariant
                i <= self.relays.len(),
                list == texts(self.relays@),
                ascending(list),
                forall|j: int| 0 <= j < i ==> text_before(list[j], url@),
            decreases self.relays.len() - i,
        {
            match compare_text(self.relays[i].as_str(), url) {
                TextOrder::Before => {
                    i += 1;
                },
                TextOrder::Same => {
                    assert(list[i as int] == url@);
                    return (true, i);
                },
                TextOrder::After => {
                    proof {
                        assert forall|j: int| i <= j < list.len() implies text_before(
                            url@,
                            list[j],
                        ) by {
                            if j > i {
                                lemma_text_before_transitive(url@, list[i as int], list[j]);
                            }
                        }
                        assert forall|j: int| 0 <= j < list.len() implies list[j] != url@ by {
                            if j < i {
                                lemma_text_before_asymmetric(list[j], url@);
                            } else {
                                lemma_text_before_asymmetric(url@, list[j]);
                            }
                        }
                    }
                    return (false, i);
                },
            }
        }
        proof {
            assert forall|j: int| 0 <= j < list.len() implies list[j] != url@ by {
                lemma_text_before_asymmetric(list[j], url@);
            }
        }
        (false, i)
    }

    /// Adds a relay and says whether it was new. Adding an address that is
    /// already held changes nothing.
    pub fn add_relay(&mut self, url: String) -> (inserted: bool)
        requires
            old(self).wf(),
        ensures
            final(self).wf(),
            final(self)@ == old(self)@.insert(url@),
            inserted == !old(self)@.contains(url@),
    {
        let ghost before = texts(self.relays@);
        let (found, i) = self.position(url.as_str());
        if found {
            assert(before.to_set().insert(url@) =~= before.to_set());
            return false;
        }
        proof {
            let after = before.insert(i as int, url@);
            assert(texts(self.relays@.insert(i as int, url)) =~= after);
            assert forall|a: int, b: int| 0 <= a < b < after.len() implies text_before(
                after[a],
                after[b],
            ) by {
                if b < i {
                    assert(after[a] == before[a] && after[b] == before[b]);
                } else if b == i {
                    assert(after[a] == before[a]);
                } else if a < i {
                    assert(after[a] == before[a] && after[b] == before[b - 1]);
                } else if a == i {
                    assert(after[b] == before[b - 1]);
                } else {
                    assert(after[a] == before[a - 1] && after[b] == before[b - 1]);
                }
            }
            assert(after.to_set() =~= before.to_set().insert(url@)) by {
                assert forall|t: Seq<char>| after.to_set().contains(t) implies before.to_set().insert(
                    url@,
                ).contains(t) by {
                    let k = choose|k: int| 0 <= k < after.len() && after[k] == t;
                    if k < i {
                        assert(before[k] == t);
                    } else if k > i {
                        assert(before[k - 1] == t);
                    }
                }
                assert forall|t: Seq<char>|
                    before.to_set().insert(url@).contains(t) implies after.to_set().contains(t) by {
                    if t == url@ {
                        assert(after[i as int] == t);
                    } else {
                        let k = choose|k: int| 0 <= k < before.len() && before[k] == t;
                        if k < i {
                            assert(after[k] == t);
                        } else {
                            assert(after[k + 1] == t);
                        }
                    }
                }
            }
        }
        self.relays.insert(i, url);
        true
    }

    /// Removes a relay and says whether it was held.
    pub fn remove_relay(&mut self, url: &str) -> (removed: bool)
        requires
            old(self).wf(),
        ensures
            final(self).wf(),
            final(self)@ == old(self)@.remove(url@),
            removed == old(self)@.contains(url@),
    {
        let ghost before = texts(self.relays@);
        let (found, i) = self.position(url);
        if !found {
            assert(before.to_set().remove(url@) =~= before.to_set());
            return false;
        }
        proof {
            let after = before.remove(i as int);
            lemma_ascending_no_duplicates(before);
            assert(texts(self.relays@.remove(i as int)) =~= after);
            assert forall|a: int, b: int| 0 <= a < b < after.len() implies text_before(
                after[a],
                after[b],
            ) by {
                let x = if a < i { a } else { a + 1 };
                let y = if b < i { b } else { b + 1 };
                assert(after[a] == before[x] && after[b] == before[y]);
            }
            assert(after.to_set() =~= before.to_set().remove(url@)) by {
                assert forall|t: Seq<char>| after.to_set().contains(t) implies before.to_set().remove(
                    url@,
                ).contains(t) by {
                    let k = choose|k: int| 0 <= k < after.len() && after[k] == t;
                    let x = if k < i { k } else { k + 1 };
                    assert(before[x] == t);
                    assert(before[i as int] == url@);
                    assert(before[x] != before[i as int]);
                }
                assert forall|t: Seq<char>|
                    before.to_set().remove(url@).contains(t) implies after.to_set().contains(t) by {
                    let k = choose|k: int| 0 <= k < before.len() && before[k] == t;
                    if k < i {
                        assert(after[k] == t);
                    } else {
                        assert(after[k - 1] == t);
                    }
                }
            }
        }
        self.relays.remove(i);
        true
    }

    /// Whether a relay is held.
    pub fn has_relay(&self, url: &str) -> (held: bool)
        requires
            self.wf(),
        ensures
            held == self@.contains(url@),
    {
        let (found, _) = self.position(url);
        found
    }

    /// The addresses held, each once, in ascending order.
    pub fn get_relays(&self) -> (relays: &Vec<String>)
        requires
            self.wf(),
        ensures
            ascending(texts(relays@)),
            texts(relays@).to_set() == self@,
    {
        &self.relays
    }

    /// Whether no relay is held.
    pub fn is_empty(&self) -> (empty: bool)
        requires
            self.wf(),
        ensures
            empty == (self@ == Set::<Seq<char>>::empty()),
    {
        proof {
            let list = texts(self.relays@);
            if list.len() > 0 {
                assert(list.to_set().contains(list[0]));
            } else {
                assert(list.to_set() =~= Set::<Seq<char>>::empty());
            }
        }
        self.relays.is_empty()
    }

    /// The number of relays held.
    pub fn len(&self) -> (count: usize)
        requires
            self.wf(),
        ensures
            count == self@.len(),
    {
        proof {
            lemma_ascending_no_duplicates(texts(self.relays@));
            texts(self.relays@).unique_seq_to_set();
        }
        self.relays.len()
    }
}

impl Default for RelayConfig {
    fn default() -> (config: Self)
        ensures
            config.wf(),
            config@ == default_relay_set(),
    {
        RelayConfig::default_relays()
    }
}

/// Adding an address a second time changes neither the addresses held nor
/// their number, and the second call reports that nothing was inserted.
pub proof fn lemma_add_relay_idempotent(relays: Set<Seq<char>>, url: Seq<char>)
    requires
        relays.finite(),
    ensures
        relays.insert(url).insert(url) == relays.insert(url),
        relays.insert(url).insert(url).len() == relays.insert(url).len(),
        relays.insert(url).contains(url),
{
    assert(relays.insert(url).insert(url) =~= relays.insert(url));
}

} // verus!
