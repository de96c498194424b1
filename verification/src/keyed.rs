//! Values kept by the public key of an account: a list of pairs that
//! stands for a map.

use vstd::prelude::*;
use crate::pubkey::Pubkey;

verus! {

/// No two entries have the same key.
pub open spec fn distinct_keys<V: View>(entries: Seq<(Pubkey, V)>) -> bool {
    forall|i: int, j: int| 0 <= i < j < entries.len() ==> entries[i].0@ != entries[j].0@
}

/// `entries` holds each key of `values` once, with its value.
pub open spec fn holds_exactly<V: View>(
    entries: Seq<(Pubkey, V)>,
    values: Map<Seq<u8>, V::V>,
) -> bool {
    &&& distinct_keys(entries)
    &&& forall|i: int|
        0 <= i < entries.len() ==> values.dom().contains(#[trigger] entries[i].0@)
            && values[entries[i].0@] == entries[i].1@
    &&& forall|key: Seq<u8>| #[trigger]
        values.dom().contains(key) ==> exists|i: int|
            0 <= i < entries.len() && #[trigger] entries[i].0@ == key
}

/// The map that takes each key to the value of the last entry with that key.
pub open spec fn collected<V: View>(entries: Seq<(Pubkey, V)>) -> Map<Seq<u8>, V::V>
    decreases entries.len(),
{
    if entries.len() == 0 {
        Map::<Seq<u8>, V::V>::empty()
    } else {
        collected(entries.drop_last()).insert(entries.last().0@, entries.last().1@)
    }
}

/// Entries with distinct keys hold exactly what collecting them gives.
pub proof fn lemma_collected_distinct<V: View>(entries: Seq<(Pubkey, V)>)
    requires
        distinct_keys(entries),
    ensures
        holds_exactly(entries, collected(entries)),
    decreases entries.len(),
{
    if entries.len() > 0 {
        let init = entries.drop_last();
        lemma_collected_distinct(init);
        let values = collected(entries);
        assert forall|i: int| 0 <= i < entries.len() implies values.dom().contains(
            #[trigger] entries[i].0@,
        ) && values[entries[i].0@] == entries[i].1@ by {
            if i < entries.len() - 1 {
                assert(init[i] == entries[i]);
                assert(collected(init).dom().contains(init[i].0@));
            }
        }
        assert forall|key: Seq<u8>| #[trigger] values.dom().contains(key) implies exists|i: int|
            0 <= i < entries.len() && #[trigger] entries[i].0@ == key by {
            if key == entries.last().0@ {
                assert(entries[entries.len() - 1].0@ == key);
            } else {
                assert(collected(init).dom().contains(key));
                let i = choose|i: int| 0 <= i < init.len() && #[trigger] init[i].0@ == key;
                assert(entries[i].0@ == key);
            }
        }
    }
}

/// Two maps that the same entries hold exactly are the same map.
pub proof fn lemma_holds_exactly_one<V: View>(
    entries: Seq<(Pubkey, V)>,
    a: Map<Seq<u8>, V::V>,
    b: Map<Seq<u8>, V::V>,
)
    requires
        holds_exactly(entries, a),
        holds_exactly(entries, b),
    ensures
        a == b,
{
    assert forall|key: Seq<u8>| a.dom().contains(key) implies b.dom().contains(key) && a[key]
        == b[key] by {
        let i = choose|i: int| 0 <= i < entries.len() && #[trigger] entries[i].0@ == key;
        assert(b.dom().contains(entries[i].0@));
    }
    assert forall|key: Seq<u8>| b.dom().contains(key) implies a.dom().contains(key) by {
        let i = choose|i: int| 0 <= i < entries.len() && #[trigger] entries[i].0@ == key;
        assert(a.dom().contains(entries[i].0@));
    }
    assert(a =~= b);
}

/// Collecting finitely many entries gives a finite map.
pub proof fn lemma_collected_finite<V: View>(entries: Seq<(Pubkey, V)>)
    ensures
        collected(entries).dom().finite(),
    decreases entries.len(),
{
    if entries.len() > 0 {
        lemma_collected_finite(entries.drop_last());
    }
}

/// Collecting one entry more adds that entry's value under its key.
pub proof fn lemma_collected_push<V: View>(entries: Seq<(Pubkey, V)>, entry: (Pubkey, V))
    ensures
        collected(entries.push(entry)) == collected(entries).insert(entry.0@, entry.1@),
        distinct_keys(entries) && !collected(entries).dom().contains(entry.0@) ==> distinct_keys(
            entries.push(entry),
        ),
{
    assert(entries.push(entry).drop_last() =~= entries);
    if distinct_keys(entries) && !collected(entries).dom().contains(entry.0@) {
        lemma_collected_distinct(entries);
        let after = entries.push(entry);
        assert forall|i: int, j: int| 0 <= i < j < after.len() implies after[i].0@ != after[j].0@ by {
            if j == entries.len() {
                assert(collected(entries).dom().contains(entries[i].0@));
            } else {
                assert(after[i] == entries[i] && after[j] == entries[j]);
            }
        }
    }
}

/// Replacing the value of one entry replaces it in what is collected.
pub proof fn lemma_collected_update<V: View>(
    entries: Seq<(Pubkey, V)>,
    at: int,
    entry: (Pubkey, V),
)
    requires
        distinct_keys(entries),
        0 <= at < entries.len(),
        entry.0@ == entries[at].0@,
    ensures
        distinct_keys(entries.update(at, entry)),
        collected(entries.update(at, entry)) == collected(entries).insert(entry.0@, entry.1@),
{
    let after = entries.update(at, entry);
    let values = collected(entries).insert(entry.0@, entry.1@);
    lemma_collected_distinct(entries);
    assert forall|i: int, j: int| 0 <= i < j < after.len() implies after[i].0@ != after[j].0@ by {
        assert(after[i].0@ == entries[i].0@ && after[j].0@ == entries[j].0@);
    }
    assert forall|i: int| 0 <= i < after.len() implies values.dom().contains(#[trigger] after[i].0@)
        && values[after[i].0@] == after[i].1@ by {
        assert(collected(entries).dom().contains(entries[i].0@));
        if i != at {
            assert(after[i] == entries[i]);
            if i < at {
                assert(entries[i].0@ != entries[at].0@);
            } else {
                assert(entries[at].0@ != entries[i].0@);
            }
        }
    }
    assert forall|key: Seq<u8>| #[trigger] values.dom().contains(key) implies exists|i: int|
        0 <= i < after.len() && #[trigger] after[i].0@ == key by {
        if key == entry.0@ {
            assert(after[at].0@ == key);
        } else {
            assert(collected(entries).dom().contains(key));
            let i = choose|i: int| 0 <= i < entries.len() && #[trigger] entries[i].0@ == key;
            assert(after[i].0@ == key);
        }
    }
    lemma_collected_distinct(after);
    lemma_holds_exactly_one(after, collected(after), values);
}

/// Taking one entry away takes its key out of what is collected.
pub proof fn lemma_collected_remove<V: View>(entries: Seq<(Pubkey, V)>, at: int)
    requires
        distinct_keys(entries),
        0 <= at < entries.len(),
    ensures
        distinct_keys(entries.remove(at)),
        collected(entries.remove(at)) == collected(entries).remove(entries[at].0@),
{
    let after = entries.remove(at);
    let values = collected(entries).remove(entries[at].0@);
    lemma_collected_distinct(entries);
    assert forall|i: int, j: int| 0 <= i < j < after.len() implies after[i].0@ != after[j].0@ by {
        let x = if i < at { i } else { i + 1 };
        let y = if j < at { j } else { j + 1 };
        assert(after[i] == entries[x] && after[j] == entries[y]);
    }
    assert forall|i: int| 0 <= i < after.len() implies values.dom().contains(#[trigger] after[i].0@)
        && values[after[i].0@] == after[i].1@ by {
        let x = if i < at { i } else { i + 1 };
        assert(after[i] == entries[x]);
        assert(collected(entries).dom().contains(entries[x].0@));
        if x < at {
            assert(entries[x].0@ != entries[at].0@);
        } else {
            assert(entries[at].0@ != entries[x].0@);
        }
    }
    assert forall|key: Seq<u8>| #[trigger] values.dom().contains(key) implies exists|i: int|
        0 <= i < after.len() && #[trigger] after[i].0@ == key by {
        assert(collected(entries).dom().contains(key));
        let x = choose|x: int| 0 <= x < entries.len() && #[trigger] entries[x].0@ == key;
        if x < at {
            assert(after[x].0@ == key);
        } else {
            assert(after[x - 1].0@ == key);
        }
    }
    lemma_collected_distinct(after);
    lemma_holds_exactly_one(after, collected(after), values);
}

} // verus!
