//! Ordered maps in the abstract: sequences of key-value pairs in which
//! the order of the keys is the order in which they first came.
use vstd::prelude::*;

verus! {

/// The index of the first entry with the given key.
pub open spec fn key_index<V>(entries: Seq<(Seq<char>, V)>, key: Seq<char>) -> Option<int>
    decreases entries.len(),
{
    if entries.len() == 0 {
        None
    } else if key_index(entries.drop_last(), key) is Some {
        key_index(entries.drop_last(), key)
    } else if entries.last().0 == key {
        Some(entries.len() - 1)
    } else {
        None
    }
}

/// The entries after `key` is set to `value`: a key that is there keeps
/// its place and takes the new value, a new key goes to the end.
pub open spec fn with_entry<V>(entries: Seq<(Seq<char>, V)>, key: Seq<char>, value: V) -> Seq<
    (Seq<char>, V),
> {
    match key_index(entries, key) {
        Some(i) => entries.update(i, (key, value)),
        None => entries.push((key, value)),
    }
}

/// Whether no key occurs twice.
pub open spec fn distinct_keys<V>(entries: Seq<(Seq<char>, V)>) -> bool {
    forall|i: int, j: int| 0 <= i < j < entries.len() ==> entries[i].0 != entries[j].0
}

/// `key_index` finds an entry with the key where there is one, and only
/// then.
pub proof fn lemma_key_index<V>(entries: Seq<(Seq<char>, V)>, key: Seq<char>)
    ensures
        match key_index(entries, key) {
            Some(i) => 0 <= i < entries.len() && entries[i].0 == key,
            None => forall|i: int| 0 <= i < entries.len() ==> entries[i].0 != key,
        },
    decreases entries.len(),
{
    if entries.len() > 0 {
        let front = entries.drop_last();
        lemma_key_index(front, key);
        assert forall|i: int| 0 <= i < front.len() implies front[i] == entries[i] by {}
    }
}

/// Setting a key keeps the keys distinct.
pub proof fn lemma_with_entry_distinct<V>(entries: Seq<(Seq<char>, V)>, key: Seq<char>, value: V)
    requires
        distinct_keys(entries),
    ensures
        distinct_keys(with_entry(entries, key, value)),
{
    lemma_key_index(entries, key);
}

/// Setting a key leaves at least one entry, takes none away and adds
/// one at the most.
pub proof fn lemma_with_entry_len<V>(entries: Seq<(Seq<char>, V)>, key: Seq<char>, value: V)
    ensures
        with_entry(entries, key, value).len() >= 1,
        entries.len() <= with_entry(entries, key, value).len() <= entries.len() + 1,
{
    lemma_key_index(entries, key);
}

/// The last value set for a key is the one found under it, and the
/// entries of the other keys stay what and where they were.
pub proof fn lemma_with_entry_sets<V>(entries: Seq<(Seq<char>, V)>, key: Seq<char>, value: V)
    requires
        distinct_keys(entries),
    ensures
        ({
            let after = with_entry(entries, key, value);
            &&& key_index(after, key) matches Some(i) && 0 <= i < after.len() && after[i] == (
                key,
                value,
            )
            &&& forall|j: int|
                0 <= j < entries.len() && entries[j].0 != key ==> j < after.len() && after[j]
                    == #[trigger] entries[j]
        }),
{
    let after = with_entry(entries, key, value);
    lemma_key_index(entries, key);
    lemma_with_entry_distinct(entries, key, value);
    lemma_key_index(after, key);
    if let Some(i) = key_index(entries, key) {
        assert(after[i].0 == key);
    }
}

} // verus!
