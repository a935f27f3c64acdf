//! Lists of entries keyed by text, in which no key occurs twice: the model
//! shared by the header table and the search parameters.

use vstd::prelude::*;
use crate::text::str_eq;

verus! {

/// The keys of a list of entries, in order.
pub open spec fn keys<V>(entries: Seq<(Seq<char>, V)>) -> Seq<Seq<char>> {
    entries.map_values(|e: (Seq<char>, V)| e.0)
}

/// No key occurs twice.
pub open spec fn distinct_keys<V>(entries: Seq<(Seq<char>, V)>) -> bool {
    keys(entries).no_duplicates()
}

/// Some entry has the key `k`.
pub open spec fn has_key<V>(entries: Seq<(Seq<char>, V)>, k: Seq<char>) -> bool {
    keys(entries).contains(k)
}

/// The place of the entry with key `k`.
pub open spec fn key_index<V>(entries: Seq<(Seq<char>, V)>, k: Seq<char>) -> int {
    keys(entries).index_of(k)
}

/// The mapping from each key to its value.
pub open spec fn as_map<V>(entries: Seq<(Seq<char>, V)>) -> Map<Seq<char>, V> {
    Map::new(|k: Seq<char>| has_key(entries, k), |k: Seq<char>| entries[key_index(entries, k)].1)
}

/// The list after `k` is given the value `v`: the entry of `k` is replaced
/// where it stands, and a new key goes to the end.
pub open spec fn put<V>(entries: Seq<(Seq<char>, V)>, k: Seq<char>, v: V) -> Seq<(Seq<char>, V)> {
    if has_key(entries, k) {
        entries.update(key_index(entries, k), (k, v))
    } else {
        entries.push((k, v))
    }
}

/// Giving a key a value keeps the keys distinct and changes the mapping at
/// that key alone.
pub proof fn lemma_put<V>(entries: Seq<(Seq<char>, V)>, k: Seq<char>, v: V)
    requires
        distinct_keys(entries),
    ensures
        distinct_keys(put(entries, k, v)),
        as_map(put(entries, k, v)) == as_map(entries).insert(k, v),
{
    let after = put(entries, k, v);
    let ks = keys(entries);
    if has_key(entries, k) {
        assert(keys(after) =~= ks);
    } else {
        assert(keys(after) =~= ks.push(k));
        assert forall|q: Seq<char>| has_key(after, q) <==> (q == k || has_key(entries, q)) by {
            if q == k {
                assert(keys(after)[ks.len() as int] == k);
            }
            if has_key(entries, q) {
                let j = key_index(entries, q);
                assert(keys(after)[j] == q);
            }
        }
    }
}

/// The keys of stored entries, as texts.
pub open spec fn stored_keys<V>(entries: Seq<(String, V)>) -> Seq<Seq<char>> {
    entries.map_values(|e: (String, V)| e.0@)
}

/// The place of the entry whose key is `key`, if there is one.
pub fn position<V>(entries: &Vec<(String, V)>, key: &str) -> (r: Option<usize>)
    ensures
        match r {
            Some(i) => i < entries@.len() && stored_keys(entries@)[i as int] == key@,
            None => !stored_keys(entries@).contains(key@),
        },
{
    let mut i: usize = 0;
    while i < entries.len()
        invariant
            i <= entries@.len(),
            forall|j: int| 0 <= j < i ==> stored_keys(entries@)[j] != key@,
        decreases entries@.len() - i,
    {
        if str_eq(entries[i].0.as_str(), key) {
            return Some(i);
        }
        i += 1;
    }
    None
}

} // verus!
