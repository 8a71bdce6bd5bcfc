//! Lists of entries keyed by a string. An entry list keeps the order in which
//! it was built; a key stands for the first entry that carries it.

use vstd::prelude::*;

verus! {

/// The keys of an entry list, in order.
pub open spec fn entry_keys<T>(entries: Seq<(String, T)>) -> Seq<Seq<char>> {
    Seq::new(entries.len(), |i: int| entries[i].0@)
}

/// The keys of the view of an entry list, in order.
pub open spec fn keys<V>(entries: Seq<(Seq<char>, V)>) -> Seq<Seq<char>> {
    Seq::new(entries.len(), |i: int| entries[i].0)
}

/// The first index at or after `from` at which `key` stands in `keys`.
pub open spec fn index_from(keys: Seq<Seq<char>>, key: Seq<char>, from: int) -> Option<int>
    decreases keys.len() - from,
{
    if from < 0 || from >= keys.len() {
        None
    } else if keys[from] == key {
        Some(from)
    } else {
        index_from(keys, key, from + 1)
    }
}

/// The first index at which `key` stands in `keys`.
pub open spec fn index_of(keys: Seq<Seq<char>>, key: Seq<char>) -> Option<int> {
    index_from(keys, key, 0)
}

/// The value that `key` stands for in `entries`: that of its first entry.
pub open spec fn lookup<V>(entries: Seq<(Seq<char>, V)>, key: Seq<char>) -> Option<V> {
    match index_of(keys(entries), key) {
        Some(i) => Some(entries[i].1),
        None => None,
    }
}

/// No key stands at two places.
pub open spec fn distinct(keys: Seq<Seq<char>>) -> bool {
    forall|i: int, j: int| 0 <= i < j < keys.len() ==> keys[i] != keys[j]
}

/// What `index_from` returns is the least matching index from `from` on, and
/// it returns nothing only where nothing matches.
pub proof fn lemma_index_from(keys: Seq<Seq<char>>, key: Seq<char>, from: int)
    requires
        0 <= from,
    ensures
        match index_from(keys, key, from) {
            Some(i) => from <= i < keys.len() && keys[i] == key && forall|j: int|
                from <= j < i ==> keys[j] != key,
            None => forall|j: int| from <= j < keys.len() ==> keys[j] != key,
        },
    decreases keys.len() - from,
{
    if from < keys.len() && keys[from] != key {
        lemma_index_from(keys, key, from + 1);
    }
}

/// `index_of` finds `key` exactly where it occurs, and then at its first place.
pub proof fn lemma_index_of(keys: Seq<Seq<char>>, key: Seq<char>)
    ensures
        index_of(keys, key) is Some <==> exists|j: int| 0 <= j < keys.len() && keys[j] == key,
        index_of(keys, key) matches Some(i) ==> 0 <= i < keys.len() && keys[i] == key
            && forall|j: int| 0 <= j < i ==> keys[j] != key,
{
    lemma_index_from(keys, key, 0);
}

/// A key is looked up in a list with one more entry at its end as in the list
/// itself, and where the list has nothing for it, in the new entry.
pub proof fn lemma_lookup_push<V>(
    entries: Seq<(Seq<char>, V)>,
    key: Seq<char>,
    value: V,
    wanted: Seq<char>,
)
    ensures
        lookup(entries.push((key, value)), wanted) == match lookup(entries, wanted) {
            Some(found) => Some(found),
            None => if key == wanted {
                Some(value)
            } else {
                None
            },
        },
{
    let longer = entries.push((key, value));
    lemma_index_of(keys(entries), wanted);
    lemma_index_of(keys(longer), wanted);
    assert(keys(longer) =~= keys(entries).push(key));
    match index_of(keys(entries), wanted) {
        Some(i) => {
            assert(keys(longer)[i] == wanted);
        },
        None => {
            if key == wanted {
                assert(keys(longer)[entries.len() as int] == wanted);
            }
        },
    }
}

/// Finds the first entry of `entries` whose key is `key`.
pub fn find_key<T>(entries: &Vec<(String, T)>, key: &str) -> (found: Option<usize>)
    ensures
        match found {
            Some(i) => index_of(entry_keys(entries@), key@) == Some(i as int),
            None => index_of(entry_keys(entries@), key@) is None,
        },
{
    let wanted = String::from_str(key);
    let mut i: usize = 0;
    while i < entries.len()
        invariant
            i <= entries.len(),
            wanted@ == key@,
            index_of(entry_keys(entries@), key@) == index_from(
                entry_keys(entries@),
                key@,
                i as int,
            ),
        decreases entries.len() - i,
    {
        if entries[i].0 == wanted {
            return Some(i);
        }
        i += 1;
    }
    None
}

/// Whether the key of entry `at` also stands at an earlier place.
pub(crate) fn repeats_earlier_key<T>(entries: &Vec<(String, T)>, at: usize) -> (repeated: bool)
    requires
        at < entries.len(),
    ensures
        repeated <==> exists|j: int| 0 <= j < at && entries[j].0@ == entries[at as int].0@,
{
    let mut j: usize = 0;
    while j < at
        invariant
            j <= at < entries.len(),
            forall|k: int| 0 <= k < j ==> entries[k].0@ != entries[at as int].0@,
        decreases at - j,
    {
        if entries[j].0 == entries[at].0 {
            return true;
        }
        j += 1;
    }
    false
}

} // verus!
