//! Association lists keyed by strings: the first entry with a key wins.
use vstd::prelude::*;
use crate::text::str_eq;

verus! {

/// The index of the first key equal to `key`, if any.
pub open spec fn key_index(keys: Seq<Seq<char>>, key: Seq<char>) -> Option<int>
    decreases keys.len(),
{
    if keys.len() == 0 {
        None
    } else if keys[0] == key {
        Some(0)
    } else {
        match key_index(keys.drop_first(), key) {
            Some(i) => Some(i + 1),
            None => None,
        }
    }
}

/// If no key before `i` matches, `key_index` is `i` when `keys[i]` matches,
/// and none when `i` is past the end.
pub proof fn lemma_key_index_first(keys: Seq<Seq<char>>, key: Seq<char>, i: int)
    requires
        0 <= i <= keys.len(),
        forall|j: int| 0 <= j < i ==> keys[j] != key,
    ensures
        i < keys.len() && keys[i] == key ==> key_index(keys, key) == Some(i),
        i == keys.len() ==> key_index(keys, key) is None,
    decreases i,
{
    if i > 0 {
        let rest = keys.drop_first();
        assert forall|j: int| 0 <= j < i - 1 implies rest[j] != key by {
            assert(rest[j] == keys[j + 1]);
        }
        lemma_key_index_first(rest, key, i - 1);
    }
}

/// A found index is in range, names the key, and no earlier key matches;
/// with none found, no key matches.
pub proof fn lemma_key_index(keys: Seq<Seq<char>>, key: Seq<char>)
    ensures
        key_index(keys, key) matches Some(i) ==> 0 <= i < keys.len() && keys[i] == key && forall|
            j: int,
        |
            0 <= j < i ==> #[trigger] keys[j] != key,
        key_index(keys, key) is None ==> forall|j: int|
            0 <= j < keys.len() ==> #[trigger] keys[j] != key,
    decreases keys.len(),
{
    if keys.len() > 0 {
        let rest = keys.drop_first();
        lemma_key_index(rest, key);
        assert forall|j: int| 1 <= j < keys.len() implies #[trigger] keys[j] == rest[j - 1] by {}
    }
}

/// Appending a key other than `key` does not change where `key` is found.
pub proof fn lemma_key_index_push_other(keys: Seq<Seq<char>>, k: Seq<char>, key: Seq<char>)
    requires
        k != key,
    ensures
        key_index(keys.push(k), key) == key_index(keys, key),
{
    lemma_key_index(keys, key);
    lemma_key_index(keys.push(k), key);
    match key_index(keys, key) {
        Some(i) => {
            lemma_key_index_first(keys.push(k), key, i);
        },
        None => {
            assert forall|j: int| 0 <= j < keys.len() implies keys.push(k)[j] != key by {}
            lemma_key_index_first(keys.push(k), key, keys.len() as int);
            lemma_key_index_first(keys.push(k), key, keys.len() + 1int);
        },
    }
}

/// The keys of an association list.
pub open spec fn keys_of<V>(entries: Seq<(String, V)>) -> Seq<Seq<char>> {
    entries.map_values(|e: (String, V)| e.0@)
}

/// The index of the first entry whose key is `key`.
pub fn find_key_index<V>(entries: &Vec<(String, V)>, key: &str) -> (r: Option<usize>)
    ensures
        r matches Some(i) ==> key_index(keys_of(entries@), key@) == Some(i as int) && i
            < entries@.len() && entries@[i as int].0@ == key@,
        r is None ==> key_index(keys_of(entries@), key@) is None,
{
    let ghost keys = keys_of(entries@);
    let mut i: usize = 0;
    while i < entries.len()
        invariant
            i <= entries.len(),
            keys == keys_of(entries@),
            forall|j: int| 0 <= j < i ==> keys[j] != key@,
        decreases entries.len() - i,
    {
        if str_eq(entries[i].0.as_str(), key) {
            proof {
                lemma_key_index_first(keys, key@, i as int);
            }
            return Some(i);
        }
        i = i + 1;
    }
    proof {
        lemma_key_index_first(keys, key@, i as int);
    }
    None
}

} // verus!
