//! Lists of entries under text keys, searched from the front.

use vstd::prelude::*;

verus! {

/// The keys of `entries` as character sequences, in order.
pub open spec fn entry_keys<T>(entries: Seq<(String, T)>) -> Seq<Seq<char>> {
    Seq::new(entries.len(), |i: int| entries[i].0@)
}

/// The keys of `entries`, in order.
pub open spec fn keys_of<T>(entries: Seq<(Seq<char>, T)>) -> Seq<Seq<char>> {
    Seq::new(entries.len(), |i: int| entries[i].0)
}

/// The first position at which `key` stands in `keys`, or the length of
/// `keys` where it stands nowhere.
pub open spec fn first_index(keys: Seq<Seq<char>>, key: Seq<char>) -> int
    decreases keys.len(),
{
    if keys.len() == 0 {
        0
    } else if keys[0] == key {
        0
    } else {
        1 + first_index(keys.skip(1), key)
    }
}

/// No key stands at two positions.
pub open spec fn distinct(keys: Seq<Seq<char>>) -> bool {
    forall|i: int, j: int| 0 <= i < j < keys.len() ==> keys[i] != keys[j]
}

/// `first_index` is the one position that holds the key and has none
/// before it, or the length where there is none at all.
pub proof fn lemma_first_index(keys: Seq<Seq<char>>, key: Seq<char>, i: int)
    requires
        0 <= i <= keys.len(),
        i < keys.len() ==> keys[i] == key,
        forall|j: int| 0 <= j < i ==> keys[j] != key,
    ensures
        first_index(keys, key) == i,
    decreases keys.len(),
{
    if keys.len() > 0 && i > 0 {
        let rest = keys.skip(1);
        assert forall|j: int| 0 <= j < i - 1 implies rest[j] != key by {
            assert(rest[j] == keys[j + 1]);
        }
        lemma_first_index(rest, key, i - 1);
    }
}

/// `first_index` stays within the length, holds the key where it is short
/// of the length, and has no occurrence before it.
pub proof fn lemma_first_index_found(keys: Seq<Seq<char>>, key: Seq<char>)
    ensures
        0 <= first_index(keys, key) <= keys.len(),
        first_index(keys, key) < keys.len() ==> keys[first_index(keys, key)] == key,
        forall|j: int| 0 <= j < first_index(keys, key) ==> keys[j] != key,
    decreases keys.len(),
{
    if keys.len() > 0 && keys[0] != key {
        let rest = keys.skip(1);
        lemma_first_index_found(rest, key);
        assert forall|j: int| 0 <= j < first_index(keys, key) implies keys[j] != key by {
            if j > 0 {
                assert(rest[j - 1] == keys[j]);
            }
        }
    }
}

/// Where `key` first stands among `entries`, or their number where it does
/// not.
pub fn find<T>(entries: &Vec<(String, T)>, key: &String) -> (i: usize)
    ensures
        i == first_index(entry_keys(entries@), key@),
        i <= entries.len(),
{
    let mut i: usize = 0;
    while i < entries.len()
        invariant
            i <= entries.len(),
            forall|j: int| 0 <= j < i ==> entry_keys(entries@)[j] != key@,
        decreases entries.len() - i,
    {
        if entries[i].0 == *key {
            proof {
                lemma_first_index(entry_keys(entries@), key@, i as int);
            }
            return i;
        }
        i = i + 1;
    }
    proof {
        lemma_first_index(entry_keys(entries@), key@, i as int);
    }
    i
}

} // verus!
