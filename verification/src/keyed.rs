//! Lookup by key in a sequence of distinct keys, the model behind the
//! library's small keyed tables.
use vstd::prelude::*;

verus! {

/// No key occurs twice.
pub open spec fn keys_distinct<K>(keys: Seq<K>) -> bool {
    forall|i: int, j: int| 0 <= i < keys.len() && 0 <= j < keys.len() && i != j ==> keys[i] != keys[j]
}

/// The position of `k` in `keys`, or `-1`.
pub open spec fn index_of_key<K>(keys: Seq<K>, k: K) -> int {
    if exists|i: int| 0 <= i < keys.len() && keys[i] == k {
        choose|i: int| 0 <= i < keys.len() && keys[i] == k
    } else {
        -1
    }
}

/// With distinct keys, the position of a present key is where it stands.
pub proof fn lemma_index_of_key<K>(keys: Seq<K>, k: K, i: int)
    requires
        keys_distinct(keys),
        0 <= i < keys.len(),
        keys[i] == k,
    ensures
        index_of_key(keys, k) == i,
{
}

/// An absent key has position `-1`.
pub proof fn lemma_index_of_absent<K>(keys: Seq<K>, k: K)
    requires
        forall|i: int| 0 <= i < keys.len() ==> keys[i] != k,
    ensures
        index_of_key(keys, k) == -1,
{
}

/// A present key has a position, holding that key.
pub proof fn lemma_index_of_present<K>(keys: Seq<K>, k: K)
    requires
        index_of_key(keys, k) >= 0,
    ensures
        0 <= index_of_key(keys, k) < keys.len(),
        keys[index_of_key(keys, k)] == k,
{
}

} // verus!
