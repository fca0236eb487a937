//! Finding a key in a sequence of keys: the first occurrence counts.

use vstd::prelude::*;

verus! {

/// `i` is where `key` first occurs in `keys`.
pub open spec fn first_at<K>(keys: Seq<K>, key: K, i: int) -> bool {
    &&& 0 <= i < keys.len()
    &&& keys[i] == key
    &&& forall|j: int| 0 <= j < i ==> keys[j] != key
}

/// Where `key` first occurs in `keys`, or `None` where it does not occur.
pub open spec fn position<K>(keys: Seq<K>, key: K) -> Option<int> {
    if exists|i: int| first_at(keys, key, i) {
        Some(choose|i: int| first_at(keys, key, i))
    } else {
        None
    }
}

pub proof fn lemma_position_found<K>(keys: Seq<K>, key: K, i: int)
    requires
        first_at(keys, key, i),
    ensures
        position(keys, key) == Some(i),
{
    let k = choose|k: int| first_at(keys, key, k);
    assert(first_at(keys, key, k));
    if k < i {
        assert(keys[k] != key);
    }
    if i < k {
        assert(keys[i] != key);
    }
}

pub proof fn lemma_position_absent<K>(keys: Seq<K>, key: K)
    requires
        forall|j: int| 0 <= j < keys.len() ==> keys[j] != key,
    ensures
        position(keys, key) is None,
{
}

/// Among keys that differ from one another, a key is first where it is at all.
pub proof fn lemma_position_distinct<K>(keys: Seq<K>, i: int)
    requires
        keys.no_duplicates(),
        0 <= i < keys.len(),
    ensures
        position(keys, keys[i]) == Some(i),
{
    assert(first_at(keys, keys[i], i));
    lemma_position_found(keys, keys[i], i);
}

/// What `position` returns is a first occurrence.
pub proof fn lemma_position_is_first<K>(keys: Seq<K>, key: K)
    ensures
        position(keys, key) matches Some(i) ==> first_at(keys, key, i),
{
}

/// A key that occurs has a first occurrence.
pub proof fn lemma_position_occurs<K>(keys: Seq<K>, key: K, i: int)
    requires
        0 <= i < keys.len(),
        keys[i] == key,
    ensures
        position(keys, key) matches Some(k) && k <= i,
    decreases i,
{
    if forall|j: int| 0 <= j < i ==> keys[j] != key {
        assert(first_at(keys, key, i));
        lemma_position_found(keys, key, i);
    } else {
        let j = choose|j: int| 0 <= j < i && keys[j] == key;
        lemma_position_occurs(keys, key, j);
    }
}

/// `position` finds nothing only where the key does not occur.
pub proof fn lemma_position_none<K>(keys: Seq<K>, key: K)
    requires
        position(keys, key) is None,
    ensures
        forall|j: int| 0 <= j < keys.len() ==> keys[j] != key,
{
    assert forall|j: int| 0 <= j < keys.len() implies keys[j] != key by {
        if keys[j] == key {
            lemma_position_occurs(keys, key, j);
        }
    }
}

} // verus!
