//! First-match lookup in a sequence of keys, the model of every keyed table here.

use vstd::prelude::*;

verus! {

/// `i` is the first position of `key` in `keys`.
pub open spec fn is_first<K>(keys: Seq<K>, key: K, i: int) -> bool {
    &&& 0 <= i < keys.len()
    &&& keys[i] == key
    &&& forall|j: int| 0 <= j < i ==> keys[j] != key
}

/// The first position of `key` in `keys`, if it occurs.
pub open spec fn position<K>(keys: Seq<K>, key: K) -> Option<int> {
    if exists|i: int| is_first(keys, key, i) {
        Some(choose|i: int| is_first(keys, key, i))
    } else {
        None
    }
}

/// No key occurs twice.
pub open spec fn distinct<K>(keys: Seq<K>) -> bool {
    forall|i: int, j: int| 0 <= i < j < keys.len() ==> keys[i] != keys[j]
}

/// A first position is the position.
pub proof fn lemma_position_found<K>(keys: Seq<K>, key: K, i: int)
    requires
        is_first(keys, key, i),
    ensures
        position(keys, key) == Some(i),
{
    let k = choose|k: int| is_first(keys, key, k);
    assert(is_first(keys, key, k));
    if k < i {
        assert(keys[k] != key);
    } else if i < k {
        assert(keys[i] != key);
    }
}

/// A key that occurs nowhere has no position.
pub proof fn lemma_position_absent<K>(keys: Seq<K>, key: K)
    requires
        forall|j: int| 0 <= j < keys.len() ==> keys[j] != key,
    ensures
        position(keys, key) is None,
{
    if exists|i: int| is_first(keys, key, i) {
        let k = choose|k: int| is_first(keys, key, k);
        assert(keys[k] != key);
    }
}

/// What a position says of the keys.
pub proof fn lemma_position_facts<K>(keys: Seq<K>, key: K)
    ensures
        match position(keys, key) {
            Some(i) => is_first(keys, key, i),
            None => forall|j: int| 0 <= j < keys.len() ==> keys[j] != key,
        },
{
    if exists|i: int| is_first(keys, key, i) {
    } else {
        assert forall|j: int| 0 <= j < keys.len() implies keys[j] != key by {
            if keys[j] == key {
                lemma_first_exists(keys, key, j);
            }
        }
    }
}

/// A key that occurs at `j` has a first position at or before `j`.
pub proof fn lemma_first_exists<K>(keys: Seq<K>, key: K, j: int)
    requires
        0 <= j < keys.len(),
        keys[j] == key,
    ensures
        exists|i: int| is_first(keys, key, i) && i <= j,
    decreases j,
{
    if forall|k: int| 0 <= k < j ==> keys[k] != key {
        assert(is_first(keys, key, j));
    } else {
        let k = choose|k: int| 0 <= k < j && keys[k] == key;
        lemma_first_exists(keys, key, k);
        let i = choose|i: int| is_first(keys, key, i) && i <= k;
        assert(is_first(keys, key, i) && i <= j);
    }
}

/// Among distinct keys, any position at which a key stands is its position.
pub proof fn lemma_position_distinct<K>(keys: Seq<K>, key: K, i: int)
    requires
        distinct(keys),
        0 <= i < keys.len(),
        keys[i] == key,
    ensures
        position(keys, key) == Some(i),
{
    assert(is_first(keys, key, i));
    lemma_position_found(keys, key, i);
}

/// The position of a key after another key is appended.
pub proof fn lemma_position_push<K>(keys: Seq<K>, added: K, key: K)
    ensures
        position(keys.push(added), key) == (if position(keys, key) is Some {
            position(keys, key)
        } else if key == added {
            Some(keys.len() as int)
        } else {
            None
        }),
{
    let longer = keys.push(added);
    lemma_position_facts(keys, key);
    match position(keys, key) {
        Some(i) => {
            assert(is_first(longer, key, i));
            lemma_position_found(longer, key, i);
        },
        None => {
            if key == added {
                assert(is_first(longer, key, keys.len() as int));
                lemma_position_found(longer, key, keys.len() as int);
            } else {
                lemma_position_absent(longer, key);
            }
        },
    }
}

/// Appending a key that does not occur keeps the keys distinct.
pub proof fn lemma_distinct_push<K>(keys: Seq<K>, added: K)
    requires
        distinct(keys),
        position(keys, added) is None,
    ensures
        distinct(keys.push(added)),
{
    lemma_position_facts(keys, added);
}

} // verus!

