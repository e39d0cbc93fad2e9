//! First-match lookup of a key in a sequence of string keys: the rule by which
//! notebooks and sessions are found by identifier.

use vstd::prelude::*;

verus! {

/// The first position at which `key` occurs in `keys`, if any.
pub open spec fn first_index_of(keys: Seq<Seq<char>>, key: Seq<char>) -> Option<int>
    decreases keys.len(),
{
    if keys.len() == 0 {
        None
    } else {
        match first_index_of(keys.drop_last(), key) {
            Some(i) => Some(i),
            None => if keys.last() == key {
                Some(keys.len() - 1)
            } else {
                None
            },
        }
    }
}

/// `first_index_of` is the least position holding the key, and `None` exactly
/// when no position holds it.
pub proof fn lemma_first_index_of(keys: Seq<Seq<char>>, key: Seq<char>)
    ensures
        match first_index_of(keys, key) {
            Some(i) => 0 <= i < keys.len() && keys[i] == key && forall|j: int|
                0 <= j < i ==> keys[j] != key,
            None => forall|j: int| 0 <= j < keys.len() ==> keys[j] != key,
        },
    decreases keys.len(),
{
    if keys.len() > 0 {
        let rest = keys.drop_last();
        lemma_first_index_of(rest, key);
        assert forall|j: int| 0 <= j < rest.len() implies rest[j] == keys[j] by {}
        match first_index_of(rest, key) {
            Some(i) => {},
            None => {
                assert forall|j: int| 0 <= j < keys.len() - 1 implies keys[j] != key by {
                    assert(rest[j] == keys[j]);
                }
            },
        }
    }
}

/// A position that holds the key with no earlier one holding it is the first index.
pub proof fn lemma_first_index_is(keys: Seq<Seq<char>>, key: Seq<char>, i: int)
    requires
        0 <= i < keys.len(),
        keys[i] == key,
        forall|j: int| 0 <= j < i ==> keys[j] != key,
    ensures
        first_index_of(keys, key) == Some(i),
{
    lemma_first_index_of(keys, key);
}

/// With no position holding the key, there is no first index.
pub proof fn lemma_first_index_none(keys: Seq<Seq<char>>, key: Seq<char>)
    requires
        forall|j: int| 0 <= j < keys.len() ==> keys[j] != key,
    ensures
        first_index_of(keys, key) is None,
{
    lemma_first_index_of(keys, key);
    if first_index_of(keys, key) is Some {
        let i = first_index_of(keys, key)->0;
        assert(keys[i] == key);
    }
}

} // verus!
