//! Looking up 32-byte keys: equality of two keys, and the first position of a
//! key in a sequence.

use vstd::prelude::*;

verus! {

/// Whether `i` is the first position at which `key` stands in `keys`.
pub open spec fn is_first_at(keys: Seq<[u8; 32]>, key: [u8; 32], i: int) -> bool {
    &&& 0 <= i < keys.len()
    &&& keys[i] == key
    &&& forall|j: int| 0 <= j < i ==> keys[j] != key
}

/// The first position of `key` in `keys`; meaningful where `keys` contains
/// `key`.
pub open spec fn position(keys: Seq<[u8; 32]>, key: [u8; 32]) -> int {
    choose|i: int| is_first_at(keys, key, i)
}

/// There is only one first position.
pub proof fn lemma_position(keys: Seq<[u8; 32]>, key: [u8; 32], i: int)
    requires
        is_first_at(keys, key, i),
    ensures
        position(keys, key) == i,
{
    let p = position(keys, key);
    assert(is_first_at(keys, key, p));
    if p < i {
        assert(keys[p] != key);
    } else if i < p {
        assert(keys[i] != key);
    }
}

/// Among keys that are all different, a key is found at its own position.
pub proof fn lemma_index_of(keys: Seq<[u8; 32]>, i: int)
    requires
        keys.no_duplicates(),
        0 <= i < keys.len(),
    ensures
        keys.contains(keys[i]),
        keys.index_of(keys[i]) == i,
{
    let k = keys.index_of(keys[i]);
    assert(0 <= k < keys.len() && keys[k] == keys[i]);
}

/// Whether two 32-byte values are the same.
pub fn same_bytes(a: &[u8; 32], b: &[u8; 32]) -> (same: bool)
    ensures
        same == (*a == *b),
{
    let mut i: usize = 0;
    while i < 32
        invariant
            i <= 32,
            forall|j: int| 0 <= j < i ==> a[j] == b[j],
        decreases 32 - i,
    {
        if a[i] != b[i] {
            return false;
        }
        i += 1;
    }
    assert(*a =~= *b);
    true
}

/// Finds the first position of `key` among `keys`.
pub fn find(keys: &Vec<[u8; 32]>, key: &[u8; 32]) -> (found: Option<usize>)
    ensures
        match found {
            Some(i) => is_first_at(keys@, *key, i as int),
            None => !keys@.contains(*key),
        },
{
    let mut i: usize = 0;
    while i < keys.len()
        invariant
            i <= keys.len(),
            forall|j: int| 0 <= j < i ==> keys@[j] != *key,
        decreases keys.len() - i,
    {
        if same_bytes(&keys[i], key) {
            return Some(i);
        }
        i += 1;
    }
    None
}

} // verus!
