//! Account identities.
//!
//! An identity is a `Pubkey`. The ledger never looks inside one: it stores
//! keys, hands them on, and asks whether two of them are the same.

use anchor_lang::prelude::Pubkey;
use vstd::prelude::*;

verus! {

#[verifier::external_type_specification]
#[verifier::external_body]
pub struct ExPubkey(Pubkey);

/// Trusted: `Pubkey`'s `Clone::clone`.
///
/// `Pubkey` derives `Clone` over its address bytes, so a clone is the same
/// key.
pub assume_specification[ <Pubkey as Clone>::clone ](key: &Pubkey) -> (copy: Pubkey)
    ensures
        copy == *key,
;

/// Trusted: `Pubkey`'s `PartialEq::eq`, which is its `==`.
///
/// A `Pubkey` is a wrapper around its 32 address bytes and nothing else, and
/// its derived `PartialEq` compares those bytes. The contract claims exactly that: the
/// call returns `true` when the two keys are the same value and `false` when
/// they differ.
#[verifier::external_body]
pub(crate) fn same_key(a: &Pubkey, b: &Pubkey) -> (same: bool)
    ensures
        same == (*a == *b),
{
    a == b
}

/// The first position of `key` in `keys`, or `None` if it is not there.
pub fn position(keys: &Vec<Pubkey>, key: &Pubkey) -> (found: Option<usize>)
    ensures
        match found {
            Some(i) => {
                &&& i < keys.len()
                &&& keys[i as int] == *key
                &&& forall|j: int| 0 <= j < i ==> keys[j] != *key
            },
            None => !keys@.contains(*key),
        },
{
    let mut i: usize = 0;
    while i < keys.len()
        invariant
            i <= keys.len(),
            forall|j: int| 0 <= j < i ==> keys[j] != *key,
        decreases keys.len() - i,
    {
        if same_key(&keys[i], key) {
            return Some(i);
        }
        i += 1;
    }
    None
}

/// Whether no key occurs twice in `keys`.
pub fn all_distinct(keys: &Vec<Pubkey>) -> (distinct: bool)
    ensures
        distinct == keys@.no_duplicates(),
{
    let mut i: usize = 0;
    while i < keys.len()
        invariant
            i <= keys.len(),
            forall|a: int, b: int| 0 <= a < b < i ==> keys[a] != keys[b],
        decreases keys.len() - i,
    {
        match position(keys, &keys[i]) {
            Some(first) => {
                if first != i {
                    assert(keys[first as int] == keys[i as int]);
                    return false;
                }
            },
            None => {
                assert(keys@[i as int] == keys[i as int]);
                return false;
            },
        }
        i += 1;
    }
    true
}

} // verus!
