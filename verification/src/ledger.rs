//! Sums over a column of amounts.
//!
//! The funding ledger keeps one amount per lender. Everything the engines
//! promise about conservation is a statement about the sum of that column, so
//! the sum and the few facts about it that the proofs need live here.

use vstd::prelude::*;

verus! {

/// The sum of all entries of `amounts`.
pub open spec fn total(amounts: Seq<nat>) -> nat
    decreases amounts.len(),
{
    if amounts.len() == 0 {
        0
    } else {
        total(amounts.drop_last()) + amounts.last()
    }
}

/// Appending an entry adds it to the sum.
pub proof fn lemma_total_push(amounts: Seq<nat>, amount: nat)
    ensures
        total(amounts.push(amount)) == total(amounts) + amount,
{
    assert(amounts.push(amount).drop_last() =~= amounts);
}

/// Replacing one entry changes the sum by the difference.
pub proof fn lemma_total_update(amounts: Seq<nat>, i: int, amount: nat)
    requires
        0 <= i < amounts.len(),
    ensures
        total(amounts.update(i, amount)) + amounts[i] == total(amounts) + amount,
    decreases amounts.len(),
{
    let updated = amounts.update(i, amount);
    if i == amounts.len() - 1 {
        assert(updated.drop_last() =~= amounts.drop_last());
    } else {
        lemma_total_update(amounts.drop_last(), i, amount);
        assert(updated.drop_last() =~= amounts.drop_last().update(i, amount));
    }
}

/// No entry is larger than the sum.
pub proof fn lemma_entry_le_total(amounts: Seq<nat>, i: int)
    requires
        0 <= i < amounts.len(),
    ensures
        amounts[i] <= total(amounts),
    decreases amounts.len(),
{
    if i < amounts.len() - 1 {
        lemma_entry_le_total(amounts.drop_last(), i);
    }
}

/// The sum of the first `n` entries, one step at a time.
pub proof fn lemma_total_take_next(amounts: Seq<nat>, n: int)
    requires
        0 <= n < amounts.len(),
    ensures
        total(amounts.take(n + 1)) == total(amounts.take(n)) + amounts[n],
{
    assert(amounts.take(n + 1).drop_last() =~= amounts.take(n));
}

/// A prefix sums to no more than the whole.
pub proof fn lemma_total_take_le(amounts: Seq<nat>, n: int)
    requires
        0 <= n <= amounts.len(),
    ensures
        total(amounts.take(n)) <= total(amounts),
    decreases amounts.len() - n,
{
    if n < amounts.len() {
        lemma_total_take_next(amounts, n);
        lemma_total_take_le(amounts, n + 1);
    } else {
        assert(amounts.take(n) =~= amounts);
    }
}

} // verus!
