//! Splitting a repayment among the lenders.
//!
//! Each lender receives the repayment times their part of the funding, rounded
//! down. Rounding down never pays out more than came in, and it loses less
//! than one unit per lender.

use crate::ledger::{lemma_total_take_le, lemma_total_take_next, total};
use vstd::prelude::*;

verus! {

/// What a lender who put in `amount` of `funded` receives of `repay`.
pub open spec fn share_of(repay: nat, amount: nat, funded: nat) -> nat {
    repay * amount / funded
}

/// What each lender receives of `repay`, in ledger order.
pub open spec fn shares(amounts: Seq<nat>, repay: nat) -> Seq<nat> {
    Seq::new(amounts.len(), |i: int| share_of(repay, amounts[i], total(amounts)))
}

/// A share is the exact quotient rounded down: scaled back up it is at most
/// the lender's part of the repayment, and misses it by less than `funded`.
pub proof fn lemma_share_rounds_down(repay: nat, amount: nat, funded: nat)
    requires
        funded > 0,
    ensures
        funded * share_of(repay, amount, funded) <= repay * amount,
        repay * amount <= funded * share_of(repay, amount, funded) + (funded - 1),
{
    let product: int = (repay * amount) as int;
    let divisor: int = funded as int;
    vstd::arithmetic::div_mod::lemma_fundamental_div_mod(product, divisor);
    vstd::arithmetic::div_mod::lemma_mod_bound(product, divisor);
}

/// A lender whose entry is no more than the funding receives no more than
/// the repayment.
pub proof fn lemma_share_le_repay(repay: nat, amount: nat, funded: nat)
    requires
        funded > 0,
        amount <= funded,
    ensures
        share_of(repay, amount, funded) <= repay,
{
    lemma_share_rounds_down(repay, amount, funded);
    let share = share_of(repay, amount, funded);
    assert(share <= repay) by (nonlinear_arith)
        requires
            funded > 0,
            amount <= funded,
            funded * share <= repay * amount,
    ;
}

/// The first `k` shares, scaled up by the funding, are at most the repayment
/// times the first `k` entries, and miss it by less than `funded` per share.
proof fn lemma_shares_prefix(amounts: Seq<nat>, repay: nat, k: int)
    requires
        total(amounts) > 0,
        0 <= k <= amounts.len(),
    ensures
        total(amounts) * total(shares(amounts, repay).take(k)) <= repay * total(amounts.take(k)),
        repay * total(amounts.take(k)) <= total(amounts) * total(shares(amounts, repay).take(k))
            + k * (total(amounts) - 1),
    decreases k,
{
    let funded = total(amounts);
    let paid = shares(amounts, repay);
    if k == 0 {
        assert(paid.take(0) =~= Seq::<nat>::empty());
        assert(amounts.take(0) =~= Seq::<nat>::empty());
        assert(repay * 0 == 0) by (nonlinear_arith);
        assert(funded * 0 == 0) by (nonlinear_arith);
    } else {
        let j = k - 1;
        lemma_shares_prefix(amounts, repay, j);
        lemma_total_take_next(amounts, j);
        lemma_total_take_next(paid, j);
        lemma_share_rounds_down(repay, amounts[j], funded);
        let paid_before = total(paid.take(j));
        let funded_before = total(amounts.take(j));
        let share = paid[j];
        let amount = amounts[j];
        assert(share == share_of(repay, amount, funded));
        assert(funded * (paid_before + share) == funded * paid_before + funded * share)
            by (nonlinear_arith);
        assert(repay * (funded_before + amount) == repay * funded_before + repay * amount)
            by (nonlinear_arith);
        assert((j + 1) * (funded - 1) == j * (funded - 1) + (funded - 1)) by (nonlinear_arith);
    }
}

/// However many of the shares have been paid, they add up to no more than
/// the repayment.
pub proof fn lemma_shares_paid_le_repay(amounts: Seq<nat>, repay: nat, k: int)
    requires
        total(amounts) > 0,
        0 <= k <= amounts.len(),
    ensures
        total(shares(amounts, repay).take(k)) <= repay,
{
    lemma_shares_prefix(amounts, repay, k);
    lemma_total_take_le(amounts, k);
    let funded = total(amounts);
    let part = total(amounts.take(k));
    let paid = total(shares(amounts, repay).take(k));
    assert(paid <= repay) by (nonlinear_arith)
        requires
            funded > 0,
            part <= funded,
            funded * paid <= repay * part,
    ;
}

/// The shares add up to no more than the repayment, and what they leave over
/// is less than one unit per lender.
pub proof fn lemma_shares_residue(amounts: Seq<nat>, repay: nat)
    requires
        total(amounts) > 0,
    ensures
        total(shares(amounts, repay)) <= repay,
        repay - total(shares(amounts, repay)) < amounts.len(),
{
    let funded = total(amounts);
    let paid = shares(amounts, repay);
    let n = amounts.len() as int;
    lemma_shares_prefix(amounts, repay, n);
    lemma_shares_paid_le_repay(amounts, repay, n);
    assert(paid.take(n) =~= paid);
    assert(amounts.take(n) =~= amounts);
    let sum = total(paid);
    assert(repay - sum < n) by (nonlinear_arith)
        requires
            funded > 0,
            n > 0,
            repay * funded <= funded * sum + n * (funded - 1),
    ;
}

} // verus!
