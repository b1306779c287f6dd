//! The funding engine: lenders pay into the escrow until the principal is
//! reached, and the contribution that completes it pays the borrower out.

use crate::accounts::{Escrow, Wallet};
use crate::error::LoanError;
use crate::keys::{position, same_key};
use crate::ledger::{lemma_entry_le_total, lemma_total_push, lemma_total_update, total};
use crate::loan::{as_nats, Loan, LoanStatus, LoanView, MAX_LENDERS};
use anchor_lang::prelude::Pubkey;
use vstd::prelude::*;

verus! {

/// The accounts of one contribution: the loan and its escrow, the lender who
/// pays, and the borrower who is paid out if this contribution completes the
/// funding.
#[derive(Clone, Debug, PartialEq, Eq)]
pub struct FundLoan {
    pub loan: Loan,
    pub escrow: Escrow,
    pub lender: Wallet,
    pub borrower: Wallet,
}

impl LoanView {
    /// How much of an offer of `amount` the loan takes: the offer itself, or
    /// what is still missing if that is less.
    pub open spec fn applied(self, amount: nat) -> nat {
        if amount <= self.remaining() {
            amount
        } else {
            self.remaining()
        }
    }

    /// The loan with `amount` more from `lender` in its ledger: added to the
    /// lender's entry if there is one, and as a new last entry otherwise.
    pub open spec fn credited(self, lender: Pubkey, amount: nat) -> LoanView {
        if self.lenders.contains(lender) {
            let i = self.lenders.index_of(lender);
            LoanView {
                funded_amount: self.funded_amount + amount,
                lenders_amounts: self.lenders_amounts.update(i, self.lenders_amounts[i] + amount),
                ..self
            }
        } else {
            LoanView {
                funded_amount: self.funded_amount + amount,
                lenders: self.lenders.push(lender),
                lenders_amounts: self.lenders_amounts.push(amount),
                ..self
            }
        }
    }

    /// The loan as it starts to run at time `now`.
    pub open spec fn activated(self, now: int) -> LoanView {
        LoanView {
            status: LoanStatus::Funded,
            start_ts: now,
            due_ts: now + self.duration,
            ..self
        }
    }

    /// Whether an offer of `amount` brings the loan to its principal.
    pub open spec fn completed_by(self, amount: nat) -> bool {
        self.funded_amount + self.applied(amount) == self.total_amount
    }

    /// The loan after `lender` offered `amount` at time `now` and the offer
    /// was accepted.
    pub open spec fn funded(self, lender: Pubkey, amount: nat, now: int) -> LoanView {
        let credited = self.credited(lender, self.applied(amount));
        if self.completed_by(amount) {
            credited.activated(now)
        } else {
            credited
        }
    }

    /// Why an offer of `amount` from a lender who holds `balance` is refused,
    /// or `None` if it is accepted. The reasons are tried in this order.
    pub open spec fn funding_refusal(self, lender: Pubkey, balance: nat, amount: nat) -> Option<
        LoanError,
    > {
        if amount == 0 {
            Some(LoanError::InvalidAmount)
        } else if self.status != LoanStatus::Open {
            Some(LoanError::InvalidStatus)
        } else if self.applied(amount) == 0 {
            Some(LoanError::InvalidAmount)
        } else if lender == self.borrower {
            Some(LoanError::SelfFunding)
        } else if balance < self.applied(amount) {
            Some(LoanError::InsufficientFunds)
        } else if !self.lenders.contains(lender) && self.lenders.len() >= MAX_LENDERS {
            Some(LoanError::TooManyLenders)
        } else {
            None
        }
    }
}

/// No overfunding: the loan takes the whole offer if it fits, and exactly
/// what is missing if it does not.
pub proof fn lemma_applied_is_capped(loan: LoanView, amount: nat)
    requires
        loan.funded_amount <= loan.total_amount,
    ensures
        loan.applied(amount) <= amount,
        loan.funded_amount + loan.applied(amount) <= loan.total_amount,
        amount <= loan.remaining() ==> loan.applied(amount) == amount,
        amount > loan.remaining() ==> loan.applied(amount) == loan.remaining(),
{
}

/// An accepted contribution keeps the loan well formed, and takes no more
/// than was offered and no more than was missing.
pub proof fn lemma_funded_well_formed(
    loan: LoanView,
    lender: Pubkey,
    balance: nat,
    amount: nat,
    now: int,
)
    requires
        loan.well_formed(),
        loan.funding_refusal(lender, balance, amount) is None,
    ensures
        loan.funded(lender, amount, now).well_formed(),
        0 < loan.applied(amount) <= amount,
        loan.funded(lender, amount, now).funded_amount == loan.funded_amount + loan.applied(
            amount,
        ),
        loan.funded(lender, amount, now).funded_amount <= loan.total_amount,
{
    let applied = loan.applied(amount);
    let credited = loan.credited(lender, applied);
    if loan.lenders.contains(lender) {
        let i = loan.lenders.index_of(lender);
        lemma_total_update(loan.lenders_amounts, i, loan.lenders_amounts[i] + applied);
    } else {
        lemma_total_push(loan.lenders_amounts, applied);
        let lenders = loan.lenders.push(lender);
        assert(lenders.no_duplicates()) by {
            assert forall|a: int, b: int|
                0 <= a < lenders.len() && 0 <= b < lenders.len() && a != b implies lenders[a]
                != lenders[b] by {
                if a < loan.lenders.len() {
                    assert(loan.lenders.contains(loan.lenders[a]));
                }
                if b < loan.lenders.len() {
                    assert(loan.lenders.contains(loan.lenders[b]));
                }
            }
        }
        assert(!lenders.contains(loan.borrower)) by {
            if lenders.contains(loan.borrower) {
                let j = lenders.index_of(loan.borrower);
                assert(loan.lenders[j] == loan.borrower);
                assert(loan.lenders.contains(loan.borrower));
            }
        }
    }
    assert(credited.ledger_balanced());
}

impl FundLoan {
    /// The accounts belong together: the loan is well formed, the escrow
    /// backs it, the borrower's wallet is the borrower's, and the three
    /// balances together are an amount that exists.
    pub open spec fn well_formed(&self) -> bool {
        &&& self.loan.well_formed()
        &&& self.escrow.backs(self.loan@)
        &&& self.borrower.key == self.loan.borrower
        &&& self.lender.lamports + self.escrow.lamports + self.borrower.lamports <= u64::MAX
    }

    /// Why an offer of `amount` is refused, or `None` if it is accepted.
    pub open spec fn refusal(&self, amount: u64) -> Option<LoanError> {
        self.loan@.funding_refusal(self.lender.key, self.lender.lamports as nat, amount as nat)
    }

    /// Whether an offer of `amount` is accepted and completes the funding.
    pub open spec fn completes(&self, amount: u64) -> bool {
        self.refusal(amount) is None && self.loan@.completed_by(amount as nat)
    }

    /// Whether these accounts belong together.
    pub fn is_well_formed(&self) -> (ok: bool)
        ensures
            ok == self.well_formed(),
    {
        if !self.loan.is_well_formed() {
            return false;
        }
        let backed = match self.loan.status {
            LoanStatus::Open => self.escrow.lamports == self.loan.funded_amount,
            LoanStatus::Funded => self.escrow.lamports == 0,
            _ => true,
        };
        backed && same_key(&self.borrower.key, &self.loan.borrower) && self.lender.lamports as u128
            + self.escrow.lamports as u128 + self.borrower.lamports as u128 <= u64::MAX as u128
    }
}

impl Loan {
    /// Writes `amount` from `lender` into the ledger and counts it as funded.
    fn credit(&mut self, lender: Pubkey, amount: u64)
        requires
            old(self).well_formed(),
            old(self).funded_amount + amount <= old(self).total_amount,
            old(self).lenders@.contains(lender) || old(self).lenders.len() < MAX_LENDERS,
        ensures
            final(self)@ == old(self)@.credited(lender, amount as nat),
    {
        let ghost before = self@;
        match position(&self.lenders, &lender) {
            Some(i) => {
                let so_far = self.lenders_amounts[i];
                proof {
                    lemma_entry_le_total(before.lenders_amounts, i as int);
                    assert(before.lenders.index_of(lender) == i);
                }
                self.lenders_amounts.set(i, so_far + amount);
                assert(as_nats(self.lenders_amounts@) =~= before.lenders_amounts.update(
                    i as int,
                    before.lenders_amounts[i as int] + amount as nat,
                ));
            },
            None => {
                self.lenders.push(lender);
                self.lenders_amounts.push(amount);
                assert(as_nats(self.lenders_amounts@) =~= before.lenders_amounts.push(
                    amount as nat,
                ));
            },
        }
        self.funded_amount = self.funded_amount + amount;
    }
}

/// A lender offers `amount` towards the loan at time `now`.
///
/// The loan takes the offer, or as much of it as is still missing, from the
/// lender's wallet into the escrow and records it in the ledger. If that
/// brings the loan to its principal, the loan starts to run from `now` and the
/// escrow is paid out to the borrower in the same step.
///
/// A refused offer changes nothing. Which offers are refused, and why, is
/// `LoanView::funding_refusal`.
pub fn fund_loan(ctx: &mut FundLoan, amount: u64, now: i64) -> (result: Result<(), LoanError>)
    requires
        old(ctx).well_formed(),
        old(ctx).completes(amount) ==> i64::MIN <= now + old(ctx).loan.duration <= i64::MAX,
    ensures
        final(ctx).well_formed(),
        result == match old(ctx).refusal(amount) {
            Some(reason) => Err::<(), LoanError>(reason),
            None => Ok::<(), LoanError>(()),
        },
        result is Err ==> *final(ctx) == *old(ctx),
        final(ctx).books() == old(ctx).books().after(old(ctx).offer(amount, now)),
        total(final(ctx).loan@.lenders_amounts) == final(ctx).loan.funded_amount,
        final(ctx).loan.funded_amount <= final(ctx).loan.total_amount,
        result is Ok ==> {
            let applied = old(ctx).loan@.applied(amount as nat);
            &&& final(ctx).loan@ == old(ctx).loan@.funded(old(ctx).lender.key, amount as nat, now as int)
            &&& final(ctx).lender.key == old(ctx).lender.key
            &&& final(ctx).lender.lamports == old(ctx).lender.lamports - applied
            &&& final(ctx).borrower.key == old(ctx).borrower.key
            &&& if old(ctx).completes(amount) {
                &&& final(ctx).loan.status == LoanStatus::Funded
                &&& final(ctx).escrow.lamports == 0
                &&& final(ctx).borrower.lamports == old(ctx).borrower.lamports + old(ctx).loan.total_amount
            } else {
                &&& final(ctx).loan.status == LoanStatus::Open
                &&& final(ctx).escrow.lamports == final(ctx).loan.funded_amount
                &&& final(ctx).borrower.lamports == old(ctx).borrower.lamports
            }
        },
{
    if amount == 0 {
        return Err(LoanError::InvalidAmount);
    }
    if ctx.loan.status != LoanStatus::Open {
        return Err(LoanError::InvalidStatus);
    }
    let remaining_needed = ctx.loan.total_amount - ctx.loan.funded_amount;
    let contribute_amount = if amount <= remaining_needed {
        amount
    } else {
        remaining_needed
    };
    if contribute_amount == 0 {
        return Err(LoanError::InvalidAmount);
    }
    if same_key(&ctx.lender.key, &ctx.loan.borrower) {
        return Err(LoanError::SelfFunding);
    }
    if ctx.lender.lamports < contribute_amount {
        return Err(LoanError::InsufficientFunds);
    }
    if position(&ctx.loan.lenders, &ctx.lender.key).is_none() && ctx.loan.lenders.len()
        >= MAX_LENDERS {
        return Err(LoanError::TooManyLenders);
    }
    proof {
        lemma_funded_well_formed(
            ctx.loan@,
            ctx.lender.key,
            ctx.lender.lamports as nat,
            amount as nat,
            now as int,
        );
    }
    ctx.lender.pay_into(&mut ctx.escrow, contribute_amount);
    ctx.loan.credit(ctx.lender.key, contribute_amount);
    if ctx.loan.funded_amount == ctx.loan.total_amount {
        ctx.loan.status = LoanStatus::Funded;
        ctx.loan.start_ts = now;
        ctx.loan.due_ts = now + ctx.loan.duration;
        ctx.escrow.release(&mut ctx.borrower, ctx.loan.total_amount);
    }
    Ok(())
}

} // verus!
