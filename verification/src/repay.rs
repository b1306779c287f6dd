//! The repayment engine: the borrower pays principal and interest into the
//! escrow, and the escrow pays every lender their share.

use crate::accounts::{Escrow, Wallet};
use crate::error::LoanError;
use crate::keys::same_key;
use crate::ledger::{lemma_entry_le_total, lemma_total_take_next, lemma_total_update, total};
use crate::loan::{as_nats, Loan, LoanStatus, LoanView};
use crate::shares::{lemma_share_le_repay, lemma_shares_paid_le_repay, lemma_shares_residue, share_of, shares};
use anchor_lang::prelude::Pubkey;
use vstd::prelude::*;

verus! {

/// One percent is a hundred basis points; this is a hundred percent.
pub const BPS_DENOMINATOR: u64 = 10_000;

/// The accounts of a repayment: the loan and its escrow, the borrower who
/// pays, and the lenders' settlement accounts, which have to come in ledger
/// order.
#[derive(Clone, Debug, PartialEq, Eq)]
pub struct RepayLoan {
    pub loan: Loan,
    pub escrow: Escrow,
    pub borrower: Wallet,
    pub remaining_accounts: Vec<Wallet>,
}

/// What each of `accounts` holds.
pub open spec fn balances(accounts: Seq<Wallet>) -> Seq<nat> {
    accounts.map_values(|account: Wallet| account.lamports as nat)
}

/// There is a settlement account for every lender, at the lender's position
/// in the ledger and under the lender's key. Further accounts may follow.
pub open spec fn accounts_match(lenders: Seq<Pubkey>, accounts: Seq<Wallet>) -> bool {
    &&& lenders.len() <= accounts.len()
    &&& forall|i: int| 0 <= i < lenders.len() ==> accounts[i].key == lenders[i]
}

impl LoanView {
    /// The flat fee on the principal, rounded down.
    pub open spec fn interest(self) -> nat {
        self.total_amount * self.interest_bps / (BPS_DENOMINATOR as nat)
    }

    /// The least the borrower has to repay: principal plus interest.
    pub open spec fn amount_due(self) -> nat {
        self.total_amount + self.interest()
    }

    /// What each lender receives of a repayment of `amount`, in ledger order.
    pub open spec fn shares(self, amount: nat) -> Seq<nat> {
        shares(self.lenders_amounts, amount)
    }

    /// The status a repayment at time `now` earns: on time up to and
    /// including the due date, late after it.
    pub open spec fn verdict(self, now: int) -> LoanStatus {
        if now <= self.due_ts {
            LoanStatus::RepaidOnTime
        } else {
            LoanStatus::RepaidLate
        }
    }

    /// The loan after it was repaid at time `now`.
    pub open spec fn repaid(self, now: int) -> LoanView {
        LoanView { status: self.verdict(now), repaid_ts: now, ..self }
    }

    /// Why a repayment of `amount` from a borrower who holds `balance` is
    /// refused, or `None` if it is accepted. The reasons are tried in this
    /// order.
    pub open spec fn repayment_refusal(self, balance: nat, accounts: Seq<Wallet>, amount: nat) -> Option<
        LoanError,
    > {
        if amount == 0 {
            Some(LoanError::InvalidAmount)
        } else if self.status != LoanStatus::Funded {
            Some(LoanError::InvalidStatus)
        } else if amount < self.amount_due() {
            Some(LoanError::InsufficientRepayment)
        } else if balance < amount {
            Some(LoanError::InsufficientFunds)
        } else if !accounts_match(self.lenders, accounts) {
            Some(LoanError::MissingLenderAccount)
        } else {
            None
        }
    }
}

/// A repayment keeps the loan well formed.
pub proof fn lemma_repaid_well_formed(loan: LoanView, now: int)
    requires
        loan.well_formed(),
        loan.status == LoanStatus::Funded,
    ensures
        loan.repaid(now).well_formed(),
{
}

/// The sum of what `accounts` hold.
fn sum_of_balances(accounts: &Vec<Wallet>) -> (sum: Option<u64>)
    ensures
        match sum {
            Some(sum) => sum == total(balances(accounts@)),
            None => total(balances(accounts@)) > u64::MAX,
        },
{
    let ghost held = balances(accounts@);
    let mut sum: u64 = 0;
    let mut i: usize = 0;
    while i < accounts.len()
        invariant
            i <= accounts.len(),
            held == balances(accounts@),
            sum == total(held.take(i as int)),
        decreases accounts.len() - i,
    {
        proof {
            lemma_total_take_next(held, i as int);
        }
        match sum.checked_add(accounts[i].lamports) {
            Some(more) => {
                sum = more;
            },
            None => {
                proof {
                    crate::ledger::lemma_total_take_le(held, i + 1);
                }
                return None;
            },
        }
        i += 1;
    }
    assert(held.take(i as int) =~= held);
    Some(sum)
}

/// Whether there is a settlement account for every lender, in ledger order.
fn has_matching_accounts(lenders: &Vec<Pubkey>, accounts: &Vec<Wallet>) -> (ok: bool)
    ensures
        ok == accounts_match(lenders@, accounts@),
{
    if accounts.len() < lenders.len() {
        return false;
    }
    let mut i: usize = 0;
    while i < lenders.len()
        invariant
            i <= lenders.len() <= accounts.len(),
            forall|j: int| 0 <= j < i ==> accounts[j].key == lenders[j],
        decreases lenders.len() - i,
    {
        if !same_key(&accounts[i].key, &lenders[i]) {
            return false;
        }
        i += 1;
    }
    true
}

impl RepayLoan {
    /// The accounts belong together: the loan is well formed, the escrow
    /// backs it, the borrower's wallet is the borrower's, and all balances
    /// together are an amount that exists.
    pub open spec fn well_formed(&self) -> bool {
        &&& self.loan.well_formed()
        &&& self.escrow.backs(self.loan@)
        &&& self.borrower.key == self.loan.borrower
        &&& self.borrower.lamports + self.escrow.lamports + total(
            balances(self.remaining_accounts@),
        ) <= u64::MAX
    }

    /// Why a repayment of `amount` is refused, or `None` if it is accepted.
    pub open spec fn refusal(&self, amount: u64) -> Option<LoanError> {
        self.loan@.repayment_refusal(
            self.borrower.lamports as nat,
            self.remaining_accounts@,
            amount as nat,
        )
    }

    /// Whether these accounts belong together.
    pub fn is_well_formed(&self) -> (ok: bool)
        ensures
            ok == self.well_formed(),
    {
        if !self.loan.is_well_formed() {
            return false;
        }
        let backed = match self.loan.status {
            LoanStatus::Open => self.escrow.lamports == self.loan.funded_amount,
            LoanStatus::Funded => self.escrow.lamports == 0,
            _ => true,
        };
        if !backed || !same_key(&self.borrower.key, &self.loan.borrower) {
            return false;
        }
        match sum_of_balances(&self.remaining_accounts) {
            Some(held) => self.borrower.lamports as u128 + self.escrow.lamports as u128
                + held as u128 <= u64::MAX as u128,
            None => false,
        }
    }
}

impl Escrow {
    /// Pays every lender their share of `repay_amount` out of the escrow,
    /// into the settlement account at the lender's position.
    fn distribute(
        &mut self,
        accounts: &mut Vec<Wallet>,
        amounts: &Vec<u64>,
        funded: u64,
        repay_amount: u64,
    )
        requires
            funded > 0,
            funded == total(as_nats(amounts@)),
            amounts.len() <= old(accounts).len(),
            repay_amount <= old(self).lamports,
            old(self).lamports + total(balances(old(accounts)@)) <= u64::MAX,
        ensures
            final(self).lamports == old(self).lamports - total(
                shares(as_nats(amounts@), repay_amount as nat),
            ),
            final(accounts).len() == old(accounts).len(),
            forall|i: int|
                #![trigger final(accounts)[i]]
                0 <= i < final(accounts).len() ==> {
                    &&& final(accounts)[i].key == old(accounts)[i].key
                    &&& final(accounts)[i].lamports == old(accounts)[i].lamports + if i
                        < amounts.len() {
                        shares(as_nats(amounts@), repay_amount as nat)[i]
                    } else {
                        0
                    }
                },
            total(balances(final(accounts)@)) == total(balances(old(accounts)@)) + total(
                shares(as_nats(amounts@), repay_amount as nat),
            ),
    {
        let ghost column = as_nats(amounts@);
        let ghost due = shares(column, repay_amount as nat);
        let ghost held_before = total(balances(old(accounts)@));
        let mut i: usize = 0;
        while i < amounts.len()
            invariant
                i <= amounts.len() <= accounts.len(),
                accounts.len() == old(accounts).len(),
                column == as_nats(amounts@),
                due == shares(column, repay_amount as nat),
                funded > 0,
                funded == total(column),
                held_before == total(balances(old(accounts)@)),
                repay_amount <= old(self).lamports,
                old(self).lamports + held_before <= u64::MAX,
                self.lamports == old(self).lamports - total(due.take(i as int)),
                total(balances(accounts@)) == held_before + total(due.take(i as int)),
                forall|j: int|
                    #![trigger accounts[j]]
                    0 <= j < accounts.len() ==> {
                        &&& accounts[j].key == old(accounts)[j].key
                        &&& accounts[j].lamports == old(accounts)[j].lamports + if j < i {
                            due[j]
                        } else {
                            0
                        }
                    },
            decreases amounts.len() - i,
        {
            let amount = amounts[i];
            proof {
                lemma_entry_le_total(column, i as int);
                lemma_share_le_repay(repay_amount as nat, amount as nat, funded as nat);
                lemma_total_take_next(due, i as int);
                lemma_shares_paid_le_repay(column, repay_amount as nat, i + 1);
                lemma_entry_le_total(balances(accounts@), i as int);
                assert(repay_amount * amount <= u64::MAX * u64::MAX) by (nonlinear_arith)
                    requires
                        repay_amount <= u64::MAX,
                        amount <= u64::MAX,
                ;
            }
            let share = (repay_amount as u128 * amount as u128) / (funded as u128);
            assert(share == share_of(repay_amount as nat, amount as nat, funded as nat));
            assert(share == due[i as int]);
            let share_u64 = share as u64;
            let mut account = accounts[i];
            let ghost held = balances(accounts@);
            self.release(&mut account, share_u64);
            accounts.set(i, account);
            proof {
                assert(balances(accounts@) =~= held.update(i as int, account.lamports as nat));
                lemma_total_update(held, i as int, account.lamports as nat);
            }
            i += 1;
        }
        assert(due.take(i as int) =~= due);
    }
}

/// The borrower repays `repay_amount` at time `now`.
///
/// The amount has to cover principal plus interest; more is accepted and
/// distributed like the rest. It moves from the borrower's wallet into the
/// escrow, and from there every lender receives the repayment times their
/// part of the funding, rounded down, into the settlement account at their
/// position in the ledger. What rounding leaves over stays in the escrow. The
/// loan is then closed as repaid on time if `now` is no later than the due
/// date, and as repaid late otherwise.
///
/// A refused repayment changes nothing. Which repayments are refused, and
/// why, is `LoanView::repayment_refusal`.
pub fn repay_loan(ctx: &mut RepayLoan, repay_amount: u64, now: i64) -> (result: Result<
    (),
    LoanError,
>)
    requires
        old(ctx).well_formed(),
    ensures
        final(ctx).well_formed(),
        result == match old(ctx).refusal(repay_amount) {
            Some(reason) => Err::<(), LoanError>(reason),
            None => Ok::<(), LoanError>(()),
        },
        result is Err ==> *final(ctx) == *old(ctx),
        result is Ok ==> {
            let paid = old(ctx).loan@.shares(repay_amount as nat);
            &&& final(ctx).loan@ == old(ctx).loan@.repaid(now as int)
            &&& final(ctx).borrower.key == old(ctx).borrower.key
            &&& final(ctx).borrower.lamports == old(ctx).borrower.lamports - repay_amount
            &&& final(ctx).remaining_accounts.len() == old(ctx).remaining_accounts.len()
            &&& forall|i: int|
                #![trigger final(ctx).remaining_accounts[i]]
                0 <= i < final(ctx).remaining_accounts.len() ==> {
                    &&& final(ctx).remaining_accounts[i].key == old(ctx).remaining_accounts[i].key
                    &&& final(ctx).remaining_accounts[i].lamports == old(
                        ctx,
                    ).remaining_accounts[i].lamports + if i < paid.len() {
                        paid[i]
                    } else {
                        0
                    }
                }
            &&& final(ctx).escrow.lamports == repay_amount - total(paid)
            &&& total(paid) <= repay_amount
            &&& repay_amount - total(paid) < old(ctx).loan.lenders.len()
        },
{
    if repay_amount == 0 {
        return Err(LoanError::InvalidAmount);
    }
    if ctx.loan.status != LoanStatus::Funded {
        return Err(LoanError::InvalidStatus);
    }
    assert(ctx.loan.total_amount * ctx.loan.interest_bps <= u64::MAX * u16::MAX)
        by (nonlinear_arith)
        requires
            ctx.loan.total_amount <= u64::MAX,
            ctx.loan.interest_bps <= u16::MAX,
    ;
    let interest = ctx.loan.total_amount as u128 * ctx.loan.interest_bps as u128
        / BPS_DENOMINATOR as u128;
    let expected_total = ctx.loan.total_amount as u128 + interest;
    if (repay_amount as u128) < expected_total {
        return Err(LoanError::InsufficientRepayment);
    }
    if ctx.borrower.lamports < repay_amount {
        return Err(LoanError::InsufficientFunds);
    }
    if !has_matching_accounts(&ctx.loan.lenders, &ctx.remaining_accounts) {
        return Err(LoanError::MissingLenderAccount);
    }
    proof {
        lemma_repaid_well_formed(ctx.loan@, now as int);
        lemma_shares_residue(ctx.loan@.lenders_amounts, repay_amount as nat);
    }
    ctx.borrower.pay_into(&mut ctx.escrow, repay_amount);
    ctx.escrow.distribute(
        &mut ctx.remaining_accounts,
        &ctx.loan.lenders_amounts,
        ctx.loan.funded_amount,
        repay_amount,
    );
    ctx.loan.status = if now <= ctx.loan.due_ts {
        LoanStatus::RepaidOnTime
    } else {
        LoanStatus::RepaidLate
    };
    ctx.loan.repaid_ts = now;
    Ok(())
}

} // verus!
