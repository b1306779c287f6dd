//! The order of a loan's states.
//!
//! A loan is open, then funded, then repaid, and never goes back. The engines
//! enforce that by refusing every call that comes at the wrong stage.

use crate::accounts::Wallet;
use crate::error::LoanError;
use crate::loan::{LoanStatus, LoanView};
use anchor_lang::prelude::Pubkey;
use vstd::prelude::*;

verus! {

impl LoanStatus {
    /// How far along a loan in this state is.
    pub open spec fn stage(self) -> nat {
        match self {
            LoanStatus::Open => 0,
            LoanStatus::Funded => 1,
            LoanStatus::RepaidOnTime => 2,
            LoanStatus::RepaidLate => 2,
        }
    }

    /// Whether this is one of the two final states.
    pub open spec fn is_repaid(self) -> bool {
        self == LoanStatus::RepaidOnTime || self == LoanStatus::RepaidLate
    }
}

/// An accepted offer finds the loan open, and leaves it open or, exactly when
/// the offer brings the loan to its principal, funded.
pub proof fn lemma_funding_moves_forward(
    loan: LoanView,
    lender: Pubkey,
    balance: nat,
    amount: nat,
    now: int,
)
    requires
        loan.funding_refusal(lender, balance, amount) is None,
    ensures
        loan.status == LoanStatus::Open,
        loan.funded(lender, amount, now).status == if loan.completed_by(amount) {
            LoanStatus::Funded
        } else {
            LoanStatus::Open
        },
        loan.status.stage() <= loan.funded(lender, amount, now).status.stage(),
{
}

/// An accepted repayment finds the loan funded and leaves it repaid.
pub proof fn lemma_repayment_moves_forward(
    loan: LoanView,
    balance: nat,
    accounts: Seq<Wallet>,
    amount: nat,
    now: int,
)
    requires
        loan.repayment_refusal(balance, accounts, amount) is None,
    ensures
        loan.status == LoanStatus::Funded,
        loan.repaid(now).status.is_repaid(),
        loan.status.stage() < loan.repaid(now).status.stage(),
{
}

/// A repayment at the due date itself is on time, and one second later it is
/// late: the verdict is on time exactly up to the due date.
pub proof fn theorem_due_date_is_the_last_moment(loan: LoanView, now: int)
    ensures
        loan.verdict(loan.due_ts) == LoanStatus::RepaidOnTime,
        loan.verdict(loan.due_ts + 1) == LoanStatus::RepaidLate,
        loan.verdict(now) == LoanStatus::RepaidOnTime <==> now <= loan.due_ts,
        loan.verdict(now) == LoanStatus::RepaidLate <==> now > loan.due_ts,
{
}

/// A repaid loan is finished: whoever offers or repays whatever amount is
/// refused. The reason is the loan's status, unless the amount is zero, which
/// is refused as an amount before the status is looked at.
pub proof fn theorem_repaid_is_final(
    loan: LoanView,
    lender: Pubkey,
    balance: nat,
    accounts: Seq<Wallet>,
    amount: nat,
)
    requires
        loan.status.is_repaid(),
    ensures
        loan.funding_refusal(lender, balance, amount) is Some,
        loan.repayment_refusal(balance, accounts, amount) is Some,
        amount > 0 ==> {
            &&& loan.funding_refusal(lender, balance, amount) == Some(LoanError::InvalidStatus)
            &&& loan.repayment_refusal(balance, accounts, amount) == Some(
                LoanError::InvalidStatus,
            )
        },
        amount == 0 ==> {
            &&& loan.funding_refusal(lender, balance, amount) == Some(LoanError::InvalidAmount)
            &&& loan.repayment_refusal(balance, accounts, amount) == Some(
                LoanError::InvalidAmount,
            )
        },
{
}

} // verus!
