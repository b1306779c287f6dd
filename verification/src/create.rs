//! Opening a loan.

use crate::accounts::Escrow;
use crate::error::LoanError;
use crate::loan::{as_nats, Loan, LoanStatus, LoanView, MAX_INTEREST_BPS};
use anchor_lang::prelude::Pubkey;
use vstd::prelude::*;

verus! {

/// What opening a loan reads from its surroundings: who asks, and the bump
/// under which the loan's escrow is derived.
#[derive(Clone, Copy, Debug, PartialEq, Eq)]
pub struct CreateLoan {
    pub borrower: Pubkey,
    pub escrow_bump: u8,
}

impl LoanView {
    /// A loan as it is on the day it opens: nothing funded, nobody in the
    /// ledger, no timestamps.
    pub open spec fn opened(
        borrower: Pubkey,
        total_amount: nat,
        interest_bps: nat,
        duration: int,
        escrow_bump: u8,
    ) -> LoanView {
        LoanView {
            borrower,
            total_amount,
            funded_amount: 0,
            interest_bps,
            duration,
            start_ts: 0,
            due_ts: 0,
            repaid_ts: 0,
            status: LoanStatus::Open,
            lenders: Seq::empty(),
            lenders_amounts: Seq::empty(),
            escrow_bump,
        }
    }
}

/// A loan that opens with a positive principal and an interest rate of at
/// most 100% is well formed, and an empty escrow backs it.
pub proof fn lemma_opened_well_formed(
    borrower: Pubkey,
    total_amount: nat,
    interest_bps: nat,
    duration: int,
    escrow_bump: u8,
)
    requires
        total_amount > 0,
        interest_bps <= MAX_INTEREST_BPS,
    ensures
        LoanView::opened(borrower, total_amount, interest_bps, duration, escrow_bump).well_formed(),
        (Escrow { lamports: 0 }).backs(
            LoanView::opened(borrower, total_amount, interest_bps, duration, escrow_bump),
        ),
{
}

/// Opens a loan of `total_amount` at `interest_bps` basis points for
/// `duration_seconds`, with the caller as its borrower, together with its
/// empty escrow.
///
/// A zero principal and an interest rate above 100% are refused with
/// `InvalidAmount`; everything else succeeds.
pub fn create_loan(
    ctx: &CreateLoan,
    total_amount: u64,
    interest_bps: u16,
    duration_seconds: i64,
) -> (result: Result<(Loan, Escrow), LoanError>)
    ensures
        result is Err <==> total_amount == 0 || interest_bps > MAX_INTEREST_BPS,
        result is Err ==> result == Err::<(Loan, Escrow), LoanError>(LoanError::InvalidAmount),
        result matches Ok((loan, escrow)) ==> {
            &&& loan@ == LoanView::opened(
                ctx.borrower,
                total_amount as nat,
                interest_bps as nat,
                duration_seconds as int,
                ctx.escrow_bump,
            )
            &&& escrow.lamports == 0
            &&& loan.well_formed()
            &&& escrow.backs(loan@)
        },
{
    if total_amount == 0 {
        return Err(LoanError::InvalidAmount);
    }
    if interest_bps > MAX_INTEREST_BPS {
        return Err(LoanError::InvalidAmount);
    }
    let loan = Loan {
        borrower: ctx.borrower,
        total_amount,
        funded_amount: 0,
        interest_bps,
        duration: duration_seconds,
        start_ts: 0,
        due_ts: 0,
        repaid_ts: 0,
        status: LoanStatus::Open,
        lenders: Vec::new(),
        lenders_amounts: Vec::new(),
        escrow_bump: ctx.escrow_bump,
    };
    let escrow = Escrow { lamports: 0 };
    proof {
        assert(as_nats(loan.lenders_amounts@) =~= Seq::<nat>::empty());
        lemma_opened_well_formed(
            ctx.borrower,
            total_amount as nat,
            interest_bps as nat,
            duration_seconds as int,
            ctx.escrow_bump,
        );
    }
    Ok((loan, escrow))
}

} // verus!
