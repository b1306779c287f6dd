//! The loan record: terms, funding ledger, status and timestamps.

use crate::keys::{all_distinct, position};
use crate::ledger::{lemma_total_take_next, total};
use anchor_lang::prelude::Pubkey;
use vstd::prelude::*;

verus! {

/// The most lenders a single loan can have.
pub const MAX_LENDERS: usize = 32;

/// The highest interest rate a loan can carry, in basis points: 100%.
pub const MAX_INTEREST_BPS: u16 = 10_000;

/// Where a loan is in its life. A loan only ever moves forward:
/// `Open`, then `Funded`, then one of the two repaid states.
#[derive(Clone, Copy, Debug, PartialEq, Eq, Structural)]
pub enum LoanStatus {
    /// Accepting contributions.
    Open,
    /// Fully funded and paid out to the borrower; awaiting repayment.
    Funded,
    /// Repaid no later than the due date.
    RepaidOnTime,
    /// Repaid after the due date.
    RepaidLate,
}

/// One loan.
///
/// `lenders` and `lenders_amounts` are two columns of one table: entry `i` of
/// the second is what lender `i` of the first has contributed so far. Lenders
/// appear in the order of their first contribution.
#[derive(Clone, Debug, PartialEq, Eq)]
pub struct Loan {
    pub borrower: Pubkey,
    pub total_amount: u64,
    pub funded_amount: u64,
    pub interest_bps: u16,
    pub duration: i64,
    pub start_ts: i64,
    pub due_ts: i64,
    pub repaid_ts: i64,
    pub status: LoanStatus,
    pub lenders: Vec<Pubkey>,
    pub lenders_amounts: Vec<u64>,
    pub escrow_bump: u8,
}

/// A loan as a mathematical value: unbounded numbers and sequences.
#[verifier::ext_equal]
pub struct LoanView {
    pub borrower: Pubkey,
    pub total_amount: nat,
    pub funded_amount: nat,
    pub interest_bps: nat,
    pub duration: int,
    pub start_ts: int,
    pub due_ts: int,
    pub repaid_ts: int,
    pub status: LoanStatus,
    pub lenders: Seq<Pubkey>,
    pub lenders_amounts: Seq<nat>,
    pub escrow_bump: u8,
}

/// A column of machine amounts as natural numbers.
pub open spec fn as_nats(amounts: Seq<u64>) -> Seq<nat> {
    amounts.map_values(|a: u64| a as nat)
}

impl View for Loan {
    type V = LoanView;

    open spec fn view(&self) -> LoanView {
        LoanView {
            borrower: self.borrower,
            total_amount: self.total_amount as nat,
            funded_amount: self.funded_amount as nat,
            interest_bps: self.interest_bps as nat,
            duration: self.duration as int,
            start_ts: self.start_ts as int,
            due_ts: self.due_ts as int,
            repaid_ts: self.repaid_ts as int,
            status: self.status,
            lenders: self.lenders@,
            lenders_amounts: as_nats(self.lenders_amounts@),
            escrow_bump: self.escrow_bump,
        }
    }
}

impl LoanView {
    /// What is still missing before the loan is fully funded.
    pub open spec fn remaining(self) -> nat {
        (self.total_amount - self.funded_amount) as nat
    }

    /// What `lender` has contributed so far; zero for a stranger.
    pub open spec fn contribution_of(self, lender: Pubkey) -> nat {
        if self.lenders.contains(lender) {
            self.lenders_amounts[self.lenders.index_of(lender)]
        } else {
            0
        }
    }

    /// The two ledger columns line up, hold at most `MAX_LENDERS` distinct
    /// lenders, none of them the borrower, and add up to `funded_amount`.
    pub open spec fn ledger_balanced(self) -> bool {
        &&& self.lenders.len() == self.lenders_amounts.len()
        &&& self.lenders.len() <= MAX_LENDERS
        &&& self.lenders.no_duplicates()
        &&& !self.lenders.contains(self.borrower)
        &&& total(self.lenders_amounts) == self.funded_amount
    }

    /// The status agrees with the funding level and the timestamps.
    ///
    /// A loan is `Open` exactly while it is short of its principal, and has no
    /// timestamps yet. From `Funded` on the due date is the start plus the
    /// term. A repaid loan carries the verdict that its repayment time earned.
    pub open spec fn status_consistent(self) -> bool {
        match self.status {
            LoanStatus::Open => {
                &&& self.funded_amount < self.total_amount
                &&& self.start_ts == 0
                &&& self.due_ts == 0
                &&& self.repaid_ts == 0
            },
            LoanStatus::Funded => {
                &&& self.funded_amount == self.total_amount
                &&& self.due_ts == self.start_ts + self.duration
                &&& self.repaid_ts == 0
            },
            LoanStatus::RepaidOnTime => {
                &&& self.funded_amount == self.total_amount
                &&& self.due_ts == self.start_ts + self.duration
                &&& self.repaid_ts <= self.due_ts
            },
            LoanStatus::RepaidLate => {
                &&& self.funded_amount == self.total_amount
                &&& self.due_ts == self.start_ts + self.duration
                &&& self.repaid_ts > self.due_ts
            },
        }
    }

    /// Everything that holds of a loan between calls.
    pub open spec fn well_formed(self) -> bool {
        &&& self.total_amount > 0
        &&& self.interest_bps <= MAX_INTEREST_BPS
        &&& self.funded_amount <= self.total_amount
        &&& self.ledger_balanced()
        &&& self.status_consistent()
    }
}

/// The sum of a short column of amounts.
fn sum_of(amounts: &Vec<u64>) -> (sum: u128)
    requires
        amounts.len() <= MAX_LENDERS,
    ensures
        sum == total(as_nats(amounts@)),
{
    let ghost column = as_nats(amounts@);
    let mut sum: u128 = 0;
    let mut i: usize = 0;
    while i < amounts.len()
        invariant
            i <= amounts.len() <= MAX_LENDERS,
            column == as_nats(amounts@),
            sum == total(column.take(i as int)),
            sum <= i * u64::MAX,
        decreases amounts.len() - i,
    {
        proof {
            lemma_total_take_next(column, i as int);
        }
        sum = sum + amounts[i] as u128;
        i += 1;
    }
    assert(column.take(i as int) =~= column);
    sum
}

impl Loan {
    /// Everything that holds of a loan between calls.
    pub open spec fn well_formed(&self) -> bool {
        self@.well_formed()
    }

    /// Whether the status agrees with the funding level and the timestamps.
    fn is_status_consistent(&self) -> (ok: bool)
        ensures
            ok == self@.status_consistent(),
    {
        let due_as_agreed = self.due_ts as i128 == self.start_ts as i128 + self.duration as i128;
        match self.status {
            LoanStatus::Open => {
                self.funded_amount < self.total_amount && self.start_ts == 0 && self.due_ts == 0
                    && self.repaid_ts == 0
            },
            LoanStatus::Funded => {
                self.funded_amount == self.total_amount && due_as_agreed && self.repaid_ts == 0
            },
            LoanStatus::RepaidOnTime => {
                self.funded_amount == self.total_amount && due_as_agreed && self.repaid_ts
                    <= self.due_ts
            },
            LoanStatus::RepaidLate => {
                self.funded_amount == self.total_amount && due_as_agreed && self.repaid_ts
                    > self.due_ts
            },
        }
    }

    /// Checks a record that came from outside, such as one read back from
    /// storage, against everything the engines rely on.
    pub fn is_well_formed(&self) -> (ok: bool)
        ensures
            ok == self.well_formed(),
    {
        if self.total_amount == 0 || self.interest_bps > MAX_INTEREST_BPS || self.funded_amount
            > self.total_amount {
            return false;
        }
        if self.lenders.len() != self.lenders_amounts.len() || self.lenders.len() > MAX_LENDERS {
            return false;
        }
        if !all_distinct(&self.lenders) {
            return false;
        }
        if position(&self.lenders, &self.borrower).is_some() {
            return false;
        }
        if sum_of(&self.lenders_amounts) != self.funded_amount as u128 {
            return false;
        }
        self.is_status_consistent()
    }
}

} // verus!
