//! The accounts that value moves between.

use crate::loan::{LoanStatus, LoanView};
use anchor_lang::prelude::Pubkey;
use vstd::prelude::*;

verus! {

/// A participant's own account: who they are and what they hold.
#[derive(Clone, Copy, Debug, PartialEq, Eq)]
pub struct Wallet {
    pub key: Pubkey,
    pub lamports: u64,
}

/// The account that holds a loan's funds while they are in transit.
///
/// It belongs to one loan and to no participant: only funding and repayment
/// move value out of it.
#[derive(Clone, Copy, Debug, PartialEq, Eq)]
pub struct Escrow {
    pub lamports: u64,
}

impl Wallet {
    /// The owner of this wallet pays `amount` into `escrow`.
    ///
    /// This is the move a participant has to consent to, and it is only
    /// possible when the wallet covers it.
    pub fn pay_into(&mut self, escrow: &mut Escrow, amount: u64)
        requires
            amount <= old(self).lamports,
            old(escrow).lamports + amount <= u64::MAX,
        ensures
            final(self).key == old(self).key,
            final(self).lamports == old(self).lamports - amount,
            final(escrow).lamports == old(escrow).lamports + amount,
    {
        self.lamports = self.lamports - amount;
        escrow.lamports = escrow.lamports + amount;
    }
}

impl Escrow {
    /// The escrow pays `amount` out to `payee`.
    ///
    /// No participant signs for this move: the escrow belongs to the loan, and
    /// the engines release from it what the loan's rules say is owed.
    pub fn release(&mut self, payee: &mut Wallet, amount: u64)
        requires
            amount <= old(self).lamports,
            old(payee).lamports + amount <= u64::MAX,
        ensures
            final(self).lamports == old(self).lamports - amount,
            final(payee).key == old(payee).key,
            final(payee).lamports == old(payee).lamports + amount,
    {
        self.lamports = self.lamports - amount;
        payee.lamports = payee.lamports + amount;
    }

    /// The escrow holds what `loan` says it should.
    ///
    /// While the loan is open that is exactly what the lenders have paid in.
    /// Once funded, the principal has gone to the borrower and the escrow is
    /// empty. After repayment it keeps whatever the division left over.
    pub open spec fn backs(self, loan: LoanView) -> bool {
        match loan.status {
            LoanStatus::Open => self.lamports == loan.funded_amount,
            LoanStatus::Funded => self.lamports == 0,
            _ => true,
        }
    }
}

} // verus!
