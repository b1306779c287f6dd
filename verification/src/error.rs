//! Why an operation was refused.

use vstd::prelude::*;

verus! {

/// The reason a call was rejected. A rejected call changes nothing.
#[derive(Clone, Copy, Debug, PartialEq, Eq, Structural)]
pub enum LoanError {
    /// A zero amount, an interest rate above 100%, or a contribution to a
    /// loan that needs nothing more.
    InvalidAmount,
    /// The loan is not in the state the operation needs.
    InvalidStatus,
    /// A new lender would be the thirty-third.
    TooManyLenders,
    /// The borrower tried to fund their own loan.
    SelfFunding,
    /// The repayment is less than principal plus interest.
    InsufficientRepayment,
    /// A settlement account is absent or is not the lender recorded at its
    /// position.
    MissingLenderAccount,
    /// The payer's balance does not cover the transfer.
    InsufficientFunds,
}

} // verus!
