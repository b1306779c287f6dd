//! A verified peer-to-peer lending escrow.
//!
//! A borrower opens a loan for a fixed principal and a flat interest rate.
//! Lenders fund it through an escrow until the principal is reached, at which
//! point the escrow is paid out to the borrower. A single repayment of
//! principal and interest is then split among the lenders in proportion to
//! what each of them contributed.

pub mod accounts;
pub mod create;
pub mod error;
pub mod fund;
pub mod history;
pub mod keys;
pub mod ledger;
pub mod lifecycle;
pub mod loan;
pub mod repay;
pub mod shares;

pub use accounts::{Escrow, Wallet};
pub use create::{create_loan, CreateLoan};
pub use error::LoanError;
pub use fund::{fund_loan, FundLoan};
pub use repay::{repay_loan, RepayLoan, BPS_DENOMINATOR};
pub use loan::{Loan, LoanStatus, LoanView, MAX_INTEREST_BPS, MAX_LENDERS};
