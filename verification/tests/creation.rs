use anchor_lang::prelude::Pubkey;
use credichain::{
    create_loan, CreateLoan, Escrow, Loan, LoanError, LoanStatus, MAX_INTEREST_BPS, MAX_LENDERS,
};

fn creation_key(tag: u8) -> Pubkey {
    Pubkey::new_from_array([tag; 32])
}

fn creation_ctx() -> CreateLoan {
    CreateLoan { borrower: creation_key(1), escrow_bump: 254 }
}

#[test]
fn create_loan_starts_open_and_empty() {
    let (loan, escrow) = create_loan(&creation_ctx(), 1000, 500, 86400).unwrap();
    assert_eq!(
        loan,
        Loan {
            borrower: creation_key(1),
            total_amount: 1000,
            funded_amount: 0,
            interest_bps: 500,
            duration: 86400,
            start_ts: 0,
            due_ts: 0,
            repaid_ts: 0,
            status: LoanStatus::Open,
            lenders: vec![],
            lenders_amounts: vec![],
            escrow_bump: 254,
        }
    );
    assert_eq!(escrow, Escrow { lamports: 0 });
    assert!(loan.is_well_formed());
}

#[test]
fn create_loan_rejects_zero_principal() {
    assert_eq!(create_loan(&creation_ctx(), 0, 500, 86400), Err(LoanError::InvalidAmount));
}

#[test]
fn create_loan_rejects_interest_above_one_hundred_percent() {
    assert_eq!(create_loan(&creation_ctx(), 1000, 10_001, 86400), Err(LoanError::InvalidAmount));
    assert_eq!(create_loan(&creation_ctx(), 1000, u16::MAX, 86400), Err(LoanError::InvalidAmount));
}

#[test]
fn create_loan_accepts_the_interest_bounds() {
    let (free, _) = create_loan(&creation_ctx(), 1, 0, 0).unwrap();
    assert_eq!(free.interest_bps, 0);
    let (dear, _) = create_loan(&creation_ctx(), u64::MAX, 10_000, i64::MAX).unwrap();
    assert_eq!(dear.interest_bps, 10_000);
    assert_eq!(dear.total_amount, u64::MAX);
    assert_eq!(dear.duration, i64::MAX);
    assert!(dear.is_well_formed());
}

#[test]
fn create_loan_keeps_a_negative_term_as_given() {
    let (loan, _) = create_loan(&creation_ctx(), 10, 1, -5).unwrap();
    assert_eq!(loan.duration, -5);
    assert!(loan.is_well_formed());
}

#[test]
fn limits_have_their_documented_values() {
    assert_eq!(MAX_LENDERS, 32);
    assert_eq!(MAX_INTEREST_BPS, 10_000);
    assert_eq!(credichain::BPS_DENOMINATOR, 10_000);
}
