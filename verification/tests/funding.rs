use anchor_lang::prelude::Pubkey;
use credichain::{
    create_loan, fund_loan, CreateLoan, Escrow, FundLoan, Loan, LoanError, LoanStatus, Wallet,
};

fn funding_key(tag: u8) -> Pubkey {
    Pubkey::new_from_array([tag; 32])
}

const FUNDING_BORROWER: u8 = 1;

fn funding_fresh(total_amount: u64, lender: u8, lender_lamports: u64) -> FundLoan {
    let ctx = CreateLoan { borrower: funding_key(FUNDING_BORROWER), escrow_bump: 255 };
    let (loan, escrow) = create_loan(&ctx, total_amount, 500, 86400).unwrap();
    FundLoan {
        loan,
        escrow,
        lender: Wallet { key: funding_key(lender), lamports: lender_lamports },
        borrower: Wallet { key: funding_key(FUNDING_BORROWER), lamports: 10 },
    }
}

fn funding_next(ctx: FundLoan, lender: u8, lender_lamports: u64) -> FundLoan {
    FundLoan { lender: Wallet { key: funding_key(lender), lamports: lender_lamports }, ..ctx }
}

#[test]
fn partial_contribution_leaves_the_loan_open() {
    let mut ctx = funding_fresh(1000, 2, 5000);
    assert_eq!(fund_loan(&mut ctx, 600, 1_700_000_000), Ok(()));
    assert_eq!(ctx.loan.status, LoanStatus::Open);
    assert_eq!(ctx.loan.funded_amount, 600);
    assert_eq!(ctx.loan.lenders, vec![funding_key(2)]);
    assert_eq!(ctx.loan.lenders_amounts, vec![600]);
    assert_eq!(ctx.loan.start_ts, 0);
    assert_eq!(ctx.loan.due_ts, 0);
    assert_eq!(ctx.escrow.lamports, 600);
    assert_eq!(ctx.lender, Wallet { key: funding_key(2), lamports: 4400 });
    assert_eq!(ctx.borrower, Wallet { key: funding_key(FUNDING_BORROWER), lamports: 10 });
    assert!(ctx.is_well_formed());
}

#[test]
fn completing_contribution_is_capped_and_pays_the_borrower() {
    let mut ctx = funding_fresh(1000, 2, 5000);
    fund_loan(&mut ctx, 600, 1_700_000_000).unwrap();
    let mut ctx = funding_next(ctx, 3, 700);
    assert_eq!(fund_loan(&mut ctx, 500, 1_700_000_123), Ok(()));
    assert_eq!(ctx.loan.status, LoanStatus::Funded);
    assert_eq!(ctx.loan.funded_amount, 1000);
    assert_eq!(ctx.loan.lenders, vec![funding_key(2), funding_key(3)]);
    assert_eq!(ctx.loan.lenders_amounts, vec![600, 400]);
    assert_eq!(ctx.loan.start_ts, 1_700_000_123);
    assert_eq!(ctx.loan.due_ts, 1_700_000_123 + 86400);
    assert_eq!(ctx.loan.repaid_ts, 0);
    assert_eq!(ctx.escrow.lamports, 0);
    assert_eq!(ctx.lender.lamports, 300);
    assert_eq!(ctx.borrower.lamports, 1010);
    assert!(ctx.is_well_formed());
}

#[test]
fn exact_contribution_funds_in_one_step() {
    let mut ctx = funding_fresh(1000, 2, 1000);
    assert_eq!(fund_loan(&mut ctx, 1000, 50), Ok(()));
    assert_eq!(ctx.loan.status, LoanStatus::Funded);
    assert_eq!(ctx.loan.lenders_amounts, vec![1000]);
    assert_eq!(ctx.lender.lamports, 0);
    assert_eq!(ctx.escrow.lamports, 0);
    assert_eq!(ctx.borrower.lamports, 1010);
    assert_eq!((ctx.loan.start_ts, ctx.loan.due_ts), (50, 86450));
}

#[test]
fn returning_lender_adds_to_their_entry() {
    let mut ctx = funding_fresh(1000, 2, 5000);
    fund_loan(&mut ctx, 100, 1).unwrap();
    let mut ctx = funding_next(ctx, 3, 5000);
    fund_loan(&mut ctx, 200, 2).unwrap();
    let mut ctx = funding_next(ctx, 2, 4900);
    assert_eq!(fund_loan(&mut ctx, 50, 3), Ok(()));
    assert_eq!(ctx.loan.lenders, vec![funding_key(2), funding_key(3)]);
    assert_eq!(ctx.loan.lenders_amounts, vec![150, 200]);
    assert_eq!(ctx.loan.funded_amount, 350);
    assert_eq!(ctx.escrow.lamports, 350);
    assert_eq!(ctx.lender.lamports, 4850);
    assert_eq!(ctx.loan.status, LoanStatus::Open);
}

#[test]
fn ledger_always_adds_up_to_the_escrow_while_open() {
    let mut ctx = funding_fresh(10_000, 2, 1_000_000);
    let offers: [(u8, u64); 7] = [(2, 1), (3, 999), (4, 17), (2, 3000), (5, 1), (3, 2), (6, 5000)];
    let mut expected: u64 = 0;
    for (sequence, (lender, amount)) in offers.iter().enumerate() {
        ctx = funding_next(ctx, *lender, 1_000_000);
        assert_eq!(fund_loan(&mut ctx, *amount, sequence as i64), Ok(()));
        expected += amount;
        assert_eq!(ctx.loan.status, LoanStatus::Open);
        assert_eq!(ctx.loan.funded_amount, expected);
        assert_eq!(ctx.loan.lenders_amounts.iter().sum::<u64>(), expected);
        assert_eq!(ctx.escrow.lamports, expected);
        assert_eq!(ctx.borrower.lamports, 10);
        assert!(ctx.is_well_formed());
    }
    assert_eq!(
        ctx.loan.lenders,
        vec![funding_key(2), funding_key(3), funding_key(4), funding_key(5), funding_key(6)]
    );
    assert_eq!(ctx.loan.lenders_amounts, vec![3001, 1001, 17, 1, 5000]);
}

#[test]
fn zero_offer_is_an_invalid_amount() {
    let mut ctx = funding_fresh(1000, 2, 5000);
    let before = ctx.clone();
    assert_eq!(fund_loan(&mut ctx, 0, 1), Err(LoanError::InvalidAmount));
    assert_eq!(ctx, before);
}

#[test]
fn zero_offer_is_judged_before_the_status() {
    let mut ctx = funding_fresh(1000, 2, 5000);
    fund_loan(&mut ctx, 1000, 1).unwrap();
    assert_eq!(fund_loan(&mut ctx, 0, 2), Err(LoanError::InvalidAmount));
}

#[test]
fn funded_loan_takes_no_more() {
    let mut ctx = funding_fresh(1000, 2, 5000);
    fund_loan(&mut ctx, 1000, 1).unwrap();
    let mut ctx = funding_next(ctx, 3, 5000);
    let before = ctx.clone();
    assert_eq!(fund_loan(&mut ctx, 1, 2), Err(LoanError::InvalidStatus));
    assert_eq!(ctx, before);
    assert_eq!(ctx.borrower.lamports, 1010);
}

#[test]
fn repaid_loan_takes_no_more() {
    for status in [LoanStatus::RepaidOnTime, LoanStatus::RepaidLate] {
        let repaid_ts = if status == LoanStatus::RepaidOnTime { 150 } else { 250 };
        let mut ctx = FundLoan {
            loan: Loan {
                borrower: funding_key(FUNDING_BORROWER),
                total_amount: 1000,
                funded_amount: 1000,
                interest_bps: 500,
                duration: 100,
                start_ts: 100,
                due_ts: 200,
                repaid_ts,
                status,
                lenders: vec![funding_key(2)],
                lenders_amounts: vec![1000],
                escrow_bump: 1,
            },
            escrow: Escrow { lamports: 3 },
            lender: Wallet { key: funding_key(3), lamports: 5000 },
            borrower: Wallet { key: funding_key(FUNDING_BORROWER), lamports: 0 },
        };
        assert!(ctx.is_well_formed());
        let before = ctx.clone();
        assert_eq!(fund_loan(&mut ctx, 1, 300), Err(LoanError::InvalidStatus));
        assert_eq!(fund_loan(&mut ctx, u64::MAX, 300), Err(LoanError::InvalidStatus));
        assert_eq!(ctx, before);
    }
}

#[test]
fn borrower_cannot_fund_their_own_loan() {
    let mut ctx = funding_fresh(1000, FUNDING_BORROWER, 5000);
    let before = ctx.clone();
    assert_eq!(fund_loan(&mut ctx, 100, 1), Err(LoanError::SelfFunding));
    assert_eq!(ctx, before);
}

#[test]
fn lender_must_cover_what_is_applied() {
    let mut ctx = funding_fresh(1000, 2, 599);
    let before = ctx.clone();
    assert_eq!(fund_loan(&mut ctx, 600, 1), Err(LoanError::InsufficientFunds));
    assert_eq!(ctx, before);
}

#[test]
fn lender_need_not_cover_what_is_capped_away() {
    let mut ctx = funding_fresh(1000, 2, 1000);
    assert_eq!(fund_loan(&mut ctx, 5000, 1), Ok(()));
    assert_eq!(ctx.lender.lamports, 0);
    assert_eq!(ctx.loan.funded_amount, 1000);
    assert_eq!(ctx.loan.status, LoanStatus::Funded);
}

#[test]
fn self_funding_is_judged_before_the_balance() {
    let mut ctx = funding_fresh(1000, FUNDING_BORROWER, 0);
    assert_eq!(fund_loan(&mut ctx, 100, 1), Err(LoanError::SelfFunding));
}

fn funding_crowded() -> FundLoan {
    let mut ctx = funding_fresh(1000, 100, 10);
    for i in 0..32u8 {
        ctx = funding_next(ctx, 100 + i, 10);
        assert_eq!(fund_loan(&mut ctx, 1, i as i64), Ok(()));
    }
    assert_eq!(ctx.loan.lenders.len(), 32);
    ctx
}

#[test]
fn thirty_third_lender_is_turned_away() {
    let mut ctx = funding_next(funding_crowded(), 99, 10);
    let before = ctx.clone();
    assert_eq!(fund_loan(&mut ctx, 1, 40), Err(LoanError::TooManyLenders));
    assert_eq!(ctx, before);
    assert_eq!(ctx.escrow.lamports, 32);
}

#[test]
fn known_lender_is_welcome_when_the_ledger_is_full() {
    let mut ctx = funding_next(funding_crowded(), 131, 10);
    assert_eq!(fund_loan(&mut ctx, 5, 40), Ok(()));
    assert_eq!(ctx.loan.lenders.len(), 32);
    assert_eq!(ctx.loan.lenders_amounts[31], 6);
    assert_eq!(ctx.loan.funded_amount, 37);
    assert_eq!(ctx.escrow.lamports, 37);
}

#[test]
fn balance_is_judged_before_the_ledger_capacity() {
    let mut ctx = funding_next(funding_crowded(), 99, 0);
    assert_eq!(fund_loan(&mut ctx, 1, 40), Err(LoanError::InsufficientFunds));
}

#[test]
fn funding_works_at_the_top_of_the_range() {
    let mut ctx = funding_fresh(u64::MAX, 2, u64::MAX - 10);
    assert_eq!(fund_loan(&mut ctx, u64::MAX, 1), Err(LoanError::InsufficientFunds));
    assert_eq!(fund_loan(&mut ctx, u64::MAX - 10, 1), Ok(()));
    assert_eq!(ctx.loan.funded_amount, u64::MAX - 10);
    assert_eq!(ctx.loan.status, LoanStatus::Open);
    assert_eq!(ctx.escrow.lamports, u64::MAX - 10);
    let mut ctx = FundLoan {
        lender: Wallet { key: funding_key(3), lamports: 0 },
        borrower: Wallet { key: funding_key(FUNDING_BORROWER), lamports: 10 },
        ..ctx
    };
    assert_eq!(fund_loan(&mut ctx, 10, 1), Err(LoanError::InsufficientFunds));
    let mut ctx = FundLoan {
        lender: Wallet { key: funding_key(3), lamports: 10 },
        borrower: Wallet { key: funding_key(FUNDING_BORROWER), lamports: 0 },
        ..ctx
    };
    assert!(ctx.is_well_formed());
    assert_eq!(fund_loan(&mut ctx, 10, i64::MAX - 86400), Ok(()));
    assert_eq!(ctx.loan.status, LoanStatus::Funded);
    assert_eq!(ctx.loan.due_ts, i64::MAX);
    assert_eq!(ctx.borrower.lamports, u64::MAX);
    assert_eq!(ctx.escrow.lamports, 0);
}

#[test]
fn negative_clock_and_term_are_taken_as_they_come() {
    let ctx = CreateLoan { borrower: funding_key(FUNDING_BORROWER), escrow_bump: 0 };
    let (loan, escrow) = create_loan(&ctx, 5, 0, -30).unwrap();
    let mut ctx = FundLoan {
        loan,
        escrow,
        lender: Wallet { key: funding_key(2), lamports: 5 },
        borrower: Wallet { key: funding_key(FUNDING_BORROWER), lamports: 0 },
    };
    assert_eq!(fund_loan(&mut ctx, 5, -10), Ok(()));
    assert_eq!((ctx.loan.start_ts, ctx.loan.due_ts), (-10, -40));
}
