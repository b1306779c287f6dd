//! The funding phase as a whole: what holds after any sequence of offers.
//!
//! `fund_loan` handles one offer. Here the loan, its escrow and the
//! borrower's balance are followed through a whole sequence of them, accepted
//! or refused, to show that the lenders' money is all accounted for at every
//! point and that the borrower is paid exactly once.

use crate::fund::FundLoan;
use crate::fund::lemma_funded_well_formed;
use crate::ledger::total;
use crate::loan::{LoanStatus, LoanView};
use anchor_lang::prelude::Pubkey;
use vstd::prelude::*;

verus! {

/// One call of `fund_loan`: who offers, what they hold, what they offer, and
/// when.
pub struct Offer {
    pub lender: Pubkey,
    pub balance: nat,
    pub amount: nat,
    pub now: int,
}

/// What the funding phase moves: the loan, what its escrow holds, and what
/// the borrower holds.
#[verifier::ext_equal]
pub struct Books {
    pub loan: LoanView,
    pub escrow: nat,
    pub borrower: nat,
}

impl Books {
    /// Whether `offer` is accepted.
    pub open spec fn accepts(self, offer: Offer) -> bool {
        self.loan.funding_refusal(offer.lender, offer.balance, offer.amount) is None
    }

    /// The books after `offer`. A refused offer leaves them as they are. An
    /// accepted one goes into the escrow and the ledger, and if it completes
    /// the funding, the principal goes on from the escrow to the borrower.
    pub open spec fn after(self, offer: Offer) -> Books {
        if !self.accepts(offer) {
            self
        } else if self.loan.completed_by(offer.amount) {
            Books {
                loan: self.loan.funded(offer.lender, offer.amount, offer.now),
                escrow: (self.escrow + self.loan.applied(offer.amount) - self.loan.total_amount) as nat,
                borrower: self.borrower + self.loan.total_amount,
            }
        } else {
            Books {
                loan: self.loan.funded(offer.lender, offer.amount, offer.now),
                escrow: self.escrow + self.loan.applied(offer.amount),
                borrower: self.borrower,
            }
        }
    }

    /// The books after each of `offers` in turn.
    pub open spec fn after_all(self, offers: Seq<Offer>) -> Books
        decreases offers.len(),
    {
        if offers.len() == 0 {
            self
        } else {
            self.after_all(offers.drop_last()).after(offers.last())
        }
    }

    /// The loan is well formed and the escrow holds what the loan says it
    /// should.
    pub open spec fn balanced(self) -> bool {
        &&& self.loan.well_formed()
        &&& self.loan.status == LoanStatus::Open ==> self.escrow == self.loan.funded_amount
        &&& self.loan.status == LoanStatus::Funded ==> self.escrow == 0
    }
}

impl FundLoan {
    /// The books of these accounts.
    pub open spec fn books(&self) -> Books {
        Books {
            loan: self.loan@,
            escrow: self.escrow.lamports as nat,
            borrower: self.borrower.lamports as nat,
        }
    }

    /// The offer that a call with `amount` at time `now` makes.
    pub open spec fn offer(&self, amount: u64, now: i64) -> Offer {
        Offer {
            lender: self.lender.key,
            balance: self.lender.lamports as nat,
            amount: amount as nat,
            now: now as int,
        }
    }
}

/// One offer, accepted or not, keeps the books balanced. While the loan stays
/// open the borrower receives nothing; the offer that closes it pays the
/// borrower the principal and empties the escrow; after that nothing moves.
pub proof fn lemma_offer_keeps_balance(books: Books, offer: Offer)
    requires
        books.balanced(),
    ensures
        books.after(offer).balanced(),
        books.after(offer).loan.status == LoanStatus::Open ==> books.after(offer).borrower
            == books.borrower,
        books.loan.status == LoanStatus::Open && books.after(offer).loan.status
            != LoanStatus::Open ==> {
            &&& books.after(offer).loan.status == LoanStatus::Funded
            &&& books.after(offer).loan.funded_amount == books.loan.total_amount
            &&& books.after(offer).borrower == books.borrower + books.loan.total_amount
        },
        books.loan.status != LoanStatus::Open ==> books.after(offer) == books,
        books.after(offer).loan.total_amount == books.loan.total_amount,
{
    if books.accepts(offer) {
        lemma_funded_well_formed(books.loan, offer.lender, offer.balance, offer.amount, offer.now);
    }
}

/// Conservation and single disbursement, over the whole funding phase.
///
/// Start from balanced books and make any offers in any order. Then at the
/// end the ledger still adds up to the funded amount, which never exceeds the
/// principal. As long as the loan is open, the escrow holds exactly the funded
/// amount and the borrower has received nothing. If the loan was open at the
/// start and is not at the end, it is funded in full, the escrow is empty, and
/// the borrower has received the principal, once. If the loan was not open at
/// the start, nothing has changed.
pub proof fn theorem_funding_conserves(start: Books, offers: Seq<Offer>)
    requires
        start.balanced(),
    ensures
        start.after_all(offers).balanced(),
        total(start.after_all(offers).loan.lenders_amounts) == start.after_all(
            offers,
        ).loan.funded_amount,
        start.after_all(offers).loan.funded_amount <= start.after_all(offers).loan.total_amount,
        start.after_all(offers).loan.total_amount == start.loan.total_amount,
        start.after_all(offers).loan.status == LoanStatus::Open ==> {
            &&& start.after_all(offers).escrow == start.after_all(offers).loan.funded_amount
            &&& start.after_all(offers).borrower == start.borrower
        },
        start.loan.status == LoanStatus::Open && start.after_all(offers).loan.status
            != LoanStatus::Open ==> {
            &&& start.after_all(offers).loan.status == LoanStatus::Funded
            &&& start.after_all(offers).loan.funded_amount == start.loan.total_amount
            &&& start.after_all(offers).escrow == 0
            &&& start.after_all(offers).borrower == start.borrower + start.loan.total_amount
        },
        start.loan.status != LoanStatus::Open ==> start.after_all(offers) == start,
    decreases offers.len(),
{
    if offers.len() > 0 {
        theorem_funding_conserves(start, offers.drop_last());
        lemma_offer_keeps_balance(start.after_all(offers.drop_last()), offers.last());
    }
}

} // verus!
