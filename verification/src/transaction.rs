//! Transfers: what a caller asks for and what the record keeps.

use vstd::prelude::*;
use crate::decimal::Decimal;
use crate::error::LedgerError;
use crate::ledger::{history, log_of, no_transactions, rejection, settled, Ledger, Receipt};
use crate::model::{step, verdict, TransactionView};

verus! {

/// A request to move `amount` from one account to another.
#[derive(Clone, Debug)]
pub struct CreateTransReq {
    pub from_account_id: u128,
    pub to_account_id: u128,
    pub amount: Decimal,
}

/// A request for the transfers that name one account.
#[derive(Clone, Debug)]
pub struct GetTransReq {
    pub account_id: u128,
}

/// One entry of the record: a transfer that was applied.
#[derive(Clone, Debug)]
pub struct Transaction {
    pub id: u128,
    pub from_account_id: u128,
    pub to_account_id: u128,
    pub amount: Decimal,
    /// When the entry was added, in nanoseconds since the Unix epoch.
    pub created_at: Option<i128>,
}

impl View for Transaction {
    type V = TransactionView;

    open spec fn view(&self) -> TransactionView {
        TransactionView {
            id: self.id,
            from_account_id: self.from_account_id,
            to_account_id: self.to_account_id,
            amount: self.amount.units(),
            created_at: self.created_at,
        }
    }
}

impl Transaction {
    /// A copy of this entry.
    pub fn duplicate(&self) -> (r: Transaction)
        ensures
            r@ == self@,
            r.amount.wf() == self.amount.wf(),
    {
        Transaction {
            id: self.id,
            from_account_id: self.from_account_id,
            to_account_id: self.to_account_id,
            amount: self.amount.duplicate(),
            created_at: self.created_at,
        }
    }
}

/// Carries out the transfer that `req` asks for and, when it is applied,
/// records it with the time `now`. The checks come in the order of
/// `verdict`; a declined transfer leaves balances and record as they were.
pub fn create(ledger: &mut Ledger, req: &CreateTransReq, now: i128) -> (r: Result<
    Receipt,
    LedgerError,
>)
    requires
        old(ledger).wf(),
        req.amount.wf(),
    ensures
        final(ledger).wf(),
        final(ledger)@ == step(
            old(ledger)@,
            req.from_account_id,
            req.to_account_id,
            req.amount.units(),
            now,
        ),
        final(ledger).spec_total() == old(ledger).spec_total(),
        r is Ok <==> verdict(
            old(ledger)@.balances,
            req.from_account_id,
            req.to_account_id,
            req.amount.units(),
        ) is Accepted,
        r is Ok ==> r.unwrap().transaction_id == old(ledger)@.log.len(),
        r is Ok ==> settled(
            r.unwrap().new_from,
            r.unwrap().new_to,
            old(ledger)@.balances,
            req.from_account_id,
            req.to_account_id,
            req.amount.units(),
        ),
        r is Err ==> rejection(
            r.unwrap_err(),
            old(ledger)@.balances,
            req.from_account_id,
            req.to_account_id,
            req.amount.units(),
        ),
{
    ledger.create_transfer(req.from_account_id, req.to_account_id, &req.amount, now)
}

/// Every applied transfer, oldest first.
pub fn get_all(ledger: &Ledger) -> (r: Vec<Transaction>)
    requires
        ledger.wf(),
    ensures
        log_of(r@) == ledger@.log,
        forall|i: int| 0 <= i < r@.len() ==> (#[trigger] r@[i]).amount.wf(),
{
    ledger.list_transactions()
}

/// The applied transfers that name the account of `req` as sender or as
/// receiver, oldest first. It is an error if there is none.
pub fn query(ledger: &Ledger, req: &GetTransReq) -> (r: Result<Vec<Transaction>, LedgerError>)
    requires
        ledger.wf(),
    ensures
        r is Ok <==> history(ledger@.log, req.account_id).len() > 0,
        r is Ok ==> log_of(r.unwrap()@) == history(ledger@.log, req.account_id),
        r is Ok ==> forall|i: int|
            0 <= i < r.unwrap()@.len() ==> (#[trigger] r.unwrap()@[i]).amount.wf(),
        r is Err ==> no_transactions(r.unwrap_err(), req.account_id),
{
    ledger.query_transactions(req.account_id)
}

} // verus!
