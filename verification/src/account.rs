//! Accounts and their balances.

use vstd::prelude::*;
use vstd::string::*;
use crate::decimal::Decimal;
use crate::error::LedgerError;
use crate::ledger::{not_found, Ledger};
use crate::text::same_text;

verus! {

/// The kinds of account.
#[derive(Clone, Copy, Debug, PartialEq, Eq, Structural)]
pub enum Types {
    Savings,
    Current,
    Salary,
    /// Fixed deposit.
    FD,
    /// Recurring deposit.
    RD,
}

impl Types {
    /// The name under which a kind of account is stored.
    pub open spec fn spec_name(self) -> Seq<char> {
        match self {
            Types::Savings => "savings"@,
            Types::Current => "current"@,
            Types::Salary => "salary"@,
            Types::FD => "fd"@,
            Types::RD => "rd"@,
        }
    }

    /// The kind of account that a stored name stands for. A name that
    /// stands for none is read as a savings account.
    pub open spec fn spec_from_name(name: Seq<char>) -> Types {
        if name == "current"@ {
            Types::Current
        } else if name == "salary"@ {
            Types::Salary
        } else if name == "fd"@ {
            Types::FD
        } else if name == "rd"@ {
            Types::RD
        } else {
            Types::Savings
        }
    }

    /// The name under which this kind of account is stored: the variant's
    /// name in lower case.
    pub fn to_string(&self) -> (r: String)
        ensures
            r@ == self.spec_name(),
    {
        match self {
            Types::Savings => String::from_str("savings"),
            Types::Current => String::from_str("current"),
            Types::Salary => String::from_str("salary"),
            Types::FD => String::from_str("fd"),
            Types::RD => String::from_str("rd"),
        }
    }

    /// Reads a stored name back. A name that stands for no kind of account
    /// is read as a savings account.
    pub fn from_name(name: &str) -> (r: Types)
        ensures
            r == Types::spec_from_name(name@),
    {
        if same_text(name, "current") {
            Types::Current
        } else if same_text(name, "salary") {
            Types::Salary
        } else if same_text(name, "fd") {
            Types::FD
        } else if same_text(name, "rd") {
            Types::RD
        } else {
            Types::Savings
        }
    }
}

/// Reading back the stored name of a kind of account gives that kind.
pub proof fn law_name_round_trip(kind: Types)
    ensures
        Types::spec_from_name(kind.spec_name()) == kind,
{
    reveal_strlit("savings");
    reveal_strlit("current");
    reveal_strlit("salary");
    reveal_strlit("fd");
    reveal_strlit("rd");
    assert("savings"@.len() == 7 && "current"@.len() == 7 && "salary"@.len() == 6);
    assert("fd"@.len() == 2 && "rd"@.len() == 2);
    assert("savings"@[0] == 's' && "current"@[0] == 'c');
    assert("fd"@[0] == 'f' && "rd"@[0] == 'r');
}

/// A request that names one account.
#[derive(Clone, Debug)]
pub struct AccountBalanceReq {
    pub account_id: u128,
}

/// An account's balance.
#[derive(Clone, Debug)]
pub struct AccountBalance {
    pub account_id: u128,
    pub balance: Decimal,
}

/// Looks up the balance of the account that `req` names.
pub fn check_balance(ledger: &Ledger, req: &AccountBalanceReq) -> (r: Result<
    AccountBalance,
    LedgerError,
>)
    requires
        ledger.wf(),
    ensures
        r is Ok <==> ledger@.balances.dom().contains(req.account_id),
        r is Ok ==> r.unwrap().account_id == req.account_id,
        r is Ok ==> r.unwrap().balance.wf() && r.unwrap().balance.units()
            == ledger@.balances[req.account_id],
        r is Err ==> not_found(r.unwrap_err(), req.account_id),
{
    match ledger.get(req.account_id) {
        Ok(balance) => Ok(AccountBalance { account_id: req.account_id, balance }),
        Err(e) => Err(e),
    }
}

/// Sets the balance of the account that `req` names to the balance that it
/// carries. An unknown account is reported first, then a negative balance;
/// either way the ledger is left as it was. The record is never touched.
pub fn update_balance(ledger: &mut Ledger, req: AccountBalance) -> (r: Result<
    AccountBalance,
    LedgerError,
>)
    requires
        old(ledger).wf(),
        req.balance.wf(),
    ensures
        final(ledger).wf(),
        final(ledger)@.log == old(ledger)@.log,
        r is Ok <==> old(ledger)@.balances.dom().contains(req.account_id) && req.balance.units() >= 0,
        r is Ok ==> r.unwrap().account_id == req.account_id,
        r is Ok ==> r.unwrap().balance.wf() && r.unwrap().balance.units() == req.balance.units(),
        r is Ok ==> final(ledger)@.balances == old(ledger)@.balances.insert(
            req.account_id,
            req.balance.units(),
        ),
        r is Ok ==> final(ledger).spec_total() == old(ledger).spec_total()
            - old(ledger)@.balances[req.account_id] + req.balance.units(),
        r is Err ==> final(ledger)@ == old(ledger)@,
        r is Err ==> final(ledger).spec_total() == old(ledger).spec_total(),
        r is Err && old(ledger)@.balances.dom().contains(req.account_id) ==> r.unwrap_err()
            is NegativeBalance,
        r is Err && !old(ledger)@.balances.dom().contains(req.account_id) ==> not_found(
            r.unwrap_err(),
            req.account_id,
        ),
{
    let account_id = req.account_id;
    match ledger.set(account_id, req.balance) {
        Ok(balance) => Ok(AccountBalance { account_id, balance }),
        Err(e) => Err(e),
    }
}

} // verus!
