//! What the ledger reports when it declines a request.

use vstd::prelude::*;
use crate::decimal::Decimal;

verus! {

/// Why a request was declined. A declined request changes nothing.
#[derive(Debug)]
pub enum LedgerError {
    /// The amount of a transfer is zero or negative.
    InvalidAmount,
    /// A transfer names one account as both sender and receiver.
    SameAccount,
    /// The balance to set is negative.
    NegativeBalance,
    /// No account has this identifier.
    AccountNotFound { account_id: u128 },
    /// An account with this identifier exists already.
    AccountExists { account_id: u128 },
    /// The transfer would leave a balance below zero. The two balances are
    /// those that the sender and the receiver would have had.
    InsufficientFunds { new_from: Decimal, new_to: Decimal },
    /// No transfer names this account.
    NoTransactions { account_id: u128 },
    /// The underlying store failed; nothing was changed.
    StoreFailure,
}

impl LedgerError {
    /// The HTTP status that stands for this error.
    pub open spec fn spec_status(&self) -> u16 {
        match self {
            LedgerError::InvalidAmount => 400,
            LedgerError::SameAccount => 400,
            LedgerError::NegativeBalance => 400,
            LedgerError::AccountNotFound { .. } => 404,
            LedgerError::AccountExists { .. } => 409,
            LedgerError::InsufficientFunds { .. } => 400,
            LedgerError::NoTransactions { .. } => 404,
            LedgerError::StoreFailure => 500,
        }
    }

    /// The HTTP status that stands for this error: 400 for a request that
    /// fails validation or lacks funds, 404 for an unknown account or an
    /// empty result, 409 for a duplicate, 500 for a failure of the store.
    pub fn status(&self) -> (r: u16)
        ensures
            r == self.spec_status(),
    {
        match self {
            LedgerError::InvalidAmount => 400,
            LedgerError::SameAccount => 400,
            LedgerError::NegativeBalance => 400,
            LedgerError::AccountNotFound { .. } => 404,
            LedgerError::AccountExists { .. } => 409,
            LedgerError::InsufficientFunds { .. } => 400,
            LedgerError::NoTransactions { .. } => 404,
            LedgerError::StoreFailure => 500,
        }
    }
}

} // verus!
