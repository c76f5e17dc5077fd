//! The ledger as mathematics: balances as a map from account to amount, the
//! record of transfers as a sequence, and the rule that decides a transfer.
//! Amounts are integers here, counted in the unit of `Decimal::units`.

use vstd::prelude::*;

verus! {

/// One applied transfer, as the record holds it.
pub struct TransactionView {
    pub id: u128,
    pub from_account_id: u128,
    pub to_account_id: u128,
    pub amount: int,
    pub created_at: Option<i128>,
}

/// The whole state: every account's balance, and the transfers applied so
/// far, oldest first.
pub struct LedgerView {
    pub balances: Map<u128, int>,
    pub log: Seq<TransactionView>,
}

/// What the engine decides about a requested transfer.
pub enum Verdict {
    /// The amount is zero or negative.
    InvalidAmount,
    /// Sender and receiver are one account.
    SameAccount,
    /// The sender is unknown.
    SenderNotFound,
    /// The sender is known, the receiver is not.
    ReceiverNotFound,
    /// One of the two balances would fall below zero.
    InsufficientFunds,
    /// The transfer is applied.
    Accepted,
}

/// Every balance is zero or more.
pub open spec fn balances_valid(balances: Map<u128, int>) -> bool {
    forall|id: u128| balances.dom().contains(id) ==> #[trigger] balances[id] >= 0
}

/// An entry at place `i` of the record carries `i` as its identifier, a
/// positive amount, and two different accounts, both of which exist.
pub open spec fn entry_valid(entry: TransactionView, i: int, accounts: Set<u128>) -> bool {
    &&& entry.id == i
    &&& entry.amount > 0
    &&& entry.from_account_id != entry.to_account_id
    &&& accounts.contains(entry.from_account_id)
    &&& accounts.contains(entry.to_account_id)
}

/// Every entry of the record is valid at its place.
pub open spec fn log_valid(log: Seq<TransactionView>, accounts: Set<u128>) -> bool {
    forall|i: int| 0 <= i < log.len() ==> entry_valid(#[trigger] log[i], i, accounts)
}

/// A state that the ledger can be in.
pub open spec fn state_valid(s: LedgerView) -> bool {
    balances_valid(s.balances) && log_valid(s.log, s.balances.dom())
}

/// The decision on a transfer of `amount` from `from` to `to`, given the
/// balances. The checks come in this order: the amount, the two accounts
/// being different, the sender, the receiver, the funds. A transfer may
/// leave a balance of exactly zero.
pub open spec fn verdict(balances: Map<u128, int>, from: u128, to: u128, amount: int) -> Verdict {
    if amount <= 0 {
        Verdict::InvalidAmount
    } else if from == to {
        Verdict::SameAccount
    } else if !balances.dom().contains(from) {
        Verdict::SenderNotFound
    } else if !balances.dom().contains(to) {
        Verdict::ReceiverNotFound
    } else if balances[from] - amount < 0 || balances[to] + amount < 0 {
        Verdict::InsufficientFunds
    } else {
        Verdict::Accepted
    }
}

/// The balances after `amount` has moved from `from` to `to`.
pub open spec fn settle(balances: Map<u128, int>, from: u128, to: u128, amount: int) -> Map<
    u128,
    int,
> {
    balances.insert(from, balances[from] - amount).insert(to, balances[to] + amount)
}

/// The entry that a transfer adds to a record of `len` entries: its
/// identifier is its place.
pub open spec fn entry(
    len: nat,
    from: u128,
    to: u128,
    amount: int,
    created_at: Option<i128>,
) -> TransactionView {
    TransactionView { id: len as u128, from_account_id: from, to_account_id: to, amount, created_at }
}

/// The state after a transfer was requested: settled and recorded when it is
/// accepted, untouched when it is not.
pub open spec fn step(s: LedgerView, from: u128, to: u128, amount: int, now: i128) -> LedgerView {
    if verdict(s.balances, from, to, amount) is Accepted {
        LedgerView {
            balances: settle(s.balances, from, to, amount),
            log: s.log.push(entry(s.log.len(), from, to, amount, Some(now))),
        }
    } else {
        s
    }
}

} // verus!
