//! The ledger: the balance store and the record of transfers, held together
//! so that a transfer changes both or neither.

use vstd::prelude::*;
use crate::account::AccountBalance;
use crate::decimal::Decimal;
use crate::error::LedgerError;
use crate::model::{entry, settle, state_valid, step, verdict, LedgerView, TransactionView, Verdict};
use crate::transaction::Transaction;

verus! {

/// Some account in `accounts` has the identifier `id`.
spec fn holds(accounts: Seq<AccountBalance>, id: u128) -> bool {
    exists|i: int| 0 <= i < accounts.len() && #[trigger] accounts[i].account_id == id
}

/// The place in `accounts` of an account with the identifier `id`.
spec fn position(accounts: Seq<AccountBalance>, id: u128) -> int {
    choose|i: int| 0 <= i < accounts.len() && #[trigger] accounts[i].account_id == id
}

/// No two accounts share an identifier.
spec fn distinct(accounts: Seq<AccountBalance>) -> bool {
    forall|i: int, j: int|
        0 <= i < j < accounts.len() ==> #[trigger] accounts[i].account_id
            != #[trigger] accounts[j].account_id
}

/// The balances that `accounts` hold, by account.
spec fn balances_of(accounts: Seq<AccountBalance>) -> Map<u128, int> {
    Map::new(
        |id: u128| holds(accounts, id),
        |id: u128| accounts[position(accounts, id)].balance.units(),
    )
}

/// The record that `transactions` hold.
pub open spec fn log_of(transactions: Seq<Transaction>) -> Seq<TransactionView> {
    Seq::new(transactions.len(), |i: int| transactions[i]@)
}

/// Where identifiers are distinct, the account at place `i` is the one that
/// its identifier finds.
proof fn lemma_position(accounts: Seq<AccountBalance>, i: int)
    requires
        distinct(accounts),
        0 <= i < accounts.len(),
    ensures
        holds(accounts, accounts[i].account_id),
        position(accounts, accounts[i].account_id) == i,
        balances_of(accounts).dom().contains(accounts[i].account_id),
        balances_of(accounts)[accounts[i].account_id] == accounts[i].balance.units(),
{
    let id = accounts[i].account_id;
    assert(holds(accounts, id));
    let p = position(accounts, id);
    assert(0 <= p < accounts.len() && accounts[p].account_id == id);
    if p < i {
        assert(accounts[p].account_id != accounts[i].account_id);
    }
    if i < p {
        assert(accounts[i].account_id != accounts[p].account_id);
    }
}

/// Replacing the account at place `i` by one with the same identifier
/// changes that account's balance and nothing else.
proof fn lemma_update(accounts: Seq<AccountBalance>, i: int, account: AccountBalance)
    requires
        distinct(accounts),
        0 <= i < accounts.len(),
        account.account_id == accounts[i].account_id,
    ensures
        distinct(accounts.update(i, account)),
        balances_of(accounts.update(i, account)) == balances_of(accounts).insert(
            account.account_id,
            account.balance.units(),
        ),
{
    let after = accounts.update(i, account);
    assert forall|k: int| 0 <= k < accounts.len() implies #[trigger] after[k].account_id
        == accounts[k].account_id by {}
    assert(distinct(after)) by {
        assert forall|a: int, b: int| 0 <= a < b < after.len() implies #[trigger] after[a].account_id
            != #[trigger] after[b].account_id by {
            assert(accounts[a].account_id != accounts[b].account_id);
        }
    }
    let expected = balances_of(accounts).insert(account.account_id, account.balance.units());
    assert forall|id: u128| balances_of(after).dom().contains(id) <==> expected.dom().contains(
        id,
    ) by {
        if holds(accounts, id) {
            let p = position(accounts, id);
            assert(after[p].account_id == id);
        }
        if holds(after, id) {
            let p = position(after, id);
            assert(accounts[p].account_id == id);
        }
        assert(holds(accounts, account.account_id)) by {
            lemma_position(accounts, i);
        }
    }
    assert forall|id: u128| balances_of(after).dom().contains(id) implies balances_of(after)[id]
        == expected[id] by {
        let p = position(after, id);
        assert(0 <= p < after.len() && after[p].account_id == id);
        lemma_position(after, p);
        lemma_position(accounts, p);
    }
    assert(balances_of(after) =~= expected);
}

/// Adding an account with a new identifier adds its balance and changes
/// nothing else.
proof fn lemma_push(accounts: Seq<AccountBalance>, account: AccountBalance)
    requires
        distinct(accounts),
        !holds(accounts, account.account_id),
    ensures
        distinct(accounts.push(account)),
        balances_of(accounts.push(account)) == balances_of(accounts).insert(
            account.account_id,
            account.balance.units(),
        ),
{
    let after = accounts.push(account);
    let last = accounts.len() as int;
    assert(distinct(after)) by {
        assert forall|a: int, b: int| 0 <= a < b < after.len() implies #[trigger] after[a].account_id
            != #[trigger] after[b].account_id by {
            if b < last {
                assert(accounts[a].account_id != accounts[b].account_id);
            } else {
                assert(accounts[a].account_id != account.account_id);
            }
        }
    }
    let expected = balances_of(accounts).insert(account.account_id, account.balance.units());
    assert forall|id: u128| balances_of(after).dom().contains(id) <==> expected.dom().contains(
        id,
    ) by {
        if holds(accounts, id) {
            let p = position(accounts, id);
            assert(after[p].account_id == id);
        }
        if holds(after, id) {
            let p = position(after, id);
            if p < last {
                assert(accounts[p].account_id == id);
            }
        }
        assert(after[last].account_id == account.account_id);
    }
    assert forall|id: u128| balances_of(after).dom().contains(id) implies balances_of(after)[id]
        == expected[id] by {
        let p = position(after, id);
        assert(0 <= p < after.len() && after[p].account_id == id);
        lemma_position(after, p);
        if p < last {
            assert(accounts[p].account_id == id);
            lemma_position(accounts, p);
        }
    }
    assert(balances_of(after) =~= expected);
}

/// The sum of the balances that `accounts` hold.
spec fn sum_of(accounts: Seq<AccountBalance>) -> int
    decreases accounts.len(),
{
    if accounts.len() == 0 {
        0
    } else {
        sum_of(accounts.drop_last()) + accounts.last().balance.units()
    }
}

/// Replacing one account changes the sum by the difference of the two
/// balances.
proof fn lemma_sum_update(accounts: Seq<AccountBalance>, i: int, account: AccountBalance)
    requires
        0 <= i < accounts.len(),
    ensures
        sum_of(accounts.update(i, account)) == sum_of(accounts) - accounts[i].balance.units()
            + account.balance.units(),
    decreases accounts.len(),
{
    let after = accounts.update(i, account);
    if i == accounts.len() - 1 {
        assert(after.drop_last() =~= accounts.drop_last());
    } else {
        assert(after.drop_last() =~= accounts.drop_last().update(i, account));
        lemma_sum_update(accounts.drop_last(), i, account);
    }
}

/// Adding an account adds its balance to the sum.
proof fn lemma_sum_push(accounts: Seq<AccountBalance>, account: AccountBalance)
    ensures
        sum_of(accounts.push(account)) == sum_of(accounts) + account.balance.units(),
{
    assert(accounts.push(account).drop_last() =~= accounts);
}

/// Where no balance is negative, the sum is not negative.
proof fn lemma_sum_nonnegative(accounts: Seq<AccountBalance>)
    requires
        forall|k: int| 0 <= k < accounts.len() ==> (#[trigger] accounts[k]).balance.units() >= 0,
    ensures
        sum_of(accounts) >= 0,
    decreases accounts.len(),
{
    if accounts.len() > 0 {
        let front = accounts.drop_last();
        assert forall|k: int| 0 <= k < front.len() implies (#[trigger] front[k]).balance.units()
            >= 0 by {
            assert(front[k] == accounts[k]);
        }
        lemma_sum_nonnegative(front);
        assert(accounts.last() == accounts[accounts.len() - 1]);
    }
}

/// Where no balance is negative, the sum is at least each of them.
proof fn lemma_sum_covers(accounts: Seq<AccountBalance>, i: int)
    requires
        0 <= i < accounts.len(),
        forall|k: int| 0 <= k < accounts.len() ==> (#[trigger] accounts[k]).balance.units() >= 0,
    ensures
        accounts[i].balance.units() <= sum_of(accounts),
    decreases accounts.len(),
{
    let front = accounts.drop_last();
    assert forall|k: int| 0 <= k < front.len() implies (#[trigger] front[k]).balance.units()
        >= 0 by {
        assert(front[k] == accounts[k]);
    }
    assert(accounts.last() == accounts[accounts.len() - 1]);
    if i == accounts.len() - 1 {
        lemma_sum_nonnegative(front);
    } else {
        assert(front[i] == accounts[i]);
        lemma_sum_covers(front, i);
    }
}

/// Account balances and the record of applied transfers.
#[derive(Debug)]
pub struct Ledger {
    pub(crate) accounts: Vec<AccountBalance>,
    pub(crate) transactions: Vec<Transaction>,
}

impl View for Ledger {
    type V = LedgerView;

    closed spec fn view(&self) -> LedgerView {
        LedgerView { balances: balances_of(self.accounts@), log: log_of(self.transactions@) }
    }
}

impl Ledger {
    /// What holds of the representation: identifiers are distinct and every
    /// amount is well formed.
    pub closed spec fn inv(&self) -> bool {
        &&& distinct(self.accounts@)
        &&& forall|i: int|
            0 <= i < self.accounts@.len() ==> (#[trigger] self.accounts@[i]).balance.wf()
        &&& forall|i: int|
            0 <= i < self.transactions@.len() ==> (#[trigger] self.transactions@[i]).amount.wf()
    }

    /// The ledger is sound: no balance is negative, and every entry of the
    /// record carries its place as identifier, a positive amount and two
    /// different accounts that exist.
    pub open spec fn wf(&self) -> bool {
        self.inv() && state_valid(self@)
    }

    /// The value of the whole ledger: the sum of all balances.
    pub closed spec fn spec_total(&self) -> int {
        sum_of(self.accounts@)
    }

    /// The value of a sound ledger is at least every single balance, and
    /// so is not negative where there is an account.
    pub proof fn law_total_covers(&self, id: u128)
        requires
            self.wf(),
            self@.balances.dom().contains(id),
        ensures
            0 <= self@.balances[id] <= self.spec_total(),
    {
        let accounts = self.accounts@;
        assert forall|k: int| 0 <= k < accounts.len() implies (#[trigger] accounts[k]).balance.units()
            >= 0 by {
            lemma_position(accounts, k);
        }
        let p = position(accounts, id);
        lemma_position(accounts, p);
        lemma_sum_covers(accounts, p);
    }

    /// A ledger with no account and an empty record.
    pub fn new() -> (r: Ledger)
        ensures
            r.wf(),
            r@.balances == Map::<u128, int>::empty(),
            r@.log == Seq::<TransactionView>::empty(),
            r.spec_total() == 0,
    {
        let r = Ledger { accounts: Vec::new(), transactions: Vec::new() };
        assert(r@.balances =~= Map::<u128, int>::empty());
        assert(r@.log =~= Seq::<TransactionView>::empty());
        r
    }

    /// The place of the account `id`, if there is one.
    fn find(&self, id: u128) -> (r: Option<usize>)
        ensures
            r is Some <==> holds(self.accounts@, id),
            r is Some ==> r.unwrap() < self.accounts@.len(),
            r is Some ==> self.accounts@[r.unwrap() as int].account_id == id,
    {
        let mut i: usize = 0;
        while i < self.accounts.len()
            invariant
                i <= self.accounts@.len(),
                forall|k: int| 0 <= k < i ==> (#[trigger] self.accounts@[k]).account_id != id,
            decreases self.accounts@.len() - i,
        {
            if self.accounts[i].account_id == id {
                return Some(i);
            }
            i += 1;
        }
        None
    }

    /// Whether an account `id` exists.
    pub fn account_exists(&self, id: u128) -> (r: bool)
        ensures
            r == self@.balances.dom().contains(id),
    {
        self.find(id).is_some()
    }

    /// Creates the account `id` with a balance of zero. An identifier that
    /// is taken is refused, and nothing changes.
    pub fn open_account(&mut self, id: u128) -> (r: Result<(), LedgerError>)
        requires
            old(self).wf(),
        ensures
            final(self).wf(),
            final(self)@.log == old(self)@.log,
            final(self).spec_total() == old(self).spec_total(),
            r is Ok <==> !old(self)@.balances.dom().contains(id),
            r is Ok ==> final(self)@.balances == old(self)@.balances.insert(id, 0),
            r is Err ==> final(self)@ == old(self)@,
            r is Err ==> exists_already(r.unwrap_err(), id),
    {
        match self.find(id) {
            Some(_) => Err(LedgerError::AccountExists { account_id: id }),
            None => {
                let account = AccountBalance { account_id: id, balance: Decimal::zero() };
                proof {
                    lemma_push(self.accounts@, account);
                    lemma_sum_push(self.accounts@, account);
                }
                self.accounts.push(account);
                Ok(())
            },
        }
    }

    /// The balance of the account `id`.
    pub fn get(&self, id: u128) -> (r: Result<Decimal, LedgerError>)
        requires
            self.wf(),
        ensures
            r is Ok <==> self@.balances.dom().contains(id),
            r is Ok ==> r.unwrap().wf() && r.unwrap().units() == self@.balances[id],
            r is Err ==> not_found(r.unwrap_err(), id),
    {
        match self.find(id) {
            Some(i) => {
                proof {
                    lemma_position(self.accounts@, i as int);
                }
                Ok(self.accounts[i].balance.duplicate())
            },
            None => Err(LedgerError::AccountNotFound { account_id: id }),
        }
    }
}

/// The entry names the account `id` as sender or as receiver.
pub open spec fn names(entry: TransactionView, id: u128) -> bool {
    entry.from_account_id == id || entry.to_account_id == id
}

/// The entries of `log` that name the account `id`, in the order of `log`.
pub open spec fn history(log: Seq<TransactionView>, id: u128) -> Seq<TransactionView> {
    log.filter(|entry: TransactionView| names(entry, id))
}

/// What came of an accepted transfer.
#[derive(Debug)]
pub struct Receipt {
    /// The identifier of the entry that records the transfer.
    pub transaction_id: u128,
    /// The sender's balance after the transfer.
    pub new_from: Decimal,
    /// The receiver's balance after the transfer.
    pub new_to: Decimal,
}

/// The error `e` says that no account `id` exists.
pub open spec fn not_found(e: LedgerError, id: u128) -> bool {
    e matches LedgerError::AccountNotFound { account_id } && account_id == id
}

/// The error `e` says that an account `id` exists already.
pub open spec fn exists_already(e: LedgerError, id: u128) -> bool {
    e matches LedgerError::AccountExists { account_id } && account_id == id
}

/// The error `e` says that no transfer names the account `id`.
pub open spec fn no_transactions(e: LedgerError, id: u128) -> bool {
    e matches LedgerError::NoTransactions { account_id } && account_id == id
}

/// The two balances are well formed and are what a transfer of `amount`
/// from `from` to `to` leaves the sender and the receiver with.
pub open spec fn settled(
    new_from: Decimal,
    new_to: Decimal,
    balances: Map<u128, int>,
    from: u128,
    to: u128,
    amount: int,
) -> bool {
    &&& new_from.wf()
    &&& new_to.wf()
    &&& new_from.units() == balances[from] - amount
    &&& new_to.units() == balances[to] + amount
}

/// An entry for a transfer of `amount` from `from` to `to` can be added to
/// the record of a ledger with these accounts.
pub open spec fn recordable(accounts: Set<u128>, from: u128, to: u128, amount: int) -> bool {
    amount > 0 && from != to && accounts.contains(from) && accounts.contains(to)
}

/// The error `e` is the one that an entry which cannot be added to the
/// record is owed: the first of the four checks that fails.
pub open spec fn record_refused(
    e: LedgerError,
    accounts: Set<u128>,
    from: u128,
    to: u128,
    amount: int,
) -> bool {
    if amount <= 0 {
        e is InvalidAmount
    } else if from == to {
        e is SameAccount
    } else if !accounts.contains(from) {
        not_found(e, from)
    } else {
        not_found(e, to)
    }
}

/// The error `e` is the one that a declined transfer of `amount` from `from`
/// to `to` is owed, given the balances: which check failed, which account is
/// missing, and the two balances that a transfer without funds would have
/// left.
pub open spec fn rejection(
    e: LedgerError,
    balances: Map<u128, int>,
    from: u128,
    to: u128,
    amount: int,
) -> bool {
    match verdict(balances, from, to, amount) {
        Verdict::InvalidAmount => e is InvalidAmount,
        Verdict::SameAccount => e is SameAccount,
        Verdict::SenderNotFound => not_found(e, from),
        Verdict::ReceiverNotFound => not_found(e, to),
        Verdict::InsufficientFunds => e matches LedgerError::InsufficientFunds { new_from, new_to }
            && new_from.units() == balances[from] - amount && new_to.units() == balances[to]
            + amount,
        Verdict::Accepted => false,
    }
}

impl Ledger {
    /// Overwrites the balance of the account `id`. An unknown account is
    /// reported first, then a negative balance; either way nothing changes.
    pub fn set(&mut self, id: u128, balance: Decimal) -> (r: Result<Decimal, LedgerError>)
        requires
            old(self).wf(),
            balance.wf(),
        ensures
            final(self).wf(),
            final(self)@.log == old(self)@.log,
            r is Ok <==> old(self)@.balances.dom().contains(id) && balance.units() >= 0,
            r is Ok ==> r.unwrap().wf() && r.unwrap().units() == balance.units(),
            r is Ok ==> final(self)@.balances == old(self)@.balances.insert(id, balance.units()),
            r is Ok ==> final(self).spec_total() == old(self).spec_total() - old(self)@.balances[id]
                + balance.units(),
            r is Err ==> final(self)@ == old(self)@,
            r is Err ==> final(self).spec_total() == old(self).spec_total(),
            r is Err && old(self)@.balances.dom().contains(id) ==> r.unwrap_err() is NegativeBalance,
            r is Err && !old(self)@.balances.dom().contains(id) ==> not_found(r.unwrap_err(), id),
    {
        match self.find(id) {
            None => Err(LedgerError::AccountNotFound { account_id: id }),
            Some(i) => {
                if balance.is_negative() {
                    return Err(LedgerError::NegativeBalance);
                }
                let stored = balance.duplicate();
                let account = AccountBalance { account_id: id, balance };
                proof {
                    lemma_position(self.accounts@, i as int);
                    lemma_update(self.accounts@, i as int, account);
                    lemma_sum_update(self.accounts@, i as int, account);
                }
                self.accounts.set(i, account);
                Ok(stored)
            },
        }
    }

    /// Overwrites the balance of the account `id` if it still equals
    /// `expected`, and says whether it did. An unknown account is reported
    /// first, then a negative balance; a balance that has moved on is no
    /// error, and nothing changes.
    pub fn compare_and_set(&mut self, id: u128, expected: &Decimal, balance: Decimal) -> (r:
        Result<bool, LedgerError>)
        requires
            old(self).wf(),
            expected.wf(),
            balance.wf(),
        ensures
            final(self).wf(),
            final(self)@.log == old(self)@.log,
            r is Ok <==> old(self)@.balances.dom().contains(id) && balance.units() >= 0,
            r is Ok ==> r.unwrap() == (old(self)@.balances[id] == expected.units()),
            r is Ok && r.unwrap() ==> final(self)@.balances == old(self)@.balances.insert(
                id,
                balance.units(),
            ),
            r is Ok && !r.unwrap() ==> final(self)@ == old(self)@,
            r is Err ==> final(self)@ == old(self)@,
            r is Err && old(self)@.balances.dom().contains(id) ==> r.unwrap_err() is NegativeBalance,
            r is Err && !old(self)@.balances.dom().contains(id) ==> not_found(r.unwrap_err(), id),
    {
        let i = match self.find(id) {
            Some(i) => i,
            None => {
                return Err(LedgerError::AccountNotFound { account_id: id });
            },
        };
        if balance.is_negative() {
            return Err(LedgerError::NegativeBalance);
        }
        proof {
            lemma_position(self.accounts@, i as int);
        }
        let current = &self.accounts[i].balance;
        if current.lt(expected) || expected.lt(current) {
            return Ok(false);
        }
        let account = AccountBalance { account_id: id, balance };
        proof {
            lemma_update(self.accounts@, i as int, account);
        }
        self.accounts.set(i, account);
        Ok(true)
    }

    /// Moves `amount` from the account `from` to the account `to`, both
    /// balances at once or neither. Returns the two new balances, the
    /// sender's first. The record is not touched.
    pub fn transfer_atomic(&mut self, from: u128, to: u128, amount: &Decimal) -> (r: Result<
        (Decimal, Decimal),
        LedgerError,
    >)
        requires
            old(self).wf(),
            amount.wf(),
        ensures
            final(self).wf(),
            final(self)@.log == old(self)@.log,
            final(self).spec_total() == old(self).spec_total(),
            r is Ok <==> verdict(old(self)@.balances, from, to, amount.units()) is Accepted,
            r is Ok ==> final(self)@.balances == settle(old(self)@.balances, from, to, amount.units()),
            r is Ok ==> settled(
                r.unwrap().0,
                r.unwrap().1,
                old(self)@.balances,
                from,
                to,
                amount.units(),
            ),
            r is Err ==> final(self)@ == old(self)@,
            r is Err ==> rejection(r.unwrap_err(), old(self)@.balances, from, to, amount.units()),
    {
        if !amount.is_positive() {
            return Err(LedgerError::InvalidAmount);
        }
        if from == to {
            return Err(LedgerError::SameAccount);
        }
        let i = match self.find(from) {
            Some(i) => i,
            None => {
                return Err(LedgerError::AccountNotFound { account_id: from });
            },
        };
        let j = match self.find(to) {
            Some(j) => j,
            None => {
                return Err(LedgerError::AccountNotFound { account_id: to });
            },
        };
        proof {
            lemma_position(self.accounts@, i as int);
            lemma_position(self.accounts@, j as int);
        }
        let new_from = self.accounts[i].balance.minus(amount);
        let new_to = self.accounts[j].balance.plus(amount);
        if new_from.is_negative() || new_to.is_negative() {
            return Err(LedgerError::InsufficientFunds { new_from, new_to });
        }
        let debited = AccountBalance { account_id: from, balance: new_from.duplicate() };
        let credited = AccountBalance { account_id: to, balance: new_to.duplicate() };
        proof {
            lemma_update(self.accounts@, i as int, debited);
            lemma_update(self.accounts@.update(i as int, debited), j as int, credited);
            lemma_sum_update(self.accounts@, i as int, debited);
            lemma_sum_update(self.accounts@.update(i as int, debited), j as int, credited);
        }
        self.accounts.set(i, debited);
        self.accounts.set(j, credited);
        Ok((new_from, new_to))
    }

    /// Transfers `amount` from the account `from` to the account `to` and,
    /// when the transfer is applied, records it with the time `now`. A
    /// declined transfer leaves balances and record as they were.
    pub fn create_transfer(&mut self, from: u128, to: u128, amount: &Decimal, now: i128) -> (r:
        Result<Receipt, LedgerError>)
        requires
            old(self).wf(),
            amount.wf(),
        ensures
            final(self).wf(),
            final(self)@ == step(old(self)@, from, to, amount.units(), now),
            final(self).spec_total() == old(self).spec_total(),
            r is Ok <==> verdict(old(self)@.balances, from, to, amount.units()) is Accepted,
            r is Ok ==> r.unwrap().transaction_id == old(self)@.log.len(),
            r is Ok ==> settled(
                r.unwrap().new_from,
                r.unwrap().new_to,
                old(self)@.balances,
                from,
                to,
                amount.units(),
            ),
            r is Err ==> rejection(r.unwrap_err(), old(self)@.balances, from, to, amount.units()),
    {
        match self.transfer_atomic(from, to, amount) {
            Err(e) => Err(e),
            Ok((new_from, new_to)) => {
                let transaction_id = self.append(from, to, amount.duplicate(), Some(now));
                Ok(Receipt { transaction_id, new_from, new_to })
            },
        }
    }

    /// Adds an entry to the end of the record and returns its identifier.
    fn append(&mut self, from: u128, to: u128, amount: Decimal, created_at: Option<i128>) -> (id:
        u128)
        requires
            old(self).wf(),
            amount.wf(),
            amount.units() > 0,
            from != to,
            old(self)@.balances.dom().contains(from),
            old(self)@.balances.dom().contains(to),
        ensures
            final(self).wf(),
            final(self)@.balances == old(self)@.balances,
            final(self).spec_total() == old(self).spec_total(),
            final(self)@.log == old(self)@.log.push(
                entry(old(self)@.log.len(), from, to, amount.units(), created_at),
            ),
            id == old(self)@.log.len(),
    {
        let id = self.transactions.len() as u128;
        let ghost before = self.transactions@;
        let ghost units = amount.units();
        self.transactions.push(
            Transaction { id, from_account_id: from, to_account_id: to, amount, created_at },
        );
        proof {
            assert(log_of(self.transactions@) =~= log_of(before).push(
                entry(before.len(), from, to, units, created_at),
            ));
        }
        id
    }

    /// Records a transfer that was applied elsewhere, such as one read back
    /// from durable storage: adds it to the end of the record, with the next
    /// identifier, and leaves every balance alone. The checks are those of
    /// a transfer but for the funds, in the same order.
    pub fn record(
        &mut self,
        from: u128,
        to: u128,
        amount: Decimal,
        created_at: Option<i128>,
    ) -> (r: Result<u128, LedgerError>)
        requires
            old(self).wf(),
            amount.wf(),
        ensures
            final(self).wf(),
            final(self)@.balances == old(self)@.balances,
            final(self).spec_total() == old(self).spec_total(),
            r is Ok <==> recordable(old(self)@.balances.dom(), from, to, amount.units()),
            r is Ok ==> r.unwrap() == old(self)@.log.len(),
            r is Ok ==> final(self)@.log == old(self)@.log.push(
                entry(old(self)@.log.len(), from, to, amount.units(), created_at),
            ),
            r is Err ==> final(self)@ == old(self)@,
            r is Err ==> record_refused(
                r.unwrap_err(),
                old(self)@.balances.dom(),
                from,
                to,
                amount.units(),
            ),
    {
        if !amount.is_positive() {
            return Err(LedgerError::InvalidAmount);
        }
        if from == to {
            return Err(LedgerError::SameAccount);
        }
        if self.find(from).is_none() {
            return Err(LedgerError::AccountNotFound { account_id: from });
        }
        if self.find(to).is_none() {
            return Err(LedgerError::AccountNotFound { account_id: to });
        }
        Ok(self.append(from, to, amount, created_at))
    }

    /// The value of the whole ledger: the sum of all balances. No transfer,
    /// applied or declined, changes it.
    pub fn total(&self) -> (r: Decimal)
        requires
            self.wf(),
        ensures
            r.wf(),
            r.units() == self.spec_total(),
    {
        let mut sum = Decimal::zero();
        let mut i: usize = 0;
        while i < self.accounts.len()
            invariant
                self.inv(),
                i <= self.accounts@.len(),
                sum.wf(),
                sum.units() == sum_of(self.accounts@.take(i as int)),
            decreases self.accounts@.len() - i,
        {
            proof {
                assert(self.accounts@.take(i + 1).drop_last() =~= self.accounts@.take(i as int));
            }
            sum = sum.plus(&self.accounts[i].balance);
            i += 1;
        }
        assert(self.accounts@.take(i as int) =~= self.accounts@);
        sum
    }

    /// Every applied transfer, oldest first.
    pub fn list_transactions(&self) -> (r: Vec<Transaction>)
        requires
            self.wf(),
        ensures
            log_of(r@) == self@.log,
            forall|i: int| 0 <= i < r@.len() ==> (#[trigger] r@[i]).amount.wf(),
    {
        let mut out: Vec<Transaction> = Vec::new();
        let mut i: usize = 0;
        while i < self.transactions.len()
            invariant
                self.inv(),
                i <= self.transactions@.len(),
                out@.len() == i,
                forall|k: int| 0 <= k < i ==> (#[trigger] out@[k])@ == self.transactions@[k]@,
                forall|k: int| 0 <= k < i ==> (#[trigger] out@[k]).amount.wf(),
            decreases self.transactions@.len() - i,
        {
            out.push(self.transactions[i].duplicate());
            i += 1;
        }
        assert(log_of(out@) =~= log_of(self.transactions@));
        out
    }

    /// The applied transfers that name the account `id` as sender or as
    /// receiver, oldest first. It is an error if there is none.
    pub fn query_transactions(&self, id: u128) -> (r: Result<Vec<Transaction>, LedgerError>)
        requires
            self.wf(),
        ensures
            r is Ok <==> history(self@.log, id).len() > 0,
            r is Ok ==> log_of(r.unwrap()@) == history(self@.log, id),
            r is Ok ==> forall|i: int|
                0 <= i < r.unwrap()@.len() ==> (#[trigger] r.unwrap()@[i]).amount.wf(),
            r is Err ==> no_transactions(r.unwrap_err(), id),
    {
        let ghost log = log_of(self.transactions@);
        let mut out: Vec<Transaction> = Vec::new();
        let mut i: usize = 0;
        proof {
            reveal(Seq::filter);
            assert(log.take(0) =~= Seq::<TransactionView>::empty());
            assert(log_of(out@) =~= history(log.take(0), id));
        }
        while i < self.transactions.len()
            invariant
                self.inv(),
                log == log_of(self.transactions@),
                i <= self.transactions@.len(),
                log_of(out@) == history(log.take(i as int), id),
                forall|k: int| 0 <= k < out@.len() ==> (#[trigger] out@[k]).amount.wf(),
            decreases self.transactions@.len() - i,
        {
            let t = &self.transactions[i];
            proof {
                let next = log.take(i + 1);
                reveal(Seq::filter);
                assert(next.drop_last() =~= log.take(i as int));
                assert(next.last() == t@);
            }
            if t.from_account_id == id || t.to_account_id == id {
                let ghost before = out@;
                let copy = t.duplicate();
                out.push(copy);
                assert(log_of(out@) =~= log_of(before).push(t@));
            }
            i += 1;
        }
        assert(log.take(i as int) =~= log);
        if out.len() == 0 {
            Err(LedgerError::NoTransactions { account_id: id })
        } else {
            Ok(out)
        }
    }
}

} // verus!
