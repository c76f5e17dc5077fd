//! What holds of every transfer and of every sequence of transfers, proved
//! over the model that the ledger's operations are specified by.

use vstd::prelude::*;
use crate::model::{balances_valid, entry_valid, state_valid, step, verdict, LedgerView};

verus! {

/// A requested transfer, with the time at which it is made.
pub struct TransferRequest {
    pub from: u128,
    pub to: u128,
    pub amount: int,
    pub now: i128,
}

/// The state after one request.
pub open spec fn apply(s: LedgerView, request: TransferRequest) -> LedgerView {
    step(s, request.from, request.to, request.amount, request.now)
}

/// The state after the requests were made one after the other.
pub open spec fn run(s: LedgerView, requests: Seq<TransferRequest>) -> LedgerView
    decreases requests.len(),
{
    if requests.len() == 0 {
        s
    } else {
        apply(run(s, requests.drop_last()), requests.last())
    }
}

/// How many of the requests, made one after the other, were accepted.
pub open spec fn accepted(s: LedgerView, requests: Seq<TransferRequest>) -> nat
    decreases requests.len(),
{
    if requests.len() == 0 {
        0
    } else {
        let before = run(s, requests.drop_last());
        let last = requests.last();
        let counted = accepted(s, requests.drop_last());
        if verdict(before.balances, last.from, last.to, last.amount) is Accepted {
            counted + 1
        } else {
            counted
        }
    }
}

/// Conservation: an accepted transfer leaves the sum of the two balances as
/// it was, moves exactly the amount, changes no other account's balance,
/// and neither adds nor removes an account.
pub proof fn law_conservation(s: LedgerView, from: u128, to: u128, amount: int, now: i128)
    requires
        verdict(s.balances, from, to, amount) is Accepted,
    ensures
        step(s, from, to, amount, now).balances[from] + step(s, from, to, amount, now).balances[to]
            == s.balances[from] + s.balances[to],
        step(s, from, to, amount, now).balances[from] == s.balances[from] - amount,
        step(s, from, to, amount, now).balances[to] == s.balances[to] + amount,
        forall|other: u128|
            other != from && other != to && s.balances.dom().contains(other) ==> #[trigger] step(
                s,
                from,
                to,
                amount,
                now,
            ).balances[other] == s.balances[other],
        step(s, from, to, amount, now).balances.dom() == s.balances.dom(),
{
    assert(step(s, from, to, amount, now).balances.dom() =~= s.balances.dom());
}

/// A request, accepted or not, leaves no balance below zero where none was.
pub proof fn law_step_keeps_balances(s: LedgerView, from: u128, to: u128, amount: int, now: i128)
    requires
        balances_valid(s.balances),
    ensures
        balances_valid(step(s, from, to, amount, now).balances),
{
    let after = step(s, from, to, amount, now);
    if verdict(s.balances, from, to, amount) is Accepted {
        assert forall|id: u128| after.balances.dom().contains(id) implies #[trigger] after.balances[id]
            >= 0 by {
            if id != from && id != to {
                assert(s.balances.dom().contains(id));
                assert(s.balances[id] >= 0);
            }
        }
    }
}

/// A request, accepted or not, takes a sound state to a sound state: no
/// balance below zero, every entry of the record valid at its place and
/// between two accounts that exist. The record must have room for one more
/// identifier.
pub proof fn law_step_keeps_valid(s: LedgerView, from: u128, to: u128, amount: int, now: i128)
    requires
        state_valid(s),
        s.log.len() <= u128::MAX,
    ensures
        state_valid(step(s, from, to, amount, now)),
{
    let after = step(s, from, to, amount, now);
    law_step_keeps_balances(s, from, to, amount, now);
    if verdict(s.balances, from, to, amount) is Accepted {
        assert forall|i: int| 0 <= i < after.log.len() implies entry_valid(
            #[trigger] after.log[i],
            i,
            after.balances.dom(),
        ) by {
            if i < s.log.len() {
                assert(after.log[i] == s.log[i]);
                assert(entry_valid(s.log[i], i, s.balances.dom()));
            }
        }
    }
}

/// Non-negativity: where no balance is below zero before a sequence of
/// requests, none is after it, nor after any prefix of it.
pub proof fn law_never_negative(s: LedgerView, requests: Seq<TransferRequest>)
    requires
        balances_valid(s.balances),
    ensures
        balances_valid(run(s, requests).balances),
        forall|k: int|
            0 <= k <= requests.len() ==> balances_valid(
                #[trigger] run(s, requests.take(k)).balances,
            ),
    decreases requests.len(),
{
    if requests.len() > 0 {
        let front = requests.drop_last();
        let last = requests.last();
        law_never_negative(s, front);
        law_step_keeps_balances(run(s, front), last.from, last.to, last.amount, last.now);
        assert forall|k: int| 0 <= k <= requests.len() implies balances_valid(
            #[trigger] run(s, requests.take(k)).balances,
        ) by {
            if k < requests.len() {
                assert(requests.take(k) =~= front.take(k));
            } else {
                assert(requests.take(k) =~= requests);
            }
        }
    } else {
        assert forall|k: int| 0 <= k <= requests.len() implies balances_valid(
            #[trigger] run(s, requests.take(k)).balances,
        ) by {
            assert(requests.take(k) =~= requests);
        }
    }
}

/// A declined transfer changes nothing: every balance and the record are
/// as they were. This holds of a transfer declined for want of funds and of
/// one declined for any other reason.
pub proof fn law_rejection_changes_nothing(
    s: LedgerView,
    from: u128,
    to: u128,
    amount: int,
    now: i128,
)
    requires
        !(verdict(s.balances, from, to, amount) is Accepted),
    ensures
        step(s, from, to, amount, now) == s,
{
}

/// The verdict depends on the balances and the arguments alone, so a
/// request that was declined is declined again, for the same reason, when it
/// is repeated, at whatever time.
pub proof fn law_repeated_rejection(
    s: LedgerView,
    from: u128,
    to: u128,
    amount: int,
    first: i128,
    second: i128,
)
    requires
        !(verdict(s.balances, from, to, amount) is Accepted),
    ensures
        verdict(step(s, from, to, amount, first).balances, from, to, amount) == verdict(
            s.balances,
            from,
            to,
            amount,
        ),
        step(step(s, from, to, amount, first), from, to, amount, second) == s,
{
}

/// Two states with the same balances give the same verdict on the same
/// arguments, whatever their records hold.
pub proof fn law_verdict_is_determined(
    s: LedgerView,
    t: LedgerView,
    from: u128,
    to: u128,
    amount: int,
)
    requires
        s.balances == t.balances,
    ensures
        verdict(s.balances, from, to, amount) == verdict(t.balances, from, to, amount),
{
}

/// Every request draws `amount` from the account `from`.
pub open spec fn all_draw(requests: Seq<TransferRequest>, from: u128, amount: int) -> bool {
    forall|i: int|
        0 <= i < requests.len() ==> (#[trigger] requests[i]).from == from && requests[i].amount
            == amount
}

/// Draining an account: when every one of `n` requests draws the same
/// amount from one account that holds exactly `n` times that amount, then in
/// whatever order they are served, one at a time, the account ends with its
/// first balance less the amount for each accepted request. No more than `n`
/// are accepted, the balance does not end below zero, and it ends at zero
/// exactly when all were accepted.
pub proof fn law_drain(s: LedgerView, requests: Seq<TransferRequest>, from: u128, amount: int)
    requires
        s.balances.dom().contains(from),
        amount > 0,
        s.balances[from] == requests.len() * amount,
        all_draw(requests, from, amount),
    ensures
        accepted(s, requests) <= requests.len(),
        run(s, requests).balances.dom().contains(from),
        run(s, requests).balances[from] == (requests.len() - accepted(s, requests)) * amount,
        run(s, requests).balances[from] >= 0,
        run(s, requests).balances[from] == 0 <==> accepted(s, requests) == requests.len(),
{
    lemma_drain_prefix(s, requests, from, amount);
    let n = requests.len() as int;
    let k = accepted(s, requests) as int;
    assert(s.balances[from] - k * amount == (n - k) * amount) by (nonlinear_arith)
        requires
            s.balances[from] == n * amount,
    ;
    assert(((n - k) * amount == 0) <==> (n == k)) by (nonlinear_arith)
        requires
            amount > 0,
    ;
    assert((n - k) * amount >= 0) by (nonlinear_arith)
        requires
            amount > 0,
            k <= n,
    ;
}

/// After requests that all draw `amount` from `from`, that account holds
/// its first balance less the amount for each accepted request.
pub proof fn lemma_drain_prefix(
    s: LedgerView,
    requests: Seq<TransferRequest>,
    from: u128,
    amount: int,
)
    requires
        s.balances.dom().contains(from),
        all_draw(requests, from, amount),
    ensures
        accepted(s, requests) <= requests.len(),
        run(s, requests).balances.dom().contains(from),
        run(s, requests).balances[from] == s.balances[from] - accepted(s, requests) * amount,
    decreases requests.len(),
{
    if requests.len() > 0 {
        let front = requests.drop_last();
        let last = requests.last();
        assert(all_draw(front, from, amount)) by {
            assert forall|i: int| 0 <= i < front.len() implies (#[trigger] front[i]).from == from
                && front[i].amount == amount by {
                assert(front[i] == requests[i]);
            }
        }
        lemma_drain_prefix(s, front, from, amount);
        assert(last == requests[requests.len() - 1]);
        let k = accepted(s, front) as int;
        assert((k + 1) * amount == k * amount + amount) by (nonlinear_arith);
    } else {
        assert(0 * amount == 0);
    }
}

/// When, besides, every receiver is an account of the first state other
/// than the sender, every one of the requests is accepted and the account
/// ends at zero.
pub proof fn law_drain_completes(
    s: LedgerView,
    requests: Seq<TransferRequest>,
    from: u128,
    amount: int,
)
    requires
        balances_valid(s.balances),
        s.balances.dom().contains(from),
        amount > 0,
        s.balances[from] == requests.len() * amount,
        all_draw(requests, from, amount),
        forall|i: int|
            0 <= i < requests.len() ==> (#[trigger] requests[i]).to != from
                && s.balances.dom().contains(requests[i].to),
    ensures
        accepted(s, requests) == requests.len(),
        run(s, requests).balances[from] == 0,
{
    lemma_all_accepted(s, requests, requests.len() as int, from, amount);
    assert(requests.take(requests.len() as int) =~= requests);
    law_drain(s, requests, from, amount);
}

/// The first `k` of the draining requests are all accepted.
proof fn lemma_all_accepted(
    s: LedgerView,
    requests: Seq<TransferRequest>,
    k: int,
    from: u128,
    amount: int,
)
    requires
        balances_valid(s.balances),
        s.balances.dom().contains(from),
        amount > 0,
        s.balances[from] == requests.len() * amount,
        all_draw(requests, from, amount),
        forall|i: int|
            0 <= i < requests.len() ==> (#[trigger] requests[i]).to != from
                && s.balances.dom().contains(requests[i].to),
        0 <= k <= requests.len(),
    ensures
        accepted(s, requests.take(k)) == k,
        run(s, requests.take(k)).balances.dom() == s.balances.dom(),
        balances_valid(run(s, requests.take(k)).balances),
    decreases k,
{
    let prefix = requests.take(k);
    if k > 0 {
        let front = requests.take(k - 1);
        assert(prefix.drop_last() =~= front);
        let last = prefix.last();
        assert(last == requests[k - 1]);
        lemma_all_accepted(s, requests, k - 1, from, amount);
        assert(all_draw(front, from, amount)) by {
            assert forall|i: int| 0 <= i < front.len() implies (#[trigger] front[i]).from == from
                && front[i].amount == amount by {
                assert(front[i] == requests[i]);
            }
        }
        lemma_drain_prefix(s, front, from, amount);
        let before = run(s, front);
        let n = requests.len() as int;
        assert(before.balances[from] - amount >= 0) by (nonlinear_arith)
            requires
                before.balances[from] == n * amount - (k - 1) * amount,
                k <= n,
                amount > 0,
        ;
        assert(before.balances.dom().contains(last.to));
        assert(before.balances[last.to] >= 0);
        assert(verdict(before.balances, last.from, last.to, last.amount) is Accepted);
        law_conservation(before, last.from, last.to, last.amount, last.now);
        law_step_keeps_balances(before, last.from, last.to, last.amount, last.now);
    }
}

} // verus!
