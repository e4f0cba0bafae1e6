use vstd::prelude::*;
use crate::account::zero_account;
use crate::amount::{fits, group_amount, AmountOpError};
use crate::event::{ClientId, Event, TransactionId};
use crate::shard::{
    account_of, empty_shard, push_event_step, transaction_of, ShardError, ShardView,
};
use crate::transaction::TransactionView;

verus! {

/// The ledger after processing `evs` in order, starting from `s`.
pub open spec fn replay(s: ShardView, evs: Seq<Event>) -> ShardView
    decreases evs.len(),
{
    if evs.len() == 0 {
        s
    } else {
        push_event_step(replay(s, evs.drop_last()), evs.last())
    }
}

/// The scaled sum of the deposits in `evs` minus that of the withdrawals.
pub open spec fn net_of(evs: Seq<Event>) -> int
    decreases evs.len(),
{
    if evs.len() == 0 {
        0
    } else {
        net_of(evs.drop_last()) + match evs.last() {
            Event::Deposit { amount, .. } => amount@,
            Event::Withdrawal { amount, .. } => -amount@,
            _ => 0,
        }
    }
}

/// `evs` are deposits and withdrawals of client `client` alone, each with a transaction id of
/// its own, no withdrawal of the one amount that cannot be negated, and every running sum in
/// range.
pub open spec fn plain_history(client: ClientId, evs: Seq<Event>) -> bool {
    &&& forall|i: int|
        0 <= i < evs.len() ==> (#[trigger] evs[i]).client_of() == client && (evs[i] is Deposit
            || evs[i] is Withdrawal)
    &&& forall|i: int, j: int|
        0 <= i < j < evs.len() ==> (#[trigger] evs[i]).tx_of() != (#[trigger] evs[j]).tx_of()
    &&& forall|i: int|
        0 <= i < evs.len() ==> (#[trigger] evs[i] matches Event::Withdrawal { amount, .. }
            ==> amount@ != i64::MIN)
    &&& forall|k: int| 0 <= k <= evs.len() ==> fits(#[trigger] net_of(evs.take(k)))
}

proof fn lemma_replay_plain(client: ClientId, evs: Seq<Event>)
    requires
        plain_history(client, evs),
    ensures
        account_of(replay(empty_shard(), evs), client).total@ == net_of(evs),
        account_of(replay(empty_shard(), evs), client).held@ == 0,
        replay(empty_shard(), evs).errors.len() == 0,
        forall|id: TransactionId| #[trigger]
            replay(empty_shard(), evs).transactions.contains_key(id) ==> exists|i: int|
                0 <= i < evs.len() && (#[trigger] evs[i]).tx_of() == id,
    decreases evs.len(),
{
    broadcast use group_amount;

    assert(evs.take(evs.len() as int) =~= evs);
    if evs.len() > 0 {
        let prev = evs.drop_last();
        assert forall|k: int| 0 <= k <= prev.len() implies fits(#[trigger] net_of(prev.take(k))) by {
            assert(prev.take(k) =~= evs.take(k));
        }
        assert forall|i: int, j: int|
            0 <= i < j < prev.len() implies (#[trigger] prev[i]).tx_of() != (
            #[trigger] prev[j]).tx_of() by {
            assert(prev[i] == evs[i] && prev[j] == evs[j]);
        }
        assert forall|i: int| 0 <= i < prev.len() implies (#[trigger] prev[i]).client_of() == client
            && (prev[i] is Deposit || prev[i] is Withdrawal) by {
            assert(prev[i] == evs[i]);
        }
        assert forall|i: int|
            0 <= i < prev.len() implies (#[trigger] prev[i] matches Event::Withdrawal {
                amount,
                ..
            } ==> amount@ != i64::MIN) by {
            assert(prev[i] == evs[i]);
        }
        lemma_replay_plain(client, prev);
        let s = replay(empty_shard(), prev);
        let ev = evs.last();
        assert(ev == evs[evs.len() - 1]);
        assert(!s.transactions.contains_key(ev.tx_of())) by {
            if s.transactions.contains_key(ev.tx_of()) {
                let i = choose|i: int| 0 <= i < prev.len() && (#[trigger] prev[i]).tx_of() == ev.tx_of();
                assert(prev[i] == evs[i]);
            }
        }
        assert(fits(net_of(evs.take(evs.len() as int))));
        let s2 = replay(empty_shard(), evs);
        assert(s2 == push_event_step(s, ev));
        assert(transaction_of(s, ev.tx_of()) == crate::transaction::fresh_transaction());
        let a = account_of(s, client);
        assert(ev.client_of() == client);
        assert(ev is Deposit || ev is Withdrawal);
        match ev {
            Event::Deposit { amount, .. } => {
                assert(net_of(evs) == net_of(prev) + amount@);
                assert(fits(a.total@ + amount@));
                assert(crate::amount::add_result(a.total, amount) == Ok::<
                    crate::amount::Amount,
                    AmountOpError,
                >(crate::amount::spec_amount(a.total@ + amount@)));
            },
            Event::Withdrawal { amount, .. } => {
                assert(net_of(evs) == net_of(prev) - amount@);
                assert(amount@ != i64::MIN);
                crate::amount::lemma_view_spec_amount(amount);
                assert(fits(a.total@ - amount@));
                assert(crate::amount::sub_result(a.total, amount) == Ok::<
                    crate::amount::Amount,
                    AmountOpError,
                >(crate::amount::spec_amount(a.total@ - amount@)));
            },
            _ => {},
        }
        assert forall|id: TransactionId| #[trigger]
            s2.transactions.contains_key(id) implies exists|i: int|
            0 <= i < evs.len() && (#[trigger] evs[i]).tx_of() == id by {
            if id != ev.tx_of() {
                assert(s.transactions.contains_key(id));
                let i = choose|i: int| 0 <= i < prev.len() && (#[trigger] prev[i]).tx_of() == id;
                assert(prev[i] == evs[i]);
            } else {
                assert(evs[evs.len() - 1].tx_of() == id);
            }
        }
        assert(account_of(s2, client).total@ == net_of(evs));
        assert(s2.errors.len() == 0);
    } else {
        assert(account_of(empty_shard(), client) == zero_account());
        assert(account_of(replay(empty_shard(), evs), client).total@ == net_of(evs));
    }
}

/// Conservation: for a client whose history holds only deposits and withdrawals, the total is
/// the sum of the deposits minus the sum of the withdrawals, nothing is held, and no error
/// arises.
pub proof fn lemma_conservation(client: ClientId, evs: Seq<Event>)
    requires
        plain_history(client, evs),
    ensures
        account_of(replay(empty_shard(), evs), client).total@ == net_of(evs),
        account_of(replay(empty_shard(), evs), client).held@ == 0,
        replay(empty_shard(), evs).errors.len() == 0,
{
    lemma_replay_plain(client, evs);
}

/// A deposit that would take the total out of range is reported, not wrapped: exactly one
/// error is added, naming the transaction and the operands, and the account stays as it was.
pub proof fn lemma_overflow_reported(s: ShardView, ev: Event)
    requires
        ev is Deposit,
        transaction_of(s, ev.tx_of()).amount is None,
        !fits(account_of(s, ev.client_of()).total@ + ev.amount_of()->Some_0@),
    ensures
        push_event_step(s, ev).errors == s.errors.push(
            ShardError::TransactionOprror {
                tx: ev.tx_of(),
                reason: AmountOpError {
                    lhs: account_of(s, ev.client_of()).total,
                    rhs: ev.amount_of(),
                    op: "+",
                },
            },
        ),
        account_of(push_event_step(s, ev), ev.client_of()) == account_of(s, ev.client_of()),
{
}

/// A dispute, resolve or chargeback for a transaction whose amount is not known changes no
/// balance and adds no error: only that transaction's flags change.
pub proof fn lemma_unknown_transaction(s: ShardView, ev: Event)
    requires
        ev.amount_of() is None,
        transaction_of(s, ev.tx_of()).amount is None,
    ensures
        push_event_step(s, ev).errors == s.errors,
        forall|c: ClientId| #[trigger]
            account_of(push_event_step(s, ev), c) == account_of(s, c),
        push_event_step(s, ev).transactions.dom() == s.transactions.dom().insert(ev.tx_of()),
        forall|id: TransactionId|
            id != ev.tx_of() && #[trigger] s.transactions.contains_key(id) ==> push_event_step(
                s,
                ev,
            ).transactions[id] == s.transactions[id],
        push_event_step(s, ev).transactions[ev.tx_of()].amount is None,
{
    let s2 = push_event_step(s, ev);
    assert(s2.transactions.dom() =~= s.transactions.dom().insert(ev.tx_of()));
}

} // verus!

verus! {

/// `after` keeps everything that `before` had settled: each set flag, and a known amount.
pub open spec fn keeps_settled(before: TransactionView, after: TransactionView) -> bool {
    &&& before.disputed ==> after.disputed
    &&& before.resolved ==> after.resolved
    &&& before.chargebacked ==> after.chargebacked
    &&& before.amount is Some ==> after.amount == before.amount
}

/// Nothing that processing an event does is ever undone: a locked account stays locked, a
/// transaction's dispute flags stay set, and a known amount is never replaced.
pub proof fn lemma_history_is_monotonic(s: ShardView, ev: Event)
    ensures
        forall|c: ClientId| #[trigger]
            account_of(s, c).locked ==> account_of(push_event_step(s, ev), c).locked,
        forall|id: TransactionId|
            keeps_settled(transaction_of(s, id), #[trigger] transaction_of(push_event_step(s, ev), id)),
{
}

} // verus!
