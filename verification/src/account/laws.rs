//! What holds of every account, stated over the account's mathematical
//! content and proved from the state machine.

use super::model::{
    lemma_admits_all_prefix, lemma_tally_covers, tally, AccountView, Fund, ID_COUNT,
};
use crate::csv::RawTransaction;
use crate::decimal::{lemma_units_sign, DecimalView};
use crate::errors::{AccountErr, BalanceErr, TransUpdateErr};
use crate::{ClientID, TransID};
use vstd::prelude::*;

verus! {

/// A deposit or a withdrawal that carries a well-formed amount which is not
/// negative.
pub open spec fn is_payment(raw: RawTransaction) -> bool {
    &&& raw.kind is Deposit || raw.kind is Withdrawal
    &&& raw.amount is Some
    &&& raw.amount.unwrap()@.wf()
    &&& raw.amount.unwrap()@.mantissa >= 0
}

/// The sum of the deposits among `raws`, in units of `10^-28`.
pub open spec fn deposited(raws: Seq<RawTransaction>) -> int
    decreases raws.len(),
{
    if raws.len() == 0 {
        0
    } else if raws.last().kind is Deposit {
        deposited(raws.drop_last()) + raws.last().amount.unwrap()@.units()
    } else {
        deposited(raws.drop_last())
    }
}

/// The sum of the withdrawals among `raws` that succeed when `raws` is
/// replayed on `acc`, in units of `10^-28`.
pub open spec fn withdrawn(acc: AccountView, raws: Seq<RawTransaction>) -> int
    decreases raws.len(),
{
    if raws.len() == 0 {
        0
    } else if raws.last().kind is Withdrawal && acc.replay(raws.drop_last()).apply_result(
        raws.last(),
    ) is Ok {
        withdrawn(acc, raws.drop_last()) + raws.last().amount.unwrap()@.units()
    } else {
        withdrawn(acc, raws.drop_last())
    }
}

/// Deposits and withdrawals replayed on an unlocked account leave it
/// unlocked, and change its total by the deposits less the withdrawals that
/// succeeded.
pub proof fn lemma_payments_total(acc: AccountView, raws: Seq<RawTransaction>)
    requires
        acc.wf(),
        !acc.locked,
        acc.admits_all(raws),
        forall|i: int| 0 <= i < raws.len() ==> is_payment(#[trigger] raws[i]),
    ensures
        acc.replay(raws).wf(),
        !acc.replay(raws).locked,
        acc.replay(raws).balance.total_units() == acc.balance.total_units() + deposited(raws)
            - withdrawn(acc, raws),
    decreases raws.len(),
{
    if raws.len() > 0 {
        let front = raws.drop_last();
        let last = raws.last();
        assert forall|i: int| 0 <= i < front.len() implies is_payment(#[trigger] front[i]) by {
            assert(front[i] == raws[i]);
        }
        lemma_payments_total(acc, front);
        let before = acc.replay(front);
        before.lemma_apply_wf(last);
        assert(is_payment(raws[raws.len() - 1]));
        let amount = last.amount.unwrap()@;
        if last.kind is Deposit {
            super::balance::lemma_deposit(before.balance, amount);
        } else if before.withdraw_result(amount) is Ok {
            super::balance::lemma_withdraw(before.balance, amount);
        }
    }
}

/// On a fresh account, after any number of deposits and withdrawals, the
/// total is the sum of the deposits less the sum of the withdrawals that
/// succeeded; and so it is after each of them, that is after the first `n`
/// for every `n`.
pub proof fn law_total_is_deposits_less_withdrawals(
    client_id: ClientID,
    raws: Seq<RawTransaction>,
    n: int,
)
    requires
        0 <= n <= raws.len(),
        AccountView::new(client_id).admits_all(raws),
        forall|i: int| 0 <= i < raws.len() ==> is_payment(#[trigger] raws[i]),
    ensures
        AccountView::new(client_id).replay(raws.take(n)).balance.total_units() == deposited(
            raws.take(n),
        ) - withdrawn(AccountView::new(client_id), raws.take(n)),
{
    let acc = AccountView::new(client_id);
    AccountView::lemma_new_wf(client_id);
    lemma_admits_all_prefix(acc, raws, n);
    assert forall|i: int| 0 <= i < raws.take(n).len() implies is_payment(
        #[trigger] raws.take(n)[i],
    ) by {
        assert(raws.take(n)[i] == raws[i]);
    }
    lemma_payments_total(acc, raws.take(n));
    lemma_units_sign(DecimalView::zero());
}

/// A deposit of an amount that is not negative, under a fresh id, on an
/// account that is not locked: it returns `Ok`, raises the available funds
/// and the total by the amount, and leaves the held funds alone.
pub proof fn law_deposit_raises_total(acc: AccountView, id: TransID, amount: DecimalView)
    requires
        acc.wf(),
        !acc.locked,
        acc.admits_deposit(id, amount),
    ensures
        acc.deposit_result() is Ok,
        acc.record_deposit(id, amount).balance.available.units() == acc.balance.available.units()
            + amount.units(),
        acc.record_deposit(id, amount).balance.held_units() == acc.balance.held_units(),
        acc.record_deposit(id, amount).balance.total_units() == acc.balance.total_units()
            + amount.units(),
        acc.record_deposit(id, amount).ledger[id].state is Init,
{
    super::balance::lemma_deposit(acc.balance, amount);
}

/// A withdrawal of an amount that is not negative, under a fresh id, on an
/// account that is not locked: it succeeds exactly when the available funds
/// cover the amount, and then lowers the available funds and the total by
/// it; else it is refused for want of funds and the balance stays as it was.
/// Either way the held funds are left alone.
pub proof fn law_withdraw_lowers_total(acc: AccountView, id: TransID, amount: DecimalView)
    requires
        acc.wf(),
        !acc.locked,
        acc.admits_withdraw(id, amount),
    ensures
        acc.withdraw_result(amount) is Ok <==> acc.balance.available.units() >= amount.units(),
        acc.withdraw_result(amount) is Ok ==> {
            &&& acc.record_withdraw(id, amount).balance.available.units()
                == acc.balance.available.units() - amount.units()
            &&& acc.record_withdraw(id, amount).balance.total_units() == acc.balance.total_units()
                - amount.units()
            &&& acc.record_withdraw(id, amount).ledger[id].state is Init
        },
        !(acc.withdraw_result(amount) is Ok) ==> {
            &&& acc.withdraw_result(amount) == Err::<(), _>(
                AccountErr::AccMoney(BalanceErr::NotEnoughAvailableFounds),
            )
            &&& acc.record_withdraw(id, amount).balance == acc.balance
            &&& acc.record_withdraw(id, amount).ledger[id].state is Failed
        },
        acc.record_withdraw(id, amount).balance.held_units() == acc.balance.held_units(),
{
    if acc.withdraw_result(amount) is Ok {
        super::balance::lemma_withdraw(acc.balance, amount);
    }
}

/// In every state that a fresh account can reach, each hold is what the
/// disputed entries of the ledger add up to, the deposits for the one and the
/// withdrawals for the other; so neither hold is negative, nor are the held
/// funds as they are reported.
pub proof fn law_holds_are_never_negative(client_id: ClientID, raws: Seq<RawTransaction>)
    requires
        AccountView::new(client_id).admits_all(raws),
    ensures
        AccountView::new(client_id).replay(raws).balance.held.units() >= 0,
        AccountView::new(client_id).replay(raws).balance.held_withdraw.units() >= 0,
        AccountView::new(client_id).replay(raws).balance.held_units() >= 0,
        AccountView::new(client_id).replay(raws).balance.held.units() == tally(
            AccountView::new(client_id).replay(raws).ledger,
            Fund::Held,
        ),
        AccountView::new(client_id).replay(raws).balance.held_withdraw.units() == tally(
            AccountView::new(client_id).replay(raws).ledger,
            Fund::HeldWithdraw,
        ),
{
    let acc = AccountView::new(client_id);
    AccountView::lemma_new_wf(client_id);
    acc.lemma_replay_wf(raws);
    lemma_units_sign(acc.replay(raws).balance.held);
    lemma_units_sign(acc.replay(raws).balance.held_withdraw);
}

/// In a well-formed account the hold always covers an entry under dispute:
/// closing a dispute cannot drive a hold below zero.
pub proof fn law_hold_covers_disputed_entry(acc: AccountView, id: TransID)
    requires
        acc.wf(),
        acc.close_result(id) is Ok,
    ensures
        acc.ledger[id].money is Deposit ==> acc.balance.held.units()
            >= acc.ledger[id].money.amount().units(),
        acc.ledger[id].money is Withdraw ==> acc.balance.held_withdraw.units()
            >= acc.ledger[id].money.amount().units(),
{
    lemma_tally_covers(acc.ledger, id, Fund::Held, ID_COUNT as nat);
    lemma_tally_covers(acc.ledger, id, Fund::HeldWithdraw, ID_COUNT as nat);
}

/// None of the transactions is a resolve on entry `id`.
pub open spec fn no_resolve_on(raws: Seq<RawTransaction>, id: TransID) -> bool {
    forall|i: int|
        0 <= i < raws.len() ==> !((#[trigger] raws[i]).kind is Resolve && raws[i].transaction_id
            == id)
}

/// None of the transactions is a dispute on entry `id`.
pub open spec fn no_dispute_on(raws: Seq<RawTransaction>, id: TransID) -> bool {
    forall|i: int|
        0 <= i < raws.len() ==> !((#[trigger] raws[i]).kind is Dispute && raws[i].transaction_id
            == id)
}

/// Once a dispute on an entry went through, a second dispute on it is
/// refused with `IncorectState`, whatever was applied in between, as long as
/// the entry was not resolved.
pub proof fn law_second_dispute_is_refused(acc: AccountView, id: TransID, raws: Seq<RawTransaction>)
    requires
        acc.dispute_result(id) is Ok,
        acc.dispute(id).admits_all(raws),
        no_resolve_on(raws, id),
    ensures
        acc.dispute(id).replay(raws).dispute_result(id) == Err::<(), _>(
            AccountErr::AccTrans(TransUpdateErr::IncorectState),
        ),
{
    lemma_stays_disputed(acc.dispute(id), id, raws);
}

/// An entry that is disputed or charged back stays so while it is not
/// resolved.
proof fn lemma_stays_disputed(acc: AccountView, id: TransID, raws: Seq<RawTransaction>)
    requires
        acc.ledger.contains_key(id),
        acc.ledger[id].state is Dispute || acc.ledger[id].state is Chargebacked,
        acc.admits_all(raws),
        no_resolve_on(raws, id),
    ensures
        acc.replay(raws).ledger.contains_key(id),
        acc.replay(raws).ledger[id].state is Dispute || acc.replay(raws).ledger[id].state
            is Chargebacked,
    decreases raws.len(),
{
    if raws.len() > 0 {
        let front = raws.drop_last();
        assert forall|i: int| 0 <= i < front.len() implies !((#[trigger] front[i]).kind is Resolve
            && front[i].transaction_id == id) by {
            assert(front[i] == raws[i]);
        }
        lemma_stays_disputed(acc, id, front);
        assert(raws.last() == raws[raws.len() - 1]);
    }
}

/// On an account replayed from fresh without a dispute on entry `id`, a
/// chargeback on `id` is refused, and so is a resolve: with `IncorectState`
/// where the entry was recorded with success, with `Failed` where it was
/// recorded as failed, and with `NoRefTransID` where there is no such entry.
pub proof fn law_chargeback_needs_dispute(
    client_id: ClientID,
    raws: Seq<RawTransaction>,
    id: TransID,
)
    requires
        AccountView::new(client_id).admits_all(raws),
        no_dispute_on(raws, id),
    ensures
        ({
            let acc = AccountView::new(client_id).replay(raws);
            acc.close_result(id) == Err::<(), _>(
                if !acc.ledger.contains_key(id) {
                    AccountErr::NoRefTransID
                } else if acc.ledger[id].state is Failed {
                    AccountErr::AccTrans(TransUpdateErr::Failed)
                } else {
                    AccountErr::AccTrans(TransUpdateErr::IncorectState)
                },
            )
        }),
{
    lemma_never_disputed(AccountView::new(client_id), id, raws);
}

/// An entry that no dispute was asked for is `Init` or `Failed`.
proof fn lemma_never_disputed(acc: AccountView, id: TransID, raws: Seq<RawTransaction>)
    requires
        acc.ledger.contains_key(id) ==> acc.ledger[id].state is Init || acc.ledger[id].state
            is Failed,
        no_dispute_on(raws, id),
    ensures
        acc.replay(raws).ledger.contains_key(id) ==> acc.replay(raws).ledger[id].state is Init
            || acc.replay(raws).ledger[id].state is Failed,
    decreases raws.len(),
{
    if raws.len() > 0 {
        let front = raws.drop_last();
        assert forall|i: int| 0 <= i < front.len() implies !((#[trigger] front[i]).kind is Dispute
            && front[i].transaction_id == id) by {
            assert(front[i] == raws[i]);
        }
        lemma_never_disputed(acc, id, front);
        assert(raws.last() == raws[raws.len() - 1]);
    }
}

/// A chargeback that goes through locks the account for good: whatever is
/// applied afterwards, the account stays locked, and every deposit and every
/// withdrawal is refused with `Frozen`.
pub proof fn law_chargeback_freezes_for_good(
    acc: AccountView,
    id: TransID,
    raws: Seq<RawTransaction>,
    amount: DecimalView,
)
    requires
        acc.close_result(id) is Ok,
    ensures
        acc.chargeback(id).replay(raws).locked,
        acc.chargeback(id).replay(raws).deposit_result() == Err::<(), _>(AccountErr::Frozen),
        acc.chargeback(id).replay(raws).withdraw_result(amount) == Err::<(), _>(
            AccountErr::Frozen,
        ),
{
    lemma_stays_locked(acc.chargeback(id), raws);
}

/// A locked account stays locked.
proof fn lemma_stays_locked(acc: AccountView, raws: Seq<RawTransaction>)
    requires
        acc.locked,
    ensures
        acc.replay(raws).locked,
    decreases raws.len(),
{
    if raws.len() > 0 {
        lemma_stays_locked(acc, raws.drop_last());
    }
}

/// The lock plays no part in disputes: on a locked account a dispute, a
/// resolve and a chargeback return what they would return if it were not
/// locked. So after a chargeback on one entry, another entry that is under
/// dispute can still be resolved or charged back.
pub proof fn law_lock_leaves_disputes_open(acc: AccountView, id: TransID, other: TransID)
    requires
        acc.close_result(id) is Ok,
        other != id,
    ensures
        acc.chargeback(id).locked,
        acc.chargeback(id).dispute_result(other) == acc.dispute_result(other),
        acc.chargeback(id).close_result(other) == acc.close_result(other),
        acc.close_result(other) is Ok ==> acc.chargeback(id).resolve(other).ledger[other].state
            is Resolved,
        acc.close_result(other) is Ok ==> acc.chargeback(id).chargeback(other).ledger[other].state
            is Chargebacked,
{
}

/// Dispute, resolve, dispute again and chargeback on one deposit: the
/// available funds end as they were before the first dispute less the
/// amount, the holds end as they were, the entry is charged back and the
/// account locked.
pub proof fn law_dispute_resolve_dispute_chargeback(acc: AccountView, id: TransID)
    requires
        acc.wf(),
        acc.dispute_result(id) is Ok,
        acc.ledger[id].money is Deposit,
        acc.admits_dispute(id),
        acc.dispute(id).admits_resolve(id),
        acc.dispute(id).resolve(id).admits_dispute(id),
        acc.dispute(id).resolve(id).dispute(id).admits_chargeback(id),
    ensures
        ({
            let end = acc.dispute(id).resolve(id).dispute(id).chargeback(id);
            let amount = acc.ledger[id].money.amount();
            &&& end.balance.available.units() == acc.balance.available.units() - amount.units()
            &&& end.balance.held.units() == acc.balance.held.units()
            &&& end.balance.held_withdraw.units() == acc.balance.held_withdraw.units()
            &&& end.balance.held_units() == acc.balance.held_units()
            &&& end.balance.total_units() == acc.balance.total_units() - amount.units()
            &&& end.ledger[id].state is Chargebacked
            &&& end.locked
            &&& end.wf()
        }),
{
    let money = acc.ledger[id].money;
    let a1 = acc.dispute(id);
    acc.lemma_dispute_wf(id);
    super::balance::lemma_dispute(acc.balance, money);
    let a2 = a1.resolve(id);
    a1.lemma_resolve_wf(id);
    super::balance::lemma_resolve(a1.balance, money);
    let a3 = a2.dispute(id);
    a2.lemma_dispute_wf(id);
    super::balance::lemma_dispute(a2.balance, money);
    a3.lemma_chargeback_wf(id);
    super::balance::lemma_chargeback(a3.balance, money);
}

/// A dispute followed by a resolve on the same entry, a deposit or a
/// withdrawal, gives back the balance as it was, fund by fund, and leaves the
/// entry `Resolved`.
pub proof fn law_dispute_then_resolve_restores(acc: AccountView, id: TransID)
    requires
        acc.wf(),
        acc.dispute_result(id) is Ok,
        acc.admits_dispute(id),
        acc.dispute(id).admits_resolve(id),
    ensures
        ({
            let end = acc.dispute(id).resolve(id);
            &&& end.balance.available.units() == acc.balance.available.units()
            &&& end.balance.held.units() == acc.balance.held.units()
            &&& end.balance.held_withdraw.units() == acc.balance.held_withdraw.units()
            &&& end.balance.held_units() == acc.balance.held_units()
            &&& end.balance.total_units() == acc.balance.total_units()
            &&& end.ledger[id].state is Resolved
            &&& end.locked == acc.locked
            &&& end.wf()
        }),
{
    let money = acc.ledger[id].money;
    acc.lemma_dispute_wf(id);
    acc.dispute(id).lemma_resolve_wf(id);
    super::balance::lemma_dispute(acc.balance, money);
    super::balance::lemma_resolve(acc.dispute(id).balance, money);
}

} // verus!
