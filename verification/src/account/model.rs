//! The account as a state machine over mathematical values: what each
//! operation does to the ledger and the balance, and which states are well
//! formed.

use super::balance::{
    lemma_chargeback, lemma_deposit, lemma_dispute, lemma_resolve, lemma_withdraw, BalanceView,
};
use super::transactions::{AccTransState, EntryView, MoneyView};
use crate::amount::NegativeAmountErr;
use crate::csv::{RawTransaction, RawTrasactionType};
use crate::decimal::{lemma_units_sign, DecimalView};
use crate::errors::{AccountErr, BalanceErr};
use crate::{ClientID, TransID};
use vstd::prelude::*;

verus! {

/// The number of transaction ids.
pub const ID_COUNT: u64 = 0x1_0000_0000;

/// The three funds of a balance.
pub enum Fund {
    Available,
    Held,
    HeldWithdraw,
}

/// What one ledger entry contributes to a fund, in units of `10^-28`.
///
/// A deposit counts towards the available funds while it is `Init` or
/// `Resolved` and towards the held funds while it is disputed. A withdrawal
/// counts against the available funds until it is charged back, and towards
/// the withdrawal hold while it is disputed. A failed entry counts nowhere.
pub open spec fn effect(entry: EntryView, fund: Fund) -> int {
    match fund {
        Fund::Available => match entry.money {
            MoneyView::Deposit(a) => if entry.state is Init || entry.state is Resolved {
                a.units()
            } else {
                0
            },
            MoneyView::Withdraw(a) => if entry.state is Init || entry.state is Resolved
                || entry.state is Dispute {
                -a.units()
            } else {
                0
            },
        },
        Fund::Held => match entry.money {
            MoneyView::Deposit(a) => if entry.state is Dispute {
                a.units()
            } else {
                0
            },
            MoneyView::Withdraw(_) => 0,
        },
        Fund::HeldWithdraw => match entry.money {
            MoneyView::Deposit(_) => 0,
            MoneyView::Withdraw(a) => if entry.state is Dispute {
                a.units()
            } else {
                0
            },
        },
    }
}

/// What the entry under `id` contributes to a fund, if there is one.
pub open spec fn effect_at(ledger: Map<TransID, EntryView>, id: TransID, fund: Fund) -> int {
    if ledger.contains_key(id) {
        effect(ledger[id], fund)
    } else {
        0
    }
}

/// The contributions to a fund of the entries with an id below `n`.
pub open spec fn tally_below(ledger: Map<TransID, EntryView>, fund: Fund, n: nat) -> int
    decreases n,
{
    if n == 0 {
        0
    } else {
        tally_below(ledger, fund, (n - 1) as nat) + effect_at(ledger, (n - 1) as TransID, fund)
    }
}

/// The contributions to a fund of all entries of a ledger.
pub open spec fn tally(ledger: Map<TransID, EntryView>, fund: Fund) -> int {
    tally_below(ledger, fund, ID_COUNT as nat)
}

/// Replacing or adding one entry changes a tally by the difference of the
/// two contributions.
pub proof fn lemma_tally_insert(
    ledger: Map<TransID, EntryView>,
    id: TransID,
    entry: EntryView,
    fund: Fund,
    n: nat,
)
    requires
        n <= ID_COUNT,
    ensures
        tally_below(ledger.insert(id, entry), fund, n) == tally_below(ledger, fund, n) + if id < n {
            effect(entry, fund) - effect_at(ledger, id, fund)
        } else {
            0
        },
    decreases n,
{
    if n > 0 {
        lemma_tally_insert(ledger, id, entry, fund, (n - 1) as nat);
    }
}

/// Where every amount on the ledger is well formed, a hold's tally is not
/// negative and covers the contribution of each single entry.
pub proof fn lemma_tally_covers(ledger: Map<TransID, EntryView>, id: TransID, fund: Fund, n: nat)
    requires
        n <= ID_COUNT,
        !(fund is Available),
        forall|i: TransID| ledger.contains_key(i) ==> (#[trigger] ledger[i]).money.wf(),
    ensures
        tally_below(ledger, fund, n) >= 0,
        id < n ==> tally_below(ledger, fund, n) >= effect_at(ledger, id, fund),
    decreases n,
{
    if n > 0 {
        lemma_tally_covers(ledger, id, fund, (n - 1) as nat);
        let last = (n - 1) as TransID;
        if ledger.contains_key(last) {
            lemma_units_sign(ledger[last].money.amount());
        }
    }
}

/// The mathematical content of a client account.
pub struct AccountView {
    pub client_id: ClientID,
    pub ledger: Map<TransID, EntryView>,
    pub balance: BalanceView,
    pub locked: bool,
}

impl AccountView {
    /// The empty, unlocked account of a client.
    pub open spec fn new(client_id: ClientID) -> AccountView {
        AccountView {
            client_id,
            ledger: Map::empty(),
            balance: BalanceView::zero(),
            locked: false,
        }
    }

    /// The balance is what the ledger adds up to, fund by fund; every amount
    /// on the ledger is well formed; and so is the balance, so that neither
    /// hold is negative.
    pub open spec fn wf(self) -> bool {
        &&& self.balance.wf()
        &&& forall|id: TransID|
            self.ledger.contains_key(id) ==> (#[trigger] self.ledger[id]).money.wf()
        &&& self.balance.available.units() == tally(self.ledger, Fund::Available)
        &&& self.balance.held.units() == tally(self.ledger, Fund::Held)
        &&& self.balance.held_withdraw.units() == tally(self.ledger, Fund::HeldWithdraw)
    }

    /// The ledger with one more entry.
    pub open spec fn recorded(self, id: TransID, money: MoneyView, state: AccTransState) -> Map<
        TransID,
        EntryView,
    > {
        self.ledger.insert(id, EntryView { money, state })
    }

    /// What a deposit returns: a locked account refuses it.
    pub open spec fn deposit_result(self) -> Result<(), AccountErr> {
        if self.locked {
            Err(AccountErr::Frozen)
        } else {
            Ok(())
        }
    }

    /// The account after a deposit under a fresh id: the amount is added and
    /// the entry recorded as `Init`, or, where the deposit is refused, the
    /// entry is recorded as `Failed` and the balance left alone.
    pub open spec fn record_deposit(self, id: TransID, amount: DecimalView) -> AccountView {
        if self.deposit_result() is Ok {
            AccountView {
                ledger: self.recorded(id, MoneyView::Deposit(amount), AccTransState::Init),
                balance: self.balance.deposit(amount),
                ..self
            }
        } else {
            AccountView {
                ledger: self.recorded(id, MoneyView::Deposit(amount), AccTransState::Failed),
                ..self
            }
        }
    }

    /// A deposit can be carried out: the id is fresh, and the sum can be held
    /// where the deposit will take effect.
    pub open spec fn admits_deposit(self, id: TransID, amount: DecimalView) -> bool {
        &&& !self.ledger.contains_key(id)
        &&& MoneyView::Deposit(amount).wf()
        &&& self.deposit_result() is Ok ==> self.balance.can_deposit(amount)
    }

    /// What a withdrawal returns: a locked account refuses it, and so does
    /// one whose available funds do not cover the amount.
    pub open spec fn withdraw_result(self, amount: DecimalView) -> Result<(), AccountErr> {
        if self.locked {
            Err(AccountErr::Frozen)
        } else if !self.balance.covers(amount) {
            Err(AccountErr::AccMoney(BalanceErr::NotEnoughAvailableFounds))
        } else {
            Ok(())
        }
    }

    /// The account after a withdrawal under a fresh id: the amount is taken
    /// and the entry recorded as `Init`, or, where the withdrawal is refused,
    /// the entry is recorded as `Failed` and the balance left alone.
    pub open spec fn record_withdraw(self, id: TransID, amount: DecimalView) -> AccountView {
        if self.withdraw_result(amount) is Ok {
            AccountView {
                ledger: self.recorded(id, MoneyView::Withdraw(amount), AccTransState::Init),
                balance: self.balance.withdraw(amount),
                ..self
            }
        } else {
            AccountView {
                ledger: self.recorded(id, MoneyView::Withdraw(amount), AccTransState::Failed),
                ..self
            }
        }
    }

    /// A withdrawal can be carried out: the id is fresh, and the difference
    /// can be held where the withdrawal will take effect.
    pub open spec fn admits_withdraw(self, id: TransID, amount: DecimalView) -> bool {
        &&& !self.ledger.contains_key(id)
        &&& MoneyView::Withdraw(amount).wf()
        &&& self.withdraw_result(amount) is Ok ==> self.balance.can_withdraw(amount)
    }

    /// What opening a dispute on entry `id` returns.
    pub open spec fn dispute_result(self, id: TransID) -> Result<(), AccountErr> {
        if !self.ledger.contains_key(id) {
            Err(AccountErr::NoRefTransID)
        } else if !self.ledger[id].state.disputable() {
            Err(AccountErr::AccTrans(self.ledger[id].state.refusal()))
        } else {
            Ok(())
        }
    }

    /// The account after a dispute on entry `id` was asked for: where it is
    /// refused nothing changes.
    pub open spec fn dispute(self, id: TransID) -> AccountView {
        if self.dispute_result(id) is Ok {
            AccountView {
                ledger: self.ledger.insert(id, self.ledger[id].marked(AccTransState::Dispute)),
                balance: self.balance.dispute(self.ledger[id].money),
                ..self
            }
        } else {
            self
        }
    }

    /// A dispute on entry `id` can be carried out: where it will go through,
    /// the balance can take it.
    pub open spec fn admits_dispute(self, id: TransID) -> bool {
        self.dispute_result(id) is Ok ==> self.balance.can_dispute(self.ledger[id].money)
    }

    /// What closing the dispute on entry `id`, by resolving it or by charging
    /// back, returns. Whether the account is locked plays no part.
    pub open spec fn close_result(self, id: TransID) -> Result<(), AccountErr> {
        if !self.ledger.contains_key(id) {
            Err(AccountErr::NoRefTransID)
        } else if !self.ledger[id].state.disputed() {
            Err(AccountErr::AccTrans(self.ledger[id].state.refusal()))
        } else {
            Ok(())
        }
    }

    /// The account after a resolve on entry `id` was asked for: where it is
    /// refused nothing changes.
    pub open spec fn resolve(self, id: TransID) -> AccountView {
        if self.close_result(id) is Ok {
            AccountView {
                ledger: self.ledger.insert(id, self.ledger[id].marked(AccTransState::Resolved)),
                balance: self.balance.resolve(self.ledger[id].money),
                ..self
            }
        } else {
            self
        }
    }

    /// A resolve on entry `id` can be carried out: where it will go through,
    /// the balance can take it.
    pub open spec fn admits_resolve(self, id: TransID) -> bool {
        self.close_result(id) is Ok ==> self.balance.can_resolve(self.ledger[id].money)
    }

    /// The account after a chargeback on entry `id` was asked for: where it
    /// goes through the account is locked for good; where it is refused
    /// nothing changes.
    pub open spec fn chargeback(self, id: TransID) -> AccountView {
        if self.close_result(id) is Ok {
            AccountView {
                ledger: self.ledger.insert(
                    id,
                    self.ledger[id].marked(AccTransState::Chargebacked),
                ),
                balance: self.balance.chargeback(self.ledger[id].money),
                locked: true,
                ..self
            }
        } else {
            self
        }
    }

    /// A chargeback on entry `id` can be carried out: where it will go
    /// through, the balance can take it.
    pub open spec fn admits_chargeback(self, id: TransID) -> bool {
        self.close_result(id) is Ok ==> self.balance.can_chargeback(self.ledger[id].money)
    }

    /// What applying a raw transaction returns. A negative amount is refused
    /// before anything else is looked at.
    pub open spec fn apply_result(self, raw: RawTransaction) -> Result<(), AccountErr> {
        match raw.kind {
            RawTrasactionType::Deposit => if raw.amount.unwrap()@.mantissa < 0 {
                Err(AccountErr::Amount(NegativeAmountErr))
            } else {
                self.deposit_result()
            },
            RawTrasactionType::Withdrawal => if raw.amount.unwrap()@.mantissa < 0 {
                Err(AccountErr::Amount(NegativeAmountErr))
            } else {
                self.withdraw_result(raw.amount.unwrap()@)
            },
            RawTrasactionType::Dispute => self.dispute_result(raw.transaction_id),
            RawTrasactionType::Resolve => self.close_result(raw.transaction_id),
            RawTrasactionType::Chargeback => self.close_result(raw.transaction_id),
        }
    }

    /// The account after a raw transaction was applied. A deposit or a
    /// withdrawal of a negative amount leaves no trace.
    pub open spec fn apply(self, raw: RawTransaction) -> AccountView {
        match raw.kind {
            RawTrasactionType::Deposit => if raw.amount.unwrap()@.mantissa < 0 {
                self
            } else {
                self.record_deposit(raw.transaction_id, raw.amount.unwrap()@)
            },
            RawTrasactionType::Withdrawal => if raw.amount.unwrap()@.mantissa < 0 {
                self
            } else {
                self.record_withdraw(raw.transaction_id, raw.amount.unwrap()@)
            },
            RawTrasactionType::Dispute => self.dispute(raw.transaction_id),
            RawTrasactionType::Resolve => self.resolve(raw.transaction_id),
            RawTrasactionType::Chargeback => self.chargeback(raw.transaction_id),
        }
    }

    /// A raw transaction can be carried out on this account: a deposit or a
    /// withdrawal carries an amount and, unless the amount is negative, a
    /// fresh id; and every sum and difference that the transaction asks for
    /// can be held.
    pub open spec fn admits(self, raw: RawTransaction) -> bool {
        match raw.kind {
            RawTrasactionType::Deposit => {
                &&& raw.amount is Some
                &&& raw.amount.unwrap()@.wf()
                &&& raw.amount.unwrap()@.mantissa >= 0 ==> self.admits_deposit(
                    raw.transaction_id,
                    raw.amount.unwrap()@,
                )
            },
            RawTrasactionType::Withdrawal => {
                &&& raw.amount is Some
                &&& raw.amount.unwrap()@.wf()
                &&& raw.amount.unwrap()@.mantissa >= 0 ==> self.admits_withdraw(
                    raw.transaction_id,
                    raw.amount.unwrap()@,
                )
            },
            RawTrasactionType::Dispute => self.admits_dispute(raw.transaction_id),
            RawTrasactionType::Resolve => self.admits_resolve(raw.transaction_id),
            RawTrasactionType::Chargeback => self.admits_chargeback(raw.transaction_id),
        }
    }

    /// The account after a sequence of raw transactions was applied in
    /// order, whatever each of them returned.
    pub open spec fn replay(self, raws: Seq<RawTransaction>) -> AccountView
        decreases raws.len(),
    {
        if raws.len() == 0 {
            self
        } else {
            self.replay(raws.drop_last()).apply(raws.last())
        }
    }

    /// What each transaction of the sequence returns as the sequence is
    /// replayed.
    pub open spec fn outcomes(self, raws: Seq<RawTransaction>) -> Seq<Result<(), AccountErr>> {
        Seq::new(raws.len(), |k: int| self.replay(raws.take(k)).apply_result(raws[k]))
    }

    /// Each transaction of the sequence can be carried out on the account as
    /// the ones before it leave it.
    pub open spec fn admits_all(self, raws: Seq<RawTransaction>) -> bool
        decreases raws.len(),
    {
        if raws.len() == 0 {
            true
        } else {
            self.admits_all(raws.drop_last()) && self.replay(raws.drop_last()).admits(raws.last())
        }
    }

    /// The new account is well formed.
    pub proof fn lemma_new_wf(client_id: ClientID)
        ensures
            AccountView::new(client_id).wf(),
    {
        let ledger = Map::<TransID, EntryView>::empty();
        lemma_tally_empty(Fund::Available, ID_COUNT as nat);
        lemma_tally_empty(Fund::Held, ID_COUNT as nat);
        lemma_tally_empty(Fund::HeldWithdraw, ID_COUNT as nat);
        lemma_units_sign(DecimalView::zero());
    }

    /// A deposit that is admitted keeps the account well formed.
    pub proof fn lemma_record_deposit_wf(self, id: TransID, amount: DecimalView)
        requires
            self.wf(),
            self.admits_deposit(id, amount),
        ensures
            self.record_deposit(id, amount).wf(),
    {
        let state = if self.deposit_result() is Ok {
            AccTransState::Init
        } else {
            AccTransState::Failed
        };
        let entry = EntryView { money: MoneyView::Deposit(amount), state };
        if self.deposit_result() is Ok {
            lemma_deposit(self.balance, amount);
        }
        self.lemma_insert_tallies(id, entry);
    }

    /// A withdrawal that is admitted keeps the account well formed.
    pub proof fn lemma_record_withdraw_wf(self, id: TransID, amount: DecimalView)
        requires
            self.wf(),
            self.admits_withdraw(id, amount),
        ensures
            self.record_withdraw(id, amount).wf(),
    {
        let state = if self.withdraw_result(amount) is Ok {
            AccTransState::Init
        } else {
            AccTransState::Failed
        };
        let entry = EntryView { money: MoneyView::Withdraw(amount), state };
        if self.withdraw_result(amount) is Ok {
            lemma_withdraw(self.balance, amount);
        }
        self.lemma_insert_tallies(id, entry);
    }

    /// A dispute that is admitted keeps the account well formed.
    pub proof fn lemma_dispute_wf(self, id: TransID)
        requires
            self.wf(),
            self.admits_dispute(id),
        ensures
            self.dispute(id).wf(),
    {
        if self.dispute_result(id) is Ok {
            lemma_dispute(self.balance, self.ledger[id].money);
            self.lemma_insert_tallies(id, self.ledger[id].marked(AccTransState::Dispute));
        }
    }

    /// A resolve that is admitted keeps the account well formed.
    pub proof fn lemma_resolve_wf(self, id: TransID)
        requires
            self.wf(),
            self.admits_resolve(id),
        ensures
            self.resolve(id).wf(),
    {
        if self.close_result(id) is Ok {
            lemma_resolve(self.balance, self.ledger[id].money);
            self.lemma_insert_tallies(id, self.ledger[id].marked(AccTransState::Resolved));
        }
    }

    /// A chargeback that is admitted keeps the account well formed.
    pub proof fn lemma_chargeback_wf(self, id: TransID)
        requires
            self.wf(),
            self.admits_chargeback(id),
        ensures
            self.chargeback(id).wf(),
    {
        if self.close_result(id) is Ok {
            lemma_chargeback(self.balance, self.ledger[id].money);
            self.lemma_insert_tallies(id, self.ledger[id].marked(AccTransState::Chargebacked));
        }
    }

    /// A raw transaction that is admitted keeps the account well formed.
    pub proof fn lemma_apply_wf(self, raw: RawTransaction)
        requires
            self.wf(),
            self.admits(raw),
        ensures
            self.apply(raw).wf(),
    {
        match raw.kind {
            RawTrasactionType::Deposit => if raw.amount.unwrap()@.mantissa >= 0 {
                self.lemma_record_deposit_wf(raw.transaction_id, raw.amount.unwrap()@);
            },
            RawTrasactionType::Withdrawal => if raw.amount.unwrap()@.mantissa >= 0 {
                self.lemma_record_withdraw_wf(raw.transaction_id, raw.amount.unwrap()@);
            },
            RawTrasactionType::Dispute => self.lemma_dispute_wf(raw.transaction_id),
            RawTrasactionType::Resolve => self.lemma_resolve_wf(raw.transaction_id),
            RawTrasactionType::Chargeback => self.lemma_chargeback_wf(raw.transaction_id),
        }
    }

    /// A sequence of raw transactions, each admitted in its turn, keeps the
    /// account well formed.
    pub proof fn lemma_replay_wf(self, raws: Seq<RawTransaction>)
        requires
            self.wf(),
            self.admits_all(raws),
        ensures
            self.replay(raws).wf(),
        decreases raws.len(),
    {
        if raws.len() > 0 {
            self.lemma_replay_wf(raws.drop_last());
            self.replay(raws.drop_last()).lemma_apply_wf(raws.last());
        }
    }

    /// No transaction changes whose account it is.
    pub proof fn lemma_apply_keeps_client(self, raw: RawTransaction)
        ensures
            self.apply(raw).client_id == self.client_id,
    {
    }

    /// A replay leaves the account with the client it had.
    pub proof fn lemma_replay_keeps_client(self, raws: Seq<RawTransaction>)
        ensures
            self.replay(raws).client_id == self.client_id,
        decreases raws.len(),
    {
        if raws.len() > 0 {
            self.lemma_replay_keeps_client(raws.drop_last());
            self.replay(raws.drop_last()).lemma_apply_keeps_client(raws.last());
        }
    }

    /// The three tallies of the ledger after one entry was put in.
    proof fn lemma_insert_tallies(self, id: TransID, entry: EntryView)
        ensures
            tally(self.ledger.insert(id, entry), Fund::Available) == tally(
                self.ledger,
                Fund::Available,
            ) + effect(entry, Fund::Available) - effect_at(self.ledger, id, Fund::Available),
            tally(self.ledger.insert(id, entry), Fund::Held) == tally(self.ledger, Fund::Held)
                + effect(entry, Fund::Held) - effect_at(self.ledger, id, Fund::Held),
            tally(self.ledger.insert(id, entry), Fund::HeldWithdraw) == tally(
                self.ledger,
                Fund::HeldWithdraw,
            ) + effect(entry, Fund::HeldWithdraw) - effect_at(
                self.ledger,
                id,
                Fund::HeldWithdraw,
            ),
    {
        lemma_tally_insert(self.ledger, id, entry, Fund::Available, ID_COUNT as nat);
        lemma_tally_insert(self.ledger, id, entry, Fund::Held, ID_COUNT as nat);
        lemma_tally_insert(self.ledger, id, entry, Fund::HeldWithdraw, ID_COUNT as nat);
    }
}

/// Where a whole sequence is admitted, so is each of its prefixes.
pub proof fn lemma_admits_all_prefix(acc: AccountView, raws: Seq<RawTransaction>, n: int)
    requires
        0 <= n <= raws.len(),
        acc.admits_all(raws),
    ensures
        acc.admits_all(raws.take(n)),
    decreases raws.len(),
{
    if n == raws.len() {
        assert(raws.take(n) =~= raws);
    } else {
        lemma_admits_all_prefix(acc, raws.drop_last(), n);
        assert(raws.drop_last().take(n) =~= raws.take(n));
    }
}

/// An empty ledger adds up to nothing.
pub proof fn lemma_tally_empty(fund: Fund, n: nat)
    ensures
        tally_below(Map::<TransID, EntryView>::empty(), fund, n) == 0,
    decreases n,
{
    if n > 0 {
        lemma_tally_empty(fund, (n - 1) as nat);
    }
}

} // verus!
