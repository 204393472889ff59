//! The client account: one balance and the ledger of every transaction id
//! seen, changed only by replaying the client's transactions in order.

use super::balance::{Balance, BalanceView};
use super::model::{lemma_admits_all_prefix, AccountView};
use super::transactions::{AccTrans, AccTransState, EntryView, MoneyTrans, MoneyView};
use super::Account;
use crate::amount::Amount;
use crate::csv::{RawTransaction, RawTrasactionType};
use crate::decimal::{
    lemma_pow10_positive, pow10, Decimal, DecimalView, MAX_SCALE,
};
use crate::errors::AccountErr;
use crate::{ClientID, TransID};
use std::collections::BTreeMap;
use vstd::prelude::*;

verus! {

/// A client's current balance and transaction history.
#[derive(Debug, Clone)]
pub struct ClientAcc {
    client_id: ClientID,
    trans_history: BTreeMap<TransID, AccTrans>,
    balance: Balance,
    locked: bool,
}

impl View for ClientAcc {
    type V = AccountView;

    closed spec fn view(&self) -> AccountView {
        AccountView {
            client_id: self.client_id,
            ledger: self.trans_history@.map_values(|e: AccTrans| e@),
            balance: self.balance@,
            locked: self.locked,
        }
    }
}

impl ClientAcc {
    /// The empty, unlocked account of `client_id`.
    pub fn new(client_id: ClientID) -> (r: ClientAcc)
        ensures
            r@ == AccountView::new(client_id),
            r@.wf(),
    {
        let r = ClientAcc {
            client_id,
            trans_history: BTreeMap::new(),
            balance: Default::default(),
            locked: false,
        };
        proof {
            assert(r@.ledger =~= Map::<TransID, EntryView>::empty());
            AccountView::lemma_new_wf(client_id);
        }
        r
    }

    /// A sample account of client 1: ten deposits of 100 under the ids 1 to
    /// 10, then five withdrawals of 50 under the ids 11 to 15. It has 750
    /// available and nothing held.
    pub fn new_test_account() -> (a: ClientAcc)
        ensures
            a@.wf(),
            a@.client_id == 1,
            !a@.locked,
            a@.balance == (BalanceView {
                available: DecimalView { mantissa: 750, scale: 0 },
                held: DecimalView::zero(),
                held_withdraw: DecimalView::zero(),
            }),
            forall|id: TransID| a@.ledger.contains_key(id) <==> 1 <= id <= 15,
            forall|id: TransID|
                1 <= id <= 10 ==> #[trigger] a@.ledger[id] == (EntryView {
                    money: MoneyView::Deposit(DecimalView { mantissa: 100, scale: 0 }),
                    state: AccTransState::Init,
                }),
            forall|id: TransID|
                11 <= id <= 15 ==> #[trigger] a@.ledger[id] == (EntryView {
                    money: MoneyView::Withdraw(DecimalView { mantissa: 50, scale: 0 }),
                    state: AccTransState::Init,
                }),
    {
        let mut a = ClientAcc::new(1);
        let mut trans_id: TransID = 1;
        while trans_id < 11
            invariant
                1 <= trans_id <= 11,
                a@.wf(),
                a@.client_id == 1,
                !a@.locked,
                a@.balance == (BalanceView {
                    available: DecimalView { mantissa: 100 * (trans_id - 1), scale: 0 },
                    held: DecimalView::zero(),
                    held_withdraw: DecimalView::zero(),
                }),
                forall|id: TransID| a@.ledger.contains_key(id) <==> 1 <= id < trans_id,
                forall|id: TransID|
                    1 <= id < trans_id ==> #[trigger] a@.ledger[id] == (EntryView {
                        money: MoneyView::Deposit(DecimalView { mantissa: 100, scale: 0 }),
                        state: AccTransState::Init,
                    }),
            decreases 11 - trans_id,
        {
            let amount = Amount::new(100, 0);
            let _ = a.record_deposit(trans_id, amount);
            trans_id = trans_id + 1;
        }
        while trans_id < 16
            invariant
                11 <= trans_id <= 16,
                a@.wf(),
                a@.client_id == 1,
                !a@.locked,
                a@.balance == (BalanceView {
                    available: DecimalView { mantissa: 1000 - 50 * (trans_id - 11), scale: 0 },
                    held: DecimalView::zero(),
                    held_withdraw: DecimalView::zero(),
                }),
                forall|id: TransID| a@.ledger.contains_key(id) <==> 1 <= id < trans_id,
                forall|id: TransID|
                    1 <= id <= 10 ==> #[trigger] a@.ledger[id] == (EntryView {
                        money: MoneyView::Deposit(DecimalView { mantissa: 100, scale: 0 }),
                        state: AccTransState::Init,
                    }),
                forall|id: TransID|
                    11 <= id < trans_id ==> #[trigger] a@.ledger[id] == (EntryView {
                        money: MoneyView::Withdraw(DecimalView { mantissa: 50, scale: 0 }),
                        state: AccTransState::Init,
                    }),
            decreases 16 - trans_id,
        {
            let amount = Amount::new(50, 0);
            proof {
                lemma_pow10_positive(MAX_SCALE as nat);
                assert(a@.balance.available.mantissa * pow10(MAX_SCALE as nat) >= 50 * pow10(
                    MAX_SCALE as nat,
                )) by (nonlinear_arith)
                    requires
                        a@.balance.available.mantissa >= 50,
                        pow10(MAX_SCALE as nat) >= 1,
                ;
            }
            let _ = a.record_withdraw(trans_id, amount);
            trans_id = trans_id + 1;
        }
        a
    }

    /// Applies the next transaction of this client. Transactions must be
    /// applied in the order in which they arrived.
    pub fn try_apply_new_raw_transaction(&mut self, raw_transaction: RawTransaction) -> (r: Result<
        (),
        AccountErr,
    >)
        requires
            old(self)@.wf(),
            old(self)@.admits(raw_transaction),
        ensures
            r == old(self)@.apply_result(raw_transaction),
            final(self)@ == old(self)@.apply(raw_transaction),
            final(self)@.wf(),
            final(self)@.client_id == old(self)@.client_id,
    {
        match raw_transaction.kind {
            RawTrasactionType::Withdrawal => {
                let amount = match Amount::try_from(raw_transaction.amount.unwrap()) {
                    Ok(amount) => amount,
                    Err(e) => return Err(AccountErr::from(e)),
                };
                self.record_withdraw(raw_transaction.transaction_id, amount)
            },
            RawTrasactionType::Deposit => {
                let amount = match Amount::try_from(raw_transaction.amount.unwrap()) {
                    Ok(amount) => amount,
                    Err(e) => return Err(AccountErr::from(e)),
                };
                self.record_deposit(raw_transaction.transaction_id, amount)
            },
            RawTrasactionType::Dispute => self.try_dispute(raw_transaction.transaction_id),
            RawTrasactionType::Resolve => self.try_resolve(raw_transaction.transaction_id),
            RawTrasactionType::Chargeback => self.try_chargeback(raw_transaction.transaction_id),
        }
    }

    /// Applies the transactions in order, up to the first that cannot be
    /// carried out. A transaction that returns an error does not stop the
    /// ones after it. `Ok` holds what each transaction returned; `Err` gives
    /// the place of the one that could not be carried out, and the account is
    /// left as the transactions before it made it.
    pub fn replay(&mut self, raw_transactions: &Vec<RawTransaction>) -> (r: Result<
        Vec<Result<(), AccountErr>>,
        usize,
    >)
        requires
            old(self)@.wf(),
        ensures
            final(self)@.wf(),
            final(self)@.client_id == old(self)@.client_id,
            r is Ok <==> old(self)@.admits_all(raw_transactions@),
            r matches Ok(outcomes) ==> {
                &&& final(self)@ == old(self)@.replay(raw_transactions@)
                &&& outcomes@ == old(self)@.outcomes(raw_transactions@)
            },
            r matches Err(at) ==> {
                &&& at < raw_transactions.len()
                &&& old(self)@.admits_all(raw_transactions@.take(at as int))
                &&& final(self)@ == old(self)@.replay(raw_transactions@.take(at as int))
                &&& !final(self)@.admits(raw_transactions[at as int])
            },
    {
        let mut outcomes: Vec<Result<(), AccountErr>> = Vec::new();
        let mut i: usize = 0;
        while i < raw_transactions.len()
            invariant
                i <= raw_transactions.len(),
                outcomes.len() == i,
                forall|k: int|
                    0 <= k < i ==> #[trigger] outcomes[k] == old(self)@.replay(
                        raw_transactions@.take(k),
                    ).apply_result(raw_transactions[k]),
                self@.wf(),
                self@.client_id == old(self)@.client_id,
                old(self)@.admits_all(raw_transactions@.take(i as int)),
                self@ == old(self)@.replay(raw_transactions@.take(i as int)),
            decreases raw_transactions.len() - i,
        {
            let raw_trans = raw_transactions[i];
            proof {
                let next = raw_transactions@.take(i + 1);
                assert(next.drop_last() =~= raw_transactions@.take(i as int));
                assert(next.last() == raw_trans);
            }
            if !self.admits(&raw_trans) {
                proof {
                    if old(self)@.admits_all(raw_transactions@) {
                        lemma_admits_all_prefix(old(self)@, raw_transactions@, i + 1);
                    }
                }
                return Err(i);
            }
            let outcome = self.try_apply_new_raw_transaction(raw_trans);
            outcomes.push(outcome);
            i = i + 1;
        }
        proof {
            assert(raw_transactions@.take(i as int) =~= raw_transactions@);
            assert(outcomes@ =~= old(self)@.outcomes(raw_transactions@));
        }
        Ok(outcomes)
    }

    /// Whether [`Self::try_apply_new_raw_transaction`] can take
    /// `raw_transaction`.
    pub fn admits(&self, raw_transaction: &RawTransaction) -> (r: bool)
        ensures
            r == self@.admits(*raw_transaction),
    {
        let id = raw_transaction.transaction_id;
        match raw_transaction.kind {
            RawTrasactionType::Deposit => match raw_transaction.amount {
                None => false,
                Some(amount) => {
                    proof {
                        use_type_invariant(&amount);
                    }
                    amount.is_sign_negative() || (self.get_trans(id).is_none() && (self.locked
                        || self.balance.can_deposit(&amount)))
                },
            },
            RawTrasactionType::Withdrawal => match raw_transaction.amount {
                None => false,
                Some(amount) => {
                    proof {
                        use_type_invariant(&amount);
                    }
                    amount.is_sign_negative() || (self.get_trans(id).is_none() && (self.locked
                        || !self.balance.covers(&amount) || self.balance.can_withdraw(&amount)))
                },
            },
            RawTrasactionType::Dispute => match self.get_trans(id) {
                None => true,
                Some(trans) => match trans.state() {
                    AccTransState::Init | AccTransState::Resolved => self.balance.can_dispute(
                        trans.money(),
                    ),
                    _ => true,
                },
            },
            RawTrasactionType::Resolve => match self.get_trans(id) {
                None => true,
                Some(trans) => match trans.state() {
                    AccTransState::Dispute => self.balance.can_resolve(trans.money()),
                    _ => true,
                },
            },
            RawTrasactionType::Chargeback => match self.get_trans(id) {
                None => true,
                Some(trans) => match trans.state() {
                    AccTransState::Dispute => self.balance.can_chargeback(trans.money()),
                    _ => true,
                },
            },
        }
    }

    /// Charges back a disputed transaction and locks the account. Where the
    /// id is unknown or the entry is not under dispute, nothing changes.
    pub fn try_chargeback(&mut self, ref_trans_id: TransID) -> (r: Result<(), AccountErr>)
        requires
            old(self)@.wf(),
            old(self)@.admits_chargeback(ref_trans_id),
        ensures
            r == old(self)@.close_result(ref_trans_id),
            final(self)@ == old(self)@.chargeback(ref_trans_id),
            final(self)@.wf(),
    {
        proof {
            old(self)@.lemma_chargeback_wf(ref_trans_id);
        }
        let mut ref_trans = match self.get_trans(ref_trans_id) {
            Some(trans) => *trans,
            None => return Err(AccountErr::NoRefTransID),
        };
        let money = match ref_trans.mark_chargebacked() {
            Ok(money) => *money,
            Err(e) => return Err(AccountErr::from(e)),
        };
        self.replace_trans(ref_trans_id, ref_trans);
        self.locked = true;
        self.balance.chargeback(&money);
        Ok(())
    }

    /// Resolves a disputed transaction. Where the id is unknown or the entry
    /// is not under dispute, nothing changes.
    pub fn try_resolve(&mut self, ref_trans_id: TransID) -> (r: Result<(), AccountErr>)
        requires
            old(self)@.wf(),
            old(self)@.admits_resolve(ref_trans_id),
        ensures
            r == old(self)@.close_result(ref_trans_id),
            final(self)@ == old(self)@.resolve(ref_trans_id),
            final(self)@.wf(),
    {
        proof {
            old(self)@.lemma_resolve_wf(ref_trans_id);
        }
        let mut ref_trans = match self.get_trans(ref_trans_id) {
            Some(trans) => *trans,
            None => return Err(AccountErr::NoRefTransID),
        };
        let money = match ref_trans.mark_resolved() {
            Ok(money) => *money,
            Err(e) => return Err(AccountErr::from(e)),
        };
        self.replace_trans(ref_trans_id, ref_trans);
        self.balance.resolve(&money);
        Ok(())
    }

    /// Opens a dispute on a transaction. Where the id is unknown or the entry
    /// cannot be disputed, nothing changes.
    pub fn try_dispute(&mut self, ref_trans_id: TransID) -> (r: Result<(), AccountErr>)
        requires
            old(self)@.wf(),
            old(self)@.admits_dispute(ref_trans_id),
        ensures
            r == old(self)@.dispute_result(ref_trans_id),
            final(self)@ == old(self)@.dispute(ref_trans_id),
            final(self)@.wf(),
    {
        proof {
            old(self)@.lemma_dispute_wf(ref_trans_id);
        }
        let mut ref_trans = match self.get_trans(ref_trans_id) {
            Some(trans) => *trans,
            None => return Err(AccountErr::NoRefTransID),
        };
        let money = match ref_trans.mark_dispute() {
            Ok(money) => *money,
            Err(e) => return Err(AccountErr::from(e)),
        };
        self.replace_trans(ref_trans_id, ref_trans);
        self.balance.dispute(&money);
        Ok(())
    }

    /// Records a withdrawal under a fresh id. Where the account is locked or
    /// the available funds do not cover the amount, the transaction is
    /// recorded as failed, the balance stays as it was, and the error says
    /// which of the two it was.
    pub fn record_withdraw(&mut self, new_trans_id: TransID, amount: Amount) -> (r: Result<
        (),
        AccountErr,
    >)
        requires
            old(self)@.wf(),
            old(self)@.admits_withdraw(new_trans_id, amount@),
        ensures
            r == old(self)@.withdraw_result(amount@),
            final(self)@ == old(self)@.record_withdraw(new_trans_id, amount@),
            final(self)@.wf(),
    {
        proof {
            old(self)@.lemma_record_withdraw_wf(new_trans_id, amount@);
        }
        let succes_or_faild_record = match self.check_locked() {
            Ok(()) => match self.balance.try_withdraw(&amount.decimal()) {
                Ok(()) => Ok(()),
                Err(e) => Err(AccountErr::from(e)),
            },
            Err(e) => Err(e),
        };
        match succes_or_faild_record {
            Ok(()) => {
                let acc_trans = AccTrans::succeed(MoneyTrans::Withdraw(amount));
                self.record_money_transaction(new_trans_id, acc_trans);
                Ok(())
            },
            Err(e) => {
                let acc_trans = AccTrans::failed(MoneyTrans::Withdraw(amount));
                self.record_money_transaction(new_trans_id, acc_trans);
                Err(e)
            },
        }
    }

    /// Records a deposit under a fresh id. Where the account is locked the
    /// transaction is recorded as failed and the balance stays as it was.
    pub fn record_deposit(&mut self, new_trans_id: TransID, amount: Amount) -> (r: Result<
        (),
        AccountErr,
    >)
        requires
            old(self)@.wf(),
            old(self)@.admits_deposit(new_trans_id, amount@),
        ensures
            r == old(self)@.deposit_result(),
            final(self)@ == old(self)@.record_deposit(new_trans_id, amount@),
            final(self)@.wf(),
    {
        proof {
            old(self)@.lemma_record_deposit_wf(new_trans_id, amount@);
        }
        let succes_or_faild_record = self.check_locked();
        match succes_or_faild_record {
            Ok(()) => {
                self.balance.deposit(&amount.decimal());
                let acc_trans = AccTrans::succeed(MoneyTrans::Deposit(amount));
                self.record_money_transaction(new_trans_id, acc_trans);
                Ok(())
            },
            Err(e) => {
                let acc_trans = AccTrans::failed(MoneyTrans::Deposit(amount));
                self.record_money_transaction(new_trans_id, acc_trans);
                Err(e)
            },
        }
    }

    /// Puts an entry on the ledger, under an id that is not on it yet.
    fn record_money_transaction(&mut self, new_trans_id: TransID, acc_trans: AccTrans)
        requires
            !old(self)@.ledger.contains_key(new_trans_id),
        ensures
            final(self)@ == (AccountView {
                ledger: old(self)@.ledger.insert(new_trans_id, acc_trans@),
                ..old(self)@
            }),
    {
        broadcast use vstd::laws_cmp::group_laws_cmp;

        self.trans_history.insert(new_trans_id, acc_trans);
        assert(final(self)@.ledger =~= old(self)@.ledger.insert(new_trans_id, acc_trans@));
    }

    /// Puts the changed entry back under its id.
    fn replace_trans(&mut self, ref_trans_id: TransID, acc_trans: AccTrans)
        requires
            old(self)@.ledger.contains_key(ref_trans_id),
        ensures
            final(self)@ == (AccountView {
                ledger: old(self)@.ledger.insert(ref_trans_id, acc_trans@),
                ..old(self)@
            }),
    {
        broadcast use vstd::laws_cmp::group_laws_cmp;

        self.trans_history.insert(ref_trans_id, acc_trans);
        assert(final(self)@.ledger =~= old(self)@.ledger.insert(ref_trans_id, acc_trans@));
    }

    /// The hold for disputed deposits alone.
    pub fn held_deposit(&self) -> (r: Decimal)
        ensures
            r@ == self@.balance.held,
    {
        self.balance.held_deposit()
    }

    /// The hold for disputed withdrawals alone: what is owed back while they
    /// are disputed.
    pub fn held_withdraw(&self) -> (r: Decimal)
        ensures
            r@ == self@.balance.held_withdraw,
    {
        self.balance.held_withdraw()
    }

    /// The entry recorded under an id, if there is one.
    pub fn get_trans(&self, ref_trans_id: TransID) -> (r: Option<&AccTrans>)
        ensures
            r is Some <==> self@.ledger.contains_key(ref_trans_id),
            r is Some ==> r.unwrap()@ == self@.ledger[ref_trans_id],
    {
        broadcast use vstd::laws_cmp::group_laws_cmp;

        self.trans_history.get(&ref_trans_id)
    }

    /// A locked account is frozen.
    fn check_locked(&self) -> (r: Result<(), AccountErr>)
        ensures
            r == self@.deposit_result(),
    {
        if self.locked {
            Err(AccountErr::Frozen)
        } else {
            Ok(())
        }
    }
}

impl Account for ClientAcc {
    open spec fn client_id_spec(&self) -> ClientID {
        self@.client_id
    }

    open spec fn available_spec(&self) -> DecimalView {
        self@.balance.available
    }

    open spec fn held_fits_spec(&self) -> bool {
        self@.balance.held_fits()
    }

    open spec fn held_spec(&self) -> DecimalView {
        self@.balance.held_total()
    }

    open spec fn is_locked_spec(&self) -> bool {
        self@.locked
    }

    fn client_id(&self) -> ClientID {
        self.client_id
    }

    fn available(&self) -> Decimal {
        self.balance.available()
    }

    fn held_fits(&self) -> bool {
        self.balance.held_fits()
    }

    fn held(&self) -> Decimal {
        self.balance.held()
    }

    fn is_locked(&self) -> bool {
        self.locked
    }
}

} // verus!
