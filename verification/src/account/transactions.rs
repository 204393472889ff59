//! Ledger entries: one money transaction each, with its lifecycle state.

use crate::amount::Amount;
use crate::decimal::DecimalView;
use crate::errors::TransUpdateErr;
use vstd::prelude::*;

verus! {

/// The states a ledger entry can be in.
#[derive(Debug, Clone, Copy, PartialEq, Eq, Structural)]
pub enum AccTransState {
    /// Recorded with success and not under dispute.
    Init,
    /// Under dispute: the transaction may be reversed.
    Dispute,
    /// A dispute was closed and the funds restored.
    Resolved,
    /// Final: the dispute was upheld and the transaction reversed.
    Chargebacked,
    /// Final: the transaction was recorded but never took effect.
    Failed,
}

impl AccTransState {
    /// A dispute may be opened from this state.
    pub open spec fn disputable(self) -> bool {
        self is Init || self is Resolved
    }

    /// A dispute is open and may be closed, by resolving it or by charging
    /// back.
    pub open spec fn disputed(self) -> bool {
        self is Dispute
    }

    /// The error with which an entry in this state refuses an update.
    pub open spec fn refusal(self) -> TransUpdateErr {
        if self is Failed {
            TransUpdateErr::Failed
        } else {
            TransUpdateErr::IncorectState
        }
    }
}

/// A deposit or a withdrawal of an amount.
#[derive(Debug, Clone, Copy)]
pub enum MoneyTrans {
    /// Adds to the available funds.
    Deposit(Amount),
    /// Takes from the available funds.
    Withdraw(Amount),
}

/// The mathematical content of a [`MoneyTrans`].
pub enum MoneyView {
    Deposit(DecimalView),
    Withdraw(DecimalView),
}

impl MoneyView {
    /// The amount deposited or withdrawn.
    pub open spec fn amount(self) -> DecimalView {
        match self {
            MoneyView::Deposit(a) => a,
            MoneyView::Withdraw(a) => a,
        }
    }

    /// The amount is well formed and not negative.
    pub open spec fn wf(self) -> bool {
        self.amount().wf() && self.amount().mantissa >= 0
    }
}

impl View for MoneyTrans {
    type V = MoneyView;

    open spec fn view(&self) -> MoneyView {
        match *self {
            MoneyTrans::Deposit(a) => MoneyView::Deposit(a@),
            MoneyTrans::Withdraw(a) => MoneyView::Withdraw(a@),
        }
    }
}

/// One account transaction with its current state.
#[derive(Debug, Clone, Copy)]
pub struct AccTrans {
    money: MoneyTrans,
    state: AccTransState,
}

/// The mathematical content of an [`AccTrans`].
pub struct EntryView {
    pub money: MoneyView,
    pub state: AccTransState,
}

impl EntryView {
    /// The same entry in another state.
    pub open spec fn marked(self, state: AccTransState) -> EntryView {
        EntryView { money: self.money, state }
    }
}

impl View for AccTrans {
    type V = EntryView;

    closed spec fn view(&self) -> EntryView {
        EntryView { money: self.money@, state: self.state }
    }
}

impl AccTrans {
    /// The entry of a transaction that took effect.
    pub fn succeed(money: MoneyTrans) -> (r: AccTrans)
        ensures
            r@ == (EntryView { money: money@, state: AccTransState::Init }),
    {
        AccTrans { money, state: AccTransState::Init }
    }

    /// The entry of a transaction that was refused.
    pub fn failed(money: MoneyTrans) -> (r: AccTrans)
        ensures
            r@ == (EntryView { money: money@, state: AccTransState::Failed }),
    {
        AccTrans { money, state: AccTransState::Failed }
    }

    /// The entry's current state.
    pub fn state(&self) -> (r: AccTransState)
        ensures
            r == self@.state,
    {
        self.state
    }

    /// The money transaction that the entry records.
    pub fn money(&self) -> (r: &MoneyTrans)
        ensures
            r@ == self@.money,
    {
        &self.money
    }

    /// Opens a dispute, from `Init` or `Resolved`; any other state refuses and
    /// the entry stays as it was.
    pub fn mark_dispute(&mut self) -> (r: Result<&MoneyTrans, TransUpdateErr>)
        ensures
            old(self)@.state.disputable() ==> r is Ok && r.unwrap()@ == old(self)@.money
                && final(self)@ == old(self)@.marked(AccTransState::Dispute),
            !old(self)@.state.disputable() ==> r == Err::<&MoneyTrans, _>(
                old(self)@.state.refusal(),
            ) && final(self)@ == old(self)@,
    {
        match self.state {
            AccTransState::Resolved | AccTransState::Init => (),
            AccTransState::Dispute | AccTransState::Chargebacked => {
                return Err(TransUpdateErr::IncorectState)
            },
            AccTransState::Failed => return Err(TransUpdateErr::Failed),
        }
        self.state = AccTransState::Dispute;
        Ok(&self.money)
    }

    /// Closes an open dispute in the holder's favour; any state but `Dispute`
    /// refuses and the entry stays as it was.
    pub fn mark_resolved(&mut self) -> (r: Result<&MoneyTrans, TransUpdateErr>)
        ensures
            old(self)@.state.disputed() ==> r is Ok && r.unwrap()@ == old(self)@.money
                && final(self)@ == old(self)@.marked(AccTransState::Resolved),
            !old(self)@.state.disputed() ==> r == Err::<&MoneyTrans, _>(old(self)@.state.refusal())
                && final(self)@ == old(self)@,
    {
        match self.state {
            AccTransState::Resolved | AccTransState::Init | AccTransState::Chargebacked => {
                return Err(TransUpdateErr::IncorectState)
            },
            AccTransState::Dispute => (),
            AccTransState::Failed => return Err(TransUpdateErr::Failed),
        }
        self.state = AccTransState::Resolved;
        Ok(&self.money)
    }

    /// Upholds an open dispute; any state but `Dispute` refuses and the entry
    /// stays as it was.
    pub fn mark_chargebacked(&mut self) -> (r: Result<&MoneyTrans, TransUpdateErr>)
        ensures
            old(self)@.state.disputed() ==> r is Ok && r.unwrap()@ == old(self)@.money
                && final(self)@ == old(self)@.marked(AccTransState::Chargebacked),
            !old(self)@.state.disputed() ==> r == Err::<&MoneyTrans, _>(old(self)@.state.refusal())
                && final(self)@ == old(self)@,
    {
        match self.state {
            AccTransState::Resolved | AccTransState::Init | AccTransState::Chargebacked => {
                return Err(TransUpdateErr::IncorectState);
            },
            AccTransState::Dispute => (),
            AccTransState::Failed => return Err(TransUpdateErr::Failed),
        }
        self.state = AccTransState::Chargebacked;
        Ok(&self.money)
    }
}

} // verus!
