//! The errors of the ledger.

use crate::amount::NegativeAmountErr;
use vstd::prelude::*;
use vstd::std_specs::convert::FromSpecImpl;

verus! {

/// Errors of the account balance.
#[derive(Debug, Clone, Copy, PartialEq, Eq, Structural)]
pub enum BalanceErr {
    /// A withdrawal asked for more than is available.
    NotEnoughAvailableFounds,
}

/// Errors of a ledger entry's state machine.
#[derive(Debug, Clone, Copy, PartialEq, Eq, Structural)]
pub enum TransUpdateErr {
    /// The entry's state does not allow the update.
    IncorectState,
    /// The entry records a transaction that failed; no update applies to it.
    Failed,
}

/// Every error an account can report.
#[derive(Debug, Clone, Copy, PartialEq, Eq, Structural)]
pub enum AccountErr {
    /// No transaction with the referenced id is on the ledger.
    NoRefTransID,
    /// The balance refused the operation.
    AccMoney(BalanceErr),
    /// The referenced entry refused the update.
    AccTrans(TransUpdateErr),
    /// The amount was negative.
    Amount(NegativeAmountErr),
    /// The account is frozen.
    Frozen,
}

impl BalanceErr {
    /// What the error says.
    pub fn message(&self) -> (r: &'static str)
        ensures
            r@ == "not enough found available for this operation"@,
    {
        "not enough found available for this operation"
    }
}

impl TransUpdateErr {
    /// What the error says.
    pub fn message(&self) -> (r: &'static str)
        ensures
            *self is IncorectState ==> r@ == "incorrect state of transaction to perform update"@,
            *self is Failed ==> r@ == "failed transaction"@,
    {
        match self {
            TransUpdateErr::IncorectState => "incorrect state of transaction to perform update",
            TransUpdateErr::Failed => "failed transaction",
        }
    }
}

impl AccountErr {
    /// What the error says.
    pub fn message(&self) -> (r: &'static str)
        ensures
            *self is NoRefTransID ==> r@
                == "could not find referential transaction id for requested operation"@,
            *self is AccMoney ==> r@ == "account money change error"@,
            *self is AccTrans ==> r@ == "transaction update error"@,
            *self is Amount ==> r@ == "amount was negative"@,
            *self is Frozen ==> r@ == "account is frozen"@,
    {
        match self {
            AccountErr::NoRefTransID => {
                "could not find referential transaction id for requested operation"
            },
            AccountErr::AccMoney(_) => "account money change error",
            AccountErr::AccTrans(_) => "transaction update error",
            AccountErr::Amount(_) => "amount was negative",
            AccountErr::Frozen => "account is frozen",
        }
    }
}

impl From<BalanceErr> for AccountErr {
    fn from(e: BalanceErr) -> (r: AccountErr) {
        AccountErr::AccMoney(e)
    }
}

impl FromSpecImpl<BalanceErr> for AccountErr {
    open spec fn obeys_from_spec() -> bool {
        true
    }

    open spec fn from_spec(e: BalanceErr) -> AccountErr {
        AccountErr::AccMoney(e)
    }
}

impl From<TransUpdateErr> for AccountErr {
    fn from(e: TransUpdateErr) -> (r: AccountErr) {
        AccountErr::AccTrans(e)
    }
}

impl FromSpecImpl<TransUpdateErr> for AccountErr {
    open spec fn obeys_from_spec() -> bool {
        true
    }

    open spec fn from_spec(e: TransUpdateErr) -> AccountErr {
        AccountErr::AccTrans(e)
    }
}

impl From<NegativeAmountErr> for AccountErr {
    fn from(e: NegativeAmountErr) -> (r: AccountErr) {
        AccountErr::Amount(e)
    }
}

impl FromSpecImpl<NegativeAmountErr> for AccountErr {
    open spec fn obeys_from_spec() -> bool {
        true
    }

    open spec fn from_spec(e: NegativeAmountErr) -> AccountErr {
        AccountErr::Amount(e)
    }
}

} // verus!
