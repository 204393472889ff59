//! Accounts: the balance, the ledger entries, and the client account that
//! owns both.

pub mod balance;
pub mod client_account;
pub mod laws;
pub mod model;
pub mod transactions;

pub use client_account::ClientAcc;

use crate::decimal::{checked_add, Decimal, DecimalView};
use crate::ClientID;
use vstd::prelude::*;

verus! {

/// What an account reports of itself.
pub trait Account {
    /// What [`Self::client_id`] returns.
    spec fn client_id_spec(&self) -> ClientID;

    /// What [`Self::available`] returns.
    spec fn available_spec(&self) -> DecimalView;

    /// Whether the held funds can be added up exactly.
    spec fn held_fits_spec(&self) -> bool;

    /// What [`Self::held`] returns.
    spec fn held_spec(&self) -> DecimalView;

    /// What [`Self::is_locked`] returns.
    spec fn is_locked_spec(&self) -> bool;

    /// The client's identifier.
    fn client_id(&self) -> (r: ClientID)
        ensures
            r == self.client_id_spec(),
    ;

    /// The funds free to be withdrawn.
    fn available(&self) -> (r: Decimal)
        ensures
            r@ == self.available_spec(),
    ;

    /// Whether [`Self::held`] can be asked for.
    fn held_fits(&self) -> (r: bool)
        ensures
            r == self.held_fits_spec(),
    ;

    /// The funds held under dispute, for disputed deposits and for disputed
    /// withdrawals together, where they can be added up exactly.
    fn held(&self) -> (r: Decimal)
        requires
            self.held_fits_spec(),
        ensures
            r@ == self.held_spec(),
    ;

    /// Whether the account is frozen.
    fn is_locked(&self) -> (r: bool)
        ensures
            r == self.is_locked_spec(),
    ;

    /// Whether [`Self::total`] can be asked for: the held funds can be added
    /// up, and the available funds can be added to them.
    fn total_fits(&self) -> (r: bool)
        ensures
            r == (self.held_fits_spec() && self.available_spec().sum_fits(self.held_spec())),
    {
        if self.held_fits() {
            let available = self.available();
            let held = self.held();
            available.sum_fits(&held)
        } else {
            false
        }
    }

    /// The funds of the account: available plus held, where that sum can be
    /// held.
    fn total(&self) -> (r: Decimal)
        requires
            self.held_fits_spec(),
            self.available_spec().sum_fits(self.held_spec()),
        ensures
            r@ == self.available_spec().sum(self.held_spec()),
    {
        let available = self.available();
        let held = self.held();
        proof {
            use_type_invariant(&available);
            use_type_invariant(&held);
        }
        checked_add(available, held).unwrap()
    }
}

} // verus!
