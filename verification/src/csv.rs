//! The records exchanged with the outside: raw transactions as they arrive,
//! and the summary of an account as it is reported.

use crate::account::Account;
use crate::decimal::{law_rounding_is_nearest, pow10, round_dp, Decimal, DecimalView, MAX_SCALE};
use crate::{ClientID, TransID};
use vstd::prelude::*;

verus! {

/// The kinds of transaction.
#[derive(Debug, Clone, Copy, PartialEq, Eq, Structural)]
pub enum RawTrasactionType {
    Deposit,
    Withdrawal,
    Dispute,
    Resolve,
    Chargeback,
}

/// One transaction as it arrives: its kind, the client, the transaction id,
/// and the amount, which a deposit and a withdrawal carry and the others do
/// not.
#[derive(Debug, Clone, Copy, PartialEq, Eq)]
pub struct RawTransaction {
    pub kind: RawTrasactionType,
    pub client: ClientID,
    pub transaction_id: TransID,
    pub amount: Option<Decimal>,
}

/// The number of fractional digits that a summary keeps.
pub const SUMMARY_DIGITS: u32 = 4;

/// The balance and state of one client's account, as it is reported.
#[derive(Debug, Clone, Copy, PartialEq, Eq)]
pub struct AccountSummary {
    pub client: ClientID,
    pub available: Decimal,
    pub held: Decimal,
    pub total: Decimal,
    pub locked: bool,
}

/// The number `rounded` is within half a unit of the last digit that a
/// summary keeps of `exact`: it differs from it by at most `0.00005`.
pub open spec fn within_half_a_digit(rounded: DecimalView, exact: DecimalView) -> bool {
    -pow10((MAX_SCALE - SUMMARY_DIGITS) as nat) <= 2 * (rounded.units() - exact.units()) <= pow10(
        (MAX_SCALE - SUMMARY_DIGITS) as nat,
    )
}

impl AccountSummary {
    /// The summary of an account: its available, held and total funds, each
    /// rounded to [`SUMMARY_DIGITS`] fractional digits, and its lock. The
    /// account must be one whose total can be asked for, which
    /// [`Account::total_fits`] tells.
    pub fn from<T: Account>(oth: T) -> (r: AccountSummary)
        requires
            oth.held_fits_spec(),
            oth.available_spec().sum_fits(oth.held_spec()),
        ensures
            r.client == oth.client_id_spec(),
            r.available@ == oth.available_spec().round_dp(SUMMARY_DIGITS as nat),
            r.held@ == oth.held_spec().round_dp(SUMMARY_DIGITS as nat),
            r.total@ == oth.available_spec().sum(oth.held_spec()).round_dp(SUMMARY_DIGITS as nat),
            r.locked == oth.is_locked_spec(),
            within_half_a_digit(r.available@, oth.available_spec()),
            within_half_a_digit(r.held@, oth.held_spec()),
            within_half_a_digit(r.total@, oth.available_spec().sum(oth.held_spec())),
    {
        let rp = SUMMARY_DIGITS;
        let available = oth.available();
        let held = oth.held();
        let total = oth.total();
        proof {
            use_type_invariant(&available);
            use_type_invariant(&held);
            use_type_invariant(&total);
            law_rounding_is_nearest(available@, SUMMARY_DIGITS as nat);
            law_rounding_is_nearest(held@, SUMMARY_DIGITS as nat);
            law_rounding_is_nearest(total@, SUMMARY_DIGITS as nat);
        }
        AccountSummary {
            client: oth.client_id(),
            available: round_dp(available, rp),
            held: round_dp(held, rp),
            total: round_dp(total, rp),
            locked: oth.is_locked(),
        }
    }
}

} // verus!
