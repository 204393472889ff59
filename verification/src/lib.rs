//! Payments engine core: a per-client ledger state machine over exact
//! decimal balances, and the grouping and replay of a transaction stream.
//!
//! - [`decimal`] and [`amount`]: the numbers.
//! - [`account`]: the balance, the ledger entries and the client account.
//!   [`account::model`] says what each operation does to an account, as a
//!   state machine over mathematical values; the functions of
//!   [`account::ClientAcc`] are proved to do just that; and
//!   [`account::laws`] proves what holds of every account.
//! - [`pipeline`]: splitting a stream of transactions by client and
//!   replaying each client's share.
//! - [`csv`] and [`errors`]: the records that come in and go out, and the
//!   errors.
//!
//! An operation that would need a number which cannot be held exactly is not
//! carried out. Whether a transaction can be carried out is what
//! [`account::ClientAcc::admits`] tells; [`account::ClientAcc::replay`] and
//! [`pipeline::create_clinet_account`] ask it before every step.

pub mod account;
pub mod amount;
pub mod csv;
pub mod decimal;
pub mod errors;
pub mod pipeline;

use vstd::prelude::*;

verus! {

/// Transaction identifier, unique across all clients.
pub type TransID = u32;

/// Client identifier.
pub type ClientID = u16;

} // verus!
