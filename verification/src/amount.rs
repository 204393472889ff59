//! Amounts of money: decimals that are never negative.

use crate::decimal::{Decimal, DecimalView, MAX_SCALE};
use vstd::prelude::*;
use vstd::std_specs::cmp::PartialEqSpecImpl;

verus! {

/// A financial amount, guaranteed not to be negative.
#[derive(Debug, Clone, Copy)]
pub struct Amount(Decimal);

/// The error for an amount that would be negative.
#[derive(Debug, Clone, Copy, PartialEq, Eq, Structural)]
pub struct NegativeAmountErr;

impl NegativeAmountErr {
    /// What the error says.
    pub fn message(&self) -> (r: &'static str)
        ensures
            r@ == "amount is negative"@,
    {
        "amount is negative"
    }
}

impl View for Amount {
    type V = DecimalView;

    closed spec fn view(&self) -> DecimalView {
        self.0@
    }
}

impl Amount {
    /// Every amount is well formed and not negative.
    #[verifier::type_invariant]
    pub open spec fn inv(self) -> bool {
        self@.wf() && self@.mantissa >= 0
    }

    /// The amount `num / 10^scale`.
    pub fn new(num: u64, scale: u32) -> (r: Amount)
        requires
            scale <= MAX_SCALE,
        ensures
            r@ == (DecimalView { mantissa: num as int, scale: scale as nat }),
    {
        let inner = Decimal::from_mantissa(num as i128, scale);
        Amount(inner.unwrap())
    }

    /// The only gate from a raw decimal to an amount: a negative number is
    /// refused, any other is taken as it is written.
    pub fn try_from(value: Decimal) -> (r: Result<Amount, NegativeAmountErr>)
        ensures
            value@.mantissa < 0 ==> r is Err,
            value@.mantissa >= 0 ==> r is Ok && r.unwrap()@ == value@,
    {
        proof {
            use_type_invariant(&value);
        }
        if value.is_sign_negative() {
            Err(NegativeAmountErr)
        } else {
            Ok(Amount(value))
        }
    }

    /// The amount as a decimal.
    pub fn decimal(&self) -> (r: Decimal)
        ensures
            r@ == self@,
    {
        self.0
    }
}

impl Default for Amount {
    /// The amount zero.
    fn default() -> (r: Amount)
        ensures
            r@ == DecimalView::zero(),
    {
        Amount(Decimal::zero())
    }
}

/// Two amounts are equal when they stand for the same number.
impl PartialEq for Amount {
    fn eq(&self, other: &Amount) -> (r: bool) {
        self.0 == other.0
    }
}

impl PartialEqSpecImpl for Amount {
    open spec fn obeys_eq_spec() -> bool {
        true
    }

    open spec fn eq_spec(&self, other: &Amount) -> bool {
        self@.units() == other@.units()
    }
}

impl Eq for Amount {

}

} // verus!
