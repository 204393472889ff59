//! Fixed-precision decimal numbers: a signed 96-bit mantissa and a scale,
//! standing for `mantissa / 10^scale`.
//!
//! The numbers are held here as plain integers, and their sums, differences,
//! order and rounding are computed by the `rust_decimal` crate. That crate
//! rounds a result which needs more digits than 96 bits hold. This library
//! computes with exact results only: [`Decimal::sum_fits`] and
//! [`Decimal::diff_fits`] tell whether a result is exact, and every operation
//! that adds or subtracts asks for that.
//!
//! Four functions at the end of this file call `rust_decimal`, and their
//! contracts are believed, not proved. Each of them makes the outside
//! decimals from mantissa and scale with `from_i128_with_scale` and reads the
//! result back with `mantissa` and `scale`.

use vstd::prelude::*;
use vstd::std_specs::cmp::PartialEqSpecImpl;

verus! {

/// One more than the largest magnitude of a mantissa: 2^96.
pub const MANTISSA_LIMIT: u128 = 79228162514264337593543950336;

/// The largest scale.
pub const MAX_SCALE: u32 = 28;

/// Ten to the power `n`.
pub open spec fn pow10(n: nat) -> nat
    decreases n,
{
    if n == 0 {
        1
    } else {
        10 * pow10((n - 1) as nat)
    }
}

/// The mathematical content of a [`Decimal`]: the number `mantissa / 10^scale`,
/// together with the scale it is written in.
pub struct DecimalView {
    pub mantissa: int,
    pub scale: nat,
}

impl DecimalView {
    /// The mantissa fits 96 bits and the scale is at most [`MAX_SCALE`].
    pub open spec fn wf(self) -> bool {
        &&& -MANTISSA_LIMIT < self.mantissa < MANTISSA_LIMIT
        &&& self.scale <= MAX_SCALE
    }

    /// The number itself, counted in units of `10^-28`. Two decimals stand
    /// for the same number exactly when their units agree.
    pub open spec fn units(self) -> int {
        self.mantissa * pow10((MAX_SCALE - self.scale) as nat)
    }

    /// The mantissa this number has when written with `scale` fractional
    /// digits, for a `scale` not below its own.
    pub open spec fn aligned(self, scale: nat) -> int {
        if scale == self.scale {
            self.mantissa
        } else {
            self.mantissa * pow10((scale - self.scale) as nat)
        }
    }

    /// Zero, written without fractional digits.
    pub open spec fn zero() -> DecimalView {
        DecimalView { mantissa: 0, scale: 0 }
    }

    /// The same number with the opposite sign.
    pub open spec fn neg(self) -> DecimalView {
        DecimalView { mantissa: -self.mantissa, scale: self.scale }
    }

    /// The larger of the two scales.
    pub open spec fn common_scale(self, other: DecimalView) -> nat {
        if self.scale >= other.scale {
            self.scale
        } else {
            other.scale
        }
    }

    /// The mantissa of the exact sum, written at the larger of the two scales.
    pub open spec fn sum_mantissa(self, other: DecimalView) -> int {
        self.aligned(self.common_scale(other)) + other.aligned(self.common_scale(other))
    }

    /// The exact sum can be held: one of the two is zero, or the sum written
    /// at the larger scale fits 96 bits.
    pub open spec fn sum_fits(self, other: DecimalView) -> bool {
        ||| self.mantissa == 0
        ||| other.mantissa == 0
        ||| -MANTISSA_LIMIT < self.sum_mantissa(other) < MANTISSA_LIMIT
    }

    /// The exact sum: adding zero leaves the other operand as it is written,
    /// otherwise the sum is written at the larger of the two scales.
    pub open spec fn sum(self, other: DecimalView) -> DecimalView {
        if self.mantissa == 0 {
            other
        } else if other.mantissa == 0 {
            self
        } else {
            DecimalView { mantissa: self.sum_mantissa(other), scale: self.common_scale(other) }
        }
    }

    /// The exact difference can be held.
    pub open spec fn diff_fits(self, other: DecimalView) -> bool {
        self.sum_fits(other.neg())
    }

    /// The exact difference `self - other`.
    pub open spec fn diff(self, other: DecimalView) -> DecimalView {
        self.sum(other.neg())
    }

    /// The number rounded to `dp` fractional digits, a tie going to the even
    /// neighbour. A number with no more than `dp` digits is left as written.
    pub open spec fn round_dp(self, dp: nat) -> DecimalView {
        if self.scale <= dp {
            self
        } else {
            let p = pow10((self.scale - dp) as nat) as int;
            let m = if self.mantissa < 0 {
                -self.mantissa
            } else {
                self.mantissa
            };
            let q = m / p;
            let rem = m % p;
            let rounded = if 2 * rem > p || (2 * rem == p && q % 2 == 1) {
                q + 1
            } else {
                q
            };
            DecimalView {
                mantissa: if self.mantissa < 0 {
                    -rounded
                } else {
                    rounded
                },
                scale: dp,
            }
        }
    }
}

/// A decimal number held as plain integers.
#[derive(Clone, Copy, Debug)]
pub struct Decimal {
    mantissa: i128,
    scale: u32,
}

impl View for Decimal {
    type V = DecimalView;

    closed spec fn view(&self) -> DecimalView {
        DecimalView { mantissa: self.mantissa as int, scale: self.scale as nat }
    }
}

impl Decimal {
    /// Every decimal is well formed.
    #[verifier::type_invariant]
    pub open spec fn inv(self) -> bool {
        self@.wf()
    }

    /// The number `num / 10^scale`, for a scale of at most [`MAX_SCALE`].
    pub fn new(num: i64, scale: u32) -> (r: Decimal)
        requires
            scale <= MAX_SCALE,
        ensures
            r@ == (DecimalView { mantissa: num as int, scale: scale as nat }),
    {
        Decimal { mantissa: num as i128, scale }
    }

    /// The number `mantissa / 10^scale`, if the mantissa fits 96 bits and the
    /// scale is at most [`MAX_SCALE`].
    pub fn from_mantissa(mantissa: i128, scale: u32) -> (r: Option<Decimal>)
        ensures
            r is Some <==> (DecimalView { mantissa: mantissa as int, scale: scale as nat }).wf(),
            r matches Some(d) ==> d@ == (DecimalView {
                mantissa: mantissa as int,
                scale: scale as nat,
            }),
    {
        if scale <= MAX_SCALE && -(MANTISSA_LIMIT as i128) < mantissa && mantissa
            < MANTISSA_LIMIT as i128 {
            Some(Decimal { mantissa, scale })
        } else {
            None
        }
    }

    /// Zero, written without fractional digits.
    pub fn zero() -> (r: Decimal)
        ensures
            r@ == DecimalView::zero(),
    {
        Decimal { mantissa: 0, scale: 0 }
    }

    /// The mantissa: the number without its decimal point.
    pub fn mantissa(&self) -> (r: i128)
        ensures
            r == self@.mantissa,
    {
        self.mantissa
    }

    /// The scale: the number of fractional digits.
    pub fn scale(&self) -> (r: u32)
        ensures
            r == self@.scale,
    {
        self.scale
    }

    /// Whether the number is below zero.
    pub fn is_sign_negative(&self) -> (r: bool)
        ensures
            r == (self@.mantissa < 0),
    {
        self.mantissa < 0
    }

    /// Whether the number is zero.
    pub fn is_zero(&self) -> (r: bool)
        ensures
            r == (self@.mantissa == 0),
    {
        self.mantissa == 0
    }

    /// Whether the exact sum of the two can be held.
    pub fn sum_fits(&self, other: &Decimal) -> (r: bool)
        ensures
            r == self@.sum_fits(other@),
    {
        proof {
            use_type_invariant(self);
            use_type_invariant(other);
        }
        aligned_sum_fits(self.mantissa, self.scale, other.mantissa, other.scale)
    }

    /// Whether the exact difference `self - other` can be held.
    pub fn diff_fits(&self, other: &Decimal) -> (r: bool)
        ensures
            r == self@.diff_fits(other@),
    {
        proof {
            use_type_invariant(self);
            use_type_invariant(other);
        }
        aligned_sum_fits(self.mantissa, self.scale, -other.mantissa, other.scale)
    }
}

/// `m * 10^k`, unless its magnitude reaches twice [`MANTISSA_LIMIT`].
fn scaled(m: i128, k: u32) -> (r: Option<i128>)
    requires
        -MANTISSA_LIMIT < m < MANTISSA_LIMIT,
        k <= MAX_SCALE,
    ensures
        r matches Some(v) ==> v == m * pow10(k as nat) && -2 * MANTISSA_LIMIT < v < 2
            * MANTISSA_LIMIT,
        r is None ==> m * pow10(k as nat) <= -2 * MANTISSA_LIMIT || m * pow10(k as nat) >= 2
            * MANTISSA_LIMIT,
{
    let bound: i128 = 2 * (MANTISSA_LIMIT as i128);
    let mut v: i128 = m;
    let mut i: u32 = 0;
    assert(m * pow10(0) == m) by (nonlinear_arith)
        requires
            pow10(0) == 1,
    ;
    while i < k
        invariant
            i <= k <= MAX_SCALE,
            bound == 2 * MANTISSA_LIMIT,
            v == m * pow10(i as nat),
            -bound < v < bound,
        decreases k - i,
    {
        proof {
            assert(m * pow10((i + 1) as nat) == (m * pow10(i as nat)) * 10) by (nonlinear_arith)
                requires
                    pow10((i + 1) as nat) == 10 * pow10(i as nat),
            ;
        }
        v = v * 10;
        i = i + 1;
        if v <= -bound || v >= bound {
            proof {
                let rest = pow10((k - i) as nat) as int;
                lemma_pow10_adds(i as nat, (k - i) as nat);
                lemma_pow10_positive((k - i) as nat);
                assert(m * pow10(k as nat) == v * rest) by (nonlinear_arith)
                    requires
                        v == m * pow10(i as nat),
                        pow10(k as nat) == pow10(i as nat) * rest,
                ;
                assert(v * rest <= -bound || v * rest >= bound) by (nonlinear_arith)
                    requires
                        rest >= 1,
                        v <= -bound || v >= bound,
                        bound > 0,
                ;
            }
            return None;
        }
    }
    Some(v)
}

/// Whether two decimals, given by mantissa and scale, have a sum that can be
/// held.
fn aligned_sum_fits(a_mantissa: i128, a_scale: u32, b_mantissa: i128, b_scale: u32) -> (r: bool)
    requires
        (DecimalView { mantissa: a_mantissa as int, scale: a_scale as nat }).wf(),
        (DecimalView { mantissa: b_mantissa as int, scale: b_scale as nat }).wf(),
    ensures
        r == (DecimalView { mantissa: a_mantissa as int, scale: a_scale as nat }).sum_fits(
            DecimalView { mantissa: b_mantissa as int, scale: b_scale as nat },
        ),
{
    if a_mantissa == 0 || b_mantissa == 0 {
        return true;
    }
    let limit: i128 = MANTISSA_LIMIT as i128;
    let (low, high, up): (i128, i128, u32) = if a_scale <= b_scale {
        (a_mantissa, b_mantissa, b_scale - a_scale)
    } else {
        (b_mantissa, a_mantissa, a_scale - b_scale)
    };
    proof {
        assert(low * pow10(0) == low) by (nonlinear_arith)
            requires
                pow10(0) == 1,
        ;
    }
    match scaled(low, up) {
        Some(v) => -limit < v + high && v + high < limit,
        None => false,
    }
}

impl Default for Decimal {
    /// Zero, written without fractional digits.
    fn default() -> (r: Decimal)
        ensures
            r@ == DecimalView::zero(),
    {
        Decimal::zero()
    }
}

/// Two decimals are equal when they stand for the same number, whatever
/// their scales: `1.0 == 1.00`.
impl PartialEq for Decimal {
    fn eq(&self, other: &Decimal) -> (r: bool) {
        proof {
            use_type_invariant(self);
            use_type_invariant(other);
        }
        !less_than(*self, *other) && !less_than(*other, *self)
    }
}

impl PartialEqSpecImpl for Decimal {
    open spec fn obeys_eq_spec() -> bool {
        true
    }

    open spec fn eq_spec(&self, other: &Decimal) -> bool {
        self@.units() == other@.units()
    }
}

impl Eq for Decimal {

}

/// Addition by `rust_decimal::Decimal::checked_add`.
///
/// Trusted: when one operand is zero the other comes back as it is written;
/// otherwise, when the exact sum written at the larger of the two scales fits
/// 96 bits, that sum comes back at that scale. Of a sum that does not fit,
/// which the outside crate rounds or refuses, only that what comes back is
/// well formed.
#[verifier::external_body]
pub(crate) fn checked_add(a: Decimal, b: Decimal) -> (r: Option<Decimal>)
    requires
        a@.wf(),
        b@.wf(),
    ensures
        r is Some ==> r.unwrap()@.wf(),
        a@.sum_fits(b@) ==> r is Some && r.unwrap()@ == a@.sum(b@),
{
    let x = rust_decimal::Decimal::from_i128_with_scale(a.mantissa, a.scale);
    let y = rust_decimal::Decimal::from_i128_with_scale(b.mantissa, b.scale);
    match x.checked_add(y) {
        Some(z) => Some(Decimal { mantissa: z.mantissa(), scale: z.scale() }),
        None => None,
    }
}

/// Subtraction by `rust_decimal::Decimal::checked_sub`.
///
/// Trusted: subtracting zero gives the first operand as it is written, and
/// subtracting from zero gives the second with its sign turned; otherwise,
/// when the exact difference written at the larger of the two scales fits 96
/// bits, that difference comes back at that scale. Of a difference that does
/// not fit, only that what comes back is well formed.
#[verifier::external_body]
pub(crate) fn checked_sub(a: Decimal, b: Decimal) -> (r: Option<Decimal>)
    requires
        a@.wf(),
        b@.wf(),
    ensures
        r is Some ==> r.unwrap()@.wf(),
        a@.diff_fits(b@) ==> r is Some && r.unwrap()@ == a@.diff(b@),
{
    let x = rust_decimal::Decimal::from_i128_with_scale(a.mantissa, a.scale);
    let y = rust_decimal::Decimal::from_i128_with_scale(b.mantissa, b.scale);
    match x.checked_sub(y) {
        Some(z) => Some(Decimal { mantissa: z.mantissa(), scale: z.scale() }),
        None => None,
    }
}

/// Comparison by the `<` of `rust_decimal::Decimal`.
///
/// Trusted: it orders decimals by the numbers they stand for.
#[verifier::external_body]
pub(crate) fn less_than(a: Decimal, b: Decimal) -> (r: bool)
    requires
        a@.wf(),
        b@.wf(),
    ensures
        r == (a@.units() < b@.units()),
{
    let x = rust_decimal::Decimal::from_i128_with_scale(a.mantissa, a.scale);
    let y = rust_decimal::Decimal::from_i128_with_scale(b.mantissa, b.scale);
    x < y
}

/// Rounding by `rust_decimal::Decimal::round_dp`.
///
/// Trusted: a number with at most `dp` fractional digits comes back as it is
/// written; any other is rounded to `dp` digits, half to even.
#[verifier::external_body]
pub(crate) fn round_dp(a: Decimal, dp: u32) -> (r: Decimal)
    requires
        a@.wf(),
        dp <= MAX_SCALE,
    ensures
        r@ == a@.round_dp(dp as nat),
{
    let x = rust_decimal::Decimal::from_i128_with_scale(a.mantissa, a.scale);
    let z = x.round_dp(dp);
    Decimal { mantissa: z.mantissa(), scale: z.scale() }
}

/// A power of ten is at least one.
pub proof fn lemma_pow10_positive(n: nat)
    ensures
        pow10(n) >= 1,
    decreases n,
{
    if n > 0 {
        lemma_pow10_positive((n - 1) as nat);
    }
}

/// Powers of ten multiply by adding their exponents.
pub proof fn lemma_pow10_adds(a: nat, b: nat)
    ensures
        pow10(a + b) == pow10(a) * pow10(b),
    decreases a,
{
    if a > 0 {
        lemma_pow10_adds((a - 1) as nat, b);
        assert(pow10(a + b) == 10 * pow10((a - 1 + b) as nat));
        assert(10 * (pow10((a - 1) as nat) * pow10(b)) == (10 * pow10((a - 1) as nat)) * pow10(b))
            by (nonlinear_arith);
    } else {
        assert(pow10(a + b) == 1 * pow10(b));
    }
}

/// The units of a number are its mantissa at any scale up to 28, scaled the
/// rest of the way.
pub proof fn lemma_units_aligned(d: DecimalView, scale: nat)
    requires
        d.scale <= scale <= MAX_SCALE,
    ensures
        d.units() == d.aligned(scale) * pow10((MAX_SCALE - scale) as nat),
{
    let up = (scale - d.scale) as nat;
    let rest = (MAX_SCALE - scale) as nat;
    lemma_pow10_adds(up, rest);
    assert(d.mantissa * (pow10(up) * pow10(rest)) == (d.mantissa * pow10(up)) * pow10(rest))
        by (nonlinear_arith);
}

/// Rounding settles: a number with at most `dp` fractional digits is left
/// as it is written, any other comes out with exactly `dp`, and so rounding a
/// second time to as many digits changes nothing.
pub proof fn law_rounding_settles(d: DecimalView, dp: nat)
    ensures
        d.scale <= dp ==> d.round_dp(dp) == d,
        d.scale > dp ==> d.round_dp(dp).scale == dp,
        d.round_dp(dp).round_dp(dp) == d.round_dp(dp),
{
}

/// Rounding goes to a nearest neighbour: the rounded number is well formed
/// and differs from the number itself by at most half a unit of its last
/// digit, that is by at most `10^-dp / 2`.
pub proof fn law_rounding_is_nearest(d: DecimalView, dp: nat)
    requires
        d.wf(),
        dp <= MAX_SCALE,
    ensures
        d.round_dp(dp).wf(),
        -pow10((MAX_SCALE - dp) as nat) <= 2 * (d.round_dp(dp).units() - d.units()) <= pow10(
            (MAX_SCALE - dp) as nat,
        ),
{
    lemma_pow10_positive((MAX_SCALE - dp) as nat);
    if d.scale > dp {
        let p = pow10((d.scale - dp) as nat) as int;
        let rest = pow10((MAX_SCALE - d.scale) as nat) as int;
        let m = if d.mantissa < 0 {
            -d.mantissa
        } else {
            d.mantissa
        };
        let q = m / p;
        let rem = m % p;
        let rounded = if 2 * rem > p || (2 * rem == p && q % 2 == 1) {
            q + 1
        } else {
            q
        };
        lemma_pow10_positive((d.scale - dp) as nat);
        lemma_pow10_positive((MAX_SCALE - d.scale) as nat);
        lemma_pow10_adds((d.scale - dp) as nat, (MAX_SCALE - d.scale) as nat);
        assert(p >= 10) by {
            lemma_pow10_positive((d.scale - dp - 1) as nat);
        }
        vstd::arithmetic::div_mod::lemma_fundamental_div_mod(m, p);
        vstd::arithmetic::div_mod::lemma_mod_pos_bound(m, p);
        vstd::arithmetic::div_mod::lemma_div_pos_is_pos(m, p);
        let e = rounded * p - m;
        assert(e == if rounded == q {
            -rem
        } else {
            p - rem
        }) by (nonlinear_arith)
            requires
                m == p * q + rem,
                e == rounded * p - m,
                rounded == q || rounded == q + 1,
        ;
        assert(-p <= 2 * e <= p);
        assert(rounded <= m) by (nonlinear_arith)
            requires
                m == p * q + rem,
                0 <= rem < p,
                p >= 10,
                q >= 0,
                rounded == q || (rounded == q + 1 && 2 * rem >= p),
        ;
        assert(rounded >= 0);
        let signed = if d.mantissa < 0 {
            -rounded
        } else {
            rounded
        };
        assert(d.round_dp(dp).mantissa == signed);
        assert(d.round_dp(dp).units() == signed * (p * rest));
        let bound = (2 * e) * rest;
        assert(2 * (signed * (p * rest) - d.mantissa * rest) == if d.mantissa < 0 {
            -bound
        } else {
            bound
        }) by (nonlinear_arith)
            requires
                bound == (2 * e) * rest,
                e == rounded * p - m,
                m == if d.mantissa < 0 {
                    -d.mantissa
                } else {
                    d.mantissa
                },
                signed == if d.mantissa < 0 {
                    -rounded
                } else {
                    rounded
                },
        ;
        assert(-(p * rest) <= bound <= p * rest) by (nonlinear_arith)
            requires
                bound == (2 * e) * rest,
                -p <= 2 * e <= p,
                rest >= 1,
        ;
        assert(((d.scale - dp) as nat) + ((MAX_SCALE - d.scale) as nat) == (MAX_SCALE - dp) as nat);
        assert(pow10((MAX_SCALE - dp) as nat) == p * rest);
        assert(d.units() == d.mantissa * rest);
    }
}

/// The sign of a well-formed decimal's units is the sign of its mantissa.
pub proof fn lemma_units_sign(d: DecimalView)
    requires
        d.wf(),
    ensures
        d.units() >= 0 <==> d.mantissa >= 0,
        d.units() == 0 <==> d.mantissa == 0,
{
    let p = pow10((MAX_SCALE - d.scale) as nat) as int;
    lemma_pow10_positive((MAX_SCALE - d.scale) as nat);
    assert(d.mantissa == 0 ==> d.mantissa * p == 0) by (nonlinear_arith);
    assert(d.mantissa < 0 ==> d.mantissa * p < 0) by (nonlinear_arith)
        requires
            p >= 1,
    ;
    assert(d.mantissa > 0 ==> d.mantissa * p > 0) by (nonlinear_arith)
        requires
            p >= 1,
    ;
}

/// Where the sum fits, it is well formed and stands for the sum of the two
/// numbers.
pub proof fn lemma_sum_units(a: DecimalView, b: DecimalView)
    requires
        a.wf(),
        b.wf(),
        a.sum_fits(b),
    ensures
        a.sum(b).wf(),
        a.sum(b).units() == a.units() + b.units(),
{
    if a.mantissa != 0 && b.mantissa != 0 {
        let s = a.common_scale(b);
        let rest = pow10((MAX_SCALE - s) as nat) as int;
        let x = a.aligned(s);
        let y = b.aligned(s);
        lemma_units_aligned(a, s);
        lemma_units_aligned(b, s);
        assert((x + y) * rest == x * rest + y * rest) by (nonlinear_arith);
        assert(a.sum(b).units() == (x + y) * rest);
    } else if a.mantissa == 0 {
        assert(a.units() == 0) by (nonlinear_arith)
            requires
                a.mantissa == 0,
                a.units() == a.mantissa * pow10((MAX_SCALE - a.scale) as nat),
        ;
    } else {
        assert(b.units() == 0) by (nonlinear_arith)
            requires
                b.mantissa == 0,
                b.units() == b.mantissa * pow10((MAX_SCALE - b.scale) as nat),
        ;
    }
}

/// Where the difference fits, it is well formed and stands for the
/// difference of the two numbers.
pub proof fn lemma_diff_units(a: DecimalView, b: DecimalView)
    requires
        a.wf(),
        b.wf(),
        a.diff_fits(b),
    ensures
        a.diff(b).wf(),
        a.diff(b).units() == a.units() - b.units(),
{
    lemma_sum_units(a, b.neg());
    assert((-b.mantissa) * pow10((MAX_SCALE - b.scale) as nat) == -(b.mantissa * pow10(
        (MAX_SCALE - b.scale) as nat,
    ))) by (nonlinear_arith);
}

} // verus!
