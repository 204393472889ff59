//! The balance of an account: what is available, what is held while a
//! deposit is disputed, and what is owed back while a withdrawal is disputed.

use super::transactions::{MoneyTrans, MoneyView};
use crate::decimal::{
    checked_add, checked_sub, lemma_diff_units, lemma_sum_units, lemma_units_sign, less_than,
    Decimal, DecimalView,
};
use crate::errors::BalanceErr;
use vstd::prelude::*;

verus! {

/// The current balance of a client account.
#[derive(Debug, Clone, Copy)]
pub struct Balance {
    available: Decimal,
    held: Decimal,
    // Disputed withdrawals: money that, while the dispute lasts, is not in
    // the account.
    held_withdraw: Decimal,
}

/// The mathematical content of a [`Balance`].
pub struct BalanceView {
    pub available: DecimalView,
    pub held: DecimalView,
    pub held_withdraw: DecimalView,
}

impl BalanceView {
    /// The three numbers are well formed, and neither hold is negative.
    pub open spec fn wf(self) -> bool {
        &&& self.available.wf()
        &&& self.held.wf()
        &&& self.held_withdraw.wf()
        &&& self.held.mantissa >= 0
        &&& self.held_withdraw.mantissa >= 0
    }

    /// The balance of a new account.
    pub open spec fn zero() -> BalanceView {
        BalanceView {
            available: DecimalView::zero(),
            held: DecimalView::zero(),
            held_withdraw: DecimalView::zero(),
        }
    }

    /// The two holds can be added up exactly.
    pub open spec fn held_fits(self) -> bool {
        self.held.sum_fits(self.held_withdraw)
    }

    /// The held funds as they are reported: the hold for disputed deposits
    /// plus the hold for disputed withdrawals.
    pub open spec fn held_total(self) -> DecimalView {
        self.held.sum(self.held_withdraw)
    }

    /// The held funds as they are reported, in units of `10^-28`.
    pub open spec fn held_units(self) -> int {
        self.held.units() + self.held_withdraw.units()
    }

    /// The held funds and the available funds can be added up exactly.
    pub open spec fn total_fits(self) -> bool {
        self.held_fits() && self.available.sum_fits(self.held_total())
    }

    /// The funds of the account: the available funds plus the held funds as
    /// they are reported.
    pub open spec fn total(self) -> DecimalView {
        self.available.sum(self.held_total())
    }

    /// Available plus held funds, in units of `10^-28`.
    pub open spec fn total_units(self) -> int {
        self.available.units() + self.held_units()
    }

    /// The available funds with `amount` added can be held.
    pub open spec fn can_deposit(self, amount: DecimalView) -> bool {
        amount.wf() && self.available.sum_fits(amount)
    }

    /// The balance with `amount` added to the available funds.
    pub open spec fn deposit(self, amount: DecimalView) -> BalanceView {
        BalanceView { available: self.available.sum(amount), ..self }
    }

    /// The available funds cover `amount`.
    pub open spec fn covers(self, amount: DecimalView) -> bool {
        self.available.units() >= amount.units()
    }

    /// The available funds with `amount` taken can be held.
    pub open spec fn can_withdraw(self, amount: DecimalView) -> bool {
        amount.wf() && self.available.diff_fits(amount)
    }

    /// The balance with `amount` taken from the available funds.
    pub open spec fn withdraw(self, amount: DecimalView) -> BalanceView {
        BalanceView { available: self.available.diff(amount), ..self }
    }

    /// The funds that a dispute on `money` changes can be held afterwards.
    pub open spec fn can_dispute(self, money: MoneyView) -> bool {
        &&& money.wf()
        &&& match money {
            MoneyView::Deposit(a) => self.available.diff_fits(a) && self.held.sum_fits(a),
            MoneyView::Withdraw(a) => self.held_withdraw.sum_fits(a),
        }
    }

    /// A disputed deposit moves from available to held; a disputed withdrawal
    /// is noted as owed back and leaves the available funds alone.
    pub open spec fn dispute(self, money: MoneyView) -> BalanceView {
        match money {
            MoneyView::Deposit(a) => BalanceView {
                available: self.available.diff(a),
                held: self.held.sum(a),
                ..self
            },
            MoneyView::Withdraw(a) => BalanceView {
                held_withdraw: self.held_withdraw.sum(a),
                ..self
            },
        }
    }

    /// The hold covers the amount, and the funds that a resolve on `money`
    /// changes can be held afterwards.
    pub open spec fn can_resolve(self, money: MoneyView) -> bool {
        &&& money.wf()
        &&& match money {
            MoneyView::Deposit(a) => {
                &&& self.available.sum_fits(a)
                &&& self.held.diff_fits(a)
                &&& self.held.units() >= a.units()
            },
            MoneyView::Withdraw(a) => {
                &&& self.held_withdraw.diff_fits(a)
                &&& self.held_withdraw.units() >= a.units()
            },
        }
    }

    /// The inverse of [`Self::dispute`].
    pub open spec fn resolve(self, money: MoneyView) -> BalanceView {
        match money {
            MoneyView::Deposit(a) => BalanceView {
                available: self.available.sum(a),
                held: self.held.diff(a),
                ..self
            },
            MoneyView::Withdraw(a) => BalanceView {
                held_withdraw: self.held_withdraw.diff(a),
                ..self
            },
        }
    }

    /// The hold covers the amount, and the funds that a chargeback on `money`
    /// changes can be held afterwards.
    pub open spec fn can_chargeback(self, money: MoneyView) -> bool {
        &&& money.wf()
        &&& match money {
            MoneyView::Deposit(a) => self.held.diff_fits(a) && self.held.units() >= a.units(),
            MoneyView::Withdraw(a) => {
                &&& self.held_withdraw.diff_fits(a)
                &&& self.held_withdraw.units() >= a.units()
                &&& self.available.sum_fits(a)
            },
        }
    }

    /// A charged-back deposit leaves the account for good; a charged-back
    /// withdrawal is returned to the available funds.
    pub open spec fn chargeback(self, money: MoneyView) -> BalanceView {
        match money {
            MoneyView::Deposit(a) => BalanceView { held: self.held.diff(a), ..self },
            MoneyView::Withdraw(a) => BalanceView {
                held_withdraw: self.held_withdraw.diff(a),
                available: self.available.sum(a),
                ..self
            },
        }
    }
}

/// A deposit that can be taken adds the amount to the available funds and
/// keeps the balance well formed.
pub proof fn lemma_deposit(b: BalanceView, a: DecimalView)
    requires
        b.wf(),
        b.can_deposit(a),
    ensures
        b.deposit(a).wf(),
        b.deposit(a).available.units() == b.available.units() + a.units(),
{
    lemma_sum_units(b.available, a);
}

/// A withdrawal that can be taken takes the amount from the available funds
/// and keeps the balance well formed.
pub proof fn lemma_withdraw(b: BalanceView, a: DecimalView)
    requires
        b.wf(),
        b.can_withdraw(a),
    ensures
        b.withdraw(a).wf(),
        b.withdraw(a).available.units() == b.available.units() - a.units(),
{
    lemma_diff_units(b.available, a);
}

/// What a dispute that can be taken does to the three funds.
pub proof fn lemma_dispute(b: BalanceView, m: MoneyView)
    requires
        b.wf(),
        b.can_dispute(m),
    ensures
        b.dispute(m).wf(),
        m is Deposit ==> {
            &&& b.dispute(m).available.units() == b.available.units() - m.amount().units()
            &&& b.dispute(m).held.units() == b.held.units() + m.amount().units()
        },
        m is Withdraw ==> b.dispute(m).held_withdraw.units() == b.held_withdraw.units()
            + m.amount().units(),
{
    let a = m.amount();
    lemma_units_sign(a);
    lemma_units_sign(b.held);
    lemma_units_sign(b.held_withdraw);
    match m {
        MoneyView::Deposit(_) => {
            lemma_diff_units(b.available, a);
            lemma_sum_units(b.held, a);
            lemma_units_sign(b.held.sum(a));
        },
        MoneyView::Withdraw(_) => {
            lemma_sum_units(b.held_withdraw, a);
            lemma_units_sign(b.held_withdraw.sum(a));
        },
    }
}

/// What a resolve that can be taken does to the three funds.
pub proof fn lemma_resolve(b: BalanceView, m: MoneyView)
    requires
        b.wf(),
        b.can_resolve(m),
    ensures
        b.resolve(m).wf(),
        m is Deposit ==> {
            &&& b.resolve(m).available.units() == b.available.units() + m.amount().units()
            &&& b.resolve(m).held.units() == b.held.units() - m.amount().units()
        },
        m is Withdraw ==> b.resolve(m).held_withdraw.units() == b.held_withdraw.units()
            - m.amount().units(),
{
    let a = m.amount();
    match m {
        MoneyView::Deposit(_) => {
            lemma_sum_units(b.available, a);
            lemma_diff_units(b.held, a);
            lemma_units_sign(b.held.diff(a));
        },
        MoneyView::Withdraw(_) => {
            lemma_diff_units(b.held_withdraw, a);
            lemma_units_sign(b.held_withdraw.diff(a));
        },
    }
}

/// What a chargeback that can be taken does to the three funds.
pub proof fn lemma_chargeback(b: BalanceView, m: MoneyView)
    requires
        b.wf(),
        b.can_chargeback(m),
    ensures
        b.chargeback(m).wf(),
        m is Deposit ==> b.chargeback(m).held.units() == b.held.units() - m.amount().units(),
        m is Withdraw ==> {
            &&& b.chargeback(m).available.units() == b.available.units() + m.amount().units()
            &&& b.chargeback(m).held_withdraw.units() == b.held_withdraw.units()
                - m.amount().units()
        },
{
    let a = m.amount();
    match m {
        MoneyView::Deposit(_) => {
            lemma_diff_units(b.held, a);
            lemma_units_sign(b.held.diff(a));
        },
        MoneyView::Withdraw(_) => {
            lemma_sum_units(b.available, a);
            lemma_diff_units(b.held_withdraw, a);
            lemma_units_sign(b.held_withdraw.diff(a));
        },
    }
}

/// A resolve undoes a dispute: after the two, on a deposit or on a
/// withdrawal, each of the three funds stands for the number it stood for
/// before, and so do the held funds and the total as they are reported.
pub proof fn law_resolve_undoes_dispute(b: BalanceView, m: MoneyView)
    requires
        b.wf(),
        b.can_dispute(m),
        b.dispute(m).can_resolve(m),
    ensures
        b.dispute(m).resolve(m).wf(),
        b.dispute(m).resolve(m).available.units() == b.available.units(),
        b.dispute(m).resolve(m).held.units() == b.held.units(),
        b.dispute(m).resolve(m).held_withdraw.units() == b.held_withdraw.units(),
        b.dispute(m).resolve(m).held_units() == b.held_units(),
        b.dispute(m).resolve(m).total_units() == b.total_units(),
{
    lemma_dispute(b, m);
    lemma_resolve(b.dispute(m), m);
}

/// After a dispute the hold covers the amount: the resolve, and the
/// chargeback, that follow it never drive a hold below zero.
pub proof fn law_hold_covers_after_dispute(b: BalanceView, m: MoneyView)
    requires
        b.wf(),
        b.can_dispute(m),
    ensures
        m is Deposit ==> b.dispute(m).held.units() >= m.amount().units(),
        m is Withdraw ==> b.dispute(m).held_withdraw.units() >= m.amount().units(),
{
    lemma_dispute(b, m);
    lemma_units_sign(b.held);
    lemma_units_sign(b.held_withdraw);
}

/// Where the two holds can be added up, the held funds as they are reported
/// are well formed, not negative, and stand for the sum of the two.
pub proof fn lemma_held_units(b: BalanceView)
    requires
        b.wf(),
        b.held_fits(),
    ensures
        b.held_total().wf(),
        b.held_total().units() == b.held_units(),
        b.held_total().mantissa >= 0,
{
    lemma_sum_units(b.held, b.held_withdraw);
    lemma_units_sign(b.held);
    lemma_units_sign(b.held_withdraw);
    lemma_units_sign(b.held_total());
}

/// Where the funds can be added up, the total is well formed and stands for
/// the sum of the available funds and the two holds.
pub proof fn lemma_total_units(b: BalanceView)
    requires
        b.wf(),
        b.total_fits(),
    ensures
        b.total().wf(),
        b.total().units() == b.total_units(),
{
    lemma_held_units(b);
    lemma_sum_units(b.available, b.held_total());
}

impl View for Balance {
    type V = BalanceView;

    closed spec fn view(&self) -> BalanceView {
        BalanceView {
            available: self.available@,
            held: self.held@,
            held_withdraw: self.held_withdraw@,
        }
    }
}

impl Default for Balance {
    /// The balance of a new account: nothing available, nothing held.
    fn default() -> (r: Balance)
        ensures
            r@ == BalanceView::zero(),
    {
        Balance { available: Decimal::zero(), held: Decimal::zero(), held_withdraw: Decimal::zero() }
    }
}

impl Balance {
    /// Every balance is well formed: neither hold is ever negative.
    #[verifier::type_invariant]
    pub open spec fn inv(self) -> bool {
        self@.wf()
    }

    /// `available += amount`.
    pub fn deposit(&mut self, amount: &Decimal)
        requires
            old(self)@.can_deposit(amount@),
        ensures
            final(self)@ == old(self)@.deposit(amount@),
            final(self)@.wf(),
    {
        proof {
            use_type_invariant(&*self);
            lemma_deposit(self@, amount@);
            use_type_invariant(&self.available);
        }
        self.available = checked_add(self.available, *amount).unwrap();
    }

    /// `available -= amount`, unless the available funds do not cover the
    /// amount: then the balance stays as it was.
    pub fn try_withdraw(&mut self, amount: &Decimal) -> (r: Result<(), BalanceErr>)
        requires
            amount@.wf(),
            old(self)@.covers(amount@) ==> old(self)@.can_withdraw(amount@),
        ensures
            old(self)@.covers(amount@) ==> r is Ok && final(self)@ == old(self)@.withdraw(amount@),
            !old(self)@.covers(amount@) ==> r == Err::<(), _>(BalanceErr::NotEnoughAvailableFounds)
                && final(self)@ == old(self)@,
            final(self)@.wf(),
    {
        proof {
            use_type_invariant(&*self);
            if self@.covers(amount@) {
                lemma_withdraw(self@, amount@);
            }
        }
        if less_than(self.available, *amount) {
            return Err(BalanceErr::NotEnoughAvailableFounds);
        }
        self.available = checked_sub(self.available, *amount).unwrap();
        Ok(())
    }

    /// Applies the opening of a dispute on `mop`.
    pub fn dispute(&mut self, mop: &MoneyTrans)
        requires
            old(self)@.can_dispute(mop@),
        ensures
            final(self)@ == old(self)@.dispute(mop@),
            final(self)@.wf(),
    {
        proof {
            use_type_invariant(&*self);
            lemma_dispute(self@, mop@);
        }
        match mop {
            MoneyTrans::Deposit(amount) => self.dispute_deposit(&amount.decimal()),
            MoneyTrans::Withdraw(amount) => self.dispute_withdraw(&amount.decimal()),
        }
    }

    /// `available -= amount; held += amount`.
    pub fn dispute_deposit(&mut self, amount: &Decimal)
        requires
            old(self)@.can_dispute(MoneyView::Deposit(amount@)),
        ensures
            final(self)@ == old(self)@.dispute(MoneyView::Deposit(amount@)),
            final(self)@.wf(),
    {
        proof {
            use_type_invariant(&*self);
            lemma_dispute(self@, MoneyView::Deposit(amount@));
            use_type_invariant(&self.available);
            use_type_invariant(&self.held);
        }
        self.available = checked_sub(self.available, *amount).unwrap();
        self.held = checked_add(self.held, *amount).unwrap();
    }

    /// `held_withdraw += amount`.
    fn dispute_withdraw(&mut self, amount: &Decimal)
        requires
            old(self)@.can_dispute(MoneyView::Withdraw(amount@)),
        ensures
            final(self)@ == old(self)@.dispute(MoneyView::Withdraw(amount@)),
            final(self)@.wf(),
    {
        proof {
            use_type_invariant(&*self);
            lemma_dispute(self@, MoneyView::Withdraw(amount@));
            use_type_invariant(&self.held_withdraw);
        }
        self.held_withdraw = checked_add(self.held_withdraw, *amount).unwrap();
    }

    /// Applies the closing of a dispute on `mop` in the holder's favour.
    pub fn resolve(&mut self, mop: &MoneyTrans)
        requires
            old(self)@.can_resolve(mop@),
        ensures
            final(self)@ == old(self)@.resolve(mop@),
            final(self)@.wf(),
    {
        proof {
            use_type_invariant(&*self);
            lemma_resolve(self@, mop@);
        }
        match mop {
            MoneyTrans::Withdraw(amount) => self.resolve_withdraw(&amount.decimal()),
            MoneyTrans::Deposit(amount) => self.resolve_deposit(&amount.decimal()),
        }
    }

    /// `available += amount; held -= amount`.
    fn resolve_deposit(&mut self, amount: &Decimal)
        requires
            old(self)@.can_resolve(MoneyView::Deposit(amount@)),
        ensures
            final(self)@ == old(self)@.resolve(MoneyView::Deposit(amount@)),
            final(self)@.wf(),
    {
        proof {
            use_type_invariant(&*self);
            lemma_resolve(self@, MoneyView::Deposit(amount@));
            use_type_invariant(&self.available);
            use_type_invariant(&self.held);
        }
        self.available = checked_add(self.available, *amount).unwrap();
        self.held = checked_sub(self.held, *amount).unwrap();
    }

    /// `held_withdraw -= amount`.
    fn resolve_withdraw(&mut self, amount: &Decimal)
        requires
            old(self)@.can_resolve(MoneyView::Withdraw(amount@)),
        ensures
            final(self)@ == old(self)@.resolve(MoneyView::Withdraw(amount@)),
            final(self)@.wf(),
    {
        proof {
            use_type_invariant(&*self);
            lemma_resolve(self@, MoneyView::Withdraw(amount@));
            use_type_invariant(&self.held_withdraw);
        }
        self.held_withdraw = checked_sub(self.held_withdraw, *amount).unwrap();
    }

    /// Applies the upholding of a dispute on `mop`.
    pub fn chargeback(&mut self, mop: &MoneyTrans)
        requires
            old(self)@.can_chargeback(mop@),
        ensures
            final(self)@ == old(self)@.chargeback(mop@),
            final(self)@.wf(),
    {
        proof {
            use_type_invariant(&*self);
            lemma_chargeback(self@, mop@);
        }
        match mop {
            MoneyTrans::Withdraw(amount) => self.chargeback_withdraw(&amount.decimal()),
            MoneyTrans::Deposit(amount) => self.chargeback_deposit(&amount.decimal()),
        }
    }

    /// `held_withdraw -= amount; available += amount`.
    fn chargeback_withdraw(&mut self, amount: &Decimal)
        requires
            old(self)@.can_chargeback(MoneyView::Withdraw(amount@)),
        ensures
            final(self)@ == old(self)@.chargeback(MoneyView::Withdraw(amount@)),
            final(self)@.wf(),
    {
        proof {
            use_type_invariant(&*self);
            lemma_chargeback(self@, MoneyView::Withdraw(amount@));
            use_type_invariant(&self.available);
            use_type_invariant(&self.held_withdraw);
        }
        self.held_withdraw = checked_sub(self.held_withdraw, *amount).unwrap();
        self.available = checked_add(self.available, *amount).unwrap();
    }

    /// `held -= amount`.
    fn chargeback_deposit(&mut self, amount: &Decimal)
        requires
            old(self)@.can_chargeback(MoneyView::Deposit(amount@)),
        ensures
            final(self)@ == old(self)@.chargeback(MoneyView::Deposit(amount@)),
            final(self)@.wf(),
    {
        proof {
            use_type_invariant(&*self);
            lemma_chargeback(self@, MoneyView::Deposit(amount@));
            use_type_invariant(&self.held);
        }
        self.held = checked_sub(self.held, *amount).unwrap();
    }

    /// The funds free to be withdrawn.
    pub fn available(&self) -> (r: Decimal)
        ensures
            r@ == self@.available,
    {
        self.available
    }

    /// The funds held under dispute: the hold for disputed deposits plus the
    /// hold for disputed withdrawals.
    pub fn held(&self) -> (r: Decimal)
        requires
            self@.held_fits(),
        ensures
            r@ == self@.held_total(),
            r@.units() == self@.held.units() + self@.held_withdraw.units(),
            r@.mantissa >= 0,
    {
        proof {
            use_type_invariant(self);
            lemma_held_units(self@);
        }
        checked_add(self.held, self.held_withdraw).unwrap()
    }

    /// Whether [`Self::held`] can add up the two holds.
    pub fn held_fits(&self) -> (r: bool)
        ensures
            r == self@.held_fits(),
    {
        self.held.sum_fits(&self.held_withdraw)
    }

    /// The funds of the account: available plus held.
    pub fn total(&self) -> (r: Decimal)
        requires
            self@.total_fits(),
        ensures
            r@ == self@.total(),
            r@.units() == self@.total_units(),
    {
        proof {
            use_type_invariant(self);
            lemma_total_units(self@);
        }
        let held = self.held();
        checked_add(self.available, held).unwrap()
    }

    /// Whether [`Self::total`] can add up the funds.
    pub fn total_fits(&self) -> (r: bool)
        ensures
            r == self@.total_fits(),
    {
        self.held_fits() && self.available.sum_fits(&self.held())
    }

    /// The hold for disputed deposits alone.
    pub fn held_deposit(&self) -> (r: Decimal)
        ensures
            r@ == self@.held,
    {
        self.held
    }

    /// The hold for disputed withdrawals alone: what is owed back while they
    /// are disputed.
    pub fn held_withdraw(&self) -> (r: Decimal)
        ensures
            r@ == self@.held_withdraw,
    {
        self.held_withdraw
    }

    /// Whether [`Self::deposit`] can take `amount`.
    pub fn can_deposit(&self, amount: &Decimal) -> (r: bool)
        ensures
            r == self@.can_deposit(amount@),
    {
        proof {
            use_type_invariant(amount);
        }
        self.available.sum_fits(amount)
    }

    /// Whether the available funds cover `amount`.
    pub fn covers(&self, amount: &Decimal) -> (r: bool)
        ensures
            r == self@.covers(amount@),
    {
        proof {
            use_type_invariant(amount);
            use_type_invariant(&self.available);
        }
        !less_than(self.available, *amount)
    }

    /// Whether `amount` can be taken from the available funds.
    pub fn can_withdraw(&self, amount: &Decimal) -> (r: bool)
        ensures
            r == self@.can_withdraw(amount@),
    {
        proof {
            use_type_invariant(amount);
        }
        self.available.diff_fits(amount)
    }

    /// Whether [`Self::dispute`] can take `mop`.
    pub fn can_dispute(&self, mop: &MoneyTrans) -> (r: bool)
        ensures
            r == self@.can_dispute(mop@),
    {
        match mop {
            MoneyTrans::Deposit(amount) => {
                proof {
                    use_type_invariant(amount);
                }
                let a = amount.decimal();
                self.available.diff_fits(&a) && self.held.sum_fits(&a)
            },
            MoneyTrans::Withdraw(amount) => {
                proof {
                    use_type_invariant(amount);
                }
                self.held_withdraw.sum_fits(&amount.decimal())
            },
        }
    }

    /// Whether [`Self::resolve`] can take `mop`.
    pub fn can_resolve(&self, mop: &MoneyTrans) -> (r: bool)
        ensures
            r == self@.can_resolve(mop@),
    {
        proof {
            use_type_invariant(&self.held);
            use_type_invariant(&self.held_withdraw);
        }
        match mop {
            MoneyTrans::Deposit(amount) => {
                proof {
                    use_type_invariant(amount);
                }
                let a = amount.decimal();
                self.available.sum_fits(&a) && self.held.diff_fits(&a) && !less_than(self.held, a)
            },
            MoneyTrans::Withdraw(amount) => {
                proof {
                    use_type_invariant(amount);
                }
                let a = amount.decimal();
                self.held_withdraw.diff_fits(&a) && !less_than(self.held_withdraw, a)
            },
        }
    }

    /// Whether [`Self::chargeback`] can take `mop`.
    pub fn can_chargeback(&self, mop: &MoneyTrans) -> (r: bool)
        ensures
            r == self@.can_chargeback(mop@),
    {
        proof {
            use_type_invariant(&self.held);
            use_type_invariant(&self.held_withdraw);
        }
        match mop {
            MoneyTrans::Deposit(amount) => {
                proof {
                    use_type_invariant(amount);
                }
                let a = amount.decimal();
                self.held.diff_fits(&a) && !less_than(self.held, a)
            },
            MoneyTrans::Withdraw(amount) => {
                proof {
                    use_type_invariant(amount);
                }
                let a = amount.decimal();
                self.held_withdraw.diff_fits(&a) && !less_than(self.held_withdraw, a)
                    && self.available.sum_fits(&a)
            },
        }
    }
}

} // verus!
