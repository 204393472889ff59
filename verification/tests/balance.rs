use accounts_state::account::balance::Balance;
use accounts_state::account::transactions::MoneyTrans;
use accounts_state::amount::{Amount, NegativeAmountErr};
use accounts_state::decimal::Decimal;
use accounts_state::errors::{AccountErr, BalanceErr, TransUpdateErr};

fn funds(balance: &Balance) -> (Decimal, Decimal, Decimal) {
    (balance.available(), balance.held_deposit(), balance.held_withdraw())
}

fn d(n: i64) -> Decimal {
    Decimal::new(n, 2)
}

fn with_available(n: i64) -> Balance {
    let mut balance = Balance::default();
    balance.deposit(&d(n));
    balance
}

#[test]
fn default_balance_is_zero() {
    let balance = Balance::default();
    assert_eq!(funds(&balance), (d(0), d(0), d(0)));
    assert_eq!(balance.available().scale(), 0);
}

#[test]
fn deposit_adds_to_available() {
    let mut balance = with_available(1050);
    balance.deposit(&Decimal::new(5, 0));
    assert_eq!(funds(&balance), (d(1550), d(0), d(0)));
    assert_eq!(balance.available().mantissa(), 1550);
    assert_eq!(balance.available().scale(), 2);
}

#[test]
fn try_withdraw_takes_or_leaves_the_balance_alone() {
    let mut balance = with_available(1000);
    assert_eq!(balance.try_withdraw(&d(1001)), Err(BalanceErr::NotEnoughAvailableFounds));
    assert_eq!(funds(&balance), (d(1000), d(0), d(0)));
    assert_eq!(balance.try_withdraw(&d(400)), Ok(()));
    assert_eq!(funds(&balance), (d(600), d(0), d(0)));
    assert_eq!(balance.try_withdraw(&d(600)), Ok(()));
    assert_eq!(funds(&balance), (d(0), d(0), d(0)));
    assert_eq!(balance.try_withdraw(&Decimal::new(1, 28)), Err(BalanceErr::NotEnoughAvailableFounds));
}

#[test]
fn dispute_resolve_chargeback_of_a_deposit() {
    let money = MoneyTrans::Deposit(Amount::new(300, 2));
    let mut balance = with_available(1000);
    assert!(balance.can_dispute(&money));
    balance.dispute(&money);
    assert_eq!(funds(&balance), (d(700), d(300), d(0)));
    assert!(balance.can_resolve(&money));
    balance.resolve(&money);
    assert_eq!(funds(&balance), (d(1000), d(0), d(0)));
    assert!(!balance.can_resolve(&money));
    assert!(!balance.can_chargeback(&money));
    balance.dispute(&money);
    assert!(balance.can_chargeback(&money));
    balance.chargeback(&money);
    assert_eq!(funds(&balance), (d(700), d(0), d(0)));
}

#[test]
fn dispute_resolve_chargeback_of_a_withdrawal() {
    let money = MoneyTrans::Withdraw(Amount::new(300, 2));
    let mut balance = with_available(1000);
    assert!(balance.can_dispute(&money));
    balance.dispute(&money);
    assert_eq!(funds(&balance), (d(1000), d(0), d(300)));
    assert!(balance.can_resolve(&money));
    balance.resolve(&money);
    assert_eq!(funds(&balance), (d(1000), d(0), d(0)));
    assert!(!balance.can_resolve(&money));
    assert!(!balance.can_chargeback(&money));
    balance.dispute(&money);
    assert!(balance.can_chargeback(&money));
    balance.chargeback(&money);
    assert_eq!(funds(&balance), (d(1300), d(0), d(0)));
}

#[test]
fn held_is_the_sum_of_both_holds() {
    let mut balance = with_available(1000);
    assert_eq!(balance.held(), d(0));
    assert_eq!(balance.total(), d(1000));
    // a dispute on a withdrawal of 50 on a fresh balance: 50 is held
    let mut fresh = Balance::default();
    fresh.dispute(&MoneyTrans::Withdraw(Amount::new(50, 0)));
    assert_eq!(fresh.held().mantissa(), 50);
    assert_eq!(fresh.held().scale(), 0);
    assert_eq!(fresh.total(), Decimal::new(50, 0));

    balance.dispute(&MoneyTrans::Withdraw(Amount::new(300, 2)));
    assert_eq!(balance.held(), d(300));
    assert_eq!(balance.total(), d(1300));
    balance.dispute(&MoneyTrans::Deposit(Amount::new(25, 1)));
    assert!(balance.held_fits());
    assert!(balance.total_fits());
    assert_eq!(balance.held().mantissa(), 550);
    assert_eq!(balance.held().scale(), 2);
    assert_eq!(funds(&balance), (d(750), d(250), d(300)));
    assert_eq!(balance.total().mantissa(), 1300);
    assert_eq!(balance.total().scale(), 2);
    balance.chargeback(&MoneyTrans::Withdraw(Amount::new(300, 2)));
    assert_eq!(balance.held(), d(250));
    assert_eq!(balance.total(), d(1300));
}

#[test]
fn dispute_deposit_moves_available_to_held() {
    let mut balance = with_available(100);
    balance.dispute_deposit(&d(250));
    assert_eq!(funds(&balance), (d(-150), d(250), d(0)));
}

#[test]
fn deciders_refuse_what_cannot_be_held() {
    let top = Decimal::from_mantissa((1i128 << 96) - 1, 0).unwrap();
    let mut balance = Balance::default();
    balance.deposit(&top);
    assert!(!balance.can_deposit(&Decimal::new(1, 0)));
    assert!(balance.can_deposit(&Decimal::new(-1, 0)));
    assert!(balance.can_withdraw(&Decimal::new(1, 0)));
    assert!(!balance.can_withdraw(&Decimal::new(1, 1)));
    assert!(balance.covers(&top));
    assert!(balance.covers(&Decimal::new(-1, 28)));
    let tenth = MoneyTrans::Deposit(Amount::new(1, 1));
    assert!(!balance.can_dispute(&tenth));
    let one = MoneyTrans::Deposit(Amount::new(1, 0));
    assert!(balance.can_dispute(&one));
    let owed = MoneyTrans::Withdraw(Amount::new(1, 1));
    assert!(balance.can_dispute(&owed));
    balance.dispute(&owed);
    assert!(!balance.can_chargeback(&owed));
    assert!(balance.can_resolve(&owed));
}

#[test]
fn amount_refuses_negative_numbers() {
    assert_eq!(Amount::try_from(Decimal::new(-1, 28)).unwrap_err(), NegativeAmountErr);
    assert_eq!(Amount::try_from(Decimal::new(i64::MIN, 0)).unwrap_err(), NegativeAmountErr);
    let zero = Amount::try_from(Decimal::new(0, 3)).unwrap();
    assert_eq!(zero.decimal().mantissa(), 0);
    assert_eq!(zero.decimal().scale(), 3);
    let some = Amount::try_from(Decimal::new(1234, 2)).unwrap();
    assert_eq!(some.decimal().mantissa(), 1234);
    assert_eq!(some.decimal().scale(), 2);
    assert_eq!(some, Amount::new(12340, 3));
    assert_ne!(some, Amount::new(1234, 3));
    let made = Amount::new(u64::MAX, 28);
    assert_eq!(made.decimal().mantissa(), u64::MAX as i128);
    assert_eq!(made.decimal().scale(), 28);
    assert_eq!(Amount::default().decimal(), Decimal::zero());
    assert_eq!(Decimal::default().scale(), 0);
}

#[test]
fn errors_convert_and_say_what_they_are() {
    let e: AccountErr = BalanceErr::NotEnoughAvailableFounds.into();
    assert_eq!(e, AccountErr::AccMoney(BalanceErr::NotEnoughAvailableFounds));
    let e: AccountErr = TransUpdateErr::Failed.into();
    assert_eq!(e, AccountErr::AccTrans(TransUpdateErr::Failed));
    let e: AccountErr = NegativeAmountErr.into();
    assert_eq!(e, AccountErr::Amount(NegativeAmountErr));

    assert_eq!(NegativeAmountErr.message(), "amount is negative");
    assert_eq!(
        BalanceErr::NotEnoughAvailableFounds.message(),
        "not enough found available for this operation"
    );
    assert_eq!(
        TransUpdateErr::IncorectState.message(),
        "incorrect state of transaction to perform update"
    );
    assert_eq!(TransUpdateErr::Failed.message(), "failed transaction");
    assert_eq!(
        AccountErr::NoRefTransID.message(),
        "could not find referential transaction id for requested operation"
    );
    assert_eq!(
        AccountErr::AccMoney(BalanceErr::NotEnoughAvailableFounds).message(),
        "account money change error"
    );
    assert_eq!(
        AccountErr::AccTrans(TransUpdateErr::Failed).message(),
        "transaction update error"
    );
    assert_eq!(AccountErr::Amount(NegativeAmountErr).message(), "amount was negative");
    assert_eq!(AccountErr::Frozen.message(), "account is frozen");
}
