use accounts_state::account::transactions::AccTransState;
use accounts_state::account::{Account, ClientAcc};
use accounts_state::amount::{Amount, NegativeAmountErr};
use accounts_state::csv::{RawTransaction, RawTrasactionType};
use accounts_state::decimal::Decimal;
use accounts_state::errors::{AccountErr, BalanceErr, TransUpdateErr};

fn raw(kind: RawTrasactionType, tx: u32, amount: Option<Decimal>) -> RawTransaction {
    RawTransaction { kind, client: 1, transaction_id: tx, amount }
}

#[test]
fn preventing_debt_withdraw() {
    let mut a = ClientAcc::new(1);
    a.record_withdraw(1, Amount::new(100, 0)).unwrap_err();

    assert_eq!(a.get_trans(1).unwrap().state(), AccTransState::Failed);
    assert_eq!(a.available(), Decimal::zero());
    assert_eq!(a.held(), Decimal::zero());
}

#[test]
fn deposit_money() {
    let mut a = ClientAcc::new(1);
    a.record_deposit(1, Amount::new(100, 1)).unwrap();

    assert_eq!(a.get_trans(1).unwrap().state(), AccTransState::Init);
    assert_eq!(a.available(), Decimal::new(100, 1));
    assert_eq!(a.held(), Decimal::zero());
}

#[test]
fn many_deposits_adds_available_founds() {
    let mut a = ClientAcc::new(1);
    a.record_deposit(1, Amount::new(100, 1)).unwrap();
    a.record_deposit(2, Amount::new(50, 1)).unwrap();

    assert_eq!(a.get_trans(1).unwrap().state(), AccTransState::Init);
    assert_eq!(a.get_trans(2).unwrap().state(), AccTransState::Init);
    assert_eq!(a.available(), Decimal::new(150, 1));
    assert_eq!(a.held(), Decimal::zero());
}

#[test]
fn deposit_and_withdraw() {
    let mut a = ClientAcc::new(1);
    a.record_deposit(1, Amount::new(100, 1)).unwrap();
    a.record_deposit(2, Amount::new(50, 1)).unwrap();

    a.record_withdraw(3, Amount::new(145, 1)).unwrap();
    a.record_withdraw(4, Amount::new(145, 1)).unwrap_err();

    assert_eq!(a.get_trans(1).unwrap().state(), AccTransState::Init);
    assert_eq!(a.get_trans(2).unwrap().state(), AccTransState::Init);
    assert_eq!(a.get_trans(3).unwrap().state(), AccTransState::Init);
    assert_eq!(a.get_trans(4).unwrap().state(), AccTransState::Failed);
    assert_eq!(a.available(), Decimal::new(5, 1));
    assert_eq!(a.held(), Decimal::zero());
}

#[test]
fn chargeback_is_ignored_if_there_is_no_dispute() {
    let mut a = ClientAcc::new_test_account();

    // deposit
    let e = a.try_chargeback(1).unwrap_err();
    assert_eq!(e, TransUpdateErr::IncorectState.into());

    // withdraw
    let e = a.try_chargeback(11).unwrap_err();
    assert_eq!(e, TransUpdateErr::IncorectState.into());
}

#[test]
fn chargeback_on_deposit_transaction() {
    let mut a = ClientAcc::new_test_account();

    a.try_dispute(1).unwrap();
    assert_eq!(a.get_trans(1).unwrap().state(), AccTransState::Dispute);
    assert_eq!(a.available(), Decimal::new(6500, 1));
    assert_eq!(a.held(), Decimal::new(100, 0));
    assert_eq!(a.total(), Decimal::new(750, 0));
    assert_eq!(a.is_locked(), false);

    a.try_chargeback(1).unwrap();
    assert_eq!(a.get_trans(1).unwrap().state(), AccTransState::Chargebacked);
    assert_eq!(a.available(), Decimal::new(6500, 1));
    assert_eq!(a.held(), Decimal::zero());
    assert_eq!(a.is_locked(), true);
}

#[test]
fn chargeback_on_withdraw_transaction() {
    let mut a = ClientAcc::new_test_account();

    a.try_dispute(11).unwrap();
    assert_eq!(a.get_trans(11).unwrap().state(), AccTransState::Dispute);
    assert_eq!(a.available(), Decimal::new(750, 0));
    assert_eq!(a.held(), Decimal::new(50, 0));
    assert_eq!(a.held_deposit(), Decimal::zero());
    assert_eq!(a.held_withdraw(), Decimal::new(50, 0));
    assert_eq!(a.total(), Decimal::new(800, 0));
    assert_eq!(a.is_locked(), false);

    a.try_chargeback(11).unwrap();
    assert_eq!(a.get_trans(11).unwrap().state(), AccTransState::Chargebacked);
    assert_eq!(a.available(), Decimal::new(800, 0));
    assert_eq!(a.held(), Decimal::zero());
    assert_eq!(a.total(), a.available());
    assert_eq!(a.is_locked(), true);
}

#[test]
fn resolve_withdraw() {
    let mut a = ClientAcc::new_test_account();
    let a_snapshot = a.clone();

    a.try_dispute(11).unwrap();
    a.try_resolve(11).unwrap();

    assert_eq!(a.get_trans(11).unwrap().state(), AccTransState::Resolved);
    assert_eq!(a.available(), a_snapshot.available());
    assert_eq!(a.held(), a_snapshot.held());
    assert_eq!(a.total(), a_snapshot.total());
}

#[test]
fn dispute_resolve_then_dispute_again_and_chargeback() {
    let mut a = ClientAcc::new_test_account();

    a.try_dispute(1).unwrap();
    a.try_resolve(1).unwrap();
    assert_eq!(a.total(), Decimal::new(750, 0));
    assert_eq!(a.available(), Decimal::new(750, 0));
    assert_eq!(a.held(), Decimal::zero());
    assert_eq!(a.is_locked(), false);

    a.try_dispute(1).unwrap();
    assert_eq!(a.get_trans(1).unwrap().state(), AccTransState::Dispute);
    assert_eq!(a.available(), Decimal::new(6500, 1));
    assert_eq!(a.held(), Decimal::new(100, 0));
    assert_eq!(a.total(), Decimal::new(750, 0));

    a.try_chargeback(1).unwrap();
    assert_eq!(a.get_trans(1).unwrap().state(), AccTransState::Chargebacked);
    assert_eq!(a.available(), Decimal::new(6500, 1));
    assert_eq!(a.held(), Decimal::zero());
    assert_eq!(a.is_locked(), true);
}

#[test]
fn held_reports_both_holds() {
    let mut a = ClientAcc::new(1);
    a.record_deposit(1, Amount::new(1000, 2)).unwrap();
    a.record_deposit(2, Amount::new(125, 3)).unwrap();
    a.record_withdraw(3, Amount::new(5, 0)).unwrap();
    assert!(a.held_fits());
    assert!(a.total_fits());
    assert_eq!(a.held(), Decimal::zero());
    assert_eq!(a.total(), Decimal::new(5125, 3));

    // a withdrawal under dispute is held, and counts towards the total
    a.try_dispute(3).unwrap();
    assert_eq!(a.available(), Decimal::new(5125, 3));
    assert_eq!(a.held().mantissa(), 5);
    assert_eq!(a.held().scale(), 0);
    assert_eq!(a.total(), Decimal::new(10125, 3));

    // with a deposit under dispute as well, held is the sum of the two
    a.try_dispute(2).unwrap();
    assert_eq!(a.available(), Decimal::new(5, 0));
    assert_eq!(a.held_deposit(), Decimal::new(125, 3));
    assert_eq!(a.held_withdraw(), Decimal::new(5, 0));
    assert_eq!(a.held().mantissa(), 5125);
    assert_eq!(a.held().scale(), 3);
    assert_eq!(a.total().mantissa(), 10125);
    assert_eq!(a.total().scale(), 3);

    a.try_resolve(3).unwrap();
    assert_eq!(a.held(), Decimal::new(125, 3));
    assert_eq!(a.total(), Decimal::new(5125, 3));
}

#[test]
fn held_that_cannot_be_added_up_is_told() {
    let top = (1i128 << 96) - 1;
    let mut a = ClientAcc::new(1);
    a.record_deposit(1, Amount::try_from(Decimal::from_mantissa(top, 0).unwrap()).unwrap())
        .unwrap();
    a.record_withdraw(2, Amount::try_from(Decimal::from_mantissa(top, 0).unwrap()).unwrap())
        .unwrap();
    a.record_deposit(3, Amount::new(1, 0)).unwrap();
    a.try_dispute(2).unwrap();
    assert!(a.held_fits());
    assert_eq!(a.held().mantissa(), top);
    assert!(!a.total_fits());
    a.try_dispute(3).unwrap();
    assert_eq!(a.held_deposit(), Decimal::new(1, 0));
    assert!(!a.held_fits());
    assert!(!a.total_fits());
    a.try_resolve(2).unwrap();
    assert!(a.held_fits());
    assert!(a.total_fits());
    assert_eq!(a.total(), Decimal::new(1, 0));
}

#[test]
fn new_account_is_empty_and_unlocked() {
    let a = ClientAcc::new(7);
    assert_eq!(a.client_id(), 7);
    assert_eq!(a.available(), Decimal::zero());
    assert_eq!(a.held(), Decimal::zero());
    assert_eq!(a.total(), Decimal::zero());
    assert!(!a.is_locked());
    assert!(a.get_trans(0).is_none());
}

#[test]
fn sample_account_has_750_available() {
    let a = ClientAcc::new_test_account();
    assert_eq!(a.client_id(), 1);
    assert_eq!(a.available().mantissa(), 750);
    assert_eq!(a.available().scale(), 0);
    assert_eq!(a.held(), Decimal::zero());
    assert!(!a.is_locked());
    for id in 1..=15 {
        assert_eq!(a.get_trans(id).unwrap().state(), AccTransState::Init);
    }
    assert!(a.get_trans(0).is_none());
    assert!(a.get_trans(16).is_none());
}

#[test]
fn total_is_deposits_less_successful_withdrawals() {
    let mut a = ClientAcc::new(1);
    let steps: [(bool, u64); 8] = [
        (true, 1000),
        (false, 250),
        (false, 5000),
        (true, 125),
        (false, 875),
        (false, 1),
        (true, 99999),
        (false, 99999),
    ];
    let mut deposits: i128 = 0;
    let mut withdrawals: i128 = 0;
    for (n, (deposit, cents)) in steps.iter().enumerate() {
        let id = n as u32;
        let amount = Amount::new(*cents, 2);
        if *deposit {
            assert!(a.record_deposit(id, amount).is_ok());
            deposits += *cents as i128;
        } else if a.record_withdraw(id, amount).is_ok() {
            withdrawals += *cents as i128;
        }
        let expected = Decimal::from_mantissa(deposits - withdrawals, 2).unwrap();
        assert_eq!(a.total(), expected);
        assert_eq!(a.held(), Decimal::zero());
    }
    assert_eq!(withdrawals, 250 + 875 + 99999);
    assert_eq!(a.total(), Decimal::new(0, 0));
}

#[test]
fn second_dispute_is_refused() {
    let mut a = ClientAcc::new_test_account();
    a.try_dispute(2).unwrap();
    assert_eq!(a.try_dispute(2), Err(AccountErr::AccTrans(TransUpdateErr::IncorectState)));
    a.record_deposit(20, Amount::new(5, 0)).unwrap();
    a.try_dispute(12).unwrap();
    assert_eq!(a.try_dispute(2), Err(AccountErr::AccTrans(TransUpdateErr::IncorectState)));
    assert_eq!(a.held(), Decimal::new(150, 0));
    assert_eq!(a.held_deposit(), Decimal::new(100, 0));
    a.try_resolve(2).unwrap();
    assert_eq!(a.held(), Decimal::new(50, 0));
    a.try_dispute(2).unwrap();
    assert_eq!(a.held(), Decimal::new(150, 0));
    assert_eq!(a.held_deposit(), Decimal::new(100, 0));
    assert_eq!(a.held_withdraw(), Decimal::new(50, 0));
}

#[test]
fn resolve_without_dispute_is_refused() {
    let mut a = ClientAcc::new_test_account();
    assert_eq!(a.try_resolve(3), Err(AccountErr::AccTrans(TransUpdateErr::IncorectState)));
    assert_eq!(a.try_resolve(13), Err(AccountErr::AccTrans(TransUpdateErr::IncorectState)));
    assert_eq!(a.available(), Decimal::new(750, 0));
}

#[test]
fn unknown_id_gives_no_ref_trans_id() {
    let mut a = ClientAcc::new_test_account();
    assert_eq!(a.try_dispute(99), Err(AccountErr::NoRefTransID));
    assert_eq!(a.try_resolve(99), Err(AccountErr::NoRefTransID));
    assert_eq!(a.try_chargeback(99), Err(AccountErr::NoRefTransID));
    assert_eq!(a.available(), Decimal::new(750, 0));
    assert!(!a.is_locked());
}

#[test]
fn failed_entry_refuses_every_update() {
    let mut a = ClientAcc::new_test_account();
    assert_eq!(
        a.record_withdraw(16, Amount::new(751, 0)),
        Err(AccountErr::AccMoney(BalanceErr::NotEnoughAvailableFounds))
    );
    assert_eq!(a.get_trans(16).unwrap().state(), AccTransState::Failed);
    assert_eq!(a.try_dispute(16), Err(AccountErr::AccTrans(TransUpdateErr::Failed)));
    assert_eq!(a.try_resolve(16), Err(AccountErr::AccTrans(TransUpdateErr::Failed)));
    assert_eq!(a.try_chargeback(16), Err(AccountErr::AccTrans(TransUpdateErr::Failed)));
    assert_eq!(a.get_trans(16).unwrap().state(), AccTransState::Failed);
    assert_eq!(a.available(), Decimal::new(750, 0));
}

#[test]
fn withdraw_of_all_available_succeeds() {
    let mut a = ClientAcc::new_test_account();
    a.record_withdraw(16, Amount::new(750, 0)).unwrap();
    assert_eq!(a.available(), Decimal::zero());
    assert_eq!(a.get_trans(16).unwrap().state(), AccTransState::Init);
}

#[test]
fn locked_account_refuses_payments_and_records_them_failed() {
    let mut a = ClientAcc::new_test_account();
    a.try_dispute(1).unwrap();
    a.try_dispute(2).unwrap();
    a.try_dispute(11).unwrap();
    a.try_chargeback(1).unwrap();
    assert!(a.is_locked());

    assert_eq!(a.record_deposit(16, Amount::new(10, 0)), Err(AccountErr::Frozen));
    assert_eq!(a.record_withdraw(17, Amount::new(10, 0)), Err(AccountErr::Frozen));
    assert_eq!(a.get_trans(16).unwrap().state(), AccTransState::Failed);
    assert_eq!(a.get_trans(17).unwrap().state(), AccTransState::Failed);
    assert_eq!(a.available(), Decimal::new(550, 0));
    assert_eq!(a.held(), Decimal::new(150, 0));
    assert_eq!(a.total(), Decimal::new(700, 0));

    // disputes on other entries stay open
    a.try_resolve(2).unwrap();
    assert_eq!(a.get_trans(2).unwrap().state(), AccTransState::Resolved);
    assert_eq!(a.available(), Decimal::new(650, 0));
    assert_eq!(a.held(), Decimal::new(50, 0));
    a.try_chargeback(11).unwrap();
    assert_eq!(a.get_trans(11).unwrap().state(), AccTransState::Chargebacked);
    assert_eq!(a.available(), Decimal::new(700, 0));
    assert_eq!(a.held(), Decimal::zero());
    a.try_dispute(3).unwrap();
    assert_eq!(a.held(), Decimal::new(100, 0));
    assert!(a.is_locked());
}

#[test]
fn chargeback_twice_is_refused() {
    let mut a = ClientAcc::new_test_account();
    a.try_dispute(1).unwrap();
    a.try_chargeback(1).unwrap();
    assert_eq!(a.try_chargeback(1), Err(AccountErr::AccTrans(TransUpdateErr::IncorectState)));
    assert_eq!(a.try_resolve(1), Err(AccountErr::AccTrans(TransUpdateErr::IncorectState)));
    assert_eq!(a.try_dispute(1), Err(AccountErr::AccTrans(TransUpdateErr::IncorectState)));
    assert_eq!(a.available(), Decimal::new(650, 0));
    assert_eq!(a.held(), Decimal::zero());
}

#[test]
fn dispute_of_spent_deposit_leaves_available_negative() {
    let mut a = ClientAcc::new(1);
    a.record_deposit(1, Amount::new(100, 0)).unwrap();
    a.record_withdraw(2, Amount::new(100, 0)).unwrap();
    a.try_dispute(1).unwrap();
    assert_eq!(a.available(), Decimal::new(-100, 0));
    assert_eq!(a.held(), Decimal::new(100, 0));
    assert_eq!(a.total(), Decimal::zero());
}

#[test]
fn apply_dispatches_on_the_kind() {
    let mut a = ClientAcc::new(1);
    let d = |n: i64| Some(Decimal::new(n, 1));
    assert_eq!(a.try_apply_new_raw_transaction(raw(RawTrasactionType::Deposit, 1, d(105))), Ok(()));
    assert_eq!(a.try_apply_new_raw_transaction(raw(RawTrasactionType::Deposit, 2, d(20))), Ok(()));
    assert_eq!(
        a.try_apply_new_raw_transaction(raw(RawTrasactionType::Withdrawal, 3, d(25))),
        Ok(())
    );
    assert_eq!(a.available(), Decimal::new(100, 1));
    assert_eq!(
        a.try_apply_new_raw_transaction(raw(RawTrasactionType::Withdrawal, 4, d(101))),
        Err(AccountErr::AccMoney(BalanceErr::NotEnoughAvailableFounds))
    );
    assert_eq!(a.try_apply_new_raw_transaction(raw(RawTrasactionType::Dispute, 3, None)), Ok(()));
    assert_eq!(a.available(), Decimal::new(100, 1));
    assert_eq!(a.held(), Decimal::new(25, 1));
    assert_eq!(a.total(), Decimal::new(125, 1));
    assert_eq!(a.try_apply_new_raw_transaction(raw(RawTrasactionType::Resolve, 3, None)), Ok(()));
    assert_eq!(a.get_trans(3).unwrap().state(), AccTransState::Resolved);
    assert_eq!(a.try_apply_new_raw_transaction(raw(RawTrasactionType::Dispute, 2, None)), Ok(()));
    assert_eq!(a.available(), Decimal::new(80, 1));
    assert_eq!(a.held(), Decimal::new(20, 1));
    assert_eq!(
        a.try_apply_new_raw_transaction(raw(RawTrasactionType::Chargeback, 2, None)),
        Ok(())
    );
    assert_eq!(a.available(), Decimal::new(80, 1));
    assert_eq!(a.held(), Decimal::zero());
    assert!(a.is_locked());
    assert_eq!(
        a.try_apply_new_raw_transaction(raw(RawTrasactionType::Deposit, 5, d(1))),
        Err(AccountErr::Frozen)
    );
    assert_eq!(
        a.try_apply_new_raw_transaction(raw(RawTrasactionType::Chargeback, 9, None)),
        Err(AccountErr::NoRefTransID)
    );
}

#[test]
fn negative_amount_is_refused_and_leaves_no_entry() {
    let mut a = ClientAcc::new_test_account();
    let minus = Some(Decimal::new(-1, 0));
    assert!(a.admits(&raw(RawTrasactionType::Deposit, 16, minus)));
    assert_eq!(
        a.try_apply_new_raw_transaction(raw(RawTrasactionType::Deposit, 16, minus)),
        Err(AccountErr::Amount(NegativeAmountErr))
    );
    assert_eq!(
        a.try_apply_new_raw_transaction(raw(RawTrasactionType::Withdrawal, 16, minus)),
        Err(AccountErr::Amount(NegativeAmountErr))
    );
    assert!(a.get_trans(16).is_none());
    assert_eq!(a.available(), Decimal::new(750, 0));
}

#[test]
fn admits_tells_what_can_be_applied() {
    let mut a = ClientAcc::new_test_account();
    let ten = Some(Decimal::new(10, 0));
    // a payment needs an amount and a fresh id
    assert!(!a.admits(&raw(RawTrasactionType::Deposit, 16, None)));
    assert!(!a.admits(&raw(RawTrasactionType::Withdrawal, 16, None)));
    assert!(!a.admits(&raw(RawTrasactionType::Deposit, 5, ten)));
    assert!(!a.admits(&raw(RawTrasactionType::Withdrawal, 5, ten)));
    assert!(a.admits(&raw(RawTrasactionType::Deposit, 16, ten)));
    assert!(a.admits(&raw(RawTrasactionType::Withdrawal, 16, ten)));
    // disputes are admitted whatever they will return
    assert!(a.admits(&raw(RawTrasactionType::Dispute, 1, None)));
    assert!(a.admits(&raw(RawTrasactionType::Dispute, 99, None)));
    assert!(a.admits(&raw(RawTrasactionType::Resolve, 1, None)));
    assert!(a.admits(&raw(RawTrasactionType::Chargeback, 99, None)));
    // a sum beyond 96 bits cannot be held
    let huge = Decimal::from_mantissa((1i128 << 96) - 1, 0);
    assert!(huge.is_some());
    assert!(!a.admits(&raw(RawTrasactionType::Deposit, 16, huge)));
    // nor can a sum that needs more digits than 96 bits have
    let big = Decimal::from_mantissa(70_000_000_000_000_000_000_000_000_000, 0);
    assert!(a.admits(&raw(RawTrasactionType::Deposit, 16, big)));
    a.try_apply_new_raw_transaction(raw(RawTrasactionType::Deposit, 16, big)).unwrap();
    let tenth = Some(Decimal::new(1, 1));
    assert!(!a.admits(&raw(RawTrasactionType::Deposit, 17, tenth)));
    assert!(!a.admits(&raw(RawTrasactionType::Withdrawal, 17, tenth)));
    assert!(a.admits(&raw(RawTrasactionType::Withdrawal, 17, ten)));
}

#[test]
fn replay_stops_at_the_first_transaction_that_is_not_admitted() {
    let d = |n: i64| Some(Decimal::new(n, 0));
    let raws = vec![
        raw(RawTrasactionType::Deposit, 1, d(10)),
        raw(RawTrasactionType::Withdrawal, 2, d(50)),
        raw(RawTrasactionType::Deposit, 1, d(10)),
        raw(RawTrasactionType::Deposit, 3, d(10)),
    ];
    let mut a = ClientAcc::new(1);
    assert_eq!(a.replay(&raws), Err(2));
    assert_eq!(a.available(), Decimal::new(10, 0));
    assert_eq!(a.get_trans(2).unwrap().state(), AccTransState::Failed);
    assert!(a.get_trans(3).is_none());

    let mut b = ClientAcc::new(1);
    assert_eq!(
        b.replay(&raws[..2].to_vec()),
        Ok(vec![Ok(()), Err(AccountErr::AccMoney(BalanceErr::NotEnoughAvailableFounds))])
    );
    assert_eq!(b.available(), Decimal::new(10, 0));

    let mut c = ClientAcc::new(1);
    assert_eq!(c.replay(&Vec::new()), Ok(Vec::new()));
    assert_eq!(c.available(), Decimal::zero());
}
