use accounts_state::account::transactions::AccTransState;
use accounts_state::account::{Account, ClientAcc};
use accounts_state::csv::{RawTransaction, RawTrasactionType};
use accounts_state::decimal::Decimal;
use accounts_state::errors::{AccountErr, BalanceErr};
use accounts_state::pipeline::{create_clinet_account, group_by_clinet};

fn raw(kind: RawTrasactionType, client: u16, tx: u32, amount: Option<i64>) -> RawTransaction {
    RawTransaction {
        kind,
        client,
        transaction_id: tx,
        amount: amount.map(|n| Decimal::new(n, 1)),
    }
}

fn stream() -> Vec<RawTransaction> {
    vec![
        raw(RawTrasactionType::Deposit, 2, 1, Some(20)),
        raw(RawTrasactionType::Deposit, 1, 2, Some(10)),
        raw(RawTrasactionType::Deposit, 65535, 3, Some(5)),
        raw(RawTrasactionType::Withdrawal, 1, 4, Some(15)),
        raw(RawTrasactionType::Deposit, 0, 5, Some(1)),
        raw(RawTrasactionType::Withdrawal, 2, 6, Some(30)),
        raw(RawTrasactionType::Dispute, 2, 1, None),
        raw(RawTrasactionType::Deposit, 1, 7, Some(20)),
        raw(RawTrasactionType::Chargeback, 2, 1, None),
        raw(RawTrasactionType::Deposit, 2, 8, Some(1)),
    ]
}

#[test]
fn groups_come_by_client_and_keep_arrival_order() {
    let input = stream();
    let groups = group_by_clinet(input.clone());
    let clients: Vec<u16> = groups.iter().map(|g| g.0).collect();
    assert_eq!(clients, vec![0, 1, 2, 65535]);
    for (client, transactions) in &groups {
        let expected: Vec<RawTransaction> =
            input.iter().filter(|t| t.client == *client).cloned().collect();
        assert_eq!(transactions, &expected);
        assert!(!transactions.is_empty());
    }
    let ids: Vec<u32> = groups[2].1.iter().map(|t| t.transaction_id).collect();
    assert_eq!(ids, vec![1, 6, 1, 1, 8]);
}

#[test]
fn groups_hold_each_transaction_exactly_once() {
    let mut input = stream();
    // the same transaction twice in the stream is twice in its group
    input.push(input[3]);
    let groups = group_by_clinet(input.clone());
    let grouped: usize = groups.iter().map(|g| g.1.len()).sum();
    assert_eq!(grouped, input.len());
    for t in &input {
        let in_stream = input.iter().filter(|u| *u == t).count();
        for (client, transactions) in &groups {
            let in_group = transactions.iter().filter(|u| *u == t).count();
            assert_eq!(in_group, if *client == t.client { in_stream } else { 0 });
        }
    }
}

#[test]
fn no_transactions_give_no_groups() {
    assert!(group_by_clinet(Vec::new()).is_empty());
    assert_eq!(create_clinet_account(Vec::new()).unwrap().len(), 0);
}

#[test]
fn accounts_are_replayed_in_order() {
    let replayed = create_clinet_account(group_by_clinet(stream())).unwrap();
    assert_eq!(replayed.len(), 4);
    let accounts: Vec<&ClientAcc> = replayed.iter().map(|r| &r.0).collect();

    assert_eq!(accounts[0].client_id(), 0);
    assert_eq!(accounts[0].available(), Decimal::new(1, 1));

    // client 1: the withdrawal of 1.5 comes before the second deposit
    assert_eq!(accounts[1].client_id(), 1);
    assert_eq!(accounts[1].available(), Decimal::new(30, 1));
    assert_eq!(accounts[1].get_trans(4).unwrap().state(), AccTransState::Failed);
    assert!(!accounts[1].is_locked());

    assert_eq!(accounts[2].client_id(), 2);
    assert_eq!(accounts[2].available(), Decimal::zero());
    assert_eq!(accounts[2].held(), Decimal::zero());
    assert!(accounts[2].is_locked());
    assert_eq!(accounts[2].get_trans(1).unwrap().state(), AccTransState::Chargebacked);
    assert_eq!(accounts[2].get_trans(6).unwrap().state(), AccTransState::Failed);
    assert_eq!(accounts[2].get_trans(8).unwrap().state(), AccTransState::Failed);

    assert_eq!(accounts[3].client_id(), 65535);
    assert_eq!(accounts[3].available(), Decimal::new(5, 1));

    // what each transaction returned, client by client
    let short = Err(AccountErr::AccMoney(BalanceErr::NotEnoughAvailableFounds));
    assert_eq!(replayed[0].1, vec![Ok(())]);
    assert_eq!(replayed[1].1, vec![Ok(()), short, Ok(())]);
    assert_eq!(replayed[2].1, vec![Ok(()), short, Ok(()), Ok(()), Err(AccountErr::Frozen)]);
    assert_eq!(replayed[3].1, vec![Ok(())]);
}

#[test]
fn a_transaction_that_cannot_be_applied_gives_none() {
    let mut input = stream();
    input.push(raw(RawTrasactionType::Deposit, 1, 2, Some(1)));
    assert!(create_clinet_account(group_by_clinet(input)).is_none());

    let mut input = stream();
    input.push(raw(RawTrasactionType::Withdrawal, 3, 9, None));
    assert!(create_clinet_account(group_by_clinet(input)).is_none());
}
