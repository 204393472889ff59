//! From a stream of transactions to accounts: the stream is split by client,
//! each client's transactions keeping their order, and each client's
//! transactions are replayed on a fresh account.

use crate::account::model::AccountView;
use crate::account::ClientAcc;
use crate::csv::RawTransaction;
use crate::errors::AccountErr;
use crate::ClientID;
use std::collections::BTreeMap;
use vstd::prelude::*;

verus! {

broadcast use vstd::laws_cmp::group_laws_cmp;

/// One client with its transactions, in the order in which they arrived.
pub type GroupedRawTransaction = (ClientID, Vec<RawTransaction>);

/// The transactions of one client among `raws`, in their order.
pub open spec fn of_client(raws: Seq<RawTransaction>, client: ClientID) -> Seq<RawTransaction>
    decreases raws.len(),
{
    if raws.len() == 0 {
        Seq::empty()
    } else if raws.last().client == client {
        of_client(raws.drop_last(), client).push(raws.last())
    } else {
        of_client(raws.drop_last(), client)
    }
}

/// The account of one client after the whole stream was applied transaction
/// by transaction, each to the account of its client, all accounts starting
/// fresh.
pub open spec fn account_after(raws: Seq<RawTransaction>, client: ClientID) -> AccountView
    decreases raws.len(),
{
    if raws.len() == 0 {
        AccountView::new(client)
    } else if raws.last().client == client {
        account_after(raws.drop_last(), client).apply(raws.last())
    } else {
        account_after(raws.drop_last(), client)
    }
}

/// Accounts do not touch one another: what the stream makes of a client's
/// account is what that client's own transactions, replayed in their order,
/// make of it. So the stream may be split by client and the clients replayed
/// apart from one another.
pub proof fn law_clients_are_independent(raws: Seq<RawTransaction>, client: ClientID)
    ensures
        account_after(raws, client) == AccountView::new(client).replay(of_client(raws, client)),
    decreases raws.len(),
{
    if raws.len() > 0 {
        law_clients_are_independent(raws.drop_last(), client);
        if raws.last().client == client {
            let own = of_client(raws.drop_last(), client);
            assert(own.push(raws.last()).drop_last() =~= own);
        }
    }
}

/// The groups hold each transaction of the stream exactly as often as the
/// stream does, once for each time it occurs: the group of a client holds
/// each of that client's transactions as often as the stream holds it, and
/// no transaction of another client.
pub proof fn law_groups_hold_each_transaction_once(
    raws: Seq<RawTransaction>,
    client: ClientID,
    t: RawTransaction,
)
    ensures
        of_client(raws, client).to_multiset().count(t) == if t.client == client {
            raws.to_multiset().count(t)
        } else {
            0
        },
        of_client(raws, client).len() <= raws.len(),
    decreases raws.len(),
{
    broadcast use vstd::seq_lib::group_to_multiset_ensures;

    if raws.len() > 0 {
        let front = raws.drop_last();
        let last = raws.last();
        law_groups_hold_each_transaction_once(front, client, t);
        assert(raws =~= front.push(last));
        vstd::seq_lib::to_multiset_build(front, last);
        if last.client == client {
            vstd::seq_lib::to_multiset_build(of_client(front, client), last);
        }
    } else {
        assert(raws.to_multiset().len() == 0);
    }
}

/// Splits the transactions by client. Each client that occurs gets one
/// group, which holds all its transactions in the order in which they
/// arrived; the groups come out by ascending client id.
pub fn group_by_clinet(input: Vec<RawTransaction>) -> (output: Vec<GroupedRawTransaction>)
    ensures
        forall|i: int, j: int| 0 <= i < j < output.len() ==> output[i].0 < output[j].0,
        forall|i: int|
            0 <= i < output.len() ==> (#[trigger] output[i]).1@ == of_client(input@, output[i].0)
                && output[i].1.len() > 0,
        forall|client: ClientID|
            #![trigger of_client(input@, client)]
            of_client(input@, client).len() > 0 ==> exists|i: int|
                0 <= i < output.len() && (#[trigger] output[i]).0 == client,
{
    let mut per_client: BTreeMap<ClientID, Vec<RawTransaction>> = BTreeMap::new();
    let mut k: usize = 0;
    while k < input.len()
        invariant
            k <= input.len(),
            forall|c: ClientID|
                #![trigger per_client@.contains_key(c)]
                per_client@.contains_key(c) <==> of_client(input@.take(k as int), c).len() > 0,
            forall|c: ClientID|
                #![trigger per_client@[c]]
                per_client@.contains_key(c) ==> per_client@[c]@ == of_client(
                    input@.take(k as int),
                    c,
                ),
        decreases input.len() - k,
    {
        let raw_trans = input[k];
        let mut client_transactions = match per_client.remove(&raw_trans.client) {
            Some(transactions) => transactions,
            None => Vec::with_capacity(8192),
        };
        client_transactions.push(raw_trans);
        per_client.insert(raw_trans.client, client_transactions);
        proof {
            assert(input@.take(k + 1).drop_last() =~= input@.take(k as int));
            assert(input@.take(k + 1).last() == raw_trans);
        }
        k = k + 1;
    }
    proof {
        assert(input@.take(k as int) =~= input@);
    }
    let ghost full = per_client@;
    let mut output: Vec<GroupedRawTransaction> = Vec::new();
    let mut id: u32 = 0;
    while id <= 0xFFFF
        invariant
            id <= 0x1_0000,
            forall|c: ClientID|
                #![trigger full.contains_key(c)]
                full.contains_key(c) <==> of_client(input@, c).len() > 0,
            forall|c: ClientID|
                #![trigger full[c]]
                full.contains_key(c) ==> full[c]@ == of_client(input@, c),
            forall|c: ClientID|
                #![trigger per_client@.contains_key(c)]
                c >= id ==> (per_client@.contains_key(c) <==> full.contains_key(c)),
            forall|c: ClientID|
                #![trigger per_client@[c]]
                c >= id && full.contains_key(c) ==> per_client@[c] == full[c],
            forall|i: int, j: int| 0 <= i < j < output.len() ==> output[i].0 < output[j].0,
            forall|i: int|
                0 <= i < output.len() ==> (#[trigger] output[i]).0 < id && full.contains_key(
                    output[i].0,
                ) && output[i].1 == full[output[i].0],
            forall|c: ClientID|
                #![trigger full.contains_key(c)]
                c < id && full.contains_key(c) ==> exists|i: int|
                    0 <= i < output.len() && (#[trigger] output[i]).0 == c,
        decreases 0x1_0000 - id,
    {
        let client = id as ClientID;
        let ghost before = output@;
        match per_client.remove(&client) {
            Some(transactions) => {
                output.push((client, transactions));
                assert(output[before.len() as int].0 == client);
            },
            None => {},
        }
        assert forall|c: ClientID|
            #![trigger full.contains_key(c)]
            c < id + 1 && full.contains_key(c) implies exists|i: int|
            0 <= i < output.len() && (#[trigger] output[i]).0 == c by {
            if c < id {
                let i = choose|i: int| 0 <= i < before.len() && (#[trigger] before[i]).0 == c;
                assert(output[i].0 == c);
            }
        }
        id = id + 1;
    }
    assert forall|client: ClientID|
        #![trigger of_client(input@, client)]
        of_client(input@, client).len() > 0 implies exists|i: int|
        0 <= i < output.len() && (#[trigger] output[i]).0 == client by {
        assert(full.contains_key(client));
    }
    output
}

/// One client's account after a replay, with what each of the client's
/// transactions returned.
pub type ReplayedAccount = (ClientAcc, Vec<Result<(), AccountErr>>);

/// Replays each client's transactions in order on a fresh account of that
/// client; a transaction that returns an error does not stop the ones after
/// it. Each account comes with what each of its transactions returned. `None`
/// says that some transaction could not be carried out.
pub fn create_clinet_account(input: Vec<GroupedRawTransaction>) -> (output: Option<
    Vec<ReplayedAccount>,
>)
    ensures
        output is Some <==> forall|i: int|
            0 <= i < input.len() ==> AccountView::new((#[trigger] input[i]).0).admits_all(
                input[i].1@,
            ),
        output matches Some(accounts) ==> {
            &&& accounts.len() == input.len()
            &&& forall|i: int|
                0 <= i < input.len() ==> {
                    &&& (#[trigger] accounts[i]).0@ == AccountView::new(input[i].0).replay(
                        input[i].1@,
                    )
                    &&& accounts[i].1@ == AccountView::new(input[i].0).outcomes(input[i].1@)
                    &&& accounts[i].0@.wf()
                    &&& accounts[i].0@.client_id == input[i].0
                }
        },
{
    let mut accounts: Vec<ReplayedAccount> = Vec::new();
    let mut n: usize = 0;
    while n < input.len()
        invariant
            n <= input.len(),
            accounts.len() == n,
            forall|i: int|
                0 <= i < n ==> AccountView::new((#[trigger] input[i]).0).admits_all(input[i].1@),
            forall|i: int|
                0 <= i < n ==> {
                    &&& (#[trigger] accounts[i]).0@ == AccountView::new(input[i].0).replay(
                        input[i].1@,
                    )
                    &&& accounts[i].1@ == AccountView::new(input[i].0).outcomes(input[i].1@)
                    &&& accounts[i].0@.wf()
                    &&& accounts[i].0@.client_id == input[i].0
                },
        decreases input.len() - n,
    {
        let client_id = input[n].0;
        let mut client_acc = ClientAcc::new(client_id);
        let outcomes = match client_acc.replay(&input[n].1) {
            Ok(outcomes) => outcomes,
            Err(_) => return None,
        };
        accounts.push((client_acc, outcomes));
        n = n + 1;
    }
    Some(accounts)
}

} // verus!
