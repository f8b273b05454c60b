//! Laws of the account actor, stated over `apply` and `replay`.
use vstd::prelude::*;

use crate::account::AccountError;
use crate::tx::{apply, clients_of, for_client, initial_state, replay, run, ActorState};
use crate::{ClientId, Transaction, TxType};

verus! {

/// Every account reached by replaying transactions from a balanced account
/// is balanced: its total equals its available plus its held funds.
pub proof fn lemma_replay_keeps_total(s: ActorState, txs: Seq<Transaction>)
    requires
        s.0.wf(),
    ensures
        replay(s, txs).0.wf(),
    decreases txs.len(),
{
    if txs.len() > 0 {
        lemma_replay_keeps_total(s, txs.drop_last());
    }
}

/// Once an account is locked, no transaction changes it or its ledger: each
/// one is rejected as frozen.
pub proof fn lemma_locked_account_is_final(s: ActorState, txs: Seq<Transaction>)
    requires
        s.0.is_locked,
    ensures
        replay(s, txs) == s,
        forall|i: int|
            0 <= i < txs.len() ==> s.0.spec_process(#[trigger] txs[i], s.1) == Err::<
                crate::account::Account,
                AccountError,
            >(AccountError::Frozen(s.0.client_id)),
    decreases txs.len(),
{
    if txs.len() > 0 {
        lemma_locked_account_is_final(s, txs.drop_last());
    }
}

/// A withdrawal of more than the available funds from an unlocked account is
/// reported as insufficient funds and leaves account and ledger unchanged.
pub proof fn lemma_overdraft_rejected(s: ActorState, t: Transaction)
    requires
        !s.0.is_locked,
        t.tx_type == TxType::Withdrawal,
        t.amount > s.0.available_amount,
    ensures
        s.0.spec_process(t, s.1) == Err::<crate::account::Account, AccountError>(
            AccountError::InssuficientFundsForWithdrawal(s.0.client_id),
        ),
        apply(s, t) == s,
{
}

/// Every ledger entry after a replay was in the starting ledger or carries
/// the id of one of the replayed transactions.
pub proof fn lemma_ledger_ids_seen(s: ActorState, txs: Seq<Transaction>, id: crate::TxId)
    requires
        replay(s, txs).1.contains_key(id),
    ensures
        s.1.contains_key(id) || exists|i: int| 0 <= i < txs.len() && (#[trigger] txs[i]).tx_id == id,
    decreases txs.len(),
{
    if txs.len() > 0 {
        let prev = replay(s, txs.drop_last());
        if prev.1.contains_key(id) {
            lemma_ledger_ids_seen(s, txs.drop_last(), id);
            if !s.1.contains_key(id) {
                let i = choose|i: int|
                    0 <= i < txs.drop_last().len() && (#[trigger] txs.drop_last()[i]).tx_id == id;
                assert(txs[i] == txs.drop_last()[i]);
            }
        } else {
            assert(txs[txs.len() - 1].tx_id == id);
        }
    }
}

/// A dispute, resolve or chargeback naming a transaction id that never
/// reached this client's unlocked account is reported as unknown and leaves
/// account and ledger unchanged.
pub proof fn lemma_unknown_reference_rejected(
    client_id: ClientId,
    txs: Seq<Transaction>,
    t: Transaction,
)
    requires
        !replay(initial_state(client_id), txs).0.is_locked,
        t.tx_type == TxType::Dispute || t.tx_type == TxType::Resolve || t.tx_type
            == TxType::Chargeback,
        forall|i: int| 0 <= i < txs.len() ==> (#[trigger] txs[i]).tx_id != t.tx_id,
    ensures
        ({
            let s = replay(initial_state(client_id), txs);
            &&& s.0.spec_process(t, s.1) == Err::<crate::account::Account, AccountError>(
                AccountError::NoTxForDispute(t.tx_id),
            )
            &&& apply(s, t) == s
        }),
{
    let s = replay(initial_state(client_id), txs);
    if s.1.contains_key(t.tx_id) {
        lemma_ledger_ids_seen(initial_state(client_id), txs, t.tx_id);
    }
}

/// The engine keeps an actor for exactly the clients that occur in the
/// stream, and each actor's state is the replay of that client's own
/// transactions, in stream order, from a fresh account.
pub proof fn lemma_run_is_per_client_replay(txs: Seq<Transaction>, client_id: ClientId)
    ensures
        run(txs).contains_key(client_id) <==> for_client(txs, client_id).len() > 0,
        run(txs).contains_key(client_id) <==> clients_of(txs).contains(client_id),
        run(txs).contains_key(client_id) ==> run(txs)[client_id] == replay(
            initial_state(client_id),
            for_client(txs, client_id),
        ),
    decreases txs.len(),
{
    if txs.len() > 0 {
        let prev = txs.drop_last();
        let t = txs.last();
        lemma_run_is_per_client_replay(prev, client_id);
        lemma_run_is_per_client_replay(prev, t.client_id);
        if t.client_id == client_id {
            let own = for_client(prev, client_id);
            assert(own.push(t).drop_last() =~= own);
            assert(replay(initial_state(client_id), own.push(t)) == apply(
                replay(initial_state(client_id), own),
                t,
            ));
            if own.len() == 0 {
                assert(replay(initial_state(client_id), own) == initial_state(client_id));
            }
        }
        let cs = clients_of(prev);
        if !cs.contains(t.client_id) {
            assert(cs.push(t.client_id).contains(client_id) <==> cs.contains(client_id)
                || t.client_id == client_id) by {
                if cs.push(t.client_id).contains(client_id) && t.client_id != client_id {
                    let k = choose|k: int| 0 <= k < cs.len() + 1 && cs.push(t.client_id)[k] == client_id;
                    assert(cs[k] == client_id);
                }
                if t.client_id == client_id {
                    assert(cs.push(t.client_id)[cs.len() as int] == client_id);
                }
                if cs.contains(client_id) {
                    let k = choose|k: int| 0 <= k < cs.len() && cs[k] == client_id;
                    assert(cs.push(t.client_id)[k] == client_id);
                }
            }
        }
    }
}

/// The final state of a client depends only on the order of that client's
/// own transactions: two streams that agree on it, however they interleave
/// other clients' transactions, give the client the same account and ledger.
pub proof fn lemma_client_state_ignores_interleaving(
    a: Seq<Transaction>,
    b: Seq<Transaction>,
    client_id: ClientId,
)
    requires
        for_client(a, client_id) == for_client(b, client_id),
    ensures
        run(a).contains_key(client_id) == run(b).contains_key(client_id),
        run(a).contains_key(client_id) ==> run(a)[client_id] == run(b)[client_id],
{
    lemma_run_is_per_client_replay(a, client_id);
    lemma_run_is_per_client_replay(b, client_id);
}

/// Every account that the engine holds after any prefix of any stream is
/// balanced: its total equals its available plus its held funds.
pub proof fn lemma_engine_accounts_balanced(txs: Seq<Transaction>, client_id: ClientId)
    ensures
        run(txs).contains_key(client_id) ==> run(txs)[client_id].0.wf(),
{
    lemma_run_is_per_client_replay(txs, client_id);
    lemma_replay_keeps_total(initial_state(client_id), for_client(txs, client_id));
}

} // verus!
