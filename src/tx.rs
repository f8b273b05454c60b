//! The account actor, which owns one account and its private ledger, and the
//! dispatcher, which routes each transaction to the actor of its client.
use std::collections::{HashMap, HashSet};
use vstd::prelude::*;

use crate::account::{ledger_after, Account, AccountError};
use crate::lemmas::lemma_run_is_per_client_replay;
use crate::{ClientId, Transaction, TxId, TxType};

verus! {

/// What an actor holds: its account and its ledger.
pub type ActorState = (Account, Map<TxId, Transaction>);

/// The state of a client's actor before any transaction reached it.
pub open spec fn initial_state(client_id: ClientId) -> ActorState {
    (Account::spec_new(client_id), Map::empty())
}

/// The entry stored in the ledger for a deposit or withdrawal.
pub open spec fn ledger_entry(t: Transaction) -> Transaction {
    Transaction { in_dispute: false, ..t }
}

/// One step of an actor: on success the account is replaced, the ledger's
/// dispute marks are updated and a deposit or withdrawal is recorded; on
/// failure nothing changes.
pub open spec fn apply(s: ActorState, t: Transaction) -> ActorState {
    let r = s.0.spec_process(t, s.1);
    match r {
        Ok(a) => {
            let ledger = ledger_after(t, s.1, r);
            (a, if t.is_recorded_kind() { ledger.insert(t.tx_id, ledger_entry(t)) } else { ledger })
        },
        Err(_) => s,
    }
}

/// The state after applying `txs` in order, starting from `s`.
pub open spec fn replay(s: ActorState, txs: Seq<Transaction>) -> ActorState
    decreases txs.len(),
{
    if txs.len() == 0 {
        s
    } else {
        apply(replay(s, txs.drop_last()), txs.last())
    }
}

/// What an actor did with one message.
#[derive(Clone, Copy, Debug, PartialEq, Eq, Structural)]
pub enum ActorAction {
    /// The transaction was applied.
    Applied,
    /// The transaction was dropped for this reason; nothing changed.
    Rejected(AccountError),
    /// The stream ended: this is the final account, to be emitted once.
    Finished(Account),
}

/// Owns one client's account and ledger and applies that client's
/// transactions in arrival order.
pub struct AccountActor {
    account: Account,
    history: HashMap<TxId, Transaction>,
}

impl View for AccountActor {
    type V = ActorState;

    closed spec fn view(&self) -> ActorState {
        (self.account, self.history@)
    }
}

impl AccountActor {
    /// An actor for `client_id` with a fresh account and an empty ledger.
    pub fn new(client_id: ClientId) -> (r: AccountActor)
        ensures
            r@ == initial_state(client_id),
    {
        AccountActor { account: Account::new(client_id), history: HashMap::new() }
    }

    /// The current account state.
    pub fn account(&self) -> (r: Account)
        ensures
            r == self@.0,
    {
        self.account
    }

    /// Applies one transaction; a failure leaves account and ledger unchanged
    /// and is returned.
    pub fn apply_transaction(&mut self, t: &Transaction) -> (r: Result<(), AccountError>)
        ensures
            final(self)@ == apply(old(self)@, *t),
            r == match old(self)@.0.spec_process(*t, old(self)@.1) {
                Ok(_) => Ok::<(), AccountError>(()),
                Err(e) => Err(e),
            },
            old(self)@.0.wf() ==> final(self)@.0.wf(),
    {
        match self.account.process_transaction(t, &mut self.history) {
            Ok(a) => {
                self.account = a;
                if t.is_recordable() {
                    self.history.insert(t.tx_id, Transaction { in_dispute: false, ..*t });
                }
                Ok(())
            },
            Err(e) => Err(e),
        }
    }

    /// Handles one mailbox message: a transaction, or `None` for the end of
    /// the stream, on which the final account is handed out.
    pub fn handle(&mut self, msg: Option<Transaction>) -> (r: ActorAction)
        ensures
            match msg {
                None => final(self)@ == old(self)@ && r == ActorAction::Finished(old(self)@.0),
                Some(t) => {
                    &&& final(self)@ == apply(old(self)@, t)
                    &&& r == match old(self)@.0.spec_process(t, old(self)@.1) {
                        Ok(_) => ActorAction::Applied,
                        Err(e) => ActorAction::Rejected(e),
                    }
                },
            },
            old(self)@.0.wf() ==> final(self)@.0.wf(),
    {
        match msg {
            None => ActorAction::Finished(self.account),
            Some(t) => match self.apply_transaction(&t) {
                Ok(()) => ActorAction::Applied,
                Err(e) => ActorAction::Rejected(e),
            },
        }
    }
}

/// The transactions of `txs` that belong to `client_id`, in stream order.
pub open spec fn for_client(txs: Seq<Transaction>, client_id: ClientId) -> Seq<Transaction>
    decreases txs.len(),
{
    if txs.len() == 0 {
        Seq::empty()
    } else {
        let prev = for_client(txs.drop_last(), client_id);
        if txs.last().client_id == client_id {
            prev.push(txs.last())
        } else {
            prev
        }
    }
}

/// The clients of `txs`, each once, in order of first sight.
pub open spec fn clients_of(txs: Seq<Transaction>) -> Seq<ClientId>
    decreases txs.len(),
{
    if txs.len() == 0 {
        Seq::empty()
    } else {
        let prev = clients_of(txs.drop_last());
        if prev.contains(txs.last().client_id) {
            prev
        } else {
            prev.push(txs.last().client_id)
        }
    }
}

/// The whole engine on the stream `txs`: each transaction goes, in order, to
/// the actor of its client, which is created on first sight of the client.
pub open spec fn run(txs: Seq<Transaction>) -> Map<ClientId, ActorState>
    decreases txs.len(),
{
    if txs.len() == 0 {
        Map::empty()
    } else {
        let actors = run(txs.drop_last());
        let t = txs.last();
        let current = if actors.contains_key(t.client_id) {
            actors[t.client_id]
        } else {
            initial_state(t.client_id)
        };
        actors.insert(t.client_id, apply(current, t))
    }
}

/// Where the dispatcher sends a transaction.
#[derive(Clone, Copy, Debug, PartialEq, Eq, Structural)]
pub enum Route {
    /// First sight of this client: create its actor, then forward to it.
    Spawn(ClientId),
    /// Forward to the existing actor of this client.
    Forward(ClientId),
}

/// The dispatcher's state: the clients whose actors exist, in order of
/// creation.
pub struct TxProcessor {
    known: HashSet<ClientId>,
    order: Vec<ClientId>,
}

impl View for TxProcessor {
    type V = Seq<ClientId>;

    closed spec fn view(&self) -> Seq<ClientId> {
        self.order@
    }
}

impl TxProcessor {
    /// The tracked clients are distinct, and the lookup set holds exactly them.
    pub closed spec fn wf(&self) -> bool {
        &&& self.known@ == self.order@.to_set()
        &&& self.order@.no_duplicates()
    }

    /// A dispatcher that tracks no client yet.
    pub fn new() -> (r: TxProcessor)
        ensures
            r.wf(),
            r@ == Seq::<ClientId>::empty(),
    {
        let r = TxProcessor { known: HashSet::new(), order: Vec::new() };
        assert(r.order@.to_set() =~= Set::empty());
        r
    }

    /// Decides where `t` goes, and tracks its client from now on.
    pub fn route(&mut self, t: &Transaction) -> (r: Route)
        requires
            old(self).wf(),
        ensures
            final(self).wf(),
            old(self)@.contains(t.client_id) ==> r == Route::Forward(t.client_id) && final(self)@
                == old(self)@,
            !old(self)@.contains(t.client_id) ==> r == Route::Spawn(t.client_id) && final(self)@
                == old(self)@.push(t.client_id),
    {
        let c = t.client_id;
        if self.known.contains(&c) {
            assert(self.order@.to_set().contains(c));
            Route::Forward(c)
        } else {
            proof {
                if self.order@.contains(c) {
                    assert(self.order@.to_set().contains(c));
                }
            }
            proof {
                self.order@.lemma_push_to_set_commute(c);
            }
            self.known.insert(c);
            self.order.push(c);
            assert(self.known@ =~= self.order@.to_set());
            Route::Spawn(c)
        }
    }

    /// The clients whose actors exist, in order of creation: on the end of
    /// the stream each of them is told to finish.
    pub fn clients(&self) -> (r: Vec<ClientId>)
        ensures
            r@ == self@,
    {
        self.order.clone()
    }

    /// Runs the whole stream `txs` through the engine, one transaction after
    /// another, and returns the final account of each client in order of
    /// first sight.
    pub fn process_all(txs: &Vec<Transaction>) -> (r: Vec<Account>)
        ensures
            r@.len() == clients_of(txs@).len(),
            forall|i: int| 0 <= i < r@.len() ==> r@[i] == run(txs@)[clients_of(txs@)[i]].0,
    {
        let mut router = TxProcessor::new();
        let mut actors: HashMap<ClientId, AccountActor> = HashMap::new();
        let mut i: usize = 0;
        proof {
            assert(txs@.take(0) =~= Seq::<Transaction>::empty());
            assert(actors@.dom() =~= run(txs@.take(0)).dom());
        }
        while i < txs.len()
            invariant
                0 <= i <= txs@.len(),
                router.wf(),
                router@ == clients_of(txs@.take(i as int)),
                actors@.dom() == run(txs@.take(i as int)).dom(),
                forall|c: ClientId| #[trigger]
                    actors@.contains_key(c) ==> actors@[c]@ == run(txs@.take(i as int))[c],
            decreases txs.len() - i,
        {
            let t = txs[i];
            let ghost before = txs@.take(i as int);
            proof {
                assert(txs@.take(i + 1).drop_last() =~= before);
                assert(txs@.take(i + 1).last() == t);
                lemma_run_is_per_client_replay(before, t.client_id);
            }
            match router.route(&t) {
                Route::Spawn(c) => {
                    let mut a = AccountActor::new(c);
                    let _ = a.apply_transaction(&t);
                    actors.insert(c, a);
                },
                Route::Forward(c) => {
                    match actors.remove(&c) {
                        Some(mut a) => {
                            let _ = a.apply_transaction(&t);
                            actors.insert(c, a);
                        },
                        None => {},
                    }
                },
            }
            proof {
                assert(actors@.dom() =~= run(txs@.take(i + 1)).dom());
            }
            i += 1;
        }
        proof {
            assert(txs@.take(i as int) =~= txs@);
        }
        let cs = router.clients();
        let mut out: Vec<Account> = Vec::new();
        let mut j: usize = 0;
        while j < cs.len()
            invariant
                0 <= j <= cs@.len(),
                cs@ == clients_of(txs@),
                actors@.dom() == run(txs@).dom(),
                forall|c: ClientId| #[trigger]
                    actors@.contains_key(c) ==> actors@[c]@ == run(txs@)[c],
                out@.len() == j,
                forall|k: int| 0 <= k < j ==> out@[k] == run(txs@)[cs@[k]].0,
            decreases cs.len() - j,
        {
            let c = cs[j];
            proof {
                assert(cs@.contains(c));
                lemma_run_is_per_client_replay(txs@, c);
            }
            match actors.get(&c) {
                Some(a) => out.push(a.account()),
                None => {},
            }
            j += 1;
        }
        out
    }
}

} // verus!
