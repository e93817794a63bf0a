use crate::common::types::{ClientId, TransactionId};
use crate::managers::ledger::LedgerState;
use crate::models::client::{AccountState, Client};
use crate::models::client_snapshot::ClientSnapshot;
use crate::models::transaction::{InputRowTransactionType, Transaction, TransactionRecord};
use std::collections::{HashMap, HashSet};
use vstd::prelude::*;
use vstd::std_specs::iter::IteratorSpec;

verus! {

broadcast use vstd::std_specs::hash::group_hash_axioms;

/// Why the ledger turned a transaction down.
#[derive(Debug, Clone, Copy, PartialEq, Eq, Structural)]
pub enum TxError {
    /// The client's account is locked after a chargeback.
    ClientFrozen(ClientId),
    /// The client already has a deposit or withdrawal under this id.
    DuplicateTransaction(TransactionId),
    /// The withdrawal asks for more than is available.
    InsufficientFunds(ClientId),
    /// A deposit or withdrawal came without an amount.
    NoAmount(TransactionId),
    /// The client has no deposit or withdrawal under this id.
    TransactionNotFound(TransactionId),
    /// The transaction is not under dispute.
    NotDisputed(TransactionId),
}

/// The number under which the tables file the transaction `id` of `client`:
/// the id in the upper bits, the client in the lowest sixteen.
spec fn pair_key(id: TransactionId, client: ClientId) -> u64 {
    (id * 65536 + client) as u64
}

/// Two transactions share a key only if they share id and client.
proof fn lemma_pair_key_injective(
    id1: TransactionId,
    client1: ClientId,
    id2: TransactionId,
    client2: ClientId,
)
    ensures
        pair_key(id1, client1) == pair_key(id2, client2) <==> id1 == id2 && client1 == client2,
{
}

/// Computes the number under which the tables file a transaction.
fn key_of(id: TransactionId, client: ClientId) -> (k: u64)
    ensures
        k == pair_key(id, client),
{
    (id as u64) * 65536 + (client as u64)
}

/// The accounts on file. The table's key says whose account an entry is.
spec fn accounts_view(db: Map<ClientId, Client>) -> Map<ClientId, AccountState> {
    Map::new(|id: ClientId| db.contains_key(id), |id: ClientId| db[id]@.filed_under(id))
}

/// The transactions on record, by id and client.
spec fn history_view(table: Map<u64, Transaction>) -> Map<
    (TransactionId, ClientId),
    TransactionRecord,
> {
    Map::new(
        |p: (TransactionId, ClientId)| table.contains_key(pair_key(p.0, p.1)),
        |p: (TransactionId, ClientId)| table[pair_key(p.0, p.1)]@,
    )
}

/// The transactions under dispute, by id and client.
spec fn disputed_view(keys: Set<u64>) -> Set<(TransactionId, ClientId)> {
    Set::new(|p: (TransactionId, ClientId)| keys.contains(pair_key(p.0, p.1)))
}

proof fn lemma_accounts_insert(db: Map<ClientId, Client>, id: ClientId, client: Client)
    ensures
        accounts_view(db.insert(id, client)) == accounts_view(db).insert(
            id,
            client@.filed_under(id),
        ),
{
    assert(accounts_view(db.insert(id, client)) =~= accounts_view(db).insert(
        id,
        client@.filed_under(id),
    ));
}

proof fn lemma_history_insert(
    table: Map<u64, Transaction>,
    id: TransactionId,
    client: ClientId,
    tx: Transaction,
)
    ensures
        history_view(table.insert(pair_key(id, client), tx)) == history_view(table).insert(
            (id, client),
            tx@,
        ),
{
    assert forall|p: (TransactionId, ClientId)|
        pair_key(p.0, p.1) == pair_key(id, client) <==> p == (id, client) by {
        lemma_pair_key_injective(p.0, p.1, id, client);
    }
    assert(history_view(table.insert(pair_key(id, client), tx)) =~= history_view(table).insert(
        (id, client),
        tx@,
    ));
}

proof fn lemma_disputed_insert(keys: Set<u64>, id: TransactionId, client: ClientId)
    ensures
        disputed_view(keys.insert(pair_key(id, client))) == disputed_view(keys).insert(
            (id, client),
        ),
{
    assert forall|p: (TransactionId, ClientId)|
        pair_key(p.0, p.1) == pair_key(id, client) <==> p == (id, client) by {
        lemma_pair_key_injective(p.0, p.1, id, client);
    }
    assert(disputed_view(keys.insert(pair_key(id, client))) =~= disputed_view(keys).insert(
        (id, client),
    ));
}

proof fn lemma_disputed_remove(keys: Set<u64>, id: TransactionId, client: ClientId)
    ensures
        disputed_view(keys.remove(pair_key(id, client))) == disputed_view(keys).remove(
            (id, client),
        ),
{
    assert forall|p: (TransactionId, ClientId)|
        pair_key(p.0, p.1) == pair_key(id, client) <==> p == (id, client) by {
        lemma_pair_key_injective(p.0, p.1, id, client);
    }
    assert(disputed_view(keys.remove(pair_key(id, client))) =~= disputed_view(keys).remove(
        (id, client),
    ));
}

/// A snapshot of the account that the table files under `id`.
fn snapshot_of(id: ClientId, client: &Client) -> (r: ClientSnapshot)
    ensures
        r@ == client@.filed_under(id),
{
    proof {
        use_type_invariant(client);
    }
    ClientSnapshot::new(id, client.get_available(), client.get_held(), client.is_locked())
}

/// The ledger: every client's account, the deposits and withdrawals on
/// record, and the transactions under dispute.
pub struct TransactionManager {
    client_db: HashMap<ClientId, Client>,
    tx_history: HashMap<u64, Transaction>,
    tx_disputed: HashSet<u64>,
}

impl View for TransactionManager {
    type V = LedgerState;

    closed spec fn view(&self) -> LedgerState {
        LedgerState {
            accounts: accounts_view(self.client_db@),
            history: history_view(self.tx_history@),
            disputed: disputed_view(self.tx_disputed@),
        }
    }
}

impl TransactionManager {
    /// A ledger without accounts or transactions.
    pub fn new() -> (r: Self)
        ensures
            r@ == LedgerState::empty(),
            r@.wf(),
    {
        let r = TransactionManager {
            client_db: HashMap::new(),
            tx_history: HashMap::new(),
            tx_disputed: HashSet::new(),
        };
        assert(r@ =~= LedgerState::empty());
        r
    }

    /// Handles one transaction: applies it to its client's account, or turns
    /// it down and says why. The client's account is on file afterwards
    /// either way.
    ///
    /// The balances the transaction leaves must be ones the machine can
    /// hold; `within_limits` tells.
    pub fn add_transaction(&mut self, tx: Transaction) -> (r: Result<(), TxError>)
        requires
            old(self)@.within_limits(tx@),
        ensures
            r == old(self)@.outcome(tx@),
            final(self)@ == old(self)@.next(tx@),
            old(self)@.wf() ==> final(self)@.wf(),
    {
        proof {
            if old(self)@.wf() {
                old(self)@.lemma_next_wf(tx@);
            }
        }
        let client_id: ClientId = tx.get_client_id();
        let tx_id: TransactionId = tx.get_transaction_id();
        let tx_type = tx.get_transaction_type();
        let tx_amount = tx.get_amount();
        let id_pair: u64 = key_of(tx_id, client_id);

        let mut client = match self.client_db.get(&client_id) {
            Some(known) => *known,
            None => Client::new(client_id),
        };
        assert(client@.filed_under(client_id) == old(self)@.account(client_id));

        let outcome = if client.is_locked() {
            Err(TxError::ClientFrozen(client_id))
        } else {
            match tx_type {
                InputRowTransactionType::Deposit => {
                    // an id serves one deposit or withdrawal of a client
                    if self.tx_history.contains_key(&id_pair) {
                        Err(TxError::DuplicateTransaction(tx_id))
                    } else if let Some(amount) = tx_amount {
                        client.deposit(amount);
                        proof {
                            lemma_history_insert(self.tx_history@, tx_id, client_id, tx);
                        }
                        self.tx_history.insert(id_pair, tx);
                        Ok(())
                    } else {
                        Err(TxError::NoAmount(tx_id))
                    }
                },
                InputRowTransactionType::Withdrawal => {
                    // an id serves one deposit or withdrawal of a client
                    if self.tx_history.contains_key(&id_pair) {
                        Err(TxError::DuplicateTransaction(tx_id))
                    } else if let Some(amount) = tx_amount {
                        // only what is available can be withdrawn
                        match client.withdraw(amount) {
                            Ok(()) => {
                                proof {
                                    lemma_history_insert(self.tx_history@, tx_id, client_id, tx);
                                }
                                self.tx_history.insert(id_pair, tx);
                                Ok(())
                            },
                            Err(_) => Err(TxError::InsufficientFunds(client_id)),
                        }
                    } else {
                        Err(TxError::NoAmount(tx_id))
                    }
                },
                InputRowTransactionType::Dispute => {
                    if let Some(transaction_to_dispute) = self.tx_history.get(&id_pair) {
                        if let Some(amount) = transaction_to_dispute.get_amount() {
                            client.dispute(
                                amount,
                                transaction_to_dispute.get_transaction_type().transaction_type(),
                            );
                            proof {
                                lemma_disputed_insert(self.tx_disputed@, tx_id, client_id);
                            }
                            self.tx_disputed.insert(id_pair);
                            Ok(())
                        } else {
                            Err(TxError::NoAmount(tx_id))
                        }
                    } else {
                        Err(TxError::TransactionNotFound(tx_id))
                    }
                },
                InputRowTransactionType::Resolve => {
                    // only an open dispute can be closed
                    if !self.tx_disputed.contains(&id_pair) {
                        Err(TxError::NotDisputed(tx_id))
                    } else if let Some(transaction) = self.tx_history.get(&id_pair) {
                        if let Some(amount) = transaction.get_amount() {
                            client.resolve(
                                amount,
                                transaction.get_transaction_type().transaction_type(),
                            );
                            proof {
                                lemma_disputed_remove(self.tx_disputed@, tx_id, client_id);
                            }
                            self.tx_disputed.remove(&id_pair);
                            Ok(())
                        } else {
                            Err(TxError::NoAmount(tx_id))
                        }
                    } else {
                        Err(TxError::TransactionNotFound(tx_id))
                    }
                },
                InputRowTransactionType::Chargeback => {
                    // only an open dispute can be closed
                    if !self.tx_disputed.contains(&id_pair) {
                        Err(TxError::NotDisputed(tx_id))
                    } else if let Some(transaction) = self.tx_history.get(&id_pair) {
                        if let Some(amount) = transaction.get_amount() {
                            client.chargeback(
                                amount,
                                transaction.get_transaction_type().transaction_type(),
                            );
                            proof {
                                lemma_disputed_remove(self.tx_disputed@, tx_id, client_id);
                            }
                            self.tx_disputed.remove(&id_pair);
                            Ok(())
                        } else {
                            Err(TxError::NoAmount(tx_id))
                        }
                    } else {
                        Err(TxError::TransactionNotFound(tx_id))
                    }
                },
            }
        };
        proof {
            lemma_accounts_insert(self.client_db@, client_id, client);
        }
        self.client_db.insert(client_id, client);
        outcome
    }

    /// Whether the machine can hold the balances that `tx` would leave in its
    /// client's account. A transaction that the ledger turns down leaves them
    /// as they are, and so is always within limits.
    pub fn within_limits(&self, tx: &Transaction) -> (r: bool)
        ensures
            r == self@.within_limits(tx@),
    {
        let client_id: ClientId = tx.get_client_id();
        let tx_id: TransactionId = tx.get_transaction_id();
        let id_pair: u64 = key_of(tx_id, client_id);

        let client = match self.client_db.get(&client_id) {
            Some(known) => *known,
            None => Client::new(client_id),
        };
        proof {
            use_type_invariant(&client);
        }
        assert(client@.filed_under(client_id) == self@.account(client_id));

        if client.is_locked() {
            return true;
        }
        match tx.get_transaction_type() {
            InputRowTransactionType::Deposit => {
                if self.tx_history.contains_key(&id_pair) {
                    true
                } else if let Some(amount) = tx.get_amount() {
                    client.deposit_fits(amount)
                } else {
                    true
                }
            },
            InputRowTransactionType::Withdrawal => {
                if self.tx_history.contains_key(&id_pair) {
                    true
                } else if let Some(amount) = tx.get_amount() {
                    client.get_available().units < amount.units || client.withdraw_fits(amount)
                } else {
                    true
                }
            },
            InputRowTransactionType::Dispute => {
                if let Some(recorded) = self.tx_history.get(&id_pair) {
                    if let Some(amount) = recorded.get_amount() {
                        client.dispute_fits(
                            amount,
                            recorded.get_transaction_type().transaction_type(),
                        )
                    } else {
                        true
                    }
                } else {
                    true
                }
            },
            InputRowTransactionType::Resolve => {
                if !self.tx_disputed.contains(&id_pair) {
                    true
                } else if let Some(recorded) = self.tx_history.get(&id_pair) {
                    if let Some(amount) = recorded.get_amount() {
                        client.resolve_fits(
                            amount,
                            recorded.get_transaction_type().transaction_type(),
                        )
                    } else {
                        true
                    }
                } else {
                    true
                }
            },
            InputRowTransactionType::Chargeback => {
                if !self.tx_disputed.contains(&id_pair) {
                    true
                } else if let Some(recorded) = self.tx_history.get(&id_pair) {
                    if let Some(amount) = recorded.get_amount() {
                        client.chargeback_fits(
                            amount,
                            recorded.get_transaction_type().transaction_type(),
                        )
                    } else {
                        true
                    }
                } else {
                    true
                }
            },
        }
    }

    /// Handles one transaction if the machine can hold the balances it
    /// leaves, and otherwise returns `None` and leaves the ledger as it is.
    pub fn checked_add_transaction(&mut self, tx: Transaction) -> (r: Option<Result<(), TxError>>)
        ensures
            old(self)@.within_limits(tx@) ==> r == Some(old(self)@.outcome(tx@)) && final(self)@
                == old(self)@.next(tx@),
            !old(self)@.within_limits(tx@) ==> r is None && final(self)@ == old(self)@,
            old(self)@.wf() ==> final(self)@.wf(),
    {
        if self.within_limits(&tx) {
            Some(self.add_transaction(tx))
        } else {
            None
        }
    }

    /// The account of a client as it stands, if the client was ever referred
    /// to.
    pub fn get_snapshot(&self, client_id: ClientId) -> (r: Option<ClientSnapshot>)
        ensures
            r is Some <==> self@.accounts.contains_key(client_id),
            r matches Some(snapshot) ==> snapshot@ == self@.accounts[client_id],
    {
        match self.client_db.get(&client_id) {
            Some(client) => Some(snapshot_of(client_id, client)),
            None => None,
        }
    }

    /// One snapshot for each account that was ever referred to, in no
    /// particular order.
    pub fn get_all_values(self) -> (snapshots: Vec<ClientSnapshot>)
        ensures
            self@.listed_by(snapshots@.map_values(|s: ClientSnapshot| s@)),
    {
        let mut snapshots: Vec<ClientSnapshot> = Vec::new();
        let ghost entries = vstd::std_specs::hash::spec_hash_map_iter(&self.client_db).remaining();
        for (id, client) in it: self.client_db.iter()
            invariant
                it.seq() == entries,
                snapshots@.len() == it.index(),
                forall|i: int|
                    0 <= i < snapshots@.len() ==> (#[trigger] snapshots@[i])@
                        == (*entries[i].1)@.filed_under(*entries[i].0),
        {
            snapshots.push(snapshot_of(*id, client));
        }
        proof {
            let db = self.client_db@;
            let views = snapshots@.map_values(|s: ClientSnapshot| s@);
            assert(self@.accounts.dom() =~= db.dom());
            assert forall|i: int| 0 <= i < views.len() implies {
                &&& db.contains_key(*entries[i].0)
                &&& views[i] == db[*entries[i].0]@.filed_under(*entries[i].0)
            } by {
                assert(db.contains_key(*entries[i].0) && db[*entries[i].0] == *entries[i].1);
                assert(views[i] == snapshots@[i]@);
            }
            assert forall|i: int, j: int| 0 <= i < j < views.len() implies views[i].client
                != views[j].client by {
                assert(db[*entries[i].0] == *entries[i].1);
                assert(db[*entries[j].0] == *entries[j].1);
                if views[i].client == views[j].client {
                    assert(entries[i] == entries[j]);
                }
            }
            assert forall|c: ClientId| self@.accounts.contains_key(c) implies exists|i: int|
                0 <= i < views.len() && #[trigger] views[i].client == c by {
                assert(db.contains_key(c));
                assert(entries.contains((&c, &db[c])));
                let i: int = choose|i: int| 0 <= i < entries.len() && entries[i] == (&c, &db[c]);
                assert(views[i].client == c);
            }
        }
        snapshots
    }
}

} // verus!
