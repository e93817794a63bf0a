use crate::common::types::{ClientId, TransactionId, TransactionType};
use crate::managers::transaction_manager::TxError;
use crate::models::client::AccountState;
use crate::models::transaction::{InputRowTransactionType, TransactionRecord};
use vstd::prelude::*;

verus! {

/// The ledger as its rules see it: the accounts that were ever referred to,
/// the deposits and withdrawals on record, and the transactions under dispute.
/// A transaction is filed under the pair of its id and its client.
#[verifier::ext_equal]
pub struct LedgerState {
    pub accounts: Map<ClientId, AccountState>,
    pub history: Map<(TransactionId, ClientId), TransactionRecord>,
    pub disputed: Set<(TransactionId, ClientId)>,
}

impl LedgerState {
    /// The ledger before any transaction.
    pub open spec fn empty() -> LedgerState {
        LedgerState { accounts: Map::empty(), history: Map::empty(), disputed: Set::empty() }
    }

    /// The account of a client: the one on file, or a fresh one for a client
    /// that has not been seen yet.
    pub open spec fn account(self, client: ClientId) -> AccountState {
        if self.accounts.contains_key(client) {
            self.accounts[client]
        } else {
            AccountState::fresh(client)
        }
    }

    /// The verdict on a transaction. The checks come in this order: a locked
    /// account turns everything down; then a deposit or withdrawal must be
    /// new and carry an amount, and a withdrawal must be covered; a dispute
    /// must name a transaction on record; a resolution or chargeback must
    /// name one under dispute.
    pub open spec fn outcome(self, tx: TransactionRecord) -> Result<(), TxError> {
        let account = self.account(tx.client);
        if account.locked {
            Err(TxError::ClientFrozen(tx.client))
        } else {
            match tx.kind {
                InputRowTransactionType::Deposit => {
                    if self.history.contains_key(tx.key()) {
                        Err(TxError::DuplicateTransaction(tx.id))
                    } else if tx.amount is None {
                        Err(TxError::NoAmount(tx.id))
                    } else {
                        Ok(())
                    }
                },
                InputRowTransactionType::Withdrawal => {
                    if self.history.contains_key(tx.key()) {
                        Err(TxError::DuplicateTransaction(tx.id))
                    } else if tx.amount is None {
                        Err(TxError::NoAmount(tx.id))
                    } else if !account.covers(tx.amount->0@) {
                        Err(TxError::InsufficientFunds(tx.client))
                    } else {
                        Ok(())
                    }
                },
                InputRowTransactionType::Dispute => {
                    if !self.history.contains_key(tx.key()) {
                        Err(TxError::TransactionNotFound(tx.id))
                    } else if self.history[tx.key()].amount is None {
                        Err(TxError::NoAmount(tx.id))
                    } else {
                        Ok(())
                    }
                },
                InputRowTransactionType::Resolve | InputRowTransactionType::Chargeback => {
                    if !self.disputed.contains(tx.key()) {
                        Err(TxError::NotDisputed(tx.id))
                    } else if !self.history.contains_key(tx.key()) {
                        Err(TxError::TransactionNotFound(tx.id))
                    } else if self.history[tx.key()].amount is None {
                        Err(TxError::NoAmount(tx.id))
                    } else {
                        Ok(())
                    }
                },
            }
        }
    }

    /// The account of the transaction's client once the transaction has been
    /// handled: changed by an accepted transaction, as it was after a
    /// rejected one.
    pub open spec fn account_after(self, tx: TransactionRecord) -> AccountState {
        let account = self.account(tx.client);
        if self.outcome(tx) is Err {
            account
        } else {
            match tx.kind {
                InputRowTransactionType::Deposit => account.deposit(tx.amount->0@),
                InputRowTransactionType::Withdrawal => account.withdraw(tx.amount->0@),
                InputRowTransactionType::Dispute => {
                    let recorded = self.history[tx.key()];
                    account.dispute(recorded.amount->0@, recorded.kind.spec_transaction_type())
                },
                InputRowTransactionType::Resolve => {
                    let recorded = self.history[tx.key()];
                    account.resolve(recorded.amount->0@, recorded.kind.spec_transaction_type())
                },
                InputRowTransactionType::Chargeback => {
                    let recorded = self.history[tx.key()];
                    account.chargeback(recorded.amount->0@, recorded.kind.spec_transaction_type())
                },
            }
        }
    }

    /// The ledger once the transaction has been handled. Its client's account
    /// is on file from then on, whatever the verdict. A rejected transaction
    /// changes nothing else. An accepted deposit or withdrawal goes on
    /// record; an accepted dispute puts its transaction under dispute, and a
    /// resolution or chargeback takes it out again.
    pub open spec fn next(self, tx: TransactionRecord) -> LedgerState {
        let accounts = self.accounts.insert(tx.client, self.account_after(tx));
        if self.outcome(tx) is Err {
            LedgerState { accounts, ..self }
        } else {
            match tx.kind {
                InputRowTransactionType::Deposit | InputRowTransactionType::Withdrawal => LedgerState {
                    accounts,
                    history: self.history.insert(tx.key(), tx),
                    ..self
                },
                InputRowTransactionType::Dispute => LedgerState {
                    accounts,
                    disputed: self.disputed.insert(tx.key()),
                    ..self
                },
                InputRowTransactionType::Resolve | InputRowTransactionType::Chargeback => LedgerState {
                    accounts,
                    disputed: self.disputed.remove(tx.key()),
                    ..self
                },
            }
        }
    }

    /// Whether the machine can hold the balances that the transaction leaves
    /// in its client's account.
    pub open spec fn within_limits(self, tx: TransactionRecord) -> bool {
        self.account_after(tx).fits()
    }

    /// Whether `snapshots` lists the accounts on file: each of them once, as
    /// it stands, and nothing else. The order is left open.
    pub open spec fn listed_by(self, snapshots: Seq<AccountState>) -> bool {
        &&& self.accounts.dom().finite()
        &&& snapshots.len() == self.accounts.len()
        &&& forall|i: int|
            0 <= i < snapshots.len() ==> {
                &&& self.accounts.contains_key(#[trigger] snapshots[i].client)
                &&& self.accounts[snapshots[i].client] == snapshots[i]
            }
        &&& forall|i: int, j: int|
            0 <= i < j < snapshots.len() ==> #[trigger] snapshots[i].client
                != #[trigger] snapshots[j].client
        &&& forall|c: ClientId| #[trigger]
            self.accounts.contains_key(c) ==> exists|i: int|
                0 <= i < snapshots.len() && #[trigger] snapshots[i].client == c
    }

    /// What holds of every ledger that grew out of the empty one: each
    /// account is filed under its own client, each transaction on record is
    /// a deposit or withdrawal with its amount, filed under its own id and
    /// client, and only transactions on record are under dispute.
    pub open spec fn wf(self) -> bool {
        &&& forall|c: ClientId| #[trigger]
            self.accounts.contains_key(c) ==> self.accounts[c].client == c
        &&& forall|p: (TransactionId, ClientId)| #[trigger]
            self.history.contains_key(p) ==> {
                &&& self.history[p].key() == p
                &&& self.history[p].kind.carries_amount()
                &&& self.history[p].amount is Some
            }
        &&& forall|p: (TransactionId, ClientId)| #[trigger]
            self.disputed.contains(p) ==> self.history.contains_key(p)
    }
}

impl LedgerState {
    /// The ledger after a sequence of transactions, handled in order.
    pub open spec fn after(self, txs: Seq<TransactionRecord>) -> LedgerState
        decreases txs.len(),
    {
        if txs.len() == 0 {
            self
        } else {
            self.after(txs.drop_last()).next(txs.last())
        }
    }

    /// The empty ledger is well formed.
    pub proof fn lemma_empty_wf()
        ensures
            LedgerState::empty().wf(),
    {
    }

    /// Handling a transaction keeps a well-formed ledger well formed.
    pub proof fn lemma_next_wf(self, tx: TransactionRecord)
        requires
            self.wf(),
        ensures
            self.next(tx).wf(),
    {
    }

    /// So does handling any sequence of transactions.
    pub proof fn lemma_after_wf(self, txs: Seq<TransactionRecord>)
        requires
            self.wf(),
        ensures
            self.after(txs).wf(),
        decreases txs.len(),
    {
        if txs.len() > 0 {
            self.lemma_after_wf(txs.drop_last());
            self.after(txs.drop_last()).lemma_next_wf(txs.last());
        }
    }

    /// A rejected transaction changes no balance, no record and no dispute:
    /// all it leaves behind is that its client's account is on file.
    pub proof fn lemma_rejection_changes_nothing(self, tx: TransactionRecord)
        requires
            self.outcome(tx) is Err,
        ensures
            forall|c: ClientId| self.next(tx).account(c) == self.account(c),
            self.next(tx).accounts.dom() == self.accounts.dom().insert(tx.client),
            self.next(tx).history == self.history,
            self.next(tx).disputed == self.disputed,
    {
        assert(self.next(tx).accounts.dom() =~= self.accounts.dom().insert(tx.client));
    }

    /// The record only grows: a transaction on record stays on record as it
    /// is, and an account on file stays on file.
    pub proof fn lemma_record_only_grows(self, tx: TransactionRecord)
        ensures
            forall|p: (TransactionId, ClientId)| #[trigger]
                self.history.contains_key(p) ==> self.next(tx).history.contains_key(p)
                    && self.next(tx).history[p] == self.history[p],
            forall|c: ClientId| #[trigger]
                self.accounts.contains_key(c) ==> self.next(tx).accounts.contains_key(c),
            self.next(tx).accounts.contains_key(tx.client),
    {
    }

    /// A transaction touches no account but its own client's.
    pub proof fn lemma_other_accounts_untouched(self, tx: TransactionRecord, c: ClientId)
        requires
            c != tx.client,
        ensures
            self.next(tx).account(c) == self.account(c),
    {
    }

    /// In a well-formed ledger every account on file carries its own
    /// client's id, and so does the account of any client.
    pub proof fn lemma_account_client(self, c: ClientId)
        requires
            self.wf(),
        ensures
            self.account(c).client == c,
    {
    }

    /// A dispute followed at once by its resolution leaves the client's
    /// account exactly as it was before the dispute, and the record as it
    /// was: whether both were accepted or both turned down, and whatever the
    /// ledger held before.
    pub proof fn lemma_resolve_undoes_dispute(
        self,
        dispute: TransactionRecord,
        resolve: TransactionRecord,
    )
        requires
            dispute.kind is Dispute,
            resolve.kind is Resolve,
            resolve.key() == dispute.key(),
        ensures
            self.outcome(dispute) is Ok <==> self.next(dispute).outcome(resolve) is Ok,
            self.next(dispute).next(resolve).account(dispute.client) == self.account(
                dispute.client,
            ),
            self.next(dispute).next(resolve).history == self.history,
    {
    }

    /// A deposit, then a dispute of it, then the resolution of that dispute:
    /// the client's balances are again exactly what they were after the
    /// deposit. If the deposit was accepted, so are the dispute and its
    /// resolution.
    pub proof fn lemma_dispute_resolve_round_trip(
        self,
        deposit: TransactionRecord,
        dispute: TransactionRecord,
        resolve: TransactionRecord,
    )
        requires
            deposit.kind is Deposit,
            dispute.kind is Dispute,
            dispute.key() == deposit.key(),
            resolve.kind is Resolve,
            resolve.key() == deposit.key(),
        ensures
            self.next(deposit).next(dispute).next(resolve).account(deposit.client) == self.next(
                deposit,
            ).account(deposit.client),
            self.outcome(deposit) is Ok ==> {
                &&& self.next(deposit).outcome(dispute) is Ok
                &&& self.next(deposit).next(dispute).outcome(resolve) is Ok
                &&& self.next(deposit).next(dispute).account(deposit.client)
                    == self.next(deposit).account(deposit.client).dispute(
                    deposit.amount->0@,
                    TransactionType::Deposit,
                )
            },
    {
        self.next(deposit).lemma_resolve_undoes_dispute(dispute, resolve);
    }

    /// A deposit into an account that holds nothing, then a dispute of it,
    /// then the chargeback: nothing is held afterwards, the account is
    /// locked, and from then on every transaction of the client is turned
    /// down with `ClientFrozen`, whatever is handled in between. If the
    /// deposit was accepted, so are the dispute and the chargeback, and the
    /// deposited amount is gone from what is available.
    pub proof fn lemma_chargeback_locks(
        self,
        deposit: TransactionRecord,
        dispute: TransactionRecord,
        chargeback: TransactionRecord,
        between: Seq<TransactionRecord>,
        later: TransactionRecord,
    )
        requires
            self.wf(),
            deposit.wf(),
            deposit.kind is Deposit,
            self.account(deposit.client).held == 0,
            dispute.kind is Dispute,
            dispute.key() == deposit.key(),
            chargeback.kind is Chargeback,
            chargeback.key() == deposit.key(),
            later.client == deposit.client,
        ensures
            ({
                let end = self.next(deposit).next(dispute).next(chargeback);
                &&& end.account(deposit.client).held == 0
                &&& end.account(deposit.client).locked
                &&& end.after(between).outcome(later) == Err::<(), TxError>(
                    TxError::ClientFrozen(deposit.client),
                )
                &&& self.outcome(deposit) is Ok ==> {
                    &&& self.next(deposit).outcome(dispute) is Ok
                    &&& self.next(deposit).next(dispute).outcome(chargeback) is Ok
                    &&& end.account(deposit.client).available == self.account(
                        deposit.client,
                    ).available
                }
            }),
    {
        let end = self.next(deposit).next(dispute).next(chargeback);
        self.lemma_next_wf(deposit);
        end.lemma_locked_for_good(between, later);
    }

    /// A locked account turns every transaction of its client down.
    pub proof fn lemma_locked_rejects(self, tx: TransactionRecord)
        requires
            self.account(tx.client).locked,
        ensures
            self.outcome(tx) == Err::<(), TxError>(TxError::ClientFrozen(tx.client)),
    {
    }

    /// No transaction unlocks an account.
    pub proof fn lemma_locked_stays_locked(self, tx: TransactionRecord, c: ClientId)
        requires
            self.account(c).locked,
        ensures
            self.next(tx).account(c).locked,
    {
    }

    /// Once an account is locked, every later transaction of its client is
    /// turned down with `ClientFrozen`, whatever was handled in between.
    pub proof fn lemma_locked_for_good(
        self,
        between: Seq<TransactionRecord>,
        tx: TransactionRecord,
    )
        requires
            self.account(tx.client).locked,
        ensures
            self.after(between).account(tx.client).locked,
            self.after(between).outcome(tx) == Err::<(), TxError>(
                TxError::ClientFrozen(tx.client),
            ),
        decreases between.len(),
    {
        if between.len() > 0 {
            self.lemma_locked_for_good(between.drop_last(), tx);
            self.after(between.drop_last()).lemma_locked_stays_locked(between.last(), tx.client);
        }
    }

    /// A second deposit under the id of a deposit that is on record is turned
    /// down as a duplicate, whatever amount it names, and changes nothing.
    pub proof fn lemma_duplicate_deposit(self, first: TransactionRecord, second: TransactionRecord)
        requires
            first.kind is Deposit,
            first.wf(),
            !self.account(first.client).locked,
            second.kind is Deposit,
            second.key() == first.key(),
        ensures
            self.next(first).outcome(second) == Err::<(), TxError>(
                TxError::DuplicateTransaction(first.id),
            ),
            self.next(first).next(second) == self.next(first),
    {
        assert(self.next(first).next(second).accounts =~= self.next(first).accounts);
    }

    /// A new withdrawal of more than is available is turned down for
    /// insufficient funds and changes no balance, record or dispute.
    pub proof fn lemma_overdraft_rejected(self, withdrawal: TransactionRecord)
        requires
            withdrawal.kind is Withdrawal,
            withdrawal.amount matches Some(a) && a@ > self.account(withdrawal.client).available,
            !self.account(withdrawal.client).locked,
            !self.history.contains_key(withdrawal.key()),
        ensures
            self.outcome(withdrawal) == Err::<(), TxError>(
                TxError::InsufficientFunds(withdrawal.client),
            ),
            forall|c: ClientId| self.next(withdrawal).account(c) == self.account(c),
            self.next(withdrawal).history == self.history,
            self.next(withdrawal).disputed == self.disputed,
    {
    }

    /// A dispute that names a transaction not on record is turned down with
    /// `TransactionNotFound`.
    pub proof fn lemma_unknown_dispute_rejected(self, dispute: TransactionRecord)
        requires
            dispute.kind is Dispute,
            !self.account(dispute.client).locked,
            !self.history.contains_key(dispute.key()),
        ensures
            self.outcome(dispute) == Err::<(), TxError>(TxError::TransactionNotFound(dispute.id)),
    {
    }

    /// A resolution or a chargeback that names a transaction not under
    /// dispute is turned down with `NotDisputed`.
    pub proof fn lemma_undisputed_rejected(self, tx: TransactionRecord)
        requires
            tx.kind is Resolve || tx.kind is Chargeback,
            !self.account(tx.client).locked,
            !self.disputed.contains(tx.key()),
        ensures
            self.outcome(tx) == Err::<(), TxError>(TxError::NotDisputed(tx.id)),
    {
    }

    /// In a well-formed ledger a well-formed record is never turned down for
    /// a missing amount, and a resolution or chargeback never for a missing
    /// record.
    pub proof fn lemma_impossible_rejections(self, tx: TransactionRecord)
        requires
            self.wf(),
            tx.wf(),
        ensures
            self.outcome(tx) != Err::<(), TxError>(TxError::NoAmount(tx.id)),
            tx.kind is Resolve || tx.kind is Chargeback ==> self.outcome(tx) != Err::<(), TxError>(
                TxError::TransactionNotFound(tx.id),
            ),
    {
    }
}

} // verus!
