use crate::common::types::{ClientId, TransactionId};
use crate::managers::ledger::LedgerState;
use crate::models::transaction::TransactionRecord;
use vstd::prelude::*;

verus! {

/// The amount that a transaction is on record with, and zero for one that is
/// not on record or has no amount.
pub open spec fn recorded_amount(
    history: Map<(TransactionId, ClientId), TransactionRecord>,
    p: (TransactionId, ClientId),
) -> int {
    if history.contains_key(p) && history[p].amount is Some {
        history[p].amount->0@
    } else {
        0
    }
}

/// What the transactions of a finite set are on record with, taken together.
pub open spec fn recorded_total(
    history: Map<(TransactionId, ClientId), TransactionRecord>,
    pairs: Set<(TransactionId, ClientId)>,
) -> int
    decreases pairs.len(),
    when pairs.finite()
{
    if pairs.is_empty() {
        0
    } else {
        let p = pairs.choose();
        recorded_amount(history, p) + recorded_total(history, pairs.remove(p))
    }
}

/// The total counts each transaction of the set once, whichever is taken
/// first.
proof fn lemma_total_remove(
    history: Map<(TransactionId, ClientId), TransactionRecord>,
    pairs: Set<(TransactionId, ClientId)>,
    p: (TransactionId, ClientId),
)
    requires
        pairs.finite(),
        pairs.contains(p),
    ensures
        recorded_total(history, pairs) == recorded_amount(history, p) + recorded_total(
            history,
            pairs.remove(p),
        ),
    decreases pairs.len(),
{
    let first = pairs.choose();
    if first != p {
        lemma_total_remove(history, pairs.remove(first), p);
        lemma_total_remove(history, pairs.remove(p), first);
        assert(pairs.remove(first).remove(p) =~= pairs.remove(p).remove(first));
    }
}

/// A transaction that joins the set adds its amount to the total.
proof fn lemma_total_insert(
    history: Map<(TransactionId, ClientId), TransactionRecord>,
    pairs: Set<(TransactionId, ClientId)>,
    p: (TransactionId, ClientId),
)
    requires
        pairs.finite(),
        !pairs.contains(p),
    ensures
        recorded_total(history, pairs.insert(p)) == recorded_amount(history, p) + recorded_total(
            history,
            pairs,
        ),
{
    lemma_total_remove(history, pairs.insert(p), p);
    assert(pairs.insert(p).remove(p) =~= pairs);
}

/// The total depends on nothing but the amounts of the transactions in the
/// set.
proof fn lemma_total_same(
    before: Map<(TransactionId, ClientId), TransactionRecord>,
    after: Map<(TransactionId, ClientId), TransactionRecord>,
    pairs: Set<(TransactionId, ClientId)>,
)
    requires
        pairs.finite(),
        forall|p: (TransactionId, ClientId)|
            pairs.contains(p) ==> recorded_amount(before, p) == recorded_amount(after, p),
    ensures
        recorded_total(before, pairs) == recorded_total(after, pairs),
    decreases pairs.len(),
{
    if !pairs.is_empty() {
        lemma_total_same(before, after, pairs.remove(pairs.choose()));
    }
}

/// Amounts that are not negative do not add up to a negative total.
proof fn lemma_total_not_negative(
    history: Map<(TransactionId, ClientId), TransactionRecord>,
    pairs: Set<(TransactionId, ClientId)>,
)
    requires
        pairs.finite(),
        forall|p: (TransactionId, ClientId)| pairs.contains(p) ==> recorded_amount(history, p) >= 0,
    ensures
        recorded_total(history, pairs) >= 0,
    decreases pairs.len(),
{
    if !pairs.is_empty() {
        lemma_total_not_negative(history, pairs.remove(pairs.choose()));
    }
}

impl LedgerState {
    /// The transactions of a client that are under dispute.
    pub open spec fn open_disputes(self, client: ClientId) -> Set<(TransactionId, ClientId)> {
        self.disputed.filter(|p: (TransactionId, ClientId)| p.1 == client)
    }

    /// The amounts of a client's transactions under dispute, taken together.
    pub open spec fn amount_in_dispute(self, client: ClientId) -> int {
        recorded_total(self.history, self.open_disputes(client))
    }

    /// Whether every hold is backed: no amount on record is negative,
    /// finitely many transactions are under dispute, and each account holds
    /// at least the amounts of its client's transactions under dispute.
    pub open spec fn holds_are_backed(self) -> bool {
        &&& self.disputed.finite()
        &&& forall|p: (TransactionId, ClientId)| recorded_amount(self.history, p) >= 0
        &&& forall|c: ClientId| self.account(c).held >= #[trigger] self.amount_in_dispute(c)
    }

    /// In the empty ledger every hold is backed.
    pub proof fn lemma_empty_backed()
        ensures
            LedgerState::empty().holds_are_backed(),
    {
        assert forall|c: ClientId| #[trigger]
            LedgerState::empty().amount_in_dispute(c) == 0 by {
            assert(LedgerState::empty().open_disputes(c) =~= Set::empty());
        }
    }

    /// Where every hold is backed, no account holds a negative amount.
    pub proof fn lemma_backed_holds_not_negative(self, c: ClientId)
        requires
            self.holds_are_backed(),
        ensures
            self.account(c).held >= 0,
    {
        self.disputed.lemma_len_filter(|p: (TransactionId, ClientId)| p.1 == c);
        lemma_total_not_negative(self.history, self.open_disputes(c));
        assert(self.account(c).held >= self.amount_in_dispute(c));
    }

    /// A transaction whose amount, if it has one, is not negative keeps
    /// every hold backed in a well-formed ledger.
    pub proof fn lemma_next_backed(self, tx: TransactionRecord)
        requires
            self.wf(),
            self.holds_are_backed(),
            tx.amount matches Some(a) ==> a@ >= 0,
        ensures
            self.next(tx).holds_are_backed(),
    {
        let next = self.next(tx);
        let key = tx.key();
        assert forall|c: ClientId| next.account(c).held >= #[trigger] next.amount_in_dispute(
            c,
        ) by {
            let own = |p: (TransactionId, ClientId)| p.1 == c;
            self.disputed.lemma_len_filter(own);
            assert(self.account(c).held >= self.amount_in_dispute(c));
            if self.outcome(tx) is Err {
                assert(next.open_disputes(c) =~= self.open_disputes(c));
            } else if tx.kind is Deposit || tx.kind is Withdrawal {
                assert(next.open_disputes(c) =~= self.open_disputes(c));
                assert(!self.disputed.contains(key));
                lemma_total_same(self.history, next.history, self.open_disputes(c));
            } else if c != tx.client {
                assert(next.open_disputes(c) =~= self.open_disputes(c));
            } else if tx.kind is Dispute {
                assert(recorded_amount(self.history, key) >= 0);
                if self.disputed.contains(key) {
                    assert(next.open_disputes(c) =~= self.open_disputes(c));
                } else {
                    assert(next.open_disputes(c) =~= self.open_disputes(c).insert(key));
                    lemma_total_insert(self.history, self.open_disputes(c), key);
                }
            } else {
                assert(next.open_disputes(c) =~= self.open_disputes(c).remove(key));
                lemma_total_remove(self.history, self.open_disputes(c), key);
            }
        }
        assert forall|p: (TransactionId, ClientId)| recorded_amount(next.history, p) >= 0 by {
            assert(recorded_amount(self.history, p) >= 0);
        }
    }

    /// From the empty ledger, transactions without a negative amount never
    /// leave an account with a negative amount held.
    pub proof fn lemma_held_never_negative(txs: Seq<TransactionRecord>, c: ClientId)
        requires
            forall|i: int|
                0 <= i < txs.len() ==> ((#[trigger] txs[i]).amount matches Some(a) ==> a@ >= 0),
        ensures
            LedgerState::empty().after(txs).wf(),
            LedgerState::empty().after(txs).holds_are_backed(),
            LedgerState::empty().after(txs).account(c).held >= 0,
        decreases txs.len(),
    {
        Self::lemma_empty_wf();
        Self::lemma_empty_backed();
        if txs.len() > 0 {
            Self::lemma_held_never_negative(txs.drop_last(), c);
            let before = LedgerState::empty().after(txs.drop_last());
            before.lemma_next_wf(txs.last());
            before.lemma_next_backed(txs.last());
        }
        LedgerState::empty().after(txs).lemma_backed_holds_not_negative(c);
    }
}

} // verus!
