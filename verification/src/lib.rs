//! A toy payments engine: a ledger that applies deposits, withdrawals,
//! disputes, resolutions and chargebacks to per-client accounts.
//!
//! Every executable function in this crate carries a contract stated over a
//! mathematical model of the data it works on, and Verus proves each body
//! against its contract.

pub mod common;
pub mod managers;
pub mod models;

use crate::managers::ledger::LedgerState;
use crate::managers::transaction_manager::TransactionManager;
use crate::models::client_snapshot::ClientSnapshot;
use crate::models::transaction::{parsed_row, texts, Transaction, TxError};
use vstd::prelude::*;

verus! {

/// Why a run over rows of input gave no result.
#[derive(Debug, PartialEq, Eq, Clone, Copy, Structural)]
pub enum RunError {
    /// A row is no transaction. The run stops at the first such row.
    InvalidRow(TxError),
    /// A transaction would leave balances that the machine cannot hold.
    Overflow,
}

/// The texts of the columns of each row.
pub open spec fn rows_texts(rows: Seq<Vec<&str>>) -> Seq<Seq<Seq<char>>> {
    Seq::new(rows.len(), |i: int| texts(rows[i]@))
}

/// The ledger that rows of input lead to, handled in order from the empty
/// ledger. A transaction that the ledger turns down is passed over. The
/// first row that is no transaction, or whose transaction would leave
/// balances beyond the machine's range, ends the run without a result.
pub open spec fn ledger_of(rows: Seq<Seq<Seq<char>>>) -> Result<LedgerState, RunError>
    decreases rows.len(),
{
    if rows.len() == 0 {
        Ok(LedgerState::empty())
    } else {
        match ledger_of(rows.drop_last()) {
            Err(e) => Err(e),
            Ok(ledger) => match parsed_row(rows.last()) {
                Err(e) => Err(RunError::InvalidRow(TxError(e))),
                Ok(tx) => if ledger.within_limits(tx) {
                    Ok(ledger.next(tx))
                } else {
                    Err(RunError::Overflow)
                },
            },
        }
    }
}

/// Runs rows of input through a new ledger and lists the accounts they
/// leave, in no particular order.
pub fn run_transactions(rows: &Vec<Vec<&str>>) -> (r: Result<Vec<ClientSnapshot>, RunError>)
    ensures
        match r {
            Ok(snapshots) => ledger_of(rows_texts(rows@)) matches Ok(ledger) && ledger.listed_by(
                snapshots@.map_values(|s: ClientSnapshot| s@),
            ),
            Err(e) => ledger_of(rows_texts(rows@)) == Err::<LedgerState, RunError>(e),
        },
{
    let mut transaction_manager = TransactionManager::new();
    let ghost all = rows_texts(rows@);
    let mut i: usize = 0;
    assert(all.subrange(0, 0) =~= Seq::<Seq<Seq<char>>>::empty());
    while i < rows.len()
        invariant
            i <= rows@.len(),
            all == rows_texts(rows@),
            ledger_of(all.subrange(0, i as int)) == Ok::<LedgerState, RunError>(
                transaction_manager@,
            ),
        decreases rows@.len() - i,
    {
        let ghost longer = all.subrange(0, i + 1);
        assert(longer.drop_last() =~= all.subrange(0, i as int));
        assert(longer.last() == texts(rows@[i as int]@));
        match Transaction::try_from(rows[i].as_slice()) {
            Ok(transaction) => {
                // a transaction that the ledger turns down is passed over
                if transaction_manager.checked_add_transaction(transaction).is_none() {
                    proof {
                        lemma_ledger_of_fails_for_good(all, i + 1);
                    }
                    return Err(RunError::Overflow);
                }
            },
            Err(e) => {
                proof {
                    lemma_ledger_of_fails_for_good(all, i + 1);
                }
                return Err(RunError::InvalidRow(e));
            },
        }
        i += 1;
    }
    assert(all.subrange(0, i as int) =~= all);
    Ok(transaction_manager.get_all_values())
}

/// A run that has failed after some rows fails in the same way however many
/// rows follow.
pub proof fn lemma_ledger_of_fails_for_good(rows: Seq<Seq<Seq<char>>>, k: int)
    requires
        0 <= k <= rows.len(),
        ledger_of(rows.subrange(0, k)) is Err,
    ensures
        ledger_of(rows) == ledger_of(rows.subrange(0, k)),
    decreases rows.len(),
{
    if k == rows.len() {
        assert(rows.subrange(0, k) =~= rows);
    } else {
        assert(rows.drop_last().subrange(0, k) =~= rows.subrange(0, k));
        lemma_ledger_of_fails_for_good(rows.drop_last(), k);
    }
}

} // verus!
