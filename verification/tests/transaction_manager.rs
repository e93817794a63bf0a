use toy_payments_engine::common::amount::Amount;
use toy_payments_engine::managers::transaction_manager::{TransactionManager, TxError};
use toy_payments_engine::models::client_snapshot::ClientSnapshot;
use toy_payments_engine::models::transaction::InputRowTransactionType::{
    Chargeback, Deposit, Dispute, Resolve, Withdrawal,
};
use toy_payments_engine::models::transaction::Transaction as Tx;

fn dec(num: i64, scale: u32) -> Amount {
    Amount::new(num, scale)
}

fn account(manager: &TransactionManager, client: u16) -> ClientSnapshot {
    manager.get_snapshot(client).unwrap()
}

fn assert_balance(client: &ClientSnapshot, available: Amount, held: Amount) {
    assert_eq!(client.get_available(), available);
    assert_eq!(client.get_held(), held);
}

#[test]
fn test_input_multiple_clients_deposit_withdraw() {
    let mut manager = TransactionManager::new();

    let tx1 = Tx::new(1, Deposit, 1, Some(dec(10, 1)));
    let res1 = manager.add_transaction(tx1);
    assert_eq!(res1, Ok(()));
    assert_balance(&account(&manager, 1), dec(10, 1), dec(0, 0));

    let tx2 = Tx::new(2, Deposit, 2, Some(dec(20, 1)));
    let res2 = manager.add_transaction(tx2);
    assert_eq!(res2, Ok(()));
    assert_balance(&account(&manager, 2), dec(20, 1), dec(0, 0));

    let tx3 = Tx::new(3, Deposit, 1, Some(dec(20, 1)));
    let res3 = manager.add_transaction(tx3);
    assert_eq!(res3, Ok(()));
    assert_balance(&account(&manager, 1), dec(30, 1), dec(0, 0));

    let tx4 = Tx::new(4, Withdrawal, 1, Some(dec(15, 1)));
    let res4 = manager.add_transaction(tx4);
    assert_eq!(res4, Ok(()));
    assert_balance(&account(&manager, 1), dec(15, 1), dec(0, 0));

    let tx5 = Tx::new(5, Withdrawal, 2, Some(dec(30, 1)));
    let res5 = manager.add_transaction(tx5);
    assert_eq!(res5, Err(TxError::InsufficientFunds(2)));
    // balance remains unchanged
    assert_balance(&account(&manager, 1), dec(15, 1), dec(0, 0));
    assert_balance(&account(&manager, 2), dec(20, 1), dec(0, 0));
}

#[test]
fn test_single_client_deposit_dispute_resolve() {
    let mut manager = TransactionManager::new();

    let tx1 = Tx::new(1, Deposit, 1, Some(dec(100, 1)));
    let res1 = manager.add_transaction(tx1);
    assert_eq!(res1, Ok(()));
    assert_balance(&account(&manager, 1), dec(100, 1), dec(0, 0));

    // Dispute + Resolve

    let tx2 = Tx::new(1, Dispute, 1, None);
    let res2 = manager.add_transaction(tx2);
    assert_eq!(res2, Ok(()));
    assert_balance(&account(&manager, 1), dec(0, 0), dec(100, 1));

    let tx3 = Tx::new(1, Resolve, 1, None);
    let res3 = manager.add_transaction(tx3);
    assert_eq!(res3, Ok(()));
    assert_balance(&account(&manager, 1), dec(100, 1), dec(0, 0));

    // Dispute + Chargeback

    let tx4 = Tx::new(1, Dispute, 1, None);
    let res4 = manager.add_transaction(tx4);
    assert_eq!(res4, Ok(()));
    assert_balance(&account(&manager, 1), dec(0, 0), dec(100, 1));

    let tx5 = Tx::new(1, Chargeback, 1, None);
    let res5 = manager.add_transaction(tx5);
    assert_eq!(res5, Ok(()));
    assert_balance(&account(&manager, 1), dec(0, 0), dec(0, 0));
}

#[test]
fn test_single_client_withdrawal_dispute_resolve_chargeback() {
    let mut manager = TransactionManager::new();

    let tx1 = Tx::new(1, Deposit, 1, Some(dec(100, 1)));
    let res1 = manager.add_transaction(tx1);
    assert_eq!(res1, Ok(()));
    assert_balance(&account(&manager, 1), dec(100, 1), dec(0, 0));

    let tx2 = Tx::new(2, Withdrawal, 1, Some(dec(50, 1)));
    let res2 = manager.add_transaction(tx2);
    assert_eq!(res2, Ok(()));
    assert_balance(&account(&manager, 1), dec(50, 1), dec(0, 0));

    // Dispute + Resolve

    let tx3 = Tx::new(2, Dispute, 1, None);
    let res3 = manager.add_transaction(tx3);
    assert_eq!(res3, Ok(()));
    // money is still available, even though it's held
    assert_balance(&account(&manager, 1), dec(50, 1), dec(50, 1));

    let tx4 = Tx::new(2, Resolve, 1, None);
    let res4 = manager.add_transaction(tx4);
    assert_eq!(res4, Ok(()));
    assert_balance(&account(&manager, 1), dec(50, 1), dec(0, 0));

    // Dispute + Chargeback

    let tx5 = Tx::new(2, Dispute, 1, None);
    let res5 = manager.add_transaction(tx5);
    assert_eq!(res5, Ok(()));
    assert_balance(&account(&manager, 1), dec(50, 1), dec(50, 1));

    let tx6 = Tx::new(2, Chargeback, 1, None);
    let res6 = manager.add_transaction(tx6);
    assert_eq!(res6, Ok(()));
    // withdrawn money is returned
    assert_balance(&account(&manager, 1), dec(100, 1), dec(0, 0));
    assert!(account(&manager, 1).get_locked());
}

#[test]
fn chargeback_locks_the_account_for_good() {
    let mut manager = TransactionManager::new();
    assert_eq!(manager.add_transaction(Tx::new(1, Deposit, 9, Some(dec(7, 0)))), Ok(()));
    assert_eq!(manager.add_transaction(Tx::new(1, Dispute, 9, None)), Ok(()));
    assert_eq!(manager.add_transaction(Tx::new(1, Chargeback, 9, None)), Ok(()));
    let after = account(&manager, 9);
    assert_balance(&after, dec(0, 0), dec(0, 0));
    assert!(after.get_locked());

    // every kind of transaction is turned down from now on
    let later = [
        Tx::new(2, Deposit, 9, Some(dec(1, 0))),
        Tx::new(3, Withdrawal, 9, Some(dec(1, 0))),
        Tx::new(1, Dispute, 9, None),
        Tx::new(1, Resolve, 9, None),
        Tx::new(1, Chargeback, 9, None),
        Tx::new(1, Deposit, 9, Some(dec(7, 0))),
    ];
    for tx in later {
        assert_eq!(manager.add_transaction(tx), Err(TxError::ClientFrozen(9)));
        assert_balance(&account(&manager, 9), dec(0, 0), dec(0, 0));
        assert!(account(&manager, 9).get_locked());
    }

    // other clients are not affected
    assert_eq!(manager.add_transaction(Tx::new(1, Deposit, 10, Some(dec(1, 0)))), Ok(()));
}

#[test]
fn duplicate_deposit_is_rejected_and_changes_nothing() {
    let mut manager = TransactionManager::new();
    assert_eq!(manager.add_transaction(Tx::new(5, Deposit, 1, Some(dec(25, 1)))), Ok(()));
    assert_eq!(
        manager.add_transaction(Tx::new(5, Deposit, 1, Some(dec(25, 1)))),
        Err(TxError::DuplicateTransaction(5))
    );
    assert_balance(&account(&manager, 1), dec(25, 1), dec(0, 0));
    // a different amount under the same id is a duplicate too
    assert_eq!(
        manager.add_transaction(Tx::new(5, Deposit, 1, Some(dec(99, 0)))),
        Err(TxError::DuplicateTransaction(5))
    );
    // and so is a withdrawal under the id of a deposit
    assert_eq!(
        manager.add_transaction(Tx::new(5, Withdrawal, 1, Some(dec(1, 0)))),
        Err(TxError::DuplicateTransaction(5))
    );
    assert_balance(&account(&manager, 1), dec(25, 1), dec(0, 0));
}

#[test]
fn transaction_ids_are_per_client() {
    let mut manager = TransactionManager::new();
    assert_eq!(manager.add_transaction(Tx::new(1, Deposit, 1, Some(dec(1, 0)))), Ok(()));
    // the same id under another client is a different transaction
    assert_eq!(manager.add_transaction(Tx::new(1, Deposit, 2, Some(dec(2, 0)))), Ok(()));
    // a dispute reaches only the disputing client's transaction
    assert_eq!(manager.add_transaction(Tx::new(1, Dispute, 2, None)), Ok(()));
    assert_balance(&account(&manager, 1), dec(1, 0), dec(0, 0));
    assert_balance(&account(&manager, 2), dec(0, 0), dec(2, 0));
    // ids that differ by a multiple of 65536 do not collide with clients
    assert_eq!(manager.add_transaction(Tx::new(0, Deposit, 65535, Some(dec(3, 0)))), Ok(()));
    assert_eq!(manager.add_transaction(Tx::new(1, Deposit, 0, Some(dec(4, 0)))), Ok(()));
    assert_eq!(
        manager.add_transaction(Tx::new(u32::MAX, Deposit, u16::MAX, Some(dec(5, 0)))),
        Ok(())
    );
    assert_eq!(
        manager.add_transaction(Tx::new(u32::MAX, Dispute, u16::MAX - 1, None)),
        Err(TxError::TransactionNotFound(u32::MAX))
    );
}

#[test]
fn overdraft_is_rejected_and_can_be_retried() {
    let mut manager = TransactionManager::new();
    assert_eq!(manager.add_transaction(Tx::new(1, Deposit, 3, Some(dec(10, 0)))), Ok(()));
    assert_eq!(
        manager.add_transaction(Tx::new(2, Withdrawal, 3, Some(Amount { units: 100_001 }))),
        Err(TxError::InsufficientFunds(3))
    );
    assert_balance(&account(&manager, 3), dec(10, 0), dec(0, 0));
    // the rejected withdrawal is not on record: it cannot be disputed
    assert_eq!(
        manager.add_transaction(Tx::new(2, Dispute, 3, None)),
        Err(TxError::TransactionNotFound(2))
    );
    // and its id is still free
    assert_eq!(manager.add_transaction(Tx::new(2, Withdrawal, 3, Some(dec(10, 0)))), Ok(()));
    assert_balance(&account(&manager, 3), dec(0, 0), dec(0, 0));
}

#[test]
fn unknown_and_undisputed_references_are_rejected() {
    let mut manager = TransactionManager::new();
    assert_eq!(
        manager.add_transaction(Tx::new(1, Dispute, 1, None)),
        Err(TxError::TransactionNotFound(1))
    );
    assert_eq!(
        manager.add_transaction(Tx::new(1, Resolve, 1, None)),
        Err(TxError::NotDisputed(1))
    );
    assert_eq!(
        manager.add_transaction(Tx::new(1, Chargeback, 1, None)),
        Err(TxError::NotDisputed(1))
    );
    assert_eq!(manager.add_transaction(Tx::new(1, Deposit, 1, Some(dec(1, 0)))), Ok(()));
    // on record, but not under dispute
    assert_eq!(
        manager.add_transaction(Tx::new(1, Resolve, 1, None)),
        Err(TxError::NotDisputed(1))
    );
    assert_eq!(
        manager.add_transaction(Tx::new(1, Chargeback, 1, None)),
        Err(TxError::NotDisputed(1))
    );
    // a resolved dispute is no longer open
    assert_eq!(manager.add_transaction(Tx::new(1, Dispute, 1, None)), Ok(()));
    assert_eq!(manager.add_transaction(Tx::new(1, Resolve, 1, None)), Ok(()));
    assert_eq!(
        manager.add_transaction(Tx::new(1, Resolve, 1, None)),
        Err(TxError::NotDisputed(1))
    );
    assert_balance(&account(&manager, 1), dec(1, 0), dec(0, 0));
    assert!(!account(&manager, 1).get_locked());
}

#[test]
fn deposit_or_withdrawal_without_amount_is_rejected() {
    let mut manager = TransactionManager::new();
    assert_eq!(
        manager.add_transaction(Tx::new(1, Deposit, 1, None)),
        Err(TxError::NoAmount(1))
    );
    assert_eq!(
        manager.add_transaction(Tx::new(2, Withdrawal, 1, None)),
        Err(TxError::NoAmount(2))
    );
    assert_balance(&account(&manager, 1), dec(0, 0), dec(0, 0));
    // neither went on record
    assert_eq!(manager.add_transaction(Tx::new(1, Deposit, 1, Some(dec(1, 0)))), Ok(()));
}

#[test]
fn rejected_transaction_still_files_the_account() {
    let mut manager = TransactionManager::new();
    assert!(manager.get_snapshot(4).is_none());
    assert_eq!(
        manager.add_transaction(Tx::new(1, Dispute, 4, None)),
        Err(TxError::TransactionNotFound(1))
    );
    let snapshot = manager.get_snapshot(4).unwrap();
    assert_eq!(snapshot.get_id(), 4);
    assert_balance(&snapshot, dec(0, 0), dec(0, 0));
    assert!(!snapshot.get_locked());
    let all = manager.get_all_values();
    assert_eq!(all.len(), 1);
    assert_eq!(all[0].get_id(), 4);
}

#[test]
fn disputing_twice_holds_twice() {
    let mut manager = TransactionManager::new();
    assert_eq!(manager.add_transaction(Tx::new(1, Deposit, 1, Some(dec(4, 0)))), Ok(()));
    assert_eq!(manager.add_transaction(Tx::new(1, Dispute, 1, None)), Ok(()));
    assert_eq!(manager.add_transaction(Tx::new(1, Dispute, 1, None)), Ok(()));
    assert_balance(&account(&manager, 1), dec(-4, 0), dec(8, 0));
    assert_eq!(account(&manager, 1).get_total(), dec(4, 0));
}

#[test]
fn get_all_values_lists_every_account_once() {
    let mut manager = TransactionManager::new();
    assert!(TransactionManager::new().get_all_values().is_empty());
    for client in [7u16, 3, 7, 65535, 0, 3] {
        let id = client as u32 + 100;
        let _ = manager.add_transaction(Tx::new(id, Deposit, client, Some(dec(client as i64, 0))));
    }
    let mut all = manager.get_all_values();
    all.sort_by_key(|s| s.get_id());
    let ids: Vec<u16> = all.iter().map(|s| s.get_id()).collect();
    assert_eq!(ids, vec![0, 3, 7, 65535]);
    for snapshot in all.iter() {
        assert_eq!(snapshot.get_available(), dec(snapshot.get_id() as i64, 0));
        assert_eq!(snapshot.get_held(), dec(0, 0));
        assert_eq!(snapshot.get_total(), snapshot.get_available());
        assert!(!snapshot.get_locked());
    }
}

#[test]
fn within_limits_guards_the_machine_range() {
    let mut manager = TransactionManager::new();
    let huge = Amount { units: i128::MAX };
    let first = Tx::new(1, Deposit, 1, Some(huge));
    assert!(manager.within_limits(&first));
    assert_eq!(manager.checked_add_transaction(first), Some(Ok(())));
    assert_balance(&account(&manager, 1), huge, dec(0, 0));

    // one more ten-thousandth cannot be held
    let one_more = Tx::new(2, Deposit, 1, Some(Amount { units: 1 }));
    assert!(!manager.within_limits(&one_more));
    assert_eq!(manager.checked_add_transaction(one_more), None);
    assert_balance(&account(&manager, 1), huge, dec(0, 0));
    // and the refused deposit is not on record
    assert_eq!(
        manager.checked_add_transaction(Tx::new(2, Dispute, 1, None)),
        Some(Err(TxError::TransactionNotFound(2)))
    );

    // a rejected transaction is always within limits
    let duplicate = Tx::new(1, Deposit, 1, Some(huge));
    assert!(manager.within_limits(&duplicate));
    assert_eq!(
        manager.checked_add_transaction(duplicate),
        Some(Err(TxError::DuplicateTransaction(1)))
    );

    // a withdrawal brings the balance back into range for a deposit
    assert_eq!(
        manager.checked_add_transaction(Tx::new(3, Withdrawal, 1, Some(Amount { units: 5 }))),
        Some(Ok(()))
    );
    assert_eq!(
        manager.checked_add_transaction(Tx::new(4, Deposit, 1, Some(Amount { units: 5 }))),
        Some(Ok(()))
    );
    assert_balance(&account(&manager, 1), huge, dec(0, 0));
}

#[test]
fn dispute_beyond_limits_is_refused_unchanged() {
    let mut manager = TransactionManager::new();
    let big = Amount { units: i128::MAX - 10 };
    assert_eq!(manager.checked_add_transaction(Tx::new(1, Deposit, 1, Some(big))), Some(Ok(())));
    assert_eq!(manager.checked_add_transaction(Tx::new(1, Dispute, 1, None)), Some(Ok(())));
    assert_balance(&account(&manager, 1), dec(0, 0), big);
    // holding the same amount a second time would leave the range
    assert!(!manager.within_limits(&Tx::new(1, Dispute, 1, None)));
    assert_eq!(manager.checked_add_transaction(Tx::new(1, Dispute, 1, None)), None);
    assert_balance(&account(&manager, 1), dec(0, 0), big);
}

#[test]
fn held_never_goes_negative_and_totals_add_up() {
    // a fixed pseudo-random stream of transactions over a few clients and ids
    let mut state: u64 = 0x2545_F491_4F6C_DD1D;
    let mut next = move || {
        state ^= state << 13;
        state ^= state >> 7;
        state ^= state << 17;
        state
    };
    let mut manager = TransactionManager::new();
    let kinds = [Deposit, Withdrawal, Dispute, Resolve, Chargeback];
    for step in 0..20_000u32 {
        let client = (next() % 40) as u16;
        let id = (next() % 25) as u32;
        // chargebacks are rare, so that accounts stay open for a while
        let roll = next() % 100;
        let kind = if roll < 40 {
            kinds[0]
        } else if roll < 60 {
            kinds[1]
        } else if roll < 80 {
            kinds[2]
        } else if roll < 99 {
            kinds[3]
        } else {
            kinds[4]
        };
        let amount = match kind {
            Deposit | Withdrawal => Some(Amount { units: (next() % 1_000_000) as i128 }),
            _ => None,
        };
        let before = manager.get_snapshot(client);
        let result = manager.add_transaction(Tx::new(id, kind, client, amount));
        let after = account(&manager, client);
        assert!(after.get_held().units >= 0, "step {}", step);
        assert_eq!(
            after.get_total().units,
            after.get_available().units + after.get_held().units
        );
        if let Some(before) = before {
            // a lock is never lifted
            assert!(after.get_locked() || !before.get_locked());
            if result.is_err() {
                assert_eq!(after.get_available(), before.get_available());
                assert_eq!(after.get_held(), before.get_held());
                assert_eq!(after.get_locked(), before.get_locked());
            }
            if before.get_locked() {
                assert_eq!(result, Err(TxError::ClientFrozen(client)));
            }
        }
    }
    assert_eq!(manager.get_all_values().len(), 40);
}
