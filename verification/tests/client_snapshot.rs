use toy_payments_engine::common::amount::Amount;
use toy_payments_engine::models::client_snapshot::ClientSnapshot;

#[test]
fn test_client_snapshot_new() {
    let id = 1;
    let available = Amount::new(1000, 2);
    let held = Amount::new(100, 2);

    let snapshot = ClientSnapshot::new(id, available, held, false);

    assert_eq!(snapshot.get_id(), id);
    assert_eq!(snapshot.get_available(), available);
    assert_eq!(snapshot.get_held(), held);
    assert_eq!(snapshot.get_total(), Amount { units: available.units + held.units });
    assert_eq!(snapshot.get_locked(), false);
}

#[test]
fn total_is_available_plus_held() {
    let cases: [(i128, i128); 6] =
        [(0, 0), (1, 2), (-5, 5), (100_000, -1), (i128::MAX, 0), (i128::MIN, i128::MAX)];
    for (available, held) in cases {
        let snapshot =
            ClientSnapshot::new(3, Amount { units: available }, Amount { units: held }, true);
        assert_eq!(snapshot.get_total().units, available + held);
        assert_eq!(snapshot.get_total(), Amount { units: 110_000 - 110_000 + available + held });
        assert!(snapshot.get_locked());
    }
    let snapshot = ClientSnapshot::new(1, Amount::new(1000, 2), Amount::new(100, 2), false);
    assert_eq!(snapshot.get_total(), Amount::new(11, 0));
}
