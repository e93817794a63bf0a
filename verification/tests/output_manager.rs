use toy_payments_engine::common::amount::Amount;
use toy_payments_engine::managers::output_manager::CsvOutputManager;
use toy_payments_engine::models::client_snapshot::ClientSnapshot;

#[test]
fn header_names_the_five_columns() {
    let manager = CsvOutputManager::new();
    assert_eq!(manager.header(), vec!["client", "available", "held", "total", "locked"]);
}

#[test]
fn record_writes_an_account() {
    let manager = CsvOutputManager::new();
    let snapshot = ClientSnapshot::new(7, Amount::new(15, 1), Amount::new(-25, 2), false);
    assert_eq!(manager.record(&snapshot), vec!["7", "1.5000", "-0.2500", "1.2500", "false"]);
    let snapshot = ClientSnapshot::new(65535, Amount::zero(), Amount::new(3, 0), true);
    assert_eq!(manager.record(&snapshot), vec!["65535", "0.0000", "3.0000", "3.0000", "true"]);
}

#[test]
fn output_rows_start_with_the_header_and_keep_the_order() {
    let manager = CsvOutputManager::new();
    assert_eq!(
        manager.output_rows(&[]),
        vec![vec!["client", "available", "held", "total", "locked"]]
    );
    let clients = [
        ClientSnapshot::new(2, Amount::new(2, 0), Amount::zero(), false),
        ClientSnapshot::new(1, Amount::new(15, 1), Amount::new(5, 1), true),
    ];
    assert_eq!(
        manager.output_rows(&clients),
        vec![
            vec!["client", "available", "held", "total", "locked"],
            vec!["2", "2.0000", "0.0000", "2.0000", "false"],
            vec!["1", "1.5000", "0.5000", "2.0000", "true"],
        ]
    );
}
