pub mod holds;
pub mod ledger;
pub mod output_manager;
pub mod transaction_manager;
