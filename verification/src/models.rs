pub mod client;
pub mod client_snapshot;
pub mod transaction;
