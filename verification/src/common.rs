pub mod amount;
pub mod chunks;
pub mod text;
pub mod types;
