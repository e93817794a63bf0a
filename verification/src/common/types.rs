use vstd::prelude::*;

verus! {

/// Identifies a client account.
pub type ClientId = u16;

/// Identifies a transaction among those of one client.
pub type TransactionId = u32;

/// What a recorded transaction did to an account.
///
/// Only `Deposit` and `Withdrawal` move funds on their own; the other three
/// refer back to an earlier deposit or withdrawal.
#[derive(Debug, Clone, Copy, PartialEq, Eq, Structural)]
pub enum TransactionType {
    Deposit,
    Withdrawal,
    Dispute,
    Resolve,
    Chargeback,
}

} // verus!
