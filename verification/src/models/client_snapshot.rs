use crate::common::amount::{representable, Amount};
use crate::common::types::ClientId;
use crate::models::client::AccountState;
use vstd::prelude::*;

verus! {

/// A read-only copy of a client's account at one point in time.
#[derive(Debug, Clone, Copy)]
pub struct ClientSnapshot {
    id: ClientId,
    available: Amount,
    held: Amount,
    locked: bool,
}

impl View for ClientSnapshot {
    type V = AccountState;

    closed spec fn view(&self) -> AccountState {
        AccountState {
            client: self.id,
            available: self.available@,
            held: self.held@,
            locked: self.locked,
        }
    }
}

impl ClientSnapshot {
    /// A snapshot's balances and their total are always ones the machine can
    /// hold.
    #[verifier::type_invariant]
    pub open spec fn balances_fit(self) -> bool {
        self@.fits()
    }

    /// A snapshot with the given balances, whose total the machine must be
    /// able to hold.
    pub fn new(id: ClientId, available: Amount, held: Amount, locked: bool) -> (r: Self)
        requires
            representable(available@ + held@),
        ensures
            r@ == (AccountState { client: id, available: available@, held: held@, locked }),
    {
        ClientSnapshot { id, available, held, locked }
    }

    /// The client whose account this is.
    pub fn get_id(&self) -> (r: ClientId)
        ensures
            r == self@.client,
    {
        self.id
    }

    /// What the client could withdraw.
    pub fn get_available(&self) -> (r: Amount)
        ensures
            r@ == self@.available,
    {
        self.available
    }

    /// What was held under open disputes.
    pub fn get_held(&self) -> (r: Amount)
        ensures
            r@ == self@.held,
    {
        self.held
    }

    /// The total is derived from the two balances each time it is asked for.
    pub fn get_total(&self) -> (r: Amount)
        ensures
            r@ == self@.available + self@.held,
    {
        proof {
            use_type_invariant(self);
        }
        Amount { units: self.available.units + self.held.units }
    }

    /// Whether the account was locked.
    pub fn get_locked(&self) -> (r: bool)
        ensures
            r == self@.locked,
    {
        self.locked
    }
}

} // verus!
