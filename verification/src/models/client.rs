use crate::common::amount::{representable, Amount};
use crate::common::types::{ClientId, TransactionType};
use crate::managers::transaction_manager::TxError;
use crate::models::client_snapshot::ClientSnapshot;
use vstd::prelude::*;

verus! {

/// An account as the ledger's rules see it: the view of a [`Client`] and of a
/// [`ClientSnapshot`]. Balances are in ten-thousandths and unbounded; the
/// total is never stored, only derived.
pub struct AccountState {
    pub client: ClientId,
    pub available: int,
    pub held: int,
    pub locked: bool,
}

impl AccountState {
    /// The account of a client that has not been seen before.
    pub open spec fn fresh(client: ClientId) -> AccountState {
        AccountState { client, available: 0, held: 0, locked: false }
    }

    /// The same balances as the account of `client`.
    pub open spec fn filed_under(self, client: ClientId) -> AccountState {
        AccountState { client, ..self }
    }

    /// Everything the client owns: what is available and what is held.
    pub open spec fn total(self) -> int {
        self.available + self.held
    }

    /// Whether both balances and their total can be held in this machine's
    /// amounts.
    pub open spec fn fits(self) -> bool {
        &&& representable(self.available)
        &&& representable(self.held)
        &&& representable(self.total())
    }

    /// Adds `amount` to what is available.
    pub open spec fn deposit(self, amount: int) -> AccountState {
        AccountState { available: self.available + amount, ..self }
    }

    /// Whether the account can pay `amount` out of what is available.
    pub open spec fn covers(self, amount: int) -> bool {
        self.available >= amount
    }

    /// Takes `amount` out of what is available.
    pub open spec fn withdraw(self, amount: int) -> AccountState {
        AccountState { available: self.available - amount, ..self }
    }

    /// Opens a dispute over an earlier transaction of the given kind and
    /// amount. A disputed deposit moves from available to held; a disputed
    /// withdrawal is held without debiting what is available a second time.
    pub open spec fn dispute(self, amount: int, kind: TransactionType) -> AccountState {
        match kind {
            TransactionType::Deposit => AccountState {
                available: self.available - amount,
                held: self.held + amount,
                ..self
            },
            TransactionType::Withdrawal => AccountState { held: self.held + amount, ..self },
            _ => self,
        }
    }

    /// Cancels a dispute: the exact inverse of `dispute` for the same amount
    /// and kind.
    pub open spec fn resolve(self, amount: int, kind: TransactionType) -> AccountState {
        match kind {
            TransactionType::Deposit => AccountState {
                available: self.available + amount,
                held: self.held - amount,
                ..self
            },
            TransactionType::Withdrawal => AccountState { held: self.held - amount, ..self },
            _ => self,
        }
    }

    /// Reverses a disputed transaction for good and locks the account. The
    /// held funds of a deposit leave the account; those of a withdrawal
    /// return to what is available.
    pub open spec fn chargeback(self, amount: int, kind: TransactionType) -> AccountState {
        match kind {
            TransactionType::Deposit => AccountState {
                held: self.held - amount,
                locked: true,
                ..self
            },
            TransactionType::Withdrawal => AccountState {
                available: self.available + amount,
                held: self.held - amount,
                locked: true,
                ..self
            },
            _ => AccountState { locked: true, ..self },
        }
    }

    /// Locks the account.
    pub open spec fn freeze(self) -> AccountState {
        AccountState { locked: true, ..self }
    }
}

impl AccountState {
    /// Resolving a dispute restores exactly the balances from before it.
    pub proof fn lemma_resolve_undoes_dispute(self, amount: int, kind: TransactionType)
        ensures
            self.dispute(amount, kind).resolve(amount, kind) == self,
    {
    }

    /// A dispute moves funds between the two balances of a deposit and never
    /// changes their total; a resolution gives back what the dispute held.
    pub proof fn lemma_dispute_of_deposit_keeps_total(self, amount: int)
        ensures
            self.dispute(amount, TransactionType::Deposit).total() == self.total(),
            self.resolve(amount, TransactionType::Deposit).total() == self.total(),
    {
    }

    /// Charging back a disputed transaction leaves held what was held before
    /// the dispute, and locks the account.
    pub proof fn lemma_chargeback_after_dispute(self, amount: int, kind: TransactionType)
        ensures
            self.dispute(amount, kind).chargeback(amount, kind).held == self.held,
            self.dispute(amount, kind).chargeback(amount, kind).locked,
            kind is Deposit ==> self.dispute(amount, kind).chargeback(amount, kind).available
                == self.available - amount,
            kind is Withdrawal ==> self.dispute(amount, kind).chargeback(amount, kind).available
                == self.available + amount,
    {
    }

    /// No operation on an account unlocks it.
    pub proof fn lemma_lock_is_permanent(self, amount: int, kind: TransactionType)
        requires
            self.locked,
        ensures
            self.deposit(amount).locked,
            self.withdraw(amount).locked,
            self.dispute(amount, kind).locked,
            self.resolve(amount, kind).locked,
            self.chargeback(amount, kind).locked,
            self.freeze().locked,
    {
    }
}

/// The balances of one client.
#[derive(Debug, Clone, Copy)]
pub struct Client {
    client_id: ClientId,
    available: Amount,
    held: Amount,
    locked: bool,
}

impl View for Client {
    type V = AccountState;

    closed spec fn view(&self) -> AccountState {
        AccountState {
            client: self.client_id,
            available: self.available@,
            held: self.held@,
            locked: self.locked,
        }
    }
}

/// Whether both balances were computed without leaving the machine's range
/// and their total stays in it too.
fn pair_fits(available: Option<i128>, held: Option<i128>) -> (r: bool)
    ensures
        r == (available matches Some(a) && held matches Some(h) && representable(a + h)),
{
    match (available, held) {
        (Some(a), Some(h)) => a.checked_add(h).is_some(),
        _ => false,
    }
}

impl Client {
    /// A client's balances and their total are always ones the machine can
    /// hold.
    #[verifier::type_invariant]
    pub open spec fn balances_fit(self) -> bool {
        self@.fits()
    }

    /// The account of a new client: nothing available, nothing held, not
    /// locked.
    pub fn new(client_id: ClientId) -> (r: Self)
        ensures
            r@ == AccountState::fresh(client_id),
    {
        Client { client_id, available: Amount::zero(), held: Amount::zero(), locked: false }
    }

    /// What the client can withdraw.
    pub fn get_available(&self) -> (r: Amount)
        ensures
            r@ == self@.available,
    {
        self.available
    }

    /// What is held under open disputes.
    pub fn get_held(&self) -> (r: Amount)
        ensures
            r@ == self@.held,
    {
        self.held
    }

    /// Whether the machine can hold the balances that `deposit` would leave.
    pub fn deposit_fits(&self, amount: Amount) -> (r: bool)
        ensures
            r == self@.deposit(amount@).fits(),
    {
        pair_fits(self.available.units.checked_add(amount.units), Some(self.held.units))
    }

    /// Whether the machine can hold the balances that a covered `withdraw`
    /// would leave.
    pub fn withdraw_fits(&self, amount: Amount) -> (r: bool)
        ensures
            r == self@.withdraw(amount@).fits(),
    {
        pair_fits(self.available.units.checked_sub(amount.units), Some(self.held.units))
    }

    /// Whether the machine can hold the balances that `dispute` would leave.
    pub fn dispute_fits(&self, amount: Amount, tx_type: TransactionType) -> (r: bool)
        ensures
            r == self@.dispute(amount@, tx_type).fits(),
    {
        proof {
            use_type_invariant(self);
        }
        match tx_type {
            TransactionType::Deposit => pair_fits(
                self.available.units.checked_sub(amount.units),
                self.held.units.checked_add(amount.units),
            ),
            TransactionType::Withdrawal => pair_fits(
                Some(self.available.units),
                self.held.units.checked_add(amount.units),
            ),
            _ => true,
        }
    }

    /// Whether the machine can hold the balances that `resolve` would leave.
    pub fn resolve_fits(&self, amount: Amount, tx_type: TransactionType) -> (r: bool)
        ensures
            r == self@.resolve(amount@, tx_type).fits(),
    {
        proof {
            use_type_invariant(self);
        }
        match tx_type {
            TransactionType::Deposit => pair_fits(
                self.available.units.checked_add(amount.units),
                self.held.units.checked_sub(amount.units),
            ),
            TransactionType::Withdrawal => pair_fits(
                Some(self.available.units),
                self.held.units.checked_sub(amount.units),
            ),
            _ => true,
        }
    }

    /// Whether the machine can hold the balances that `chargeback` would
    /// leave.
    pub fn chargeback_fits(&self, amount: Amount, tx_type: TransactionType) -> (r: bool)
        ensures
            r == self@.chargeback(amount@, tx_type).fits(),
    {
        proof {
            use_type_invariant(self);
        }
        match tx_type {
            TransactionType::Deposit => pair_fits(
                Some(self.available.units),
                self.held.units.checked_sub(amount.units),
            ),
            TransactionType::Withdrawal => pair_fits(
                self.available.units.checked_add(amount.units),
                self.held.units.checked_sub(amount.units),
            ),
            _ => true,
        }
    }

    /// Adds `amount` to what is available.
    pub fn deposit(&mut self, amount: Amount)
        requires
            old(self)@.deposit(amount@).fits(),
        ensures
            final(self)@ == old(self)@.deposit(amount@),
    {
        self.available = Amount { units: self.available.units + amount.units };
    }

    /// Takes `amount` out of what is available, or fails and changes nothing
    /// if less than `amount` is available.
    pub fn withdraw(&mut self, amount: Amount) -> (r: Result<(), TxError>)
        requires
            old(self)@.covers(amount@) ==> old(self)@.withdraw(amount@).fits(),
        ensures
            old(self)@.covers(amount@) ==> r is Ok && final(self)@ == old(self)@.withdraw(amount@),
            !old(self)@.covers(amount@) ==> r == Err::<(), TxError>(
                TxError::InsufficientFunds(old(self)@.client),
            ) && final(self)@ == old(self)@,
    {
        if self.available.units < amount.units {
            return Err(TxError::InsufficientFunds(self.client_id));
        }
        self.available = Amount { units: self.available.units - amount.units };
        Ok(())
    }

    /// Opens a dispute over an earlier transaction of this client, of the given
    /// amount and kind.
    pub fn dispute(&mut self, amount: Amount, tx_type: TransactionType)
        requires
            old(self)@.dispute(amount@, tx_type).fits(),
        ensures
            final(self)@ == old(self)@.dispute(amount@, tx_type),
    {
        match tx_type {
            TransactionType::Deposit => {
                *self = Client {
                    client_id: self.client_id,
                    available: Amount { units: self.available.units - amount.units },
                    held: Amount { units: self.held.units + amount.units },
                    locked: self.locked,
                };
            },
            TransactionType::Withdrawal => {
                self.held = Amount { units: self.held.units + amount.units };
            },
            _ => {},
        }
    }

    /// Closes a dispute and gives back what it held.
    pub fn resolve(&mut self, amount: Amount, tx_type: TransactionType)
        requires
            old(self)@.resolve(amount@, tx_type).fits(),
        ensures
            final(self)@ == old(self)@.resolve(amount@, tx_type),
    {
        match tx_type {
            TransactionType::Deposit => {
                *self = Client {
                    client_id: self.client_id,
                    available: Amount { units: self.available.units + amount.units },
                    held: Amount { units: self.held.units - amount.units },
                    locked: self.locked,
                };
            },
            TransactionType::Withdrawal => {
                self.held = Amount { units: self.held.units - amount.units };
            },
            _ => {},
        }
    }

    /// Reverses a disputed transaction for good. The account is locked from
    /// then on.
    pub fn chargeback(&mut self, amount: Amount, tx_type: TransactionType)
        requires
            old(self)@.chargeback(amount@, tx_type).fits(),
        ensures
            final(self)@ == old(self)@.chargeback(amount@, tx_type),
    {
        match tx_type {
            TransactionType::Deposit => {
                *self = Client {
                    client_id: self.client_id,
                    available: self.available,
                    held: Amount { units: self.held.units - amount.units },
                    locked: true,
                };
            },
            TransactionType::Withdrawal => {
                *self = Client {
                    client_id: self.client_id,
                    available: Amount { units: self.available.units + amount.units },
                    held: Amount { units: self.held.units - amount.units },
                    locked: true,
                };
            },
            _ => {
                self.freeze();
            },
        }
    }

    /// Locks the account. There is no way back.
    pub fn freeze(&mut self)
        ensures
            final(self)@ == old(self)@.freeze(),
    {
        proof {
            use_type_invariant(&*self);
        }
        self.locked = true;
    }

    /// Whether the account is locked.
    pub fn is_locked(&self) -> (r: bool)
        ensures
            r == self@.locked,
    {
        self.locked
    }

    /// A copy of the account as it stands.
    pub fn get_snapshot(&self) -> (r: ClientSnapshot)
        ensures
            r@ == self@,
    {
        proof {
            use_type_invariant(self);
        }
        ClientSnapshot::new(self.client_id, self.available, self.held, self.locked)
    }
}

} // verus!
