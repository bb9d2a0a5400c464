//! The escrow that holds the stakes of one pool.

use vstd::prelude::*;
use crate::identity::Identity;

verus! {

/// Who a payout goes to.
#[derive(Clone, Copy, Debug, PartialEq, Eq)]
pub enum Recipient {
    /// A participant who completed the challenge.
    Winner { wallet: Identity },
    /// The pool's charity target.
    Charity { address: Identity },
}

/// One movement of funds out of a pool's escrow, tagged with the pool it
/// is drawn from and the party it goes to.
#[derive(Clone, Copy, Debug, PartialEq, Eq)]
pub struct Payout {
    pub pool: u64,
    pub recipient: Recipient,
    pub amount: u64,
}

/// The funds escrowed for one pool. Stakes come in through `deposit`;
/// funds leave only against a payout drawn on the same pool.
#[derive(Clone, Copy, Debug, PartialEq, Eq)]
pub struct EscrowVault {
    /// The id of the pool the vault belongs to.
    pub pool: u64,
    /// The funds currently held.
    pub balance: u64,
}

impl EscrowVault {
    /// An empty vault for the pool with id `pool`.
    pub fn new(pool: u64) -> (vault: EscrowVault)
        ensures
            vault == (EscrowVault { pool, balance: 0 }),
    {
        EscrowVault { pool, balance: 0 }
    }

    /// Whether the vault can pay `payout`: it is drawn on this vault's pool
    /// and the vault holds at least its amount.
    pub open spec fn covers(self, payout: Payout) -> bool {
        payout.pool == self.pool && payout.amount <= self.balance
    }

    /// Adds `amount` to the vault. Returns `false`, and leaves the vault as
    /// it was, exactly when the new balance would not fit in 64 bits.
    pub fn deposit(&mut self, amount: u64) -> (accepted: bool)
        ensures
            accepted == (old(self).balance + amount <= u64::MAX),
            accepted ==> *final(self) == (EscrowVault {
                pool: old(self).pool,
                balance: (old(self).balance + amount) as u64,
            }),
            !accepted ==> *final(self) == *old(self),
    {
        if amount <= u64::MAX - self.balance {
            self.balance = self.balance + amount;
            true
        } else {
            false
        }
    }

    /// Pays `payout` out of the vault. Returns `false`, and leaves the
    /// vault as it was, exactly when the vault does not cover the payout.
    pub fn release(&mut self, payout: &Payout) -> (released: bool)
        ensures
            released == old(self).covers(*payout),
            released ==> *final(self) == (EscrowVault {
                pool: old(self).pool,
                balance: (old(self).balance - payout.amount) as u64,
            }),
            !released ==> *final(self) == *old(self),
    {
        if payout.pool == self.pool && payout.amount <= self.balance {
            self.balance = self.balance - payout.amount;
            true
        } else {
            false
        }
    }
}

} // verus!
