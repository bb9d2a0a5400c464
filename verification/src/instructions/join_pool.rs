//! Joining a pool.

use vstd::prelude::*;
use crate::errors::ErrorCode;
use crate::identity::Identity;
use crate::state::{CommitmentPool, Participant, ParticipantStatus, PoolStatus};
use crate::vault::EscrowVault;

verus! {

/// What a join works on: the pool, the record slot of the joining wallet
/// in that pool (empty unless the wallet has joined before), the wallet,
/// the pool's vault and the current time.
#[derive(Clone, Debug, PartialEq, Eq)]
pub struct JoinPool {
    pub pool: CommitmentPool,
    /// The participant record of `participant` in `pool`, if there is one.
    pub participant_account: Option<Participant>,
    /// The wallet that joins.
    pub participant: Identity,
    pub pool_vault: EscrowVault,
    /// The current time, in seconds.
    pub now: i64,
}

impl JoinPool {
    /// The records fit together: a well-formed pool, its own vault holding
    /// exactly what was staked while the pool admits participants, and an
    /// existing record that belongs to this pool and wallet.
    pub open spec fn wf(self) -> bool {
        &&& self.pool.wf()
        &&& self.pool_vault.pool == self.pool.pool_id
        &&& (self.pool.pool_status.joinable() ==> self.pool_vault.balance
            == self.pool.total_staked)
        &&& (self.participant_account matches Some(record) ==> record.wf(self.pool)
            && record.wallet == self.participant)
    }

    /// How a join ends: the first unmet condition in the order joinable
    /// status, free place, no earlier record; success if all are met.
    pub open spec fn outcome(self) -> Result<(), ErrorCode> {
        if !self.pool.pool_status.joinable() {
            Err(ErrorCode::PoolNotJoinable)
        } else if self.pool.participant_count >= self.pool.max_participants {
            Err(ErrorCode::PoolFull)
        } else if self.participant_account is Some {
            Err(ErrorCode::AlreadyJoined)
        } else {
            Ok(())
        }
    }

    /// The record a successful join creates.
    pub open spec fn new_record(self) -> Participant {
        Participant {
            pool: self.pool.pool_id,
            wallet: self.participant,
            stake_amount: self.pool.stake_amount,
            join_timestamp: self.now,
            status: ParticipantStatus::Active,
            days_verified: 0,
            paid: false,
        }
    }

    /// The records after a successful join: the stake is in the vault, the
    /// new record fills the slot, count and staked total have grown by one
    /// participant, and the pool is `Active`.
    pub open spec fn joined(self) -> JoinPool {
        JoinPool {
            pool: CommitmentPool {
                participant_count: (self.pool.participant_count + 1) as u16,
                total_staked: (self.pool.total_staked + self.pool.stake_amount) as u64,
                pool_status: PoolStatus::Active,
                ..self.pool
            },
            participant_account: Some(self.new_record()),
            pool_vault: EscrowVault {
                balance: (self.pool_vault.balance + self.pool.stake_amount) as u64,
                ..self.pool_vault
            },
            ..self
        }
    }
}

/// Admits `ctx.participant` to the pool. The deposit into the vault, the
/// new participant record and the pool's counters change together or not
/// at all.
///
/// Where the join is due to succeed, the new staked total must fit in 64
/// bits.
pub fn handler(ctx: &mut JoinPool) -> (res: Result<(), ErrorCode>)
    requires
        old(ctx).wf(),
        old(ctx).outcome() is Ok ==> old(ctx).pool.total_staked + old(ctx).pool.stake_amount
            <= u64::MAX,
    ensures
        res == old(ctx).outcome(),
        res is Ok ==> *final(ctx) == old(ctx).joined(),
        res is Err ==> *final(ctx) == *old(ctx),
        final(ctx).wf(),
{
    if !(ctx.pool.pool_status == PoolStatus::Pending || ctx.pool.pool_status
        == PoolStatus::Active) {
        return Err(ErrorCode::PoolNotJoinable);
    }
    if ctx.pool.participant_count >= ctx.pool.max_participants {
        return Err(ErrorCode::PoolFull);
    }
    if ctx.participant_account.is_some() {
        return Err(ErrorCode::AlreadyJoined);
    }
    let stake: u64 = ctx.pool.stake_amount;
    let accepted: bool = ctx.pool_vault.deposit(stake);
    assert(accepted);
    ctx.participant_account = Some(
        Participant {
            pool: ctx.pool.pool_id,
            wallet: ctx.participant,
            stake_amount: stake,
            join_timestamp: ctx.now,
            status: ParticipantStatus::Active,
            days_verified: 0,
            paid: false,
        },
    );
    proof {
        let count = ctx.pool.participant_count as int;
        assert((count + 1) * stake == count * stake + stake) by (nonlinear_arith);
    }
    ctx.pool.participant_count = ctx.pool.participant_count + 1;
    ctx.pool.total_staked = ctx.pool.total_staked + stake;
    ctx.pool.pool_status = PoolStatus::Active;
    Ok(())
}

impl JoinPool {
    /// Tests whether the records fit together.
    pub fn is_well_formed(&self) -> (ok: bool)
        ensures
            ok == self.wf(),
    {
        if !self.pool.is_well_formed() {
            return false;
        }
        if self.pool_vault.pool != self.pool.pool_id {
            return false;
        }
        if (self.pool.pool_status == PoolStatus::Pending || self.pool.pool_status
            == PoolStatus::Active) && self.pool_vault.balance != self.pool.total_staked {
            return false;
        }
        match &self.participant_account {
            Some(record) => record.is_well_formed(&self.pool) && record.wallet
                == self.participant,
            None => true,
        }
    }
}

} // verus!
