//! Creating a pool.

use vstd::prelude::*;
use crate::errors::ErrorCode;
use crate::identity::Identity;
use crate::state::{
    valid_configuration, CommitmentPool, DistributionMode, GoalType, PoolStatus, SECONDS_PER_DAY,
};

verus! {

/// Who creates the pool, who will verify it, and the current time.
#[derive(Clone, Copy, Debug, PartialEq, Eq)]
pub struct CreatePool {
    /// The creator, who becomes the pool's authority.
    pub authority: Identity,
    /// The identity that will attest the participants' outcomes.
    pub verifier: Identity,
    /// The current time, in seconds.
    pub now: i64,
}

/// The pool that a successful creation yields: the given configuration,
/// no participants, nothing staked, status `Pending`, and an end time
/// `duration_days` days after `ctx.now`.
pub open spec fn created_pool(
    ctx: CreatePool,
    pool_id: u64,
    goal_type: GoalType,
    stake_amount: u64,
    duration_days: u8,
    max_participants: u16,
    min_participants: u16,
    charity_address: Identity,
    distribution_mode: DistributionMode,
) -> CommitmentPool {
    CommitmentPool {
        authority: ctx.authority,
        verifier: ctx.verifier,
        pool_id,
        goal_type,
        stake_amount,
        duration_days,
        max_participants,
        min_participants,
        participant_count: 0,
        total_staked: 0,
        charity_address,
        distribution_mode,
        pool_status: PoolStatus::Pending,
        start_timestamp: ctx.now,
        end_timestamp: (ctx.now + duration_days * SECONDS_PER_DAY) as i64,
        charity_paid: false,
    }
}

/// Creates a pool. Fails with `InvalidConfiguration` exactly when the
/// configuration is not valid; otherwise returns the new pool.
///
/// The end time of a valid configuration must fit in 64 bits.
pub fn handler(
    ctx: &CreatePool,
    pool_id: u64,
    goal_type: GoalType,
    stake_amount: u64,
    duration_days: u8,
    max_participants: u16,
    min_participants: u16,
    charity_address: Identity,
    distribution_mode: DistributionMode,
) -> (created: Result<CommitmentPool, ErrorCode>)
    requires
        valid_configuration(
            stake_amount,
            duration_days,
            max_participants,
            min_participants,
            distribution_mode,
        ) ==> ctx.now + duration_days * SECONDS_PER_DAY <= i64::MAX,
    ensures
        created == if valid_configuration(
            stake_amount,
            duration_days,
            max_participants,
            min_participants,
            distribution_mode,
        ) {
            Ok::<CommitmentPool, ErrorCode>(
                created_pool(
                    *ctx,
                    pool_id,
                    goal_type,
                    stake_amount,
                    duration_days,
                    max_participants,
                    min_participants,
                    charity_address,
                    distribution_mode,
                ),
            )
        } else {
            Err::<CommitmentPool, ErrorCode>(ErrorCode::InvalidConfiguration)
        },
        created matches Ok(pool) ==> pool.wf(),
{
    if stake_amount == 0 {
        return Err(ErrorCode::InvalidConfiguration);
    }
    if duration_days == 0 || duration_days > 30 {
        return Err(ErrorCode::InvalidConfiguration);
    }
    if max_participants == 0 || max_participants > 100 {
        return Err(ErrorCode::InvalidConfiguration);
    }
    if min_participants == 0 || min_participants > max_participants {
        return Err(ErrorCode::InvalidConfiguration);
    }
    match distribution_mode {
        DistributionMode::Split { winner_percent } => {
            if winner_percent > 100 {
                return Err(ErrorCode::InvalidConfiguration);
            }
        },
        _ => {},
    }
    let lifetime: i64 = (duration_days as i64) * SECONDS_PER_DAY;
    Ok(
        CommitmentPool {
            authority: ctx.authority,
            verifier: ctx.verifier,
            pool_id,
            goal_type,
            stake_amount,
            duration_days,
            max_participants,
            min_participants,
            participant_count: 0,
            total_staked: 0,
            charity_address,
            distribution_mode,
            pool_status: PoolStatus::Pending,
            start_timestamp: ctx.now,
            end_timestamp: ctx.now + lifetime,
            charity_paid: false,
        },
    )
}

} // verus!
