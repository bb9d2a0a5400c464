//! Escrow-backed commitment pools: the pool and participant state machine
//! and the settlement protocol that pays an ended pool out.
//!
//! Participants lock a fixed stake against a time-boxed goal. A verifier
//! attests each participant's days; one missed day ends the challenge for
//! that participant. Once the pool has expired and is closed, the stakes
//! are shared out among the winners and a charity target by the pool's
//! distribution mode.
//!
//! The operations below work on records handed in by the caller, who
//! stores them and moves the funds. Each operation either applies its
//! whole effect or reports an error and changes nothing.

use vstd::prelude::*;

pub mod errors;
pub mod identity;
pub mod instructions;
pub mod payout;
pub mod settlement;
pub mod state;
pub mod theorems;
pub mod vault;

use crate::errors::ErrorCode;
use crate::identity::Identity;
use crate::instructions::close_pool::ClosePool;
use crate::instructions::create_pool::{created_pool, CreatePool};
use crate::instructions::distribute::DistributeRewards;
use crate::instructions::forfeit::ForfeitPool;
use crate::instructions::join_pool::JoinPool;
use crate::instructions::verify::VerifyParticipant;
use crate::state::{
    valid_configuration, CommitmentPool, DistributionMode, GoalType, PoolStatus, SECONDS_PER_DAY,
};
use crate::vault::Payout;

verus! {

/// Creates a new commitment pool in status `Pending`. Fails with
/// `InvalidConfiguration` exactly when the configuration is not valid.
pub fn create_pool(
    ctx: &CreatePool,
    pool_id: u64,
    goal_type: GoalType,
    stake_amount: u64,
    duration_days: u8,
    max_participants: u16,
    min_participants: u16,
    charity_address: Identity,
    distribution_mode: DistributionMode,
) -> (created: Result<CommitmentPool, ErrorCode>)
    requires
        valid_configuration(
            stake_amount,
            duration_days,
            max_participants,
            min_participants,
            distribution_mode,
        ) ==> ctx.now + duration_days * SECONDS_PER_DAY <= i64::MAX,
    ensures
        created == if valid_configuration(
            stake_amount,
            duration_days,
            max_participants,
            min_participants,
            distribution_mode,
        ) {
            Ok::<CommitmentPool, ErrorCode>(
                created_pool(
                    *ctx,
                    pool_id,
                    goal_type,
                    stake_amount,
                    duration_days,
                    max_participants,
                    min_participants,
                    charity_address,
                    distribution_mode,
                ),
            )
        } else {
            Err::<CommitmentPool, ErrorCode>(ErrorCode::InvalidConfiguration)
        },
        created matches Ok(pool) ==> pool.wf(),
{
    instructions::create_pool::handler(
        ctx,
        pool_id,
        goal_type,
        stake_amount,
        duration_days,
        max_participants,
        min_participants,
        charity_address,
        distribution_mode,
    )
}

/// Admits a wallet to a pool and escrows its stake.
pub fn join_pool(ctx: &mut JoinPool) -> (res: Result<(), ErrorCode>)
    requires
        old(ctx).wf(),
        old(ctx).outcome() is Ok ==> old(ctx).pool.total_staked + old(ctx).pool.stake_amount
            <= u64::MAX,
    ensures
        res == old(ctx).outcome(),
        res is Ok ==> *final(ctx) == old(ctx).joined(),
        res is Err ==> *final(ctx) == *old(ctx),
        final(ctx).wf(),
{
    instructions::join_pool::handler(ctx)
}

/// Records the verifier's outcome for one day of one participant.
pub fn verify_participant(ctx: &mut VerifyParticipant, day: u8, passed: bool) -> (res: Result<
    (),
    ErrorCode,
>)
    ensures
        res == old(ctx).outcome(day),
        res is Ok ==> *final(ctx) == (VerifyParticipant {
            participant: old(ctx).recorded(day, passed),
            ..*old(ctx)
        }),
        res is Err ==> *final(ctx) == *old(ctx),
        final(ctx).participant.days_verified >= old(ctx).participant.days_verified,
        old(ctx).participant.status.may_become(final(ctx).participant.status),
        old(ctx).wf() ==> final(ctx).wf(),
{
    instructions::verify::handler(ctx, day, passed)
}

/// Lets a participant give up a running challenge.
pub fn forfeit(ctx: &mut ForfeitPool) -> (res: Result<(), ErrorCode>)
    ensures
        res == old(ctx).outcome(),
        res is Ok ==> *final(ctx) == old(ctx).forfeited(),
        res is Err ==> *final(ctx) == *old(ctx),
        old(ctx).participant.status.may_become(final(ctx).participant.status),
        old(ctx).wf() ==> final(ctx).wf(),
{
    instructions::forfeit::handler(ctx)
}

/// Closes a pool whose end time has been reached.
pub fn close_pool(ctx: &mut ClosePool) -> (res: Result<(), ErrorCode>)
    ensures
        res == old(ctx).outcome(),
        res is Ok ==> *final(ctx) == old(ctx).closed(),
        res is Err ==> *final(ctx) == *old(ctx),
        old(ctx).pool.pool_status.rank() <= final(ctx).pool.pool_status.rank(),
        old(ctx).pool.wf() ==> final(ctx).pool.wf(),
{
    instructions::close_pool::handler(ctx)
}

/// Pays out an ended pool and marks it `Settled`; returns the payouts made
/// by this call.
pub fn distribute_rewards(ctx: &mut DistributeRewards) -> (res: Result<Vec<Payout>, ErrorCode>)
    requires
        old(ctx)@.wf(),
    ensures
        final(ctx)@.wf(),
        match old(ctx)@.outcome() {
            Ok(()) => res matches Ok(payouts) && payouts@ == old(ctx)@.pending() && final(ctx)@
                == old(ctx)@.settled(),
            Err(e) => res == Err::<Vec<Payout>, ErrorCode>(e) && *final(ctx) == *old(ctx),
        },
        old(ctx).pool.pool_status == PoolStatus::Settled ==> *final(ctx) == *old(ctx),
{
    instructions::distribute::handler(ctx)
}

} // verus!
