//! What holds of the operations taken together: the accounting of a pool,
//! the direction in which records change, and what repeating an operation
//! does.

use vstd::prelude::*;
use crate::errors::ErrorCode;
use crate::identity::Identity;
use crate::instructions::close_pool::ClosePool;
use crate::instructions::create_pool::{created_pool, CreatePool};
use crate::instructions::forfeit::ForfeitPool;
use crate::instructions::join_pool::JoinPool;
use crate::instructions::verify::VerifyParticipant;
use crate::payout::{paid_count, winner_count};
use crate::settlement::{
    lemma_first_awaiting, lemma_settled_is_final, lemma_settled_is_well_formed,
    lemma_step_takes_first_pending, pending_winner_payouts, settled_record, Settlement,
};
use crate::state::{
    valid_configuration, CommitmentPool, DistributionMode, GoalType, Participant,
    ParticipantStatus, PoolStatus, MAX_POOL_SIZE, SECONDS_PER_DAY,
};
use crate::vault::Payout;

verus! {

/// A pool is created with balanced books: nobody has joined and nothing
/// is staked.
pub proof fn created_pool_is_well_formed(
    ctx: CreatePool,
    pool_id: u64,
    goal_type: GoalType,
    stake_amount: u64,
    duration_days: u8,
    max_participants: u16,
    min_participants: u16,
    charity_address: Identity,
    distribution_mode: DistributionMode,
)
    requires
        valid_configuration(
            stake_amount,
            duration_days,
            max_participants,
            min_participants,
            distribution_mode,
        ),
        ctx.now + duration_days * SECONDS_PER_DAY <= i64::MAX,
    ensures
        created_pool(
            ctx,
            pool_id,
            goal_type,
            stake_amount,
            duration_days,
            max_participants,
            min_participants,
            charity_address,
            distribution_mode,
        ).wf(),
{
}

/// Every accepted join keeps the staked total equal to the number of
/// participants times the stake, keeps that number within the pool's
/// maximum, and leaves the vault holding exactly the staked total.
pub proof fn join_keeps_accounts(ctx: JoinPool)
    requires
        ctx.wf(),
        ctx.outcome() is Ok,
        ctx.pool.total_staked + ctx.pool.stake_amount <= u64::MAX,
    ensures
        ctx.joined().wf(),
        ctx.joined().pool.participant_count == ctx.pool.participant_count + 1,
        ctx.joined().pool.participant_count <= ctx.joined().pool.max_participants,
        ctx.joined().pool.total_staked == ctx.joined().pool.participant_count
            * ctx.joined().pool.stake_amount,
        ctx.joined().pool_vault.balance == ctx.joined().pool.total_staked,
{
    let count = ctx.pool.participant_count as int;
    let stake = ctx.pool.stake_amount as int;
    assert((count + 1) * stake == count * stake + stake) by (nonlinear_arith);
}

/// A well-formed pool has exactly its participants' stakes on its books,
/// and no more participants than it admits.
pub proof fn well_formed_pool_balances(pool: CommitmentPool)
    requires
        pool.wf(),
    ensures
        pool.total_staked == pool.participant_count * pool.stake_amount,
        pool.participant_count <= pool.max_participants <= MAX_POOL_SIZE,
{
}

/// Only a join changes how many participants a pool has and what is
/// staked: closing and settling leave both as they are, and recording an
/// outcome or a forfeit does not touch the pool at all.
pub proof fn accounts_change_only_by_joining(
    close: ClosePool,
    settlement: Settlement,
    verify: VerifyParticipant,
    forfeit: ForfeitPool,
)
    ensures
        close.closed().pool.participant_count == close.pool.participant_count,
        close.closed().pool.total_staked == close.pool.total_staked,
        close.pool.same_configuration(close.closed().pool),
        settlement.settled().pool.participant_count == settlement.pool.participant_count,
        settlement.settled().pool.total_staked == settlement.pool.total_staked,
        settlement.pool.same_configuration(settlement.settled().pool),
        settlement.after_step().pool.participant_count == settlement.pool.participant_count,
        settlement.after_step().pool.total_staked == settlement.pool.total_staked,
        settlement.pool.same_configuration(settlement.after_step().pool),
        forfeit.forfeited().pool == forfeit.pool,
{
}

/// A join on a pool that admits participants but has none of its places
/// left fails with `PoolFull`, whoever asks, and so the number of
/// participants never passes the maximum.
pub proof fn full_pool_rejects_join(ctx: JoinPool)
    requires
        ctx.pool.pool_status.joinable(),
        ctx.pool.participant_count >= ctx.pool.max_participants,
    ensures
        ctx.outcome() == Err::<(), ErrorCode>(ErrorCode::PoolFull),
{
}

/// An accepted outcome never lowers `days_verified` and never changes a
/// final status.
pub proof fn recording_only_moves_forward(ctx: VerifyParticipant, day: u8, passed: bool)
    requires
        ctx.outcome(day) is Ok,
    ensures
        ctx.recorded(day, passed).days_verified >= ctx.participant.days_verified,
        ctx.participant.status.may_become(ctx.recorded(day, passed).status),
        ctx.wf() ==> ctx.recorded(day, passed).wf(ctx.pool),
{
}

/// Reporting a passed day again, or an earlier day after a later one,
/// changes nothing.
pub proof fn passed_days_may_repeat(ctx: VerifyParticipant, day: u8)
    requires
        ctx.outcome(day) is Ok,
        day <= ctx.participant.days_verified,
        ctx.participant.days_verified < ctx.pool.duration_days,
    ensures
        ctx.recorded(day, true) == ctx.participant,
{
}

/// One missed day makes an active participant `Failed`, on any day and
/// whatever was verified before.
pub proof fn missed_day_fails(ctx: VerifyParticipant, day: u8)
    requires
        ctx.outcome(day) is Ok,
    ensures
        ctx.recorded(day, false).status == ParticipantStatus::Failed,
        ctx.recorded(day, false).days_verified == ctx.participant.days_verified,
{
}

/// A participant whose outcome is final is out of reach of the verifier
/// and cannot forfeit.
pub proof fn final_outcomes_are_frozen(verify: VerifyParticipant, day: u8, forfeit: ForfeitPool)
    requires
        verify.participant.status.terminal(),
        forfeit.participant.status.terminal(),
    ensures
        verify.outcome(day) is Err,
        forfeit.outcome() is Err,
{
}

/// No operation changes a final outcome: a forfeit is accepted from an
/// active participant only, and a settlement leaves every outcome as it
/// is.
pub proof fn participant_status_never_regresses(
    forfeit: ForfeitPool,
    settlement: Settlement,
    index: int,
)
    requires
        forfeit.outcome() is Ok,
        0 <= index < settlement.participants.len(),
    ensures
        forfeit.participant.status.may_become(forfeit.forfeited().participant.status),
        forfeit.forfeited().participant.days_verified == forfeit.participant.days_verified,
        settlement.settled().participants[index].status
            == settlement.participants[index].status,
        settlement.after_step().participants[index].status
            == settlement.participants[index].status,
        settlement.after_step().participants[index].days_verified
            == settlement.participants[index].days_verified,
{
    lemma_first_awaiting(settlement.participants);
}

/// No operation moves a pool backwards in its life.
pub proof fn pool_status_never_regresses(join: JoinPool, close: ClosePool, settlement: Settlement)
    requires
        join.outcome() is Ok,
        close.outcome() is Ok,
        settlement.outcome() is Ok,
    ensures
        join.pool.pool_status.rank() <= join.joined().pool.pool_status.rank(),
        close.pool.pool_status.rank() <= close.closed().pool.pool_status.rank(),
        settlement.pool.pool_status.rank() <= settlement.settled().pool.pool_status.rank(),
        settlement.pool.pool_status.rank() <= settlement.after_step().pool.pool_status.rank(),
{
}

/// Closing a pool a second time, at whatever time, succeeds and leaves
/// the pool as the first close left it.
pub proof fn close_is_idempotent(ctx: ClosePool, later: i64)
    requires
        ctx.outcome() is Ok,
    ensures
        (ClosePool { now: later, ..ctx.closed() }).outcome() is Ok,
        (ClosePool { now: later, ..ctx.closed() }).closed().pool == ctx.closed().pool,
{
}

/// Settling a pool a second time succeeds, pays nothing and leaves the
/// records as the first settlement left them.
pub proof fn settle_is_idempotent(s: Settlement)
    requires
        s.wf(),
        s.outcome() is Ok,
    ensures
        s.settled().wf(),
        s.settled().outcome() is Ok,
        s.settled().pending() == Seq::<Payout>::empty(),
        s.settled().settled() == s.settled(),
        s.settled().next_payout() is None,
        s.settled().after_step() == s.settled(),
{
    lemma_settled_is_well_formed(s);
    lemma_settled_is_final(s.settled());
}

/// The records after `count` single steps.
pub open spec fn after_steps(s: Settlement, count: nat) -> Settlement
    decreases count,
{
    if count == 0 {
        s
    } else {
        after_steps(s.after_step(), (count - 1) as nat)
    }
}

/// Paying one recipient at a time ends where a settlement in one go ends:
/// after more steps than payouts are pending, however the steps are
/// spread over calls, the records are those of the settled pool.
pub proof fn steps_reach_the_settled_state(s: Settlement, count: nat)
    requires
        s.wf(),
        s.outcome() is Ok,
        count > s.pending().len(),
    ensures
        after_steps(s, count) == s.settled(),
    decreases count,
{
    let next = s.after_step();
    lemma_step_takes_first_pending(s);
    if s.pending().len() == 0 {
        lemma_settled_is_well_formed(s);
        lemma_steps_keep_a_settled_pool(next, (count - 1) as nat);
    } else {
        steps_reach_the_settled_state(next, (count - 1) as nat);
        lemma_first_awaiting(s.participants);
        assert(next.settled().participants =~= s.settled().participants);
    }
}

/// Steps on a settled pool change nothing.
pub proof fn lemma_steps_keep_a_settled_pool(s: Settlement, count: nat)
    requires
        s.pool.pool_status == PoolStatus::Settled,
    ensures
        after_steps(s, count) == s,
    decreases count,
{
    if count > 0 {
        lemma_steps_keep_a_settled_pool(s, (count - 1) as nat);
    }
}

/// Every winner is owed exactly one payout until marked paid: the pending
/// winner payouts and the paid markers together number the winners.
pub proof fn one_payout_per_unpaid_winner(participants: Seq<Participant>, share: u64)
    requires
        forall|i: int|
            0 <= i < participants.len() && participants[i].paid ==> participants[i].is_winner(),
    ensures
        pending_winner_payouts(participants, share).len() + paid_count(participants)
            == winner_count(participants),
        pending_winner_payouts(
            Seq::new(participants.len(), |i: int| settled_record(participants[i])),
            share,
        ).len() == 0,
    decreases participants.len(),
{
    if participants.len() > 0 {
        let front = participants.drop_last();
        one_payout_per_unpaid_winner(front, share);
        let settled = Seq::new(participants.len(), |i: int| settled_record(participants[i]));
        assert(settled.drop_last() =~= Seq::new(front.len(), |i: int| settled_record(front[i])));
    }
}

/// The sum of the amounts of `payouts`.
pub open spec fn total_amount(payouts: Seq<Payout>) -> int
    decreases payouts.len(),
{
    if payouts.len() == 0 {
        0
    } else {
        total_amount(payouts.drop_last()) + payouts.last().amount
    }
}

/// What is still pending is exactly what the vault holds: the winners'
/// shares and the charity's share add up to the staked total, with no
/// remainder left behind and nothing paid twice.
pub proof fn pending_payouts_empty_the_vault(s: Settlement)
    requires
        s.wf(),
        s.outcome() is Ok,
    ensures
        total_amount(s.pending()) == s.vault.balance,
    decreases s.pending().len(),
{
    lemma_step_takes_first_pending(s);
    if s.pending().len() > 0 {
        pending_payouts_empty_the_vault(s.after_step());
        lemma_total_amount_drop_first(s.pending());
    }
}

/// The sum of a sequence of payouts is its first amount plus the sum of
/// the others.
pub proof fn lemma_total_amount_drop_first(payouts: Seq<Payout>)
    requires
        payouts.len() > 0,
    ensures
        total_amount(payouts) == payouts[0].amount + total_amount(payouts.drop_first()),
    decreases payouts.len(),
{
    if payouts.len() == 1 {
        assert(payouts.drop_last() =~= Seq::<Payout>::empty());
        assert(payouts.drop_first() =~= Seq::<Payout>::empty());
    } else {
        lemma_total_amount_drop_first(payouts.drop_last());
        assert(payouts.drop_last().drop_first() =~= payouts.drop_first().drop_last());
    }
}

} // verus!
