//! The payout table of an ended pool: who counts as a winner, what each
//! winner receives and what goes to charity.

use vstd::prelude::*;
use crate::errors::ErrorCode;
use crate::state::{CommitmentPool, DistributionMode, Participant, ParticipantStatus};

verus! {

/// How many of `participants` are winners: those whose status is
/// `Success`. Everyone else, a participant still `Active` included, is a
/// loser.
pub open spec fn winner_count(participants: Seq<Participant>) -> nat
    decreases participants.len(),
{
    if participants.len() == 0 {
        0
    } else {
        winner_count(participants.drop_last()) + if participants.last().is_winner() {
            1nat
        } else {
            0nat
        }
    }
}

/// How many of `participants` carry the paid marker.
pub open spec fn paid_count(participants: Seq<Participant>) -> nat
    decreases participants.len(),
{
    if participants.len() == 0 {
        0
    } else {
        paid_count(participants.drop_last()) + if participants.last().paid {
            1nat
        } else {
            0nat
        }
    }
}

/// Whether the pool can be paid out with `winners` winners: only a
/// competitive pool without a winner cannot.
pub open spec fn payable(pool: CommitmentPool, winners: nat) -> bool {
    !(pool.distribution_mode == DistributionMode::Competitive && winners == 0)
}

/// What each of `winners` winners receives.
///
/// * Competitive: the own stake plus an equal, rounded-down part of the
///   losers' stakes.
/// * Charity: the own stake.
/// * Split: an equal, rounded-down part of `winner_percent` percent
///   (rounded down) of everything staked.
pub open spec fn winner_share(pool: CommitmentPool, winners: nat) -> int {
    if winners == 0 {
        0
    } else {
        match pool.distribution_mode {
            DistributionMode::Competitive => pool.stake_amount + ((pool.participant_count
                - winners) * pool.stake_amount) / (winners as int),
            DistributionMode::Charity => pool.stake_amount as int,
            DistributionMode::Split { winner_percent } => (pool.total_staked * winner_percent
                / 100) / (winners as int),
        }
    }
}

/// What the charity target receives: everything staked that is not paid
/// to a winner, rounding remainders included.
pub open spec fn charity_share(pool: CommitmentPool, winners: nat) -> int {
    pool.total_staked - winners * winner_share(pool, winners)
}

/// The payout table of a pool.
#[derive(Clone, Copy, Debug, PartialEq, Eq)]
pub struct PayoutPlan {
    /// How many winners share the pool.
    pub winners: u16,
    /// What each winner receives.
    pub winner_share: u64,
    /// What the charity target receives.
    pub charity_share: u64,
}

/// The winners' shares never exceed what was staked, so the shares of all
/// recipients add up to exactly the staked total.
pub proof fn lemma_shares_within_total(pool: CommitmentPool, winners: nat)
    requires
        pool.wf(),
        winners <= pool.participant_count,
    ensures
        0 <= winner_share(pool, winners) <= pool.total_staked,
        0 <= winners * winner_share(pool, winners) <= pool.total_staked,
        0 <= charity_share(pool, winners) <= pool.total_staked,
        winners * winner_share(pool, winners) + charity_share(pool, winners)
            == pool.total_staked,
{
    let w = winners as int;
    let s = pool.stake_amount as int;
    let n = pool.participant_count as int;
    let t = pool.total_staked as int;
    let share = winner_share(pool, winners);
    if winners == 0 {
        assert(w * share == 0) by (nonlinear_arith)
            requires
                w == 0,
        ;
    } else {
        match pool.distribution_mode {
            DistributionMode::Competitive => {
                let losers = (n - w) * s;
                assert(share == s + losers / w);
                assert(0 <= losers && losers + w * s == n * s) by (nonlinear_arith)
                    requires
                        0 < w <= n,
                        0 <= s,
                        losers == (n - w) * s,
                ;
                lemma_even_split(losers, w);
                assert(w * share == w * s + w * (losers / w)) by (nonlinear_arith)
                    requires
                        share == s + losers / w,
                ;
                assert(s <= w * s) by (nonlinear_arith)
                    requires
                        1 <= w,
                        0 <= s,
                ;
            },
            DistributionMode::Charity => {
                assert(0 <= w * s <= n * s && s <= w * s) by (nonlinear_arith)
                    requires
                        1 <= w <= n,
                        0 <= s,
                ;
            },
            DistributionMode::Split { winner_percent } => {
                let part = t * winner_percent / 100;
                assert(0 <= part <= t) by (nonlinear_arith)
                    requires
                        0 <= t,
                        0 <= winner_percent <= 100,
                        part == t * winner_percent / 100,
                ;
                lemma_even_split(part, w);
            },
        }
    }
}

/// Dividing `amount` evenly among `parts` never hands out more than
/// `amount`.
pub proof fn lemma_even_split(amount: int, parts: int)
    by (nonlinear_arith)
    requires
        0 <= amount,
        0 < parts,
    ensures
        0 <= amount / parts <= amount,
        0 <= parts * (amount / parts) <= amount,
        amount - parts * (amount / parts) == amount % parts,
{
}

/// Counts the winners among `participants`.
pub fn count_winners(participants: &Vec<Participant>) -> (winners: usize)
    ensures
        winners == winner_count(participants@),
        winners <= participants.len(),
{
    let mut winners: usize = 0;
    let mut i: usize = 0;
    while i < participants.len()
        invariant
            i <= participants.len(),
            winners == winner_count(participants@.take(i as int)),
            winners <= i,
        decreases participants.len() - i,
    {
        proof {
            assert(participants@.take(i + 1).drop_last() =~= participants@.take(i as int));
        }
        if participants[i].status == ParticipantStatus::Success {
            winners = winners + 1;
        }
        i = i + 1;
    }
    proof {
        assert(participants@.take(i as int) =~= participants@);
    }
    winners
}

/// Computes the payout table of `pool` for `winners` winners. Fails with
/// `NoWinners` exactly when the pool is competitive and nobody won;
/// otherwise the table holds each winner's share and the charity's share.
pub fn compute_plan(pool: &CommitmentPool, winners: u16) -> (plan: Result<PayoutPlan, ErrorCode>)
    requires
        pool.wf(),
        winners <= pool.participant_count,
    ensures
        plan == if payable(*pool, winners as nat) {
            Ok::<PayoutPlan, ErrorCode>(
                PayoutPlan {
                    winners,
                    winner_share: winner_share(*pool, winners as nat) as u64,
                    charity_share: charity_share(*pool, winners as nat) as u64,
                },
            )
        } else {
            Err::<PayoutPlan, ErrorCode>(ErrorCode::NoWinners)
        },
{
    proof {
        lemma_shares_within_total(*pool, winners as nat);
    }
    let share: u64 = if winners == 0 {
        match pool.distribution_mode {
            DistributionMode::Competitive => {
                return Err(ErrorCode::NoWinners);
            },
            _ => 0,
        }
    } else {
        match pool.distribution_mode {
            DistributionMode::Competitive => {
                let losers: u64 = (pool.participant_count - winners) as u64;
                assert(losers * pool.stake_amount <= pool.total_staked) by (nonlinear_arith)
                    requires
                        0 <= losers <= pool.participant_count,
                        pool.total_staked == pool.participant_count * pool.stake_amount,
                ;
                let forfeited: u64 = losers * pool.stake_amount;
                pool.stake_amount + forfeited / (winners as u64)
            },
            DistributionMode::Charity => pool.stake_amount,
            DistributionMode::Split { winner_percent } => {
                assert(pool.total_staked * winner_percent <= u64::MAX * 100) by (nonlinear_arith)
                    requires
                        0 <= pool.total_staked <= u64::MAX,
                        0 <= winner_percent <= 100,
                ;
                let scaled: u128 = (pool.total_staked as u128) * (winner_percent as u128);
                let part: u128 = scaled / 100;
                assert(part <= pool.total_staked) by (nonlinear_arith)
                    requires
                        part == pool.total_staked * winner_percent / 100,
                        0 <= pool.total_staked,
                        0 <= winner_percent <= 100,
                ;
                (part / (winners as u128)) as u64
            },
        }
    };
    assert(share == winner_share(*pool, winners as nat));
    let paid_to_winners: u64 = (winners as u64) * share;
    Ok(
        PayoutPlan {
            winners,
            winner_share: share,
            charity_share: pool.total_staked - paid_to_winners,
        },
    )
}

/// There are at most as many winners as participants, and, where only
/// winners are marked paid, at most as many paid as winners.
pub proof fn lemma_counts_bounded(participants: Seq<Participant>)
    ensures
        winner_count(participants) <= participants.len(),
        paid_count(participants) <= participants.len(),
        (forall|i: int|
            0 <= i < participants.len() && participants[i].paid ==> participants[i].is_winner())
            ==> paid_count(participants) <= winner_count(participants),
    decreases participants.len(),
{
    if participants.len() > 0 {
        lemma_counts_bounded(participants.drop_last());
    }
}

/// Where exactly the winners are marked paid, the two counts agree.
pub proof fn lemma_all_paid(participants: Seq<Participant>)
    requires
        forall|i: int|
            0 <= i < participants.len() ==> participants[i].paid == participants[i].is_winner(),
    ensures
        paid_count(participants) == winner_count(participants),
    decreases participants.len(),
{
    if participants.len() > 0 {
        lemma_all_paid(participants.drop_last());
    }
}

/// Marking the unpaid winner at `index` as paid raises the number of paid
/// participants by one and leaves the number of winners as it is; before
/// the marking fewer participants are paid than have won.
pub proof fn lemma_mark_paid(participants: Seq<Participant>, index: int)
    requires
        0 <= index < participants.len(),
        participants[index].is_winner(),
        !participants[index].paid,
        forall|i: int|
            0 <= i < participants.len() && participants[i].paid ==> participants[i].is_winner(),
    ensures
        winner_count(participants.update(index, Participant { paid: true, ..participants[index] }))
            == winner_count(participants),
        paid_count(participants.update(index, Participant { paid: true, ..participants[index] }))
            == paid_count(participants) + 1,
        paid_count(participants) < winner_count(participants),
    decreases participants.len(),
{
    let marked = Participant { paid: true, ..participants[index] };
    let after = participants.update(index, marked);
    let front = participants.drop_last();
    if index == participants.len() - 1 {
        assert(after.drop_last() =~= front);
        lemma_counts_bounded(front);
    } else {
        lemma_mark_paid(front, index);
        assert(after.drop_last() =~= front.update(index, marked));
    }
}

/// Counts the participants that carry the paid marker.
pub fn count_paid(participants: &Vec<Participant>) -> (paid: usize)
    ensures
        paid == paid_count(participants@),
        paid <= participants.len(),
{
    let mut paid: usize = 0;
    let mut i: usize = 0;
    while i < participants.len()
        invariant
            i <= participants.len(),
            paid == paid_count(participants@.take(i as int)),
            paid <= i,
        decreases participants.len() - i,
    {
        proof {
            assert(participants@.take(i + 1).drop_last() =~= participants@.take(i as int));
        }
        if participants[i].paid {
            paid = paid + 1;
        }
        i = i + 1;
    }
    proof {
        assert(participants@.take(i as int) =~= participants@);
    }
    paid
}

} // verus!
