use commitment_pool::errors::ErrorCode;
use commitment_pool::identity::Identity;
use commitment_pool::instructions::distribute::{step, DistributeRewards};
use commitment_pool::payout::{compute_plan, count_paid, count_winners, PayoutPlan};
use commitment_pool::state::{
    CommitmentPool, DistributionMode, GoalType, Participant, ParticipantStatus, PoolStatus,
};
use commitment_pool::vault::{EscrowVault, Payout, Recipient};
use commitment_pool::distribute_rewards;

const START: i64 = 1_700_000_000;

fn id(tag: u8) -> Identity {
    Identity::new([tag; 32])
}

fn ended_pool(stake: u64, count: u16, mode: DistributionMode) -> CommitmentPool {
    CommitmentPool {
        authority: id(1),
        verifier: id(2),
        pool_id: 11,
        goal_type: GoalType::LifestyleHabit { habit_name: String::from("Run 5k") },
        stake_amount: stake,
        duration_days: 10,
        max_participants: 100,
        min_participants: 1,
        participant_count: count,
        total_staked: stake * count as u64,
        charity_address: id(3),
        distribution_mode: mode,
        pool_status: PoolStatus::Ended,
        start_timestamp: START,
        end_timestamp: START + 10 * 86400,
        charity_paid: false,
    }
}

fn entrant(tag: u8, stake: u64, status: ParticipantStatus) -> Participant {
    Participant {
        pool: 11,
        wallet: id(tag),
        stake_amount: stake,
        join_timestamp: START + 1,
        status,
        days_verified: if status == ParticipantStatus::Success { 10 } else { 3 },
        paid: false,
    }
}

/// An ended pool whose participants have the given outcomes, with wallets
/// tagged 10, 11, 12, ... in order.
fn settlement(
    stake: u64,
    mode: DistributionMode,
    outcomes: &[ParticipantStatus],
) -> DistributeRewards {
    let pool = ended_pool(stake, outcomes.len() as u16, mode);
    let participants: Vec<Participant> = outcomes
        .iter()
        .enumerate()
        .map(|(i, status)| entrant(10 + i as u8, stake, *status))
        .collect();
    let ctx = DistributeRewards {
        pool_vault: EscrowVault { pool: 11, balance: pool.total_staked },
        pool,
        participants,
        authority: id(2),
    };
    assert!(ctx.is_well_formed());
    ctx
}

fn to_winner(tag: u8, amount: u64) -> Payout {
    Payout { pool: 11, recipient: Recipient::Winner { wallet: id(tag) }, amount }
}

fn to_charity(amount: u64) -> Payout {
    Payout { pool: 11, recipient: Recipient::Charity { address: id(3) }, amount }
}

fn total(payouts: &[Payout]) -> u64 {
    payouts.iter().map(|p| p.amount).sum()
}

use ParticipantStatus::{Active, Failed, Forfeit, Success};

#[test]
fn competitive_remainder_goes_to_charity() {
    let outcomes = [Success, Failed, Success, Forfeit, Active];
    let mut ctx = settlement(101, DistributionMode::Competitive, &outcomes);
    // 3 losers x 101 = 303, two winners get 101 + 151 each, 1 is left over.
    let payouts = distribute_rewards(&mut ctx).unwrap();
    assert_eq!(payouts, vec![to_winner(10, 252), to_winner(12, 252), to_charity(1)]);
    assert_eq!(total(&payouts), 505);
    assert_eq!(ctx.pool_vault.balance, 0);
    assert_eq!(ctx.pool.pool_status, PoolStatus::Settled);
    assert!(ctx.is_well_formed());
}

#[test]
fn competitive_with_every_participant_winning() {
    let mut ctx = settlement(40, DistributionMode::Competitive, &[Success, Success]);
    let payouts = distribute_rewards(&mut ctx).unwrap();
    assert_eq!(payouts, vec![to_winner(10, 40), to_winner(11, 40), to_charity(0)]);
}

#[test]
fn charity_mode_never_fails_for_want_of_winners() {
    let mut ctx = settlement(40, DistributionMode::Charity, &[Failed, Forfeit, Active]);
    let payouts = distribute_rewards(&mut ctx).unwrap();
    assert_eq!(payouts, vec![to_charity(120)]);
    assert_eq!(ctx.pool.pool_status, PoolStatus::Settled);
    assert_eq!(ctx.pool_vault.balance, 0);
    assert!(ctx.participants.iter().all(|p| !p.paid));
}

#[test]
fn charity_mode_returns_stakes_and_gives_the_rest() {
    let mut ctx = settlement(40, DistributionMode::Charity, &[Success, Forfeit, Success, Active]);
    let payouts = distribute_rewards(&mut ctx).unwrap();
    assert_eq!(payouts, vec![to_winner(10, 40), to_winner(12, 40), to_charity(80)]);
}

#[test]
fn split_without_winners_gives_all_to_charity() {
    let mut ctx =
        settlement(100, DistributionMode::Split { winner_percent: 60 }, &[Failed, Failed]);
    let payouts = distribute_rewards(&mut ctx).unwrap();
    assert_eq!(payouts, vec![to_charity(200)]);
    assert_eq!(ctx.pool.pool_status, PoolStatus::Settled);
}

#[test]
fn split_truncates_twice_and_charity_takes_the_rest() {
    // 3 x 33 = 99 staked; 50 percent is 49 (truncated); two winners get 24
    // each; charity gets 99 - 48 = 51.
    let mut ctx = settlement(
        33,
        DistributionMode::Split { winner_percent: 50 },
        &[Success, Success, Failed],
    );
    let payouts = distribute_rewards(&mut ctx).unwrap();
    assert_eq!(payouts, vec![to_winner(10, 24), to_winner(11, 24), to_charity(51)]);
    assert_eq!(total(&payouts), 99);
}

#[test]
fn split_ignores_how_many_lost() {
    let mode = DistributionMode::Split { winner_percent: 60 };
    let mut ctx = settlement(100, mode, &[Success, Success]);
    let payouts = distribute_rewards(&mut ctx).unwrap();
    assert_eq!(payouts, vec![to_winner(10, 60), to_winner(11, 60), to_charity(80)]);
}

#[test]
fn split_at_the_ends_of_the_range() {
    let mut none =
        settlement(100, DistributionMode::Split { winner_percent: 0 }, &[Success, Failed]);
    assert_eq!(distribute_rewards(&mut none).unwrap(), vec![to_winner(10, 0), to_charity(200)]);
    let mut all =
        settlement(100, DistributionMode::Split { winner_percent: 100 }, &[Success, Failed]);
    assert_eq!(distribute_rewards(&mut all).unwrap(), vec![to_winner(10, 200), to_charity(0)]);
}

#[test]
fn largest_stakes_do_not_overflow() {
    let stake = u64::MAX / 100;
    let mut outcomes = vec![Failed; 100];
    outcomes[99] = Success;
    let mut ctx = settlement(stake, DistributionMode::Competitive, &outcomes);
    let payouts = distribute_rewards(&mut ctx).unwrap();
    assert_eq!(payouts, vec![to_winner(109, stake * 100), to_charity(0)]);
    let mut ctx = settlement(stake, DistributionMode::Split { winner_percent: 99 }, &outcomes);
    let payouts = distribute_rewards(&mut ctx).unwrap();
    let part = (stake as u128 * 100 * 99 / 100) as u64;
    assert_eq!(payouts, vec![to_winner(109, part), to_charity(stake * 100 - part)]);
}

#[test]
fn empty_pool_settles_unless_competitive() {
    let mut ctx = settlement(100, DistributionMode::Charity, &[]);
    assert_eq!(distribute_rewards(&mut ctx).unwrap(), vec![to_charity(0)]);
    assert_eq!(ctx.pool.pool_status, PoolStatus::Settled);
    let mut ctx = settlement(100, DistributionMode::Competitive, &[]);
    assert_eq!(distribute_rewards(&mut ctx), Err(ErrorCode::NoWinners));
    assert_eq!(ctx.pool.pool_status, PoolStatus::Ended);
}

#[test]
fn no_winners_leaves_the_funds_in_escrow() {
    let mut ctx = settlement(100, DistributionMode::Competitive, &[Failed, Forfeit, Active]);
    let before = ctx.clone();
    assert_eq!(distribute_rewards(&mut ctx), Err(ErrorCode::NoWinners));
    assert_eq!(ctx, before);
    assert_eq!(ctx.pool_vault.balance, 300);
    assert_eq!(step(&mut ctx), Err(ErrorCode::NoWinners));
    assert_eq!(ctx, before);
}

#[test]
fn only_verifier_and_authority_settle() {
    for caller in [id(3), id(10), id(99)] {
        let mut ctx = settlement(100, DistributionMode::Charity, &[Success, Failed]);
        ctx.authority = caller;
        let before = ctx.clone();
        assert_eq!(distribute_rewards(&mut ctx), Err(ErrorCode::Unauthorized));
        assert_eq!(step(&mut ctx), Err(ErrorCode::Unauthorized));
        assert_eq!(ctx, before);
    }
    for caller in [id(1), id(2)] {
        let mut ctx = settlement(100, DistributionMode::Charity, &[Success, Failed]);
        ctx.authority = caller;
        assert!(distribute_rewards(&mut ctx).is_ok());
        assert_eq!(ctx.pool.pool_status, PoolStatus::Settled);
    }
}

#[test]
fn stranger_is_unauthorized_even_on_a_settled_pool() {
    let mut ctx = settlement(100, DistributionMode::Charity, &[Success, Failed]);
    assert!(distribute_rewards(&mut ctx).is_ok());
    ctx.authority = id(50);
    assert_eq!(distribute_rewards(&mut ctx), Err(ErrorCode::Unauthorized));
}

#[test]
fn settlement_needs_an_ended_pool() {
    for status in [PoolStatus::Pending, PoolStatus::Active] {
        let outcomes: &[ParticipantStatus] =
            if status == PoolStatus::Pending { &[] } else { &[Success, Failed] };
        let mut ctx = settlement(100, DistributionMode::Charity, outcomes);
        ctx.pool.pool_status = status;
        let before = ctx.clone();
        assert_eq!(distribute_rewards(&mut ctx), Err(ErrorCode::PoolNotEnded));
        assert_eq!(step(&mut ctx), Err(ErrorCode::PoolNotEnded));
        assert_eq!(ctx, before);
    }
}

#[test]
fn settle_twice_is_the_same_as_once() {
    let mut ctx = settlement(100, DistributionMode::Competitive, &[Success, Failed, Success]);
    let first = distribute_rewards(&mut ctx).unwrap();
    assert_eq!(first.len(), 3);
    let once = ctx.clone();
    assert_eq!(distribute_rewards(&mut ctx), Ok(vec![]));
    assert_eq!(ctx, once);
    assert_eq!(step(&mut ctx), Ok(None));
    assert_eq!(ctx, once);
}

#[test]
fn resumed_settlement_skips_whoever_is_paid() {
    let mut ctx =
        settlement(100, DistributionMode::Competitive, &[Success, Failed, Success, Success]);
    // An earlier run paid the second winner (133 of the 400) and stopped.
    ctx.participants[2].paid = true;
    ctx.pool_vault.balance = 400 - 133;
    assert!(ctx.is_well_formed());
    let payouts = distribute_rewards(&mut ctx).unwrap();
    assert_eq!(payouts, vec![to_winner(10, 133), to_winner(13, 133), to_charity(1)]);
    assert_eq!(ctx.pool_vault.balance, 0);
    assert!(ctx.participants[0].paid && ctx.participants[2].paid && ctx.participants[3].paid);
    assert!(!ctx.participants[1].paid);
}

#[test]
fn resumed_settlement_skips_a_paid_charity() {
    let mut ctx = settlement(100, DistributionMode::Charity, &[Success, Failed]);
    ctx.pool.charity_paid = true;
    ctx.pool_vault.balance = 100;
    assert!(ctx.is_well_formed());
    assert_eq!(distribute_rewards(&mut ctx).unwrap(), vec![to_winner(10, 100)]);
    assert_eq!(ctx.pool.pool_status, PoolStatus::Settled);
    assert_eq!(ctx.pool_vault.balance, 0);
}

#[test]
fn steps_make_the_same_payouts_one_at_a_time() {
    let outcomes = [Failed, Success, Active, Success, Forfeit, Success];
    let mut whole = settlement(70, DistributionMode::Competitive, &outcomes);
    let expected = distribute_rewards(&mut whole).unwrap();
    assert_eq!(
        expected,
        vec![to_winner(11, 140), to_winner(13, 140), to_winner(15, 140), to_charity(0)]
    );
    let mut ctx = settlement(70, DistributionMode::Competitive, &outcomes);
    let mut made = Vec::new();
    let mut balance = 420;
    while let Some(payout) = step(&mut ctx).unwrap() {
        balance -= payout.amount;
        assert_eq!(ctx.pool_vault.balance, balance);
        assert!(ctx.is_well_formed());
        made.push(payout);
        let done = made.len() == expected.len();
        assert_eq!(ctx.pool.pool_status == PoolStatus::Settled, done);
    }
    assert_eq!(made, expected);
    assert_eq!(ctx, whole);
}

#[test]
fn step_marks_exactly_one_recipient() {
    let mut ctx = settlement(10, DistributionMode::Charity, &[Success, Success, Failed]);
    assert_eq!(step(&mut ctx), Ok(Some(to_winner(10, 10))));
    assert_eq!(
        ctx.participants.iter().map(|p| p.paid).collect::<Vec<bool>>(),
        vec![true, false, false]
    );
    assert!(!ctx.pool.charity_paid);
    assert_eq!(ctx.pool.pool_status, PoolStatus::Ended);
    assert_eq!(step(&mut ctx), Ok(Some(to_winner(11, 10))));
    assert_eq!(ctx.pool.pool_status, PoolStatus::Ended);
    assert_eq!(step(&mut ctx), Ok(Some(to_charity(10))));
    assert!(ctx.pool.charity_paid);
    assert_eq!(ctx.pool.pool_status, PoolStatus::Settled);
    assert_eq!(ctx.pool_vault.balance, 0);
    assert_eq!(step(&mut ctx), Ok(None));
}

#[test]
fn step_settles_when_the_last_winner_is_paid_after_the_charity() {
    let mut ctx = settlement(10, DistributionMode::Charity, &[Success, Failed]);
    ctx.pool.charity_paid = true;
    ctx.pool_vault.balance = 10;
    assert_eq!(step(&mut ctx), Ok(Some(to_winner(10, 10))));
    assert_eq!(ctx.pool.pool_status, PoolStatus::Settled);
}

#[test]
fn step_settles_an_ended_pool_with_nothing_left_to_pay() {
    let mut ctx = settlement(10, DistributionMode::Charity, &[Success, Failed]);
    ctx.participants[0].paid = true;
    ctx.pool.charity_paid = true;
    ctx.pool_vault.balance = 0;
    assert!(ctx.is_well_formed());
    assert_eq!(step(&mut ctx), Ok(None));
    assert_eq!(ctx.pool.pool_status, PoolStatus::Settled);
    ctx.pool.pool_status = PoolStatus::Ended;
    assert_eq!(distribute_rewards(&mut ctx), Ok(vec![]));
    assert_eq!(ctx.pool.pool_status, PoolStatus::Settled);
}

#[test]
fn winners_and_paid_markers_are_counted() {
    let outcomes = [Success, Active, Failed, Success, Forfeit];
    let ctx = settlement(10, DistributionMode::Charity, &outcomes);
    assert_eq!(count_winners(&ctx.participants), 2);
    assert_eq!(count_paid(&ctx.participants), 0);
    let mut paid = ctx.participants.clone();
    paid[3].paid = true;
    assert_eq!(count_paid(&paid), 1);
    assert_eq!(count_winners(&Vec::new()), 0);
}

#[test]
fn payout_table_for_each_mode() {
    let pool = ended_pool(100, 4, DistributionMode::Competitive);
    assert_eq!(
        compute_plan(&pool, 3),
        Ok(PayoutPlan { winners: 3, winner_share: 133, charity_share: 1 })
    );
    assert_eq!(compute_plan(&pool, 0), Err(ErrorCode::NoWinners));
    let pool = ended_pool(100, 4, DistributionMode::Charity);
    assert_eq!(
        compute_plan(&pool, 3),
        Ok(PayoutPlan { winners: 3, winner_share: 100, charity_share: 100 })
    );
    assert_eq!(
        compute_plan(&pool, 0),
        Ok(PayoutPlan { winners: 0, winner_share: 0, charity_share: 400 })
    );
    let pool = ended_pool(100, 4, DistributionMode::Split { winner_percent: 25 });
    assert_eq!(
        compute_plan(&pool, 3),
        Ok(PayoutPlan { winners: 3, winner_share: 33, charity_share: 301 })
    );
    assert_eq!(
        compute_plan(&pool, 0),
        Ok(PayoutPlan { winners: 0, winner_share: 0, charity_share: 400 })
    );
}

#[test]
fn settlement_well_formedness_is_tested() {
    let good = settlement(10, DistributionMode::Charity, &[Success, Failed]);
    let mut bad = good.clone();
    bad.pool_vault.balance = 19;
    assert!(!bad.is_well_formed());
    let mut bad = good.clone();
    bad.pool_vault.pool = 12;
    assert!(!bad.is_well_formed());
    let mut bad = good.clone();
    bad.participants.pop();
    assert!(!bad.is_well_formed());
    let mut bad = good.clone();
    bad.participants[1].wallet = id(10);
    assert!(!bad.is_well_formed());
    let mut bad = good.clone();
    bad.participants[1].paid = true;
    assert!(!bad.is_well_formed());
    let mut bad = good.clone();
    bad.participants[0].paid = true;
    assert!(!bad.is_well_formed());
    bad.pool_vault.balance = 10;
    assert!(bad.is_well_formed());
    let mut bad = good.clone();
    bad.pool.pool_status = PoolStatus::Settled;
    assert!(!bad.is_well_formed());
    let mut bad = settlement(10, DistributionMode::Competitive, &[Failed]);
    bad.pool.charity_paid = true;
    bad.pool_vault.balance = 0;
    assert!(!bad.is_well_formed());
}
