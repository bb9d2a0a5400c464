use commitment_pool::errors::ErrorCode;
use commitment_pool::identity::Identity;
use commitment_pool::instructions::close_pool::ClosePool;
use commitment_pool::instructions::create_pool::CreatePool;
use commitment_pool::instructions::join_pool::JoinPool;
use commitment_pool::state::{
    CommitmentPool, DistributionMode, GoalType, Participant, ParticipantStatus, PoolStatus,
    MAX_DURATION_DAYS, MAX_POOL_SIZE, SECONDS_PER_DAY,
};
use commitment_pool::vault::{EscrowVault, Payout, Recipient};
use commitment_pool::{close_pool, create_pool, join_pool};

const START: i64 = 1_700_000_000;

fn id(tag: u8) -> Identity {
    Identity::new([tag; 32])
}

fn creation() -> CreatePool {
    CreatePool { authority: id(1), verifier: id(2), now: START }
}

fn goal() -> GoalType {
    GoalType::DailyDCA { amount: 5, token_mint: id(40) }
}

fn create(
    stake: u64,
    days: u8,
    max: u16,
    min: u16,
    mode: DistributionMode,
) -> Result<CommitmentPool, ErrorCode> {
    create_pool(&creation(), 9, goal(), stake, days, max, min, id(3), mode)
}

fn pool(max: u16) -> CommitmentPool {
    create(50, 7, max, 1, DistributionMode::Charity).unwrap()
}

fn join_ctx(pool: CommitmentPool, vault: EscrowVault, wallet: Identity) -> JoinPool {
    JoinPool {
        pool,
        participant_account: None,
        participant: wallet,
        pool_vault: vault,
        now: START + 5,
    }
}

#[test]
fn create_pool_fills_every_field() {
    let pool = create(50, 7, 10, 2, DistributionMode::Split { winner_percent: 100 }).unwrap();
    let expected = CommitmentPool {
        authority: id(1),
        verifier: id(2),
        pool_id: 9,
        goal_type: goal(),
        stake_amount: 50,
        duration_days: 7,
        max_participants: 10,
        min_participants: 2,
        participant_count: 0,
        total_staked: 0,
        charity_address: id(3),
        distribution_mode: DistributionMode::Split { winner_percent: 100 },
        pool_status: PoolStatus::Pending,
        start_timestamp: START,
        end_timestamp: START + 7 * 86400,
        charity_paid: false,
    };
    assert_eq!(pool, expected);
    assert!(pool.is_well_formed());
}

#[test]
fn create_pool_accepts_the_limits() {
    assert!(create(1, 1, 1, 1, DistributionMode::Competitive).is_ok());
    assert!(create(u64::MAX, 30, 100, 100, DistributionMode::Split { winner_percent: 0 }).is_ok());
    assert_eq!(MAX_DURATION_DAYS, 30);
    assert_eq!(MAX_POOL_SIZE, 100);
    assert_eq!(SECONDS_PER_DAY, 86400);
}

#[test]
fn create_pool_rejects_zero_stake() {
    assert_eq!(
        create(0, 7, 10, 2, DistributionMode::Charity),
        Err(ErrorCode::InvalidConfiguration)
    );
}

#[test]
fn create_pool_rejects_bad_duration() {
    for days in [0u8, 31, 255] {
        assert_eq!(
            create(50, days, 10, 2, DistributionMode::Charity),
            Err(ErrorCode::InvalidConfiguration)
        );
    }
}

#[test]
fn create_pool_rejects_bad_sizes() {
    for (max, min) in [(0u16, 1u16), (101, 1), (10, 0), (10, 11), (0, 0)] {
        assert_eq!(
            create(50, 7, max, min, DistributionMode::Charity),
            Err(ErrorCode::InvalidConfiguration)
        );
    }
}

#[test]
fn create_pool_rejects_percent_over_hundred() {
    assert_eq!(
        create(50, 7, 10, 2, DistributionMode::Split { winner_percent: 101 }),
        Err(ErrorCode::InvalidConfiguration)
    );
}

#[test]
fn first_join_activates_the_pool() {
    let pool = pool(3);
    let mut ctx = join_ctx(pool.clone(), EscrowVault::new(9), id(10));
    assert!(ctx.is_well_formed());
    assert_eq!(join_pool(&mut ctx), Ok(()));
    assert_eq!(ctx.pool.pool_status, PoolStatus::Active);
    assert_eq!(ctx.pool.participant_count, 1);
    assert_eq!(ctx.pool.total_staked, 50);
    assert_eq!(ctx.pool_vault, EscrowVault { pool: 9, balance: 50 });
    assert_eq!(
        ctx.participant_account,
        Some(Participant {
            pool: 9,
            wallet: id(10),
            stake_amount: 50,
            join_timestamp: START + 5,
            status: ParticipantStatus::Active,
            days_verified: 0,
            paid: false,
        })
    );
    assert_eq!(ctx.pool.start_timestamp, pool.start_timestamp);
    assert_eq!(ctx.pool.end_timestamp, pool.end_timestamp);
    assert!(ctx.is_well_formed());
}

#[test]
fn staked_total_follows_the_count() {
    let mut pool = pool(100);
    let mut vault = EscrowVault::new(9);
    for n in 1..=100u16 {
        let mut ctx = join_ctx(pool, vault, id(n as u8));
        assert_eq!(join_pool(&mut ctx), Ok(()));
        assert_eq!(ctx.pool.participant_count, n);
        assert_eq!(ctx.pool.total_staked, n as u64 * 50);
        assert_eq!(ctx.pool_vault.balance, ctx.pool.total_staked);
        assert!(ctx.pool.is_well_formed());
        pool = ctx.pool;
        vault = ctx.pool_vault;
    }
    let mut ctx = join_ctx(pool, vault, id(200));
    let before = ctx.clone();
    assert_eq!(join_pool(&mut ctx), Err(ErrorCode::PoolFull));
    assert_eq!(ctx, before);
}

#[test]
fn join_twice_fails_already_joined() {
    let mut ctx = join_ctx(pool(3), EscrowVault::new(9), id(10));
    assert_eq!(join_pool(&mut ctx), Ok(()));
    let before = ctx.clone();
    assert_eq!(join_pool(&mut ctx), Err(ErrorCode::AlreadyJoined));
    assert_eq!(ctx, before);
}

#[test]
fn full_pool_reports_full_before_already_joined() {
    let mut ctx = join_ctx(pool(1), EscrowVault::new(9), id(10));
    assert_eq!(join_pool(&mut ctx), Ok(()));
    assert_eq!(join_pool(&mut ctx), Err(ErrorCode::PoolFull));
}

#[test]
fn closed_pool_is_not_joinable() {
    for status in [PoolStatus::Ended, PoolStatus::Settled] {
        let mut closed = pool(1);
        closed.pool_status = status;
        let mut ctx = join_ctx(closed, EscrowVault::new(9), id(10));
        let before = ctx.clone();
        assert_eq!(join_pool(&mut ctx), Err(ErrorCode::PoolNotJoinable));
        assert_eq!(ctx, before);
    }
}

#[test]
fn close_before_expiry_fails() {
    let mut ctx = ClosePool { pool: pool(3), now: START + 7 * 86400 - 1 };
    let before = ctx.clone();
    assert_eq!(close_pool(&mut ctx), Err(ErrorCode::PoolNotYetExpired));
    assert_eq!(ctx, before);
    let mut joined = join_ctx(pool(3), EscrowVault::new(9), id(10));
    assert_eq!(join_pool(&mut joined), Ok(()));
    let mut ctx = ClosePool { pool: joined.pool, now: START };
    assert_eq!(close_pool(&mut ctx), Err(ErrorCode::PoolNotYetExpired));
    assert_eq!(ctx.pool.pool_status, PoolStatus::Active);
}

#[test]
fn close_at_expiry_ends_the_pool() {
    let mut joined = join_ctx(pool(3), EscrowVault::new(9), id(10));
    assert_eq!(join_pool(&mut joined), Ok(()));
    let mut ctx = ClosePool { pool: joined.pool.clone(), now: START + 7 * 86400 };
    assert_eq!(close_pool(&mut ctx), Ok(()));
    let mut expected = joined.pool;
    expected.pool_status = PoolStatus::Ended;
    assert_eq!(ctx.pool, expected);
}

#[test]
fn close_ends_an_expired_pool_nobody_joined() {
    let mut ctx = ClosePool { pool: pool(3), now: START + 8 * 86400 };
    assert_eq!(close_pool(&mut ctx), Ok(()));
    assert_eq!(ctx.pool.pool_status, PoolStatus::Ended);
    assert!(ctx.pool.is_well_formed());
}

#[test]
fn close_twice_is_the_same_as_once() {
    let mut ctx = ClosePool { pool: pool(3), now: START + 7 * 86400 };
    assert_eq!(close_pool(&mut ctx), Ok(()));
    let once = ctx.clone();
    assert_eq!(close_pool(&mut ctx), Ok(()));
    assert_eq!(ctx, once);
    ctx.now = 0;
    assert_eq!(close_pool(&mut ctx), Ok(()));
    assert_eq!(ctx.pool, once.pool);
    ctx.pool.pool_status = PoolStatus::Settled;
    assert_eq!(close_pool(&mut ctx), Ok(()));
    assert_eq!(ctx.pool.pool_status, PoolStatus::Settled);
}

#[test]
fn pool_well_formedness_is_tested() {
    let good = pool(3);
    assert!(good.is_well_formed());
    let mut bad = good.clone();
    bad.total_staked = 1;
    assert!(!bad.is_well_formed());
    let mut bad = good.clone();
    bad.participant_count = 4;
    bad.total_staked = 200;
    bad.pool_status = PoolStatus::Active;
    assert!(!bad.is_well_formed());
    let mut bad = good.clone();
    bad.end_timestamp += 1;
    assert!(!bad.is_well_formed());
    let mut bad = good.clone();
    bad.pool_status = PoolStatus::Active;
    assert!(!bad.is_well_formed());
    let mut bad = good.clone();
    bad.charity_paid = true;
    assert!(!bad.is_well_formed());
    let mut bad = good.clone();
    bad.stake_amount = 0;
    assert!(!bad.is_well_formed());
}

#[test]
fn vault_takes_deposits_and_pays_covered_payouts() {
    let mut vault = EscrowVault::new(4);
    assert_eq!(vault, EscrowVault { pool: 4, balance: 0 });
    assert!(vault.deposit(70));
    assert!(vault.deposit(30));
    assert_eq!(vault.balance, 100);
    assert!(!vault.deposit(u64::MAX));
    assert_eq!(vault.balance, 100);
    let payout = Payout { pool: 4, recipient: Recipient::Winner { wallet: id(1) }, amount: 60 };
    assert!(vault.release(&payout));
    assert_eq!(vault.balance, 40);
    assert!(!vault.release(&payout));
    assert_eq!(vault.balance, 40);
    let other = Payout { pool: 5, recipient: Recipient::Charity { address: id(2) }, amount: 1 };
    assert!(!vault.release(&other));
    assert_eq!(vault.balance, 40);
    let rest = Payout { pool: 4, recipient: Recipient::Charity { address: id(2) }, amount: 40 };
    assert!(vault.release(&rest));
    assert_eq!(vault.balance, 0);
}

#[test]
fn identities_compare_by_their_bytes() {
    let mut bytes = [7u8; 32];
    let a = Identity::new(bytes);
    assert_eq!(a.to_bytes(), bytes);
    assert!(a == Identity::new([7u8; 32]));
    bytes[31] = 8;
    assert!(a != Identity::new(bytes));
    bytes[31] = 7;
    bytes[0] = 0;
    assert!(a != Identity::new(bytes));
}

#[test]
fn every_error_has_its_message() {
    let all = [
        (ErrorCode::InvalidConfiguration, "Invalid pool configuration"),
        (ErrorCode::PoolNotJoinable, "Pool is not open for joining"),
        (ErrorCode::PoolFull, "Pool is full"),
        (ErrorCode::AlreadyJoined, "Wallet has already joined this pool"),
        (ErrorCode::Unauthorized, "Unauthorized action"),
        (ErrorCode::InvalidState, "Operation not allowed in the current state"),
        (ErrorCode::PoolNotActive, "Pool is not active"),
        (ErrorCode::ParticipantNotActive, "Participant is not active"),
        (ErrorCode::InvalidDay, "Invalid day number"),
        (ErrorCode::PoolNotYetExpired, "Pool has not expired yet"),
        (ErrorCode::PoolNotEnded, "Pool has not ended yet"),
        (ErrorCode::NoWinners, "No winners to distribute rewards to"),
    ];
    for (code, text) in all {
        assert_eq!(code.message(), text);
    }
}
