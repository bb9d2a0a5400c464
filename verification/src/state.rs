//! The records of a pool and of its participants, with the conditions
//! every stored record meets.

use vstd::prelude::*;
use crate::identity::Identity;

verus! {

/// Seconds in one day of a pool's duration.
pub const SECONDS_PER_DAY: i64 = 86400;

/// The longest duration a pool may be configured with, in days.
pub const MAX_DURATION_DAYS: u8 = 30;

/// The largest number of participants a pool may be configured for.
pub const MAX_POOL_SIZE: u16 = 100;

/// What the participants of a pool commit to. The pool stores the goal and
/// hands it back; judging it is the verifier's business.
#[derive(Clone, Debug, PartialEq, Eq)]
pub enum GoalType {
    /// Swap a fixed amount into a token every day.
    DailyDCA { amount: u64, token_mint: Identity },
    /// Keep a token balance at or above a minimum.
    HodlToken { token_mint: Identity, min_balance: u64 },
    /// Keep up a named habit.
    LifestyleHabit { habit_name: String },
}

/// Where a pool stands in its life. A pool only ever moves forward:
/// `Pending`, `Active`, `Ended`, `Settled`.
#[derive(Clone, Copy, Debug, PartialEq, Eq, Structural)]
pub enum PoolStatus {
    /// Created, nobody has joined yet.
    Pending,
    /// Running: at least one participant has joined.
    Active,
    /// Past its end time and closed; payouts may be outstanding.
    Ended,
    /// Every payout has been made.
    Settled,
}

impl PoolStatus {
    /// The position of the status in the pool's life.
    pub open spec fn rank(self) -> nat {
        match self {
            PoolStatus::Pending => 0,
            PoolStatus::Active => 1,
            PoolStatus::Ended => 2,
            PoolStatus::Settled => 3,
        }
    }

    /// Whether a pool in this status admits new participants.
    pub open spec fn joinable(self) -> bool {
        self == PoolStatus::Pending || self == PoolStatus::Active
    }

    /// Whether a pool in this status has been closed.
    pub open spec fn closed(self) -> bool {
        self == PoolStatus::Ended || self == PoolStatus::Settled
    }
}

/// The outcome of one participant. `Active` is the only status that can
/// still change.
#[derive(Clone, Copy, Debug, PartialEq, Eq, Structural)]
pub enum ParticipantStatus {
    /// Still in the challenge.
    Active,
    /// Every day of the pool was verified.
    Success,
    /// A day was reported as missed.
    Failed,
    /// The participant gave up.
    Forfeit,
}

impl ParticipantStatus {
    /// Whether the outcome is final.
    pub open spec fn terminal(self) -> bool {
        self != ParticipantStatus::Active
    }

    /// Whether `next` may follow `self`: a final outcome stays as it is.
    pub open spec fn may_become(self, next: ParticipantStatus) -> bool {
        self == next || self == ParticipantStatus::Active
    }
}

/// How the stakes of an ended pool are shared out.
#[derive(Clone, Copy, Debug, PartialEq, Eq, Structural)]
pub enum DistributionMode {
    /// The losers' stakes are shared equally among the winners.
    Competitive,
    /// Winners get their own stake back; the losers' stakes go to charity.
    Charity,
    /// `winner_percent` of the whole pool is shared equally among the
    /// winners, the rest goes to charity.
    Split { winner_percent: u8 },
}

/// Whether a configuration is one a pool may be created with.
pub open spec fn valid_configuration(
    stake_amount: u64,
    duration_days: u8,
    max_participants: u16,
    min_participants: u16,
    distribution_mode: DistributionMode,
) -> bool {
    &&& stake_amount > 0
    &&& 1 <= duration_days <= MAX_DURATION_DAYS
    &&& 1 <= max_participants <= MAX_POOL_SIZE
    &&& 1 <= min_participants <= max_participants
    &&& (distribution_mode matches DistributionMode::Split { winner_percent } ==> winner_percent
        <= 100)
}

/// One commitment campaign.
#[derive(Clone, Debug, PartialEq, Eq)]
pub struct CommitmentPool {
    /// Who created the pool.
    pub authority: Identity,
    /// Who attests the participants' daily outcomes.
    pub verifier: Identity,
    /// The pool's unique id.
    pub pool_id: u64,
    /// What the participants commit to.
    pub goal_type: GoalType,
    /// The stake every participant escrows.
    pub stake_amount: u64,
    /// How many days the challenge runs.
    pub duration_days: u8,
    /// The most participants the pool admits.
    pub max_participants: u16,
    /// The fewest participants the pool is meant for.
    pub min_participants: u16,
    /// How many participants have joined.
    pub participant_count: u16,
    /// The sum of the stakes escrowed so far.
    pub total_staked: u64,
    /// Who receives what does not go to winners.
    pub charity_address: Identity,
    /// How the stakes are shared out at settlement.
    pub distribution_mode: DistributionMode,
    /// Where the pool stands in its life.
    pub pool_status: PoolStatus,
    /// When the pool was created, in seconds.
    pub start_timestamp: i64,
    /// When the pool expires, in seconds.
    pub end_timestamp: i64,
    /// Whether the charity's share has been paid out.
    pub charity_paid: bool,
}

impl CommitmentPool {
    /// What holds of every stored pool: a valid configuration, the count
    /// within the maximum, the staked total equal to count times stake, and
    /// a status that fits the count.
    pub open spec fn wf(self) -> bool {
        &&& valid_configuration(
            self.stake_amount,
            self.duration_days,
            self.max_participants,
            self.min_participants,
            self.distribution_mode,
        )
        &&& self.participant_count <= self.max_participants
        &&& self.total_staked == self.participant_count * self.stake_amount
        &&& self.end_timestamp == self.start_timestamp + self.duration_days * SECONDS_PER_DAY
        &&& (self.pool_status == PoolStatus::Pending ==> self.participant_count == 0)
        &&& (self.pool_status == PoolStatus::Active ==> self.participant_count > 0)
        &&& (self.charity_paid ==> self.pool_status.closed())
    }

    /// Whether `later` has the configuration this pool was created with.
    pub open spec fn same_configuration(self, later: CommitmentPool) -> bool {
        &&& later.authority == self.authority
        &&& later.verifier == self.verifier
        &&& later.pool_id == self.pool_id
        &&& later.goal_type == self.goal_type
        &&& later.stake_amount == self.stake_amount
        &&& later.duration_days == self.duration_days
        &&& later.max_participants == self.max_participants
        &&& later.min_participants == self.min_participants
        &&& later.charity_address == self.charity_address
        &&& later.distribution_mode == self.distribution_mode
        &&& later.start_timestamp == self.start_timestamp
        &&& later.end_timestamp == self.end_timestamp
    }
}

/// One staked entrant of a pool.
#[derive(Clone, Copy, Debug, PartialEq, Eq)]
pub struct Participant {
    /// The id of the pool the participant belongs to.
    pub pool: u64,
    /// The participant's wallet.
    pub wallet: Identity,
    /// The stake escrowed at join time.
    pub stake_amount: u64,
    /// When the participant joined, in seconds.
    pub join_timestamp: i64,
    /// The participant's outcome so far.
    pub status: ParticipantStatus,
    /// The latest day verified as passed.
    pub days_verified: u8,
    /// Whether the participant's payout has been made.
    pub paid: bool,
}

impl Participant {
    /// Whether the participant counts as a winner at settlement.
    pub open spec fn is_winner(self) -> bool {
        self.status == ParticipantStatus::Success
    }

    /// What holds of every stored participant of `pool`.
    pub open spec fn wf(self, pool: CommitmentPool) -> bool {
        &&& self.pool == pool.pool_id
        &&& self.stake_amount == pool.stake_amount
        &&& self.days_verified <= pool.duration_days
        &&& (self.status == ParticipantStatus::Success ==> self.days_verified
            == pool.duration_days)
        &&& (self.paid ==> self.is_winner() && pool.pool_status.closed())
    }
}

impl CommitmentPool {
    /// Tests whether the pool meets everything a stored pool must meet.
    pub fn is_well_formed(&self) -> (ok: bool)
        ensures
            ok == self.wf(),
    {
        if self.stake_amount == 0 {
            return false;
        }
        if self.duration_days == 0 || self.duration_days > MAX_DURATION_DAYS {
            return false;
        }
        if self.max_participants == 0 || self.max_participants > MAX_POOL_SIZE {
            return false;
        }
        if self.min_participants == 0 || self.min_participants > self.max_participants {
            return false;
        }
        match self.distribution_mode {
            DistributionMode::Split { winner_percent } => {
                if winner_percent > 100 {
                    return false;
                }
            },
            _ => {},
        }
        if self.participant_count > self.max_participants {
            return false;
        }
        assert(self.participant_count * self.stake_amount <= 100 * u64::MAX) by (nonlinear_arith)
            requires
                0 <= self.participant_count <= 100,
                0 <= self.stake_amount <= u64::MAX,
        ;
        let staked: u128 = (self.participant_count as u128) * (self.stake_amount as u128);
        if self.total_staked as u128 != staked {
            return false;
        }
        let lifetime: i128 = (self.duration_days as i128) * (SECONDS_PER_DAY as i128);
        if self.end_timestamp as i128 != self.start_timestamp as i128 + lifetime {
            return false;
        }
        match self.pool_status {
            PoolStatus::Pending => self.participant_count == 0 && !self.charity_paid,
            PoolStatus::Active => self.participant_count > 0 && !self.charity_paid,
            PoolStatus::Ended => true,
            PoolStatus::Settled => true,
        }
    }
}

impl Participant {
    /// Tests whether the record meets everything a stored participant of
    /// `pool` must meet.
    pub fn is_well_formed(&self, pool: &CommitmentPool) -> (ok: bool)
        ensures
            ok == self.wf(*pool),
    {
        if self.pool != pool.pool_id || self.stake_amount != pool.stake_amount {
            return false;
        }
        if self.days_verified > pool.duration_days {
            return false;
        }
        if self.status == ParticipantStatus::Success && self.days_verified != pool.duration_days {
            return false;
        }
        if self.paid {
            self.status == ParticipantStatus::Success && (pool.pool_status == PoolStatus::Ended
                || pool.pool_status == PoolStatus::Settled)
        } else {
            true
        }
    }
}

} // verus!
