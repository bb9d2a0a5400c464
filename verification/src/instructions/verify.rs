//! Recording a verified day.

use vstd::prelude::*;
use crate::errors::ErrorCode;
use crate::identity::Identity;
use crate::state::{CommitmentPool, Participant, ParticipantStatus, PoolStatus};

verus! {

/// What recording an outcome works on: the pool, the participant the
/// outcome is about, and the caller.
#[derive(Clone, Debug, PartialEq, Eq)]
pub struct VerifyParticipant {
    pub pool: CommitmentPool,
    pub participant: Participant,
    /// The caller, who must be the pool's verifier.
    pub authority: Identity,
}

impl VerifyParticipant {
    /// A well-formed pool and a well-formed participant of it.
    pub open spec fn wf(self) -> bool {
        self.pool.wf() && self.participant.wf(self.pool)
    }

    /// How recording day `day` ends: the first unmet condition in the order
    /// caller, pool status, participant status, day; success if all are met.
    pub open spec fn outcome(self, day: u8) -> Result<(), ErrorCode> {
        if self.authority != self.pool.verifier {
            Err(ErrorCode::Unauthorized)
        } else if self.pool.pool_status != PoolStatus::Active {
            Err(ErrorCode::PoolNotActive)
        } else if self.participant.status != ParticipantStatus::Active {
            Err(ErrorCode::ParticipantNotActive)
        } else if day < 1 || day > self.pool.duration_days {
            Err(ErrorCode::InvalidDay)
        } else {
            Ok(())
        }
    }

    /// The participant after an accepted outcome. A passed day raises
    /// `days_verified` to `day` unless it is already higher, and makes the
    /// participant a `Success` once the whole duration is verified. A
    /// missed day makes the participant `Failed`, whatever was verified
    /// before.
    pub open spec fn recorded(self, day: u8, passed: bool) -> Participant {
        if passed {
            let verified = if day > self.participant.days_verified {
                day
            } else {
                self.participant.days_verified
            };
            Participant {
                days_verified: verified,
                status: if verified >= self.pool.duration_days {
                    ParticipantStatus::Success
                } else {
                    ParticipantStatus::Active
                },
                ..self.participant
            }
        } else {
            Participant { status: ParticipantStatus::Failed, ..self.participant }
        }
    }
}

/// Records the verifier's outcome for day `day` of the participant.
/// Only the participant record changes, and only on success.
pub fn handler(ctx: &mut VerifyParticipant, day: u8, passed: bool) -> (res: Result<
    (),
    ErrorCode,
>)
    ensures
        res == old(ctx).outcome(day),
        res is Ok ==> *final(ctx) == (VerifyParticipant {
            participant: old(ctx).recorded(day, passed),
            ..*old(ctx)
        }),
        res is Err ==> *final(ctx) == *old(ctx),
        final(ctx).participant.days_verified >= old(ctx).participant.days_verified,
        old(ctx).participant.status.may_become(final(ctx).participant.status),
        old(ctx).wf() ==> final(ctx).wf(),
{
    if ctx.authority != ctx.pool.verifier {
        return Err(ErrorCode::Unauthorized);
    }
    if ctx.pool.pool_status != PoolStatus::Active {
        return Err(ErrorCode::PoolNotActive);
    }
    if ctx.participant.status != ParticipantStatus::Active {
        return Err(ErrorCode::ParticipantNotActive);
    }
    if day == 0 || day > ctx.pool.duration_days {
        return Err(ErrorCode::InvalidDay);
    }
    if passed {
        if day > ctx.participant.days_verified {
            ctx.participant.days_verified = day;
        }
        if ctx.participant.days_verified >= ctx.pool.duration_days {
            ctx.participant.status = ParticipantStatus::Success;
        }
    } else {
        ctx.participant.status = ParticipantStatus::Failed;
    }
    Ok(())
}

} // verus!
