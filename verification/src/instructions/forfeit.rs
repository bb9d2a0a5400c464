//! Giving up a running challenge.

use vstd::prelude::*;
use crate::errors::ErrorCode;
use crate::identity::Identity;
use crate::state::{CommitmentPool, Participant, ParticipantStatus, PoolStatus};

verus! {

/// What a forfeit works on: the pool, the participant who gives up, and
/// the caller.
#[derive(Clone, Debug, PartialEq, Eq)]
pub struct ForfeitPool {
    pub pool: CommitmentPool,
    pub participant: Participant,
    /// The caller, who must own the participant's wallet.
    pub participant_wallet: Identity,
}

impl ForfeitPool {
    /// A well-formed pool and a well-formed participant of it.
    pub open spec fn wf(self) -> bool {
        self.pool.wf() && self.participant.wf(self.pool)
    }

    /// How a forfeit ends: `Unauthorized` unless the caller owns the
    /// wallet, then `InvalidState` unless pool and participant are both
    /// `Active`, else success.
    pub open spec fn outcome(self) -> Result<(), ErrorCode> {
        if self.participant.wallet != self.participant_wallet {
            Err(ErrorCode::Unauthorized)
        } else if self.pool.pool_status != PoolStatus::Active || self.participant.status
            != ParticipantStatus::Active {
            Err(ErrorCode::InvalidState)
        } else {
            Ok(())
        }
    }

    /// The records after a successful forfeit: the participant is
    /// `Forfeit`, nothing else differs.
    pub open spec fn forfeited(self) -> ForfeitPool {
        ForfeitPool {
            participant: Participant { status: ParticipantStatus::Forfeit, ..self.participant },
            ..self
        }
    }
}

/// Marks the participant as `Forfeit`. No funds move: the forfeited stake
/// is shared out at settlement like any loser's.
pub fn handler(ctx: &mut ForfeitPool) -> (res: Result<(), ErrorCode>)
    ensures
        res == old(ctx).outcome(),
        res is Ok ==> *final(ctx) == old(ctx).forfeited(),
        res is Err ==> *final(ctx) == *old(ctx),
        old(ctx).participant.status.may_become(final(ctx).participant.status),
        old(ctx).wf() ==> final(ctx).wf(),
{
    if ctx.participant.wallet != ctx.participant_wallet {
        return Err(ErrorCode::Unauthorized);
    }
    if ctx.pool.pool_status != PoolStatus::Active {
        return Err(ErrorCode::InvalidState);
    }
    if ctx.participant.status != ParticipantStatus::Active {
        return Err(ErrorCode::InvalidState);
    }
    ctx.participant.status = ParticipantStatus::Forfeit;
    Ok(())
}

} // verus!
