//! Closing an expired pool.

use vstd::prelude::*;
use crate::errors::ErrorCode;
use crate::state::{CommitmentPool, PoolStatus};

verus! {

/// What closing works on: the pool and the current time.
#[derive(Clone, Debug, PartialEq, Eq)]
pub struct ClosePool {
    pub pool: CommitmentPool,
    /// The current time, in seconds.
    pub now: i64,
}

impl ClosePool {
    /// Whether the pool's end time has been reached.
    pub open spec fn expired(self) -> bool {
        self.now >= self.pool.end_timestamp
    }

    /// How closing ends: success on a pool that is already closed or has
    /// expired, `PoolNotYetExpired` otherwise.
    pub open spec fn outcome(self) -> Result<(), ErrorCode> {
        if self.pool.pool_status.closed() || self.expired() {
            Ok(())
        } else {
            Err(ErrorCode::PoolNotYetExpired)
        }
    }

    /// The status after a successful close: a closed pool keeps its
    /// status, any other becomes `Ended`.
    pub open spec fn closed_status(self) -> PoolStatus {
        if self.pool.pool_status.closed() {
            self.pool.pool_status
        } else {
            PoolStatus::Ended
        }
    }

    /// The records after a successful close: only the status may differ.
    pub open spec fn closed(self) -> ClosePool {
        ClosePool {
            pool: CommitmentPool { pool_status: self.closed_status(), ..self.pool },
            ..self
        }
    }
}

/// Closes the pool once its end time is reached. Closing a pool that is
/// already `Ended` or `Settled` succeeds and changes nothing, at any time.
pub fn handler(ctx: &mut ClosePool) -> (res: Result<(), ErrorCode>)
    ensures
        res == old(ctx).outcome(),
        res is Ok ==> *final(ctx) == old(ctx).closed(),
        res is Err ==> *final(ctx) == *old(ctx),
        old(ctx).pool.pool_status.rank() <= final(ctx).pool.pool_status.rank(),
        old(ctx).pool.wf() ==> final(ctx).pool.wf(),
{
    if ctx.pool.pool_status == PoolStatus::Ended || ctx.pool.pool_status == PoolStatus::Settled {
        return Ok(());
    }
    if ctx.now < ctx.pool.end_timestamp {
        return Err(ErrorCode::PoolNotYetExpired);
    }
    ctx.pool.pool_status = PoolStatus::Ended;
    Ok(())
}

} // verus!
