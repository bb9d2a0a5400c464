//! Settling an ended pool: paying every winner and the charity target out
//! of the pool's vault, each exactly once.

use vstd::prelude::*;
use crate::errors::ErrorCode;
use crate::identity::Identity;
use crate::payout::{
    compute_plan, count_paid, count_winners, lemma_all_paid, lemma_counts_bounded,
    lemma_mark_paid, lemma_shares_within_total, paid_count, winner_count, PayoutPlan,
};
use crate::settlement::{
    awaits_payout, first_awaiting, lemma_first_awaiting, lemma_settled_is_final,
    lemma_share_covered, pending_winner_payouts, settled_record, Settlement,
};
use crate::state::{
    CommitmentPool, DistributionMode, Participant, ParticipantStatus, PoolStatus,
};
use crate::vault::{EscrowVault, Payout, Recipient};

verus! {

/// What a settlement works on: the pool, its vault, every participant of
/// the pool, and the caller.
#[derive(Clone, Debug, PartialEq, Eq)]
pub struct DistributeRewards {
    pub pool: CommitmentPool,
    pub pool_vault: EscrowVault,
    /// All participant records of `pool`.
    pub participants: Vec<Participant>,
    /// The caller, who must be the pool's verifier or its authority.
    pub authority: Identity,
}

impl View for DistributeRewards {
    type V = Settlement;

    open spec fn view(&self) -> Settlement {
        Settlement {
            pool: self.pool,
            vault: self.pool_vault,
            participants: self.participants@,
            caller: self.authority,
        }
    }
}

/// Settles the pool: pays every winner who is not yet marked paid, then
/// the charity target unless it is marked paid, each out of the vault, and
/// marks the pool `Settled`. Returns the payouts made by this call, in
/// the order made. Recipients marked paid by an earlier, interrupted
/// settlement are skipped, so nobody is paid twice; on a pool already
/// settled the call succeeds and pays nothing. On failure nothing changes.
pub fn handler(ctx: &mut DistributeRewards) -> (res: Result<Vec<Payout>, ErrorCode>)
    requires
        old(ctx)@.wf(),
    ensures
        final(ctx)@.wf(),
        match old(ctx)@.outcome() {
            Ok(()) => res matches Ok(payouts) && payouts@ == old(ctx)@.pending() && final(ctx)@
                == old(ctx)@.settled(),
            Err(e) => res == Err::<Vec<Payout>, ErrorCode>(e) && *final(ctx) == *old(ctx),
        },
        old(ctx).pool.pool_status == PoolStatus::Settled ==> *final(ctx) == *old(ctx),
{
    let ghost before: Settlement = ctx@;
    if !(ctx.authority == ctx.pool.verifier || ctx.authority == ctx.pool.authority) {
        return Err(ErrorCode::Unauthorized);
    }
    if ctx.pool.pool_status == PoolStatus::Settled {
        proof {
            lemma_settled_is_final(before);
        }
        return Ok(Vec::new());
    }
    if ctx.pool.pool_status != PoolStatus::Ended {
        return Err(ErrorCode::PoolNotEnded);
    }
    let n: usize = ctx.participants.len();
    let winners: usize = count_winners(&ctx.participants);
    let plan: PayoutPlan = match compute_plan(&ctx.pool, winners as u16) {
        Ok(plan) => plan,
        Err(e) => {
            return Err(e);
        },
    };
    proof {
        lemma_shares_within_total(before.pool, before.winners());
        assert forall|j: int|
            0 <= j < n && before.participants[j].paid implies before.participants[j].is_winner() by {
            assert(before.participants[j].wf(before.pool));
        }
        assert(before.participants.take(0) =~= Seq::<Participant>::empty());
    }
    let ghost charity_part: int = if before.pool.charity_paid {
        before.charity()
    } else {
        0
    };
    let mut payouts: Vec<Payout> = Vec::new();
    let mut i: usize = 0;
    while i < n
        invariant
            i <= n,
            n == before.participants.len(),
            before.wf(),
            before.pool.pool_status == PoolStatus::Ended,
            plan.winner_share == before.share(),
            plan.charity_share == before.charity(),
            0 <= charity_part <= before.pool.total_staked - before.winners() * before.share(),
            ctx.pool == before.pool,
            ctx.authority == before.caller,
            ctx.pool_vault.pool == before.vault.pool,
            ctx.participants@.len() == n,
            forall|j: int|
                0 <= j < i ==> ctx.participants@[j] == settled_record(before.participants[j]),
            forall|j: int| i <= j < n ==> ctx.participants@[j] == before.participants[j],
            forall|j: int|
                0 <= j < n && ctx.participants@[j].paid ==> ctx.participants@[j].is_winner(),
            winner_count(ctx.participants@) == before.winners(),
            ctx.pool_vault.balance + paid_count(ctx.participants@) * plan.winner_share
                + charity_part == before.pool.total_staked,
            payouts@ == pending_winner_payouts(
                before.participants.take(i as int),
                plan.winner_share,
            ),
        decreases n - i,
    {
        let record: Participant = ctx.participants[i];
        proof {
            assert(before.participants.take(i + 1).drop_last() =~= before.participants.take(
                i as int,
            ));
            assert(before.participants[i as int].wf(before.pool));
        }
        if record.status == ParticipantStatus::Success && !record.paid {
            let payout = Payout {
                pool: ctx.pool.pool_id,
                recipient: Recipient::Winner { wallet: record.wallet },
                amount: plan.winner_share,
            };
            proof {
                lemma_mark_paid(ctx.participants@, i as int);
                lemma_share_covered(
                    before.pool.total_staked as int,
                    before.winners() as int,
                    paid_count(ctx.participants@) as int,
                    plan.winner_share as int,
                    charity_part,
                    ctx.pool_vault.balance as int,
                );
            }
            let released: bool = ctx.pool_vault.release(&payout);
            assert(released);
            ctx.participants.set(i, Participant { paid: true, ..record });
            payouts.push(payout);
        }
        i = i + 1;
    }
    proof {
        assert(before.participants.take(n as int) =~= before.participants);
        assert forall|j: int| 0 <= j < n implies ctx.participants@[j].paid
            == ctx.participants@[j].is_winner() by {
            assert(ctx.participants@[j] == settled_record(before.participants[j]));
        }
        lemma_all_paid(ctx.participants@);
        assert(ctx.participants@ =~= before.settled().participants);
    }
    if !ctx.pool.charity_paid {
        let payout = Payout {
            pool: ctx.pool.pool_id,
            recipient: Recipient::Charity { address: ctx.pool.charity_address },
            amount: plan.charity_share,
        };
        let released: bool = ctx.pool_vault.release(&payout);
        assert(released);
        payouts.push(payout);
        ctx.pool.charity_paid = true;
    }
    ctx.pool.pool_status = PoolStatus::Settled;
    proof {
        assert(ctx.pool_vault.balance == 0);
        assert(ctx@ == before.settled());
        assert(winner_count(ctx.participants@) == before.winners());
    }
    Ok(payouts)
}

/// Makes the next pending payout of an ended pool, and no more: pays the
/// first winner who is not yet marked paid, or, with every winner paid,
/// the charity target. Marks the pool `Settled` as soon as no recipient is
/// left unmarked. Returns the payout made, or `None` where nothing was
/// left to pay. Fails as a full settlement does, and then changes nothing.
pub fn step(ctx: &mut DistributeRewards) -> (res: Result<Option<Payout>, ErrorCode>)
    requires
        old(ctx)@.wf(),
    ensures
        final(ctx)@.wf(),
        match old(ctx)@.outcome() {
            Ok(()) => res == Ok::<Option<Payout>, ErrorCode>(old(ctx)@.next_payout())
                && final(ctx)@ == old(ctx)@.after_step(),
            Err(e) => res == Err::<Option<Payout>, ErrorCode>(e) && *final(ctx) == *old(ctx),
        },
        old(ctx).pool.pool_status == PoolStatus::Settled ==> *final(ctx) == *old(ctx),
{
    let ghost before: Settlement = ctx@;
    if !(ctx.authority == ctx.pool.verifier || ctx.authority == ctx.pool.authority) {
        return Err(ErrorCode::Unauthorized);
    }
    if ctx.pool.pool_status == PoolStatus::Settled {
        return Ok(None);
    }
    if ctx.pool.pool_status != PoolStatus::Ended {
        return Err(ErrorCode::PoolNotEnded);
    }
    let n: usize = ctx.participants.len();
    let winners: usize = count_winners(&ctx.participants);
    let plan: PayoutPlan = match compute_plan(&ctx.pool, winners as u16) {
        Ok(plan) => plan,
        Err(e) => {
            return Err(e);
        },
    };
    proof {
        lemma_shares_within_total(before.pool, before.winners());
        lemma_first_awaiting(before.participants);
        assert forall|j: int|
            0 <= j < n && before.participants[j].paid implies before.participants[j].is_winner() by {
            assert(before.participants[j].wf(before.pool));
        }
    }
    let index: usize = find_awaiting(&ctx.participants, 0);
    assert(index == first_awaiting(before.participants));
    if index < n {
        let record: Participant = ctx.participants[index];
        let payout = Payout {
            pool: ctx.pool.pool_id,
            recipient: Recipient::Winner { wallet: record.wallet },
            amount: plan.winner_share,
        };
        proof {
            assert(record.wf(before.pool));
            lemma_mark_paid(before.participants, index as int);
            lemma_share_covered(
                before.pool.total_staked as int,
                before.winners() as int,
                paid_count(before.participants) as int,
                plan.winner_share as int,
                if before.pool.charity_paid {
                    before.charity()
                } else {
                    0
                },
                ctx.pool_vault.balance as int,
            );
        }
        let released: bool = ctx.pool_vault.release(&payout);
        assert(released);
        ctx.participants.set(index, Participant { paid: true, ..record });
        let following: usize = find_awaiting(&ctx.participants, index + 1);
        proof {
            lemma_first_awaiting(ctx.participants@);
            assert forall|j: int| 0 <= j < n implies (#[trigger] ctx.participants@[j]).wf(
                before.pool,
            ) by {
                assert(before.participants[j].wf(before.pool));
            }
        }
        if following == n && ctx.pool.charity_paid {
            ctx.pool.pool_status = PoolStatus::Settled;
        }
        proof {
            assert(ctx@ == before.after_step());
        }
        return Ok(Some(payout));
    }
    proof {
        assert forall|j: int| 0 <= j < n implies before.participants[j].paid
            == before.participants[j].is_winner() by {
            assert(!awaits_payout(before.participants[j]));
        }
        lemma_all_paid(before.participants);
    }
    if !ctx.pool.charity_paid {
        let payout = Payout {
            pool: ctx.pool.pool_id,
            recipient: Recipient::Charity { address: ctx.pool.charity_address },
            amount: plan.charity_share,
        };
        let released: bool = ctx.pool_vault.release(&payout);
        assert(released);
        ctx.pool.charity_paid = true;
        ctx.pool.pool_status = PoolStatus::Settled;
        return Ok(Some(payout));
    }
    ctx.pool.pool_status = PoolStatus::Settled;
    Ok(None)
}

/// Finds the first participant at or after `from` who awaits a payout.
fn find_awaiting(participants: &Vec<Participant>, from: usize) -> (index: usize)
    requires
        from <= participants.len(),
    ensures
        from <= index <= participants.len(),
        forall|j: int| from <= j < index ==> !awaits_payout(#[trigger] participants@[j]),
        index < participants.len() ==> awaits_payout(participants@[index as int]),
{
    let mut i: usize = from;
    while i < participants.len()
        invariant
            from <= i <= participants.len(),
            forall|j: int| from <= j < i ==> !awaits_payout(#[trigger] participants@[j]),
        decreases participants.len() - i,
    {
        if participants[i].status == ParticipantStatus::Success && !participants[i].paid {
            return i;
        }
        i = i + 1;
    }
    i
}

impl DistributeRewards {
    /// Tests whether the records fit together.
    pub fn is_well_formed(&self) -> (ok: bool)
        ensures
            ok == self@.wf(),
    {
        if !self.pool.is_well_formed() {
            return false;
        }
        if self.pool_vault.pool != self.pool.pool_id {
            return false;
        }
        if self.participants.len() != self.pool.participant_count as usize {
            return false;
        }
        if !all_well_formed(&self.participants, &self.pool) {
            return false;
        }
        if !wallets_distinct(&self.participants) {
            return false;
        }
        let winners: usize = count_winners(&self.participants);
        let paid: usize = count_paid(&self.participants);
        proof {
            lemma_shares_within_total(self.pool, winners as nat);
            lemma_counts_bounded(self.participants@);
        }
        let (share, charity): (u64, u64) = match compute_plan(&self.pool, winners as u16) {
            Ok(plan) => (plan.winner_share, plan.charity_share),
            Err(_) => (0, self.pool.total_staked),
        };
        assert(share == self@.share() && charity == self@.charity());
        if self.pool.charity_paid && winners == 0 && self.pool.distribution_mode
            == DistributionMode::Competitive {
            return false;
        }
        assert(paid * share <= 100 * u64::MAX) by (nonlinear_arith)
            requires
                0 <= paid <= 100,
                0 <= share <= u64::MAX,
        ;
        let paid_out: u128 = (paid as u128) * (share as u128) + if self.pool.charity_paid {
            charity as u128
        } else {
            0
        };
        if self.pool_vault.balance as u128 + paid_out != self.pool.total_staked as u128 {
            return false;
        }
        if self.pool.pool_status == PoolStatus::Settled {
            proof {
                lemma_first_awaiting(self.participants@);
            }
            self.pool.charity_paid && find_awaiting(&self.participants, 0)
                == self.participants.len()
        } else {
            true
        }
    }
}

/// Tests whether every record is a well-formed participant of `pool`.
fn all_well_formed(participants: &Vec<Participant>, pool: &CommitmentPool) -> (ok: bool)
    ensures
        ok == forall|i: int|
            0 <= i < participants.len() ==> (#[trigger] participants@[i]).wf(*pool),
{
    let mut i: usize = 0;
    while i < participants.len()
        invariant
            i <= participants.len(),
            forall|j: int| 0 <= j < i ==> (#[trigger] participants@[j]).wf(*pool),
        decreases participants.len() - i,
    {
        if !participants[i].is_well_formed(pool) {
            return false;
        }
        i = i + 1;
    }
    true
}

/// Tests whether no two records share a wallet.
fn wallets_distinct(participants: &Vec<Participant>) -> (ok: bool)
    ensures
        ok == forall|i: int, j: int|
            0 <= i < j < participants.len() ==> (#[trigger] participants@[i]).wallet != (
            #[trigger] participants@[j]).wallet,
{
    let n: usize = participants.len();
    let mut j: usize = 0;
    while j < n
        invariant
            j <= n,
            n == participants.len(),
            forall|a: int, b: int|
                0 <= a < b < j ==> (#[trigger] participants@[a]).wallet != (
                #[trigger] participants@[b]).wallet,
        decreases n - j,
    {
        let mut i: usize = 0;
        while i < j
            invariant
                i <= j < n,
                n == participants.len(),
                forall|a: int|
                    0 <= a < i ==> (#[trigger] participants@[a]).wallet
                        != participants@[j as int].wallet,
            decreases j - i,
        {
            if participants[i].wallet == participants[j].wallet {
                return false;
            }
            i = i + 1;
        }
        j = j + 1;
    }
    true
}

} // verus!
