//! The books of a settlement: what is owed to whom, what the paid markers
//! say has been paid, and how a payout changes the records.

use vstd::prelude::*;
use crate::errors::ErrorCode;
use crate::identity::Identity;
use crate::payout::{
    charity_share, lemma_all_paid, lemma_counts_bounded, lemma_mark_paid,
    lemma_shares_within_total, paid_count, payable, winner_count, winner_share,
};
use crate::state::{CommitmentPool, Participant, PoolStatus};
use crate::vault::{EscrowVault, Payout, Recipient};

verus! {

/// The records of a settlement as mathematical values: the pool, its
/// vault, the sequence of its participants and the caller.
pub struct Settlement {
    pub pool: CommitmentPool,
    pub vault: EscrowVault,
    pub participants: Seq<Participant>,
    pub caller: Identity,
}

/// A participant after settlement: a winner carries the paid marker,
/// anyone else is as before.
pub open spec fn settled_record(participant: Participant) -> Participant {
    if participant.is_winner() {
        Participant { paid: true, ..participant }
    } else {
        participant
    }
}

/// The payout of `amount` to the winner `participant`.
pub open spec fn winner_payout(participant: Participant, amount: u64) -> Payout {
    Payout {
        pool: participant.pool,
        recipient: Recipient::Winner { wallet: participant.wallet },
        amount,
    }
}

/// The payout of `amount` to the charity target of `pool`.
pub open spec fn charity_payout(pool: CommitmentPool, amount: u64) -> Payout {
    Payout {
        pool: pool.pool_id,
        recipient: Recipient::Charity { address: pool.charity_address },
        amount,
    }
}

/// Whether `participant` is owed a payout that has not been made.
pub open spec fn awaits_payout(participant: Participant) -> bool {
    participant.is_winner() && !participant.paid
}

/// The payouts of `share` each that the winners among `participants` are
/// still owed, in the order of the records: one for every winner without
/// the paid marker.
pub open spec fn pending_winner_payouts(participants: Seq<Participant>, share: u64) -> Seq<
    Payout,
>
    decreases participants.len(),
{
    if participants.len() == 0 {
        Seq::empty()
    } else {
        let earlier = pending_winner_payouts(participants.drop_last(), share);
        let last = participants.last();
        if awaits_payout(last) {
            earlier.push(winner_payout(last, share))
        } else {
            earlier
        }
    }
}

/// The position of the first participant who awaits a payout, or the
/// number of participants where nobody does.
pub open spec fn first_awaiting(participants: Seq<Participant>) -> int
    decreases participants.len(),
{
    if participants.len() == 0 {
        0
    } else {
        let earlier = first_awaiting(participants.drop_last());
        if earlier < participants.len() - 1 {
            earlier
        } else if awaits_payout(participants.last()) {
            participants.len() - 1
        } else {
            participants.len() as int
        }
    }
}

impl Settlement {
    /// How many participants have won.
    pub open spec fn winners(self) -> nat {
        winner_count(self.participants)
    }

    /// What each winner receives.
    pub open spec fn share(self) -> int {
        winner_share(self.pool, self.winners())
    }

    /// What the charity target receives.
    pub open spec fn charity(self) -> int {
        charity_share(self.pool, self.winners())
    }

    /// What has left the vault so far, going by the paid markers.
    pub open spec fn paid_out(self) -> int {
        paid_count(self.participants) * self.share() + if self.pool.charity_paid {
            self.charity()
        } else {
            0
        }
    }

    /// The records fit together: a well-formed pool with its own vault and
    /// exactly its participants, one record per wallet; the vault holds
    /// what was staked less what the paid markers say has been paid; and a
    /// settled pool has every recipient marked.
    pub open spec fn wf(self) -> bool {
        &&& self.pool.wf()
        &&& self.vault.pool == self.pool.pool_id
        &&& self.participants.len() == self.pool.participant_count
        &&& forall|i: int|
            0 <= i < self.participants.len() ==> (#[trigger] self.participants[i]).wf(self.pool)
        &&& forall|i: int, j: int|
            0 <= i < j < self.participants.len() ==> (#[trigger] self.participants[i]).wallet != (
            #[trigger] self.participants[j]).wallet
        &&& (self.pool.charity_paid ==> payable(self.pool, self.winners()))
        &&& self.vault.balance + self.paid_out() == self.pool.total_staked
        &&& (self.pool.pool_status == PoolStatus::Settled ==> self.pool.charity_paid
            && forall|i: int|
            0 <= i < self.participants.len() && (#[trigger] self.participants[i]).is_winner()
                ==> self.participants[i].paid)
    }

    /// Whether the caller may settle: only the pool's verifier and its
    /// authority may.
    pub open spec fn authorized(self) -> bool {
        self.caller == self.pool.verifier || self.caller == self.pool.authority
    }

    /// How a settlement ends: `Unauthorized` for any other caller; success
    /// on a pool already settled; `PoolNotEnded` unless the pool is
    /// `Ended`; `NoWinners` for a competitive pool nobody won; else
    /// success.
    pub open spec fn outcome(self) -> Result<(), ErrorCode> {
        if !self.authorized() {
            Err(ErrorCode::Unauthorized)
        } else if self.pool.pool_status == PoolStatus::Settled {
            Ok(())
        } else if self.pool.pool_status != PoolStatus::Ended {
            Err(ErrorCode::PoolNotEnded)
        } else if !payable(self.pool, self.winners()) {
            Err(ErrorCode::NoWinners)
        } else {
            Ok(())
        }
    }

    /// The payouts still to be made: one to every winner not yet marked
    /// paid, in the order of the records, then the charity's unless it is
    /// marked paid.
    pub open spec fn pending(self) -> Seq<Payout> {
        let to_winners = pending_winner_payouts(self.participants, self.share() as u64);
        if self.pool.charity_paid {
            to_winners
        } else {
            to_winners.push(charity_payout(self.pool, self.charity() as u64))
        }
    }

    /// The records once everything is paid: an empty vault, every winner
    /// and the charity marked paid, the pool `Settled`.
    pub open spec fn settled(self) -> Settlement {
        Settlement {
            pool: CommitmentPool {
                pool_status: PoolStatus::Settled,
                charity_paid: true,
                ..self.pool
            },
            vault: EscrowVault { balance: 0, ..self.vault },
            participants: Seq::new(
                self.participants.len(),
                |i: int| settled_record(self.participants[i]),
            ),
            caller: self.caller,
        }
    }

    /// The payout that a single step makes: the one owed to the first
    /// participant who awaits a payout; with no such participant, the
    /// charity's unless it is marked paid; nothing on a settled pool.
    pub open spec fn next_payout(self) -> Option<Payout> {
        let index = first_awaiting(self.participants);
        if self.pool.pool_status == PoolStatus::Settled {
            None
        } else if index < self.participants.len() {
            Some(winner_payout(self.participants[index], self.share() as u64))
        } else if !self.pool.charity_paid {
            Some(charity_payout(self.pool, self.charity() as u64))
        } else {
            None
        }
    }

    /// The records after a single step: the payout of `next_payout` has
    /// left the vault and its recipient is marked paid; the pool is
    /// `Settled` once no recipient is left unmarked and stays `Ended` until
    /// then.
    pub open spec fn after_step(self) -> Settlement {
        let index = first_awaiting(self.participants);
        if self.pool.pool_status == PoolStatus::Settled {
            self
        } else if index < self.participants.len() {
            let marked = self.participants.update(
                index,
                Participant { paid: true, ..self.participants[index] },
            );
            let done = self.pool.charity_paid && first_awaiting(marked) == marked.len();
            Settlement {
                pool: CommitmentPool {
                    pool_status: if done {
                        PoolStatus::Settled
                    } else {
                        PoolStatus::Ended
                    },
                    ..self.pool
                },
                vault: EscrowVault {
                    balance: (self.vault.balance - self.share()) as u64,
                    ..self.vault
                },
                participants: marked,
                caller: self.caller,
            }
        } else if !self.pool.charity_paid {
            Settlement {
                pool: CommitmentPool {
                    pool_status: PoolStatus::Settled,
                    charity_paid: true,
                    ..self.pool
                },
                vault: EscrowVault {
                    balance: (self.vault.balance - self.charity()) as u64,
                    ..self.vault
                },
                ..self
            }
        } else {
            Settlement {
                pool: CommitmentPool { pool_status: PoolStatus::Settled, ..self.pool },
                ..self
            }
        }
    }
}

/// `first_awaiting` is the least position of a participant who awaits a
/// payout.
pub proof fn lemma_first_awaiting(participants: Seq<Participant>)
    ensures
        0 <= first_awaiting(participants) <= participants.len(),
        forall|j: int|
            0 <= j < first_awaiting(participants) ==> !awaits_payout(#[trigger] participants[j]),
        first_awaiting(participants) < participants.len() ==> awaits_payout(
            participants[first_awaiting(participants)],
        ),
    decreases participants.len(),
{
    if participants.len() > 0 {
        lemma_first_awaiting(participants.drop_last());
        let earlier = first_awaiting(participants.drop_last());
        assert forall|j: int| 0 <= j < first_awaiting(participants) implies !awaits_payout(
            #[trigger] participants[j],
        ) by {
            if j < participants.len() - 1 {
                assert(participants[j] == participants.drop_last()[j]);
            }
        }
        if earlier < participants.len() - 1 {
            assert(participants[earlier] == participants.drop_last()[earlier]);
        }
    }
}

/// Where every winner is marked paid, no winner is owed a payout.
pub proof fn lemma_nothing_pending(participants: Seq<Participant>, share: u64)
    requires
        forall|i: int|
            0 <= i < participants.len() && participants[i].is_winner() ==> participants[i].paid,
    ensures
        pending_winner_payouts(participants, share) == Seq::<Payout>::empty(),
    decreases participants.len(),
{
    if participants.len() > 0 {
        lemma_nothing_pending(participants.drop_last(), share);
    }
}

/// A participant who awaits a payout has a payout pending.
pub proof fn lemma_some_pending(participants: Seq<Participant>, index: int, share: u64)
    requires
        0 <= index < participants.len(),
        awaits_payout(participants[index]),
    ensures
        pending_winner_payouts(participants, share).len() > 0,
    decreases participants.len(),
{
    if index < participants.len() - 1 {
        lemma_some_pending(participants.drop_last(), index, share);
    }
}

/// The first participant who awaits a payout is owed the first of the
/// pending winner payouts; once that participant is marked paid, the rest
/// of them is pending.
pub proof fn lemma_first_pending(participants: Seq<Participant>, index: int, share: u64)
    requires
        0 <= index < participants.len(),
        awaits_payout(participants[index]),
        forall|j: int| 0 <= j < index ==> !awaits_payout(#[trigger] participants[j]),
    ensures
        pending_winner_payouts(participants, share) == seq![
            winner_payout(participants[index], share),
        ] + pending_winner_payouts(
            participants.update(index, Participant { paid: true, ..participants[index] }),
            share,
        ),
    decreases participants.len(),
{
    let marked = Participant { paid: true, ..participants[index] };
    let after = participants.update(index, marked);
    let front = participants.drop_last();
    let first = seq![winner_payout(participants[index], share)];
    if index == participants.len() - 1 {
        assert forall|j: int| 0 <= j < front.len() && front[j].is_winner() implies front[j]
            .paid by {
            assert(!awaits_payout(participants[j]));
        }
        lemma_nothing_pending(front, share);
        assert(after.drop_last() =~= front);
        assert(pending_winner_payouts(participants, share) =~= first + pending_winner_payouts(
            after,
            share,
        ));
    } else {
        assert forall|j: int| 0 <= j < index implies !awaits_payout(#[trigger] front[j]) by {
            assert(front[j] == participants[j]);
        }
        lemma_first_pending(front, index, share);
        assert(after.drop_last() =~= front.update(index, marked));
        assert(after.last() == participants.last());
        assert(pending_winner_payouts(participants, share) =~= first + pending_winner_payouts(
            after,
            share,
        ));
    }
}

/// With fewer winners paid than have won, the vault still holds a whole
/// winner's share, and paying it keeps the books balanced.
pub proof fn lemma_share_covered(
    total: int,
    winners: int,
    paid: int,
    share: int,
    rest: int,
    balance: int,
)
    by (nonlinear_arith)
    requires
        0 <= paid < winners,
        0 <= share,
        0 <= rest <= total - winners * share,
        balance + paid * share + rest == total,
    ensures
        share <= balance,
        (balance - share) + (paid + 1) * share + rest == total,
{
}

/// Marking the winners paid changes neither who has won nor how many.
pub proof fn lemma_settled_keeps_winners(participants: Seq<Participant>)
    ensures
        winner_count(Seq::new(participants.len(), |i: int| settled_record(participants[i])))
            == winner_count(participants),
    decreases participants.len(),
{
    if participants.len() > 0 {
        let front = participants.drop_last();
        let settled = Seq::new(participants.len(), |i: int| settled_record(participants[i]));
        lemma_settled_keeps_winners(front);
        assert(settled.drop_last() =~= Seq::new(front.len(), |i: int| settled_record(front[i])));
    }
}

/// A settled pool has nothing pending, and settling it changes nothing.
pub proof fn lemma_settled_is_final(s: Settlement)
    requires
        s.wf(),
        s.pool.pool_status == PoolStatus::Settled,
    ensures
        s.pending() == Seq::<Payout>::empty(),
        s.settled() == s,
        s.vault.balance == 0,
{
    lemma_nothing_pending(s.participants, s.share() as u64);
    assert(s.settled().participants =~= s.participants);
    assert forall|i: int| 0 <= i < s.participants.len() implies s.participants[i].paid
        == s.participants[i].is_winner() by {
        assert(s.participants[i].wf(s.pool));
    }
    lemma_all_paid(s.participants);
    lemma_counts_bounded(s.participants);
    lemma_shares_within_total(s.pool, s.winners());
}

/// The records that a settlement leaves are well-formed, with the pool
/// `Settled` and nothing pending.
pub proof fn lemma_settled_is_well_formed(s: Settlement)
    requires
        s.wf(),
        s.outcome() is Ok,
    ensures
        s.settled().wf(),
        s.settled().pool.pool_status == PoolStatus::Settled,
        s.settled().pending() == Seq::<Payout>::empty(),
{
    let after = s.settled();
    lemma_settled_keeps_winners(s.participants);
    lemma_counts_bounded(s.participants);
    lemma_shares_within_total(s.pool, s.winners());
    assert forall|i: int| 0 <= i < after.participants.len() implies (
    #[trigger] after.participants[i]).wf(after.pool) && after.participants[i].paid
        == after.participants[i].is_winner() by {
        assert(s.participants[i].wf(s.pool));
    }
    lemma_all_paid(after.participants);
    assert forall|i: int, j: int| 0 <= i < j < after.participants.len() implies (
    #[trigger] after.participants[i]).wallet != (#[trigger] after.participants[j]).wallet by {
        assert(s.participants[i].wallet != s.participants[j].wallet);
    }
    lemma_nothing_pending(after.participants, after.share() as u64);
}

/// A step makes exactly the first of the pending payouts and leaves the
/// others pending; it keeps the records well-formed, and the pool is
/// `Settled` afterwards exactly when nothing is pending any more.
pub proof fn lemma_step_takes_first_pending(s: Settlement)
    requires
        s.wf(),
        s.outcome() is Ok,
    ensures
        s.after_step().wf(),
        s.next_payout() == if s.pending().len() > 0 {
            Some(s.pending()[0])
        } else {
            None::<Payout>
        },
        s.pending().len() > 0 ==> s.after_step().pending() == s.pending().drop_first()
            && s.after_step().vault.balance == s.vault.balance - s.pending()[0].amount,
        s.pending().len() == 0 ==> s.after_step() == s.settled() && s.vault.balance == 0,
        s.after_step().pool.pool_status == PoolStatus::Settled <==> s.after_step().pending().len()
            == 0,
        s.after_step().outcome() is Ok,
{
    let ps = s.participants;
    lemma_counts_bounded(ps);
    lemma_shares_within_total(s.pool, s.winners());
    let share = s.share() as u64;
    let index = first_awaiting(ps);
    lemma_first_awaiting(ps);
    assert forall|j: int| 0 <= j < ps.len() && ps[j].paid implies ps[j].is_winner() by {
        assert(ps[j].wf(s.pool));
    }
    if s.pool.pool_status == PoolStatus::Settled {
        lemma_settled_is_final(s);
    } else if index < ps.len() {
        let marked = ps.update(index, Participant { paid: true, ..ps[index] });
        let after = s.after_step();
        assert(ps[index].wf(s.pool));
        lemma_mark_paid(ps, index);
        lemma_share_covered(
            s.pool.total_staked as int,
            s.winners() as int,
            paid_count(ps) as int,
            s.share(),
            if s.pool.charity_paid {
                s.charity()
            } else {
                0
            },
            s.vault.balance as int,
        );
        lemma_first_pending(ps, index, share);
        lemma_first_awaiting(marked);
        assert forall|j: int| 0 <= j < marked.len() implies (#[trigger] marked[j]).wf(
            after.pool,
        ) by {
            assert(ps[j].wf(s.pool));
        }
        let rest = pending_winner_payouts(marked, share);
        let first = seq![winner_payout(ps[index], share)];
        assert((first + rest).drop_first() =~= rest);
        if !s.pool.charity_paid {
            let last = charity_payout(s.pool, s.charity() as u64);
            assert((first + rest).push(last).drop_first() =~= rest.push(last));
        }
        if first_awaiting(marked) == marked.len() {
            assert forall|j: int| 0 <= j < marked.len() && marked[j].is_winner() implies marked[j]
                .paid by {
                assert(!awaits_payout(marked[j]));
            }
            lemma_nothing_pending(marked, share);
        } else {
            lemma_some_pending(marked, first_awaiting(marked), share);
        }
    } else {
        assert forall|j: int| 0 <= j < ps.len() implies ps[j].paid == ps[j].is_winner() by {
            assert(!awaits_payout(ps[j]));
        }
        lemma_all_paid(ps);
        lemma_nothing_pending(ps, share);
        assert(s.settled().participants =~= ps);
        assert(s.after_step().participants == ps);
        if !s.pool.charity_paid {
            let last = charity_payout(s.pool, s.charity() as u64);
            assert(Seq::<Payout>::empty().push(last).drop_first() =~= Seq::<Payout>::empty());
        }
    }
}

} // verus!
