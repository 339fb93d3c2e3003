//! The vote accumulator: collects signed votes for one `(kind, view)` until the
//! signers of one datum hold the threshold stake, then forms the certificate.
use crate::certificate::{cert_valid, SimpleCertificate, SimpleVote, VoteKind};
use crate::commitment::Commitment;
use crate::committee::{contains_key, lemma_signed_le_total, lemma_signed_add, lemma_signed_none, signed_stake, Membership};
use vstd::prelude::*;

verus! {

/// The distinct signers that voted for one datum, and their stake.
#[derive(Clone, Debug)]
pub struct VoteBucket {
    pub data: Commitment,
    pub signers: Vec<u64>,
    pub stake: u64,
}

/// The votes gathered for one `(kind, view)`.
#[derive(Clone, Debug)]
pub struct VoteAccumulator {
    pub kind: VoteKind,
    pub view: u64,
    pub buckets: Vec<VoteBucket>,
}

/// The signers counted so far for `data` (none where no vote for it arrived).
pub open spec fn signers_for(buckets: Seq<VoteBucket>, data: Commitment) -> Seq<u64> {
    if exists|i: int| 0 <= i < buckets.len() && buckets[i].data == data {
        buckets[choose|i: int| 0 <= i < buckets.len() && buckets[i].data == data].signers@
    } else {
        Seq::empty()
    }
}

impl VoteAccumulator {
    /// Each datum has one bucket, whose stake is that of its signers.
    pub open spec fn wf(&self, m: Membership) -> bool {
        &&& forall|i: int, j: int|
            0 <= i < j < self.buckets@.len() ==> self.buckets@[i].data != self.buckets@[j].data
        &&& forall|i: int|
            0 <= i < self.buckets@.len() ==> #[trigger] self.buckets@[i].stake == signed_stake(
                m.members@,
                self.buckets@[i].signers@,
            )
    }

    /// Whether a vote is counted anew: its signer holds stake and has not yet
    /// voted for the same datum.
    pub open spec fn counts(&self, vote: SimpleVote, m: Membership) -> bool {
        m.stake_spec(vote.signer) > 0 && !signers_for(self.buckets@, vote.data).contains(vote.signer)
    }

    /// An empty accumulator for `(kind, view)`.
    pub fn new(kind: VoteKind, view: u64) -> (r: VoteAccumulator)
        ensures
            r.kind == kind,
            r.view == view,
            r.buckets@.len() == 0,
    {
        VoteAccumulator { kind, view, buckets: Vec::new() }
    }

    fn find_bucket(&self, data: Commitment) -> (r: Option<usize>)
        ensures
            r matches Some(i) ==> i < self.buckets@.len() && self.buckets@[i as int].data == data,
            r is None ==> forall|i: int| 0 <= i < self.buckets@.len() ==> self.buckets@[i].data != data,
    {
        let mut i: usize = 0;
        while i < self.buckets.len()
            invariant
                i <= self.buckets@.len(),
                forall|j: int| 0 <= j < i ==> self.buckets@[j].data != data,
            decreases self.buckets@.len() - i,
        {
            if self.buckets[i].data == data {
                return Some(i);
            }
            i += 1;
        }
        None
    }

    /// Counts a vote. Returns the certificate once the signers of the vote's
    /// datum reach the threshold stake; the certificate then validates against
    /// the committee.
    pub fn accumulate(&mut self, vote: SimpleVote, m: &Membership) -> (r: Option<SimpleCertificate>)
        requires
            old(self).wf(*m),
            m.wf(),
            vote.kind == old(self).kind,
            vote.view == old(self).view,
        ensures
            final(self).wf(*m),
            final(self).kind == old(self).kind,
            final(self).view == old(self).view,
            signers_for(final(self).buckets@, vote.data) == if old(self).counts(vote, *m) {
                signers_for(old(self).buckets@, vote.data).push(vote.signer)
            } else {
                signers_for(old(self).buckets@, vote.data)
            },
            r is Some <==> old(self).counts(vote, *m) && signed_stake(
                m.members@,
                signers_for(final(self).buckets@, vote.data),
            ) >= m.threshold_spec(),
            r matches Some(c) ==> c.kind == vote.kind && c.view == vote.view && c.data == vote.data
                && !c.is_genesis && c.signers@ == signers_for(final(self).buckets@, vote.data)
                && cert_valid(c, *m),
    {
        let stake = m.stake_of(vote.signer);
        let idx = self.find_bucket(vote.data);
        let ghost old_buckets = self.buckets@;
        proof {
            if let Some(i) = idx {
                assert(signers_for(old_buckets, vote.data) == old_buckets[i as int].signers@);
            } else {
                assert(signers_for(old_buckets, vote.data) == Seq::<u64>::empty());
            }
        }
        if stake == 0 {
            return None;
        }
        let i: usize = match idx {
            Some(i) => i,
            None => {
                let b = VoteBucket { data: vote.data, signers: Vec::new(), stake: 0 };
                proof {
                    lemma_signed_none(m.members@);
                    assert(b.signers@ =~= Seq::<u64>::empty());
                }
                self.buckets.push(b);
                let i = self.buckets.len() - 1;
                assert(self.buckets@[i as int].signers@ =~= Seq::<u64>::empty());
                i
            },
        };
        assert(signers_for(self.buckets@, vote.data) == self.buckets@[i as int].signers@);
        if contains_key(&self.buckets[i].signers, vote.signer) {
            return None;
        }
        let ghost before = self.buckets@[i as int].signers@;
        let mut signers = self.buckets[i].signers.clone();
        assert(signers@ =~= before);
        signers.push(vote.signer);
        proof {
            lemma_signed_add(m.members@, before, vote.signer);
            lemma_signed_le_total(m.members@, before.push(vote.signer));
        }
        let b = VoteBucket { data: vote.data, signers, stake: self.buckets[i].stake + stake };
        let formed = b.stake >= m.success_threshold();
        let cert_signers = if formed { b.signers.clone() } else { Vec::new() };
        assert(formed ==> cert_signers@ =~= b.signers@);
        self.buckets.set(i, b);
        assert(self.buckets@[i as int].data == vote.data);
        assert(signers_for(self.buckets@, vote.data) == self.buckets@[i as int].signers@);
        if formed {
            Some(SimpleCertificate { kind: self.kind, view: self.view, data: vote.data, signers: cert_signers, is_genesis: false })
        } else {
            None
        }
    }
}

} // verus!
