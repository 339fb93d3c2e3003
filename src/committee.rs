//! The committee view: stake-weighted membership and leader rotation.
use vstd::prelude::*;

verus! {

/// One member of a committee and its stake; keys are node identities.
#[derive(Clone, Copy, Debug, PartialEq, Eq, Structural)]
pub struct StakeEntry {
    pub key: u64,
    pub stake: u64,
}

/// Sum of all stakes.
pub open spec fn total_of(s: Seq<StakeEntry>) -> nat
    decreases s.len(),
{
    if s.len() == 0 {
        0
    } else {
        total_of(s.drop_last()) + s.last().stake as nat
    }
}

/// Stake held by `key` (the entries' keys are distinct in a well-formed committee).
pub open spec fn stake_in(s: Seq<StakeEntry>, key: u64) -> nat
    decreases s.len(),
{
    if s.len() == 0 {
        0
    } else {
        stake_in(s.drop_last(), key) + if s.last().key == key {
            s.last().stake as nat
        } else {
            0
        }
    }
}

/// Stake of the members whose key occurs among `signers`, each member counted once.
pub open spec fn signed_stake(s: Seq<StakeEntry>, signers: Seq<u64>) -> nat
    decreases s.len(),
{
    if s.len() == 0 {
        0
    } else {
        signed_stake(s.drop_last(), signers) + if signers.contains(s.last().key) {
            s.last().stake as nat
        } else {
            0
        }
    }
}

/// The stake that a certificate must gather: more than two thirds of the total.
pub open spec fn threshold_of(total: nat) -> nat {
    total * 2 / 3 + 1
}

/// No key occurs twice.
pub open spec fn keys_distinct(s: Seq<StakeEntry>) -> bool {
    forall|i: int, j: int| 0 <= i < j < s.len() ==> s[i].key != s[j].key
}

pub proof fn lemma_signed_le_total(s: Seq<StakeEntry>, signers: Seq<u64>)
    ensures
        signed_stake(s, signers) <= total_of(s),
    decreases s.len(),
{
    if s.len() > 0 {
        lemma_signed_le_total(s.drop_last(), signers);
    }
}

pub proof fn lemma_stake_le_total(s: Seq<StakeEntry>, key: u64)
    ensures
        stake_in(s, key) <= total_of(s),
    decreases s.len(),
{
    if s.len() > 0 {
        lemma_stake_le_total(s.drop_last(), key);
    }
}

/// No signers, no stake.
pub proof fn lemma_signed_none(s: Seq<StakeEntry>)
    ensures
        signed_stake(s, Seq::empty()) == 0,
    decreases s.len(),
{
    if s.len() > 0 {
        lemma_signed_none(s.drop_last());
    }
}

/// Adding a new signer that holds the stake of one entry adds exactly that stake.
pub proof fn lemma_signed_add(s: Seq<StakeEntry>, signers: Seq<u64>, key: u64)
    requires
        keys_distinct(s),
        !signers.contains(key),
    ensures
        signed_stake(s, signers.push(key)) == signed_stake(s, signers) + stake_in(s, key),
    decreases s.len(),
{
    if s.len() > 0 {
        let t = s.drop_last();
        assert(keys_distinct(t));
        lemma_signed_add(t, signers, key);
        assert(signers.push(key).contains(s.last().key) == (signers.contains(s.last().key)
            || s.last().key == key)) by {
            if s.last().key == key {
                assert(signers.push(key)[signers.len() as int] == key);
            }
            if signers.push(key).contains(s.last().key) {
                let i = choose|i: int| 0 <= i < signers.push(key).len() && signers.push(key)[i] == s.last().key;
                if i < signers.len() {
                    assert(signers[i] == s.last().key);
                }
            }
            if signers.contains(s.last().key) {
                let i = choose|i: int| 0 <= i < signers.len() && signers[i] == s.last().key;
                assert(signers.push(key)[i] == s.last().key);
            }
        }
    }
}

/// Stake of the members whose key occurs in both `a` and `b` and not in `byz`.
pub open spec fn shared_stake(s: Seq<StakeEntry>, a: Seq<u64>, b: Seq<u64>, byz: Seq<u64>) -> nat
    decreases s.len(),
{
    if s.len() == 0 {
        0
    } else {
        shared_stake(s.drop_last(), a, b, byz) + if a.contains(s.last().key) && b.contains(s.last().key)
            && !byz.contains(s.last().key) {
            s.last().stake as nat
        } else {
            0
        }
    }
}

proof fn lemma_shared_bound(s: Seq<StakeEntry>, a: Seq<u64>, b: Seq<u64>, byz: Seq<u64>)
    ensures
        signed_stake(s, a) + signed_stake(s, b) <= total_of(s) + signed_stake(s, byz) + shared_stake(s, a, b, byz),
    decreases s.len(),
{
    if s.len() > 0 {
        lemma_shared_bound(s.drop_last(), a, b, byz);
    }
}

proof fn lemma_shared_witness(s: Seq<StakeEntry>, a: Seq<u64>, b: Seq<u64>, byz: Seq<u64>)
    requires
        shared_stake(s, a, b, byz) > 0,
    ensures
        exists|i: int|
            0 <= i < s.len() && a.contains(#[trigger] s[i].key) && b.contains(s[i].key) && !byz.contains(s[i].key)
                && s[i].stake > 0,
    decreases s.len(),
{
    let t = s.drop_last();
    if shared_stake(t, a, b, byz) > 0 {
        lemma_shared_witness(t, a, b, byz);
        let i = choose|i: int|
            0 <= i < t.len() && a.contains(#[trigger] t[i].key) && b.contains(t[i].key) && !byz.contains(t[i].key)
                && t[i].stake > 0;
        assert(s[i] == t[i]);
    } else {
        assert(s[s.len() - 1] == s.last());
    }
}

/// Quorum intersection: where the members in `byz` hold less than a third of
/// the stake, two signer sets that each hold the certificate threshold share a
/// member outside `byz` with stake.
pub proof fn lemma_quorum_intersection(s: Seq<StakeEntry>, a: Seq<u64>, b: Seq<u64>, byz: Seq<u64>)
    requires
        signed_stake(s, a) >= threshold_of(total_of(s)),
        signed_stake(s, b) >= threshold_of(total_of(s)),
        3 * signed_stake(s, byz) < total_of(s),
    ensures
        exists|i: int|
            0 <= i < s.len() && a.contains(#[trigger] s[i].key) && b.contains(s[i].key) && !byz.contains(s[i].key)
                && s[i].stake > 0,
{
    let total = total_of(s);
    lemma_shared_bound(s, a, b, byz);
    assert((total * 2 / 3) * 3 + 3 > total * 2) by (nonlinear_arith);
    lemma_shared_witness(s, a, b, byz);
}

/// A static committee.
#[derive(Clone, Debug)]
pub struct Membership {
    pub members: Vec<StakeEntry>,
}

impl Membership {
    /// Non-empty, keys distinct, and the total stake fits in 64 bits.
    pub open spec fn wf(&self) -> bool {
        &&& self.members@.len() > 0
        &&& keys_distinct(self.members@)
        &&& total_of(self.members@) <= u64::MAX
    }

    pub open spec fn leader_spec(&self, view: u64) -> u64 {
        self.members@[(view % (self.members@.len() as u64)) as int].key
    }

    pub open spec fn stake_spec(&self, key: u64) -> nat {
        stake_in(self.members@, key)
    }

    pub open spec fn total_spec(&self) -> nat {
        total_of(self.members@)
    }

    pub open spec fn threshold_spec(&self) -> nat {
        threshold_of(self.total_spec())
    }

    /// A committee over the given entries; `None` where it is empty, a key
    /// repeats, or the total stake does not fit in 64 bits.
    pub fn new(members: Vec<StakeEntry>) -> (r: Option<Membership>)
        ensures
            r is Some <==> (members@.len() > 0 && keys_distinct(members@) && total_of(members@)
                <= u64::MAX),
            r matches Some(m) ==> m.members@ == members@ && m.wf(),
    {
        if members.len() == 0 {
            return None;
        }
        let mut i: usize = 0;
        let mut total: u64 = 0;
        while i < members.len()
            invariant
                i <= members@.len(),
                total == total_of(members@.subrange(0, i as int)),
                forall|a: int, b: int| 0 <= a < b < i ==> members@[a].key != members@[b].key,
            decreases members@.len() - i,
        {
            let e = members[i];
            let mut j: usize = 0;
            while j < i
                invariant
                    i < members@.len(),
                    j <= i,
                    e == members@[i as int],
                    forall|a: int| 0 <= a < j ==> members@[a].key != e.key,
                decreases i - j,
            {
                if members[j].key == e.key {
                    assert(!keys_distinct(members@));
                    return None;
                }
                j += 1;
            }
            assert(members@.subrange(0, i + 1).drop_last() =~= members@.subrange(0, i as int));
            if total > u64::MAX - e.stake {
                proof {
                    lemma_prefix_total_le(members@, i as int + 1);
                }
                return None;
            }
            total = total + e.stake;
            i += 1;
        }
        assert(members@.subrange(0, members@.len() as int) =~= members@);
        Some(Membership { members })
    }

    /// The leader of a view: members take turns in their order.
    pub fn get_leader(&self, view: u64) -> (r: u64)
        requires
            self.wf(),
        ensures
            r == self.leader_spec(view),
    {
        let n = self.members.len() as u64;
        self.members[(view % n) as usize].key
    }

    /// The stake that `key` holds.
    pub fn stake_of(&self, key: u64) -> (r: u64)
        requires
            self.wf(),
        ensures
            r == self.stake_spec(key),
    {
        let mut i: usize = 0;
        let mut acc: u64 = 0;
        while i < self.members.len()
            invariant
                self.wf(),
                i <= self.members@.len(),
                acc == stake_in(self.members@.subrange(0, i as int), key),
            decreases self.members@.len() - i,
        {
            let ghost pre = self.members@.subrange(0, i + 1);
            assert(pre.drop_last() =~= self.members@.subrange(0, i as int));
            proof {
                lemma_stake_le_total(pre, key);
                lemma_prefix_total_le(self.members@, i + 1);
            }
            if self.members[i].key == key {
                acc = acc + self.members[i].stake;
            }
            i += 1;
        }
        assert(self.members@.subrange(0, self.members@.len() as int) =~= self.members@);
        acc
    }

    /// Whether `key` is a member with nonzero stake.
    pub fn has_stake(&self, key: u64) -> (r: bool)
        requires
            self.wf(),
        ensures
            r == (self.stake_spec(key) > 0),
    {
        self.stake_of(key) > 0
    }

    /// The committee's total stake.
    pub fn total_stake(&self) -> (r: u64)
        requires
            self.wf(),
        ensures
            r == self.total_spec(),
    {
        let mut i: usize = 0;
        let mut acc: u64 = 0;
        while i < self.members.len()
            invariant
                self.wf(),
                i <= self.members@.len(),
                acc == total_of(self.members@.subrange(0, i as int)),
            decreases self.members@.len() - i,
        {
            assert(self.members@.subrange(0, i + 1).drop_last() =~= self.members@.subrange(0, i as int));
            proof {
                lemma_prefix_total_le(self.members@, i + 1);
            }
            acc = acc + self.members[i].stake;
            i += 1;
        }
        assert(self.members@.subrange(0, self.members@.len() as int) =~= self.members@);
        acc
    }

    /// The stake a certificate needs: `total * 2 / 3 + 1`.
    pub fn success_threshold(&self) -> (r: u64)
        requires
            self.wf(),
        ensures
            r == self.threshold_spec(),
    {
        let t = self.total_stake();
        let r = (t / 3) * 2 + ((t % 3) * 2) / 3 + 1;
        assert(r == t * 2 / 3 + 1) by (nonlinear_arith)
            requires
                r == (t / 3) * 2 + ((t % 3) * 2) / 3 + 1,
        ;
        r
    }

    /// The stake of the members named in `signers`, each counted once.
    pub fn signed_stake_of(&self, signers: &Vec<u64>) -> (r: u64)
        requires
            self.wf(),
        ensures
            r == signed_stake(self.members@, signers@),
    {
        let mut i: usize = 0;
        let mut acc: u64 = 0;
        while i < self.members.len()
            invariant
                self.wf(),
                i <= self.members@.len(),
                acc == signed_stake(self.members@.subrange(0, i as int), signers@),
            decreases self.members@.len() - i,
        {
            let ghost pre = self.members@.subrange(0, i + 1);
            assert(pre.drop_last() =~= self.members@.subrange(0, i as int));
            proof {
                lemma_signed_le_total(pre, signers@);
                lemma_prefix_total_le(self.members@, i + 1);
            }
            let k = self.members[i].key;
            if contains_key(signers, k) {
                acc = acc + self.members[i].stake;
            }
            i += 1;
        }
        assert(self.members@.subrange(0, self.members@.len() as int) =~= self.members@);
        acc
    }
}

/// A prefix's total is at most the whole total.
pub proof fn lemma_prefix_total_le(s: Seq<StakeEntry>, n: int)
    requires
        0 <= n <= s.len(),
    ensures
        total_of(s.subrange(0, n)) <= total_of(s),
    decreases s.len() - n,
{
    if n < s.len() {
        lemma_prefix_total_le(s, n + 1);
        assert(s.subrange(0, n + 1).drop_last() =~= s.subrange(0, n));
    } else {
        assert(s.subrange(0, n) =~= s);
    }
}

/// Whether `k` occurs in `v`.
pub fn contains_key(v: &Vec<u64>, k: u64) -> (r: bool)
    ensures
        r == v@.contains(k),
{
    let mut i: usize = 0;
    while i < v.len()
        invariant
            i <= v@.len(),
            forall|j: int| 0 <= j < i ==> v@[j] != k,
        decreases v@.len() - i,
    {
        if v[i] == k {
            assert(v@[i as int] == k);
            return true;
        }
        i += 1;
    }
    false
}

} // verus!
