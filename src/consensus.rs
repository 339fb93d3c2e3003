//! The consensus state: accepted views and leaves, saved payloads and DA
//! certificates, the high QC, the locked and decided views; ancestry walks,
//! the chain commit rule and garbage collection.
use crate::certificate::{DaCertificate, QuorumCertificate};
use crate::commitment::Commitment;
use crate::data::{Leaf, ValidatedState, ViewInner};
use vstd::prelude::*;

verus! {

/// A saved leaf under its commitment.
#[derive(Clone, Debug)]
pub struct SavedLeaf {
    pub commit: Commitment,
    pub leaf: Leaf,
}

/// Counters the consensus task keeps.
#[derive(Clone, Copy, Debug, PartialEq, Eq, Structural)]
pub struct ConsensusMetrics {
    pub current_view: u64,
    pub number_of_views_since_last_decide: u64,
    pub invalid_qc: u64,
    pub last_synced_block_height: u64,
    pub last_decided_time: i64,
    pub last_decided_view: u64,
    pub number_of_timeouts: u64,
}

impl ConsensusMetrics {
    pub fn new() -> (r: ConsensusMetrics)
        ensures
            r.invalid_qc == 0,
            r.number_of_timeouts == 0,
    {
        ConsensusMetrics {
            current_view: 0,
            number_of_views_since_last_decide: 0,
            invalid_qc: 0,
            last_synced_block_height: 0,
            last_decided_time: 0,
            last_decided_view: 0,
            number_of_timeouts: 0,
        }
    }
}

/// The authoritative record of one node. Each map is held as a list of
/// entries in which a later entry for a key replaces an earlier one.
#[derive(Clone, Debug)]
pub struct Consensus {
    pub validated_state_map: Vec<(u64, ViewInner)>,
    pub saved_leaves: Vec<SavedLeaf>,
    pub saved_payloads: Vec<(u64, Vec<u8>)>,
    pub saved_da_certs: Vec<DaCertificate>,
    pub high_qc: QuorumCertificate,
    pub locked_view: u64,
    pub last_decided_view: u64,
    pub metrics: ConsensusMetrics,
}

/// What the state map records for view `v`.
pub open spec fn view_lookup(s: Seq<(u64, ViewInner)>, v: u64) -> Option<ViewInner>
    decreases s.len(),
{
    if s.len() == 0 {
        None
    } else if s.last().0 == v {
        Some(s.last().1)
    } else {
        view_lookup(s.drop_last(), v)
    }
}

/// The leaf saved under commitment `c`.
pub open spec fn leaf_lookup(s: Seq<SavedLeaf>, c: Commitment) -> Option<Leaf>
    decreases s.len(),
{
    if s.len() == 0 {
        None
    } else if s.last().commit == c {
        Some(s.last().leaf)
    } else {
        leaf_lookup(s.drop_last(), c)
    }
}

/// The DA certificate saved for view `v`.
pub open spec fn da_lookup(s: Seq<DaCertificate>, v: u64) -> Option<DaCertificate>
    decreases s.len(),
{
    if s.len() == 0 {
        None
    } else if s.last().view == v {
        Some(s.last())
    } else {
        da_lookup(s.drop_last(), v)
    }
}

/// Whether a payload is saved for view `v`.
pub open spec fn has_payload(s: Seq<(u64, Vec<u8>)>, v: u64) -> bool {
    exists|i: int| 0 <= i < s.len() && s[i].0 == v
}

/// The commitment of the leaf accepted at view `v`, if any.
pub open spec fn state_leaf_commit(c: Consensus, v: u64) -> Option<Commitment> {
    match view_lookup(c.validated_state_map@, v) {
        Some(ViewInner::Leaf { leaf, .. }) => Some(leaf),
        _ => None,
    }
}

/// The leaf accepted at view `v`, if it is saved.
pub open spec fn leaf_at_view(c: Consensus, v: u64) -> Option<Leaf> {
    match state_leaf_commit(c, v) {
        Some(lc) => leaf_lookup(c.saved_leaves@, lc),
        None => None,
    }
}

/// The saved parent of a leaf, where it is saved and has a smaller view.
pub open spec fn parent_of(c: Consensus, l: Leaf) -> Option<Leaf> {
    match leaf_lookup(c.saved_leaves@, l.parent_commitment) {
        Some(p) => if p.view_number < l.view_number {
            Some(p)
        } else {
            None
        },
        None => None,
    }
}

/// Whether walking saved parents down from `l` meets a leaf at view `target`.
pub open spec fn reaches_view(c: Consensus, l: Leaf, target: u64) -> bool
    decreases l.view_number,
{
    if l.view_number == target {
        true
    } else if l.view_number < target {
        false
    } else {
        match parent_of(c, l) {
            Some(p) => reaches_view(c, p, target),
            None => false,
        }
    }
}

/// The views of `l` and of its saved ancestors above view `lo`, newest first.
pub open spec fn chain_views(c: Consensus, l: Leaf, lo: u64) -> Seq<u64>
    decreases l.view_number,
{
    match parent_of(c, l) {
        Some(p) => if p.view_number > lo {
            seq![l.view_number] + chain_views(c, p, lo)
        } else {
            seq![l.view_number]
        },
        None => seq![l.view_number],
    }
}

/// The commitments of the leaves that `chain_views` lists.
pub open spec fn chain_commits(c: Consensus, l: Leaf, commit: Commitment, lo: u64) -> Seq<Commitment>
    decreases l.view_number,
{
    match parent_of(c, l) {
        Some(p) => if p.view_number > lo {
            seq![commit] + chain_commits(c, p, l.parent_commitment, lo)
        } else {
            seq![commit]
        },
        None => seq![commit],
    }
}

/// A leaf proposed at view `v` on a justify QC at view `p` forms a two-chain:
/// `p + 1 == v`, the leaf at `p` and its parent are saved, each one view
/// below the next, above the decided view.
pub open spec fn two_chain(c: Consensus, v: u64, p: u64) -> bool {
    &&& p + 1 == v
    &&& leaf_at_view(c, p) matches Some(l1) && l1.view_number + 1 == v && l1.view_number > c.last_decided_view
    &&& parent_of(c, leaf_at_view(c, p)->Some_0) matches Some(l2) && l2.view_number + 1
        == leaf_at_view(c, p)->Some_0.view_number && l2.view_number > c.last_decided_view
}

/// The leaf two below the proposal in a two-chain.
pub open spec fn second_of(c: Consensus, p: u64) -> Leaf {
    parent_of(c, leaf_at_view(c, p)->Some_0)->Some_0
}

/// A three-chain: a two-chain whose lower leaf's parent is saved one view
/// below it, above the decided view. Its lowest leaf becomes the new anchor.
pub open spec fn three_chain(c: Consensus, v: u64, p: u64) -> bool {
    &&& two_chain(c, v, p)
    &&& parent_of(c, second_of(c, p)) matches Some(l3) && l3.view_number + 1 == second_of(
        c,
        p,
    ).view_number && l3.view_number > c.last_decided_view
}

/// The shape of a three-chain: a new leaf at view `v` justified by a QC for
/// `v - 1` decides the saved leaf at `v - 3` exactly when the saved leaves at
/// `v - 1`, `v - 2` and `v - 3` each have the next one down as parent, all
/// above the decided view.
pub proof fn lemma_three_chain_shape(c: Consensus, v: u64, p: u64)
    ensures
        three_chain(c, v, p) <==> {
            &&& p + 1 == v
            &&& leaf_at_view(c, p) matches Some(l1)
            &&& l1.view_number + 1 == v
            &&& leaf_lookup(c.saved_leaves@, l1.parent_commitment) matches Some(l2)
            &&& l2.view_number + 2 == v
            &&& leaf_lookup(c.saved_leaves@, l2.parent_commitment) matches Some(l3)
            &&& l3.view_number + 3 == v
            &&& l3.view_number > c.last_decided_view
        },
        three_chain(c, v, p) ==> anchor_of(c, p).view_number + 3 == v && second_of(c, p).view_number + 2 == v,
{
}

/// The new anchor of a three-chain.
pub open spec fn anchor_of(c: Consensus, p: u64) -> Leaf {
    parent_of(c, second_of(c, p))->Some_0
}

/// The decided chain of a three-chain: the anchor and its saved ancestors
/// above the old decided view.
pub open spec fn decided_views(c: Consensus, p: u64) -> Seq<u64> {
    chain_views(c, anchor_of(c, p), c.last_decided_view)
}

/// The commitments of the decided chain.
pub open spec fn decided_commits(c: Consensus, p: u64) -> Seq<Commitment> {
    chain_commits(c, anchor_of(c, p), second_of(c, p).parent_commitment, c.last_decided_view)
}

/// What the chain commit rule finds for a new leaf.
#[derive(Clone, Debug)]
pub struct CommitOutcome {
    /// The new locked view, where a two-chain formed.
    pub new_locked_view: Option<u64>,
    /// The QC of the new decided chain, where a three-chain formed.
    pub decide_qc: Option<QuorumCertificate>,
    /// The new anchor view, where a three-chain formed.
    pub new_anchor_view: Option<u64>,
    /// The decided leaves, newest first, with their commitments.
    pub decided: Vec<SavedLeaf>,
}

/// Removing the garbage between two anchors keeps a leaf iff its view is not
/// strictly between them or it is on the decided chain.
pub open spec fn keeps_leaf(e: SavedLeaf, lo: u64, hi: u64, decided: Seq<Commitment>) -> bool {
    !(lo < e.leaf.view_number && e.leaf.view_number < hi) || decided.contains(e.commit)
}

/// ... and keeps a payload iff its view is not strictly between them or it is
/// the view of a decided leaf.
pub open spec fn keeps_payload(v: u64, lo: u64, hi: u64, decided_views: Seq<u64>) -> bool {
    !(lo < v && v < hi) || decided_views.contains(v)
}

pub open spec fn kept_leaves(s: Seq<SavedLeaf>, lo: u64, hi: u64, decided: Seq<Commitment>) -> Seq<SavedLeaf>
    decreases s.len(),
{
    if s.len() == 0 {
        s
    } else if keeps_leaf(s.last(), lo, hi, decided) {
        kept_leaves(s.drop_last(), lo, hi, decided).push(s.last())
    } else {
        kept_leaves(s.drop_last(), lo, hi, decided)
    }
}

pub open spec fn kept_payloads(s: Seq<(u64, Vec<u8>)>, lo: u64, hi: u64, decided_views: Seq<u64>) -> Seq<(u64, Vec<u8>)>
    decreases s.len(),
{
    if s.len() == 0 {
        s
    } else if keeps_payload(s.last().0, lo, hi, decided_views) {
        kept_payloads(s.drop_last(), lo, hi, decided_views).push(s.last())
    } else {
        kept_payloads(s.drop_last(), lo, hi, decided_views)
    }
}

/// Garbage collection idempotence, for leaves: collecting twice keeps what
/// collecting once keeps.
pub proof fn lemma_kept_leaves_idempotent(s: Seq<SavedLeaf>, lo: u64, hi: u64, decided: Seq<Commitment>)
    ensures
        kept_leaves(kept_leaves(s, lo, hi, decided), lo, hi, decided) == kept_leaves(s, lo, hi, decided),
    decreases s.len(),
{
    if s.len() > 0 {
        lemma_kept_leaves_idempotent(s.drop_last(), lo, hi, decided);
        let k = kept_leaves(s.drop_last(), lo, hi, decided);
        if keeps_leaf(s.last(), lo, hi, decided) {
            assert(k.push(s.last()).drop_last() =~= k);
        }
    }
}

/// Garbage collection idempotence, for payloads.
pub proof fn lemma_kept_payloads_idempotent(s: Seq<(u64, Vec<u8>)>, lo: u64, hi: u64, decided_views: Seq<u64>)
    ensures
        kept_payloads(kept_payloads(s, lo, hi, decided_views), lo, hi, decided_views) == kept_payloads(
            s,
            lo,
            hi,
            decided_views,
        ),
    decreases s.len(),
{
    if s.len() > 0 {
        lemma_kept_payloads_idempotent(s.drop_last(), lo, hi, decided_views);
        let k = kept_payloads(s.drop_last(), lo, hi, decided_views);
        if keeps_payload(s.last().0, lo, hi, decided_views) {
            assert(k.push(s.last()).drop_last() =~= k);
        }
    }
}

/// `c1` is `c0` after collecting the garbage between two anchors.
pub open spec fn garbage_collected(
    c0: Consensus,
    c1: Consensus,
    old_anchor: u64,
    new_anchor: u64,
    decided_commits: Seq<Commitment>,
    decided_views: Seq<u64>,
) -> bool {
    &&& c1.saved_leaves@ == kept_leaves(c0.saved_leaves@, old_anchor, new_anchor, decided_commits)
    &&& c1.saved_payloads@ == kept_payloads(c0.saved_payloads@, old_anchor, new_anchor, decided_views)
    &&& c1.validated_state_map@ == kept_views(c0.validated_state_map@, old_anchor, new_anchor, decided_views)
    &&& c1.saved_da_certs@ == kept_da_certs(c0.saved_da_certs@, new_anchor)
    &&& c1.same_but_garbage(c0)
}

/// The state map keeps a view's entry iff the view is not strictly between
/// the anchors or it is a decided view.
pub open spec fn kept_views(s: Seq<(u64, ViewInner)>, lo: u64, hi: u64, decided_views: Seq<u64>) -> Seq<(u64, ViewInner)>
    decreases s.len(),
{
    if s.len() == 0 {
        s
    } else if keeps_payload(s.last().0, lo, hi, decided_views) {
        kept_views(s.drop_last(), lo, hi, decided_views).push(s.last())
    } else {
        kept_views(s.drop_last(), lo, hi, decided_views)
    }
}

/// DA certificates are kept from the new anchor's view on.
pub open spec fn kept_da_certs(s: Seq<DaCertificate>, hi: u64) -> Seq<DaCertificate>
    decreases s.len(),
{
    if s.len() == 0 {
        s
    } else if s.last().view >= hi {
        kept_da_certs(s.drop_last(), hi).push(s.last())
    } else {
        kept_da_certs(s.drop_last(), hi)
    }
}

pub proof fn lemma_kept_views_idempotent(s: Seq<(u64, ViewInner)>, lo: u64, hi: u64, dv: Seq<u64>)
    ensures
        kept_views(kept_views(s, lo, hi, dv), lo, hi, dv) == kept_views(s, lo, hi, dv),
    decreases s.len(),
{
    if s.len() > 0 {
        lemma_kept_views_idempotent(s.drop_last(), lo, hi, dv);
        let k = kept_views(s.drop_last(), lo, hi, dv);
        if keeps_payload(s.last().0, lo, hi, dv) {
            assert(k.push(s.last()).drop_last() =~= k);
        }
    }
}

pub proof fn lemma_kept_da_certs_idempotent(s: Seq<DaCertificate>, hi: u64)
    ensures
        kept_da_certs(kept_da_certs(s, hi), hi) == kept_da_certs(s, hi),
    decreases s.len(),
{
    if s.len() > 0 {
        lemma_kept_da_certs_idempotent(s.drop_last(), hi);
        let k = kept_da_certs(s.drop_last(), hi);
        if s.last().view >= hi {
            assert(k.push(s.last()).drop_last() =~= k);
        }
    }
}

/// A view whose entry is kept reads the same after collection.
pub proof fn lemma_kept_views_lookup(s: Seq<(u64, ViewInner)>, lo: u64, hi: u64, dv: Seq<u64>, w: u64)
    requires
        keeps_payload(w, lo, hi, dv),
    ensures
        view_lookup(kept_views(s, lo, hi, dv), w) == view_lookup(s, w),
    decreases s.len(),
{
    if s.len() > 0 {
        lemma_kept_views_lookup(s.drop_last(), lo, hi, dv, w);
        let k = kept_views(s.drop_last(), lo, hi, dv);
        if keeps_payload(s.last().0, lo, hi, dv) {
            assert(k.push(s.last()).drop_last() =~= k);
        }
    }
}

/// Collecting garbage twice with the same arguments leaves the state that
/// collecting once leaves.
pub proof fn lemma_collect_garbage_idempotent(
    c0: Consensus,
    c1: Consensus,
    c2: Consensus,
    old_anchor: u64,
    new_anchor: u64,
    decided_commits: Seq<Commitment>,
    decided_views: Seq<u64>,
)
    requires
        garbage_collected(c0, c1, old_anchor, new_anchor, decided_commits, decided_views),
        garbage_collected(c1, c2, old_anchor, new_anchor, decided_commits, decided_views),
    ensures
        c2.saved_leaves@ == c1.saved_leaves@,
        c2.saved_payloads@ == c1.saved_payloads@,
        c2.validated_state_map@ == c1.validated_state_map@,
        c2.saved_da_certs@ == c1.saved_da_certs@,
        c2.same_but_garbage(c1),
{
    lemma_kept_leaves_idempotent(c0.saved_leaves@, old_anchor, new_anchor, decided_commits);
    lemma_kept_payloads_idempotent(c0.saved_payloads@, old_anchor, new_anchor, decided_views);
    lemma_kept_views_idempotent(c0.validated_state_map@, old_anchor, new_anchor, decided_views);
    lemma_kept_da_certs_idempotent(c0.saved_da_certs@, new_anchor);
}

impl Consensus {
    /// The decided view never passes the locked view, and the high QC is at
    /// least at the locked view.
    pub open spec fn wf(&self) -> bool {
        &&& self.last_decided_view <= self.locked_view
        &&& self.locked_view <= self.high_qc.view
    }

    /// Everything but the saved leaves, payloads, state map and DA
    /// certificates is as in `o`.
    pub open spec fn same_but_garbage(&self, o: Consensus) -> bool {
        &&& self.high_qc == o.high_qc
        &&& self.locked_view == o.locked_view
        &&& self.last_decided_view == o.last_decided_view
        &&& self.metrics == o.metrics
    }

    /// The state a node starts from: the genesis leaf accepted at view 0.
    pub fn new(genesis: Leaf, genesis_commit: Commitment, high_qc: QuorumCertificate) -> (r: Consensus)
        requires
            high_qc.view == 0,
        ensures
            r.wf(),
            r.locked_view == 0,
            r.last_decided_view == 0,
            r.high_qc.same_as(high_qc),
            r.metrics.invalid_qc == 0,
            view_lookup(r.validated_state_map@, 0) == Some(
                ViewInner::Leaf { leaf: genesis_commit, state: ValidatedState { block_height: 0 } },
            ),
    {
        let mut validated_state_map: Vec<(u64, ViewInner)> = Vec::new();
        validated_state_map.push(
            (0, ViewInner::Leaf { leaf: genesis_commit, state: ValidatedState { block_height: 0 } }),
        );
        let mut saved_leaves: Vec<SavedLeaf> = Vec::new();
        saved_leaves.push(SavedLeaf { commit: genesis_commit, leaf: genesis });
        proof {
            assert(validated_state_map@.drop_last() =~= Seq::<(u64, ViewInner)>::empty());
        }
        Consensus {
            validated_state_map,
            saved_leaves,
            saved_payloads: Vec::new(),
            saved_da_certs: Vec::new(),
            high_qc,
            locked_view: 0,
            last_decided_view: 0,
            metrics: ConsensusMetrics::new(),
        }
    }

    /// The state at genesis: the genesis leaf accepted at view 0, the genesis
    /// certificate as high QC.
    pub fn genesis() -> (r: Consensus)
        ensures
            r.wf(),
            r.locked_view == 0,
            r.last_decided_view == 0,
            r.high_qc.view == 0,
            r.high_qc.is_genesis,
            r.metrics.invalid_qc == 0,
    {
        let genesis = Leaf::genesis();
        let gc = genesis.commit();
        let qc = crate::certificate::SimpleCertificate::genesis();
        Consensus::new(genesis, gc, qc)
    }

    /// What the state map records for view `v`.
    pub fn get_view(&self, v: u64) -> (r: Option<ViewInner>)
        ensures
            r == view_lookup(self.validated_state_map@, v),
    {
        let mut i: usize = 0;
        let mut found: Option<ViewInner> = None;
        while i < self.validated_state_map.len()
            invariant
                i <= self.validated_state_map@.len(),
                found == view_lookup(self.validated_state_map@.subrange(0, i as int), v),
            decreases self.validated_state_map@.len() - i,
        {
            assert(self.validated_state_map@.subrange(0, i + 1).drop_last()
                =~= self.validated_state_map@.subrange(0, i as int));
            if self.validated_state_map[i].0 == v {
                found = Some(self.validated_state_map[i].1);
            }
            i += 1;
        }
        assert(self.validated_state_map@.subrange(0, i as int) =~= self.validated_state_map@);
        found
    }

    /// The state of the leaf accepted at view `v`.
    pub fn get_state(&self, v: u64) -> (r: Option<ValidatedState>)
        ensures
            r == match view_lookup(self.validated_state_map@, v) {
                Some(ViewInner::Leaf { state, .. }) => Some(state),
                _ => None,
            },
    {
        match self.get_view(v) {
            Some(ViewInner::Leaf { state, .. }) => Some(state),
            _ => None,
        }
    }

    /// Records what view `v` holds.
    pub fn insert_view(&mut self, v: u64, inner: ViewInner)
        ensures
            final(self).validated_state_map@ == old(self).validated_state_map@.push((v, inner)),
            forall|w: u64|
                view_lookup(#[trigger] final(self).validated_state_map@, w) == if w == v {
                    Some(inner)
                } else {
                    view_lookup(old(self).validated_state_map@, w)
                },
            final(self).saved_leaves@ == old(self).saved_leaves@,
            final(self).saved_payloads@ == old(self).saved_payloads@,
            final(self).saved_da_certs@ == old(self).saved_da_certs@,
            final(self).high_qc == old(self).high_qc,
            final(self).locked_view == old(self).locked_view,
            final(self).last_decided_view == old(self).last_decided_view,
            final(self).metrics == old(self).metrics,
    {
        self.validated_state_map.push((v, inner));
        assert(self.validated_state_map@.drop_last() =~= old(self).validated_state_map@);
    }

    /// The index of the leaf saved under `c`.
    pub fn find_leaf(&self, c: Commitment) -> (r: Option<usize>)
        ensures
            r is None <==> leaf_lookup(self.saved_leaves@, c) is None,
            r matches Some(i) ==> i < self.saved_leaves@.len() && self.saved_leaves@[i as int].commit == c
                && leaf_lookup(self.saved_leaves@, c) == Some(self.saved_leaves@[i as int].leaf),
    {
        let mut i: usize = 0;
        let mut found: Option<usize> = None;
        while i < self.saved_leaves.len()
            invariant
                i <= self.saved_leaves@.len(),
                found is None <==> leaf_lookup(self.saved_leaves@.subrange(0, i as int), c) is None,
                found matches Some(j) ==> j < i && self.saved_leaves@[j as int].commit == c && leaf_lookup(
                    self.saved_leaves@.subrange(0, i as int),
                    c,
                ) == Some(self.saved_leaves@[j as int].leaf),
            decreases self.saved_leaves@.len() - i,
        {
            assert(self.saved_leaves@.subrange(0, i + 1).drop_last() =~= self.saved_leaves@.subrange(0, i as int));
            if self.saved_leaves[i].commit == c {
                found = Some(i);
            }
            i += 1;
        }
        assert(self.saved_leaves@.subrange(0, i as int) =~= self.saved_leaves@);
        found
    }

    /// Saves a leaf under its commitment.
    pub fn insert_leaf(&mut self, c: Commitment, leaf: Leaf)
        ensures
            final(self).saved_leaves@ == old(self).saved_leaves@.push(SavedLeaf { commit: c, leaf }),
            final(self).validated_state_map@ == old(self).validated_state_map@,
            final(self).saved_payloads@ == old(self).saved_payloads@,
            final(self).saved_da_certs@ == old(self).saved_da_certs@,
            final(self).high_qc == old(self).high_qc,
            final(self).locked_view == old(self).locked_view,
            final(self).last_decided_view == old(self).last_decided_view,
            final(self).metrics == old(self).metrics,
    {
        self.saved_leaves.push(SavedLeaf { commit: c, leaf });
    }

    /// The index of the last payload saved for view `v`.
    pub fn find_payload(&self, v: u64) -> (r: Option<usize>)
        ensures
            r is None <==> !has_payload(self.saved_payloads@, v),
            r matches Some(i) ==> i < self.saved_payloads@.len() && self.saved_payloads@[i as int].0 == v,
    {
        let mut i: usize = self.saved_payloads.len();
        while i > 0
            invariant
                i <= self.saved_payloads@.len(),
                forall|j: int| i <= j < self.saved_payloads@.len() ==> self.saved_payloads@[j].0 != v,
            decreases i,
        {
            i -= 1;
            if self.saved_payloads[i].0 == v {
                return Some(i);
            }
        }
        None
    }

    /// The index of the DA certificate saved for view `v` (the last one saved).
    pub fn find_da_cert(&self, v: u64) -> (r: Option<usize>)
        ensures
            r is None <==> da_lookup(self.saved_da_certs@, v) is None,
            r matches Some(i) ==> i < self.saved_da_certs@.len() && da_lookup(self.saved_da_certs@, v) == Some(
                self.saved_da_certs@[i as int],
            ),
    {
        let mut i: usize = 0;
        let mut found: Option<usize> = None;
        while i < self.saved_da_certs.len()
            invariant
                i <= self.saved_da_certs@.len(),
                found is None <==> da_lookup(self.saved_da_certs@.subrange(0, i as int), v) is None,
                found matches Some(j) ==> j < i && da_lookup(self.saved_da_certs@.subrange(0, i as int), v) == Some(
                    self.saved_da_certs@[j as int],
                ),
            decreases self.saved_da_certs@.len() - i,
        {
            assert(self.saved_da_certs@.subrange(0, i + 1).drop_last() =~= self.saved_da_certs@.subrange(0, i as int));
            if self.saved_da_certs[i].view == v {
                found = Some(i);
            }
            i += 1;
        }
        assert(self.saved_da_certs@.subrange(0, i as int) =~= self.saved_da_certs@);
        found
    }

    /// The saved parent of the leaf at index `i`, where it has a smaller view.
    fn find_parent(&self, i: usize) -> (r: Option<usize>)
        requires
            i < self.saved_leaves@.len(),
        ensures
            r is None <==> parent_of(*self, self.saved_leaves@[i as int].leaf) is None,
            r matches Some(j) ==> j < self.saved_leaves@.len() && parent_of(
                *self,
                self.saved_leaves@[i as int].leaf,
            ) == Some(self.saved_leaves@[j as int].leaf) && self.saved_leaves@[j as int].commit
                == self.saved_leaves@[i as int].leaf.parent_commitment,
    {
        match self.find_leaf(self.saved_leaves[i].leaf.parent_commitment) {
            Some(j) => if self.saved_leaves[j].leaf.view_number < self.saved_leaves[i].leaf.view_number {
                Some(j)
            } else {
                None
            },
            None => None,
        }
    }

    /// The index of the leaf accepted at view `v`.
    pub fn find_leaf_at_view(&self, v: u64) -> (r: Option<usize>)
        ensures
            r is None <==> leaf_at_view(*self, v) is None,
            r matches Some(i) ==> i < self.saved_leaves@.len() && leaf_at_view(*self, v) == Some(
                self.saved_leaves@[i as int].leaf,
            ) && state_leaf_commit(*self, v) == Some(self.saved_leaves@[i as int].commit),
    {
        match self.get_view(v) {
            Some(ViewInner::Leaf { leaf, .. }) => self.find_leaf(leaf),
            _ => None,
        }
    }

    /// The safety check: whether the leaf accepted at `start` extends from the
    /// locked leaf, walking saved parents down to the locked view.
    pub fn extends_locked(&self, start: u64) -> (r: bool)
        ensures
            r == match leaf_at_view(*self, start) {
                Some(l) => reaches_view(*self, l, self.locked_view),
                None => false,
            },
    {
        let mut cur = match self.find_leaf_at_view(start) {
            Some(i) => i,
            None => return false,
        };
        let target = self.locked_view;
        loop
            invariant
                cur < self.saved_leaves@.len(),
                target == self.locked_view,
                match leaf_at_view(*self, start) {
                    Some(l) => reaches_view(*self, l, target),
                    None => false,
                } == reaches_view(*self, self.saved_leaves@[cur as int].leaf, target),
            decreases self.saved_leaves@[cur as int].leaf.view_number,
        {
            let v = self.saved_leaves[cur].leaf.view_number;
            if v == target {
                return true;
            }
            if v < target {
                return false;
            }
            match self.find_parent(cur) {
                Some(j) => {
                    cur = j;
                },
                None => return false,
            }
        }
    }
}


/// The views of a list of saved leaves.
pub open spec fn views_of(s: Seq<SavedLeaf>) -> Seq<u64> {
    s.map_values(|e: SavedLeaf| e.leaf.view_number)
}

/// The commitments of a list of saved leaves.
pub open spec fn commits_of(s: Seq<SavedLeaf>) -> Seq<Commitment> {
    s.map_values(|e: SavedLeaf| e.commit)
}

/// A chain's views start at its leaf, fall strictly, and stay above `lo`
/// below the first.
pub proof fn lemma_chain_views_falling(c: Consensus, l: Leaf, lo: u64)
    ensures
        chain_views(c, l, lo).len() >= 1,
        chain_views(c, l, lo)[0] == l.view_number,
        forall|i: int, j: int|
            0 <= i < j < chain_views(c, l, lo).len() ==> chain_views(c, l, lo)[i] > chain_views(c, l, lo)[j],
        forall|i: int| 1 <= i < chain_views(c, l, lo).len() ==> chain_views(c, l, lo)[i] > lo,
    decreases l.view_number,
{
    match parent_of(c, l) {
        Some(p) => {
            if p.view_number > lo {
                lemma_chain_views_falling(c, p, lo);
                let t = chain_views(c, p, lo);
                assert forall|i: int, j: int|
                    0 <= i < j < chain_views(c, l, lo).len() implies chain_views(c, l, lo)[i] > chain_views(
                    c,
                    l,
                    lo,
                )[j] by {
                    if i > 0 {
                        assert(t[i - 1] > t[j - 1]);
                    } else {
                        assert(t[0] >= t[j - 1]);
                    }
                }
            }
        },
        None => {},
    }
}

/// Whether `c` is among `v`.
pub fn contains_commitment(v: &Vec<Commitment>, c: Commitment) -> (r: bool)
    ensures
        r == v@.contains(c),
{
    let mut i: usize = 0;
    while i < v.len()
        invariant
            i <= v@.len(),
            forall|j: int| 0 <= j < i ==> v@[j] != c,
        decreases v@.len() - i,
    {
        if v[i] == c {
            assert(v@[i as int] == c);
            return true;
        }
        i += 1;
    }
    false
}

/// Whether `x` is among `v`.
pub fn contains_view(v: &Vec<u64>, x: u64) -> (r: bool)
    ensures
        r == v@.contains(x),
{
    crate::committee::contains_key(v, x)
}

impl Consensus {
    /// The chain commit rule for a leaf proposed at view `v` on a justify QC at
    /// view `p`: a two-chain locks the lower leaf's view; a three-chain decides
    /// its lowest leaf and every saved ancestor above the old decided view.
    pub fn commit_rule(&self, v: u64, p: u64) -> (r: CommitOutcome)
        ensures
            r.new_locked_view is Some <==> two_chain(*self, v, p),
            r.new_locked_view matches Some(x) ==> x == second_of(*self, p).view_number,
            r.new_anchor_view is Some <==> three_chain(*self, v, p),
            r.decide_qc is Some <==> three_chain(*self, v, p),
            r.new_anchor_view matches Some(a) ==> a == anchor_of(*self, p).view_number,
            r.decide_qc matches Some(q) ==> q.same_as(second_of(*self, p).justify_qc),
            three_chain(*self, v, p) ==> views_of(r.decided@) == decided_views(*self, p),
            three_chain(*self, v, p) ==> commits_of(r.decided@) == decided_commits(*self, p),
            !three_chain(*self, v, p) ==> r.decided@.len() == 0,
    {
        let none = CommitOutcome { new_locked_view: None, decide_qc: None, new_anchor_view: None, decided: Vec::new() };
        if !(p < v && v - p == 1) {
            return none;
        }
        let lo = self.last_decided_view;
        let i1 = match self.find_leaf_at_view(p) {
            Some(i) => i,
            None => return none,
        };
        let w1 = self.saved_leaves[i1].leaf.view_number;
        if !(w1 < v && v - w1 == 1 && w1 > lo) {
            return none;
        }
        let i2 = match self.find_parent(i1) {
            Some(i) => i,
            None => return none,
        };
        let w2 = self.saved_leaves[i2].leaf.view_number;
        if !(w2 + 1 == w1 && w2 > lo) {
            return none;
        }
        let locked = Some(w2);
        let i3 = match self.find_parent(i2) {
            Some(i) => i,
            None => return CommitOutcome { new_locked_view: locked, decide_qc: None, new_anchor_view: None, decided: Vec::new() },
        };
        let w3 = self.saved_leaves[i3].leaf.view_number;
        if !(w3 + 1 == w2 && w3 > lo) {
            return CommitOutcome { new_locked_view: locked, decide_qc: None, new_anchor_view: None, decided: Vec::new() };
        }
        let qc = self.saved_leaves[i2].leaf.justify_qc.copy_of();
        let mut decided: Vec<SavedLeaf> = Vec::new();
        let mut cur = i3;
        let ghost target = decided_views(*self, p);
        let ghost target_c = decided_commits(*self, p);
        assert(views_of(decided@) =~= Seq::<u64>::empty());
        assert(commits_of(decided@) =~= Seq::<Commitment>::empty());
        loop
            invariant_except_break
                views_of(decided@) + chain_views(*self, self.saved_leaves@[cur as int].leaf, lo) == target,
                commits_of(decided@) + chain_commits(
                    *self,
                    self.saved_leaves@[cur as int].leaf,
                    self.saved_leaves@[cur as int].commit,
                    lo,
                ) == target_c,
            invariant
                cur < self.saved_leaves@.len(),
                lo == self.last_decided_view,
                target == decided_views(*self, p),
                target_c == decided_commits(*self, p),
            ensures
                views_of(decided@) == target,
                commits_of(decided@) == target_c,
            decreases self.saved_leaves@[cur as int].leaf.view_number,
        {
            let e = SavedLeaf { commit: self.saved_leaves[cur].commit, leaf: self.saved_leaves[cur].leaf.copy_of() };
            let ghost before = decided@;
            decided.push(e);
            assert(views_of(decided@) =~= views_of(before).push(self.saved_leaves@[cur as int].leaf.view_number));
            assert(commits_of(decided@) =~= commits_of(before).push(self.saved_leaves@[cur as int].commit));
            let ghost here = self.saved_leaves@[cur as int];
            match self.find_parent(cur) {
                Some(j) => {
                    if self.saved_leaves[j].leaf.view_number > lo {
                        assert(views_of(decided@) + chain_views(*self, self.saved_leaves@[j as int].leaf, lo)
                            =~= views_of(before) + chain_views(*self, here.leaf, lo));
                        assert(commits_of(decided@) + chain_commits(*self, self.saved_leaves@[j as int].leaf, self.saved_leaves@[j as int].commit, lo)
                            =~= commits_of(before) + chain_commits(*self, here.leaf, here.commit, lo));
                        cur = j;
                    } else {
                        assert(views_of(decided@) =~= views_of(before) + chain_views(*self, here.leaf, lo));
                        assert(commits_of(decided@) =~= commits_of(before) + chain_commits(*self, here.leaf, here.commit, lo));
                        break;
                    }
                },
                None => {
                    assert(views_of(decided@) =~= views_of(before) + chain_views(*self, here.leaf, lo));
                    assert(commits_of(decided@) =~= commits_of(before) + chain_commits(*self, here.leaf, here.commit, lo));
                    break;
                },
            }
        }
        CommitOutcome { new_locked_view: locked, decide_qc: Some(qc), new_anchor_view: Some(w3), decided }
    }

    /// Removes the leaves and payloads strictly between the two anchors that
    /// are not on the decided chain; everything else stays as it is.
    pub fn collect_garbage(&mut self, old_anchor: u64, new_anchor: u64, decided_commits: &Vec<Commitment>, decided_views: &Vec<u64>)
        ensures
            garbage_collected(*old(self), *final(self), old_anchor, new_anchor, decided_commits@, decided_views@),
    {
        let ghost s0 = self.saved_leaves@;
        let n = self.saved_leaves.len();
        let mut j: usize = 0;
        let mut pos: usize = 0;
        while j < n
            invariant
                n == s0.len(),
                j <= n,
                pos == kept_leaves(s0.subrange(0, j as int), old_anchor, new_anchor, decided_commits@).len(),
                self.saved_leaves@ == kept_leaves(s0.subrange(0, j as int), old_anchor, new_anchor, decided_commits@)
                    + s0.subrange(j as int, n as int),
                self.same_but_garbage(*old(self)),
                self.saved_payloads@ == old(self).saved_payloads@,
                self.validated_state_map@ == old(self).validated_state_map@,
                self.saved_da_certs@ == old(self).saved_da_certs@,
            decreases n - j,
        {
            assert(s0.subrange(0, j + 1).drop_last() =~= s0.subrange(0, j as int));
            let ghost k = kept_leaves(s0.subrange(0, j as int), old_anchor, new_anchor, decided_commits@);
            let cur_len = self.saved_leaves.len();
            assert(pos < cur_len);
            assert(self.saved_leaves@[pos as int] == s0[j as int]);
            let v = self.saved_leaves[pos].leaf.view_number;
            let c = self.saved_leaves[pos].commit;
            if !(old_anchor < v && v < new_anchor) || contains_commitment(decided_commits, c) {
                assert(k.push(s0[j as int]) + s0.subrange(j + 1, n as int) =~= k + s0.subrange(j as int, n as int));
                pos += 1;
            } else {
                self.saved_leaves.remove(pos);
                assert(self.saved_leaves@ =~= k + s0.subrange(j + 1, n as int));
            }
            j += 1;
        }
        assert(s0.subrange(0, n as int) =~= s0);
        assert(self.saved_leaves@ =~= kept_leaves(s0, old_anchor, new_anchor, decided_commits@));
        let ghost t0 = self.saved_payloads@;
        let m = self.saved_payloads.len();
        let mut j: usize = 0;
        let mut pos: usize = 0;
        while j < m
            invariant
                m == t0.len(),
                j <= m,
                pos == kept_payloads(t0.subrange(0, j as int), old_anchor, new_anchor, decided_views@).len(),
                self.saved_payloads@ == kept_payloads(t0.subrange(0, j as int), old_anchor, new_anchor, decided_views@)
                    + t0.subrange(j as int, m as int),
                self.same_but_garbage(*old(self)),
                self.saved_leaves@ == kept_leaves(s0, old_anchor, new_anchor, decided_commits@),
                self.validated_state_map@ == old(self).validated_state_map@,
                self.saved_da_certs@ == old(self).saved_da_certs@,
            decreases m - j,
        {
            assert(t0.subrange(0, j + 1).drop_last() =~= t0.subrange(0, j as int));
            let ghost k = kept_payloads(t0.subrange(0, j as int), old_anchor, new_anchor, decided_views@);
            let cur_len = self.saved_payloads.len();
            assert(pos < cur_len);
            assert(self.saved_payloads@[pos as int] == t0[j as int]);
            let v = self.saved_payloads[pos].0;
            if !(old_anchor < v && v < new_anchor) || contains_view(decided_views, v) {
                assert(k.push(t0[j as int]) + t0.subrange(j + 1, m as int) =~= k + t0.subrange(j as int, m as int));
                pos += 1;
            } else {
                self.saved_payloads.remove(pos);
                assert(self.saved_payloads@ =~= k + t0.subrange(j + 1, m as int));
            }
            j += 1;
        }
        assert(t0.subrange(0, m as int) =~= t0);
        assert(self.saved_payloads@ =~= kept_payloads(t0, old_anchor, new_anchor, decided_views@));
        let ghost u0 = self.validated_state_map@;
        let m = self.validated_state_map.len();
        let mut j: usize = 0;
        let mut pos: usize = 0;
        while j < m
            invariant
                m == u0.len(),
                j <= m,
                pos == kept_views(u0.subrange(0, j as int), old_anchor, new_anchor, decided_views@).len(),
                self.validated_state_map@ == kept_views(u0.subrange(0, j as int), old_anchor, new_anchor, decided_views@)
                    + u0.subrange(j as int, m as int),
                self.same_but_garbage(*old(self)),
                self.saved_leaves@ == kept_leaves(s0, old_anchor, new_anchor, decided_commits@),
                self.saved_payloads@ == kept_payloads(t0, old_anchor, new_anchor, decided_views@),
                self.saved_da_certs@ == old(self).saved_da_certs@,
                u0 == old(self).validated_state_map@,
            decreases m - j,
        {
            assert(u0.subrange(0, j + 1).drop_last() =~= u0.subrange(0, j as int));
            let ghost k = kept_views(u0.subrange(0, j as int), old_anchor, new_anchor, decided_views@);
            let cur_len = self.validated_state_map.len();
            assert(pos < cur_len);
            assert(self.validated_state_map@[pos as int] == u0[j as int]);
            let v = self.validated_state_map[pos].0;
            if !(old_anchor < v && v < new_anchor) || contains_view(decided_views, v) {
                assert(k.push(u0[j as int]) + u0.subrange(j + 1, m as int) =~= k + u0.subrange(j as int, m as int));
                pos += 1;
            } else {
                self.validated_state_map.remove(pos);
                assert(self.validated_state_map@ =~= k + u0.subrange(j + 1, m as int));
            }
            j += 1;
        }
        assert(u0.subrange(0, m as int) =~= u0);
        assert(self.validated_state_map@ =~= kept_views(u0, old_anchor, new_anchor, decided_views@));
        let ghost d0 = self.saved_da_certs@;
        let m = self.saved_da_certs.len();
        let mut j: usize = 0;
        let mut pos: usize = 0;
        while j < m
            invariant
                m == d0.len(),
                j <= m,
                pos == kept_da_certs(d0.subrange(0, j as int), new_anchor).len(),
                self.saved_da_certs@ == kept_da_certs(d0.subrange(0, j as int), new_anchor) + d0.subrange(j as int, m as int),
                self.same_but_garbage(*old(self)),
                self.saved_leaves@ == kept_leaves(s0, old_anchor, new_anchor, decided_commits@),
                self.saved_payloads@ == kept_payloads(t0, old_anchor, new_anchor, decided_views@),
                self.validated_state_map@ == kept_views(u0, old_anchor, new_anchor, decided_views@),
                d0 == old(self).saved_da_certs@,
            decreases m - j,
        {
            assert(d0.subrange(0, j + 1).drop_last() =~= d0.subrange(0, j as int));
            let ghost k = kept_da_certs(d0.subrange(0, j as int), new_anchor);
            let cur_len = self.saved_da_certs.len();
            assert(pos < cur_len);
            assert(self.saved_da_certs@[pos as int] == d0[j as int]);
            if self.saved_da_certs[pos].view >= new_anchor {
                assert(k.push(d0[j as int]) + d0.subrange(j + 1, m as int) =~= k + d0.subrange(j as int, m as int));
                pos += 1;
            } else {
                self.saved_da_certs.remove(pos);
                assert(self.saved_da_certs@ =~= k + d0.subrange(j + 1, m as int));
            }
            j += 1;
        }
        assert(d0.subrange(0, m as int) =~= d0);
        assert(self.saved_da_certs@ =~= kept_da_certs(d0, new_anchor));
    }
}

} // verus!
