//! The per-node consensus task: a state machine from events to outputs. The
//! caller runs the loop: it hands each event to `handle` and performs the
//! outputs (broadcasts, network polling directives, timers, storage).
use crate::accumulator::VoteAccumulator;
use crate::certificate::{
    create_signed_vote, sign, timeout_data, validate_signature, DaCertificate, QuorumCertificate, SimpleCertificate,
    SimpleVote, TimeoutCertificate, UpgradeCertificate, Version, VoteKind,
};
use crate::commitment::Commitment;
use crate::committee::Membership;
use crate::consensus::{da_lookup, leaf_lookup, Consensus};
use crate::data::{BlockHeader, Leaf, Proposal, QuorumProposal, VidShare};
use vstd::prelude::*;

verus! {

/// How far ahead of the current view this node polls the future leader.
pub const LOOK_AHEAD: u64 = 5;

/// Views above this bound are refused, so that view arithmetic cannot wrap.
pub const MAX_VIEW: u64 = 0xffff_ffff_ffff_0000;

/// Error returned by the consensus task.
#[derive(Clone, Copy, Debug, PartialEq, Eq, Structural)]
pub struct ConsensusTaskError {}

/// The verdict on a received proposal before anything is changed.
#[derive(Clone, Copy, Debug, PartialEq, Eq, Structural)]
pub enum ProposalCheck {
    Valid,
    Stale,
    Malformed,
    WrongLeader,
    InvalidTimeoutCert,
    InvalidQc,
    InvalidUpgradeCert,
}

/// A staged payload commitment with its metadata.
#[derive(Clone, Copy, Debug, PartialEq, Eq, Structural)]
pub struct CommitmentAndMetadata {
    pub commitment: Commitment,
    pub metadata: u64,
    pub is_genesis: bool,
}

/// A certificate formed by an accumulator.
#[derive(Clone, Debug)]
pub enum CertFormed {
    Quorum(QuorumCertificate),
    Timeout(TimeoutCertificate),
}

/// An event the task consumes.
#[derive(Clone, Debug)]
pub enum ConsensusEvent {
    QuorumProposalRecv(Proposal, u64),
    QuorumVoteRecv(SimpleVote),
    TimeoutVoteRecv(SimpleVote),
    QcFormed(CertFormed),
    UpgradeCertificateFormed(UpgradeCertificate),
    DacRecv(DaCertificate),
    VidDisperseRecv(VidShare, u64),
    ViewChange(u64),
    Timeout(u64),
    SendPayloadCommitmentAndMetadata(Commitment, u64, u64),
    Shutdown,
}

/// A polling directive for a network collaborator.
#[derive(Clone, Copy, Debug, PartialEq, Eq, Structural)]
pub enum ConsensusIntent {
    PollForProposal(u64),
    PollForDac(u64),
    PollForVidDisperse(u64),
    PollForVotes(u64),
    PollFutureLeader(u64, u64),
    CancelPollForProposal(u64),
    CancelPollForDac(u64),
    CancelPollForVidDisperse(u64),
    CancelPollForVotes(u64),
}

/// What the task asks its runner to do, in order.
#[derive(Clone, Debug)]
pub enum ConsensusOutput {
    /// Broadcast this node's quorum vote.
    QuorumVoteSend(SimpleVote),
    /// Broadcast this node's timeout vote.
    TimeoutVoteSend(SimpleVote),
    /// Broadcast this node's proposal, with its key.
    QuorumProposalSend(Proposal, u64),
    /// Announce decided leaves on the bus.
    LeafDecided(Vec<Leaf>),
    /// Announce a view change on the bus.
    ViewChange(u64),
    /// Announce a certificate formed by an accumulator on the bus.
    QcFormed(CertFormed),
    /// A directive for the quorum network.
    QuorumIntent(ConsensusIntent),
    /// A directive for the DA committee network.
    CommitteeIntent(ConsensusIntent),
    /// Cancel the armed view timer.
    CancelTimeout,
    /// Arm a timer that delivers `Timeout(view)` after `after_ms`.
    ArmTimeout { view: u64, after_ms: u64 },
    /// Application event: a decided chain, newest first, each leaf with its
    /// payload and VID share where they were received; `block_size` counts
    /// the decided leaves whose payload was available.
    Decide { leaf_chain: Vec<(Leaf, Option<VidShare>)>, qc: QuorumCertificate, block_size: Option<u64> },
    /// Application event: a proposal was accepted.
    QuorumProposal { proposal: Proposal, sender: u64 },
    /// Application event: a view finished.
    ViewFinished(u64),
    /// Application event: this replica timed out on a view.
    ReplicaViewTimeout(u64),
    /// Application event: the ancestry of a proposal at this view is missing.
    Error(u64),
    /// Store the new anchor leaf (a failure there is not fatal).
    StoreLeaf { view: u64, leaf: Leaf },
}

/// Whether the task ignores an event: it consumes every kind of event it
/// defines (proposals, votes, formed certificates, upgrade certificates, DA
/// certificates, VID shares, view changes, timeouts, staged payloads and
/// shutdown), so none is filtered out.
pub fn filter(event: &ConsensusEvent) -> (r: bool)
    ensures
        r == false,
{
    false
}

/// Whether an event ends the task.
pub fn should_shutdown(event: &ConsensusEvent) -> (r: bool)
    ensures
        r == (event is Shutdown),
{
    match event {
        ConsensusEvent::Shutdown => true,
        _ => false,
    }
}

/// The view of a vote of `kind` that an output carries.
pub open spec fn vote_of(o: ConsensusOutput, kind: VoteKind) -> Option<u64> {
    match o {
        ConsensusOutput::QuorumVoteSend(v) => if kind == VoteKind::Quorum {
            Some(v.view)
        } else {
            None
        },
        ConsensusOutput::TimeoutVoteSend(v) => if kind == VoteKind::Timeout {
            Some(v.view)
        } else {
            None
        },
        _ => None,
    }
}

/// The votes of `kind` in an output log come in strictly increasing views,
/// none above `hi`.
pub open spec fn votes_increasing(s: Seq<ConsensusOutput>, kind: VoteKind, hi: u64) -> bool {
    &&& forall|i: int| 0 <= i < s.len() && #[trigger] vote_of(s[i], kind) is Some ==> vote_of(s[i], kind)->0 <= hi
    &&& forall|i: int, j: int|
        0 <= i < j < s.len() && #[trigger] vote_of(s[i], kind) is Some && #[trigger] vote_of(s[j], kind) is Some
            ==> vote_of(s[i], kind)->0 < vote_of(s[j], kind)->0
}

/// A node whose output log keeps its votes in increasing views never signs two
/// votes of one kind for the same view.
pub proof fn lemma_no_equivocation(s: Seq<ConsensusOutput>, kind: VoteKind, hi: u64, i: int, j: int)
    requires
        votes_increasing(s, kind, hi),
        0 <= i < s.len(),
        0 <= j < s.len(),
        i != j,
        vote_of(s[i], kind) is Some,
        vote_of(s[j], kind) is Some,
    ensures
        vote_of(s[i], kind)->0 != vote_of(s[j], kind)->0,
{
    if i < j {
        assert(vote_of(s[i], kind)->0 < vote_of(s[j], kind)->0);
    } else {
        assert(vote_of(s[j], kind)->0 < vote_of(s[i], kind)->0);
    }
}

/// A decided chain's views fall strictly and lie in `(lo, hi]`.
pub open spec fn chain_ok(chain: Seq<(Leaf, Option<VidShare>)>, lo: u64, hi: u64) -> bool {
    &&& forall|i: int, j: int|
        0 <= i < j < chain.len() ==> #[trigger] chain[i].0.view_number > #[trigger] chain[j].0.view_number
    &&& forall|i: int| 0 <= i < chain.len() ==> lo < #[trigger] chain[i].0.view_number <= hi
}

/// A `Decide` output announces a chain within `(lo, hi]`.
pub open spec fn decide_ok(o: ConsensusOutput, lo: u64, hi: u64) -> bool {
    match o {
        ConsensusOutput::Decide { leaf_chain, .. } => chain_ok(leaf_chain@, lo, hi),
        _ => true,
    }
}

/// Every `Decide` from position `from` on is within `(lo, hi]`.
pub open spec fn decides_ok(s: Seq<ConsensusOutput>, from: int, lo: u64, hi: u64) -> bool {
    forall|i: int| 0 <= i && from <= i < s.len() ==> #[trigger] decide_ok(s[i], lo, hi)
}

/// Decisions of successive steps never repeat a view: a step that decides
/// within `(a, b]` and a later one within `(b, c]` share no decided view.
pub proof fn lemma_decided_views_distinct(o1: ConsensusOutput, o2: ConsensusOutput, a: u64, b: u64, c: u64, i: int, j: int)
    requires
        decide_ok(o1, a, b),
        decide_ok(o2, b, c),
        o1 matches ConsensusOutput::Decide { leaf_chain, .. } && 0 <= i < leaf_chain@.len(),
        o2 matches ConsensusOutput::Decide { leaf_chain, .. } && 0 <= j < leaf_chain@.len(),
    ensures
        o1->Decide_leaf_chain@[i].0.view_number != o2->Decide_leaf_chain@[j].0.view_number,
{
}

/// Appends an output that carries no vote.
fn emit(out: &mut Vec<ConsensusOutput>, o: ConsensusOutput)
    requires
        vote_of(o, VoteKind::Quorum) is None,
        vote_of(o, VoteKind::Timeout) is None,
        forall|lo: u64, hi: u64| #[trigger] decide_ok(o, lo, hi),
    ensures
        final(out)@ == old(out)@.push(o),
        extends(old(out)@, final(out)@),
        forall|from: int, lo: u64, hi: u64|
            decides_ok(old(out)@, from, lo, hi) ==> #[trigger] decides_ok(final(out)@, from, lo, hi),
        forall|k: VoteKind, hi: u64|
            votes_increasing(old(out)@, k, hi) ==> #[trigger] votes_increasing(final(out)@, k, hi),
{
    out.push(o);
    assert forall|from: int, lo: u64, hi: u64| decides_ok(old(out)@, from, lo, hi) implies #[trigger] decides_ok(
        final(out)@,
        from,
        lo,
        hi,
    ) by {
        assert forall|i: int| 0 <= i && from <= i < final(out)@.len() implies #[trigger] decide_ok(final(out)@[i], lo, hi) by {
            if i < old(out)@.len() {
                assert(final(out)@[i] == old(out)@[i]);
            }
        }
    }
    assert forall|k: VoteKind, hi: u64| votes_increasing(old(out)@, k, hi) implies #[trigger] votes_increasing(
        final(out)@,
        k,
        hi,
    ) by {
        assert(vote_of(o, k) is None);
        assert forall|i: int| 0 <= i < final(out)@.len() && #[trigger] vote_of(final(out)@[i], k) is Some implies vote_of(
            final(out)@[i],
            k,
        )->0 <= hi by {
            assert(i < old(out)@.len());
            assert(final(out)@[i] == old(out)@[i]);
        }
        assert forall|i: int, j: int|
            0 <= i < j < final(out)@.len() && #[trigger] vote_of(final(out)@[i], k) is Some && #[trigger] vote_of(
                final(out)@[j],
                k,
            ) is Some implies vote_of(final(out)@[i], k)->0 < vote_of(final(out)@[j], k)->0 by {
            assert(j < old(out)@.len());
            assert(final(out)@[i] == old(out)@[i]);
            assert(final(out)@[j] == old(out)@[j]);
        }
    }
}

/// Appends a vote of `kind` for a view above every earlier vote of its kind.
fn emit_vote(out: &mut Vec<ConsensusOutput>, o: ConsensusOutput, kind: VoteKind, last: u64)
    requires
        vote_of(o, kind) matches Some(v) && v > last,
        forall|k: VoteKind| k != kind ==> vote_of(o, k) is None,
        votes_increasing(old(out)@, kind, last),
    ensures
        final(out)@ == old(out)@.push(o),
        extends(old(out)@, final(out)@),
        votes_increasing(final(out)@, kind, vote_of(o, kind)->0),
        forall|from: int, lo: u64, hi: u64|
            decides_ok(old(out)@, from, lo, hi) ==> #[trigger] decides_ok(final(out)@, from, lo, hi),
        forall|k: VoteKind, hi: u64|
            k != kind && votes_increasing(old(out)@, k, hi) ==> #[trigger] votes_increasing(final(out)@, k, hi),
{
    out.push(o);
    assert forall|from: int, lo: u64, hi: u64| decides_ok(old(out)@, from, lo, hi) implies #[trigger] decides_ok(
        final(out)@,
        from,
        lo,
        hi,
    ) by {
        assert forall|i: int| 0 <= i && from <= i < final(out)@.len() implies #[trigger] decide_ok(final(out)@[i], lo, hi) by {
            if i < old(out)@.len() {
                assert(final(out)@[i] == old(out)@[i]);
            }
        }
    }
    let ghost v = vote_of(o, kind)->0;
    assert forall|i: int| 0 <= i < final(out)@.len() && #[trigger] vote_of(final(out)@[i], kind) is Some implies vote_of(
        final(out)@[i],
        kind,
    )->0 <= v by {
        if i < old(out)@.len() {
            assert(final(out)@[i] == old(out)@[i]);
        }
    }
    assert forall|i: int, j: int|
        0 <= i < j < final(out)@.len() && #[trigger] vote_of(final(out)@[i], kind) is Some && #[trigger] vote_of(
            final(out)@[j],
            kind,
        ) is Some implies vote_of(final(out)@[i], kind)->0 < vote_of(final(out)@[j], kind)->0 by {
        assert(final(out)@[i] == old(out)@[i]);
        if j < old(out)@.len() {
            assert(final(out)@[j] == old(out)@[j]);
        }
    }
    assert forall|k: VoteKind, hi: u64| k != kind && votes_increasing(old(out)@, k, hi) implies #[trigger] votes_increasing(
        final(out)@,
        k,
        hi,
    ) by {
        assert forall|i: int| 0 <= i < final(out)@.len() && #[trigger] vote_of(final(out)@[i], k) is Some implies vote_of(
            final(out)@[i],
            k,
        )->0 <= hi by {
            assert(i < old(out)@.len());
            assert(final(out)@[i] == old(out)@[i]);
        }
        assert forall|i: int, j: int|
            0 <= i < j < final(out)@.len() && #[trigger] vote_of(final(out)@[i], k) is Some && #[trigger] vote_of(
                final(out)@[j],
                k,
            ) is Some implies vote_of(final(out)@[i], k)->0 < vote_of(final(out)@[j], k)->0 by {
            assert(j < old(out)@.len());
            assert(final(out)@[i] == old(out)@[i]);
            assert(final(out)@[j] == old(out)@[j]);
        }
    }
}

/// The state of the consensus task of one node.
#[derive(Clone, Debug)]
pub struct ConsensusTaskState {
    pub public_key: u64,
    pub consensus: Consensus,
    /// View timeout, in milliseconds.
    pub timeout: u64,
    pub cur_view: u64,
    pub payload_commitment_and_metadata: Option<CommitmentAndMetadata>,
    pub timeout_membership: Membership,
    pub quorum_membership: Membership,
    pub committee_membership: Membership,
    pub vote_collector: Option<VoteAccumulator>,
    pub timeout_vote_collector: Option<VoteAccumulator>,
    /// The view that the armed timer will time out, if one is armed.
    pub timeout_task: Option<u64>,
    pub timeout_cert: Option<TimeoutCertificate>,
    pub upgrade_cert: Option<UpgradeCertificate>,
    pub decided_upgrade_cert: Option<UpgradeCertificate>,
    pub current_network_version: Version,
    pub vid_shares: Vec<VidShare>,
    pub current_proposal: Option<QuorumProposal>,
    pub id: u64,
    /// The highest view of a quorum vote this node signed.
    pub last_voted_view: u64,
    /// The highest view of a timeout vote this node signed.
    pub last_timeout_vote_view: u64,
}

/// Relies on `chrono::Utc::now`: the current UNIX time in seconds. Nothing is
/// promised of the value.
#[verifier::external_body]
fn unix_now() -> (r: i64) {
    chrono::Utc::now().timestamp()
}

/// An announced certificate validates against its committee and certifies
/// the vote's kind, view and datum.
pub open spec fn formed_from(o: ConsensusOutput, vote: SimpleVote, quorum: Membership, timeout: Membership) -> bool {
    match o {
        ConsensusOutput::QcFormed(CertFormed::Quorum(c)) => vote.kind == VoteKind::Quorum && c.kind == VoteKind::Quorum
            && c.view == vote.view && c.data == vote.data && crate::certificate::cert_valid(c, quorum),
        ConsensusOutput::QcFormed(CertFormed::Timeout(c)) => vote.kind == VoteKind::Timeout && c.kind
            == VoteKind::Timeout && c.view == vote.view && c.data == vote.data && crate::certificate::cert_valid(
            c,
            timeout,
        ),
        _ => false,
    }
}

/// The log `o1` is `o0` with outputs appended.
pub open spec fn extends(o0: Seq<ConsensusOutput>, o1: Seq<ConsensusOutput>) -> bool {
    &&& o0.len() <= o1.len()
    &&& forall|i: int| 0 <= i < o0.len() ==> #[trigger] o1[i] == o0[i]
}

/// What every step of the task keeps: the invariant, the configuration, the
/// monotone views (current, high QC, decided, last votes), the vote discipline
/// of the output log, and decisions confined to the newly decided views.
pub open spec fn step_ok(
    s0: ConsensusTaskState,
    s1: ConsensusTaskState,
    o0: Seq<ConsensusOutput>,
    o1: Seq<ConsensusOutput>,
) -> bool {
    &&& s1.wf()
    &&& extends(o0, o1)
    &&& s1.same_config(s0)
    &&& s1.cur_view >= s0.cur_view
    &&& s1.consensus.high_qc.view >= s0.consensus.high_qc.view
    &&& s1.consensus.last_decided_view >= s0.consensus.last_decided_view
    &&& s1.last_voted_view >= s0.last_voted_view
    &&& s1.last_timeout_vote_view >= s0.last_timeout_vote_view
    &&& votes_increasing(o1, VoteKind::Quorum, s1.last_voted_view)
    &&& votes_increasing(o1, VoteKind::Timeout, s1.last_timeout_vote_view)
    &&& decides_ok(o1, o0.len() as int, s0.consensus.last_decided_view, s1.consensus.last_decided_view)
}

/// What a step needs of the state and of the output log so far.
pub open spec fn step_ready(s0: ConsensusTaskState, o0: Seq<ConsensusOutput>) -> bool {
    &&& s0.wf()
    &&& votes_increasing(o0, VoteKind::Quorum, s0.last_voted_view)
    &&& votes_increasing(o0, VoteKind::Timeout, s0.last_timeout_vote_view)
}

/// In every state the task reaches, the decided view is at most the locked
/// view, which is at most the current view.
pub proof fn lemma_views_ordered(s0: ConsensusTaskState, s1: ConsensusTaskState, o0: Seq<ConsensusOutput>, o1: Seq<ConsensusOutput>)
    requires
        step_ok(s0, s1, o0, o1),
    ensures
        s1.consensus.last_decided_view <= s1.consensus.locked_view <= s1.cur_view,
        s1.consensus.high_qc.view >= s0.consensus.high_qc.view,
{
}

/// The ancestry walks read only the saved leaves.
pub proof fn lemma_reaches_frame(c0: Consensus, c1: Consensus, l: Leaf, t: u64)
    requires
        c0.saved_leaves == c1.saved_leaves,
    ensures
        crate::consensus::reaches_view(c0, l, t) == crate::consensus::reaches_view(c1, l, t),
    decreases l.view_number,
{
    if l.view_number > t {
        match crate::consensus::parent_of(c0, l) {
            Some(p) => lemma_reaches_frame(c0, c1, p, t),
            None => {},
        }
    }
}

/// The chain of views reads only the saved leaves.
pub proof fn lemma_chain_views_frame(c0: Consensus, c1: Consensus, l: Leaf, lo: u64)
    requires
        c0.saved_leaves == c1.saved_leaves,
    ensures
        crate::consensus::chain_views(c0, l, lo) == crate::consensus::chain_views(c1, l, lo),
    decreases l.view_number,
{
    match crate::consensus::parent_of(c0, l) {
        Some(p) => if p.view_number > lo {
            lemma_chain_views_frame(c0, c1, p, lo);
        },
        None => {},
    }
}

/// Steps compose.
pub proof fn lemma_step_trans(
    s0: ConsensusTaskState,
    s1: ConsensusTaskState,
    s2: ConsensusTaskState,
    o0: Seq<ConsensusOutput>,
    o1: Seq<ConsensusOutput>,
    o2: Seq<ConsensusOutput>,
)
    requires
        step_ok(s0, s1, o0, o1),
        step_ok(s1, s2, o1, o2),
    ensures
        step_ok(s0, s2, o0, o2),
{
    let d0 = s0.consensus.last_decided_view;
    let d1 = s1.consensus.last_decided_view;
    let d2 = s2.consensus.last_decided_view;
    assert forall|i: int| 0 <= i && o0.len() <= i < o2.len() implies #[trigger] decide_ok(o2[i], d0, d2) by {
        if i < o1.len() {
            assert(o2[i] == o1[i]);
            assert(decide_ok(o1[i], d0, d1));
        } else {
            assert(decide_ok(o2[i], d1, d2));
        }
    }
}

/// A step that leaves the state as it is and appends nothing.
pub proof fn lemma_step_refl(s0: ConsensusTaskState, o0: Seq<ConsensusOutput>)
    requires
        step_ready(s0, o0),
    ensures
        step_ok(s0, s0, o0, o0),
{
}

/// The outputs of advancing to view `v`, in order: cancel the armed timer
/// (if any), poll the lookahead leader (unless it is this node), poll for the
/// next view's proposal and DA certificate, poll for votes (as next leader),
/// announce the view change, and arm the timer for the next view.
pub open spec fn view_change_outputs(s: ConsensusTaskState, v: u64) -> Seq<ConsensusOutput> {
    let ahead = (v + LOOK_AHEAD) as u64;
    let next = (v + 1) as u64;
    (if s.timeout_task is Some {
        seq![ConsensusOutput::CancelTimeout]
    } else {
        Seq::empty()
    }) + (if s.quorum_membership.leader_spec(ahead) != s.public_key {
        seq![ConsensusOutput::QuorumIntent(ConsensusIntent::PollFutureLeader(ahead, s.quorum_membership.leader_spec(ahead)))]
    } else {
        Seq::empty()
    }) + seq![
        ConsensusOutput::QuorumIntent(ConsensusIntent::PollForProposal(next)),
        ConsensusOutput::QuorumIntent(ConsensusIntent::PollForDac(next)),
    ] + (if s.quorum_membership.leader_spec(next) == s.public_key {
        seq![ConsensusOutput::QuorumIntent(ConsensusIntent::PollForVotes(v))]
    } else {
        Seq::empty()
    }) + seq![ConsensusOutput::ViewChange(v), ConsensusOutput::ArmTimeout { view: next, after_ms: s.timeout }]
}

/// The commitment of the leaf a vote on proposal `p` is for: its parent is the
/// genesis leaf or the leaf its justify QC certifies.
pub open spec fn vote_leaf_commit(p: QuorumProposal, proposer: u64) -> Commitment {
    crate::data::leaf_commit_of(
        p.view_number,
        p.justify_qc.view,
        p.justify_qc.data,
        p.justify_qc.is_genesis,
        if p.justify_qc.is_genesis {
            crate::data::genesis_commit_spec()
        } else {
            p.justify_qc.data
        },
        p.block_header,
        proposer,
    )
}

/// The views of a decided chain that an output announces, if it is a `Decide`.
pub open spec fn decided_chain_views(o: ConsensusOutput) -> Option<Seq<u64>> {
    match o {
        ConsensusOutput::Decide { leaf_chain, .. } => Some(
            leaf_chain@.map_values(|x: (Leaf, Option<VidShare>)| x.0.view_number),
        ),
        _ => None,
    }
}

/// The parent of a proposal, with its commitment and header, where it is
/// known: the genesis leaf, or a saved leaf whose view holds an accepted leaf.
pub open spec fn known_parent(c: Consensus, p: QuorumProposal) -> Option<(Commitment, BlockHeader)> {
    if p.justify_qc.is_genesis {
        Some(
            (
                crate::data::genesis_commit_spec(),
                BlockHeader { block_number: 0, payload_commitment: crate::data::zero_commitment(), metadata: 0 },
            ),
        )
    } else {
        match leaf_lookup(c.saved_leaves@, p.justify_qc.data) {
            Some(l) => if crate::consensus::view_lookup(c.validated_state_map@, l.view_number) matches Some(
                crate::data::ViewInner::Leaf { .. },
            ) {
                Some((p.justify_qc.data, l.block_header))
            } else {
                None
            },
            None => None,
        }
    }
}

/// What `handle_vote` does, from state `s0` and output log `o0` to `s1` and `o1`.
pub open spec fn vote_effects(
    s0: ConsensusTaskState,
    s1: ConsensusTaskState,
    o0: Seq<ConsensusOutput>,
    o1: Seq<ConsensusOutput>,
    vote: SimpleVote,
) -> bool {
    &&& s1.last_timeout_vote_view == s0.last_timeout_vote_view
    &&& s1.cur_view == s0.cur_view
    &&& s1.consensus == s0.consensus
    &&& o1.len() <= o0.len() + 1
    &&& o1.len() == o0.len() + 1 ==> formed_from(
            o1.last(),
            vote,
            s0.quorum_membership,
            s0.timeout_membership,
        )
    &&& o1.len() == o0.len() + 1 <==> s0.vote_forms(vote)
}

/// What `handle_qc_formed` does, from state `s0` and output log `o0` to `s1` and `o1`.
pub open spec fn qc_formed_effects(
    s0: ConsensusTaskState,
    s1: ConsensusTaskState,
    o0: Seq<ConsensusOutput>,
    o1: Seq<ConsensusOutput>,
    cert: CertFormed,
) -> bool {
    &&& s1.last_timeout_vote_view == s0.last_timeout_vote_view
    &&& s1.cur_view == s0.cur_view
    &&& (cert matches CertFormed::Quorum(qc) && qc.view < MAX_VIEW) ==> {
            let qc = cert->Quorum_0;
            let hq = if qc.view > s0.consensus.high_qc.view {
                qc
            } else {
                s0.consensus.high_qc
            };
            let mid = ConsensusTaskState { consensus: Consensus { high_qc: hq, ..s0.consensus }, ..s0 };
            let o = o0.push(ConsensusOutput::QuorumIntent(ConsensusIntent::CancelPollForVotes(qc.view)));
            &&& s1.consensus.high_qc == hq
            &&& mid.propose_ready((qc.view + 1) as u64) ==> o1.len() == o.len() + 1 && o1.subrange(
                0,
                o.len() as int,
            ) == o && o1.last() is QuorumProposalSend
            &&& !mid.propose_ready((qc.view + 1) as u64) ==> o1 == o && s1 == mid
        }
    &&& (cert matches CertFormed::Timeout(tc) && tc.view < MAX_VIEW) ==> {
            let tc = cert->Timeout_0;
            let o = o0.push(ConsensusOutput::QuorumIntent(ConsensusIntent::CancelPollForVotes(tc.view)));
            &&& s1.consensus == s0.consensus
            &&& s0.propose_ready((tc.view + 1) as u64) ==> o1.len() == o.len() + 1 && o1.subrange(0, o.len() as int) == o && (o1.last() matches ConsensusOutput::QuorumProposalSend(
                pr,
                _,
            ) && pr.data.timeout_certificate == Some(tc))
            &&& !s0.propose_ready((tc.view + 1) as u64) ==> o1 == o && (s1.timeout_cert matches Some(t) && t.same_as(tc))
        }
    &&& cert->Quorum_0.view >= MAX_VIEW && cert is Quorum ==> s1 == s0 && o1 == o0
}

/// What `handle_dac` does, from state `s0` and output log `o0` to `s1` and `o1`.
pub open spec fn dac_effects(
    s0: ConsensusTaskState,
    s1: ConsensusTaskState,
    o0: Seq<ConsensusOutput>,
    o1: Seq<ConsensusOutput>,
    cert: DaCertificate,
) -> bool {
    &&& s1.last_timeout_vote_view == s0.last_timeout_vote_view
    &&& s1.cur_view == s0.cur_view
    &&& s1.consensus.saved_da_certs@ == s0.consensus.saved_da_certs@.push(cert)
    &&& da_lookup(s1.consensus.saved_da_certs@, cert.view) == Some(cert)
    &&& s0.votes_after(
            s1,
            o0.push(ConsensusOutput::QuorumIntent(ConsensusIntent::CancelPollForDac(cert.view))).push(
                ConsensusOutput::CommitteeIntent(ConsensusIntent::CancelPollForVotes(cert.view)),
            ),
            o1,
            s0.vid_shares@,
            s0.consensus.saved_da_certs@.push(cert),
        )
}

/// What `handle_vid_disperse` does, from state `s0` and output log `o0` to `s1` and `o1`.
pub open spec fn vid_effects(
    s0: ConsensusTaskState,
    s1: ConsensusTaskState,
    o0: Seq<ConsensusOutput>,
    o1: Seq<ConsensusOutput>,
    share: VidShare, sender: u64,
) -> bool {
    &&& s1.last_timeout_vote_view == s0.last_timeout_vote_view
    &&& s1.cur_view == s0.cur_view
    &&& !s0.vid_accepted(share, sender) ==> s1 == s0 && o1 == o0
    &&& s0.vid_accepted(share, sender) ==> s1.vid_shares@ == s0.vid_shares@.push(share)
            && s0.votes_after(
            s1,
            o0.push(
                ConsensusOutput::QuorumIntent(ConsensusIntent::CancelPollForVidDisperse(share.view_number)),
            ),
            o1,
            s0.vid_shares@.push(share),
            s0.consensus.saved_da_certs@,
        )
}

/// What `handle_view_change` does, from state `s0` and output log `o0` to `s1` and `o1`.
pub open spec fn view_change_effects(
    s0: ConsensusTaskState,
    s1: ConsensusTaskState,
    o0: Seq<ConsensusOutput>,
    o1: Seq<ConsensusOutput>,
    new_view: u64,
) -> bool {
    &&& s1.last_timeout_vote_view == s0.last_timeout_vote_view
    &&& s1.cur_view == if s0.cur_view < new_view && new_view <= MAX_VIEW {
            new_view
        } else {
            s0.cur_view
        }
    &&& (s0.cur_view < new_view && new_view <= MAX_VIEW && (s0.decided_upgrade_cert matches Some(c)
            && new_view >= c.new_version_first_block)) ==> s1.current_network_version == s0.decided_upgrade_cert->Some_0.new_version && s1.decided_upgrade_cert is None
    &&& new_view > MAX_VIEW ==> s1 == s0 && o1 == o0
    &&& (new_view <= MAX_VIEW && new_view <= s0.cur_view) ==> s1 == s0 && o1
            == o0.push(
            ConsensusOutput::QuorumIntent(ConsensusIntent::PollForVidDisperse((s0.cur_view + 1) as u64)),
        )
    &&& (new_view <= MAX_VIEW && s0.cur_view < new_view) ==> o1 == o0.push(
            ConsensusOutput::QuorumIntent(ConsensusIntent::PollForVidDisperse((s0.cur_view + 1) as u64)),
        ) + view_change_outputs(s0, new_view).push(ConsensusOutput::ViewFinished(s0.cur_view))
    &&& (s0.cur_view < new_view && new_view <= MAX_VIEW && !(s0.decided_upgrade_cert matches Some(c)
            && new_view >= c.new_version_first_block)) ==> s1.current_network_version == s0.current_network_version && s1.decided_upgrade_cert == s0.decided_upgrade_cert
}

/// What `handle_payload_commitment` does, from state `s0` and output log `o0` to `s1` and `o1`.
pub open spec fn payload_effects(
    s0: ConsensusTaskState,
    s1: ConsensusTaskState,
    o0: Seq<ConsensusOutput>,
    o1: Seq<ConsensusOutput>,
    commitment: Commitment, metadata: u64, view: u64,
) -> bool {
    &&& s1.last_timeout_vote_view == s0.last_timeout_vote_view
    &&& s1.cur_view == s0.cur_view
    &&& o1 == o0 ==> s1.payload_commitment_and_metadata == Some(
            CommitmentAndMetadata { commitment, metadata, is_genesis: false },
        )
    &&& ({
            let mid = ConsensusTaskState {
                payload_commitment_and_metadata: Some(CommitmentAndMetadata { commitment, metadata, is_genesis: false }),
                ..s0
            };
            &&& s0.quorum_membership.leader_spec(view) == s0.public_key
            &&& s0.consensus.high_qc.view < MAX_VIEW
            &&& s0.consensus.high_qc.view + 1 == view
            &&& mid.propose_ready(view)
        }) ==> o1.len() == o0.len() + 1 && (o1.last() matches ConsensusOutput::QuorumProposalSend(
            pr,
            _,
        ) && pr.data.view_number == view) && s1.payload_commitment_and_metadata is None
}

/// What `handle_quorum_proposal` does, from state `s0` and output log `o0` to `s1` and `o1`.
pub open spec fn proposal_effects(
    s0: ConsensusTaskState,
    s1: ConsensusTaskState,
    o0: Seq<ConsensusOutput>,
    o1: Seq<ConsensusOutput>,
    proposal: Proposal, sender: u64,
) -> bool {
    &&& s1.last_timeout_vote_view == s0.last_timeout_vote_view
    &&& proposal.data.view_number < s0.cur_view ==> s1 == s0
    &&& s0.proposal_verdict(proposal, sender) != ProposalCheck::Valid ==> s1.cur_view == s0.cur_view && s1.current_proposal == s0.current_proposal && s1.last_voted_view
            == s0.last_voted_view && s1.consensus.locked_view == s0.consensus.locked_view
            && s1.consensus.last_decided_view == s0.consensus.last_decided_view
    &&& s0.proposal_verdict(proposal, sender) == ProposalCheck::InvalidQc ==> s1.consensus.metrics.invalid_qc
            == if s0.consensus.metrics.invalid_qc < u64::MAX {
            (s0.consensus.metrics.invalid_qc + 1) as u64
        } else {
            s0.consensus.metrics.invalid_qc
        }
    &&& s0.proposal_verdict(proposal, sender) == ProposalCheck::Valid ==> s1.cur_view
            == proposal.data.view_number
    &&& s0.proposal_verdict(proposal, sender) != ProposalCheck::Valid ==> o1 == o0.push(
            ConsensusOutput::QuorumIntent(ConsensusIntent::CancelPollForProposal(proposal.data.view_number)),
        )
    &&& s0.proposal_verdict(proposal, sender) == ProposalCheck::InvalidQc ==> s1 == (ConsensusTaskState {
            consensus: Consensus {
                metrics: crate::consensus::ConsensusMetrics {
                    invalid_qc: if s0.consensus.metrics.invalid_qc < u64::MAX {
                        (s0.consensus.metrics.invalid_qc + 1) as u64
                    } else {
                        s0.consensus.metrics.invalid_qc
                    },
                    ..s0.consensus.metrics
                },
                ..s0.consensus
            },
            ..s0
        })
    &&& (s0.proposal_verdict(proposal, sender) != ProposalCheck::Valid && s0.proposal_verdict(
            proposal,
            sender,
        ) != ProposalCheck::InvalidQc) ==> s1 == s0
    &&& (s0.proposal_verdict(proposal, sender) == ProposalCheck::Valid && known_parent(
            s0.consensus,
            proposal.data,
        ) is Some) ==> {
            let c = s0.consensus;
            let v = proposal.data.view_number;
            let jv = proposal.data.justify_qc.view;
            let pp = known_parent(c, proposal.data)->Some_0;
            if s0.accepts(proposal, sender, pp.0, pp.1) {
                &&& s1.consensus.locked_view == if crate::consensus::two_chain(c, v, jv)
                    && crate::consensus::second_of(c, jv).view_number > c.locked_view {
                    crate::consensus::second_of(c, jv).view_number
                } else {
                    c.locked_view
                }
                &&& s1.consensus.last_decided_view == if crate::consensus::three_chain(c, v, jv) {
                    crate::consensus::anchor_of(c, jv).view_number
                } else {
                    c.last_decided_view
                }
                &&& crate::consensus::view_lookup(s1.consensus.validated_state_map@, v) == Some(
                    crate::data::ViewInner::Leaf {
                        leaf: crate::data::leaf_commit_spec(proposed_leaf(proposal.data, sender, pp.0)),
                        state: crate::data::ValidatedState { block_height: proposal.data.block_header.block_number },
                    },
                )
                &&& (s0.quorum_membership.leader_spec((v + 1) as u64) != s0.public_key
                        && !crate::consensus::three_chain(c, v, jv)) ==> if s0.vote_cond(
                        proposal.data,
                        s0.vid_shares@,
                        c.saved_da_certs@,
                    ) {
                        o1.last() == s0.vote_output(proposal.data) && s1.last_voted_view == v
                    } else {
                        s1.last_voted_view == s0.last_voted_view
                    }
                &&& crate::consensus::three_chain(c, v, jv) ==> exists|i: int|
                    o0.len() <= i < o1.len() && decided_chain_views(#[trigger] o1[i])
                        == Some(crate::consensus::decided_views(c, jv))
            } else {
                &&& s1.consensus.saved_leaves == c.saved_leaves
                &&& s1.consensus.validated_state_map == c.validated_state_map
                &&& s1.consensus.locked_view == c.locked_view
                &&& s1.consensus.last_decided_view == c.last_decided_view
                &&& s1.current_proposal == s0.current_proposal
                &&& s1.last_voted_view == s0.last_voted_view
            }
        }
}

/// What `handle_timeout` does, from state `s0` and output log `o0` to `s1` and `o1`.
pub open spec fn timeout_effects(
    s0: ConsensusTaskState,
    s1: ConsensusTaskState,
    o0: Seq<ConsensusOutput>,
    o1: Seq<ConsensusOutput>,
    view: u64,
) -> bool {
    &&& s1.cur_view == s0.cur_view
    &&& s1.last_timeout_vote_view == if s0.timeout_fires(view) {
            view
        } else {
            s0.last_timeout_vote_view
        }
    &&& s0.timeout_fires(view) ==> o1 == o0 + seq![
            ConsensusOutput::QuorumIntent(ConsensusIntent::CancelPollForVotes(view)),
            ConsensusOutput::QuorumIntent(ConsensusIntent::CancelPollForProposal(view)),
            ConsensusOutput::TimeoutVoteSend(
                SimpleVote {
                    kind: VoteKind::Timeout,
                    view,
                    data: crate::certificate::timeout_data_spec(view),
                    signer: s0.public_key,
                },
            ),
            ConsensusOutput::ReplicaViewTimeout(view),
        ]
    &&& !s0.timeout_fires(view) ==> o1 == o0 && s1 == s0
}

/// The leaf a proposal stands for, on the given parent.
pub open spec fn proposed_leaf(p: QuorumProposal, sender: u64, parent_commitment: Commitment) -> Leaf {
    Leaf {
        view_number: p.view_number,
        justify_qc: p.justify_qc,
        parent_commitment,
        block_header: p.block_header,
        block_payload: None,
        proposer_id: sender,
        upgrade_certificate: p.upgrade_certificate,
    }
}

/// Whether a VID share for view `v` was received.
pub open spec fn has_vid(s: Seq<VidShare>, v: u64) -> bool {
    exists|i: int| 0 <= i < s.len() && s[i].view_number == v
}

impl ConsensusTaskState {
    /// The committees are well formed; `decided <= locked <= cur_view`; the
    /// accumulators count stake against their committees.
    pub open spec fn wf(&self) -> bool {
        &&& self.quorum_membership.wf()
        &&& self.timeout_membership.wf()
        &&& self.committee_membership.wf()
        &&& self.consensus.wf()
        &&& self.consensus.locked_view <= self.cur_view
        &&& self.cur_view <= MAX_VIEW
        &&& (self.vote_collector matches Some(a) ==> a.wf(self.quorum_membership) && a.kind == VoteKind::Quorum)
        &&& (self.timeout_vote_collector matches Some(a) ==> a.wf(self.timeout_membership) && a.kind
            == VoteKind::Timeout)
    }

    /// The parts of the state that no event changes.
    pub open spec fn same_config(&self, o: ConsensusTaskState) -> bool {
        &&& self.public_key == o.public_key
        &&& self.timeout == o.timeout
        &&& self.quorum_membership == o.quorum_membership
        &&& self.timeout_membership == o.timeout_membership
        &&& self.committee_membership == o.committee_membership
        &&& self.id == o.id
    }

    /// Whether a proposal whose parent is known is accepted: its header
    /// extends the parent's by one block, the leader signed the new leaf's
    /// commitment, and the safety check (its justify QC's leaf extends from
    /// the locked leaf) or the liveness check (its justify QC is above the
    /// locked view) passes.
    pub open spec fn accepts(
        &self,
        proposal: Proposal,
        sender: u64,
        parent_commitment: Commitment,
        parent_header: BlockHeader,
    ) -> bool {
        let jv = proposal.data.justify_qc.view;
        let c = self.consensus;
        &&& proposal.data.block_header.block_number == parent_header.block_number + 1
        &&& proposal.signature == (crate::certificate::Signature {
            signer: sender,
            commit: crate::data::leaf_commit_spec(proposed_leaf(proposal.data, sender, parent_commitment)),
        })
        &&& (jv > c.locked_view || (crate::consensus::leaf_at_view(c, jv) matches Some(l)
            && crate::consensus::reaches_view(c, l, c.locked_view)))
    }

    /// Whether a timeout for `view` makes this node vote: the view is ahead of
    /// the current view and of its last timeout vote, and it holds stake.
    pub open spec fn timeout_fires(&self, view: u64) -> bool {
        self.cur_view < view && self.last_timeout_vote_view < view && self.timeout_membership.stake_spec(
            self.public_key,
        ) > 0
    }

    /// Whether `vote_if_able` votes: this node has stake, holds a proposal
    /// for a view above its last vote, and either the proposal is the genesis
    /// proposal of view 1, or a VID share and a valid DA certificate for its
    /// view are present, the certificate's payload commitment matches the
    /// header's (unless it is the genesis certificate), and its parent is known.
    pub open spec fn vote_ready(&self) -> bool {
        self.current_proposal matches Some(p) && self.vote_cond(p, self.vid_shares@, self.consensus.saved_da_certs@)
    }

    /// `vote_ready` for proposal `p`, with the given VID shares and DA
    /// certificates.
    pub open spec fn vote_cond(&self, p: QuorumProposal, vids: Seq<VidShare>, certs: Seq<DaCertificate>) -> bool {
        &&& self.quorum_membership.stake_spec(self.public_key) > 0
        &&& p.view_number > self.last_voted_view
        &&& ((p.justify_qc.is_genesis && p.view_number == 1) || {
            &&& has_vid(vids, p.view_number)
            &&& da_lookup(certs, p.view_number) matches Some(cert)
            &&& crate::certificate::cert_valid(cert, self.committee_membership)
            &&& (cert.is_genesis || cert.data == p.block_header.payload_commitment)
            &&& (p.justify_qc.is_genesis || leaf_lookup(self.consensus.saved_leaves@, p.justify_qc.data) is Some)
        })
    }

    /// This node's quorum vote on proposal `p`.
    pub open spec fn vote_output(&self, p: QuorumProposal) -> ConsensusOutput {
        ConsensusOutput::QuorumVoteSend(
            SimpleVote {
                kind: VoteKind::Quorum,
                view: p.view_number,
                data: vote_leaf_commit(p, self.quorum_membership.leader_spec(p.view_number)),
                signer: self.public_key,
            },
        )
    }

    /// After the outputs `o` of a step that changed neither the held proposal
    /// nor the last vote, a vote on the held proposal is appended exactly when
    /// `vote_cond` holds with `vids` and `certs`.
    pub open spec fn votes_after(
        &self,
        fin: ConsensusTaskState,
        o: Seq<ConsensusOutput>,
        o1: Seq<ConsensusOutput>,
        vids: Seq<VidShare>,
        certs: Seq<DaCertificate>,
    ) -> bool {
        if self.current_proposal matches Some(p) && self.vote_cond(p, vids, certs) {
            o1 == o.push(self.vote_output(self.current_proposal->Some_0)) && fin.current_proposal is None
                && fin.last_voted_view == self.current_proposal->Some_0.view_number
        } else {
            o1 == o && fin.current_proposal == self.current_proposal && fin.last_voted_view == self.last_voted_view
        }
    }

    /// Whether a VID share is kept: at most one view old, from the view's
    /// leader, signed by it over the payload commitment.
    pub open spec fn vid_accepted(&self, share: VidShare, sender: u64) -> bool {
        &&& share.view_number < MAX_VIEW
        &&& share.view_number + 1 >= self.cur_view
        &&& self.quorum_membership.leader_spec(share.view_number) == sender
        &&& share.signature == (crate::certificate::Signature { signer: sender, commit: share.payload_commitment })
    }

    /// Whether a received vote completes a certificate: this node leads the
    /// next view, the vote is not older than the running accumulator, and the
    /// vote's signer, new for its datum, brings the datum's signers to the
    /// threshold stake.
    pub open spec fn vote_forms(&self, vote: SimpleVote) -> bool {
        let quorum = vote.kind == VoteKind::Quorum;
        let m = if quorum {
            self.quorum_membership
        } else {
            self.timeout_membership
        };
        let acc = if quorum {
            self.vote_collector
        } else {
            self.timeout_vote_collector
        };
        let buckets = if acc is None || acc->Some_0.view < vote.view {
            Seq::<crate::accumulator::VoteBucket>::empty()
        } else {
            acc->Some_0.buckets@
        };
        let signers = crate::accumulator::signers_for(buckets, vote.data);
        &&& vote.view < MAX_VIEW
        &&& vote.kind != VoteKind::Da
        &&& m.leader_spec((vote.view + 1) as u64) == self.public_key
        &&& (acc is None || acc->Some_0.view <= vote.view)
        &&& m.stake_spec(vote.signer) > 0
        &&& !signers.contains(vote.signer)
        &&& crate::committee::signed_stake(m.members@, signers.push(vote.signer)) >= m.threshold_spec()
    }

    fn find_vid(&self, v: u64) -> (r: bool)
        ensures
            r == has_vid(self.vid_shares@, v),
    {
        let mut i: usize = 0;
        while i < self.vid_shares.len()
            invariant
                i <= self.vid_shares@.len(),
                forall|j: int| 0 <= j < i ==> self.vid_shares@[j].view_number != v,
            decreases self.vid_shares@.len() - i,
        {
            if self.vid_shares[i].view_number == v {
                return true;
            }
            i += 1;
        }
        false
    }

    /// Advances to `new_view` if it is ahead of the current view: cancels the
    /// armed timer, issues the polling directives, announces the view change
    /// and arms a timer for the next view.
    pub fn update_view(&mut self, new_view: u64, out: &mut Vec<ConsensusOutput>) -> (r: bool)
        requires
            step_ready(*old(self), old(out)@),
            new_view <= MAX_VIEW,
        ensures
            step_ok(*old(self), *final(self), old(out)@, final(out)@),
            r == (old(self).cur_view < new_view),
            final(self).wf(),
            final(self).cur_view == if r { new_view } else { old(self).cur_view },
            final(self).timeout_task == if r { Some((new_view + 1) as u64) } else { old(self).timeout_task },
            final(self).same_config(*old(self)),
            final(self).consensus.high_qc == old(self).consensus.high_qc,
            final(self).consensus.locked_view == old(self).consensus.locked_view,
            final(self).consensus.last_decided_view == old(self).consensus.last_decided_view,
            final(self).consensus.validated_state_map == old(self).consensus.validated_state_map,
            final(self).consensus.saved_leaves == old(self).consensus.saved_leaves,
            final(self).consensus.saved_payloads == old(self).consensus.saved_payloads,
            final(self).consensus.saved_da_certs == old(self).consensus.saved_da_certs,
            final(self).consensus.metrics.invalid_qc == old(self).consensus.metrics.invalid_qc,
            final(self).last_voted_view == old(self).last_voted_view,
            final(self).last_timeout_vote_view == old(self).last_timeout_vote_view,
            final(self).current_proposal == old(self).current_proposal,
            final(self).vid_shares == old(self).vid_shares,
            final(self).payload_commitment_and_metadata == old(self).payload_commitment_and_metadata,
            final(self).upgrade_cert == old(self).upgrade_cert,
            final(self).decided_upgrade_cert == old(self).decided_upgrade_cert,
            final(self).timeout_cert == old(self).timeout_cert,
            final(self).vote_collector == old(self).vote_collector,
            final(self).timeout_vote_collector == old(self).timeout_vote_collector,
            final(self).current_network_version == old(self).current_network_version,
            !r ==> final(out)@ == old(out)@ && *final(self) == *old(self),
            r ==> final(out)@ == old(out)@ + view_change_outputs(*old(self), new_view),
            r ==> *final(self) == (ConsensusTaskState {
                cur_view: new_view,
                timeout_task: Some((new_view + 1) as u64),
                consensus: Consensus {
                    metrics: crate::consensus::ConsensusMetrics {
                        current_view: new_view,
                        number_of_views_since_last_decide: (new_view - old(self).consensus.last_decided_view) as u64,
                        ..old(self).consensus.metrics
                    },
                    ..old(self).consensus
                },
                ..*old(self)
            }),
            r ==> final(out)@.len() > old(out)@.len() && final(out)@.last() == (ConsensusOutput::ArmTimeout {
                view: (new_view + 1) as u64,
                after_ms: old(self).timeout,
            }),
            forall|from: int, lo: u64, hi: u64|
                decides_ok(old(out)@, from, lo, hi) ==> #[trigger] decides_ok(final(out)@, from, lo, hi),
            forall|k: VoteKind, hi: u64|
                votes_increasing(old(out)@, k, hi) ==> #[trigger] votes_increasing(final(out)@, k, hi),
    {
        if !(self.cur_view < new_view) {
            return false;
        }
        let ghost o0 = out@;
        if self.timeout_task.is_some() {
            emit(out, ConsensusOutput::CancelTimeout);
        }
        let ghost o1 = out@;
        assert(o1 == o0 + (if old(self).timeout_task is Some {
            seq![ConsensusOutput::CancelTimeout]
        } else {
            Seq::<ConsensusOutput>::empty()
        }));
        self.timeout_task = None;
        self.cur_view = new_view;
        let lookahead_view = new_view + LOOK_AHEAD;
        let future_leader = self.quorum_membership.get_leader(lookahead_view);
        if future_leader != self.public_key {
            emit(out, ConsensusOutput::QuorumIntent(ConsensusIntent::PollFutureLeader(lookahead_view, future_leader)));
        }
        emit(out, ConsensusOutput::QuorumIntent(ConsensusIntent::PollForProposal(new_view + 1)));
        emit(out, ConsensusOutput::QuorumIntent(ConsensusIntent::PollForDac(new_view + 1)));
        if self.quorum_membership.get_leader(new_view + 1) == self.public_key {
            emit(out, ConsensusOutput::QuorumIntent(ConsensusIntent::PollForVotes(new_view)));
        }
        emit(out, ConsensusOutput::ViewChange(new_view));
        emit(out, ConsensusOutput::ArmTimeout { view: new_view + 1, after_ms: self.timeout });
        assert(out@ =~= old(out)@ + view_change_outputs(*old(self), new_view));
        self.timeout_task = Some(new_view + 1);
        self.consensus.metrics.current_view = new_view;
        self.consensus.metrics.number_of_views_since_last_decide = new_view - self.consensus.last_decided_view;
        true
    }

    /// Votes on the held proposal where `vote_ready` holds: signs a quorum
    /// vote for its leaf, broadcasts it, and clears the held proposal.
    pub fn vote_if_able(&mut self, out: &mut Vec<ConsensusOutput>) -> (r: bool)
        requires
            step_ready(*old(self), old(out)@),
        ensures
            step_ok(*old(self), *final(self), old(out)@, final(out)@),
            r == old(self).vote_ready(),
            final(self).wf(),
            r ==> final(self).last_voted_view == old(self).current_proposal->Some_0.view_number,
            r ==> final(self).current_proposal is None,
            r ==> final(out)@.len() == old(out)@.len() + 1,
            r ==> (final(out)@.last() matches ConsensusOutput::QuorumVoteSend(v) && v.view == old(
                self,
            ).current_proposal->Some_0.view_number && v.signer == old(self).public_key && v.kind == VoteKind::Quorum),
            !r ==> final(out)@ == old(out)@ && final(self).last_voted_view == old(self).last_voted_view
                && final(self).current_proposal == old(self).current_proposal,
            final(self).cur_view == old(self).cur_view,
            final(self).same_config(*old(self)),
            final(self).consensus == old(self).consensus,
            final(self).last_voted_view >= old(self).last_voted_view,
            final(self).last_timeout_vote_view == old(self).last_timeout_vote_view,
            final(self).vid_shares == old(self).vid_shares,
            final(self).upgrade_cert == old(self).upgrade_cert,
            final(self).decided_upgrade_cert == old(self).decided_upgrade_cert,
            final(self).timeout_cert == old(self).timeout_cert,
            final(self).timeout_task == old(self).timeout_task,
            final(self).vote_collector == old(self).vote_collector,
            final(self).timeout_vote_collector == old(self).timeout_vote_collector,
            forall|from: int, lo: u64, hi: u64|
                decides_ok(old(out)@, from, lo, hi) ==> #[trigger] decides_ok(final(out)@, from, lo, hi),
            votes_increasing(final(out)@, VoteKind::Quorum, final(self).last_voted_view),
            forall|hi: u64|
                votes_increasing(old(out)@, VoteKind::Timeout, hi) ==> #[trigger] votes_increasing(
                    final(out)@,
                    VoteKind::Timeout,
                    hi,
                ),
            r ==> final(out)@ == old(out)@.push(
                ConsensusOutput::QuorumVoteSend(
                    SimpleVote {
                        kind: VoteKind::Quorum,
                        view: old(self).current_proposal->Some_0.view_number,
                        data: vote_leaf_commit(
                            old(self).current_proposal->Some_0,
                            old(self).quorum_membership.leader_spec(old(self).current_proposal->Some_0.view_number),
                        ),
                        signer: old(self).public_key,
                    },
                ),
            ),
            r ==> *final(self) == (ConsensusTaskState {
                current_proposal: None,
                last_voted_view: old(self).current_proposal->Some_0.view_number,
                payload_commitment_and_metadata: if old(self).current_proposal->Some_0.justify_qc.is_genesis && old(
                    self,
                ).current_proposal->Some_0.view_number == 1 && (old(self).payload_commitment_and_metadata matches Some(
                    cm,
                ) && cm.is_genesis) {
                    None
                } else {
                    old(self).payload_commitment_and_metadata
                },
                ..*old(self)
            }),
            !r ==> *final(self) == *old(self),
    {
        if !self.quorum_membership.has_stake(self.public_key) {
            return false;
        }
        let (view, justify_genesis, justify_data, header) = match &self.current_proposal {
            Some(p) => (p.view_number, p.justify_qc.is_genesis, p.justify_qc.data, p.block_header),
            None => return false,
        };
        if view <= self.last_voted_view {
            return false;
        }
        let genesis_case = justify_genesis && view == 1;
        if !genesis_case {
            if !self.find_vid(view) {
                return false;
            }
            let ci = match self.consensus.find_da_cert(view) {
                Some(i) => i,
                None => return false,
            };
            if !self.consensus.saved_da_certs[ci].is_valid_cert(&self.committee_membership) {
                return false;
            }
            if !self.consensus.saved_da_certs[ci].is_genesis
                && self.consensus.saved_da_certs[ci].data != header.payload_commitment {
                return false;
            }
            if !justify_genesis && self.consensus.find_leaf(justify_data).is_none() {
                return false;
            }
        }
        let parent_commitment = if justify_genesis {
            Leaf::genesis().commit()
        } else {
            match self.consensus.find_leaf(justify_data) {
                Some(i) => self.consensus.saved_leaves[i].commit,
                None => return false,
            }
        };
        let proposal = match self.current_proposal.take() {
            Some(p) => p,
            None => return false,
        };
        let leaf = Leaf {
            view_number: view,
            justify_qc: proposal.justify_qc,
            parent_commitment,
            block_header: header,
            block_payload: None,
            proposer_id: self.quorum_membership.get_leader(view),
            upgrade_certificate: None,
        };
        let vote = create_signed_vote(VoteKind::Quorum, leaf.commit(), view, self.public_key);
        emit_vote(out, ConsensusOutput::QuorumVoteSend(vote), VoteKind::Quorum, self.last_voted_view);
        self.last_voted_view = view;
        if genesis_case {
            if let Some(cm) = self.payload_commitment_and_metadata {
                if cm.is_genesis {
                    self.payload_commitment_and_metadata = None;
                }
            }
        }
        true
    }

    /// Whether `publish_proposal_if_able` proposes for `view`: this node leads
    /// `view`, a payload commitment is staged, the high QC's view holds an
    /// accepted leaf that is saved, and its header's height can grow.
    pub open spec fn propose_ready(&self, view: u64) -> bool {
        &&& self.quorum_membership.leader_spec(view) == self.public_key
        &&& self.payload_commitment_and_metadata is Some
        &&& crate::consensus::leaf_at_view(self.consensus, self.consensus.high_qc.view) matches Some(l)
        &&& l.block_header.block_number < u64::MAX
    }

    /// Proposes for `view` on top of the high QC's leaf, with the staged
    /// payload, the given timeout certificate, and the pending upgrade
    /// certificate where it is for `view`.
    pub fn publish_proposal_if_able(
        &mut self,
        view: u64,
        timeout_certificate: Option<TimeoutCertificate>,
        out: &mut Vec<ConsensusOutput>,
    ) -> (r: bool)
        requires
            step_ready(*old(self), old(out)@),
        ensures
            step_ok(*old(self), *final(self), old(out)@, final(out)@),
            r == old(self).propose_ready(view),
            final(self).wf(),
            r ==> final(out)@.len() == old(out)@.len() + 1,
            r ==> (final(out)@.last() matches ConsensusOutput::QuorumProposalSend(pr, k) && k == old(self).public_key
                && pr.data.view_number == view && pr.data.justify_qc.same_as(old(self).consensus.high_qc)
                && pr.data.proposer_id == old(self).public_key && pr.signature.signer == old(self).public_key),
            r ==> final(self).payload_commitment_and_metadata is None && final(self).timeout_cert is None,
            !r ==> final(out)@ == old(out)@ && final(self).payload_commitment_and_metadata
                == old(self).payload_commitment_and_metadata && final(self).timeout_cert == old(self).timeout_cert
                && final(self).upgrade_cert == old(self).upgrade_cert,
            final(self).cur_view == old(self).cur_view,
            final(self).same_config(*old(self)),
            final(self).consensus == old(self).consensus,
            final(self).last_voted_view == old(self).last_voted_view,
            final(self).last_timeout_vote_view == old(self).last_timeout_vote_view,
            final(self).current_proposal == old(self).current_proposal,
            final(self).vid_shares == old(self).vid_shares,
            final(self).decided_upgrade_cert == old(self).decided_upgrade_cert,
            final(self).timeout_task == old(self).timeout_task,
            final(self).vote_collector == old(self).vote_collector,
            final(self).timeout_vote_collector == old(self).timeout_vote_collector,
            forall|from: int, lo: u64, hi: u64|
                decides_ok(old(out)@, from, lo, hi) ==> #[trigger] decides_ok(final(out)@, from, lo, hi),
            forall|k: VoteKind, hi: u64|
                votes_increasing(old(out)@, k, hi) ==> #[trigger] votes_increasing(final(out)@, k, hi),
            r ==> (final(out)@.last() matches ConsensusOutput::QuorumProposalSend(pr, _) && {
                let c = old(self).consensus;
                let parent = crate::consensus::leaf_at_view(c, c.high_qc.view)->Some_0;
                let cm = old(self).payload_commitment_and_metadata->Some_0;
                let header = BlockHeader {
                    block_number: (parent.block_header.block_number + 1) as u64,
                    payload_commitment: cm.commitment,
                    metadata: cm.metadata,
                };
                &&& pr.data.block_header == header
                &&& pr.data.timeout_certificate == timeout_certificate
                &&& pr.data.upgrade_certificate == if old(self).upgrade_cert matches Some(u) && u.view == view {
                    old(self).upgrade_cert
                } else {
                    None
                }
                &&& pr.signature == (crate::certificate::Signature {
                    signer: old(self).public_key,
                    commit: crate::data::leaf_commit_of(
                        view,
                        c.high_qc.view,
                        c.high_qc.data,
                        c.high_qc.is_genesis,
                        crate::consensus::state_leaf_commit(c, c.high_qc.view)->Some_0,
                        header,
                        old(self).public_key,
                    ),
                })
            }),
            r ==> *final(self) == (ConsensusTaskState {
                payload_commitment_and_metadata: None,
                timeout_cert: None,
                upgrade_cert: if old(self).upgrade_cert matches Some(u) && u.view == view {
                    None
                } else {
                    old(self).upgrade_cert
                },
                ..*old(self)
            }),
            !r ==> *final(self) == *old(self),
    {
        if self.quorum_membership.get_leader(view) != self.public_key {
            return false;
        }
        let cm = match self.payload_commitment_and_metadata {
            Some(cm) => cm,
            None => return false,
        };
        let pi = match self.consensus.find_leaf_at_view(self.consensus.high_qc.view) {
            Some(i) => i,
            None => return false,
        };
        let parent_header = self.consensus.saved_leaves[pi].leaf.block_header;
        let parent_commitment = self.consensus.saved_leaves[pi].commit;
        let block_header = match BlockHeader::new(&parent_header, cm.commitment, cm.metadata) {
            Some(h) => h,
            None => return false,
        };
        let leaf = Leaf {
            view_number: view,
            justify_qc: self.consensus.high_qc.copy_of(),
            parent_commitment,
            block_header,
            block_payload: None,
            proposer_id: self.public_key,
            upgrade_certificate: None,
        };
        let signature = sign(self.public_key, leaf.commit());
        let take_upgrade = match &self.upgrade_cert {
            Some(c) => c.view == view,
            None => false,
        };
        let upgrade_certificate = if take_upgrade {
            self.upgrade_cert.take()
        } else {
            None
        };
        let proposal = QuorumProposal {
            block_header,
            view_number: view,
            justify_qc: self.consensus.high_qc.copy_of(),
            timeout_certificate,
            upgrade_certificate,
            proposer_id: self.public_key,
        };
        self.timeout_cert = None;
        emit(out, ConsensusOutput::QuorumProposalSend(Proposal { data: proposal, signature }, self.public_key));
        self.payload_commitment_and_metadata = None;
        true
    }

    /// The first VID share received for view `v`.
    fn vid_share_for(&self, v: u64) -> (r: Option<VidShare>)
        ensures
            r matches Some(x) ==> x.view_number == v,
    {
        let mut i: usize = 0;
        while i < self.vid_shares.len()
            invariant
                i <= self.vid_shares@.len(),
            decreases self.vid_shares@.len() - i,
        {
            if self.vid_shares[i].view_number == v {
                return Some(self.vid_shares[i]);
            }
            i += 1;
        }
        None
    }

    /// Keeps the VID shares of views at or above `v`.
    fn prune_vid_shares(&mut self, v: u64)
        ensures
            forall|i: int| 0 <= i < final(self).vid_shares@.len() ==> #[trigger] final(self).vid_shares@[i].view_number >= v,
            final(self).cur_view == old(self).cur_view,
            final(self).consensus == old(self).consensus,
            final(self).same_config(*old(self)),
            final(self).last_voted_view == old(self).last_voted_view,
            final(self).last_timeout_vote_view == old(self).last_timeout_vote_view,
            final(self).vote_collector == old(self).vote_collector,
            final(self).timeout_vote_collector == old(self).timeout_vote_collector,
            final(self).current_proposal == old(self).current_proposal,
            final(self).payload_commitment_and_metadata == old(self).payload_commitment_and_metadata,
            final(self).timeout_task == old(self).timeout_task,
            final(self).upgrade_cert == old(self).upgrade_cert,
            final(self).decided_upgrade_cert == old(self).decided_upgrade_cert,
            final(self).timeout_cert == old(self).timeout_cert,
            final(self).current_network_version == old(self).current_network_version,
    {
        let mut kept: Vec<VidShare> = Vec::new();
        let mut i: usize = 0;
        while i < self.vid_shares.len()
            invariant
                i <= self.vid_shares@.len(),
                forall|j: int| 0 <= j < kept@.len() ==> #[trigger] kept@[j].view_number >= v,
            decreases self.vid_shares@.len() - i,
        {
            if self.vid_shares[i].view_number >= v {
                kept.push(self.vid_shares[i]);
            }
            i += 1;
        }
        self.vid_shares = kept;
    }

    /// Runs the decide step for a three-chain: announces the decided chain
    /// with payloads and VID shares attached, collects garbage, moves the
    /// decided view to the anchor and asks to store the new leaf.
    fn decide(
        &mut self,
        outcome: &crate::consensus::CommitOutcome,
        anchor: u64,
        new_leaf: &Leaf,
        out: &mut Vec<ConsensusOutput>,
    )
        requires
            old(self).wf(),
            old(self).consensus.last_decided_view < anchor,
            anchor <= old(self).consensus.locked_view,
            outcome.decide_qc is Some,
            outcome.decided@.len() >= 1,
            outcome.decided@[0].leaf.view_number == anchor,
            forall|i: int, j: int|
                0 <= i < j < outcome.decided@.len() ==> #[trigger] outcome.decided@[i].leaf.view_number
                    > #[trigger] outcome.decided@[j].leaf.view_number,
            forall|i: int|
                0 <= i < outcome.decided@.len() ==> old(self).consensus.last_decided_view
                    < #[trigger] outcome.decided@[i].leaf.view_number,
            decides_ok(old(out)@, old(out)@.len() as int, old(self).consensus.last_decided_view, anchor),
            step_ready(*old(self), old(out)@),
        ensures
            step_ok(*old(self), *final(self), old(out)@, final(out)@),
            final(self).wf(),
            final(self).consensus.last_decided_view == anchor,
            final(self).consensus.locked_view == old(self).consensus.locked_view,
            forall|w: u64|
                w >= anchor ==> #[trigger] crate::consensus::view_lookup(final(self).consensus.validated_state_map@, w)
                    == crate::consensus::view_lookup(old(self).consensus.validated_state_map@, w),
            final(self).consensus.high_qc == old(self).consensus.high_qc,
            final(self).cur_view == old(self).cur_view,
            final(self).same_config(*old(self)),
            final(self).last_voted_view == old(self).last_voted_view,
            final(self).last_timeout_vote_view == old(self).last_timeout_vote_view,
            final(self).current_proposal == old(self).current_proposal,
            final(self).vote_collector == old(self).vote_collector,
            final(self).timeout_vote_collector == old(self).timeout_vote_collector,
            final(self).payload_commitment_and_metadata == old(self).payload_commitment_and_metadata,
            final(self).timeout_task == old(self).timeout_task,
            decides_ok(final(out)@, old(out)@.len() as int, old(self).consensus.last_decided_view, anchor),
            forall|k: VoteKind, hi: u64|
                votes_increasing(old(out)@, k, hi) ==> #[trigger] votes_increasing(final(out)@, k, hi),
            final(out)@.len() > old(out)@.len() + 1,
            decided_chain_views(final(out)@[old(out)@.len() as int + 1]) == Some(crate::consensus::views_of(outcome.decided@)),
    {
        let lo = self.consensus.last_decided_view;
        let ghost start = old(out)@.len() as int;
        let mut leaf_chain: Vec<(Leaf, Option<VidShare>)> = Vec::new();
        let mut decided_leaves: Vec<Leaf> = Vec::new();
        let mut commits: Vec<Commitment> = Vec::new();
        let mut views: Vec<u64> = Vec::new();
        let mut n_payloads: u64 = 0;
        let mut adopted: Option<UpgradeCertificate> = None;
        let mut i: usize = 0;
        while i < outcome.decided.len()
            invariant
                self.wf(),
                self == old(self),
                lo == self.consensus.last_decided_view,
                i <= outcome.decided@.len(),
                leaf_chain@.len() == i,
                forall|k: int| 0 <= k < i ==> #[trigger] leaf_chain@[k].0.view_number == outcome.decided@[k].leaf.view_number,
            decreases outcome.decided@.len() - i,
        {
            if adopted.is_none() {
                if let Some(c) = &outcome.decided[i].leaf.upgrade_certificate {
                    adopted = Some(c.copy_of());
                }
            }
            let mut leaf = outcome.decided[i].leaf.copy_of();
            match self.consensus.find_payload(leaf.view_number) {
                Some(pi) => {
                    leaf.block_payload = Some(self.consensus.saved_payloads[pi].1.clone());
                    if n_payloads < u64::MAX {
                        n_payloads = n_payloads + 1;
                    }
                },
                None => {},
            }
            let vid = self.vid_share_for(leaf.view_number);
            leaf_chain.push((leaf.copy_of(), vid));
            commits.push(outcome.decided[i].commit);
            views.push(leaf.view_number);
            decided_leaves.push(leaf);
            i += 1;
        }
        if let Some(k) = self.find_anchor_height(&outcome.decided, anchor) {
            self.consensus.metrics.last_synced_block_height = k;
        }
        if adopted.is_some() {
            self.decided_upgrade_cert = adopted;
        }
        emit(out, ConsensusOutput::LeafDecided(decided_leaves));
        let qc = match &outcome.decide_qc {
            Some(q) => q.copy_of(),
            None => SimpleCertificate::genesis(),
        };
        let ghost before = out@;
        assert(chain_ok(leaf_chain@, lo, anchor)) by {
            assert forall|a: int| 0 <= a < leaf_chain@.len() implies lo < #[trigger] leaf_chain@[a].0.view_number <= anchor by {
                assert(leaf_chain@[a].0.view_number == outcome.decided@[a].leaf.view_number);
                if a > 0 {
                    assert(outcome.decided@[0].leaf.view_number > outcome.decided@[a].leaf.view_number);
                }
            }
            assert forall|a: int, b: int|
                0 <= a < b < leaf_chain@.len() implies #[trigger] leaf_chain@[a].0.view_number
                    > #[trigger] leaf_chain@[b].0.view_number by {
                assert(leaf_chain@[a].0.view_number == outcome.decided@[a].leaf.view_number);
                assert(leaf_chain@[b].0.view_number == outcome.decided@[b].leaf.view_number);
            }
        }
        assert(leaf_chain@.map_values(|x: (Leaf, Option<VidShare>)| x.0.view_number) =~= crate::consensus::views_of(
            outcome.decided@,
        ));
        let d = ConsensusOutput::Decide { leaf_chain, qc, block_size: Some(n_payloads) };
        out.push(d);
        assert(decided_chain_views(out@[before.len() as int]) == Some(crate::consensus::views_of(outcome.decided@)));
        assert(decides_ok(out@, start, lo, anchor)) by {
            assert forall|a: int| 0 <= a && start <= a < out@.len() implies #[trigger] decide_ok(out@[a], lo, anchor) by {
                if a < before.len() {
                    assert(out@[a] == before[a]);
                }
            }
        }
        assert forall|k: VoteKind, hi: u64| votes_increasing(before, k, hi) implies #[trigger] votes_increasing(
            out@,
            k,
            hi,
        ) by {
            assert forall|a: int| 0 <= a < out@.len() && #[trigger] vote_of(out@[a], k) is Some implies vote_of(
                out@[a],
                k,
            )->0 <= hi by {
                assert(a < before.len());
                assert(out@[a] == before[a]);
            }
            assert forall|a: int, b: int|
                0 <= a < b < out@.len() && #[trigger] vote_of(out@[a], k) is Some && #[trigger] vote_of(
                    out@[b],
                    k,
                ) is Some implies vote_of(out@[a], k)->0 < vote_of(out@[b], k)->0 by {
                assert(b < before.len());
                assert(out@[a] == before[a]);
                assert(out@[b] == before[b]);
            }
        }
        let old_anchor = self.consensus.last_decided_view;
        let ghost map0 = self.consensus.validated_state_map@;
        self.consensus.collect_garbage(old_anchor, anchor, &commits, &views);
        assert forall|w: u64| w >= anchor implies #[trigger] crate::consensus::view_lookup(
            self.consensus.validated_state_map@,
            w,
        ) == crate::consensus::view_lookup(map0, w) by {
            crate::consensus::lemma_kept_views_lookup(map0, old_anchor, anchor, views@, w);
        }
        self.prune_vid_shares(anchor);
        self.consensus.last_decided_view = anchor;
        self.consensus.metrics.last_decided_time = unix_now();
        self.consensus.metrics.invalid_qc = 0;
        self.consensus.metrics.last_decided_view = anchor;
        emit(out, ConsensusOutput::StoreLeaf { view: old_anchor, leaf: new_leaf.copy_of() });
    }

    /// The block height of the decided leaf at the anchor view.
    fn find_anchor_height(&self, decided: &Vec<crate::consensus::SavedLeaf>, anchor: u64) -> (r: Option<u64>)
        ensures
            r matches Some(h) ==> exists|i: int|
                0 <= i < decided@.len() && #[trigger] decided@[i].leaf.view_number == anchor
                    && decided@[i].leaf.block_header.block_number == h,
    {
        let mut i: usize = 0;
        while i < decided.len()
            invariant
                i <= decided@.len(),
            decreases decided@.len() - i,
        {
            if decided[i].leaf.view_number == anchor {
                return Some(decided[i].leaf.block_header.block_number);
            }
            i += 1;
        }
        None
    }

    /// Appends an output that carries no vote and no decision.
    fn output(&self, out: &mut Vec<ConsensusOutput>, o: ConsensusOutput)
        requires
            step_ready(*self, old(out)@),
            vote_of(o, VoteKind::Quorum) is None,
            vote_of(o, VoteKind::Timeout) is None,
            forall|lo: u64, hi: u64| #[trigger] decide_ok(o, lo, hi),
        ensures
            step_ok(*self, *self, old(out)@, final(out)@),
            final(out)@ == old(out)@.push(o),
    {
        emit(out, o);
        assert(decides_ok(old(out)@, old(out)@.len() as int, self.consensus.last_decided_view, self.consensus.last_decided_view));
    }

    /// The verdict on a proposal, in the order the checks are made.
    pub open spec fn proposal_verdict(&self, proposal: Proposal, sender: u64) -> ProposalCheck {
        let v = proposal.data.view_number;
        if v < self.cur_view {
            ProposalCheck::Stale
        } else if v == 0 || v > MAX_VIEW {
            ProposalCheck::Malformed
        } else if self.quorum_membership.leader_spec(v) != sender {
            ProposalCheck::WrongLeader
        } else if proposal.data.justify_qc.view != v - 1 && !(proposal.data.timeout_certificate matches Some(tc)
            && tc.data == crate::certificate::timeout_data_spec((v - 1) as u64) && crate::certificate::cert_valid(
            tc,
            self.timeout_membership,
        )) {
            ProposalCheck::InvalidTimeoutCert
        } else if !crate::certificate::cert_valid(proposal.data.justify_qc, self.quorum_membership) {
            ProposalCheck::InvalidQc
        } else if proposal.data.upgrade_certificate matches Some(uc) && !crate::certificate::upgrade_valid(
            uc,
            self.quorum_membership,
        ) {
            ProposalCheck::InvalidUpgradeCert
        } else {
            ProposalCheck::Valid
        }
    }

    /// Checks a proposal before anything is changed: fresh, from the view's
    /// leader, with a valid timeout certificate for the previous view where its
    /// justify QC is not for the previous view, a valid justify QC, and a valid
    /// upgrade certificate if one is attached.
    pub fn check_proposal(&self, proposal: &Proposal, sender: u64) -> (r: ProposalCheck)
        requires
            self.wf(),
        ensures
            r == self.proposal_verdict(*proposal, sender),
    {
        let view = proposal.data.view_number;
        if view < self.cur_view {
            return ProposalCheck::Stale;
        }
        if view == 0 || view > MAX_VIEW {
            return ProposalCheck::Malformed;
        }
        if self.quorum_membership.get_leader(view) != sender {
            return ProposalCheck::WrongLeader;
        }
        if proposal.data.justify_qc.view != view - 1 {
            match &proposal.data.timeout_certificate {
                Some(tc) => {
                    if tc.data != timeout_data(view - 1) || !tc.is_valid_cert(&self.timeout_membership) {
                        return ProposalCheck::InvalidTimeoutCert;
                    }
                },
                None => return ProposalCheck::InvalidTimeoutCert,
            }
        }
        if !proposal.data.justify_qc.is_valid_cert(&self.quorum_membership) {
            return ProposalCheck::InvalidQc;
        }
        if let Some(uc) = &proposal.data.upgrade_certificate {
            if !uc.is_valid_cert(&self.quorum_membership) {
                return ProposalCheck::InvalidUpgradeCert;
            }
        }
        ProposalCheck::Valid
    }

    /// After a proposal for `view` is kept: the leader of the next view
    /// proposes where its high QC is for `view`; every other node votes.
    fn propose_or_vote(&mut self, view: u64, out: &mut Vec<ConsensusOutput>)
        requires
            step_ready(*old(self), old(out)@),
            view <= MAX_VIEW,
        ensures
            step_ok(*old(self), *final(self), old(out)@, final(out)@),
            final(self).last_timeout_vote_view == old(self).last_timeout_vote_view,
            final(self).cur_view == old(self).cur_view,
            final(self).consensus == old(self).consensus,
            old(self).quorum_membership.leader_spec((view + 1) as u64) != old(self).public_key ==> old(self).votes_after(
                *final(self),
                old(out)@,
                final(out)@,
                old(self).vid_shares@,
                old(self).consensus.saved_da_certs@,
            ),
    {
        proof {
            lemma_step_refl(*old(self), old(out)@);
        }
        if self.quorum_membership.get_leader(view + 1) == self.public_key {
            if self.consensus.high_qc.view == view {
                self.publish_proposal_if_able(view + 1, None, out);
            }
        } else {
            self.vote_if_able(out);
        }
    }

    /// Keeps a proposal whose parent is unknown, and votes on liveness alone.
    fn accept_orphan(&mut self, proposal: &Proposal, sender: u64, out: &mut Vec<ConsensusOutput>)
        requires
            step_ready(*old(self), old(out)@),
            proposal.data.view_number <= old(self).cur_view,
            proposal.data.view_number <= MAX_VIEW,
        ensures
            step_ok(*old(self), *final(self), old(out)@, final(out)@),
            final(self).last_timeout_vote_view == old(self).last_timeout_vote_view,
            final(self).cur_view == old(self).cur_view,
    {
        let view = proposal.data.view_number;
        let justify_qc = proposal.data.justify_qc.copy_of();
        let justify_view = justify_qc.view;
        let header = proposal.data.block_header;
        let leaf = Leaf {
            view_number: view,
            justify_qc: justify_qc.copy_of(),
            parent_commitment: justify_qc.data,
            block_header: header,
            block_payload: None,
            proposer_id: sender,
            upgrade_certificate: match &proposal.data.upgrade_certificate {
                Some(c) => Some(c.copy_of()),
                None => None,
            },
        };
        let state = crate::data::ValidatedState::from_header(&header);
        let lc = leaf.commit();
        self.consensus.insert_view(view, crate::data::ViewInner::Leaf { leaf: lc, state });
        self.consensus.insert_leaf(lc, leaf);
        let ghost s1 = *self;
        let ghost o1 = out@;
        assert(step_ok(*old(self), s1, old(out)@, o1));
        if justify_view > self.consensus.locked_view {
            self.current_proposal = Some(proposal.data.copy_of());
            let ghost s2 = *self;
            assert(step_ok(s1, s2, o1, o1));
            self.propose_or_vote(view, out);
            proof {
                lemma_step_trans(*old(self), s1, s2, old(out)@, o1, o1);
                lemma_step_trans(*old(self), s2, *self, old(out)@, o1, out@);
            }
        }
    }

    /// Accepts a validated leaf: holds its proposal, announces it, runs the
    /// chain commit rule, stores the leaf, moves the locked view up, and runs
    /// the decide step on a three-chain.
    #[verifier::rlimit(50)]
    fn accept_leaf(
        &mut self,
        proposal: Proposal,
        sender: u64,
        leaf: Leaf,
        leaf_commitment: Commitment,
        state: crate::data::ValidatedState,
        out: &mut Vec<ConsensusOutput>,
    )
        requires
            step_ready(*old(self), old(out)@),
            leaf.view_number <= old(self).cur_view,
            leaf.justify_qc.view <= old(self).consensus.high_qc.view,
        ensures
            step_ok(*old(self), *final(self), old(out)@, final(out)@),
            final(self).last_timeout_vote_view == old(self).last_timeout_vote_view,
            final(self).cur_view == old(self).cur_view,
            final(self).consensus.locked_view == if crate::consensus::two_chain(
                old(self).consensus,
                leaf.view_number,
                leaf.justify_qc.view,
            ) && crate::consensus::second_of(old(self).consensus, leaf.justify_qc.view).view_number > old(
                self,
            ).consensus.locked_view {
                crate::consensus::second_of(old(self).consensus, leaf.justify_qc.view).view_number
            } else {
                old(self).consensus.locked_view
            },
            final(self).consensus.last_decided_view == if crate::consensus::three_chain(
                old(self).consensus,
                leaf.view_number,
                leaf.justify_qc.view,
            ) {
                crate::consensus::anchor_of(old(self).consensus, leaf.justify_qc.view).view_number
            } else {
                old(self).consensus.last_decided_view
            },
            crate::consensus::view_lookup(final(self).consensus.validated_state_map@, leaf.view_number) == Some(
                crate::data::ViewInner::Leaf { leaf: leaf_commitment, state },
            ),
            final(self).current_proposal matches Some(p) && p.view_number == proposal.data.view_number,
            crate::consensus::three_chain(old(self).consensus, leaf.view_number, leaf.justify_qc.view) ==> exists|i: int|
                old(out)@.len() <= i < final(out)@.len() && decided_chain_views(#[trigger] final(out)@[i]) == Some(
                    crate::consensus::decided_views(old(self).consensus, leaf.justify_qc.view),
                ),
            !crate::consensus::three_chain(old(self).consensus, leaf.view_number, leaf.justify_qc.view) ==> final(self).vid_shares
                == old(self).vid_shares && final(self).consensus.saved_da_certs@ == old(self).consensus.saved_da_certs@
                && final(self).consensus.saved_leaves@ == old(self).consensus.saved_leaves@.push(
                crate::consensus::SavedLeaf { commit: leaf_commitment, leaf },
            ),
            final(self).last_voted_view == old(self).last_voted_view,
            final(self).current_proposal matches Some(q) && q.view_number == proposal.data.view_number && q.block_header
                == proposal.data.block_header && q.justify_qc.same_as(proposal.data.justify_qc),
    {
        let view = leaf.view_number;
        let justify_view = leaf.justify_qc.view;
        self.current_proposal = Some(proposal.data.copy_of());
        let ghost s1 = *self;
        assert(step_ok(*old(self), s1, old(out)@, old(out)@));
        self.output(out, ConsensusOutput::QuorumProposal { proposal, sender });
        proof {
            lemma_step_trans(*old(self), s1, s1, old(out)@, old(out)@, out@);
        }
        let ghost o2 = out@;
        let outcome = self.consensus.commit_rule(view, justify_view);
        proof {
            if crate::consensus::three_chain(self.consensus, view, justify_view) {
                crate::consensus::lemma_chain_views_falling(
                    self.consensus,
                    crate::consensus::anchor_of(self.consensus, justify_view),
                    self.consensus.last_decided_view,
                );
            }
        }
        self.consensus.insert_view(view, crate::data::ViewInner::Leaf { leaf: leaf_commitment, state });
        let leaf_copy = leaf.copy_of();
        self.consensus.insert_leaf(leaf_commitment, leaf);
        if let Some(x) = outcome.new_locked_view {
            if x > self.consensus.locked_view {
                self.consensus.locked_view = x;
            }
        }
        let ghost s3 = *self;
        assert(step_ok(*old(self), s3, old(out)@, o2));
        if let Some(anchor) = outcome.new_anchor_view {
            assert(crate::consensus::views_of(outcome.decided@)[0] == outcome.decided@[0].leaf.view_number);
            assert forall|i: int, j: int|
                0 <= i < j < outcome.decided@.len() implies #[trigger] outcome.decided@[i].leaf.view_number
                    > #[trigger] outcome.decided@[j].leaf.view_number by {
                assert(crate::consensus::views_of(outcome.decided@)[i] == outcome.decided@[i].leaf.view_number);
                assert(crate::consensus::views_of(outcome.decided@)[j] == outcome.decided@[j].leaf.view_number);
            }
            assert forall|i: int|
                0 <= i < outcome.decided@.len() implies self.consensus.last_decided_view
                    < #[trigger] outcome.decided@[i].leaf.view_number by {
                assert(crate::consensus::views_of(outcome.decided@)[i] == outcome.decided@[i].leaf.view_number);
            }
            self.decide(&outcome, anchor, &leaf_copy, out);
            proof {
                lemma_step_trans(*old(self), s3, *self, old(out)@, o2, out@);
                assert(decided_chain_views(out@[o2.len() as int + 1]) == Some(
                    crate::consensus::decided_views(old(self).consensus, justify_view),
                ));
            }
        }
    }

    /// Handles a proposal whose parent is known: applies its header to the
    /// parent's state, checks the leader's signature over the new leaf, and
    /// accepts the leaf where the safety or the liveness check passes; then
    /// proposes as next leader, or votes.
    pub fn accept_with_parent(
        &mut self,
        proposal: Proposal,
        sender: u64,
        parent_commitment: Commitment,
        parent_header: BlockHeader,
        parent_state: crate::data::ValidatedState,
        out: &mut Vec<ConsensusOutput>,
    )
        requires
            step_ready(*old(self), old(out)@),
            proposal.data.view_number <= old(self).cur_view,
            proposal.data.view_number <= MAX_VIEW,
            proposal.data.justify_qc.view <= old(self).consensus.high_qc.view,
        ensures
            step_ok(*old(self), *final(self), old(out)@, final(out)@),
            final(self).last_timeout_vote_view == old(self).last_timeout_vote_view,
            final(self).cur_view == old(self).cur_view,
            !old(self).accepts(proposal, sender, parent_commitment, parent_header) ==> final(self).consensus
                == old(self).consensus && final(self).current_proposal == old(self).current_proposal
                && final(self).last_voted_view == old(self).last_voted_view,
            old(self).accepts(proposal, sender, parent_commitment, parent_header) ==> {
                let c = old(self).consensus;
                let v = proposal.data.view_number;
                let jv = proposal.data.justify_qc.view;
                &&& final(self).consensus.locked_view == if crate::consensus::two_chain(c, v, jv)
                    && crate::consensus::second_of(c, jv).view_number > c.locked_view {
                    crate::consensus::second_of(c, jv).view_number
                } else {
                    c.locked_view
                }
                &&& final(self).consensus.last_decided_view == if crate::consensus::three_chain(c, v, jv) {
                    crate::consensus::anchor_of(c, jv).view_number
                } else {
                    c.last_decided_view
                }
                &&& crate::consensus::view_lookup(final(self).consensus.validated_state_map@, v) == Some(
                    crate::data::ViewInner::Leaf {
                        leaf: crate::data::leaf_commit_spec(
                            proposed_leaf(proposal.data, sender, parent_commitment),
                        ),
                        state: crate::data::ValidatedState { block_height: proposal.data.block_header.block_number },
                    },
                )
            },
            (old(self).accepts(proposal, sender, parent_commitment, parent_header) && crate::consensus::three_chain(
                old(self).consensus,
                proposal.data.view_number,
                proposal.data.justify_qc.view,
            )) ==> exists|i: int|
                old(out)@.len() <= i < final(out)@.len() && decided_chain_views(#[trigger] final(out)@[i]) == Some(
                    crate::consensus::decided_views(old(self).consensus, proposal.data.justify_qc.view),
                ),
            (old(self).accepts(proposal, sender, parent_commitment, parent_header) && old(self).quorum_membership.leader_spec(
                (proposal.data.view_number + 1) as u64,
            ) != old(self).public_key && !crate::consensus::three_chain(
                old(self).consensus,
                proposal.data.view_number,
                proposal.data.justify_qc.view,
            ) && (proposal.data.justify_qc.is_genesis || leaf_lookup(
                old(self).consensus.saved_leaves@,
                proposal.data.justify_qc.data,
            ) is Some)) ==> if old(self).vote_cond(
                proposal.data,
                old(self).vid_shares@,
                old(self).consensus.saved_da_certs@,
            ) {
                final(out)@.last() == old(self).vote_output(proposal.data) && final(self).last_voted_view
                    == proposal.data.view_number
            } else {
                final(self).last_voted_view == old(self).last_voted_view
            },
    {
        proof {
            lemma_step_refl(*old(self), old(out)@);
        }
        let view = proposal.data.view_number;
        let header = proposal.data.block_header;
        let state = match parent_state.validate_and_apply_header(&parent_header, &header) {
            Some(st) => st,
            None => return,
        };
        let leaf = Leaf {
            view_number: view,
            justify_qc: proposal.data.justify_qc.copy_of(),
            parent_commitment,
            block_header: header,
            block_payload: None,
            proposer_id: sender,
            upgrade_certificate: match &proposal.data.upgrade_certificate {
                Some(c) => Some(c.copy_of()),
                None => None,
            },
        };
        let leaf_commitment = leaf.commit();
        if !validate_signature(sender, &proposal.signature, leaf_commitment) {
            return;
        }
        let justify_view = leaf.justify_qc.view;
        let liveness_check = justify_view > self.consensus.locked_view;
        let safety_check = self.consensus.extends_locked(justify_view);
        if !safety_check {
            self.output(out, ConsensusOutput::Error(view));
        }
        if !safety_check && !liveness_check {
            return;
        }
        let ghost s1 = *self;
        let ghost o1 = out@;
        self.accept_leaf(proposal, sender, leaf, leaf_commitment, state, out);
        let ghost s2 = *self;
        let ghost o2 = out@;
        proof {
            lemma_step_trans(*old(self), s1, s2, old(out)@, o1, o2);
            if !crate::consensus::three_chain(old(self).consensus, view, justify_view) {
                assert(s2.consensus.saved_leaves@.drop_last() =~= old(self).consensus.saved_leaves@);
            }
        }
        self.propose_or_vote(view, out);
        proof {
            lemma_step_trans(*old(self), s2, *self, old(out)@, o2, out@);
            if crate::consensus::three_chain(old(self).consensus, view, justify_view) {
                let i = choose|i: int|
                    o1.len() <= i < o2.len() && decided_chain_views(#[trigger] o2[i]) == Some(
                        crate::consensus::decided_views(old(self).consensus, justify_view),
                    );
                assert(out@[i] == o2[i]);
            }
        }
    }

    /// Handles a received proposal: validates it, advances the view, accepts
    /// its leaf when the safety or the liveness check passes, runs the chain
    /// commit rule, then proposes (as next leader) or votes. A proposal whose
    /// justify QC does not validate only counts an invalid QC.
    #[verifier::rlimit(100)]
    #[verifier::spinoff_prover]
    pub fn handle_quorum_proposal(&mut self, proposal: Proposal, sender: u64, out: &mut Vec<ConsensusOutput>)
        requires
            step_ready(*old(self), old(out)@),
        ensures
            step_ok(*old(self), *final(self), old(out)@, final(out)@),
            final(self).last_timeout_vote_view == old(self).last_timeout_vote_view,
            proposal.data.view_number < old(self).cur_view ==> *final(self) == *old(self),
            old(self).proposal_verdict(proposal, sender) != ProposalCheck::Valid ==> final(self).cur_view == old(
                self,
            ).cur_view && final(self).current_proposal == old(self).current_proposal && final(self).last_voted_view
                == old(self).last_voted_view && final(self).consensus.locked_view == old(self).consensus.locked_view
                && final(self).consensus.last_decided_view == old(self).consensus.last_decided_view,
            old(self).proposal_verdict(proposal, sender) == ProposalCheck::InvalidQc ==> final(self).consensus.metrics.invalid_qc
                == if old(self).consensus.metrics.invalid_qc < u64::MAX {
                (old(self).consensus.metrics.invalid_qc + 1) as u64
            } else {
                old(self).consensus.metrics.invalid_qc
            },
            old(self).proposal_verdict(proposal, sender) == ProposalCheck::Valid ==> final(self).cur_view
                == proposal.data.view_number,
            old(self).proposal_verdict(proposal, sender) != ProposalCheck::Valid ==> final(out)@ == old(out)@.push(
                ConsensusOutput::QuorumIntent(ConsensusIntent::CancelPollForProposal(proposal.data.view_number)),
            ),
            old(self).proposal_verdict(proposal, sender) == ProposalCheck::InvalidQc ==> *final(self) == (ConsensusTaskState {
                consensus: Consensus {
                    metrics: crate::consensus::ConsensusMetrics {
                        invalid_qc: if old(self).consensus.metrics.invalid_qc < u64::MAX {
                            (old(self).consensus.metrics.invalid_qc + 1) as u64
                        } else {
                            old(self).consensus.metrics.invalid_qc
                        },
                        ..old(self).consensus.metrics
                    },
                    ..old(self).consensus
                },
                ..*old(self)
            }),
            (old(self).proposal_verdict(proposal, sender) != ProposalCheck::Valid && old(self).proposal_verdict(
                proposal,
                sender,
            ) != ProposalCheck::InvalidQc) ==> *final(self) == *old(self),
            (old(self).proposal_verdict(proposal, sender) == ProposalCheck::Valid && known_parent(
                old(self).consensus,
                proposal.data,
            ) is Some) ==> {
                let c = old(self).consensus;
                let v = proposal.data.view_number;
                let jv = proposal.data.justify_qc.view;
                let pp = known_parent(c, proposal.data)->Some_0;
                if old(self).accepts(proposal, sender, pp.0, pp.1) {
                    &&& final(self).consensus.locked_view == if crate::consensus::two_chain(c, v, jv)
                        && crate::consensus::second_of(c, jv).view_number > c.locked_view {
                        crate::consensus::second_of(c, jv).view_number
                    } else {
                        c.locked_view
                    }
                    &&& final(self).consensus.last_decided_view == if crate::consensus::three_chain(c, v, jv) {
                        crate::consensus::anchor_of(c, jv).view_number
                    } else {
                        c.last_decided_view
                    }
                    &&& crate::consensus::view_lookup(final(self).consensus.validated_state_map@, v) == Some(
                        crate::data::ViewInner::Leaf {
                            leaf: crate::data::leaf_commit_spec(proposed_leaf(proposal.data, sender, pp.0)),
                            state: crate::data::ValidatedState { block_height: proposal.data.block_header.block_number },
                        },
                    )
                    &&& (old(self).quorum_membership.leader_spec((v + 1) as u64) != old(self).public_key
                        && !crate::consensus::three_chain(c, v, jv)) ==> if old(self).vote_cond(
                        proposal.data,
                        old(self).vid_shares@,
                        c.saved_da_certs@,
                    ) {
                        final(out)@.last() == old(self).vote_output(proposal.data) && final(self).last_voted_view == v
                    } else {
                        final(self).last_voted_view == old(self).last_voted_view
                    }
                    &&& crate::consensus::three_chain(c, v, jv) ==> exists|i: int|
                        old(out)@.len() <= i < final(out)@.len() && decided_chain_views(#[trigger] final(out)@[i])
                            == Some(crate::consensus::decided_views(c, jv))
                } else {
                    &&& final(self).consensus.saved_leaves == c.saved_leaves
                    &&& final(self).consensus.validated_state_map == c.validated_state_map
                    &&& final(self).consensus.locked_view == c.locked_view
                    &&& final(self).consensus.last_decided_view == c.last_decided_view
                    &&& final(self).current_proposal == old(self).current_proposal
                    &&& final(self).last_voted_view == old(self).last_voted_view
                }
            },
            proposal_effects(*old(self), *final(self), old(out)@, final(out)@, proposal, sender),
    {
        let view = proposal.data.view_number;
        self.output(out, ConsensusOutput::QuorumIntent(ConsensusIntent::CancelPollForProposal(view)));
        let ghost s1 = *self;
        let ghost o1 = out@;
        match self.check_proposal(&proposal, sender) {
            ProposalCheck::Valid => {},
            ProposalCheck::InvalidQc => {
                if self.consensus.metrics.invalid_qc < u64::MAX {
                    self.consensus.metrics.invalid_qc = self.consensus.metrics.invalid_qc + 1;
                }
                assert(step_ok(s1, *self, o1, o1));
                proof {
                    lemma_step_trans(*old(self), s1, *self, old(out)@, o1, o1);
                }
                return;
            },
            _ => return,
        }
        self.update_view(view, out);
        let ghost s2 = *self;
        let ghost o2 = out@;
        proof {
            lemma_step_trans(*old(self), s1, s2, old(out)@, o1, o2);
        }
        let justify_genesis = proposal.data.justify_qc.is_genesis;
        let parent: Option<(Commitment, BlockHeader, crate::data::ValidatedState)> = if justify_genesis {
            let g = Leaf::genesis();
            Some((g.commit(), g.block_header, crate::data::ValidatedState::genesis()))
        } else {
            match self.consensus.find_leaf(proposal.data.justify_qc.data) {
                Some(i) => {
                    let pv = self.consensus.saved_leaves[i].leaf.view_number;
                    match self.consensus.get_state(pv) {
                        Some(st) => Some((self.consensus.saved_leaves[i].commit, self.consensus.saved_leaves[i].leaf.block_header, st)),
                        None => return,
                    }
                },
                None => None,
            }
        };
        let ghost o3 = out@;
        proof {
            lemma_step_refl(s2, o2);
            lemma_step_trans(*old(self), s2, s2, old(out)@, o2, o3);
        }
        if proposal.data.justify_qc.view > self.consensus.high_qc.view {
            self.consensus.high_qc = proposal.data.justify_qc.copy_of();
        }
        let ghost s4 = *self;
        assert(step_ok(s2, s4, o3, o3));
        proof {
            lemma_step_trans(*old(self), s2, s4, old(out)@, o3, o3);
        }
        proof {
            let c = old(self).consensus;
            let jv = proposal.data.justify_qc.view;
            if let Some(l) = crate::consensus::leaf_at_view(c, jv) {
                lemma_reaches_frame(c, s4.consensus, l, c.locked_view);
            }
            lemma_chain_views_frame(
                c,
                s4.consensus,
                crate::consensus::anchor_of(c, jv),
                c.last_decided_view,
            );
        }
        match parent {
            Some((pc, ph, ps)) => self.accept_with_parent(proposal, sender, pc, ph, ps, out),
            None => self.accept_orphan(&proposal, sender, out),
        }
        proof {
            lemma_step_trans(*old(self), s4, *self, old(out)@, o3, out@);
        }
    }

    /// Counts a quorum or timeout vote where this node leads the next view:
    /// starts an accumulator for a newer view, drops votes for older views,
    /// and announces the certificate once it forms.
    pub fn handle_vote(&mut self, vote: SimpleVote, out: &mut Vec<ConsensusOutput>)
        requires
            step_ready(*old(self), old(out)@),
        ensures
            step_ok(*old(self), *final(self), old(out)@, final(out)@),
            final(self).last_timeout_vote_view == old(self).last_timeout_vote_view,
            final(self).cur_view == old(self).cur_view,
            final(self).consensus == old(self).consensus,
            final(out)@.len() <= old(out)@.len() + 1,
            final(out)@.len() == old(out)@.len() + 1 ==> formed_from(
                final(out)@.last(),
                vote,
                old(self).quorum_membership,
                old(self).timeout_membership,
            ),
            final(out)@.len() == old(out)@.len() + 1 <==> old(self).vote_forms(vote),
            vote_effects(*old(self), *final(self), old(out)@, final(out)@, vote),
    {
        proof {
            lemma_step_refl(*old(self), old(out)@);
        }
        if vote.view >= MAX_VIEW || vote.kind == VoteKind::Da {
            return;
        }
        let quorum = vote.kind == VoteKind::Quorum;
        let leader = if quorum {
            self.quorum_membership.get_leader(vote.view + 1)
        } else {
            self.timeout_membership.get_leader(vote.view + 1)
        };
        if leader != self.public_key {
            return;
        }
        let current = if quorum {
            self.vote_collector.take()
        } else {
            self.timeout_vote_collector.take()
        };
        let mut acc = match current {
            Some(a) => if vote.view > a.view {
                VoteAccumulator::new(vote.kind, vote.view)
            } else {
                a
            },
            None => VoteAccumulator::new(vote.kind, vote.view),
        };
        if acc.view != vote.view {
            if quorum {
                self.vote_collector = Some(acc);
            } else {
                self.timeout_vote_collector = Some(acc);
            }
            return;
        }
        let formed = if quorum {
            acc.accumulate(vote, &self.quorum_membership)
        } else {
            acc.accumulate(vote, &self.timeout_membership)
        };
        match formed {
            Some(cert) => {
                if quorum {
                    self.vote_collector = None;
                    self.output(out, ConsensusOutput::QcFormed(CertFormed::Quorum(cert)));
                } else {
                    self.timeout_vote_collector = None;
                    self.output(out, ConsensusOutput::QcFormed(CertFormed::Timeout(cert)));
                }
            },
            None => {
                if quorum {
                    self.vote_collector = Some(acc);
                } else {
                    self.timeout_vote_collector = Some(acc);
                }
            },
        }
    }

    /// A certificate formed: a QC raises the high QC if it is newer, a TC is
    /// kept for the next proposal; either way the next leader tries to propose.
    #[verifier::rlimit(80)]
    #[verifier::spinoff_prover]
    pub fn handle_qc_formed(&mut self, cert: CertFormed, out: &mut Vec<ConsensusOutput>)
        requires
            step_ready(*old(self), old(out)@),
        ensures
            step_ok(*old(self), *final(self), old(out)@, final(out)@),
            final(self).last_timeout_vote_view == old(self).last_timeout_vote_view,
            final(self).cur_view == old(self).cur_view,
            (cert matches CertFormed::Quorum(qc) && qc.view < MAX_VIEW) ==> {
                let qc = cert->Quorum_0;
                let hq = if qc.view > old(self).consensus.high_qc.view {
                    qc
                } else {
                    old(self).consensus.high_qc
                };
                let mid = ConsensusTaskState { consensus: Consensus { high_qc: hq, ..old(self).consensus }, ..*old(self) };
                let o = old(out)@.push(ConsensusOutput::QuorumIntent(ConsensusIntent::CancelPollForVotes(qc.view)));
                &&& final(self).consensus.high_qc == hq
                &&& mid.propose_ready((qc.view + 1) as u64) ==> final(out)@.len() == o.len() + 1 && final(out)@.subrange(
                    0,
                    o.len() as int,
                ) == o && final(out)@.last() is QuorumProposalSend
                &&& !mid.propose_ready((qc.view + 1) as u64) ==> final(out)@ == o && *final(self) == mid
            },
            (cert matches CertFormed::Timeout(tc) && tc.view < MAX_VIEW) ==> {
                let tc = cert->Timeout_0;
                let o = old(out)@.push(ConsensusOutput::QuorumIntent(ConsensusIntent::CancelPollForVotes(tc.view)));
                &&& final(self).consensus == old(self).consensus
                &&& old(self).propose_ready((tc.view + 1) as u64) ==> final(out)@.len() == o.len() + 1 && final(out)@.subrange(0, o.len() as int) == o && (final(out)@.last() matches ConsensusOutput::QuorumProposalSend(
                    pr,
                    _,
                ) && pr.data.timeout_certificate == Some(tc))
                &&& !old(self).propose_ready((tc.view + 1) as u64) ==> final(out)@ == o && (final(self).timeout_cert matches Some(t) && t.same_as(tc))
            },
            cert->Quorum_0.view >= MAX_VIEW && cert is Quorum ==> *final(self) == *old(self) && final(out)@ == old(out)@,
            qc_formed_effects(*old(self), *final(self), old(out)@, final(out)@, cert),
    {
        proof {
            lemma_step_refl(*old(self), old(out)@);
        }
        let v = match &cert {
            CertFormed::Quorum(qc) => qc.view,
            CertFormed::Timeout(tc) => tc.view,
        };
        if v >= MAX_VIEW {
            return;
        }
        match cert {
            CertFormed::Timeout(tc) => {
                self.timeout_cert = Some(tc.copy_of());
                let ghost s1 = *self;
                self.output(out, ConsensusOutput::QuorumIntent(ConsensusIntent::CancelPollForVotes(v)));
                let ghost o1 = out@;
                proof {
                    lemma_step_trans(*old(self), s1, s1, old(out)@, old(out)@, o1);
                }
                self.publish_proposal_if_able(v + 1, Some(tc), out);
                proof {
                    lemma_step_trans(*old(self), s1, *self, old(out)@, o1, out@);
                }
            },
            CertFormed::Quorum(qc) => {
                if qc.view > self.consensus.high_qc.view {
                    self.consensus.high_qc = qc;
                }
                let ghost s1 = *self;
                self.output(out, ConsensusOutput::QuorumIntent(ConsensusIntent::CancelPollForVotes(v)));
                let ghost o1 = out@;
                proof {
                    lemma_step_trans(*old(self), s1, s1, old(out)@, old(out)@, o1);
                }
                self.publish_proposal_if_able(v + 1, None, out);
                proof {
                    lemma_step_trans(*old(self), s1, *self, old(out)@, o1, out@);
                }
            },
        }
    }

    /// A DA certificate arrived: stop polling for it, save it, and vote if now able.
    pub fn handle_dac(&mut self, cert: DaCertificate, out: &mut Vec<ConsensusOutput>)
        requires
            step_ready(*old(self), old(out)@),
        ensures
            step_ok(*old(self), *final(self), old(out)@, final(out)@),
            final(self).last_timeout_vote_view == old(self).last_timeout_vote_view,
            final(self).cur_view == old(self).cur_view,
            final(self).consensus.saved_da_certs@ == old(self).consensus.saved_da_certs@.push(cert),
            da_lookup(final(self).consensus.saved_da_certs@, cert.view) == Some(cert),
            old(self).votes_after(
                *final(self),
                old(out)@.push(ConsensusOutput::QuorumIntent(ConsensusIntent::CancelPollForDac(cert.view))).push(
                    ConsensusOutput::CommitteeIntent(ConsensusIntent::CancelPollForVotes(cert.view)),
                ),
                final(out)@,
                old(self).vid_shares@,
                old(self).consensus.saved_da_certs@.push(cert),
            ),
            dac_effects(*old(self), *final(self), old(out)@, final(out)@, cert),
    {
        let v = cert.view;
        self.output(out, ConsensusOutput::QuorumIntent(ConsensusIntent::CancelPollForDac(v)));
        let ghost o1 = out@;
        self.output(out, ConsensusOutput::CommitteeIntent(ConsensusIntent::CancelPollForVotes(v)));
        let ghost o2 = out@;
        proof {
            lemma_step_trans(*old(self), *old(self), *old(self), old(out)@, o1, o2);
        }
        self.consensus.saved_da_certs.push(cert);
        let ghost s3 = *self;
        assert(step_ok(*old(self), s3, old(out)@, o2));
        self.vote_if_able(out);
        proof {
            lemma_step_trans(*old(self), s3, *self, old(out)@, o2, out@);
        }
    }

    /// A VID share arrived: kept if at most one view old and signed by its
    /// view's leader over its payload commitment; then vote if now able.
    pub fn handle_vid_disperse(&mut self, share: VidShare, sender: u64, out: &mut Vec<ConsensusOutput>)
        requires
            step_ready(*old(self), old(out)@),
        ensures
            step_ok(*old(self), *final(self), old(out)@, final(out)@),
            final(self).last_timeout_vote_view == old(self).last_timeout_vote_view,
            final(self).cur_view == old(self).cur_view,
            !old(self).vid_accepted(share, sender) ==> *final(self) == *old(self) && final(out)@ == old(out)@,
            old(self).vid_accepted(share, sender) ==> final(self).vid_shares@ == old(self).vid_shares@.push(share)
                && old(self).votes_after(
                *final(self),
                old(out)@.push(
                    ConsensusOutput::QuorumIntent(ConsensusIntent::CancelPollForVidDisperse(share.view_number)),
                ),
                final(out)@,
                old(self).vid_shares@.push(share),
                old(self).consensus.saved_da_certs@,
            ),
            vid_effects(*old(self), *final(self), old(out)@, final(out)@, share, sender),
    {
        proof {
            lemma_step_refl(*old(self), old(out)@);
        }
        let v = share.view_number;
        if v >= MAX_VIEW || v + 1 < self.cur_view {
            return;
        }
        let leader = self.quorum_membership.get_leader(v);
        if leader != sender {
            return;
        }
        if !validate_signature(leader, &share.signature, share.payload_commitment) {
            return;
        }
        self.output(out, ConsensusOutput::QuorumIntent(ConsensusIntent::CancelPollForVidDisperse(v)));
        let ghost o1 = out@;
        self.vid_shares.push(share);
        let ghost s2 = *self;
        assert(step_ok(*old(self), s2, old(out)@, o1));
        self.vote_if_able(out);
        proof {
            lemma_step_trans(*old(self), s2, *self, old(out)@, o1, out@);
        }
    }

    /// A view change: poll for the next VID share, advance the view, activate
    /// a decided upgrade whose first block is reached, and report the view
    /// that finished.
    pub fn handle_view_change(&mut self, new_view: u64, out: &mut Vec<ConsensusOutput>)
        requires
            step_ready(*old(self), old(out)@),
        ensures
            step_ok(*old(self), *final(self), old(out)@, final(out)@),
            final(self).last_timeout_vote_view == old(self).last_timeout_vote_view,
            final(self).cur_view == if old(self).cur_view < new_view && new_view <= MAX_VIEW {
                new_view
            } else {
                old(self).cur_view
            },
            (old(self).cur_view < new_view && new_view <= MAX_VIEW && (old(self).decided_upgrade_cert matches Some(c)
                && new_view >= c.new_version_first_block)) ==> final(self).current_network_version == old(
                self,
            ).decided_upgrade_cert->Some_0.new_version && final(self).decided_upgrade_cert is None,
            new_view > MAX_VIEW ==> *final(self) == *old(self) && final(out)@ == old(out)@,
            (new_view <= MAX_VIEW && new_view <= old(self).cur_view) ==> *final(self) == *old(self) && final(out)@
                == old(out)@.push(
                ConsensusOutput::QuorumIntent(ConsensusIntent::PollForVidDisperse((old(self).cur_view + 1) as u64)),
            ),
            (new_view <= MAX_VIEW && old(self).cur_view < new_view) ==> final(out)@ == old(out)@.push(
                ConsensusOutput::QuorumIntent(ConsensusIntent::PollForVidDisperse((old(self).cur_view + 1) as u64)),
            ) + view_change_outputs(*old(self), new_view).push(ConsensusOutput::ViewFinished(old(self).cur_view)),
            (old(self).cur_view < new_view && new_view <= MAX_VIEW && !(old(self).decided_upgrade_cert matches Some(c)
                && new_view >= c.new_version_first_block)) ==> final(self).current_network_version == old(
                self,
            ).current_network_version && final(self).decided_upgrade_cert == old(self).decided_upgrade_cert,
            view_change_effects(*old(self), *final(self), old(out)@, final(out)@, new_view),
    {
        proof {
            lemma_step_refl(*old(self), old(out)@);
        }
        if new_view > MAX_VIEW {
            return;
        }
        let old_view = self.cur_view;
        self.output(out, ConsensusOutput::QuorumIntent(ConsensusIntent::PollForVidDisperse(old_view + 1)));
        let ghost o1 = out@;
        if !self.update_view(new_view, out) {
            return;
        }
        let ghost s2 = *self;
        let ghost o2 = out@;
        proof {
            lemma_step_trans(*old(self), *old(self), s2, old(out)@, o1, o2);
        }
        let activate = match &self.decided_upgrade_cert {
            Some(c) => new_view >= c.new_version_first_block,
            None => false,
        };
        if activate {
            match &self.decided_upgrade_cert {
                Some(c) => {
                    self.current_network_version = c.new_version;
                },
                None => {},
            }
            self.decided_upgrade_cert = None;
        }
        let ghost s3 = *self;
        assert(step_ok(s2, s3, o2, o2));
        self.output(out, ConsensusOutput::ViewFinished(old_view));
        proof {
            lemma_step_trans(*old(self), s2, s3, old(out)@, o2, o2);
            lemma_step_trans(*old(self), s3, s3, old(out)@, o2, out@);
        }
    }

    /// The timer of a view ran out before evidence for it arrived: sign and
    /// send a timeout vote for it, once.
    pub fn handle_timeout(&mut self, view: u64, out: &mut Vec<ConsensusOutput>)
        requires
            step_ready(*old(self), old(out)@),
        ensures
            step_ok(*old(self), *final(self), old(out)@, final(out)@),
            final(self).cur_view == old(self).cur_view,
            final(self).last_timeout_vote_view == if old(self).timeout_fires(view) {
                view
            } else {
                old(self).last_timeout_vote_view
            },
            old(self).timeout_fires(view) ==> final(out)@ == old(out)@ + seq![
                ConsensusOutput::QuorumIntent(ConsensusIntent::CancelPollForVotes(view)),
                ConsensusOutput::QuorumIntent(ConsensusIntent::CancelPollForProposal(view)),
                ConsensusOutput::TimeoutVoteSend(
                    SimpleVote {
                        kind: VoteKind::Timeout,
                        view,
                        data: crate::certificate::timeout_data_spec(view),
                        signer: old(self).public_key,
                    },
                ),
                ConsensusOutput::ReplicaViewTimeout(view),
            ],
            !old(self).timeout_fires(view) ==> final(out)@ == old(out)@ && *final(self) == *old(self),
            timeout_effects(*old(self), *final(self), old(out)@, final(out)@, view),
    {
        proof {
            lemma_step_refl(*old(self), old(out)@);
        }
        if self.cur_view >= view || view <= self.last_timeout_vote_view {
            return;
        }
        if !self.timeout_membership.has_stake(self.public_key) {
            return;
        }
        self.output(out, ConsensusOutput::QuorumIntent(ConsensusIntent::CancelPollForVotes(view)));
        let ghost o1 = out@;
        self.output(out, ConsensusOutput::QuorumIntent(ConsensusIntent::CancelPollForProposal(view)));
        let ghost o2 = out@;
        proof {
            lemma_step_trans(*old(self), *old(self), *old(self), old(out)@, o1, o2);
        }
        let vote = create_signed_vote(VoteKind::Timeout, timeout_data(view), view, self.public_key);
        emit_vote(out, ConsensusOutput::TimeoutVoteSend(vote), VoteKind::Timeout, self.last_timeout_vote_view);
        self.last_timeout_vote_view = view;
        emit(out, ConsensusOutput::ReplicaViewTimeout(view));
        assert(out@ =~= old(out)@ + seq![
            ConsensusOutput::QuorumIntent(ConsensusIntent::CancelPollForVotes(view)),
            ConsensusOutput::QuorumIntent(ConsensusIntent::CancelPollForProposal(view)),
            ConsensusOutput::TimeoutVoteSend(vote),
            ConsensusOutput::ReplicaViewTimeout(view),
        ]);
        if self.consensus.metrics.number_of_timeouts < u64::MAX {
            self.consensus.metrics.number_of_timeouts = self.consensus.metrics.number_of_timeouts + 1;
        }
        assert(decides_ok(out@, o2.len() as int, self.consensus.last_decided_view, self.consensus.last_decided_view));
        assert(step_ok(*old(self), *self, o2, out@));
        proof {
            lemma_step_trans(*old(self), *old(self), *self, old(out)@, o2, out@);
        }
    }

    /// A payload commitment was staged: propose with it where this node leads
    /// the view after the high QC, or where it holds a timeout certificate for
    /// the view before the one it leads.
    pub fn handle_payload_commitment(&mut self, commitment: Commitment, metadata: u64, view: u64, out: &mut Vec<ConsensusOutput>)
        requires
            step_ready(*old(self), old(out)@),
        ensures
            step_ok(*old(self), *final(self), old(out)@, final(out)@),
            final(self).last_timeout_vote_view == old(self).last_timeout_vote_view,
            final(self).cur_view == old(self).cur_view,
            final(out)@ == old(out)@ ==> final(self).payload_commitment_and_metadata == Some(
                CommitmentAndMetadata { commitment, metadata, is_genesis: false },
            ),
            ({
                let mid = ConsensusTaskState {
                    payload_commitment_and_metadata: Some(CommitmentAndMetadata { commitment, metadata, is_genesis: false }),
                    ..*old(self)
                };
                &&& old(self).quorum_membership.leader_spec(view) == old(self).public_key
                &&& old(self).consensus.high_qc.view < MAX_VIEW
                &&& old(self).consensus.high_qc.view + 1 == view
                &&& mid.propose_ready(view)
            }) ==> final(out)@.len() == old(out)@.len() + 1 && (final(out)@.last() matches ConsensusOutput::QuorumProposalSend(
                pr,
                _,
            ) && pr.data.view_number == view) && final(self).payload_commitment_and_metadata is None,
            payload_effects(*old(self), *final(self), old(out)@, final(out)@, commitment, metadata, view),
    {
        self.payload_commitment_and_metadata = Some(CommitmentAndMetadata { commitment, metadata, is_genesis: false });
        let ghost s1 = *self;
        assert(step_ok(*old(self), s1, old(out)@, old(out)@));
        if self.quorum_membership.get_leader(view) == self.public_key && self.consensus.high_qc.view < MAX_VIEW
            && self.consensus.high_qc.view + 1 == view {
            self.publish_proposal_if_able(view, None, out);
        }
        let ghost s2 = *self;
        let ghost o2 = out@;
        proof {
            if s2 == s1 && o2 == old(out)@ {
                lemma_step_refl(s1, o2);
            }
            lemma_step_trans(*old(self), s1, s2, old(out)@, old(out)@, o2);
        }
        let tc = match &self.timeout_cert {
            Some(tc) => if tc.view < MAX_VIEW && self.quorum_membership.get_leader(tc.view + 1) == self.public_key {
                Some(tc.copy_of())
            } else {
                None
            },
            None => None,
        };
        if tc.is_some() {
            self.publish_proposal_if_able(view, tc, out);
            proof {
                lemma_step_trans(*old(self), s2, *self, old(out)@, o2, out@);
            }
        }
    }

    /// An upgrade certificate formed: kept while its view is not behind.
    pub fn handle_upgrade_certificate(&mut self, cert: UpgradeCertificate)
        requires
            old(self).wf(),
        ensures
            final(self).wf(),
            final(self).upgrade_cert is Some <==> (cert.view >= old(self).cur_view || old(self).upgrade_cert is Some),
            cert.view >= old(self).cur_view ==> (final(self).upgrade_cert matches Some(c) && c.view == cert.view),
            cert.view < old(self).cur_view ==> *final(self) == *old(self),
            *final(self) == (ConsensusTaskState { upgrade_cert: final(self).upgrade_cert, ..*old(self) }),
            final(self).upgrade_cert == if cert.view >= old(self).cur_view {
                Some(cert)
            } else {
                old(self).upgrade_cert
            },
    {
        if cert.view >= self.cur_view {
            self.upgrade_cert = Some(cert);
        }
    }

    /// Handles one event; the outputs are appended to `out`.
    pub fn handle(&mut self, event: ConsensusEvent, out: &mut Vec<ConsensusOutput>)
        requires
            step_ready(*old(self), old(out)@),
        ensures
            step_ok(*old(self), *final(self), old(out)@, final(out)@),
            !(event is Timeout) ==> final(self).last_timeout_vote_view == old(self).last_timeout_vote_view,
            event is Shutdown ==> *final(self) == *old(self) && final(out)@ == old(out)@,
            (event matches ConsensusEvent::QuorumProposalRecv(p, sender) && old(self).proposal_verdict(p, sender)
                == ProposalCheck::Valid) ==> final(self).cur_view == event->QuorumProposalRecv_0.data.view_number,
            (event matches ConsensusEvent::QuorumProposalRecv(p, sender) && old(self).proposal_verdict(p, sender)
                != ProposalCheck::Valid) ==> final(self).cur_view == old(self).cur_view
                && final(self).last_voted_view == old(self).last_voted_view,
            (event matches ConsensusEvent::ViewChange(v) && old(self).cur_view < v && v <= MAX_VIEW)
                ==> final(self).cur_view == event->ViewChange_0,
            event is Timeout ==> final(self).last_timeout_vote_view == if old(self).timeout_fires(event->Timeout_0) {
                event->Timeout_0
            } else {
                old(self).last_timeout_vote_view
            },
            (event is Timeout && old(self).timeout_fires(event->Timeout_0)) ==> final(out)@ == old(out)@ + seq![
                ConsensusOutput::QuorumIntent(ConsensusIntent::CancelPollForVotes(event->Timeout_0)),
                ConsensusOutput::QuorumIntent(ConsensusIntent::CancelPollForProposal(event->Timeout_0)),
                ConsensusOutput::TimeoutVoteSend(
                    SimpleVote {
                        kind: VoteKind::Timeout,
                        view: event->Timeout_0,
                        data: crate::certificate::timeout_data_spec(event->Timeout_0),
                        signer: old(self).public_key,
                    },
                ),
                ConsensusOutput::ReplicaViewTimeout(event->Timeout_0),
            ],
            (event is Timeout && !old(self).timeout_fires(event->Timeout_0)) ==> final(out)@ == old(out)@
                && *final(self) == *old(self),
            event matches ConsensusEvent::QuorumProposalRecv(p, sender) ==> proposal_effects(*old(self), *final(self), old(out)@, final(out)@, p, sender),
            event matches ConsensusEvent::QuorumVoteRecv(v) ==> v.kind == VoteKind::Quorum ==> vote_effects(*old(self), *final(self), old(out)@, final(out)@, v),
            event matches ConsensusEvent::TimeoutVoteRecv(v) ==> v.kind == VoteKind::Timeout ==> vote_effects(*old(self), *final(self), old(out)@, final(out)@, v),
            event matches ConsensusEvent::QcFormed(c) ==> qc_formed_effects(*old(self), *final(self), old(out)@, final(out)@, c),
            event matches ConsensusEvent::DacRecv(c) ==> dac_effects(*old(self), *final(self), old(out)@, final(out)@, c),
            event matches ConsensusEvent::VidDisperseRecv(share, sender) ==> vid_effects(*old(self), *final(self), old(out)@, final(out)@, share, sender),
            event matches ConsensusEvent::ViewChange(v) ==> view_change_effects(*old(self), *final(self), old(out)@, final(out)@, v),
            event matches ConsensusEvent::Timeout(v) ==> timeout_effects(*old(self), *final(self), old(out)@, final(out)@, v),
            event matches ConsensusEvent::SendPayloadCommitmentAndMetadata(c, m, v) ==> payload_effects(*old(self), *final(self), old(out)@, final(out)@, c, m, v),
            event is UpgradeCertificateFormed ==> final(out)@ == old(out)@,
            event is UpgradeCertificateFormed ==> *final(self) == (ConsensusTaskState {
                upgrade_cert: if event->UpgradeCertificateFormed_0.view >= old(self).cur_view {
                    Some(event->UpgradeCertificateFormed_0)
                } else {
                    old(self).upgrade_cert
                },
                ..*old(self)
            }),
    {
        proof {
            lemma_step_refl(*old(self), old(out)@);
        }
        match event {
            ConsensusEvent::QuorumProposalRecv(p, sender) => self.handle_quorum_proposal(p, sender, out),
            ConsensusEvent::QuorumVoteRecv(v) => {
                if v.kind == VoteKind::Quorum {
                    self.handle_vote(v, out);
                }
            },
            ConsensusEvent::TimeoutVoteRecv(v) => {
                if v.kind == VoteKind::Timeout {
                    self.handle_vote(v, out);
                }
            },
            ConsensusEvent::QcFormed(c) => self.handle_qc_formed(c, out),
            ConsensusEvent::UpgradeCertificateFormed(c) => {
                self.handle_upgrade_certificate(c);
            },
            ConsensusEvent::DacRecv(c) => self.handle_dac(c, out),
            ConsensusEvent::VidDisperseRecv(share, sender) => self.handle_vid_disperse(share, sender, out),
            ConsensusEvent::ViewChange(v) => self.handle_view_change(v, out),
            ConsensusEvent::Timeout(v) => self.handle_timeout(v, out),
            ConsensusEvent::SendPayloadCommitmentAndMetadata(c, m, v) => self.handle_payload_commitment(c, m, v, out),
            ConsensusEvent::Shutdown => {},
        }
    }

    /// A task at the genesis view, with the genesis leaf accepted at view 0.
    pub fn new(
        public_key: u64,
        timeout: u64,
        quorum_membership: Membership,
        timeout_membership: Membership,
        committee_membership: Membership,
        id: u64,
    ) -> (r: ConsensusTaskState)
        requires
            quorum_membership.wf(),
            timeout_membership.wf(),
            committee_membership.wf(),
        ensures
            r.wf(),
            r.cur_view == 0,
            r.public_key == public_key,
            r.timeout == timeout,
            r.quorum_membership == quorum_membership,
            r.timeout_membership == timeout_membership,
            r.committee_membership == committee_membership,
            r.id == id,
            r.consensus.locked_view == 0,
            r.consensus.last_decided_view == 0,
            r.consensus.high_qc.view == 0,
            r.consensus.high_qc.is_genesis,
            r.last_voted_view == 0,
            r.last_timeout_vote_view == 0,
            r.current_proposal is None,
            r.consensus.metrics.invalid_qc == 0,
    {
        let consensus = Consensus::genesis();
        ConsensusTaskState {
            public_key,
            consensus,
            timeout,
            cur_view: 0,
            payload_commitment_and_metadata: None,
            timeout_membership,
            quorum_membership,
            committee_membership,
            vote_collector: None,
            timeout_vote_collector: None,
            timeout_task: None,
            timeout_cert: None,
            upgrade_cert: None,
            decided_upgrade_cert: None,
            current_network_version: Version { major: 0, minor: 1 },
            vid_shares: Vec::new(),
            current_proposal: None,
            id,
            last_voted_view: 0,
            last_timeout_vote_view: 0,
        }
    }
}

} // verus!
