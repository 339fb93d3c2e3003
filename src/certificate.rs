//! The certificate store: votes, certificates and their validation against a
//! committee. Signatures are held as `(signer, signed commitment)` pairs of the
//! static committee's node identities.
use crate::commitment::Commitment;
use crate::committee::{signed_stake, Membership};
use vstd::prelude::*;

verus! {

/// What a vote or certificate attests to.
#[derive(Clone, Copy, Debug, PartialEq, Eq, Structural)]
pub enum VoteKind {
    /// A leaf is valid: data is the leaf commitment.
    Quorum,
    /// A view is abandoned: data is the view's timeout data.
    Timeout,
    /// A payload is available: data is the payload commitment.
    Da,
}

/// A signature by `signer` over `commit`.
#[derive(Clone, Copy, Debug, PartialEq, Eq, Structural)]
pub struct Signature {
    pub signer: u64,
    pub commit: Commitment,
}

/// Signs a commitment with a node's key.
pub fn sign(key: u64, commit: Commitment) -> (r: Signature)
    ensures
        r.signer == key,
        r.commit == commit,
{
    Signature { signer: key, commit }
}

/// Whether `sig` is `key`'s signature over `commit`.
pub fn validate_signature(key: u64, sig: &Signature, commit: Commitment) -> (r: bool)
    ensures
        r == (sig.signer == key && sig.commit == commit),
{
    sig.signer == key && sig.commit == commit
}

/// The data of a timeout vote or certificate for `view`.
pub open spec fn timeout_data_spec(view: u64) -> Commitment {
    Commitment { w0: view, w1: 0, w2: 0, w3: 0 }
}

/// The data of a timeout vote or certificate for `view`.
pub fn timeout_data(view: u64) -> (r: Commitment)
    ensures
        r == timeout_data_spec(view),
{
    Commitment { w0: view, w1: 0, w2: 0, w3: 0 }
}

/// A signed vote of one node.
#[derive(Clone, Copy, Debug, PartialEq, Eq, Structural)]
pub struct SimpleVote {
    pub kind: VoteKind,
    pub view: u64,
    pub data: Commitment,
    pub signer: u64,
}

/// Creates this node's signed vote.
pub fn create_signed_vote(kind: VoteKind, data: Commitment, view: u64, key: u64) -> (r: SimpleVote)
    ensures
        r == (SimpleVote { kind, view, data, signer: key }),
{
    SimpleVote { kind, view, data, signer: key }
}

/// An aggregated certificate: the signers that voted for `(kind, view, data)`.
#[derive(Clone, Debug)]
pub struct SimpleCertificate {
    pub kind: VoteKind,
    pub view: u64,
    pub data: Commitment,
    pub signers: Vec<u64>,
    pub is_genesis: bool,
}

/// A quorum certificate: its data is a leaf commitment.
pub type QuorumCertificate = SimpleCertificate;

/// A timeout certificate: its data is the timeout data of a view.
pub type TimeoutCertificate = SimpleCertificate;

/// A DA certificate: its data is a payload commitment.
pub type DaCertificate = SimpleCertificate;

/// A certificate validates iff it is the genesis certificate (genesis view, no
/// signature check) or its distinct signers hold at least the threshold stake.
pub open spec fn cert_valid(c: SimpleCertificate, m: Membership) -> bool {
    if c.is_genesis {
        c.view == 0
    } else {
        signed_stake(m.members@, c.signers@) >= m.threshold_spec()
    }
}

impl SimpleCertificate {
    /// The same certificate, field for field.
    pub open spec fn same_as(&self, o: SimpleCertificate) -> bool {
        &&& self.kind == o.kind
        &&& self.view == o.view
        &&& self.data == o.data
        &&& self.signers@ == o.signers@
        &&& self.is_genesis == o.is_genesis
    }

    /// A copy of this certificate.
    pub fn copy_of(&self) -> (r: SimpleCertificate)
        ensures
            r.same_as(*self),
    {
        let signers = self.signers.clone();
        assert(signers@ =~= self.signers@);
        SimpleCertificate {
            kind: self.kind,
            view: self.view,
            data: self.data,
            signers,
            is_genesis: self.is_genesis,
        }
    }

    /// The genesis quorum certificate.
    pub fn genesis() -> (r: SimpleCertificate)
        ensures
            r.kind == VoteKind::Quorum,
            r.view == 0,
            r.is_genesis,
            r.data == (Commitment { w0: 0, w1: 0, w2: 0, w3: 0 }),
            r.signers@.len() == 0,
    {
        SimpleCertificate {
            kind: VoteKind::Quorum,
            view: 0,
            data: Commitment { w0: 0, w1: 0, w2: 0, w3: 0 },
            signers: Vec::new(),
            is_genesis: true,
        }
    }

    /// Validates the certificate against the committee that signs it.
    pub fn is_valid_cert(&self, m: &Membership) -> (r: bool)
        requires
            m.wf(),
        ensures
            r == cert_valid(*self, *m),
    {
        if self.is_genesis {
            self.view == 0
        } else {
            m.signed_stake_of(&self.signers) >= m.success_threshold()
        }
    }
}

/// Certificates do not conflict: where the members in `byz` hold less than a
/// third of the stake and every other signer votes for one datum per view
/// (`choice`), two valid certificates of the same view certify the same datum.
pub proof fn lemma_no_conflicting_certificates(
    m: Membership,
    c1: SimpleCertificate,
    c2: SimpleCertificate,
    byz: Seq<u64>,
    choice: spec_fn(u64, u64) -> Commitment,
)
    requires
        cert_valid(c1, m),
        cert_valid(c2, m),
        !c1.is_genesis,
        !c2.is_genesis,
        c1.view == c2.view,
        3 * signed_stake(m.members@, byz) < m.total_spec(),
        forall|k: u64| c1.signers@.contains(k) && !byz.contains(k) ==> #[trigger] choice(k, c1.view) == c1.data,
        forall|k: u64| c2.signers@.contains(k) && !byz.contains(k) ==> #[trigger] choice(k, c2.view) == c2.data,
    ensures
        c1.data == c2.data,
{
    crate::committee::lemma_quorum_intersection(m.members@, c1.signers@, c2.signers@, byz);
    let i = choose|i: int|
        0 <= i < m.members@.len() && c1.signers@.contains(#[trigger] m.members@[i].key) && c2.signers@.contains(
            m.members@[i].key,
        ) && !byz.contains(m.members@[i].key) && m.members@[i].stake > 0;
    let k = m.members@[i].key;
    assert(choice(k, c1.view) == c1.data);
    assert(choice(k, c2.view) == c2.data);
}

/// A protocol version.
#[derive(Clone, Copy, Debug, PartialEq, Eq, Structural)]
pub struct Version {
    pub major: u16,
    pub minor: u16,
}

/// A certificate that a new protocol version activates at a future view.
#[derive(Clone, Debug)]
pub struct UpgradeCertificate {
    pub view: u64,
    pub new_version: Version,
    pub new_version_first_block: u64,
    pub signers: Vec<u64>,
}

pub open spec fn upgrade_valid(c: UpgradeCertificate, m: Membership) -> bool {
    signed_stake(m.members@, c.signers@) >= m.threshold_spec()
}

impl UpgradeCertificate {
    pub open spec fn same_as(&self, o: UpgradeCertificate) -> bool {
        &&& self.view == o.view
        &&& self.new_version == o.new_version
        &&& self.new_version_first_block == o.new_version_first_block
        &&& self.signers@ == o.signers@
    }

    /// A copy of this certificate.
    pub fn copy_of(&self) -> (r: UpgradeCertificate)
        ensures
            r.same_as(*self),
    {
        let signers = self.signers.clone();
        assert(signers@ =~= self.signers@);
        UpgradeCertificate {
            view: self.view,
            new_version: self.new_version,
            new_version_first_block: self.new_version_first_block,
            signers,
        }
    }

    /// Validates the certificate against the quorum committee.
    pub fn is_valid_cert(&self, m: &Membership) -> (r: bool)
        requires
            m.wf(),
        ensures
            r == upgrade_valid(*self, *m),
    {
        m.signed_stake_of(&self.signers) >= m.success_threshold()
    }
}

} // verus!
