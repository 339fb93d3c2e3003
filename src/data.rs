//! Blocks, leaves and proposals.
use crate::certificate::{QuorumCertificate, Signature, SimpleCertificate, TimeoutCertificate, UpgradeCertificate};
use crate::commitment::{
    blake3_of, commit_bytes, commitment_bytes, commitment_of_bytes, le_bytes, push_commitment, push_u64,
    Commitment,
};
use vstd::prelude::*;

verus! {

/// The all-zero commitment: the parent of the genesis leaf.
pub open spec fn zero_commitment() -> Commitment {
    Commitment { w0: 0, w1: 0, w2: 0, w3: 0 }
}

/// A block header: its height, the commitment to its payload, and its payload
/// metadata.
#[derive(Clone, Copy, Debug, PartialEq, Eq, Structural)]
pub struct BlockHeader {
    pub block_number: u64,
    pub payload_commitment: Commitment,
    pub metadata: u64,
}

/// The state a block's execution yields: the height reached.
#[derive(Clone, Copy, Debug, PartialEq, Eq, Structural)]
pub struct ValidatedState {
    pub block_height: u64,
}

impl BlockHeader {
    /// The genesis header.
    pub fn genesis() -> (r: BlockHeader)
        ensures
            r == (BlockHeader { block_number: 0, payload_commitment: zero_commitment(), metadata: 0 }),
    {
        BlockHeader {
            block_number: 0,
            payload_commitment: Commitment { w0: 0, w1: 0, w2: 0, w3: 0 },
            metadata: 0,
        }
    }

    /// The header that extends `parent_header` with the given payload; `None`
    /// where the height would overflow.
    pub fn new(parent_header: &BlockHeader, payload_commitment: Commitment, metadata: u64) -> (r: Option<
        BlockHeader,
    >)
        ensures
            parent_header.block_number < u64::MAX <==> r is Some,
            r matches Some(h) ==> h == (BlockHeader {
                block_number: (parent_header.block_number + 1) as u64,
                payload_commitment,
                metadata,
            }),
    {
        if parent_header.block_number == u64::MAX {
            None
        } else {
            Some(BlockHeader { block_number: parent_header.block_number + 1, payload_commitment, metadata })
        }
    }
}

impl ValidatedState {
    /// The genesis state.
    pub fn genesis() -> (r: ValidatedState)
        ensures
            r.block_height == 0,
    {
        ValidatedState { block_height: 0 }
    }

    /// The state read off a header alone, used where the parent is unknown.
    pub fn from_header(header: &BlockHeader) -> (r: ValidatedState)
        ensures
            r.block_height == header.block_number,
    {
        ValidatedState { block_height: header.block_number }
    }

    /// Applies a proposed header on top of this state: it must extend the
    /// parent header by exactly one block.
    pub fn validate_and_apply_header(&self, parent_header: &BlockHeader, proposed: &BlockHeader) -> (r: Option<
        ValidatedState,
    >)
        ensures
            r is Some <==> proposed.block_number == parent_header.block_number + 1,
            r matches Some(s) ==> s.block_height == proposed.block_number,
    {
        if parent_header.block_number < u64::MAX && proposed.block_number == parent_header.block_number + 1 {
            Some(ValidatedState { block_height: proposed.block_number })
        } else {
            None
        }
    }
}

/// A block header with its parent linkage.
#[derive(Clone, Debug)]
pub struct Leaf {
    pub view_number: u64,
    pub justify_qc: QuorumCertificate,
    pub parent_commitment: Commitment,
    pub block_header: BlockHeader,
    pub block_payload: Option<Vec<u8>>,
    pub proposer_id: u64,
    /// The upgrade certificate its proposal carried, if any.
    pub upgrade_certificate: Option<UpgradeCertificate>,
}

/// The bytes a leaf's commitment is taken over, field by field.
pub open spec fn leaf_fields_bytes(
    view: u64,
    justify_view: u64,
    justify_data: Commitment,
    justify_genesis: bool,
    parent: Commitment,
    header: BlockHeader,
    proposer: u64,
) -> Seq<u8> {
    le_bytes(view) + le_bytes(justify_view) + commitment_bytes(justify_data) + seq![
        if justify_genesis {
            1u8
        } else {
            0u8
        },
    ] + commitment_bytes(parent) + le_bytes(header.block_number) + commitment_bytes(header.payload_commitment)
        + le_bytes(header.metadata) + le_bytes(proposer)
}

/// The commitment of a leaf with the given fields.
pub open spec fn leaf_commit_of(
    view: u64,
    justify_view: u64,
    justify_data: Commitment,
    justify_genesis: bool,
    parent: Commitment,
    header: BlockHeader,
    proposer: u64,
) -> Commitment {
    commitment_of_bytes(
        blake3_of(leaf_fields_bytes(view, justify_view, justify_data, justify_genesis, parent, header, proposer)),
    )
}

/// The bytes a leaf's commitment is taken over: every field but the payload
/// and the justifying certificate's signatures.
pub open spec fn leaf_bytes(l: Leaf) -> Seq<u8> {
    leaf_fields_bytes(
        l.view_number,
        l.justify_qc.view,
        l.justify_qc.data,
        l.justify_qc.is_genesis,
        l.parent_commitment,
        l.block_header,
        l.proposer_id,
    )
}

/// A leaf's commitment.
pub open spec fn leaf_commit_spec(l: Leaf) -> Commitment {
    commitment_of_bytes(blake3_of(leaf_bytes(l)))
}

/// The genesis leaf's commitment.
pub open spec fn genesis_commit_spec() -> Commitment {
    leaf_commit_of(
        0,
        0,
        zero_commitment(),
        true,
        zero_commitment(),
        BlockHeader { block_number: 0, payload_commitment: zero_commitment(), metadata: 0 },
        0,
    )
}

impl Leaf {
    /// The same leaf, field for field.
    pub open spec fn same_as(&self, o: Leaf) -> bool {
        &&& self.view_number == o.view_number
        &&& self.justify_qc.same_as(o.justify_qc)
        &&& self.parent_commitment == o.parent_commitment
        &&& self.block_header == o.block_header
        &&& self.block_payload is Some == o.block_payload is Some
        &&& (self.block_payload matches Some(p) ==> p@ == o.block_payload->Some_0@)
        &&& self.proposer_id == o.proposer_id
        &&& self.upgrade_certificate is Some == o.upgrade_certificate is Some
    }

    /// A copy of this leaf.
    pub fn copy_of(&self) -> (r: Leaf)
        ensures
            r.same_as(*self),
    {
        let block_payload = match &self.block_payload {
            Some(p) => {
                let q = p.clone();
                assert(q@ =~= p@);
                Some(q)
            },
            None => None,
        };
        Leaf {
            view_number: self.view_number,
            justify_qc: self.justify_qc.copy_of(),
            parent_commitment: self.parent_commitment,
            block_header: self.block_header,
            block_payload,
            proposer_id: self.proposer_id,
            upgrade_certificate: match &self.upgrade_certificate {
                Some(c) => Some(c.copy_of()),
                None => None,
            },
        }
    }

    /// The genesis leaf: view 0, the genesis certificate, the zero parent.
    pub fn genesis() -> (r: Leaf)
        ensures
            r.view_number == 0,
            r.justify_qc.is_genesis,
            r.justify_qc.view == 0,
            r.parent_commitment == zero_commitment(),
            r.block_header.block_number == 0,
            r.block_header == (BlockHeader { block_number: 0, payload_commitment: zero_commitment(), metadata: 0 }),
            r.justify_qc.data == zero_commitment(),
            r.proposer_id == 0,
            r.block_payload is None,
            leaf_commit_spec(r) == genesis_commit_spec(),
    {
        Leaf {
            view_number: 0,
            justify_qc: SimpleCertificate::genesis(),
            parent_commitment: Commitment { w0: 0, w1: 0, w2: 0, w3: 0 },
            block_header: BlockHeader::genesis(),
            block_payload: None,
            proposer_id: 0,
            upgrade_certificate: None,
        }
    }

    /// The leaf's commitment: the BLAKE3 digest of its encoded fields.
    pub fn commit(&self) -> (r: Commitment)
        ensures
            r == leaf_commit_spec(*self),
    {
        let mut out: Vec<u8> = Vec::new();
        push_u64(&mut out, self.view_number);
        push_u64(&mut out, self.justify_qc.view);
        push_commitment(&mut out, self.justify_qc.data);
        out.push(if self.justify_qc.is_genesis { 1u8 } else { 0u8 });
        push_commitment(&mut out, self.parent_commitment);
        push_u64(&mut out, self.block_header.block_number);
        push_commitment(&mut out, self.block_header.payload_commitment);
        push_u64(&mut out, self.block_header.metadata);
        push_u64(&mut out, self.proposer_id);
        assert(out@ =~= leaf_bytes(*self)) by {
            reveal_with_fuel(crate::commitment::le_bytes, 1);
        }
        commit_bytes(&out)
    }
}

/// A block proposal for a view.
#[derive(Clone, Debug)]
pub struct QuorumProposal {
    pub block_header: BlockHeader,
    pub view_number: u64,
    pub justify_qc: QuorumCertificate,
    pub timeout_certificate: Option<TimeoutCertificate>,
    pub upgrade_certificate: Option<UpgradeCertificate>,
    pub proposer_id: u64,
}

impl QuorumProposal {
    /// A copy of this proposal (its view, header, proposer and justifying
    /// certificate are kept exactly).
    pub fn copy_of(&self) -> (r: QuorumProposal)
        ensures
            r.view_number == self.view_number,
            r.block_header == self.block_header,
            r.proposer_id == self.proposer_id,
            r.justify_qc.same_as(self.justify_qc),
            r.upgrade_certificate is Some == self.upgrade_certificate is Some,
            r.timeout_certificate is Some == self.timeout_certificate is Some,
    {
        QuorumProposal {
            block_header: self.block_header,
            view_number: self.view_number,
            justify_qc: self.justify_qc.copy_of(),
            timeout_certificate: match &self.timeout_certificate {
                Some(c) => Some(c.copy_of()),
                None => None,
            },
            upgrade_certificate: match &self.upgrade_certificate {
                Some(c) => Some(c.copy_of()),
                None => None,
            },
            proposer_id: self.proposer_id,
        }
    }
}

/// A proposal with the proposer's signature over the proposed leaf.
#[derive(Clone, Debug)]
pub struct Proposal {
    pub data: QuorumProposal,
    pub signature: Signature,
}

/// A VID share for a view, signed by that view's leader over the payload
/// commitment.
#[derive(Clone, Copy, Debug, PartialEq, Eq, Structural)]
pub struct VidShare {
    pub view_number: u64,
    pub payload_commitment: Commitment,
    pub signature: Signature,
}

/// What the state map records for a view.
#[derive(Clone, Copy, Debug, PartialEq, Eq, Structural)]
pub enum ViewInner {
    /// An accepted leaf and the state it yields.
    Leaf { leaf: Commitment, state: ValidatedState },
    /// The view failed.
    Failed,
}

} // verus!
