use hotshot_consensus::certificate::{sign, timeout_data, SimpleCertificate, VoteKind};
use hotshot_consensus::commitment::Commitment;
use hotshot_consensus::committee::{Membership, StakeEntry};
use hotshot_consensus::data::{BlockHeader, Leaf, Proposal, QuorumProposal, VidShare};
use hotshot_consensus::task::{ConsensusEvent, ConsensusOutput, ConsensusTaskState};

fn committee() -> Membership {
    let members = (0..4u64).map(|k| StakeEntry { key: k, stake: 1 }).collect();
    Membership::new(members).unwrap()
}

/// Node 0 of a four-node committee, each node with stake 1.
fn node() -> ConsensusTaskState {
    ConsensusTaskState::new(0, 1000, committee(), committee(), committee(), 0)
}

fn payload(view: u64) -> Commitment {
    Commitment { w0: 1000 + view, w1: 7, w2: 0, w3: 0 }
}

fn qc_for(view: u64, leaf_commit: Commitment, signers: Vec<u64>) -> SimpleCertificate {
    SimpleCertificate { kind: VoteKind::Quorum, view, data: leaf_commit, signers, is_genesis: false }
}

/// The leaf a proposal at `view` yields on top of `parent`, and its commitment.
fn leaf_on(view: u64, justify_qc: &SimpleCertificate, parent_commit: Commitment, parent_height: u64) -> (Leaf, Commitment) {
    let leaf = Leaf {
        view_number: view,
        justify_qc: justify_qc.clone(),
        parent_commitment: parent_commit,
        block_header: BlockHeader { block_number: parent_height + 1, payload_commitment: payload(view), metadata: 0 },
        block_payload: None,
        proposer_id: view % 4,
        upgrade_certificate: None,
    };
    let c = leaf.commit();
    (leaf, c)
}

fn proposal_of(leaf: &Leaf, commit: Commitment, tc: Option<SimpleCertificate>) -> Proposal {
    Proposal {
        data: QuorumProposal {
            block_header: leaf.block_header,
            view_number: leaf.view_number,
            justify_qc: leaf.justify_qc.clone(),
            timeout_certificate: tc,
            upgrade_certificate: None,
            proposer_id: leaf.proposer_id,
        },
        signature: sign(leaf.proposer_id, commit),
    }
}

/// A chain of honest proposals at views `1..=n` with contiguous QCs.
fn honest_chain(n: u64) -> Vec<(Proposal, Leaf, Commitment)> {
    let genesis = Leaf::genesis();
    let mut out = Vec::new();
    let mut justify = SimpleCertificate::genesis();
    let mut parent_commit = genesis.commit();
    let mut height = 0;
    for v in 1..=n {
        let (leaf, c) = leaf_on(v, &justify, parent_commit, height);
        out.push((proposal_of(&leaf, c, None), leaf.clone(), c));
        justify = qc_for(v, c, vec![1, 2, 3]);
        parent_commit = c;
        height += 1;
    }
    out
}

fn feed(state: &mut ConsensusTaskState, event: ConsensusEvent) -> Vec<ConsensusOutput> {
    let mut out = Vec::new();
    state.handle(event, &mut out);
    out
}

fn quorum_votes(out: &[ConsensusOutput]) -> Vec<u64> {
    out.iter()
        .filter_map(|o| match o {
            ConsensusOutput::QuorumVoteSend(v) => Some(v.view),
            _ => None,
        })
        .collect()
}

fn decides(out: &[ConsensusOutput]) -> Vec<Vec<u64>> {
    out.iter()
        .filter_map(|o| match o {
            ConsensusOutput::Decide { leaf_chain, .. } => Some(leaf_chain.iter().map(|(l, _)| l.view_number).collect()),
            _ => None,
        })
        .collect()
}

#[test]
fn genesis_vote() {
    let mut s = node();
    let chain = honest_chain(1);
    let (p, _, _) = &chain[0];
    let out = feed(&mut s, ConsensusEvent::QuorumProposalRecv(p.clone(), 1));
    assert_eq!(quorum_votes(&out), vec![1]);
    assert!(decides(&out).is_empty());
    assert_eq!(s.cur_view, 1);
    assert_eq!(s.last_voted_view, 1);
    assert!(s.current_proposal.is_none());
    // The vote goes to the leader of view 2.
    assert_eq!(committee().get_leader(2), 2);
}

#[test]
fn three_chain_decide() {
    let mut s = node();
    let chain = honest_chain(4);
    let mut all = Vec::new();
    for (p, leaf, _) in &chain {
        let out = feed(&mut s, ConsensusEvent::QuorumProposalRecv(p.clone(), leaf.proposer_id));
        if leaf.view_number < 4 {
            assert!(decides(&out).is_empty(), "no decide before view 4");
        }
        all.extend(out);
    }
    assert_eq!(decides(&all), vec![vec![1]]);
    assert_eq!(s.consensus.last_decided_view, 1);
    assert_eq!(s.consensus.locked_view, 2);
    assert_eq!(s.cur_view, 4);
    assert_eq!(s.consensus.high_qc.view, 3);
    assert!(all.iter().any(|o| matches!(o, ConsensusOutput::LeafDecided(ls) if ls.len() == 1 && ls[0].view_number == 1)));
    assert!(all.iter().any(|o| matches!(o, ConsensusOutput::StoreLeaf { view: 0, leaf } if leaf.view_number == 4)));
}

#[test]
fn chain_break_no_decide() {
    let mut s = node();
    let chain = honest_chain(2);
    let mut all = Vec::new();
    for (p, leaf, _) in &chain {
        all.extend(feed(&mut s, ConsensusEvent::QuorumProposalRecv(p.clone(), leaf.proposer_id)));
    }
    let (_, leaf2, c2) = &chain[1];
    let justify = qc_for(2, *c2, vec![0, 1, 2]);
    let tc = SimpleCertificate { kind: VoteKind::Timeout, view: 3, data: timeout_data(3), signers: vec![0, 1, 3], is_genesis: false };
    let (leaf4, c4) = leaf_on(4, &justify, *c2, leaf2.block_header.block_number);
    all.extend(feed(&mut s, ConsensusEvent::QuorumProposalRecv(proposal_of(&leaf4, c4, Some(tc)), 0)));
    assert!(decides(&all).is_empty());
    assert_eq!(s.consensus.locked_view, 0);
    assert_eq!(s.consensus.last_decided_view, 0);
    assert_eq!(s.cur_view, 4);
}

#[test]
fn skipped_view_without_timeout_certificate_is_dropped() {
    let mut s = node();
    let chain = honest_chain(2);
    for (p, leaf, _) in &chain {
        feed(&mut s, ConsensusEvent::QuorumProposalRecv(p.clone(), leaf.proposer_id));
    }
    let (_, leaf2, c2) = &chain[1];
    let justify = qc_for(2, *c2, vec![0, 1, 2]);
    let (leaf4, c4) = leaf_on(4, &justify, *c2, leaf2.block_header.block_number);
    feed(&mut s, ConsensusEvent::QuorumProposalRecv(proposal_of(&leaf4, c4, None), 0));
    assert_eq!(s.cur_view, 2);
}

#[test]
fn timeout_path() {
    let mut s = node();
    let out = feed(&mut s, ConsensusEvent::ViewChange(4));
    assert_eq!(s.cur_view, 4);
    assert!(out.iter().any(|o| matches!(o, ConsensusOutput::ArmTimeout { view: 5, after_ms: 1000 })));
    assert!(out.iter().any(|o| matches!(o, ConsensusOutput::ViewFinished(0))));
    let out = feed(&mut s, ConsensusEvent::Timeout(5));
    let vote_at = out.iter().position(|o| matches!(o, ConsensusOutput::TimeoutVoteSend(v) if v.view == 5 && v.kind == VoteKind::Timeout && v.data == timeout_data(5)));
    let app_at = out.iter().position(|o| matches!(o, ConsensusOutput::ReplicaViewTimeout(5)));
    assert!(vote_at.unwrap() < app_at.unwrap());
    assert_eq!(s.consensus.metrics.number_of_timeouts, 1);
    // A second timeout for the same view signs nothing.
    let out = feed(&mut s, ConsensusEvent::Timeout(5));
    assert!(!out.iter().any(|o| matches!(o, ConsensusOutput::TimeoutVoteSend(_))));
}

#[test]
fn invalid_qc_is_dropped() {
    let mut s = node();
    let chain = honest_chain(1);
    let (p1, leaf1, c1) = &chain[0];
    feed(&mut s, ConsensusEvent::QuorumProposalRecv(p1.clone(), 1));
    let weak = qc_for(1, *c1, vec![3]);
    let (leaf2, c2) = leaf_on(2, &weak, *c1, leaf1.block_header.block_number);
    let out = feed(&mut s, ConsensusEvent::QuorumProposalRecv(proposal_of(&leaf2, c2, None), 2));
    assert_eq!(s.consensus.metrics.invalid_qc, 1);
    assert!(quorum_votes(&out).is_empty());
    assert_eq!(s.cur_view, 1);
}

#[test]
fn vid_then_da_out_of_order() {
    let mut s = node();
    let chain = honest_chain(2);
    let (p1, _, _) = &chain[0];
    feed(&mut s, ConsensusEvent::QuorumProposalRecv(p1.clone(), 1));
    let (p2, _, _) = &chain[1];
    let out = feed(&mut s, ConsensusEvent::QuorumProposalRecv(p2.clone(), 2));
    assert!(quorum_votes(&out).is_empty());
    let share = VidShare { view_number: 2, payload_commitment: payload(2), signature: sign(2, payload(2)) };
    let out = feed(&mut s, ConsensusEvent::VidDisperseRecv(share, 2));
    assert!(quorum_votes(&out).is_empty());
    let dac = SimpleCertificate { kind: VoteKind::Da, view: 2, data: payload(2), signers: vec![0, 1, 2], is_genesis: false };
    let out = feed(&mut s, ConsensusEvent::DacRecv(dac.clone()));
    assert_eq!(quorum_votes(&out), vec![2]);
    let out = feed(&mut s, ConsensusEvent::DacRecv(dac));
    assert!(quorum_votes(&out).is_empty());
}

#[test]
fn da_cert_with_other_payload_gives_no_vote() {
    let mut s = node();
    let chain = honest_chain(2);
    feed(&mut s, ConsensusEvent::QuorumProposalRecv(chain[0].0.clone(), 1));
    feed(&mut s, ConsensusEvent::QuorumProposalRecv(chain[1].0.clone(), 2));
    let share = VidShare { view_number: 2, payload_commitment: payload(2), signature: sign(2, payload(2)) };
    feed(&mut s, ConsensusEvent::VidDisperseRecv(share, 2));
    let dac = SimpleCertificate { kind: VoteKind::Da, view: 2, data: payload(9), signers: vec![0, 1, 2], is_genesis: false };
    let out = feed(&mut s, ConsensusEvent::DacRecv(dac));
    assert!(quorum_votes(&out).is_empty());
}

#[test]
fn stale_proposal_changes_nothing() {
    let mut s = node();
    feed(&mut s, ConsensusEvent::ViewChange(5));
    let chain = honest_chain(1);
    let out = feed(&mut s, ConsensusEvent::QuorumProposalRecv(chain[0].0.clone(), 1));
    assert_eq!(s.cur_view, 5);
    assert!(quorum_votes(&out).is_empty());
}

#[test]
fn proposal_from_wrong_sender_is_dropped() {
    let mut s = node();
    let chain = honest_chain(1);
    let out = feed(&mut s, ConsensusEvent::QuorumProposalRecv(chain[0].0.clone(), 3));
    assert_eq!(s.cur_view, 0);
    assert!(quorum_votes(&out).is_empty());
}

#[test]
fn high_qc_never_moves_back() {
    let mut s = node();
    let chain = honest_chain(3);
    for (p, leaf, _) in &chain {
        feed(&mut s, ConsensusEvent::QuorumProposalRecv(p.clone(), leaf.proposer_id));
    }
    assert_eq!(s.consensus.high_qc.view, 2);
    let older = qc_for(1, chain[0].2, vec![0, 1, 2]);
    feed(&mut s, ConsensusEvent::QcFormed(hotshot_consensus::task::CertFormed::Quorum(older)));
    assert_eq!(s.consensus.high_qc.view, 2);
}

#[test]
fn leader_proposes_after_forming_qc() {
    // Node 2 leads view 2: with a staged payload and the QC for view 1 it proposes.
    let mut s = ConsensusTaskState::new(2, 1000, committee(), committee(), committee(), 2);
    let chain = honest_chain(1);
    feed(&mut s, ConsensusEvent::QuorumProposalRecv(chain[0].0.clone(), 1));
    feed(&mut s, ConsensusEvent::SendPayloadCommitmentAndMetadata(payload(2), 0, 2));
    let qc = qc_for(1, chain[0].2, vec![0, 1, 3]);
    let out = feed(&mut s, ConsensusEvent::QcFormed(hotshot_consensus::task::CertFormed::Quorum(qc)));
    let sent: Vec<&Proposal> = out
        .iter()
        .filter_map(|o| match o {
            ConsensusOutput::QuorumProposalSend(p, 2) => Some(p),
            _ => None,
        })
        .collect();
    assert_eq!(sent.len(), 1);
    assert_eq!(sent[0].data.view_number, 2);
    assert_eq!(sent[0].data.justify_qc.view, 1);
    assert_eq!(sent[0].data.block_header.block_number, 2);
    assert_eq!(sent[0].data.block_header.payload_commitment, payload(2));
    assert!(s.payload_commitment_and_metadata.is_none());
}

#[test]
fn votes_form_a_certificate_at_threshold() {
    // Node 2 leads view 2, so it collects the quorum votes of view 1.
    let mut s = ConsensusTaskState::new(2, 1000, committee(), committee(), committee(), 2);
    let data = payload(1);
    let vote = |signer: u64| hotshot_consensus::certificate::SimpleVote { kind: VoteKind::Quorum, view: 1, data, signer };
    assert!(feed(&mut s, ConsensusEvent::QuorumVoteRecv(vote(0))).is_empty());
    assert!(feed(&mut s, ConsensusEvent::QuorumVoteRecv(vote(0))).is_empty());
    assert!(feed(&mut s, ConsensusEvent::QuorumVoteRecv(vote(1))).is_empty());
    let out = feed(&mut s, ConsensusEvent::QuorumVoteRecv(vote(3)));
    match &out[..] {
        [ConsensusOutput::QcFormed(hotshot_consensus::task::CertFormed::Quorum(c))] => {
            assert_eq!(c.view, 1);
            assert_eq!(c.data, data);
            assert_eq!(c.signers, vec![0, 1, 3]);
            assert!(c.is_valid_cert(&committee()));
        }
        other => panic!("unexpected outputs {:?}", other),
    }
    assert!(s.vote_collector.is_none());
}

#[test]
fn votes_for_another_leader_are_ignored() {
    let mut s = node();
    let vote = hotshot_consensus::certificate::SimpleVote { kind: VoteKind::Quorum, view: 1, data: payload(1), signer: 1 };
    assert!(feed(&mut s, ConsensusEvent::QuorumVoteRecv(vote)).is_empty());
    assert!(s.vote_collector.is_none());
}

#[test]
fn upgrade_certificates_reach_the_task() {
    let mut s = node();
    let cert = hotshot_consensus::certificate::UpgradeCertificate {
        view: 3,
        new_version: hotshot_consensus::certificate::Version { major: 0, minor: 2 },
        new_version_first_block: 10,
        signers: vec![0, 1, 2],
    };
    let event = ConsensusEvent::UpgradeCertificateFormed(cert);
    assert!(!hotshot_consensus::task::filter(&event));
    feed(&mut s, event);
    assert_eq!(s.upgrade_cert.as_ref().unwrap().view, 3);
}

#[test]
fn decided_upgrade_certificate_activates_at_its_first_block() {
    let mut s = node();
    let mut chain = honest_chain(4);
    let cert = hotshot_consensus::certificate::UpgradeCertificate {
        view: 1,
        new_version: hotshot_consensus::certificate::Version { major: 0, minor: 2 },
        new_version_first_block: 6,
        signers: vec![0, 1, 2],
    };
    chain[0].0.data.upgrade_certificate = Some(cert);
    for (p, leaf, _) in &chain {
        feed(&mut s, ConsensusEvent::QuorumProposalRecv(p.clone(), leaf.proposer_id));
    }
    assert_eq!(s.consensus.last_decided_view, 1);
    assert_eq!(s.decided_upgrade_cert.as_ref().unwrap().new_version_first_block, 6);
    let out = feed(&mut s, ConsensusEvent::ViewChange(5));
    assert!(out.iter().any(|o| matches!(o, ConsensusOutput::ViewFinished(4))));
    assert!(s.decided_upgrade_cert.is_some());
    feed(&mut s, ConsensusEvent::ViewChange(6));
    assert_eq!(s.current_network_version, hotshot_consensus::certificate::Version { major: 0, minor: 2 });
    assert!(s.decided_upgrade_cert.is_none());
}
