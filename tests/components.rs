use hotshot_consensus::accumulator::VoteAccumulator;
use hotshot_consensus::certificate::{SimpleCertificate, SimpleVote, UpgradeCertificate, Version, VoteKind};
use hotshot_consensus::commitment::{commit_bytes, commitment_from_digest, push_u64, Commitment};
use hotshot_consensus::committee::{Membership, StakeEntry};
use hotshot_consensus::consensus::{Consensus, SavedLeaf};
use hotshot_consensus::data::{BlockHeader, Leaf, ValidatedState, ViewInner};
use hotshot_consensus::orchestrator::{
    indexed_identity_secret, libp2p_generate_indexed_identity, HotShotConfig, IpAddress, Libp2pConfig, NetworkConfig,
    OrchestratorError, OrchestratorState,
};
use hotshot_consensus::web_network::{
    proposal_route, transactions_route, vote_route, CentralizedWebCommChannel, CentralizedWebServerNetwork,
    NetworkError, PollAction, PollResult, RecvMsg, TransmitType, WebMessage, WebMessageKind,
};

fn weighted() -> Membership {
    Membership::new(vec![
        StakeEntry { key: 10, stake: 5 },
        StakeEntry { key: 11, stake: 3 },
        StakeEntry { key: 12, stake: 1 },
        StakeEntry { key: 13, stake: 0 },
    ])
    .unwrap()
}

#[test]
fn committee_rotation_and_stake() {
    let m = weighted();
    assert_eq!(m.get_leader(0), 10);
    assert_eq!(m.get_leader(5), 11);
    assert_eq!(m.get_leader(7), 13);
    assert_eq!(m.total_stake(), 9);
    assert_eq!(m.success_threshold(), 7);
    assert_eq!(m.stake_of(11), 3);
    assert!(m.has_stake(12));
    assert!(!m.has_stake(13));
    assert!(!m.has_stake(99));
    assert_eq!(m.signed_stake_of(&vec![10, 12, 12, 99]), 6);
}

#[test]
fn committee_refuses_bad_tables() {
    assert!(Membership::new(vec![]).is_none());
    assert!(Membership::new(vec![StakeEntry { key: 1, stake: 1 }, StakeEntry { key: 1, stake: 2 }]).is_none());
    assert!(Membership::new(vec![StakeEntry { key: 1, stake: u64::MAX }, StakeEntry { key: 2, stake: 1 }]).is_none());
    let threshold = Membership::new(vec![StakeEntry { key: 1, stake: u64::MAX }]).unwrap().success_threshold();
    assert_eq!(threshold, 12297829382473034411);
}

#[test]
fn certificate_validation() {
    let m = weighted();
    let c = |signers: Vec<u64>| SimpleCertificate {
        kind: VoteKind::Quorum,
        view: 3,
        data: Commitment { w0: 1, w1: 2, w2: 3, w3: 4 },
        signers,
        is_genesis: false,
    };
    assert!(c(vec![10, 11]).is_valid_cert(&m));
    assert!(!c(vec![10, 12, 13]).is_valid_cert(&m));
    assert!(!c(vec![11, 11, 11]).is_valid_cert(&m));
    assert!(SimpleCertificate::genesis().is_valid_cert(&m));
    let mut fake_genesis = SimpleCertificate::genesis();
    fake_genesis.view = 4;
    assert!(!fake_genesis.is_valid_cert(&m));
    let up = UpgradeCertificate { view: 5, new_version: Version { major: 0, minor: 2 }, new_version_first_block: 9, signers: vec![10, 11] };
    assert!(up.is_valid_cert(&m));
}

#[test]
fn accumulator_counts_each_signer_once_per_datum() {
    let m = weighted();
    let mut acc = VoteAccumulator::new(VoteKind::Quorum, 4);
    let a = Commitment { w0: 1, w1: 0, w2: 0, w3: 0 };
    let b = Commitment { w0: 2, w1: 0, w2: 0, w3: 0 };
    let v = |signer: u64, data: Commitment| SimpleVote { kind: VoteKind::Quorum, view: 4, data, signer };
    assert!(acc.accumulate(v(10, a), &m).is_none());
    assert!(acc.accumulate(v(10, a), &m).is_none());
    assert!(acc.accumulate(v(13, a), &m).is_none());
    assert!(acc.accumulate(v(11, b), &m).is_none());
    assert!(acc.accumulate(v(12, a), &m).is_none());
    let cert = acc.accumulate(v(11, a), &m).unwrap();
    assert_eq!(cert.signers, vec![10, 12, 11]);
    assert_eq!(cert.data, a);
    assert_eq!(cert.view, 4);
    assert!(cert.is_valid_cert(&m));
}

#[test]
fn blake3_commitment_of_empty_input() {
    // BLAKE3("") = af1349b9f5f9a1a6 a0404dea36dcc949 9bcb25c9adc112b7 cc9a93cae41f3262
    let c = commit_bytes(&Vec::new());
    assert_eq!(c.w0, 0xa6a1f9f5b94913af);
    assert_eq!(c.w1, 0x49c9dc36ea4d40a0);
    assert_eq!(c.w2, 0xb712c1adc925cb9b);
    assert_eq!(c.w3, 0x62321fe4ca939acc);
}

#[test]
fn little_endian_words() {
    let mut bytes = [0u8; 32];
    bytes[0] = 1;
    bytes[9] = 2;
    bytes[31] = 0xff;
    let c = commitment_from_digest(&bytes);
    assert_eq!(c, Commitment { w0: 1, w1: 0x200, w2: 0, w3: 0xff00_0000_0000_0000 });
    let mut out = vec![9];
    push_u64(&mut out, 0x0102030405060708);
    assert_eq!(out, vec![9, 8, 7, 6, 5, 4, 3, 2, 1]);
}

#[test]
fn leaf_commitment_covers_fields_but_not_payload() {
    let g = Leaf::genesis();
    let mut with_payload = g.clone();
    with_payload.block_payload = Some(vec![1, 2, 3]);
    assert_eq!(g.commit(), with_payload.commit());
    let mut other_view = g.clone();
    other_view.view_number = 1;
    assert_ne!(g.commit(), other_view.commit());
}

#[test]
fn header_rules() {
    let parent = BlockHeader::genesis();
    let c = Commitment { w0: 5, w1: 0, w2: 0, w3: 0 };
    let h = BlockHeader::new(&parent, c, 7).unwrap();
    assert_eq!(h.block_number, 1);
    let st = ValidatedState::genesis();
    assert_eq!(st.validate_and_apply_header(&parent, &h), Some(ValidatedState { block_height: 1 }));
    let skip = BlockHeader { block_number: 2, payload_commitment: c, metadata: 0 };
    assert_eq!(st.validate_and_apply_header(&parent, &skip), None);
    let top = BlockHeader { block_number: u64::MAX, payload_commitment: c, metadata: 0 };
    assert!(BlockHeader::new(&top, c, 0).is_none());
}

fn chain_state() -> (Consensus, Vec<Commitment>) {
    // Leaves at views 1..=4, each the parent of the next, the genesis leaf at 0.
    let mut c = Consensus::genesis();
    let mut commits = vec![Leaf::genesis().commit()];
    let mut qc = SimpleCertificate::genesis();
    for v in 1..=4u64 {
        let leaf = Leaf {
            view_number: v,
            justify_qc: qc.clone(),
            parent_commitment: commits[(v - 1) as usize],
            block_header: BlockHeader { block_number: v, payload_commitment: Commitment { w0: v, w1: 0, w2: 0, w3: 0 }, metadata: 0 },
            block_payload: None,
            proposer_id: v,
            upgrade_certificate: None,
        };
        let lc = leaf.commit();
        c.insert_view(v, ViewInner::Leaf { leaf: lc, state: ValidatedState { block_height: v } });
        c.insert_leaf(lc, leaf);
        c.saved_payloads.push((v, vec![v as u8]));
        commits.push(lc);
        qc = SimpleCertificate { kind: VoteKind::Quorum, view: v, data: lc, signers: vec![1, 2, 3], is_genesis: false };
    }
    (c, commits)
}

#[test]
fn commit_rule_three_chain() {
    let (c, _) = chain_state();
    let r = c.commit_rule(5, 4);
    assert_eq!(r.new_locked_view, Some(3));
    assert_eq!(r.new_anchor_view, Some(2));
    assert_eq!(r.decide_qc.unwrap().view, 2);
    let views: Vec<u64> = r.decided.iter().map(|e| e.leaf.view_number).collect();
    assert_eq!(views, vec![2, 1]);
}

#[test]
fn commit_rule_two_chain_and_broken_chain() {
    let (c, _) = chain_state();
    let r = c.commit_rule(3, 2);
    assert_eq!(r.new_locked_view, Some(1));
    assert_eq!(r.new_anchor_view, None);
    assert!(r.decided.is_empty());
    let r = c.commit_rule(6, 4);
    assert_eq!(r.new_locked_view, None);
    assert_eq!(r.new_anchor_view, None);
}

#[test]
fn safety_check_walks_to_locked_view() {
    let (mut c, _) = chain_state();
    c.locked_view = 2;
    assert!(c.extends_locked(4));
    assert!(c.extends_locked(2));
    assert!(!c.extends_locked(1));
    assert!(!c.extends_locked(9));
}

#[test]
fn garbage_collection_twice_is_once() {
    let (mut c, commits) = chain_state();
    let keep_commits = vec![commits[2]];
    let keep_views = vec![2];
    c.collect_garbage(0, 4, &keep_commits, &keep_views);
    let views: Vec<u64> = c.saved_leaves.iter().map(|e: &SavedLeaf| e.leaf.view_number).collect();
    assert_eq!(views, vec![0, 2, 4]);
    let payload_views: Vec<u64> = c.saved_payloads.iter().map(|p| p.0).collect();
    assert_eq!(payload_views, vec![2, 4]);
    let once_leaves = views.clone();
    c.collect_garbage(0, 4, &keep_commits, &keep_views);
    let twice: Vec<u64> = c.saved_leaves.iter().map(|e| e.leaf.view_number).collect();
    assert_eq!(twice, once_leaves);
    assert_eq!(c.saved_payloads.iter().map(|p| p.0).collect::<Vec<u64>>(), vec![2, 4]);
}

fn config(total: u64, bootstrap: u64) -> NetworkConfig {
    NetworkConfig {
        seed: [7u8; 32],
        config: HotShotConfig { total_nodes: total, known_nodes_with_stake: vec![StakeEntry { key: 0, stake: 0 }; total as usize] },
        libp2p_config: Some(Libp2pConfig { bootstrap_nodes: vec![], num_bootstrap_nodes: bootstrap, index_ports: true, base_port: 9000 }),
    }
}

#[test]
fn orchestrator_identity_capacity_and_bootstrap() {
    let mut o = OrchestratorState::new(config(2, 1));
    assert_eq!(o.post_getconfig(0).unwrap_err(), OrchestratorError::NotEnoughBootstrapNodes);
    assert_eq!(o.post_identity(IpAddress::V4(0x7f000001)), Ok(0));
    let l = o.config.libp2p_config.as_ref().unwrap();
    assert_eq!(l.bootstrap_nodes.len(), 1);
    assert_eq!(l.bootstrap_nodes[0].port, 9000);
    assert!(!l.bootstrap_nodes[0].keypair.is_empty());
    assert!(o.post_getconfig(0).is_ok());
    assert_eq!(o.post_identity(IpAddress::V4(0x7f000002)), Ok(1));
    assert_eq!(o.config.libp2p_config.as_ref().unwrap().bootstrap_nodes.len(), 1);
    let err = o.post_identity(IpAddress::V4(0x7f000003)).unwrap_err();
    assert_eq!(err, OrchestratorError::NetworkFull);
    assert_eq!(err.status(), 400);
    assert_eq!(err.message(), "Network has reached capacity");
    assert_eq!(OrchestratorError::PortOutOfRange.message(), "Bootstrap port is out of range");
}

#[test]
fn orchestrator_public_keys_and_start() {
    let mut o = OrchestratorState::new(config(2, 0));
    assert_eq!(o.peer_pub_ready(), Err(OrchestratorError::PeerConfigsNotReady));
    let mut body = vec![0, 0, 0, 0, 0, 0, 0, 0, 5, 1, 0, 0, 0, 0, 0, 0];
    assert_eq!(o.register_public_key(1, &mut body), Ok(()));
    assert_eq!(body, vec![5, 1, 0, 0, 0, 0, 0, 0]);
    assert_eq!(o.config.config.known_nodes_with_stake[1], StakeEntry { key: 261, stake: 1 });
    let mut again = vec![0; 16];
    assert_eq!(o.register_public_key(1, &mut again), Err(OrchestratorError::PublicKeyAlreadyPosted));
    let mut short = vec![0; 9];
    assert_eq!(o.register_public_key(0, &mut short), Err(OrchestratorError::MalformedPublicKey));
    let mut far = vec![0; 16];
    assert_eq!(o.register_public_key(7, &mut far), Err(OrchestratorError::UnknownNode));
    assert!(o.get_config_after_peer_collected().is_err());
    let mut body0 = vec![0; 16];
    assert_eq!(o.register_public_key(0, &mut body0), Ok(()));
    assert_eq!(o.peer_pub_ready(), Ok(true));
    assert!(o.get_config_after_peer_collected().is_ok());
    assert_eq!(o.get_start(), Err(OrchestratorError::NotReadyToStart));
    assert_eq!(o.post_ready(), Ok(()));
    assert_eq!(o.get_start(), Err(OrchestratorError::NotReadyToStart));
    assert_eq!(o.post_ready(), Ok(()));
    assert_eq!(o.get_start(), Ok(true));
    assert_eq!(o.post_run_results(), Ok(()));
}

#[test]
fn indexed_identities_are_deterministic_and_distinct() {
    let a = indexed_identity_secret([1u8; 32], 0);
    assert_eq!(a, indexed_identity_secret([1u8; 32], 0));
    assert_ne!(a, indexed_identity_secret([1u8; 32], 1));
    let mut msg = vec![1u8; 32];
    msg.extend_from_slice(&0u64.to_le_bytes());
    assert_eq!(a, *blake3::hash(&msg).as_bytes());
    let k1 = libp2p_generate_indexed_identity([1u8; 32], 3).to_protobuf_encoding().unwrap();
    let k2 = libp2p_generate_indexed_identity([1u8; 32], 3).to_protobuf_encoding().unwrap();
    assert_eq!(k1, k2);
}

#[test]
fn web_routes() {
    assert_eq!(proposal_route(0), b"api/proposal/0".to_vec());
    assert_eq!(proposal_route(1207), b"api/proposal/1207".to_vec());
    assert_eq!(vote_route(42), b"api/votes/42".to_vec());
    assert_eq!(transactions_route(), b"api/transactions".to_vec());
    let ch = CentralizedWebCommChannel::new(CentralizedWebServerNetwork::create(b"0.0.0.0".to_vec(), 9000, 100, 1));
    let m = WebMessage { view_number: 9, kind: WebMessageKind::Vote, bytes: vec![1] };
    assert_eq!(ch.parse_post_message(m).unwrap().endpoint, b"api/votes/9".to_vec());
    let t = WebMessage { view_number: 9, kind: WebMessageKind::InternalTrigger, bytes: vec![] };
    assert_eq!(ch.parse_post_message(t).unwrap_err(), NetworkError::UnimplementedFeature);
}

#[test]
fn web_consensus_info_moves_forward_only() {
    let mut n = CentralizedWebServerNetwork::create(b"localhost".to_vec(), 9000, 100, 1);
    assert!(!n.consensus_info.is_current_leader && !n.consensus_info.is_next_leader);
    assert_eq!(n.inject_consensus_info((3, true, false)), Ok(()));
    assert_eq!(n.consensus_info.view_number, 3);
    assert!(n.consensus_info.is_current_leader);
    assert_eq!(n.inject_consensus_info((4, false, true)), Ok(()));
    assert_eq!(n.consensus_info.view_number, 4);
    assert!(n.consensus_info.is_next_leader);
}

#[test]
fn web_poll_and_receive() {
    let mut n = CentralizedWebServerNetwork::create(b"localhost".to_vec(), 9000, 100, 1);
    assert_eq!(n.after_proposal_poll(PollResult::Failed), PollAction::Sleep(100));
    assert_eq!(n.after_proposal_poll(PollResult::Received(vec![])), PollAction::Sleep(100));
    let msg = |v: u64| RecvMsg { message: Some(WebMessage { view_number: v, kind: WebMessageKind::Proposal, bytes: vec![v as u8] }) };
    assert_eq!(n.after_proposal_poll(PollResult::Received(vec![msg(4), msg(5)])), PollAction::AwaitNextView);
    assert_eq!(n.recv_msgs(TransmitType::Direct).unwrap().len(), 0);
    let got = n.recv_msgs(TransmitType::Broadcast).unwrap();
    assert_eq!(got.len(), 1);
    assert_eq!(got[0].message.as_ref().unwrap().view_number, 4);
    assert_eq!(got[0].message.as_ref().unwrap().bytes, vec![4]);
    assert!(n.recv_msgs(TransmitType::Broadcast).unwrap().is_empty());
    n.shut_down();
    assert!(!n.running);
}

#[test]
fn split_votes_form_no_certificate() {
    // Four equal members, each voting once at view 6: two back one datum and
    // two another, so neither reaches the threshold of three.
    let m = Membership::new((0..4u64).map(|k| StakeEntry { key: k, stake: 1 }).collect()).unwrap();
    let mut acc = VoteAccumulator::new(VoteKind::Quorum, 6);
    let a = Commitment { w0: 1, w1: 0, w2: 0, w3: 0 };
    let b = Commitment { w0: 2, w1: 0, w2: 0, w3: 0 };
    for (signer, data) in [(0, a), (1, a), (2, b), (3, b)] {
        assert!(acc.accumulate(SimpleVote { kind: VoteKind::Quorum, view: 6, data, signer }, &m).is_none());
    }
}
