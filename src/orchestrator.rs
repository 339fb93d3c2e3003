//! The run coordinator's bookkeeping: node indices, bootstrap identities,
//! registered public keys, and the readiness of the run.
use crate::commitment::{blake3_digest, blake3_of, le_bytes, push_u64};
use crate::committee::StakeEntry;
use vstd::prelude::*;

verus! {

#[verifier::external_type_specification]
#[verifier::external_body]
pub struct ExKeypair(libp2p::identity::Keypair);

#[verifier::external_type_specification]
#[verifier::external_body]
pub struct ExDecodingError(libp2p::identity::DecodingError);

/// Relies on `libp2p::identity::ed25519::SecretKey::try_from_bytes`, which
/// accepts every 32-byte input, and on turning the ed25519 keypair of that
/// secret key into a `Keypair`.
#[verifier::external_body]
fn ed25519_keypair_from_secret(secret: [u8; 32]) -> (r: Result<libp2p::identity::Keypair, libp2p::identity::DecodingError>)
    ensures
        r is Ok,
{
    match libp2p::identity::ed25519::SecretKey::try_from_bytes(secret) {
        Ok(sk) => Ok(libp2p::identity::ed25519::Keypair::from(sk).into()),
        Err(e) => Err(e),
    }
}

/// Relies on `libp2p::identity::Keypair::to_protobuf_encoding`: the keypair's
/// protobuf encoding. With ed25519 the only key type built in, every keypair is
/// an ed25519 one and its encoding succeeds.
#[verifier::external_body]
fn keypair_protobuf(kp: &libp2p::identity::Keypair) -> (r: Result<Vec<u8>, libp2p::identity::DecodingError>)
    ensures
        r is Ok,
{
    kp.to_protobuf_encoding()
}

/// The bytes hashed into the secret key of node `index`: the seed, then the
/// index in little-endian order.
pub open spec fn identity_seed_message(seed: Seq<u8>, index: u64) -> Seq<u8> {
    seed + le_bytes(index)
}

/// The secret key of node `index` under `seed`: the BLAKE3 digest of the seed
/// followed by the index.
pub fn indexed_identity_secret(seed: [u8; 32], index: u64) -> (r: [u8; 32])
    ensures
        r@ == blake3_of(identity_seed_message(seed@, index)),
{
    let mut msg: Vec<u8> = Vec::new();
    let mut i: usize = 0;
    while i < 32
        invariant
            i <= 32,
            msg@ == seed@.subrange(0, i as int),
        decreases 32 - i,
    {
        msg.push(seed[i]);
        i += 1;
        assert(msg@ =~= seed@.subrange(0, i as int));
    }
    assert(seed@.subrange(0, 32) =~= seed@);
    push_u64(&mut msg, index);
    blake3_digest(&msg)
}

/// The libp2p identity of node `index`: the ed25519 keypair whose secret key
/// is `indexed_identity_secret(seed, index)`.
pub fn libp2p_generate_indexed_identity(seed: [u8; 32], index: u64) -> libp2p::identity::Keypair {
    let secret = indexed_identity_secret(seed, index);
    ed25519_keypair_from_secret(secret).unwrap()
}

/// An IP address.
#[derive(Clone, Copy, Debug, PartialEq, Eq, Structural)]
pub enum IpAddress {
    V4(u32),
    V6(u128),
}

/// A bootstrap node: its address, port and encoded keypair.
#[derive(Clone, Debug)]
pub struct BootstrapNode {
    pub ip: IpAddress,
    pub port: u16,
    pub keypair: Vec<u8>,
}

/// The libp2p part of the run configuration.
#[derive(Clone, Debug)]
pub struct Libp2pConfig {
    pub bootstrap_nodes: Vec<BootstrapNode>,
    pub num_bootstrap_nodes: u64,
    pub index_ports: bool,
    pub base_port: u16,
}

/// The consensus part of the run configuration.
#[derive(Clone, Debug)]
pub struct HotShotConfig {
    pub total_nodes: u64,
    pub known_nodes_with_stake: Vec<StakeEntry>,
}

/// The configuration handed to every node of a run.
#[derive(Clone, Debug)]
pub struct NetworkConfig {
    pub seed: [u8; 32],
    pub config: HotShotConfig,
    pub libp2p_config: Option<Libp2pConfig>,
}

/// Why the coordinator refused a request; every refusal is a `400 Bad Request`.
#[derive(Clone, Copy, Debug, PartialEq, Eq, Structural)]
pub enum OrchestratorError {
    NetworkFull,
    NotEnoughBootstrapNodes,
    PublicKeyAlreadyPosted,
    MalformedPublicKey,
    UnknownNode,
    PeerConfigsNotReady,
    NotReadyToStart,
    PortOutOfRange,
    KeyEncoding,
}

impl OrchestratorError {
    /// The HTTP status of every refusal.
    pub fn status(&self) -> (r: u16)
        ensures
            r == 400,
    {
        400
    }

    /// The message sent with the refusal.
    pub fn message(&self) -> (r: &'static str)
        ensures
            r@ == message_text(*self),
    {
        match self {
            OrchestratorError::NetworkFull => "Network has reached capacity",
            OrchestratorError::NotEnoughBootstrapNodes => "Not enough bootstrap nodes have registered",
            OrchestratorError::PublicKeyAlreadyPosted => "Node has already posted public key",
            OrchestratorError::MalformedPublicKey => "Public key is not well formed",
            OrchestratorError::UnknownNode => "Node index is not in the stake table",
            OrchestratorError::PeerConfigsNotReady => "Peer's public configs are not ready",
            OrchestratorError::NotReadyToStart => "Network is not ready to start",
            OrchestratorError::PortOutOfRange => "Bootstrap port is out of range",
            OrchestratorError::KeyEncoding => "Keypair could not be encoded",
        }
    }
}

/// The text of each refusal.
pub open spec fn message_text(e: OrchestratorError) -> Seq<char> {
    match e {
        OrchestratorError::NetworkFull => "Network has reached capacity"@,
        OrchestratorError::NotEnoughBootstrapNodes => "Not enough bootstrap nodes have registered"@,
        OrchestratorError::PublicKeyAlreadyPosted => "Node has already posted public key"@,
        OrchestratorError::MalformedPublicKey => "Public key is not well formed"@,
        OrchestratorError::UnknownNode => "Node index is not in the stake table"@,
        OrchestratorError::PeerConfigsNotReady => "Peer's public configs are not ready"@,
        OrchestratorError::NotReadyToStart => "Network is not ready to start"@,
        OrchestratorError::PortOutOfRange => "Bootstrap port is out of range"@,
        OrchestratorError::KeyEncoding => "Keypair could not be encoded"@,
    }
}

/// The port a new bootstrap node gets: the base port, plus the node's index
/// where ports are indexed.
pub open spec fn bootstrap_port(l: Libp2pConfig, index: u16) -> int {
    l.base_port + if l.index_ports {
        index as int
    } else {
        0
    }
}

/// Whether the bootstrap list still has room.
pub open spec fn needs_bootstrap(c: NetworkConfig) -> bool {
    c.libp2p_config matches Some(l) && l.bootstrap_nodes@.len() < l.num_bootstrap_nodes
}

impl BootstrapNode {
    pub fn copy_of(&self) -> (r: BootstrapNode)
        ensures
            r.ip == self.ip,
            r.port == self.port,
            r.keypair@ == self.keypair@,
    {
        let keypair = self.keypair.clone();
        assert(keypair@ =~= self.keypair@);
        BootstrapNode { ip: self.ip, port: self.port, keypair }
    }
}

impl NetworkConfig {
    /// The same configuration.
    pub open spec fn same_as(&self, o: NetworkConfig) -> bool {
        &&& self.seed == o.seed
        &&& self.config.total_nodes == o.config.total_nodes
        &&& self.config.known_nodes_with_stake@ == o.config.known_nodes_with_stake@
        &&& self.libp2p_config is Some == o.libp2p_config is Some
        &&& (self.libp2p_config matches Some(l) ==> {
            let m = o.libp2p_config->Some_0;
            &&& l.num_bootstrap_nodes == m.num_bootstrap_nodes
            &&& l.index_ports == m.index_ports
            &&& l.base_port == m.base_port
            &&& l.bootstrap_nodes@.len() == m.bootstrap_nodes@.len()
            &&& forall|i: int|
                0 <= i < l.bootstrap_nodes@.len() ==> #[trigger] l.bootstrap_nodes@[i].ip == m.bootstrap_nodes@[i].ip
                    && l.bootstrap_nodes@[i].port == m.bootstrap_nodes@[i].port
                    && l.bootstrap_nodes@[i].keypair@ == m.bootstrap_nodes@[i].keypair@
        })
    }

    /// A copy of this configuration.
    pub fn copy_of(&self) -> (r: NetworkConfig)
        ensures
            r.same_as(*self),
    {
        let known = self.config.known_nodes_with_stake.clone();
        assert(known@ =~= self.config.known_nodes_with_stake@);
        let libp2p_config = match &self.libp2p_config {
            Some(l) => {
                let mut nodes: Vec<BootstrapNode> = Vec::new();
                let mut i: usize = 0;
                while i < l.bootstrap_nodes.len()
                    invariant
                        i <= l.bootstrap_nodes@.len(),
                        nodes@.len() == i,
                        forall|j: int|
                            0 <= j < i ==> #[trigger] nodes@[j].ip == l.bootstrap_nodes@[j].ip && nodes@[j].port
                                == l.bootstrap_nodes@[j].port && nodes@[j].keypair@ == l.bootstrap_nodes@[j].keypair@,
                    decreases l.bootstrap_nodes@.len() - i,
                {
                    nodes.push(l.bootstrap_nodes[i].copy_of());
                    i += 1;
                }
                Some(
                    Libp2pConfig {
                        bootstrap_nodes: nodes,
                        num_bootstrap_nodes: l.num_bootstrap_nodes,
                        index_ports: l.index_ports,
                        base_port: l.base_port,
                    },
                )
            },
            None => None,
        };
        NetworkConfig {
            seed: self.seed,
            config: HotShotConfig { total_nodes: self.config.total_nodes, known_nodes_with_stake: known },
            libp2p_config,
        }
    }
}

/// The coordinator's state.
#[derive(Clone, Debug)]
pub struct OrchestratorState {
    /// The next node index to hand out.
    pub latest_index: u16,
    pub config: NetworkConfig,
    /// How many nodes posted their public keys.
    pub nodes_with_pubkey: u64,
    /// Whether every node posted its public key.
    pub peer_pub_ready: bool,
    /// The indices of the nodes that posted their public keys.
    pub pub_posted: Vec<u64>,
    /// Whether the nodes should start.
    pub start: bool,
    /// How many nodes posted that they are ready.
    pub nodes_connected: u64,
}

/// The key a registration's body carries: after an 8-byte prefix, the 8
/// little-endian bytes of the node's key.
pub open spec fn body_key(body: Seq<u8>) -> u64 {
    crate::commitment::le_word(body, 8)
}

impl OrchestratorState {
    /// A coordinator that has handed out nothing yet.
    pub fn new(network_config: NetworkConfig) -> (r: OrchestratorState)
        ensures
            r.latest_index == 0,
            r.config == network_config,
            r.nodes_with_pubkey == 0,
            !r.peer_pub_ready,
            r.pub_posted@.len() == 0,
            !r.start,
            r.nodes_connected == 0,
    {
        OrchestratorState {
            latest_index: 0,
            config: network_config,
            nodes_with_pubkey: 0,
            peer_pub_ready: false,
            pub_posted: Vec::new(),
            start: false,
            nodes_connected: 0,
        }
    }

    /// Assigns the next node index, refusing it once the network is full.
    /// While bootstrap nodes are missing, the node becomes one, at the base
    /// port (plus its index where ports are indexed) with its generated
    /// identity.
    pub fn post_identity(&mut self, identity: IpAddress) -> (r: Result<u16, OrchestratorError>)
        ensures
            final(self).latest_index == if old(self).latest_index < u16::MAX {
                (old(self).latest_index + 1) as u16
            } else {
                old(self).latest_index
            },
            (old(self).latest_index as u64) >= old(self).config.config.total_nodes ==> r == Err::<
                u16,
                OrchestratorError,
            >(OrchestratorError::NetworkFull),
            r is Ok ==> r == Ok::<u16, OrchestratorError>(old(self).latest_index),
            (old(self).latest_index as u64) < old(self).config.config.total_nodes && !needs_bootstrap(old(self).config)
                ==> r == Ok::<u16, OrchestratorError>(old(self).latest_index) && final(self).config == old(self).config,
            ((old(self).latest_index as u64) < old(self).config.config.total_nodes && needs_bootstrap(old(self).config)) ==> {
                let l = old(self).config.libp2p_config->Some_0;
                let port = bootstrap_port(l, old(self).latest_index);
                &&& port <= u16::MAX ==> r == Ok::<u16, OrchestratorError>(old(self).latest_index)
                    && final(self).config.libp2p_config->Some_0.bootstrap_nodes@.len() == l.bootstrap_nodes@.len() + 1
                    && final(self).config.libp2p_config->Some_0.bootstrap_nodes@.last().ip == identity
                    && final(self).config.libp2p_config->Some_0.bootstrap_nodes@.last().port == port
                &&& port > u16::MAX ==> r == Err::<u16, OrchestratorError>(OrchestratorError::PortOutOfRange)
            },
            final(self).nodes_with_pubkey == old(self).nodes_with_pubkey,
            final(self).peer_pub_ready == old(self).peer_pub_ready,
            final(self).pub_posted == old(self).pub_posted,
            final(self).start == old(self).start,
            final(self).nodes_connected == old(self).nodes_connected,
            final(self).config.config == old(self).config.config,
            final(self).config.seed == old(self).config.seed,
    {
        let node_index = self.latest_index;
        if self.latest_index < u16::MAX {
            self.latest_index = self.latest_index + 1;
        }
        if node_index as u64 >= self.config.config.total_nodes {
            return Err(OrchestratorError::NetworkFull);
        }
        let seed = self.config.seed;
        match &mut self.config.libp2p_config {
            Some(l) => {
                if (l.bootstrap_nodes.len() as u64) < l.num_bootstrap_nodes {
                    let port_index: u16 = if l.index_ports {
                        node_index
                    } else {
                        0
                    };
                    if l.base_port as u32 + port_index as u32 > u16::MAX as u32 {
                        return Err(OrchestratorError::PortOutOfRange);
                    }
                    let port = l.base_port + port_index;
                    let keypair = libp2p_generate_indexed_identity(seed, node_index as u64);
                    let encoded = match keypair_protobuf(&keypair) {
                        Ok(b) => b,
                        Err(_) => return Err(OrchestratorError::KeyEncoding),
                    };
                    l.bootstrap_nodes.push(BootstrapNode { ip: identity, port, keypair: encoded });
                }
            },
            None => {},
        }
        Ok(node_index)
    }

    /// The configuration, once enough bootstrap nodes registered.
    pub fn post_getconfig(&self, node_index: u16) -> (r: Result<NetworkConfig, OrchestratorError>)
        ensures
            needs_bootstrap(self.config) <==> r is Err,
            r matches Err(e) ==> e == OrchestratorError::NotEnoughBootstrapNodes,
            r matches Ok(c) ==> c.same_as(self.config),
    {
        if let Some(l) = &self.config.libp2p_config {
            if (l.bootstrap_nodes.len() as u64) < l.num_bootstrap_nodes {
                return Err(OrchestratorError::NotEnoughBootstrapNodes);
            }
        }
        Ok(self.config.copy_of())
    }

    /// Registers the public key of node `node_index`, with stake 1. The body
    /// is an 8-byte prefix, which is removed, then the key's 8 bytes. Once
    /// every node posted, the peers' configuration is ready.
    pub fn register_public_key(&mut self, node_index: u64, pubkey: &mut Vec<u8>) -> (r: Result<(), OrchestratorError>)
        ensures
            old(self).pub_posted@.contains(node_index) ==> r == Err::<(), OrchestratorError>(
                OrchestratorError::PublicKeyAlreadyPosted,
            ),
            !old(self).pub_posted@.contains(node_index) && old(pubkey)@.len() != 16 ==> r == Err::<
                (),
                OrchestratorError,
            >(OrchestratorError::MalformedPublicKey),
            !old(self).pub_posted@.contains(node_index) && old(pubkey)@.len() == 16 && node_index
                >= old(self).config.config.known_nodes_with_stake@.len() ==> r == Err::<(), OrchestratorError>(
                OrchestratorError::UnknownNode,
            ),
            r is Ok <==> !old(self).pub_posted@.contains(node_index) && old(pubkey)@.len() == 16 && node_index
                < old(self).config.config.known_nodes_with_stake@.len(),
            r is Ok ==> final(pubkey)@ == old(pubkey)@.subrange(8, 16) && final(self).pub_posted@ == old(
                self,
            ).pub_posted@.push(node_index) && final(self).config.config.known_nodes_with_stake@ == old(
                self,
            ).config.config.known_nodes_with_stake@.update(
                node_index as int,
                StakeEntry { key: body_key(old(pubkey)@), stake: 1 },
            ) && final(self).nodes_with_pubkey == if old(self).nodes_with_pubkey < u64::MAX {
                (old(self).nodes_with_pubkey + 1) as u64
            } else {
                old(self).nodes_with_pubkey
            } && final(self).peer_pub_ready == (old(self).peer_pub_ready || final(self).nodes_with_pubkey
                >= old(self).config.config.total_nodes),
            r is Err ==> *final(self) == *old(self) && final(pubkey)@ == old(pubkey)@,
            final(self).latest_index == old(self).latest_index,
            final(self).start == old(self).start,
            final(self).nodes_connected == old(self).nodes_connected,
    {
        if crate::committee::contains_key(&self.pub_posted, node_index) {
            return Err(OrchestratorError::PublicKeyAlreadyPosted);
        }
        if pubkey.len() != 16 {
            return Err(OrchestratorError::MalformedPublicKey);
        }
        if node_index >= self.config.config.known_nodes_with_stake.len() as u64 {
            return Err(OrchestratorError::UnknownNode);
        }
        let key = read_key(pubkey);
        let mut rest: Vec<u8> = Vec::new();
        let mut i: usize = 8;
        while i < 16
            invariant
                8 <= i <= 16,
                pubkey@.len() == 16,
                rest@ == pubkey@.subrange(8, i as int),
            decreases 16 - i,
        {
            rest.push(pubkey[i]);
            i += 1;
            assert(rest@ =~= pubkey@.subrange(8, i as int));
        }
        *pubkey = rest;
        self.pub_posted.push(node_index);
        self.config.config.known_nodes_with_stake.set(node_index as usize, StakeEntry { key, stake: 1 });
        if self.nodes_with_pubkey < u64::MAX {
            self.nodes_with_pubkey = self.nodes_with_pubkey + 1;
        }
        if self.nodes_with_pubkey >= self.config.config.total_nodes {
            self.peer_pub_ready = true;
        }
        Ok(())
    }

    /// `true` once every peer posted its key; a refusal before.
    pub fn peer_pub_ready(&self) -> (r: Result<bool, OrchestratorError>)
        ensures
            r == if self.peer_pub_ready {
                Ok::<bool, OrchestratorError>(true)
            } else {
                Err(OrchestratorError::PeerConfigsNotReady)
            },
    {
        if !self.peer_pub_ready {
            return Err(OrchestratorError::PeerConfigsNotReady);
        }
        Ok(true)
    }

    /// The configuration with the full stake table, once every peer posted
    /// its key.
    pub fn get_config_after_peer_collected(&self) -> (r: Result<NetworkConfig, OrchestratorError>)
        ensures
            r is Ok <==> self.peer_pub_ready,
            r matches Err(e) ==> e == OrchestratorError::PeerConfigsNotReady,
            r matches Ok(c) ==> c.same_as(self.config),
    {
        if !self.peer_pub_ready {
            return Err(OrchestratorError::PeerConfigsNotReady);
        }
        Ok(self.config.copy_of())
    }

    /// `true` once every node is ready; a refusal before.
    pub fn get_start(&self) -> (r: Result<bool, OrchestratorError>)
        ensures
            r == if self.start {
                Ok::<bool, OrchestratorError>(true)
            } else {
                Err(OrchestratorError::NotReadyToStart)
            },
    {
        if !self.start {
            return Err(OrchestratorError::NotReadyToStart);
        }
        Ok(true)
    }

    /// Counts a node as ready; the run starts once all are.
    pub fn post_ready(&mut self) -> (r: Result<(), OrchestratorError>)
        ensures
            r is Ok,
            final(self).nodes_connected == if old(self).nodes_connected < u64::MAX {
                (old(self).nodes_connected + 1) as u64
            } else {
                old(self).nodes_connected
            },
            final(self).start == (old(self).start || final(self).nodes_connected >= old(self).config.config.total_nodes),
            *final(self) == (OrchestratorState {
                nodes_connected: final(self).nodes_connected,
                start: final(self).start,
                ..*old(self)
            }),
    {
        if self.nodes_connected < u64::MAX {
            self.nodes_connected = self.nodes_connected + 1;
        }
        if self.nodes_connected >= self.config.config.total_nodes {
            self.start = true;
        }
        Ok(())
    }

    /// Accepts the results of a run; nothing is kept.
    pub fn post_run_results(&mut self) -> (r: Result<(), OrchestratorError>)
        ensures
            r is Ok,
            *final(self) == *old(self),
    {
        Ok(())
    }
}

/// The coordinator's endpoints, as a server routes requests to them.
pub trait OrchestratorApi {
    /// `POST /identity`.
    fn post_identity(&mut self, identity: IpAddress) -> Result<u16, OrchestratorError>;

    /// `POST /config/{node_index}`.
    fn post_getconfig(&mut self, node_index: u16) -> Result<NetworkConfig, OrchestratorError>;

    /// `POST /pubkey/{node_index}`.
    fn register_public_key(&mut self, node_index: u64, pubkey: &mut Vec<u8>) -> Result<(), OrchestratorError>;

    /// `GET /peer_pubconfig_ready`.
    fn peer_pub_ready(&self) -> Result<bool, OrchestratorError>;

    /// `GET /config_after_peer_collected`.
    fn get_config_after_peer_collected(&self) -> Result<NetworkConfig, OrchestratorError>;

    /// `GET /start`.
    fn get_start(&self) -> Result<bool, OrchestratorError>;

    /// `POST /ready`.
    fn post_ready(&mut self) -> Result<(), OrchestratorError>;

    /// `POST /results`.
    fn post_run_results(&mut self) -> Result<(), OrchestratorError>;
}

impl OrchestratorApi for OrchestratorState {
    fn post_identity(&mut self, identity: IpAddress) -> Result<u16, OrchestratorError> {
        OrchestratorState::post_identity(self, identity)
    }

    fn post_getconfig(&mut self, node_index: u16) -> Result<NetworkConfig, OrchestratorError> {
        OrchestratorState::post_getconfig(self, node_index)
    }

    fn register_public_key(&mut self, node_index: u64, pubkey: &mut Vec<u8>) -> Result<(), OrchestratorError> {
        OrchestratorState::register_public_key(self, node_index, pubkey)
    }

    fn peer_pub_ready(&self) -> Result<bool, OrchestratorError> {
        OrchestratorState::peer_pub_ready(self)
    }

    fn get_config_after_peer_collected(&self) -> Result<NetworkConfig, OrchestratorError> {
        OrchestratorState::get_config_after_peer_collected(self)
    }

    fn get_start(&self) -> Result<bool, OrchestratorError> {
        OrchestratorState::get_start(self)
    }

    fn post_ready(&mut self) -> Result<(), OrchestratorError> {
        OrchestratorState::post_ready(self)
    }

    fn post_run_results(&mut self) -> Result<(), OrchestratorError> {
        OrchestratorState::post_run_results(self)
    }
}

fn read_key(b: &Vec<u8>) -> (r: u64)
    requires
        b@.len() == 16,
    ensures
        r == body_key(b@),
{
    let r = b[8] as u64 + b[9] as u64 * 0x100 + b[10] as u64 * 0x1_0000 + b[11] as u64 * 0x100_0000 + b[12] as u64
        * 0x1_0000_0000 + b[13] as u64 * 0x100_0000_0000 + b[14] as u64 * 0x1_0000_0000_0000 + b[15] as u64
        * 0x100_0000_0000_0000;
    r
}

} // verus!
