//! The decisions of the network that talks to a central web server: which
//! route a message is posted to, when the polled view may move, and what the
//! receive queues hand out. The HTTP traffic itself is the caller's.
use vstd::prelude::*;

verus! {

/// The view and leadership that the pollers follow.
#[derive(Clone, Copy, Debug, PartialEq, Eq, Structural)]
pub struct ConsensusInfo {
    pub view_number: u64,
    pub is_current_leader: bool,
    pub is_next_leader: bool,
}

impl Default for ConsensusInfo {
    fn default() -> (r: ConsensusInfo)
        ensures
            r == (ConsensusInfo { view_number: 0, is_current_leader: false, is_next_leader: false }),
    {
        ConsensusInfo { view_number: 0, is_current_leader: false, is_next_leader: false }
    }
}

/// Errors of the web-server network.
#[derive(Clone, Copy, Debug, PartialEq, Eq, Structural)]
pub enum NetworkError {
    /// The message kind or receive path is not served by the web server.
    UnimplementedFeature,
}

/// Whether messages are addressed to one node or to all.
#[derive(Clone, Copy, Debug, PartialEq, Eq, Structural)]
pub enum TransmitType {
    Direct,
    Broadcast,
}

/// What a message carries.
#[derive(Clone, Copy, Debug, PartialEq, Eq, Structural)]
pub enum WebMessageKind {
    Proposal,
    Vote,
    InternalTrigger,
    SubmitTransaction,
}

/// A message with its view and its encoded bytes.
#[derive(Clone, Debug)]
pub struct WebMessage {
    pub view_number: u64,
    pub kind: WebMessageKind,
    pub bytes: Vec<u8>,
}

impl WebMessage {
    /// The same message.
    pub open spec fn same_as(&self, o: WebMessage) -> bool {
        self.view_number == o.view_number && self.kind == o.kind && self.bytes@ == o.bytes@
    }

    /// A copy of this message.
    pub fn copy_of(&self) -> (r: WebMessage)
        ensures
            r.same_as(*self),
    {
        let bytes = self.bytes.clone();
        assert(bytes@ =~= self.bytes@);
        WebMessage { view_number: self.view_number, kind: self.kind, bytes }
    }
}

/// A message to post, with the route it goes to.
#[derive(Clone, Debug)]
pub struct SendMsg {
    pub message: Option<WebMessage>,
    pub endpoint: Vec<u8>,
}

/// A message polled from the web server.
#[derive(Clone, Debug)]
pub struct RecvMsg {
    pub message: Option<WebMessage>,
}

/// The decimal digits of `n`.
pub open spec fn decimal(n: u64) -> Seq<u8>
    decreases n,
{
    if n < 10 {
        seq![(48 + n) as u8]
    } else {
        decimal(n / 10) + seq![(48 + n % 10) as u8]
    }
}

/// Appends the decimal digits of `n`.
pub fn push_decimal(out: &mut Vec<u8>, n: u64)
    ensures
        final(out)@ == old(out)@ + decimal(n),
    decreases n,
{
    if n >= 10 {
        push_decimal(out, n / 10);
    }
    let d = (48 + n % 10) as u8;
    out.push(d);
    assert(out@ =~= old(out)@ + decimal(n));
}

pub open spec fn proposal_route_prefix() -> Seq<u8> {
    seq![97u8, 112, 105, 47, 112, 114, 111, 112, 111, 115, 97, 108, 47]
}

pub open spec fn vote_route_prefix() -> Seq<u8> {
    seq![97u8, 112, 105, 47, 118, 111, 116, 101, 115, 47]
}

pub open spec fn transactions_route_spec() -> Seq<u8> {
    seq![97u8, 112, 105, 47, 116, 114, 97, 110, 115, 97, 99, 116, 105, 111, 110, 115]
}

fn push_all(out: &mut Vec<u8>, s: &[u8])
    ensures
        final(out)@ == old(out)@ + s@,
{
    let mut i: usize = 0;
    while i < s.len()
        invariant
            i <= s@.len(),
            out@ == old(out)@ + s@.subrange(0, i as int),
        decreases s@.len() - i,
    {
        out.push(s[i]);
        i += 1;
        assert(out@ =~= old(out)@ + s@.subrange(0, i as int));
    }
    assert(s@.subrange(0, s@.len() as int) =~= s@);
}

/// `api/proposal/{view}`: where the proposal of a view is posted and polled.
pub fn proposal_route(view: u64) -> (r: Vec<u8>)
    ensures
        r@ == proposal_route_prefix() + decimal(view),
{
    let mut out: Vec<u8> = Vec::new();
    let prefix: [u8; 13] = [97, 112, 105, 47, 112, 114, 111, 112, 111, 115, 97, 108, 47];
    push_all(&mut out, prefix.as_slice());
    assert(prefix@ =~= proposal_route_prefix());
    push_decimal(&mut out, view);
    out
}

/// `api/votes/{view}`: where votes of a view are posted.
pub fn vote_route(view: u64) -> (r: Vec<u8>)
    ensures
        r@ == vote_route_prefix() + decimal(view),
{
    let mut out: Vec<u8> = Vec::new();
    let prefix: [u8; 10] = [97, 112, 105, 47, 118, 111, 116, 101, 115, 47];
    push_all(&mut out, prefix.as_slice());
    assert(prefix@ =~= vote_route_prefix());
    push_decimal(&mut out, view);
    out
}

/// `api/transactions`: where transactions are posted.
pub fn transactions_route() -> (r: Vec<u8>)
    ensures
        r@ == transactions_route_spec(),
{
    let mut out: Vec<u8> = Vec::new();
    let route: [u8; 16] = [97, 112, 105, 47, 116, 114, 97, 110, 115, 97, 99, 116, 105, 111, 110, 115];
    push_all(&mut out, route.as_slice());
    assert(route@ =~= transactions_route_spec());
    out
}

/// The route a message of `kind` at `view` is posted to; internal triggers
/// are never posted.
pub open spec fn route_of(kind: WebMessageKind, view: u64) -> Option<Seq<u8>> {
    match kind {
        WebMessageKind::Proposal => Some(proposal_route_prefix() + decimal(view)),
        WebMessageKind::Vote => Some(vote_route_prefix() + decimal(view)),
        WebMessageKind::SubmitTransaction => Some(transactions_route_spec()),
        WebMessageKind::InternalTrigger => None,
    }
}

/// The state a web-server network keeps besides its HTTP client.
#[derive(Clone, Debug)]
pub struct CentralizedWebServerNetwork {
    pub host: Vec<u8>,
    pub port: u16,
    pub wait_between_polls_ms: u64,
    pub own_key: u64,
    pub consensus_info: ConsensusInfo,
    pub broadcast_poll_queue: Vec<RecvMsg>,
    pub direct_poll_queue: Vec<RecvMsg>,
    pub running: bool,
    pub connected: bool,
}

impl CentralizedWebServerNetwork {
    /// A network for `host:port`, running and connected, at view 0.
    pub fn create(host: Vec<u8>, port: u16, wait_between_polls_ms: u64, key: u64) -> (r: CentralizedWebServerNetwork)
        ensures
            r.host@ == host@,
            r.port == port,
            r.wait_between_polls_ms == wait_between_polls_ms,
            r.own_key == key,
            r.consensus_info == (ConsensusInfo { view_number: 0, is_current_leader: false, is_next_leader: false }),
            r.broadcast_poll_queue@.len() == 0,
            r.direct_poll_queue@.len() == 0,
            r.running,
            r.connected,
    {
        CentralizedWebServerNetwork {
            host,
            port,
            wait_between_polls_ms,
            own_key: key,
            consensus_info: ConsensusInfo { view_number: 0, is_current_leader: false, is_next_leader: false },
            broadcast_poll_queue: Vec::new(),
            direct_poll_queue: Vec::new(),
            running: true,
            connected: true,
        }
    }

    /// Moves the polled view and leadership; the view must move forward.
    pub fn inject_consensus_info(&mut self, tuple: (u64, bool, bool)) -> (r: Result<(), NetworkError>)
        requires
            tuple.0 > old(self).consensus_info.view_number,
        ensures
            r is Ok,
            *final(self) == (CentralizedWebServerNetwork {
                consensus_info: ConsensusInfo { view_number: tuple.0, is_current_leader: tuple.1, is_next_leader: tuple.2 },
                ..*old(self)
            }),
    {
        let (view_number, is_current_leader, is_next_leader) = tuple;
        self.consensus_info = ConsensusInfo { view_number, is_current_leader, is_next_leader };
        Ok(())
    }

    /// Takes every queued message of the given kind; direct messages are not
    /// served by the web server.
    pub fn recv_msgs(&mut self, transmit_type: TransmitType) -> (r: Result<Vec<RecvMsg>, NetworkError>)
        ensures
            r is Ok,
            transmit_type == TransmitType::Direct ==> r.unwrap()@.len() == 0 && *final(self) == *old(self),
            transmit_type == TransmitType::Broadcast ==> r.unwrap()@ == old(self).broadcast_poll_queue@
                && final(self).broadcast_poll_queue@.len() == 0,
            final(self).consensus_info == old(self).consensus_info,
    {
        match transmit_type {
            TransmitType::Direct => Ok(Vec::new()),
            TransmitType::Broadcast => {
                let mut taken: Vec<RecvMsg> = Vec::new();
                std::mem::swap(&mut taken, &mut self.broadcast_poll_queue);
                Ok(taken)
            },
        }
    }

    /// Queues a polled broadcast message.
    pub fn push_broadcast(&mut self, m: RecvMsg)
        ensures
            final(self).broadcast_poll_queue@ == old(self).broadcast_poll_queue@.push(m),
            final(self).consensus_info == old(self).consensus_info,
    {
        self.broadcast_poll_queue.push(m);
    }

    /// Stops the background pollers.
    pub fn shut_down(&mut self)
        ensures
            !final(self).running,
            final(self).consensus_info == old(self).consensus_info,
    {
        self.running = false;
    }

    /// Whether the network is connected to the web server.
    pub fn is_ready(&self) -> (r: bool)
        ensures
            r == self.connected,
    {
        self.connected
    }
}

/// The communication channel over a web-server network.
#[derive(Clone, Debug)]
pub struct CentralizedWebCommChannel(pub CentralizedWebServerNetwork);

impl CentralizedWebCommChannel {
    pub fn new(network: CentralizedWebServerNetwork) -> (r: CentralizedWebCommChannel)
        ensures
            r.0 == network,
    {
        CentralizedWebCommChannel(network)
    }

    /// Pairs a message with the route it is posted to.
    pub fn parse_post_message(&self, message: WebMessage) -> (r: Result<SendMsg, NetworkError>)
        ensures
            route_of(message.kind, message.view_number) is None ==> r == Err::<SendMsg, NetworkError>(
                NetworkError::UnimplementedFeature,
            ),
            route_of(message.kind, message.view_number) matches Some(route) ==> (r matches Ok(m) && m.endpoint@
                == route && m.message == Some(message)),
    {
        let endpoint = match message.kind {
            WebMessageKind::Proposal => proposal_route(message.view_number),
            WebMessageKind::Vote => vote_route(message.view_number),
            WebMessageKind::SubmitTransaction => transactions_route(),
            WebMessageKind::InternalTrigger => return Err(NetworkError::UnimplementedFeature),
        };
        Ok(SendMsg { message: Some(message), endpoint })
    }

    /// The message to post for a broadcast: the web server has no notion of
    /// recipients, so it is posted as `parse_post_message` routes it.
    pub fn broadcast_message(&self, message: WebMessage) -> (r: Result<SendMsg, NetworkError>)
        ensures
            route_of(message.kind, message.view_number) is None ==> r == Err::<SendMsg, NetworkError>(
                NetworkError::UnimplementedFeature,
            ),
            route_of(message.kind, message.view_number) matches Some(route) ==> (r matches Ok(m) && m.endpoint@
                == route && m.message == Some(message)),
    {
        self.parse_post_message(message)
    }

    /// The message to post for one recipient: the web server has no notion of
    /// recipients, so it is routed as a broadcast is.
    pub fn direct_message(&self, message: WebMessage, recipient: u64) -> (r: Result<SendMsg, NetworkError>)
        ensures
            route_of(message.kind, message.view_number) is None ==> r == Err::<SendMsg, NetworkError>(
                NetworkError::UnimplementedFeature,
            ),
            route_of(message.kind, message.view_number) matches Some(route) ==> (r matches Ok(m) && m.endpoint@
                == route && m.message == Some(message)),
    {
        self.parse_post_message(message)
    }

    /// Looking a node up needs nothing from the web server.
    pub fn lookup_node(&self, key: u64) -> (r: Result<(), NetworkError>)
        ensures
            r is Ok,
    {
        Ok(())
    }

    /// Takes the received broadcast messages, unwrapped (direct messages are
    /// not served); an entry without a message is refused.
    pub fn recv_msgs(&mut self, transmit_type: TransmitType) -> (r: Result<Vec<WebMessage>, NetworkError>)
        ensures
            transmit_type == TransmitType::Direct ==> (r matches Ok(v) && v@.len() == 0),
            transmit_type == TransmitType::Broadcast ==> {
                let q = old(self).0.broadcast_poll_queue@;
                &&& r is Ok <==> forall|i: int| 0 <= i < q.len() ==> #[trigger] q[i].message is Some
                &&& r matches Ok(v) ==> v@.len() == q.len() && forall|i: int|
                    0 <= i < q.len() ==> #[trigger] v@[i].same_as(q[i].message->Some_0)
            },
            final(self).0.broadcast_poll_queue@.len() == 0 || transmit_type == TransmitType::Direct,
    {
        let msgs = match self.0.recv_msgs(transmit_type) {
            Ok(m) => m,
            Err(e) => return Err(e),
        };
        let mut result: Vec<WebMessage> = Vec::new();
        let mut i: usize = 0;
        while i < msgs.len()
            invariant
                i <= msgs@.len(),
                result@.len() == i,
                transmit_type == TransmitType::Direct ==> msgs@.len() == 0,
                transmit_type == TransmitType::Broadcast ==> msgs@ == old(self).0.broadcast_poll_queue@,
                transmit_type == TransmitType::Broadcast ==> self.0.broadcast_poll_queue@.len() == 0,
                forall|j: int| 0 <= j < i ==> #[trigger] msgs@[j].message is Some,
                forall|j: int| 0 <= j < i ==> #[trigger] result@[j].same_as(msgs@[j].message->Some_0),
            decreases msgs@.len() - i,
        {
            match &msgs[i].message {
                Some(m) => result.push(m.copy_of()),
                None => {
                    assert(msgs@[i as int].message is None);
                    return Err(NetworkError::UnimplementedFeature);
                },
            }
            i += 1;
        }
        Ok(result)
    }

    /// Moves the polled view and leadership forward.
    pub fn inject_consensus_info(&mut self, tuple: (u64, bool, bool)) -> (r: Result<(), NetworkError>)
        requires
            tuple.0 > old(self).0.consensus_info.view_number,
        ensures
            r is Ok,
            final(self).0.consensus_info == (ConsensusInfo {
                view_number: tuple.0,
                is_current_leader: tuple.1,
                is_next_leader: tuple.2,
            }),
    {
        self.0.inject_consensus_info(tuple)
    }
}

/// What one poll of the web server returned.
#[derive(Clone, Debug)]
pub enum PollResult {
    /// The messages stored under the polled route.
    Received(Vec<RecvMsg>),
    /// The route holds nothing yet.
    NothingYet,
    /// The request failed.
    Failed,
}

/// What the poller does next.
#[derive(Clone, Copy, Debug, PartialEq, Eq, Structural)]
pub enum PollAction {
    /// A proposal was queued: wait until the consensus info moves on.
    AwaitNextView,
    /// Sleep this many milliseconds, then poll again.
    Sleep(u64),
}

impl CentralizedWebServerNetwork {
    /// One round of the proposal poller: the first message received is queued
    /// and the poller waits for the next view; otherwise it sleeps between polls.
    pub fn after_proposal_poll(&mut self, result: PollResult) -> (r: PollAction)
        ensures
            (result matches PollResult::Received(v) && v@.len() > 0) ==> r == PollAction::AwaitNextView
                && final(self).broadcast_poll_queue@ == old(self).broadcast_poll_queue@.push(
                result->Received_0@[0],
            ),
            !(result matches PollResult::Received(v) && v@.len() > 0) ==> r == PollAction::Sleep(
                old(self).wait_between_polls_ms,
            ) && *final(self) == *old(self),
            final(self).consensus_info == old(self).consensus_info,
    {
        match result {
            PollResult::Received(msgs) => {
                if msgs.len() > 0 {
                    let mut msgs = msgs;
                    let first = msgs.remove(0);
                    self.broadcast_poll_queue.push(first);
                    PollAction::AwaitNextView
                } else {
                    PollAction::Sleep(self.wait_between_polls_ms)
                }
            },
            _ => PollAction::Sleep(self.wait_between_polls_ms),
        }
    }
}

/// A message to post: its route and its message.
pub trait SendMsgTrait {
    fn get_endpoint(&self) -> Vec<u8>;

    fn get_message(&self) -> Option<WebMessage>;
}

/// A polled message.
pub trait RecvMsgTrait {
    fn get_message(&self) -> Option<WebMessage>;
}

impl SendMsgTrait for SendMsg {
    fn get_endpoint(&self) -> Vec<u8> {
        self.endpoint.clone()
    }

    fn get_message(&self) -> Option<WebMessage> {
        self.message.clone()
    }
}

impl RecvMsgTrait for RecvMsg {
    fn get_message(&self) -> Option<WebMessage> {
        self.message.clone()
    }
}

} // verus!
