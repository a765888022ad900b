//! Cluster membership: node registry, the registration handshake, and the
//! per-connection session logic of the main node and of workers.
use vstd::prelude::*;
use crate::error::{AppError, ErrorCode};
use crate::frame::{Decoded, FrameError, LengthDelimited};
use crate::strmap::StrMap;

verus! {

/// The role a node plays.
#[derive(Debug, Clone, Copy, PartialEq, Eq, Structural)]
pub enum NodeRole {
    Main,
    Worker,
}

/// The health of a registered node.
#[derive(Debug, Clone, Copy, PartialEq, Eq, Structural)]
pub enum NodeStatus {
    Online,
    Draining,
    Offline,
}

/// A service a node exposes.
#[derive(Debug)]
pub struct Endpoint {
    pub name: String,
    pub protocol: String,
    pub address: String,
}

impl DeepView for Endpoint {
    type V = (Seq<char>, Seq<char>, Seq<char>);

    open spec fn deep_view(&self) -> (Seq<char>, Seq<char>, Seq<char>) {
        (self.name@, self.protocol@, self.address@)
    }
}

impl Endpoint {
    pub fn duplicate(&self) -> (e: Endpoint)
        ensures
            e.deep_view() == self.deep_view(),
    {
        Endpoint { name: self.name.clone(), protocol: self.protocol.clone(), address: self.address.clone() }
    }
}

/// What the registry knows of a node.
#[derive(Debug)]
pub struct NodeInfo {
    pub id: String,
    pub role: NodeRole,
    pub endpoints: Vec<Endpoint>,
    pub metadata: Vec<(String, String)>,
    pub status: NodeStatus,
}

/// The plain value of a node's record.
pub struct NodeView {
    pub id: Seq<char>,
    pub role: NodeRole,
    pub endpoints: Seq<(Seq<char>, Seq<char>, Seq<char>)>,
    pub metadata: Seq<(Seq<char>, Seq<char>)>,
    pub status: NodeStatus,
}

impl DeepView for NodeInfo {
    type V = NodeView;

    open spec fn deep_view(&self) -> NodeView {
        NodeView {
            id: self.id@,
            role: self.role,
            endpoints: self.endpoints.deep_view(),
            metadata: self.metadata.deep_view(),
            status: self.status,
        }
    }
}

pub fn clone_endpoints(v: &Vec<Endpoint>) -> (c: Vec<Endpoint>)
    ensures
        c.deep_view() == v.deep_view(),
{
    let mut c: Vec<Endpoint> = Vec::new();
    let mut i: usize = 0;
    while i < v.len()
        invariant
            i <= v@.len(),
            c@.len() == i,
            forall|j: int| 0 <= j < i ==> #[trigger] c@[j].deep_view() == v@[j].deep_view(),
        decreases v@.len() - i,
    {
        c.push(v[i].duplicate());
        i = i + 1;
    }
    assert(c.deep_view() =~= v.deep_view());
    c
}

pub fn clone_pairs(v: &Vec<(String, String)>) -> (c: Vec<(String, String)>)
    ensures
        c.deep_view() == v.deep_view(),
{
    let mut c: Vec<(String, String)> = Vec::new();
    let mut i: usize = 0;
    while i < v.len()
        invariant
            i <= v@.len(),
            c@.len() == i,
            forall|j: int| 0 <= j < i ==> #[trigger] c@[j].deep_view() == v@[j].deep_view(),
        decreases v@.len() - i,
    {
        c.push((v[i].0.clone(), v[i].1.clone()));
        i = i + 1;
    }
    assert(c.deep_view() =~= v.deep_view());
    c
}

impl NodeInfo {
    pub fn duplicate(&self) -> (n: NodeInfo)
        ensures
            n.deep_view() == self.deep_view(),
    {
        NodeInfo {
            id: self.id.clone(),
            role: self.role,
            endpoints: clone_endpoints(&self.endpoints),
            metadata: clone_pairs(&self.metadata),
            status: self.status,
        }
    }
}

/// The messages exchanged between the main node and workers.
#[derive(Debug)]
pub enum ClusterMessage {
    Register {
        node_id: String,
        role: NodeRole,
        endpoints: Vec<Endpoint>,
        metadata: Vec<(String, String)>,
        token: String,
        trace_context: Option<Vec<(String, String)>>,
    },
    RegisterAck { success: bool, error: Option<String> },
    Deregister { node_id: String, trace_context: Option<Vec<(String, String)>> },
    Ping,
    Pong,
    ListNodes,
    NodeList { nodes: Vec<NodeInfo> },
}

/// Frame codec for cluster messages: 4-byte big-endian length prefix, 64 KiB limit.
pub struct ClusterCodec {
    inner: LengthDelimited,
}

/// The frame limit of the cluster protocol.
pub const CLUSTER_MAX_FRAME: usize = 65536;

impl ClusterCodec {
    #[verifier::type_invariant]
    closed spec fn inv(self) -> bool {
        self.inner.limit() == 65536
    }

    /// The largest payload a frame may carry.
    pub closed spec fn max_frame(&self) -> nat {
        self.inner.limit()
    }

    pub fn new() -> (c: ClusterCodec)
        ensures
            c.max_frame() == 65536,
    {
        ClusterCodec { inner: LengthDelimited::new(CLUSTER_MAX_FRAME) }
    }

    /// Frames an encoded message; payloads over the limit are refused.
    pub fn encode_frame(&self, payload: &[u8]) -> (r: Result<Vec<u8>, FrameError>)
        ensures
            payload@.len() > 65536 ==> r == Err::<Vec<u8>, FrameError>(FrameError::TooLong),
            payload@.len() <= 65536 ==> (r matches Ok(out) && out@ == crate::frame::spec_frame(payload@)),
    {
        proof { use_type_invariant(self); }
        self.inner.encode(payload)
    }

    /// Takes the frame at the front of `buf`, if whole.
    pub fn decode_frame(&self, buf: &[u8]) -> (r: Result<Decoded, FrameError>)
        ensures
            match r {
                Ok(d) => crate::frame::spec_decode(buf@, 65536) == Ok::<Option<(Seq<u8>, nat)>, FrameError>(
                    crate::frame::decoded_view(d)),
                Err(e) => crate::frame::spec_decode(buf@, 65536) == Err::<Option<(Seq<u8>, nat)>, FrameError>(e),
            },
    {
        proof { use_type_invariant(self); }
        self.inner.decode(buf)
    }
}

/// Main-side registry of the nodes that connected.
pub struct ConnectedRegistry {
    nodes: StrMap<NodeInfo>,
}

impl ConnectedRegistry {
    pub closed spec fn wf(&self) -> bool {
        &&& self.nodes.wf()
        &&& forall|k: Seq<char>| #[trigger] self.nodes.view().contains_key(k) ==> self.nodes.view()[k].id@ == k
    }

    /// The registered nodes, by id.
    pub closed spec fn view(&self) -> Map<Seq<char>, NodeView> {
        self.nodes.view().map_values(|n: NodeInfo| n.deep_view())
    }

    /// The registered nodes, in registration order.
    pub closed spec fn order(&self) -> Seq<NodeView> {
        self.nodes.entries@.map_values(|e: (String, NodeInfo)| e.1.deep_view())
    }

    pub fn new() -> (r: ConnectedRegistry)
        ensures
            r.wf(),
            r.view() == Map::<Seq<char>, NodeView>::empty(),
    {
        let r = ConnectedRegistry { nodes: StrMap::new() };
        assert(r.view() =~= Map::<Seq<char>, NodeView>::empty());
        r
    }

    /// Records a node as online, replacing any earlier record of the same id.
    pub fn register(&mut self, node_id: String, role: NodeRole, endpoints: Vec<Endpoint>, metadata: Vec<(String, String)>)
        requires
            old(self).wf(),
        ensures
            final(self).wf(),
            final(self).view() == old(self).view().insert(node_id@, NodeView {
                id: node_id@,
                role,
                endpoints: endpoints.deep_view(),
                metadata: metadata.deep_view(),
                status: NodeStatus::Online,
            }),
    {
        let key = node_id.clone();
        let node = NodeInfo { id: node_id, role, endpoints, metadata, status: NodeStatus::Online };
        let ghost nv = node.deep_view();
        self.nodes.insert(key, node);
        assert(self.view() =~= old(self).view().insert(key@, nv));
    }

    /// Forgets a node; tells whether it was known.
    pub fn unregister(&mut self, node_id: &str) -> (was: bool)
        requires
            old(self).wf(),
        ensures
            final(self).wf(),
            was == old(self).view().contains_key(node_id@),
            final(self).view() == old(self).view().remove(node_id@),
    {
        let was = self.nodes.remove(node_id);
        assert(self.view() =~= old(self).view().remove(node_id@));
        was
    }

    /// Sets the status of a known node; unknown ids are ignored.
    pub fn set_status(&mut self, node_id: &str, status: NodeStatus)
        requires
            old(self).wf(),
        ensures
            final(self).wf(),
            old(self).view().contains_key(node_id@) ==> final(self).view() == old(self).view().insert(
                node_id@,
                NodeView { status, ..old(self).view()[node_id@] },
            ),
            !old(self).view().contains_key(node_id@) ==> final(self).view() == old(self).view(),
    {
        match self.nodes.find(node_id) {
            Some(i) => {
                let placeholder = NodeInfo {
                    id: String::new(),
                    role: NodeRole::Worker,
                    endpoints: Vec::new(),
                    metadata: Vec::new(),
                    status: NodeStatus::Offline,
                };
                let mut node = self.nodes.replace_at(i, placeholder);
                node.status = status;
                let ghost nv = node.deep_view();
                let _ = self.nodes.replace_at(i, node);
                assert(self.view() =~= old(self).view().insert(node_id@, nv));
            },
            None => {},
        }
    }

    /// A copy of the record of `node_id`.
    pub fn get_node(&self, node_id: &str) -> (r: Option<NodeInfo>)
        requires
            self.wf(),
        ensures
            r is Some == self.view().contains_key(node_id@),
            r matches Some(n) ==> n.deep_view() == self.view()[node_id@],
    {
        match self.nodes.get(node_id) {
            Some(n) => Some(n.duplicate()),
            None => None,
        }
    }

    /// Copies of all records, in registration order.
    pub fn list_nodes(&self) -> (r: Vec<NodeInfo>)
        requires
            self.wf(),
        ensures
            r.deep_view() == self.order(),
            forall|i: int| 0 <= i < r@.len() ==> self.view().contains_key(#[trigger] r@[i].id@)
                && self.view()[r@[i].id@] == r@[i].deep_view(),
    {
        let mut out: Vec<NodeInfo> = Vec::new();
        let mut i: usize = 0;
        while i < self.nodes.len()
            invariant
                self.wf(),
                i <= self.nodes.entries@.len(),
                out@.len() == i,
                forall|j: int| 0 <= j < i ==> #[trigger] out@[j].deep_view() == self.nodes.entries@[j].1.deep_view(),
            decreases self.nodes.entries@.len() - i,
        {
            out.push(self.nodes.value_at(i).duplicate());
            i = i + 1;
        }
        assert(out.deep_view() =~= self.order());
        assert forall|j: int| 0 <= j < out@.len() implies self.view().contains_key(#[trigger] out@[j].id@)
            && self.view()[out@[j].id@] == out@[j].deep_view() by {
            self.nodes.lemma_view_at(j);
            assert(self.nodes.view().contains_key(self.nodes.entries@[j].0@));
            assert(self.nodes.view()[self.nodes.entries@[j].0@].id@ == self.nodes.entries@[j].0@);
            assert(out@[j].deep_view() == self.nodes.entries@[j].1.deep_view());
        }
        out
    }
}

/// What the main node does with the first message of a connection.
pub enum Admission {
    /// Drop the connection without answering.
    Reject,
    /// Answer with the given (negative) acknowledgement, then drop the connection.
    Refuse { reply: ClusterMessage },
    /// Answer with a positive acknowledgement and register this node.
    Admit {
        reply: ClusterMessage,
        node_id: String,
        role: NodeRole,
        endpoints: Vec<Endpoint>,
        metadata: Vec<(String, String)>,
    },
}

/// Whether a registration token is accepted: any token when none is expected,
/// otherwise exactly the expected one.
pub open spec fn token_accepted(expected: Seq<char>, token: Seq<char>) -> bool {
    expected.len() == 0 || token == expected
}

/// Decides on the first message of a connection (`None` when it did not
/// arrive in time or the read failed).
pub fn admission(first: Option<ClusterMessage>, expected_token: &str) -> (a: Admission)
    ensures
        match first {
            Some(ClusterMessage::Register { node_id, role, endpoints, metadata, token, .. }) => {
                if token_accepted(expected_token@, token@) {
                    a matches Admission::Admit { reply, node_id: n, role: r, endpoints: e, metadata: m }
                        && n@ == node_id@ && r == role && e.deep_view() == endpoints.deep_view()
                        && m.deep_view() == metadata.deep_view()
                        && reply matches ClusterMessage::RegisterAck { success: true, error: None }
                } else {
                    a matches Admission::Refuse { reply }
                        && reply matches ClusterMessage::RegisterAck { success: false, error: Some(msg) }
                        && msg@ == "invalid token"@
                }
            },
            _ => a is Reject,
        },
{
    match first {
        Some(ClusterMessage::Register { node_id, role, endpoints, metadata, token, trace_context: _ }) => {
            let expected = expected_token.to_string();
            if !expected_token.is_empty() && token != expected {
                Admission::Refuse {
                    reply: ClusterMessage::RegisterAck { success: false, error: Some("invalid token".to_string()) },
                }
            } else {
                Admission::Admit {
                    reply: ClusterMessage::RegisterAck { success: true, error: None },
                    node_id,
                    role,
                    endpoints,
                    metadata,
                }
            }
        },
        _ => Admission::Reject,
    }
}

/// An event on an established connection, as seen by the main node.
pub enum ServerEvent {
    Shutdown,
    PingTick,
    Received(ClusterMessage),
    ReadError,
    Closed,
}

/// What the main node does next on a connection.
#[derive(Debug, Clone, Copy, PartialEq, Eq, Structural)]
pub enum ServerAction {
    /// Send a ping (on failure, disconnect).
    SendPing,
    /// Answer a ping.
    SendPong,
    /// Answer with the current node list.
    SendNodeList,
    /// The node left: forget it and close.
    Deregister,
    /// Close and mark the node offline.
    Disconnect,
    /// Nothing to do.
    Idle,
}

/// The number of unanswered pings after which the main node gives up.
pub const MAX_MISSED_PONGS: u32 = 3;

/// The main node's decision for one event, given the count of unanswered
/// pings; returns the new count and the action.
pub open spec fn spec_server_step(missed: u32, ev: ServerEvent) -> (u32, ServerAction) {
    match ev {
        ServerEvent::Shutdown => (missed, ServerAction::Disconnect),
        ServerEvent::PingTick => if missed >= MAX_MISSED_PONGS {
            (missed, ServerAction::Disconnect)
        } else {
            ((missed + 1) as u32, ServerAction::SendPing)
        },
        ServerEvent::Received(m) => match m {
            ClusterMessage::Pong => (0, ServerAction::Idle),
            ClusterMessage::Deregister { .. } => (missed, ServerAction::Deregister),
            ClusterMessage::Ping => (missed, ServerAction::SendPong),
            ClusterMessage::ListNodes => (missed, ServerAction::SendNodeList),
            _ => (missed, ServerAction::Idle),
        },
        ServerEvent::ReadError => (missed, ServerAction::Disconnect),
        ServerEvent::Closed => (missed, ServerAction::Disconnect),
    }
}

/// Session state of one worker connection on the main node.
pub struct ServerSession {
    missed_pongs: u32,
}

impl ServerSession {
    pub closed spec fn missed(&self) -> u32 {
        self.missed_pongs
    }

    pub fn new() -> (s: ServerSession)
        ensures
            s.missed() == 0,
    {
        ServerSession { missed_pongs: 0 }
    }

    /// Applies one event.
    pub fn step(&mut self, ev: ServerEvent) -> (a: ServerAction)
        requires
            old(self).missed() <= MAX_MISSED_PONGS,
        ensures
            final(self).missed() <= MAX_MISSED_PONGS,
            (final(self).missed(), a) == spec_server_step(old(self).missed(), ev),
    {
        match ev {
            ServerEvent::Shutdown => ServerAction::Disconnect,
            ServerEvent::PingTick => {
                if self.missed_pongs >= MAX_MISSED_PONGS {
                    ServerAction::Disconnect
                } else {
                    self.missed_pongs = self.missed_pongs + 1;
                    ServerAction::SendPing
                }
            },
            ServerEvent::Received(m) => match m {
                ClusterMessage::Pong => {
                    self.missed_pongs = 0;
                    ServerAction::Idle
                },
                ClusterMessage::Deregister { .. } => ServerAction::Deregister,
                ClusterMessage::Ping => ServerAction::SendPong,
                ClusterMessage::ListNodes => ServerAction::SendNodeList,
                _ => ServerAction::Idle,
            },
            ServerEvent::ReadError => ServerAction::Disconnect,
            ServerEvent::Closed => ServerAction::Disconnect,
        }
    }
}

/// Law: a worker that answers no ping is dropped at the fourth ping tick,
/// and any pong in between starts the count again.
pub proof fn lemma_ping_timeout()
    ensures
        spec_server_step(0, ServerEvent::PingTick) == (1u32, ServerAction::SendPing),
        spec_server_step(1, ServerEvent::PingTick) == (2u32, ServerAction::SendPing),
        spec_server_step(2, ServerEvent::PingTick) == (3u32, ServerAction::SendPing),
        spec_server_step(3, ServerEvent::PingTick) == (3u32, ServerAction::Disconnect),
        forall|k: u32| k <= MAX_MISSED_PONGS ==> #[trigger] spec_server_step(k, ServerEvent::Received(ClusterMessage::Pong)).0 == 0,
{
}

/// Law: whatever the count of unanswered pings, a worker's `Deregister`
/// removes it from the registry (it is not merely marked offline), a ping is
/// answered, a node-list request is answered with the list, and a shutdown,
/// a read error or a closed stream disconnect the worker; none of these
/// touches the count.
pub proof fn lemma_server_answers(missed: u32, node_id: String, trace: Option<Vec<(String, String)>>)
    ensures
        spec_server_step(missed, ServerEvent::Received(ClusterMessage::Deregister { node_id, trace_context: trace }))
            == (missed, ServerAction::Deregister),
        spec_server_step(missed, ServerEvent::Received(ClusterMessage::Ping)) == (missed, ServerAction::SendPong),
        spec_server_step(missed, ServerEvent::Received(ClusterMessage::ListNodes)) == (missed, ServerAction::SendNodeList),
        spec_server_step(missed, ServerEvent::Shutdown) == (missed, ServerAction::Disconnect),
        spec_server_step(missed, ServerEvent::ReadError) == (missed, ServerAction::Disconnect),
        spec_server_step(missed, ServerEvent::Closed) == (missed, ServerAction::Disconnect),
{
}

/// How the worker's registration ended.
pub enum RegisterReply {
    TimedOut,
    Closed,
    ReadError,
    Received(ClusterMessage),
}

/// The outcome of a registration attempt, from the reply (or its absence).
pub fn registration_outcome(reply: RegisterReply) -> (r: Result<(), AppError>)
    ensures
        match reply {
            RegisterReply::Received(ClusterMessage::RegisterAck { success: true, .. }) => r is Ok,
            RegisterReply::Received(ClusterMessage::RegisterAck { success: false, error }) =>
                r matches Err(e) && e.code == ErrorCode::ClusterAuthFailed && match error {
                    Some(m) => e.message@ == m@,
                    None => e.message@ == "register rejected"@,
                },
            _ => r matches Err(e) && e.code == ErrorCode::ClusterRegisterFailed,
        },
{
    match reply {
        RegisterReply::TimedOut => Err(AppError::from_static(ErrorCode::ClusterRegisterFailed, "register ack timeout")),
        RegisterReply::Closed => Err(AppError::from_static(ErrorCode::ClusterRegisterFailed, "connection closed before ack")),
        RegisterReply::ReadError => Err(AppError::from_static(ErrorCode::ClusterRegisterFailed, "read ack failed")),
        RegisterReply::Received(m) => match m {
            ClusterMessage::RegisterAck { success: true, .. } => Ok(()),
            ClusterMessage::RegisterAck { success: false, error } => match error {
                Some(msg) => Err(AppError::new(ErrorCode::ClusterAuthFailed, msg)),
                None => Err(AppError::from_static(ErrorCode::ClusterAuthFailed, "register rejected")),
            },
            _ => Err(AppError::from_static(ErrorCode::ClusterRegisterFailed, "unexpected response")),
        },
    }
}

/// An event on a worker's connection to the main node.
pub enum WorkerEvent {
    Shutdown,
    PingTick,
    SyncTick,
    Received(ClusterMessage),
    ReadError,
    Closed,
}

/// What a worker does next.
pub enum WorkerAction {
    /// Send a deregistration and stop for good.
    DeregisterAndStop,
    /// Send a ping; on failure reconnect.
    SendPing,
    /// Ask for the node list; on failure reconnect.
    SendListNodes,
    /// Answer a ping; on failure reconnect.
    SendPong,
    /// Replace the local copy of the node list.
    UpdateNodes(Vec<NodeInfo>),
    /// The connection is lost: reconnect.
    Reconnect,
    /// Nothing to do.
    Idle,
}

/// The worker's decision for one event.
pub fn worker_step(ev: WorkerEvent) -> (a: WorkerAction)
    ensures
        match ev {
            WorkerEvent::Shutdown => a is DeregisterAndStop,
            WorkerEvent::PingTick => a is SendPing,
            WorkerEvent::SyncTick => a is SendListNodes,
            WorkerEvent::Received(ClusterMessage::Ping) => a is SendPong,
            WorkerEvent::Received(ClusterMessage::NodeList { nodes }) =>
                a matches WorkerAction::UpdateNodes(n) && n.deep_view() == nodes.deep_view(),
            WorkerEvent::Received(_) => a is Idle,
            WorkerEvent::ReadError => a is Reconnect,
            WorkerEvent::Closed => a is Reconnect,
        },
{
    match ev {
        WorkerEvent::Shutdown => WorkerAction::DeregisterAndStop,
        WorkerEvent::PingTick => WorkerAction::SendPing,
        WorkerEvent::SyncTick => WorkerAction::SendListNodes,
        WorkerEvent::Received(m) => match m {
            ClusterMessage::Ping => WorkerAction::SendPong,
            ClusterMessage::NodeList { nodes } => WorkerAction::UpdateNodes(nodes),
            _ => WorkerAction::Idle,
        },
        WorkerEvent::ReadError => WorkerAction::Reconnect,
        WorkerEvent::Closed => WorkerAction::Reconnect,
    }
}

/// The first reconnect delay, in seconds.
pub const INITIAL_BACKOFF_SECS: u64 = 3;
/// The largest reconnect delay, in seconds.
pub const MAX_BACKOFF_SECS: u64 = 30;

/// The reconnect delay after a failed attempt that waited `secs`: doubled, at most 30.
pub open spec fn spec_next_backoff(secs: u64) -> u64 {
    if secs * 2 < MAX_BACKOFF_SECS { (secs * 2) as u64 } else { MAX_BACKOFF_SECS }
}

pub fn next_backoff(secs: u64) -> (n: u64)
    requires
        secs <= MAX_BACKOFF_SECS,
    ensures
        n == spec_next_backoff(secs),
{
    if secs * 2 < MAX_BACKOFF_SECS { secs * 2 } else { MAX_BACKOFF_SECS }
}

/// Law: starting from the initial delay, the delay stays between 3 and 30 seconds.
pub proof fn lemma_backoff_bounded(secs: u64)
    requires
        INITIAL_BACKOFF_SECS <= secs <= MAX_BACKOFF_SECS,
    ensures
        INITIAL_BACKOFF_SECS <= spec_next_backoff(secs) <= MAX_BACKOFF_SECS,
        spec_next_backoff(secs) >= secs,
{
}

/// The state of a worker's link to the main node.
#[derive(Debug, Clone, Copy, PartialEq, Eq, Structural)]
pub enum ConnectionState {
    Connected,
    Disconnected,
    Reconnecting,
}

/// The state a stored byte stands for: 0 connected, 1 disconnected, else reconnecting.
pub open spec fn state_of(v: u8) -> ConnectionState {
    if v == 0 {
        ConnectionState::Connected
    } else if v == 1 {
        ConnectionState::Disconnected
    } else {
        ConnectionState::Reconnecting
    }
}

impl ConnectionState {
    pub fn from_u8(v: u8) -> (s: ConnectionState)
        ensures
            s == state_of(v),
    {
        match v {
            0 => ConnectionState::Connected,
            1 => ConnectionState::Disconnected,
            _ => ConnectionState::Reconnecting,
        }
    }

    pub fn to_u8(self) -> (v: u8)
        ensures
            state_of(v) == self,
            v <= 2,
    {
        match self {
            ConnectionState::Connected => 0,
            ConnectionState::Disconnected => 1,
            ConnectionState::Reconnecting => 2,
        }
    }

    /// Whether this state is `Connected`.
    pub fn is_connected(self) -> (b: bool)
        ensures
            b == (self == ConnectionState::Connected),
    {
        match self {
            ConnectionState::Connected => true,
            _ => false,
        }
    }
}

/// Shared, read-mostly view of a worker's connection state.
#[derive(Clone)]
pub struct ConnectionHandle {
    state: std::sync::Arc<std::sync::atomic::AtomicU8>,
}

impl ConnectionHandle {
    /// A handle whose state starts as connected.
    pub fn new_connected() -> (h: ConnectionHandle) {
        ConnectionHandle { state: std::sync::Arc::new(std::sync::atomic::AtomicU8::new(ConnectionState::Connected.to_u8())) }
    }

    /// Publishes a new state.
    pub fn set(&self, s: ConnectionState) {
        self.state.store(s.to_u8(), std::sync::atomic::Ordering::SeqCst);
    }

    /// The current state. The worker's task may change it at any time, so
    /// nothing is stated of the value read.
    pub fn state(&self) -> ConnectionState {
        let v = self.state.load(std::sync::atomic::Ordering::SeqCst);
        ConnectionState::from_u8(v)
    }

    /// Whether the current state is `Connected`: `ConnectionState::is_connected`
    /// of the state read. The read is a load of a value that changes under
    /// the caller, so no contract can name what it gives.
    pub fn is_connected(&self) -> bool {
        let s = self.state();
        s.is_connected()
    }
}

} // verus!
