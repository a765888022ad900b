//! Listener-side decisions: the TCP server's settings, the order in which
//! connection middlewares run, and the per-connection state machines of TCP
//! and WebSocket sessions. The I/O itself is driven by the caller, which
//! performs each action and reports its outcome as the next event.
use vstd::prelude::*;

verus! {

/// The frame size limit a listener starts with.
pub const DEFAULT_MAX_FRAME_SIZE: usize = 65536;

/// Settings of a length-delimited TCP listener.
pub struct TcpServer {
    pub bind_addr: String,
    pub listener_name: String,
    pub max_frame_size: usize,
}

impl TcpServer {
    pub fn new(bind_addr: String, listener_name: String) -> (s: TcpServer)
        ensures
            s.bind_addr@ == bind_addr@,
            s.listener_name@ == listener_name@,
            s.max_frame_size == DEFAULT_MAX_FRAME_SIZE,
    {
        TcpServer { bind_addr, listener_name, max_frame_size: DEFAULT_MAX_FRAME_SIZE }
    }

    pub fn with_max_frame_size(self, size: usize) -> (s: TcpServer)
        ensures
            s.bind_addr@ == self.bind_addr@,
            s.listener_name@ == self.listener_name@,
            s.max_frame_size == size,
    {
        TcpServer { max_frame_size: size, ..self }
    }
}

/// Whether `(keys[a], a)` comes strictly before `(keys[b], b)`.
pub open spec fn key_before(keys: Seq<i32>, a: int, b: int) -> bool {
    keys[a] < keys[b] || (keys[a] == keys[b] && a < b)
}

/// `perm` lists every index of `keys` once, ordered by key and, among equal
/// keys, by position: the result of a stable sort by key.
pub open spec fn stable_order(keys: Seq<i32>, perm: Seq<usize>) -> bool {
    &&& perm.len() == keys.len()
    &&& forall|i: int| 0 <= i < perm.len() ==> #[trigger] perm[i] < keys.len()
    &&& forall|i: int, j: int| 0 <= i < j < perm.len() ==> key_before(keys, perm[i] as int, perm[j] as int)
}

/// The order in which middlewares with the given `order()` keys run: a stable
/// sort of their positions by key.
pub fn middleware_order(keys: &[i32]) -> (perm: Vec<usize>)
    ensures
        stable_order(keys@, perm@),
{
    let mut perm: Vec<usize> = Vec::new();
    let mut n: usize = 0;
    while n < keys.len()
        invariant
            n <= keys@.len(),
            perm@.len() == n,
            forall|i: int| 0 <= i < perm@.len() ==> #[trigger] perm@[i] < n,
            forall|i: int, j: int| 0 <= i < j < perm@.len() ==> key_before(keys@, perm@[i] as int, perm@[j] as int),
        decreases keys@.len() - n,
    {
        // Insert `n` after every element that comes before it.
        let mut pos: usize = perm.len();
        while pos > 0 && keys[n] < keys[perm[pos - 1]]
            invariant
                n < keys@.len(),
                pos <= perm@.len(),
                perm@.len() == n,
                forall|i: int| 0 <= i < perm@.len() ==> #[trigger] perm@[i] < n,
                forall|i: int| pos <= i < perm@.len() ==> keys@[n as int] < keys@[#[trigger] perm@[i] as int],
            decreases pos,
        {
            pos = pos - 1;
        }
        let ghost before = perm@;
        proof {
            assert forall|i: int| 0 <= i < pos implies key_before(keys@, #[trigger] before[i] as int, n as int) by {
                if pos > 0 {
                    assert(!(keys@[n as int] < keys@[before[pos - 1] as int]));
                    if i < pos - 1 {
                        assert(key_before(keys@, before[i] as int, before[pos - 1] as int));
                    }
                }
            }
        }
        perm.insert(pos, n);
        assert forall|i: int, j: int| 0 <= i < j < perm@.len() implies key_before(keys@, perm@[i] as int, perm@[j] as int) by {
            if j < pos {
                assert(perm@[i] == before[i] && perm@[j] == before[j]);
            } else if j == pos {
                assert(perm@[i] == before[i]);
            } else if i == pos {
                assert(perm@[j] == before[j - 1]);
            } else if i < pos {
                assert(perm@[i] == before[i] && perm@[j] == before[j - 1]);
            } else {
                assert(perm@[i] == before[i - 1] && perm@[j] == before[j - 1]);
            }
        }
        n = n + 1;
    }
    perm
}

/// Where a TCP connection stands.
#[derive(Debug, Clone, Copy, PartialEq, Eq, Structural)]
pub enum TcpPhase {
    /// Waiting for middleware `i`'s `on_connect`.
    Connecting(usize),
    /// Waiting for the handler's `on_connect`.
    HandlerConnecting,
    /// Waiting for the next frame (or shutdown).
    Reading,
    /// Waiting for the inbound pipeline.
    Decoding,
    /// Waiting for middleware `i`'s `on_inbound`.
    Inbound(usize),
    /// Waiting for the handler's `on_message`.
    Handling,
    /// Waiting for middleware `i`'s `on_outbound`.
    Outbound(usize),
    /// Waiting for the outbound pipeline.
    Encoding,
    /// Waiting for a frame to be written.
    Sending,
    /// Waiting for middleware `i`'s `on_disconnect`.
    Disconnecting(usize),
    /// Waiting for the handler's `on_disconnect`.
    HandlerDisconnecting,
    /// Done; the connection slot has been released.
    Closed,
}

/// The outcome of the last action, as reported by the caller.
#[derive(Debug)]
pub enum TcpEvent {
    /// `on_connect` accepted the connection.
    Accepted,
    /// `on_connect` refused the connection.
    Rejected,
    /// The listener is shutting down.
    Shutdown,
    /// A complete frame arrived.
    Frame(Vec<u8>),
    /// The framing layer failed (oversized or malformed frame).
    FrameFailed,
    /// The peer closed the stream.
    StreamEnded,
    /// A pipeline produced these bytes.
    Transformed(Vec<u8>),
    /// A pipeline stage failed.
    TransformFailed,
    /// A middleware passed on (`Some`) or swallowed (`None`) the data.
    Passed(Option<Vec<u8>>),
    /// A middleware or the handler returned an error.
    Failed,
    /// The handler answered (`Some`) or stayed silent (`None`).
    Replied(Option<Vec<u8>>),
    /// The frame was written.
    Sent,
    /// Writing the frame failed.
    SendFailed,
    /// An `on_disconnect` call returned.
    Finished,
}

/// What the caller does next.
#[derive(Debug, PartialEq, Eq)]
pub enum TcpAction {
    ConnectMiddleware(usize),
    ConnectHandler,
    ReadFrame,
    Decode(Vec<u8>),
    Inbound(usize, Vec<u8>),
    Handle(Vec<u8>),
    Outbound(usize, Vec<u8>),
    Encode(Vec<u8>),
    Send(Vec<u8>),
    DisconnectMiddleware(usize),
    DisconnectHandler,
    /// Release the connection slot; the session is over.
    Release,
    /// The event does not belong to the current phase: nothing happens.
    Ignore,
}

/// A TCP connection's session, for a fixed number of middlewares.
pub struct TcpSession {
    pub phase: TcpPhase,
    pub middlewares: usize,
}

/// The start of the disconnect chain: the last middleware first.
pub open spec fn tcp_closing(n: usize) -> (TcpPhase, TcpAction) {
    if n > 0 {
        (TcpPhase::Disconnecting((n - 1) as usize), TcpAction::DisconnectMiddleware((n - 1) as usize))
    } else {
        (TcpPhase::HandlerDisconnecting, TcpAction::DisconnectHandler)
    }
}

/// After middleware `i` accepted: the next middleware, or the handler.
pub open spec fn tcp_connect_after(i: int, n: usize) -> (TcpPhase, TcpAction) {
    if i + 1 < n {
        (TcpPhase::Connecting((i + 1) as usize), TcpAction::ConnectMiddleware((i + 1) as usize))
    } else {
        (TcpPhase::HandlerConnecting, TcpAction::ConnectHandler)
    }
}

/// Inbound data at middleware position `i` (ascending), or the handler once all passed.
pub open spec fn tcp_inbound_at(i: int, n: usize, d: Vec<u8>) -> (TcpPhase, TcpAction) {
    if i < n {
        (TcpPhase::Inbound(i as usize), TcpAction::Inbound(i as usize, d))
    } else {
        (TcpPhase::Handling, TcpAction::Handle(d))
    }
}

/// Outbound data at middleware position `i` (descending), or the pipeline below position 0.
pub open spec fn tcp_outbound_at(i: int, d: Vec<u8>) -> (TcpPhase, TcpAction) {
    if i >= 0 {
        (TcpPhase::Outbound(i as usize), TcpAction::Outbound(i as usize, d))
    } else {
        (TcpPhase::Encoding, TcpAction::Encode(d))
    }
}

/// The session's next phase and action for one event.
pub open spec fn tcp_transition(p: TcpPhase, n: usize, e: TcpEvent) -> (TcpPhase, TcpAction) {
    let read = (TcpPhase::Reading, TcpAction::ReadFrame);
    let released = (TcpPhase::Closed, TcpAction::Release);
    let ignore = (p, TcpAction::Ignore);
    match p {
        TcpPhase::Connecting(i) => match e {
            TcpEvent::Accepted => tcp_connect_after(i as int, n),
            TcpEvent::Rejected => released,
            _ => ignore,
        },
        TcpPhase::HandlerConnecting => match e {
            TcpEvent::Accepted => read,
            TcpEvent::Rejected => released,
            _ => ignore,
        },
        TcpPhase::Reading => match e {
            TcpEvent::Frame(raw) => (TcpPhase::Decoding, TcpAction::Decode(raw)),
            TcpEvent::Shutdown | TcpEvent::FrameFailed | TcpEvent::StreamEnded => tcp_closing(n),
            _ => ignore,
        },
        TcpPhase::Decoding => match e {
            TcpEvent::Transformed(d) => tcp_inbound_at(0, n, d),
            TcpEvent::TransformFailed => tcp_closing(n),
            _ => ignore,
        },
        TcpPhase::Inbound(i) => match e {
            TcpEvent::Passed(Some(d)) => tcp_inbound_at(i + 1, n, d),
            TcpEvent::Passed(None) | TcpEvent::Failed => read,
            _ => ignore,
        },
        TcpPhase::Handling => match e {
            TcpEvent::Replied(Some(r)) => tcp_outbound_at(n - 1, r),
            TcpEvent::Replied(None) => read,
            TcpEvent::Failed => tcp_closing(n),
            _ => ignore,
        },
        TcpPhase::Outbound(i) => match e {
            TcpEvent::Passed(Some(d)) => tcp_outbound_at(i - 1, d),
            TcpEvent::Passed(None) | TcpEvent::Failed => read,
            _ => ignore,
        },
        TcpPhase::Encoding => match e {
            TcpEvent::Transformed(b) => (TcpPhase::Sending, TcpAction::Send(b)),
            TcpEvent::TransformFailed => tcp_closing(n),
            _ => ignore,
        },
        TcpPhase::Sending => match e {
            TcpEvent::Sent => read,
            TcpEvent::SendFailed => tcp_closing(n),
            _ => ignore,
        },
        TcpPhase::Disconnecting(i) => match e {
            TcpEvent::Finished => if i > 0 {
                (TcpPhase::Disconnecting((i - 1) as usize), TcpAction::DisconnectMiddleware((i - 1) as usize))
            } else {
                (TcpPhase::HandlerDisconnecting, TcpAction::DisconnectHandler)
            },
            _ => ignore,
        },
        TcpPhase::HandlerDisconnecting => match e {
            TcpEvent::Finished => released,
            _ => ignore,
        },
        TcpPhase::Closed => ignore,
    }
}

impl TcpSession {
    /// Every middleware position named by the phase exists.
    pub open spec fn wf(&self) -> bool {
        match self.phase {
            TcpPhase::Connecting(i) | TcpPhase::Inbound(i) | TcpPhase::Outbound(i)
                | TcpPhase::Disconnecting(i) => i < self.middlewares,
            _ => true,
        }
    }

    /// A new connection: the first middleware's `on_connect` runs first (or
    /// the handler's, when there is no middleware).
    pub fn start(middlewares: usize) -> (r: (TcpSession, TcpAction))
        ensures
            r.0.wf(),
            r.0.middlewares == middlewares,
            (r.0.phase, r.1) == (if middlewares > 0 {
                (TcpPhase::Connecting(0), TcpAction::ConnectMiddleware(0))
            } else {
                (TcpPhase::HandlerConnecting, TcpAction::ConnectHandler)
            }),
    {
        if middlewares > 0 {
            (TcpSession { phase: TcpPhase::Connecting(0), middlewares }, TcpAction::ConnectMiddleware(0))
        } else {
            (TcpSession { phase: TcpPhase::HandlerConnecting, middlewares }, TcpAction::ConnectHandler)
        }
    }

    fn closing(&mut self) -> (a: TcpAction)
        requires
            old(self).wf(),
        ensures
            final(self).wf(),
            final(self).middlewares == old(self).middlewares,
            (final(self).phase, a) == tcp_closing(old(self).middlewares),
    {
        if self.middlewares > 0 {
            self.phase = TcpPhase::Disconnecting(self.middlewares - 1);
            TcpAction::DisconnectMiddleware(self.middlewares - 1)
        } else {
            self.phase = TcpPhase::HandlerDisconnecting;
            TcpAction::DisconnectHandler
        }
    }

    fn inbound_at(&mut self, i: usize, d: Vec<u8>) -> (a: TcpAction)
        requires
            i <= old(self).middlewares,
        ensures
            final(self).wf(),
            final(self).middlewares == old(self).middlewares,
            (final(self).phase, a) == tcp_inbound_at(i as int, old(self).middlewares, d),
    {
        if i < self.middlewares {
            self.phase = TcpPhase::Inbound(i);
            TcpAction::Inbound(i, d)
        } else {
            self.phase = TcpPhase::Handling;
            TcpAction::Handle(d)
        }
    }

    fn outbound_below(&mut self, i: usize, d: Vec<u8>) -> (a: TcpAction)
        requires
            i <= old(self).middlewares,
        ensures
            final(self).wf(),
            final(self).middlewares == old(self).middlewares,
            (final(self).phase, a) == tcp_outbound_at(i - 1, d),
    {
        if i > 0 {
            self.phase = TcpPhase::Outbound(i - 1);
            TcpAction::Outbound(i - 1, d)
        } else {
            self.phase = TcpPhase::Encoding;
            TcpAction::Encode(d)
        }
    }

    /// Applies one event.
    pub fn step(&mut self, e: TcpEvent) -> (a: TcpAction)
        requires
            old(self).wf(),
        ensures
            final(self).wf(),
            final(self).middlewares == old(self).middlewares,
            (final(self).phase, a) == tcp_transition(old(self).phase, old(self).middlewares, e),
    {
        let n = self.middlewares;
        match self.phase {
            TcpPhase::Connecting(i) => match e {
                TcpEvent::Accepted => {
                    if i + 1 < n {
                        self.phase = TcpPhase::Connecting(i + 1);
                        TcpAction::ConnectMiddleware(i + 1)
                    } else {
                        self.phase = TcpPhase::HandlerConnecting;
                        TcpAction::ConnectHandler
                    }
                },
                TcpEvent::Rejected => {
                    self.phase = TcpPhase::Closed;
                    TcpAction::Release
                },
                _ => TcpAction::Ignore,
            },
            TcpPhase::HandlerConnecting => match e {
                TcpEvent::Accepted => {
                    self.phase = TcpPhase::Reading;
                    TcpAction::ReadFrame
                },
                TcpEvent::Rejected => {
                    self.phase = TcpPhase::Closed;
                    TcpAction::Release
                },
                _ => TcpAction::Ignore,
            },
            TcpPhase::Reading => match e {
                TcpEvent::Frame(raw) => {
                    self.phase = TcpPhase::Decoding;
                    TcpAction::Decode(raw)
                },
                TcpEvent::Shutdown | TcpEvent::FrameFailed | TcpEvent::StreamEnded => self.closing(),
                _ => TcpAction::Ignore,
            },
            TcpPhase::Decoding => match e {
                TcpEvent::Transformed(d) => self.inbound_at(0, d),
                TcpEvent::TransformFailed => self.closing(),
                _ => TcpAction::Ignore,
            },
            TcpPhase::Inbound(i) => match e {
                TcpEvent::Passed(Some(d)) => self.inbound_at(i + 1, d),
                TcpEvent::Passed(None) | TcpEvent::Failed => {
                    self.phase = TcpPhase::Reading;
                    TcpAction::ReadFrame
                },
                _ => TcpAction::Ignore,
            },
            TcpPhase::Handling => match e {
                TcpEvent::Replied(Some(r)) => self.outbound_below(n, r),
                TcpEvent::Replied(None) => {
                    self.phase = TcpPhase::Reading;
                    TcpAction::ReadFrame
                },
                TcpEvent::Failed => self.closing(),
                _ => TcpAction::Ignore,
            },
            TcpPhase::Outbound(i) => match e {
                TcpEvent::Passed(Some(d)) => self.outbound_below(i, d),
                TcpEvent::Passed(None) | TcpEvent::Failed => {
                    self.phase = TcpPhase::Reading;
                    TcpAction::ReadFrame
                },
                _ => TcpAction::Ignore,
            },
            TcpPhase::Encoding => match e {
                TcpEvent::Transformed(b) => {
                    self.phase = TcpPhase::Sending;
                    TcpAction::Send(b)
                },
                TcpEvent::TransformFailed => self.closing(),
                _ => TcpAction::Ignore,
            },
            TcpPhase::Sending => match e {
                TcpEvent::Sent => {
                    self.phase = TcpPhase::Reading;
                    TcpAction::ReadFrame
                },
                TcpEvent::SendFailed => self.closing(),
                _ => TcpAction::Ignore,
            },
            TcpPhase::Disconnecting(i) => match e {
                TcpEvent::Finished => {
                    if i > 0 {
                        self.phase = TcpPhase::Disconnecting(i - 1);
                        TcpAction::DisconnectMiddleware(i - 1)
                    } else {
                        self.phase = TcpPhase::HandlerDisconnecting;
                        TcpAction::DisconnectHandler
                    }
                },
                _ => TcpAction::Ignore,
            },
            TcpPhase::HandlerDisconnecting => match e {
                TcpEvent::Finished => {
                    self.phase = TcpPhase::Closed;
                    TcpAction::Release
                },
                _ => TcpAction::Ignore,
            },
            TcpPhase::Closed => TcpAction::Ignore,
        }
    }
}

/// Law: a connection refused by any `on_connect` releases its slot at once,
/// without any `on_disconnect` call.
pub proof fn lemma_tcp_rejection_releases(n: usize, i: usize)
    requires
        i < n,
    ensures
        tcp_transition(TcpPhase::Connecting(i), n, TcpEvent::Rejected) == (TcpPhase::Closed, TcpAction::Release),
        tcp_transition(TcpPhase::HandlerConnecting, n, TcpEvent::Rejected) == (TcpPhase::Closed, TcpAction::Release),
{
}

/// Law: the middlewares' `on_connect` and `on_inbound` run in ascending
/// position, their `on_outbound` and `on_disconnect` in descending position.
pub proof fn lemma_tcp_chain_order(n: usize, i: usize, d: Vec<u8>)
    requires
        i < n,
    ensures
        tcp_transition(TcpPhase::Connecting(i), n, TcpEvent::Accepted).1 == (if i + 1 < n {
            TcpAction::ConnectMiddleware((i + 1) as usize)
        } else {
            TcpAction::ConnectHandler
        }),
        tcp_transition(TcpPhase::Inbound(i), n, TcpEvent::Passed(Some(d))).1 == (if i + 1 < n {
            TcpAction::Inbound((i + 1) as usize, d)
        } else {
            TcpAction::Handle(d)
        }),
        tcp_transition(TcpPhase::Outbound(i), n, TcpEvent::Passed(Some(d))).1 == (if i > 0 {
            TcpAction::Outbound((i - 1) as usize, d)
        } else {
            TcpAction::Encode(d)
        }),
        tcp_transition(TcpPhase::Disconnecting(i), n, TcpEvent::Finished).1 == (if i > 0 {
            TcpAction::DisconnectMiddleware((i - 1) as usize)
        } else {
            TcpAction::DisconnectHandler
        }),
        tcp_transition(TcpPhase::Handling, n, TcpEvent::Replied(Some(d))).1 == TcpAction::Outbound((n - 1) as usize, d),
{
}

/// Law: once connected, every way out of the read loop (shutdown, a framing
/// error, the peer closing, a failed pipeline, a handler error, a failed
/// write) runs the disconnect chain from the last middleware.
pub proof fn lemma_tcp_failures_disconnect(n: usize)
    ensures
        tcp_transition(TcpPhase::Reading, n, TcpEvent::Shutdown) == tcp_closing(n),
        tcp_transition(TcpPhase::Reading, n, TcpEvent::FrameFailed) == tcp_closing(n),
        tcp_transition(TcpPhase::Reading, n, TcpEvent::StreamEnded) == tcp_closing(n),
        tcp_transition(TcpPhase::Decoding, n, TcpEvent::TransformFailed) == tcp_closing(n),
        tcp_transition(TcpPhase::Handling, n, TcpEvent::Failed) == tcp_closing(n),
        tcp_transition(TcpPhase::Encoding, n, TcpEvent::TransformFailed) == tcp_closing(n),
        tcp_transition(TcpPhase::Sending, n, TcpEvent::SendFailed) == tcp_closing(n),
{
}

/// Law: a middleware that fails or swallows a message, inbound or outbound,
/// drops only that message: the connection goes back to reading frames,
/// and no disconnect runs. A handler that stays silent does the same.
pub proof fn lemma_tcp_middleware_errors_keep_reading(n: usize, i: usize)
    requires
        i < n,
    ensures
        tcp_transition(TcpPhase::Inbound(i), n, TcpEvent::Failed) == (TcpPhase::Reading, TcpAction::ReadFrame),
        tcp_transition(TcpPhase::Inbound(i), n, TcpEvent::Passed(None)) == (TcpPhase::Reading, TcpAction::ReadFrame),
        tcp_transition(TcpPhase::Outbound(i), n, TcpEvent::Failed) == (TcpPhase::Reading, TcpAction::ReadFrame),
        tcp_transition(TcpPhase::Outbound(i), n, TcpEvent::Passed(None)) == (TcpPhase::Reading, TcpAction::ReadFrame),
        tcp_transition(TcpPhase::Handling, n, TcpEvent::Replied(None)) == (TcpPhase::Reading, TcpAction::ReadFrame),
{
}

/// The count after a connection opens (wrapping, as the counter does).
pub open spec fn tracker_after_connect(c: usize) -> usize {
    if c == usize::MAX { 0 } else { (c + 1) as usize }
}

/// The count after a connection closes (wrapping, as the counter does).
pub open spec fn tracker_after_disconnect(c: usize) -> usize {
    if c == 0 { usize::MAX } else { (c - 1) as usize }
}

/// Counts the open WebSocket connections of a server, so that a shutdown can
/// wait for them to drain.
pub struct WsTracker {
    active: usize,
}

impl WsTracker {
    pub closed spec fn count(&self) -> usize {
        self.active
    }

    pub fn new() -> (t: WsTracker)
        ensures
            t.count() == 0,
    {
        WsTracker { active: 0 }
    }

    /// A connection opened.
    pub fn on_connect(&mut self)
        ensures
            final(self).count() == tracker_after_connect(old(self).count()),
    {
        self.active = self.active.wrapping_add(1);
    }

    /// A connection closed; returns whether that was the last one, in which
    /// case the waiters for a drained server are to be woken.
    pub fn on_disconnect(&mut self) -> (last: bool)
        ensures
            final(self).count() == tracker_after_disconnect(old(self).count()),
            last == (old(self).count() == 1),
    {
        let prev = self.active;
        self.active = self.active.wrapping_sub(1);
        prev == 1
    }

    pub fn active_count(&self) -> (n: usize)
        ensures
            n == self.count(),
    {
        self.active
    }
}

/// A WebSocket message, as handlers see it.
#[derive(Debug, Clone, PartialEq, Eq)]
pub enum WsMessage {
    Text(String),
    Binary(Vec<u8>),
    Ping(Vec<u8>),
    Pong(Vec<u8>),
    Close,
}

/// Where a WebSocket connection stands.
#[derive(Debug, Clone, Copy, PartialEq, Eq, Structural)]
pub enum WsPhase {
    /// Waiting for the handler's `on_open`.
    Opening,
    /// Waiting for a message, a ping tick or shutdown.
    Open,
    /// Waiting for the handler's `on_message`.
    Handling,
    /// Waiting for a frame to be written.
    Sending,
    /// Waiting for the handler's `on_close`.
    Closing,
    /// Done; the connection has left the tracker.
    Closed,
}

/// The outcome of the last action, as reported by the caller.
#[derive(Debug)]
pub enum WsEvent {
    /// `on_open` succeeded.
    Opened,
    /// `on_open` failed.
    OpenFailed,
    /// The server is shutting down.
    Shutdown,
    /// The ping interval elapsed; `now_ms` is the monotonic clock.
    Tick { now_ms: u64 },
    /// A pong arrived at `now_ms`.
    PongReceived { now_ms: u64 },
    /// Another message arrived.
    Received(WsMessage),
    /// Receiving failed, or the stream ended.
    ReceiveEnded,
    /// The handler answered (`Some`) or stayed silent (`None`).
    Replied(Option<WsMessage>),
    /// The handler returned an error.
    HandlerFailed,
    /// The frame was written.
    Sent,
    /// Writing the frame failed.
    SendFailed,
    /// `on_close` returned.
    Finished,
}

/// What the caller does next.
#[derive(Debug, PartialEq, Eq)]
pub enum WsAction {
    /// Wait for the next message, tick or shutdown.
    Wait,
    /// Send a ping.
    SendPing,
    /// Send this message.
    Send(WsMessage),
    /// Hand this message to the handler.
    Deliver(WsMessage),
    /// Send a close frame (ignoring the outcome), then call `on_close`.
    SendCloseThenClose,
    /// Call the handler's `on_close`.
    CallClose,
    /// Leave the tracker; the session is over.
    Leave,
    /// The event does not belong to the current phase: nothing happens.
    Ignore,
}

/// A WebSocket session with its keep-alive state.
pub struct WsSession {
    pub phase: WsPhase,
    pub waiting_pong: bool,
    pub last_pong_ms: u64,
    pub ping_timeout_secs: u64,
}

/// Whether more than `timeout_secs` have passed since `since_ms`.
pub open spec fn pong_overdue(now_ms: u64, since_ms: u64, timeout_secs: u64) -> bool {
    now_ms - since_ms > timeout_secs * 1000
}

/// The session's next state and action for one event.
pub open spec fn ws_transition(s: WsSession, e: WsEvent) -> (WsSession, WsAction) {
    let ignore = (s, WsAction::Ignore);
    let closing = (WsSession { phase: WsPhase::Closing, ..s }, WsAction::CallClose);
    match s.phase {
        WsPhase::Opening => match e {
            WsEvent::Opened => (WsSession { phase: WsPhase::Open, ..s }, WsAction::Wait),
            WsEvent::OpenFailed => (WsSession { phase: WsPhase::Closed, ..s }, WsAction::Leave),
            _ => ignore,
        },
        WsPhase::Open => match e {
            WsEvent::Shutdown => (WsSession { phase: WsPhase::Closing, ..s }, WsAction::SendCloseThenClose),
            WsEvent::Tick { now_ms } => if s.waiting_pong && pong_overdue(now_ms, s.last_pong_ms, s.ping_timeout_secs) {
                (WsSession { phase: WsPhase::Closing, ..s }, WsAction::SendCloseThenClose)
            } else {
                (WsSession { phase: WsPhase::Sending, waiting_pong: true, ..s }, WsAction::SendPing)
            },
            WsEvent::PongReceived { now_ms } => (WsSession { waiting_pong: false, last_pong_ms: now_ms, ..s }, WsAction::Wait),
            WsEvent::Received(m) => match m {
                WsMessage::Close => closing,
                _ => (WsSession { phase: WsPhase::Handling, ..s }, WsAction::Deliver(m)),
            },
            WsEvent::ReceiveEnded => closing,
            _ => ignore,
        },
        WsPhase::Handling => match e {
            WsEvent::Replied(Some(m)) => (WsSession { phase: WsPhase::Sending, ..s }, WsAction::Send(m)),
            WsEvent::Replied(None) => (WsSession { phase: WsPhase::Open, ..s }, WsAction::Wait),
            WsEvent::HandlerFailed => closing,
            _ => ignore,
        },
        WsPhase::Sending => match e {
            WsEvent::Sent => (WsSession { phase: WsPhase::Open, ..s }, WsAction::Wait),
            WsEvent::SendFailed => closing,
            _ => ignore,
        },
        WsPhase::Closing => match e {
            WsEvent::Finished => (WsSession { phase: WsPhase::Closed, ..s }, WsAction::Leave),
            _ => ignore,
        },
        WsPhase::Closed => ignore,
    }
}

impl WsSession {
    /// A new connection (already counted by the tracker): `on_open` runs first.
    /// `now_ms` is the monotonic clock at the start.
    pub fn new(ping_timeout_secs: u64, now_ms: u64) -> (s: WsSession)
        ensures
            s.phase == WsPhase::Opening,
            !s.waiting_pong,
            s.last_pong_ms == now_ms,
            s.ping_timeout_secs == ping_timeout_secs,
    {
        WsSession { phase: WsPhase::Opening, waiting_pong: false, last_pong_ms: now_ms, ping_timeout_secs }
    }

    fn overdue(&self, now_ms: u64) -> (b: bool)
        ensures
            b == pong_overdue(now_ms, self.last_pong_ms, self.ping_timeout_secs),
    {
        let elapsed: i128 = now_ms as i128 - self.last_pong_ms as i128;
        elapsed > self.ping_timeout_secs as i128 * 1000
    }

    /// Applies one event.
    pub fn step(&mut self, e: WsEvent) -> (a: WsAction)
        ensures
            (*final(self), a) == ws_transition(*old(self), e),
    {
        match self.phase {
            WsPhase::Opening => match e {
                WsEvent::Opened => {
                    self.phase = WsPhase::Open;
                    WsAction::Wait
                },
                WsEvent::OpenFailed => {
                    self.phase = WsPhase::Closed;
                    WsAction::Leave
                },
                _ => WsAction::Ignore,
            },
            WsPhase::Open => match e {
                WsEvent::Shutdown => {
                    self.phase = WsPhase::Closing;
                    WsAction::SendCloseThenClose
                },
                WsEvent::Tick { now_ms } => {
                    if self.waiting_pong && self.overdue(now_ms) {
                        self.phase = WsPhase::Closing;
                        WsAction::SendCloseThenClose
                    } else {
                        self.phase = WsPhase::Sending;
                        self.waiting_pong = true;
                        WsAction::SendPing
                    }
                },
                WsEvent::PongReceived { now_ms } => {
                    self.waiting_pong = false;
                    self.last_pong_ms = now_ms;
                    WsAction::Wait
                },
                WsEvent::Received(m) => match m {
                    WsMessage::Close => {
                        self.phase = WsPhase::Closing;
                        WsAction::CallClose
                    },
                    _ => {
                        self.phase = WsPhase::Handling;
                        WsAction::Deliver(m)
                    },
                },
                WsEvent::ReceiveEnded => {
                    self.phase = WsPhase::Closing;
                    WsAction::CallClose
                },
                _ => WsAction::Ignore,
            },
            WsPhase::Handling => match e {
                WsEvent::Replied(Some(m)) => {
                    self.phase = WsPhase::Sending;
                    WsAction::Send(m)
                },
                WsEvent::Replied(None) => {
                    self.phase = WsPhase::Open;
                    WsAction::Wait
                },
                WsEvent::HandlerFailed => {
                    self.phase = WsPhase::Closing;
                    WsAction::CallClose
                },
                _ => WsAction::Ignore,
            },
            WsPhase::Sending => match e {
                WsEvent::Sent => {
                    self.phase = WsPhase::Open;
                    WsAction::Wait
                },
                WsEvent::SendFailed => {
                    self.phase = WsPhase::Closing;
                    WsAction::CallClose
                },
                _ => WsAction::Ignore,
            },
            WsPhase::Closing => match e {
                WsEvent::Finished => {
                    self.phase = WsPhase::Closed;
                    WsAction::Leave
                },
                _ => WsAction::Ignore,
            },
            WsPhase::Closed => WsAction::Ignore,
        }
    }
}

/// 1 for an action that runs the handler's `on_close`, else 0.
pub open spec fn close_mark(a: WsAction) -> nat {
    match a {
        WsAction::CallClose | WsAction::SendCloseThenClose => 1,
        _ => 0,
    }
}

/// 1 for the action that leaves the tracker, else 0.
pub open spec fn leave_mark(a: WsAction) -> nat {
    match a {
        WsAction::Leave => 1,
        _ => 0,
    }
}

/// 1 for the step on which `on_open` was reported successful, else 0.
pub open spec fn open_mark(before: WsSession, after: WsSession) -> nat {
    if before.phase == WsPhase::Opening && after.phase == WsPhase::Open { 1 } else { 0 }
}

/// A session after a sequence of events, with how many times it ran
/// `on_close`, left the tracker, and had `on_open` succeed.
pub open spec fn ws_run(s: WsSession, es: Seq<WsEvent>) -> (WsSession, nat, nat, nat)
    decreases es.len(),
{
    if es.len() == 0 {
        (s, 0, 0, 0)
    } else {
        let (p, closes, leaves, opens) = ws_run(s, es.drop_last());
        let (q, a) = ws_transition(p, es.last());
        (q, closes + close_mark(a), leaves + leave_mark(a), opens + open_mark(p, q))
    }
}

/// What holds of a session's counts in each phase.
pub open spec fn ws_lifecycle(phase: WsPhase, closes: nat, leaves: nat, opens: nat) -> bool {
    match phase {
        WsPhase::Opening => closes == 0 && leaves == 0 && opens == 0,
        WsPhase::Open | WsPhase::Handling | WsPhase::Sending => closes == 0 && leaves == 0 && opens == 1,
        WsPhase::Closing => closes == 1 && leaves == 0 && opens == 1,
        WsPhase::Closed => leaves == 1 && closes == opens && opens <= 1,
    }
}

/// Law: whatever the handler and the socket report, a session started by
/// `new` leaves the tracker exactly once, and only when it is over; it runs
/// `on_close` exactly once if `on_open` succeeded and never otherwise.
pub proof fn lemma_ws_lifecycle(start: WsSession, es: Seq<WsEvent>)
    requires
        start.phase == WsPhase::Opening,
    ensures
        ws_lifecycle(ws_run(start, es).0.phase, ws_run(start, es).1, ws_run(start, es).2, ws_run(start, es).3),
        ws_run(start, es).2 == (if ws_run(start, es).0.phase == WsPhase::Closed { 1nat } else { 0nat }),
    decreases es.len(),
{
    if es.len() > 0 {
        lemma_ws_lifecycle(start, es.drop_last());
    }
}

/// Law: a received close frame ends the session without reaching the
/// handler's `on_message`: it goes straight to `on_close`.
pub proof fn lemma_ws_close_frame_not_delivered(s: WsSession)
    requires
        s.phase == WsPhase::Open,
    ensures
        ws_transition(s, WsEvent::Received(WsMessage::Close)).1 == WsAction::CallClose,
        ws_transition(s, WsEvent::Received(WsMessage::Close)).0.phase == WsPhase::Closing,
{
}

/// Law: a connection that is counted in and then out leaves the tracker's
/// count where it was.
pub proof fn lemma_ws_tracker_balanced(c: usize)
    requires
        c < usize::MAX,
    ensures
        tracker_after_disconnect(tracker_after_connect(c)) == c,
{
}

/// Law: a peer that leaves a ping unanswered for longer than the timeout is
/// closed at the next tick, and a pong resets the wait.
pub proof fn lemma_ws_pong_timeout(s: WsSession, now_ms: u64, pong_ms: u64)
    requires
        s.phase == WsPhase::Open,
        s.waiting_pong,
        pong_overdue(now_ms, s.last_pong_ms, s.ping_timeout_secs),
    ensures
        ws_transition(s, WsEvent::Tick { now_ms }).1 == WsAction::SendCloseThenClose,
        ws_transition(s, WsEvent::PongReceived { now_ms: pong_ms }).0.waiting_pong == false,
        ws_transition(s, WsEvent::PongReceived { now_ms: pong_ms }).0.last_pong_ms == pong_ms,
{
}

} // verus!
