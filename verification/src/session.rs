//! The connection lifecycle as a state machine. The caller owns the socket,
//! the clock and the threads; it reports what the transport did, and each
//! step here says what the state becomes, which lifecycle event to emit and
//! what to send or deliver next.

use crate::channels::{keys_of, FutOptSubscription, StockSubscription};
use crate::duration::{duration_nanos, from_secs, shorter};
use crate::error::{spec_error_code, spec_message, MarketDataError};
use crate::health_check::HealthCheckConfig;
use crate::models::{strings_view, AuthRequest, SubscribeRequest, SubscribeRequestView};
use crate::protocol::{
    auth_frame_text, auth_outcome_of, classify_auth_response, frame_auth, frame_subscribe,
    frame_subscribe_futopt, frame_subscribe_raw, frame_unsubscribe, ids_after_frame,
    handle_subscribed_event, subscribe_frame_text, unsubscribe_frame_text, wire_request,
    AuthOutcome, WebSocketMessage,
};
use crate::reconnection::{
    backoff_millis, spec_should_reconnect, ReconnectionConfig, ReconnectionManager,
};
use crate::subscription::{
    lemma_row_index, lemma_upsert_unique, remove_key, row_index, unique_keys, upsert, Rows,
    SubscriptionManager,
};
use crate::text::join2;
use std::time::Duration;
use vstd::prelude::*;

verus! {

/// The close code of a normal closure.
pub const NORMAL_CLOSURE: u16 = 1000;
/// The close code reported when the client tears the connection down.
pub const ABNORMAL_CLOSURE: u16 = 1006;
/// How long the server has to answer the credentials, in seconds.
pub const AUTH_TIMEOUT_SECS: u64 = 10;
/// Event code of a failed read.
pub const READ_ERROR_CODE: i32 = 2001;
/// Event code of a failed write.
pub const WRITE_ERROR_CODE: i32 = 2002;
/// Event code of an inbound frame that could not be decoded.
pub const DECODE_ERROR_CODE: i32 = 2003;
/// Attempt numbers up to this one keep the jitter arithmetic (`3 * attempt`)
/// within `u32`.
pub const MAX_RECONNECT_ATTEMPTS: u32 = 1_431_655_765;

/// Where the connection is in its lifecycle.
#[derive(Debug, Clone, PartialEq, Eq)]
pub enum ConnectionState {
    /// Not connected.
    Disconnected,
    /// Opening the transport.
    Connecting,
    /// Transport open; waiting for the server to accept the credentials.
    Authenticating,
    /// Connected and authenticated.
    Connected,
    /// Waiting before the given reconnection attempt.
    Reconnecting { attempt: u32 },
    /// Closed for good.
    Closed { code: Option<u16>, reason: String },
}

/// Lifecycle notifications for the caller.
#[derive(Debug, Clone, PartialEq, Eq)]
pub enum ConnectionEvent {
    /// A connection attempt started.
    Connecting,
    /// The transport is open.
    Connected,
    /// The server accepted the credentials.
    Authenticated,
    /// The server rejected the credentials.
    Unauthenticated { message: String },
    /// The connection closed.
    Disconnected { code: Option<u16>, reason: String },
    /// A reconnection attempt is scheduled.
    Reconnecting { attempt: u32 },
    /// Reconnection was abandoned after the given number of attempts.
    ReconnectFailed { attempts: u32 },
    /// No inbound frame arrived within the liveness window.
    HeartbeatTimeout { elapsed: Duration },
    /// Something failed.
    Error { message: String, code: i32 },
}

/// A close frame from the server.
#[derive(Debug, Clone, PartialEq, Eq)]
pub struct CloseFrame {
    /// The close code.
    pub code: u16,
    /// The reason text.
    pub reason: String,
}

/// What one read of the transport produced.
#[derive(Debug)]
pub enum InboundFrame {
    /// A text frame, decoded into a message or not (with the decoder's text).
    Text(Result<WebSocketMessage, String>),
    /// A binary frame, decoded into a message or not.
    Binary(Result<WebSocketMessage, String>),
    /// A ping with its payload.
    Ping(Vec<u8>),
    /// A pong.
    Pong,
    /// A close frame, with its code and reason when it carried them.
    Close(Option<CloseFrame>),
    /// A raw frame of another kind.
    Raw,
    /// The read timed out with nothing to read.
    ReadTimedOut,
    /// The transport is already closed (with the transport's text).
    StreamEnded(String),
    /// The read failed (with the transport's text).
    ReadFailed(String),
}

/// The event that reports a failed connection attempt: `Unauthenticated`
/// for rejected credentials, `Error` with the error's text and code
/// otherwise.
pub open spec fn failure_event_of(err: MarketDataError, ev: ConnectionEvent) -> bool {
    match err {
        MarketDataError::AuthError { msg } => ev matches ConnectionEvent::Unauthenticated { message }
            && message@ == msg@,
        _ => ev matches ConnectionEvent::Error { message, code } && message@ == spec_message(err)
            && code == spec_error_code(err),
    }
}

/// The event reporting a failed connection attempt.
pub fn failure_event(err: &MarketDataError) -> (ev: ConnectionEvent)
    ensures
        failure_event_of(*err, ev),
{
    match err {
        MarketDataError::AuthError { msg } => ConnectionEvent::Unauthenticated { message: msg.clone() },
        _ => ConnectionEvent::Error { message: err.message(), code: err.error_code() },
    }
}

/// How the auth handshake goes on after a frame.
#[derive(Debug)]
pub enum AuthProgress {
    /// Keep reading.
    Continue,
    /// The server accepted the credentials.
    Done,
    /// The handshake failed.
    Failed(MarketDataError),
}

/// The message text of a `ConnectionError`.
pub open spec fn connection_error_is(e: MarketDataError, text: Seq<char>) -> bool {
    e matches MarketDataError::ConnectionError { msg } && msg@ == text
}

/// One step of the auth handshake: decoded messages are delivered to the
/// caller and then judged (accepted, rejected with the server's message,
/// or neither); a close frame or a failed read ends the handshake with a
/// `ConnectionError`; anything else is skipped.
pub open spec fn auth_step_spec(frame: InboundFrame, r: (Option<WebSocketMessage>, AuthProgress)) -> bool {
    match frame {
        InboundFrame::Text(Ok(m)) => r.0 == Some(m) && match r.1 {
            AuthProgress::Done => auth_outcome_of(m, AuthOutcome::Authenticated),
            AuthProgress::Continue => auth_outcome_of(m, AuthOutcome::Pending),
            AuthProgress::Failed(e) => e matches MarketDataError::AuthError { msg }
                && exists|t: String| #[trigger] auth_outcome_of(m, AuthOutcome::Failed(t)) && t@
                    == msg@,
        },
        InboundFrame::Close(_) => r.0 is None && (r.1 matches AuthProgress::Failed(e)
            && connection_error_is(e, "Stream closed during authentication"@)),
        InboundFrame::StreamEnded(d) => r.0 is None && (r.1 matches AuthProgress::Failed(e)
            && connection_error_is(e, "Auth read error: "@ + d@)),
        InboundFrame::ReadFailed(d) => r.0 is None && (r.1 matches AuthProgress::Failed(e)
            && connection_error_is(e, "Auth read error: "@ + d@)),
        _ => r.0 is None && r.1 is Continue,
    }
}

/// Judges one frame read during the auth handshake.
pub fn auth_step(frame: InboundFrame) -> (r: (Option<WebSocketMessage>, AuthProgress))
    ensures
        auth_step_spec(frame, r),
{
    match frame {
        InboundFrame::Text(Ok(m)) => {
            let outcome = classify_auth_response(&m);
            let progress = match outcome {
                AuthOutcome::Authenticated => AuthProgress::Done,
                AuthOutcome::Pending => AuthProgress::Continue,
                AuthOutcome::Failed(t) => {
                    let ghost tt = t;
                    let e = MarketDataError::AuthError { msg: t };
                    proof {
                        assert(auth_outcome_of(m, AuthOutcome::Failed(tt)));
                    }
                    AuthProgress::Failed(e)
                },
            };
            (Some(m), progress)
        },
        InboundFrame::Close(_) => (
            None,
            AuthProgress::Failed(
                MarketDataError::ConnectionError {
                    msg: String::from_str("Stream closed during authentication"),
                },
            ),
        ),
        InboundFrame::StreamEnded(d) => (
            None,
            AuthProgress::Failed(
                MarketDataError::ConnectionError { msg: join2("Auth read error: ", d.as_str()) },
            ),
        ),
        InboundFrame::ReadFailed(d) => (
            None,
            AuthProgress::Failed(
                MarketDataError::ConnectionError { msg: join2("Auth read error: ", d.as_str()) },
            ),
        ),
        _ => (None, AuthProgress::Continue),
    }
}

/// The auth handshake times out once `elapsed` reaches ten seconds.
pub fn auth_deadline(elapsed: &Duration) -> (r: Option<MarketDataError>)
    ensures
        match r {
            Some(e) => duration_nanos(*elapsed) >= AUTH_TIMEOUT_SECS * 1_000_000_000
                && (e matches MarketDataError::TimeoutError { operation } && operation@
                == "WebSocket authentication"@),
            None => duration_nanos(*elapsed) < AUTH_TIMEOUT_SECS * 1_000_000_000,
        },
{
    let limit = from_secs(AUTH_TIMEOUT_SECS);
    if shorter(elapsed, &limit) {
        None
    } else {
        Some(MarketDataError::TimeoutError { operation: String::from_str("WebSocket authentication") })
    }
}

/// Liveness check: with detection on, a silence longer than the allowed
/// gap yields a `HeartbeatTimeout` that reports the allowed gap.
pub fn heartbeat_expired(health: &HealthCheckConfig, idle: &Duration) -> (r: Option<ConnectionEvent>)
    ensures
        match r {
            Some(ev) => health.enabled && duration_nanos(health.heartbeat_timeout)
                < duration_nanos(*idle) && ev == ConnectionEvent::HeartbeatTimeout {
                elapsed: health.heartbeat_timeout,
            },
            None => !health.enabled || duration_nanos(*idle) <= duration_nanos(
                health.heartbeat_timeout,
            ),
        },
{
    if health.enabled && shorter(&health.heartbeat_timeout, idle) {
        Some(ConnectionEvent::HeartbeatTimeout { elapsed: health.heartbeat_timeout.clone() })
    } else {
        None
    }
}

/// Whether `ev` is `Error` with the given text and code.
pub open spec fn error_event_is(ev: ConnectionEvent, text: Seq<char>, code: i32) -> bool {
    ev matches ConnectionEvent::Error { message, code: c } && message@ == text && c == code
}

/// The event reporting a failed write.
pub fn write_failed_event(detail: &str) -> (ev: ConnectionEvent)
    ensures
        error_event_is(ev, "WebSocket write error: "@ + detail@, WRITE_ERROR_CODE),
{
    ConnectionEvent::Error { message: join2("WebSocket write error: ", detail), code: WRITE_ERROR_CODE }
}

/// What the read loop does with one frame.
#[derive(Debug)]
pub struct OwnerStep {
    /// A message to hand to the consumer.
    pub deliver: Option<WebSocketMessage>,
    /// A lifecycle event to emit.
    pub event: Option<ConnectionEvent>,
    /// A pong to send back, with the ping's payload.
    pub pong: Option<Vec<u8>>,
    /// Whether the frame counts as sign of life.
    pub alive: bool,
    /// `Some(code)` when the loop ends, with the close code it observed.
    pub exit: Option<Option<u16>>,
}

/// Whether the step delivers a message and does nothing else.
pub open spec fn delivers(s: OwnerStep, m: WebSocketMessage) -> bool {
    s.deliver == Some(m) && s.event is None && s.pong is None && s.alive && s.exit is None
}

/// Whether the step only emits `ev`.
pub open spec fn emits_only(s: OwnerStep, ev: ConnectionEvent, alive: bool, exit: Option<Option<u16>>) -> bool {
    s.deliver is None && s.event == Some(ev) && s.pong is None && s.alive == alive && s.exit == exit
}

/// The read-loop decision for each kind of frame.
pub open spec fn owner_step_spec(frame: InboundFrame, s: OwnerStep) -> bool {
    match frame {
        InboundFrame::Text(Ok(m)) => delivers(s, m),
        InboundFrame::Binary(Ok(m)) => delivers(s, m),
        InboundFrame::Text(Err(d)) => s.deliver is None && s.pong is None && s.alive && s.exit is None
            && (s.event matches Some(ev) && error_event_is(
            ev,
            "Failed to deserialize message: "@ + d@,
            DECODE_ERROR_CODE,
        )),
        InboundFrame::Binary(Err(d)) => s.deliver is None && s.pong is None && s.alive && s.exit
            is None && (s.event matches Some(ev) && error_event_is(
            ev,
            "Failed to deserialize binary message: "@ + d@,
            DECODE_ERROR_CODE,
        )),
        InboundFrame::Ping(p) => s.deliver is None && s.event is None && s.pong == Some(p)
            && s.alive && s.exit is None,
        InboundFrame::Pong => s.deliver is None && s.event is None && s.pong is None && s.alive
            && s.exit is None,
        InboundFrame::Raw => s.deliver is None && s.event is None && s.pong is None && s.alive
            && s.exit is None,
        InboundFrame::ReadTimedOut => s.deliver is None && s.event is None && s.pong is None
            && !s.alive && s.exit is None,
        InboundFrame::Close(c) => s.deliver is None && s.pong is None && !s.alive && s.exit == Some(
            match c {
                Some(f) => Some(f.code),
                None => None::<u16>,
            },
        ) && (s.event matches Some(ConnectionEvent::Disconnected { code, reason }) && code == (
        match c {
            Some(f) => Some(f.code),
            None => None::<u16>,
        }) && reason@ == (match c {
            Some(f) => f.reason@,
            None => "Server initiated close"@,
        })),
        InboundFrame::StreamEnded(_) => s.deliver is None && s.pong is None && !s.alive && s.exit
            == Some(None::<u16>) && (s.event matches Some(ConnectionEvent::Disconnected { code, reason })
            && code is None && reason@ == "Connection closed"@),
        InboundFrame::ReadFailed(d) => s.deliver is None && s.pong is None && !s.alive && s.exit
            == Some(None::<u16>) && (s.event matches Some(ev) && error_event_is(
            ev,
            "WebSocket read error: "@ + d@,
            READ_ERROR_CODE,
        )),
    }
}

fn quiet_step(alive: bool) -> (s: OwnerStep)
    ensures
        s.deliver is None && s.event is None && s.pong is None && s.alive == alive && s.exit is None,
{
    OwnerStep { deliver: None, event: None, pong: None, alive, exit: None }
}

/// The rows after storing each request in order.
pub open spec fn upsert_all(rows: Rows, reqs: Seq<SubscribeRequestView>) -> Rows
    decreases reqs.len(),
{
    if reqs.len() == 0 {
        rows
    } else {
        let r = upsert_all(rows, reqs.drop_last());
        upsert(r, reqs.last().key(), reqs.last())
    }
}

/// Unsubscribing keys in order: the rows without them, the id table
/// without them, and the id sent for each (the recorded server id, or the
/// key itself when none is recorded).
pub open spec fn unsubscribe_all(rows: Rows, ids: Map<Seq<char>, Seq<char>>, keys: Seq<Seq<char>>) -> (
    Rows,
    Map<Seq<char>, Seq<char>>,
    Seq<Seq<char>>,
)
    decreases keys.len(),
{
    if keys.len() == 0 {
        (rows, ids, Seq::empty())
    } else {
        let (r, m, w) = unsubscribe_all(rows, ids, keys.drop_last());
        let k = keys.last();
        let id = if m.contains_key(k) {
            m[k]
        } else {
            k
        };
        (remove_key(r, k), m.remove(k), w.push(id))
    }
}

/// The subscribe frames that replay stored rows, in order.
pub open spec fn replay_frames(rows: Rows) -> Seq<Seq<char>> {
    rows.map_values(|r: (Seq<char>, SubscribeRequestView)| subscribe_frame_text(r.1))
}

/// The client's verified core: lifecycle state, stored subscriptions and
/// the reconnection policy.
pub struct ClientCore {
    state: ConnectionState,
    subscriptions: SubscriptionManager,
    reconnection: ReconnectionManager,
    auth: AuthRequest,
}

impl ClientCore {
    /// The lifecycle state.
    pub closed spec fn state_spec(self) -> ConnectionState {
        self.state
    }

    /// The stored subscription rows, in first-subscribe order.
    pub closed spec fn rows(self) -> Rows {
        self.subscriptions.rows()
    }

    /// The server ids recorded per subscription key.
    pub closed spec fn ids(self) -> Map<Seq<char>, Seq<char>> {
        self.subscriptions.ids()
    }

    /// The reconnection policy and its attempt counter.
    pub closed spec fn policy(self) -> ReconnectionManager {
        self.reconnection
    }

    /// The credentials.
    pub closed spec fn credentials(self) -> AuthRequest {
        self.auth
    }

    /// Whether the state is `Closed`.
    pub open spec fn closed(self) -> bool {
        self.state_spec() is Closed
    }

    /// Whether the state is `Connected`.
    pub open spec fn connected(self) -> bool {
        self.state_spec() is Connected
    }

    /// A disconnected core with no subscriptions and no attempts made.
    pub fn new(auth: AuthRequest, reconnection: ReconnectionConfig) -> (c: Self)
        ensures
            c.state_spec() == ConnectionState::Disconnected,
            c.rows() == Seq::<(Seq<char>, SubscribeRequestView)>::empty(),
            c.ids() == Map::<Seq<char>, Seq<char>>::empty(),
            c.policy().config() == reconnection,
            c.policy().attempt() == 0,
            c.credentials() == auth,
    {
        ClientCore {
            state: ConnectionState::Disconnected,
            subscriptions: SubscriptionManager::new(),
            reconnection: ReconnectionManager::new(reconnection),
            auth,
        }
    }

    /// The lifecycle state.
    pub fn state(&self) -> (s: &ConnectionState)
        ensures
            *s == self.state_spec(),
    {
        &self.state
    }

    /// Whether the client is closed for good.
    pub fn is_closed(&self) -> (r: bool)
        ensures
            r == self.closed(),
    {
        match self.state {
            ConnectionState::Closed { .. } => true,
            _ => false,
        }
    }

    /// Whether the client is connected and authenticated.
    pub fn is_connected(&self) -> (r: bool)
        ensures
            r == self.connected(),
    {
        match self.state {
            ConnectionState::Connected => true,
            _ => false,
        }
    }

    /// Starts a connection attempt: a closed client refuses with
    /// `ClientClosed`; otherwise the state becomes `Connecting` and the
    /// `Connecting` event is emitted.
    pub fn begin_connect(&mut self) -> (r: Result<ConnectionEvent, MarketDataError>)
        ensures
            old(self).closed() ==> r == Err::<ConnectionEvent, MarketDataError>(
                MarketDataError::ClientClosed,
            ) && *final(self) == *old(self),
            !old(self).closed() ==> r == Ok::<ConnectionEvent, MarketDataError>(
                ConnectionEvent::Connecting,
            ) && final(self).state_spec() == ConnectionState::Connecting && final(self).rows()
                == old(self).rows() && final(self).ids() == old(self).ids() && final(self).policy()
                == old(self).policy() && final(self).credentials() == old(self).credentials(),
    {
        if self.is_closed() {
            return Err(MarketDataError::ClientClosed);
        }
        self.state = ConnectionState::Connecting;
        Ok(ConnectionEvent::Connecting)
    }

    /// Starts a reconnection attempt: the state becomes `Connecting` and the
    /// `Connecting` event is emitted.
    pub fn begin_reconnect(&mut self) -> (ev: ConnectionEvent)
        ensures
            ev == ConnectionEvent::Connecting,
            final(self).state_spec() == ConnectionState::Connecting,
            final(self).rows() == old(self).rows(),
            final(self).ids() == old(self).ids(),
            final(self).policy() == old(self).policy(),
            final(self).credentials() == old(self).credentials(),
    {
        self.state = ConnectionState::Connecting;
        ConnectionEvent::Connecting
    }

    /// The transport is open: the state becomes `Authenticating`; the
    /// `Connected` event is emitted and the auth frame is to be sent.
    pub fn transport_opened(&mut self) -> (r: (ConnectionEvent, String))
        ensures
            r.0 == ConnectionEvent::Connected,
            r.1@ == auth_frame_text(old(self).credentials()),
            final(self).state_spec() == ConnectionState::Authenticating,
            final(self).rows() == old(self).rows(),
            final(self).ids() == old(self).ids(),
            final(self).policy() == old(self).policy(),
            final(self).credentials() == old(self).credentials(),
    {
        self.state = ConnectionState::Authenticating;
        let frame = frame_auth(&self.auth);
        (ConnectionEvent::Connected, frame)
    }

    /// The first connection attempt failed: the state becomes
    /// `Disconnected` and the failure is reported.
    pub fn connect_failed(&mut self, err: &MarketDataError) -> (ev: ConnectionEvent)
        ensures
            failure_event_of(*err, ev),
            final(self).state_spec() == ConnectionState::Disconnected,
            final(self).rows() == old(self).rows(),
            final(self).ids() == old(self).ids(),
            final(self).policy() == old(self).policy(),
            final(self).credentials() == old(self).credentials(),
    {
        self.state = ConnectionState::Disconnected;
        failure_event(err)
    }

    /// The first connection is authenticated: the state becomes
    /// `Connected` and the `Authenticated` event is emitted.
    pub fn connected_now(&mut self) -> (ev: ConnectionEvent)
        ensures
            ev == ConnectionEvent::Authenticated,
            final(self).state_spec() == ConnectionState::Connected,
            final(self).rows() == old(self).rows(),
            final(self).ids() == old(self).ids(),
            final(self).policy() == old(self).policy(),
            final(self).credentials() == old(self).credentials(),
    {
        self.state = ConnectionState::Connected;
        ConnectionEvent::Authenticated
    }

    /// A reconnection is authenticated: the attempt counter is reset, the
    /// server ids of the dead connection are forgotten, every stored row is
    /// to be replayed in order, the state becomes `Connected` and the
    /// `Authenticated` event is emitted.
    pub fn reconnected(&mut self) -> (r: (ConnectionEvent, Vec<String>))
        ensures
            r.0 == ConnectionEvent::Authenticated,
            strings_view(r.1@) == replay_frames(old(self).rows()),
            final(self).state_spec() == ConnectionState::Connected,
            final(self).rows() == old(self).rows(),
            final(self).ids() == Map::<Seq<char>, Seq<char>>::empty(),
            final(self).policy().config() == old(self).policy().config(),
            final(self).policy().attempt() == 0,
            final(self).credentials() == old(self).credentials(),
    {
        self.reconnection.reset();
        self.subscriptions.clear_server_ids();
        let rows = self.subscriptions.get_all();
        let mut frames: Vec<String> = Vec::new();
        let mut i: usize = 0;
        let ghost rv = self.rows();
        proof {
            assert(crate::models::requests_view(rows@).len() == rows@.len());
            assert(crate::subscription::row_values(rv).len() == rv.len());
        }
        while i < rows.len()
            invariant
                i <= rows.len(),
                rows@.len() == rv.len(),
                rv == self.rows(),
                crate::models::requests_view(rows@) == crate::subscription::row_values(rv),
                strings_view(frames@) == replay_frames(rv).take(i as int),
            decreases rows.len() - i,
        {
            let f = frame_subscribe_raw(&rows[i]);
            let ghost before = frames@;
            frames.push(f);
            proof {
                assert(crate::models::requests_view(rows@)[i as int] == rows@[i as int]@);
                assert(crate::subscription::row_values(rv)[i as int] == rv[i as int].1);
                assert(replay_frames(rv)[i as int] == subscribe_frame_text(rv[i as int].1));
                assert(strings_view(frames@) =~= strings_view(before).push(f@));
                assert(replay_frames(rv).take(i + 1) =~= replay_frames(rv).take(i as int).push(
                    subscribe_frame_text(rv[i as int].1),
                ));
            }
            i = i + 1;
        }
        proof {
            assert(replay_frames(rv).take(rows.len() as int) =~= replay_frames(rv));
        }
        self.state = ConnectionState::Connected;
        (ConnectionEvent::Authenticated, frames)
    }

    /// The event reporting a failed reconnection attempt; the state is
    /// left as it is.
    pub fn reconnect_failed(&self, err: &MarketDataError) -> (ev: ConnectionEvent)
        ensures
            failure_event_of(*err, ev),
    {
        failure_event(err)
    }

    /// Handles one frame of the read loop: decoded messages are delivered
    /// after their subscription acknowledgements are recorded; decode and
    /// read failures, closes and pings are answered as described by
    /// [`owner_step_spec`].
    pub fn on_frame(&mut self, frame: InboundFrame) -> (s: OwnerStep)
        ensures
            owner_step_spec(frame, s),
            final(self).state_spec() == old(self).state_spec(),
            final(self).rows() == old(self).rows(),
            final(self).ids() == (match frame {
                InboundFrame::Text(Ok(m)) => ids_after_frame(old(self).ids(), m),
                InboundFrame::Binary(Ok(m)) => ids_after_frame(old(self).ids(), m),
                _ => old(self).ids(),
            }),
            final(self).policy() == old(self).policy(),
            final(self).credentials() == old(self).credentials(),
    {
        match frame {
            InboundFrame::Text(Ok(m)) => {
                handle_subscribed_event(&mut self.subscriptions, &m);
                OwnerStep { deliver: Some(m), event: None, pong: None, alive: true, exit: None }
            },
            InboundFrame::Binary(Ok(m)) => {
                handle_subscribed_event(&mut self.subscriptions, &m);
                OwnerStep { deliver: Some(m), event: None, pong: None, alive: true, exit: None }
            },
            InboundFrame::Text(Err(d)) => OwnerStep {
                deliver: None,
                event: Some(
                    ConnectionEvent::Error {
                        message: join2("Failed to deserialize message: ", d.as_str()),
                        code: DECODE_ERROR_CODE,
                    },
                ),
                pong: None,
                alive: true,
                exit: None,
            },
            InboundFrame::Binary(Err(d)) => OwnerStep {
                deliver: None,
                event: Some(
                    ConnectionEvent::Error {
                        message: join2("Failed to deserialize binary message: ", d.as_str()),
                        code: DECODE_ERROR_CODE,
                    },
                ),
                pong: None,
                alive: true,
                exit: None,
            },
            InboundFrame::Ping(p) => OwnerStep {
                deliver: None,
                event: None,
                pong: Some(p),
                alive: true,
                exit: None,
            },
            InboundFrame::Pong => quiet_step(true),
            InboundFrame::Raw => quiet_step(true),
            InboundFrame::ReadTimedOut => quiet_step(false),
            InboundFrame::Close(c) => {
                let (code, reason) = match c {
                    Some(f) => (Some(f.code), f.reason),
                    None => (None, String::from_str("Server initiated close")),
                };
                OwnerStep {
                    deliver: None,
                    event: Some(ConnectionEvent::Disconnected { code, reason }),
                    pong: None,
                    alive: false,
                    exit: Some(code),
                }
            },
            InboundFrame::StreamEnded(_) => OwnerStep {
                deliver: None,
                event: Some(
                    ConnectionEvent::Disconnected {
                        code: None,
                        reason: String::from_str("Connection closed"),
                    },
                ),
                pong: None,
                alive: false,
                exit: Some(None),
            },
            InboundFrame::ReadFailed(d) => OwnerStep {
                deliver: None,
                event: Some(
                    ConnectionEvent::Error {
                        message: join2("WebSocket read error: ", d.as_str()),
                        code: READ_ERROR_CODE,
                    },
                ),
                pong: None,
                alive: false,
                exit: Some(None),
            },
        }
    }

    /// The read loop ended with `close_code`. When the client asked to stop,
    /// the state becomes `Closed` (1000, `Client disconnected`) and the
    /// supervisor stops. When reconnection is disabled or the close code is
    /// not retriable, the state
    /// becomes `Closed` (`Non-retriable error`), `ReconnectFailed` reports
    /// the attempts made, and the supervisor stops. Otherwise it retries.
    pub fn after_owner_exit(&mut self, stopping: bool, close_code: Option<u16>) -> (r: (
        AfterExit,
        Option<ConnectionEvent>,
    ))
        ensures
            final(self).rows() == old(self).rows(),
            final(self).ids() == old(self).ids(),
            final(self).policy() == old(self).policy(),
            final(self).credentials() == old(self).credentials(),
            stopping ==> r.0 == AfterExit::Stop && r.1 is None && closed_with(
                final(self).state_spec(),
                Some(NORMAL_CLOSURE),
                "Client disconnected"@,
            ),
            !stopping && !(old(self).policy().config().enabled && spec_should_reconnect(close_code)) ==> r.0 == AfterExit::Stop && r.1
                == Some(ConnectionEvent::ReconnectFailed { attempts: old(self).policy().attempt() as u32 })
                && closed_with(final(self).state_spec(), close_code, "Non-retriable error"@),
            !stopping && old(self).policy().config().enabled && spec_should_reconnect(close_code) ==> r.0 == AfterExit::Retry && r.1 is None
                && final(self).state_spec() == old(self).state_spec(),
    {
        if stopping {
            self.state = ConnectionState::Closed {
                code: Some(NORMAL_CLOSURE),
                reason: String::from_str("Client disconnected"),
            };
            return (AfterExit::Stop, None);
        }
        if !self.reconnection.should_reconnect(close_code) {
            let attempts = self.reconnection.current_attempt();
            self.state = ConnectionState::Closed {
                code: close_code,
                reason: String::from_str("Non-retriable error"),
            };
            return (AfterExit::Stop, Some(ConnectionEvent::ReconnectFailed { attempts }));
        }
        (AfterExit::Retry, None)
    }

    /// Schedules the next reconnection attempt after a close with
    /// `close_code`. With attempts left, the counter advances, the state
    /// becomes `Reconnecting` and the caller waits the backoff delay of
    /// that attempt. With none left, the state becomes `Closed` (`Max
    /// reconnection attempts reached`) and `ReconnectFailed` reports the
    /// attempts made.
    pub fn next_attempt(&mut self, close_code: Option<u16>) -> (r: (Attempt, ConnectionEvent))
        requires
            old(self).policy().attempt() < old(self).policy().config().max_attempts ==> old(self).policy().attempt() + 1 <= MAX_RECONNECT_ATTEMPTS,
        ensures
            final(self).rows() == old(self).rows(),
            final(self).ids() == old(self).ids(),
            final(self).policy().config() == old(self).policy().config(),
            final(self).credentials() == old(self).credentials(),
            old(self).policy().attempt() >= old(self).policy().config().max_attempts ==> {
                &&& r.0 == Attempt::GiveUp
                &&& r.1 == ConnectionEvent::ReconnectFailed {
                    attempts: old(self).policy().attempt() as u32,
                }
                &&& final(self).policy().attempt() == old(self).policy().attempt()
                &&& closed_with(
                    final(self).state_spec(),
                    close_code,
                    "Max reconnection attempts reached"@,
                )
            },
            old(self).policy().attempt() < old(self).policy().config().max_attempts ==> {
                let n = old(self).policy().attempt() + 1;
                &&& final(self).policy().attempt() == n
                &&& r.1 == ConnectionEvent::Reconnecting { attempt: n as u32 }
                &&& final(self).state_spec() == ConnectionState::Reconnecting { attempt: n as u32 }
                &&& r.0 matches Attempt::Wait { attempt, delay } && attempt == n && duration_nanos(
                    delay,
                ) == (backoff_millis(
                    crate::duration::duration_millis(old(self).policy().config().initial_delay),
                    crate::duration::duration_millis(old(self).policy().config().max_delay),
                    n,
                ) as u64) as nat * 1_000_000
            },
    {
        let delay = self.reconnection.next_delay();
        let attempt = self.reconnection.current_attempt();
        match delay {
            None => {
                self.state = ConnectionState::Closed {
                    code: close_code,
                    reason: String::from_str("Max reconnection attempts reached"),
                };
                (Attempt::GiveUp, ConnectionEvent::ReconnectFailed { attempts: attempt })
            },
            Some(d) => {
                self.state = ConnectionState::Reconnecting { attempt };
                (Attempt::Wait { attempt, delay: d }, ConnectionEvent::Reconnecting { attempt })
            },
        }
    }

    /// Reconnection attempts made since the last reset.
    pub fn reconnect_attempt(&self) -> (n: u32)
        ensures
            n == self.policy().attempt(),
    {
        self.reconnection.current_attempt()
    }

    /// The configured reconnection attempt limit.
    pub fn reconnect_limit(&self) -> (n: u32)
        ensures
            n == self.policy().config().max_attempts,
    {
        self.reconnection.attempt_limit()
    }

    /// The client closes the connection: the state becomes `Closed` and a
    /// `Disconnected` event reports it, with 1000 (`Normal closure`), or
    /// with 1006 (`Force closed`) when the connection is torn down without
    /// waiting.
    pub fn closed_by_client(&mut self, forced: bool) -> (ev: ConnectionEvent)
        ensures
            final(self).rows() == old(self).rows(),
            final(self).ids() == old(self).ids(),
            final(self).policy() == old(self).policy(),
            final(self).credentials() == old(self).credentials(),
            !forced ==> closed_with(final(self).state_spec(), Some(NORMAL_CLOSURE), "Normal closure"@)
                && (ev matches ConnectionEvent::Disconnected { code, reason } && code == Some(
                NORMAL_CLOSURE,
            ) && reason@ == "Normal closure"@),
            forced ==> closed_with(final(self).state_spec(), Some(ABNORMAL_CLOSURE), "Force closed"@)
                && (ev matches ConnectionEvent::Disconnected { code, reason } && code == Some(
                ABNORMAL_CLOSURE,
            ) && reason@ == "Force closed"@),
    {
        let (code, text) = if forced {
            (ABNORMAL_CLOSURE, "Force closed")
        } else {
            (NORMAL_CLOSURE, "Normal closure")
        };
        self.state = ConnectionState::Closed { code: Some(code), reason: String::from_str(text) };
        ConnectionEvent::Disconnected { code: Some(code), reason: String::from_str(text) }
    }

    /// Prepares a manual reconnection: a closed client refuses with
    /// `ClientClosed`; otherwise the attempt counter is reset.
    pub fn prepare_reconnect(&mut self) -> (r: Result<(), MarketDataError>)
        ensures
            old(self).closed() ==> r == Err::<(), MarketDataError>(MarketDataError::ClientClosed)
                && *final(self) == *old(self),
            !old(self).closed() ==> r is Ok && final(self).policy().attempt() == 0
                && final(self).policy().config() == old(self).policy().config() && final(self).state_spec() == old(self).state_spec() && final(self).rows() == old(self).rows()
                && final(self).ids() == old(self).ids() && final(self).credentials() == old(self).credentials(),
    {
        if self.is_closed() {
            return Err(MarketDataError::ClientClosed);
        }
        self.reconnection.reset();
        Ok(())
    }

    fn store_rows(&mut self, rows: &Vec<SubscribeRequest>)
        ensures
            final(self).rows() == upsert_all(old(self).rows(), crate::models::requests_view(rows@)),
            final(self).ids() == old(self).ids(),
            final(self).state_spec() == old(self).state_spec(),
            final(self).policy() == old(self).policy(),
            final(self).credentials() == old(self).credentials(),
    {
        let mut i: usize = 0;
        let ghost rv = crate::models::requests_view(rows@);
        while i < rows.len()
            invariant
                i <= rows.len(),
                rv == crate::models::requests_view(rows@),
                rv.len() == rows@.len(),
                self.rows() == upsert_all(old(self).rows(), rv.take(i as int)),
                self.ids() == old(self).ids(),
                self.state_spec() == old(self).state_spec(),
                self.policy() == old(self).policy(),
                self.credentials() == old(self).credentials(),
            decreases rows.len() - i,
        {
            let r = rows[i].duplicate();
            proof {
                assert(rv.take(i + 1).drop_last() =~= rv.take(i as int));
                assert(rv[i as int] == rows@[i as int]@);
            }
            self.subscriptions.subscribe(r);
            i = i + 1;
        }
        proof {
            assert(rv.take(rows.len() as int) =~= rv);
        }
    }

    /// Records a stock subscription, one row per symbol, even while
    /// disconnected; a closed client refuses with `ClientClosed`. While
    /// connected, the subscribe frame is returned for sending.
    pub fn subscribe(&mut self, sub: &StockSubscription) -> (r: Result<Option<String>, MarketDataError>)
        ensures
            old(self).closed() ==> r == Err::<Option<String>, MarketDataError>(
                MarketDataError::ClientClosed,
            ) && *final(self) == *old(self),
            unique_keys(old(self).rows()),
            !old(self).closed() ==> {
                let w = wire_request(
                    crate::models::channel_name(sub.channel),
                    sub.symbols@,
                    false,
                    sub.intraday_odd_lot,
                );
                &&& r is Ok
                &&& final(self).rows() == upsert_all(old(self).rows(), w.expand())
                &&& final(self).ids() == old(self).ids()
                &&& final(self).state_spec() == old(self).state_spec()
                &&& final(self).policy() == old(self).policy()
                &&& final(self).credentials() == old(self).credentials()
                &&& match r->Ok_0 {
                    Some(f) => old(self).connected() && f@ == subscribe_frame_text(w),
                    None => !old(self).connected(),
                }
            },
    {
        // The stored keys are distinct; `count` states it.
        let _stored = self.subscriptions.count();
        if self.is_closed() {
            return Err(MarketDataError::ClientClosed);
        }
        let (frame, rows) = frame_subscribe(sub);
        self.store_rows(&rows);
        if self.is_connected() {
            Ok(Some(frame))
        } else {
            Ok(None)
        }
    }

    /// Records a futures/options subscription, one row per contract, even
    /// while disconnected; a closed client refuses with `ClientClosed`.
    /// While connected, the subscribe frame is returned for sending.
    pub fn subscribe_futopt(&mut self, sub: &FutOptSubscription) -> (r: Result<
        Option<String>,
        MarketDataError,
    >)
        ensures
            old(self).closed() ==> r == Err::<Option<String>, MarketDataError>(
                MarketDataError::ClientClosed,
            ) && *final(self) == *old(self),
            unique_keys(old(self).rows()),
            !old(self).closed() ==> {
                let w = wire_request(
                    crate::models::futopt_channel_name(sub.channel),
                    sub.symbols@,
                    sub.after_hours,
                    false,
                );
                &&& r is Ok
                &&& final(self).rows() == upsert_all(old(self).rows(), w.expand())
                &&& final(self).ids() == old(self).ids()
                &&& final(self).state_spec() == old(self).state_spec()
                &&& final(self).policy() == old(self).policy()
                &&& final(self).credentials() == old(self).credentials()
                &&& match r->Ok_0 {
                    Some(f) => old(self).connected() && f@ == subscribe_frame_text(w),
                    None => !old(self).connected(),
                }
            },
    {
        // The stored keys are distinct; `count` states it.
        let _stored = self.subscriptions.count();
        if self.is_closed() {
            return Err(MarketDataError::ClientClosed);
        }
        let (frame, rows) = frame_subscribe_futopt(sub);
        self.store_rows(&rows);
        if self.is_connected() {
            Ok(Some(frame))
        } else {
            Ok(None)
        }
    }

    /// Removes the subscriptions under `keys`, even while disconnected; a
    /// closed client refuses with `ClientClosed`. Each key is sent as the
    /// server id recorded for it (forgotten here), or as itself when none
    /// is recorded. While connected and when `keys` is not empty, the
    /// unsubscribe frame is returned for sending.
    pub fn unsubscribe(&mut self, keys: &Vec<String>) -> (r: Result<Option<String>, MarketDataError>)
        ensures
            old(self).closed() ==> r == Err::<Option<String>, MarketDataError>(
                MarketDataError::ClientClosed,
            ) && *final(self) == *old(self),
            !old(self).closed() ==> {
                let (rows, ids, wire) = unsubscribe_all(
                    old(self).rows(),
                    old(self).ids(),
                    strings_view(keys@),
                );
                &&& r is Ok
                &&& final(self).rows() == rows
                &&& final(self).ids() == ids
                &&& final(self).state_spec() == old(self).state_spec()
                &&& final(self).policy() == old(self).policy()
                &&& final(self).credentials() == old(self).credentials()
                &&& match r->Ok_0 {
                    Some(f) => old(self).connected() && keys@.len() > 0 && f@
                        == unsubscribe_frame_text(wire),
                    None => !old(self).connected() || keys@.len() == 0,
                }
            },
    {
        if self.is_closed() {
            return Err(MarketDataError::ClientClosed);
        }
        let ghost kv = strings_view(keys@);
        if keys.len() == 0 {
            proof {
                assert(kv.len() == 0);
            }
            return Ok(None);
        }
        let mut wire: Vec<String> = Vec::new();
        let mut i: usize = 0;
        while i < keys.len()
            invariant
                i <= keys.len(),
                kv == strings_view(keys@),
                kv.len() == keys@.len(),
                ({
                    let (rows, ids, w) = unsubscribe_all(
                        old(self).rows(),
                        old(self).ids(),
                        kv.take(i as int),
                    );
                    self.rows() == rows && self.ids() == ids && strings_view(wire@) == w
                }),
                self.state_spec() == old(self).state_spec(),
                self.policy() == old(self).policy(),
                self.credentials() == old(self).credentials(),
            decreases keys.len() - i,
        {
            let key = &keys[i];
            proof {
                assert(kv.take(i + 1).drop_last() =~= kv.take(i as int));
                assert(kv.take(i + 1).last() == key@);
            }
            let id = match self.subscriptions.take_server_id(key.as_str()) {
                Some(id) => id,
                None => key.clone(),
            };
            self.subscriptions.unsubscribe(key.as_str());
            let ghost before = wire@;
            wire.push(id);
            proof {
                assert(strings_view(wire@) =~= strings_view(before).push(id@));
            }
            i = i + 1;
        }
        proof {
            assert(kv.take(keys.len() as int) =~= kv);
        }
        if !self.is_connected() {
            return Ok(None);
        }
        Ok(Some(frame_unsubscribe(&wire)))
    }

    /// Copies of the stored rows, in first-subscribe order.
    pub fn subscriptions(&self) -> (all: Vec<SubscribeRequest>)
        ensures
            crate::models::requests_view(all@) == crate::subscription::row_values(self.rows()),
            unique_keys(self.rows()),
    {
        self.subscriptions.get_all()
    }

    /// The keys of the stored rows, in first-subscribe order.
    pub fn subscription_keys(&self) -> (keys: Vec<String>)
        ensures
            strings_view(keys@) == crate::subscription::row_keys(self.rows()),
            unique_keys(self.rows()),
    {
        self.subscriptions.keys()
    }

    /// Copies of the credentials.
    pub fn auth(&self) -> (a: AuthRequest)
        ensures
            a == self.credentials(),
    {
        self.auth.duplicate()
    }
}

/// Whether `s` is `Closed` with the given code and reason.
pub open spec fn closed_with(s: ConnectionState, code: Option<u16>, reason: Seq<char>) -> bool {
    s matches ConnectionState::Closed { code: c, reason: t } && c == code && t@ == reason
}

/// What the supervisor does after the read loop ends.
#[derive(Debug, PartialEq, Eq)]
pub enum AfterExit {
    /// Stop for good.
    Stop,
    /// Try to reconnect.
    Retry,
}

/// The next reconnection step.
#[derive(Debug, PartialEq, Eq)]
pub enum Attempt {
    /// Wait `delay`, then make attempt number `attempt`.
    Wait { attempt: u32, delay: Duration },
    /// No attempts are left.
    GiveUp,
}

/// The error of a write while no connection is installed.
pub fn not_connected() -> (e: MarketDataError)
    ensures
        connection_error_is(e, "Not connected"@),
{
    MarketDataError::ConnectionError { msg: String::from_str("Not connected") }
}

/// The error of a write after the connection's writer has gone.
pub fn writer_gone() -> (e: MarketDataError)
    ensures
        connection_error_is(e, "Writer queue closed (supervisor exited)"@),
{
    MarketDataError::ConnectionError { msg: String::from_str("Writer queue closed (supervisor exited)") }
}

/// A subscription recorded while disconnected is replayed after the next
/// reconnection: its subscribe frame is among the replayed frames.
pub proof fn law_subscription_is_replayed(rows: Rows, v: SubscribeRequestView)
    requires
        crate::subscription::unique_keys(rows),
    ensures
        exists|i: int|
            0 <= i < replay_frames(upsert(rows, v.key(), v)).len() && #[trigger] replay_frames(
                upsert(rows, v.key(), v),
            )[i] == subscribe_frame_text(v),
{
    crate::subscription::law_subscribed_key_is_stored(rows, v.key(), v);
    let u = upsert(rows, v.key(), v);
    crate::subscription::lemma_row_index(u, v.key());
    let i = crate::subscription::row_index(u, v.key());
    assert(replay_frames(u)[i] == subscribe_frame_text(u[i].1));
}

/// Unsubscribing a key whose acknowledgement recorded a server id sends
/// that id, and forgets it.
pub proof fn law_unsubscribe_sends_acknowledged_id(
    rows: Rows,
    ids: Map<Seq<char>, Seq<char>>,
    key: Seq<char>,
    id: Seq<char>,
)
    ensures
        unsubscribe_all(rows, ids.insert(key, id), seq![key]).2 == seq![id],
        !unsubscribe_all(rows, ids.insert(key, id), seq![key]).1.contains_key(key),
{
    let keys = seq![key];
    let m = ids.insert(key, id);
    assert(keys.drop_last() =~= Seq::<Seq<char>>::empty());
    assert(keys.last() == key);
    assert(unsubscribe_all(rows, m, keys.drop_last()) == (rows, m, Seq::<Seq<char>>::empty()));
    assert(Seq::<Seq<char>>::empty().push(id) =~= seq![id]);
}

/// Unsubscribing a key with no recorded server id sends the key itself.
pub proof fn law_unsubscribe_falls_back_to_key(rows: Rows, ids: Map<Seq<char>, Seq<char>>, key: Seq<char>)
    requires
        !ids.contains_key(key),
    ensures
        unsubscribe_all(rows, ids, seq![key]).2 == seq![key],
{
    let keys = seq![key];
    assert(keys.drop_last() =~= Seq::<Seq<char>>::empty());
    assert(keys.last() == key);
    assert(unsubscribe_all(rows, ids, keys.drop_last()) == (rows, ids, Seq::<Seq<char>>::empty()));
    assert(Seq::<Seq<char>>::empty().push(key) =~= seq![key]);
}

/// One stored subscription row.
pub type Row = (Seq<char>, SubscribeRequestView);

/// The keys of requests, in order.
pub open spec fn key_list(reqs: Seq<SubscribeRequestView>) -> Seq<Seq<char>> {
    reqs.map_values(|r: SubscribeRequestView| r.key())
}

proof fn lemma_filter_keeps_all(rows: Rows, p: spec_fn(Row) -> bool)
    requires
        forall|i: int| 0 <= i < rows.len() ==> p(#[trigger] rows[i]),
    ensures
        rows.filter(p) == rows,
    decreases rows.len(),
{
    reveal(Seq::filter);
    if rows.len() > 0 {
        let d = rows.drop_last();
        assert forall|i: int| 0 <= i < d.len() implies p(#[trigger] d[i]) by {
            assert(d[i] == rows[i]);
        }
        lemma_filter_keeps_all(d, p);
        assert(p(rows[rows.len() - 1]));
        assert(d.push(rows.last()) =~= rows);
    }
}

proof fn lemma_filter_drops_all(rows: Rows, p: spec_fn(Row) -> bool)
    requires
        forall|i: int| 0 <= i < rows.len() ==> !p(#[trigger] rows[i]),
    ensures
        rows.filter(p) == Seq::<Row>::empty(),
    decreases rows.len(),
{
    reveal(Seq::filter);
    if rows.len() > 0 {
        let d = rows.drop_last();
        assert forall|i: int| 0 <= i < d.len() implies !p(#[trigger] d[i]) by {
            assert(d[i] == rows[i]);
        }
        lemma_filter_drops_all(d, p);
        assert(!p(rows[rows.len() - 1]));
    } else {
        assert(rows =~= Seq::<Row>::empty());
    }
}

proof fn lemma_filter_from(rows: Rows, p: spec_fn(Row) -> bool)
    ensures
        forall|i: int|
            0 <= i < rows.filter(p).len() ==> exists|j: int|
                0 <= j < rows.len() && #[trigger] rows.filter(p)[i] == #[trigger] rows[j],
    decreases rows.len(),
{
    reveal(Seq::filter);
    if rows.len() > 0 {
        let d = rows.drop_last();
        lemma_filter_from(d, p);
        let f = rows.filter(p);
        let g = d.filter(p);
        assert forall|i: int| 0 <= i < f.len() implies exists|j: int|
            0 <= j < rows.len() && #[trigger] f[i] == #[trigger] rows[j] by {
            if i < g.len() {
                assert(f[i] == g[i]);
                let j = choose|j: int| 0 <= j < d.len() && #[trigger] g[i] == #[trigger] d[j];
                assert(d[j] == rows[j]);
            } else {
                assert(f[i] == rows[rows.len() - 1]);
            }
        }
    }
}

proof fn lemma_filter_unique(rows: Rows, p: spec_fn(Row) -> bool)
    requires
        unique_keys(rows),
    ensures
        unique_keys(rows.filter(p)),
    decreases rows.len(),
{
    reveal(Seq::filter);
    if rows.len() > 0 {
        let d = rows.drop_last();
        assert forall|a: int, b: int| 0 <= a < b < d.len() implies d[a].0 != d[b].0 by {
            assert(d[a] == rows[a]);
            assert(d[b] == rows[b]);
        }
        lemma_filter_unique(d, p);
        lemma_filter_from(d, p);
        let g = d.filter(p);
        if p(rows.last()) {
            let f = g.push(rows.last());
            assert(rows.filter(p) == f);
            assert forall|a: int, b: int| 0 <= a < b < f.len() implies f[a].0 != f[b].0 by {
                if b == f.len() - 1 {
                    assert(f[a] == g[a]);
                    let j = choose|j: int| 0 <= j < d.len() && #[trigger] g[a] == #[trigger] d[j];
                    assert(d[j] == rows[j]);
                    assert(f[b] == rows[rows.len() - 1]);
                } else {
                    assert(f[a] == g[a]);
                    assert(f[b] == g[b]);
                }
            }
        }
    }
}

proof fn lemma_filter_filter(rows: Rows, p: spec_fn(Row) -> bool, q: spec_fn(Row) -> bool, r: spec_fn(Row) -> bool)
    requires
        forall|x: Row| #[trigger] r(x) == (p(x) && q(x)),
    ensures
        rows.filter(p).filter(q) == rows.filter(r),
    decreases rows.len(),
{
    reveal(Seq::filter);
    if rows.len() > 0 {
        let d = rows.drop_last();
        lemma_filter_filter(d, p, q, r);
        let x = rows.last();
        assert(r(x) == (p(x) && q(x)));
        if p(x) {
            assert(d.filter(p).push(x).drop_last() =~= d.filter(p));
        }
    }
}

proof fn lemma_remove_key_is_filter(rows: Rows, k: Seq<char>)
    requires
        unique_keys(rows),
    ensures
        remove_key(rows, k) == rows.filter(|r: Row| r.0 != k),
    decreases rows.len(),
{
    reveal(Seq::filter);
    let p = |r: Row| r.0 != k;
    if rows.len() == 0 {
        assert(rows.filter(p) =~= rows);
    } else {
        let d = rows.drop_last();
        assert forall|a: int, b: int| 0 <= a < b < d.len() implies d[a].0 != d[b].0 by {
            assert(d[a] == rows[a]);
            assert(d[b] == rows[b]);
        }
        if rows.last().0 == k {
            assert(rows.remove(rows.len() - 1) =~= d);
            assert forall|i: int| 0 <= i < d.len() implies p(#[trigger] d[i]) by {
                assert(d[i] == rows[i]);
            }
            lemma_filter_keeps_all(d, p);
        } else {
            lemma_remove_key_is_filter(d, k);
            lemma_row_index(d, k);
            let i = row_index(d, k);
            if i >= 0 {
                assert(rows.remove(i) =~= d.remove(i).push(rows.last()));
            } else {
                assert(d.push(rows.last()) =~= rows);
            }
        }
    }
}

proof fn lemma_unsubscribe_all_is_filter(rows: Rows, ids: Map<Seq<char>, Seq<char>>, ks: Seq<Seq<char>>)
    requires
        unique_keys(rows),
    ensures
        unsubscribe_all(rows, ids, ks).0 == rows.filter(|r: Row| !ks.contains(r.0)),
    decreases ks.len(),
{
    reveal(Seq::filter);
    let p = |r: Row| !ks.contains(r.0);
    if ks.len() == 0 {
        assert forall|i: int| 0 <= i < rows.len() implies p(#[trigger] rows[i]) by {}
        lemma_filter_keeps_all(rows, p);
    } else {
        let ks2 = ks.drop_last();
        let k = ks.last();
        let p2 = |r: Row| !ks2.contains(r.0);
        let q = |r: Row| r.0 != k;
        lemma_unsubscribe_all_is_filter(rows, ids, ks2);
        let y = unsubscribe_all(rows, ids, ks2).0;
        lemma_filter_unique(rows, p2);
        lemma_remove_key_is_filter(y, k);
        assert forall|x: Row| #[trigger] p(x) == (p2(x) && q(x)) by {
            if ks.contains(x.0) {
                let i = choose|i: int| 0 <= i < ks.len() && ks[i] == x.0;
                if i < ks.len() - 1 {
                    assert(ks2[i] == x.0);
                }
            }
            if ks2.contains(x.0) {
                let i = choose|i: int| 0 <= i < ks2.len() && ks2[i] == x.0;
                assert(ks[i] == x.0);
            }
            if x.0 == k {
                assert(ks[ks.len() - 1] == x.0);
            }
        }
        lemma_filter_filter(rows, p2, q, p);
    }
}

proof fn lemma_upsert_all_appends(rows: Rows, reqs: Seq<SubscribeRequestView>)
    requires
        unique_keys(rows),
        forall|i: int| 0 <= i < reqs.len() ==> row_index(rows, #[trigger] reqs[i].key()) < 0,
    ensures
        unique_keys(upsert_all(rows, reqs)),
        upsert_all(rows, reqs).len() >= rows.len(),
        forall|j: int| 0 <= j < rows.len() ==> #[trigger] upsert_all(rows, reqs)[j] == rows[j],
        forall|j: int|
            rows.len() <= j < upsert_all(rows, reqs).len() ==> key_list(reqs).contains(
                #[trigger] upsert_all(rows, reqs)[j].0,
            ),
    decreases reqs.len(),
{
    if reqs.len() > 0 {
        let r2 = reqs.drop_last();
        assert forall|i: int| 0 <= i < r2.len() implies row_index(rows, #[trigger] r2[i].key()) < 0 by {
            assert(r2[i] == reqs[i]);
        }
        lemma_upsert_all_appends(rows, r2);
        let u2 = upsert_all(rows, r2);
        let v = reqs.last();
        let k = v.key();
        let u = upsert(u2, k, v);
        assert(u == upsert_all(rows, reqs));
        lemma_upsert_unique(u2, k, v);
        lemma_row_index(u2, k);
        assert(row_index(rows, reqs[reqs.len() - 1].key()) < 0);
        lemma_row_index(rows, k);
        assert(key_list(reqs)[reqs.len() - 1] == k);
        let idx = row_index(u2, k);
        if idx >= 0 {
            assert(idx >= rows.len()) by {
                if idx < rows.len() {
                    assert(u2[idx] == rows[idx]);
                }
            }
        }
        assert forall|j: int| rows.len() <= j < u.len() implies key_list(reqs).contains(
            #[trigger] u[j].0,
        ) by {
            if j < u2.len() && !(idx >= 0 && j == idx) {
                assert(u[j] == u2[j]);
                assert(key_list(r2).contains(u2[j].0));
                let i = choose|i: int| 0 <= i < key_list(r2).len() && key_list(r2)[i] == u2[j].0;
                assert(key_list(reqs)[i] == key_list(r2)[i]);
            } else {
                assert(u[j].0 == k);
            }
        }
    }
}

/// Unsubscribing the keys of requests just stored under new keys gives
/// back exactly the rows there were before, in their order, whatever ids
/// were recorded.
pub proof fn law_unsubscribe_undoes_subscribe(
    rows: Rows,
    ids: Map<Seq<char>, Seq<char>>,
    reqs: Seq<SubscribeRequestView>,
)
    requires
        unique_keys(rows),
        forall|i: int| 0 <= i < reqs.len() ==> row_index(rows, #[trigger] reqs[i].key()) < 0,
    ensures
        unsubscribe_all(upsert_all(rows, reqs), ids, key_list(reqs)).0 == rows,
{
    let u = upsert_all(rows, reqs);
    let ks = key_list(reqs);
    let p = |r: Row| !ks.contains(r.0);
    lemma_upsert_all_appends(rows, reqs);
    lemma_unsubscribe_all_is_filter(u, ids, ks);
    let n = rows.len() as int;
    let tail = u.skip(n);
    assert(u.take(n) =~= rows);
    assert(u =~= rows + tail);
    Seq::filter_distributes_over_add(rows, tail, p);
    assert forall|j: int| 0 <= j < rows.len() implies p(#[trigger] rows[j]) by {
        if ks.contains(rows[j].0) {
            let i = choose|i: int| 0 <= i < ks.len() && ks[i] == rows[j].0;
            assert(row_index(rows, reqs[i].key()) < 0);
            lemma_row_index(rows, reqs[i].key());
        }
    }
    lemma_filter_keeps_all(rows, p);
    assert forall|j: int| 0 <= j < tail.len() implies !p(#[trigger] tail[j]) by {
        assert(tail[j] == u[j + n]);
    }
    lemma_filter_drops_all(tail, p);
    assert(rows + Seq::<Row>::empty() =~= rows);
}

proof fn lemma_expanded_keys(
    channel: Seq<char>,
    symbols: crate::models::SymbolSpecView,
    after_hours: bool,
    odd_lot: bool,
)
    ensures
        key_list(wire_request(channel, symbols, after_hours, odd_lot).expand()) == keys_of(
            channel,
            symbols,
            after_hours,
            odd_lot,
        ),
{
    let w = wire_request(channel, symbols, after_hours, odd_lot);
    assert(key_list(w.expand()) =~= keys_of(channel, symbols, after_hours, odd_lot));
}

/// Unsubscribing every key of a subscription right after subscribing it,
/// when none of its keys was stored before, gives back exactly the rows
/// there were (the other subscriptions and their order untouched).
pub proof fn law_unsubscribe_undoes_subscription(
    rows: Rows,
    ids: Map<Seq<char>, Seq<char>>,
    channel: Seq<char>,
    symbols: crate::models::SymbolSpecView,
    after_hours: bool,
    odd_lot: bool,
)
    requires
        unique_keys(rows),
        forall|i: int|
            0 <= i < keys_of(channel, symbols, after_hours, odd_lot).len() ==> row_index(
                rows,
                #[trigger] keys_of(channel, symbols, after_hours, odd_lot)[i],
            ) < 0,
    ensures
        unsubscribe_all(
            upsert_all(rows, wire_request(channel, symbols, after_hours, odd_lot).expand()),
            ids,
            keys_of(channel, symbols, after_hours, odd_lot),
        ).0 == rows,
{
    let reqs = wire_request(channel, symbols, after_hours, odd_lot).expand();
    let ks = keys_of(channel, symbols, after_hours, odd_lot);
    lemma_expanded_keys(channel, symbols, after_hours, odd_lot);
    assert forall|i: int| 0 <= i < reqs.len() implies row_index(rows, #[trigger] reqs[i].key()) < 0 by {
        assert(key_list(reqs)[i] == reqs[i].key());
        assert(ks[i] == reqs[i].key());
    }
    law_unsubscribe_undoes_subscribe(rows, ids, reqs);
}

} // verus!
