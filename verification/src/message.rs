//! A receiver of inbound messages that several threads may share, with
//! blocking, timed and non-blocking reads.

use crate::error::MarketDataError;
use crate::protocol::WebSocketMessage;
use std::sync::mpsc::{Receiver, RecvTimeoutError};
use std::sync::{Mutex, MutexGuard};
use std::time::Duration;
use vstd::prelude::*;

verus! {

/// The receiving end of a standard channel.
#[verifier::external_type_specification]
#[verifier::external_body]
#[verifier::reject_recursive_types(T)]
pub struct ExReceiver<T>(Receiver<T>);

/// A standard mutual-exclusion lock.
#[verifier::external_type_specification]
#[verifier::external_body]
#[verifier::reject_recursive_types(T)]
pub struct ExMutex<T: ?Sized>(Mutex<T>);

/// The guard of a held standard lock.
#[verifier::external_type_specification]
#[verifier::external_body]
#[verifier::reject_recursive_types(T)]
pub struct ExMutexGuard<'a, T: ?Sized + 'a>(MutexGuard<'a, T>);

/// What a timed read produced.
pub enum TimedRead {
    /// A message arrived in time.
    Message(WebSocketMessage),
    /// The time ran out with no message.
    Timeout,
    /// Every sender is gone and the channel is drained.
    Closed,
}

/// `Mutex::new`: a lock around the receiver.
#[verifier::external_body]
fn lock_new(rx: Receiver<WebSocketMessage>) -> (m: Mutex<Receiver<WebSocketMessage>>) {
    Mutex::new(rx)
}

/// `Mutex::lock`: waits for the lock; `None` when a holder panicked
/// (the lock is poisoned). Which of the two comes back depends on other
/// threads, so nothing more is stated.
#[verifier::external_body]
fn lock_acquire(m: &Mutex<Receiver<WebSocketMessage>>) -> (g: Option<
    MutexGuard<'_, Receiver<WebSocketMessage>>,
>) {
    m.lock().ok()
}

/// `Receiver::recv`: blocks for the next message; `None` once every sender
/// is gone and the channel is drained. What arrives depends on the senders,
/// so nothing more is stated.
#[verifier::external_body]
fn channel_recv(g: &MutexGuard<'_, Receiver<WebSocketMessage>>) -> (r: Option<WebSocketMessage>) {
    g.recv().ok()
}

/// `Receiver::recv_timeout`: waits at most `timeout` for the next message.
/// What arrives, and when, depends on the senders and the clock, so
/// nothing more is stated.
#[verifier::external_body]
fn channel_recv_timeout(g: &MutexGuard<'_, Receiver<WebSocketMessage>>, timeout: Duration) -> (r:
    TimedRead) {
    match g.recv_timeout(timeout) {
        Ok(m) => TimedRead::Message(m),
        Err(RecvTimeoutError::Timeout) => TimedRead::Timeout,
        Err(RecvTimeoutError::Disconnected) => TimedRead::Closed,
    }
}

/// `Receiver::try_recv`: the next message if one is already queued; `None`
/// when the queue is empty or the channel is closed. What is queued depends
/// on the senders, so nothing more is stated.
#[verifier::external_body]
fn channel_try_recv(g: &MutexGuard<'_, Receiver<WebSocketMessage>>) -> (r: Option<
    WebSocketMessage,
>) {
    g.try_recv().ok()
}

/// Whether `e` is `ConnectionError` with the message `msg`.
pub open spec fn is_connection_error(e: MarketDataError, msg: Seq<char>) -> bool {
    e matches MarketDataError::ConnectionError { msg: m } && m@ == msg
}

/// The error reported when the lock is poisoned.
pub fn lock_poisoned() -> (e: MarketDataError)
    ensures
        is_connection_error(e, "Message receiver lock poisoned"@),
{
    MarketDataError::ConnectionError { msg: String::from_str("Message receiver lock poisoned") }
}

/// The error reported when the channel is closed.
pub fn channel_closed() -> (e: MarketDataError)
    ensures
        is_connection_error(e, "Message channel closed"@),
{
    MarketDataError::ConnectionError { msg: String::from_str("Message channel closed") }
}

/// The result of a blocking read: the message, or the closed-channel error.
pub fn blocking_result(got: Option<WebSocketMessage>) -> (r: Result<WebSocketMessage, MarketDataError>)
    ensures
        match got {
            Some(m) => r == Ok::<WebSocketMessage, MarketDataError>(m),
            None => r matches Err(e) && is_connection_error(e, "Message channel closed"@),
        },
{
    match got {
        Some(m) => Ok(m),
        None => Err(channel_closed()),
    }
}

/// The result of a timed read: the message, `None` on timeout, or the
/// closed-channel error.
pub fn timed_result(got: TimedRead) -> (r: Result<Option<WebSocketMessage>, MarketDataError>)
    ensures
        match got {
            TimedRead::Message(m) => r == Ok::<Option<WebSocketMessage>, MarketDataError>(Some(m)),
            TimedRead::Timeout => r == Ok::<Option<WebSocketMessage>, MarketDataError>(None),
            TimedRead::Closed => r matches Err(e) && is_connection_error(
                e,
                "Message channel closed"@,
            ),
        },
{
    match got {
        TimedRead::Message(m) => Ok(Some(m)),
        TimedRead::Timeout => Ok(None),
        TimedRead::Closed => Err(channel_closed()),
    }
}

/// A receiver that several threads may share: reads take an internal lock.
pub struct MessageReceiver {
    rx: Mutex<Receiver<WebSocketMessage>>,
}

impl MessageReceiver {
    /// Wraps the receiving end of the message channel.
    pub fn new(rx: Receiver<WebSocketMessage>) -> (r: Self) {
        MessageReceiver { rx: lock_new(rx) }
    }

    /// Blocks for the next message. Fails with `ConnectionError` when the
    /// channel is closed (`Message channel closed`) or the lock is poisoned
    /// (`Message receiver lock poisoned`).
    pub fn receive(&self) -> (r: Result<WebSocketMessage, MarketDataError>)
        ensures
            r matches Err(e) ==> is_connection_error(e, "Message channel closed"@)
                || is_connection_error(e, "Message receiver lock poisoned"@),
    {
        match lock_acquire(&self.rx) {
            Some(g) => blocking_result(channel_recv(&g)),
            None => Err(lock_poisoned()),
        }
    }

    /// Waits at most `timeout`: `Ok(Some(msg))` when a message arrives,
    /// `Ok(None)` when the time runs out, and `ConnectionError` when the
    /// channel is closed or the lock is poisoned.
    pub fn receive_timeout(&self, timeout: Duration) -> (r: Result<
        Option<WebSocketMessage>,
        MarketDataError,
    >)
        ensures
            r matches Err(e) ==> is_connection_error(e, "Message channel closed"@)
                || is_connection_error(e, "Message receiver lock poisoned"@),
    {
        match lock_acquire(&self.rx) {
            Some(g) => timed_result(channel_recv_timeout(&g, timeout)),
            None => Err(lock_poisoned()),
        }
    }

    /// The next message if one is already queued; `None` when none is, the
    /// channel is closed, or the lock is poisoned.
    pub fn try_receive(&self) -> (r: Option<WebSocketMessage>) {
        match lock_acquire(&self.rx) {
            Some(g) => channel_try_recv(&g),
            None => None,
        }
    }
}

} // verus!
