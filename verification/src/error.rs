//! The library's error type and its numeric codes for foreign callers.

use crate::text::{decimal, push_decimal};
use vstd::prelude::*;

verus! {

/// Everything that can go wrong in configuration, connection and framing.
#[derive(Debug, Clone, PartialEq, Eq)]
pub enum MarketDataError {
    /// The server rejected the credentials.
    AuthError { msg: String },
    /// The server answered a request with an HTTP error status.
    ApiError { status: u16, message: String },
    /// The transport could not be established or was lost.
    ConnectionError { msg: String },
    /// An operation did not finish in time.
    TimeoutError { operation: String },
    /// The WebSocket layer reported a protocol failure.
    WebSocketError { msg: String },
    /// A symbol was not accepted.
    InvalidSymbol { symbol: String },
    /// A payload could not be decoded; holds the decoder's message.
    DeserializationError { msg: String },
    /// The background runtime failed.
    RuntimeError { msg: String },
    /// A configuration value was rejected.
    ConfigError(String),
    /// The client was closed and cannot be used again.
    ClientClosed,
    /// Anything else.
    Other(String),
}

/// Success, in the foreign-function convention.
pub const SUCCESS: i32 = 0;
/// An argument was rejected.
pub const ERROR_INVALID_ARG: i32 = -1;
/// Authentication failed.
pub const ERROR_AUTH_FAILED: i32 = -2;
/// The server rate-limited the caller.
pub const ERROR_RATE_LIMITED: i32 = -3;
/// The server answered with another error status.
pub const ERROR_API_ERROR: i32 = -4;
/// The connection failed or the client is closed.
pub const ERROR_CONNECTION_FAILED: i32 = -5;
/// An operation timed out.
pub const ERROR_TIMEOUT: i32 = -6;
/// The WebSocket layer failed.
pub const ERROR_WEBSOCKET: i32 = -7;
/// Anything internal.
pub const ERROR_INTERNAL: i32 = -999;

/// The foreign-function error code of each error kind.
pub open spec fn spec_error_to_code(e: MarketDataError) -> i32 {
    match e {
        MarketDataError::AuthError { .. } => ERROR_AUTH_FAILED,
        MarketDataError::ApiError { status, .. } => if status == 429 {
            ERROR_RATE_LIMITED
        } else {
            ERROR_API_ERROR
        },
        MarketDataError::ConnectionError { .. } => ERROR_CONNECTION_FAILED,
        MarketDataError::TimeoutError { .. } => ERROR_TIMEOUT,
        MarketDataError::WebSocketError { .. } => ERROR_WEBSOCKET,
        MarketDataError::InvalidSymbol { .. } => ERROR_INVALID_ARG,
        MarketDataError::DeserializationError { .. } => ERROR_INVALID_ARG,
        MarketDataError::RuntimeError { .. } => ERROR_INTERNAL,
        MarketDataError::ConfigError(_) => ERROR_INVALID_ARG,
        MarketDataError::ClientClosed => ERROR_CONNECTION_FAILED,
        MarketDataError::Other(_) => ERROR_INTERNAL,
    }
}

/// Converts an error to the code handed across the foreign-function boundary.
pub fn error_to_code(e: &MarketDataError) -> (code: i32)
    ensures
        code == spec_error_to_code(*e),
{
    match e {
        MarketDataError::AuthError { .. } => ERROR_AUTH_FAILED,
        MarketDataError::ApiError { status, .. } => if *status == 429 {
            ERROR_RATE_LIMITED
        } else {
            ERROR_API_ERROR
        },
        MarketDataError::ConnectionError { .. } => ERROR_CONNECTION_FAILED,
        MarketDataError::TimeoutError { .. } => ERROR_TIMEOUT,
        MarketDataError::WebSocketError { .. } => ERROR_WEBSOCKET,
        MarketDataError::InvalidSymbol { .. } => ERROR_INVALID_ARG,
        MarketDataError::DeserializationError { .. } => ERROR_INVALID_ARG,
        MarketDataError::RuntimeError { .. } => ERROR_INTERNAL,
        MarketDataError::ConfigError(_) => ERROR_INVALID_ARG,
        MarketDataError::ClientClosed => ERROR_CONNECTION_FAILED,
        MarketDataError::Other(_) => ERROR_INTERNAL,
    }
}

/// The human-readable text of an error.
pub open spec fn spec_message(e: MarketDataError) -> Seq<char> {
    match e {
        MarketDataError::AuthError { msg } => "Authentication failed: "@ + msg@,
        MarketDataError::ApiError { status, message } =>
            "API error (status "@ + decimal(status as nat) + "): "@ + message@,
        MarketDataError::ConnectionError { msg } => "Connection error: "@ + msg@,
        MarketDataError::TimeoutError { operation } => "Timeout: "@ + operation@,
        MarketDataError::WebSocketError { msg } => "WebSocket error: "@ + msg@,
        MarketDataError::InvalidSymbol { symbol } => "Invalid symbol: "@ + symbol@,
        MarketDataError::DeserializationError { msg } => "Deserialization error: "@ + msg@,
        MarketDataError::RuntimeError { msg } => "Runtime error: "@ + msg@,
        MarketDataError::ConfigError(msg) => "Configuration error: "@ + msg@,
        MarketDataError::ClientClosed => "Client is closed"@,
        MarketDataError::Other(msg) => msg@,
    }
}

fn prefixed(prefix: &str, rest: &String) -> (s: String)
    ensures
        s@ == prefix@ + rest@,
{
    let mut s = String::from_str(prefix);
    s.append(rest.as_str());
    s
}

impl MarketDataError {
    /// Renders the error as text (what `Display` shows).
    pub fn message(&self) -> (s: String)
        ensures
            s@ == spec_message(*self),
    {
        match self {
            MarketDataError::AuthError { msg } => prefixed("Authentication failed: ", msg),
            MarketDataError::ApiError { status, message } => {
                let mut s = String::from_str("API error (status ");
                push_decimal(&mut s, *status as u128);
                s.append("): ");
                s.append(message.as_str());
                s
            },
            MarketDataError::ConnectionError { msg } => prefixed("Connection error: ", msg),
            MarketDataError::TimeoutError { operation } => prefixed("Timeout: ", operation),
            MarketDataError::WebSocketError { msg } => prefixed("WebSocket error: ", msg),
            MarketDataError::InvalidSymbol { symbol } => prefixed("Invalid symbol: ", symbol),
            MarketDataError::DeserializationError { msg } => prefixed(
                "Deserialization error: ",
                msg,
            ),
            MarketDataError::RuntimeError { msg } => prefixed("Runtime error: ", msg),
            MarketDataError::ConfigError(msg) => prefixed("Configuration error: ", msg),
            MarketDataError::ClientClosed => String::from_str("Client is closed"),
            MarketDataError::Other(msg) => msg.clone(),
        }
    }
}

/// The numeric code of each error kind reported in connection events and
/// to script callers: 1xxx for rejected input, 2xxx for transport and
/// server failures, 3001 for timeouts, 9999 for anything else.
pub open spec fn spec_error_code(e: MarketDataError) -> i32 {
    match e {
        MarketDataError::InvalidSymbol { .. } => 1001,
        MarketDataError::DeserializationError { .. } => 1002,
        MarketDataError::RuntimeError { .. } => 1003,
        MarketDataError::ConfigError(_) => 1004,
        MarketDataError::ConnectionError { .. } => 2001,
        MarketDataError::AuthError { .. } => 2002,
        MarketDataError::ApiError { .. } => 2003,
        MarketDataError::WebSocketError { .. } => 2004,
        MarketDataError::ClientClosed => 2005,
        MarketDataError::TimeoutError { .. } => 3001,
        MarketDataError::Other(_) => 9999,
    }
}

impl MarketDataError {
    /// The numeric code of this error (see [`spec_error_code`]).
    pub fn error_code(&self) -> (c: i32)
        ensures
            c == spec_error_code(*self),
    {
        match self {
            MarketDataError::InvalidSymbol { .. } => 1001,
            MarketDataError::DeserializationError { .. } => 1002,
            MarketDataError::RuntimeError { .. } => 1003,
            MarketDataError::ConfigError(_) => 1004,
            MarketDataError::ConnectionError { .. } => 2001,
            MarketDataError::AuthError { .. } => 2002,
            MarketDataError::ApiError { .. } => 2003,
            MarketDataError::WebSocketError { .. } => 2004,
            MarketDataError::ClientClosed => 2005,
            MarketDataError::TimeoutError { .. } => 3001,
            MarketDataError::Other(_) => 9999,
        }
    }

    /// The text a script caller sees: `[code] message`.
    pub fn coded_message(&self) -> (s: String)
        ensures
            s@ == seq!['['] + decimal(spec_error_code(*self) as nat) + seq![']', ' ']
                + spec_message(*self),
    {
        let mut s = String::new();
        crate::text::push_char(&mut s, '[');
        let c = self.error_code();
        push_decimal(&mut s, c as u128);
        let ghost head = s@;
        s.append("] ");
        let m = self.message();
        s.append(m.as_str());
        proof {
            reveal_strlit("] ");
            assert(head == seq!['['] + decimal(spec_error_code(*self) as nat));
            assert(s@ =~= seq!['['] + decimal(spec_error_code(*self) as nat) + seq![']', ' ']
                + spec_message(*self));
        }
        s
    }
}

} // verus!
