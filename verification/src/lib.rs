//! Verified core of a market-data streaming client: subscription
//! bookkeeping, reconnection policy, endpoint derivation, wire framing and
//! the connection state machine, with the transport left to the caller.

pub mod bindings;
pub mod channels;
pub mod config;
pub mod duration;
pub mod error;
pub mod factory;
pub mod gui;
pub mod health_check;
pub mod json;
pub mod message;
pub mod models;
pub mod protocol;
pub mod reconnection;
pub mod session;
pub mod subscription;
pub mod text;
pub mod urls;
pub mod version;
