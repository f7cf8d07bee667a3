//! Core logic of an MQTT protocol gateway.
//!
//! The gateway terminates MQTT client connections, picks an upstream broker
//! per client by consistent hashing over a health-checked backend set, and
//! relays publish/subscribe/control traffic to one upstream sink or, in dual
//! mode, to a pair of upstream sinks.  This crate holds the verified decision
//! logic: backend selection, discovery-list parsing, the periodic scheduler,
//! per-session state, QoS handling and the subscribe/unsubscribe relay steps.
//! The surrounding transport (sockets, TLS handshakes, the MQTT codec) lives
//! outside and drives these functions.

pub mod bytes;
pub mod config;
pub mod dual;
pub mod error;
pub mod handler;
pub mod registry;
pub mod scheduler;
pub mod session;
pub mod tls;

pub use error::ServerError;
