//! Verified core of a live price-feed service.
//!
//! The crate covers the real-time distribution path: a broadcast hub that
//! fans messages out to per-subscriber bounded buffers (drop-oldest on
//! overflow), the frame codec for inbound and outbound client messages, the
//! per-connection multiplexer policy (trusted-producer filtering and the
//! three-strike rule for malformed frames), and the state machines that
//! drive the change listener's reconnect backoff and the acceptor loop.
//! The surrounding process (sockets, the notification session, the query
//! service) lives outside this crate and only exchanges plain values with it.

pub mod acceptor;
pub mod frame;
pub mod hub;
pub mod listener;
pub mod models;
pub mod mux;

pub use models::Response;
