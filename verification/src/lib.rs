//! Host network-management core: a daemon-side interface registry with a
//! connection-status state machine, a telemetry engine that turns monotonic
//! counters into rates, a line-oriented request/response protocol, and the
//! client-side cache that mirrors the daemon's interface list.
//!
//! Everything here is pure logic over plain values; the surrounding process
//! (sockets, timers, terminal rendering, netlink/D-Bus transports) lives
//! outside the library and feeds it observations.

pub mod model;
pub mod registry;
pub mod metrics;
pub mod text;
pub mod cache;
pub mod protocol;
pub mod codec;
pub mod client;
pub mod config;
pub mod adapters;
pub mod discovery;
