//! Round-trip latency probing and session fan-out for benchmarking a
//! publish/subscribe transport.
//!
//! The transport itself is driven by the surrounding program; this library
//! holds the decisions: how probes are built and correlated with replies,
//! and which peers a relayed message goes to.
pub mod config;
pub mod parallel;
pub mod probe;
pub mod record;
pub mod relay;
pub mod sequential;
