//! Verified core of an RPC bridge daemon: a fan-out client hub with a bounded
//! replayable event log, a subprocess request/response correlator with pending
//! approval and user-input registries, a rollout journal tailer, and the
//! method gateway that routes client frames between them.
//!
//! Everything here is pure state-machine logic over plain values: the
//! surrounding process (sockets, subprocess stdio, timers, the file system)
//! feeds events in and carries the computed effects out.

pub mod approval;
pub mod bridge;
pub mod clock;
pub mod config;
pub mod gateway;
pub mod git;
pub mod hub;
pub mod json;
pub mod limits;
pub mod numeric;
pub mod paths;
pub mod rollout;
pub mod sanitize;
pub mod terminal;
pub mod text;
pub mod userinput;

pub use json::JsonValue;
pub use json::SpecJson;
