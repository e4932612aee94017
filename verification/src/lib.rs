//! Core logic of a small game-client launcher.
//!
//! Two subsystems carry the weight: an authentication chain state machine
//! (a four-hop credential exchange with a device-code polling sub-protocol),
//! and a content delivery pipeline (platform-rule filtering, a present/missing
//! partition, digest-verified fetches under a concurrency cap, and classpath
//! assembly). Network and filesystem work is left to the embedding binary;
//! this crate holds the decisions and the data, with contracts verified by
//! Verus.

pub mod auth;
pub mod digest;
pub mod limiter;
pub mod manifest;
pub mod pipeline;
pub mod platform;
pub mod record;
