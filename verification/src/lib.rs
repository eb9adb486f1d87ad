//! Core of a wiki client for a decentralized personal-data-store network.
//!
//! The library covers page addressing, the local page cache, the per-address
//! mutation gate, link routing, and the navigation state machine that drives
//! them.  Rendering and the network transport live outside: the state machine
//! hands its caller the storage calls to perform and consumes their outcomes.

pub mod address;
pub mod bridge;
pub mod cache;
pub mod engine;
pub mod errors;
pub mod gate;
pub mod router;
pub mod scan;
pub mod title;
