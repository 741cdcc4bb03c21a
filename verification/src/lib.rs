//! Core of a local game-library aggregation daemon: it merges the library
//! items that provider plugins publish, tracks launched child processes,
//! correlates preference dialogs, and serializes every state change through
//! a single event-loop decision layer.
//!
//! All state transitions live here as verified functions from plain values
//! to plain values; the asynchronous shell (sockets, plugin loading, the
//! database subprocess) performs the returned effects.

pub mod config;
pub mod errors;
pub mod eventloop;
pub mod frontend;
pub mod index;
pub mod library;
pub mod module;
pub mod modules;
pub mod process;
pub mod registry;
pub mod smap;

use vstd::prelude::*;

verus! {

/// The wire-protocol version carried by every envelope.
pub open spec fn protocol_version() -> Seq<char> {
    "0.0.0"@
}

} // verus!
