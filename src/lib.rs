//! Core of a peer-to-peer overlay node: the DHT ring and its lookup and
//! stabilization rules, the table of live connections, the dispatch and
//! send decisions of the swarm, the signed envelope, and the event channel
//! between transport I/O and protocol processing.
use vstd::prelude::*;

pub mod channel;
pub mod envelope;
pub mod ring;
pub mod swarm;
pub mod table;

verus! {

/// A peer identifier: a point on the ring of size 2^64.
pub type Did = u64;

} // verus!
