//! A single-decree Paxos node: the per-role state machines, the wire codec,
//! the hosts manifest and the decisions of the node loop, with their proofs.

pub mod args;
pub mod messaging;
pub mod setup;
pub mod state;
pub mod text;
