//! What a node is started with.

use vstd::prelude::*;

use crate::state::paxos::Value;

verus! {

/// The arguments of a node.
#[derive(Debug, PartialEq, Eq)]
pub struct Project4 {
    /// The path of the manifest.
    pub hostsfile: String,
    /// The value to propose, for a node that is to propose one.
    pub proposal_value: Option<Value>,
    /// The seconds to wait before proposing.
    pub proposal_delay: Option<u64>,
}

} // verus!
