//! Types of the distributed system as a whole.

use vstd::prelude::*;

verus! {

/// Identifies a peer: the 1-based position of its hostname in the manifest.
pub type PeerId = usize;

} // verus!
