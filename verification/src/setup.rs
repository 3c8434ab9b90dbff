//! What a node needs before it can take part: the manifest of its peers and
//! the links to them.

pub mod grammar;
pub mod hostsfile;
pub mod roster;
pub mod socketry;
