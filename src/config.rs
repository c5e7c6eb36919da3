//! Where a node listens.

use vstd::prelude::*;

verus! {

/// The address and port a node serves on; sent to a peer when joining it.
pub struct ServerConfig {
    pub address: String,
    pub port: u16,
}

} // verus!
