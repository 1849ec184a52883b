//! One fleet member: the address of a server and the port its node agent
//! listens on.

use vstd::prelude::*;

verus! {

/// Identifies one target server of the fleet.
#[derive(Debug, Clone, PartialEq, Eq)]
pub struct ServerConfig {
    pub address: String,
    pub igniter_port: String,
    pub name: String,
}

} // verus!
