//! The node agent's own configuration for hosting executable resources:
//! the command it starts and the directory it runs in.

use vstd::prelude::*;

verus! {

/// Startup configuration of one node agent.
#[derive(Debug, Clone, PartialEq, Eq)]
pub struct Config {
    pub start_command: String,
    pub path: String,
}

} // verus!
