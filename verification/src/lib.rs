//! Fleet orchestration core: a declarative resource model, the node-agent
//! command surface in front of a container runtime, and the orchestrator's
//! placement-and-dispatch engine.
//!
//! The crate holds the decision logic only. Network transport, file loading
//! and the container runtime itself are external collaborators: callers hand
//! in the plain values those produce (wire tokens, response envelopes,
//! runtime snapshots) and get plain values back.

pub mod agent_config;
pub mod client;
pub mod dispatch;
pub mod envelope;
pub mod inspect;
pub mod orchestrator_conf;
pub mod resource;
pub mod run;
pub mod server;
pub mod state;
pub mod stats;
pub mod status;
pub mod text;
