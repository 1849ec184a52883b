//! A container's runtime-reported state snapshot. This is a view, not owned
//! state: it is fetched fresh from the runtime on every inspect and never
//! cached.

use vstd::prelude::*;

use crate::status::ContainerStateStatusEnum;

verus! {

/// The runtime-reported running state of one container. `running` and
/// `paused` are not mutually exclusive (a paused container is both); the
/// `status` field is the authoritative lifecycle summary.
#[derive(Debug, Clone, PartialEq, Eq)]
pub struct ContainerState {
    pub status: Option<ContainerStateStatusEnum>,
    pub running: Option<bool>,
    pub paused: Option<bool>,
    pub restarting: Option<bool>,
    pub oom_killed: Option<bool>,
    pub dead: Option<bool>,
    pub pid: Option<i64>,
    pub exit_code: Option<i64>,
    pub error: Option<String>,
    pub started_at: Option<String>,
    pub finished_at: Option<String>,
}

impl Default for ContainerState {
    /// The not-yet-observed state: every field absent.
    fn default() -> (r: ContainerState)
        ensures
            r.status is None,
            r.running is None,
            r.paused is None,
            r.restarting is None,
            r.oom_killed is None,
            r.dead is None,
            r.pid is None,
            r.exit_code is None,
            r.error is None,
            r.started_at is None,
            r.finished_at is None,
    {
        ContainerState {
            status: None,
            running: None,
            paused: None,
            restarting: None,
            oom_killed: None,
            dead: None,
            pid: None,
            exit_code: None,
            error: None,
            started_at: None,
            finished_at: None,
        }
    }
}

} // verus!
