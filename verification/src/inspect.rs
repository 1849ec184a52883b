//! Inspecting a container through the node agent: the runtime hands back a
//! native snapshot; the adapter normalizes it field by field into the
//! system's own vocabulary. Normalization is a pure function of the
//! snapshot — nothing else flows into the result, which is what makes
//! inspect idempotent while the container's state does not change.

use vstd::prelude::*;

use crate::state::ContainerState;
use crate::status::{normalize_token, ContainerStateStatusEnum};

verus! {

/// The inspect command's body: which container to look at.
#[derive(Debug, Clone, PartialEq, Eq)]
pub struct InspectContainerCommand {
    pub name: String,
}

/// The normalized inspect payload handed back to callers.
#[derive(Debug, Clone, PartialEq, Eq)]
pub struct InspectContainerResult {
    /// The ID of the container.
    pub id: Option<String>,
    /// The time the container was created.
    pub created: Option<String>,
    /// The path to the command being run.
    pub path: Option<String>,
    /// The arguments to the command being run.
    pub args: Option<Vec<String>>,
    pub state: Option<ContainerState>,
    /// The container's image ID.
    pub image: Option<String>,
    pub resolv_conf_path: Option<String>,
    pub hostname_path: Option<String>,
    pub hosts_path: Option<String>,
    pub log_path: Option<String>,
    pub name: Option<String>,
    pub restart_count: Option<i64>,
    pub driver: Option<String>,
    pub platform: Option<String>,
    pub mount_label: Option<String>,
    pub process_label: Option<String>,
    pub app_armor_profile: Option<String>,
    /// IDs of exec instances that are running in the container.
    pub exec_ids: Option<Vec<String>>,
    /// The size of files created or changed by this container.
    pub size_rw: Option<i64>,
    /// The total size of all the files in this container.
    pub size_root_fs: Option<i64>,
}

/// A container state as the runtime natively reports it: the status is
/// still a wire token, not yet normalized.
#[derive(Debug, Clone, PartialEq, Eq)]
pub struct RuntimeContainerState {
    pub status: Option<String>,
    pub running: Option<bool>,
    pub paused: Option<bool>,
    pub restarting: Option<bool>,
    pub oom_killed: Option<bool>,
    pub dead: Option<bool>,
    pub pid: Option<i64>,
    pub exit_code: Option<i64>,
    pub error: Option<String>,
    pub started_at: Option<String>,
    pub finished_at: Option<String>,
}

/// An inspect response as the runtime natively reports it.
#[derive(Debug, Clone, PartialEq, Eq)]
pub struct RuntimeInspectResponse {
    pub id: Option<String>,
    pub created: Option<String>,
    pub path: Option<String>,
    pub args: Option<Vec<String>>,
    pub state: Option<RuntimeContainerState>,
    pub image: Option<String>,
    pub resolv_conf_path: Option<String>,
    pub hostname_path: Option<String>,
    pub hosts_path: Option<String>,
    pub log_path: Option<String>,
    pub name: Option<String>,
    pub restart_count: Option<i64>,
    pub driver: Option<String>,
    pub platform: Option<String>,
    pub mount_label: Option<String>,
    pub process_label: Option<String>,
    pub app_armor_profile: Option<String>,
    pub exec_ids: Option<Vec<String>>,
    pub size_rw: Option<i64>,
    pub size_root_fs: Option<i64>,
}

/// The normalized form of a native state snapshot: every field carried
/// over, the status token normalized (unrecognized tokens degrade to
/// `UNKNOWN`, never to an error).
pub open spec fn spec_normalize_state(s: RuntimeContainerState) -> ContainerState {
    ContainerState {
        status: (match s.status {
            None => None,
            Some(t) => Some(normalize_token(t@)),
        }),
        running: s.running,
        paused: s.paused,
        restarting: s.restarting,
        oom_killed: s.oom_killed,
        dead: s.dead,
        pid: s.pid,
        exit_code: s.exit_code,
        error: s.error,
        started_at: s.started_at,
        finished_at: s.finished_at,
    }
}

/// The normalized form of a native inspect response: every field carried
/// over, the state normalized.
pub open spec fn spec_normalize_inspect(v: RuntimeInspectResponse) -> InspectContainerResult {
    InspectContainerResult {
        id: v.id,
        created: v.created,
        path: v.path,
        args: v.args,
        state: (match v.state {
            None => None,
            Some(s) => Some(spec_normalize_state(s)),
        }),
        image: v.image,
        resolv_conf_path: v.resolv_conf_path,
        hostname_path: v.hostname_path,
        hosts_path: v.hosts_path,
        log_path: v.log_path,
        name: v.name,
        restart_count: v.restart_count,
        driver: v.driver,
        platform: v.platform,
        mount_label: v.mount_label,
        process_label: v.process_label,
        app_armor_profile: v.app_armor_profile,
        exec_ids: v.exec_ids,
        size_rw: v.size_rw,
        size_root_fs: v.size_root_fs,
    }
}

/// Normalizes a native state snapshot.
pub fn normalize_state(s: RuntimeContainerState) -> (r: ContainerState)
    ensures
        r == spec_normalize_state(s),
{
    ContainerState {
        status: (match s.status {
            None => None,
            Some(t) => Some(ContainerStateStatusEnum::normalize(t.as_str())),
        }),
        running: s.running,
        paused: s.paused,
        restarting: s.restarting,
        oom_killed: s.oom_killed,
        dead: s.dead,
        pid: s.pid,
        exit_code: s.exit_code,
        error: s.error,
        started_at: s.started_at,
        finished_at: s.finished_at,
    }
}

/// Normalizes a native inspect response into the payload the agent's
/// inspect endpoint returns.
pub fn normalize_inspect(v: RuntimeInspectResponse) -> (r: InspectContainerResult)
    ensures
        r == spec_normalize_inspect(v),
{
    InspectContainerResult {
        id: v.id,
        created: v.created,
        path: v.path,
        args: v.args,
        state: (match v.state {
            None => None,
            Some(s) => Some(normalize_state(s)),
        }),
        image: v.image,
        resolv_conf_path: v.resolv_conf_path,
        hostname_path: v.hostname_path,
        hosts_path: v.hosts_path,
        log_path: v.log_path,
        name: v.name,
        restart_count: v.restart_count,
        driver: v.driver,
        platform: v.platform,
        mount_label: v.mount_label,
        process_label: v.process_label,
        app_armor_profile: v.app_armor_profile,
        exec_ids: v.exec_ids,
        size_rw: v.size_rw,
        size_root_fs: v.size_root_fs,
    }
}

/// Inspect is idempotent: two inspects that observe the same runtime
/// snapshot (no intervening state change) normalize to identical data —
/// the result is a function of the snapshot alone.
pub proof fn lemma_inspect_idempotent(a: RuntimeInspectResponse, b: RuntimeInspectResponse)
    requires
        a == b,
    ensures
        spec_normalize_inspect(a) == spec_normalize_inspect(b),
{
}

} // verus!
