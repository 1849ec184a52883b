use orchestrator::envelope::IgniterApiResult;
use orchestrator::inspect::{
    normalize_inspect, InspectContainerResult, RuntimeContainerState, RuntimeInspectResponse,
};
use orchestrator::run::{on_create_result, on_start_result, RunContainerResult, RunProgress};
use orchestrator::state::ContainerState;
use orchestrator::stats::{
    BlkioStats, CPUStats, CPUUsage, ContainerStats, MemoryStats, PidsStats, StatsContainerResult,
    StorageStats, ThrottlingData,
};
use orchestrator::status::ContainerStateStatusEnum;

fn runtime_state(status: Option<&str>) -> RuntimeContainerState {
    RuntimeContainerState {
        status: status.map(|s| s.to_string()),
        running: Some(true),
        paused: Some(false),
        restarting: Some(false),
        oom_killed: Some(false),
        dead: Some(false),
        pid: Some(4711),
        exit_code: Some(0),
        error: Some(String::new()),
        started_at: Some("2016-05-25T17:22:08.823956535Z".to_string()),
        finished_at: Some("0001-01-01T00:00:00Z".to_string()),
    }
}

fn runtime_response(status: Option<&str>) -> RuntimeInspectResponse {
    RuntimeInspectResponse {
        id: Some("4fa6e0f0c678".to_string()),
        created: Some("2016-05-25T17:22:08.823956535Z".to_string()),
        path: Some("nginx".to_string()),
        args: Some(vec!["-g".to_string(), "daemon off;".to_string()]),
        state: Some(runtime_state(status)),
        image: Some("sha256:0123456789ab".to_string()),
        resolv_conf_path: Some("/var/lib/resolv.conf".to_string()),
        hostname_path: Some("/var/lib/hostname".to_string()),
        hosts_path: Some("/var/lib/hosts".to_string()),
        log_path: Some("/var/log/container.log".to_string()),
        name: Some("/web-edge1-0".to_string()),
        restart_count: Some(0),
        driver: Some("overlay2".to_string()),
        platform: Some("linux".to_string()),
        mount_label: Some(String::new()),
        process_label: Some(String::new()),
        app_armor_profile: Some(String::new()),
        exec_ids: None,
        size_rw: Some(122880),
        size_root_fs: Some(1113554),
    }
}

#[test]
fn success_envelope_carries_data_and_no_error() {
    let env = IgniterApiResult::succeed(Some(RunContainerResult { id: "4fa6".to_string() }));
    assert!(env.is_success);
    assert_eq!(env.data.unwrap().id, "4fa6");
    assert!(env.error.is_none());
}

#[test]
fn failure_envelope_carries_error_and_no_data() {
    let env: IgniterApiResult<RunContainerResult> =
        IgniterApiResult::failure("runtime unreachable".to_string());
    assert!(!env.is_success);
    assert!(env.data.is_none());
    assert_eq!(env.error.as_deref(), Some("runtime unreachable"));
}

#[test]
fn inspect_of_a_missing_container_fails_inside_the_envelope() {
    // The agent answers a missing name with is_success=false and the
    // runtime's message; the transport status stays the success code, so
    // the envelope is all a caller gets to look at.
    let outcome: Result<InspectContainerResult, String> =
        Err("No such container: missing".to_string());
    let env = IgniterApiResult::respond(outcome);
    assert!(!env.is_success);
    assert!(env.data.is_none());
    assert_eq!(env.error.as_deref(), Some("No such container: missing"));
}

#[test]
fn run_proceeds_from_create_to_start_to_done() {
    let after_create = on_create_result(Ok("4fa6".to_string()));
    assert_eq!(after_create, RunProgress::Starting { id: "4fa6".to_string() });
    let done = on_start_result("4fa6".to_string(), Ok(()));
    assert_eq!(
        done,
        RunProgress::Done { result: RunContainerResult { id: "4fa6".to_string() } }
    );
}

#[test]
fn run_surfaces_name_conflicts_instead_of_succeeding_twice() {
    let conflict = on_create_result(Err(
        "Conflict. The container name \"/web-edge1-0\" is already in use".to_string(),
    ));
    assert_eq!(
        conflict,
        RunProgress::Failed {
            error: "Conflict. The container name \"/web-edge1-0\" is already in use".to_string()
        }
    );
    let start_failed = on_start_result("4fa6".to_string(), Err("no such container".to_string()));
    assert_eq!(
        start_failed,
        RunProgress::Failed { error: "no such container".to_string() }
    );
}

#[test]
fn inspect_normalizes_every_field_and_the_status_token() {
    let result = normalize_inspect(runtime_response(Some("running")));
    assert_eq!(result.id.as_deref(), Some("4fa6e0f0c678"));
    assert_eq!(result.name.as_deref(), Some("/web-edge1-0"));
    assert_eq!(result.size_rw, Some(122880));
    assert_eq!(result.size_root_fs, Some(1113554));
    assert_eq!(
        result.args,
        Some(vec!["-g".to_string(), "daemon off;".to_string()])
    );
    let state = result.state.unwrap();
    assert_eq!(state.status, Some(ContainerStateStatusEnum::RUNNING));
    assert_eq!(state.running, Some(true));
    assert_eq!(state.pid, Some(4711));
}

#[test]
fn inspect_degrades_unrecognized_statuses_to_unknown() {
    let result = normalize_inspect(runtime_response(Some("hibernating")));
    let state = result.state.unwrap();
    assert_eq!(state.status, Some(ContainerStateStatusEnum::UNKNOWN));
}

#[test]
fn inspect_twice_without_state_change_is_identical() {
    let snapshot = runtime_response(Some("exited"));
    let first = normalize_inspect(snapshot.clone());
    let second = normalize_inspect(snapshot);
    assert_eq!(first, second);
}

#[test]
fn default_container_state_is_unobserved() {
    let state = ContainerState::default();
    assert!(state.status.is_none());
    assert!(state.running.is_none());
    assert!(state.pid.is_none());
    assert!(state.error.is_none());
}

#[test]
fn stats_reply_names_the_sampled_container() {
    let stats = ContainerStats {
        read: "2024-01-01T00:00:00Z".to_string(),
        preread: "2024-01-01T00:00:00Z".to_string(),
        num_procs: 2,
        pids_stats: PidsStats { current: Some(2), limit: None },
        network: None,
        networks: None,
        memory_stats: MemoryStats {
            stats: None,
            max_usage: Some(4096),
            usage: Some(2048),
            failcnt: None,
            limit: Some(1 << 30),
            commit: None,
            commit_peak: None,
            commitbytes: None,
            commitpeakbytes: None,
            privateworkingset: None,
        },
        blkio_stats: BlkioStats {
            io_service_bytes_recursive: None,
            io_serviced_recursive: None,
            io_queue_recursive: None,
            io_service_time_recursive: None,
            io_wait_time_recursive: None,
            io_merged_recursive: None,
            io_time_recursive: None,
            sectors_recursive: None,
        },
        cpu_stats: CPUStats {
            cpu_usage: CPUUsage {
                percpu_usage: None,
                usage_in_usermode: 10,
                total_usage: 20,
                usage_in_kernelmode: 10,
            },
            system_cpu_usage: Some(1000),
            online_cpus: Some(4),
            throttling_data: ThrottlingData {
                periods: 0,
                throttled_periods: 0,
                throttled_time: 0,
            },
        },
        precpu_stats: CPUStats {
            cpu_usage: CPUUsage {
                percpu_usage: None,
                usage_in_usermode: 5,
                total_usage: 10,
                usage_in_kernelmode: 5,
            },
            system_cpu_usage: Some(900),
            online_cpus: Some(4),
            throttling_data: ThrottlingData {
                periods: 0,
                throttled_periods: 0,
                throttled_time: 0,
            },
        },
        storage_stats: StorageStats {
            read_count_normalized: None,
            read_size_bytes: None,
            write_count_normalized: None,
            write_size_bytes: None,
        },
        name: "/web-edge1-0".to_string(),
        id: "4fa6e0f0c678".to_string(),
    };
    let reply = StatsContainerResult::from_stats(&stats);
    assert_eq!(reply.name, "/web-edge1-0");
}
