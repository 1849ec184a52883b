use std::collections::HashSet;

use orchestrator::dispatch::{
    derive_replica_name, find_server, init, resolve_target_servers, step, DispatchEvent,
    DispatchState,
};
use orchestrator::orchestrator_conf::{
    MappingEntry, OrchestratorConfig, ServerResourceMapping, ValidationError,
};
use orchestrator::resource::ContainerResource;
use orchestrator::server::ServerConfig;

fn server(name: &str) -> ServerConfig {
    ServerConfig {
        address: format!("{}.example", name),
        igniter_port: "8000".to_string(),
        name: name.to_string(),
    }
}

fn container(name: &str, image: &str, replica: i32) -> ContainerResource {
    ContainerResource {
        name: name.to_string(),
        image: image.to_string(),
        ports: vec![],
        args: vec![],
        volumes: vec![],
        replica,
    }
}

fn map_container(server: &str, container: &str) -> MappingEntry {
    MappingEntry {
        server: server.to_string(),
        resources: vec![ServerResourceMapping {
            executable: String::new(),
            executable_path: String::new(),
            container: container.to_string(),
        }],
    }
}

#[test]
fn derived_names_follow_the_documented_shape() {
    assert_eq!(derive_replica_name("web", "edge1", 0), "web-edge1-0");
    assert_eq!(derive_replica_name("web", "edge1", 1), "web-edge1-1");
    assert_eq!(derive_replica_name("db", "rack-a", 12), "db-rack-a-12");
    assert_eq!(derive_replica_name("x", "y", 105), "x-y-105");
}

#[test]
fn replica_indices_render_up_to_the_largest_value() {
    assert_eq!(
        derive_replica_name("a", "b", u64::MAX),
        "a-b-18446744073709551615"
    );
    assert_eq!(derive_replica_name("a", "b", 1000000), "a-b-1000000");
}

#[test]
fn dispatch_issues_servers_times_replicas_distinct_commands() {
    // Two servers, replica = 3: exactly 6 commands, pairwise-distinct names.
    let config = OrchestratorConfig {
        servers: vec![server("edge1"), server("edge2")],
        executable: vec![],
        containers: vec![container("web", "nginx", 3)],
        mapping: vec![map_container("edge1", "web"), map_container("edge2", "web")],
    };
    let pass = init(&config).unwrap();
    assert!(pass.skipped.is_empty());
    assert_eq!(pass.entries.len(), 6);
    let names: HashSet<String> = pass
        .entries
        .iter()
        .map(|e| e.command.container_name.clone())
        .collect();
    assert_eq!(names.len(), 6);
    for entry in &pass.entries {
        assert_eq!(entry.state, DispatchState::Pending);
        assert!(entry.error.is_none());
        assert_eq!(entry.command.resource, "web");
        assert_eq!(entry.command.image, "nginx");
    }
    // Replicas of one server stand consecutively, servers in mapping order.
    let expected = [
        ("edge1", 0, "web-edge1-0"),
        ("edge1", 1, "web-edge1-1"),
        ("edge1", 2, "web-edge1-2"),
        ("edge2", 0, "web-edge2-0"),
        ("edge2", 1, "web-edge2-1"),
        ("edge2", 2, "web-edge2-2"),
    ];
    for (entry, (srv, idx, name)) in pass.entries.iter().zip(expected) {
        assert_eq!(entry.command.server, srv);
        assert_eq!(entry.command.replica_index, idx);
        assert_eq!(entry.command.container_name, name);
    }
}

#[test]
fn partial_failure_is_recorded_per_replica() {
    // One resource `web` (nginx, replica = 2) mapped to `edge1`: two
    // commands; replica 0 succeeds, replica 1 hits a name conflict. The
    // report keeps one Running and one Failed entry, never an aggregate.
    let config = OrchestratorConfig {
        servers: vec![server("edge1")],
        executable: vec![],
        containers: vec![container("web", "nginx", 2)],
        mapping: vec![map_container("edge1", "web")],
    };
    let mut pass = init(&config).unwrap();
    assert_eq!(pass.entries.len(), 2);
    assert_eq!(pass.entries[0].command.container_name, "web-edge1-0");
    assert_eq!(pass.entries[1].command.container_name, "web-edge1-1");

    pass.mark_issued(0);
    assert_eq!(pass.entries[0].state, DispatchState::Dispatching);
    pass.record_success(0);

    pass.mark_issued(1);
    pass.record_failure(1, "name conflict: web-edge1-1 already exists".to_string());

    assert_eq!(pass.entries[0].state, DispatchState::Running);
    assert!(pass.entries[0].error.is_none());
    assert_eq!(pass.entries[1].state, DispatchState::Failed);
    assert_eq!(
        pass.entries[1].error.as_deref(),
        Some("name conflict: web-edge1-1 already exists")
    );
    assert_eq!(pass.entries[0].command.resource, "web");
    assert_eq!(pass.entries[1].command.resource, "web");
    assert_eq!(pass.entries[1].command.server, "edge1");

    // An operator may retry the failed replica; nothing happens on its own.
    pass.apply_event(1, DispatchEvent::Retry);
    assert_eq!(pass.entries[1].state, DispatchState::Pending);
    assert_eq!(pass.entries[0].state, DispatchState::Running);
}

#[test]
fn unmapped_resource_is_a_warning_not_an_error() {
    let config = OrchestratorConfig {
        servers: vec![server("edge1")],
        executable: vec![],
        containers: vec![container("web", "nginx", 1), container("db", "postgres", 1)],
        mapping: vec![map_container("edge1", "web")],
    };
    let pass = init(&config).unwrap();
    assert!(pass.skipped.is_empty());
    assert_eq!(pass.unmapped, vec!["db".to_string()]);
    // Dispatch for the mapped resource still proceeds.
    assert_eq!(pass.entries.len(), 1);
    assert_eq!(pass.entries[0].command.container_name, "web-edge1-0");
}

#[test]
fn unknown_server_entries_are_skipped_and_reported() {
    // One mapping entry names a server absent from `servers`; it is
    // reported and skipped, and the other entry is dispatched exactly as
    // if the invalid one were absent.
    let config = OrchestratorConfig {
        servers: vec![server("edge1")],
        executable: vec![],
        containers: vec![container("web", "nginx", 1), container("db", "postgres", 1)],
        mapping: vec![map_container("ghost", "web"), map_container("edge1", "db")],
    };
    let pass = init(&config).unwrap();
    assert_eq!(
        pass.skipped,
        vec![ValidationError::UnknownServerReference("ghost".to_string())]
    );
    assert_eq!(pass.entries.len(), 1);
    assert_eq!(pass.entries[0].command.container_name, "db-edge1-0");
    // `web` lost its only placement, so it is also warned about.
    assert_eq!(pass.unmapped, vec!["web".to_string()]);
}

#[test]
fn unknown_resource_bindings_are_skipped_and_reported() {
    let config = OrchestratorConfig {
        servers: vec![server("edge1")],
        executable: vec![],
        containers: vec![container("web", "nginx", 1)],
        mapping: vec![MappingEntry {
            server: "edge1".to_string(),
            resources: vec![
                ServerResourceMapping {
                    executable: String::new(),
                    executable_path: String::new(),
                    container: "nope".to_string(),
                },
                ServerResourceMapping {
                    executable: String::new(),
                    executable_path: String::new(),
                    container: "web".to_string(),
                },
            ],
        }],
    };
    let pass = init(&config).unwrap();
    assert_eq!(
        pass.skipped,
        vec![ValidationError::UnknownResourceReference("nope".to_string())]
    );
    assert_eq!(pass.entries.len(), 1);
    assert_eq!(pass.entries[0].command.container_name, "web-edge1-0");
    assert!(pass.unmapped.is_empty());
}

#[test]
fn bad_replica_resources_are_skipped_and_reported() {
    let config = OrchestratorConfig {
        servers: vec![server("edge1")],
        executable: vec![],
        containers: vec![container("web", "nginx", 0), container("db", "postgres", 1)],
        mapping: vec![MappingEntry {
            server: "edge1".to_string(),
            resources: vec![
                ServerResourceMapping {
                    executable: String::new(),
                    executable_path: String::new(),
                    container: "web".to_string(),
                },
                ServerResourceMapping {
                    executable: String::new(),
                    executable_path: String::new(),
                    container: "db".to_string(),
                },
            ],
        }],
    };
    let pass = init(&config).unwrap();
    assert_eq!(
        pass.skipped,
        vec![ValidationError::InvalidReplicaCount("web".to_string())]
    );
    assert_eq!(pass.entries.len(), 1);
    assert_eq!(pass.entries[0].command.container_name, "db-edge1-0");
    // Skipped for its replica count, not an unmapped warning.
    assert!(pass.unmapped.is_empty());
}

#[test]
fn duplicated_names_refuse_the_whole_pass() {
    // Duplicated table keys undermine every lookup; they have no
    // entry-skipping semantics and gate the configuration whole.
    let config = OrchestratorConfig {
        servers: vec![server("edge1"), server("edge1")],
        executable: vec![],
        containers: vec![container("web", "nginx", 1)],
        mapping: vec![map_container("edge1", "web")],
    };
    assert_eq!(
        init(&config),
        Err(ValidationError::DuplicateResourceName("edge1".to_string()))
    );
}

#[test]
fn lifecycle_follows_the_state_machine() {
    let (issue, succeed, fail, retry) = (
        DispatchEvent::Issue,
        DispatchEvent::Succeed,
        DispatchEvent::Fail,
        DispatchEvent::Retry,
    );
    let (pending, dispatching, running, failed) = (
        DispatchState::Pending,
        DispatchState::Dispatching,
        DispatchState::Running,
        DispatchState::Failed,
    );
    assert_eq!(step(pending, issue), dispatching);
    assert_eq!(step(dispatching, succeed), running);
    assert_eq!(step(dispatching, fail), failed);
    assert_eq!(step(failed, retry), pending);
    // Running is terminal.
    for e in [issue, succeed, fail, retry] {
        assert_eq!(step(running, e), running);
    }
    // Failed waits for an operator retry; nothing else moves it.
    for e in [issue, succeed, fail] {
        assert_eq!(step(failed, e), failed);
    }
    // Events that do not apply leave the state alone.
    assert_eq!(step(pending, succeed), pending);
    assert_eq!(step(pending, fail), pending);
    assert_eq!(step(dispatching, issue), dispatching);
}

#[test]
fn target_servers_keep_mapping_order_and_drop_unknown_servers() {
    let mapping = vec![
        map_container("edge2", "web"),
        map_container("edge1", "db"),
        map_container("edge3", "web"),
        map_container("ghost", "web"),
    ];
    let known = vec!["edge1".to_string(), "edge2".to_string(), "edge3".to_string()];
    let servers = resolve_target_servers(&mapping, &known, "web");
    assert_eq!(servers, vec!["edge2".to_string(), "edge3".to_string()]);
    let none = resolve_target_servers(&mapping, &known, "cache");
    assert!(none.is_empty());
}

#[test]
fn servers_are_found_by_name() {
    let servers = vec![server("edge1"), server("edge2")];
    let found = find_server(&servers, "edge2").unwrap();
    assert_eq!(found.address, "edge2.example");
    assert!(find_server(&servers, "ghost").is_none());
}
