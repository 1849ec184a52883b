use orchestrator::orchestrator_conf::{
    MappingEntry, OrchestratorConfig, ServerResourceMapping, ValidationError,
};
use orchestrator::resource::{ContainerResource, ExecutableResource};
use orchestrator::server::ServerConfig;

fn server(name: &str) -> ServerConfig {
    ServerConfig {
        address: format!("{}.example", name),
        igniter_port: "8000".to_string(),
        name: name.to_string(),
    }
}

fn container(name: &str, image: &str, replica: i32) -> ContainerResource {
    ContainerResource {
        name: name.to_string(),
        image: image.to_string(),
        ports: vec![],
        args: vec![],
        volumes: vec![],
        replica,
    }
}

fn executable(name: &str, replica: i32) -> ExecutableResource {
    ExecutableResource {
        name: name.to_string(),
        path: "/srv".to_string(),
        start_command: "run.sh".to_string(),
        ports: vec![],
        args: vec![],
        replica,
    }
}

fn map_container(server: &str, container: &str) -> MappingEntry {
    MappingEntry {
        server: server.to_string(),
        resources: vec![ServerResourceMapping {
            executable: String::new(),
            executable_path: String::new(),
            container: container.to_string(),
        }],
    }
}

#[test]
fn valid_config_passes_validation() {
    let config = OrchestratorConfig {
        servers: vec![server("edge1"), server("edge2")],
        executable: vec![executable("worker", 1)],
        containers: vec![container("web", "nginx", 2)],
        mapping: vec![
            map_container("edge1", "web"),
            MappingEntry {
                server: "edge2".to_string(),
                resources: vec![ServerResourceMapping {
                    executable: "worker".to_string(),
                    executable_path: "/opt/worker".to_string(),
                    container: String::new(),
                }],
            },
        ],
    };
    assert_eq!(config.validate(), Ok(()));
}

#[test]
fn unknown_server_reference_fails_validation() {
    let config = OrchestratorConfig {
        servers: vec![server("edge1")],
        executable: vec![],
        containers: vec![container("web", "nginx", 1)],
        mapping: vec![map_container("ghost", "web")],
    };
    assert_eq!(
        config.validate(),
        Err(ValidationError::UnknownServerReference("ghost".to_string()))
    );
}

#[test]
fn unknown_resource_reference_fails_validation() {
    let config = OrchestratorConfig {
        servers: vec![server("edge1")],
        executable: vec![],
        containers: vec![container("web", "nginx", 1)],
        mapping: vec![map_container("edge1", "db")],
    };
    assert_eq!(
        config.validate(),
        Err(ValidationError::UnknownResourceReference("db".to_string()))
    );
}

#[test]
fn duplicated_resource_name_fails_validation() {
    let config = OrchestratorConfig {
        servers: vec![server("edge1")],
        executable: vec![],
        containers: vec![container("web", "nginx", 1), container("web", "httpd", 1)],
        mapping: vec![map_container("edge1", "web")],
    };
    assert_eq!(
        config.validate(),
        Err(ValidationError::DuplicateResourceName("web".to_string()))
    );
}

#[test]
fn nonpositive_replica_count_fails_validation() {
    let config = OrchestratorConfig {
        servers: vec![server("edge1")],
        executable: vec![],
        containers: vec![container("web", "nginx", 0)],
        mapping: vec![map_container("edge1", "web")],
    };
    assert_eq!(
        config.validate(),
        Err(ValidationError::InvalidReplicaCount("web".to_string()))
    );
}

#[test]
fn duplicates_are_reported_before_unknown_references() {
    let config = OrchestratorConfig {
        servers: vec![server("edge1"), server("edge1")],
        executable: vec![],
        containers: vec![container("web", "nginx", 1)],
        mapping: vec![map_container("ghost", "web")],
    };
    assert_eq!(
        config.validate(),
        Err(ValidationError::DuplicateResourceName("edge1".to_string()))
    );
}

#[test]
fn empty_resource_binding_is_no_reference() {
    let config = OrchestratorConfig {
        servers: vec![server("edge1")],
        executable: vec![],
        containers: vec![],
        mapping: vec![MappingEntry {
            server: "edge1".to_string(),
            resources: vec![ServerResourceMapping {
                executable: String::new(),
                executable_path: String::new(),
                container: String::new(),
            }],
        }],
    };
    assert_eq!(config.validate(), Ok(()));
}
