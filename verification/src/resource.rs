//! The declarative resource model: what should run, and how many replicas
//! of it. A resource is either a container (run from an image) or an
//! executable (started from a filesystem path).

use vstd::prelude::*;

verus! {

/// A named port a resource exposes.
#[derive(Debug, Clone, PartialEq, Eq)]
pub struct ResourcePort {
    pub name: String,
    pub port_number: String,
}

/// The two kinds of deployable resource.
#[derive(Debug, Clone, Copy, PartialEq, Eq, Structural)]
pub enum ResourceType {
    Executable,
    Container,
}

impl ResourceType {
    /// Reads a resource kind from its configuration keyword.
    pub fn from_string(resource_type: &String) -> (r: ResourceType)
        requires
            resource_type@ == "executable"@ || resource_type@ == "container"@,
        ensures
            r == (if resource_type@ == "executable"@ {
                ResourceType::Executable
            } else {
                ResourceType::Container
            }),
    {
        if crate::text::str_eq(resource_type.as_str(), "executable") {
            ResourceType::Executable
        } else {
            ResourceType::Container
        }
    }
}

/// A container resource: an image to run, with arguments, volumes and a
/// replica count.
#[derive(Debug, Clone, PartialEq, Eq)]
pub struct ContainerResource {
    pub name: String,
    pub image: String,
    pub ports: Vec<ResourcePort>,
    pub args: Vec<String>,
    pub volumes: Vec<String>,
    pub replica: i32,
}

/// An executable resource: a start command run in a directory, with a
/// replica count.
#[derive(Debug, Clone, PartialEq, Eq)]
pub struct ExecutableResource {
    pub name: String,
    pub path: String,
    pub start_command: String,
    pub ports: Vec<ResourcePort>,
    pub args: Vec<String>,
    pub replica: i32,
}

/// A standalone resource description, as a node agent's own config names it.
#[derive(Debug, Clone, PartialEq, Eq)]
pub struct ResourceConfig {
    pub name: String,
    pub resouce_type: ResourceType,
    pub path: String,
    pub image: String,
    pub ports: Vec<i32>,
    pub args: Vec<String>,
    pub volumes: Vec<String>,
    pub replica: i32,
}

} // verus!
