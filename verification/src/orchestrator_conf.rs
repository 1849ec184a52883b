//! The orchestrator's aggregate configuration: the fleet's servers, the
//! resources to run, and the mapping that places resources on servers.
//!
//! The tables are held as ordered lists keyed by the entries' own `name`
//! fields; validation reports duplicated keys. Mapping order is significant:
//! it decides dispatch order.

use vstd::prelude::*;

use crate::resource::{ContainerResource, ExecutableResource};
use crate::server::ServerConfig;
use crate::text::{contains_string, first_dup, has_dup, is_dup_name, names_view};

verus! {

/// Binds resources (by name) to the server a mapping entry belongs to,
/// optionally overriding the executable's path. An empty resource name
/// denotes no binding of that kind.
#[derive(Debug, Clone, PartialEq, Eq)]
pub struct ServerResourceMapping {
    pub executable: String,
    pub executable_path: String,
    pub container: String,
}

/// One mapping table entry: a server name and the resources placed on it,
/// in placement order.
#[derive(Debug, Clone, PartialEq, Eq)]
pub struct MappingEntry {
    pub server: String,
    pub resources: Vec<ServerResourceMapping>,
}

/// The orchestrator's whole declarative state, loaded once at startup and
/// read-only afterwards.
#[derive(Debug, Clone, PartialEq, Eq)]
pub struct OrchestratorConfig {
    pub servers: Vec<ServerConfig>,
    pub executable: Vec<ExecutableResource>,
    pub containers: Vec<ContainerResource>,
    pub mapping: Vec<MappingEntry>,
}

/// Why a configuration was rejected.
#[derive(Debug, Clone, PartialEq, Eq)]
pub enum ValidationError {
    /// A mapping entry names a server absent from `servers`.
    UnknownServerReference(String),
    /// A mapping entry names a resource absent from its table.
    UnknownResourceReference(String),
    /// A name keys two rows of one table.
    DuplicateResourceName(String),
    /// A resource asks for fewer than one replica.
    InvalidReplicaCount(String),
}

impl OrchestratorConfig {
    /// The server names, in table order.
    pub open spec fn server_names(self) -> Seq<Seq<char>> {
        self.servers@.map_values(|s: ServerConfig| s.name@)
    }

    /// The container resource names, in table order.
    pub open spec fn container_names(self) -> Seq<Seq<char>> {
        self.containers@.map_values(|c: ContainerResource| c.name@)
    }

    /// The executable resource names, in table order.
    pub open spec fn executable_names(self) -> Seq<Seq<char>> {
        self.executable@.map_values(|e: ExecutableResource| e.name@)
    }

    /// The mapping table's keys (server names), in mapping order.
    pub open spec fn mapping_keys(self) -> Seq<Seq<char>> {
        self.mapping@.map_values(|m: MappingEntry| m.server@)
    }

    /// Whether any table keys a name twice.
    pub open spec fn has_duplicate_name(self) -> bool {
        has_dup(self.server_names()) || has_dup(self.container_names()) || has_dup(
            self.executable_names(),
        ) || has_dup(self.mapping_keys())
    }

    /// Whether `n` is duplicated in some table.
    pub open spec fn is_duplicate_name(self, n: Seq<char>) -> bool {
        is_dup_name(self.server_names(), n) || is_dup_name(self.container_names(), n)
            || is_dup_name(self.executable_names(), n) || is_dup_name(self.mapping_keys(), n)
    }

    /// Whether `n` keys a mapping entry without naming a known server.
    pub open spec fn is_unknown_server(self, n: Seq<char>) -> bool {
        self.mapping_keys().contains(n) && !self.server_names().contains(n)
    }

    /// Whether some mapping entry names a server absent from `servers`.
    pub open spec fn has_unknown_server(self) -> bool {
        exists|i: int|
            0 <= i < self.mapping@.len() && !self.server_names().contains(
                self.mapping@[i].server@,
            )
    }

    /// Whether the mapping entry at `(i, j)` binds a resource name absent
    /// from its table.
    pub open spec fn binds_unknown_resource(self, i: int, j: int) -> bool {
        let m = self.mapping@[i].resources@[j];
        (m.container@.len() > 0 && !self.container_names().contains(m.container@)) || (
        m.executable@.len() > 0 && !self.executable_names().contains(m.executable@))
    }

    /// Whether the mapping entry at `(i, j)` binds `n` without `n` naming a
    /// known resource of the bound kind.
    pub open spec fn binds_name_unknown(self, i: int, j: int, n: Seq<char>) -> bool {
        let m = self.mapping@[i].resources@[j];
        (m.container@ == n && n.len() > 0 && !self.container_names().contains(n)) || (
        m.executable@ == n && n.len() > 0 && !self.executable_names().contains(n))
    }

    /// Whether `n` is bound by some mapping entry without naming a known
    /// resource of the bound kind.
    pub open spec fn is_unknown_resource(self, n: Seq<char>) -> bool {
        exists|i: int, j: int|
            0 <= i < self.mapping@.len() && 0 <= j < self.mapping@[i].resources@.len()
                && #[trigger] self.binds_name_unknown(i, j, n)
    }

    /// Whether some mapping entry binds a resource name absent from its
    /// table.
    pub open spec fn has_unknown_resource(self) -> bool {
        exists|i: int, j: int|
            0 <= i < self.mapping@.len() && 0 <= j < self.mapping@[i].resources@.len()
                && #[trigger] self.binds_unknown_resource(i, j)
    }

    /// Whether `n` names a resource whose replica count is below one.
    pub open spec fn is_bad_replica(self, n: Seq<char>) -> bool {
        (exists|i: int|
            0 <= i < self.containers@.len() && self.containers@[i].name@ == n
                && self.containers@[i].replica < 1) || (exists|i: int|
            0 <= i < self.executable@.len() && self.executable@[i].name@ == n
                && self.executable@[i].replica < 1)
    }

    /// Whether some resource asks for fewer than one replica.
    pub open spec fn has_bad_replica(self) -> bool {
        (exists|i: int| 0 <= i < self.containers@.len() && self.containers@[i].replica < 1) || (
        exists|i: int| 0 <= i < self.executable@.len() && self.executable@[i].replica < 1)
    }

    /// A configuration fit for dispatch: unique names, resolvable
    /// references, positive replica counts.
    pub open spec fn spec_valid(self) -> bool {
        !self.has_duplicate_name() && !self.has_unknown_server() && !self.has_unknown_resource()
            && !self.has_bad_replica()
    }

    /// What a reported error asserts of the configuration: each variant
    /// comes exactly when its violation is the first (in check order:
    /// duplicates, unknown servers, unknown resources, replica counts), and
    /// it carries a name that witnesses the violation.
    pub open spec fn spec_error_reported(self, e: ValidationError) -> bool {
        match e {
            ValidationError::DuplicateResourceName(n) => self.has_duplicate_name()
                && self.is_duplicate_name(n@),
            ValidationError::UnknownServerReference(n) => !self.has_duplicate_name()
                && self.has_unknown_server() && self.is_unknown_server(n@),
            ValidationError::UnknownResourceReference(n) => !self.has_duplicate_name()
                && !self.has_unknown_server() && self.has_unknown_resource()
                && self.is_unknown_resource(n@),
            ValidationError::InvalidReplicaCount(n) => !self.has_duplicate_name()
                && !self.has_unknown_server() && !self.has_unknown_resource()
                && self.has_bad_replica() && self.is_bad_replica(n@),
        }
    }

    /// Reports a duplicated table key, if any. Duplicated keys undermine
    /// every lookup, so they gate a whole configuration: no entry-skipping
    /// semantics exists for them.
    pub fn first_duplicate_name(&self) -> (r: Option<ValidationError>)
        ensures
            r is Some <==> self.has_duplicate_name(),
            (match r {
                Some(e) => e matches ValidationError::DuplicateResourceName(n)
                    && self.is_duplicate_name(n@),
                None => true,
            }),
    {
        let server_names = server_name_list(&self.servers);
        let container_names = container_name_list(&self.containers);
        let executable_names = executable_name_list(&self.executable);
        let mapping_keys = mapping_key_list(&self.mapping);
        if let Some(n) = first_dup(&server_names) {
            proof {
                crate::text::lemma_dup_name_implies_dup(self.server_names(), n@);
            }
            return Some(ValidationError::DuplicateResourceName(n));
        }
        if let Some(n) = first_dup(&container_names) {
            proof {
                crate::text::lemma_dup_name_implies_dup(self.container_names(), n@);
            }
            return Some(ValidationError::DuplicateResourceName(n));
        }
        if let Some(n) = first_dup(&executable_names) {
            proof {
                crate::text::lemma_dup_name_implies_dup(self.executable_names(), n@);
            }
            return Some(ValidationError::DuplicateResourceName(n));
        }
        if let Some(n) = first_dup(&mapping_keys) {
            proof {
                crate::text::lemma_dup_name_implies_dup(self.mapping_keys(), n@);
            }
            return Some(ValidationError::DuplicateResourceName(n));
        }
        None
    }

    /// Checks the configuration, reporting the first violation found in a
    /// fixed order: duplicated names, then unknown servers, then unknown
    /// resources, then replica counts.
    pub fn validate(&self) -> (r: Result<(), ValidationError>)
        ensures
            r is Ok <==> self.spec_valid(),
            (r matches Err(e) ==> self.spec_error_reported(e)),
    {
        if let Some(e) = self.first_duplicate_name() {
            return Err(e);
        }
        let server_names = server_name_list(&self.servers);
        let container_names = container_name_list(&self.containers);
        let executable_names = executable_name_list(&self.executable);
        let mut i: usize = 0;
        while i < self.mapping.len()
            invariant
                i <= self.mapping@.len(),
                !self.has_duplicate_name(),
                names_view(server_names@) == self.server_names(),
                names_view(container_names@) == self.container_names(),
                names_view(executable_names@) == self.executable_names(),
                forall|k: int|
                    0 <= k < i ==> self.server_names().contains(#[trigger] self.mapping@[k].server@),
            decreases self.mapping@.len() - i,
        {
            if !contains_string(&server_names, self.mapping[i].server.as_str()) {
                proof {
                    assert(self.mapping_keys()[i as int] == self.mapping@[i as int].server@);
                }
                return Err(ValidationError::UnknownServerReference(self.mapping[i].server.clone()));
            }
            i += 1;
        }
        let mut i: usize = 0;
        while i < self.mapping.len()
            invariant
                i <= self.mapping@.len(),
                !self.has_duplicate_name(),
                !self.has_unknown_server(),
                names_view(container_names@) == self.container_names(),
                names_view(executable_names@) == self.executable_names(),
                forall|k: int, l: int|
                    0 <= k < i && 0 <= l < self.mapping@[k].resources@.len()
                        ==> !#[trigger] self.binds_unknown_resource(k, l),
            decreases self.mapping@.len() - i,
        {
            let entry = &self.mapping[i];
            let mut j: usize = 0;
            while j < entry.resources.len()
                invariant
                    j <= entry.resources@.len(),
                    entry == &self.mapping@[i as int],
                    i < self.mapping@.len(),
                    !self.has_duplicate_name(),
                    !self.has_unknown_server(),
                    names_view(container_names@) == self.container_names(),
                    names_view(executable_names@) == self.executable_names(),
                    forall|l: int|
                        0 <= l < j ==> !#[trigger] self.binds_unknown_resource(i as int, l),
                decreases entry.resources@.len() - j,
            {
                let m = &entry.resources[j];
                if !m.container.as_str().is_empty() && !contains_string(
                    &container_names,
                    m.container.as_str(),
                ) {
                    proof {
                        assert(self.binds_name_unknown(i as int, j as int, m.container@));
                        assert(self.binds_unknown_resource(i as int, j as int));
                    }
                    return Err(ValidationError::UnknownResourceReference(m.container.clone()));
                }
                if !m.executable.as_str().is_empty() && !contains_string(
                    &executable_names,
                    m.executable.as_str(),
                ) {
                    proof {
                        assert(self.binds_name_unknown(i as int, j as int, m.executable@));
                        assert(self.binds_unknown_resource(i as int, j as int));
                    }
                    return Err(ValidationError::UnknownResourceReference(m.executable.clone()));
                }
                j += 1;
            }
            i += 1;
        }
        let mut i: usize = 0;
        while i < self.containers.len()
            invariant
                i <= self.containers@.len(),
                !self.has_duplicate_name(),
                !self.has_unknown_server(),
                !self.has_unknown_resource(),
                forall|k: int| 0 <= k < i ==> #[trigger] self.containers@[k].replica >= 1,
            decreases self.containers@.len() - i,
        {
            if self.containers[i].replica < 1 {
                return Err(ValidationError::InvalidReplicaCount(self.containers[i].name.clone()));
            }
            i += 1;
        }
        let mut i: usize = 0;
        while i < self.executable.len()
            invariant
                i <= self.executable@.len(),
                !self.has_duplicate_name(),
                !self.has_unknown_server(),
                !self.has_unknown_resource(),
                forall|k: int| 0 <= k < self.containers@.len() ==> #[trigger] self.containers@[k].replica >= 1,
                forall|k: int| 0 <= k < i ==> #[trigger] self.executable@[k].replica >= 1,
            decreases self.executable@.len() - i,
        {
            if self.executable[i].replica < 1 {
                return Err(ValidationError::InvalidReplicaCount(self.executable[i].name.clone()));
            }
            i += 1;
        }
        Ok(())
    }
}

pub(crate) fn server_name_list(v: &Vec<ServerConfig>) -> (r: Vec<String>)
    ensures
        names_view(r@) == v@.map_values(|s: ServerConfig| s.name@),
{
    let mut r: Vec<String> = Vec::new();
    let mut k: usize = 0;
    while k < v.len()
        invariant
            k <= v.len(),
            r@.len() == k,
            forall|i: int| 0 <= i < k ==> #[trigger] r@[i]@ == v@[i].name@,
        decreases v.len() - k,
    {
        r.push(v[k].name.clone());
        k += 1;
    }
    proof {
        assert(names_view(r@) =~= v@.map_values(|s: ServerConfig| s.name@));
    }
    r
}

pub(crate) fn container_name_list(v: &Vec<ContainerResource>) -> (r: Vec<String>)
    ensures
        names_view(r@) == v@.map_values(|c: ContainerResource| c.name@),
{
    let mut r: Vec<String> = Vec::new();
    let mut k: usize = 0;
    while k < v.len()
        invariant
            k <= v.len(),
            r@.len() == k,
            forall|i: int| 0 <= i < k ==> #[trigger] r@[i]@ == v@[i].name@,
        decreases v.len() - k,
    {
        r.push(v[k].name.clone());
        k += 1;
    }
    proof {
        assert(names_view(r@) =~= v@.map_values(|c: ContainerResource| c.name@));
    }
    r
}

pub(crate) fn executable_name_list(v: &Vec<ExecutableResource>) -> (r: Vec<String>)
    ensures
        names_view(r@) == v@.map_values(|e: ExecutableResource| e.name@),
{
    let mut r: Vec<String> = Vec::new();
    let mut k: usize = 0;
    while k < v.len()
        invariant
            k <= v.len(),
            r@.len() == k,
            forall|i: int| 0 <= i < k ==> #[trigger] r@[i]@ == v@[i].name@,
        decreases v.len() - k,
    {
        r.push(v[k].name.clone());
        k += 1;
    }
    proof {
        assert(names_view(r@) =~= v@.map_values(|e: ExecutableResource| e.name@));
    }
    r
}

pub(crate) fn mapping_key_list(v: &Vec<MappingEntry>) -> (r: Vec<String>)
    ensures
        names_view(r@) == v@.map_values(|m: MappingEntry| m.server@),
{
    let mut r: Vec<String> = Vec::new();
    let mut k: usize = 0;
    while k < v.len()
        invariant
            k <= v.len(),
            r@.len() == k,
            forall|i: int| 0 <= i < k ==> #[trigger] r@[i]@ == v@[i].server@,
        decreases v.len() - k,
    {
        r.push(v[k].server.clone());
        k += 1;
    }
    proof {
        assert(names_view(r@) =~= v@.map_values(|m: MappingEntry| m.server@));
    }
    r
}

} // verus!
