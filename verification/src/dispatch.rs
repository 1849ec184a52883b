//! The placement/dispatch engine.
//!
//! A dispatch pass walks the container resources in table order, resolves
//! each resource's target servers from the mapping (mapping order decides
//! dispatch order), and plans `replica` run commands per (resource, server)
//! pair. Each command carries a deterministic per-replica container name
//! `{resource}-{server}-{replica_index}`, so replicas never collide across
//! servers. Replicas of one server stand consecutively in the plan (they
//! are dispatched serially); distinct servers' blocks may be driven
//! concurrently by the caller.
//!
//! Every (resource, server, replica) outcome is tracked in its own entry:
//! the pass never aggregates a resource's outcomes into one bit.
//!
//! Validation failures are handled at entry granularity: a mapping entry
//! naming an unknown server, a binding naming an unknown resource, or a
//! resource with a replica count below one is reported and skipped while
//! every other entry proceeds. Only duplicated table keys — which
//! undermine every lookup — refuse a configuration whole.

use vstd::arithmetic::div_mod::{
    lemma_fundamental_div_mod, lemma_fundamental_div_mod_converse, lemma_multiply_divide_lt,
};
use vstd::prelude::*;
use vstd::string::StringExecFns;

use crate::orchestrator_conf::{MappingEntry, OrchestratorConfig, ValidationError};
use crate::resource::ContainerResource;
use crate::server::ServerConfig;
use crate::text::{
    contains_string, dec_rep, lemma_dec_rep_injective, lemma_dec_rep_len, lemma_dec_rep_no_dash,
    names_view, str_eq, u64_to_dec,
};

verus! {

/// The name a replica's container instance runs under:
/// `{resource}-{server}-{replica_index}`. Within one resource the name
/// pins the (server, replica) pair; across resources, names can coincide
/// once resource or server names themselves contain dashes.
pub open spec fn derived_name(resource: Seq<char>, server: Seq<char>, idx: nat) -> Seq<char> {
    resource + seq!['-'] + server + seq!['-'] + dec_rep(idx)
}

/// Builds the derived per-replica container name.
pub fn derive_replica_name(resource: &str, server: &str, idx: u64) -> (r: String)
    ensures
        r@ == derived_name(resource@, server@, idx as nat),
{
    let mut s = String::from_str(resource);
    s.append("-");
    s.append(server);
    s.append("-");
    let d = u64_to_dec(idx);
    s.append(d.as_str());
    proof {
        reveal_strlit("-");
        assert("-"@.len() == 1);
        assert(s@ =~= derived_name(resource@, server@, idx as nat));
    }
    s
}

/// For one resource, the derived name determines the (server, replica)
/// pair: names of distinct pairs never collide.
pub proof fn lemma_derived_name_injective(
    resource: Seq<char>,
    s1: Seq<char>,
    i1: nat,
    s2: Seq<char>,
    i2: nat,
)
    requires
        derived_name(resource, s1, i1) == derived_name(resource, s2, i2),
    ensures
        s1 == s2,
        i1 == i2,
{
    lemma_dec_rep_no_dash(i1);
    lemma_dec_rep_no_dash(i2);
    lemma_dec_rep_len(i1);
    lemma_dec_rep_len(i2);
    crate::text::lemma_dash_split(
        resource + seq!['-'] + s1,
        dec_rep(i1),
        resource + seq!['-'] + s2,
        dec_rep(i2),
    );
    lemma_dec_rep_injective(i1, i2);
    assert(s1.len() == s2.len());
    assert(s1 =~= s2) by {
        assert forall|x: int| 0 <= x < s1.len() implies s1[x] == s2[x] by {
            assert((resource + seq!['-'] + s1)[resource.len() + 1 + x] == s1[x]);
            assert((resource + seq!['-'] + s2)[resource.len() + 1 + x] == s2[x]);
        }
    }
}

/// One run command the engine issues: which resource, on which server,
/// which replica, and under what instance name.
#[derive(Debug, PartialEq, Eq)]
pub struct DispatchCommand {
    pub resource: String,
    pub server: String,
    pub replica_index: u64,
    pub container_name: String,
    pub image: String,
}

/// What the command at offset `k` of a resource's block must be: replicas
/// of one server stand consecutively, so `k` decomposes as
/// `server_position * replica_count + replica_index`.
pub open spec fn cmd_ok(
    cmd: DispatchCommand,
    resource: Seq<char>,
    image: Seq<char>,
    servers: Seq<Seq<char>>,
    r: nat,
    k: int,
) -> bool {
    &&& cmd.resource@ == resource
    &&& cmd.image@ == image
    &&& cmd.server@ == servers[k / r as int]
    &&& cmd.replica_index as int == k % r as int
    &&& cmd.container_name@ == derived_name(resource, servers[k / r as int], (k % r as int) as nat)
}

/// A resource's whole command block: one command per (server, replica),
/// servers in mapping order, replicas serialized within a server.
pub open spec fn commands_ok(
    cmds: Seq<DispatchCommand>,
    resource: Seq<char>,
    image: Seq<char>,
    servers: Seq<Seq<char>>,
    r: nat,
) -> bool {
    &&& cmds.len() == servers.len() * r
    &&& forall|k: int|
        0 <= k < cmds.len() ==> #[trigger] cmd_ok(cmds[k], resource, image, servers, r, k)
}

/// Dispatch issues exactly `servers.len() * r` commands for a resource
/// mapped to pairwise-distinct servers, and their derived names are
/// pairwise distinct.
pub proof fn lemma_dispatch_names_distinct(
    cmds: Seq<DispatchCommand>,
    resource: Seq<char>,
    image: Seq<char>,
    servers: Seq<Seq<char>>,
    r: nat,
)
    requires
        r >= 1,
        commands_ok(cmds, resource, image, servers, r),
        forall|x: int, y: int| 0 <= x < y < servers.len() ==> servers[x] != servers[y],
    ensures
        cmds.len() == servers.len() * r,
        forall|k1: int, k2: int|
            0 <= k1 < k2 < cmds.len() ==> cmds[k1].container_name@ != cmds[k2].container_name@,
{
    assert forall|k1: int, k2: int| 0 <= k1 < k2 < cmds.len() implies cmds[k1].container_name@
        != cmds[k2].container_name@ by {
        let d = r as int;
        assert(cmd_ok(cmds[k1], resource, image, servers, r, k1));
        assert(cmd_ok(cmds[k2], resource, image, servers, r, k2));
        lemma_fundamental_div_mod(k1, d);
        lemma_fundamental_div_mod(k2, d);
        assert(servers.len() * r == r * servers.len()) by (nonlinear_arith);
        lemma_multiply_divide_lt(k1, d, servers.len() as int);
        lemma_multiply_divide_lt(k2, d, servers.len() as int);
        if cmds[k1].container_name@ == cmds[k2].container_name@ {
            lemma_derived_name_injective(
                resource,
                servers[k1 / d],
                (k1 % d) as nat,
                servers[k2 / d],
                (k2 % d) as nat,
            );
            if k1 / d != k2 / d {
                if k1 / d < k2 / d {
                    assert(servers[k1 / d] != servers[k2 / d]);
                } else {
                    assert(servers[k2 / d] != servers[k1 / d]);
                }
                assert(false);
            }
            assert(k1 == d * (k1 / d) + k1 % d);
            assert(k2 == d * (k2 / d) + k2 % d);
            assert(false);
        }
    }
}

/// Target servers are drawn from the mapping keys in order, so when the
/// mapping keys are pairwise distinct, so are every resource's target
/// servers; each target is one of the keys from position `i` onward.
proof fn lemma_target_servers_from_distinct(
    m: Seq<MappingEntry>,
    servers: Seq<Seq<char>>,
    name: Seq<char>,
    i: int,
)
    requires
        forall|p: int, q: int| 0 <= p < q < m.len() ==> m[p].server@ != m[q].server@,
    ensures
        forall|x: int, y: int|
            0 <= x < y < target_servers_from(m, servers, name, i).len() ==> target_servers_from(
                m,
                servers,
                name,
                i,
            )[x] != target_servers_from(m, servers, name, i)[y],
        forall|x: int|
            0 <= x < target_servers_from(m, servers, name, i).len() ==> exists|j: int|
                i <= j < m.len() && #[trigger] target_servers_from(m, servers, name, i)[x]
                    == m[j].server@,
    decreases m.len() - i,
{
    if 0 <= i < m.len() {
        lemma_target_servers_from_distinct(m, servers, name, i + 1);
        let t = target_servers_from(m, servers, name, i);
        let rest = target_servers_from(m, servers, name, i + 1);
        if servers.contains(m[i].server@) && entry_binds_container(m[i], name) {
            assert(t == seq![m[i].server@] + rest);
            assert forall|x: int| 0 <= x < t.len() implies exists|j: int|
                i <= j < m.len() && #[trigger] t[x] == m[j].server@ by {
                if x == 0 {
                    assert(t[x] == m[i].server@);
                } else {
                    assert(t[x] == rest[x - 1]);
                    let j = choose|j: int|
                        i + 1 <= j < m.len() && #[trigger] rest[x - 1] == m[j].server@;
                    assert(t[x] == m[j].server@);
                }
            }
            assert forall|x: int, y: int| 0 <= x < y < t.len() implies t[x] != t[y] by {
                if x == 0 {
                    assert(t[y] == rest[y - 1]);
                    let j = choose|j: int|
                        i + 1 <= j < m.len() && #[trigger] rest[y - 1] == m[j].server@;
                    assert(t[0] == m[i].server@ && t[y] == m[j].server@);
                } else {
                    assert(t[x] == rest[x - 1] && t[y] == rest[y - 1]);
                }
            }
        } else {
            assert(t == Seq::<Seq<char>>::empty() + rest);
            assert(t =~= rest);
        }
    }
}

/// For every configuration with unique table keys, the plan's block for
/// the container resource at table position `i` holds exactly its planned
/// number of commands (target servers × replica; none for a replica count
/// below one), and their derived names are pairwise distinct.
pub proof fn lemma_plan_names_distinct(cmds: Seq<DispatchCommand>, c: OrchestratorConfig, i: int)
    requires
        !c.has_duplicate_name(),
        0 <= i < c.containers@.len(),
        block_ok(cmds, c, i),
    ensures
        cmds.len() == resource_block_len(c, i),
        forall|k1: int, k2: int|
            0 <= k1 < k2 < cmds.len() ==> cmds[k1].container_name@ != cmds[k2].container_name@,
{
    let ct = c.containers@[i];
    if ct.replica < 1 {
        assert(cmds.len() == 0);
    } else {
        assert forall|p: int, q: int|
            0 <= p < q < c.mapping@.len() implies c.mapping@[p].server@
            != c.mapping@[q].server@ by {
            if c.mapping@[p].server@ == c.mapping@[q].server@ {
                assert(c.mapping_keys()[p] == c.mapping@[p].server@);
                assert(c.mapping_keys()[q] == c.mapping@[q].server@);
                assert(crate::text::has_dup(c.mapping_keys()));
            }
        }
        lemma_target_servers_from_distinct(c.mapping@, c.server_names(), ct.name@, 0);
        lemma_dispatch_names_distinct(
            cmds,
            ct.name@,
            ct.image@,
            target_servers(c, ct.name@),
            ct.replica as nat,
        );
    }
}

/// Whether a mapping entry binds the container resource called `name`.
/// An empty name never binds: in a mapping entry it denotes "no container".
pub open spec fn entry_binds_container(m: MappingEntry, name: Seq<char>) -> bool {
    name.len() > 0 && exists|j: int|
        0 <= j < m.resources@.len() && (#[trigger] m.resources@[j]).container@ == name
}

/// The servers a resource is dispatched to, in mapping order, from entry
/// `i` onward: entries that bind the resource and whose server is one of
/// `servers`. An entry naming a server outside `servers` is skipped (and
/// reported), never dispatched.
pub open spec fn target_servers_from(
    mapping: Seq<MappingEntry>,
    servers: Seq<Seq<char>>,
    name: Seq<char>,
    i: int,
) -> Seq<Seq<char>>
    decreases mapping.len() - i,
{
    if i < 0 || i >= mapping.len() {
        Seq::empty()
    } else {
        (if servers.contains(mapping[i].server@) && entry_binds_container(mapping[i], name) {
            seq![mapping[i].server@]
        } else {
            Seq::empty()
        }) + target_servers_from(mapping, servers, name, i + 1)
    }
}

/// The servers a resource is dispatched to, in mapping order.
pub open spec fn target_servers(c: OrchestratorConfig, name: Seq<char>) -> Seq<Seq<char>> {
    target_servers_from(c.mapping@, c.server_names(), name, 0)
}

fn entry_binds(m: &MappingEntry, name: &str) -> (b: bool)
    ensures
        b == entry_binds_container(*m, name@),
{
    if name.is_empty() {
        return false;
    }
    let mut j: usize = 0;
    while j < m.resources.len()
        invariant
            j <= m.resources@.len(),
            name@.len() > 0,
            forall|x: int| 0 <= x < j ==> (#[trigger] m.resources@[x]).container@ != name@,
        decreases m.resources@.len() - j,
    {
        if str_eq(m.resources[j].container.as_str(), name) {
            return true;
        }
        j += 1;
    }
    false
}

/// Resolves a resource's dispatch targets: the mapping keys, in order,
/// whose entries bind the resource and name a known server.
pub fn resolve_target_servers(
    mapping: &Vec<MappingEntry>,
    server_names: &Vec<String>,
    name: &str,
) -> (r: Vec<String>)
    ensures
        names_view(r@) == target_servers_from(mapping@, names_view(server_names@), name@, 0),
{
    let ghost sv = names_view(server_names@);
    let mut r: Vec<String> = Vec::new();
    let mut i: usize = 0;
    while i < mapping.len()
        invariant
            i <= mapping@.len(),
            sv == names_view(server_names@),
            names_view(r@) + target_servers_from(mapping@, sv, name@, i as int)
                == target_servers_from(mapping@, sv, name@, 0),
        decreases mapping@.len() - i,
    {
        let ghost prev = names_view(r@);
        let ghost ti = target_servers_from(mapping@, sv, name@, i as int);
        let ghost ti1 = target_servers_from(mapping@, sv, name@, i + 1);
        if contains_string(server_names, mapping[i].server.as_str()) && entry_binds(
            &mapping[i],
            name,
        ) {
            let ghost s = mapping@[i as int].server@;
            r.push(mapping[i].server.clone());
            proof {
                assert(names_view(r@) =~= prev + seq![s]);
                assert(ti == seq![s] + ti1);
                assert((prev + seq![s]) + ti1 =~= prev + (seq![s] + ti1));
            }
        } else {
            proof {
                assert(ti == Seq::<Seq<char>>::empty() + ti1);
                assert(Seq::<Seq<char>>::empty() + ti1 =~= ti1);
            }
        }
        i += 1;
    }
    proof {
        assert(names_view(r@) + target_servers_from(mapping@, sv, name@, mapping@.len() as int)
            =~= names_view(r@));
    }
    r
}

/// Looks a server up by name.
pub fn find_server<'a>(servers: &'a Vec<ServerConfig>, name: &str) -> (r: Option<
    &'a ServerConfig,
>)
    ensures
        (match r {
            Some(s) => servers@.contains(*s) && s.name@ == name@,
            None => forall|i: int| 0 <= i < servers@.len() ==> servers@[i].name@ != name@,
        }),
{
    let mut i: usize = 0;
    while i < servers.len()
        invariant
            i <= servers@.len(),
            forall|x: int| 0 <= x < i ==> servers@[x].name@ != name@,
        decreases servers@.len() - i,
    {
        if str_eq(servers[i].name.as_str(), name) {
            return Some(&servers[i]);
        }
        i += 1;
    }
    None
}

/// The per-(resource, server, replica) dispatch lifecycle. `Running` and
/// `Failed` are terminal; `Failed` leaves only through an explicit operator
/// retry, never automatically.
#[derive(Debug, Clone, Copy, PartialEq, Eq, Structural)]
pub enum DispatchState {
    Pending,
    Dispatching,
    Running,
    Failed,
}

/// What can happen to one dispatch entry.
#[derive(Debug, Clone, Copy, PartialEq, Eq, Structural)]
pub enum DispatchEvent {
    /// The run command was issued to the agent.
    Issue,
    /// The agent reported success.
    Succeed,
    /// The agent reported failure, or transport failed.
    Fail,
    /// An operator asked for the entry to be retried.
    Retry,
}

/// The transition function of the dispatch lifecycle. Events that do not
/// apply to a state leave it unchanged.
pub open spec fn step_spec(s: DispatchState, e: DispatchEvent) -> DispatchState {
    match (s, e) {
        (DispatchState::Pending, DispatchEvent::Issue) => DispatchState::Dispatching,
        (DispatchState::Dispatching, DispatchEvent::Succeed) => DispatchState::Running,
        (DispatchState::Dispatching, DispatchEvent::Fail) => DispatchState::Failed,
        (DispatchState::Failed, DispatchEvent::Retry) => DispatchState::Pending,
        _ => s,
    }
}

/// Applies one event to one entry's state.
pub fn step(s: DispatchState, e: DispatchEvent) -> (r: DispatchState)
    ensures
        r == step_spec(s, e),
{
    match (s, e) {
        (DispatchState::Pending, DispatchEvent::Issue) => DispatchState::Dispatching,
        (DispatchState::Dispatching, DispatchEvent::Succeed) => DispatchState::Running,
        (DispatchState::Dispatching, DispatchEvent::Fail) => DispatchState::Failed,
        (DispatchState::Failed, DispatchEvent::Retry) => DispatchState::Pending,
        (s, _) => s,
    }
}

/// `Running` is terminal: no event leaves it.
pub proof fn lemma_running_terminal(e: DispatchEvent)
    ensures
        step_spec(DispatchState::Running, e) == DispatchState::Running,
{
}

/// `Failed` is terminal up to an operator retry: only `Retry` leaves it,
/// and it leads back to `Pending`.
pub proof fn lemma_failed_needs_operator(e: DispatchEvent)
    ensures
        e != DispatchEvent::Retry ==> step_spec(DispatchState::Failed, e) == DispatchState::Failed,
        step_spec(DispatchState::Failed, DispatchEvent::Retry) == DispatchState::Pending,
{
}

/// One tracked outcome: a planned command, where its dispatch stands, and
/// the failure message if it failed.
#[derive(Debug, PartialEq, Eq)]
pub struct DispatchEntry {
    pub command: DispatchCommand,
    pub state: DispatchState,
    pub error: Option<String>,
}

/// A whole dispatch pass: one entry per planned (resource, server,
/// replica), the resources that no mapping entry places anywhere (a
/// warning, not an error), and the validation reports for the entries the
/// pass skipped while everything else proceeds.
#[derive(Debug, PartialEq, Eq)]
pub struct DispatchPass {
    pub entries: Vec<DispatchEntry>,
    pub unmapped: Vec<String>,
    pub skipped: Vec<ValidationError>,
}

/// The commands of a sequence of entries.
pub open spec fn entry_commands(entries: Seq<DispatchEntry>) -> Seq<DispatchCommand> {
    entries.map_values(|e: DispatchEntry| e.command)
}

/// How many commands the resource at table position `i` contributes: none
/// when its replica count is below one (reported, not dispatched), else
/// one per (target server, replica).
pub open spec fn resource_block_len(c: OrchestratorConfig, i: int) -> nat {
    if c.containers@[i].replica < 1 {
        0
    } else {
        target_servers(c, c.containers@[i].name@).len() * (c.containers@[i].replica as nat)
    }
}

/// The block of the resource at position `i`, as commands: empty for a
/// replica count below one.
pub open spec fn block_ok(cmds: Seq<DispatchCommand>, c: OrchestratorConfig, i: int) -> bool {
    if c.containers@[i].replica < 1 {
        cmds.len() == 0
    } else {
        commands_ok(
            cmds,
            c.containers@[i].name@,
            c.containers@[i].image@,
            target_servers(c, c.containers@[i].name@),
            c.containers@[i].replica as nat,
        )
    }
}

/// `cmds` is exactly the plan for the first `i` container resources:
/// resource blocks in table order, each block as `block_ok` says.
pub open spec fn covers(cmds: Seq<DispatchCommand>, c: OrchestratorConfig, i: int) -> bool
    decreases i,
{
    if i <= 0 {
        cmds.len() == 0
    } else {
        let b = resource_block_len(c, i - 1) as int;
        &&& cmds.len() >= b
        &&& covers(cmds.take(cmds.len() - b), c, i - 1)
        &&& block_ok(cmds.skip(cmds.len() - b), c, i - 1)
    }
}

/// Where the block of the resource at table position `i` starts in the
/// whole plan: the blocks of the resources before it lie in front of it.
pub open spec fn plan_offset(c: OrchestratorConfig, i: int) -> nat
    decreases i,
{
    if i <= 0 {
        0
    } else {
        plan_offset(c, i - 1) + resource_block_len(c, i - 1)
    }
}

/// Block starts never move backwards through the table.
proof fn lemma_plan_offset_mono(c: OrchestratorConfig, i: int, j: int)
    requires
        i <= j,
    ensures
        plan_offset(c, i) <= plan_offset(c, j),
    decreases j - i,
{
    if i < j {
        lemma_plan_offset_mono(c, i, j - 1);
    }
}

/// Whether `cmds` holds the resource-`i` block at its planned offset.
pub open spec fn block_at(cmds: Seq<DispatchCommand>, c: OrchestratorConfig, i: int) -> bool {
    block_ok(
        cmds.subrange(
            plan_offset(c, i) as int,
            plan_offset(c, i) + resource_block_len(c, i) as int,
        ),
        c,
        i,
    )
}

/// A plan that covers the first `n` resources is exactly their blocks laid
/// end to end: it has the planned total length, and each resource's block
/// stands at its planned offset.
pub proof fn lemma_covers_blocks(cmds: Seq<DispatchCommand>, c: OrchestratorConfig, n: int)
    requires
        0 <= n,
        covers(cmds, c, n),
    ensures
        cmds.len() == plan_offset(c, n),
        forall|i: int| 0 <= i < n ==> #[trigger] block_at(cmds, c, i),
    decreases n,
{
    if n > 0 {
        let b = resource_block_len(c, n - 1) as int;
        let prefix = cmds.take(cmds.len() - b);
        lemma_covers_blocks(prefix, c, n - 1);
        assert(cmds.len() == plan_offset(c, n));
        assert forall|i: int| 0 <= i < n implies #[trigger] block_at(cmds, c, i) by {
            let lo = plan_offset(c, i) as int;
            let hi = plan_offset(c, i) + resource_block_len(c, i) as int;
            if i < n - 1 {
                assert(block_at(prefix, c, i));
                lemma_plan_offset_mono(c, i + 1, n - 1);
                assert(hi <= prefix.len());
                assert(cmds.subrange(lo, hi) =~= prefix.subrange(lo, hi));
            } else {
                assert(cmds.subrange(lo, hi) =~= cmds.skip(cmds.len() - b));
            }
        }
    }
}

/// The dispatch plan of a configuration with unique table keys issues,
/// for the container resource at table position `i` with replica count R
/// and N target servers, exactly N×R run commands, and their derived
/// names are pairwise distinct.
pub proof fn lemma_pass_names_distinct(cmds: Seq<DispatchCommand>, c: OrchestratorConfig, i: int)
    requires
        !c.has_duplicate_name(),
        covers(cmds, c, c.containers@.len() as int),
        0 <= i < c.containers@.len(),
    ensures
        c.containers@[i].replica >= 1 ==> resource_block_len(c, i) == target_servers(
            c,
            c.containers@[i].name@,
        ).len() * (c.containers@[i].replica as nat),
        plan_offset(c, i) + resource_block_len(c, i) <= cmds.len(),
        forall|k1: int, k2: int|
            plan_offset(c, i) <= k1 < k2 < plan_offset(c, i) + resource_block_len(c, i)
                ==> cmds[k1].container_name@ != cmds[k2].container_name@,
{
    let n = c.containers@.len() as int;
    lemma_covers_blocks(cmds, c, n);
    assert(block_at(cmds, c, i));
    let lo = plan_offset(c, i) as int;
    let hi = plan_offset(c, i) + resource_block_len(c, i) as int;
    lemma_plan_offset_mono(c, i + 1, n);
    let blk = cmds.subrange(lo, hi);
    lemma_plan_names_distinct(blk, c, i);
    assert forall|k1: int, k2: int| lo <= k1 < k2 < hi implies cmds[k1].container_name@
        != cmds[k2].container_name@ by {
        assert(blk[k1 - lo] == cmds[k1]);
        assert(blk[k2 - lo] == cmds[k2]);
    }
}

/// The container resources whose replica count is in order but which no
/// (known-server) mapping entry places anywhere, in table order, from
/// position `i` onward. A resource skipped for its replica count is
/// reported as such instead.
pub open spec fn unmapped_from(c: OrchestratorConfig, i: int) -> Seq<Seq<char>>
    decreases c.containers@.len() - i,
{
    if i < 0 || i >= c.containers@.len() {
        Seq::empty()
    } else {
        (if c.containers@[i].replica >= 1 && target_servers(c, c.containers@[i].name@).len()
            == 0 {
            seq![c.containers@[i].name@]
        } else {
            Seq::empty()
        }) + unmapped_from(c, i + 1)
    }
}

/// The reports for mapping entries naming an unknown server, in mapping
/// order, from entry `i` onward. Such an entry is skipped whole: its
/// server cannot be reached.
pub open spec fn server_reports_from(c: OrchestratorConfig, i: int) -> Seq<ValidationError>
    decreases c.mapping@.len() - i,
{
    if i < 0 || i >= c.mapping@.len() {
        Seq::empty()
    } else {
        (if !c.server_names().contains(c.mapping@[i].server@) {
            seq![ValidationError::UnknownServerReference(c.mapping@[i].server)]
        } else {
            Seq::empty()
        }) + server_reports_from(c, i + 1)
    }
}

/// The reports one binding contributes: its container reference, then its
/// executable reference, each when non-empty and absent from its table.
/// Such a binding never matches a table resource, so it is skipped by
/// planning on its own; these reports make the skip visible.
pub open spec fn binding_reports(c: OrchestratorConfig, i: int, j: int) -> Seq<ValidationError> {
    let m = c.mapping@[i].resources@[j];
    (if m.container@.len() > 0 && !c.container_names().contains(m.container@) {
        seq![ValidationError::UnknownResourceReference(m.container)]
    } else {
        Seq::empty()
    }) + (if m.executable@.len() > 0 && !c.executable_names().contains(m.executable@) {
        seq![ValidationError::UnknownResourceReference(m.executable)]
    } else {
        Seq::empty()
    })
}

/// The unknown-resource reports from binding `(i, j)` onward, in mapping
/// and binding order.
pub open spec fn resource_reports_at(c: OrchestratorConfig, i: int, j: int) -> Seq<ValidationError>
    decreases c.mapping@.len() - i, c.mapping@[i].resources@.len() - j,
{
    if i < 0 || j < 0 || i >= c.mapping@.len() {
        Seq::empty()
    } else if j >= c.mapping@[i].resources@.len() {
        resource_reports_at(c, i + 1, 0)
    } else {
        binding_reports(c, i, j) + resource_reports_at(c, i, j + 1)
    }
}

/// The reports for container resources asking for fewer than one replica,
/// in table order, from position `i` onward.
pub open spec fn container_replica_reports_from(c: OrchestratorConfig, i: int) -> Seq<
    ValidationError,
>
    decreases c.containers@.len() - i,
{
    if i < 0 || i >= c.containers@.len() {
        Seq::empty()
    } else {
        (if c.containers@[i].replica < 1 {
            seq![ValidationError::InvalidReplicaCount(c.containers@[i].name)]
        } else {
            Seq::empty()
        }) + container_replica_reports_from(c, i + 1)
    }
}

/// The reports for executable resources asking for fewer than one replica,
/// in table order, from position `i` onward.
pub open spec fn executable_replica_reports_from(c: OrchestratorConfig, i: int) -> Seq<
    ValidationError,
>
    decreases c.executable@.len() - i,
{
    if i < 0 || i >= c.executable@.len() {
        Seq::empty()
    } else {
        (if c.executable@[i].replica < 1 {
            seq![ValidationError::InvalidReplicaCount(c.executable@[i].name)]
        } else {
            Seq::empty()
        }) + executable_replica_reports_from(c, i + 1)
    }
}

/// Everything one dispatch pass skips and reports, grouped by kind:
/// unknown server references (mapping order), then unknown resource
/// references (mapping and binding order), then replica counts below one
/// (containers before executables, table order).
pub open spec fn reported_violations(c: OrchestratorConfig) -> Seq<ValidationError> {
    server_reports_from(c, 0) + resource_reports_at(c, 0, 0) + container_replica_reports_from(
        c,
        0,
    ) + executable_replica_reports_from(c, 0)
}

proof fn lemma_server_reports_clean(c: OrchestratorConfig, i: int)
    requires
        0 <= i,
    ensures
        server_reports_from(c, i).len() == 0 <==> forall|k: int|
            i <= k < c.mapping@.len() ==> c.server_names().contains(
                #[trigger] c.mapping@[k].server@,
            ),
    decreases c.mapping@.len() - i,
{
    if i < c.mapping@.len() {
        lemma_server_reports_clean(c, i + 1);
        if !c.server_names().contains(c.mapping@[i].server@) {
            assert(server_reports_from(c, i).len() >= 1);
        } else {
            assert(server_reports_from(c, i).len() == server_reports_from(c, i + 1).len());
        }
    }
}

proof fn lemma_resource_reports_clean(c: OrchestratorConfig, i: int, j: int)
    requires
        0 <= i,
        0 <= j,
    ensures
        resource_reports_at(c, i, j).len() == 0 <==> forall|k: int, l: int|
            i <= k < c.mapping@.len() && 0 <= l < c.mapping@[k].resources@.len() && (k > i || l
                >= j) ==> !#[trigger] c.binds_unknown_resource(k, l),
    decreases c.mapping@.len() - i, c.mapping@[i].resources@.len() - j,
{
    if i >= c.mapping@.len() {
    } else if j >= c.mapping@[i].resources@.len() {
        lemma_resource_reports_clean(c, i + 1, 0);
    } else {
        lemma_resource_reports_clean(c, i, j + 1);
        if c.binds_unknown_resource(i, j) {
            assert(binding_reports(c, i, j).len() >= 1);
            assert(resource_reports_at(c, i, j).len() >= 1);
        } else {
            assert(binding_reports(c, i, j).len() == 0);
            assert(resource_reports_at(c, i, j).len() == resource_reports_at(c, i, j + 1).len());
        }
    }
}

proof fn lemma_container_replica_reports_clean(c: OrchestratorConfig, i: int)
    requires
        0 <= i,
    ensures
        container_replica_reports_from(c, i).len() == 0 <==> forall|k: int|
            i <= k < c.containers@.len() ==> #[trigger] c.containers@[k].replica >= 1,
    decreases c.containers@.len() - i,
{
    if i < c.containers@.len() {
        lemma_container_replica_reports_clean(c, i + 1);
        if c.containers@[i].replica < 1 {
            assert(container_replica_reports_from(c, i).len() >= 1);
        } else {
            assert(container_replica_reports_from(c, i).len()
                == container_replica_reports_from(c, i + 1).len());
        }
    }
}

proof fn lemma_executable_replica_reports_clean(c: OrchestratorConfig, i: int)
    requires
        0 <= i,
    ensures
        executable_replica_reports_from(c, i).len() == 0 <==> forall|k: int|
            i <= k < c.executable@.len() ==> #[trigger] c.executable@[k].replica >= 1,
    decreases c.executable@.len() - i,
{
    if i < c.executable@.len() {
        lemma_executable_replica_reports_clean(c, i + 1);
        if c.executable@[i].replica < 1 {
            assert(executable_replica_reports_from(c, i).len() >= 1);
        } else {
            assert(executable_replica_reports_from(c, i).len()
                == executable_replica_reports_from(c, i + 1).len());
        }
    }
}

/// The engine and whole-config validation agree: a pass reports no skipped
/// entry exactly when the configuration holds no unknown server reference,
/// no unknown resource reference and no replica count below one — so, for
/// a configuration with unique table keys, exactly when `validate`
/// accepts it.
pub proof fn lemma_nothing_skipped_iff_valid(c: OrchestratorConfig)
    ensures
        reported_violations(c).len() == 0 <==> (!c.has_unknown_server()
            && !c.has_unknown_resource() && !c.has_bad_replica()),
        !c.has_duplicate_name() ==> (reported_violations(c).len() == 0 <==> c.spec_valid()),
{
    lemma_server_reports_clean(c, 0);
    lemma_resource_reports_clean(c, 0, 0);
    lemma_container_replica_reports_clean(c, 0);
    lemma_executable_replica_reports_clean(c, 0);
}

/// Plans and tracks one dispatch pass. Only duplicated table keys refuse
/// a configuration outright: they undermine every lookup and have no
/// entry-skipping semantics. Every other violation — a mapping entry
/// naming an unknown server, a binding naming an unknown resource, a
/// resource asking for fewer than one replica — is reported in `skipped`
/// and its entries left out, while every other entry is planned exactly
/// as if the offending ones were absent. Every planned entry starts
/// `Pending` with no error; a resource whose replica count is in order
/// but which lands on no server is warned about in `unmapped`.
pub fn init(config: &OrchestratorConfig) -> (r: Result<DispatchPass, ValidationError>)
    ensures
        r is Ok <==> !config.has_duplicate_name(),
        (r matches Err(e) ==> config.spec_error_reported(e)),
        (r matches Ok(p) ==> {
            &&& covers(entry_commands(p.entries@), *config, config.containers@.len() as int)
            &&& forall|k: int|
                0 <= k < p.entries@.len() ==> (#[trigger] p.entries@[k]).state
                    == DispatchState::Pending && p.entries@[k].error is None
            &&& names_view(p.unmapped@) == unmapped_from(*config, 0)
            &&& p.skipped@ == reported_violations(*config)
        }),
{
    if let Some(e) = config.first_duplicate_name() {
        return Err(e);
    }
    let server_names = crate::orchestrator_conf::server_name_list(&config.servers);
    let container_names = crate::orchestrator_conf::container_name_list(&config.containers);
    let executable_names = crate::orchestrator_conf::executable_name_list(&config.executable);
    let skipped = collect_reports(config, &server_names, &container_names, &executable_names);
    let mut entries: Vec<DispatchEntry> = Vec::new();
    let mut unmapped: Vec<String> = Vec::new();
    let mut i: usize = 0;
    while i < config.containers.len()
        invariant
            i <= config.containers@.len(),
            names_view(server_names@) == config.server_names(),
            covers(entry_commands(entries@), *config, i as int),
            names_view(unmapped@) + unmapped_from(*config, i as int) == unmapped_from(*config, 0),
            forall|k: int|
                0 <= k < entries@.len() ==> (#[trigger] entries@[k]).state
                    == DispatchState::Pending && entries@[k].error is None,
        decreases config.containers@.len() - i,
    {
        let ghost c = *config;
        let ghost prev_entries = entries@;
        let ghost prev_unmapped = names_view(unmapped@);
        let ghost ui = unmapped_from(c, i as int);
        let ghost ui1 = unmapped_from(c, i + 1);
        let ct = &config.containers[i];
        if ct.replica < 1 {
            // Reported as InvalidReplicaCount; the resource contributes
            // no block and is not an unmapped warning.
            proof {
                assert(resource_block_len(c, i as int) == 0);
                assert(entry_commands(entries@).take(entry_commands(entries@).len() - 0)
                    =~= entry_commands(entries@));
                assert(entry_commands(entries@).skip(entry_commands(entries@).len() - 0)
                    =~= Seq::<DispatchCommand>::empty());
                assert(block_ok(Seq::<DispatchCommand>::empty(), c, i as int));
                assert(covers(entry_commands(entries@), c, i + 1));
                assert(ui == Seq::<Seq<char>>::empty() + ui1);
                assert(Seq::<Seq<char>>::empty() + ui1 =~= ui1);
            }
        } else {
            let servers = resolve_target_servers(&config.mapping, &server_names, ct.name.as_str());
            if servers.len() == 0 {
                unmapped.push(ct.name.clone());
                proof {
                    assert(resource_block_len(c, i as int) == 0) by {
                        let ts = target_servers(c, c.containers@[i as int].name@);
                        assert(names_view(servers@).len() == 0);
                        assert(ts.len() == 0);
                        assert(ts.len() * (c.containers@[i as int].replica as nat) == 0)
                            by (nonlinear_arith)
                            requires
                                ts.len() == 0,
                        ;
                    }
                    assert(entry_commands(entries@).take(entry_commands(entries@).len() - 0)
                        =~= entry_commands(entries@));
                    assert(entry_commands(entries@).skip(entry_commands(entries@).len() - 0)
                        =~= Seq::<DispatchCommand>::empty());
                    assert(block_ok(Seq::<DispatchCommand>::empty(), c, i as int));
                    assert(covers(entry_commands(entries@), c, i + 1));
                    assert(names_view(unmapped@) =~= prev_unmapped + seq![c.containers@[i as int].name@]);
                    assert(ui == seq![c.containers@[i as int].name@] + ui1);
                    assert((prev_unmapped + seq![c.containers@[i as int].name@]) + ui1 =~= prev_unmapped
                        + (seq![c.containers@[i as int].name@] + ui1));
                }
            } else {
                plan_resource_entries(ct, &servers, &mut entries);
                proof {
                    let b = resource_block_len(c, i as int) as int;
                    let cmds = entry_commands(entries@);
                    let prev_cmds = entry_commands(prev_entries);
                    assert(names_view(servers@) == target_servers(c, c.containers@[i as int].name@));
                    assert(cmds.len() == prev_entries.len() + b);
                    assert(cmds.take(cmds.len() - b) =~= prev_cmds) by {
                        assert(entries@.take(prev_entries.len() as int) == prev_entries);
                        assert forall|x: int| 0 <= x < prev_entries.len() implies cmds[x]
                            == prev_cmds[x] by {
                            assert(entries@.take(prev_entries.len() as int)[x] == entries@[x]);
                        }
                    }
                    assert(covers(cmds.take(cmds.len() - b), c, i as int));
                    assert(block_ok(cmds.skip(cmds.len() - b), c, i as int)) by {
                        assert(cmds.skip(prev_entries.len() as int) =~= entry_commands(
                            entries@.skip(prev_entries.len() as int),
                        ));
                    }
                    assert(covers(cmds, c, i + 1));
                    assert(ui == Seq::<Seq<char>>::empty() + ui1);
                    assert(Seq::<Seq<char>>::empty() + ui1 =~= ui1);
                    assert forall|k: int|
                        0 <= k < entries@.len() implies (#[trigger] entries@[k]).state
                        == DispatchState::Pending && entries@[k].error is None by {
                        if k < prev_entries.len() {
                            assert(entries@.take(prev_entries.len() as int)[k] == entries@[k]);
                            assert(prev_entries[k].state == DispatchState::Pending);
                        }
                    }
                }
            }
        }
        i += 1;
    }
    proof {
        assert(names_view(unmapped@) + unmapped_from(*config, config.containers@.len() as int)
            =~= names_view(unmapped@));
    }
    Ok(DispatchPass { entries, unmapped, skipped })
}

/// Gathers the reports for everything one pass skips: unknown server
/// references, unknown resource references, replica counts below one.
fn collect_reports(
    config: &OrchestratorConfig,
    server_names: &Vec<String>,
    container_names: &Vec<String>,
    executable_names: &Vec<String>,
) -> (r: Vec<ValidationError>)
    requires
        names_view(server_names@) == config.server_names(),
        names_view(container_names@) == config.container_names(),
        names_view(executable_names@) == config.executable_names(),
    ensures
        r@ == reported_violations(*config),
{
    let ghost c = *config;
    let ghost total1 = server_reports_from(c, 0);
    let ghost total2 = total1 + resource_reports_at(c, 0, 0);
    let ghost total3 = total2 + container_replica_reports_from(c, 0);
    let ghost total4 = total3 + executable_replica_reports_from(c, 0);
    let mut r: Vec<ValidationError> = Vec::new();
    let mut i: usize = 0;
    while i < config.mapping.len()
        invariant
            i <= config.mapping@.len(),
            c == *config,
            names_view(server_names@) == c.server_names(),
            r@ + server_reports_from(c, i as int) == total1,
        decreases config.mapping@.len() - i,
    {
        let ghost prev = r@;
        let ghost si = server_reports_from(c, i as int);
        let ghost si1 = server_reports_from(c, i + 1);
        if !contains_string(server_names, config.mapping[i].server.as_str()) {
            let ghost v = ValidationError::UnknownServerReference(c.mapping@[i as int].server);
            r.push(ValidationError::UnknownServerReference(config.mapping[i].server.clone()));
            proof {
                assert(r@ =~= prev + seq![v]);
                assert(si == seq![v] + si1);
                assert((prev + seq![v]) + si1 =~= prev + (seq![v] + si1));
            }
        } else {
            proof {
                assert(si == Seq::<ValidationError>::empty() + si1);
                assert(Seq::<ValidationError>::empty() + si1 =~= si1);
            }
        }
        i += 1;
    }
    proof {
        assert(r@ + server_reports_from(c, c.mapping@.len() as int) =~= r@);
        assert(r@ == total1);
    }
    let mut i: usize = 0;
    while i < config.mapping.len()
        invariant
            i <= config.mapping@.len(),
            c == *config,
            names_view(container_names@) == c.container_names(),
            names_view(executable_names@) == c.executable_names(),
            r@ + resource_reports_at(c, i as int, 0) == total2,
        decreases config.mapping@.len() - i,
    {
        let entry = &config.mapping[i];
        let mut j: usize = 0;
        while j < entry.resources.len()
            invariant
                j <= entry.resources@.len(),
                entry == &c.mapping@[i as int],
                i < c.mapping@.len(),
                c == *config,
                names_view(container_names@) == c.container_names(),
                names_view(executable_names@) == c.executable_names(),
                r@ + resource_reports_at(c, i as int, j as int) == total2,
            decreases entry.resources@.len() - j,
        {
            let ghost prev = r@;
            let ghost rj = resource_reports_at(c, i as int, j as int);
            let ghost rj1 = resource_reports_at(c, i as int, j + 1);
            let ghost br = binding_reports(c, i as int, j as int);
            let m = &entry.resources[j];
            if !m.container.as_str().is_empty() && !contains_string(
                container_names,
                m.container.as_str(),
            ) {
                r.push(ValidationError::UnknownResourceReference(m.container.clone()));
            }
            if !m.executable.as_str().is_empty() && !contains_string(
                executable_names,
                m.executable.as_str(),
            ) {
                r.push(ValidationError::UnknownResourceReference(m.executable.clone()));
            }
            proof {
                assert(r@ =~= prev + br);
                assert(rj == br + rj1);
                assert((prev + br) + rj1 =~= prev + (br + rj1));
            }
            j += 1;
        }
        proof {
            assert(resource_reports_at(c, i as int, entry.resources@.len() as int)
                == resource_reports_at(c, i + 1, 0));
        }
        i += 1;
    }
    proof {
        assert(resource_reports_at(c, c.mapping@.len() as int, 0)
            =~= Seq::<ValidationError>::empty());
        assert(r@ + Seq::<ValidationError>::empty() =~= r@);
        assert(r@ == total2);
    }
    let mut i: usize = 0;
    while i < config.containers.len()
        invariant
            i <= config.containers@.len(),
            c == *config,
            r@ + container_replica_reports_from(c, i as int) == total3,
        decreases config.containers@.len() - i,
    {
        let ghost prev = r@;
        let ghost ki = container_replica_reports_from(c, i as int);
        let ghost ki1 = container_replica_reports_from(c, i + 1);
        if config.containers[i].replica < 1 {
            let ghost v = ValidationError::InvalidReplicaCount(c.containers@[i as int].name);
            r.push(ValidationError::InvalidReplicaCount(config.containers[i].name.clone()));
            proof {
                assert(r@ =~= prev + seq![v]);
                assert(ki == seq![v] + ki1);
                assert((prev + seq![v]) + ki1 =~= prev + (seq![v] + ki1));
            }
        } else {
            proof {
                assert(ki == Seq::<ValidationError>::empty() + ki1);
                assert(Seq::<ValidationError>::empty() + ki1 =~= ki1);
            }
        }
        i += 1;
    }
    proof {
        assert(r@ + container_replica_reports_from(c, c.containers@.len() as int) =~= r@);
        assert(r@ == total3);
    }
    let mut i: usize = 0;
    while i < config.executable.len()
        invariant
            i <= config.executable@.len(),
            c == *config,
            r@ + executable_replica_reports_from(c, i as int) == total4,
        decreases config.executable@.len() - i,
    {
        let ghost prev = r@;
        let ghost ei = executable_replica_reports_from(c, i as int);
        let ghost ei1 = executable_replica_reports_from(c, i + 1);
        if config.executable[i].replica < 1 {
            let ghost v = ValidationError::InvalidReplicaCount(c.executable@[i as int].name);
            r.push(ValidationError::InvalidReplicaCount(config.executable[i].name.clone()));
            proof {
                assert(r@ =~= prev + seq![v]);
                assert(ei == seq![v] + ei1);
                assert((prev + seq![v]) + ei1 =~= prev + (seq![v] + ei1));
            }
        } else {
            proof {
                assert(ei == Seq::<ValidationError>::empty() + ei1);
                assert(Seq::<ValidationError>::empty() + ei1 =~= ei1);
            }
        }
        i += 1;
    }
    proof {
        assert(r@ + executable_replica_reports_from(c, c.executable@.len() as int) =~= r@);
        assert(r@ == total4);
        assert(total4 == reported_violations(c));
    }
    r
}

/// Appends the command block of one resource: `replica` entries per target
/// server, server-major, every entry `Pending`.
fn plan_resource_entries(
    ct: &ContainerResource,
    servers: &Vec<String>,
    entries: &mut Vec<DispatchEntry>,
)
    requires
        ct.replica >= 1,
    ensures
        final(entries)@.len() == old(entries)@.len() + names_view(servers@).len() * (
        ct.replica as nat),
        final(entries)@.take(old(entries)@.len() as int) == old(entries)@,
        commands_ok(
            entry_commands(final(entries)@.skip(old(entries)@.len() as int)),
            ct.name@,
            ct.image@,
            names_view(servers@),
            ct.replica as nat,
        ),
        forall|k: int|
            old(entries)@.len() <= k < final(entries)@.len()
                ==> (#[trigger] final(entries)@[k]).state == DispatchState::Pending && final(entries)@[k].error is None,
{
    let ghost base = entries@.len() as int;
    let ghost sv = names_view(servers@);
    let ghost r = ct.replica as nat;
    let reps: u64 = ct.replica as u64;
    proof {
        assert(reps as nat == r);
    }
    let mut j: usize = 0;
    while j < servers.len()
        invariant
            j <= servers@.len(),
            ct.replica >= 1,
            reps as nat == r,
            r == ct.replica as nat,
            sv == names_view(servers@),
            base == old(entries)@.len() as int,
            entries@.len() == base + j * (reps as nat),
            entries@.take(base) == old(entries)@,
            forall|k: int|
                base <= k < entries@.len() ==> cmd_ok(
                    (#[trigger] entries@[k]).command,
                    ct.name@,
                    ct.image@,
                    sv,
                    r,
                    k - base,
                ),
            forall|k: int|
                base <= k < entries@.len() ==> (#[trigger] entries@[k]).state
                    == DispatchState::Pending && entries@[k].error is None,
        decreases servers@.len() - j,
    {
        let mut rep: u64 = 0;
        while rep < reps
            invariant
                j < servers@.len(),
                rep <= reps,
                ct.replica >= 1,
                reps as nat == r,
                r == ct.replica as nat,
                sv == names_view(servers@),
                base == old(entries)@.len() as int,
                entries@.len() == base + j * (reps as nat) + rep,
                entries@.take(base) == old(entries)@,
                forall|k: int|
                    base <= k < entries@.len() ==> cmd_ok(
                        (#[trigger] entries@[k]).command,
                        ct.name@,
                        ct.image@,
                        sv,
                        r,
                        k - base,
                    ),
                forall|k: int|
                    base <= k < entries@.len() ==> (#[trigger] entries@[k]).state
                        == DispatchState::Pending && entries@[k].error is None,
            decreases reps - rep,
        {
            let ghost before = entries@;
            let name = derive_replica_name(ct.name.as_str(), servers[j].as_str(), rep);
            let cmd = DispatchCommand {
                resource: ct.name.clone(),
                server: servers[j].clone(),
                replica_index: rep,
                container_name: name,
                image: ct.image.clone(),
            };
            entries.push(DispatchEntry { command: cmd, state: DispatchState::Pending, error: None });
            proof {
                let p = base + j * (reps as nat) + rep;
                lemma_fundamental_div_mod_converse(
                    p - base,
                    r as int,
                    j as int,
                    rep as int,
                );
                assert(sv[(p - base) / r as int] == servers@[j as int]@);
                assert(cmd_ok(entries@[p].command, ct.name@, ct.image@, sv, r, p - base));
                assert(entries@.take(base) =~= before.take(base));
            }
            rep += 1;
        }
        proof {
            assert(base + j * (reps as nat) + reps == base + (j + 1) * (reps as nat))
                by (nonlinear_arith);
        }
        j += 1;
    }
    proof {
        let cmds = entry_commands(entries@.skip(base));
        assert(entries@.len() == base + servers@.len() * r) by {
            assert(j == servers@.len());
        }
        assert(cmds.len() == sv.len() * r);
        assert forall|k: int| 0 <= k < cmds.len() implies #[trigger] cmd_ok(
            cmds[k],
            ct.name@,
            ct.image@,
            sv,
            r,
            k,
        ) by {
            assert(entries@.skip(base)[k] == entries@[base + k]);
            assert(cmd_ok(entries@[base + k].command, ct.name@, ct.image@, sv, r, k));
        }
    }
}

impl DispatchPass {
    /// Applies one lifecycle event to the entry at `k`, leaving every other
    /// field and entry unchanged.
    pub fn apply_event(&mut self, k: usize, event: DispatchEvent)
        requires
            k < old(self).entries@.len(),
        ensures
            final(self).entries@.len() == old(self).entries@.len(),
            final(self).entries@[k as int].state == step_spec(
                old(self).entries@[k as int].state,
                event,
            ),
            final(self).entries@[k as int].command == old(self).entries@[k as int].command,
            final(self).entries@[k as int].error == old(self).entries@[k as int].error,
            forall|x: int|
                0 <= x < old(self).entries@.len() && x != k ==> final(self).entries@[x] == old(self).entries@[x],
            final(self).unmapped == old(self).unmapped,
    {
        let s = self.entries[k].state;
        self.entries[k].state = step(s, event);
    }

    /// Records that the entry at `k` was issued to its agent.
    pub fn mark_issued(&mut self, k: usize)
        requires
            k < old(self).entries@.len(),
        ensures
            final(self).entries@.len() == old(self).entries@.len(),
            final(self).entries@[k as int].state == step_spec(
                old(self).entries@[k as int].state,
                DispatchEvent::Issue,
            ),
            final(self).entries@[k as int].command == old(self).entries@[k as int].command,
            final(self).entries@[k as int].error == old(self).entries@[k as int].error,
            forall|x: int|
                0 <= x < old(self).entries@.len() && x != k ==> final(self).entries@[x] == old(self).entries@[x],
            final(self).unmapped == old(self).unmapped,
    {
        self.apply_event(k, DispatchEvent::Issue);
    }

    /// Records an agent-reported success for the entry at `k`.
    pub fn record_success(&mut self, k: usize)
        requires
            k < old(self).entries@.len(),
        ensures
            final(self).entries@.len() == old(self).entries@.len(),
            final(self).entries@[k as int].state == step_spec(
                old(self).entries@[k as int].state,
                DispatchEvent::Succeed,
            ),
            final(self).entries@[k as int].command == old(self).entries@[k as int].command,
            final(self).entries@[k as int].error is None,
            forall|x: int|
                0 <= x < old(self).entries@.len() && x != k ==> final(self).entries@[x] == old(self).entries@[x],
            final(self).unmapped == old(self).unmapped,
    {
        let s = self.entries[k].state;
        self.entries[k].state = step(s, DispatchEvent::Succeed);
        self.entries[k].error = None;
    }

    /// Records a failure (the agent's message, or a transport error) for
    /// the entry at `k`.
    pub fn record_failure(&mut self, k: usize, error: String)
        requires
            k < old(self).entries@.len(),
        ensures
            final(self).entries@.len() == old(self).entries@.len(),
            final(self).entries@[k as int].state == step_spec(
                old(self).entries@[k as int].state,
                DispatchEvent::Fail,
            ),
            final(self).entries@[k as int].command == old(self).entries@[k as int].command,
            final(self).entries@[k as int].error == Some(error),
            forall|x: int|
                0 <= x < old(self).entries@.len() && x != k ==> final(self).entries@[x] == old(self).entries@[x],
            final(self).unmapped == old(self).unmapped,
    {
        let s = self.entries[k].state;
        self.entries[k].state = step(s, DispatchEvent::Fail);
        self.entries[k].error = Some(error);
    }
}

} // verus!
