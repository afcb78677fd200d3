//! What the container runtime is asked to create, and what it reports.
//!
//! The docker client itself lives outside the library; a container request
//! is planned here as plain values that the client sends as they are.
use vstd::prelude::*;

use crate::dup::{push_deep, Dup};
use crate::env::EnvVars;
use crate::naming::{clean_aliases, exposed_ports, hostname_of, HealthCheckCommand};
use crate::text::{concat2, contains_seq, contains_str, owned, str_eq};

verus! {

/// Name of the network every managed container can also join.
pub open spec fn internal_network() -> Seq<char> {
    "containr-internal"@
}

/// `containr-internal`.
pub fn internal_network_name() -> (r: String)
    ensures
        r@ == internal_network(),
{
    owned("containr-internal")
}

/// A network a container joins, with its names on that network.
#[derive(Debug, Clone)]
pub struct DockerNetworkAttachment {
    pub name: String,
    pub aliases: Vec<String>,
}

impl Default for DockerNetworkAttachment {
    fn default() -> (r: Self)
        ensures
            r.name@.len() == 0,
            r.aliases@.len() == 0,
    {
        DockerNetworkAttachment { name: String::new(), aliases: Vec::new() }
    }
}

/// A host directory mounted into a container.
#[derive(Debug, Clone)]
pub struct DockerBindMount {
    pub source: String,
    pub target: String,
    pub read_only: bool,
}

impl DeepView for DockerBindMount {
    type V = (Seq<char>, Seq<char>, bool);

    open spec fn deep_view(&self) -> (Seq<char>, Seq<char>, bool) {
        (self.source@, self.target@, self.read_only)
    }
}

impl Dup for DockerBindMount {
    fn dup(&self) -> (r: Self) {
        DockerBindMount {
            source: self.source.dup(),
            target: self.target.dup(),
            read_only: self.read_only,
        }
    }
}

/// Whether a container runs, and its id.
#[derive(Debug, Clone)]
pub struct DockerContainerStatus {
    pub running: bool,
    pub container_id: Option<String>,
}

/// The runtime state of a container as docker reports it.
#[derive(Debug, Clone)]
pub struct DockerContainerState {
    pub status: String,
    pub health_status: Option<String>,
    pub started_at: Option<String>,
    pub finished_at: Option<String>,
    pub restart_count: u64,
}

/// A mount of a container as docker reports it.
#[derive(Debug, Clone)]
pub struct DockerMountInfo {
    pub mount_type: String,
    pub source: String,
    pub destination: String,
    pub name: Option<String>,
    pub rw: Option<bool>,
}

/// A container as listed.
#[derive(Debug, Clone)]
pub struct DockerContainerInfo {
    pub id: String,
    pub image: String,
    pub status: DockerContainerStatus,
}

/// What is needed to create and start a container.
pub struct DockerContainerConfig {
    pub id: String,
    pub image: String,
    pub env_vars: EnvVars,
    pub port: u16,
    pub additional_ports: Vec<u16>,
    pub command: Option<Vec<String>>,
    pub entrypoint: Option<Vec<String>>,
    pub working_dir: Option<String>,
    pub memory_limit: Option<u64>,
    /// Bit pattern of the CPU limit (a count of CPUs as an `f64`).
    pub cpu_limit_bits: Option<u64>,
    /// The network the container is created on.
    pub network: Option<DockerNetworkAttachment>,
    pub mounts: Vec<DockerBindMount>,
    /// Networks joined after creation, before the start.
    pub additional_networks: Vec<DockerNetworkAttachment>,
    pub health_check: Option<HealthCheckCommand>,
    /// "no", "always", "on-failure" or "unless-stopped".
    pub restart_policy: String,
}

/// Docker's restart policies.
#[derive(Debug, Clone, Copy, PartialEq, Eq, Structural)]
pub enum RestartPolicyName {
    No,
    Always,
    OnFailure,
    UnlessStopped,
}

/// The restart policy a configured name selects; unknown names restart
/// unless stopped.
pub open spec fn restart_policy_of(name: Seq<char>) -> RestartPolicyName {
    if name == "no"@ {
        RestartPolicyName::No
    } else if name == "always"@ {
        RestartPolicyName::Always
    } else if name == "on-failure"@ {
        RestartPolicyName::OnFailure
    } else {
        RestartPolicyName::UnlessStopped
    }
}

/// Reads a restart policy name.
pub fn restart_policy_kind(name: &str) -> (r: RestartPolicyName)
    ensures
        r == restart_policy_of(name@),
{
    if str_eq(name, "no") {
        RestartPolicyName::No
    } else if str_eq(name, "always") {
        RestartPolicyName::Always
    } else if str_eq(name, "on-failure") {
        RestartPolicyName::OnFailure
    } else {
        RestartPolicyName::UnlessStopped
    }
}

/// A docker health check: the shell test and its timing in nanoseconds.
pub struct HealthConfigPlan {
    pub test: Vec<String>,
    pub interval_nanos: i64,
    pub timeout_nanos: i64,
    pub retries: i64,
}

/// Words joined with single spaces.
pub open spec fn joined_words(words: Seq<Seq<char>>) -> Seq<char>
    decreases words.len(),
{
    if words.len() == 0 {
        Seq::empty()
    } else if words.len() == 1 {
        words[0]
    } else {
        joined_words(words.drop_last()) + " "@ + words.last()
    }
}

fn join_words(words: &Vec<String>) -> (r: String)
    ensures
        r@ == joined_words(words.deep_view()),
{
    let ghost w = words.deep_view();
    if words.len() == 0 {
        return String::new();
    }
    let mut out = words[0].dup();
    let mut i: usize = 1;
    proof {
        assert(w.take(1).len() == 1);
        assert(joined_words(w.take(1)) == w[0]);
    }
    while i < words.len()
        invariant
            1 <= i <= words@.len(),
            w == words.deep_view(),
            out@ == joined_words(w.take(i as int)),
        decreases words.len() - i,
    {
        proof {
            assert(w.take(i + 1).drop_last() =~= w.take(i as int));
        }
        out.append(" ");
        out.append(words[i].as_str());
        i = i + 1;
    }
    proof {
        assert(w.take(w.len() as int) =~= w);
    }
    out
}

/// The docker health check of a command: run through the shell, with the
/// intervals in nanoseconds.
pub fn health_config(check: &HealthCheckCommand) -> (r: HealthConfigPlan)
    ensures
        r.test.deep_view() == seq!["CMD-SHELL"@, joined_words(check.cmd.deep_view())],
        r.interval_nanos == check.interval_secs as int * 1_000_000_000,
        r.timeout_nanos == check.timeout_secs as int * 1_000_000_000,
        r.retries == check.retries as int,
{
    let mut test: Vec<String> = Vec::new();
    push_deep(&mut test, owned("CMD-SHELL"));
    push_deep(&mut test, join_words(&check.cmd));
    proof {
        assert(test.deep_view() =~= seq!["CMD-SHELL"@, joined_words(check.cmd.deep_view())]);
    }
    HealthConfigPlan {
        test,
        interval_nanos: (check.interval_secs as i64) * 1_000_000_000,
        timeout_nanos: (check.timeout_secs as i64) * 1_000_000_000,
        retries: check.retries as i64,
    }
}

/// A container creation request as docker receives it, but for the CPU
/// limit, which stays the configured bit pattern.
pub struct ContainerCreatePlan {
    pub name: String,
    pub image: String,
    pub hostname: String,
    /// `NAME=value` lines, one per variable.
    pub env: Vec<String>,
    pub exposed_ports: Option<Vec<String>>,
    pub cmd: Option<Vec<String>>,
    pub entrypoint: Option<Vec<String>>,
    pub working_dir: Option<String>,
    pub memory_bytes: Option<i64>,
    pub cpu_limit_bits: Option<u64>,
    pub restart_policy: RestartPolicyName,
    pub network_mode: Option<String>,
    /// The creation network and the container's aliases on it.
    pub endpoint: Option<(String, Option<Vec<String>>)>,
    pub mounts: Vec<DockerBindMount>,
    pub healthcheck: Option<HealthConfigPlan>,
    /// Labels; managed containers carry `containr=true`.
    pub labels: Vec<(String, String)>,
}

/// Plans the creation of a container from its configuration.
pub fn plan_container_create(config: &DockerContainerConfig) -> (r: ContainerCreatePlan)
    ensures
        r.name@ == config.id@,
        r.image@ == config.image@,
        r.hostname@ == hostname_of(config.id@),
        forall|line: Seq<char>|
            #![trigger r.env.deep_view().contains(line)]
            r.env.deep_view().contains(line) <==> exists|k: Seq<char>|
                config.env_vars@.contains_key(k) && line == k + "="@
                    + #[trigger] config.env_vars@[k],
        ({
            let ports = exposed_ports(config.port, config.additional_ports@);
            if ports.len() == 0 {
                r.exposed_ports is None
            } else {
                r.exposed_ports matches Some(p) && p.deep_view() == ports
            }
        }),
        r.cmd.deep_view() == config.command.deep_view(),
        r.entrypoint.deep_view() == config.entrypoint.deep_view(),
        r.working_dir.deep_view() == config.working_dir.deep_view(),
        r.memory_bytes == match config.memory_limit {
            Some(m) => Some(m as i64),
            None => None,
        },
        r.cpu_limit_bits == config.cpu_limit_bits,
        r.restart_policy == restart_policy_of(config.restart_policy@),
        match config.network {
            Some(n) => (r.network_mode matches Some(m) && m@ == n.name@) && (r.endpoint matches Some(
                e,
            ) && e.0@ == n.name@ && (if clean_aliases(n.aliases.deep_view()).len() == 0 {
                e.1 is None
            } else {
                e.1 matches Some(a) && a.deep_view() == clean_aliases(n.aliases.deep_view())
            })),
            None => r.network_mode is None && r.endpoint is None,
        },
        r.mounts.deep_view() == config.mounts.deep_view(),
        match config.health_check {
            Some(h) => (r.healthcheck matches Some(p) && p.test.deep_view() == seq![
                "CMD-SHELL"@,
                joined_words(h.cmd.deep_view()),
            ] && p.interval_nanos == h.interval_secs as int * 1_000_000_000 && p.timeout_nanos
                == h.timeout_secs as int * 1_000_000_000 && p.retries == h.retries as int),
            None => r.healthcheck is None,
        },
        r.labels@.len() == 1,
        r.labels@[0].0@ == "containr"@,
        r.labels@[0].1@ == "true"@,
{
    let ports = crate::naming::build_exposed_ports(config.port, &config.additional_ports);
    let exposed = if ports.len() == 0 {
        None
    } else {
        Some(ports)
    };
    let (network_mode, endpoint) = match &config.network {
        Some(n) => (
            Some(n.name.dup()),
            Some((n.name.dup(), crate::naming::endpoint_aliases(&n.aliases))),
        ),
        None => (None, None),
    };
    let healthcheck = match &config.health_check {
        Some(h) => Some(health_config(h)),
        None => None,
    };
    let memory_bytes = match config.memory_limit {
        Some(m) => Some(m as i64),
        None => None,
    };
    let mut labels: Vec<(String, String)> = Vec::new();
    labels.push((owned("containr"), owned("true")));
    ContainerCreatePlan {
        name: config.id.dup(),
        image: config.image.dup(),
        hostname: crate::naming::build_container_hostname(config.id.as_str()),
        env: config.env_vars.to_lines(),
        exposed_ports: exposed,
        cmd: config.command.dup(),
        entrypoint: config.entrypoint.dup(),
        working_dir: config.working_dir.dup(),
        memory_bytes,
        cpu_limit_bits: config.cpu_limit_bits,
        restart_policy: restart_policy_kind(config.restart_policy.as_str()),
        network_mode,
        endpoint,
        mounts: config.mounts.dup(),
        healthcheck,
        labels,
    }
}

/// What creating a container reports when the docker client runs as a stub:
/// the container as running, with a fixed id.
pub fn stub_container_info(config: &DockerContainerConfig) -> (r: DockerContainerInfo)
    ensures
        r.id@ == config.id@,
        r.image@ == config.image@,
        r.status.running,
        r.status.container_id.deep_view() == Some("stub-container-id"@),
{
    DockerContainerInfo {
        id: config.id.dup(),
        image: config.image.dup(),
        status: DockerContainerStatus {
            running: true,
            container_id: Some(owned("stub-container-id")),
        },
    }
}

/// The error text of a failed docker call: the action and the client's
/// message.
pub fn docker_failure(action: &str, detail: &str) -> (r: String)
    ensures
        r@ == "docker "@ + action@ + " failed: "@ + detail@,
{
    let mut r = concat2("docker ", action);
    r.append(" failed: ");
    r.append(detail);
    r
}

/// The health of a container as docker reports it.
#[derive(Debug, Clone, Copy, PartialEq, Eq, Structural)]
pub enum HealthStatus {
    Empty,
    NoCheck,
    Starting,
    Healthy,
    Unhealthy,
}

/// Whether a starting container is ready: healthy when it has a health
/// check, else running.
pub open spec fn ready_when(health: Option<HealthStatus>, running: bool) -> bool {
    match health {
        Some(HealthStatus::Healthy) => true,
        Some(HealthStatus::NoCheck) | None => running,
        _ => false,
    }
}

/// Whether a container inspected while starting is ready.
pub fn container_ready(health: Option<HealthStatus>, running: bool) -> (r: bool)
    ensures
        r == ready_when(health, running),
{
    match health {
        Some(HealthStatus::Healthy) => true,
        Some(HealthStatus::NoCheck) | None => running,
        _ => false,
    }
}

/// Whether a container counts as healthy: a failed inspection (the
/// container may be gone) and a container without a health check count as
/// healthy; otherwise its health check must report healthy.
pub fn container_healthy(inspected: Option<Option<HealthStatus>>) -> (r: bool)
    ensures
        r == match inspected {
            None => true,
            Some(None) | Some(Some(HealthStatus::NoCheck)) | Some(Some(HealthStatus::Healthy)) => true,
            _ => false,
        },
{
    match inspected {
        None => true,
        Some(None) => true,
        Some(Some(HealthStatus::NoCheck)) => true,
        Some(Some(HealthStatus::Healthy)) => true,
        _ => false,
    }
}

/// The error for a failed inspection of a starting container: the
/// container disappeared when docker says it does not exist.
pub fn inspect_failure_message(error: &str) -> (r: String)
    ensures
        r@ == if contains_seq(error@, "No such container"@) || contains_seq(error@, "404"@) {
            "container disappeared while starting"@
        } else {
            "docker inspect failed: "@ + error@
        },
{
    if contains_str(error, "No such container") || contains_str(error, "404") {
        owned("container disappeared while starting")
    } else {
        concat2("docker inspect failed: ", error)
    }
}

} // verus!
