//! The container configurations of service replicas and cron runs.
use vstd::prelude::*;

use crate::docker::{DockerBindMount, DockerContainerConfig, DockerNetworkAttachment};
use crate::dup::{push_deep, Dup};
use crate::env::{
    cron_env, cron_env_vars, replica_env, replica_env_vars, shared_env_vars, with_vars, EnvVars,
};
use crate::models::{ContainerService, Project};
use crate::naming::{
    build_health_check, container_name, cron_container_prefix, cron_prefix, replica_container,
    restart_policy_name, restart_policy_text, service_network_aliases,
};
use crate::text::{concat2, dec, join_path, owned, path_join, uuid_string, uuid_text};

verus! {

/// The host directory under which a service's named mounts live:
/// `<work_dir>/app-mounts/<app id>/<service id>`.
pub open spec fn mounts_root(work_dir: Seq<char>, app_id: u128, service_id: u128) -> Seq<char> {
    path_join(path_join(path_join(work_dir, "app-mounts"@), uuid_text(app_id)), uuid_text(service_id))
}

/// The bind mounts of a service: each named mount from its own directory
/// under the mounts root, in configured order.
pub open spec fn service_mounts(work_dir: Seq<char>, app_id: u128, service: ContainerService) -> Seq<
    (Seq<char>, Seq<char>, bool),
> {
    let root = mounts_root(work_dir, app_id, service.id);
    Seq::new(
        service.mounts@.len(),
        |i: int|
            (
                path_join(root, service.mounts@[i].name@),
                service.mounts@[i].target@,
                service.mounts@[i].read_only,
            ),
    )
}

/// The bind mounts of a service; their sources are the host directories to
/// create before the container starts.
pub fn build_service_mounts(work_dir: &str, app_id: u128, service: &ContainerService) -> (r: Vec<
    DockerBindMount,
>)
    ensures
        r.deep_view() == service_mounts(work_dir@, app_id, *service),
{
    let a = join_path(work_dir, "app-mounts");
    let app_text = uuid_string(app_id);
    let b = join_path(a.as_str(), app_text.as_str());
    let svc_text = uuid_string(service.id);
    let root = join_path(b.as_str(), svc_text.as_str());
    let ghost want = service_mounts(work_dir@, app_id, *service);
    let mut mounts: Vec<DockerBindMount> = Vec::new();
    let mut i: usize = 0;
    while i < service.mounts.len()
        invariant
            i <= service.mounts@.len(),
            root@ == mounts_root(work_dir@, app_id, service.id),
            want == service_mounts(work_dir@, app_id, *service),
            mounts.deep_view() == want.take(i as int),
        decreases service.mounts.len() - i,
    {
        let m = &service.mounts[i];
        let source = join_path(root.as_str(), m.name.as_str());
        push_deep(
            &mut mounts,
            DockerBindMount { source, target: m.target.dup(), read_only: m.read_only },
        );
        proof {
            assert(mounts.deep_view() =~= want.take(i + 1));
        }
        i = i + 1;
    }
    proof {
        assert(want.take(i as int) =~= want);
    }
    mounts
}

/// The configuration of one replica of a service in a deployment: named
/// after the app, service, replica and deployment; the app's variables,
/// then the replica's, then the service's; on the app network under the
/// service's aliases.
pub fn replica_container_config(
    app: &Project,
    service: &ContainerService,
    deployment_id: u128,
    image: &str,
    replica_index: u32,
    work_dir: &str,
) -> (r: DockerContainerConfig)
    ensures
        r.id@ == replica_container(app.id, service.name@, replica_index, deployment_id),
        r.image@ == image@,
        r.env_vars@ == replica_env(
            with_vars(Map::empty(), app.env_vars.deep_view()),
            service.deep_view(),
            replica_index,
        ),
        r.port == service.port,
        r.additional_ports@ == service.additional_ports@,
        r.command.deep_view() == service.command.deep_view(),
        r.entrypoint.deep_view() == service.entrypoint.deep_view(),
        r.working_dir.deep_view() == service.working_dir.deep_view(),
        r.memory_limit == service.memory_limit,
        r.cpu_limit_bits == service.cpu_limit_bits,
        r.network matches Some(n) && n.name@ == "containr-"@ + uuid_text(app.id)
            && n.aliases.deep_view() == seq![
            service.name@,
            service.name@ + "-"@ + dec(replica_index as nat),
        ],
        r.mounts.deep_view() == service_mounts(work_dir@, app.id, *service),
        r.additional_networks@.len() == 0,
        (service.health_check is None || service.port == 0) ==> r.health_check is None,
        (service.health_check is Some && service.port != 0) ==> (r.health_check matches Some(c)
            && c.cmd.deep_view() == seq![
            "curl"@,
            "-f"@,
            "http://localhost:"@ + dec(service.port as nat) + service.health_check->0.path@,
        ] && c.interval_secs == service.health_check->0.interval_secs && c.timeout_secs
            == service.health_check->0.timeout_secs && c.retries
            == service.health_check->0.retries),
        r.restart_policy@ == restart_policy_text(service.restart_policy),
{
    let shared = shared_env_vars(app);
    let mut additional_ports: Vec<u16> = Vec::new();
    let mut k: usize = 0;
    while k < service.additional_ports.len()
        invariant
            k <= service.additional_ports@.len(),
            additional_ports@ == service.additional_ports@.take(k as int),
        decreases service.additional_ports.len() - k,
    {
        additional_ports.push(service.additional_ports[k]);
        proof {
            assert(additional_ports@ =~= service.additional_ports@.take(k + 1));
        }
        k = k + 1;
    }
    proof {
        assert(service.additional_ports@.take(k as int) =~= service.additional_ports@);
    }
    DockerContainerConfig {
        id: container_name(app.id, service.name.as_str(), replica_index, deployment_id),
        image: owned(image),
        env_vars: replica_env_vars(&shared, service, replica_index),
        port: service.port,
        additional_ports,
        command: service.command.dup(),
        entrypoint: service.entrypoint.dup(),
        working_dir: service.working_dir.dup(),
        memory_limit: service.memory_limit,
        cpu_limit_bits: service.cpu_limit_bits,
        network: Some(
            DockerNetworkAttachment {
                name: app.network_name(),
                aliases: service_network_aliases(service.name.as_str(), replica_index),
            },
        ),
        mounts: build_service_mounts(work_dir, app.id, service),
        additional_networks: Vec::new(),
        health_check: build_health_check(&service.health_check, service.port),
        restart_policy: restart_policy_name(service.restart_policy),
    }
}

/// The configuration of one run of a cron service, named with the run's
/// time stamp: the shared variables, then SERVICE_NAME and CRON_SCHEDULE,
/// then the service's; no ports, no health check, never restarted.
pub fn cron_container_config(
    app: &Project,
    service: &ContainerService,
    image: &str,
    shared: &EnvVars,
    stamp: &str,
    work_dir: &str,
) -> (r: DockerContainerConfig)
    ensures
        r.id@ == cron_prefix(app.id, service.name@) + stamp@,
        r.image@ == image@,
        r.env_vars@ == cron_env(shared@, service.deep_view()),
        r.port == 0,
        r.additional_ports@.len() == 0,
        r.command.deep_view() == service.command.deep_view(),
        r.entrypoint.deep_view() == service.entrypoint.deep_view(),
        r.working_dir.deep_view() == service.working_dir.deep_view(),
        r.memory_limit == service.memory_limit,
        r.cpu_limit_bits == service.cpu_limit_bits,
        r.network matches Some(n) && n.name@ == "containr-"@ + uuid_text(app.id)
            && n.aliases.deep_view() == seq![service.name@ + "-cron"@],
        r.mounts.deep_view() == service_mounts(work_dir@, app.id, *service),
        r.additional_networks@.len() == 0,
        r.health_check is None,
        r.restart_policy@ == "no"@,
{
    let prefix = cron_container_prefix(app.id, service.name.as_str());
    let mut aliases: Vec<String> = Vec::new();
    push_deep(&mut aliases, concat2(service.name.as_str(), "-cron"));
    proof {
        assert(aliases.deep_view() =~= seq![service.name@ + "-cron"@]);
    }
    DockerContainerConfig {
        id: concat2(prefix.as_str(), stamp),
        image: owned(image),
        env_vars: cron_env_vars(shared, service),
        port: 0,
        additional_ports: Vec::new(),
        command: service.command.dup(),
        entrypoint: service.entrypoint.dup(),
        working_dir: service.working_dir.dup(),
        memory_limit: service.memory_limit,
        cpu_limit_bits: service.cpu_limit_bits,
        network: Some(DockerNetworkAttachment { name: app.network_name(), aliases }),
        mounts: build_service_mounts(work_dir, app.id, service),
        additional_networks: Vec::new(),
        health_check: None,
        restart_policy: owned("no"),
    }
}

} // verus!
