//! The decisions of rolling out a deployment: which old containers give way
//! and when, how each replica is configured, which image each service runs,
//! and the deployment as recorded once every replica runs.
use vstd::prelude::*;

use crate::docker::{internal_network, DockerContainerConfig, DockerNetworkAttachment};
use crate::dup::{push_deep, Dup};
use crate::env::{replica_env, replica_env_vars, shared_env_vars, with_vars};
use crate::ids::Timestamp;
use crate::launch::{build_service_mounts, service_mounts};
use crate::models::{
    ContainerService, Deployment, DeploymentModel, DeploymentStatus, Project, RolloutStrategy,
    ServiceDeployment, ServiceDeploymentModel,
};
use crate::naming::{
    build_health_check, container_name, replica_container, restart_policy_name, restart_policy_text,
    service_network_aliases,
};
use crate::deploy::{commit_prefix, commit_prefix_text, splits_char_in_commit};
use crate::records::{DeploymentJob, DeploymentSource};
use crate::text::{concat2, concat3, dec, join_path, owned, path_join, str_eq, uuid_string, uuid_text};

verus! {

/// The container a previous deployment ran for a replica: the last replica
/// deployment recorded for that service and index with a container.
pub open spec fn old_container(sds: Seq<ServiceDeploymentModel>, service_id: u128, replica: u32) -> Option<
    Seq<char>,
>
    decreases sds.len(),
{
    if sds.len() == 0 {
        None
    } else if sds.last().service_id == service_id && sds.last().replica_index == replica
        && sds.last().container_id is Some {
        sds.last().container_id
    } else {
        old_container(sds.drop_last(), service_id, replica)
    }
}

/// The old container of a replica, if the previous deployment ran one.
pub fn old_container_of(previous: &Option<Deployment>, service_id: u128, replica: u32) -> (r: Option<
    String,
>)
    ensures
        r.deep_view() == match previous {
            Some(p) => old_container(p.service_deployments.deep_view(), service_id, replica),
            None => None,
        },
{
    let p = match previous {
        Some(p) => p,
        None => return None,
    };
    let sds = &p.service_deployments;
    let ghost all = sds.deep_view();
    let mut i: usize = sds.len();
    proof {
        assert(all.take(i as int) =~= all);
    }
    while i > 0
        invariant
            i <= all.len(),
            all == sds.deep_view(),
            match previous {
                Some(q) => q.service_deployments.deep_view() == all,
                None => false,
            },
            old_container(all, service_id, replica) == old_container(all.take(i as int), service_id, replica),
        decreases i,
    {
        let ghost t = all.take(i as int);
        proof {
            assert(t.drop_last() =~= all.take(i - 1));
            assert(t.last() == all[i - 1]);
        }
        let sd = &sds[i - 1];
        if sd.service_id == service_id && sd.replica_index == replica {
            match &sd.container_id {
                Some(c) => {
                    return Some(c.dup());
                },
                None => {},
            }
        }
        i = i - 1;
    }
    None
}

/// The previous deployment's own container, stopped and removed before
/// any replica starts under a stop-first rollout.
pub fn legacy_stop_first(strategy: RolloutStrategy, previous: &Option<Deployment>) -> (r: Option<
    String,
>)
    ensures
        r.deep_view() == match (strategy, previous) {
            (RolloutStrategy::StopFirst, Some(p)) => p.container_id.deep_view(),
            _ => None,
        },
{
    match strategy {
        RolloutStrategy::StopFirst => match previous {
            Some(p) => p.container_id.dup(),
            None => None,
        },
        RolloutStrategy::StartFirst => None,
    }
}

/// What the rollout of one replica learns, in the order it learns it.
pub enum ReplicaEvent {
    /// The replica's turn has come.
    Begin,
    /// Its new container was created and started.
    Created,
    /// Its new container did or did not report healthy within the wait.
    HealthChecked { healthy: bool },
}

/// What the rollout of one replica does next.
pub enum ReplicaAction {
    /// Stop and remove the replica's old container, then create the new one.
    RetireThenCreate { old: String },
    /// Create and start the new container.
    Create,
    /// Wait up to sixty seconds for the new container to report healthy.
    WaitHealthy { container: String },
    /// Stop and remove the new container and fail the deployment.
    RemoveAndFail { container: String, message: String },
    /// Record the replica as running.
    Record,
}

/// `ReplicaAction` with its strings as sequences.
pub enum ReplicaActionView {
    RetireThenCreate { old: Seq<char> },
    Create,
    WaitHealthy { container: Seq<char> },
    RemoveAndFail { container: Seq<char>, message: Seq<char> },
    Record,
}

impl View for ReplicaAction {
    type V = ReplicaActionView;

    open spec fn view(&self) -> ReplicaActionView {
        match self {
            ReplicaAction::RetireThenCreate { old } => ReplicaActionView::RetireThenCreate {
                old: old@,
            },
            ReplicaAction::Create => ReplicaActionView::Create,
            ReplicaAction::WaitHealthy { container } => ReplicaActionView::WaitHealthy {
                container: container@,
            },
            ReplicaAction::RemoveAndFail { container, message } =>
                ReplicaActionView::RemoveAndFail { container: container@, message: message@ },
            ReplicaAction::Record => ReplicaActionView::Record,
        }
    }
}

/// The message of a replica that failed its health check.
pub open spec fn health_failure_text(service_name: Seq<char>, replica: u32) -> Seq<char> {
    "service "@ + service_name + " replica "@ + dec(replica as nat) + " failed health check"@
}

/// The next action of a replica's rollout. Under stop-first the old
/// container gives way before the new one is created; a new container of a
/// service with a health check must report healthy, or it is stopped and
/// removed and the deployment fails.
pub open spec fn replica_next(
    strategy: RolloutStrategy,
    old: Option<Seq<char>>,
    container: Seq<char>,
    service_name: Seq<char>,
    replica: u32,
    has_health_check: bool,
    event: ReplicaEvent,
) -> ReplicaActionView {
    match event {
        ReplicaEvent::Begin => match (strategy, old) {
            (RolloutStrategy::StopFirst, Some(o)) => ReplicaActionView::RetireThenCreate { old: o },
            _ => ReplicaActionView::Create,
        },
        ReplicaEvent::Created => if has_health_check {
            ReplicaActionView::WaitHealthy { container }
        } else {
            ReplicaActionView::Record
        },
        ReplicaEvent::HealthChecked { healthy } => if healthy {
            ReplicaActionView::Record
        } else {
            ReplicaActionView::RemoveAndFail {
                container,
                message: health_failure_text(service_name, replica),
            }
        },
    }
}

/// One step of a replica's rollout: the replica of `service` with index
/// `replica` runs in the container named `container`; `old` is the
/// container the previous deployment ran for it.
pub fn replica_step(
    strategy: RolloutStrategy,
    old: &Option<String>,
    container: &str,
    service: &ContainerService,
    replica: u32,
    event: ReplicaEvent,
) -> (r: ReplicaAction)
    ensures
        r@ == replica_next(
            strategy,
            old.deep_view(),
            container@,
            service.name@,
            replica,
            service.health_check is Some,
            event,
        ),
{
    match event {
        ReplicaEvent::Begin => match strategy {
            RolloutStrategy::StopFirst => match old {
                Some(o) => ReplicaAction::RetireThenCreate { old: o.dup() },
                None => ReplicaAction::Create,
            },
            RolloutStrategy::StartFirst => ReplicaAction::Create,
        },
        ReplicaEvent::Created => if service.health_check.is_some() {
            ReplicaAction::WaitHealthy { container: owned(container) }
        } else {
            ReplicaAction::Record
        },
        ReplicaEvent::HealthChecked { healthy } => if healthy {
            ReplicaAction::Record
        } else {
            let mut message = concat3("service ", service.name.as_str(), " replica ");
            let idx = crate::text::dec_string(replica as u64);
            message.append(idx.as_str());
            message.append(" failed health check");
            ReplicaAction::RemoveAndFail { container: owned(container), message }
        },
    }
}

/// The old containers that remain once a start-first rollout has started
/// every new replica: the container each replica key of the previous
/// deployment last ran, and the previous deployment's own container, but
/// for those reused as new containers.
pub open spec fn retired(
    sds: Seq<ServiceDeploymentModel>,
    legacy: Option<Seq<char>>,
    new_ids: Seq<Seq<char>>,
) -> Set<Seq<char>> {
    Set::new(
        |c: Seq<char>|
            !new_ids.contains(c) && ((exists|i: int|
                0 <= i < sds.len() && old_container(sds, sds[i].service_id, sds[i].replica_index)
                    == Some(c)) || legacy == Some(c)),
    )
}

fn contains_text(v: &Vec<String>, c: &str) -> (r: bool)
    ensures
        r == v.deep_view().contains(c@),
{
    let mut i: usize = 0;
    while i < v.len()
        invariant
            i <= v@.len(),
            forall|j: int| 0 <= j < i ==> #[trigger] v.deep_view()[j] != c@,
        decreases v.len() - i,
    {
        if str_eq(v[i].as_str(), c) {
            proof {
                assert(v.deep_view()[i as int] == c@);
            }
            return true;
        }
        i = i + 1;
    }
    false
}

/// The containers to stop and remove after a start-first rollout.
pub fn containers_to_retire(previous: &Option<Deployment>, new_ids: &Vec<String>) -> (r: Vec<String>)
    ensures
        r.deep_view().to_set() == match previous {
            Some(p) => retired(
                p.service_deployments.deep_view(),
                p.container_id.deep_view(),
                new_ids.deep_view(),
            ),
            None => Set::empty(),
        },
{
    let mut out: Vec<String> = Vec::new();
    let p = match previous {
        Some(p) => p,
        None => {
            proof {
                assert(out.deep_view().to_set() =~= Set::<Seq<char>>::empty());
            }
            return out;
        },
    };
    let sds = &p.service_deployments;
    let ghost all = sds.deep_view();
    let ghost want = retired(all, p.container_id.deep_view(), new_ids.deep_view());
    let mut i: usize = 0;
    while i < sds.len()
        invariant
            i <= all.len(),
            all == sds.deep_view(),
            match previous {
                Some(q) => q.service_deployments.deep_view() == all,
                None => false,
            },
            want == retired(all, p.container_id.deep_view(), new_ids.deep_view()),
            forall|c: Seq<char>| #[trigger] out.deep_view().contains(c) ==> want.contains(c),
            forall|j: int|
                0 <= j < i ==> match #[trigger] old_container(all, all[j].service_id, all[j].replica_index) {
                    Some(c) => !new_ids.deep_view().contains(c) ==> out.deep_view().contains(c),
                    None => true,
                },
        decreases sds.len() - i,
    {
        let old = old_container_of(previous, sds[i].service_id, sds[i].replica_index);
        match old {
            Some(c) => {
                if !contains_text(new_ids, c.as_str()) {
                    let ghost before = out.deep_view();
                    proof {
                        assert(want.contains(c@)) by {
                            assert(old_container(all, all[i as int].service_id, all[i as int].replica_index)
                                == Some(c@));
                        }
                    }
                    push_deep(&mut out, c);
                    proof {
                        assert forall|x: Seq<char>| #[trigger] out.deep_view().contains(x) implies want.contains(
                            x,
                        ) by {
                            if x != out.deep_view().last() {
                                let k = choose|k: int| 0 <= k < out.deep_view().len() && out.deep_view()[k] == x;
                                assert(before[k] == x);
                                assert(before.contains(x));
                            }
                        }
                        assert forall|j: int| 0 <= j < i + 1 implies match #[trigger] old_container(
                            all,
                            all[j].service_id,
                            all[j].replica_index,
                        ) {
                            Some(c2) => !new_ids.deep_view().contains(c2) ==> out.deep_view().contains(c2),
                            None => true,
                        } by {
                            match old_container(all, all[j].service_id, all[j].replica_index) {
                                Some(c2) => {
                                    if j < i && !new_ids.deep_view().contains(c2) {
                                        let k = choose|k: int| 0 <= k < before.len() && before[k] == c2;
                                        assert(out.deep_view()[k] == c2);
                                    }
                                    if j == i {
                                        assert(out.deep_view()[before.len() as int] == c2);
                                    }
                                },
                                None => {},
                            }
                        }
                    }
                }
            },
            None => {},
        }
        i = i + 1;
    }
    match &p.container_id {
        Some(c) => {
            if !contains_text(new_ids, c.as_str()) {
                let ghost before = out.deep_view();
                push_deep(&mut out, c.dup());
                proof {
                    assert forall|x: Seq<char>| #[trigger] out.deep_view().contains(x) implies want.contains(
                        x,
                    ) by {
                        if x != out.deep_view().last() {
                            let k = choose|k: int| 0 <= k < out.deep_view().len() && out.deep_view()[k] == x;
                            assert(before[k] == x);
                            assert(before.contains(x));
                        }
                    }
                    assert forall|j: int| 0 <= j < all.len() implies match #[trigger] old_container(
                        all,
                        all[j].service_id,
                        all[j].replica_index,
                    ) {
                        Some(c2) => !new_ids.deep_view().contains(c2) ==> out.deep_view().contains(c2),
                        None => true,
                    } by {
                        match old_container(all, all[j].service_id, all[j].replica_index) {
                            Some(c2) => {
                                if !new_ids.deep_view().contains(c2) {
                                    let k = choose|k: int| 0 <= k < before.len() && before[k] == c2;
                                    assert(out.deep_view()[k] == c2);
                                }
                            },
                            None => {},
                        }
                    }
                    assert(out.deep_view().contains(c@)) by {
                        assert(out.deep_view()[before.len() as int] == c@);
                    }
                }
            }
        },
        None => {},
    }
    proof {
        assert forall|x: Seq<char>| want.contains(x) implies #[trigger] out.deep_view().contains(x) by {
            if exists|j: int|
                0 <= j < all.len() && old_container(all, all[j].service_id, all[j].replica_index)
                    == Some(x) {
                let j = choose|j: int|
                    0 <= j < all.len() && old_container(all, all[j].service_id, all[j].replica_index)
                        == Some(x);
                assert(match old_container(all, all[j].service_id, all[j].replica_index) {
                    Some(c2) => !new_ids.deep_view().contains(c2) ==> out.deep_view().contains(c2),
                    None => true,
                });
            }
        }
        assert(out.deep_view().to_set() =~= want);
    }
    out
}

/// The image recorded for a service: the last entry with its identifier.
pub open spec fn image_of(images: Seq<(u128, String)>, id: u128) -> Option<Seq<char>>
    decreases images.len(),
{
    if images.len() == 0 {
        None
    } else if images.last().0 == id {
        Some(images.last().1@)
    } else {
        image_of(images.drop_last(), id)
    }
}

/// The image a service runs in a deployment, or the error when none was
/// resolved for it.
pub fn service_image_of(images: &Vec<(u128, String)>, service: &ContainerService) -> (r: Result<
    String,
    String,
>)
    ensures
        match image_of(images@, service.id) {
            Some(i) => r matches Ok(x) && x@ == i,
            None => r matches Err(e) && e@ == "missing image for service "@ + service.name@,
        },
{
    let mut i: usize = images.len();
    proof {
        assert(images@.take(i as int) =~= images@);
    }
    while i > 0
        invariant
            i <= images@.len(),
            image_of(images@, service.id) == image_of(images@.take(i as int), service.id),
        decreases i,
    {
        let ghost t = images@.take(i as int);
        proof {
            assert(t.drop_last() =~= images@.take(i - 1));
            assert(t.last() == images@[i - 1]);
        }
        if images[i - 1].0 == service.id {
            return Ok(images[i - 1].1.dup());
        }
        i = i - 1;
    }
    Err(concat2("missing image for service ", service.name.as_str()))
}

/// The configuration of one replica as the deployment worker starts it:
/// as a service replica, on the deployment's network, also joined to the
/// internal network.
pub fn worker_replica_config(
    app: &Project,
    service: &ContainerService,
    deployment_id: u128,
    image: &str,
    replica_index: u32,
    network_name: &str,
    work_dir: &str,
) -> (r: DockerContainerConfig)
    ensures
        r.id@ == replica_container(app.id, service.name@, replica_index, deployment_id),
        r.image@ == image@,
        r.env_vars@ == replica_env(
            with_vars(Map::empty(), app.env_vars.deep_view()),
            service.deep_view(),
            replica_index,
        ),
        r.port == service.port,
        r.additional_ports@ == service.additional_ports@,
        r.command.deep_view() == service.command.deep_view(),
        r.entrypoint.deep_view() == service.entrypoint.deep_view(),
        r.working_dir.deep_view() == service.working_dir.deep_view(),
        r.memory_limit == service.memory_limit,
        r.cpu_limit_bits == service.cpu_limit_bits,
        r.network matches Some(n) && n.name@ == network_name@ && n.aliases.deep_view() == seq![
            service.name@,
            service.name@ + "-"@ + dec(replica_index as nat),
        ],
        r.mounts.deep_view() == service_mounts(work_dir@, app.id, *service),
        r.additional_networks@.len() == 1,
        r.additional_networks@[0].name@ == internal_network(),
        r.additional_networks@[0].aliases@.len() == 0,
        (service.health_check is None || service.port == 0) ==> r.health_check is None,
        (service.health_check is Some && service.port != 0) ==> (r.health_check matches Some(c)
            && c.cmd.deep_view() == seq![
            "curl"@,
            "-f"@,
            "http://localhost:"@ + dec(service.port as nat) + service.health_check->0.path@,
        ] && c.interval_secs == service.health_check->0.interval_secs && c.timeout_secs
            == service.health_check->0.timeout_secs && c.retries
            == service.health_check->0.retries),
        r.restart_policy@ == restart_policy_text(service.restart_policy),
{
    let mut config = crate::launch::replica_container_config(
        app,
        service,
        deployment_id,
        image,
        replica_index,
        work_dir,
    );
    config.network = Some(
        DockerNetworkAttachment {
            name: owned(network_name),
            aliases: service_network_aliases(service.name.as_str(), replica_index),
        },
    );
    let mut extra: Vec<DockerNetworkAttachment> = Vec::new();
    extra.push(DockerNetworkAttachment { name: crate::docker::internal_network_name(), aliases: Vec::new() });
    config.additional_networks = extra;
    config
}

/// Whether the image of a service is pulled before its replicas start: a
/// service with a configured image (built images are local).
pub fn pulls_image(service: &ContainerService) -> (r: bool)
    ensures
        r == (service.image@.len() > 0),
{
    service.image.unicode_len() > 0
}

/// The record of a replica once it runs: its container and image, started
/// at `now`.
pub fn running_replica(
    service_id: u128,
    deployment_id: u128,
    replica_index: u32,
    container_id: String,
    image: String,
    now: Timestamp,
) -> (r: ServiceDeployment)
    ensures
        r.service_id == service_id,
        r.deployment_id == deployment_id,
        r.replica_index == replica_index,
        r.status == DeploymentStatus::Running,
        r.container_id.deep_view() == Some(container_id@),
        r.image_id.deep_view() == Some(image@),
        r.health == crate::models::ServiceHealth::Unknown,
        r.logs@.len() == 0,
        r.started_at == Some(now),
        r.finished_at.is_none(),
{
    let mut sd = ServiceDeployment::new(service_id, deployment_id, replica_index);
    sd.container_id = Some(container_id);
    sd.image_id = Some(image);
    sd.status = DeploymentStatus::Running;
    sd.started_at = Some(now);
    sd
}

/// The deployment once every replica runs: running, with its replicas, the
/// image shared by every service if there is one, and its start and finish
/// times.
pub fn running_deployment(
    deployment: &Deployment,
    replicas: Vec<ServiceDeployment>,
    images: &Vec<(u128, String)>,
    started_at: Timestamp,
    finished_at: Timestamp,
) -> (r: Deployment)
    ensures
        r.deep_view() == (DeploymentModel {
            status: DeploymentStatus::Running,
            service_deployments: replicas.deep_view(),
            image_id: crate::deploy::single_image(images@),
            started_at: Some(started_at),
            finished_at: Some(finished_at),
            ..deployment.deep_view()
        }),
{
    let d = Deployment {
        id: deployment.id,
        app_id: deployment.app_id,
        commit_sha: deployment.commit_sha.dup(),
        commit_message: deployment.commit_message.dup(),
        branch: deployment.branch.dup(),
        source_url: deployment.source_url.dup(),
        rollout_strategy: deployment.rollout_strategy,
        rollback_from_deployment_id: deployment.rollback_from_deployment_id,
        app_snapshot: deployment.app_snapshot.dup(),
        status: DeploymentStatus::Running,
        container_id: deployment.container_id.dup(),
        image_id: crate::deploy::primary_deployment_image_id(images),
        service_deployments: replicas,
        logs: deployment.logs.dup(),
        started_at: Some(started_at),
        finished_at: Some(finished_at),
        created_at: deployment.created_at,
    };
    proof {
        assert(d.deep_view() =~= (DeploymentModel {
            status: DeploymentStatus::Running,
            service_deployments: d.service_deployments.deep_view(),
            image_id: crate::deploy::single_image(images@),
            started_at: Some(started_at),
            finished_at: Some(finished_at),
            ..deployment.deep_view()
        }));
    }
    d
}

/// The deployment a job refers to, checked: it must exist and belong to
/// the job's app.
pub fn check_job_deployment(job_app_id: u128, deployment: Option<Deployment>) -> (r: Result<
    Deployment,
    String,
>)
    ensures
        match deployment {
            None => r matches Err(e) && e@ == "deployment not found"@,
            Some(d) => if d.app_id != job_app_id {
                r matches Err(e) && e@ == "deployment app mismatch"@
            } else {
                r == Ok::<Deployment, String>(d)
            },
        },
{
    match deployment {
        None => Err(owned("deployment not found")),
        Some(d) => {
            if d.app_id != job_app_id {
                Err(owned("deployment app mismatch"))
            } else {
                Ok(d)
            }
        },
    }
}

/// The source deployment of a rollback, checked: it must exist and belong
/// to the job's app.
pub fn check_rollback_source(job_app_id: u128, source: Option<Deployment>) -> (r: Result<
    Deployment,
    String,
>)
    ensures
        match source {
            None => r matches Err(e) && e@ == "rollback source deployment not found"@,
            Some(d) => if d.app_id != job_app_id {
                r matches Err(e) && e@ == "rollback source does not belong to app"@
            } else {
                r == Ok::<Deployment, String>(d)
            },
        },
{
    match source {
        None => Err(owned("rollback source deployment not found")),
        Some(d) => {
            if d.app_id != job_app_id {
                Err(owned("rollback source does not belong to app"))
            } else {
                Ok(d)
            }
        },
    }
}

/// The log line of a rollback.
pub fn rollback_log_line(source_id: u128) -> (r: String)
    ensures
        r@ == "rollback: using service image artifacts from deployment "@ + uuid_text(source_id),
{
    let id = uuid_string(source_id);
    concat2("rollback: using service image artifacts from deployment ", id.as_str())
}

/// How the repository of a job is fetched.
pub struct ClonePlan {
    pub url: String,
    pub branch: String,
    /// The access token presented as the password of `x-access-token`.
    pub token: Option<String>,
    /// Remote repositories are fetched one commit deep.
    pub shallow: bool,
    pub path: String,
}

/// Where a job's repository is checked out: `<app id>_<commit prefix>`
/// under the work directory.
pub open spec fn checkout_path(work_dir: Seq<char>, app_id: u128, commit_sha: Seq<char>) -> Seq<char> {
    path_join(work_dir, uuid_text(app_id) + "_"@ + commit_prefix(commit_sha))
}

/// Plans the checkout of a job's source; `None` for a job without one.
pub fn plan_clone(job: &DeploymentJob, work_dir: &str) -> (r: Option<ClonePlan>)
    requires
        !splits_char_in_commit(job.commit_sha@),
    ensures
        match job.source {
            DeploymentSource::NoSource => r is None,
            DeploymentSource::LocalPath { path } => r matches Some(p) && p.url@ == path@
                && p.token is None && !p.shallow,
            DeploymentSource::RemoteGit { url, token } => r matches Some(p) && p.url@ == url@
                && p.token.deep_view() == token.deep_view() && p.shallow,
        },
        r matches Some(p) ==> p.branch@ == job.branch@ && p.path@ == checkout_path(
            work_dir@,
            job.app_id,
            job.commit_sha@,
        ),
{
    let (url, token, shallow) = match &job.source {
        DeploymentSource::NoSource => return None,
        DeploymentSource::LocalPath { path } => (path.dup(), None, false),
        DeploymentSource::RemoteGit { url, token } => (url.dup(), token.dup(), true),
    };
    let prefix = commit_prefix_text(job.commit_sha.as_str());
    let id = uuid_string(job.app_id);
    let dir = concat3(id.as_str(), "_", prefix.as_str());
    Some(
        ClonePlan {
            url,
            branch: job.branch.dup(),
            token,
            shallow,
            path: join_path(work_dir, dir.as_str()),
        },
    )
}

/// The name a deployment status is shown under in the deployment log.
pub open spec fn status_label(s: DeploymentStatus) -> Seq<char> {
    match s {
        DeploymentStatus::Pending => "Pending"@,
        DeploymentStatus::Cloning => "Cloning"@,
        DeploymentStatus::Building => "Building"@,
        DeploymentStatus::Pushing => "Pushing"@,
        DeploymentStatus::Starting => "Starting"@,
        DeploymentStatus::Running => "Running"@,
        DeploymentStatus::Failed => "Failed"@,
        DeploymentStatus::Stopped => "Stopped"@,
    }
}

/// The deployment log line of a status change at the formatted time.
pub fn status_log_line(stamp: &str, status: DeploymentStatus) -> (r: String)
    ensures
        r@ == "["@ + stamp@ + "] status: "@ + status_label(status),
{
    let label = match status {
        DeploymentStatus::Pending => "Pending",
        DeploymentStatus::Cloning => "Cloning",
        DeploymentStatus::Building => "Building",
        DeploymentStatus::Pushing => "Pushing",
        DeploymentStatus::Starting => "Starting",
        DeploymentStatus::Running => "Running",
        DeploymentStatus::Failed => "Failed",
        DeploymentStatus::Stopped => "Stopped",
    };
    let mut r = concat3("[", stamp, "] status: ");
    r.append(label);
    r
}

/// A replica's health decides its fate: a new container that reported
/// healthy is recorded as running, and a replica is torn down with a
/// failed deployment only when its container did not report healthy. Under
/// stop-first the old container, when there is one, gives way before the
/// new one is created; under start-first nothing is retired before it.
pub proof fn lemma_replica_outcomes(
    strategy: RolloutStrategy,
    old: Option<Seq<char>>,
    container: Seq<char>,
    service_name: Seq<char>,
    replica: u32,
    has_health_check: bool,
    event: ReplicaEvent,
)
    ensures
        ({
            let next = |e: ReplicaEvent|
                replica_next(strategy, old, container, service_name, replica, has_health_check, e);
            &&& next(ReplicaEvent::HealthChecked { healthy: true }) == ReplicaActionView::Record
            &&& (next(event) is RemoveAndFail ==> event == ReplicaEvent::HealthChecked {
                healthy: false,
            })
            &&& (next(ReplicaEvent::HealthChecked { healthy: false }) matches ReplicaActionView::RemoveAndFail {
                container: c,
                ..
            } && c == container)
            &&& (strategy == RolloutStrategy::StopFirst && old is Some ==> next(ReplicaEvent::Begin)
                == ReplicaActionView::RetireThenCreate { old: old->0 })
            &&& (strategy == RolloutStrategy::StartFirst ==> next(ReplicaEvent::Begin)
                == ReplicaActionView::Create)
            &&& (!has_health_check ==> next(ReplicaEvent::Created) == ReplicaActionView::Record)
        }),
{
}

} // verus!
