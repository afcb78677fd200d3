//! Service inventory: the runtime state of a service summed up from its
//! deployments.
use vstd::prelude::*;

use crate::dup::{push_deep, Dup};
use crate::ids::{timestamp_before, ts_before};
use crate::managed::ServiceStatus;
use crate::models::{
    blank, in_progress, ContainerService, Deployment, DeploymentStatus, ServiceDeployment,
    ServiceType,
};
use crate::text::is_blank;

verus! {

/// The kind of resource an inventory entry describes.
#[derive(Debug, Clone, Copy, PartialEq, Eq, Structural)]
pub enum ServiceResourceKind {
    AppService,
    ManagedDatabase,
    ManagedQueue,
}

impl ServiceResourceKind {
    /// The api name of the kind.
    pub fn as_str(&self) -> (r: &'static str)
        ensures
            r@ == (match *self {
                ServiceResourceKind::AppService => "app_service"@,
                ServiceResourceKind::ManagedDatabase => "managed_database"@,
                ServiceResourceKind::ManagedQueue => "managed_queue"@,
            }),
    {
        match self {
            ServiceResourceKind::AppService => "app_service",
            ServiceResourceKind::ManagedDatabase => "managed_database",
            ServiceResourceKind::ManagedQueue => "managed_queue",
        }
    }
}

/// Runtime status of a service as shown in the inventory.
#[derive(Debug, Clone, Copy, PartialEq, Eq, Structural)]
pub enum ServiceRuntimeStatus {
    Pending,
    Starting,
    Running,
    Partial,
    Stopped,
    Failed,
}

/// The runtime status a managed service's lifecycle status shows as.
pub open spec fn runtime_of_managed(s: ServiceStatus) -> ServiceRuntimeStatus {
    match s {
        ServiceStatus::Pending => ServiceRuntimeStatus::Pending,
        ServiceStatus::Starting => ServiceRuntimeStatus::Starting,
        ServiceStatus::Running => ServiceRuntimeStatus::Running,
        ServiceStatus::Stopped => ServiceRuntimeStatus::Stopped,
        ServiceStatus::Failed => ServiceRuntimeStatus::Failed,
    }
}

impl ServiceRuntimeStatus {
    /// The api name of the status.
    pub fn as_str(&self) -> (r: &'static str)
        ensures
            r@ == (match *self {
                ServiceRuntimeStatus::Pending => "pending"@,
                ServiceRuntimeStatus::Starting => "starting"@,
                ServiceRuntimeStatus::Running => "running"@,
                ServiceRuntimeStatus::Partial => "partial"@,
                ServiceRuntimeStatus::Stopped => "stopped"@,
                ServiceRuntimeStatus::Failed => "failed"@,
            }),
    {
        match self {
            ServiceRuntimeStatus::Pending => "pending",
            ServiceRuntimeStatus::Starting => "starting",
            ServiceRuntimeStatus::Running => "running",
            ServiceRuntimeStatus::Partial => "partial",
            ServiceRuntimeStatus::Stopped => "stopped",
            ServiceRuntimeStatus::Failed => "failed",
        }
    }

    /// The runtime status of a managed service with lifecycle status `status`.
    pub fn from_managed_status(status: ServiceStatus) -> (r: ServiceRuntimeStatus)
        ensures
            r == runtime_of_managed(status),
    {
        match status {
            ServiceStatus::Pending => ServiceRuntimeStatus::Pending,
            ServiceStatus::Starting => ServiceRuntimeStatus::Starting,
            ServiceStatus::Running => ServiceRuntimeStatus::Running,
            ServiceStatus::Stopped => ServiceRuntimeStatus::Stopped,
            ServiceStatus::Failed => ServiceRuntimeStatus::Failed,
        }
    }
}

/// The runtime state of one app service.
#[derive(Debug, Clone)]
pub struct AppServiceRuntimeSummary {
    pub deployment_id: Option<u128>,
    pub image: Option<String>,
    pub status: ServiceRuntimeStatus,
    pub desired_instances: u32,
    pub running_instances: u32,
    pub container_ids: Vec<String>,
}

pub struct SummaryModel {
    pub deployment_id: Option<u128>,
    pub image: Option<Seq<char>>,
    pub status: ServiceRuntimeStatus,
    pub desired_instances: u32,
    pub running_instances: u32,
    pub container_ids: Seq<Seq<char>>,
}

impl DeepView for AppServiceRuntimeSummary {
    type V = SummaryModel;

    open spec fn deep_view(&self) -> SummaryModel {
        SummaryModel {
            deployment_id: self.deployment_id,
            image: self.image.deep_view(),
            status: self.status,
            desired_instances: self.desired_instances,
            running_instances: self.running_instances,
            container_ids: self.container_ids.deep_view(),
        }
    }
}

/// A deployment that can be chosen: with `running_only`, only running ones.
pub open spec fn eligible(d: Deployment, running_only: bool) -> bool {
    !running_only || d.status == DeploymentStatus::Running
}

/// `i` is the newest eligible deployment, the earliest listed among equally
/// new ones: where a newest-first stable sort would put the first eligible
/// deployment.
pub open spec fn is_latest(ds: Seq<Deployment>, running_only: bool, i: int) -> bool {
    &&& 0 <= i < ds.len()
    &&& eligible(ds[i], running_only)
    &&& forall|j: int|
        0 <= j < ds.len() && eligible(#[trigger] ds[j], running_only) ==> !ts_before(
            ds[i].created_at,
            ds[j].created_at,
        )
    &&& forall|j: int|
        0 <= j < i && eligible(#[trigger] ds[j], running_only) ==> ts_before(
            ds[j].created_at,
            ds[i].created_at,
        )
}

/// The deployment a service's state is read from: the newest running one,
/// else the newest one.
pub open spec fn chosen_deployment(ds: Seq<Deployment>) -> Option<int> {
    if exists|i: int| is_latest(ds, true, i) {
        Some(choose|i: int| is_latest(ds, true, i))
    } else if exists|i: int| is_latest(ds, false, i) {
        Some(choose|i: int| is_latest(ds, false, i))
    } else {
        None
    }
}

/// The replica deployments of service `sid`.
pub open spec fn of_service(sds: Seq<ServiceDeployment>, sid: u128) -> Seq<ServiceDeployment> {
    sds.filter(|sd: ServiceDeployment| sd.service_id == sid)
}

/// The image recorded by the first replica deployment of service `sid`:
/// `None` when there is no such replica, else its (optional) image.
pub open spec fn first_replica_image(sds: Seq<ServiceDeployment>, sid: u128) -> Option<
    Option<Seq<char>>,
>
    decreases sds.len(),
{
    if sds.len() == 0 {
        None
    } else if sds[0].service_id == sid {
        Some(sds[0].image_id.deep_view())
    } else {
        first_replica_image(sds.drop_first(), sid)
    }
}

/// Number of running replicas in a list.
pub open spec fn running_count(m: Seq<ServiceDeployment>) -> nat {
    m.filter(|sd: ServiceDeployment| sd.status == DeploymentStatus::Running).len()
}

/// The container identifiers present in a list of replicas, in order.
pub open spec fn container_ids_of(m: Seq<ServiceDeployment>) -> Seq<Seq<char>>
    decreases m.len(),
{
    if m.len() == 0 {
        Seq::empty()
    } else {
        let prev = container_ids_of(m.drop_last());
        match m.last().container_id {
            Some(c) => prev.push(c@),
            None => prev,
        }
    }
}

/// Some replica is still in progress.
pub open spec fn any_in_progress(m: Seq<ServiceDeployment>) -> bool {
    exists|k: int| 0 <= k < m.len() && in_progress(#[trigger] m[k].status)
}

/// Some replica has failed.
pub open spec fn any_failed(m: Seq<ServiceDeployment>) -> bool {
    exists|k: int| 0 <= k < m.len() && #[trigger] m[k].status == DeploymentStatus::Failed
}

/// Every replica has stopped.
pub open spec fn all_stopped(m: Seq<ServiceDeployment>) -> bool {
    forall|k: int| 0 <= k < m.len() ==> #[trigger] m[k].status == DeploymentStatus::Stopped
}

/// Instances a service should run: one for a cron job, else its replica
/// count but at least one.
pub open spec fn desired_of(s: ContainerService) -> u32 {
    if s.service_type == ServiceType::CronJob {
        1
    } else if s.replicas > 1 {
        s.replicas
    } else {
        1
    }
}

/// The status shown when a deployment has no replicas of the service.
pub open spec fn status_without_replicas(s: DeploymentStatus) -> ServiceRuntimeStatus {
    match s {
        DeploymentStatus::Failed => ServiceRuntimeStatus::Failed,
        DeploymentStatus::Stopped => ServiceRuntimeStatus::Stopped,
        DeploymentStatus::Running => ServiceRuntimeStatus::Stopped,
        DeploymentStatus::Pending => ServiceRuntimeStatus::Pending,
        _ => ServiceRuntimeStatus::Starting,
    }
}

/// The status shown from the replicas of a service.
pub open spec fn status_from_replicas(
    m: Seq<ServiceDeployment>,
    running: u32,
    desired: u32,
) -> ServiceRuntimeStatus {
    if running == desired && desired > 0 {
        ServiceRuntimeStatus::Running
    } else if running > 0 {
        ServiceRuntimeStatus::Partial
    } else if any_in_progress(m) {
        ServiceRuntimeStatus::Starting
    } else if any_failed(m) {
        ServiceRuntimeStatus::Failed
    } else if all_stopped(m) {
        ServiceRuntimeStatus::Stopped
    } else {
        ServiceRuntimeStatus::Pending
    }
}

/// The image shown for a service with chosen deployment `d`: the image of
/// its first replica there, else its configured image, else (when it is
/// built from source) the deployment's image.
pub open spec fn shown_image(s: ContainerService, d: Deployment) -> Option<Seq<char>> {
    match first_replica_image(d.service_deployments@, s.id) {
        Some(Some(img)) => Some(img),
        _ => if blank(s.image@) {
            d.image_id.deep_view()
        } else {
            Some(s.image@)
        },
    }
}

/// The summary of service `s` over deployments `ds`.
pub open spec fn summary_of(s: ContainerService, ds: Seq<Deployment>) -> SummaryModel {
    let desired = desired_of(s);
    match chosen_deployment(ds) {
        None => SummaryModel {
            deployment_id: None,
            image: if blank(s.image@) {
                None
            } else {
                Some(s.image@)
            },
            status: ServiceRuntimeStatus::Pending,
            desired_instances: desired,
            running_instances: 0,
            container_ids: Seq::empty(),
        },
        Some(k) => {
            let d = ds[k];
            let m = of_service(d.service_deployments@, s.id);
            if m.len() == 0 {
                SummaryModel {
                    deployment_id: Some(d.id),
                    image: shown_image(s, d),
                    status: status_without_replicas(d.status),
                    desired_instances: desired,
                    running_instances: 0,
                    container_ids: Seq::empty(),
                }
            } else {
                let running = running_count(m) as u32;
                SummaryModel {
                    deployment_id: Some(d.id),
                    image: shown_image(s, d),
                    status: status_from_replicas(m, running, desired),
                    desired_instances: desired,
                    running_instances: running,
                    container_ids: container_ids_of(m),
                }
            }
        },
    }
}

proof fn lemma_latest_unique(ds: Seq<Deployment>, running_only: bool, i: int, j: int)
    requires
        is_latest(ds, running_only, i),
        is_latest(ds, running_only, j),
    ensures
        i == j,
{
    if i < j {
        assert(ts_before(ds[i].created_at, ds[j].created_at));
    } else if j < i {
        assert(ts_before(ds[j].created_at, ds[i].created_at));
    }
}

/// Index of the newest eligible deployment (earliest listed among ties).
fn latest_deployment(ds: &[Deployment], running_only: bool) -> (r: Option<usize>)
    ensures
        r matches Some(i) ==> is_latest(ds@, running_only, i as int),
        r is None ==> !exists|i: int| is_latest(ds@, running_only, i),
        r is None ==> forall|i: int| 0 <= i < ds@.len() ==> !eligible(#[trigger] ds@[i], running_only),
{
    let mut best: Option<usize> = None;
    let mut i: usize = 0;
    while i < ds.len()
        invariant
            i <= ds@.len(),
            best matches Some(b) ==> b < i && is_latest(ds@.take(i as int), running_only, b as int),
            best is None ==> forall|j: int| 0 <= j < i ==> !eligible(#[trigger] ds@[j], running_only),
        decreases ds.len() - i,
    {
        let d = &ds[i];
        let ok = !running_only || d.status == DeploymentStatus::Running;
        let ghost prev = ds@.take(i as int);
        let ghost next = ds@.take(i + 1);
        proof {
            assert(forall|j: int| 0 <= j < i ==> next[j] == prev[j]);
            assert(next[i as int] == ds@[i as int]);
        }
        match best {
            Some(b) => {
                if ok && timestamp_before(ds[b].created_at, d.created_at) {
                    proof {
                        assert forall|j: int|
                            0 <= j < next.len() && eligible(#[trigger] next[j], running_only) implies !ts_before(
                            next[i as int].created_at,
                            next[j].created_at,
                        ) by {
                            if j < i {
                                assert(prev[j] == next[j]);
                                assert(!ts_before(prev[b as int].created_at, prev[j].created_at));
                            }
                        }
                        assert forall|j: int|
                            0 <= j < i && eligible(#[trigger] next[j], running_only) implies ts_before(
                            next[j].created_at,
                            next[i as int].created_at,
                        ) by {
                            assert(prev[j] == next[j]);
                            assert(!ts_before(prev[b as int].created_at, prev[j].created_at));
                        }
                    }
                    best = Some(i);
                } else {
                    proof {
                        assert forall|j: int|
                            0 <= j < next.len() && eligible(#[trigger] next[j], running_only) implies !ts_before(
                            next[b as int].created_at,
                            next[j].created_at,
                        ) by {
                            if j < i {
                                assert(prev[j] == next[j]);
                            }
                        }
                        assert forall|j: int|
                            0 <= j < b && eligible(#[trigger] next[j], running_only) implies ts_before(
                            next[j].created_at,
                            next[b as int].created_at,
                        ) by {
                            assert(prev[j] == next[j]);
                        }
                    }
                }
            },
            None => {
                if ok {
                    best = Some(i);
                }
            },
        }
        i = i + 1;
    }
    proof {
        assert(ds@.take(ds@.len() as int) =~= ds@);
        if best is None {
            assert forall|k: int| !is_latest(ds@, running_only, k) by {
                if 0 <= k < ds@.len() {
                    assert(!eligible(ds@[k], running_only));
                }
            }
        }
    }
    best
}

/// The chosen deployment: the newest running one, else the newest.
fn choose_deployment(ds: &[Deployment]) -> (r: Option<usize>)
    ensures
        match chosen_deployment(ds@) {
            Some(k) => r == Some(k as usize) && 0 <= k < ds@.len(),
            None => r is None,
        },
{
    let running = latest_deployment(ds, true);
    match running {
        Some(i) => {
            proof {
                let k = choose|k: int| is_latest(ds@, true, k);
                lemma_latest_unique(ds@, true, i as int, k);
            }
            Some(i)
        },
        None => {
            let any = latest_deployment(ds, false);
            match any {
                Some(i) => {
                    proof {
                        let k = choose|k: int| is_latest(ds@, false, k);
                        lemma_latest_unique(ds@, false, i as int, k);
                    }
                    Some(i)
                },
                None => None,
            }
        },
    }
}

/// The image of the first replica of service `sid`.
fn first_replica_image_of(sds: &Vec<ServiceDeployment>, sid: u128) -> (r: Option<Option<String>>)
    ensures
        r.deep_view() == first_replica_image(sds@, sid),
{
    let mut i: usize = 0;
    proof {
        assert(sds@.skip(0) =~= sds@);
    }
    while i < sds.len()
        invariant
            i <= sds@.len(),
            first_replica_image(sds@, sid) == first_replica_image(sds@.skip(i as int), sid),
        decreases sds.len() - i,
    {
        proof {
            assert(sds@.skip(i as int)[0] == sds@[i as int]);
            assert(sds@.skip(i as int).drop_first() =~= sds@.skip(i + 1));
        }
        if sds[i].service_id == sid {
            return Some(sds[i].image_id.dup());
        }
        i = i + 1;
    }
    None
}

/// The state of one app service, summed up from its app's deployments.
///
/// The state is read from the newest running deployment, else from the
/// newest deployment; from the replicas of the service there it takes the
/// image, the running count, the container identifiers and a status.
pub fn summarize_app_service_runtime(service: &ContainerService, deployments: &[Deployment]) -> (r:
    AppServiceRuntimeSummary)
    ensures
        r.deep_view() == summary_of(*service, deployments@),
{
    let desired: u32 = if service.is_cron_job() {
        1
    } else if service.replicas > 1 {
        service.replicas
    } else {
        1
    };
    let k = match choose_deployment(deployments) {
        Some(k) => k,
        None => {
            let image = if is_blank(service.image.as_str()) {
                None
            } else {
                Some(service.image.dup())
            };
            let r = AppServiceRuntimeSummary {
                deployment_id: None,
                image,
                status: ServiceRuntimeStatus::Pending,
                desired_instances: desired,
                running_instances: 0,
                container_ids: Vec::new(),
            };
            assert(r.container_ids.deep_view() =~= Seq::<Seq<char>>::empty());
            return r;
        },
    };
    let d = &deployments[k];
    let image = match first_replica_image_of(&d.service_deployments, service.id) {
        Some(Some(img)) => Some(img),
        _ => {
            if is_blank(service.image.as_str()) {
                d.image_id.dup()
            } else {
                Some(service.image.dup())
            }
        },
    };
    let sds = &d.service_deployments;
    let ghost pm = |sd: ServiceDeployment| sd.service_id == service.id;
    let ghost pr = |sd: ServiceDeployment| sd.status == DeploymentStatus::Running;
    let mut matched: usize = 0;
    let mut running: usize = 0;
    let mut ids: Vec<String> = Vec::new();
    let mut some_in_progress = false;
    let mut some_failed = false;
    let mut every_stopped = true;
    let mut i: usize = 0;
    proof {
        assert(sds@.take(0).filter(pm) =~= Seq::<ServiceDeployment>::empty());
        assert(Seq::<ServiceDeployment>::empty().filter(pr) =~= Seq::<ServiceDeployment>::empty());
        assert(ids.deep_view() =~= Seq::<Seq<char>>::empty());
    }
    while i < sds.len()
        invariant
            i <= sds@.len(),
            pm == (|sd: ServiceDeployment| sd.service_id == service.id),
            pr == (|sd: ServiceDeployment| sd.status == DeploymentStatus::Running),
            matched == sds@.take(i as int).filter(pm).len(),
            running == sds@.take(i as int).filter(pm).filter(pr).len(),
            running <= matched <= i,
            ids.deep_view() == container_ids_of(sds@.take(i as int).filter(pm)),
            some_in_progress == any_in_progress(sds@.take(i as int).filter(pm)),
            some_failed == any_failed(sds@.take(i as int).filter(pm)),
            every_stopped == all_stopped(sds@.take(i as int).filter(pm)),
        decreases sds.len() - i,
    {
        let sd = &sds[i];
        let ghost prev = sds@.take(i as int).filter(pm);
        proof {
            assert(sds@.take(i + 1).drop_last() =~= sds@.take(i as int));
            assert(sds@.take(i + 1).last() == *sd);
            reveal(Seq::filter);
        }
        if sd.service_id == service.id {
            let ghost next = prev.push(*sd);
            proof {
                assert(sds@.take(i + 1).filter(pm) == next);
                assert(next.drop_last() =~= prev);
                assert(next.filter(pr) == (if pr(*sd) {
                    prev.filter(pr).push(*sd)
                } else {
                    prev.filter(pr)
                }));
            }
            matched = matched + 1;
            if sd.status == DeploymentStatus::Running {
                running = running + 1;
            }
            match &sd.container_id {
                Some(c) => {
                    push_deep(&mut ids, c.dup());
                },
                None => {},
            }
            let st = sd.status;
            let st_in_progress = st.is_in_progress();
            proof {
                assert forall|k: int| 0 <= k < next.len() && k < prev.len() implies next[k]
                    == prev[k] by {}
                assert(next[prev.len() as int] == *sd);
                if !some_in_progress && in_progress(st) {
                    assert(in_progress(next[prev.len() as int].status));
                }
                if some_in_progress {
                    let w = choose|k: int| 0 <= k < prev.len() && in_progress(#[trigger] prev[k].status);
                    assert(in_progress(next[w].status));
                }
                if !in_progress(st) && !some_in_progress {
                    assert forall|k: int| 0 <= k < next.len() implies !in_progress(#[trigger] next[k].status) by {
                        if k < prev.len() {
                            assert(next[k] == prev[k]);
                        }
                    }
                }
                if some_failed {
                    let w = choose|k: int| 0 <= k < prev.len() && #[trigger] prev[k].status == DeploymentStatus::Failed;
                    assert(next[w].status == DeploymentStatus::Failed);
                }
                if st == DeploymentStatus::Failed {
                    assert(next[prev.len() as int].status == DeploymentStatus::Failed);
                }
                if !some_failed && st != DeploymentStatus::Failed {
                    assert forall|k: int| 0 <= k < next.len() implies #[trigger] next[k].status != DeploymentStatus::Failed by {
                        if k < prev.len() {
                            assert(next[k] == prev[k]);
                        }
                    }
                }
                if !every_stopped {
                    let w = choose|k: int| 0 <= k < prev.len() && #[trigger] prev[k].status != DeploymentStatus::Stopped;
                    assert(next[w].status != DeploymentStatus::Stopped);
                }
                if st != DeploymentStatus::Stopped {
                    assert(next[prev.len() as int].status != DeploymentStatus::Stopped);
                }
                if every_stopped && st == DeploymentStatus::Stopped {
                    assert forall|k: int| 0 <= k < next.len() implies #[trigger] next[k].status == DeploymentStatus::Stopped by {
                        if k < prev.len() {
                            assert(next[k] == prev[k]);
                        }
                    }
                }
            }
            some_in_progress = some_in_progress || st_in_progress;
            some_failed = some_failed || st == DeploymentStatus::Failed;
            every_stopped = every_stopped && st == DeploymentStatus::Stopped;
        } else {
            proof {
                assert(sds@.take(i + 1).filter(pm) == prev);
            }
        }
        i = i + 1;
    }
    proof {
        assert(sds@.take(sds@.len() as int) =~= sds@);
    }
    let ghost m = of_service(sds@, service.id);
    proof {
        assert(m == sds@.filter(pm));
        assert(running_count(m) == m.filter(pr).len());
    }
    if matched == 0 {
        let status = match d.status {
            DeploymentStatus::Failed => ServiceRuntimeStatus::Failed,
            DeploymentStatus::Stopped => ServiceRuntimeStatus::Stopped,
            DeploymentStatus::Running => ServiceRuntimeStatus::Stopped,
            DeploymentStatus::Pending => ServiceRuntimeStatus::Pending,
            _ => ServiceRuntimeStatus::Starting,
        };
        let r = AppServiceRuntimeSummary {
            deployment_id: Some(d.id),
            image,
            status,
            desired_instances: desired,
            running_instances: 0,
            container_ids: Vec::new(),
        };
        assert(r.container_ids.deep_view() =~= Seq::<Seq<char>>::empty());
        return r;
    }
    let running_u32 = running as u32;
    let status = if running_u32 == desired && desired > 0 {
        ServiceRuntimeStatus::Running
    } else if running_u32 > 0 {
        ServiceRuntimeStatus::Partial
    } else if some_in_progress {
        ServiceRuntimeStatus::Starting
    } else if some_failed {
        ServiceRuntimeStatus::Failed
    } else if every_stopped {
        ServiceRuntimeStatus::Stopped
    } else {
        ServiceRuntimeStatus::Pending
    };
    AppServiceRuntimeSummary {
        deployment_id: Some(d.id),
        image,
        status,
        desired_instances: desired,
        running_instances: running_u32,
        container_ids: ids,
    }
}

/// No two deployments of the list were created at the same instant.
pub open spec fn distinct_creation_times(ds: Seq<Deployment>) -> bool {
    forall|i: int, j: int|
        0 <= i < ds.len() && 0 <= j < ds.len() && i != j ==> #[trigger] ds[i].created_at
            != #[trigger] ds[j].created_at
}

proof fn lemma_ts_total(a: crate::ids::Timestamp, b: crate::ids::Timestamp)
    ensures
        ts_before(a, b) || ts_before(b, a) || a == b,
{
}

/// A list with an eligible deployment has a newest one.
proof fn lemma_latest_exists(ds: Seq<Deployment>, running_only: bool, w: int)
    requires
        0 <= w < ds.len(),
        eligible(ds[w], running_only),
    ensures
        exists|i: int| is_latest(ds, running_only, i),
    decreases ds.len(),
{
    let n = ds.len() - 1;
    let prev = ds.drop_last();
    if exists|v: int| 0 <= v < prev.len() && eligible(#[trigger] prev[v], running_only) {
        let v = choose|v: int| 0 <= v < prev.len() && eligible(#[trigger] prev[v], running_only);
        lemma_latest_exists(prev, running_only, v);
        let i = choose|i: int| is_latest(prev, running_only, i);
        assert(prev[i] == ds[i]);
        if eligible(ds[n], running_only) && ts_before(ds[i].created_at, ds[n].created_at) {
            assert forall|j: int|
                0 <= j < ds.len() && eligible(#[trigger] ds[j], running_only) implies !ts_before(
                ds[n].created_at,
                ds[j].created_at,
            ) by {
                if j < n {
                    assert(prev[j] == ds[j]);
                }
            }
            assert forall|j: int|
                0 <= j < n && eligible(#[trigger] ds[j], running_only) implies ts_before(
                ds[j].created_at,
                ds[n].created_at,
            ) by {
                assert(prev[j] == ds[j]);
                assert(!ts_before(prev[i].created_at, prev[j].created_at));
            }
            assert(is_latest(ds, running_only, n));
        } else {
            assert forall|j: int|
                0 <= j < ds.len() && eligible(#[trigger] ds[j], running_only) implies !ts_before(
                ds[i].created_at,
                ds[j].created_at,
            ) by {
                if j < n {
                    assert(prev[j] == ds[j]);
                }
            }
            assert forall|j: int|
                0 <= j < i && eligible(#[trigger] ds[j], running_only) implies ts_before(
                ds[j].created_at,
                ds[i].created_at,
            ) by {
                assert(prev[j] == ds[j]);
            }
            assert(is_latest(ds, running_only, i));
        }
    } else {
        assert(w == n) by {
            if w < n {
                assert(prev[w] == ds[w]);
            }
        }
        assert forall|j: int| 0 <= j < n implies !eligible(#[trigger] ds[j], running_only) by {
            assert(prev[j] == ds[j]);
        }
        assert forall|j: int|
            0 <= j < ds.len() && eligible(#[trigger] ds[j], running_only) implies !ts_before(
            ds[n].created_at,
            ds[j].created_at,
        ) by {
            if j < n {
                assert(prev[j] == ds[j]);
            }
        }
        assert(is_latest(ds, running_only, n));
    }
}

/// Two lists holding the same deployments, with distinct creation times,
/// have a newest eligible deployment alike, and it is the same deployment.
proof fn lemma_latest_agrees(ds: Seq<Deployment>, ds2: Seq<Deployment>, running_only: bool)
    requires
        forall|x: Deployment| ds.contains(x) <==> ds2.contains(x),
        distinct_creation_times(ds),
    ensures
        (exists|i: int| is_latest(ds, running_only, i)) <==> (exists|i: int|
            is_latest(ds2, running_only, i)),
        (exists|i: int| is_latest(ds, running_only, i)) ==> ds[choose|i: int|
            is_latest(ds, running_only, i)] == ds2[choose|i: int| is_latest(ds2, running_only, i)],
{
    if exists|i: int| is_latest(ds, running_only, i) {
        let i = choose|i: int| is_latest(ds, running_only, i);
        assert(ds.contains(ds[i]));
        let w = choose|w: int| 0 <= w < ds2.len() && ds2[w] == ds[i];
        lemma_latest_exists(ds2, running_only, w);
    }
    if exists|i: int| is_latest(ds2, running_only, i) {
        let i = choose|i: int| is_latest(ds2, running_only, i);
        assert(ds2.contains(ds2[i]));
        let w = choose|w: int| 0 <= w < ds.len() && ds[w] == ds2[i];
        lemma_latest_exists(ds, running_only, w);
    }
    if exists|i: int| is_latest(ds, running_only, i) {
        let i = choose|i: int| is_latest(ds, running_only, i);
        let k = choose|k: int| is_latest(ds2, running_only, k);
        let x = ds[i];
        let y = ds2[k];
        assert(ds2.contains(x));
        let a = choose|a: int| 0 <= a < ds2.len() && ds2[a] == x;
        assert(ds.contains(y));
        let m = choose|m: int| 0 <= m < ds.len() && ds[m] == y;
        assert(!ts_before(y.created_at, ds2[a].created_at));
        assert(!ts_before(x.created_at, ds[m].created_at));
        lemma_ts_total(x.created_at, y.created_at);
        assert(x.created_at == y.created_at);
        assert(m == i);
    }
}

/// The state of a service does not depend on the order its app's
/// deployments are listed in, as long as no two were created at the same
/// instant: `summarize_app_service_runtime` gives the same summary, in
/// every field, for any reordering of the deployments (its result is
/// `summary_of` of the list it is given).
pub proof fn lemma_summary_order_independent(
    s: ContainerService,
    ds: Seq<Deployment>,
    reordered: Seq<Deployment>,
)
    requires
        reordered.to_multiset() == ds.to_multiset(),
        distinct_creation_times(ds),
    ensures
        summary_of(s, reordered) == summary_of(s, ds),
{
    ds.to_multiset_ensures();
    reordered.to_multiset_ensures();
    assert forall|x: Deployment| ds.contains(x) <==> reordered.contains(x) by {
        assert(ds.to_multiset().count(x) == reordered.to_multiset().count(x));
        assert(ds.contains(x) <==> ds.to_multiset().count(x) > 0);
        assert(reordered.contains(x) <==> reordered.to_multiset().count(x) > 0);
    }
    lemma_latest_agrees(ds, reordered, true);
    lemma_latest_agrees(ds, reordered, false);
}

/// A service shows as running exactly when as many instances run as it
/// should run, and it always should run at least one.
pub proof fn lemma_running_means_all_instances(s: ContainerService, ds: Seq<Deployment>)
    ensures
        summary_of(s, ds).desired_instances >= 1,
        summary_of(s, ds).running_instances == summary_of(s, ds).desired_instances <==> summary_of(
            s,
            ds,
        ).status == ServiceRuntimeStatus::Running,
{
}

/// How the shown status follows from the counts: some but not all the
/// instances running (or more than needed) shows as partial, and a
/// service with nothing running is never shown as running or partial.
pub proof fn lemma_status_from_counts(s: ContainerService, ds: Seq<Deployment>)
    ensures
        ({
            let r = summary_of(s, ds);
            &&& r.running_instances > 0 && r.running_instances != r.desired_instances ==> r.status
                == ServiceRuntimeStatus::Partial
            &&& r.running_instances == 0 ==> r.status != ServiceRuntimeStatus::Running && r.status
                != ServiceRuntimeStatus::Partial
            &&& r.deployment_id is None ==> r.status == ServiceRuntimeStatus::Pending
        }),
{
}

} // verus!
