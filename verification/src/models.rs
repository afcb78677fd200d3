//! Data models of projects, their container services and deployments.
use vstd::prelude::*;

use crate::dup::{push_deep, Dup};
use crate::ids::{clock_now, fresh_id, name_based_id, ts_before, uuid_v5_oid, Timestamp};
use crate::text::{
    concat2, hex_fixed, hex_fixed_string, is_blank, str_eq, trim, uuid_string, uuid_text,
};

verus! {

/// Whether a string is empty once trimmed.
pub open spec fn blank(s: Seq<char>) -> bool {
    trim(s).len() == 0
}

/// Environment variable of an app or service.
#[derive(Debug, Clone)]
pub struct EnvVar {
    pub key: String,
    pub value: String,
    pub secret: bool,
}

#[verifier::ext_equal]
pub struct KeyValueModel {
    pub key: Seq<char>,
    pub value: Seq<char>,
    pub secret: bool,
}

impl DeepView for EnvVar {
    type V = KeyValueModel;

    open spec fn deep_view(&self) -> KeyValueModel {
        KeyValueModel { key: self.key@, value: self.value@, secret: self.secret }
    }
}

impl Dup for EnvVar {
    fn dup(&self) -> (r: Self) {
        EnvVar { key: self.key.dup(), value: self.value.dup(), secret: self.secret }
    }
}

/// Docker build argument of a service image.
#[derive(Debug, Clone)]
pub struct BuildArg {
    pub key: String,
    pub value: String,
    pub secret: bool,
}

impl DeepView for BuildArg {
    type V = KeyValueModel;

    open spec fn deep_view(&self) -> KeyValueModel {
        KeyValueModel { key: self.key@, value: self.value@, secret: self.secret }
    }
}

impl Dup for BuildArg {
    fn dup(&self) -> (r: Self) {
        BuildArg { key: self.key.dup(), value: self.value.dup(), secret: self.secret }
    }
}

/// Restart policy of a container service.
#[derive(Debug, Clone, Copy, PartialEq, Eq, Structural)]
pub enum RestartPolicy {
    Never,
    Always,
    OnFailure,
}

impl RestartPolicy {
    /// The default policy: always restart.
    pub fn default_policy() -> (r: RestartPolicy)
        ensures
            r == RestartPolicy::Always,
    {
        RestartPolicy::Always
    }
}

/// How running containers are replaced by a new deployment.
#[derive(Debug, Clone, Copy, PartialEq, Eq, Structural)]
pub enum RolloutStrategy {
    StopFirst,
    StartFirst,
}

/// Health check of a service.
#[derive(Debug, Clone)]
pub struct HealthCheck {
    pub path: String,
    pub interval_secs: u32,
    pub timeout_secs: u32,
    pub retries: u32,
}

#[verifier::ext_equal]
pub struct HealthCheckModel {
    pub path: Seq<char>,
    pub interval_secs: u32,
    pub timeout_secs: u32,
    pub retries: u32,
}

impl DeepView for HealthCheck {
    type V = HealthCheckModel;

    open spec fn deep_view(&self) -> HealthCheckModel {
        HealthCheckModel {
            path: self.path@,
            interval_secs: self.interval_secs,
            timeout_secs: self.timeout_secs,
            retries: self.retries,
        }
    }
}

impl Dup for HealthCheck {
    fn dup(&self) -> (r: Self) {
        HealthCheck {
            path: self.path.dup(),
            interval_secs: self.interval_secs,
            timeout_secs: self.timeout_secs,
            retries: self.retries,
        }
    }
}

/// Default interval between health checks, in seconds.
pub fn default_health_interval() -> (r: u32)
    ensures
        r == 30,
{
    30
}

/// Default timeout of a health check, in seconds.
pub fn default_health_timeout() -> (r: u32)
    ensures
        r == 5,
{
    5
}

/// Default number of failed checks before a service is unhealthy.
pub fn default_health_retries() -> (r: u32)
    ensures
        r == 3,
{
    3
}

/// Persistent mount of a service.
#[derive(Debug, Clone)]
pub struct ServiceMount {
    pub name: String,
    pub target: String,
    pub read_only: bool,
}

#[verifier::ext_equal]
pub struct MountModel {
    pub name: Seq<char>,
    pub target: Seq<char>,
    pub read_only: bool,
}

impl DeepView for ServiceMount {
    type V = MountModel;

    open spec fn deep_view(&self) -> MountModel {
        MountModel { name: self.name@, target: self.target@, read_only: self.read_only }
    }
}

impl Dup for ServiceMount {
    fn dup(&self) -> (r: Self) {
        ServiceMount { name: self.name.dup(), target: self.target.dup(), read_only: self.read_only }
    }
}

/// Registry credentials for pulling a service image.
#[derive(Debug, Clone)]
pub struct ServiceRegistryAuth {
    pub server: Option<String>,
    pub username: String,
    pub password: String,
}

#[verifier::ext_equal]
pub struct RegistryAuthModel {
    pub server: Option<Seq<char>>,
    pub username: Seq<char>,
    pub password: Seq<char>,
}

impl DeepView for ServiceRegistryAuth {
    type V = RegistryAuthModel;

    open spec fn deep_view(&self) -> RegistryAuthModel {
        RegistryAuthModel {
            server: self.server.deep_view(),
            username: self.username@,
            password: self.password@,
        }
    }
}

impl Dup for ServiceRegistryAuth {
    fn dup(&self) -> (r: Self) {
        ServiceRegistryAuth {
            server: self.server.dup(),
            username: self.username.dup(),
            password: self.password.dup(),
        }
    }
}

/// Category of a service.
#[derive(Debug, Clone, Copy, PartialEq, Eq, Structural)]
pub enum ServiceType {
    WebService,
    PrivateService,
    BackgroundWorker,
    CronJob,
    Postgres,
    Redis,
    Mariadb,
    Qdrant,
    RabbitMq,
}

/// The stable api name of each service type.
pub open spec fn service_type_text(t: ServiceType) -> Seq<char> {
    match t {
        ServiceType::WebService => "web_service"@,
        ServiceType::PrivateService => "private_service"@,
        ServiceType::BackgroundWorker => "background_worker"@,
        ServiceType::CronJob => "cron_job"@,
        ServiceType::Postgres => "postgres"@,
        ServiceType::Redis => "redis"@,
        ServiceType::Mariadb => "mariadb"@,
        ServiceType::Qdrant => "qdrant"@,
        ServiceType::RabbitMq => "rabbitmq"@,
    }
}

/// A container service of a project.
///
/// `cpu_limit_bits` holds the bit pattern of the CPU limit (a float number of
/// CPUs); no logic here reads it.
#[derive(Debug, Clone)]
pub struct ContainerService {
    pub id: u128,
    pub app_id: u128,
    pub name: String,
    pub image: String,
    pub service_type: ServiceType,
    pub port: u16,
    pub expose_http: bool,
    pub additional_ports: Vec<u16>,
    pub replicas: u32,
    pub memory_limit: Option<u64>,
    pub cpu_limit_bits: Option<u64>,
    pub depends_on: Vec<String>,
    pub health_check: Option<HealthCheck>,
    pub restart_policy: RestartPolicy,
    pub registry_auth: Option<ServiceRegistryAuth>,
    pub env_vars: Vec<EnvVar>,
    pub domains: Vec<String>,
    pub build_context: Option<String>,
    pub dockerfile_path: Option<String>,
    pub build_target: Option<String>,
    pub build_args: Vec<BuildArg>,
    pub command: Option<Vec<String>>,
    pub entrypoint: Option<Vec<String>>,
    pub working_dir: Option<String>,
    pub schedule: Option<String>,
    pub mounts: Vec<ServiceMount>,
    pub created_at: Timestamp,
    pub updated_at: Timestamp,
}

#[verifier::ext_equal]
pub struct ServiceModel {
    pub id: u128,
    pub app_id: u128,
    pub name: Seq<char>,
    pub image: Seq<char>,
    pub service_type: ServiceType,
    pub port: u16,
    pub expose_http: bool,
    pub additional_ports: Seq<u16>,
    pub replicas: u32,
    pub memory_limit: Option<u64>,
    pub cpu_limit_bits: Option<u64>,
    pub depends_on: Seq<Seq<char>>,
    pub health_check: Option<HealthCheckModel>,
    pub restart_policy: RestartPolicy,
    pub registry_auth: Option<RegistryAuthModel>,
    pub env_vars: Seq<KeyValueModel>,
    pub domains: Seq<Seq<char>>,
    pub build_context: Option<Seq<char>>,
    pub dockerfile_path: Option<Seq<char>>,
    pub build_target: Option<Seq<char>>,
    pub build_args: Seq<KeyValueModel>,
    pub command: Option<Seq<Seq<char>>>,
    pub entrypoint: Option<Seq<Seq<char>>>,
    pub working_dir: Option<Seq<char>>,
    pub schedule: Option<Seq<char>>,
    pub mounts: Seq<MountModel>,
    pub created_at: Timestamp,
    pub updated_at: Timestamp,
}

impl DeepView for ContainerService {
    type V = ServiceModel;

    open spec fn deep_view(&self) -> ServiceModel {
        ServiceModel {
            id: self.id,
            app_id: self.app_id,
            name: self.name@,
            image: self.image@,
            service_type: self.service_type,
            port: self.port,
            expose_http: self.expose_http,
            additional_ports: self.additional_ports@,
            replicas: self.replicas,
            memory_limit: self.memory_limit,
            cpu_limit_bits: self.cpu_limit_bits,
            depends_on: self.depends_on.deep_view(),
            health_check: self.health_check.deep_view(),
            restart_policy: self.restart_policy,
            registry_auth: self.registry_auth.deep_view(),
            env_vars: self.env_vars.deep_view(),
            domains: self.domains.deep_view(),
            build_context: self.build_context.deep_view(),
            dockerfile_path: self.dockerfile_path.deep_view(),
            build_target: self.build_target.deep_view(),
            build_args: self.build_args.deep_view(),
            command: self.command.deep_view(),
            entrypoint: self.entrypoint.deep_view(),
            working_dir: self.working_dir.deep_view(),
            schedule: self.schedule.deep_view(),
            mounts: self.mounts.deep_view(),
            created_at: self.created_at,
            updated_at: self.updated_at,
        }
    }
}

fn dup_ports(v: &Vec<u16>) -> (r: Vec<u16>)
    ensures
        r@ == v@,
{
    v.clone()
}

impl Dup for ContainerService {
    fn dup(&self) -> (r: Self) {
        let r = ContainerService {
            id: self.id,
            app_id: self.app_id,
            name: self.name.dup(),
            image: self.image.dup(),
            service_type: self.service_type,
            port: self.port,
            expose_http: self.expose_http,
            additional_ports: dup_ports(&self.additional_ports),
            replicas: self.replicas,
            memory_limit: self.memory_limit,
            cpu_limit_bits: self.cpu_limit_bits,
            depends_on: self.depends_on.dup(),
            health_check: self.health_check.dup(),
            restart_policy: self.restart_policy,
            registry_auth: self.registry_auth.dup(),
            env_vars: self.env_vars.dup(),
            domains: self.domains.dup(),
            build_context: self.build_context.dup(),
            dockerfile_path: self.dockerfile_path.dup(),
            build_target: self.build_target.dup(),
            build_args: self.build_args.dup(),
            command: self.command.dup(),
            entrypoint: self.entrypoint.dup(),
            working_dir: self.working_dir.dup(),
            schedule: self.schedule.dup(),
            mounts: self.mounts.dup(),
            created_at: self.created_at,
            updated_at: self.updated_at,
        };
        assert(r.deep_view() =~= self.deep_view());
        r
    }
}

/// The deep view of a service as `ContainerService::new` makes it, given its
/// identifier and creation time.
pub open spec fn fresh_service(
    id: u128,
    app_id: u128,
    name: Seq<char>,
    image: Seq<char>,
    port: u16,
    now: Timestamp,
) -> ServiceModel {
    ServiceModel {
        id,
        app_id,
        name,
        image,
        service_type: ServiceType::PrivateService,
        port,
        expose_http: false,
        additional_ports: Seq::empty(),
        replicas: 1,
        memory_limit: None,
        cpu_limit_bits: None,
        depends_on: Seq::empty(),
        health_check: None,
        restart_policy: RestartPolicy::Always,
        registry_auth: None,
        env_vars: Seq::empty(),
        domains: Seq::empty(),
        build_context: None,
        dockerfile_path: None,
        build_target: None,
        build_args: Seq::empty(),
        command: None,
        entrypoint: None,
        working_dir: None,
        schedule: None,
        mounts: Seq::empty(),
        created_at: now,
        updated_at: now,
    }
}

/// The distinct non-blank strings of `items`, in order of first occurrence,
/// appended to `acc`.
pub open spec fn add_unique_nonblank(acc: Seq<Seq<char>>, items: Seq<Seq<char>>) -> Seq<
    Seq<char>,
>
    decreases items.len(),
{
    if items.len() == 0 {
        acc
    } else {
        let prev = add_unique_nonblank(acc, items.drop_last());
        let d = items.last();
        if !blank(d) && !prev.contains(d) {
            prev.push(d)
        } else {
            prev
        }
    }
}

/// The strings of `items` not already present, in order of first occurrence,
/// appended to `acc`.
pub open spec fn add_unique(acc: Seq<Seq<char>>, items: Seq<Seq<char>>) -> Seq<Seq<char>>
    decreases items.len(),
{
    if items.len() == 0 {
        acc
    } else {
        let prev = add_unique(acc, items.drop_last());
        let d = items.last();
        if !prev.contains(d) {
            prev.push(d)
        } else {
            prev
        }
    }
}

/// Whether `v` holds a string equal to `s`.
pub fn vec_contains_str(v: &Vec<String>, s: &str) -> (r: bool)
    ensures
        r == v.deep_view().contains(s@),
{
    let mut i: usize = 0;
    while i < v.len()
        invariant
            i <= v.len(),
            forall|j: int| 0 <= j < i ==> v.deep_view()[j] != s@,
        decreases v.len() - i,
    {
        if str_eq(v[i].as_str(), s) {
            assert(v.deep_view()[i as int] == s@);
            return true;
        }
        i = i + 1;
    }
    proof {
        if v.deep_view().contains(s@) {
            let k = choose|k: int| 0 <= k < v.deep_view().len() && v.deep_view()[k] == s@;
            assert(v.deep_view()[k] != s@);
        }
    }
    false
}

/// Appends the strings of `items` that are not yet in `acc`; with
/// `skip_blank`, blank strings are skipped too.
fn extend_unique(acc: &mut Vec<String>, items: &Vec<String>, skip_blank: bool)
    ensures
        skip_blank ==> final(acc).deep_view() == add_unique_nonblank(
            old(acc).deep_view(),
            items.deep_view(),
        ),
        !skip_blank ==> final(acc).deep_view() == add_unique(
            old(acc).deep_view(),
            items.deep_view(),
        ),
{
    let ghost a0 = acc.deep_view();
    let mut i: usize = 0;
    proof {
        assert(items.deep_view().take(0) =~= Seq::<Seq<char>>::empty());
    }
    while i < items.len()
        invariant
            i <= items.len(),
            skip_blank ==> acc.deep_view() == add_unique_nonblank(
                a0,
                items.deep_view().take(i as int),
            ),
            !skip_blank ==> acc.deep_view() == add_unique(a0, items.deep_view().take(i as int)),
        decreases items.len() - i,
    {
        let d = &items[i];
        proof {
            assert(items.deep_view().take(i + 1).drop_last() =~= items.deep_view().take(
                i as int,
            ));
            assert(items.deep_view().take(i + 1).last() == d@);
        }
        let keep = (!skip_blank || !is_blank(d.as_str())) && !vec_contains_str(acc, d.as_str());
        if keep {
            push_deep(acc, d.dup());
        }
        i = i + 1;
    }
    proof {
        assert(items.deep_view().take(items.len() as int) =~= items.deep_view());
    }
}

impl ContainerService {
    /// The service `ContainerService::new` makes with the given identifier and
    /// creation time.
    pub fn new_with(
        id: u128,
        app_id: u128,
        name: String,
        image: String,
        port: u16,
        now: Timestamp,
    ) -> (r: ContainerService)
        ensures
            r.deep_view() == fresh_service(id, app_id, name@, image@, port, now),
    {
        let r = ContainerService {
            id,
            app_id,
            name,
            image,
            service_type: ServiceType::PrivateService,
            port,
            expose_http: false,
            additional_ports: Vec::new(),
            replicas: 1,
            memory_limit: None,
            cpu_limit_bits: None,
            depends_on: Vec::new(),
            health_check: None,
            restart_policy: RestartPolicy::default_policy(),
            registry_auth: None,
            env_vars: Vec::new(),
            domains: Vec::new(),
            build_context: None,
            dockerfile_path: None,
            build_target: None,
            build_args: Vec::new(),
            command: None,
            entrypoint: None,
            working_dir: None,
            schedule: None,
            mounts: Vec::new(),
            created_at: now,
            updated_at: now,
        };
        assert(r.deep_view() =~= fresh_service(id, app_id, r.name@, r.image@, port, now));
        r
    }

    /// A new private service with a fresh random identifier, created now.
    pub fn new(app_id: u128, name: String, image: String, port: u16) -> (r: ContainerService)
        ensures
            r.deep_view() == fresh_service(r.id, app_id, name@, image@, port, r.created_at),
    {
        let id = fresh_id();
        let now = clock_now();
        Self::new_with(id, app_id, name, image, port, now)
    }

    /// The stable api name for a service type.
    pub fn service_type_name(service_type: ServiceType) -> (r: &'static str)
        ensures
            r@ == service_type_text(service_type),
    {
        match service_type {
            ServiceType::WebService => "web_service",
            ServiceType::PrivateService => "private_service",
            ServiceType::BackgroundWorker => "background_worker",
            ServiceType::CronJob => "cron_job",
            ServiceType::Postgres => "postgres",
            ServiceType::Redis => "redis",
            ServiceType::Mariadb => "mariadb",
            ServiceType::Qdrant => "qdrant",
            ServiceType::RabbitMq => "rabbitmq",
        }
    }

    /// Whether the service expects inbound traffic on a port: every type but
    /// background workers and cron jobs.
    pub fn expects_inbound_port(&self) -> (r: bool)
        ensures
            r == !(self.service_type == ServiceType::BackgroundWorker || self.service_type
                == ServiceType::CronJob),
    {
        !(self.service_type == ServiceType::BackgroundWorker || self.service_type
            == ServiceType::CronJob)
    }

    /// Whether the service is routed publicly over http.
    pub fn is_public_http(&self) -> (r: bool)
        ensures
            r == (self.service_type == ServiceType::WebService),
    {
        self.service_type == ServiceType::WebService
    }

    /// Whether the service runs on a schedule.
    pub fn is_cron_job(&self) -> (r: bool)
        ensures
            r == (self.service_type == ServiceType::CronJob),
    {
        self.service_type == ServiceType::CronJob
    }

    /// Whether the image must be built from source: the image is blank.
    pub fn requires_source_checkout(&self) -> (r: bool)
        ensures
            r == blank(self.image@),
    {
        is_blank(self.image.as_str())
    }

    /// The distinct non-blank custom domains, in configured order.
    pub fn custom_domains(&self) -> (r: Vec<String>)
        ensures
            r.deep_view() == add_unique_nonblank(Seq::empty(), self.domains.deep_view()),
    {
        let mut r: Vec<String> = Vec::new();
        proof {
            assert(r.deep_view() =~= Seq::<Seq<char>>::empty());
        }
        extend_unique(&mut r, &self.domains, true);
        r
    }

    /// The service type implied by the legacy fields: public http when
    /// exposed, a worker when there is no port, else a private service.
    pub fn infer_service_type(expose_http: bool, port: u16) -> (r: ServiceType)
        ensures
            r == (if expose_http {
                ServiceType::WebService
            } else if port == 0 {
                ServiceType::BackgroundWorker
            } else {
                ServiceType::PrivateService
            }),
    {
        if expose_http {
            ServiceType::WebService
        } else if port == 0 {
            ServiceType::BackgroundWorker
        } else {
            ServiceType::PrivateService
        }
    }
}

/// Health of a service instance.
#[derive(Debug, Clone, Copy, PartialEq, Eq, Structural)]
pub enum ServiceHealth {
    Unknown,
    Healthy,
    Unhealthy,
    Starting,
}

/// Status of a deployment or of one of its service instances.
#[derive(Debug, Clone, Copy, PartialEq, Eq, Structural)]
pub enum DeploymentStatus {
    Pending,
    Cloning,
    Building,
    Pushing,
    Starting,
    Running,
    Failed,
    Stopped,
}

/// The statuses of work that has begun and not yet finished.
pub open spec fn in_progress(s: DeploymentStatus) -> bool {
    s == DeploymentStatus::Pending || s == DeploymentStatus::Cloning || s
        == DeploymentStatus::Building || s == DeploymentStatus::Pushing || s
        == DeploymentStatus::Starting
}

impl DeploymentStatus {
    /// Whether the status is one of work still in progress (pending,
    /// cloning, building, pushing or starting); such deployments are
    /// interrupted by a restart.
    pub fn is_in_progress(&self) -> (r: bool)
        ensures
            r == in_progress(*self),
    {
        match self {
            DeploymentStatus::Pending | DeploymentStatus::Cloning | DeploymentStatus::Building
            | DeploymentStatus::Pushing | DeploymentStatus::Starting => true,
            _ => false,
        }
    }
}

/// Deployment state of one replica of a service.
#[derive(Debug, Clone)]
pub struct ServiceDeployment {
    pub id: u128,
    pub service_id: u128,
    pub deployment_id: u128,
    pub replica_index: u32,
    pub status: DeploymentStatus,
    pub container_id: Option<String>,
    pub image_id: Option<String>,
    pub health: ServiceHealth,
    pub logs: Vec<String>,
    pub started_at: Option<Timestamp>,
    pub finished_at: Option<Timestamp>,
    pub created_at: Timestamp,
}

#[verifier::ext_equal]
pub struct ServiceDeploymentModel {
    pub id: u128,
    pub service_id: u128,
    pub deployment_id: u128,
    pub replica_index: u32,
    pub status: DeploymentStatus,
    pub container_id: Option<Seq<char>>,
    pub image_id: Option<Seq<char>>,
    pub health: ServiceHealth,
    pub logs: Seq<Seq<char>>,
    pub started_at: Option<Timestamp>,
    pub finished_at: Option<Timestamp>,
    pub created_at: Timestamp,
}

impl DeepView for ServiceDeployment {
    type V = ServiceDeploymentModel;

    open spec fn deep_view(&self) -> ServiceDeploymentModel {
        ServiceDeploymentModel {
            id: self.id,
            service_id: self.service_id,
            deployment_id: self.deployment_id,
            replica_index: self.replica_index,
            status: self.status,
            container_id: self.container_id.deep_view(),
            image_id: self.image_id.deep_view(),
            health: self.health,
            logs: self.logs.deep_view(),
            started_at: self.started_at,
            finished_at: self.finished_at,
            created_at: self.created_at,
        }
    }
}

impl ServiceDeployment {
    /// A pending replica deployment with the given identifier and time.
    pub fn new_with(
        id: u128,
        service_id: u128,
        deployment_id: u128,
        replica_index: u32,
        now: Timestamp,
    ) -> (r: ServiceDeployment)
        ensures
            r.id == id,
            r.service_id == service_id,
            r.deployment_id == deployment_id,
            r.replica_index == replica_index,
            r.status == DeploymentStatus::Pending,
            r.container_id.is_none(),
            r.image_id.is_none(),
            r.health == ServiceHealth::Unknown,
            r.logs@.len() == 0,
            r.started_at.is_none(),
            r.finished_at.is_none(),
            r.created_at == now,
    {
        ServiceDeployment {
            id,
            service_id,
            deployment_id,
            replica_index,
            status: DeploymentStatus::Pending,
            container_id: None,
            image_id: None,
            health: ServiceHealth::Unknown,
            logs: Vec::new(),
            started_at: None,
            finished_at: None,
            created_at: now,
        }
    }

    /// A pending replica deployment with a fresh identifier, created now.
    pub fn new(service_id: u128, deployment_id: u128, replica_index: u32) -> (r:
        ServiceDeployment)
        ensures
            r.service_id == service_id,
            r.deployment_id == deployment_id,
            r.replica_index == replica_index,
            r.status == DeploymentStatus::Pending,
            r.container_id.is_none(),
            r.image_id.is_none(),
            r.health == ServiceHealth::Unknown,
            r.logs@.len() == 0,
            r.started_at.is_none(),
            r.finished_at.is_none(),
    {
        Self::new_with(fresh_id(), service_id, deployment_id, replica_index, clock_now())
    }
}

/// One deployment of an app, with the snapshot of the app's settings that
/// it was made from, when one was taken.
#[derive(Debug, Clone)]
pub struct Deployment {
    pub id: u128,
    pub app_id: u128,
    pub commit_sha: String,
    pub commit_message: Option<String>,
    pub branch: String,
    pub source_url: Option<String>,
    pub rollout_strategy: RolloutStrategy,
    pub rollback_from_deployment_id: Option<u128>,
    pub app_snapshot: Option<Project>,
    pub status: DeploymentStatus,
    pub container_id: Option<String>,
    pub image_id: Option<String>,
    pub service_deployments: Vec<ServiceDeployment>,
    pub logs: Vec<String>,
    pub started_at: Option<Timestamp>,
    pub finished_at: Option<Timestamp>,
    pub created_at: Timestamp,
}

/// `Deployment` with its strings and lists as sequences.
#[verifier::ext_equal]
pub struct DeploymentModel {
    pub id: u128,
    pub app_id: u128,
    pub commit_sha: Seq<char>,
    pub commit_message: Option<Seq<char>>,
    pub branch: Seq<char>,
    pub source_url: Option<Seq<char>>,
    pub rollout_strategy: RolloutStrategy,
    pub rollback_from_deployment_id: Option<u128>,
    pub app_snapshot: Option<ProjectModel>,
    pub status: DeploymentStatus,
    pub container_id: Option<Seq<char>>,
    pub image_id: Option<Seq<char>>,
    pub service_deployments: Seq<ServiceDeploymentModel>,
    pub logs: Seq<Seq<char>>,
    pub started_at: Option<Timestamp>,
    pub finished_at: Option<Timestamp>,
    pub created_at: Timestamp,
}

impl DeepView for Deployment {
    type V = DeploymentModel;

    open spec fn deep_view(&self) -> DeploymentModel {
        DeploymentModel {
            id: self.id,
            app_id: self.app_id,
            commit_sha: self.commit_sha@,
            commit_message: self.commit_message.deep_view(),
            branch: self.branch@,
            source_url: self.source_url.deep_view(),
            rollout_strategy: self.rollout_strategy,
            rollback_from_deployment_id: self.rollback_from_deployment_id,
            app_snapshot: self.app_snapshot.deep_view(),
            status: self.status,
            container_id: self.container_id.deep_view(),
            image_id: self.image_id.deep_view(),
            service_deployments: self.service_deployments.deep_view(),
            logs: self.logs.deep_view(),
            started_at: self.started_at,
            finished_at: self.finished_at,
            created_at: self.created_at,
        }
    }
}

impl Deployment {
    /// A pending deployment of `commit_sha` with the given identifier and time.
    pub fn new_with(id: u128, app_id: u128, commit_sha: String, now: Timestamp) -> (r:
        Deployment)
        ensures
            r.id == id,
            r.app_id == app_id,
            r.commit_sha@ == commit_sha@,
            r.commit_message.is_none(),
            r.branch@ == "main"@,
            r.source_url.is_none(),
            r.rollout_strategy == RolloutStrategy::StopFirst,
            r.rollback_from_deployment_id.is_none(),
            r.app_snapshot.is_none(),
            r.status == DeploymentStatus::Pending,
            r.container_id.is_none(),
            r.image_id.is_none(),
            r.service_deployments@.len() == 0,
            r.logs@.len() == 0,
            r.started_at.is_none(),
            r.finished_at.is_none(),
            r.created_at == now,
    {
        Deployment {
            id,
            app_id,
            commit_sha,
            commit_message: None,
            branch: default_branch_name(),
            source_url: None,
            rollout_strategy: RolloutStrategy::StopFirst,
            rollback_from_deployment_id: None,
            app_snapshot: None,
            status: DeploymentStatus::Pending,
            container_id: None,
            image_id: None,
            service_deployments: Vec::new(),
            logs: Vec::new(),
            started_at: None,
            finished_at: None,
            created_at: now,
        }
    }

    /// A pending deployment of `commit_sha` with a fresh identifier, created now.
    pub fn new(app_id: u128, commit_sha: String) -> (r: Deployment)
        ensures
            r.app_id == app_id,
            r.commit_sha@ == commit_sha@,
            r.commit_message.is_none(),
            r.branch@ == "main"@,
            r.source_url.is_none(),
            r.rollout_strategy == RolloutStrategy::StopFirst,
            r.rollback_from_deployment_id.is_none(),
            r.app_snapshot.is_none(),
            r.status == DeploymentStatus::Pending,
            r.container_id.is_none(),
            r.image_id.is_none(),
            r.service_deployments@.len() == 0,
            r.logs@.len() == 0,
            r.started_at.is_none(),
            r.finished_at.is_none(),
    {
        Self::new_with(fresh_id(), app_id, commit_sha, clock_now())
    }
}

/// The default branch name.
pub fn default_branch_name() -> (r: String)
    ensures
        r@ == "main"@,
{
    crate::text::owned("main")
}

/// The legacy default port of an app.
pub fn default_port() -> (r: u16)
    ensures
        r == 8080,
{
    8080
}

/// The default value of boolean switches that are on unless configured.
pub fn default_true() -> (r: bool)
    ensures
        r,
{
    true
}

/// The default replica count of a service.
pub fn default_replicas() -> (r: u32)
    ensures
        r == 1,
{
    1
}

/// Another name of a project.
pub type App = Project;

/// A deployed project (also called an app): a group of container services.
#[derive(Debug, Clone)]
pub struct Project {
    pub id: u128,
    pub name: String,
    pub github_url: String,
    pub branch: String,
    pub domains: Vec<String>,
    pub domain: Option<String>,
    pub env_vars: Vec<EnvVar>,
    pub auto_deploy_enabled: bool,
    pub auto_deploy_watch_paths: Vec<String>,
    pub auto_deploy_cleanup_stale_deployments: bool,
    pub deploy_webhook_token: Option<String>,
    pub port: u16,
    pub services: Vec<ContainerService>,
    pub rollout_strategy: RolloutStrategy,
    pub owner_id: u128,
    pub created_at: Timestamp,
    pub updated_at: Timestamp,
}

#[verifier::ext_equal]
pub struct ProjectModel {
    pub id: u128,
    pub name: Seq<char>,
    pub github_url: Seq<char>,
    pub branch: Seq<char>,
    pub domains: Seq<Seq<char>>,
    pub domain: Option<Seq<char>>,
    pub env_vars: Seq<KeyValueModel>,
    pub auto_deploy_enabled: bool,
    pub auto_deploy_watch_paths: Seq<Seq<char>>,
    pub auto_deploy_cleanup_stale_deployments: bool,
    pub deploy_webhook_token: Option<Seq<char>>,
    pub port: u16,
    pub services: Seq<ServiceModel>,
    pub rollout_strategy: RolloutStrategy,
    pub owner_id: u128,
    pub created_at: Timestamp,
    pub updated_at: Timestamp,
}

impl DeepView for Project {
    type V = ProjectModel;

    open spec fn deep_view(&self) -> ProjectModel {
        ProjectModel {
            id: self.id,
            name: self.name@,
            github_url: self.github_url@,
            branch: self.branch@,
            domains: self.domains.deep_view(),
            domain: self.domain.deep_view(),
            env_vars: self.env_vars.deep_view(),
            auto_deploy_enabled: self.auto_deploy_enabled,
            auto_deploy_watch_paths: self.auto_deploy_watch_paths.deep_view(),
            auto_deploy_cleanup_stale_deployments: self.auto_deploy_cleanup_stale_deployments,
            deploy_webhook_token: self.deploy_webhook_token.deep_view(),
            port: self.port,
            services: self.services.deep_view(),
            rollout_strategy: self.rollout_strategy,
            owner_id: self.owner_id,
            created_at: self.created_at,
            updated_at: self.updated_at,
        }
    }
}

impl Dup for Project {
    fn dup(&self) -> (r: Self) {
        let r = Project {
            id: self.id,
            name: self.name.dup(),
            github_url: self.github_url.dup(),
            branch: self.branch.dup(),
            domains: self.domains.dup(),
            domain: self.domain.dup(),
            env_vars: self.env_vars.dup(),
            auto_deploy_enabled: self.auto_deploy_enabled,
            auto_deploy_watch_paths: self.auto_deploy_watch_paths.dup(),
            auto_deploy_cleanup_stale_deployments: self.auto_deploy_cleanup_stale_deployments,
            deploy_webhook_token: self.deploy_webhook_token.dup(),
            port: self.port,
            services: self.services.dup(),
            rollout_strategy: self.rollout_strategy,
            owner_id: self.owner_id,
            created_at: self.created_at,
            updated_at: self.updated_at,
        };
        assert(r.deep_view() =~= self.deep_view());
        r
    }
}

/// The text of the seed from which the default service identifier of a
/// project is derived.
pub open spec fn default_service_seed(project_id: u128) -> Seq<char> {
    "containr-default-service:"@ + uuid_text(project_id)
}

/// The default web service that promotes a legacy single-container project.
pub open spec fn promoted_web_service(p: ProjectModel) -> ServiceModel {
    ServiceModel {
        id: uuid_v5_oid(default_service_seed(p.id)),
        app_id: p.id,
        name: "web"@,
        image: Seq::empty(),
        service_type: ServiceType::WebService,
        port: p.port,
        expose_http: true,
        additional_ports: Seq::empty(),
        replicas: 1,
        memory_limit: None,
        cpu_limit_bits: None,
        depends_on: Seq::empty(),
        health_check: None,
        restart_policy: RestartPolicy::Always,
        registry_auth: None,
        env_vars: Seq::empty(),
        domains: Seq::empty(),
        build_context: None,
        dockerfile_path: None,
        build_target: None,
        build_args: Seq::empty(),
        command: None,
        entrypoint: None,
        working_dir: None,
        schedule: None,
        mounts: Seq::empty(),
        created_at: p.created_at,
        updated_at: p.updated_at,
    }
}

/// The project with its service list replaced.
pub open spec fn with_services(p: ProjectModel, services: Seq<ServiceModel>) -> ProjectModel {
    ProjectModel { services, ..p }
}

/// The project after `ensure_service_model`.
pub open spec fn ensured(p: ProjectModel) -> ProjectModel {
    if p.services.len() == 0 {
        with_services(p, seq![promoted_web_service(p)])
    } else {
        p
    }
}

/// Legacy project-level domains: the list, then the single domain unless
/// already listed.
pub open spec fn legacy_domains(p: ProjectModel) -> Seq<Seq<char>> {
    match p.domain {
        Some(d) => if p.domains.contains(d) {
            p.domains
        } else {
            p.domains.push(d)
        },
        None => p.domains,
    }
}

/// A service that is routed publicly.
pub open spec fn public(s: ServiceModel) -> bool {
    s.service_type == ServiceType::WebService
}

/// Index of the first service satisfying "public and named web".
pub open spec fn first_public_web(services: Seq<ServiceModel>) -> Option<int> {
    if exists|i: int| 0 <= i < services.len() && public(services[i]) && services[i].name == "web"@ {
        Some(
            choose|i: int|
                0 <= i < services.len() && public(services[i]) && services[i].name == "web"@ && (
                forall|j: int|
                    0 <= j < i ==> !(public(services[j]) && services[j].name == "web"@)),
        )
    } else {
        None
    }
}

/// Index of the first public service.
pub open spec fn first_public(services: Seq<ServiceModel>) -> Option<int> {
    if exists|i: int| 0 <= i < services.len() && public(services[i]) {
        Some(
            choose|i: int|
                0 <= i < services.len() && public(services[i]) && (forall|j: int|
                    0 <= j < i ==> !public(services[j])),
        )
    } else {
        None
    }
}

/// The primary public service: the first public one named "web", else the
/// first public one.
#[verifier::opaque]
pub open spec fn primary_public_index(services: Seq<ServiceModel>) -> Option<int> {
    match first_public_web(services) {
        Some(i) => Some(i),
        None => first_public(services),
    }
}

/// The project after `normalize_legacy_domains_into_services`.
pub open spec fn normalized(p: ProjectModel) -> ProjectModel {
    let e = ensured(p);
    let legacy = legacy_domains(e);
    if legacy.len() == 0 {
        e
    } else {
        let services = match primary_public_index(e.services) {
            Some(i) => e.services.update(
                i,
                ServiceModel {
                    domains: add_unique(e.services[i].domains, legacy),
                    ..e.services[i]
                },
            ),
            None => e.services,
        };
        ProjectModel { services, domain: None, domains: Seq::empty(), ..e }
    }
}

/// All custom domains of the project's services, each once, in order.
pub open spec fn service_domains_from(acc: Seq<Seq<char>>, services: Seq<ServiceModel>) -> Seq<
    Seq<char>,
>
    decreases services.len(),
{
    if services.len() == 0 {
        acc
    } else {
        add_unique(service_domains_from(acc, services.drop_last()), services.last().domains)
    }
}

/// All custom domains of a project: the legacy ones, then those of its
/// services not yet listed.
pub open spec fn all_custom_domains(p: ProjectModel) -> Seq<Seq<char>> {
    service_domains_from(legacy_domains(p), p.services)
}

/// The non-blank strings of a list, in order.
pub open spec fn non_blank(items: Seq<Seq<char>>) -> Seq<Seq<char>> {
    items.filter(|d: Seq<char>| !blank(d))
}

/// The deploy webhook token format: 32 lower-case hex digits.
pub open spec fn token_text(v: u128) -> Seq<char> {
    hex_fixed(v as nat, 32)
}

/// Adds the domains of `legacy` not yet present to the service at `i`.
fn merge_domains_into(services: &mut Vec<ContainerService>, i: usize, legacy: &Vec<String>)
    requires
        i < old(services)@.len(),
    ensures
        final(services).deep_view() == old(services).deep_view().update(
            i as int,
            ServiceModel {
                domains: add_unique(old(services).deep_view()[i as int].domains, legacy.deep_view()),
                ..old(services).deep_view()[i as int]
            },
        ),
{
    let mut service = services.remove(i);
    let ghost s0 = service.deep_view();
    extend_unique(&mut service.domains, legacy, false);
    proof {
        assert(service.deep_view() =~= ServiceModel {
            domains: add_unique(s0.domains, legacy.deep_view()),
            ..s0
        });
    }
    let ghost sd = service.deep_view();
    services.insert(i, service);
    proof {
        assert(services.deep_view() =~= old(services).deep_view().update(i as int, sd));
    }
}

impl Project {
    /// A project with the given identifier, creation time and webhook token
    /// seed, as `Project::new` makes it.
    pub fn new_with(
        id: u128,
        name: String,
        github_url: String,
        owner_id: u128,
        token_seed: u128,
        now: Timestamp,
    ) -> (r: Project)
        ensures
            r.id == id,
            r.name@ == name@,
            r.github_url@ == github_url@,
            r.branch@ == "main"@,
            r.domains@.len() == 0,
            r.domain.is_none(),
            r.env_vars@.len() == 0,
            r.auto_deploy_enabled,
            r.auto_deploy_watch_paths@.len() == 0,
            r.auto_deploy_cleanup_stale_deployments,
            r.deploy_webhook_token.deep_view() == Some(token_text(token_seed)),
            r.port == 8080,
            r.services@.len() == 0,
            r.rollout_strategy == RolloutStrategy::StopFirst,
            r.owner_id == owner_id,
            r.created_at == now,
            r.updated_at == now,
    {
        Project {
            id,
            name,
            github_url,
            branch: default_branch_name(),
            domains: Vec::new(),
            domain: None,
            env_vars: Vec::new(),
            auto_deploy_enabled: true,
            auto_deploy_watch_paths: Vec::new(),
            auto_deploy_cleanup_stale_deployments: true,
            deploy_webhook_token: Some(hex_fixed_string(token_seed, 32)),
            port: 8080,
            services: Vec::new(),
            rollout_strategy: RolloutStrategy::StopFirst,
            owner_id,
            created_at: now,
            updated_at: now,
        }
    }

    /// A new project with a fresh identifier and webhook token, created now.
    pub fn new(name: String, github_url: String, owner_id: u128) -> (r: Project)
        ensures
            r.name@ == name@,
            r.github_url@ == github_url@,
            r.branch@ == "main"@,
            r.domains@.len() == 0,
            r.domain.is_none(),
            r.env_vars@.len() == 0,
            r.auto_deploy_enabled,
            r.auto_deploy_watch_paths@.len() == 0,
            r.auto_deploy_cleanup_stale_deployments,
            r.deploy_webhook_token is Some,
            r.port == 8080,
            r.services@.len() == 0,
            r.rollout_strategy == RolloutStrategy::StopFirst,
            r.owner_id == owner_id,
            r.created_at == r.updated_at,
    {
        let id = fresh_id();
        let token = fresh_id();
        let now = clock_now();
        Self::new_with(id, name, github_url, owner_id, token, now)
    }

    /// Whether the project has container services.
    pub fn has_services(&self) -> (r: bool)
        ensures
            r == (self.services@.len() > 0),
    {
        self.services.len() > 0
    }

    /// Whether some service must be built from source.
    pub fn requires_source_checkout(&self) -> (r: bool)
        ensures
            r == exists|i: int|
                0 <= i < self.services@.len() && blank(#[trigger] self.services@[i].image@),
    {
        let mut i: usize = 0;
        while i < self.services.len()
            invariant
                i <= self.services@.len(),
                forall|j: int| 0 <= j < i ==> !blank(#[trigger] self.services@[j].image@),
            decreases self.services.len() - i,
        {
            if self.services[i].requires_source_checkout() {
                return true;
            }
            i = i + 1;
        }
        false
    }

    /// The deterministic identifier of the service that promotes a legacy
    /// project: a name-based identifier of "containr-default-service:" and
    /// the project identifier.
    pub fn default_service_id(&self) -> (r: u128)
        ensures
            r == uuid_v5_oid(default_service_seed(self.id)),
    {
        let id_text = uuid_string(self.id);
        let seed = concat2("containr-default-service:", id_text.as_str());
        name_based_id(seed.as_str())
    }

    /// Gives a project without services one public web service on the
    /// legacy port; a project with services is left as it is.
    pub fn ensure_service_model(&mut self)
        ensures
            final(self).deep_view() == ensured(old(self).deep_view()),
    {
        if self.services.len() > 0 {
            return;
        }
        let web = ContainerService {
            id: self.default_service_id(),
            app_id: self.id,
            name: crate::text::owned("web"),
            image: String::new(),
            service_type: ServiceType::WebService,
            port: self.port,
            expose_http: true,
            additional_ports: Vec::new(),
            replicas: 1,
            memory_limit: None,
            cpu_limit_bits: None,
            depends_on: Vec::new(),
            health_check: None,
            restart_policy: RestartPolicy::Always,
            registry_auth: None,
            env_vars: Vec::new(),
            domains: Vec::new(),
            build_context: None,
            dockerfile_path: None,
            build_target: None,
            build_args: Vec::new(),
            command: None,
            entrypoint: None,
            working_dir: None,
            schedule: None,
            mounts: Vec::new(),
            created_at: self.created_at,
            updated_at: self.updated_at,
        };
        proof {
            assert(web.deep_view() =~= promoted_web_service(old(self).deep_view()));
        }
        let ghost before = self.services.deep_view();
        push_deep(&mut self.services, web);
        proof {
            assert(self.services.deep_view() =~= seq![promoted_web_service(old(self).deep_view())]);
            assert(self.deep_view() =~= ensured(old(self).deep_view()));
        }
    }

    /// The legacy project-level custom domains.
    pub fn legacy_custom_domains(&self) -> (r: Vec<String>)
        ensures
            r.deep_view() == legacy_domains(self.deep_view()),
    {
        let mut domains = self.domains.dup();
        match &self.domain {
            Some(d) => {
                if !vec_contains_str(&domains, d.as_str()) {
                    push_deep(&mut domains, d.dup());
                }
            },
            None => {},
        }
        domains
    }

    /// Index of the primary public service: the first public service named
    /// "web", else the first public service.
    pub fn primary_public_service_index(&self) -> (r: Option<usize>)
        ensures
            r matches Some(i) ==> primary_public_index(self.services.deep_view()) == Some(i as int),
            r is None ==> primary_public_index(self.services.deep_view()) is None,
            r matches Some(i) ==> i < self.services@.len(),
    {
        let ghost sv = self.services.deep_view();
        let mut i: usize = 0;
        while i < self.services.len()
            invariant
                i <= self.services@.len(),
                sv == self.services.deep_view(),
                forall|j: int| 0 <= j < i ==> !(public(sv[j]) && sv[j].name == "web"@),
            decreases self.services.len() - i,
        {
            if self.services[i].is_public_http() && str_eq(self.services[i].name.as_str(), "web") {
                proof {
                    assert(public(sv[i as int]) && sv[i as int].name == "web"@);
                    let k = choose|k: int|
                        0 <= k < sv.len() && public(sv[k]) && sv[k].name == "web"@ && (forall|
                            j: int,
                        | 0 <= j < k ==> !(public(sv[j]) && sv[j].name == "web"@));
                    assert(k == i as int);
                    reveal(primary_public_index);
                }
                return Some(i);
            }
            i = i + 1;
        }
        proof {
            assert(!exists|k: int| 0 <= k < sv.len() && public(sv[k]) && sv[k].name == "web"@);
        }
        let mut i: usize = 0;
        while i < self.services.len()
            invariant
                i <= self.services@.len(),
                sv == self.services.deep_view(),
                first_public_web(sv) is None,
                forall|j: int| 0 <= j < i ==> !public(sv[j]),
            decreases self.services.len() - i,
        {
            if self.services[i].is_public_http() {
                proof {
                    assert(public(sv[i as int]));
                    let k = choose|k: int|
                        0 <= k < sv.len() && public(sv[k]) && (forall|j: int|
                            0 <= j < k ==> !public(sv[j]));
                    assert(k == i as int);
                    reveal(primary_public_index);
                }
                return Some(i);
            }
            i = i + 1;
        }
        proof {
            assert(!exists|k: int| 0 <= k < sv.len() && public(sv[k]));
            reveal(primary_public_index);
        }
        None
    }

    /// Mutable access to the primary public service, if there is one.
    pub fn primary_public_service_mut(&mut self) -> (r: Option<&mut ContainerService>)
        ensures
            match primary_public_index(old(self).services.deep_view()) {
                Some(i) => (r matches Some(s) && *s == old(self).services@[i] && *final(self) == (
                Project { services: final(self).services, ..*old(self) })
                    && final(self).services@ == old(self).services@.update(i, *final(s))),
                None => r is None && *final(self) == *old(self),
            },
    {
        match self.primary_public_service_index() {
            Some(i) => Some(&mut self.services[i]),
            None => None,
        }
    }

    /// Makes sure the project has a deploy webhook token, using the token
    /// text of `seed` when it has none (or a blank one), and returns it.
    pub fn ensure_deploy_webhook_token_with(&mut self, seed: u128) -> (r: &str)
        ensures
            r@ == match old(self).deploy_webhook_token {
                Some(t) => if blank(t@) {
                    token_text(seed)
                } else {
                    t@
                },
                None => token_text(seed),
            },
            final(self).deploy_webhook_token.deep_view() == Some(r@),
            *final(self) == (Project {
                deploy_webhook_token: final(self).deploy_webhook_token,
                ..*old(self)
            }),
    {
        let missing = match &self.deploy_webhook_token {
            Some(t) => is_blank(t.as_str()),
            None => true,
        };
        if missing {
            self.deploy_webhook_token = Some(hex_fixed_string(seed, 32));
        }
        match &self.deploy_webhook_token {
            Some(t) => t.as_str(),
            None => "",
        }
    }

    /// Makes sure the project has a deploy webhook token, generating a fresh
    /// random one when it has none (or a blank one), and returns it.
    pub fn ensure_deploy_webhook_token(&mut self) -> (r: &str)
        ensures
            match old(self).deploy_webhook_token {
                Some(t) => !blank(t@) ==> r@ == t@,
                None => true,
            },
            final(self).deploy_webhook_token.deep_view() == Some(r@),
            !blank(r@),
            *final(self) == (Project {
                deploy_webhook_token: final(self).deploy_webhook_token,
                ..*old(self)
            }),
    {
        let seed = fresh_id();
        proof {
            crate::text::lemma_hex_fixed_trimmed(seed as nat, 32);
        }
        self.ensure_deploy_webhook_token_with(seed)
    }

    /// Moves the legacy project-level domains onto the primary public service
    /// (first making sure the project has a service), then clears them.
    pub fn normalize_legacy_domains_into_services(&mut self)
        ensures
            final(self).deep_view() == normalized(old(self).deep_view()),
    {
        self.ensure_service_model();
        let legacy = self.legacy_custom_domains();
        if legacy.len() == 0 {
            return;
        }
        let ghost e = self.deep_view();
        let ghost lg = legacy.deep_view();
        let ghost target = match primary_public_index(e.services) {
            Some(i) => e.services.update(
                i,
                ServiceModel { domains: add_unique(e.services[i].domains, lg), ..e.services[i] },
            ),
            None => e.services,
        };
        match self.primary_public_service_index() {
            Some(i) => {
                assert(primary_public_index(e.services) == Some(i as int));
                merge_domains_into(&mut self.services, i, &legacy);
                assert(self.services.deep_view() == target);
            },
            None => {
                assert(primary_public_index(e.services) is None);
            },
        }
        assert(self.services.deep_view() == target);
        self.domain = None;
        self.domains = Vec::new();
        proof {
            assert(self.domains.deep_view() =~= Seq::<Seq<char>>::empty());
            assert(self.deep_view() =~= (ProjectModel {
                services: target,
                domain: None,
                domains: Seq::empty(),
                ..e
            }));
        }
    }

    /// A copy of the project using the service deployment model.
    pub fn normalized_for_service_model(&self) -> (r: Project)
        ensures
            r.deep_view() == normalized(self.deep_view()),
    {
        let mut project = self.dup();
        project.normalize_legacy_domains_into_services();
        project
    }

    /// All custom domains of the project: the legacy project-level ones,
    /// then those of every service, each listed once.
    pub fn custom_domains(&self) -> (r: Vec<String>)
        ensures
            r.deep_view() == all_custom_domains(self.deep_view()),
    {
        let mut domains = self.legacy_custom_domains();
        let ghost legacy = domains.deep_view();
        let mut i: usize = 0;
        proof {
            assert(self.services.deep_view().take(0) =~= Seq::<ServiceModel>::empty());
        }
        while i < self.services.len()
            invariant
                i <= self.services@.len(),
                domains.deep_view() == service_domains_from(
                    legacy,
                    self.services.deep_view().take(i as int),
                ),
            decreases self.services.len() - i,
        {
            proof {
                assert(self.services.deep_view().take(i + 1).drop_last()
                    =~= self.services.deep_view().take(i as int));
            }
            extend_unique(&mut domains, &self.services[i].domains, false);
            i = i + 1;
        }
        proof {
            assert(self.services.deep_view().take(self.services@.len() as int)
                =~= self.services.deep_view());
        }
        domains
    }

    /// Sets the custom domains, dropping blank ones; the legacy single domain
    /// becomes the first of them.
    pub fn set_domains(&mut self, domains: Vec<String>)
        ensures
            final(self).domains.deep_view() == non_blank(domains.deep_view()),
            final(self).domain.deep_view() == (if non_blank(domains.deep_view()).len() > 0 {
                Some(non_blank(domains.deep_view())[0])
            } else {
                None
            }),
            final(self).deep_view() == (ProjectModel {
                domains: final(self).deep_view().domains,
                domain: final(self).deep_view().domain,
                ..old(self).deep_view()
            }),
    {
        let mut kept: Vec<String> = Vec::new();
        let mut i: usize = 0;
        let ghost dv = domains.deep_view();
        let ghost pred = |d: Seq<char>| !blank(d);
        proof {
            assert(dv.take(0).filter(pred) =~= Seq::<Seq<char>>::empty());
        }
        while i < domains.len()
            invariant
                i <= domains@.len(),
                dv == domains.deep_view(),
                pred == (|d: Seq<char>| !blank(d)),
                kept.deep_view() == dv.take(i as int).filter(pred),
            decreases domains.len() - i,
        {
            proof {
                assert(dv.take(i + 1).drop_last() =~= dv.take(i as int));
                reveal(Seq::filter);
            }
            if !is_blank(domains[i].as_str()) {
                push_deep(&mut kept, domains[i].dup());
            }
            i = i + 1;
        }
        proof {
            assert(dv.take(domains@.len() as int) =~= dv);
        }
        let first = if kept.len() > 0 {
            Some(kept[0].dup())
        } else {
            None
        };
        self.domain = first;
        self.domains = kept;
        proof {
            assert(self.deep_view() =~= ProjectModel {
                domains: self.deep_view().domains,
                domain: self.deep_view().domain,
                ..old(self).deep_view()
            });
        }
    }

    /// The docker network name of the project: "containr-" and its identifier.
    pub fn network_name(&self) -> (r: String)
        ensures
            r@ == "containr-"@ + uuid_text(self.id),
    {
        let id = uuid_string(self.id);
        concat2("containr-", id.as_str())
    }
}

/// Validity of a certificate at an instant.
#[derive(Debug, Clone, Copy, PartialEq, Eq, Structural)]
pub enum CertificateStatus {
    Missing,
    Pending,
    Valid,
    ExpiringSoon,
    Expired,
    Failed,
}

/// Seconds in thirty days: certificates expiring within this window are
/// due for renewal.
pub const RENEWAL_WINDOW_SECS: i64 = 2_592_000;

/// The status of a certificate that expires at `expires_at`, seen at `now`.
pub open spec fn certificate_status_at(expires_at: Timestamp, now: Timestamp) -> CertificateStatus {
    if ts_before(expires_at, now) {
        CertificateStatus::Expired
    } else if expires_at.secs < now.secs + RENEWAL_WINDOW_SECS || (expires_at.secs == now.secs
        + RENEWAL_WINDOW_SECS && expires_at.nanos < now.nanos) {
        CertificateStatus::ExpiringSoon
    } else {
        CertificateStatus::Valid
    }
}

/// A TLS certificate managed through ACME.
#[derive(Debug, Clone)]
pub struct Certificate {
    pub id: u128,
    pub domain: String,
    pub cert_pem: String,
    pub key_pem: String,
    pub expires_at: Timestamp,
    pub created_at: Timestamp,
}

impl Certificate {
    /// A certificate record with the given identifier and creation time.
    pub fn new_with(
        id: u128,
        domain: String,
        cert_pem: String,
        key_pem: String,
        expires_at: Timestamp,
        now: Timestamp,
    ) -> (r: Certificate)
        ensures
            r.id == id,
            r.domain@ == domain@,
            r.cert_pem@ == cert_pem@,
            r.key_pem@ == key_pem@,
            r.expires_at == expires_at,
            r.created_at == now,
    {
        Certificate { id, domain, cert_pem, key_pem, expires_at, created_at: now }
    }

    /// A certificate record with a fresh identifier, created now.
    pub fn new(domain: String, cert_pem: String, key_pem: String, expires_at: Timestamp) -> (r:
        Certificate)
        ensures
            r.domain@ == domain@,
            r.cert_pem@ == cert_pem@,
            r.key_pem@ == key_pem@,
            r.expires_at == expires_at,
    {
        Self::new_with(fresh_id(), domain, cert_pem, key_pem, expires_at, clock_now())
    }

    /// The status at `now`: expired once past its expiry, expiring soon
    /// within thirty days of it, valid otherwise.
    pub fn status_at(&self, now: Timestamp) -> (r: CertificateStatus)
        ensures
            r == certificate_status_at(self.expires_at, now),
    {
        if crate::ids::timestamp_before(self.expires_at, now) {
            CertificateStatus::Expired
        } else if now.secs > i64::MAX - RENEWAL_WINDOW_SECS {
            // Thirty days after `now` lies beyond every representable
            // instant, so the expiry falls within the window.
            CertificateStatus::ExpiringSoon
        } else {
            let horizon = Timestamp { secs: now.secs + RENEWAL_WINDOW_SECS, nanos: now.nanos };
            if crate::ids::timestamp_before(self.expires_at, horizon) {
                CertificateStatus::ExpiringSoon
            } else {
                CertificateStatus::Valid
            }
        }
    }

    /// The status at the current time, whatever instant the clock reads.
    pub fn status(&self) -> (r: CertificateStatus)
        ensures
            exists|now: Timestamp| r == certificate_status_at(self.expires_at, now),
    {
        let now = clock_now();
        let r = self.status_at(now);
        assert(r == certificate_status_at(self.expires_at, now));
        r
    }
}


/// The primary public service, when there is one, is a public service of
/// the list.
pub proof fn lemma_primary_public_index(services: Seq<ServiceModel>)
    ensures
        primary_public_index(services) matches Some(i) ==> 0 <= i < services.len() && public(
            services[i],
        ),
        primary_public_index(services) is None ==> forall|i: int|
            0 <= i < services.len() ==> !public(#[trigger] services[i]),
        (exists|i: int| 0 <= i < services.len() && public(services[i]) && services[i].name == "web"@)
            ==> (primary_public_index(services) matches Some(i) && services[i].name == "web"@),
{
    reveal(primary_public_index);
    if exists|i: int| 0 <= i < services.len() && public(services[i]) && services[i].name == "web"@ {
        let k = choose|i: int|
            0 <= i < services.len() && public(services[i]) && services[i].name == "web"@;
        lemma_first_public_web_exists(services, k);
    } else if exists|i: int| 0 <= i < services.len() && public(services[i]) {
        let k = choose|i: int| 0 <= i < services.len() && public(services[i]);
        lemma_first_public_exists(services, k);
    }
}

proof fn lemma_first_public_web_exists(services: Seq<ServiceModel>, k: int)
    requires
        0 <= k < services.len(),
        public(services[k]) && services[k].name == "web"@,
    ensures
        exists|i: int|
            0 <= i < services.len() && public(services[i]) && services[i].name == "web"@ && (
            forall|j: int| 0 <= j < i ==> !(public(services[j]) && services[j].name == "web"@)),
    decreases k,
{
    if exists|j: int| 0 <= j < k && public(services[j]) && services[j].name == "web"@ {
        let j = choose|j: int| 0 <= j < k && public(services[j]) && services[j].name == "web"@;
        lemma_first_public_web_exists(services, j);
    }
}

proof fn lemma_first_public_exists(services: Seq<ServiceModel>, k: int)
    requires
        0 <= k < services.len(),
        public(services[k]),
    ensures
        exists|i: int|
            0 <= i < services.len() && public(services[i]) && (forall|j: int|
                0 <= j < i ==> !public(services[j])),
    decreases k,
{
    if exists|j: int| 0 <= j < k && public(services[j]) {
        let j = choose|j: int| 0 <= j < k && public(services[j]);
        lemma_first_public_exists(services, j);
    }
}

/// Normalizing a project a second time changes nothing.
pub proof fn lemma_normalization_idempotent(p: ProjectModel)
    ensures
        normalized(normalized(p)) == normalized(p),
{
    let e = ensured(p);
    lemma_primary_public_index(e.services);
    assert(e.services.len() > 0);
    let q = normalized(p);
    assert(q.services.len() == e.services.len());
    assert(ensured(q) == q);
    if legacy_domains(e).len() > 0 {
        assert(legacy_domains(q) =~= Seq::<Seq<char>>::empty());
    }
}

/// The union of the domains of a list of services.
pub open spec fn services_domain_set(services: Seq<ServiceModel>) -> Set<Seq<char>>
    decreases services.len(),
{
    if services.len() == 0 {
        Set::empty()
    } else {
        services_domain_set(services.drop_last()) + services.last().domains.to_set()
    }
}

proof fn lemma_add_unique_set(acc: Seq<Seq<char>>, items: Seq<Seq<char>>)
    ensures
        add_unique(acc, items).to_set() == acc.to_set() + items.to_set(),
    decreases items.len(),
{
    if items.len() > 0 {
        let prev = add_unique(acc, items.drop_last());
        lemma_add_unique_set(acc, items.drop_last());
        let d = items.last();
        assert(items.to_set() =~= items.drop_last().to_set().insert(d)) by {
            assert forall|x: Seq<char>| items.to_set().contains(x) <==> items.drop_last().to_set().insert(d).contains(x) by {
                if items.contains(x) {
                    let k = choose|k: int| 0 <= k < items.len() && items[k] == x;
                    if k < items.len() - 1 {
                        assert(items.drop_last()[k] == x);
                    }
                }
                if items.drop_last().contains(x) {
                    let k = choose|k: int| 0 <= k < items.drop_last().len() && items.drop_last()[k] == x;
                    assert(items[k] == x);
                }
                if x == d {
                    assert(items[items.len() - 1] == x);
                }
            }
        }
        if !prev.contains(d) {
            assert(prev.push(d).to_set() =~= prev.to_set().insert(d)) by {
                assert forall|x: Seq<char>| prev.push(d).to_set().contains(x) <==> prev.to_set().insert(d).contains(x) by {
                    if prev.push(d).contains(x) {
                        let k = choose|k: int| 0 <= k < prev.push(d).len() && prev.push(d)[k] == x;
                        if k < prev.len() {
                            assert(prev[k] == x);
                        }
                    }
                    if prev.contains(x) {
                        let k = choose|k: int| 0 <= k < prev.len() && prev[k] == x;
                        assert(prev.push(d)[k] == x);
                    }
                    if x == d {
                        assert(prev.push(d)[prev.len() as int] == x);
                    }
                }
            }
        } else {
            assert(prev.to_set().contains(d));
        }
        assert(add_unique(acc, items).to_set() =~= acc.to_set() + items.to_set());
    } else {
        assert(items.to_set() =~= Set::<Seq<char>>::empty());
        assert(add_unique(acc, items).to_set() =~= acc.to_set() + items.to_set());
    }
}

proof fn lemma_service_domains_set(acc: Seq<Seq<char>>, services: Seq<ServiceModel>)
    ensures
        service_domains_from(acc, services).to_set() == acc.to_set() + services_domain_set(services),
    decreases services.len(),
{
    if services.len() > 0 {
        lemma_service_domains_set(acc, services.drop_last());
        lemma_add_unique_set(service_domains_from(acc, services.drop_last()), services.last().domains);
        assert(service_domains_from(acc, services).to_set() =~= acc.to_set() + services_domain_set(services));
    } else {
        assert(service_domains_from(acc, services).to_set() =~= acc.to_set() + services_domain_set(services));
    }
}

proof fn lemma_domain_set_update(services: Seq<ServiceModel>, i: int, s: ServiceModel, extra: Set<Seq<char>>)
    requires
        0 <= i < services.len(),
        s.domains.to_set() == services[i].domains.to_set() + extra,
    ensures
        services_domain_set(services.update(i, s)) == services_domain_set(services) + extra,
    decreases services.len(),
{
    let u = services.update(i, s);
    let n = services.len() - 1;
    if i == n {
        assert(u.drop_last() =~= services.drop_last());
        assert(services_domain_set(u) =~= services_domain_set(services) + extra);
    } else {
        lemma_domain_set_update(services.drop_last(), i, s, extra);
        assert(u.drop_last() =~= services.drop_last().update(i, s));
        assert(services_domain_set(u) =~= services_domain_set(services) + extra);
    }
}

/// Moving legacy domains onto the primary public service keeps the set of
/// the project's custom domains, provided there is such a service once the
/// project has one (or nothing moves).
pub proof fn lemma_normalization_keeps_domains(p: ProjectModel)
    requires
        legacy_domains(p).len() == 0 || primary_public_index(ensured(p).services) is Some,
    ensures
        all_custom_domains(normalized(p)).to_set() == all_custom_domains(p).to_set(),
{
    let e = ensured(p);
    let legacy = legacy_domains(e);
    assert(legacy_domains(e) == legacy_domains(p));
    lemma_service_domains_set(legacy_domains(p), p.services);
    lemma_service_domains_set(legacy, e.services);
    if p.services.len() == 0 {
        let w = promoted_web_service(p);
        assert(w.domains.to_set() =~= Set::<Seq<char>>::empty());
        assert(e.services.drop_last() =~= Seq::<ServiceModel>::empty());
        assert(e.services.last() == w);
        assert(services_domain_set(e.services.drop_last()) =~= Set::<Seq<char>>::empty());
        assert(services_domain_set(e.services) =~= services_domain_set(p.services));
    }
    if legacy.len() > 0 {
        let q = normalized(p);
        lemma_primary_public_index(e.services);
        let i = primary_public_index(e.services)->0;
        let s = ServiceModel { domains: add_unique(e.services[i].domains, legacy), ..e.services[i] };
        lemma_add_unique_set(e.services[i].domains, legacy);
        lemma_domain_set_update(e.services, i, s, legacy.to_set());
        assert(legacy_domains(q) =~= Seq::<Seq<char>>::empty());
        lemma_service_domains_set(legacy_domains(q), q.services);
        assert(Seq::<Seq<char>>::empty().to_set() =~= Set::<Seq<char>>::empty());
        assert(all_custom_domains(q).to_set() =~= all_custom_domains(p).to_set());
    }
}


/// How far along its life a certificate status is: valid, then expiring
/// soon, then expired.
pub open spec fn status_stage(s: CertificateStatus) -> int {
    match s {
        CertificateStatus::ExpiringSoon => 1,
        CertificateStatus::Expired => 2,
        _ => 0,
    }
}

/// As time passes a certificate's status only moves forward: from valid to
/// expiring soon to expired.
pub proof fn lemma_certificate_status_monotone(expires_at: Timestamp, earlier: Timestamp, later: Timestamp)
    requires
        !ts_before(later, earlier),
    ensures
        status_stage(certificate_status_at(expires_at, earlier)) <= status_stage(
            certificate_status_at(expires_at, later),
        ),
{
}

} // verus!
