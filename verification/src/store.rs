//! How records are stored: the names enums are stored under, integer
//! column conversions, and the detection of the old key-value tables.
use vstd::prelude::*;

use crate::managed::{DatabaseType, QueueType, ServiceStatus};
use crate::models::{
    CertificateStatus, DeploymentStatus, RestartPolicy, RolloutStrategy, ServiceHealth, ServiceType,
};
use crate::dup::Dup;
use crate::text::{concat2, dec, dec_string, str_eq};

verus! {

/// The name a `DeploymentStatus` is stored under (its serialized form).
pub open spec fn deployment_status_code(x: DeploymentStatus) -> Seq<char> {
    match x {
        DeploymentStatus::Pending => "pending"@,
        DeploymentStatus::Cloning => "cloning"@,
        DeploymentStatus::Building => "building"@,
        DeploymentStatus::Pushing => "pushing"@,
        DeploymentStatus::Starting => "starting"@,
        DeploymentStatus::Running => "running"@,
        DeploymentStatus::Failed => "failed"@,
        DeploymentStatus::Stopped => "stopped"@,
    }
}

/// The stored name of a `DeploymentStatus`.
pub fn encode_deployment_status(x: DeploymentStatus) -> (r: &'static str)
    ensures
        r@ == deployment_status_code(x),
{
    match x {
        DeploymentStatus::Pending => "pending",
        DeploymentStatus::Cloning => "cloning",
        DeploymentStatus::Building => "building",
        DeploymentStatus::Pushing => "pushing",
        DeploymentStatus::Starting => "starting",
        DeploymentStatus::Running => "running",
        DeploymentStatus::Failed => "failed",
        DeploymentStatus::Stopped => "stopped",
    }
}

/// The `DeploymentStatus` stored under a name, if any.
pub fn decode_deployment_status(s: &str) -> (r: Option<DeploymentStatus>)
    ensures
        match r {
            Some(x) => deployment_status_code(x) == s@,
            None => forall|x: DeploymentStatus| deployment_status_code(x) != s@,
        },
{
    proof {
        reveal_strlit("pending");
        reveal_strlit("cloning");
        reveal_strlit("building");
        reveal_strlit("pushing");
        reveal_strlit("starting");
        reveal_strlit("running");
        reveal_strlit("failed");
        reveal_strlit("stopped");
    }
    if str_eq(s, "pending") {
        Some(DeploymentStatus::Pending)
    } else if str_eq(s, "cloning") {
        Some(DeploymentStatus::Cloning)
    } else if str_eq(s, "building") {
        Some(DeploymentStatus::Building)
    } else if str_eq(s, "pushing") {
        Some(DeploymentStatus::Pushing)
    } else if str_eq(s, "starting") {
        Some(DeploymentStatus::Starting)
    } else if str_eq(s, "running") {
        Some(DeploymentStatus::Running)
    } else if str_eq(s, "failed") {
        Some(DeploymentStatus::Failed)
    } else if str_eq(s, "stopped") {
        Some(DeploymentStatus::Stopped)
    } else {
        None
    }
}

/// Distinct `DeploymentStatus` values are stored under distinct names, so reading back
/// a stored value gives that value.
pub proof fn lemma_deployment_status_codes_distinct(x: DeploymentStatus, y: DeploymentStatus)
    ensures
        deployment_status_code(x) == deployment_status_code(y) ==> x == y,
{
    reveal_strlit("pending");
    reveal_strlit("cloning");
    reveal_strlit("building");
    reveal_strlit("pushing");
    reveal_strlit("starting");
    reveal_strlit("running");
    reveal_strlit("failed");
    reveal_strlit("stopped");
    if deployment_status_code(x) == deployment_status_code(y) {
        assert(deployment_status_code(x).len() == deployment_status_code(y).len());
        assert(deployment_status_code(x)[0] == deployment_status_code(y)[0]);
        assert(deployment_status_code(x)[1] == deployment_status_code(y)[1]);
    }
}

/// The name a `RolloutStrategy` is stored under (its serialized form).
pub open spec fn rollout_strategy_code(x: RolloutStrategy) -> Seq<char> {
    match x {
        RolloutStrategy::StopFirst => "stop_first"@,
        RolloutStrategy::StartFirst => "start_first"@,
    }
}

/// The stored name of a `RolloutStrategy`.
pub fn encode_rollout_strategy(x: RolloutStrategy) -> (r: &'static str)
    ensures
        r@ == rollout_strategy_code(x),
{
    match x {
        RolloutStrategy::StopFirst => "stop_first",
        RolloutStrategy::StartFirst => "start_first",
    }
}

/// The `RolloutStrategy` stored under a name, if any.
pub fn decode_rollout_strategy(s: &str) -> (r: Option<RolloutStrategy>)
    ensures
        match r {
            Some(x) => rollout_strategy_code(x) == s@,
            None => forall|x: RolloutStrategy| rollout_strategy_code(x) != s@,
        },
{
    proof {
        reveal_strlit("stop_first");
        reveal_strlit("start_first");
    }
    if str_eq(s, "stop_first") {
        Some(RolloutStrategy::StopFirst)
    } else if str_eq(s, "start_first") {
        Some(RolloutStrategy::StartFirst)
    } else {
        None
    }
}

/// Distinct `RolloutStrategy` values are stored under distinct names, so reading back
/// a stored value gives that value.
pub proof fn lemma_rollout_strategy_codes_distinct(x: RolloutStrategy, y: RolloutStrategy)
    ensures
        rollout_strategy_code(x) == rollout_strategy_code(y) ==> x == y,
{
    reveal_strlit("stop_first");
    reveal_strlit("start_first");
    if rollout_strategy_code(x) == rollout_strategy_code(y) {
        assert(rollout_strategy_code(x).len() == rollout_strategy_code(y).len());
    }
}

/// The name a `ServiceHealth` is stored under (its serialized form).
pub open spec fn service_health_code(x: ServiceHealth) -> Seq<char> {
    match x {
        ServiceHealth::Unknown => "unknown"@,
        ServiceHealth::Healthy => "healthy"@,
        ServiceHealth::Unhealthy => "unhealthy"@,
        ServiceHealth::Starting => "starting"@,
    }
}

/// The stored name of a `ServiceHealth`.
pub fn encode_service_health(x: ServiceHealth) -> (r: &'static str)
    ensures
        r@ == service_health_code(x),
{
    match x {
        ServiceHealth::Unknown => "unknown",
        ServiceHealth::Healthy => "healthy",
        ServiceHealth::Unhealthy => "unhealthy",
        ServiceHealth::Starting => "starting",
    }
}

/// The `ServiceHealth` stored under a name, if any.
pub fn decode_service_health(s: &str) -> (r: Option<ServiceHealth>)
    ensures
        match r {
            Some(x) => service_health_code(x) == s@,
            None => forall|x: ServiceHealth| service_health_code(x) != s@,
        },
{
    proof {
        reveal_strlit("unknown");
        reveal_strlit("healthy");
        reveal_strlit("unhealthy");
        reveal_strlit("starting");
    }
    if str_eq(s, "unknown") {
        Some(ServiceHealth::Unknown)
    } else if str_eq(s, "healthy") {
        Some(ServiceHealth::Healthy)
    } else if str_eq(s, "unhealthy") {
        Some(ServiceHealth::Unhealthy)
    } else if str_eq(s, "starting") {
        Some(ServiceHealth::Starting)
    } else {
        None
    }
}

/// Distinct `ServiceHealth` values are stored under distinct names, so reading back
/// a stored value gives that value.
pub proof fn lemma_service_health_codes_distinct(x: ServiceHealth, y: ServiceHealth)
    ensures
        service_health_code(x) == service_health_code(y) ==> x == y,
{
    reveal_strlit("unknown");
    reveal_strlit("healthy");
    reveal_strlit("unhealthy");
    reveal_strlit("starting");
    if service_health_code(x) == service_health_code(y) {
        assert(service_health_code(x).len() == service_health_code(y).len());
        assert(service_health_code(x)[0] == service_health_code(y)[0]);
    }
}

/// The name a `RestartPolicy` is stored under (its serialized form).
pub open spec fn restart_policy_code(x: RestartPolicy) -> Seq<char> {
    match x {
        RestartPolicy::Never => "never"@,
        RestartPolicy::Always => "always"@,
        RestartPolicy::OnFailure => "onfailure"@,
    }
}

/// The stored name of a `RestartPolicy`.
pub fn encode_restart_policy(x: RestartPolicy) -> (r: &'static str)
    ensures
        r@ == restart_policy_code(x),
{
    match x {
        RestartPolicy::Never => "never",
        RestartPolicy::Always => "always",
        RestartPolicy::OnFailure => "onfailure",
    }
}

/// The `RestartPolicy` stored under a name, if any.
pub fn decode_restart_policy(s: &str) -> (r: Option<RestartPolicy>)
    ensures
        match r {
            Some(x) => restart_policy_code(x) == s@,
            None => forall|x: RestartPolicy| restart_policy_code(x) != s@,
        },
{
    proof {
        reveal_strlit("never");
        reveal_strlit("always");
        reveal_strlit("onfailure");
    }
    if str_eq(s, "never") {
        Some(RestartPolicy::Never)
    } else if str_eq(s, "always") {
        Some(RestartPolicy::Always)
    } else if str_eq(s, "onfailure") {
        Some(RestartPolicy::OnFailure)
    } else {
        None
    }
}

/// Distinct `RestartPolicy` values are stored under distinct names, so reading back
/// a stored value gives that value.
pub proof fn lemma_restart_policy_codes_distinct(x: RestartPolicy, y: RestartPolicy)
    ensures
        restart_policy_code(x) == restart_policy_code(y) ==> x == y,
{
    reveal_strlit("never");
    reveal_strlit("always");
    reveal_strlit("onfailure");
    if restart_policy_code(x) == restart_policy_code(y) {
        assert(restart_policy_code(x).len() == restart_policy_code(y).len());
    }
}

/// The name a `ServiceType` is stored under (its serialized form).
pub open spec fn service_type_code(x: ServiceType) -> Seq<char> {
    match x {
        ServiceType::WebService => "web_service"@,
        ServiceType::PrivateService => "private_service"@,
        ServiceType::BackgroundWorker => "background_worker"@,
        ServiceType::CronJob => "cron_job"@,
        ServiceType::Postgres => "postgres"@,
        ServiceType::Redis => "redis"@,
        ServiceType::Mariadb => "mariadb"@,
        ServiceType::Qdrant => "qdrant"@,
        ServiceType::RabbitMq => "rabbit_mq"@,
    }
}

/// The stored name of a `ServiceType`.
pub fn encode_service_type(x: ServiceType) -> (r: &'static str)
    ensures
        r@ == service_type_code(x),
{
    match x {
        ServiceType::WebService => "web_service",
        ServiceType::PrivateService => "private_service",
        ServiceType::BackgroundWorker => "background_worker",
        ServiceType::CronJob => "cron_job",
        ServiceType::Postgres => "postgres",
        ServiceType::Redis => "redis",
        ServiceType::Mariadb => "mariadb",
        ServiceType::Qdrant => "qdrant",
        ServiceType::RabbitMq => "rabbit_mq",
    }
}

/// The `ServiceType` stored under a name, if any.
pub fn decode_service_type(s: &str) -> (r: Option<ServiceType>)
    ensures
        match r {
            Some(x) => service_type_code(x) == s@,
            None => forall|x: ServiceType| service_type_code(x) != s@,
        },
{
    proof {
        reveal_strlit("web_service");
        reveal_strlit("private_service");
        reveal_strlit("background_worker");
        reveal_strlit("cron_job");
        reveal_strlit("postgres");
        reveal_strlit("redis");
        reveal_strlit("mariadb");
        reveal_strlit("qdrant");
        reveal_strlit("rabbit_mq");
    }
    if str_eq(s, "web_service") {
        Some(ServiceType::WebService)
    } else if str_eq(s, "private_service") {
        Some(ServiceType::PrivateService)
    } else if str_eq(s, "background_worker") {
        Some(ServiceType::BackgroundWorker)
    } else if str_eq(s, "cron_job") {
        Some(ServiceType::CronJob)
    } else if str_eq(s, "postgres") {
        Some(ServiceType::Postgres)
    } else if str_eq(s, "redis") {
        Some(ServiceType::Redis)
    } else if str_eq(s, "mariadb") {
        Some(ServiceType::Mariadb)
    } else if str_eq(s, "qdrant") {
        Some(ServiceType::Qdrant)
    } else if str_eq(s, "rabbit_mq") {
        Some(ServiceType::RabbitMq)
    } else {
        None
    }
}

/// Distinct `ServiceType` values are stored under distinct names, so reading back
/// a stored value gives that value.
pub proof fn lemma_service_type_codes_distinct(x: ServiceType, y: ServiceType)
    ensures
        service_type_code(x) == service_type_code(y) ==> x == y,
{
    reveal_strlit("web_service");
    reveal_strlit("private_service");
    reveal_strlit("background_worker");
    reveal_strlit("cron_job");
    reveal_strlit("postgres");
    reveal_strlit("redis");
    reveal_strlit("mariadb");
    reveal_strlit("qdrant");
    reveal_strlit("rabbit_mq");
    if service_type_code(x) == service_type_code(y) {
        assert(service_type_code(x).len() == service_type_code(y).len());
        assert(service_type_code(x)[0] == service_type_code(y)[0]);
    }
}

/// The name a `ServiceStatus` is stored under (its serialized form).
pub open spec fn service_status_code(x: ServiceStatus) -> Seq<char> {
    match x {
        ServiceStatus::Pending => "pending"@,
        ServiceStatus::Starting => "starting"@,
        ServiceStatus::Running => "running"@,
        ServiceStatus::Stopped => "stopped"@,
        ServiceStatus::Failed => "failed"@,
    }
}

/// The stored name of a `ServiceStatus`.
pub fn encode_service_status(x: ServiceStatus) -> (r: &'static str)
    ensures
        r@ == service_status_code(x),
{
    match x {
        ServiceStatus::Pending => "pending",
        ServiceStatus::Starting => "starting",
        ServiceStatus::Running => "running",
        ServiceStatus::Stopped => "stopped",
        ServiceStatus::Failed => "failed",
    }
}

/// The `ServiceStatus` stored under a name, if any.
pub fn decode_service_status(s: &str) -> (r: Option<ServiceStatus>)
    ensures
        match r {
            Some(x) => service_status_code(x) == s@,
            None => forall|x: ServiceStatus| service_status_code(x) != s@,
        },
{
    proof {
        reveal_strlit("pending");
        reveal_strlit("starting");
        reveal_strlit("running");
        reveal_strlit("stopped");
        reveal_strlit("failed");
    }
    if str_eq(s, "pending") {
        Some(ServiceStatus::Pending)
    } else if str_eq(s, "starting") {
        Some(ServiceStatus::Starting)
    } else if str_eq(s, "running") {
        Some(ServiceStatus::Running)
    } else if str_eq(s, "stopped") {
        Some(ServiceStatus::Stopped)
    } else if str_eq(s, "failed") {
        Some(ServiceStatus::Failed)
    } else {
        None
    }
}

/// Distinct `ServiceStatus` values are stored under distinct names, so reading back
/// a stored value gives that value.
pub proof fn lemma_service_status_codes_distinct(x: ServiceStatus, y: ServiceStatus)
    ensures
        service_status_code(x) == service_status_code(y) ==> x == y,
{
    reveal_strlit("pending");
    reveal_strlit("starting");
    reveal_strlit("running");
    reveal_strlit("stopped");
    reveal_strlit("failed");
    if service_status_code(x) == service_status_code(y) {
        assert(service_status_code(x).len() == service_status_code(y).len());
        assert(service_status_code(x)[0] == service_status_code(y)[0]);
    }
}

/// The name a `DatabaseType` is stored under (its serialized form).
pub open spec fn database_type_code(x: DatabaseType) -> Seq<char> {
    match x {
        DatabaseType::Postgresql => "postgresql"@,
        DatabaseType::Mariadb => "mariadb"@,
        DatabaseType::Valkey => "valkey"@,
        DatabaseType::Qdrant => "qdrant"@,
    }
}

/// The stored name of a `DatabaseType`.
pub fn encode_database_type(x: DatabaseType) -> (r: &'static str)
    ensures
        r@ == database_type_code(x),
{
    match x {
        DatabaseType::Postgresql => "postgresql",
        DatabaseType::Mariadb => "mariadb",
        DatabaseType::Valkey => "valkey",
        DatabaseType::Qdrant => "qdrant",
    }
}

/// The `DatabaseType` stored under a name, if any.
pub fn decode_database_type(s: &str) -> (r: Option<DatabaseType>)
    ensures
        match r {
            Some(x) => database_type_code(x) == s@,
            None => forall|x: DatabaseType| database_type_code(x) != s@,
        },
{
    proof {
        reveal_strlit("postgresql");
        reveal_strlit("mariadb");
        reveal_strlit("valkey");
        reveal_strlit("qdrant");
    }
    if str_eq(s, "postgresql") {
        Some(DatabaseType::Postgresql)
    } else if str_eq(s, "mariadb") {
        Some(DatabaseType::Mariadb)
    } else if str_eq(s, "valkey") {
        Some(DatabaseType::Valkey)
    } else if str_eq(s, "qdrant") {
        Some(DatabaseType::Qdrant)
    } else {
        None
    }
}

/// Distinct `DatabaseType` values are stored under distinct names, so reading back
/// a stored value gives that value.
pub proof fn lemma_database_type_codes_distinct(x: DatabaseType, y: DatabaseType)
    ensures
        database_type_code(x) == database_type_code(y) ==> x == y,
{
    reveal_strlit("postgresql");
    reveal_strlit("mariadb");
    reveal_strlit("valkey");
    reveal_strlit("qdrant");
    if database_type_code(x) == database_type_code(y) {
        assert(database_type_code(x).len() == database_type_code(y).len());
        assert(database_type_code(x)[0] == database_type_code(y)[0]);
    }
}

/// The name a `QueueType` is stored under (its serialized form).
pub open spec fn queue_type_code(x: QueueType) -> Seq<char> {
    match x {
        QueueType::Rabbitmq => "rabbitmq"@,
        QueueType::Nats => "nats"@,
    }
}

/// The stored name of a `QueueType`.
pub fn encode_queue_type(x: QueueType) -> (r: &'static str)
    ensures
        r@ == queue_type_code(x),
{
    match x {
        QueueType::Rabbitmq => "rabbitmq",
        QueueType::Nats => "nats",
    }
}

/// The `QueueType` stored under a name, if any.
pub fn decode_queue_type(s: &str) -> (r: Option<QueueType>)
    ensures
        match r {
            Some(x) => queue_type_code(x) == s@,
            None => forall|x: QueueType| queue_type_code(x) != s@,
        },
{
    proof {
        reveal_strlit("rabbitmq");
        reveal_strlit("nats");
    }
    if str_eq(s, "rabbitmq") {
        Some(QueueType::Rabbitmq)
    } else if str_eq(s, "nats") {
        Some(QueueType::Nats)
    } else {
        None
    }
}

/// Distinct `QueueType` values are stored under distinct names, so reading back
/// a stored value gives that value.
pub proof fn lemma_queue_type_codes_distinct(x: QueueType, y: QueueType)
    ensures
        queue_type_code(x) == queue_type_code(y) ==> x == y,
{
    reveal_strlit("rabbitmq");
    reveal_strlit("nats");
    if queue_type_code(x) == queue_type_code(y) {
        assert(queue_type_code(x).len() == queue_type_code(y).len());
    }
}

/// The name a `CertificateStatus` is stored under (its serialized form).
pub open spec fn certificate_status_code(x: CertificateStatus) -> Seq<char> {
    match x {
        CertificateStatus::Missing => "none"@,
        CertificateStatus::Pending => "pending"@,
        CertificateStatus::Valid => "valid"@,
        CertificateStatus::ExpiringSoon => "expiringsoon"@,
        CertificateStatus::Expired => "expired"@,
        CertificateStatus::Failed => "failed"@,
    }
}

/// The stored name of a `CertificateStatus`.
pub fn encode_certificate_status(x: CertificateStatus) -> (r: &'static str)
    ensures
        r@ == certificate_status_code(x),
{
    match x {
        CertificateStatus::Missing => "none",
        CertificateStatus::Pending => "pending",
        CertificateStatus::Valid => "valid",
        CertificateStatus::ExpiringSoon => "expiringsoon",
        CertificateStatus::Expired => "expired",
        CertificateStatus::Failed => "failed",
    }
}

/// The `CertificateStatus` stored under a name, if any.
pub fn decode_certificate_status(s: &str) -> (r: Option<CertificateStatus>)
    ensures
        match r {
            Some(x) => certificate_status_code(x) == s@,
            None => forall|x: CertificateStatus| certificate_status_code(x) != s@,
        },
{
    proof {
        reveal_strlit("none");
        reveal_strlit("pending");
        reveal_strlit("valid");
        reveal_strlit("expiringsoon");
        reveal_strlit("expired");
        reveal_strlit("failed");
    }
    if str_eq(s, "none") {
        Some(CertificateStatus::Missing)
    } else if str_eq(s, "pending") {
        Some(CertificateStatus::Pending)
    } else if str_eq(s, "valid") {
        Some(CertificateStatus::Valid)
    } else if str_eq(s, "expiringsoon") {
        Some(CertificateStatus::ExpiringSoon)
    } else if str_eq(s, "expired") {
        Some(CertificateStatus::Expired)
    } else if str_eq(s, "failed") {
        Some(CertificateStatus::Failed)
    } else {
        None
    }
}

/// Distinct `CertificateStatus` values are stored under distinct names, so reading back
/// a stored value gives that value.
pub proof fn lemma_certificate_status_codes_distinct(x: CertificateStatus, y: CertificateStatus)
    ensures
        certificate_status_code(x) == certificate_status_code(y) ==> x == y,
{
    reveal_strlit("none");
    reveal_strlit("pending");
    reveal_strlit("valid");
    reveal_strlit("expiringsoon");
    reveal_strlit("expired");
    reveal_strlit("failed");
    if certificate_status_code(x) == certificate_status_code(y) {
        assert(certificate_status_code(x).len() == certificate_status_code(y).len());
        assert(certificate_status_code(x)[0] == certificate_status_code(y)[0]);
    }
}

/// Decimal text of a signed integer, as `Display` writes it.
pub open spec fn int_text(v: i64) -> Seq<char> {
    if v < 0 {
        "-"@ + dec((-(v as int)) as nat)
    } else {
        dec(v as nat)
    }
}

fn int_string(v: i64) -> (r: String)
    ensures
        r@ == int_text(v),
{
    if v < 0 {
        let m: u64 = if v == i64::MIN {
            9223372036854775808u64
        } else {
            (-v) as u64
        };
        let d = dec_string(m);
        concat2("-", d.as_str())
    } else {
        dec_string(v as u64)
    }
}

/// The error text for a stored number out of its field's range.
pub open spec fn invalid_value_text(field: Seq<char>, value: Seq<char>) -> Seq<char> {
    "invalid "@ + field + " value: "@ + value
}

pub(crate) fn invalid_value(field: &str, value: &str) -> (r: String)
    ensures
        r@ == invalid_value_text(field@, value@),
{
    let mut r = concat2("invalid ", field);
    r.append(" value: ");
    r.append(value);
    r
}

/// A stored integer as a `u16`, or the error for a value out of range.
pub fn parse_u16(value: i64, field: &str) -> (r: Result<u16, String>)
    ensures
        0 <= value <= u16::MAX ==> r == Ok::<u16, String>(value as u16),
        !(0 <= value <= u16::MAX) ==> (r matches Err(e) && e@ == invalid_value_text(
            field@,
            int_text(value),
        )),
{
    if 0 <= value && value <= 65535 {
        Ok(value as u16)
    } else {
        Err(invalid_value(field, int_string(value).as_str()))
    }
}

/// A stored integer as a `u32`, or the error for a value out of range.
pub fn parse_u32(value: i64, field: &str) -> (r: Result<u32, String>)
    ensures
        0 <= value <= u32::MAX ==> r == Ok::<u32, String>(value as u32),
        !(0 <= value <= u32::MAX) ==> (r matches Err(e) && e@ == invalid_value_text(
            field@,
            int_text(value),
        )),
{
    if 0 <= value && value <= 4294967295 {
        Ok(value as u32)
    } else {
        Err(invalid_value(field, int_string(value).as_str()))
    }
}

/// A stored integer as a `u64`, or the error for a negative value.
pub fn parse_u64(value: i64, field: &str) -> (r: Result<u64, String>)
    ensures
        0 <= value ==> r == Ok::<u64, String>(value as u64),
        value < 0 ==> (r matches Err(e) && e@ == invalid_value_text(field@, int_text(value))),
{
    if 0 <= value {
        Ok(value as u64)
    } else {
        Err(invalid_value(field, int_string(value).as_str()))
    }
}

/// A `u64` as a stored integer, or the error for a value above `i64::MAX`.
pub fn u64_to_i64(value: u64, field: &str) -> (r: Result<i64, String>)
    ensures
        value <= i64::MAX ==> r == Ok::<i64, String>(value as i64),
        value > i64::MAX ==> (r matches Err(e) && e@ == invalid_value_text(
            field@,
            dec(value as nat),
        )),
{
    if value <= 9223372036854775807 {
        Ok(value as i64)
    } else {
        Err(invalid_value(field, dec_string(value).as_str()))
    }
}

/// `parse_u16` on an optional value.
pub fn transpose_i64_to_u16(value: Option<i64>, field: &str) -> (r: Result<Option<u16>, String>)
    ensures
        match value {
            None => r == Ok::<Option<u16>, String>(None),
            Some(v) => if 0 <= v <= u16::MAX {
                r == Ok::<Option<u16>, String>(Some(v as u16))
            } else {
                r matches Err(e) && e@ == invalid_value_text(field@, int_text(v))
            },
        },
{
    match value {
        None => Ok(None),
        Some(v) => match parse_u16(v, field) {
            Ok(x) => Ok(Some(x)),
            Err(e) => Err(e),
        },
    }
}

/// `parse_u64` on an optional value.
pub fn transpose_i64_to_u64(value: Option<i64>, field: &str) -> (r: Result<Option<u64>, String>)
    ensures
        match value {
            None => r == Ok::<Option<u64>, String>(None),
            Some(v) => if 0 <= v {
                r == Ok::<Option<u64>, String>(Some(v as u64))
            } else {
                r matches Err(e) && e@ == invalid_value_text(field@, int_text(v))
            },
        },
{
    match value {
        None => Ok(None),
        Some(v) => match parse_u64(v, field) {
            Ok(x) => Ok(Some(x)),
            Err(e) => Err(e),
        },
    }
}

/// `u64_to_i64` on an optional value.
pub fn transpose_u64_to_i64(value: Option<u64>, field: &str) -> (r: Result<Option<i64>, String>)
    ensures
        match value {
            None => r == Ok::<Option<i64>, String>(None),
            Some(v) => if v <= i64::MAX {
                r == Ok::<Option<i64>, String>(Some(v as i64))
            } else {
                r matches Err(e) && e@ == invalid_value_text(field@, dec(v as nat))
            },
        },
{
    match value {
        None => Ok(None),
        Some(v) => match u64_to_i64(v, field) {
            Ok(x) => Ok(Some(x)),
            Err(e) => Err(e),
        },
    }
}

/// A flag as a stored integer: 1 or 0.
pub fn bool_to_int(value: bool) -> (r: i64)
    ensures
        r == (if value {
            1int
        } else {
            0int
        }),
{
    if value {
        1
    } else {
        0
    }
}

/// A stored integer as a flag: anything but 0 is set.
pub fn int_to_bool(value: i64) -> (r: bool)
    ensures
        r == (value != 0),
{
    value != 0
}

/// The columns of a table from before the relational schema: exactly
/// "key" and "value".
pub open spec fn legacy_columns(columns: Seq<Seq<char>>) -> bool {
    columns == seq!["key"@, "value"@]
}

/// Whether a table with these columns (in order) is an old key-value table.
pub fn is_legacy_json_columns(columns: &Vec<String>) -> (r: bool)
    ensures
        r == legacy_columns(columns.deep_view()),
{
    proof {
        reveal_strlit("key");
        reveal_strlit("value");
    }
    if columns.len() != 2 {
        proof {
            assert(columns.deep_view().len() != 2);
        }
        return false;
    }
    let a = str_eq(columns[0].as_str(), "key");
    let b = str_eq(columns[1].as_str(), "value");
    proof {
        if a && b {
            assert(columns.deep_view() =~= seq!["key"@, "value"@]);
        }
        if !a {
            assert(columns.deep_view()[0] != seq!["key"@, "value"@][0]);
        }
        if !b {
            assert(columns.deep_view()[1] != seq!["key"@, "value"@][1]);
        }
    }
    a && b
}

/// Names joined with ", ".
pub open spec fn comma_joined(names: Seq<Seq<char>>) -> Seq<char>
    decreases names.len(),
{
    if names.len() == 0 {
        Seq::empty()
    } else if names.len() == 1 {
        names[0]
    } else {
        comma_joined(names.drop_last()) + ", "@ + names.last()
    }
}

/// The error for a database that still has old key-value tables.
pub fn legacy_tables_message(tables: &Vec<String>) -> (r: String)
    ensures
        r@ == "unsupported legacy sqlite json tables detected: "@ + comma_joined(tables.deep_view()),
{
    let ghost t = tables.deep_view();
    let mut joined = String::new();
    let mut i: usize = 0;
    proof {
        assert(t.take(0) =~= Seq::<Seq<char>>::empty());
    }
    while i < tables.len()
        invariant
            i <= tables@.len(),
            t == tables.deep_view(),
            joined@ == comma_joined(t.take(i as int)),
        decreases tables.len() - i,
    {
        proof {
            assert(t.take(i + 1).drop_last() =~= t.take(i as int));
        }
        if i > 0 {
            joined.append(", ");
        }
        joined.append(tables[i].as_str());
        proof {
            if i == 0 {
                assert(t.take(1).len() == 1);
                assert(joined@ =~= comma_joined(t.take(1)));
            }
        }
        i = i + 1;
    }
    proof {
        assert(t.take(t.len() as int) =~= t);
    }
    concat2("unsupported legacy sqlite json tables detected: ", joined.as_str())
}

/// The entity tables that a store from before the relational schema kept
/// as key-value tables, in the order they are checked and reported.
pub open spec fn entity_tables() -> Seq<Seq<char>> {
    seq![
        "users"@,
        "apps"@,
        "services"@,
        "service_deployments"@,
        "deployments"@,
        "certificates"@,
        "managed_databases"@,
        "managed_queues"@,
        "storage_buckets"@,
        "github_apps"@,
    ]
}

/// The names of the entity tables, in checking order.
pub fn entity_table_names() -> (r: Vec<String>)
    ensures
        r.deep_view() == entity_tables(),
{
    let r = vec![
        crate::text::owned("users"),
        crate::text::owned("apps"),
        crate::text::owned("services"),
        crate::text::owned("service_deployments"),
        crate::text::owned("deployments"),
        crate::text::owned("certificates"),
        crate::text::owned("managed_databases"),
        crate::text::owned("managed_queues"),
        crate::text::owned("storage_buckets"),
        crate::text::owned("github_apps"),
    ];
    proof {
        assert(r.deep_view() =~= entity_tables());
    }
    r
}

/// The columns read for the `i`-th entity table: the `i`-th list when
/// there is one, else none (a table that does not exist has no columns).
pub open spec fn columns_of(columns: Seq<Seq<Seq<char>>>, i: int) -> Seq<Seq<char>> {
    if 0 <= i < columns.len() {
        columns[i]
    } else {
        Seq::empty()
    }
}

/// The first `n` entity tables whose columns are those of a key-value
/// table, in checking order.
pub open spec fn legacy_among(columns: Seq<Seq<Seq<char>>>, n: int) -> Seq<Seq<char>>
    decreases n,
{
    if n <= 0 {
        Seq::empty()
    } else {
        legacy_among(columns, n - 1) + if legacy_columns(columns_of(columns, n - 1)) {
            seq![entity_tables()[n - 1]]
        } else {
            Seq::empty()
        }
    }
}

/// The entity tables still kept as key-value tables, in checking order;
/// `columns[i]` lists the column names of the `i`-th entity table.
pub fn legacy_tables(columns: &Vec<Vec<String>>) -> (r: Vec<String>)
    ensures
        r.deep_view() == legacy_among(columns.deep_view(), 10),
{
    let names = entity_table_names();
    let mut out: Vec<String> = Vec::new();
    let mut i: usize = 0;
    let empty: Vec<String> = Vec::new();
    proof {
        assert(out.deep_view() =~= legacy_among(columns.deep_view(), 0));
        assert(empty.deep_view() =~= Seq::<Seq<char>>::empty());
        assert(names.deep_view().len() == 10);
    }
    while i < 10
        invariant
            i <= 10,
            names@.len() == 10,
            names.deep_view() == entity_tables(),
            empty.deep_view() == Seq::<Seq<char>>::empty(),
            out.deep_view() == legacy_among(columns.deep_view(), i as int),
        decreases 10 - i,
    {
        let cols = if i < columns.len() {
            &columns[i]
        } else {
            &empty
        };
        assert(cols.deep_view() == columns_of(columns.deep_view(), i as int));
        let ghost before = out.deep_view();
        if is_legacy_json_columns(cols) {
            assert(names[i as int]@ == names.deep_view()[i as int]);
            crate::dup::push_deep(&mut out, names[i].dup());
            proof {
                assert(out.deep_view() =~= before + seq![entity_tables()[i as int]]);
            }
        } else {
            proof {
                assert(out.deep_view() =~= before + Seq::<Seq<char>>::empty());
            }
        }
        i = i + 1;
    }
    out
}

/// The check made when a store is opened, before its schema is applied:
/// `Ok` lets the schema be applied; a store that still has key-value entity
/// tables is refused, naming them in checking order, and its schema is
/// not applied.
pub fn check_legacy_store(columns: &Vec<Vec<String>>) -> (r: Result<(), String>)
    ensures
        r is Ok <==> legacy_among(columns.deep_view(), 10).len() == 0,
        r matches Err(e) ==> e@ == "unsupported legacy sqlite json tables detected: "@
            + comma_joined(legacy_among(columns.deep_view(), 10)),
{
    let tables = legacy_tables(columns);
    if tables.len() == 0 {
        Ok(())
    } else {
        Err(legacy_tables_message(&tables))
    }
}

} // verus!
