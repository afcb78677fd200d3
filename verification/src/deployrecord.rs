//! How deployments and replica deployments are laid out in the relational
//! store, and how they are read back.
use vstd::prelude::*;

use crate::dup::Dup;
use crate::ids::Timestamp;
use crate::models::{
    Deployment, DeploymentModel, DeploymentStatus, Project, RolloutStrategy, ServiceDeployment,
    ServiceDeploymentModel, ServiceHealth,
};
use crate::store::{
    decode_deployment_status, decode_rollout_strategy, decode_service_health,
    deployment_status_code, encode_deployment_status, encode_rollout_strategy,
    encode_service_health, int_text, invalid_value, invalid_value_text,
    lemma_deployment_status_codes_distinct, lemma_rollout_strategy_codes_distinct,
    lemma_service_health_codes_distinct, parse_u32, rollout_strategy_code, service_health_code,
};
use crate::text::owned;

verus! {

/// The row of a replica deployment, with its identifiers and instants as
/// the driver binds them.
pub struct ServiceDeploymentRecord {
    pub id: u128,
    pub service_id: u128,
    pub deployment_id: u128,
    pub replica_index: i64,
    pub status: String,
    pub container_id: Option<String>,
    pub image_id: Option<String>,
    pub health: String,
    pub started_at: Option<Timestamp>,
    pub finished_at: Option<Timestamp>,
    pub created_at: Timestamp,
}

/// `rec` and `logs` (the log rows in line order) are what storing `sd`
/// writes.
pub open spec fn replica_encodes(sd: ServiceDeploymentModel, rec: ServiceDeploymentRecord, logs: Seq<Seq<char>>) -> bool {
    &&& rec.id == sd.id
    &&& rec.service_id == sd.service_id
    &&& rec.deployment_id == sd.deployment_id
    &&& rec.replica_index == sd.replica_index as i64
    &&& rec.status@ == deployment_status_code(sd.status)
    &&& rec.container_id.deep_view() == sd.container_id
    &&& rec.image_id.deep_view() == sd.image_id
    &&& rec.health@ == service_health_code(sd.health)
    &&& rec.started_at == sd.started_at
    &&& rec.finished_at == sd.finished_at
    &&& rec.created_at == sd.created_at
    &&& logs == sd.logs
}

/// What storing a replica deployment writes: its row and its log lines.
pub fn encode_service_deployment(sd: &ServiceDeployment) -> (r: (ServiceDeploymentRecord, Vec<String>))
    ensures
        replica_encodes(sd.deep_view(), r.0, r.1.deep_view()),
{
    (
        ServiceDeploymentRecord {
            id: sd.id,
            service_id: sd.service_id,
            deployment_id: sd.deployment_id,
            replica_index: sd.replica_index as i64,
            status: owned(encode_deployment_status(sd.status)),
            container_id: sd.container_id.dup(),
            image_id: sd.image_id.dup(),
            health: owned(encode_service_health(sd.health)),
            started_at: sd.started_at,
            finished_at: sd.finished_at,
            created_at: sd.created_at,
        },
        sd.logs.dup(),
    )
}

/// Some deployment status is stored under `code`.
pub open spec fn known_deployment_status(code: Seq<char>) -> bool {
    exists|x: DeploymentStatus| deployment_status_code(x) == code
}

/// Some health is stored under `code`.
pub open spec fn known_health(code: Seq<char>) -> bool {
    exists|x: ServiceHealth| service_health_code(x) == code
}

/// Some rollout strategy is stored under `code`.
pub open spec fn known_rollout(code: Seq<char>) -> bool {
    exists|x: RolloutStrategy| rollout_strategy_code(x) == code
}

/// The first problem met reading a replica deployment back.
pub open spec fn replica_problem(rec: ServiceDeploymentRecord) -> Option<Seq<char>> {
    if !(0 <= rec.replica_index <= u32::MAX) {
        Some(invalid_value_text("service deployment replica_index"@, int_text(rec.replica_index)))
    } else if !known_deployment_status(rec.status@) {
        Some(invalid_value_text("status"@, rec.status@))
    } else if !known_health(rec.health@) {
        Some(invalid_value_text("health"@, rec.health@))
    } else {
        None
    }
}

/// The replica deployment read back from a row without problems.
pub open spec fn replica_decoded(rec: ServiceDeploymentRecord, logs: Seq<Seq<char>>) -> ServiceDeploymentModel {
    ServiceDeploymentModel {
        id: rec.id,
        service_id: rec.service_id,
        deployment_id: rec.deployment_id,
        replica_index: rec.replica_index as u32,
        status: choose|x: DeploymentStatus| deployment_status_code(x) == rec.status@,
        container_id: rec.container_id.deep_view(),
        image_id: rec.image_id.deep_view(),
        health: choose|x: ServiceHealth| service_health_code(x) == rec.health@,
        logs,
        started_at: rec.started_at,
        finished_at: rec.finished_at,
        created_at: rec.created_at,
    }
}

fn status_of(code: &str) -> (r: Option<DeploymentStatus>)
    ensures
        match r {
            Some(x) => known_deployment_status(code@) && x == choose|y: DeploymentStatus|
                deployment_status_code(y) == code@,
            None => !known_deployment_status(code@),
        },
{
    match decode_deployment_status(code) {
        Some(x) => {
            proof {
                let c = choose|y: DeploymentStatus| deployment_status_code(y) == code@;
                lemma_deployment_status_codes_distinct(x, c);
            }
            Some(x)
        },
        None => None,
    }
}

/// Reads a replica deployment back from its row and log lines.
pub fn decode_service_deployment(rec: &ServiceDeploymentRecord, logs: &Vec<String>) -> (r: Result<
    ServiceDeployment,
    String,
>)
    ensures
        match replica_problem(*rec) {
            Some(e) => r matches Err(x) && x@ == e,
            None => r matches Ok(sd) && sd.deep_view() == replica_decoded(*rec, logs.deep_view()),
        },
{
    let replica_index = match parse_u32(rec.replica_index, "service deployment replica_index") {
        Ok(x) => x,
        Err(e) => return Err(e),
    };
    let status = match status_of(rec.status.as_str()) {
        Some(x) => x,
        None => return Err(invalid_value("status", rec.status.as_str())),
    };
    let health = match decode_service_health(rec.health.as_str()) {
        Some(x) => {
            proof {
                let c = choose|y: ServiceHealth| service_health_code(y) == rec.health@;
                lemma_service_health_codes_distinct(x, c);
            }
            x
        },
        None => return Err(invalid_value("health", rec.health.as_str())),
    };
    Ok(
        ServiceDeployment {
            id: rec.id,
            service_id: rec.service_id,
            deployment_id: rec.deployment_id,
            replica_index,
            status,
            container_id: rec.container_id.dup(),
            image_id: rec.image_id.dup(),
            health,
            logs: logs.dup(),
            started_at: rec.started_at,
            finished_at: rec.finished_at,
            created_at: rec.created_at,
        },
    )
}

/// A stored replica deployment reads back exactly.
pub proof fn lemma_stored_replica_reads_back(
    sd: ServiceDeploymentModel,
    rec: ServiceDeploymentRecord,
    logs: Seq<Seq<char>>,
)
    requires
        replica_encodes(sd, rec, logs),
    ensures
        replica_problem(rec) is None,
        replica_decoded(rec, logs) == sd,
{
    assert(deployment_status_code(sd.status) == rec.status@);
    assert(service_health_code(sd.health) == rec.health@);
    let s = choose|x: DeploymentStatus| deployment_status_code(x) == rec.status@;
    lemma_deployment_status_codes_distinct(s, sd.status);
    let h = choose|x: ServiceHealth| service_health_code(x) == rec.health@;
    lemma_service_health_codes_distinct(h, sd.health);
    assert(replica_decoded(rec, logs) =~= sd);
}

/// The row of a deployment, with its identifiers and instants as the driver
/// binds them and its app snapshot as its stored JSON text reads back
/// (`None` when there is none or it does not parse).
pub struct DeploymentRecord {
    pub id: u128,
    pub app_id: u128,
    pub commit_sha: String,
    pub commit_message: Option<String>,
    pub branch: String,
    pub source_url: Option<String>,
    pub rollout_strategy: String,
    pub rollback_from_deployment_id: Option<u128>,
    pub app_snapshot: Option<Project>,
    pub status: String,
    pub container_id: Option<String>,
    pub image_id: Option<String>,
    pub started_at: Option<Timestamp>,
    pub finished_at: Option<Timestamp>,
    pub created_at: Timestamp,
}

/// `rec` is the deployment row that storing `d` writes.
pub open spec fn deployment_encodes(d: DeploymentModel, rec: DeploymentRecord) -> bool {
    &&& rec.id == d.id
    &&& rec.app_id == d.app_id
    &&& rec.commit_sha@ == d.commit_sha
    &&& rec.commit_message.deep_view() == d.commit_message
    &&& rec.branch@ == d.branch
    &&& rec.source_url.deep_view() == d.source_url
    &&& rec.rollout_strategy@ == rollout_strategy_code(d.rollout_strategy)
    &&& rec.rollback_from_deployment_id == d.rollback_from_deployment_id
    &&& rec.app_snapshot.deep_view() == d.app_snapshot
    &&& rec.status@ == deployment_status_code(d.status)
    &&& rec.container_id.deep_view() == d.container_id
    &&& rec.image_id.deep_view() == d.image_id
    &&& rec.started_at == d.started_at
    &&& rec.finished_at == d.finished_at
    &&& rec.created_at == d.created_at
}

/// The deployment row that storing a deployment writes; its replica
/// deployments and log lines go to their own tables.
pub fn encode_deployment(d: &Deployment) -> (r: DeploymentRecord)
    ensures
        deployment_encodes(d.deep_view(), r),
{
    DeploymentRecord {
        id: d.id,
        app_id: d.app_id,
        commit_sha: d.commit_sha.dup(),
        commit_message: d.commit_message.dup(),
        branch: d.branch.dup(),
        source_url: d.source_url.dup(),
        rollout_strategy: owned(encode_rollout_strategy(d.rollout_strategy)),
        rollback_from_deployment_id: d.rollback_from_deployment_id,
        app_snapshot: d.app_snapshot.dup(),
        status: owned(encode_deployment_status(d.status)),
        container_id: d.container_id.dup(),
        image_id: d.image_id.dup(),
        started_at: d.started_at,
        finished_at: d.finished_at,
        created_at: d.created_at,
    }
}

/// The first problem met reading a deployment row back.
pub open spec fn deployment_problem(rec: DeploymentRecord) -> Option<Seq<char>> {
    if !known_rollout(rec.rollout_strategy@) {
        Some(invalid_value_text("rollout_strategy"@, rec.rollout_strategy@))
    } else if !known_deployment_status(rec.status@) {
        Some(invalid_value_text("status"@, rec.status@))
    } else {
        None
    }
}

/// The deployment read back from a row without problems and its replica
/// deployments; its log lines are read separately.
pub open spec fn deployment_decoded(rec: DeploymentRecord, replicas: Seq<ServiceDeploymentModel>) -> DeploymentModel {
    DeploymentModel {
        id: rec.id,
        app_id: rec.app_id,
        commit_sha: rec.commit_sha@,
        commit_message: rec.commit_message.deep_view(),
        branch: rec.branch@,
        source_url: rec.source_url.deep_view(),
        rollout_strategy: choose|x: RolloutStrategy| rollout_strategy_code(x) == rec.rollout_strategy@,
        rollback_from_deployment_id: rec.rollback_from_deployment_id,
        app_snapshot: rec.app_snapshot.deep_view(),
        status: choose|x: DeploymentStatus| deployment_status_code(x) == rec.status@,
        container_id: rec.container_id.deep_view(),
        image_id: rec.image_id.deep_view(),
        service_deployments: replicas,
        logs: Seq::empty(),
        started_at: rec.started_at,
        finished_at: rec.finished_at,
        created_at: rec.created_at,
    }
}

/// Reads a deployment back from its row and its replica deployments (read
/// from their table); the log lines are not part of it.
pub fn decode_deployment(rec: &DeploymentRecord, replicas: Vec<ServiceDeployment>) -> (r: Result<
    Deployment,
    String,
>)
    ensures
        match deployment_problem(*rec) {
            Some(e) => r matches Err(x) && x@ == e,
            None => r matches Ok(d) && d.deep_view() == deployment_decoded(
                *rec,
                replicas.deep_view(),
            ),
        },
{
    let rollout_strategy = match decode_rollout_strategy(rec.rollout_strategy.as_str()) {
        Some(x) => {
            proof {
                let c = choose|y: RolloutStrategy| rollout_strategy_code(y) == rec.rollout_strategy@;
                lemma_rollout_strategy_codes_distinct(x, c);
            }
            x
        },
        None => return Err(invalid_value("rollout_strategy", rec.rollout_strategy.as_str())),
    };
    let status = match status_of(rec.status.as_str()) {
        Some(x) => x,
        None => return Err(invalid_value("status", rec.status.as_str())),
    };
    let logs: Vec<String> = Vec::new();
    let d = Deployment {
        id: rec.id,
        app_id: rec.app_id,
        commit_sha: rec.commit_sha.dup(),
        commit_message: rec.commit_message.dup(),
        branch: rec.branch.dup(),
        source_url: rec.source_url.dup(),
        rollout_strategy,
        rollback_from_deployment_id: rec.rollback_from_deployment_id,
        app_snapshot: rec.app_snapshot.dup(),
        status,
        container_id: rec.container_id.dup(),
        image_id: rec.image_id.dup(),
        service_deployments: replicas,
        logs,
        started_at: rec.started_at,
        finished_at: rec.finished_at,
        created_at: rec.created_at,
    };
    proof {
        assert(d.deep_view() =~= deployment_decoded(*rec, d.service_deployments.deep_view()));
    }
    Ok(d)
}

/// A stored deployment reads back with every field of its row as stored,
/// the replica deployments that are read with it, and no log lines (those
/// are read on their own).
pub proof fn lemma_stored_deployment_reads_back(
    d: DeploymentModel,
    rec: DeploymentRecord,
    replicas: Seq<ServiceDeploymentModel>,
)
    requires
        deployment_encodes(d, rec),
    ensures
        deployment_problem(rec) is None,
        deployment_decoded(rec, replicas) == (DeploymentModel {
            service_deployments: replicas,
            logs: Seq::empty(),
            ..d
        }),
{
    assert(rollout_strategy_code(d.rollout_strategy) == rec.rollout_strategy@);
    assert(deployment_status_code(d.status) == rec.status@);
    let r = choose|x: RolloutStrategy| rollout_strategy_code(x) == rec.rollout_strategy@;
    lemma_rollout_strategy_codes_distinct(r, d.rollout_strategy);
    let s = choose|x: DeploymentStatus| deployment_status_code(x) == rec.status@;
    lemma_deployment_status_codes_distinct(s, d.status);
    assert(deployment_decoded(rec, replicas) =~= (DeploymentModel {
        service_deployments: replicas,
        logs: Seq::empty(),
        ..d
    }));
}

} // verus!
