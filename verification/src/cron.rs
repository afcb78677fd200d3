//! Scheduling of cron-job services: when each job runs next, when a run is
//! due, and which image a run uses.
use std::str::FromStr;
use vstd::prelude::*;

use crate::deploy::{recorded_image, DeployError};
use crate::dup::Dup;
use crate::ids::{ts_before, Timestamp};
use crate::models::{
    blank, ContainerService, Deployment, DeploymentModel, DeploymentStatus, ServiceModel,
};
use crate::text::{concat2, is_blank, owned, str_eq};

verus! {

/// Whether croner accepts a cron pattern.
pub uninterp spec fn cron_pattern_valid(schedule: Seq<char>) -> bool;

/// The first instant strictly after `from` that a valid cron pattern
/// matches (in UTC, to the second), `None` when croner finds none.
pub uninterp spec fn cron_next_after(schedule: Seq<char>, from: Timestamp) -> Option<Timestamp>;

/// `croner::Cron::from_str` followed by `find_next_occurrence(from, false)`
/// on the UTC instant `from`: `Err` with croner's message for a pattern it
/// rejects, else the next occurrence, if any. An instant out of chrono's
/// range is reported as an error too.
#[verifier::external_body]
fn cron_next_occurrence(schedule: &str, from: Timestamp) -> (r: Result<Option<Timestamp>, String>)
    ensures
        !cron_pattern_valid(schedule@) ==> r is Err,
        r matches Ok(next) ==> cron_pattern_valid(schedule@) && next == cron_next_after(
            schedule@,
            from,
        ),
{
    let cron = match croner::Cron::from_str(schedule) {
        Ok(c) => c,
        Err(e) => return Err(e.to_string()),
    };
    let start = match chrono::DateTime::from_timestamp(from.secs, from.nanos) {
        Some(t) => t,
        None => return Err(String::from("timestamp out of range")),
    };
    match cron.find_next_occurrence(&start, false) {
        Ok(t) => Ok(Some(Timestamp { secs: t.timestamp(), nanos: t.timestamp_subsec_nanos() })),
        Err(_) => Ok(None),
    }
}

/// When a cron job of a service runs next, and under which schedule and
/// deployment that was computed.
#[derive(Debug, Clone)]
pub struct CronScheduleState {
    pub schedule: String,
    pub deployment_id: u128,
    pub next_run_at: Timestamp,
}

/// Why a schedule could not be computed.
#[derive(Debug, Clone, PartialEq, Eq)]
pub enum CronError {
    /// The pattern is not a cron pattern (croner's message).
    InvalidSchedule(String, String),
    /// The pattern never matches after the given instant.
    NoNextRun(String),
}

impl CronError {
    /// Human-readable description of the error.
    pub fn message(&self) -> (r: String)
        ensures
            r@ == match self {
                CronError::InvalidSchedule(s, m) => "invalid cron schedule "@ + s@ + ": "@ + m@,
                CronError::NoNextRun(s) => "schedule "@ + s@ + " has no next run"@,
            },
    {
        match self {
            CronError::InvalidSchedule(s, m) => {
                let mut r = concat2("invalid cron schedule ", s.as_str());
                r.append(": ");
                r.append(m.as_str());
                r
            },
            CronError::NoNextRun(s) => {
                let mut r = concat2("schedule ", s.as_str());
                r.append(" has no next run");
                r
            },
        }
    }
}

/// The schedule state of a job after `from`: its next run is the next
/// occurrence of the pattern.
pub fn next_schedule_state(schedule: &str, deployment_id: u128, from: Timestamp) -> (r: Result<
    CronScheduleState,
    CronError,
>)
    ensures
        !cron_pattern_valid(schedule@) ==> r is Err,
        r matches Ok(s) ==> s.schedule@ == schedule@ && s.deployment_id == deployment_id
            && cron_next_after(schedule@, from) == Some(s.next_run_at),
        r matches Err(CronError::NoNextRun(s)) ==> s@ == schedule@ && cron_next_after(
            schedule@,
            from,
        ) is None,
{
    match cron_next_occurrence(schedule, from) {
        Ok(Some(next)) => Ok(
            CronScheduleState { schedule: owned(schedule), deployment_id, next_run_at: next },
        ),
        Ok(None) => Err(CronError::NoNextRun(owned(schedule))),
        Err(m) => Err(CronError::InvalidSchedule(owned(schedule), m)),
    }
}

/// Whether a schedule state still applies: same pattern, same deployment.
pub fn schedule_is_current(state: &CronScheduleState, schedule: &str, deployment_id: u128) -> (r:
    bool)
    ensures
        r == (state.schedule@ == schedule@ && state.deployment_id == deployment_id),
{
    str_eq(state.schedule.as_str(), schedule) && state.deployment_id == deployment_id
}

/// A job is launched when none of its runs is in progress and its next run
/// time has come.
pub fn launch_due(state: &CronScheduleState, running: bool, now: Timestamp) -> (r: bool)
    ensures
        r == (!running && !ts_before(now, state.next_run_at)),
{
    !running && !crate::ids::timestamp_before(now, state.next_run_at)
}

/// The first running deployment of a list.
pub open spec fn first_running(deployments: Seq<Deployment>) -> Option<int> {
    if exists|i: int| 0 <= i < deployments.len() && deployments[i].status == DeploymentStatus::Running {
        Some(choose|i: int| 0 <= i < deployments.len() && deployments[i].status == DeploymentStatus::Running
            && forall|j: int| 0 <= j < i ==> deployments[j].status != DeploymentStatus::Running)
    } else {
        None
    }
}

/// Index of the deployment whose cron jobs run: the first running one.
pub fn resolve_running_deployment(deployments: &Vec<Deployment>) -> (r: Option<usize>)
    ensures
        match first_running(deployments@) {
            Some(i) => r == Some(i as usize) && i < deployments@.len(),
            None => r is None,
        },
{
    let mut i: usize = 0;
    while i < deployments.len()
        invariant
            i <= deployments@.len(),
            forall|j: int| 0 <= j < i ==> deployments@[j].status != DeploymentStatus::Running,
        decreases deployments.len() - i,
    {
        let running = match deployments[i].status {
            DeploymentStatus::Running => true,
            _ => false,
        };
        if running {
            proof {
                let k = choose|k: int| 0 <= k < deployments@.len() && deployments@[k].status
                    == DeploymentStatus::Running && forall|j: int|
                    0 <= j < k ==> deployments@[j].status != DeploymentStatus::Running;
                assert(k == i as int);
            }
            return Some(i);
        }
        i = i + 1;
    }
    None
}

/// The image a cron run uses: the one the deployment recorded for the
/// service, else the service's configured image (when not blank), else the
/// deployment's single image.
pub open spec fn cron_image(deployment: DeploymentModel, service: ServiceModel) -> Option<Seq<char>> {
    match recorded_image(deployment.service_deployments, service.id) {
        Some(i) => Some(i),
        None => if !blank(service.image) {
            Some(service.image)
        } else {
            deployment.image_id
        },
    }
}

/// Resolves the image of a cron run.
pub fn resolve_service_image(service: &ContainerService, deployment: &Deployment) -> (r: Result<
    String,
    DeployError,
>)
    ensures
        match cron_image(deployment.deep_view(), service.deep_view()) {
            Some(i) => r matches Ok(s) && s@ == i,
            None => r matches Err(DeployError::NoDeployedImage(n)) && n@ == service.name@,
        },
{
    match crate::deploy::recorded_image_of(&deployment.service_deployments, service.id) {
        Some(i) => Ok(i),
        None => {
            if !is_blank(service.image.as_str()) {
                Ok(service.image.dup())
            } else {
                match &deployment.image_id {
                    Some(i) => Ok(i.dup()),
                    None => Err(DeployError::NoDeployedImage(service.name.dup())),
                }
            }
        },
    }
}

/// A cron job run in progress.
#[derive(Debug, Clone)]
pub struct RunningCronJob {
    pub container_name: String,
    pub deployment_id: u128,
    pub service_name: String,
}

/// The deployment log line for a finished run: its status (or "finished")
/// and finish time (docker's, else the given current time).
pub fn cron_finished_log(job: &RunningCronJob, status: Option<&str>, finished_at: Option<&str>, now_text: &str) -> (r:
    String)
    ensures
        r@ == "cron job "@ + job.service_name@ + " finished with status "@ + (match status {
            Some(s) => s@,
            None => "finished"@,
        }) + " at "@ + (match finished_at {
            Some(f) => f@,
            None => now_text@,
        }),
{
    let mut r = concat2("cron job ", job.service_name.as_str());
    r.append(" finished with status ");
    match status {
        Some(s) => r.append(s),
        None => r.append("finished"),
    }
    r.append(" at ");
    match finished_at {
        Some(f) => r.append(f),
        None => r.append(now_text),
    }
    r
}

} // verus!
