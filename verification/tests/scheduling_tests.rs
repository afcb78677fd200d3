use containr::cron::{CronError, RunningCronJob};
use containr::crontab::CronTable;
use containr::dbplan::{
    exec_output_message, export_command, export_file_path, trim_exec_output,
};
use containr::env::EnvVars;
use containr::ids::Timestamp;
use containr::launch::{build_service_mounts, cron_container_config, replica_container_config};
use containr::managed::{DatabaseCredentials, DatabaseType, ManagedDatabase};
use containr::models::{ContainerService, EnvVar, HealthCheck, Project, ServiceMount, ServiceType};

const NOW: i64 = 1_700_000_000;

fn at(secs: i64) -> Timestamp {
    Timestamp { secs, nanos: 0 }
}

fn id_text(id: u128) -> String {
    uuid::Uuid::from_u128(id).to_string()
}

fn job(name: &str) -> RunningCronJob {
    RunningCronJob { container_name: name.to_string(), deployment_id: 9, service_name: "report".to_string() }
}

#[test]
fn cron_table_starts_empty() {
    let table = CronTable::new();
    assert!(table.schedule((1, 2)).is_none());
    assert!(!table.is_running((1, 2)));
}

#[test]
fn cron_job_becomes_due_at_its_next_run() {
    let mut table = CronTable::new();
    let key = (1, 2);
    assert_eq!(table.poll_job(key, "*/5 * * * *", 9, at(NOW)), Ok(false));
    let next = table.schedule(key).unwrap().next_run_at;
    assert!(next.secs > NOW && next.secs <= NOW + 300);
    assert_eq!(next.secs % 300, 0);
    assert_eq!(table.poll_job(key, "*/5 * * * *", 9, Timestamp { secs: next.secs - 1, nanos: 0 }), Ok(false));
    assert_eq!(table.poll_job(key, "*/5 * * * *", 9, next), Ok(true));
    assert_eq!(table.schedule(key).unwrap().next_run_at, next);
}

#[test]
fn cron_job_not_relaunched_while_running() {
    let mut table = CronTable::new();
    let key = (1, 2);
    table.poll_job(key, "*/5 * * * *", 9, at(NOW)).unwrap();
    let next = table.schedule(key).unwrap().next_run_at;
    assert_eq!(table.record_launch(key, job("c1"), "*/5 * * * *", 9, next), Ok(()));
    assert!(table.is_running(key));
    let after = table.schedule(key).unwrap().next_run_at;
    assert_eq!(after.secs, next.secs + 300);
    assert_eq!(table.poll_job(key, "*/5 * * * *", 9, at(after.secs + 10)), Ok(false));
    let done = table.finish(key).unwrap();
    assert_eq!(done.container_name, "c1");
    assert!(!table.is_running(key));
    assert_eq!(table.poll_job(key, "*/5 * * * *", 9, at(after.secs + 10)), Ok(true));
}

#[test]
fn cron_schedule_recomputed_for_new_deployment() {
    let mut table = CronTable::new();
    let key = (1, 2);
    table.poll_job(key, "*/5 * * * *", 9, at(NOW)).unwrap();
    let first = table.schedule(key).unwrap().next_run_at;
    table.poll_job(key, "*/5 * * * *", 10, at(NOW + 600)).unwrap();
    let state = table.schedule(key).unwrap();
    assert_eq!(state.deployment_id, 10);
    assert!(state.next_run_at.secs > first.secs);
}

#[test]
fn cron_invalid_schedule_changes_nothing() {
    let mut table = CronTable::new();
    let key = (1, 2);
    table.poll_job(key, "*/5 * * * *", 9, at(NOW)).unwrap();
    let before = table.schedule(key).unwrap().next_run_at;
    let err = table.poll_job(key, "not a schedule", 9, at(NOW)).unwrap_err();
    assert!(matches!(err, CronError::InvalidSchedule(ref s, _) if s == "not a schedule"));
    let state = table.schedule(key).unwrap();
    assert_eq!(state.schedule, "*/5 * * * *");
    assert_eq!(state.next_run_at, before);
}

#[test]
fn cron_inactive_jobs_are_dropped() {
    let mut table = CronTable::new();
    table.poll_job((1, 2), "*/5 * * * *", 9, at(NOW)).unwrap();
    table.poll_job((1, 3), "*/5 * * * *", 9, at(NOW)).unwrap();
    table.record_launch((1, 3), job("c3"), "*/5 * * * *", 9, at(NOW)).unwrap();
    table.retain_active(&vec![(1, 2)]);
    assert!(table.schedule((1, 2)).is_some());
    assert!(table.schedule((1, 3)).is_none());
    assert!(!table.is_running((1, 3)));
}

fn make_service(app_id: u128) -> ContainerService {
    let mut s = ContainerService::new_with(5, app_id, "api".to_string(), "img".to_string(), 8080, at(1));
    s.service_type = ServiceType::WebService;
    s.mounts = vec![ServiceMount { name: "data".to_string(), target: "/data".to_string(), read_only: false }];
    s.env_vars = vec![EnvVar { key: "MODE".to_string(), value: "prod".to_string(), secret: false }];
    s.health_check = Some(HealthCheck { path: "/health".to_string(), interval_secs: 10, timeout_secs: 3, retries: 2 });
    s.schedule = Some("*/5 * * * *".to_string());
    s
}

#[test]
fn service_mounts_live_under_the_work_dir() {
    let s = make_service(4);
    let mounts = build_service_mounts("/var/lib/containr", 4, &s);
    assert_eq!(mounts.len(), 1);
    assert_eq!(
        mounts[0].source,
        format!("/var/lib/containr/app-mounts/{}/{}/data", id_text(4), id_text(5))
    );
    assert_eq!(mounts[0].target, "/data");
}

#[test]
fn replica_config_for_a_web_service() {
    let mut app = Project::new_with(4, "shop".to_string(), String::new(), 1, 4, at(1));
    app.env_vars = vec![EnvVar { key: "MODE".to_string(), value: "dev".to_string(), secret: false }];
    let s = make_service(4);
    let config = replica_container_config(&app, &s, 6, "img:1", 1, "/w");
    assert_eq!(config.image, "img:1");
    assert_eq!(config.port, 8080);
    assert_eq!(config.env_vars.get("MODE"), Some("prod".to_string()));
    assert_eq!(config.env_vars.get("REPLICA_INDEX"), Some("1".to_string()));
    assert_eq!(config.env_vars.get("PORT"), Some("8080".to_string()));
    let network = config.network.unwrap();
    assert_eq!(network.name, format!("containr-{}", id_text(4)));
    assert_eq!(network.aliases, vec!["api".to_string(), "api-1".to_string()]);
    let hc = config.health_check.unwrap();
    assert_eq!(hc.cmd, vec!["curl".to_string(), "-f".to_string(), "http://localhost:8080/health".to_string()]);
    assert_eq!(config.restart_policy, "always");
    assert!(config.id.starts_with(&format!("containr-{}-api-1-", id_text(4))));
}

#[test]
fn cron_config_named_with_the_run_stamp() {
    let app = Project::new_with(4, "shop".to_string(), String::new(), 1, 4, at(1));
    let s = make_service(4);
    let shared = EnvVars::new();
    let config = cron_container_config(&app, &s, "img:1", &shared, "20240101120000", "/w");
    assert!(config.id.starts_with("containr-cron-"));
    assert!(config.id.ends_with("-api-20240101120000"));
    assert_eq!(config.port, 0);
    assert!(config.health_check.is_none());
    assert_eq!(config.restart_policy, "no");
    assert_eq!(config.env_vars.get("CRON_SCHEDULE"), Some("*/5 * * * *".to_string()));
    assert_eq!(config.network.unwrap().aliases, vec!["api-cron".to_string()]);
}

fn database(db_type: DatabaseType) -> ManagedDatabase {
    let creds = DatabaseCredentials {
        username: "user".to_string(),
        password: "secret".to_string(),
        database_name: "main".to_string(),
    };
    ManagedDatabase::new_with(3, 1, "orders".to_string(), db_type, creds, at(1))
}

#[test]
fn export_commands_per_engine() {
    assert_eq!(
        export_command(&database(DatabaseType::Postgresql)).unwrap(),
        vec!["pg_dump", "-U", "user", "-d", "main"]
    );
    assert_eq!(
        export_command(&database(DatabaseType::Mariadb)).unwrap(),
        vec!["mariadb-dump", "-uuser", "-psecret", "main"]
    );
    assert_eq!(
        export_command(&database(DatabaseType::Valkey)).unwrap(),
        vec!["valkey-cli", "-a", "secret", "BGSAVE"]
    );
    assert_eq!(
        export_command(&database(DatabaseType::Qdrant)).unwrap_err(),
        "qdrant export requires api call"
    );
}

#[test]
fn export_file_is_named_after_database_and_stamp() {
    assert_eq!(export_file_path("/backups", "orders", "20240101_120000"), "/backups/orders_20240101_120000.sql");
}

#[test]
fn exec_output_trimmed_or_placeholder() {
    assert_eq!(trim_exec_output(b"  done \n"), "done");
    assert_eq!(trim_exec_output(b" \n "), "no command output");
    assert_eq!(trim_exec_output(&[0x66, 0xff]), "f\u{FFFD}");
    assert_eq!(exec_output_message(""), "no command output");
}

use containr::docker::{container_healthy, container_ready, inspect_failure_message, HealthStatus};

#[test]
fn starting_container_readiness() {
    assert!(container_ready(Some(HealthStatus::Healthy), false));
    assert!(container_ready(None, true));
    assert!(!container_ready(None, false));
    assert!(container_ready(Some(HealthStatus::NoCheck), true));
    assert!(!container_ready(Some(HealthStatus::Starting), true));
    assert!(!container_ready(Some(HealthStatus::Unhealthy), true));
}

#[test]
fn container_health_counts_missing_checks_as_healthy() {
    assert!(container_healthy(None));
    assert!(container_healthy(Some(None)));
    assert!(container_healthy(Some(Some(HealthStatus::Healthy))));
    assert!(!container_healthy(Some(Some(HealthStatus::Unhealthy))));
    assert!(!container_healthy(Some(Some(HealthStatus::Empty))));
}

#[test]
fn inspect_failures_name_a_vanished_container() {
    assert_eq!(
        inspect_failure_message("Docker responded with status code 404: No such container: x"),
        "container disappeared while starting"
    );
    assert_eq!(inspect_failure_message("timeout"), "docker inspect failed: timeout");
}
