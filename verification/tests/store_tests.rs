use containr::dbrecord::{decode_database, encode_database};
use containr::ids::Timestamp;
use containr::managed::{DatabaseCredentials, DatabaseType, ManagedDatabase, ServiceStatus};
use containr::models::{
    BuildArg, ContainerService, EnvVar, HealthCheck, RestartPolicy, ServiceMount,
    ServiceRegistryAuth, ServiceType,
};
use containr::servicestore::{decode_service, encode_service};

fn at(secs: i64) -> Timestamp {
    Timestamp { secs, nanos: 5 }
}

fn full_service() -> ContainerService {
    let mut s = ContainerService::new_with(11, 22, "api".to_string(), "ghcr.io/x/api:1".to_string(), 8080, at(100));
    s.service_type = ServiceType::PrivateService;
    s.expose_http = true;
    s.additional_ports = vec![9000, 9001];
    s.replicas = 3;
    s.memory_limit = Some(512 * 1024 * 1024);
    s.cpu_limit_bits = Some(0x3ff0000000000000);
    s.depends_on = vec!["db".to_string()];
    s.health_check = Some(HealthCheck { path: "/health".to_string(), interval_secs: 10, timeout_secs: 5, retries: 3 });
    s.restart_policy = RestartPolicy::OnFailure;
    s.registry_auth = Some(ServiceRegistryAuth {
        server: Some("ghcr.io".to_string()),
        username: "bot".to_string(),
        password: "pw".to_string(),
    });
    s.env_vars = vec![
        EnvVar { key: "A".to_string(), value: "1".to_string(), secret: false },
        EnvVar { key: "B".to_string(), value: "2".to_string(), secret: true },
    ];
    s.domains = vec!["api.example.com".to_string()];
    s.build_context = Some(".".to_string());
    s.dockerfile_path = Some("Dockerfile".to_string());
    s.build_target = None;
    s.build_args = vec![BuildArg { key: "K".to_string(), value: "V".to_string(), secret: true }];
    s.command = Some(vec!["serve".to_string(), "--port".to_string(), "8080".to_string()]);
    s.entrypoint = Some(Vec::new());
    s.working_dir = Some("/app".to_string());
    s.mounts = vec![ServiceMount { name: "data".to_string(), target: "/data".to_string(), read_only: true }];
    s
}

#[test]
fn service_reads_back_as_stored() {
    let s = full_service();
    let (rec, rows) = encode_service(&s).unwrap();
    assert_eq!(rec.service_type.as_deref(), Some("private_service"));
    assert_eq!(rec.restart_policy, "onfailure");
    assert_eq!(rec.expose_http, 1);
    assert_eq!(rows.additional_ports, vec![9000, 9001]);
    assert_eq!(rows.env_vars[1], ("B".to_string(), "2".to_string(), 1));
    assert!(rows.entrypoint.is_empty());
    let back = decode_service(&rec, &rows).unwrap();
    assert_eq!(back.id, 11);
    assert_eq!(back.app_id, 22);
    assert_eq!(back.name, "api");
    assert_eq!(back.service_type, ServiceType::PrivateService);
    assert_eq!(back.port, 8080);
    assert!(back.expose_http);
    assert_eq!(back.additional_ports, vec![9000, 9001]);
    assert_eq!(back.replicas, 3);
    assert_eq!(back.memory_limit, Some(512 * 1024 * 1024));
    assert_eq!(back.cpu_limit_bits, Some(0x3ff0000000000000));
    assert_eq!(back.depends_on, vec!["db".to_string()]);
    let hc = back.health_check.unwrap();
    assert_eq!((hc.path.as_str(), hc.interval_secs, hc.timeout_secs, hc.retries), ("/health", 10, 5, 3));
    assert_eq!(back.restart_policy, RestartPolicy::OnFailure);
    let auth = back.registry_auth.unwrap();
    assert_eq!(auth.server.as_deref(), Some("ghcr.io"));
    assert!(back.env_vars[1].secret);
    assert!(!back.env_vars[0].secret);
    assert_eq!(back.domains, vec!["api.example.com".to_string()]);
    assert_eq!(back.build_args[0].key, "K");
    assert_eq!(back.command, Some(vec!["serve".to_string(), "--port".to_string(), "8080".to_string()]));
    assert_eq!(back.entrypoint, None);
    assert_eq!(back.working_dir.as_deref(), Some("/app"));
    assert!(back.mounts[0].read_only);
    assert_eq!(back.created_at, at(100));
    assert_eq!(back.schedule, None);
}

#[test]
fn service_memory_limit_beyond_storage_refused() {
    let mut s = full_service();
    s.memory_limit = Some(u64::MAX);
    assert_eq!(
        encode_service(&s).err().unwrap(),
        format!("invalid service memory_limit value: {}", u64::MAX)
    );
}

#[test]
fn service_read_errors_name_the_column() {
    let s = full_service();
    let (mut rec, rows) = encode_service(&s).unwrap();
    rec.port = -1;
    assert_eq!(decode_service(&rec, &rows).err().unwrap(), "invalid service port value: -1");
    let (mut rec, rows) = encode_service(&s).unwrap();
    rec.service_type = Some("bogus".to_string());
    assert_eq!(decode_service(&rec, &rows).err().unwrap(), "invalid service_type value: bogus");
    let (mut rec, rows) = encode_service(&s).unwrap();
    rec.health_check_interval_secs = Some(-5);
    assert_eq!(
        decode_service(&rec, &rows).err().unwrap(),
        "invalid health_check_interval_secs value: -5"
    );
    let (rec, mut rows) = encode_service(&s).unwrap();
    rows.additional_ports = vec![80, 70000];
    assert_eq!(
        decode_service(&rec, &rows).err().unwrap(),
        "invalid service additional port value: 70000"
    );
    let (mut rec, rows) = encode_service(&s).unwrap();
    rec.restart_policy = "sometimes".to_string();
    assert_eq!(decode_service(&rec, &rows).err().unwrap(), "invalid restart_policy value: sometimes");
}

#[test]
fn legacy_service_row_infers_its_type() {
    let s = full_service();
    let (mut rec, rows) = encode_service(&s).unwrap();
    rec.service_type = None;
    rec.expose_http = 0;
    rec.port = 0;
    assert_eq!(decode_service(&rec, &rows).unwrap().service_type, ServiceType::BackgroundWorker);
    rec.expose_http = 1;
    assert_eq!(decode_service(&rec, &rows).unwrap().service_type, ServiceType::WebService);
}

fn database() -> ManagedDatabase {
    let creds = DatabaseCredentials {
        username: "u".to_string(),
        password: "p".to_string(),
        database_name: "d".to_string(),
    };
    let mut db = ManagedDatabase::new_with(5, 6, "orders".to_string(), DatabaseType::Mariadb, creds, at(7));
    db.group_id = Some(9);
    db.external_port = Some(13306);
    db.proxy_enabled = true;
    db.status = ServiceStatus::Running;
    db.pitr_last_base_backup_at = Some(at(8));
    db
}

#[test]
fn database_reads_back_without_its_group() {
    let db = database();
    let rec = encode_database(&db).unwrap();
    assert_eq!(rec.db_type, "mariadb");
    assert_eq!(rec.status, "running");
    assert_eq!(rec.proxy_enabled, 1);
    let back = decode_database(&rec).unwrap();
    assert_eq!(back.group_id, None);
    assert_eq!(back.db_type, DatabaseType::Mariadb);
    assert_eq!(back.status, ServiceStatus::Running);
    assert_eq!(back.external_port, Some(13306));
    assert!(back.proxy_enabled);
    assert_eq!(back.credentials.database_name, "d");
    assert_eq!(back.memory_limit, db.memory_limit);
    assert_eq!(back.pitr_last_base_backup_at, Some(at(8)));
    assert_eq!(back.internal_host, db.internal_host);
}

#[test]
fn database_read_errors_name_the_column() {
    let db = database();
    let mut rec = encode_database(&db).unwrap();
    rec.external_port = Some(-2);
    assert_eq!(
        decode_database(&rec).err().unwrap(),
        "invalid managed database external_port value: -2"
    );
    let mut rec = encode_database(&db).unwrap();
    rec.status = "asleep".to_string();
    assert_eq!(decode_database(&rec).err().unwrap(), "invalid status value: asleep");
    let mut rec = encode_database(&db).unwrap();
    rec.memory_limit = -1;
    assert_eq!(
        decode_database(&rec).err().unwrap(),
        "invalid managed database memory_limit value: -1"
    );
    let mut big = database();
    big.memory_limit = u64::MAX;
    assert!(encode_database(&big).is_err());
}

use containr::deployrecord::{
    decode_deployment, decode_service_deployment, encode_deployment, encode_service_deployment,
};
use containr::models::{Deployment, DeploymentStatus, RolloutStrategy, ServiceDeployment, ServiceHealth};

fn replica() -> ServiceDeployment {
    let mut sd = ServiceDeployment::new_with(1, 2, 3, 4, at(50));
    sd.status = DeploymentStatus::Running;
    sd.health = ServiceHealth::Healthy;
    sd.container_id = Some("c".to_string());
    sd.logs = vec!["one".to_string(), "two".to_string()];
    sd.started_at = Some(at(51));
    sd
}

#[test]
fn replica_deployment_reads_back_exactly() {
    let sd = replica();
    let (rec, logs) = encode_service_deployment(&sd);
    assert_eq!(rec.status, "running");
    assert_eq!(rec.health, "healthy");
    assert_eq!(rec.replica_index, 4);
    let back = decode_service_deployment(&rec, &logs).unwrap();
    assert_eq!(back.id, 1);
    assert_eq!(back.replica_index, 4);
    assert_eq!(back.status, DeploymentStatus::Running);
    assert_eq!(back.health, ServiceHealth::Healthy);
    assert_eq!(back.logs, vec!["one".to_string(), "two".to_string()]);
    assert_eq!(back.started_at, Some(at(51)));
    assert_eq!(back.finished_at, None);
}

#[test]
fn replica_deployment_read_errors() {
    let (mut rec, logs) = encode_service_deployment(&replica());
    rec.replica_index = -3;
    assert_eq!(
        decode_service_deployment(&rec, &logs).err().unwrap(),
        "invalid service deployment replica_index value: -3"
    );
    let (mut rec, logs) = encode_service_deployment(&replica());
    rec.health = "dizzy".to_string();
    assert_eq!(decode_service_deployment(&rec, &logs).err().unwrap(), "invalid health value: dizzy");
}

#[test]
fn deployment_reads_back_without_log_lines() {
    let mut d = Deployment::new_with(7, 8, "abc123".to_string(), at(60));
    d.rollout_strategy = RolloutStrategy::StartFirst;
    d.status = DeploymentStatus::Failed;
    d.rollback_from_deployment_id = Some(6);
    d.logs = vec!["built".to_string()];
    let rec = encode_deployment(&d);
    assert_eq!(rec.rollout_strategy, "start_first");
    assert_eq!(rec.status, "failed");
    let back = decode_deployment(&rec, vec![replica()]).unwrap();
    assert_eq!(back.commit_sha, "abc123");
    assert_eq!(back.rollout_strategy, RolloutStrategy::StartFirst);
    assert_eq!(back.status, DeploymentStatus::Failed);
    assert_eq!(back.rollback_from_deployment_id, Some(6));
    assert!(back.logs.is_empty());
    assert_eq!(back.service_deployments.len(), 1);
    let mut bad = encode_deployment(&d);
    bad.rollout_strategy = "sideways".to_string();
    assert_eq!(
        decode_deployment(&bad, Vec::new()).err().unwrap(),
        "invalid rollout_strategy value: sideways"
    );
}

use containr::dbrecord::{decode_queue, encode_queue};
use containr::managed::{ManagedQueue, QueueCredentials, QueueType};

#[test]
fn queue_reads_back_without_its_group() {
    let creds = QueueCredentials { username: "guest".to_string(), password: "pw".to_string() };
    let mut q = ManagedQueue::new_with(3, 4, "events".to_string(), QueueType::Nats, creds, at(9));
    q.group_id = Some(1);
    q.external_port = Some(14222);
    let rec = encode_queue(&q).unwrap();
    assert_eq!(rec.queue_type, "nats");
    let back = decode_queue(&rec).unwrap();
    assert_eq!(back.group_id, None);
    assert_eq!(back.queue_type, QueueType::Nats);
    assert_eq!(back.external_port, Some(14222));
    assert_eq!(back.credentials.password, "pw");
    let mut bad = encode_queue(&q).unwrap();
    bad.port = 70000;
    assert_eq!(decode_queue(&bad).err().unwrap(), "invalid managed queue port value: 70000");
}
