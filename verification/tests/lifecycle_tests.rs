use base64::Engine;
use containr::catalog::{collect_catalog_entries, list_service_inventory_by_owner_and_group, sort_listing};
use containr::certs::{CertAction, CertEvent, CertRequestState};
use containr::client::{ClientConfig, ClientConfigError, ClientInstanceConfig, InstanceTable};
use containr::proxy::{proxy_response, ProxyCtx, RequestAction};
use containr::store::{check_legacy_store, entity_table_names, legacy_tables};
use containr::ctl::check_recover_target;
use containr::dbctl::pitr_label_now;
use containr::dbplan::{database_start_step, export_file_path_now, DatabaseStartAction, DatabaseStartEvent};
use containr::ids::Timestamp;
use containr::inventory::summarize_app_service_runtime;
use containr::managed::{DatabaseCredentials, DatabaseType, ManagedDatabase, QueueCredentials, QueueType, ServiceStatus};
use containr::models::{
    App, ContainerService, Deployment, DeploymentStatus, HealthCheck, Project, RolloutStrategy,
    ServiceDeployment, ServiceType,
};
use containr::rollout::{legacy_stop_first, replica_step, ReplicaAction, ReplicaEvent};
use containr::routing::routing_app;
use containr::secrets::{derive_key, encrypt};
use containr::systemd::{systemctl_steps, ServiceUnitConfig};
use containr::text::byte_prefix;

fn at(secs: i64) -> Timestamp {
    Timestamp { secs, nanos: 0 }
}

fn unit_config() -> ServiceUnitConfig {
    ServiceUnitConfig {
        service_name: "containr".to_string(),
        user: "root".to_string(),
        working_directory: "/opt/containr".to_string(),
        binary_path: "/usr/local/bin/containr".to_string(),
        config_path: "/opt/containr/containr.toml".to_string(),
        log_level: "info".to_string(),
    }
}

#[test]
fn client_config_error_messages() {
    assert_eq!(ClientConfigError::HomeNotSet.message(), "$HOME is not set");
    assert_eq!(
        ClientConfigError::InstanceNotConfigured("prod".to_string()).message(),
        "instance 'prod' is not configured"
    );
}

#[test]
fn generated_passwords_are_ascii_alphanumeric() {
    let db = DatabaseCredentials::generate(DatabaseType::Postgresql);
    assert_eq!(db.password.len(), 24);
    assert!(db.password.chars().all(|c| c.is_ascii_alphanumeric()));
    let q = QueueCredentials::generate(QueueType::Nats);
    assert_eq!(q.password.len(), 24);
    assert!(q.password.chars().all(|c| c.is_ascii_alphanumeric()));
}

#[test]
fn encrypted_payload_is_nonce_ciphertext_and_tag() {
    let key = derive_key("secret");
    let plaintext = "héllo";
    let text = encrypt(plaintext, &key).unwrap();
    let bytes = base64::engine::general_purpose::STANDARD.decode(text).unwrap();
    assert_eq!(bytes.len(), 12 + plaintext.len() + 16);
}

#[test]
fn unit_paths_compare_by_component() {
    let steps = systemctl_steps(&unit_config(), "/etc/systemd/system//containr.service", true, false).unwrap();
    assert_eq!(
        steps,
        vec![vec!["daemon-reload".to_string()], vec!["enable".to_string(), "containr".to_string()]]
    );
    assert!(systemctl_steps(&unit_config(), "/etc/systemd/system/other.service", false, true).is_err());
}

#[test]
fn routing_uses_snapshot_of_running_deployment() {
    let app = App::new("demo".to_string(), "https://example.com/repo".to_string(), 1);
    let mut snapshot = app.clone();
    snapshot.name = "snapshot".to_string();
    let mut latest = Deployment::new(app.id, "abc".to_string());
    latest.app_snapshot = Some(snapshot);
    let pending = Some(latest.clone());
    assert_eq!(routing_app(&app, &pending).name, "demo");
    latest.status = DeploymentStatus::Running;
    let running = Some(latest);
    assert_eq!(routing_app(&app, &running).name, "snapshot");
    assert_eq!(routing_app(&app, &None).name, "demo");
}

#[test]
fn database_start_records_ready_container() {
    let mut db = ManagedDatabase::new(1, "primary".to_string(), DatabaseType::Postgresql);
    assert!(matches!(
        database_start_step(&mut db, DatabaseStartEvent::Checked { running: true }, at(5)),
        DatabaseStartAction::Fail { message } if message == "database is already running"
    ));
    assert!(matches!(
        database_start_step(&mut db, DatabaseStartEvent::Checked { running: false }, at(5)),
        DatabaseStartAction::CreateContainer
    ));
    let action = database_start_step(
        &mut db,
        DatabaseStartEvent::ContainerStarted { container_id: "abc".to_string(), ready: true },
        at(50),
    );
    assert!(matches!(action, DatabaseStartAction::Done { container_id } if container_id == "abc"));
    assert_eq!(db.container_id.as_deref(), Some("abc"));
    assert_eq!(db.status, ServiceStatus::Running);
    assert_eq!(db.updated_at, at(50));
}

#[test]
fn database_start_removes_unready_container_and_stops_on_frontend_failure() {
    let mut db = ManagedDatabase::new(1, "primary".to_string(), DatabaseType::Postgresql);
    let id = uuid::Uuid::from_u128(db.id).to_string();
    let action = database_start_step(
        &mut db,
        DatabaseStartEvent::ContainerStarted { container_id: "abc".to_string(), ready: false },
        at(50),
    );
    match action {
        DatabaseStartAction::RemoveAndFail { name, message } => {
            assert_eq!(name, format!("containr-db-{}", id));
            assert_eq!(message, "database container did not become ready");
        }
        _ => panic!("expected removal"),
    }
    assert!(db.container_id.is_none());
    db.proxy_enabled = true;
    assert!(matches!(
        database_start_step(
            &mut db,
            DatabaseStartEvent::ContainerStarted { container_id: "abc".to_string(), ready: true },
            at(60),
        ),
        DatabaseStartAction::StartFrontend
    ));
    assert!(matches!(
        database_start_step(
            &mut db,
            DatabaseStartEvent::FrontendStarted { container_id: "abc".to_string(), result: Err("boom".to_string()) },
            at(61),
        ),
        DatabaseStartAction::StopAndFail { message } if message == "boom"
    ));
    let mut maria = ManagedDatabase::new(1, "m".to_string(), DatabaseType::Mariadb);
    maria.proxy_enabled = true;
    assert!(matches!(
        database_start_step(&mut maria, DatabaseStartEvent::Checked { running: false }, at(5)),
        DatabaseStartAction::Fail { message } if message == "pgdog proxy is only supported for postgresql"
    ));
}

#[test]
fn stop_first_retires_old_container_before_create() {
    let mut service = ContainerService::new(1, "web".to_string(), "nginx".to_string(), 80);
    let old = Some("old-container".to_string());
    assert!(matches!(
        replica_step(RolloutStrategy::StopFirst, &old, "new", &service, 0, ReplicaEvent::Begin),
        ReplicaAction::RetireThenCreate { old } if old == "old-container"
    ));
    assert!(matches!(
        replica_step(RolloutStrategy::StartFirst, &old, "new", &service, 0, ReplicaEvent::Begin),
        ReplicaAction::Create
    ));
    assert!(matches!(
        replica_step(RolloutStrategy::StopFirst, &old, "new", &service, 0, ReplicaEvent::Created),
        ReplicaAction::Record
    ));
    service.health_check = Some(HealthCheck {
        path: "/health".to_string(),
        interval_secs: 10,
        timeout_secs: 5,
        retries: 3,
    });
    assert!(matches!(
        replica_step(RolloutStrategy::StopFirst, &old, "new", &service, 0, ReplicaEvent::Created),
        ReplicaAction::WaitHealthy { container } if container == "new"
    ));
    match replica_step(RolloutStrategy::StopFirst, &old, "new", &service, 2, ReplicaEvent::HealthChecked { healthy: false }) {
        ReplicaAction::RemoveAndFail { container, message } => {
            assert_eq!(container, "new");
            assert_eq!(message, "service web replica 2 failed health check");
        }
        _ => panic!("expected failure"),
    }
    let mut previous = Deployment::new(1, "abc".to_string());
    previous.container_id = Some("legacy".to_string());
    let previous = Some(previous);
    assert_eq!(legacy_stop_first(RolloutStrategy::StopFirst, &previous).as_deref(), Some("legacy"));
    assert_eq!(legacy_stop_first(RolloutStrategy::StartFirst, &previous), None);
}

#[test]
fn certificate_requests_issue_once_per_domain() {
    let mut state = CertRequestState::new();
    assert_eq!(
        state.step(CertEvent::Requested { domain: String::new(), acme_enabled: true }, "example.com", None),
        CertAction::Ignore
    );
    assert_eq!(
        state.step(CertEvent::Requested { domain: "a.example.com".to_string(), acme_enabled: false }, "example.com", None),
        CertAction::WarnDisabled
    );
    assert_eq!(
        state.step(CertEvent::Requested { domain: "a.example.com".to_string(), acme_enabled: false }, "example.com", None),
        CertAction::Ignore
    );
    assert_eq!(
        state.step(CertEvent::Requested { domain: "a.example.com".to_string(), acme_enabled: true }, "example.com", None),
        CertAction::LookUp("a.example.com".to_string())
    );
    let found = CertEvent::LookedUp { domain: "a.example.com".to_string(), app_found: Ok(true) };
    assert_eq!(state.step(found, "example.com", None), CertAction::Issue("a.example.com".to_string()));
    let again = CertEvent::LookedUp { domain: "a.example.com".to_string(), app_found: Ok(true) };
    assert_eq!(state.step(again, "example.com", None), CertAction::Ignore);
    state.step(CertEvent::Finished { domain: "a.example.com".to_string() }, "example.com", None);
    let after = CertEvent::LookedUp { domain: "a.example.com".to_string(), app_found: Ok(true) };
    assert_eq!(state.step(after, "example.com", None), CertAction::Issue("a.example.com".to_string()));
    let unknown = CertEvent::LookedUp { domain: "x.other.com".to_string(), app_found: Ok(false) };
    assert_eq!(state.step(unknown, "example.com", None), CertAction::WarnBlocked("x.other.com".to_string()));
    let unknown = CertEvent::LookedUp { domain: "x.other.com".to_string(), app_found: Ok(false) };
    assert_eq!(state.step(unknown, "example.com", None), CertAction::Ignore);
    let dashboard = CertEvent::LookedUp { domain: "Example.com ".to_string(), app_found: Ok(false) };
    assert_eq!(state.step(dashboard, "example.com", None), CertAction::Issue("Example.com ".to_string()));
    let failed = CertEvent::LookedUp { domain: "b.example.com".to_string(), app_found: Err("db".to_string()) };
    assert_eq!(state.step(failed, "example.com", None), CertAction::WarnBlocked("b.example.com".to_string()));
}

#[test]
fn recover_needs_exactly_one_target() {
    let message = "provide exactly one of --restore-point or --target-time";
    assert_eq!(check_recover_target(None, None).unwrap_err(), message);
    assert_eq!(check_recover_target(Some("rp"), Some("2024-01-01")).unwrap_err(), message);
    assert!(check_recover_target(Some("rp"), None).is_ok());
    assert!(check_recover_target(None, Some("2024-01-01")).is_ok());
}

#[test]
fn byte_prefix_takes_any_length() {
    let long = "a".repeat(5000);
    assert_eq!(byte_prefix(&long, 4500).unwrap().len(), 4500);
    assert!(byte_prefix(&long, 6000).is_none());
    assert!(byte_prefix("é", 1).is_none());
}

#[test]
fn listing_keeps_order_of_equal_entries() {
    let mut p = Project::new_with(1, "g".to_string(), String::new(), 7, 1, at(1));
    let mut a = ContainerService::new_with(3, 1, "same".to_string(), String::new(), 80, at(20));
    a.service_type = ServiceType::WebService;
    let mut b = ContainerService::new_with(2, 1, "same".to_string(), String::new(), 80, at(20));
    b.service_type = ServiceType::WebService;
    p.services = vec![a, b];
    let apps = vec![(p, Vec::new())];
    let items = collect_catalog_entries(&apps, &Vec::new(), &Vec::new(), None);
    let sorted = sort_listing(items);
    assert_eq!(sorted[0].id, 3);
    assert_eq!(sorted[1].id, 2);
    let listed = list_service_inventory_by_owner_and_group(&apps, &Vec::new(), &Vec::new(), None);
    assert_eq!(listed[0].id, 3);
    assert_eq!(listed[1].id, 2);
}

#[test]
fn summary_does_not_depend_on_deployment_order() {
    let mut service = ContainerService::new(1, "api".to_string(), String::new(), 8080);
    service.service_type = ServiceType::PrivateService;
    let mut older = Deployment::new_with(10, 1, "a".to_string(), at(100));
    older.status = DeploymentStatus::Running;
    let mut sd = ServiceDeployment::new(service.id, older.id, 0);
    sd.status = DeploymentStatus::Running;
    sd.container_id = Some("old".to_string());
    older.service_deployments = vec![sd];
    let mut newer = Deployment::new_with(11, 1, "b".to_string(), at(200));
    newer.status = DeploymentStatus::Running;
    let mut sd = ServiceDeployment::new(service.id, newer.id, 0);
    sd.status = DeploymentStatus::Running;
    sd.container_id = Some("new".to_string());
    newer.service_deployments = vec![sd];
    let one = summarize_app_service_runtime(&service, &[older.clone(), newer.clone()]);
    let two = summarize_app_service_runtime(&service, &[newer, older]);
    assert_eq!(one.deployment_id, Some(11));
    assert_eq!(two.deployment_id, Some(11));
    assert_eq!(one.container_ids, vec!["new".to_string()]);
    assert_eq!(two.container_ids, one.container_ids);
    assert_eq!(two.running_instances, one.running_instances);
}

#[test]
fn clock_stamps_are_digits() {
    let label = pitr_label_now(None, "base");
    let stamp = label.strip_prefix("base-").unwrap();
    assert!(stamp.len() >= 14);
    assert!(stamp.chars().all(|c| c.is_ascii_digit()));
    let path = export_file_path_now("/backups", "main");
    assert!(path.contains('_'));
}

#[test]
fn proxy_answers_each_action() {
    let mut ctx = ProxyCtx::new_ctx();
    let reply = proxy_response(RequestAction::ServeChallenge("tok.key".to_string()), &mut ctx, "127.0.0.1:2077", None).unwrap();
    assert_eq!(reply.status, 200);
    assert_eq!(
        reply.headers,
        vec![
            ("Content-Type".to_string(), "text/plain".to_string()),
            ("Content-Length".to_string(), "7".to_string()),
        ]
    );
    assert_eq!(reply.body.as_deref(), Some("tok.key"));
    assert!(ctx.upstream_addr.is_none());

    let reply = proxy_response(
        RequestAction::RedirectHttps("https://example.com/x?y".to_string()),
        &mut ctx,
        "127.0.0.1:2077",
        None,
    )
    .unwrap();
    assert_eq!(reply.status, 301);
    assert_eq!(
        reply.headers,
        vec![
            ("Location".to_string(), "https://example.com/x?y".to_string()),
            ("Content-Length".to_string(), "0".to_string()),
        ]
    );
    assert!(reply.body.is_none());

    let reply = proxy_response(RequestAction::HttpsRequired, &mut ctx, "127.0.0.1:2077", None).unwrap();
    assert_eq!(reply.status, 426);
    assert_eq!(reply.body.as_deref(), Some("https required; certificate provisioning in progress"));
    assert_eq!(reply.headers[1].1, "52");

    let reply = proxy_response(RequestAction::StorageNotConfigured, &mut ctx, "127.0.0.1:2077", None).unwrap();
    assert_eq!(reply.status, 503);
    assert_eq!(reply.body.as_deref(), Some("storage proxy is not configured"));

    let reply = proxy_response(RequestAction::ForwardRoute, &mut ctx, "127.0.0.1:2077", None).unwrap();
    assert_eq!(reply.status, 404);
    assert_eq!(reply.body.as_deref(), Some("no route found"));
    assert!(ctx.upstream_addr.is_none());

    assert!(proxy_response(RequestAction::ForwardRoute, &mut ctx, "127.0.0.1:2077", Some("10.0.0.2:80".to_string())).is_none());
    assert_eq!(ctx.upstream_addr.as_deref(), Some("10.0.0.2:80"));
    assert_eq!(ctx.upstream_selection.as_deref(), Some("10.0.0.2:80"));
    assert!(!ctx.upstream_tls);

    assert!(proxy_response(RequestAction::ForwardStorage("10.0.0.3:9000".to_string(), true), &mut ctx, "127.0.0.1:2077", None).is_none());
    assert_eq!(ctx.upstream_addr.as_deref(), Some("10.0.0.3:9000"));
    assert!(ctx.upstream_tls);
    assert!(ctx.upstream_selection.is_none());

    assert!(proxy_response(RequestAction::ForwardApi, &mut ctx, "127.0.0.1:2077", None).is_none());
    assert_eq!(ctx.upstream_addr.as_deref(), Some("127.0.0.1:2077"));
    assert!(!ctx.upstream_tls);
    assert!(ctx.upstream_selection.is_none());
}

#[test]
fn challenge_length_counts_bytes() {
    let mut ctx = ProxyCtx::new_ctx();
    let reply = proxy_response(RequestAction::ServeChallenge("é".to_string()), &mut ctx, "api", None).unwrap();
    assert_eq!(reply.headers[1].1, "2");
}

#[test]
fn legacy_key_value_tables_are_reported_in_order() {
    let kv = vec!["key".to_string(), "value".to_string()];
    let relational = vec!["id".to_string(), "email".to_string()];
    let mut columns: Vec<Vec<String>> = vec![relational.clone(); 10];
    assert!(legacy_tables(&columns).is_empty());
    assert!(check_legacy_store(&columns).is_ok());
    columns[9] = kv.clone();
    columns[1] = kv.clone();
    assert_eq!(legacy_tables(&columns), vec!["apps".to_string(), "github_apps".to_string()]);
    assert_eq!(
        check_legacy_store(&columns).unwrap_err(),
        "unsupported legacy sqlite json tables detected: apps, github_apps"
    );
    assert_eq!(entity_table_names().len(), 10);
    assert!(legacy_tables(&vec![kv]).len() == 1);
    assert!(check_legacy_store(&Vec::new()).is_ok());
}

#[test]
fn instance_tables_refuse_repeated_names() {
    let a = ("a".to_string(), ClientInstanceConfig::default());
    let b = ("b".to_string(), ClientInstanceConfig::default());
    let again = ("a".to_string(), ClientInstanceConfig::default());
    assert!(InstanceTable::from_entries(vec![a.clone(), again]).is_none());
    let table = InstanceTable::from_entries(vec![a, b]).unwrap();
    assert_eq!(table.len(), 2);
    let names: Vec<String> = table.into_entries().into_iter().map(|e| e.0).collect();
    assert_eq!(names, vec!["a".to_string(), "b".to_string()]);
    let mut config = ClientConfig::default();
    config.ensure_instance("default");
    config.ensure_instance("other");
    config.ensure_instance("other");
    assert_eq!(config.instances.len(), 2);
    assert!(config.instances.distinct());
}
