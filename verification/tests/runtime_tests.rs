use containr::cron::{launch_due, next_schedule_state, resolve_service_image, CronScheduleState};
use containr::dbctl::{
    build_base_backup_command, build_pgdog_command, build_pgdog_entrypoint,
    build_postgres_pitr_command, build_start_command, check_recovery_target,
    database_container_name, escape_toml_string, health_check_cmd, recovery_auto_conf,
    render_pgdog_config, render_pgdog_users, resolve_pitr_label, split_lines,
};
use containr::deploy::{
    built_image_name, primary_deployment_image_id, resolve_rollback_service_images,
    sanitize_image_suffix, topological_sort_services, DeployError,
};
use containr::docker::{plan_container_create, restart_policy_kind, DockerContainerConfig, RestartPolicyName};
use containr::env::{cron_env_vars, replica_env_vars, shared_env_vars, EnvVars};
use containr::ids::Timestamp;
use containr::inventory::{summarize_app_service_runtime, ServiceRuntimeStatus};
use containr::managed::{DatabaseType, ManagedDatabase, POSTGRES_PROXY_PORT};
use containr::models::{
    App, ContainerService, Deployment, DeploymentStatus, EnvVar, ServiceDeployment,
    ServiceRegistryAuth, ServiceType,
};
use containr::naming::build_container_hostname;
use containr::secrets::{
    decrypt, decrypt_stored_secret, derive_key, encrypt, encrypt_with_nonce,
    resolve_service_registry_auth, EncryptionError, SecretError,
};

fn new_id() -> u128 {
    uuid::Uuid::new_v4().as_u128()
}

fn make_service() -> ContainerService {
    let app_id = new_id();
    let mut service = ContainerService::new(app_id, "api".to_string(), "".to_string(), 8080);
    service.replicas = 2;
    service.service_type = ServiceType::PrivateService;
    service
}

fn make_deployment(service: &ContainerService) -> Deployment {
    Deployment::new(service.app_id, "deadbeef".to_string())
}

#[test]
fn summarize_app_service_runtime_marks_partial_replica_state() {
    let service = make_service();
    let mut deployment = make_deployment(&service);
    deployment.status = DeploymentStatus::Running;

    let mut first = ServiceDeployment::new(service.id, deployment.id, 0);
    first.status = DeploymentStatus::Running;
    first.container_id = Some("containr-app-api-0".to_string());
    first.image_id = Some("ghcr.io/example/api:latest".to_string());

    let mut second = ServiceDeployment::new(service.id, deployment.id, 1);
    second.status = DeploymentStatus::Stopped;
    second.image_id = Some("ghcr.io/example/api:latest".to_string());

    deployment.service_deployments = vec![first, second];

    let summary = summarize_app_service_runtime(&service, &[deployment]);

    assert_eq!(summary.status, ServiceRuntimeStatus::Partial);
    assert_eq!(summary.desired_instances, 2);
    assert_eq!(summary.running_instances, 1);
    assert_eq!(summary.container_ids.len(), 1);
    assert_eq!(summary.image.as_deref(), Some("ghcr.io/example/api:latest"));
}

#[test]
fn summarize_app_service_runtime_uses_latest_failed_deployment() {
    let service = make_service();
    let mut deployment = make_deployment(&service);
    deployment.status = DeploymentStatus::Failed;

    let mut service_deployment = ServiceDeployment::new(service.id, deployment.id, 0);
    service_deployment.status = DeploymentStatus::Failed;
    deployment.service_deployments = vec![service_deployment];

    let summary = summarize_app_service_runtime(&service, &[deployment]);

    assert_eq!(summary.status, ServiceRuntimeStatus::Failed);
    assert_eq!(summary.running_instances, 0);
}

#[test]
fn summarize_app_service_runtime_marks_cron_as_stopped_without_run() {
    let mut service = ContainerService::new(new_id(), "cron".to_string(), "".to_string(), 0);
    service.service_type = ServiceType::CronJob;
    service.schedule = Some("*/5 * * * *".to_string());

    let mut deployment = Deployment::new(service.app_id, "deadbeef".to_string());
    deployment.status = DeploymentStatus::Running;

    let mut service_deployment = ServiceDeployment::new(service.id, deployment.id, 0);
    service_deployment.status = DeploymentStatus::Stopped;
    deployment.service_deployments = vec![service_deployment];

    let summary = summarize_app_service_runtime(&service, &[deployment]);

    assert_eq!(summary.status, ServiceRuntimeStatus::Stopped);
    assert_eq!(summary.desired_instances, 1);
    assert_eq!(summary.running_instances, 0);
}

fn sample_database() -> ManagedDatabase {
    let mut db = ManagedDatabase::new(new_id(), "primary".to_string(), DatabaseType::Postgresql);
    db.proxy_enabled = true;
    db.pitr_enabled = true;
    db
}

#[test]
fn pgdog_config_uses_internal_database_host() {
    let db = sample_database();
    let config = render_pgdog_config(&db);
    assert!(config.contains("[general]"));
    assert!(config.contains("pooler_mode = \"session\""));
    assert!(config.contains(&format!("host = \"{}\"", db.normalized_internal_host())));
    assert!(config.contains(&format!("port = {}", POSTGRES_PROXY_PORT)));
}

#[test]
fn pgdog_users_config_maps_client_and_server_credentials() {
    let db = sample_database();
    let config = render_pgdog_users(&db);
    assert!(config.contains("[[users]]"));
    assert!(config.contains(&format!("name = \"{}\"", db.credentials.username)));
    assert!(config.contains(&format!("server_user = \"{}\"", db.credentials.username)));
}

#[test]
fn postgres_pitr_command_enables_wal_archiving() {
    let command = build_postgres_pitr_command();
    let joined = command.join(" ");
    assert!(joined.contains("wal_level=replica"));
    assert!(joined.contains("archive_mode=on"));
    assert!(joined.contains("/var/lib/postgresql/containr-pitr/wal"));
}

#[test]
fn pgdog_container_uses_explicit_binary_and_config_args() {
    assert_eq!(build_pgdog_entrypoint(), vec!["/usr/local/bin/pgdog".to_string()]);
    assert_eq!(
        build_pgdog_command(),
        vec![
            "--config".to_string(),
            "/etc/pgdog/pgdog.toml".to_string(),
            "--users".to_string(),
            "/etc/pgdog/users.toml".to_string(),
        ]
    );
}

#[test]
fn valkey_start_command_enforces_password() {
    let db = ManagedDatabase::new(new_id(), "cache".to_string(), DatabaseType::Valkey);

    assert_eq!(
        build_start_command(&db),
        Some(vec![
            "valkey-server".to_string(),
            "--requirepass".to_string(),
            db.credentials.password.clone(),
        ])
    );
}

#[test]
fn postgres_18_uses_versioned_mount_target() {
    let mut db = ManagedDatabase::new(new_id(), "primary".to_string(), DatabaseType::Postgresql);
    db.version = "18".to_string();

    assert_eq!(db.container_mount_target(), "/var/lib/postgresql");
    assert_eq!(db.container_data_dir(), "/var/lib/postgresql/18/docker");
}

fn sample_postgres_database(version: &str) -> ManagedDatabase {
    let mut db = ManagedDatabase::new(new_id(), "primary".to_string(), DatabaseType::Postgresql);
    db.version = version.to_string();
    db
}

#[test]
fn postgres_16_uses_legacy_data_layout() {
    let db = sample_postgres_database("16");

    assert_eq!(db.container_mount_target(), "/var/lib/postgresql/data");
    assert_eq!(db.container_data_dir(), "/var/lib/postgresql/data");
    assert_eq!(db.host_runtime_data_path(), db.host_data_path);
    assert!(!db.container_env_vars().iter().any(|(key, _)| key == "PGDATA"));
}

#[test]
fn postgres_18_uses_versioned_data_layout() {
    let db = sample_postgres_database("18.1");

    assert_eq!(db.container_mount_target(), "/var/lib/postgresql");
    assert_eq!(db.container_data_dir(), "/var/lib/postgresql/18/docker");
    assert_eq!(db.host_runtime_data_path(), format!("{}/18/docker", db.host_data_path));
    assert!(db
        .container_env_vars()
        .iter()
        .any(|(key, value)| { key == "PGDATA" && value == "/var/lib/postgresql/18/docker" }));
}

#[test]
fn build_container_hostname_sanitizes_and_truncates() {
    let hostname = build_container_hostname(
        "containr-12345678-service_WITH spaces-and-a-name-that-is-far-too-long-for-linux-hostnames",
    );

    assert!(hostname.starts_with("containr-12345678-service-with-spaces"));
    assert!(hostname.len() <= 63);
    assert!(!hostname.contains('_'));
}

#[test]
fn topological_sort_orders_dependencies() {
    let app_id = new_id();

    let web = ContainerService::new(app_id, "web".to_string(), "".to_string(), 8080);
    let mut api = ContainerService::new(app_id, "api".to_string(), "".to_string(), 8081);
    api.depends_on = vec!["web".to_string()];

    let sorted = match topological_sort_services(&[api.clone(), web.clone()]) {
        Ok(sorted) => sorted,
        Err(_) => panic!("expected an order"),
    };
    let names: Vec<String> = sorted.into_iter().map(|s| s.name).collect();

    assert_eq!(names, vec!["web".to_string(), "api".to_string()]);
}

#[test]
fn topological_sort_detects_cycles() {
    let app_id = new_id();

    let mut web = ContainerService::new(app_id, "web".to_string(), "".to_string(), 8080);
    let mut api = ContainerService::new(app_id, "api".to_string(), "".to_string(), 8081);
    web.depends_on = vec!["api".to_string()];
    api.depends_on = vec!["web".to_string()];

    let result = topological_sort_services(&[api, web]);
    assert!(result.is_err());
}

#[test]
fn resolve_service_registry_auth_decrypts_encrypted_password() {
    let app_id = new_id();
    let key = derive_key("test-secret");
    let encrypted_password = match encrypt("super-secret", &key) {
        Ok(text) => text,
        Err(_) => panic!("encryption failed"),
    };

    let mut service =
        ContainerService::new(app_id, "web".to_string(), "ghcr.io/demo/private:1".to_string(), 8080);
    service.registry_auth = Some(ServiceRegistryAuth {
        server: Some("ghcr.io".to_string()),
        username: "demo-user".to_string(),
        password: format!("enc:{}", encrypted_password),
    });

    let registry_auth = match resolve_service_registry_auth(&service, Some("test-secret")) {
        Ok(auth) => auth,
        Err(_) => panic!("expected the password to decrypt"),
    };
    assert!(registry_auth.is_some());
    let registry_auth = registry_auth.unwrap();
    assert_eq!(registry_auth.username, "demo-user");
    assert_eq!(registry_auth.password, "super-secret");
}

#[test]
fn test_encrypt_decrypt() {
    let key = derive_key("test-secret-key");
    let plaintext = "my-database-password";

    let encrypted = encrypt(plaintext, &key).unwrap();
    let decrypted = decrypt(&encrypted, &key).unwrap();

    assert_eq!(plaintext, decrypted);
}

#[test]
fn test_different_keys_fail() {
    let key1 = derive_key("key-one");
    let key2 = derive_key("key-two");
    let plaintext = "secret";

    let encrypted = encrypt(plaintext, &key1).unwrap();
    let result = decrypt(&encrypted, &key2);

    assert!(result.is_err());
}

#[test]
fn encryption_errors_cover_each_failure() {
    let key = derive_key("k");
    assert_eq!(encrypt("x", &key[..16]), Err(EncryptionError::InvalidKeyLength));
    assert_eq!(decrypt("x", &key[..16]), Err(EncryptionError::InvalidKeyLength));
    assert_eq!(decrypt("not base64!", &key), Err(EncryptionError::InvalidFormat));
    assert_eq!(decrypt("AAAA", &key), Err(EncryptionError::InvalidFormat));
    let nonce = [7u8; 12];
    let a = encrypt_with_nonce("hello", &key, &nonce).unwrap();
    let b = encrypt_with_nonce("hello", &key, &nonce).unwrap();
    assert_eq!(a, b);
    assert_ne!(a, "hello");
    assert_eq!(decrypt(&a, &key), Ok("hello".to_string()));
    let other = derive_key("other");
    match decrypt(&a, &other) {
        Err(EncryptionError::Decryption(_)) => {}
        other => panic!("expected a decryption error, got {:?}", other),
    }
    assert_eq!(EncryptionError::InvalidKeyLength.message(), "invalid key length");
}

#[test]
fn derived_key_is_the_sha256_digest() {
    let key = derive_key("abc");
    assert_eq!(key[0], 0xba);
    assert_eq!(key[1], 0x78);
    assert_eq!(key[31], 0xad);
}

#[test]
fn stored_secrets_are_read_by_their_marker() {
    assert_eq!(decrypt_stored_secret("  plain  ", None), Ok("plain".to_string()));
    assert_eq!(decrypt_stored_secret("enc:abc", None), Err(SecretError::KeyNotConfigured));
    match decrypt_stored_secret("enc:abc", Some("s")) {
        Err(SecretError::Undecryptable(EncryptionError::InvalidFormat)) => {}
        other => panic!("unexpected {:?}", other),
    }
    assert_eq!(
        SecretError::KeyNotConfigured.message(),
        "encryption key is not configured".to_string()
    );
}

#[test]
fn escape_toml_string_escapes_quotes_backslashes_and_newlines() {
    assert_eq!(escape_toml_string("a\"b\\c\nd"), "a\\\"b\\\\c\\nd");
    assert_eq!(escape_toml_string("plain"), "plain");
}

#[test]
fn health_checks_follow_the_engine() {
    let db = sample_database();
    assert_eq!(
        health_check_cmd(&db),
        format!("pg_isready -U {} -d {}", db.credentials.username, db.credentials.database_name)
    );
    let valkey = ManagedDatabase::new(new_id(), "cache".to_string(), DatabaseType::Valkey);
    assert_eq!(health_check_cmd(&valkey), format!("valkey-cli -a {} ping", valkey.credentials.password));
    let qdrant = ManagedDatabase::new(new_id(), "vec".to_string(), DatabaseType::Qdrant);
    assert_eq!(health_check_cmd(&qdrant), "");
    assert!(build_start_command(&db).is_none());
    assert!(database_container_name(&db).starts_with("containr-db-"));
}

#[test]
fn pitr_labels_are_sanitized_or_stamped() {
    assert_eq!(resolve_pitr_label(Some("Nightly Backup #1"), "base", "20240101000000"), "nightly-backup-1");
    assert_eq!(resolve_pitr_label(Some("***"), "base", "20240101000000"), "base-20240101000000");
    assert_eq!(resolve_pitr_label(None, "restore", "20240101000000"), "restore-20240101000000");
    let db = sample_database();
    let cmd = build_base_backup_command(&db, "b1");
    assert_eq!(cmd[0], "pg_basebackup");
    assert_eq!(cmd[8], "/var/lib/postgresql/containr-pitr/basebackups/b1");
    assert!(check_recovery_target(true, true).is_err());
    assert!(check_recovery_target(false, false).is_err());
    assert!(check_recovery_target(true, false).is_ok());
}

#[test]
fn recovery_config_replaces_recovery_settings() {
    let existing = "listen_addresses = '*'\r\n  restore_command = 'old'\nrecovery_target_name = 'x'\nwork_mem = 4MB";
    assert_eq!(
        split_lines(existing),
        vec![
            "listen_addresses = '*'".to_string(),
            "  restore_command = 'old'".to_string(),
            "recovery_target_name = 'x'".to_string(),
            "work_mem = 4MB".to_string(),
        ]
    );
    let conf = recovery_auto_conf(existing, Some("before-upgrade"), None);
    assert_eq!(
        conf,
        "listen_addresses = '*'\nwork_mem = 4MB\nrestore_command = 'cp /var/lib/postgresql/containr-pitr/wal/%f %p'\nrecovery_target_action = 'promote'\nrecovery_target_name = 'before-upgrade'\n"
    );
    assert_eq!(split_lines("a\n\nb\n"), vec!["a".to_string(), "".to_string(), "b".to_string()]);
}

#[test]
fn rollback_images_come_from_the_source_deployment() {
    let app = App::new("demo".to_string(), String::new(), new_id());
    let built = ContainerService::new(app.id, "web".to_string(), String::new(), 80);
    let pulled = ContainerService::new(app.id, "db".to_string(), "postgres:16".to_string(), 5432);
    let bare = ContainerService::new(app.id, "job".to_string(), String::new(), 0);
    let mut source = Deployment::new(app.id, "abc".to_string());
    let mut sd = ServiceDeployment::new(built.id, source.id, 0);
    sd.image_id = Some("containr/web:abc".to_string());
    source.service_deployments = vec![sd];

    let services = vec![built.clone(), pulled.clone()];
    let images = resolve_rollback_service_images(&services, &source).unwrap();
    assert_eq!(images, vec![(built.id, "containr/web:abc".to_string()), (pulled.id, "postgres:16".to_string())]);
    assert_eq!(primary_deployment_image_id(&images), None);

    let services = vec![built.clone(), bare.clone()];
    match resolve_rollback_service_images(&services, &source) {
        Err(DeployError::MissingImageArtifact(name)) => assert_eq!(name, "job"),
        _ => panic!("expected a missing image"),
    }
    source.image_id = Some("containr/all:abc".to_string());
    let images = resolve_rollback_service_images(&vec![bare.clone()], &source).unwrap();
    assert_eq!(primary_deployment_image_id(&images), Some("containr/all:abc".to_string()));
}

#[test]
fn built_images_are_named_after_commit_and_service() {
    let app_id = 0x1234u128;
    let name = built_image_name(app_id, "0123456789abcdef", "my service");
    assert_eq!(name, "containr/00000000-0000-0000-0000-000000001234:01234567-my-service");
    assert_eq!(built_image_name(app_id, "abc", ""), "containr/00000000-0000-0000-0000-000000001234:abc-service");
    assert_eq!(sanitize_image_suffix("a.b_c"), "a-b_c");
}

#[test]
fn env_vars_replace_values_by_name() {
    let mut app = App::new("demo".to_string(), String::new(), new_id());
    app.env_vars = vec![
        EnvVar { key: "A".to_string(), value: "1".to_string(), secret: false },
        EnvVar { key: "PORT".to_string(), value: "1".to_string(), secret: false },
    ];
    let shared = shared_env_vars(&app);
    let mut service = ContainerService::new(app.id, "web".to_string(), String::new(), 8080);
    service.env_vars = vec![EnvVar { key: "A".to_string(), value: "2".to_string(), secret: false }];
    let env = replica_env_vars(&shared, &service, 3);
    assert_eq!(env.get("A"), Some("2".to_string()));
    assert_eq!(env.get("PORT"), Some("8080".to_string()));
    assert_eq!(env.get("REPLICA_INDEX"), Some("3".to_string()));
    assert_eq!(env.get("SERVICE_NAME"), Some("web".to_string()));
    let mut lines = env.to_lines();
    lines.sort();
    assert_eq!(lines, vec!["A=2", "PORT=8080", "REPLICA_INDEX=3", "SERVICE_NAME=web"]);

    let cron = cron_env_vars(&shared, &service);
    assert_eq!(cron.get("CRON_SCHEDULE"), Some(String::new()));
    assert_eq!(cron.get("PORT"), Some("1".to_string()));

    let mut vars = EnvVars::new();
    vars.insert("K".to_string(), "v1".to_string());
    vars.insert("K".to_string(), "v2".to_string());
    assert_eq!(vars.get("K"), Some("v2".to_string()));
    assert_eq!(vars.to_lines(), vec!["K=v2".to_string()]);
    assert_eq!(vars.get("missing"), None);
}

#[test]
fn container_plan_maps_configuration() {
    let mut env = EnvVars::new();
    env.insert("A".to_string(), "1".to_string());
    let config = DockerContainerConfig {
        id: "containr-App_1".to_string(),
        image: "nginx".to_string(),
        env_vars: env,
        port: 80,
        additional_ports: vec![9000],
        command: None,
        entrypoint: None,
        working_dir: None,
        memory_limit: Some(512),
        cpu_limit_bits: None,
        network: None,
        mounts: Vec::new(),
        additional_networks: Vec::new(),
        health_check: None,
        restart_policy: "bogus".to_string(),
    };
    let plan = plan_container_create(&config);
    assert_eq!(plan.hostname, "containr-app-1");
    assert_eq!(plan.env, vec!["A=1".to_string()]);
    assert_eq!(plan.exposed_ports, Some(vec!["80/tcp".to_string(), "9000/tcp".to_string()]));
    assert_eq!(plan.memory_bytes, Some(512));
    assert_eq!(plan.restart_policy, RestartPolicyName::UnlessStopped);
    assert_eq!(restart_policy_kind("on-failure"), RestartPolicyName::OnFailure);
    assert_eq!(plan.labels, vec![("containr".to_string(), "true".to_string())]);
}

#[test]
fn cron_schedules_find_the_next_run() {
    let from = Timestamp { secs: 1_700_000_000, nanos: 0 };
    let state = match next_schedule_state("*/5 * * * *", 7, from) {
        Ok(state) => state,
        Err(_) => panic!("expected a schedule"),
    };
    assert_eq!(state.deployment_id, 7);
    assert_eq!(state.next_run_at, Timestamp { secs: 1_700_000_100, nanos: 0 });
    assert!(next_schedule_state("not a schedule", 7, from).is_err());
    let due = CronScheduleState { schedule: "x".to_string(), deployment_id: 1, next_run_at: from };
    assert!(launch_due(&due, false, from));
    assert!(!launch_due(&due, true, from));
    assert!(!launch_due(&due, false, Timestamp { secs: 1_699_999_999, nanos: 0 }));
}

#[test]
fn cron_images_prefer_recorded_artifacts() {
    let service = ContainerService::new(new_id(), "job".to_string(), "  ".to_string(), 0);
    let mut deployment = Deployment::new(service.app_id, "abc".to_string());
    match resolve_service_image(&service, &deployment) {
        Err(DeployError::NoDeployedImage(name)) => assert_eq!(name, "job"),
        _ => panic!("expected no image"),
    }
    deployment.image_id = Some("img:1".to_string());
    assert_eq!(resolve_service_image(&service, &deployment).ok(), Some("img:1".to_string()));
}
