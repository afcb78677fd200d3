use containr::ids::Timestamp;
use containr::models::{
    App, Certificate, CertificateStatus, ContainerService, Deployment, DeploymentStatus,
    RestartPolicy, RolloutStrategy, ServiceDeployment, ServiceHealth, ServiceType,
};
use containr::records::{GithubAppConfig, GithubInstallation, User};
use containr::store::{encode_deployment_status, encode_rollout_strategy, encode_service_health};

fn new_id() -> u128 {
    uuid::Uuid::new_v4().as_u128()
}

fn now_plus_days(days: i64) -> Timestamp {
    let t = chrono::Utc::now() + chrono::Duration::days(days);
    Timestamp { secs: t.timestamp(), nanos: t.timestamp_subsec_nanos() }
}

#[test]
fn test_app_new() {
    let owner_id = new_id();
    let app = App::new("test-app".to_string(), "https://github.com/user/repo".to_string(), owner_id);

    assert_eq!(app.name, "test-app");
    assert_eq!(app.github_url, "https://github.com/user/repo");
    assert_eq!(app.branch, "main");
    assert_eq!(app.owner_id, owner_id);
    assert!(app.env_vars.is_empty());
    assert!(app.services.is_empty());
    assert_eq!(app.port, 8080);
    assert!(app.domain.is_none());
    assert!(app.domains.is_empty());
    assert_eq!(app.rollout_strategy, RolloutStrategy::StopFirst);
    assert_eq!(app.created_at, app.updated_at);
}

#[test]
fn test_app_has_services() {
    let owner_id = new_id();
    let mut app = App::new("test-app".to_string(), "https://github.com/user/repo".to_string(), owner_id);

    assert!(!app.has_services());

    app.services.push(ContainerService::new(app.id, "web".to_string(), "nginx:latest".to_string(), 80));

    assert!(app.has_services());
}

#[test]
fn test_app_requires_source_checkout_for_built_services() {
    let owner_id = new_id();
    let mut app = App::new("test-app".to_string(), String::new(), owner_id);

    app.services.push(ContainerService::new(app.id, "web".to_string(), "nginx:stable".to_string(), 80));
    assert!(!app.requires_source_checkout());

    app.services.push(ContainerService::new(app.id, "worker".to_string(), String::new(), 0));
    assert!(app.requires_source_checkout());
}

#[test]
fn test_app_ensure_service_model_promotes_legacy_app() {
    let owner_id = new_id();
    let mut app = App::new("test-app".to_string(), "https://github.com/user/repo".to_string(), owner_id);
    app.port = 9090;

    app.ensure_service_model();

    assert_eq!(app.services.len(), 1);
    assert_eq!(app.services[0].id, app.default_service_id());
    assert_eq!(app.services[0].name, "web");
    assert_eq!(app.services[0].port, 9090);
    assert!(app.services[0].expose_http);
    assert_eq!(app.services[0].replicas, 1);
    assert!(app.services[0].domains.is_empty());
}

#[test]
fn test_app_normalized_for_service_model_moves_legacy_domains_to_web_service() {
    let owner_id = new_id();
    let mut app = App::new("test-app".to_string(), "https://github.com/user/repo".to_string(), owner_id);
    app.set_domains(vec!["demo.example.com".to_string(), "api.example.com".to_string()]);

    let normalized = app.normalized_for_service_model();

    assert!(normalized.domain.is_none());
    assert!(normalized.domains.is_empty());
    assert_eq!(
        normalized.services[0].domains,
        vec!["demo.example.com".to_string(), "api.example.com".to_string()]
    );
    assert_eq!(
        normalized.custom_domains(),
        vec!["demo.example.com".to_string(), "api.example.com".to_string()]
    );
}

#[test]
fn test_container_service_new() {
    let app_id = new_id();
    let service = ContainerService::new(app_id, "api".to_string(), "node:18".to_string(), 3000);

    assert_eq!(service.app_id, app_id);
    assert_eq!(service.name, "api");
    assert_eq!(service.image, "node:18");
    assert_eq!(service.port, 3000);
    assert!(!service.expose_http);
    assert!(service.additional_ports.is_empty());
    assert_eq!(service.replicas, 1);
    assert!(service.memory_limit.is_none());
    assert!(service.cpu_limit_bits.is_none());
    assert!(service.depends_on.is_empty());
    assert!(service.health_check.is_none());
    assert_eq!(service.restart_policy, RestartPolicy::Always);
    assert!(service.registry_auth.is_none());
    assert!(service.domains.is_empty());
    assert!(service.command.is_none());
    assert!(service.entrypoint.is_none());
    assert!(service.working_dir.is_none());
    assert_eq!(service.created_at, service.updated_at);
}

#[test]
fn test_cron_service_does_not_expect_inbound_port() {
    let app_id = new_id();
    let mut service = ContainerService::new(app_id, "cleanup".to_string(), "alpine:3.22".to_string(), 0);
    service.service_type = ServiceType::CronJob;
    service.schedule = Some("*/5 * * * *".to_string());

    assert!(service.is_cron_job());
    assert!(!service.expects_inbound_port());
    assert!(!service.requires_source_checkout());
}

#[test]
fn test_service_deployment_new() {
    let service_id = new_id();
    let deployment_id = new_id();
    let sd = ServiceDeployment::new(service_id, deployment_id, 0);

    assert_eq!(sd.service_id, service_id);
    assert_eq!(sd.deployment_id, deployment_id);
    assert_eq!(sd.replica_index, 0);
    assert_eq!(sd.status, DeploymentStatus::Pending);
    assert_eq!(sd.health, ServiceHealth::Unknown);
    assert!(sd.container_id.is_none());
    assert!(sd.logs.is_empty());
}

#[test]
fn test_deployment_new() {
    let app_id = new_id();
    let deployment = Deployment::new(app_id, "abc123".to_string());

    assert_eq!(deployment.app_id, app_id);
    assert_eq!(deployment.commit_sha, "abc123");
    assert!(deployment.commit_message.is_none());
    assert_eq!(deployment.status, DeploymentStatus::Pending);
    assert!(deployment.container_id.is_none());
    assert!(deployment.image_id.is_none());
    assert!(deployment.service_deployments.is_empty());
    assert!(deployment.logs.is_empty());
    assert!(deployment.started_at.is_none());
    assert!(deployment.finished_at.is_none());
}

#[test]
fn test_user_new_with_password() {
    let user = User::new_with_password("test@example.com".to_string(), "password_hash".to_string());

    assert_eq!(user.email, "test@example.com");
    assert_eq!(user.password_hash, Some("password_hash".to_string()));
    assert!(user.github_id.is_none());
    assert!(user.github_username.is_none());
    assert!(user.github_access_token.is_none());
}

#[test]
fn test_user_new_with_github() {
    let user = User::new_with_github("test@example.com".to_string(), 12345, "github-user".to_string());

    assert_eq!(user.email, "test@example.com");
    assert_eq!(user.github_id, Some(12345));
    assert_eq!(user.github_username, Some("github-user".to_string()));
    assert!(user.password_hash.is_none());
    assert!(user.github_access_token.is_none());
}

#[test]
fn test_github_app_config_builder() {
    let owner_id = new_id();
    let config = GithubAppConfig::builder(12345, "my-app", owner_id)
        .client_id("client123")
        .client_secret("secret123")
        .private_key("private-key-data")
        .webhook_secret("webhook-secret")
        .html_url("https://github.com/apps/my-app")
        .build();

    assert_eq!(config.app_id, 12345);
    assert_eq!(config.app_name, "my-app");
    assert_eq!(config.client_id, "client123");
    assert_eq!(config.client_secret, "secret123");
    assert_eq!(config.private_key, "private-key-data");
    assert_eq!(config.webhook_secret, "webhook-secret");
    assert_eq!(config.html_url, "https://github.com/apps/my-app");
    assert_eq!(config.owner_id, owner_id);
    assert!(config.installations.is_empty());
}

#[test]
fn test_github_app_config_builder_minimal() {
    let owner_id = new_id();
    let config = GithubAppConfig::builder(12345, "minimal-app", owner_id).build();

    assert_eq!(config.app_id, 12345);
    assert_eq!(config.app_name, "minimal-app");
    assert!(config.client_id.is_empty());
    assert!(config.client_secret.is_empty());
    assert_eq!(config.owner_id, owner_id);
}

#[test]
fn test_github_installation_new() {
    let installation = GithubInstallation::new(67890, "test-user".to_string(), "User".to_string());

    assert_eq!(installation.id, 67890);
    assert_eq!(installation.account_login, "test-user");
    assert_eq!(installation.account_type, "User");
    assert!(installation.repository_count.is_none());
}

#[test]
fn test_certificate_new() {
    let expires_at = now_plus_days(90);
    let cert = Certificate::new(
        "example.com".to_string(),
        "cert-data".to_string(),
        "key-data".to_string(),
        expires_at,
    );

    assert_eq!(cert.domain, "example.com");
    assert_eq!(cert.cert_pem, "cert-data");
    assert_eq!(cert.key_pem, "key-data");
    assert_eq!(cert.expires_at, expires_at);
}

#[test]
fn test_certificate_status_valid() {
    let cert = Certificate::new(
        "example.com".to_string(),
        "cert-data".to_string(),
        "key-data".to_string(),
        now_plus_days(90),
    );

    assert_eq!(cert.status(), CertificateStatus::Valid);
}

#[test]
fn test_certificate_status_expiring_soon() {
    let cert = Certificate::new(
        "example.com".to_string(),
        "cert-data".to_string(),
        "key-data".to_string(),
        now_plus_days(15),
    );

    assert_eq!(cert.status(), CertificateStatus::ExpiringSoon);
}

#[test]
fn test_certificate_status_expired() {
    let cert = Certificate::new(
        "example.com".to_string(),
        "cert-data".to_string(),
        "key-data".to_string(),
        now_plus_days(-1),
    );

    assert_eq!(cert.status(), CertificateStatus::Expired);
}

#[test]
fn certificate_status_only_moves_forward() {
    let cert = Certificate::new(
        "example.com".to_string(),
        String::new(),
        String::new(),
        Timestamp { secs: 10_000_000, nanos: 0 },
    );
    let early = Timestamp { secs: 1_000_000, nanos: 0 };
    let window = Timestamp { secs: 9_000_000, nanos: 0 };
    let late = Timestamp { secs: 10_000_001, nanos: 0 };
    assert_eq!(cert.status_at(early), CertificateStatus::Valid);
    assert_eq!(cert.status_at(window), CertificateStatus::ExpiringSoon);
    assert_eq!(cert.status_at(late), CertificateStatus::Expired);
}

#[test]
fn certificate_status_at_latest_instants() {
    let cert = Certificate::new(
        "example.com".to_string(),
        String::new(),
        String::new(),
        Timestamp { secs: i64::MAX - 5, nanos: 0 },
    );
    let near_end = Timestamp { secs: i64::MAX - 10, nanos: 0 };
    let end = Timestamp { secs: i64::MAX, nanos: 0 };
    assert_eq!(cert.status_at(near_end), CertificateStatus::ExpiringSoon);
    assert_eq!(cert.status_at(end), CertificateStatus::Expired);
}

#[test]
fn normalizing_twice_changes_nothing() {
    let mut app = App::new("demo".to_string(), String::new(), new_id());
    app.set_domains(vec!["a.example.com".to_string(), " ".to_string(), "b.example.com".to_string()]);
    assert_eq!(app.domain, Some("a.example.com".to_string()));
    let once = app.normalized_for_service_model();
    let twice = once.normalized_for_service_model();
    assert_eq!(once.services[0].domains, twice.services[0].domains);
    assert_eq!(once.custom_domains(), twice.custom_domains());
    assert_eq!(app.custom_domains(), once.custom_domains());
}

#[test]
fn legacy_domains_are_dropped_without_a_public_service() {
    let mut app = App::new("demo".to_string(), String::new(), new_id());
    app.services.push(ContainerService::new(app.id, "worker".to_string(), "busybox".to_string(), 0));
    app.set_domains(vec!["a.example.com".to_string()]);
    let normalized = app.normalized_for_service_model();
    assert!(normalized.custom_domains().is_empty());
    assert_eq!(app.custom_domains(), vec!["a.example.com".to_string()]);
}

#[test]
fn deploy_webhook_token_is_kept_or_generated() {
    let mut app = App::new("demo".to_string(), String::new(), new_id());
    let token = app.ensure_deploy_webhook_token().to_string();
    assert_eq!(token.len(), 32);
    assert_eq!(app.ensure_deploy_webhook_token(), token);

    app.deploy_webhook_token = Some("  ".to_string());
    let fresh = app.ensure_deploy_webhook_token_with(0xab).to_string();
    assert_eq!(fresh, "000000000000000000000000000000ab");
    assert_eq!(app.deploy_webhook_token, Some(fresh));
}

#[test]
fn primary_public_service_prefers_web() {
    let mut app = App::new("demo".to_string(), String::new(), new_id());
    let mut api = ContainerService::new(app.id, "api".to_string(), "img".to_string(), 3000);
    api.service_type = ServiceType::WebService;
    let mut web = ContainerService::new(app.id, "web".to_string(), "img".to_string(), 80);
    web.service_type = ServiceType::WebService;
    app.services = vec![api, web];
    assert_eq!(app.primary_public_service_index(), Some(1));
    match app.primary_public_service_mut() {
        Some(service) => service.port = 81,
        None => panic!("expected a primary public service"),
    }
    assert_eq!(app.services[1].port, 81);
}


fn quoted(s: &str) -> String {
    format!("\"{}\"", s)
}

#[test]
fn test_deployment_status_serialization_strings() {
    let cases = [
        (DeploymentStatus::Pending, "pending"),
        (DeploymentStatus::Cloning, "cloning"),
        (DeploymentStatus::Building, "building"),
        (DeploymentStatus::Pushing, "pushing"),
        (DeploymentStatus::Starting, "starting"),
        (DeploymentStatus::Running, "running"),
        (DeploymentStatus::Failed, "failed"),
        (DeploymentStatus::Stopped, "stopped"),
    ];
    for (status, expected) in cases {
        let encoded = quoted(encode_deployment_status(status));
        assert_eq!(encoded, format!("\"{}\"", expected));
    }
}

#[test]
fn test_rollout_strategy_serialization_strings() {
    let cases = [(RolloutStrategy::StopFirst, "stop_first"), (RolloutStrategy::StartFirst, "start_first")];
    for (strategy, expected) in cases {
        let encoded = quoted(encode_rollout_strategy(strategy));
        assert_eq!(encoded, format!("\"{}\"", expected));
    }
}

#[test]
fn test_service_health_serialization_strings() {
    let cases = [
        (ServiceHealth::Unknown, "unknown"),
        (ServiceHealth::Healthy, "healthy"),
        (ServiceHealth::Unhealthy, "unhealthy"),
        (ServiceHealth::Starting, "starting"),
    ];
    for (health, expected) in cases {
        let encoded = quoted(encode_service_health(health));
        assert_eq!(encoded, format!("\"{}\"", expected));
    }
}
