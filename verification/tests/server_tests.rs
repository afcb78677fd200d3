use containr::client::{mask_secret, ClientConfig, ClientConfigError};
use containr::config::LoadBalanceAlgorithm;
use containr::ctl::{
    grouped_resource_path, resolve_project_source_url, resource_action_path,
    resource_nested_action_path, ApiTarget,
};
use containr::models::{App, ContainerService, Deployment, DeploymentStatus, ServiceDeployment, ServiceType};
use containr::routing::{
    active_http_container_ids, app_ids_in_container_names, app_routes_to_remove,
    container_for_service, legacy_service_container_prefix, managed_certificate_domains,
    parse_app_id_from_container_name, resolve_api_host, select_exposed_service,
    service_container_prefix, service_routing, storage_or_dashboard_domain_allowed, ProxyRoute,
    ServiceRouting, Upstream,
};
use containr::store::{decode_deployment_status, encode_deployment_status, encode_rollout_strategy, parse_u16};
use containr::systemd::{install_service_unit, render_service_unit, ServiceUnitConfig};
use containr::models::RolloutStrategy;

fn new_id() -> u128 {
    uuid::Uuid::new_v4().as_u128()
}

#[test]
fn select_exposed_service_prefers_named_web_service() {
    let owner_id = new_id();
    let mut app = App::new("demo".to_string(), "https://example.com/repo".to_string(), owner_id);

    let mut web = ContainerService::new(app.id, "web".to_string(), "nginx:latest".to_string(), 8080);
    let mut api = ContainerService::new(app.id, "api".to_string(), "nginx:latest".to_string(), 3000);
    web.service_type = ServiceType::WebService;
    web.expose_http = true;
    api.service_type = ServiceType::WebService;
    api.expose_http = true;
    app.services = vec![api, web.clone()];

    let selected = select_exposed_service(&app);
    assert_eq!(selected.map(|service| service.name), Some("web".to_string()));
}

#[test]
fn select_exposed_service_returns_first_public_service_without_web() {
    let owner_id = new_id();
    let mut app = App::new("demo".to_string(), "https://example.com/repo".to_string(), owner_id);

    let mut api = ContainerService::new(app.id, "api".to_string(), "nginx:latest".to_string(), 3000);
    api.service_type = ServiceType::WebService;
    api.expose_http = true;
    let worker = ContainerService::new(app.id, "worker".to_string(), "busybox:latest".to_string(), 9000);
    app.services = vec![api, worker];

    let selected = select_exposed_service(&app);
    assert_eq!(selected.map(|service| service.name), Some("api".to_string()));
}

#[test]
fn select_exposed_service_returns_none_without_public_service() {
    let owner_id = new_id();
    let mut app = App::new("demo".to_string(), "https://example.com/repo".to_string(), owner_id);

    let api = ContainerService::new(app.id, "api".to_string(), "nginx:latest".to_string(), 3000);
    let worker = ContainerService::new(app.id, "worker".to_string(), "busybox:latest".to_string(), 9000);
    app.services = vec![api, worker];

    let selected = select_exposed_service(&app);
    assert!(selected.is_none());
}

#[test]
fn active_http_container_ids_prefers_service_deployments() {
    let service_id = new_id();
    let mut deployment = Deployment::new(new_id(), "abc123".to_string());
    deployment.container_id = Some("containr-legacy".to_string());

    let mut first = ServiceDeployment::new(service_id, deployment.id, 0);
    first.container_id = Some("containr-service-0".to_string());
    let mut second = ServiceDeployment::new(service_id, deployment.id, 1);
    second.container_id = Some("containr-service-1".to_string());
    deployment.service_deployments = vec![first, second];

    let container_ids = active_http_container_ids(&deployment, service_id).unwrap();
    assert_eq!(container_ids.len(), 2);
    assert!(container_ids.contains("containr-service-0"));
    assert!(container_ids.contains("containr-service-1"));
    assert!(!container_ids.contains("containr-legacy"));
}

#[test]
fn active_http_container_ids_falls_back_to_legacy_container() {
    let service_id = new_id();
    let mut deployment = Deployment::new(new_id(), "abc123".to_string());
    deployment.container_id = Some("containr-legacy".to_string());

    let container_ids = active_http_container_ids(&deployment, service_id).unwrap();
    assert_eq!(container_ids.len(), 1);
    assert!(container_ids.contains("containr-legacy"));
}

#[test]
fn interrupted_deployment_status_only_matches_in_progress_states() {
    assert!(matches!(
        DeploymentStatus::Pending,
        DeploymentStatus::Pending
            | DeploymentStatus::Cloning
            | DeploymentStatus::Building
            | DeploymentStatus::Pushing
            | DeploymentStatus::Starting
    ));
    assert!(matches!(
        DeploymentStatus::Cloning,
        DeploymentStatus::Pending
            | DeploymentStatus::Cloning
            | DeploymentStatus::Building
            | DeploymentStatus::Pushing
            | DeploymentStatus::Starting
    ));
    assert!(matches!(
        DeploymentStatus::Building,
        DeploymentStatus::Pending
            | DeploymentStatus::Cloning
            | DeploymentStatus::Building
            | DeploymentStatus::Pushing
            | DeploymentStatus::Starting
    ));
    assert!(matches!(
        DeploymentStatus::Pushing,
        DeploymentStatus::Pending
            | DeploymentStatus::Cloning
            | DeploymentStatus::Building
            | DeploymentStatus::Pushing
            | DeploymentStatus::Starting
    ));
    assert!(matches!(
        DeploymentStatus::Starting,
        DeploymentStatus::Pending
            | DeploymentStatus::Cloning
            | DeploymentStatus::Building
            | DeploymentStatus::Pushing
            | DeploymentStatus::Starting
    ));
    assert!(!matches!(
        DeploymentStatus::Running,
        DeploymentStatus::Pending
            | DeploymentStatus::Cloning
            | DeploymentStatus::Building
            | DeploymentStatus::Pushing
            | DeploymentStatus::Starting
    ));
    assert!(!matches!(
        DeploymentStatus::Failed,
        DeploymentStatus::Pending
            | DeploymentStatus::Cloning
            | DeploymentStatus::Building
            | DeploymentStatus::Pushing
            | DeploymentStatus::Starting
    ));
    assert!(!matches!(
        DeploymentStatus::Stopped,
        DeploymentStatus::Pending
            | DeploymentStatus::Cloning
            | DeploymentStatus::Building
            | DeploymentStatus::Pushing
            | DeploymentStatus::Starting
    ));
}

#[test]
fn in_progress_statuses_match_the_library() {
    assert!(DeploymentStatus::Pushing.is_in_progress());
    assert!(!DeploymentStatus::Running.is_in_progress());
    assert!(!DeploymentStatus::Failed.is_in_progress());
}

#[test]
fn legacy_service_container_prefix_is_only_used_for_single_web_service() {
    let owner_id = new_id();
    let mut app = App::new("demo".to_string(), "https://example.com/repo".to_string(), owner_id);
    app.ensure_service_model();

    let prefix = legacy_service_container_prefix(&app, &app.services[0]);
    assert_eq!(prefix, Some(format!("containr-{}-", uuid::Uuid::from_u128(app.id))));

    let mut multi_service_app = app.clone();
    multi_service_app.services.push(ContainerService::new(
        multi_service_app.id,
        "worker".to_string(),
        "busybox:latest".to_string(),
        9000,
    ));

    let prefix = legacy_service_container_prefix(&multi_service_app, &multi_service_app.services[0]);
    assert!(prefix.is_none());
}

#[test]
fn container_names_parse_back_to_their_app() {
    let app_id = new_id();
    let name = format!("containr-{}-web-0-abc", uuid::Uuid::from_u128(app_id));
    assert_eq!(parse_app_id_from_container_name(&name), Some(app_id));
    assert_eq!(parse_app_id_from_container_name("containr-short"), None);
    assert_eq!(parse_app_id_from_container_name("other-name"), None);
    let names = vec![format!("/{}", name), format!("/{}", name), "/unrelated".to_string()];
    assert_eq!(app_ids_in_container_names(&names), vec![app_id]);
}

#[test]
fn api_host_maps_wildcards_to_loopback() {
    assert_eq!(resolve_api_host("0.0.0.0"), "127.0.0.1");
    assert_eq!(resolve_api_host("::"), "::1");
    assert_eq!(resolve_api_host("10.0.0.1"), "10.0.0.1");
}

#[test]
fn service_routes_cover_subdomains_and_custom_domains() {
    let mut app = App::new("demo".to_string(), String::new(), new_id());
    let mut web = ContainerService::new(app.id, "web".to_string(), "img".to_string(), 80);
    web.service_type = ServiceType::WebService;
    web.domains = vec!["www.example.com".to_string(), " ".to_string()];
    app.services = vec![web.clone()];
    let upstreams = vec![Upstream { host: "10.0.0.2".to_string(), port: 80 }];
    match service_routing(&app, &web, web.id, &upstreams, "apps.local", LoadBalanceAlgorithm::RoundRobin) {
        ServiceRouting::Add(routes) => {
            let domains: Vec<(String, bool)> = routes.iter().map(|r| (r.domain.clone(), r.ssl_enabled)).collect();
            assert_eq!(
                domains,
                vec![
                    ("web.demo.apps.local".to_string(), false),
                    ("www.example.com".to_string(), true),
                    ("demo.apps.local".to_string(), false),
                ]
            );
        }
        ServiceRouting::Remove(_) => panic!("expected routes"),
    }
    match service_routing(&app, &web, 0, &Vec::new(), "apps.local", LoadBalanceAlgorithm::RoundRobin) {
        ServiceRouting::Remove(domain) => assert_eq!(domain, "web.demo.apps.local"),
        ServiceRouting::Add(_) => panic!("expected a removal"),
    }

    let prefix = service_container_prefix(&app, &web);
    assert_eq!(container_for_service(&format!("/{}0-x", prefix), &None, &prefix, &None), Some(format!("{}0-x", prefix)));
    assert_eq!(container_for_service("/other", &None, &prefix, &None), None);

    let routes = vec![
        ProxyRoute {
            domain: "old.demo.apps.local".to_string(),
            app_id: None,
            service_id: None,
            upstreams: Vec::new(),
            ssl_enabled: false,
            algorithm: LoadBalanceAlgorithm::RoundRobin,
        },
        ProxyRoute {
            domain: "mine.example".to_string(),
            app_id: Some(app.id),
            service_id: None,
            upstreams: Vec::new(),
            ssl_enabled: true,
            algorithm: LoadBalanceAlgorithm::RoundRobin,
        },
    ];
    assert_eq!(
        app_routes_to_remove(&routes, &app, "apps.local"),
        vec!["mine.example".to_string(), "demo.apps.local".to_string(), "www.example.com".to_string(), " ".to_string(), "old.demo.apps.local".to_string()]
    );
}

#[test]
fn certificate_domains_are_sorted_and_unique() {
    let custom = vec!["B.example.com".to_string(), " a.example.com ".to_string(), "b.example.com".to_string(), " ".to_string()];
    assert_eq!(
        managed_certificate_domains(" Example.com ", Some("https://S3.example.com/"), &custom),
        vec![
            "a.example.com".to_string(),
            "b.example.com".to_string(),
            "example.com".to_string(),
            "s3.example.com".to_string(),
        ]
    );
    assert!(storage_or_dashboard_domain_allowed("example.com", None, " EXAMPLE.com "));
    assert!(storage_or_dashboard_domain_allowed("example.com", Some("https://s3.example.com/"), "S3.example.com"));
    assert!(!storage_or_dashboard_domain_allowed("example.com", Some(" "), "s3.example.com"));
}

#[test]
fn masked_redacts_token_and_api_key_values() {
    let mut config = ClientConfig::default();
    let instance = config.ensure_instance("default");
    instance.token = Some("secret-token".to_string());
    instance.api_key = Some("secret-api-key".to_string());

    let masked = config.masked();
    let instance = match masked.instance("default") {
        Ok(instance) => instance,
        Err(error) => panic!("failed to resolve default instance: {:?}", error),
    };

    assert_eq!(instance.token, Some("<redacted>".to_string()));
    assert_eq!(instance.api_key, Some("<redacted>".to_string()));
}

#[test]
fn client_instances_are_added_once_and_resolved() {
    let mut config = ClientConfig::default();
    config.ensure_instance("staging").url = "https://staging.example.com".to_string();
    config.ensure_instance("staging").instance_id = "staging-01".to_string();
    config.active_instance = "staging".to_string();
    assert_eq!(config.instances.len(), 2);
    let active = config.active_instance().unwrap();
    assert_eq!(active.url, "https://staging.example.com");
    assert_eq!(active.instance_id, "staging-01");
    assert_eq!(
        config.instance("missing").err(),
        Some(ClientConfigError::InstanceNotConfigured("missing".to_string()))
    );
    assert_eq!(mask_secret(&Some("  ".to_string())), None);
    assert_eq!(
        ClientConfig::default_path(Some("/home/me")),
        Ok("/home/me/.containr/config.toml".to_string())
    );
    assert_eq!(ClientConfig::default_path(None), Err(ClientConfigError::HomeNotSet));
}

#[test]
fn api_target_picks_credentials_and_urls() {
    let mut config = ClientConfig::default();
    let instance = config.ensure_instance("default");
    instance.url = "https://api.example.com//".to_string();
    instance.token = Some("tok".to_string());
    instance.api_key = Some("   ".to_string());
    let target = ApiTarget::new(instance);
    assert_eq!(target.base_url, "https://api.example.com");
    assert_eq!(target.auth_token, Some("tok".to_string()));
    assert!(target.has_auth());
    assert_eq!(target.url_for("v1/apps"), "https://api.example.com/v1/apps");
    assert_eq!(target.url_for("/v1/apps"), "https://api.example.com/v1/apps");
    assert_eq!(grouped_resource_path("/api/services", Some("g1")), "/api/services?group_id=g1");
    assert_eq!(resource_action_path("/api/db", "d1", "start"), "/api/db/d1/start");
    assert_eq!(resource_nested_action_path("/api/db", "d1", &["pitr", "restore"]), "/api/db/d1/pitr/restore");
    assert_eq!(resolve_project_source_url(None, Some(" https://github.com/a/b ")), "https://github.com/a/b");
    assert_eq!(resolve_project_source_url(None, None), "");
}

fn fixture() -> ServiceUnitConfig {
    ServiceUnitConfig {
        service_name: "containr".to_string(),
        user: "root".to_string(),
        working_directory: "/opt/containr".to_string(),
        binary_path: "/usr/local/bin/containr".to_string(),
        config_path: "/opt/containr/containr.toml".to_string(),
        log_level: "info".to_string(),
    }
}

#[test]
fn render_service_unit_contains_expected_exec_start() {
    let content = match render_service_unit(&fixture()) {
        Ok(content) => content,
        Err(error) => panic!("failed to render service unit: {}", error.message()),
    };

    assert!(content.contains("ExecStart=/usr/local/bin/containr server"));
    assert!(content.contains("--config /opt/containr/containr.toml"));
}

#[test]
fn render_service_unit_rejects_relative_paths() {
    let mut config = fixture();
    config.binary_path = "containr".to_string();

    match render_service_unit(&config) {
        Ok(_) => panic!("expected relative binary path to be rejected"),
        Err(error) => {
            assert!(error.message().contains("binary path must be absolute"))
        }
    }
}

#[test]
fn install_plan_requires_default_path_to_enable() {
    let plan = install_service_unit(&fixture(), Some("/tmp/x.service"), true, false).unwrap();
    assert_eq!(plan.output_path, "/tmp/x.service");
    assert!(plan.systemctl.is_err());
    let plan = install_service_unit(&fixture(), None, true, true).unwrap();
    assert_eq!(plan.output_path, "/etc/systemd/system/containr.service");
    assert_eq!(
        plan.systemctl.unwrap(),
        vec![
            vec!["daemon-reload".to_string()],
            vec!["enable".to_string(), "containr".to_string()],
            vec!["restart".to_string(), "containr".to_string()],
        ]
    );
    assert!(plan.unit.contains("WantedBy=multi-user.target"));
}

#[test]
fn stored_names_round_trip() {
    assert_eq!(encode_deployment_status(DeploymentStatus::Pending), "pending");
    assert_eq!(encode_rollout_strategy(RolloutStrategy::StartFirst), "start_first");
    assert_eq!(decode_deployment_status("running"), Some(DeploymentStatus::Running));
    assert_eq!(decode_deployment_status("Running"), None);
    assert_eq!(parse_u16(80, "port"), Ok(80));
    assert_eq!(parse_u16(-1, "port"), Err("invalid port value: -1".to_string()));
}
