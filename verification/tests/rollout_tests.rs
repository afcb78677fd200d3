use containr::ids::Timestamp;
use containr::imagebuild::{
    build_context_path, image_built_under, missing_context_message, missing_dockerfile_message,
    plan_image_build, resolve_context_dockerfile_path, service_build_cache_key, sort_texts,
};
use containr::models::{
    BuildArg, ContainerService, Deployment, DeploymentStatus, EnvVar, Project, ServiceDeployment,
    ServiceType,
};
use containr::rollout::{
    containers_to_retire, old_container_of, pulls_image, running_deployment, running_replica,
    service_image_of, worker_replica_config,
};

fn at(secs: i64) -> Timestamp {
    Timestamp { secs, nanos: 0 }
}

fn replica(service_id: u128, index: u32, container: Option<&str>) -> ServiceDeployment {
    let mut sd = ServiceDeployment::new_with(100 + index as u128, service_id, 50, index, at(1));
    sd.container_id = container.map(|c| c.to_string());
    sd
}

fn previous() -> Option<Deployment> {
    let mut d = Deployment::new_with(50, 1, "abc".to_string(), at(1));
    d.status = DeploymentStatus::Running;
    d.container_id = Some("legacy".to_string());
    d.service_deployments = vec![
        replica(7, 0, Some("old-a")),
        replica(7, 1, Some("old-b")),
        replica(7, 0, Some("old-a2")),
        replica(8, 0, None),
    ];
    Some(d)
}

#[test]
fn old_container_is_the_last_recorded_for_the_replica() {
    let p = previous();
    assert_eq!(old_container_of(&p, 7, 0).as_deref(), Some("old-a2"));
    assert_eq!(old_container_of(&p, 7, 1).as_deref(), Some("old-b"));
    assert_eq!(old_container_of(&p, 8, 0), None);
    assert_eq!(old_container_of(&None, 7, 0), None);
}

#[test]
fn start_first_retires_old_containers_not_reused() {
    let p = previous();
    let mut retired = containers_to_retire(&p, &vec!["old-b".to_string()]);
    retired.sort();
    retired.dedup();
    assert_eq!(retired, vec!["legacy".to_string(), "old-a2".to_string()]);
    assert!(containers_to_retire(&None, &Vec::new()).is_empty());
}

#[test]
fn service_image_lookup() {
    let mut s = ContainerService::new_with(7, 1, "api".to_string(), String::new(), 80, at(1));
    let images = vec![(7, "img:1".to_string()), (8, "img:2".to_string())];
    assert_eq!(service_image_of(&images, &s).unwrap(), "img:1");
    s.id = 9;
    assert_eq!(service_image_of(&images, &s).unwrap_err(), "missing image for service api");
    assert!(!pulls_image(&s));
    s.image = "nginx".to_string();
    assert!(pulls_image(&s));
}

#[test]
fn worker_replicas_join_the_internal_network() {
    let mut app = Project::new_with(1, "shop".to_string(), String::new(), 2, 1, at(1));
    app.env_vars = vec![EnvVar { key: "A".to_string(), value: "1".to_string(), secret: false }];
    let mut s = ContainerService::new_with(7, 1, "api".to_string(), String::new(), 80, at(1));
    s.service_type = ServiceType::WebService;
    let config = worker_replica_config(&app, &s, 50, "img:1", 2, "containr-net", "/w");
    assert_eq!(config.network.as_ref().unwrap().name, "containr-net");
    assert_eq!(config.network.as_ref().unwrap().aliases, vec!["api".to_string(), "api-2".to_string()]);
    assert_eq!(config.additional_networks.len(), 1);
    assert_eq!(config.additional_networks[0].name, "containr-internal");
    assert_eq!(config.env_vars.get("A"), Some("1".to_string()));
    assert_eq!(config.env_vars.get("REPLICA_INDEX"), Some("2".to_string()));
}

#[test]
fn deployment_recorded_as_running() {
    let d = Deployment::new_with(50, 1, "abc".to_string(), at(1));
    let sd = running_replica(7, 50, 0, "c1".to_string(), "img:1".to_string(), at(5));
    assert_eq!(sd.status, DeploymentStatus::Running);
    assert_eq!(sd.started_at, Some(at(5)));
    let images = vec![(7, "img:1".to_string()), (8, "img:1".to_string())];
    let r = running_deployment(&d, vec![sd], &images, at(5), at(6));
    assert_eq!(r.status, DeploymentStatus::Running);
    assert_eq!(r.image_id.as_deref(), Some("img:1"));
    assert_eq!(r.finished_at, Some(at(6)));
    assert_eq!(r.service_deployments.len(), 1);
    let mixed = vec![(7, "img:1".to_string()), (8, "img:2".to_string())];
    assert_eq!(running_deployment(&d, Vec::new(), &mixed, at(5), at(6)).image_id, None);
}

#[test]
fn dockerfile_resolved_against_the_context() {
    assert_eq!(resolve_context_dockerfile_path(".", "docker/Dockerfile").unwrap(), "docker/Dockerfile");
    assert_eq!(resolve_context_dockerfile_path("web", "web/Dockerfile").unwrap(), "Dockerfile");
    assert_eq!(resolve_context_dockerfile_path("web", "Dockerfile.prod").unwrap(), "Dockerfile.prod");
    assert_eq!(
        resolve_context_dockerfile_path("web", "/etc/Dockerfile").unwrap_err(),
        "dockerfile path must be relative"
    );
}

#[test]
fn image_build_plan_and_sharing_key() {
    let mut s = ContainerService::new_with(7, 1, "api".to_string(), String::new(), 80, at(1));
    s.build_context = Some("web".to_string());
    s.dockerfile_path = Some("web/Dockerfile".to_string());
    s.build_target = Some("prod".to_string());
    s.build_args = vec![
        BuildArg { key: "Z".to_string(), value: "1".to_string(), secret: false },
        BuildArg { key: "A".to_string(), value: "2".to_string(), secret: false },
    ];
    assert_eq!(build_context_path("/repo", &s), "/repo/web");
    let plan = plan_image_build("/repo", &s).unwrap();
    assert_eq!(plan.context_path, "/repo/web");
    assert_eq!(plan.dockerfile.as_deref(), Some("Dockerfile"));
    assert_eq!(plan.build_args[0], ("Z".to_string(), "1".to_string()));
    assert_eq!(service_build_cache_key(&s, &plan), "/repo/web|Dockerfile|prod|A=2;Z=1");
    s.build_context = None;
    s.dockerfile_path = None;
    s.build_target = None;
    s.build_args = Vec::new();
    let plan = plan_image_build("/repo", &s).unwrap();
    assert_eq!(service_build_cache_key(&s, &plan), format!("{}|||", plan.context_path));
}

#[test]
fn texts_sorted_ascending() {
    let sorted = sort_texts(vec!["b".to_string(), "a".to_string(), "ab".to_string(), "a".to_string()]);
    assert_eq!(sorted, vec!["a", "a", "ab", "b"]);
}

#[test]
fn built_images_are_shared_by_key() {
    let built = vec![("k1".to_string(), "img:1".to_string())];
    assert_eq!(image_built_under(&built, "k1").as_deref(), Some("img:1"));
    assert_eq!(image_built_under(&built, "k2"), None);
}

#[test]
fn build_failure_messages() {
    assert_eq!(missing_context_message("web", "api"), "build context web does not exist for service api");
    assert_eq!(missing_dockerfile_message("Dockerfile", "api"), "dockerfile Dockerfile does not exist for service api");
}

use containr::models::RolloutStrategy;
use containr::records::{DeploymentJob, DeploymentSource};
use containr::rollout::{
    check_job_deployment, check_rollback_source, plan_clone, rollback_log_line, status_log_line,
};

#[test]
fn job_deployment_checks() {
    let d = Deployment::new_with(50, 1, "abc".to_string(), at(1));
    assert_eq!(check_job_deployment(1, None).unwrap_err(), "deployment not found");
    assert_eq!(check_job_deployment(2, Some(d.clone())).unwrap_err(), "deployment app mismatch");
    assert_eq!(check_job_deployment(1, Some(d.clone())).unwrap().id, 50);
    assert_eq!(check_rollback_source(1, None).unwrap_err(), "rollback source deployment not found");
    assert_eq!(
        check_rollback_source(3, Some(d)).unwrap_err(),
        "rollback source does not belong to app"
    );
    assert_eq!(
        rollback_log_line(50),
        format!("rollback: using service image artifacts from deployment {}", uuid::Uuid::from_u128(50))
    );
}

fn job(source: DeploymentSource) -> DeploymentJob {
    DeploymentJob {
        deployment_id: 50,
        app_id: 1,
        commit_sha: "0123456789abcdef".to_string(),
        commit_message: None,
        branch: "main".to_string(),
        source,
        rollout_strategy: RolloutStrategy::StopFirst,
        rollback_from_deployment_id: None,
    }
}

#[test]
fn clone_plans() {
    let remote = job(DeploymentSource::RemoteGit {
        url: "https://example.com/r.git".to_string(),
        token: Some("t".to_string()),
    });
    let plan = plan_clone(&remote, "/work").unwrap();
    assert_eq!(plan.url, "https://example.com/r.git");
    assert_eq!(plan.token.as_deref(), Some("t"));
    assert!(plan.shallow);
    assert_eq!(plan.branch, "main");
    assert_eq!(plan.path, format!("/work/{}_01234567", uuid::Uuid::from_u128(1)));
    let local = plan_clone(&job(DeploymentSource::LocalPath { path: "/src".to_string() }), "/work").unwrap();
    assert!(!local.shallow);
    assert!(local.token.is_none());
    assert!(plan_clone(&job(DeploymentSource::NoSource), "/work").is_none());
}

#[test]
fn status_log_lines() {
    assert_eq!(status_log_line("2024-01-01 00:00:00", DeploymentStatus::Cloning), "[2024-01-01 00:00:00] status: Cloning");
}
