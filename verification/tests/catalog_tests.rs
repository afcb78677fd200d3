use containr::catalog::{
    collect_catalog_entries, get_service_inventory_by_id, list_service_inventory_by_owner,
    list_service_inventory_by_owner_and_group, sort_listing, ServiceInventoryItem,
};
use containr::dbplan::{
    build_port_bindings, check_proxy_support, plan_database_container, plan_proxy_frontend,
};
use containr::ids::Timestamp;
use containr::inventory::{ServiceResourceKind, ServiceRuntimeStatus};
use containr::managed::{
    DatabaseCredentials, DatabaseType, ManagedDatabase, ManagedQueue, QueueCredentials,
    QueueType, ServiceStatus,
};
use containr::models::{ContainerService, Deployment, Project, ServiceType};

const OWNER: u128 = 7;

fn at(secs: i64) -> Timestamp {
    Timestamp { secs, nanos: 0 }
}

fn id_text(id: u128) -> String {
    uuid::Uuid::from_u128(id).to_string()
}

fn project(id: u128, name: &str) -> Project {
    Project::new_with(id, name.to_string(), String::new(), OWNER, id, at(1))
}

fn service(id: u128, app_id: u128, name: &str, kind: ServiceType, port: u16, created: i64) -> ContainerService {
    let mut s = ContainerService::new_with(id, app_id, name.to_string(), String::new(), port, at(created));
    s.service_type = kind;
    s
}

fn database(id: u128, name: &str, db_type: DatabaseType, group: Option<u128>) -> ManagedDatabase {
    let creds = DatabaseCredentials {
        username: "user".to_string(),
        password: "secret".to_string(),
        database_name: "main".to_string(),
    };
    let mut db = ManagedDatabase::new_with(id, OWNER, name.to_string(), db_type, creds, at(3));
    db.group_id = group;
    db
}

fn queue(id: u128, name: &str, group: Option<u128>) -> ManagedQueue {
    let creds = QueueCredentials { username: "guest".to_string(), password: "pw".to_string() };
    let mut q = ManagedQueue::new_with(id, OWNER, name.to_string(), QueueType::Rabbitmq, creds, at(4));
    q.group_id = group;
    q
}

fn fixture() -> (Vec<(Project, Vec<Deployment>)>, Vec<ManagedDatabase>, Vec<ManagedQueue>) {
    let mut beta = project(100, "beta");
    beta.services = vec![
        service(101, 100, "web", ServiceType::WebService, 8080, 10),
        service(102, 100, "api", ServiceType::PrivateService, 0, 11),
    ];
    let mut alpha = project(200, "alpha");
    alpha.services = vec![service(201, 200, "zeta", ServiceType::BackgroundWorker, 0, 12)];
    let apps = vec![(beta, Vec::new()), (alpha, Vec::new())];
    let dbs = vec![database(300, "db1", DatabaseType::Postgresql, None)];
    let queues = vec![queue(400, "queue", Some(200))];
    (apps, dbs, queues)
}

fn names(items: &[ServiceInventoryItem]) -> Vec<String> {
    items.iter().map(|i| i.name.clone()).collect()
}

#[test]
fn inventory_is_listed_by_group_then_name() {
    let (apps, dbs, queues) = fixture();
    let items = list_service_inventory_by_owner(&apps, &dbs, &queues);
    assert_eq!(names(&items), vec!["db1", "queue", "zeta", "api", "web"]);
    assert_eq!(items[1].project_name.as_deref(), Some("alpha"));
    assert_eq!(items[0].project_name, None);
}

#[test]
fn inventory_collects_apps_then_databases_then_queues() {
    let (apps, dbs, queues) = fixture();
    let items = collect_catalog_entries(&apps, &dbs, &queues, None);
    assert_eq!(names(&items), vec!["web", "api", "zeta", "db1", "queue"]);
}

#[test]
fn inventory_limited_to_one_group() {
    let (apps, dbs, queues) = fixture();
    let items = list_service_inventory_by_owner_and_group(&apps, &dbs, &queues, Some(200));
    assert_eq!(names(&items), vec!["queue", "zeta"]);
    assert!(items.iter().all(|i| i.group_id == Some(200)));
}

#[test]
fn inventory_app_service_entry_fields() {
    let (apps, dbs, queues) = fixture();
    let items = collect_catalog_entries(&apps, &dbs, &queues, None);
    let web = &items[0];
    assert_eq!(web.resource_kind, ServiceResourceKind::AppService);
    assert_eq!(web.port, Some(8080));
    assert!(web.public_http);
    assert_eq!(web.status, ServiceRuntimeStatus::Pending);
    assert_eq!(web.image, None);
    assert_eq!(web.network_name, format!("containr-{}", id_text(100)));
    assert_eq!(web.internal_host.as_deref(), Some("web"));
    assert_eq!(web.desired_instances, 1);
    assert_eq!(web.service_type_name(), "web_service");
    let api = &items[1];
    assert_eq!(api.port, None);
    assert!(!api.public_http);
}

#[test]
fn inventory_database_entry_fields() {
    let apps = fixture().0;
    let mut db = database(300, "db1", DatabaseType::Postgresql, Some(200));
    db.status = ServiceStatus::Running;
    db.container_id = Some("cid".to_string());
    db.proxy_enabled = true;
    let items = collect_catalog_entries(&apps, &vec![db], &Vec::new(), Some(200));
    let entry = items.iter().find(|i| i.id == 300).unwrap();
    assert_eq!(entry.resource_kind, ServiceResourceKind::ManagedDatabase);
    assert_eq!(entry.project_name.as_deref(), Some("alpha"));
    assert_eq!(entry.running_instances, 1);
    assert_eq!(entry.container_ids, vec!["cid".to_string()]);
    assert_eq!(entry.proxy_port, Some(6432));
    assert_eq!(entry.image.as_deref(), Some("postgres:16"));
    let host = format!("db-{}", id_text(300));
    assert_eq!(
        entry.connection_string.as_deref(),
        Some(format!("postgresql://user:secret@{}:5432/main", host).as_str())
    );
    assert_eq!(
        entry.proxy_connection_string.as_deref(),
        Some(format!("postgresql://user:secret@{}-proxy:6432/main", host).as_str())
    );
    assert_eq!(entry.network_name, format!("containr-{}", id_text(200)));
}

#[test]
fn inventory_queue_entry_fields() {
    let (apps, dbs, queues) = fixture();
    let items = collect_catalog_entries(&apps, &dbs, &queues, None);
    let q = &items[4];
    assert_eq!(q.resource_kind, ServiceResourceKind::ManagedQueue);
    assert_eq!(q.status, ServiceRuntimeStatus::Pending);
    assert_eq!(q.running_instances, 0);
    assert_eq!(q.image.as_deref(), Some("rabbitmq:3-management"));
    assert_eq!(q.service_type, ServiceType::RabbitMq);
}

#[test]
fn inventory_entry_found_by_id() {
    let (apps, dbs, queues) = fixture();
    let found = get_service_inventory_by_id(&apps, &dbs, &queues, 201).unwrap();
    assert_eq!(found.name, "zeta");
    assert!(get_service_inventory_by_id(&apps, &dbs, &queues, 999).is_none());
}

#[test]
fn listing_breaks_name_ties_by_creation_time() {
    let mut p = project(1, "g");
    p.services = vec![
        service(2, 1, "same", ServiceType::WebService, 80, 50),
        service(3, 1, "same", ServiceType::WebService, 80, 20),
    ];
    let items = collect_catalog_entries(&vec![(p, Vec::new())], &Vec::new(), &Vec::new(), None);
    let sorted = sort_listing(items);
    assert_eq!(sorted[0].id, 3);
    assert_eq!(sorted[1].id, 2);
}

#[test]
fn port_binding_only_with_host_port() {
    assert!(build_port_bindings(5432, None).is_none());
    let b = build_port_bindings(5432, Some(15432)).unwrap();
    assert_eq!(b.container_port, "5432/tcp");
    assert_eq!(b.host_ip, "0.0.0.0");
    assert_eq!(b.host_port, "15432");
}

#[test]
fn proxy_refused_for_non_postgres() {
    let mut db = database(5, "cache", DatabaseType::Mariadb, None);
    assert!(check_proxy_support(&db).is_ok());
    db.proxy_enabled = true;
    assert_eq!(
        check_proxy_support(&db).unwrap_err(),
        "pgdog proxy is only supported for postgresql"
    );
    assert_eq!(
        plan_proxy_frontend(&db).err().unwrap(),
        "pgdog proxy is only supported for postgresql"
    );
}

#[test]
fn valkey_container_plan() {
    let mut db = database(9, "cache", DatabaseType::Valkey, None);
    db.internal_host = " cache.internal ".to_string();
    db.external_port = Some(16379);
    let plan = plan_database_container(&mut db).unwrap();
    assert_eq!(db.internal_host, "cache");
    assert_eq!(plan.name, format!("containr-db-{}", id_text(9)));
    assert_eq!(plan.image, "valkey/valkey:8");
    assert_eq!(plan.hostname, "cache");
    assert_eq!(plan.env, vec!["VALKEY_PASSWORD=secret".to_string()]);
    assert_eq!(
        plan.cmd,
        Some(vec!["valkey-server".to_string(), "--requirepass".to_string(), "secret".to_string()])
    );
    assert_eq!(plan.labels[0], ("containr.type".to_string(), "managed-database".to_string()));
    assert_eq!(plan.labels[1], ("containr.db.id".to_string(), id_text(9)));
    assert_eq!(plan.labels[2], ("containr.db.type".to_string(), "valkey".to_string()));
    let binding = plan.port_binding.unwrap();
    assert_eq!(binding.container_port, "6379/tcp");
    assert_eq!(binding.host_port, "16379");
    assert_eq!(plan.aliases, vec!["cache".to_string()]);
    assert_eq!(plan.mounts.len(), 1);
    assert_eq!(plan.mounts[0].target, "/data");
    let health = plan.healthcheck.unwrap();
    assert_eq!(health.test, vec!["CMD-SHELL".to_string(), "valkey-cli -a secret ping".to_string()]);
    assert_eq!(health.interval_nanos, 10_000_000_000);
    assert_eq!(health.timeout_nanos, 5_000_000_000);
    assert_eq!(health.retries, 3);
    assert_eq!(plan.host_dirs, vec![db.host_data_path.clone()]);
}

#[test]
fn postgres_plan_with_point_in_time_recovery() {
    let mut db = database(11, "main", DatabaseType::Postgresql, None);
    db.pitr_enabled = true;
    let plan = plan_database_container(&mut db).unwrap();
    let root = format!("/data/containr/databases/{}/pitr", id_text(11));
    assert_eq!(plan.mounts.len(), 2);
    assert_eq!(plan.mounts[1].source, root);
    assert_eq!(plan.mounts[1].target, "/var/lib/postgresql/containr-pitr");
    assert_eq!(plan.host_dirs.len(), 4);
    assert_eq!(plan.host_dirs[2], format!("{}/wal", root));
    assert_eq!(plan.cmd.unwrap()[0], "postgres");
    assert_eq!(
        plan.env,
        vec![
            "POSTGRES_USER=user".to_string(),
            "POSTGRES_PASSWORD=secret".to_string(),
            "POSTGRES_DB=main".to_string()
        ]
    );
    assert!(plan.port_binding.is_none());
}

#[test]
fn qdrant_plan_has_no_healthcheck() {
    let mut db = database(12, "vectors", DatabaseType::Qdrant, None);
    let plan = plan_database_container(&mut db).unwrap();
    assert!(plan.healthcheck.is_none());
    assert!(plan.cmd.is_none());
}

#[test]
fn oversized_memory_limit_refused() {
    let mut db = database(13, "big", DatabaseType::Postgresql, None);
    db.memory_limit = u64::MAX;
    let err = plan_database_container(&mut db).err().unwrap();
    assert_eq!(err, format!("invalid database memory_limit value: {}", u64::MAX));
}

#[test]
fn frontend_plan_for_postgres() {
    let mut db = database(14, "main", DatabaseType::Postgresql, None);
    assert!(plan_proxy_frontend(&db).unwrap().is_none());
    db.proxy_enabled = true;
    db.proxy_external_port = Some(16432);
    let plan = plan_proxy_frontend(&db).unwrap().unwrap();
    let host = format!("db-{}-proxy", id_text(14));
    assert_eq!(plan.name, format!("containr-db-proxy-{}", id_text(14)));
    assert_eq!(plan.image, "ghcr.io/pgdogdev/pgdog:v0.1.6");
    assert_eq!(plan.hostname, host);
    assert_eq!(plan.aliases, vec![host.clone()]);
    let dir = format!("/data/containr/databases/{}/pgdog", id_text(14));
    assert_eq!(plan.config_dir, dir);
    assert_eq!(plan.config_file, format!("{}/pgdog.toml", dir));
    assert_eq!(plan.users_file, format!("{}/users.toml", dir));
    assert_eq!(plan.mounts[0].target, "/etc/pgdog");
    assert_eq!(plan.memory_bytes, 256 * 1024 * 1024);
    assert_eq!(plan.nano_cpus, 500_000_000);
    assert_eq!(plan.port_binding.unwrap().container_port, "6432/tcp");
    assert_eq!(plan.labels[0].1, "managed-database-frontend");
    assert_eq!(plan.entrypoint, vec!["/usr/local/bin/pgdog".to_string()]);
}
