use containr::config::{
    initial_config, normalize_config_paths, normalize_public_endpoint, Config, DatabaseConfig,
    StorageConfig,
};

#[test]
fn storage_paths_are_scoped() {
    let storage = StorageConfig::default();

    assert_eq!(
        storage.database_data_path("db1"),
        "/data/containr/databases/db1/data".to_string()
    );
    assert_eq!(
        storage.database_backup_path("db1"),
        "/data/containr/databases/db1/backups".to_string()
    );
    assert_eq!(
        storage.queue_data_path("queue1"),
        "/data/containr/queues/queue1/data".to_string()
    );
    assert_eq!(storage.internal_endpoint(), "http://containr-storage:9000");
    assert_eq!(storage.public_endpoint(), None);
    assert_eq!(storage.preferred_endpoint(), "http://containr-storage:9000");
}

#[test]
fn public_endpoint_normalization_accepts_host_or_url() {
    let mut storage = StorageConfig {
        rustfs_public_hostname: Some("s3.example.com".to_string()),
        ..StorageConfig::default()
    };
    assert_eq!(storage.public_endpoint(), Some("https://s3.example.com".to_string()));

    storage.rustfs_public_hostname = Some("https://s3.example.com/".to_string());
    assert_eq!(storage.public_endpoint(), Some("https://s3.example.com".to_string()));
}

#[test]
fn directory_database_path_resolves_to_sqlite_file() {
    let config = DatabaseConfig { path: "/var/lib/containr/containr.sqlite3".to_string() };
    let root = match tempfile::TempDir::new() {
        Ok(dir) => dir,
        Err(error) => panic!("failed to create tempdir: {}", error),
    };
    let root_text = root.path().to_string_lossy().to_string();

    let directory_config = DatabaseConfig { path: root_text.clone() };

    assert_eq!(config.sqlite_path(), "/var/lib/containr/containr.sqlite3".to_string());
    assert_eq!(directory_config.sqlite_path(), format!("{}/containr.sqlite3", root_text));
}

#[test]
fn defaults_match_documented_values() {
    let config = Config::default();
    assert_eq!(config.database.path, "./data/containr.sqlite3");
    assert_eq!(config.cache.path, "./data/cache");
    assert_eq!(config.logging.dir, "./data/logs");
    assert_eq!(config.logging.retention_days, 14);
    assert_eq!(config.acme.certs_dir, "./data/certs");
    assert_eq!(config.server.port, 2077);
    assert_eq!(config.proxy.http_port, 80);
    assert_eq!(config.storage.data_dir, "/data/containr");
    assert!(config
        .security
        .cors_allowed_origins
        .contains(&"http://localhost:3001".to_string()));
    assert!(config.security.encryption_key.is_empty());
}

#[test]
fn normalize_config_paths_moves_default_locations_under_data_dir() {
    let mut config = Config::default();
    config.cache.path = "/srv/cache".to_string();
    config.logging.dir = "   ".to_string();
    normalize_config_paths("/var/lib/containr", &mut config);
    assert_eq!(config.database.path, "/var/lib/containr/containr.sqlite3");
    assert_eq!(config.cache.path, "/srv/cache");
    assert_eq!(config.logging.dir, "/var/lib/containr/logs");
    assert_eq!(config.acme.certs_dir, "/var/lib/containr/certs");

    let before = config.database.path.clone();
    normalize_config_paths("/var/lib/containr", &mut config);
    assert_eq!(config.database.path, before);
}

#[test]
fn initial_config_uses_command_line_ports() {
    let config = initial_config("/data", 3000, 8080, 8443);
    assert_eq!(config.server.port, 3000);
    assert_eq!(config.proxy.http_port, 8080);
    assert_eq!(config.proxy.https_port, 8443);
    assert_eq!(config.database.path, "/data/containr.sqlite3");
}

#[test]
fn sqlite_path_is_trimmed_and_joined_for_directories() {
    let config = DatabaseConfig { path: "  /srv/db  ".to_string() };
    assert_eq!(config.sqlite_path_resolved(true), "/srv/db/containr.sqlite3");
    assert_eq!(config.sqlite_path_resolved(false), "/srv/db");
    assert_eq!(normalize_public_endpoint("http://s3.local/"), "http://s3.local");
}
