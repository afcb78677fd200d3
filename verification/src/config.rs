//! Configuration of the platform's services.
use vstd::prelude::*;

use crate::dup::{push_deep, Dup};
use crate::text::{
    concat2, concat3, dec, dec_string, has_prefix, join_path, owned, path_join, starts_with,
    trim, trim_end_char, trim_end_char_owned, trim_owned,
};

verus! {

/// Api server settings.
#[derive(Debug, Clone)]
pub struct ServerConfig {
    pub host: String,
    pub port: u16,
}

impl Default for ServerConfig {
    fn default() -> (r: Self)
        ensures
            r.host@ == "0.0.0.0"@,
            r.port == 2077,
    {
        ServerConfig { host: owned("0.0.0.0"), port: 2077 }
    }
}

/// Metadata database settings.
#[derive(Debug, Clone)]
pub struct DatabaseConfig {
    pub path: String,
}

impl Default for DatabaseConfig {
    fn default() -> (r: Self)
        ensures
            r.path@ == "./data/containr.sqlite3"@,
    {
        DatabaseConfig { path: owned("./data/containr.sqlite3") }
    }
}

/// Whether a path names an existing directory: std's `Path::is_dir`, which
/// reads the file system. Nothing is promised of the answer.
#[verifier::external_body]
pub(crate) fn path_is_dir(path: &str) -> (r: bool) {
    std::path::Path::new(path).is_dir()
}

impl DatabaseConfig {
    /// The database file for a configured path, given whether the trimmed
    /// path is a directory: inside a directory the file is
    /// "containr.sqlite3".
    pub fn sqlite_path_resolved(&self, is_dir: bool) -> (r: String)
        ensures
            r@ == (if is_dir {
                path_join(trim(self.path@), "containr.sqlite3"@)
            } else {
                trim(self.path@)
            }),
    {
        let path = trim_owned(self.path.as_str());
        if is_dir {
            join_path(path.as_str(), "containr.sqlite3")
        } else {
            path
        }
    }

    /// The effective database file: the trimmed path, or "containr.sqlite3"
    /// inside it when it is a directory.
    pub fn sqlite_path(&self) -> (r: String)
        ensures
            r@ == trim(self.path@) || r@ == path_join(trim(self.path@), "containr.sqlite3"@),
    {
        let path = trim_owned(self.path.as_str());
        let is_dir = path_is_dir(path.as_str());
        self.sqlite_path_resolved(is_dir)
    }
}

/// Cache settings.
#[derive(Debug, Clone)]
pub struct CacheConfig {
    pub path: String,
}

impl Default for CacheConfig {
    fn default() -> (r: Self)
        ensures
            r.path@ == "./data/cache"@,
    {
        CacheConfig { path: owned("./data/cache") }
    }
}

/// Days log files are kept by default.
pub fn default_log_retention_days() -> (r: u32)
    ensures
        r == 14,
{
    14
}

/// File logging settings.
#[derive(Debug, Clone)]
pub struct LoggingConfig {
    pub dir: String,
    pub retention_days: u32,
}

impl Default for LoggingConfig {
    fn default() -> (r: Self)
        ensures
            r.dir@ == "./data/logs"@,
            r.retention_days == 14,
    {
        LoggingConfig { dir: owned("./data/logs"), retention_days: default_log_retention_days() }
    }
}

/// How the proxy picks among a route's upstreams.
#[derive(Debug, Clone, Copy, PartialEq, Eq, Structural)]
pub enum LoadBalanceAlgorithm {
    RoundRobin,
    LeastConnections,
}

impl Default for LoadBalanceAlgorithm {
    fn default() -> (r: Self)
        ensures
            r == LoadBalanceAlgorithm::RoundRobin,
    {
        LoadBalanceAlgorithm::RoundRobin
    }
}

/// Reverse proxy settings.
#[derive(Debug, Clone)]
pub struct ProxyConfig {
    pub http_port: u16,
    pub https_port: u16,
    pub base_domain: String,
    pub public_ip: Option<String>,
    pub load_balance: LoadBalanceAlgorithm,
}

impl Default for ProxyConfig {
    fn default() -> (r: Self)
        ensures
            r.http_port == 80,
            r.https_port == 443,
            r.base_domain@ == "svk77.com"@,
            r.public_ip is None,
            r.load_balance == LoadBalanceAlgorithm::RoundRobin,
    {
        ProxyConfig {
            http_port: 80,
            https_port: 443,
            base_domain: owned("svk77.com"),
            public_ip: None,
            load_balance: LoadBalanceAlgorithm::RoundRobin,
        }
    }
}

/// GitHub integration settings.
#[derive(Debug, Clone)]
pub struct GithubConfig {
    pub client_id: String,
    pub client_secret: String,
    pub webhook_secret: String,
}

impl Default for GithubConfig {
    fn default() -> (r: Self)
        ensures
            r.client_id@.len() == 0,
            r.client_secret@.len() == 0,
            r.webhook_secret@.len() == 0,
    {
        GithubConfig {
            client_id: String::new(),
            client_secret: String::new(),
            webhook_secret: String::new(),
        }
    }
}

/// Authentication settings.
#[derive(Debug, Clone)]
pub struct AuthConfig {
    pub jwt_secret: String,
    pub jwt_expiry_hours: u64,
}

impl Default for AuthConfig {
    fn default() -> (r: Self)
        ensures
            r.jwt_secret@ == "change-me-in-production"@,
            r.jwt_expiry_hours == 24,
    {
        AuthConfig { jwt_secret: owned("change-me-in-production"), jwt_expiry_hours: 24 }
    }
}

/// The browser origins allowed by default.
pub open spec fn default_origins() -> Seq<Seq<char>> {
    seq![
        "http://localhost:3001"@,
        "http://127.0.0.1:3001"@,
        "http://localhost:5173"@,
        "http://127.0.0.1:5173"@,
    ]
}

/// The browser origins allowed by default: the dashboard's local addresses.
pub fn default_cors_allowed_origins() -> (r: Vec<String>)
    ensures
        r.deep_view() == default_origins(),
{
    let mut v: Vec<String> = Vec::new();
    push_deep(&mut v, owned("http://localhost:3001"));
    push_deep(&mut v, owned("http://127.0.0.1:3001"));
    push_deep(&mut v, owned("http://localhost:5173"));
    push_deep(&mut v, owned("http://127.0.0.1:5173"));
    assert(v.deep_view() =~= default_origins());
    v
}

/// Encryption and browser access settings.
#[derive(Debug, Clone)]
pub struct SecurityConfig {
    pub encryption_key: String,
    pub cors_allowed_origins: Vec<String>,
}

impl Default for SecurityConfig {
    fn default() -> (r: Self)
        ensures
            r.encryption_key@.len() == 0,
            r.cors_allowed_origins.deep_view() == default_origins(),
    {
        SecurityConfig {
            encryption_key: String::new(),
            cors_allowed_origins: default_cors_allowed_origins(),
        }
    }
}

/// ACME certificate settings.
#[derive(Debug, Clone)]
pub struct AcmeConfig {
    pub email: String,
    pub certs_dir: String,
    pub staging: bool,
}

impl Default for AcmeConfig {
    fn default() -> (r: Self)
        ensures
            r.email@.len() == 0,
            r.certs_dir@ == "./data/certs"@,
            r.staging,
    {
        AcmeConfig { email: String::new(), certs_dir: owned("./data/certs"), staging: true }
    }
}

/// Default management endpoint of the object store.
pub fn default_rustfs_management_endpoint() -> (r: String)
    ensures
        r@ == "http://127.0.0.1:9000"@,
{
    owned("http://127.0.0.1:9000")
}

/// Default host name of the object store on the shared network.
pub fn default_rustfs_internal_host() -> (r: String)
    ensures
        r@ == "containr-storage"@,
{
    owned("containr-storage")
}

/// Default port of the object store.
pub fn default_rustfs_port() -> (r: u16)
    ensures
        r == 9000,
{
    9000
}

/// The public endpoint for a configured host name or URL: a URL with a
/// scheme keeps it, a bare host gets "https://"; trailing slashes go.
pub open spec fn public_endpoint_text(hostname: Seq<char>) -> Seq<char> {
    if has_prefix(hostname, "http://"@) || has_prefix(hostname, "https://"@) {
        trim_end_char(hostname, '/')
    } else {
        "https://"@ + trim_end_char(hostname, '/')
    }
}

/// The public endpoint for a configured host name or URL.
pub fn normalize_public_endpoint(hostname: &str) -> (r: String)
    ensures
        r@ == public_endpoint_text(hostname@),
{
    let trimmed = trim_end_char_owned(hostname, '/');
    if starts_with(hostname, "http://") || starts_with(hostname, "https://") {
        trimmed
    } else {
        concat2("https://", trimmed.as_str())
    }
}

/// Storage settings of managed services and of the object store.
#[derive(Debug, Clone)]
pub struct StorageConfig {
    pub data_dir: String,
    pub max_volume_size_gb: u32,
    pub backup_enabled: bool,
    pub rustfs_management_endpoint: String,
    pub rustfs_internal_host: String,
    pub rustfs_port: u16,
    pub rustfs_public_hostname: Option<String>,
    pub rustfs_access_key: String,
    pub rustfs_secret_key: String,
}

impl Default for StorageConfig {
    fn default() -> (r: Self)
        ensures
            r.data_dir@ == "/data/containr"@,
            r.max_volume_size_gb == 10,
            !r.backup_enabled,
            r.rustfs_management_endpoint@ == "http://127.0.0.1:9000"@,
            r.rustfs_internal_host@ == "containr-storage"@,
            r.rustfs_port == 9000,
            r.rustfs_public_hostname is None,
            r.rustfs_access_key@.len() == 0,
            r.rustfs_secret_key@.len() == 0,
    {
        StorageConfig {
            data_dir: owned("/data/containr"),
            max_volume_size_gb: 10,
            backup_enabled: false,
            rustfs_management_endpoint: default_rustfs_management_endpoint(),
            rustfs_internal_host: default_rustfs_internal_host(),
            rustfs_port: default_rustfs_port(),
            rustfs_public_hostname: None,
            rustfs_access_key: String::new(),
            rustfs_secret_key: String::new(),
        }
    }
}

/// The public endpoint of the object store, if a non-blank public host
/// name is configured.
pub open spec fn public_endpoint_of(hostname: Option<Seq<char>>) -> Option<Seq<char>> {
    match hostname {
        Some(h) => if trim(h).len() > 0 {
            Some(public_endpoint_text(trim(h)))
        } else {
            None
        },
        None => None,
    }
}

impl StorageConfig {
    /// The endpoint used for management calls.
    pub fn management_endpoint(&self) -> (r: &str)
        ensures
            r@ == self.rustfs_management_endpoint@,
    {
        self.rustfs_management_endpoint.as_str()
    }

    /// The endpoint on the shared network: "http://{trimmed host}:{port}".
    pub fn internal_endpoint(&self) -> (r: String)
        ensures
            r@ == "http://"@ + trim(self.rustfs_internal_host@) + ":"@ + dec(
                self.rustfs_port as nat,
            ),
    {
        let host = trim_owned(self.rustfs_internal_host.as_str());
        let port = dec_string(self.rustfs_port as u64);
        let mut r = concat3("http://", host.as_str(), ":");
        r.append(port.as_str());
        r
    }

    /// The public endpoint, when a non-blank public host name is set.
    pub fn public_endpoint(&self) -> (r: Option<String>)
        ensures
            r.deep_view() == public_endpoint_of(self.rustfs_public_hostname.deep_view()),
    {
        match &self.rustfs_public_hostname {
            Some(h) => {
                let t = trim_owned(h.as_str());
                if t.unicode_len() > 0 {
                    Some(normalize_public_endpoint(t.as_str()))
                } else {
                    None
                }
            },
            None => None,
        }
    }

    /// The endpoint clients should use: the public one, else the internal one.
    pub fn preferred_endpoint(&self) -> (r: String)
        ensures
            r@ == (match public_endpoint_of(self.rustfs_public_hostname.deep_view()) {
                Some(p) => p,
                None => "http://"@ + trim(self.rustfs_internal_host@) + ":"@ + dec(
                    self.rustfs_port as nat,
                ),
            }),
    {
        match self.public_endpoint() {
            Some(p) => p,
            None => self.internal_endpoint(),
        }
    }

    /// Data directory of a database: `{data_dir}/databases/{id}/data`.
    pub fn database_data_path(&self, db_id: &str) -> (r: String)
        ensures
            r@ == path_join(path_join(path_join(self.data_dir@, "databases"@), db_id@), "data"@),
    {
        let a = join_path(self.data_dir.as_str(), "databases");
        let b = join_path(a.as_str(), db_id);
        join_path(b.as_str(), "data")
    }

    /// Backup directory of a database: `{data_dir}/databases/{id}/backups`.
    pub fn database_backup_path(&self, db_id: &str) -> (r: String)
        ensures
            r@ == path_join(
                path_join(path_join(self.data_dir@, "databases"@), db_id@),
                "backups"@,
            ),
    {
        let a = join_path(self.data_dir.as_str(), "databases");
        let b = join_path(a.as_str(), db_id);
        join_path(b.as_str(), "backups")
    }

    /// Data directory of a queue: `{data_dir}/queues/{id}/data`.
    pub fn queue_data_path(&self, queue_id: &str) -> (r: String)
        ensures
            r@ == path_join(path_join(path_join(self.data_dir@, "queues"@), queue_id@), "data"@),
    {
        let a = join_path(self.data_dir.as_str(), "queues");
        let b = join_path(a.as_str(), queue_id);
        join_path(b.as_str(), "data")
    }
}

/// The whole configuration of the platform.
#[derive(Debug, Clone)]
pub struct Config {
    pub server: ServerConfig,
    pub database: DatabaseConfig,
    pub cache: CacheConfig,
    pub logging: LoggingConfig,
    pub proxy: ProxyConfig,
    pub github: GithubConfig,
    pub auth: AuthConfig,
    pub security: SecurityConfig,
    pub acme: AcmeConfig,
    pub storage: StorageConfig,
}

impl Default for Config {
    fn default() -> (r: Self)
        ensures
            r.database.path@ == "./data/containr.sqlite3"@,
            r.cache.path@ == "./data/cache"@,
            r.logging.dir@ == "./data/logs"@,
            r.logging.retention_days == 14,
            r.acme.certs_dir@ == "./data/certs"@,
            r.server.port == 2077,
            r.proxy.http_port == 80,
            r.storage.data_dir@ == "/data/containr"@,
    {
        Config {
            server: ServerConfig::default(),
            database: DatabaseConfig::default(),
            cache: CacheConfig::default(),
            logging: LoggingConfig::default(),
            proxy: ProxyConfig::default(),
            github: GithubConfig::default(),
            auth: AuthConfig::default(),
            security: SecurityConfig::default(),
            acme: AcmeConfig::default(),
            storage: StorageConfig::default(),
        }
    }
}

/// A configured path replaced under the data directory when it is blank or
/// still the default.
pub open spec fn relocated(current: Seq<char>, default: Seq<char>, data_dir: Seq<char>, name: Seq<
    char,
>) -> Seq<char> {
    if trim(current).len() == 0 || current == default {
        path_join(data_dir, name)
    } else {
        current
    }
}

fn relocate(current: &mut String, default: &str, data_dir: &str, name: &str)
    ensures
        final(current)@ == relocated(old(current)@, default@, data_dir@, name@),
{
    if crate::text::is_blank(current.as_str()) || crate::text::str_eq(current.as_str(), default) {
        *current = join_path(data_dir, name);
    }
}

/// Moves the database, cache, log and certificate locations that are blank
/// or still at their defaults under the data directory given on the command
/// line.
pub fn normalize_config_paths(data_dir: &str, config: &mut Config)
    ensures
        final(config).database.path@ == relocated(
            old(config).database.path@,
            "./data/containr.sqlite3"@,
            data_dir@,
            "containr.sqlite3"@,
        ),
        final(config).cache.path@ == relocated(
            old(config).cache.path@,
            "./data/cache"@,
            data_dir@,
            "cache"@,
        ),
        final(config).logging.dir@ == relocated(
            old(config).logging.dir@,
            "./data/logs"@,
            data_dir@,
            "logs"@,
        ),
        final(config).acme.certs_dir@ == relocated(
            old(config).acme.certs_dir@,
            "./data/certs"@,
            data_dir@,
            "certs"@,
        ),
        *final(config) == (Config {
            database: DatabaseConfig { path: final(config).database.path, ..old(config).database },
            cache: CacheConfig { path: final(config).cache.path, ..old(config).cache },
            logging: LoggingConfig { dir: final(config).logging.dir, ..old(config).logging },
            acme: AcmeConfig { certs_dir: final(config).acme.certs_dir, ..old(config).acme },
            ..*old(config)
        }),
{
    relocate(&mut config.database.path, "./data/containr.sqlite3", data_dir, "containr.sqlite3");
    relocate(&mut config.cache.path, "./data/cache", data_dir, "cache");
    relocate(&mut config.logging.dir, "./data/logs", data_dir, "logs");
    relocate(&mut config.acme.certs_dir, "./data/certs", data_dir, "certs");
}


/// The configuration written on a first start: the defaults, with the
/// ports given on the command line and the default locations under the
/// data directory.
pub fn initial_config(data_dir: &str, api_port: u16, http_port: u16, https_port: u16) -> (r: Config)
    ensures
        r.server.port == api_port,
        r.proxy.http_port == http_port,
        r.proxy.https_port == https_port,
        r.database.path@ == path_join(data_dir@, "containr.sqlite3"@),
        r.cache.path@ == path_join(data_dir@, "cache"@),
        r.logging.dir@ == path_join(data_dir@, "logs"@),
        r.acme.certs_dir@ == path_join(data_dir@, "certs"@),
        r.logging.retention_days == 14,
        r.storage.data_dir@ == "/data/containr"@,
{
    let mut config = Config::default();
    config.server.port = api_port;
    config.proxy.http_port = http_port;
    config.proxy.https_port = https_port;
    normalize_config_paths(data_dir, &mut config);
    config
}


/// Relocating a path a second time changes nothing, for a file name whose
/// last char is not whitespace: normalizing a configuration is idempotent.
pub proof fn lemma_relocation_idempotent(
    current: Seq<char>,
    default: Seq<char>,
    data_dir: Seq<char>,
    name: Seq<char>,
)
    requires
        name.len() > 0,
        !crate::text::is_ws(name.last()),
    ensures
        relocated(relocated(current, default, data_dir, name), default, data_dir, name) == relocated(
            current,
            default,
            data_dir,
            name,
        ),
{
    let j = path_join(data_dir, name);
    assert(j.len() > 0 && j.last() == name.last()) by {
        if !(name.len() > 0 && name[0] == '/') && data_dir.len() > 0 {
            if data_dir.last() == '/' {
                assert((data_dir + name).last() == name.last());
            } else {
                assert((data_dir + seq!['/'] + name).last() == name.last());
            }
        }
    }
    crate::text::lemma_trim_keeps_last(j);
}

} // verus!
