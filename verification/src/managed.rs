//! Managed databases, queues and storage buckets.
use vstd::prelude::*;

use crate::dup::Dup;
use crate::ids::{clock_now, fresh_id, Timestamp};
use crate::models::{service_type_text, ContainerService, ServiceType};
use crate::text::{
    concat2, concat3, dec, dec_string, first_piece, first_piece_of, join_path, owned,
    is_ascii_alnum, parse_u16_spec, parse_u16_text, path_join, path_parent, parent_path, push_char, str_eq,
    trim, trim_owned, uuid_string, uuid_text,
};

verus! {

/// Port of the connection pooler in front of managed postgres.
pub const POSTGRES_PROXY_PORT: u16 = 6432;

/// The host name with surrounding whitespace and every trailing ".internal"
/// removed.
pub open spec fn normalized_host(host: Seq<char>) -> Seq<char> {
    crate::text::trim_end_str(trim(host), ".internal"@)
}

/// A host name with surrounding whitespace and trailing ".internal"
/// suffixes removed.
pub fn normalize_internal_host(host: &str) -> (r: String)
    ensures
        r@ == normalized_host(host@),
{
    let t = trim_owned(host);
    crate::text::trim_end_str_owned(t.as_str(), ".internal")
}

/// Supported database engines.
#[derive(Debug, Clone, Copy, PartialEq, Eq, Structural)]
pub enum DatabaseType {
    Postgresql,
    Mariadb,
    Valkey,
    Qdrant,
}

/// Supported queue engines.
#[derive(Debug, Clone, Copy, PartialEq, Eq, Structural)]
pub enum QueueType {
    Rabbitmq,
    Nats,
}

/// Lifecycle status of a managed service.
#[derive(Debug, Clone, Copy, PartialEq, Eq, Structural)]
pub enum ServiceStatus {
    Pending,
    Starting,
    Running,
    Stopped,
    Failed,
}

impl ServiceStatus {
    /// The default status: pending.
    pub fn default_status() -> (r: ServiceStatus)
        ensures
            r == ServiceStatus::Pending,
    {
        ServiceStatus::Pending
    }
}

pub open spec fn db_api_name(t: DatabaseType) -> Seq<char> {
    match t {
        DatabaseType::Postgresql => "postgres"@,
        DatabaseType::Mariadb => "mariadb"@,
        DatabaseType::Valkey => "redis"@,
        DatabaseType::Qdrant => "qdrant"@,
    }
}

pub open spec fn db_service_type(t: DatabaseType) -> ServiceType {
    match t {
        DatabaseType::Postgresql => ServiceType::Postgres,
        DatabaseType::Mariadb => ServiceType::Mariadb,
        DatabaseType::Valkey => ServiceType::Redis,
        DatabaseType::Qdrant => ServiceType::Qdrant,
    }
}

pub open spec fn db_image_repo(t: DatabaseType) -> Seq<char> {
    match t {
        DatabaseType::Postgresql => "postgres:"@,
        DatabaseType::Mariadb => "mariadb:"@,
        DatabaseType::Valkey => "valkey/valkey:"@,
        DatabaseType::Qdrant => "qdrant/qdrant:"@,
    }
}

pub open spec fn db_default_port(t: DatabaseType) -> u16 {
    match t {
        DatabaseType::Postgresql => 5432,
        DatabaseType::Mariadb => 3306,
        DatabaseType::Valkey => 6379,
        DatabaseType::Qdrant => 6333,
    }
}

pub open spec fn db_volume_path(t: DatabaseType) -> Seq<char> {
    match t {
        DatabaseType::Postgresql => "/var/lib/postgresql/data"@,
        DatabaseType::Mariadb => "/var/lib/mysql"@,
        DatabaseType::Valkey => "/data"@,
        DatabaseType::Qdrant => "/qdrant/storage"@,
    }
}

pub open spec fn db_default_memory(t: DatabaseType) -> u64 {
    match t {
        DatabaseType::Postgresql => 536870912,
        DatabaseType::Mariadb => 536870912,
        DatabaseType::Valkey => 268435456,
        DatabaseType::Qdrant => 1073741824,
    }
}

pub open spec fn db_default_version(t: DatabaseType) -> Seq<char> {
    match t {
        DatabaseType::Postgresql => "16"@,
        DatabaseType::Mariadb => "11"@,
        DatabaseType::Valkey => "8"@,
        DatabaseType::Qdrant => "latest"@,
    }
}

pub open spec fn db_default_user(t: DatabaseType) -> Seq<char> {
    match t {
        DatabaseType::Postgresql => "postgres"@,
        DatabaseType::Mariadb => "mariadb"@,
        DatabaseType::Valkey => "default"@,
        DatabaseType::Qdrant => "qdrant"@,
    }
}

/// Deep view of a list of (name, value) pairs.
pub open spec fn pairs(v: Seq<(String, String)>) -> Seq<(Seq<char>, Seq<char>)> {
    v.map_values(|p: (String, String)| (p.0@, p.1@))
}

/// The environment a database container starts with.
pub open spec fn db_env(t: DatabaseType, c: CredentialsModel) -> Seq<(Seq<char>, Seq<char>)> {
    match t {
        DatabaseType::Postgresql => seq![
            ("POSTGRES_USER"@, c.username),
            ("POSTGRES_PASSWORD"@, c.password),
            ("POSTGRES_DB"@, c.database_name),
        ],
        DatabaseType::Mariadb => seq![
            ("MARIADB_USER"@, c.username),
            ("MARIADB_PASSWORD"@, c.password),
            ("MARIADB_DATABASE"@, c.database_name),
            ("MARIADB_ROOT_PASSWORD"@, c.password),
        ],
        DatabaseType::Valkey => seq![("VALKEY_PASSWORD"@, c.password)],
        DatabaseType::Qdrant => seq![("QDRANT__SERVICE__API_KEY"@, c.password)],
    }
}

fn pair(k: &str, v: &String) -> (r: (String, String))
    ensures
        r.0@ == k@,
        r.1@ == v@,
{
    (owned(k), v.dup())
}

fn push_pair(v: &mut Vec<(String, String)>, p: (String, String))
    ensures
        pairs(final(v)@) == pairs(old(v)@).push((p.0@, p.1@)),
{
    v.push(p);
    assert(pairs(v@) =~= pairs(old(v)@).push((p.0@, p.1@)));
}

impl DatabaseType {
    /// The default CPU limit of the engine, as the bit pattern of the
    /// `f64` count of CPUs: one CPU, half a CPU for valkey.
    pub fn default_cpu_limit(&self) -> (r: u64)
        ensures
            r == db_default_cpu_bits(*self),
    {
        match self {
            DatabaseType::Valkey => HALF_CPU_BITS,
            _ => ONE_CPU_BITS,
        }
    }

    /// The public api name of the engine.
    pub fn api_name(&self) -> (r: &'static str)
        ensures
            r@ == db_api_name(*self),
    {
        match self {
            DatabaseType::Postgresql => "postgres",
            DatabaseType::Mariadb => "mariadb",
            DatabaseType::Valkey => "redis",
            DatabaseType::Qdrant => "qdrant",
        }
    }

    /// The service type the engine is listed as.
    pub fn service_type(&self) -> (r: ServiceType)
        ensures
            r == db_service_type(*self),
    {
        match self {
            DatabaseType::Postgresql => ServiceType::Postgres,
            DatabaseType::Mariadb => ServiceType::Mariadb,
            DatabaseType::Valkey => ServiceType::Redis,
            DatabaseType::Qdrant => ServiceType::Qdrant,
        }
    }

    /// The docker image of the engine at `version`.
    pub fn docker_image(&self, version: &str) -> (r: String)
        ensures
            r@ == db_image_repo(*self) + version@,
    {
        let repo = match self {
            DatabaseType::Postgresql => "postgres:",
            DatabaseType::Mariadb => "mariadb:",
            DatabaseType::Valkey => "valkey/valkey:",
            DatabaseType::Qdrant => "qdrant/qdrant:",
        };
        concat2(repo, version)
    }

    /// The port the engine listens on.
    pub fn default_port(&self) -> (r: u16)
        ensures
            r == db_default_port(*self),
    {
        match self {
            DatabaseType::Postgresql => 5432,
            DatabaseType::Mariadb => 3306,
            DatabaseType::Valkey => 6379,
            DatabaseType::Qdrant => 6333,
        }
    }

    /// The data directory inside the container.
    pub fn volume_path(&self) -> (r: &'static str)
        ensures
            r@ == db_volume_path(*self),
    {
        match self {
            DatabaseType::Postgresql => "/var/lib/postgresql/data",
            DatabaseType::Mariadb => "/var/lib/mysql",
            DatabaseType::Valkey => "/data",
            DatabaseType::Qdrant => "/qdrant/storage",
        }
    }

    /// The default memory limit in bytes.
    pub fn default_memory_limit(&self) -> (r: u64)
        ensures
            r == db_default_memory(*self),
    {
        match self {
            DatabaseType::Postgresql => 512 * 1024 * 1024,
            DatabaseType::Mariadb => 512 * 1024 * 1024,
            DatabaseType::Valkey => 256 * 1024 * 1024,
            DatabaseType::Qdrant => 1024 * 1024 * 1024,
        }
    }

    /// The default engine version.
    pub fn default_version(&self) -> (r: &'static str)
        ensures
            r@ == db_default_version(*self),
    {
        match self {
            DatabaseType::Postgresql => "16",
            DatabaseType::Mariadb => "11",
            DatabaseType::Valkey => "8",
            DatabaseType::Qdrant => "latest",
        }
    }

    /// The environment variables a container of the engine starts with.
    pub fn env_vars(&self, creds: &DatabaseCredentials) -> (r: Vec<(String, String)>)
        ensures
            pairs(r@) == db_env(*self, creds.deep_view()),
    {
        let mut v: Vec<(String, String)> = Vec::new();
        match self {
            DatabaseType::Postgresql => {
                push_pair(&mut v, pair("POSTGRES_USER", &creds.username));
                push_pair(&mut v, pair("POSTGRES_PASSWORD", &creds.password));
                push_pair(&mut v, pair("POSTGRES_DB", &creds.database_name));
            },
            DatabaseType::Mariadb => {
                push_pair(&mut v, pair("MARIADB_USER", &creds.username));
                push_pair(&mut v, pair("MARIADB_PASSWORD", &creds.password));
                push_pair(&mut v, pair("MARIADB_DATABASE", &creds.database_name));
                push_pair(&mut v, pair("MARIADB_ROOT_PASSWORD", &creds.password));
            },
            DatabaseType::Valkey => {
                push_pair(&mut v, pair("VALKEY_PASSWORD", &creds.password));
            },
            DatabaseType::Qdrant => {
                push_pair(&mut v, pair("QDRANT__SERVICE__API_KEY", &creds.password));
            },
        }
        assert(pairs(v@) =~= db_env(*self, creds.deep_view()));
        v
    }
}

pub open spec fn queue_api_name(t: QueueType) -> Seq<char> {
    match t {
        QueueType::Rabbitmq => "rabbitmq"@,
        QueueType::Nats => "nats"@,
    }
}

pub open spec fn queue_service_type(t: QueueType) -> ServiceType {
    match t {
        QueueType::Rabbitmq => ServiceType::RabbitMq,
        QueueType::Nats => ServiceType::PrivateService,
    }
}

pub open spec fn queue_image_repo(t: QueueType) -> Seq<char> {
    match t {
        QueueType::Rabbitmq => "rabbitmq:"@,
        QueueType::Nats => "nats:"@,
    }
}

pub open spec fn queue_default_port(t: QueueType) -> u16 {
    match t {
        QueueType::Rabbitmq => 5672,
        QueueType::Nats => 4222,
    }
}

pub open spec fn queue_volume_path(t: QueueType) -> Seq<char> {
    match t {
        QueueType::Rabbitmq => "/var/lib/rabbitmq"@,
        QueueType::Nats => "/data"@,
    }
}

pub open spec fn queue_default_memory(t: QueueType) -> u64 {
    match t {
        QueueType::Rabbitmq => 536870912,
        QueueType::Nats => 268435456,
    }
}

pub open spec fn queue_default_version(t: QueueType) -> Seq<char> {
    match t {
        QueueType::Rabbitmq => "3-management"@,
        QueueType::Nats => "2"@,
    }
}

pub open spec fn queue_default_user(t: QueueType) -> Seq<char> {
    match t {
        QueueType::Rabbitmq => "rabbitmq"@,
        QueueType::Nats => "nats"@,
    }
}

pub open spec fn queue_scheme(t: QueueType) -> Seq<char> {
    match t {
        QueueType::Rabbitmq => "amqp://"@,
        QueueType::Nats => "nats://"@,
    }
}

impl QueueType {
    /// The default CPU limit of the engine, as the bit pattern of the
    /// `f64` count of CPUs: one CPU, half a CPU for nats.
    pub fn default_cpu_limit(&self) -> (r: u64)
        ensures
            r == queue_default_cpu_bits(*self),
    {
        match self {
            QueueType::Nats => HALF_CPU_BITS,
            _ => ONE_CPU_BITS,
        }
    }

    /// The public api name of the engine.
    pub fn api_name(&self) -> (r: &'static str)
        ensures
            r@ == queue_api_name(*self),
    {
        match self {
            QueueType::Rabbitmq => "rabbitmq",
            QueueType::Nats => "nats",
        }
    }

    /// The service type the engine is listed as.
    pub fn service_type(&self) -> (r: ServiceType)
        ensures
            r == queue_service_type(*self),
    {
        match self {
            QueueType::Rabbitmq => ServiceType::RabbitMq,
            QueueType::Nats => ServiceType::PrivateService,
        }
    }

    /// The docker image of the engine at `version`.
    pub fn docker_image(&self, version: &str) -> (r: String)
        ensures
            r@ == queue_image_repo(*self) + version@,
    {
        let repo = match self {
            QueueType::Rabbitmq => "rabbitmq:",
            QueueType::Nats => "nats:",
        };
        concat2(repo, version)
    }

    /// The port the engine listens on.
    pub fn default_port(&self) -> (r: u16)
        ensures
            r == queue_default_port(*self),
    {
        match self {
            QueueType::Rabbitmq => 5672,
            QueueType::Nats => 4222,
        }
    }

    /// The data directory inside the container.
    pub fn volume_path(&self) -> (r: &'static str)
        ensures
            r@ == queue_volume_path(*self),
    {
        match self {
            QueueType::Rabbitmq => "/var/lib/rabbitmq",
            QueueType::Nats => "/data",
        }
    }

    /// The default memory limit in bytes.
    pub fn default_memory_limit(&self) -> (r: u64)
        ensures
            r == queue_default_memory(*self),
    {
        match self {
            QueueType::Rabbitmq => 512 * 1024 * 1024,
            QueueType::Nats => 256 * 1024 * 1024,
        }
    }

    /// The default engine version.
    pub fn default_version(&self) -> (r: &'static str)
        ensures
            r@ == queue_default_version(*self),
    {
        match self {
            QueueType::Rabbitmq => "3-management",
            QueueType::Nats => "2",
        }
    }
}

/// The characters generated passwords are drawn from.
pub open spec fn password_charset() -> Seq<char> {
    "ABCDEFGHIJKLMNOPQRSTUVWXYZabcdefghijklmnopqrstuvwxyz0123456789"@
}

/// Every character a password is drawn from is an ASCII letter or digit.
pub proof fn lemma_password_charset_alnum(c: char)
    requires
        password_charset().contains(c),
    ensures
        is_ascii_alnum(c),
{
    reveal_strlit("ABCDEFGHIJKLMNOPQRSTUVWXYZabcdefghijklmnopqrstuvwxyz0123456789");
    let i = choose|i: int| 0 <= i < password_charset().len() && password_charset()[i] == c;
    assert(0 <= i < 62);
}

/// A random index below `bound`: `rand::Rng::random_range(0..bound)` on the
/// thread-local generator, which draws uniformly from the range.
#[verifier::external_body]
pub(crate) fn random_below(bound: usize) -> (r: usize)
    requires
        bound > 0,
    ensures
        r < bound,
{
    rand::Rng::random_range(&mut rand::rng(), 0..bound)
}

/// A random password of `len` characters drawn from the alphanumeric set.
pub fn generate_random_password(len: usize) -> (r: String)
    ensures
        r@.len() == len,
        forall|i: int| 0 <= i < len ==> password_charset().contains(#[trigger] r@[i]),
        forall|i: int| 0 <= i < len ==> is_ascii_alnum(#[trigger] r@[i]),
{
    let charset = "ABCDEFGHIJKLMNOPQRSTUVWXYZabcdefghijklmnopqrstuvwxyz0123456789";
    proof {
        reveal_strlit("ABCDEFGHIJKLMNOPQRSTUVWXYZabcdefghijklmnopqrstuvwxyz0123456789");
    }
    let n = charset.unicode_len();
    assert(n == 62);
    let mut r = String::new();
    let mut i: usize = 0;
    while i < len
        invariant
            n == 62,
            charset@.len() == 62,
            charset@ == password_charset(),
            i <= len,
            r@.len() == i,
            forall|j: int| 0 <= j < i ==> password_charset().contains(#[trigger] r@[j]),
        decreases len - i,
    {
        let k = random_below(n);
        let c = charset.get_char(k);
        let ghost old_r = r@;
        push_char(&mut r, c);
        proof {
            assert(r@[i as int] == password_charset()[k as int]);
            assert(password_charset().contains(r@[i as int]));
            assert forall|j: int| 0 <= j < i + 1 implies password_charset().contains(#[trigger] r@[j]) by {
                if j < i {
                    assert(r@[j] == old_r[j]);
                }
            }
        }
        i = i + 1;
    }
    proof {
        assert forall|j: int| 0 <= j < len implies is_ascii_alnum(#[trigger] r@[j]) by {
            lemma_password_charset_alnum(r@[j]);
        }
    }
    r
}

/// Credentials of a managed database.
#[derive(Debug, Clone)]
pub struct DatabaseCredentials {
    pub username: String,
    pub password: String,
    pub database_name: String,
}

#[verifier::ext_equal]
pub struct CredentialsModel {
    pub username: Seq<char>,
    pub password: Seq<char>,
    pub database_name: Seq<char>,
}

impl DeepView for DatabaseCredentials {
    type V = CredentialsModel;

    open spec fn deep_view(&self) -> CredentialsModel {
        CredentialsModel {
            username: self.username@,
            password: self.password@,
            database_name: self.database_name@,
        }
    }
}

impl DatabaseCredentials {
    /// Credentials for an engine with a fresh random 24-character password:
    /// the engine's default user and the database "main".
    pub fn generate(db_type: DatabaseType) -> (r: DatabaseCredentials)
        ensures
            r.username@ == db_default_user(db_type),
            r.password@.len() == 24,
            forall|i: int| 0 <= i < 24 ==> password_charset().contains(#[trigger] r.password@[i]),
            forall|i: int| 0 <= i < 24 ==> is_ascii_alnum(#[trigger] r.password@[i]),
            r.database_name@ == "main"@,
    {
        let password = generate_random_password(24);
        let username = match db_type {
            DatabaseType::Postgresql => owned("postgres"),
            DatabaseType::Mariadb => owned("mariadb"),
            DatabaseType::Valkey => owned("default"),
            DatabaseType::Qdrant => owned("qdrant"),
        };
        DatabaseCredentials { username, password, database_name: owned("main") }
    }
}

/// Credentials of a managed queue.
#[derive(Debug, Clone)]
pub struct QueueCredentials {
    pub username: String,
    pub password: String,
}

impl QueueCredentials {
    /// Credentials for an engine with a fresh random 24-character password
    /// and the engine's default user.
    pub fn generate(queue_type: QueueType) -> (r: QueueCredentials)
        ensures
            r.username@ == queue_default_user(queue_type),
            r.password@.len() == 24,
            forall|i: int| 0 <= i < 24 ==> password_charset().contains(#[trigger] r.password@[i]),
            forall|i: int| 0 <= i < 24 ==> is_ascii_alnum(#[trigger] r.password@[i]),
    {
        let password = generate_random_password(24);
        let username = match queue_type {
            QueueType::Rabbitmq => owned("rabbitmq"),
            QueueType::Nats => owned("nats"),
        };
        QueueCredentials { username, password }
    }
}

/// The postgres major version a version text names: the leading part of
/// the trimmed text before any '.' or '-', read as a 16-bit number.
pub open spec fn major_version(db_type: DatabaseType, version: Seq<char>) -> Option<u16> {
    if db_type != DatabaseType::Postgresql {
        None
    } else {
        parse_u16_spec(first_piece(trim(version), '.', '-'))
    }
}

/// Whether the database uses the postgres 18+ versioned data layout.
pub open spec fn versioned_layout(db_type: DatabaseType, version: Seq<char>) -> bool {
    match major_version(db_type, version) {
        Some(m) => m >= 18,
        None => false,
    }
}

/// The network a managed service joins: its group's, else its own.
pub open spec fn service_network(group_id: Option<u128>, id: u128) -> Seq<char> {
    match group_id {
        Some(g) => "containr-"@ + uuid_text(g),
        None => "containr-svc-"@ + uuid_text(id),
    }
}

/// The aliases of a service on the shared network: the normalized host, and
/// the trimmed legacy host when it is non-empty and differs.
pub open spec fn host_aliases(host: Seq<char>) -> Seq<Seq<char>> {
    let n = normalized_host(host);
    let l = trim(host);
    if l.len() > 0 && l != n {
        seq![n, l]
    } else {
        seq![n]
    }
}

/// The root directory of a service on the host: the parent of its data
/// directory, or the data directory itself when it has no parent.
pub open spec fn root_of(data_path: Seq<char>) -> Seq<char> {
    match path_parent(data_path) {
        Some(p) => p,
        None => data_path,
    }
}

fn network_name_for(group_id: Option<u128>, id: u128) -> (r: String)
    ensures
        r@ == service_network(group_id, id),
{
    match group_id {
        Some(g) => {
            let t = uuid_string(g);
            concat2("containr-", t.as_str())
        },
        None => {
            let t = uuid_string(id);
            concat2("containr-svc-", t.as_str())
        },
    }
}

fn aliases_for(host: &str) -> (r: Vec<String>)
    ensures
        r.deep_view() == host_aliases(host@),
{
    let normalized = normalize_internal_host(host);
    let legacy = trim_owned(host);
    let mut aliases: Vec<String> = Vec::new();
    let differs = legacy.unicode_len() > 0 && !str_eq(legacy.as_str(), normalized.as_str());
    crate::dup::push_deep(&mut aliases, normalized);
    if differs {
        crate::dup::push_deep(&mut aliases, legacy);
    }
    assert(aliases.deep_view() =~= host_aliases(host@));
    aliases
}

fn root_path_of(data_path: &str) -> (r: String)
    ensures
        r@ == root_of(data_path@),
{
    match parent_path(data_path) {
        Some(p) => p,
        None => owned(data_path),
    }
}

/// A managed database instance.
///
/// `cpu_limit_bits` holds the bit pattern of the CPU limit (a float number of
/// CPUs); no logic here reads it.
#[derive(Debug, Clone)]
pub struct ManagedDatabase {
    pub id: u128,
    pub owner_id: u128,
    pub group_id: Option<u128>,
    pub name: String,
    pub db_type: DatabaseType,
    pub version: String,
    pub container_id: Option<String>,
    pub volume_name: String,
    pub host_data_path: String,
    pub internal_host: String,
    pub port: u16,
    pub external_port: Option<u16>,
    pub pitr_enabled: bool,
    pub pitr_last_base_backup_at: Option<Timestamp>,
    pub pitr_last_base_backup_label: Option<String>,
    pub proxy_enabled: bool,
    pub proxy_external_port: Option<u16>,
    pub credentials: DatabaseCredentials,
    pub memory_limit: u64,
    pub cpu_limit_bits: u64,
    pub status: ServiceStatus,
    pub created_at: Timestamp,
    pub updated_at: Timestamp,
}

/// Bit pattern of one CPU (the float 1.0).
pub const ONE_CPU_BITS: u64 = 0x3ff0000000000000;

/// Bit pattern of half a CPU (the float 0.5).
pub const HALF_CPU_BITS: u64 = 0x3fe0000000000000;

/// Bit pattern of the default CPU limit of a database engine.
pub open spec fn db_default_cpu_bits(t: DatabaseType) -> u64 {
    match t {
        DatabaseType::Valkey => HALF_CPU_BITS,
        _ => ONE_CPU_BITS,
    }
}

/// Bit pattern of the default CPU limit of a queue engine.
pub open spec fn queue_default_cpu_bits(t: QueueType) -> u64 {
    match t {
        QueueType::Nats => HALF_CPU_BITS,
        _ => ONE_CPU_BITS,
    }
}

/// The postgres connection string with the given host and port.
pub open spec fn postgres_url(c: CredentialsModel, host: Seq<char>, port: u16) -> Seq<char> {
    "postgresql://"@ + c.username + ":"@ + c.password + "@"@ + host + ":"@ + dec(port as nat)
        + "/"@ + c.database_name
}

/// The connection string of a database.
pub open spec fn db_connection(
    t: DatabaseType,
    c: CredentialsModel,
    host: Seq<char>,
    port: u16,
) -> Seq<char> {
    match t {
        DatabaseType::Postgresql => postgres_url(c, host, port),
        DatabaseType::Mariadb => "mysql://"@ + c.username + ":"@ + c.password + "@"@ + host + ":"@
            + dec(port as nat) + "/"@ + c.database_name,
        DatabaseType::Valkey => "redis://:"@ + c.password + "@"@ + host + ":"@ + dec(
            port as nat,
        ),
        DatabaseType::Qdrant => "http://"@ + host + ":"@ + dec(port as nat),
    }
}

fn user_url(
    scheme: &str,
    user: &str,
    password: &str,
    host: &str,
    port: u16,
    tail_sep: &str,
    tail: &str,
) -> (r: String)
    ensures
        r@ == scheme@ + user@ + ":"@ + password@ + "@"@ + host@ + ":"@ + dec(port as nat)
            + tail_sep@ + tail@,
{
    let mut r = owned(scheme);
    r.append(user);
    r.append(":");
    r.append(password);
    r.append("@");
    r.append(host);
    r.append(":");
    let p = dec_string(port as u64);
    r.append(p.as_str());
    r.append(tail_sep);
    r.append(tail);
    r
}

impl ManagedDatabase {
    /// A database with the given identifier, time and credentials, as
    /// `ManagedDatabase::new` makes it.
    pub fn new_with(
        id: u128,
        owner_id: u128,
        name: String,
        db_type: DatabaseType,
        credentials: DatabaseCredentials,
        now: Timestamp,
    ) -> (r: ManagedDatabase)
        ensures
            r.id == id,
            r.owner_id == owner_id,
            r.group_id.is_none(),
            r.name@ == name@,
            r.db_type == db_type,
            r.version@ == db_default_version(db_type),
            r.container_id.is_none(),
            r.volume_name@ == "containr-db-"@ + uuid_text(id),
            r.host_data_path@ == "/data/containr/databases/"@ + uuid_text(id) + "/data"@,
            r.internal_host@ == "db-"@ + uuid_text(id),
            r.port == db_default_port(db_type),
            r.external_port.is_none(),
            !r.pitr_enabled,
            r.pitr_last_base_backup_at.is_none(),
            r.pitr_last_base_backup_label.is_none(),
            !r.proxy_enabled,
            r.proxy_external_port.is_none(),
            r.credentials.deep_view() == credentials.deep_view(),
            r.memory_limit == db_default_memory(db_type),
            r.cpu_limit_bits == db_default_cpu_bits(db_type),
            r.status == ServiceStatus::Pending,
            r.created_at == now,
            r.updated_at == now,
    {
        let id_text = uuid_string(id);
        let version = owned(db_type.default_version());
        let volume_name = concat2("containr-db-", id_text.as_str());
        let host_data_path = concat3("/data/containr/databases/", id_text.as_str(), "/data");
        let internal_host = concat2("db-", id_text.as_str());
        let cpu_limit_bits = match db_type {
            DatabaseType::Valkey => HALF_CPU_BITS,
            _ => ONE_CPU_BITS,
        };
        ManagedDatabase {
            id,
            owner_id,
            group_id: None,
            name,
            db_type,
            version,
            container_id: None,
            volume_name,
            host_data_path,
            internal_host,
            port: db_type.default_port(),
            external_port: None,
            pitr_enabled: false,
            pitr_last_base_backup_at: None,
            pitr_last_base_backup_label: None,
            proxy_enabled: false,
            proxy_external_port: None,
            credentials,
            memory_limit: db_type.default_memory_limit(),
            cpu_limit_bits,
            status: ServiceStatus::Pending,
            created_at: now,
            updated_at: now,
        }
    }

    /// A new database with a fresh identifier and generated credentials.
    pub fn new(owner_id: u128, name: String, db_type: DatabaseType) -> (r: ManagedDatabase)
        ensures
            r.owner_id == owner_id,
            r.group_id.is_none(),
            r.name@ == name@,
            r.db_type == db_type,
            r.version@ == db_default_version(db_type),
            r.container_id.is_none(),
            r.volume_name@ == "containr-db-"@ + uuid_text(r.id),
            r.host_data_path@ == "/data/containr/databases/"@ + uuid_text(r.id) + "/data"@,
            r.internal_host@ == "db-"@ + uuid_text(r.id),
            r.port == db_default_port(db_type),
            r.credentials.username@ == db_default_user(db_type),
            r.credentials.password@.len() == 24,
            r.credentials.database_name@ == "main"@,
            r.memory_limit == db_default_memory(db_type),
            r.cpu_limit_bits == db_default_cpu_bits(db_type),
            r.status == ServiceStatus::Pending,
            r.created_at == r.updated_at,
    {
        let id = fresh_id();
        let now = clock_now();
        let credentials = DatabaseCredentials::generate(db_type);
        Self::new_with(id, owner_id, name, db_type, credentials, now)
    }

    /// A new database whose data lives under `data_dir`:
    /// `{data_dir}/databases/{id}/data`.
    pub fn new_with_path(owner_id: u128, name: String, db_type: DatabaseType, data_dir: &str) -> (r:
        ManagedDatabase)
        ensures
            r.owner_id == owner_id,
            r.name@ == name@,
            r.db_type == db_type,
            r.host_data_path@ == path_join(
                path_join(path_join(data_dir@, "databases"@), uuid_text(r.id)),
                "data"@,
            ),
            r.internal_host@ == "db-"@ + uuid_text(r.id),
            r.port == db_default_port(db_type),
            r.status == ServiceStatus::Pending,
    {
        let mut db = Self::new(owner_id, name, db_type);
        let id_text = uuid_string(db.id);
        let a = join_path(data_dir, "databases");
        let b = join_path(a.as_str(), id_text.as_str());
        db.host_data_path = join_path(b.as_str(), "data");
        db
    }

    /// The parsed postgres major version, when this is a postgres database
    /// and the version text starts with a number.
    pub fn postgres_major_version(&self) -> (r: Option<u16>)
        ensures
            r == major_version(self.db_type, self.version@),
    {
        if self.db_type != DatabaseType::Postgresql {
            return None;
        }
        let t = trim_owned(self.version.as_str());
        let leading = first_piece_of(t.as_str(), '.', '-');
        parse_u16_text(leading.as_str())
    }

    fn uses_versioned_postgres_layout(&self) -> (r: bool)
        ensures
            r == versioned_layout(self.db_type, self.version@),
    {
        match self.postgres_major_version() {
            Some(major) => major >= 18,
            None => false,
        }
    }

    /// The bind-mount target inside the container: "/var/lib/postgresql"
    /// for postgres 18 and later, else the engine's data directory.
    pub fn container_mount_target(&self) -> (r: &'static str)
        ensures
            r@ == (if versioned_layout(self.db_type, self.version@) {
                "/var/lib/postgresql"@
            } else {
                db_volume_path(self.db_type)
            }),
    {
        if self.uses_versioned_postgres_layout() {
            "/var/lib/postgresql"
        } else {
            self.db_type.volume_path()
        }
    }

    /// The bind-mount argument for docker: host path, ':', mount target.
    pub fn bind_mount_arg(&self) -> (r: String)
        ensures
            r@ == self.host_data_path@ + ":"@ + (if versioned_layout(self.db_type, self.version@) {
                "/var/lib/postgresql"@
            } else {
                db_volume_path(self.db_type)
            }),
    {
        let target = self.container_mount_target();
        concat3(self.host_data_path.as_str(), ":", target)
    }

    /// The data directory inside the container: for postgres 18 and later
    /// "/var/lib/postgresql/{major}/docker", else the engine's data directory.
    pub fn container_data_dir(&self) -> (r: String)
        ensures
            r@ == (match major_version(self.db_type, self.version@) {
                Some(m) => if m >= 18 {
                    "/var/lib/postgresql/"@ + dec(m as nat) + "/docker"@
                } else {
                    db_volume_path(self.db_type)
                },
                None => db_volume_path(self.db_type),
            }),
    {
        if self.db_type != DatabaseType::Postgresql {
            return owned(self.db_type.volume_path());
        }
        match self.postgres_major_version() {
            Some(major) => {
                if major >= 18 {
                    let m = dec_string(major as u64);
                    concat3("/var/lib/postgresql/", m.as_str(), "/docker")
                } else {
                    owned(self.db_type.volume_path())
                }
            },
            None => owned(self.db_type.volume_path()),
        }
    }

    /// The data directory on the host: for postgres 18 and later the host
    /// data path joined with the major version and "docker", else the host
    /// data path.
    pub fn host_runtime_data_path(&self) -> (r: String)
        ensures
            r@ == (match major_version(self.db_type, self.version@) {
                Some(m) => if m >= 18 {
                    path_join(path_join(self.host_data_path@, dec(m as nat)), "docker"@)
                } else {
                    self.host_data_path@
                },
                None => self.host_data_path@,
            }),
    {
        if self.db_type != DatabaseType::Postgresql {
            return self.host_data_path.dup();
        }
        match self.postgres_major_version() {
            Some(major) => {
                if major >= 18 {
                    let m = dec_string(major as u64);
                    let a = join_path(self.host_data_path.as_str(), m.as_str());
                    join_path(a.as_str(), "docker")
                } else {
                    self.host_data_path.dup()
                }
            },
            None => self.host_data_path.dup(),
        }
    }

    /// The environment of the container: the engine's variables, and PGDATA
    /// for the postgres 18+ layout.
    pub fn container_env_vars(&self) -> (r: Vec<(String, String)>)
        ensures
            pairs(r@) == (if versioned_layout(self.db_type, self.version@) {
                db_env(self.db_type, self.credentials.deep_view()).push(
                    ("PGDATA"@, "/var/lib/postgresql/"@ + dec(
                        major_version(self.db_type, self.version@).unwrap() as nat,
                    ) + "/docker"@),
                )
            } else {
                db_env(self.db_type, self.credentials.deep_view())
            }),
    {
        let mut env_vars = self.db_type.env_vars(&self.credentials);
        if self.uses_versioned_postgres_layout() {
            let dir = self.container_data_dir();
            push_pair(&mut env_vars, (owned("PGDATA"), dir));
        }
        env_vars
    }

    /// The docker network of the database.
    pub fn network_name(&self) -> (r: String)
        ensures
            r@ == service_network(self.group_id, self.id),
    {
        network_name_for(self.group_id, self.id)
    }

    /// The host name on the shared network.
    pub fn normalized_internal_host(&self) -> (r: String)
        ensures
            r@ == normalized_host(self.internal_host@),
    {
        normalize_internal_host(self.internal_host.as_str())
    }

    /// The network aliases of the database.
    pub fn network_aliases(&self) -> (r: Vec<String>)
        ensures
            r.deep_view() == host_aliases(self.internal_host@),
    {
        aliases_for(self.internal_host.as_str())
    }

    /// The connection string clients use.
    pub fn connection_string(&self) -> (r: String)
        ensures
            r@ == db_connection(
                self.db_type,
                self.credentials.deep_view(),
                normalized_host(self.internal_host@),
                self.port,
            ),
    {
        let host = self.normalized_internal_host();
        let c = &self.credentials;
        match self.db_type {
            DatabaseType::Postgresql => user_url(
                "postgresql://",
                c.username.as_str(),
                c.password.as_str(),
                host.as_str(),
                self.port,
                "/",
                c.database_name.as_str(),
            ),
            DatabaseType::Mariadb => user_url(
                "mysql://",
                c.username.as_str(),
                c.password.as_str(),
                host.as_str(),
                self.port,
                "/",
                c.database_name.as_str(),
            ),
            DatabaseType::Valkey => {
                let r = user_url("redis://", "", c.password.as_str(), host.as_str(), self.port, "", "");
                proof {
                    reveal_strlit("");
                    reveal_strlit("redis://");
                    reveal_strlit("redis://:");
                    reveal_strlit(":");
                    assert("redis://"@ + ""@ + ":"@ =~= "redis://:"@);
                    assert(r@ =~= "redis://:"@ + c.password@ + "@"@ + host@ + ":"@ + dec(self.port as nat));
                }
                r
            },
            DatabaseType::Qdrant => {
                let mut r = concat3("http://", host.as_str(), ":");
                let p = dec_string(self.port as u64);
                r.append(p.as_str());
                r
            },
        }
    }

    /// The docker image of the database.
    pub fn docker_image(&self) -> (r: String)
        ensures
            r@ == db_image_repo(self.db_type) + self.version@,
    {
        self.db_type.docker_image(self.version.as_str())
    }

    /// The service type name the database is listed under.
    pub fn service_type_name(&self) -> (r: &'static str)
        ensures
            r@ == service_type_text(db_service_type(self.db_type)),
    {
        ContainerService::service_type_name(self.db_type.service_type())
    }

    /// The database's root directory on the host.
    pub fn root_path(&self) -> (r: String)
        ensures
            r@ == root_of(self.host_data_path@),
    {
        root_path_of(self.host_data_path.as_str())
    }

    /// The host directory for point-in-time recovery data.
    pub fn pitr_root_path(&self) -> (r: String)
        ensures
            r@ == path_join(root_of(self.host_data_path@), "pitr"@),
    {
        let root = self.root_path();
        join_path(root.as_str(), "pitr")
    }

    /// The host directory of archived write-ahead log segments.
    pub fn pitr_archive_path(&self) -> (r: String)
        ensures
            r@ == path_join(path_join(root_of(self.host_data_path@), "pitr"@), "wal"@),
    {
        let p = self.pitr_root_path();
        join_path(p.as_str(), "wal")
    }

    /// The host directory of local base backups.
    pub fn pitr_backups_path(&self) -> (r: String)
        ensures
            r@ == path_join(path_join(root_of(self.host_data_path@), "pitr"@), "basebackups"@),
    {
        let p = self.pitr_root_path();
        join_path(p.as_str(), "basebackups")
    }

    /// The host directory of the connection pooler's configuration.
    pub fn proxy_config_path(&self) -> (r: String)
        ensures
            r@ == path_join(root_of(self.host_data_path@), "pgdog"@),
    {
        let root = self.root_path();
        join_path(root.as_str(), "pgdog")
    }

    /// The pooler's host name: for a postgres database with the pooler
    /// enabled, the normalized host followed by "-proxy".
    pub fn proxy_internal_host(&self) -> (r: Option<String>)
        ensures
            r.deep_view() == (if self.db_type == DatabaseType::Postgresql && self.proxy_enabled {
                Some(normalized_host(self.internal_host@) + "-proxy"@)
            } else {
                None
            }),
    {
        if self.db_type == DatabaseType::Postgresql && self.proxy_enabled {
            let h = self.normalized_internal_host();
            Some(concat2(h.as_str(), "-proxy"))
        } else {
            None
        }
    }

    /// The pooler's port, when the pooler is enabled on postgres.
    pub fn proxy_port(&self) -> (r: Option<u16>)
        ensures
            r == (if self.db_type == DatabaseType::Postgresql && self.proxy_enabled {
                Some(POSTGRES_PROXY_PORT)
            } else {
                None
            }),
    {
        if self.db_type == DatabaseType::Postgresql && self.proxy_enabled {
            Some(POSTGRES_PROXY_PORT)
        } else {
            None
        }
    }

    /// The connection string through the pooler, when enabled.
    pub fn proxy_connection_string(&self) -> (r: Option<String>)
        ensures
            r.deep_view() == (if self.db_type == DatabaseType::Postgresql && self.proxy_enabled {
                Some(
                    postgres_url(
                        self.credentials.deep_view(),
                        normalized_host(self.internal_host@) + "-proxy"@,
                        POSTGRES_PROXY_PORT,
                    ),
                )
            } else {
                None
            }),
    {
        let host = match self.proxy_internal_host() {
            Some(h) => h,
            None => return None,
        };
        let port = match self.proxy_port() {
            Some(p) => p,
            None => return None,
        };
        let c = &self.credentials;
        Some(
            user_url(
                "postgresql://",
                c.username.as_str(),
                c.password.as_str(),
                host.as_str(),
                port,
                "/",
                c.database_name.as_str(),
            ),
        )
    }
}

/// A managed queue instance.
///
/// `cpu_limit_bits` holds the bit pattern of the CPU limit (a float number of
/// CPUs); no logic here reads it.
#[derive(Debug, Clone)]
pub struct ManagedQueue {
    pub id: u128,
    pub owner_id: u128,
    pub group_id: Option<u128>,
    pub name: String,
    pub queue_type: QueueType,
    pub version: String,
    pub container_id: Option<String>,
    pub volume_name: String,
    pub host_data_path: String,
    pub internal_host: String,
    pub port: u16,
    pub external_port: Option<u16>,
    pub credentials: QueueCredentials,
    pub memory_limit: u64,
    pub cpu_limit_bits: u64,
    pub status: ServiceStatus,
    pub created_at: Timestamp,
    pub updated_at: Timestamp,
}

impl ManagedQueue {
    /// A queue with the given identifier, time and credentials, as
    /// `ManagedQueue::new` makes it.
    pub fn new_with(
        id: u128,
        owner_id: u128,
        name: String,
        queue_type: QueueType,
        credentials: QueueCredentials,
        now: Timestamp,
    ) -> (r: ManagedQueue)
        ensures
            r.id == id,
            r.owner_id == owner_id,
            r.group_id.is_none(),
            r.name@ == name@,
            r.queue_type == queue_type,
            r.version@ == queue_default_version(queue_type),
            r.container_id.is_none(),
            r.volume_name@ == "containr-queue-"@ + uuid_text(id),
            r.host_data_path@ == "/data/containr/queues/"@ + uuid_text(id) + "/data"@,
            r.internal_host@ == "queue-"@ + uuid_text(id),
            r.port == queue_default_port(queue_type),
            r.external_port.is_none(),
            r.credentials.username@ == credentials.username@,
            r.credentials.password@ == credentials.password@,
            r.memory_limit == queue_default_memory(queue_type),
            r.cpu_limit_bits == queue_default_cpu_bits(queue_type),
            r.status == ServiceStatus::Pending,
            r.created_at == now,
            r.updated_at == now,
    {
        let id_text = uuid_string(id);
        let cpu_limit_bits = match queue_type {
            QueueType::Nats => HALF_CPU_BITS,
            _ => ONE_CPU_BITS,
        };
        ManagedQueue {
            id,
            owner_id,
            group_id: None,
            name,
            queue_type,
            version: owned(queue_type.default_version()),
            container_id: None,
            volume_name: concat2("containr-queue-", id_text.as_str()),
            host_data_path: concat3("/data/containr/queues/", id_text.as_str(), "/data"),
            internal_host: concat2("queue-", id_text.as_str()),
            port: queue_type.default_port(),
            external_port: None,
            credentials,
            memory_limit: queue_type.default_memory_limit(),
            cpu_limit_bits,
            status: ServiceStatus::Pending,
            created_at: now,
            updated_at: now,
        }
    }

    /// A new queue with a fresh identifier and generated credentials.
    pub fn new(owner_id: u128, name: String, queue_type: QueueType) -> (r: ManagedQueue)
        ensures
            r.owner_id == owner_id,
            r.name@ == name@,
            r.queue_type == queue_type,
            r.version@ == queue_default_version(queue_type),
            r.host_data_path@ == "/data/containr/queues/"@ + uuid_text(r.id) + "/data"@,
            r.internal_host@ == "queue-"@ + uuid_text(r.id),
            r.port == queue_default_port(queue_type),
            r.credentials.username@ == queue_default_user(queue_type),
            r.credentials.password@.len() == 24,
            r.status == ServiceStatus::Pending,
            r.created_at == r.updated_at,
    {
        let id = fresh_id();
        let now = clock_now();
        let credentials = QueueCredentials::generate(queue_type);
        Self::new_with(id, owner_id, name, queue_type, credentials, now)
    }

    /// A new queue whose data lives under `data_dir`:
    /// `{data_dir}/queues/{id}/data`.
    pub fn new_with_path(owner_id: u128, name: String, queue_type: QueueType, data_dir: &str) -> (r:
        ManagedQueue)
        ensures
            r.owner_id == owner_id,
            r.name@ == name@,
            r.queue_type == queue_type,
            r.host_data_path@ == path_join(
                path_join(path_join(data_dir@, "queues"@), uuid_text(r.id)),
                "data"@,
            ),
            r.port == queue_default_port(queue_type),
            r.status == ServiceStatus::Pending,
    {
        let mut q = Self::new(owner_id, name, queue_type);
        let id_text = uuid_string(q.id);
        let a = join_path(data_dir, "queues");
        let b = join_path(a.as_str(), id_text.as_str());
        q.host_data_path = join_path(b.as_str(), "data");
        q
    }

    /// The bind-mount argument for docker: host path, ':', data directory.
    pub fn bind_mount_arg(&self) -> (r: String)
        ensures
            r@ == self.host_data_path@ + ":"@ + queue_volume_path(self.queue_type),
    {
        concat3(self.host_data_path.as_str(), ":", self.queue_type.volume_path())
    }

    /// The docker network of the queue.
    pub fn network_name(&self) -> (r: String)
        ensures
            r@ == service_network(self.group_id, self.id),
    {
        network_name_for(self.group_id, self.id)
    }

    /// The host name on the shared network.
    pub fn normalized_internal_host(&self) -> (r: String)
        ensures
            r@ == normalized_host(self.internal_host@),
    {
        normalize_internal_host(self.internal_host.as_str())
    }

    /// The network aliases of the queue.
    pub fn network_aliases(&self) -> (r: Vec<String>)
        ensures
            r.deep_view() == host_aliases(self.internal_host@),
    {
        aliases_for(self.internal_host.as_str())
    }

    /// The connection string clients use.
    pub fn connection_string(&self) -> (r: String)
        ensures
            r@ == queue_scheme(self.queue_type) + self.credentials.username@ + ":"@
                + self.credentials.password@ + "@"@ + normalized_host(self.internal_host@) + ":"@
                + dec(self.port as nat),
    {
        let host = self.normalized_internal_host();
        let scheme = match self.queue_type {
            QueueType::Rabbitmq => "amqp://",
            QueueType::Nats => "nats://",
        };
        let r = user_url(
            scheme,
            self.credentials.username.as_str(),
            self.credentials.password.as_str(),
            host.as_str(),
            self.port,
            "",
            "",
        );
        proof {
            reveal_strlit("");
            assert(r@ =~= queue_scheme(self.queue_type) + self.credentials.username@ + ":"@
                + self.credentials.password@ + "@"@ + host@ + ":"@ + dec(self.port as nat));
        }
        r
    }

    /// The docker image of the queue.
    pub fn docker_image(&self) -> (r: String)
        ensures
            r@ == queue_image_repo(self.queue_type) + self.version@,
    {
        self.queue_type.docker_image(self.version.as_str())
    }

    /// The service type name the queue is listed under.
    pub fn service_type_name(&self) -> (r: &'static str)
        ensures
            r@ == service_type_text(queue_service_type(self.queue_type)),
    {
        ContainerService::service_type_name(self.queue_type.service_type())
    }

    /// The queue's root directory on the host.
    pub fn root_path(&self) -> (r: String)
        ensures
            r@ == root_of(self.host_data_path@),
    {
        root_path_of(self.host_data_path.as_str())
    }
}

/// An S3-compatible storage bucket.
#[derive(Debug, Clone)]
pub struct StorageBucket {
    pub id: u128,
    pub owner_id: u128,
    pub name: String,
    pub access_key: String,
    pub secret_key: String,
    pub size_bytes: u64,
    pub endpoint: String,
    pub created_at: Timestamp,
}

impl StorageBucket {
    /// A bucket record with the given identifier and creation time.
    pub fn new_with(id: u128, owner_id: u128, name: String, endpoint: String, now: Timestamp) -> (r:
        StorageBucket)
        ensures
            r.id == id,
            r.owner_id == owner_id,
            r.name@ == name@,
            r.access_key@.len() == 0,
            r.secret_key@.len() == 0,
            r.size_bytes == 0,
            r.endpoint@ == endpoint@,
            r.created_at == now,
    {
        StorageBucket {
            id,
            owner_id,
            name,
            access_key: String::new(),
            secret_key: String::new(),
            size_bytes: 0,
            endpoint,
            created_at: now,
        }
    }

    /// A bucket record with a fresh identifier, created now.
    pub fn new(owner_id: u128, name: String, endpoint: String) -> (r: StorageBucket)
        ensures
            r.owner_id == owner_id,
            r.name@ == name@,
            r.access_key@.len() == 0,
            r.secret_key@.len() == 0,
            r.size_bytes == 0,
            r.endpoint@ == endpoint@,
    {
        Self::new_with(fresh_id(), owner_id, name, endpoint, clock_now())
    }
}

/// A MariaDB connection string carries the same credentials, host, port
/// and database as the postgres one, in the same places: only the scheme
/// differs. Right after the scheme come the user name, a colon, and the
/// password.
pub proof fn lemma_mariadb_connection_layout(c: CredentialsModel, host: Seq<char>, port: u16)
    ensures
        db_connection(DatabaseType::Mariadb, c, host, port) == "mysql://"@ + db_connection(
            DatabaseType::Postgresql,
            c,
            host,
            port,
        ).skip(13),
        db_connection(DatabaseType::Mariadb, c, host, port).skip(8).take(
            (c.username.len() + 1 + c.password.len() + 1) as int,
        ) == c.username + ":"@ + c.password + "@"@,
        db_connection(DatabaseType::Postgresql, c, host, port).skip(13).take(
            (c.username.len() + 1 + c.password.len() + 1) as int,
        ) == c.username + ":"@ + c.password + "@"@,
{
    reveal_strlit("mysql://");
    reveal_strlit("postgresql://");
    let pg = db_connection(DatabaseType::Postgresql, c, host, port);
    let my = db_connection(DatabaseType::Mariadb, c, host, port);
    let rest = c.username + ":"@ + c.password + "@"@ + host + ":"@ + dec(port as nat) + "/"@
        + c.database_name;
    assert(pg =~= "postgresql://"@ + rest);
    assert(my =~= "mysql://"@ + rest);
    assert(pg.skip(13) =~= rest);
    assert(my.skip(8) =~= rest);
    reveal_strlit(":");
    reveal_strlit("@");
    let userinfo = c.username + ":"@ + c.password + "@"@;
    assert(userinfo.len() == c.username.len() + 1 + c.password.len() + 1);
    assert(rest =~= userinfo + (host + ":"@ + dec(port as nat) + "/"@ + c.database_name));
    assert(rest.take(userinfo.len() as int) =~= userinfo);
}

} // verus!
