//! The containers a managed database runs as: what the database container
//! and its connection-pool frontend are created with.
use vstd::prelude::*;

use crate::dbctl::{
    build_pgdog_command, build_pgdog_entrypoint, build_postgres_pitr_command, build_start_command,
    database_container_name, health_check_cmd, health_check_text, pgdog_binary_path,
    pgdog_config_path, pgdog_config_text, pgdog_users_path, pgdog_users_text, postgres_pitr_args,
    proxy_container_name, render_pgdog_config, render_pgdog_users,
};
use crate::docker::{DockerBindMount, HealthConfigPlan};
use crate::dup::{push_deep, Dup};
use crate::managed::{
    db_env, db_volume_path, host_aliases, major_version, normalized_host, root_of,
    service_network, versioned_layout, DatabaseType, ManagedDatabase, ServiceStatus,
    POSTGRES_PROXY_PORT,
};
use crate::ids::Timestamp;
use crate::store::{invalid_value_text, u64_to_i64};
use crate::text::{
    concat2, concat3, dec, dec_string, join_path, owned, path_join, trim, trim_owned, uuid_string,
    uuid_text,
};
use vstd::utf8::{decode_utf8, valid_utf8};

verus! {

/// Image of the connection-pool frontend.
pub open spec fn pgdog_image() -> Seq<char> {
    "ghcr.io/pgdogdev/pgdog:v0.1.6"@
}

/// Where the recovery directory is mounted in a postgres container.
pub open spec fn pitr_mount_path() -> Seq<char> {
    "/var/lib/postgresql/containr-pitr"@
}

/// Directory of the frontend's configuration inside its container.
pub open spec fn pgdog_config_dir() -> Seq<char> {
    "/etc/pgdog"@
}

/// Memory limit of the frontend container: 256 MiB.
pub const DATABASE_PROXY_MEMORY_LIMIT_BYTES: i64 = 268435456;

/// CPU limit of the frontend container: half a CPU, in nano CPUs.
pub const DATABASE_PROXY_NANO_CPUS: i64 = 500000000;

/// The message for a frontend asked of an engine other than postgres.
pub open spec fn proxy_unsupported_text() -> Seq<char> {
    "pgdog proxy is only supported for postgresql"@
}

/// The check made before a database is started: the frontend is only
/// offered for postgres.
pub fn check_proxy_support(db: &ManagedDatabase) -> (r: Result<(), String>)
    ensures
        r is Ok <==> !(db.proxy_enabled && db.db_type != DatabaseType::Postgresql),
        r matches Err(e) ==> e@ == proxy_unsupported_text(),
{
    if db.proxy_enabled && db.db_type != DatabaseType::Postgresql {
        Err(owned("pgdog proxy is only supported for postgresql"))
    } else {
        Ok(())
    }
}

/// What starting a database learns from the container runtime, in the
/// order it learns it.
pub enum DatabaseStartEvent {
    /// Whether the database's container already runs.
    Checked { running: bool },
    /// The container was created and started under `container_id`, and did
    /// or did not become ready within the wait.
    ContainerStarted { container_id: String, ready: bool },
    /// The connection-pool frontend was started, or failed to start.
    FrontendStarted { container_id: String, result: Result<(), String> },
}

/// What starting a database does next.
pub enum DatabaseStartAction {
    /// Give up with this message; nothing was created.
    Fail { message: String },
    /// Pull the image, clear old containers, and create and start the
    /// database container (see `plan_database_container`).
    CreateContainer,
    /// Remove the container of this name, then give up with the message.
    RemoveAndFail { name: String, message: String },
    /// Start the connection-pool frontend (see `plan_proxy_frontend`).
    StartFrontend,
    /// Stop the database, then give up with the message.
    StopAndFail { message: String },
    /// The database runs in this container.
    Done { container_id: String },
}

/// `DatabaseStartAction` with its strings as sequences.
pub enum DatabaseStartActionView {
    Fail { message: Seq<char> },
    CreateContainer,
    RemoveAndFail { name: Seq<char>, message: Seq<char> },
    StartFrontend,
    StopAndFail { message: Seq<char> },
    Done { container_id: Seq<char> },
}

impl View for DatabaseStartAction {
    type V = DatabaseStartActionView;

    open spec fn view(&self) -> DatabaseStartActionView {
        match self {
            DatabaseStartAction::Fail { message } => DatabaseStartActionView::Fail {
                message: message@,
            },
            DatabaseStartAction::CreateContainer => DatabaseStartActionView::CreateContainer,
            DatabaseStartAction::RemoveAndFail { name, message } =>
                DatabaseStartActionView::RemoveAndFail { name: name@, message: message@ },
            DatabaseStartAction::StartFrontend => DatabaseStartActionView::StartFrontend,
            DatabaseStartAction::StopAndFail { message } => DatabaseStartActionView::StopAndFail {
                message: message@,
            },
            DatabaseStartAction::Done { container_id } => DatabaseStartActionView::Done {
                container_id: container_id@,
            },
        }
    }
}

/// The record of a database once its container `container_id` is ready at
/// `now`: the container is recorded, the status is running and the update
/// time is `now`.
pub open spec fn started_database(db: ManagedDatabase, container_id: String, now: Timestamp) -> ManagedDatabase {
    ManagedDatabase {
        container_id: Some(container_id),
        status: ServiceStatus::Running,
        updated_at: now,
        ..db
    }
}

/// The next action of a database start, and the record after the event.
pub open spec fn database_start_next(
    db: ManagedDatabase,
    event: DatabaseStartEvent,
    now: Timestamp,
) -> (ManagedDatabase, DatabaseStartActionView) {
    match event {
        DatabaseStartEvent::Checked { running } => if db.proxy_enabled && db.db_type
            != DatabaseType::Postgresql {
            (db, DatabaseStartActionView::Fail { message: proxy_unsupported_text() })
        } else if running {
            (db, DatabaseStartActionView::Fail { message: "database is already running"@ })
        } else {
            (db, DatabaseStartActionView::CreateContainer)
        },
        DatabaseStartEvent::ContainerStarted { container_id, ready } => if !ready {
            (
                db,
                DatabaseStartActionView::RemoveAndFail {
                    name: "containr-db-"@ + uuid_text(db.id),
                    message: "database container did not become ready"@,
                },
            )
        } else if db.proxy_enabled {
            (started_database(db, container_id, now), DatabaseStartActionView::StartFrontend)
        } else {
            (
                started_database(db, container_id, now),
                DatabaseStartActionView::Done { container_id: container_id@ },
            )
        },
        DatabaseStartEvent::FrontendStarted { container_id, result } => match result {
            Ok(_) => (db, DatabaseStartActionView::Done { container_id: container_id@ }),
            Err(e) => (db, DatabaseStartActionView::StopAndFail { message: e@ }),
        },
    }
}

/// One step of starting a database: given what the runtime reported, the
/// record is updated and the next action chosen. Once the container is
/// ready the record holds its identifier, the running status and `now` as
/// its update time; with the frontend enabled, it is started next, and its
/// failure stops the database.
pub fn database_start_step(db: &mut ManagedDatabase, event: DatabaseStartEvent, now: Timestamp) -> (r:
    DatabaseStartAction)
    ensures
        (*final(db), r@) == database_start_next(*old(db), event, now),
{
    match event {
        DatabaseStartEvent::Checked { running } => {
            if db.proxy_enabled && db.db_type != DatabaseType::Postgresql {
                DatabaseStartAction::Fail {
                    message: owned("pgdog proxy is only supported for postgresql"),
                }
            } else if running {
                DatabaseStartAction::Fail { message: owned("database is already running") }
            } else {
                DatabaseStartAction::CreateContainer
            }
        },
        DatabaseStartEvent::ContainerStarted { container_id, ready } => {
            if !ready {
                DatabaseStartAction::RemoveAndFail {
                    name: database_container_name(db),
                    message: owned("database container did not become ready"),
                }
            } else {
                let done = container_id.dup();
                db.container_id = Some(container_id);
                db.status = ServiceStatus::Running;
                db.updated_at = now;
                if db.proxy_enabled {
                    DatabaseStartAction::StartFrontend
                } else {
                    DatabaseStartAction::Done { container_id: done }
                }
            }
        },
        DatabaseStartEvent::FrontendStarted { container_id, result } => match result {
            Ok(_) => DatabaseStartAction::Done { container_id },
            Err(e) => DatabaseStartAction::StopAndFail { message: e },
        },
    }
}

/// A published port: the container port with its protocol, bound on every
/// host address to the host port.
pub struct PortBindingPlan {
    pub container_port: String,
    pub host_ip: String,
    pub host_port: String,
}

/// The binding of `container_port` to `host_port`, when one is asked for.
pub fn build_port_bindings(container_port: u16, host_port: Option<u16>) -> (r: Option<
    PortBindingPlan,
>)
    ensures
        match host_port {
            None => r is None,
            Some(h) => r matches Some(b) && b.container_port@ == dec(container_port as nat)
                + "/tcp"@ && b.host_ip@ == "0.0.0.0"@ && b.host_port@ == dec(h as nat),
        },
{
    match host_port {
        None => None,
        Some(h) => {
            let p = dec_string(container_port as u64);
            Some(
                PortBindingPlan {
                    container_port: concat2(p.as_str(), "/tcp"),
                    host_ip: owned("0.0.0.0"),
                    host_port: dec_string(h as u64),
                },
            )
        },
    }
}

/// The environment of a database container as name/value pairs.
pub open spec fn db_container_env(db: ManagedDatabase) -> Seq<(Seq<char>, Seq<char>)> {
    if versioned_layout(db.db_type, db.version@) {
        db_env(db.db_type, db.credentials.deep_view()).push(
            (
                "PGDATA"@,
                "/var/lib/postgresql/"@ + dec(major_version(db.db_type, db.version@).unwrap() as nat)
                    + "/docker"@,
            ),
        )
    } else {
        db_env(db.db_type, db.credentials.deep_view())
    }
}

/// `NAME=value` lines of name/value pairs, in order.
pub open spec fn env_lines(pairs: Seq<(Seq<char>, Seq<char>)>) -> Seq<Seq<char>> {
    Seq::new(pairs.len(), |i: int| pairs[i].0 + "="@ + pairs[i].1)
}

fn to_env_lines(pairs: &Vec<(String, String)>) -> (r: Vec<String>)
    ensures
        r.deep_view() == env_lines(crate::managed::pairs(pairs@)),
{
    let ghost want = env_lines(crate::managed::pairs(pairs@));
    let mut r: Vec<String> = Vec::new();
    let mut i: usize = 0;
    while i < pairs.len()
        invariant
            i <= pairs@.len(),
            want == env_lines(crate::managed::pairs(pairs@)),
            r.deep_view() == want.take(i as int),
        decreases pairs.len() - i,
    {
        let line = concat3(pairs[i].0.as_str(), "=", pairs[i].1.as_str());
        push_deep(&mut r, line);
        proof {
            assert(r.deep_view() =~= want.take(i + 1));
        }
        i = i + 1;
    }
    proof {
        assert(want.take(i as int) =~= want);
    }
    r
}

/// The engine name a database container is labelled with.
pub open spec fn db_type_label(t: DatabaseType) -> Seq<char> {
    match t {
        DatabaseType::Postgresql => "postgresql"@,
        DatabaseType::Mariadb => "mariadb"@,
        DatabaseType::Valkey => "valkey"@,
        DatabaseType::Qdrant => "qdrant"@,
    }
}

fn db_type_label_of(t: DatabaseType) -> (r: String)
    ensures
        r@ == db_type_label(t),
{
    match t {
        DatabaseType::Postgresql => owned("postgresql"),
        DatabaseType::Mariadb => owned("mariadb"),
        DatabaseType::Valkey => owned("valkey"),
        DatabaseType::Qdrant => owned("qdrant"),
    }
}

/// How the database container is created.
pub struct DatabaseContainerPlan {
    pub name: String,
    pub image: String,
    pub hostname: String,
    pub network_name: String,
    /// `NAME=value` lines.
    pub env: Vec<String>,
    pub mounts: Vec<DockerBindMount>,
    pub cmd: Option<Vec<String>>,
    pub labels: Vec<(String, String)>,
    pub memory_bytes: i64,
    pub port_binding: Option<PortBindingPlan>,
    pub aliases: Vec<String>,
    pub healthcheck: Option<HealthConfigPlan>,
    /// Host directories to create before the container starts.
    pub host_dirs: Vec<String>,
}

/// Whether point-in-time recovery applies: postgres with it enabled.
pub open spec fn pitr_active(db: ManagedDatabase) -> bool {
    db.db_type == DatabaseType::Postgresql && db.pitr_enabled
}

/// The mount target of the data directory in the container.
pub open spec fn data_mount_target(db: ManagedDatabase) -> Seq<char> {
    if versioned_layout(db.db_type, db.version@) {
        "/var/lib/postgresql"@
    } else {
        db_volume_path(db.db_type)
    }
}

/// The host directory of the recovery data.
pub open spec fn pitr_root(db: ManagedDatabase) -> Seq<char> {
    path_join(root_of(db.host_data_path@), "pitr"@)
}

/// The bind mounts of a database container: its data directory, and the
/// recovery directory when point-in-time recovery applies.
pub open spec fn db_mounts(db: ManagedDatabase) -> Seq<(Seq<char>, Seq<char>, bool)> {
    let data = (db.host_data_path@, data_mount_target(db), false);
    if pitr_active(db) {
        seq![data, (pitr_root(db), pitr_mount_path(), false)]
    } else {
        seq![data]
    }
}

/// The host directories made before a database container starts: the data
/// directory, and the recovery directories when recovery applies.
pub open spec fn db_host_dirs(db: ManagedDatabase) -> Seq<Seq<char>> {
    if pitr_active(db) {
        seq![
            db.host_data_path@,
            pitr_root(db),
            path_join(pitr_root(db), "wal"@),
            path_join(pitr_root(db), "basebackups"@),
        ]
    } else {
        seq![db.host_data_path@]
    }
}

/// The command of a database container: the archiving postgres command
/// when recovery applies, else the engine's own start command.
pub open spec fn db_cmd(db: ManagedDatabase) -> Option<Seq<Seq<char>>> {
    if pitr_active(db) {
        Some(postgres_pitr_args())
    } else {
        match db.db_type {
            DatabaseType::Valkey => Some(
                seq!["valkey-server"@, "--requirepass"@, db.credentials.password@],
            ),
            _ => None,
        }
    }
}

/// The labels of a database container.
pub open spec fn db_labels(db: ManagedDatabase) -> Seq<(Seq<char>, Seq<char>)> {
    seq![
        ("containr.type"@, "managed-database"@),
        ("containr.db.id"@, uuid_text(db.id)),
        ("containr.db.type"@, db_type_label(db.db_type)),
    ]
}

/// Label pairs as character sequences.
pub open spec fn label_pairs(v: Seq<(String, String)>) -> Seq<(Seq<char>, Seq<char>)> {
    Seq::new(v.len(), |i: int| (v[i].0@, v[i].1@))
}

fn bind(source: String, target: &str) -> (r: DockerBindMount)
    ensures
        r.deep_view() == (source@, target@, false),
{
    DockerBindMount { source, target: owned(target), read_only: false }
}

fn push_label(labels: &mut Vec<(String, String)>, k: &str, v: String)
    ensures
        label_pairs(final(labels)@) == label_pairs(old(labels)@).push((k@, v@)),
{
    labels.push((owned(k), v));
    proof {
        assert(label_pairs(labels@) =~= label_pairs(old(labels)@).push((k@, v@)));
    }
}

/// The shell probe of a database container, when its engine has one.
pub open spec fn db_health_test(db: ManagedDatabase) -> Option<Seq<Seq<char>>> {
    if health_check_text(db).len() == 0 {
        None
    } else {
        Some(seq!["CMD-SHELL"@, health_check_text(db)])
    }
}

/// Plans the database container. The database's host is first stored
/// normalized; a memory limit above `i64::MAX` is refused.
pub fn plan_database_container(db: &mut ManagedDatabase) -> (r: Result<DatabaseContainerPlan, String>)
    ensures
        final(db).internal_host@ == normalized_host(old(db).internal_host@),
        *final(db) == (ManagedDatabase { internal_host: final(db).internal_host, ..*old(db) }),
        r is Err <==> old(db).memory_limit > i64::MAX,
        r matches Err(e) ==> e@ == invalid_value_text(
            "database memory_limit"@,
            dec(old(db).memory_limit as nat),
        ),
        r matches Ok(p) ==> {
            let d = *final(db);
            &&& p.name@ == "containr-db-"@ + uuid_text(d.id)
            &&& p.image@ == crate::managed::db_image_repo(d.db_type) + d.version@
            &&& p.hostname@ == normalized_host(d.internal_host@)
            &&& p.network_name@ == service_network(d.group_id, d.id)
            &&& p.env.deep_view() == env_lines(db_container_env(d))
            &&& p.mounts.deep_view() == db_mounts(d)
            &&& p.cmd.deep_view() == db_cmd(d)
            &&& label_pairs(p.labels@) == db_labels(d)
            &&& p.memory_bytes == d.memory_limit
            &&& match d.external_port {
                None => p.port_binding is None,
                Some(h) => p.port_binding matches Some(b) && b.container_port@ == dec(d.port as nat)
                    + "/tcp"@ && b.host_ip@ == "0.0.0.0"@ && b.host_port@ == dec(h as nat),
            }
            &&& p.aliases.deep_view() == host_aliases(d.internal_host@)
            &&& match db_health_test(d) {
                None => p.healthcheck is None,
                Some(t) => p.healthcheck matches Some(h) && h.test.deep_view() == t
                    && h.interval_nanos == 10_000_000_000 && h.timeout_nanos == 5_000_000_000
                    && h.retries == 3,
            }
            &&& p.host_dirs.deep_view() == db_host_dirs(d)
        },
{
    let normalized = db.normalized_internal_host();
    db.internal_host = normalized;
    let memory_bytes = match u64_to_i64(db.memory_limit, "database memory_limit") {
        Ok(m) => m,
        Err(e) => return Err(e),
    };
    let d: &ManagedDatabase = db;
    let env_pairs = d.container_env_vars();
    let env = to_env_lines(&env_pairs);
    let pitr = d.db_type == DatabaseType::Postgresql && d.pitr_enabled;
    let mut mounts: Vec<DockerBindMount> = Vec::new();
    push_deep(&mut mounts, bind(d.host_data_path.dup(), d.container_mount_target()));
    let mut host_dirs: Vec<String> = Vec::new();
    push_deep(&mut host_dirs, d.host_data_path.dup());
    let cmd = if pitr {
        push_deep(&mut mounts, bind(d.pitr_root_path(), "/var/lib/postgresql/containr-pitr"));
        push_deep(&mut host_dirs, d.pitr_root_path());
        push_deep(&mut host_dirs, d.pitr_archive_path());
        push_deep(&mut host_dirs, d.pitr_backups_path());
        Some(build_postgres_pitr_command())
    } else {
        build_start_command(d)
    };
    proof {
        assert(mounts.deep_view() =~= db_mounts(*d));
        assert(host_dirs.deep_view() =~= db_host_dirs(*d));
    }
    let mut labels: Vec<(String, String)> = Vec::new();
    proof {
        assert(label_pairs(labels@) =~= Seq::<(Seq<char>, Seq<char>)>::empty());
    }
    push_label(&mut labels, "containr.type", owned("managed-database"));
    push_label(&mut labels, "containr.db.id", uuid_string(d.id));
    push_label(&mut labels, "containr.db.type", db_type_label_of(d.db_type));
    proof {
        assert(label_pairs(labels@) =~= db_labels(*d));
    }
    let probe = health_check_cmd(d);
    let healthcheck = if probe.unicode_len() > 0 {
        let mut test: Vec<String> = Vec::new();
        push_deep(&mut test, owned("CMD-SHELL"));
        push_deep(&mut test, probe);
        proof {
            assert(test.deep_view() =~= seq!["CMD-SHELL"@, health_check_text(*d)]);
        }
        Some(
            HealthConfigPlan {
                test,
                interval_nanos: 10_000_000_000,
                timeout_nanos: 5_000_000_000,
                retries: 3,
            },
        )
    } else {
        None
    };
    Ok(
        DatabaseContainerPlan {
            name: database_container_name(d),
            image: d.docker_image(),
            hostname: d.normalized_internal_host(),
            network_name: d.network_name(),
            env,
            mounts,
            cmd,
            labels,
            memory_bytes,
            port_binding: build_port_bindings(d.port, d.external_port),
            aliases: d.network_aliases(),
            healthcheck,
            host_dirs,
        },
    )
}

/// How the connection-pool frontend of a database is created, with the two
/// configuration files written before it starts.
pub struct ProxyFrontendPlan {
    pub name: String,
    pub image: String,
    pub hostname: String,
    pub network_name: String,
    pub config_dir: String,
    pub config_file: String,
    pub config_text: String,
    pub users_file: String,
    pub users_text: String,
    pub labels: Vec<(String, String)>,
    pub mounts: Vec<DockerBindMount>,
    pub memory_bytes: i64,
    pub nano_cpus: i64,
    pub port_binding: Option<PortBindingPlan>,
    pub aliases: Vec<String>,
    pub entrypoint: Vec<String>,
    pub cmd: Vec<String>,
}

/// The host name of a database's frontend.
pub open spec fn frontend_host(db: ManagedDatabase) -> Seq<char> {
    normalized_host(db.internal_host@) + "-proxy"@
}

/// The host directory of a database's frontend configuration.
pub open spec fn frontend_config_dir(db: ManagedDatabase) -> Seq<char> {
    path_join(root_of(db.host_data_path@), "pgdog"@)
}

/// The labels of a frontend container.
pub open spec fn frontend_labels(db: ManagedDatabase) -> Seq<(Seq<char>, Seq<char>)> {
    seq![
        ("containr.type"@, "managed-database-frontend"@),
        ("containr.db.id"@, uuid_text(db.id)),
        ("containr.db.type"@, "postgresql"@),
    ]
}

/// Plans the frontend of a database: none when the frontend is off, an
/// error for an engine other than postgres.
pub fn plan_proxy_frontend(db: &ManagedDatabase) -> (r: Result<Option<ProxyFrontendPlan>, String>)
    ensures
        !db.proxy_enabled ==> r matches Ok(None),
        db.proxy_enabled && db.db_type != DatabaseType::Postgresql ==> (r matches Err(e) && e@
            == proxy_unsupported_text()),
        db.proxy_enabled && db.db_type == DatabaseType::Postgresql ==> (r matches Ok(Some(p)) && {
            &&& p.name@ == "containr-db-proxy-"@ + uuid_text(db.id)
            &&& p.image@ == pgdog_image()
            &&& p.hostname@ == frontend_host(*db)
            &&& p.network_name@ == service_network(db.group_id, db.id)
            &&& p.config_dir@ == frontend_config_dir(*db)
            &&& p.config_file@ == path_join(frontend_config_dir(*db), "pgdog.toml"@)
            &&& p.config_text@ == pgdog_config_text(*db)
            &&& p.users_file@ == path_join(frontend_config_dir(*db), "users.toml"@)
            &&& p.users_text@ == pgdog_users_text(*db)
            &&& label_pairs(p.labels@) == frontend_labels(*db)
            &&& p.mounts.deep_view() == seq![(frontend_config_dir(*db), pgdog_config_dir(), false)]
            &&& p.memory_bytes == DATABASE_PROXY_MEMORY_LIMIT_BYTES
            &&& p.nano_cpus == DATABASE_PROXY_NANO_CPUS
            &&& match db.proxy_external_port {
                None => p.port_binding is None,
                Some(h) => p.port_binding matches Some(b) && b.container_port@ == dec(
                    POSTGRES_PROXY_PORT as nat,
                ) + "/tcp"@ && b.host_ip@ == "0.0.0.0"@ && b.host_port@ == dec(h as nat),
            }
            &&& p.aliases.deep_view() == seq![frontend_host(*db)]
            &&& p.entrypoint.deep_view() == seq![pgdog_binary_path()]
            &&& p.cmd.deep_view() == seq![
                "--config"@,
                pgdog_config_path(),
                "--users"@,
                pgdog_users_path(),
            ]
        }),
{
    if !db.proxy_enabled {
        return Ok(None);
    }
    if db.db_type != DatabaseType::Postgresql {
        return Err(owned("pgdog proxy is only supported for postgresql"));
    }
    let host = match db.proxy_internal_host() {
        Some(h) => h,
        None => return Err(owned("proxy host is not available")),
    };
    let config_dir = db.proxy_config_path();
    let mut labels: Vec<(String, String)> = Vec::new();
    proof {
        assert(label_pairs(labels@) =~= Seq::<(Seq<char>, Seq<char>)>::empty());
    }
    push_label(&mut labels, "containr.type", owned("managed-database-frontend"));
    push_label(&mut labels, "containr.db.id", uuid_string(db.id));
    push_label(&mut labels, "containr.db.type", owned("postgresql"));
    proof {
        assert(label_pairs(labels@) =~= frontend_labels(*db));
    }
    let mut mounts: Vec<DockerBindMount> = Vec::new();
    push_deep(&mut mounts, bind(config_dir.dup(), "/etc/pgdog"));
    let mut aliases: Vec<String> = Vec::new();
    push_deep(&mut aliases, host.dup());
    proof {
        assert(mounts.deep_view() =~= seq![(frontend_config_dir(*db), pgdog_config_dir(), false)]);
        assert(aliases.deep_view() =~= seq![frontend_host(*db)]);
    }
    Ok(
        Some(
            ProxyFrontendPlan {
                name: proxy_container_name(db),
                image: owned("ghcr.io/pgdogdev/pgdog:v0.1.6"),
                hostname: host,
                network_name: db.network_name(),
                config_file: join_path(config_dir.as_str(), "pgdog.toml"),
                users_file: join_path(config_dir.as_str(), "users.toml"),
                config_dir,
                config_text: render_pgdog_config(db),
                users_text: render_pgdog_users(db),
                labels,
                mounts,
                memory_bytes: DATABASE_PROXY_MEMORY_LIMIT_BYTES,
                nano_cpus: DATABASE_PROXY_NANO_CPUS,
                port_binding: build_port_bindings(POSTGRES_PROXY_PORT, db.proxy_external_port),
                aliases,
                entrypoint: build_pgdog_entrypoint(),
                cmd: build_pgdog_command(),
            },
        ),
    )
}

/// The command that dumps a database inside its container; qdrant has none.
pub open spec fn export_args(db: ManagedDatabase) -> Option<Seq<Seq<char>>> {
    let c = db.credentials;
    match db.db_type {
        DatabaseType::Postgresql => Some(
            seq!["pg_dump"@, "-U"@, c.username@, "-d"@, c.database_name@],
        ),
        DatabaseType::Mariadb => Some(
            seq!["mariadb-dump"@, "-u"@ + c.username@, "-p"@ + c.password@, c.database_name@],
        ),
        DatabaseType::Valkey => Some(seq!["valkey-cli"@, "-a"@, c.password@, "BGSAVE"@]),
        DatabaseType::Qdrant => None,
    }
}

/// The dump command of a database, or the error for qdrant, which is
/// exported through its api instead.
pub fn export_command(db: &ManagedDatabase) -> (r: Result<Vec<String>, String>)
    ensures
        match export_args(*db) {
            Some(a) => r matches Ok(v) && v.deep_view() == a,
            None => r matches Err(e) && e@ == "qdrant export requires api call"@,
        },
{
    let c = &db.credentials;
    let mut v: Vec<String> = Vec::new();
    match db.db_type {
        DatabaseType::Postgresql => {
            push_deep(&mut v, owned("pg_dump"));
            push_deep(&mut v, owned("-U"));
            push_deep(&mut v, c.username.dup());
            push_deep(&mut v, owned("-d"));
            push_deep(&mut v, c.database_name.dup());
        },
        DatabaseType::Mariadb => {
            push_deep(&mut v, owned("mariadb-dump"));
            push_deep(&mut v, concat2("-u", c.username.as_str()));
            push_deep(&mut v, concat2("-p", c.password.as_str()));
            push_deep(&mut v, c.database_name.dup());
        },
        DatabaseType::Valkey => {
            push_deep(&mut v, owned("valkey-cli"));
            push_deep(&mut v, owned("-a"));
            push_deep(&mut v, c.password.dup());
            push_deep(&mut v, owned("BGSAVE"));
        },
        DatabaseType::Qdrant => {
            return Err(owned("qdrant export requires api call"));
        },
    }
    proof {
        assert(v.deep_view() =~= export_args(*db).unwrap());
    }
    Ok(v)
}

/// The file a dump is written to: `<name>_<stamp>.sql` in `output_dir`.
pub open spec fn export_file(output_dir: Seq<char>, db_name: Seq<char>, stamp: Seq<char>) -> Seq<char> {
    path_join(output_dir, db_name + "_"@ + stamp + ".sql"@)
}

/// The dump file for the given time stamp.
pub fn export_file_path(output_dir: &str, db_name: &str, stamp: &str) -> (r: String)
    ensures
        r@ == export_file(output_dir@, db_name@, stamp@),
{
    let mut file = concat3(db_name, "_", stamp);
    file.append(".sql");
    join_path(output_dir, file.as_str())
}

/// The dump file stamped with the current time, formatted
/// `%Y%m%d_%H%M%S`.
pub fn export_file_path_now(output_dir: &str, db_name: &str) -> (r: String)
    ensures
        exists|stamp: Seq<char>|
            crate::dbctl::clock_stamp_split(stamp) && r@ == #[trigger] export_file(
                output_dir@,
                db_name@,
                stamp,
            ),
{
    proof {
        reveal_strlit("%Y%m%d_%H%M%S");
    }
    let stamp = crate::dbctl::utc_now_formatted("%Y%m%d_%H%M%S");
    export_file_path(output_dir, db_name, stamp.as_str())
}

/// The text that `String::from_utf8_lossy` makes of some bytes.
pub uninterp spec fn lossy_utf8(bytes: Seq<u8>) -> Seq<char>;

/// `String::from_utf8_lossy`: the text the bytes encode, each invalid
/// sequence replaced by U+FFFD. Stated here: the result is named, and on
/// valid UTF-8 it is the decoded text; what the replacement produces on
/// invalid input is left to the name.
#[verifier::external_body]
fn lossy_text(bytes: &[u8]) -> (r: String)
    ensures
        r@ == lossy_utf8(bytes@),
        valid_utf8(bytes@) ==> r@ == decode_utf8(bytes@),
{
    String::from_utf8_lossy(bytes).to_string()
}

/// The message reported for the output of a command run in a container:
/// the trimmed text, or "no command output" when there is none.
pub open spec fn exec_output_message_text(text: Seq<char>) -> Seq<char> {
    if trim(text).len() == 0 {
        "no command output"@
    } else {
        trim(text)
    }
}

/// The message for a command's output text.
pub fn exec_output_message(text: &str) -> (r: String)
    ensures
        r@ == exec_output_message_text(text@),
{
    let t = trim_owned(text);
    if t.unicode_len() == 0 {
        owned("no command output")
    } else {
        t
    }
}

/// The message for a command's raw output bytes.
pub fn trim_exec_output(output: &[u8]) -> (r: String)
    ensures
        r@ == exec_output_message_text(lossy_utf8(output@)),
        valid_utf8(output@) ==> r@ == exec_output_message_text(decode_utf8(output@)),
{
    let text = lossy_text(output);
    exec_output_message(text.as_str())
}

} // verus!
