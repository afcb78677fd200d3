//! How a service is laid out in the relational store: its row in the
//! services table and its rows in the child tables, and how a service is
//! read back from them.
use vstd::prelude::*;

use crate::dup::{push_deep, Dup};
use crate::ids::Timestamp;
use crate::models::{
    BuildArg, ContainerService, EnvVar, HealthCheck, HealthCheckModel, KeyValueModel, MountModel,
    RestartPolicy, ServiceModel, ServiceMount, ServiceRegistryAuth, ServiceType,
};
use crate::store::{
    bool_to_int, decode_restart_policy, decode_service_type, encode_restart_policy,
    encode_service_type, int_text, int_to_bool, invalid_value_text, lemma_restart_policy_codes_distinct,
    lemma_service_type_codes_distinct, parse_u16, parse_u32, restart_policy_code, service_type_code,
    transpose_i64_to_u64, transpose_u64_to_i64,
};
use crate::text::{owned};

verus! {

/// The row of a service in the services table, with its identifiers and
/// instants as the driver binds them; `cpu_limit_bits` is the bit pattern
/// of the real-valued column.
pub struct ServiceRecord {
    pub id: u128,
    pub app_id: u128,
    pub name: String,
    pub image: String,
    pub service_type: Option<String>,
    pub port: i64,
    pub expose_http: i64,
    pub replicas: i64,
    pub memory_limit: Option<i64>,
    pub cpu_limit_bits: Option<u64>,
    pub health_check_path: Option<String>,
    pub health_check_interval_secs: Option<i64>,
    pub health_check_timeout_secs: Option<i64>,
    pub health_check_retries: Option<i64>,
    pub restart_policy: String,
    pub build_context: Option<String>,
    pub dockerfile_path: Option<String>,
    pub build_target: Option<String>,
    pub working_dir: Option<String>,
    pub created_at: Timestamp,
    pub updated_at: Timestamp,
}

/// The rows of a service in the child tables, each list in position order:
/// key/value rows carry the secret flag as an integer, mount rows the
/// read-only flag.
pub struct ServiceRows {
    pub depends_on: Vec<String>,
    pub additional_ports: Vec<i64>,
    pub env_vars: Vec<(String, String, i64)>,
    pub domains: Vec<String>,
    pub build_args: Vec<(String, String, i64)>,
    pub command: Vec<String>,
    pub entrypoint: Vec<String>,
    pub registry_auth: Option<(Option<String>, String, String)>,
    pub mounts: Vec<(String, String, i64)>,
}

/// A stored flag: 1 for true, 0 for false.
pub open spec fn flag(b: bool) -> i64 {
    if b {
        1
    } else {
        0
    }
}

/// Triples of texts and an integer, as character sequences.
pub open spec fn triples(v: Seq<(String, String, i64)>) -> Seq<(Seq<char>, Seq<char>, i64)> {
    Seq::new(v.len(), |i: int| (v[i].0@, v[i].1@, v[i].2))
}

/// Key/value rows of key/value pairs.
pub open spec fn kv_rows(v: Seq<KeyValueModel>) -> Seq<(Seq<char>, Seq<char>, i64)> {
    Seq::new(v.len(), |i: int| (v[i].key, v[i].value, flag(v[i].secret)))
}

/// Key/value pairs read from key/value rows.
pub open spec fn kv_from_rows(v: Seq<(Seq<char>, Seq<char>, i64)>) -> Seq<KeyValueModel> {
    Seq::new(v.len(), |i: int| KeyValueModel { key: v[i].0, value: v[i].1, secret: v[i].2 != 0 })
}

/// Mount rows of mounts.
pub open spec fn mount_rows(v: Seq<MountModel>) -> Seq<(Seq<char>, Seq<char>, i64)> {
    Seq::new(v.len(), |i: int| (v[i].name, v[i].target, flag(v[i].read_only)))
}

/// Mounts read from mount rows.
pub open spec fn mounts_from_rows(v: Seq<(Seq<char>, Seq<char>, i64)>) -> Seq<MountModel> {
    Seq::new(v.len(), |i: int| MountModel { name: v[i].0, target: v[i].1, read_only: v[i].2 != 0 })
}

/// The argument rows of an optional argument list.
pub open spec fn arg_rows(v: Option<Seq<Seq<char>>>) -> Seq<Seq<char>> {
    match v {
        Some(a) => a,
        None => Seq::empty(),
    }
}

/// An argument list read from its rows: none when there are no rows.
pub open spec fn args_from_rows(v: Seq<Seq<char>>) -> Option<Seq<Seq<char>>> {
    if v.len() == 0 {
        None
    } else {
        Some(v)
    }
}

/// The stored form of an optional count.
pub open spec fn opt_i64(v: Option<u64>) -> Option<i64> {
    match v {
        Some(m) => Some(m as i64),
        None => None,
    }
}

/// The registry row of registry credentials.
pub open spec fn auth_row(a: Option<crate::models::RegistryAuthModel>) -> Option<
    (Option<Seq<char>>, Seq<char>, Seq<char>),
> {
    match a {
        Some(x) => Some((x.server, x.username, x.password)),
        None => None,
    }
}

/// The registry row as character sequences.
pub open spec fn auth_row_view(a: Option<(Option<String>, String, String)>) -> Option<
    (Option<Seq<char>>, Seq<char>, Seq<char>),
> {
    match a {
        Some(x) => Some((x.0.deep_view(), x.1@, x.2@)),
        None => None,
    }
}

/// `rec` and `rows` are what storing `s` writes.
pub open spec fn encodes(s: ContainerService, rec: ServiceRecord, rows: ServiceRows) -> bool {
    let m = s.deep_view();
    &&& rec.id == m.id
    &&& rec.app_id == m.app_id
    &&& rec.name@ == m.name
    &&& rec.image@ == m.image
    &&& rec.service_type.deep_view() == Some(service_type_code(m.service_type))
    &&& rec.port == m.port as i64
    &&& rec.expose_http == flag(m.expose_http)
    &&& rec.replicas == m.replicas as i64
    &&& (m.memory_limit matches Some(x) ==> x <= i64::MAX)
    &&& rec.memory_limit == opt_i64(m.memory_limit)
    &&& rec.cpu_limit_bits == m.cpu_limit_bits
    &&& match m.health_check {
        Some(h) => rec.health_check_path.deep_view() == Some(h.path)
            && rec.health_check_interval_secs == Some(h.interval_secs as i64)
            && rec.health_check_timeout_secs == Some(h.timeout_secs as i64)
            && rec.health_check_retries == Some(h.retries as i64),
        None => rec.health_check_path is None && rec.health_check_interval_secs is None
            && rec.health_check_timeout_secs is None && rec.health_check_retries is None,
    }
    &&& rec.restart_policy@ == restart_policy_code(m.restart_policy)
    &&& rec.build_context.deep_view() == m.build_context
    &&& rec.dockerfile_path.deep_view() == m.dockerfile_path
    &&& rec.build_target.deep_view() == m.build_target
    &&& rec.working_dir.deep_view() == m.working_dir
    &&& rec.created_at == m.created_at
    &&& rec.updated_at == m.updated_at
    &&& rows.depends_on.deep_view() == m.depends_on
    &&& rows.additional_ports@ == m.additional_ports.map_values(|p: u16| p as i64)
    &&& triples(rows.env_vars@) == kv_rows(m.env_vars)
    &&& rows.domains.deep_view() == m.domains
    &&& triples(rows.build_args@) == kv_rows(m.build_args)
    &&& rows.command.deep_view() == arg_rows(m.command)
    &&& rows.entrypoint.deep_view() == arg_rows(m.entrypoint)
    &&& auth_row_view(rows.registry_auth) == auth_row(m.registry_auth)
    &&& triples(rows.mounts@) == mount_rows(m.mounts)
}

fn kv_rows_of_env(v: &Vec<EnvVar>) -> (r: Vec<(String, String, i64)>)
    ensures
        triples(r@) == kv_rows(v.deep_view()),
{
    let mut r: Vec<(String, String, i64)> = Vec::new();
    let mut i: usize = 0;
    while i < v.len()
        invariant
            i <= v@.len(),
            triples(r@) == kv_rows(v.deep_view()).take(i as int),
        decreases v.len() - i,
    {
        let x = v[i].key.dup();
        let y = v[i].value.dup();
        let f = bool_to_int(v[i].secret);
        let ghost before = r@;
        r.push((x, y, f));
        proof {
            let want = kv_rows(v.deep_view());
            assert(want[i as int] == (x@, y@, f));
            assert(triples(r@) =~= triples(before).push((x@, y@, f)));
            assert(want.take(i + 1) =~= want.take(i as int).push(want[i as int]));
        }
        i = i + 1;
    }
    proof {
        assert(kv_rows(v.deep_view()).take(i as int) =~= kv_rows(v.deep_view()));
    }
    r
}

fn kv_rows_of_args(v: &Vec<BuildArg>) -> (r: Vec<(String, String, i64)>)
    ensures
        triples(r@) == kv_rows(v.deep_view()),
{
    let mut r: Vec<(String, String, i64)> = Vec::new();
    let mut i: usize = 0;
    while i < v.len()
        invariant
            i <= v@.len(),
            triples(r@) == kv_rows(v.deep_view()).take(i as int),
        decreases v.len() - i,
    {
        let x = v[i].key.dup();
        let y = v[i].value.dup();
        let f = bool_to_int(v[i].secret);
        let ghost before = r@;
        r.push((x, y, f));
        proof {
            let want = kv_rows(v.deep_view());
            assert(want[i as int] == (x@, y@, f));
            assert(triples(r@) =~= triples(before).push((x@, y@, f)));
            assert(want.take(i + 1) =~= want.take(i as int).push(want[i as int]));
        }
        i = i + 1;
    }
    proof {
        assert(kv_rows(v.deep_view()).take(i as int) =~= kv_rows(v.deep_view()));
    }
    r
}

fn rows_of_mounts(v: &Vec<ServiceMount>) -> (r: Vec<(String, String, i64)>)
    ensures
        triples(r@) == mount_rows(v.deep_view()),
{
    let mut r: Vec<(String, String, i64)> = Vec::new();
    let mut i: usize = 0;
    while i < v.len()
        invariant
            i <= v@.len(),
            triples(r@) == mount_rows(v.deep_view()).take(i as int),
        decreases v.len() - i,
    {
        let x = v[i].name.dup();
        let y = v[i].target.dup();
        let f = bool_to_int(v[i].read_only);
        let ghost before = r@;
        r.push((x, y, f));
        proof {
            let want = mount_rows(v.deep_view());
            assert(want[i as int] == (x@, y@, f));
            assert(triples(r@) =~= triples(before).push((x@, y@, f)));
            assert(want.take(i + 1) =~= want.take(i as int).push(want[i as int]));
        }
        i = i + 1;
    }
    proof {
        assert(mount_rows(v.deep_view()).take(i as int) =~= mount_rows(v.deep_view()));
    }
    r
}

fn rows_of_ports(v: &Vec<u16>) -> (r: Vec<i64>)
    ensures
        r@ == v@.map_values(|p: u16| p as i64),
{
    let mut r: Vec<i64> = Vec::new();
    let mut i: usize = 0;
    while i < v.len()
        invariant
            i <= v@.len(),
            r@ == v@.map_values(|p: u16| p as i64).take(i as int),
        decreases v.len() - i,
    {
        r.push(v[i] as i64);
        proof {
            assert(r@ =~= v@.map_values(|p: u16| p as i64).take(i + 1));
        }
        i = i + 1;
    }
    proof {
        assert(v@.map_values(|p: u16| p as i64).take(i as int) =~= v@.map_values(|p: u16| p as i64));
    }
    r
}

fn arg_rows_of(v: &Option<Vec<String>>) -> (r: Vec<String>)
    ensures
        r.deep_view() == arg_rows(v.deep_view()),
{
    match v {
        Some(a) => a.dup(),
        None => {
            let r: Vec<String> = Vec::new();
            proof {
                assert(r.deep_view() =~= Seq::<Seq<char>>::empty());
            }
            r
        },
    }
}

/// What storing a service writes: its row and its child rows. A memory
/// limit above `i64::MAX` cannot be stored.
pub fn encode_service(s: &ContainerService) -> (r: Result<(ServiceRecord, ServiceRows), String>)
    ensures
        match s.memory_limit {
            Some(m) if m > i64::MAX => r matches Err(e) && e@ == invalid_value_text(
                "service memory_limit"@,
                crate::text::dec(m as nat),
            ),
            _ => r matches Ok((rec, rows)) && encodes(*s, rec, rows),
        },
{
    let memory_limit = match transpose_u64_to_i64(s.memory_limit, "service memory_limit") {
        Ok(m) => m,
        Err(e) => return Err(e),
    };
    let (path, interval, timeout, retries) = match &s.health_check {
        Some(h) => (
            Some(h.path.dup()),
            Some(h.interval_secs as i64),
            Some(h.timeout_secs as i64),
            Some(h.retries as i64),
        ),
        None => (None, None, None, None),
    };
    let registry_auth = match &s.registry_auth {
        Some(a) => Some((a.server.dup(), a.username.dup(), a.password.dup())),
        None => None,
    };
    let rec = ServiceRecord {
        id: s.id,
        app_id: s.app_id,
        name: s.name.dup(),
        image: s.image.dup(),
        service_type: Some(owned(encode_service_type(s.service_type))),
        port: s.port as i64,
        expose_http: bool_to_int(s.expose_http),
        replicas: s.replicas as i64,
        memory_limit,
        cpu_limit_bits: s.cpu_limit_bits,
        health_check_path: path,
        health_check_interval_secs: interval,
        health_check_timeout_secs: timeout,
        health_check_retries: retries,
        restart_policy: owned(encode_restart_policy(s.restart_policy)),
        build_context: s.build_context.dup(),
        dockerfile_path: s.dockerfile_path.dup(),
        build_target: s.build_target.dup(),
        working_dir: s.working_dir.dup(),
        created_at: s.created_at,
        updated_at: s.updated_at,
    };
    let rows = ServiceRows {
        depends_on: s.depends_on.dup(),
        additional_ports: rows_of_ports(&s.additional_ports),
        env_vars: kv_rows_of_env(&s.env_vars),
        domains: s.domains.dup(),
        build_args: kv_rows_of_args(&s.build_args),
        command: arg_rows_of(&s.command),
        entrypoint: arg_rows_of(&s.entrypoint),
        registry_auth,
        mounts: rows_of_mounts(&s.mounts),
    };
    Ok((rec, rows))
}

/// A stored integer that fits a `u16`.
pub open spec fn u16_ok(v: i64) -> bool {
    0 <= v <= u16::MAX
}

/// A stored integer that fits a `u32`.
pub open spec fn u32_ok(v: i64) -> bool {
    0 <= v <= u32::MAX
}

/// The problem with the stored health check, if any: only a check with all
/// four columns set is read, and its numbers must fit.
pub open spec fn health_problem(rec: ServiceRecord) -> Option<Seq<char>> {
    match (
        rec.health_check_path,
        rec.health_check_interval_secs,
        rec.health_check_timeout_secs,
        rec.health_check_retries,
    ) {
        (Some(_), Some(i), Some(t), Some(n)) => if !u32_ok(i) {
            Some(invalid_value_text("health_check_interval_secs"@, int_text(i)))
        } else if !u32_ok(t) {
            Some(invalid_value_text("health_check_timeout_secs"@, int_text(t)))
        } else if !u32_ok(n) {
            Some(invalid_value_text("health_check_retries"@, int_text(n)))
        } else {
            None
        },
        _ => None,
    }
}

/// The first stored port that does not fit a `u16`.
pub open spec fn first_bad_port(ports: Seq<i64>) -> Option<i64>
    decreases ports.len(),
{
    if ports.len() == 0 {
        None
    } else if !u16_ok(ports[0]) {
        Some(ports[0])
    } else {
        first_bad_port(ports.drop_first())
    }
}

/// Some service type is stored under `code`.
pub open spec fn known_service_type(code: Seq<char>) -> bool {
    exists|x: ServiceType| service_type_code(x) == code
}

/// Some restart policy is stored under `code`.
pub open spec fn known_restart_policy(code: Seq<char>) -> bool {
    exists|x: RestartPolicy| restart_policy_code(x) == code
}

/// The first problem met reading a service back from its rows, in the
/// order the columns are read; `None` when it reads back.
pub open spec fn decode_problem(rec: ServiceRecord, rows: ServiceRows) -> Option<Seq<char>> {
    if health_problem(rec) is Some {
        health_problem(rec)
    } else if rec.service_type matches Some(code) && !known_service_type(code@) {
        Some(invalid_value_text("service_type"@, rec.service_type->0@))
    } else if !u16_ok(rec.port) {
        Some(invalid_value_text("service port"@, int_text(rec.port)))
    } else if first_bad_port(rows.additional_ports@) is Some {
        Some(
            invalid_value_text(
                "service additional port"@,
                int_text(first_bad_port(rows.additional_ports@)->0),
            ),
        )
    } else if !u32_ok(rec.replicas) {
        Some(invalid_value_text("service replicas"@, int_text(rec.replicas)))
    } else if rec.memory_limit matches Some(m) && m < 0 {
        Some(invalid_value_text("service memory_limit"@, int_text(rec.memory_limit->0)))
    } else if !known_restart_policy(rec.restart_policy@) {
        Some(invalid_value_text("restart_policy"@, rec.restart_policy@))
    } else {
        None
    }
}

/// The service type of a row: the stored one, else the one the legacy
/// columns imply.
pub open spec fn row_service_type(rec: ServiceRecord) -> ServiceType {
    match rec.service_type {
        Some(code) => choose|x: ServiceType| service_type_code(x) == code@,
        None => if rec.expose_http != 0 {
            ServiceType::WebService
        } else if rec.port as u16 == 0 {
            ServiceType::BackgroundWorker
        } else {
            ServiceType::PrivateService
        },
    }
}

/// The service read back from rows that have no problem.
pub open spec fn decoded(rec: ServiceRecord, rows: ServiceRows) -> ServiceModel {
    ServiceModel {
        id: rec.id,
        app_id: rec.app_id,
        name: rec.name@,
        image: rec.image@,
        service_type: row_service_type(rec),
        port: rec.port as u16,
        expose_http: rec.expose_http != 0,
        additional_ports: rows.additional_ports@.map_values(|p: i64| p as u16),
        replicas: rec.replicas as u32,
        memory_limit: match rec.memory_limit {
            Some(m) => Some(m as u64),
            None => None,
        },
        cpu_limit_bits: rec.cpu_limit_bits,
        depends_on: rows.depends_on.deep_view(),
        health_check: match (
            rec.health_check_path,
            rec.health_check_interval_secs,
            rec.health_check_timeout_secs,
            rec.health_check_retries,
        ) {
            (Some(p), Some(i), Some(t), Some(n)) => Some(
                HealthCheckModel {
                    path: p@,
                    interval_secs: i as u32,
                    timeout_secs: t as u32,
                    retries: n as u32,
                },
            ),
            _ => None,
        },
        restart_policy: choose|x: RestartPolicy| restart_policy_code(x) == rec.restart_policy@,
        registry_auth: match rows.registry_auth {
            Some(a) => Some(
                crate::models::RegistryAuthModel {
                    server: a.0.deep_view(),
                    username: a.1@,
                    password: a.2@,
                },
            ),
            None => None,
        },
        env_vars: kv_from_rows(triples(rows.env_vars@)),
        domains: rows.domains.deep_view(),
        build_context: rec.build_context.deep_view(),
        dockerfile_path: rec.dockerfile_path.deep_view(),
        build_target: rec.build_target.deep_view(),
        build_args: kv_from_rows(triples(rows.build_args@)),
        command: args_from_rows(rows.command.deep_view()),
        entrypoint: args_from_rows(rows.entrypoint.deep_view()),
        working_dir: rec.working_dir.deep_view(),
        schedule: None,
        mounts: mounts_from_rows(triples(rows.mounts@)),
        created_at: rec.created_at,
        updated_at: rec.updated_at,
    }
}

fn env_from_rows(v: &Vec<(String, String, i64)>) -> (r: Vec<EnvVar>)
    ensures
        r.deep_view() == kv_from_rows(triples(v@)),
{
    let ghost want = kv_from_rows(triples(v@));
    let mut r: Vec<EnvVar> = Vec::new();
    let mut i: usize = 0;
    while i < v.len()
        invariant
            i <= v@.len(),
            want == kv_from_rows(triples(v@)),
            r.deep_view() == want.take(i as int),
        decreases v.len() - i,
    {
        let e = EnvVar { key: v[i].0.dup(), value: v[i].1.dup(), secret: int_to_bool(v[i].2) };
        proof {
            assert(e.deep_view() == want[i as int]);
        }
        push_deep(&mut r, e);
        proof {
            assert(want.take(i + 1) =~= want.take(i as int).push(want[i as int]));
        }
        i = i + 1;
    }
    proof {
        assert(want.take(i as int) =~= want);
    }
    r
}

fn build_args_from_rows(v: &Vec<(String, String, i64)>) -> (r: Vec<BuildArg>)
    ensures
        r.deep_view() == kv_from_rows(triples(v@)),
{
    let ghost want = kv_from_rows(triples(v@));
    let mut r: Vec<BuildArg> = Vec::new();
    let mut i: usize = 0;
    while i < v.len()
        invariant
            i <= v@.len(),
            want == kv_from_rows(triples(v@)),
            r.deep_view() == want.take(i as int),
        decreases v.len() - i,
    {
        let e = BuildArg { key: v[i].0.dup(), value: v[i].1.dup(), secret: int_to_bool(v[i].2) };
        proof {
            assert(e.deep_view() == want[i as int]);
        }
        push_deep(&mut r, e);
        proof {
            assert(want.take(i + 1) =~= want.take(i as int).push(want[i as int]));
        }
        i = i + 1;
    }
    proof {
        assert(want.take(i as int) =~= want);
    }
    r
}

fn mounts_from(v: &Vec<(String, String, i64)>) -> (r: Vec<ServiceMount>)
    ensures
        r.deep_view() == mounts_from_rows(triples(v@)),
{
    let ghost want = mounts_from_rows(triples(v@));
    let mut r: Vec<ServiceMount> = Vec::new();
    let mut i: usize = 0;
    while i < v.len()
        invariant
            i <= v@.len(),
            want == mounts_from_rows(triples(v@)),
            r.deep_view() == want.take(i as int),
        decreases v.len() - i,
    {
        let e = ServiceMount {
            name: v[i].0.dup(),
            target: v[i].1.dup(),
            read_only: int_to_bool(v[i].2),
        };
        proof {
            assert(e.deep_view() == want[i as int]);
        }
        push_deep(&mut r, e);
        proof {
            assert(want.take(i + 1) =~= want.take(i as int).push(want[i as int]));
        }
        i = i + 1;
    }
    proof {
        assert(want.take(i as int) =~= want);
    }
    r
}

proof fn lemma_first_bad_port(ports: Seq<i64>, i: int)
    requires
        0 <= i <= ports.len(),
        forall|j: int| 0 <= j < i ==> u16_ok(#[trigger] ports[j]),
    ensures
        first_bad_port(ports) == first_bad_port(ports.skip(i)),
    decreases i,
{
    if i > 0 {
        assert(u16_ok(ports[0]));
        assert(ports.drop_first().skip(i - 1) =~= ports.skip(i));
        assert forall|j: int| 0 <= j < i - 1 implies u16_ok(#[trigger] ports.drop_first()[j]) by {
            assert(ports.drop_first()[j] == ports[j + 1]);
        }
        lemma_first_bad_port(ports.drop_first(), i - 1);
    } else {
        assert(ports.skip(0) =~= ports);
    }
}

fn ports_from_rows(v: &Vec<i64>) -> (r: Result<Vec<u16>, String>)
    ensures
        match first_bad_port(v@) {
            Some(p) => r matches Err(e) && e@ == invalid_value_text(
                "service additional port"@,
                int_text(p),
            ),
            None => r matches Ok(ports) && ports@ == v@.map_values(|p: i64| p as u16),
        },
{
    let ghost want = v@.map_values(|p: i64| p as u16);
    let mut r: Vec<u16> = Vec::new();
    let mut i: usize = 0;
    while i < v.len()
        invariant
            i <= v@.len(),
            want == v@.map_values(|p: i64| p as u16),
            r@ == want.take(i as int),
            forall|j: int| 0 <= j < i ==> u16_ok(#[trigger] v@[j]),
        decreases v.len() - i,
    {
        proof {
            lemma_first_bad_port(v@, i as int);
            assert(v@.skip(i as int)[0] == v@[i as int]);
        }
        let p = match parse_u16(v[i], "service additional port") {
            Ok(p) => p,
            Err(e) => return Err(e),
        };
        r.push(p);
        proof {
            assert(want.take(i + 1) =~= want.take(i as int).push(want[i as int]));
        }
        i = i + 1;
    }
    proof {
        lemma_first_bad_port(v@, i as int);
        assert(v@.skip(i as int).len() == 0);
        assert(want.take(i as int) =~= want);
    }
    Ok(r)
}

fn args_from(v: &Vec<String>) -> (r: Option<Vec<String>>)
    ensures
        r.deep_view() == args_from_rows(v.deep_view()),
{
    if v.len() == 0 {
        None
    } else {
        Some(v.dup())
    }
}

/// Reads a service back from its rows: the columns are read in order, and
/// the first number out of its range or unknown stored name is the error.
pub fn decode_service(rec: &ServiceRecord, rows: &ServiceRows) -> (r: Result<ContainerService, String>)
    ensures
        match decode_problem(*rec, *rows) {
            Some(e) => r matches Err(x) && x@ == e,
            None => r matches Ok(s) && s.deep_view() == decoded(*rec, *rows),
        },
{
    let health_check = match (
        &rec.health_check_path,
        rec.health_check_interval_secs,
        rec.health_check_timeout_secs,
        rec.health_check_retries,
    ) {
        (Some(path), Some(i), Some(t), Some(n)) => {
            let interval_secs = match parse_u32(i, "health_check_interval_secs") {
                Ok(x) => x,
                Err(e) => return Err(e),
            };
            let timeout_secs = match parse_u32(t, "health_check_timeout_secs") {
                Ok(x) => x,
                Err(e) => return Err(e),
            };
            let retries = match parse_u32(n, "health_check_retries") {
                Ok(x) => x,
                Err(e) => return Err(e),
            };
            Some(HealthCheck { path: path.dup(), interval_secs, timeout_secs, retries })
        },
        _ => None,
    };
    let service_type = match &rec.service_type {
        Some(code) => match decode_service_type(code.as_str()) {
            Some(x) => {
                proof {
                    let c = choose|y: ServiceType| service_type_code(y) == code@;
                    lemma_service_type_codes_distinct(x, c);
                }
                x
            },
            None => {
                return Err(crate::store::invalid_value("service_type", code.as_str()));
            },
        },
        None => ContainerService::infer_service_type(int_to_bool(rec.expose_http), rec.port as u16),
    };
    let port = match parse_u16(rec.port, "service port") {
        Ok(p) => p,
        Err(e) => return Err(e),
    };
    let additional_ports = match ports_from_rows(&rows.additional_ports) {
        Ok(p) => p,
        Err(e) => return Err(e),
    };
    let replicas = match parse_u32(rec.replicas, "service replicas") {
        Ok(x) => x,
        Err(e) => return Err(e),
    };
    let memory_limit = match transpose_i64_to_u64(rec.memory_limit, "service memory_limit") {
        Ok(x) => x,
        Err(e) => return Err(e),
    };
    let restart_policy = match decode_restart_policy(rec.restart_policy.as_str()) {
        Some(x) => {
            proof {
                let c = choose|y: RestartPolicy| restart_policy_code(y) == rec.restart_policy@;
                lemma_restart_policy_codes_distinct(x, c);
            }
            x
        },
        None => {
            return Err(crate::store::invalid_value("restart_policy", rec.restart_policy.as_str()));
        },
    };
    let registry_auth = match &rows.registry_auth {
        Some(a) => Some(
            ServiceRegistryAuth { server: a.0.dup(), username: a.1.dup(), password: a.2.dup() },
        ),
        None => None,
    };
    let s = ContainerService {
        id: rec.id,
        app_id: rec.app_id,
        name: rec.name.dup(),
        image: rec.image.dup(),
        service_type,
        port,
        expose_http: int_to_bool(rec.expose_http),
        additional_ports,
        replicas,
        memory_limit,
        cpu_limit_bits: rec.cpu_limit_bits,
        depends_on: rows.depends_on.dup(),
        health_check,
        restart_policy,
        registry_auth,
        env_vars: env_from_rows(&rows.env_vars),
        domains: rows.domains.dup(),
        build_context: rec.build_context.dup(),
        dockerfile_path: rec.dockerfile_path.dup(),
        build_target: rec.build_target.dup(),
        build_args: build_args_from_rows(&rows.build_args),
        command: args_from(&rows.command),
        entrypoint: args_from(&rows.entrypoint),
        working_dir: rec.working_dir.dup(),
        schedule: None,
        mounts: mounts_from(&rows.mounts),
        created_at: rec.created_at,
        updated_at: rec.updated_at,
    };
    proof {
        assert(s.deep_view() =~= decoded(*rec, *rows));
    }
    Ok(s)
}

/// The form a service has once stored and read back: an empty command or
/// entrypoint reads back as none, and the schedule is not stored.
pub open spec fn stored_form(m: ServiceModel) -> ServiceModel {
    ServiceModel {
        command: args_from_rows(arg_rows(m.command)),
        entrypoint: args_from_rows(arg_rows(m.entrypoint)),
        schedule: None,
        ..m
    }
}

proof fn lemma_ports_fit(ports: Seq<u16>)
    ensures
        first_bad_port(ports.map_values(|p: u16| p as i64)) is None,
    decreases ports.len(),
{
    let m = ports.map_values(|p: u16| p as i64);
    if ports.len() > 0 {
        lemma_ports_fit(ports.drop_first());
        assert(m.drop_first() =~= ports.drop_first().map_values(|p: u16| p as i64));
        assert(u16_ok(m[0]));
    }
}

/// A stored service reads back as its stored form: reading meets no
/// problem, and every field comes back but an empty command or entrypoint
/// (read back as none) and the schedule (not stored).
pub proof fn lemma_stored_service_reads_back(s: ContainerService, rec: ServiceRecord, rows: ServiceRows)
    requires
        encodes(s, rec, rows),
    ensures
        decode_problem(rec, rows) is None,
        decoded(rec, rows) == stored_form(s.deep_view()),
{
    let m = s.deep_view();
    lemma_ports_fit(m.additional_ports);
    assert(service_type_code(m.service_type) == rec.service_type->0@);
    assert(known_service_type(rec.service_type->0@));
    assert(restart_policy_code(m.restart_policy) == rec.restart_policy@);
    assert(known_restart_policy(rec.restart_policy@));
    let st = choose|x: ServiceType| service_type_code(x) == rec.service_type->0@;
    lemma_service_type_codes_distinct(st, m.service_type);
    let rp = choose|x: RestartPolicy| restart_policy_code(x) == rec.restart_policy@;
    lemma_restart_policy_codes_distinct(rp, m.restart_policy);
    let d = decoded(rec, rows);
    let f = stored_form(m);
    assert(d.additional_ports =~= f.additional_ports);
    assert(d.env_vars =~= f.env_vars) by {
        assert(triples(rows.env_vars@) == kv_rows(m.env_vars));
    }
    assert(d.build_args =~= f.build_args) by {
        assert(triples(rows.build_args@) == kv_rows(m.build_args));
    }
    assert(d.mounts =~= f.mounts) by {
        assert(triples(rows.mounts@) == mount_rows(m.mounts));
    }
    assert(d.health_check == f.health_check);
    assert(d.registry_auth == f.registry_auth);
    assert(d =~= f);
}

} // verus!
