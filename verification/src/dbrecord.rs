//! How a managed database is laid out in the relational store, and how it
//! is read back.
use vstd::prelude::*;

use crate::dup::Dup;
use crate::ids::Timestamp;
use crate::managed::{
    DatabaseCredentials, DatabaseType, ManagedDatabase, ManagedQueue, QueueCredentials, QueueType,
    ServiceStatus,
};
use crate::store::{
    bool_to_int, database_type_code, decode_queue_type, encode_queue_type,
    lemma_queue_type_codes_distinct, queue_type_code, decode_database_type, decode_service_status,
    encode_database_type, encode_service_status, int_text, int_to_bool, invalid_value,
    invalid_value_text, lemma_database_type_codes_distinct, lemma_service_status_codes_distinct,
    parse_u16, parse_u64, service_status_code, transpose_i64_to_u16, u64_to_i64,
};
use crate::text::{dec, owned};

verus! {

/// The row of a managed database, with its identifiers and instants as the
/// driver binds them; `cpu_limit_bits` is the bit pattern of the
/// real-valued column.
pub struct DatabaseRecord {
    pub id: u128,
    pub owner_id: u128,
    pub name: String,
    pub db_type: String,
    pub version: String,
    pub container_id: Option<String>,
    pub volume_name: String,
    pub host_data_path: String,
    pub internal_host: String,
    pub port: i64,
    pub external_port: Option<i64>,
    pub pitr_enabled: i64,
    pub pitr_last_base_backup_at: Option<Timestamp>,
    pub pitr_last_base_backup_label: Option<String>,
    pub proxy_enabled: i64,
    pub proxy_external_port: Option<i64>,
    pub username: String,
    pub password: String,
    pub database_name: String,
    pub memory_limit: i64,
    pub cpu_limit_bits: u64,
    pub status: String,
    pub created_at: Timestamp,
    pub updated_at: Timestamp,
}

/// The stored form of an optional port.
pub open spec fn port_column(p: Option<u16>) -> Option<i64> {
    match p {
        Some(x) => Some(x as i64),
        None => None,
    }
}

fn port_column_of(p: Option<u16>) -> (r: Option<i64>)
    ensures
        r == port_column(p),
{
    match p {
        Some(x) => Some(x as i64),
        None => None,
    }
}

/// `rec` is what storing `db` writes.
pub open spec fn db_encodes(db: ManagedDatabase, rec: DatabaseRecord) -> bool {
    &&& rec.id == db.id
    &&& rec.owner_id == db.owner_id
    &&& rec.name@ == db.name@
    &&& rec.db_type@ == database_type_code(db.db_type)
    &&& rec.version@ == db.version@
    &&& rec.container_id.deep_view() == db.container_id.deep_view()
    &&& rec.volume_name@ == db.volume_name@
    &&& rec.host_data_path@ == db.host_data_path@
    &&& rec.internal_host@ == db.internal_host@
    &&& rec.port == db.port as i64
    &&& rec.external_port == port_column(db.external_port)
    &&& rec.pitr_enabled == (if db.pitr_enabled { 1i64 } else { 0i64 })
    &&& rec.pitr_last_base_backup_at == db.pitr_last_base_backup_at
    &&& rec.pitr_last_base_backup_label.deep_view() == db.pitr_last_base_backup_label.deep_view()
    &&& rec.proxy_enabled == (if db.proxy_enabled { 1i64 } else { 0i64 })
    &&& rec.proxy_external_port == port_column(db.proxy_external_port)
    &&& rec.username@ == db.credentials.username@
    &&& rec.password@ == db.credentials.password@
    &&& rec.database_name@ == db.credentials.database_name@
    &&& db.memory_limit <= i64::MAX
    &&& rec.memory_limit == db.memory_limit as i64
    &&& rec.cpu_limit_bits == db.cpu_limit_bits
    &&& rec.status@ == service_status_code(db.status)
    &&& rec.created_at == db.created_at
    &&& rec.updated_at == db.updated_at
}

/// What storing a managed database writes; a memory limit above
/// `i64::MAX` cannot be stored.
pub fn encode_database(db: &ManagedDatabase) -> (r: Result<DatabaseRecord, String>)
    ensures
        db.memory_limit > i64::MAX ==> (r matches Err(e) && e@ == invalid_value_text(
            "managed database memory_limit"@,
            dec(db.memory_limit as nat),
        )),
        db.memory_limit <= i64::MAX ==> (r matches Ok(rec) && db_encodes(*db, rec)),
{
    let memory_limit = match u64_to_i64(db.memory_limit, "managed database memory_limit") {
        Ok(m) => m,
        Err(e) => return Err(e),
    };
    Ok(
        DatabaseRecord {
            id: db.id,
            owner_id: db.owner_id,
            name: db.name.dup(),
            db_type: owned(encode_database_type(db.db_type)),
            version: db.version.dup(),
            container_id: db.container_id.dup(),
            volume_name: db.volume_name.dup(),
            host_data_path: db.host_data_path.dup(),
            internal_host: db.internal_host.dup(),
            port: db.port as i64,
            external_port: port_column_of(db.external_port),
            pitr_enabled: bool_to_int(db.pitr_enabled),
            pitr_last_base_backup_at: db.pitr_last_base_backup_at,
            pitr_last_base_backup_label: db.pitr_last_base_backup_label.dup(),
            proxy_enabled: bool_to_int(db.proxy_enabled),
            proxy_external_port: port_column_of(db.proxy_external_port),
            username: db.credentials.username.dup(),
            password: db.credentials.password.dup(),
            database_name: db.credentials.database_name.dup(),
            memory_limit,
            cpu_limit_bits: db.cpu_limit_bits,
            status: owned(encode_service_status(db.status)),
            created_at: db.created_at,
            updated_at: db.updated_at,
        },
    )
}

/// Some engine is stored under `code`.
pub open spec fn known_database_type(code: Seq<char>) -> bool {
    exists|x: DatabaseType| database_type_code(x) == code
}

/// Some status is stored under `code`.
pub open spec fn known_status(code: Seq<char>) -> bool {
    exists|x: ServiceStatus| service_status_code(x) == code
}

/// A stored optional port that does not fit a `u16`.
pub open spec fn bad_port(p: Option<i64>) -> bool {
    p matches Some(v) && !(0 <= v <= u16::MAX)
}

/// The first problem met reading a database back, in the order the
/// columns are read.
pub open spec fn db_decode_problem(rec: DatabaseRecord) -> Option<Seq<char>> {
    if !known_database_type(rec.db_type@) {
        Some(invalid_value_text("db_type"@, rec.db_type@))
    } else if !(0 <= rec.port <= u16::MAX) {
        Some(invalid_value_text("managed database port"@, int_text(rec.port)))
    } else if bad_port(rec.external_port) {
        Some(invalid_value_text("managed database external_port"@, int_text(rec.external_port->0)))
    } else if bad_port(rec.proxy_external_port) {
        Some(
            invalid_value_text(
                "managed database proxy_external_port"@,
                int_text(rec.proxy_external_port->0),
            ),
        )
    } else if rec.memory_limit < 0 {
        Some(invalid_value_text("managed database memory_limit"@, int_text(rec.memory_limit)))
    } else if !known_status(rec.status@) {
        Some(invalid_value_text("status"@, rec.status@))
    } else {
        None
    }
}

/// The port read from a stored optional port.
pub open spec fn port_value(p: Option<i64>) -> Option<u16> {
    match p {
        Some(v) => Some(v as u16),
        None => None,
    }
}

/// `db` is the database read back from `rec` (the group is not stored).
pub open spec fn db_decodes_to(rec: DatabaseRecord, db: ManagedDatabase) -> bool {
    &&& db.id == rec.id
    &&& db.owner_id == rec.owner_id
    &&& db.group_id is None
    &&& db.name@ == rec.name@
    &&& db.db_type == choose|x: DatabaseType| database_type_code(x) == rec.db_type@
    &&& db.version@ == rec.version@
    &&& db.container_id.deep_view() == rec.container_id.deep_view()
    &&& db.volume_name@ == rec.volume_name@
    &&& db.host_data_path@ == rec.host_data_path@
    &&& db.internal_host@ == rec.internal_host@
    &&& db.port == rec.port as u16
    &&& db.external_port == port_value(rec.external_port)
    &&& db.pitr_enabled == (rec.pitr_enabled != 0)
    &&& db.pitr_last_base_backup_at == rec.pitr_last_base_backup_at
    &&& db.pitr_last_base_backup_label.deep_view() == rec.pitr_last_base_backup_label.deep_view()
    &&& db.proxy_enabled == (rec.proxy_enabled != 0)
    &&& db.proxy_external_port == port_value(rec.proxy_external_port)
    &&& db.credentials.username@ == rec.username@
    &&& db.credentials.password@ == rec.password@
    &&& db.credentials.database_name@ == rec.database_name@
    &&& db.memory_limit == rec.memory_limit as u64
    &&& db.cpu_limit_bits == rec.cpu_limit_bits
    &&& db.status == choose|x: ServiceStatus| service_status_code(x) == rec.status@
    &&& db.created_at == rec.created_at
    &&& db.updated_at == rec.updated_at
}

/// Reads a managed database back from its row; the first number out of
/// its range or unknown stored name is the error.
pub fn decode_database(rec: &DatabaseRecord) -> (r: Result<ManagedDatabase, String>)
    ensures
        match db_decode_problem(*rec) {
            Some(e) => r matches Err(x) && x@ == e,
            None => r matches Ok(db) && db_decodes_to(*rec, db),
        },
{
    let db_type = match decode_database_type(rec.db_type.as_str()) {
        Some(x) => {
            proof {
                let c = choose|y: DatabaseType| database_type_code(y) == rec.db_type@;
                lemma_database_type_codes_distinct(x, c);
            }
            x
        },
        None => return Err(invalid_value("db_type", rec.db_type.as_str())),
    };
    let port = match parse_u16(rec.port, "managed database port") {
        Ok(p) => p,
        Err(e) => return Err(e),
    };
    let external_port = match transpose_i64_to_u16(
        rec.external_port,
        "managed database external_port",
    ) {
        Ok(p) => p,
        Err(e) => return Err(e),
    };
    let proxy_external_port = match transpose_i64_to_u16(
        rec.proxy_external_port,
        "managed database proxy_external_port",
    ) {
        Ok(p) => p,
        Err(e) => return Err(e),
    };
    let memory_limit = match parse_u64(rec.memory_limit, "managed database memory_limit") {
        Ok(m) => m,
        Err(e) => return Err(e),
    };
    let status = match decode_service_status(rec.status.as_str()) {
        Some(x) => {
            proof {
                let c = choose|y: ServiceStatus| service_status_code(y) == rec.status@;
                lemma_service_status_codes_distinct(x, c);
            }
            x
        },
        None => return Err(invalid_value("status", rec.status.as_str())),
    };
    Ok(
        ManagedDatabase {
            id: rec.id,
            owner_id: rec.owner_id,
            group_id: None,
            name: rec.name.dup(),
            db_type,
            version: rec.version.dup(),
            container_id: rec.container_id.dup(),
            volume_name: rec.volume_name.dup(),
            host_data_path: rec.host_data_path.dup(),
            internal_host: rec.internal_host.dup(),
            port,
            external_port,
            pitr_enabled: int_to_bool(rec.pitr_enabled),
            pitr_last_base_backup_at: rec.pitr_last_base_backup_at,
            pitr_last_base_backup_label: rec.pitr_last_base_backup_label.dup(),
            proxy_enabled: int_to_bool(rec.proxy_enabled),
            proxy_external_port,
            credentials: DatabaseCredentials {
                username: rec.username.dup(),
                password: rec.password.dup(),
                database_name: rec.database_name.dup(),
            },
            memory_limit,
            cpu_limit_bits: rec.cpu_limit_bits,
            status,
            created_at: rec.created_at,
            updated_at: rec.updated_at,
        },
    )
}

/// A stored managed database reads back with every field as stored, but
/// for its group, which the row does not hold.
pub proof fn lemma_stored_database_reads_back(db: ManagedDatabase, rec: DatabaseRecord, back: ManagedDatabase)
    requires
        db_encodes(db, rec),
        db_decodes_to(rec, back),
    ensures
        db_decode_problem(rec) is None,
        ({
            &&& back.id == db.id && back.owner_id == db.owner_id && back.group_id is None
            &&& back.name@ == db.name@ && back.db_type == db.db_type && back.version@ == db.version@
            &&& back.container_id.deep_view() == db.container_id.deep_view()
            &&& back.volume_name@ == db.volume_name@ && back.host_data_path@ == db.host_data_path@
            &&& back.internal_host@ == db.internal_host@ && back.port == db.port
            &&& back.external_port == db.external_port && back.pitr_enabled == db.pitr_enabled
            &&& back.pitr_last_base_backup_at == db.pitr_last_base_backup_at
            &&& back.pitr_last_base_backup_label.deep_view()
                == db.pitr_last_base_backup_label.deep_view()
            &&& back.proxy_enabled == db.proxy_enabled
            &&& back.proxy_external_port == db.proxy_external_port
            &&& back.credentials.deep_view() == db.credentials.deep_view()
            &&& back.memory_limit == db.memory_limit && back.cpu_limit_bits == db.cpu_limit_bits
            &&& back.status == db.status && back.created_at == db.created_at
            &&& back.updated_at == db.updated_at
        }),
{
    assert(known_database_type(rec.db_type@)) by {
        assert(database_type_code(db.db_type) == rec.db_type@);
    }
    assert(known_status(rec.status@)) by {
        assert(service_status_code(db.status) == rec.status@);
    }
    let t = choose|x: DatabaseType| database_type_code(x) == rec.db_type@;
    lemma_database_type_codes_distinct(t, db.db_type);
    let s = choose|x: ServiceStatus| service_status_code(x) == rec.status@;
    lemma_service_status_codes_distinct(s, db.status);
}

/// The row of a managed queue, with its identifiers and instants as the
/// driver binds them.
pub struct QueueRecord {
    pub id: u128,
    pub owner_id: u128,
    pub name: String,
    pub queue_type: String,
    pub version: String,
    pub container_id: Option<String>,
    pub volume_name: String,
    pub host_data_path: String,
    pub internal_host: String,
    pub port: i64,
    pub external_port: Option<i64>,
    pub username: String,
    pub password: String,
    pub memory_limit: i64,
    pub cpu_limit_bits: u64,
    pub status: String,
    pub created_at: Timestamp,
    pub updated_at: Timestamp,
}

/// `rec` is what storing `q` writes.
pub open spec fn queue_encodes(q: ManagedQueue, rec: QueueRecord) -> bool {
    &&& rec.id == q.id
    &&& rec.owner_id == q.owner_id
    &&& rec.name@ == q.name@
    &&& rec.queue_type@ == queue_type_code(q.queue_type)
    &&& rec.version@ == q.version@
    &&& rec.container_id.deep_view() == q.container_id.deep_view()
    &&& rec.volume_name@ == q.volume_name@
    &&& rec.host_data_path@ == q.host_data_path@
    &&& rec.internal_host@ == q.internal_host@
    &&& rec.port == q.port as i64
    &&& rec.external_port == port_column(q.external_port)
    &&& rec.username@ == q.credentials.username@
    &&& rec.password@ == q.credentials.password@
    &&& q.memory_limit <= i64::MAX
    &&& rec.memory_limit == q.memory_limit as i64
    &&& rec.cpu_limit_bits == q.cpu_limit_bits
    &&& rec.status@ == service_status_code(q.status)
    &&& rec.created_at == q.created_at
    &&& rec.updated_at == q.updated_at
}

/// What storing a managed queue writes; a memory limit above `i64::MAX`
/// cannot be stored.
pub fn encode_queue(q: &ManagedQueue) -> (r: Result<QueueRecord, String>)
    ensures
        q.memory_limit > i64::MAX ==> (r matches Err(e) && e@ == invalid_value_text(
            "managed queue memory_limit"@,
            dec(q.memory_limit as nat),
        )),
        q.memory_limit <= i64::MAX ==> (r matches Ok(rec) && queue_encodes(*q, rec)),
{
    let memory_limit = match u64_to_i64(q.memory_limit, "managed queue memory_limit") {
        Ok(m) => m,
        Err(e) => return Err(e),
    };
    Ok(
        QueueRecord {
            id: q.id,
            owner_id: q.owner_id,
            name: q.name.dup(),
            queue_type: owned(encode_queue_type(q.queue_type)),
            version: q.version.dup(),
            container_id: q.container_id.dup(),
            volume_name: q.volume_name.dup(),
            host_data_path: q.host_data_path.dup(),
            internal_host: q.internal_host.dup(),
            port: q.port as i64,
            external_port: port_column_of(q.external_port),
            username: q.credentials.username.dup(),
            password: q.credentials.password.dup(),
            memory_limit,
            cpu_limit_bits: q.cpu_limit_bits,
            status: owned(encode_service_status(q.status)),
            created_at: q.created_at,
            updated_at: q.updated_at,
        },
    )
}

/// Some queue engine is stored under `code`.
pub open spec fn known_queue_type(code: Seq<char>) -> bool {
    exists|x: QueueType| queue_type_code(x) == code
}

/// The first problem met reading a queue back, in the order the columns
/// are read.
pub open spec fn queue_decode_problem(rec: QueueRecord) -> Option<Seq<char>> {
    if !known_queue_type(rec.queue_type@) {
        Some(invalid_value_text("queue_type"@, rec.queue_type@))
    } else if !(0 <= rec.port <= u16::MAX) {
        Some(invalid_value_text("managed queue port"@, int_text(rec.port)))
    } else if bad_port(rec.external_port) {
        Some(invalid_value_text("managed queue external_port"@, int_text(rec.external_port->0)))
    } else if rec.memory_limit < 0 {
        Some(invalid_value_text("managed queue memory_limit"@, int_text(rec.memory_limit)))
    } else if !known_status(rec.status@) {
        Some(invalid_value_text("status"@, rec.status@))
    } else {
        None
    }
}

/// `q` is the queue read back from `rec` (the group is not stored).
pub open spec fn queue_decodes_to(rec: QueueRecord, q: ManagedQueue) -> bool {
    &&& q.id == rec.id
    &&& q.owner_id == rec.owner_id
    &&& q.group_id is None
    &&& q.name@ == rec.name@
    &&& q.queue_type == choose|x: QueueType| queue_type_code(x) == rec.queue_type@
    &&& q.version@ == rec.version@
    &&& q.container_id.deep_view() == rec.container_id.deep_view()
    &&& q.volume_name@ == rec.volume_name@
    &&& q.host_data_path@ == rec.host_data_path@
    &&& q.internal_host@ == rec.internal_host@
    &&& q.port == rec.port as u16
    &&& q.external_port == port_value(rec.external_port)
    &&& q.credentials.username@ == rec.username@
    &&& q.credentials.password@ == rec.password@
    &&& q.memory_limit == rec.memory_limit as u64
    &&& q.cpu_limit_bits == rec.cpu_limit_bits
    &&& q.status == choose|x: ServiceStatus| service_status_code(x) == rec.status@
    &&& q.created_at == rec.created_at
    &&& q.updated_at == rec.updated_at
}

/// Reads a managed queue back from its row.
pub fn decode_queue(rec: &QueueRecord) -> (r: Result<ManagedQueue, String>)
    ensures
        match queue_decode_problem(*rec) {
            Some(e) => r matches Err(x) && x@ == e,
            None => r matches Ok(q) && queue_decodes_to(*rec, q),
        },
{
    let queue_type = match decode_queue_type(rec.queue_type.as_str()) {
        Some(x) => {
            proof {
                let c = choose|y: QueueType| queue_type_code(y) == rec.queue_type@;
                lemma_queue_type_codes_distinct(x, c);
            }
            x
        },
        None => return Err(invalid_value("queue_type", rec.queue_type.as_str())),
    };
    let port = match parse_u16(rec.port, "managed queue port") {
        Ok(p) => p,
        Err(e) => return Err(e),
    };
    let external_port = match transpose_i64_to_u16(rec.external_port, "managed queue external_port") {
        Ok(p) => p,
        Err(e) => return Err(e),
    };
    let memory_limit = match parse_u64(rec.memory_limit, "managed queue memory_limit") {
        Ok(m) => m,
        Err(e) => return Err(e),
    };
    let status = match decode_service_status(rec.status.as_str()) {
        Some(x) => {
            proof {
                let c = choose|y: ServiceStatus| service_status_code(y) == rec.status@;
                lemma_service_status_codes_distinct(x, c);
            }
            x
        },
        None => return Err(invalid_value("status", rec.status.as_str())),
    };
    Ok(
        ManagedQueue {
            id: rec.id,
            owner_id: rec.owner_id,
            group_id: None,
            name: rec.name.dup(),
            queue_type,
            version: rec.version.dup(),
            container_id: rec.container_id.dup(),
            volume_name: rec.volume_name.dup(),
            host_data_path: rec.host_data_path.dup(),
            internal_host: rec.internal_host.dup(),
            port,
            external_port,
            credentials: QueueCredentials { username: rec.username.dup(), password: rec.password.dup() },
            memory_limit,
            cpu_limit_bits: rec.cpu_limit_bits,
            status,
            created_at: rec.created_at,
            updated_at: rec.updated_at,
        },
    )
}

/// A stored managed queue reads back with every field as stored, but for
/// its group, which the row does not hold.
pub proof fn lemma_stored_queue_reads_back(q: ManagedQueue, rec: QueueRecord, back: ManagedQueue)
    requires
        queue_encodes(q, rec),
        queue_decodes_to(rec, back),
    ensures
        queue_decode_problem(rec) is None,
        ({
            &&& back.id == q.id && back.owner_id == q.owner_id && back.group_id is None
            &&& back.name@ == q.name@ && back.queue_type == q.queue_type && back.version@ == q.version@
            &&& back.container_id.deep_view() == q.container_id.deep_view()
            &&& back.volume_name@ == q.volume_name@ && back.host_data_path@ == q.host_data_path@
            &&& back.internal_host@ == q.internal_host@ && back.port == q.port
            &&& back.external_port == q.external_port
            &&& back.credentials.username@ == q.credentials.username@
            &&& back.credentials.password@ == q.credentials.password@
            &&& back.memory_limit == q.memory_limit && back.cpu_limit_bits == q.cpu_limit_bits
            &&& back.status == q.status && back.created_at == q.created_at
            &&& back.updated_at == q.updated_at
        }),
{
    assert(known_queue_type(rec.queue_type@)) by {
        assert(queue_type_code(q.queue_type) == rec.queue_type@);
    }
    assert(known_status(rec.status@)) by {
        assert(service_status_code(q.status) == rec.status@);
    }
    let t = choose|x: QueueType| queue_type_code(x) == rec.queue_type@;
    lemma_queue_type_codes_distinct(t, q.queue_type);
    let s = choose|x: ServiceStatus| service_status_code(x) == rec.status@;
    lemma_service_status_codes_distinct(s, q.status);
}

} // verus!
