//! How managed databases are run: container names and commands, the
//! connection-pool proxy's configuration, and point-in-time recovery.
use vstd::prelude::*;

use crate::dup::{push_deep, Dup};
use crate::managed::{DatabaseType, ManagedDatabase, normalized_host};
use crate::text::{
    ascii_lower, concat2, concat3, dec, dec_string, has_prefix, is_ascii_alnum, opt_str, owned,
    push_char, slice_chars, starts_with, trim_end_char, trim_end_char_owned, trim_start,
    trim_start_char, trim_start_char_owned, trim_start_owned, uuid_string, uuid_text,
};

verus! {

/// Executable of the connection-pool proxy inside its image.
pub open spec fn pgdog_binary_path() -> Seq<char> {
    "/usr/local/bin/pgdog"@
}

/// The proxy's main configuration file.
pub open spec fn pgdog_config_path() -> Seq<char> {
    "/etc/pgdog/pgdog.toml"@
}

/// The proxy's users file.
pub open spec fn pgdog_users_path() -> Seq<char> {
    "/etc/pgdog/users.toml"@
}

/// Where archived WAL segments are kept inside a postgres container.
pub open spec fn pitr_wal_path() -> Seq<char> {
    "/var/lib/postgresql/containr-pitr/wal"@
}

/// Where base backups are kept inside a postgres container.
pub open spec fn pitr_backups_dir() -> Seq<char> {
    "/var/lib/postgresql/containr-pitr/basebackups"@
}

/// A char as it appears inside a TOML basic string.
pub open spec fn toml_escape_char(c: char) -> Seq<char> {
    if c == '\\' {
        seq!['\\', '\\']
    } else if c == '"' {
        seq!['\\', '"']
    } else if c == '\n' {
        seq!['\\', 'n']
    } else {
        seq![c]
    }
}

/// A text as it appears inside a TOML basic string: backslashes, quotes
/// and newlines escaped.
pub open spec fn toml_escaped(s: Seq<char>) -> Seq<char>
    decreases s.len(),
{
    if s.len() == 0 {
        Seq::empty()
    } else {
        toml_escaped(s.drop_last()) + toml_escape_char(s.last())
    }
}

/// Escapes a text for a TOML basic string.
pub fn escape_toml_string(value: &str) -> (r: String)
    ensures
        r@ == toml_escaped(value@),
{
    let mut out = String::new();
    let n = value.unicode_len();
    let mut i: usize = 0;
    proof {
        assert(value@.take(0) =~= Seq::<char>::empty());
    }
    while i < n
        invariant
            n == value@.len(),
            i <= n,
            out@ == toml_escaped(value@.take(i as int)),
        decreases n - i,
    {
        let c = value.get_char(i);
        proof {
            assert(value@.take(i + 1).drop_last() =~= value@.take(i as int));
        }
        if c == '\\' {
            push_char(&mut out, '\\');
            push_char(&mut out, '\\');
        } else if c == '"' {
            push_char(&mut out, '\\');
            push_char(&mut out, '"');
        } else if c == '\n' {
            push_char(&mut out, '\\');
            push_char(&mut out, 'n');
        } else {
            push_char(&mut out, c);
        }
        proof {
            assert(out@ =~= toml_escaped(value@.take(i + 1)));
        }
        i = i + 1;
    }
    proof {
        assert(value@.take(n as int) =~= value@);
    }
    out
}

/// The proxy's main configuration for a database: listen on the proxy
/// port, pool session connections to the database's internal host.
pub open spec fn pgdog_config_text(db: ManagedDatabase) -> Seq<char> {
    let name = toml_escaped(db.credentials.database_name@);
    "[general]\nhost = \"0.0.0.0\"\nport = 6432\ndefault_pool_size = 20\nmin_pool_size = 1\npooler_mode = \"session\"\n\n[[databases]]\nname = \""@
        + name + "\"\nhost = \""@ + toml_escaped(normalized_host(db.internal_host@))
        + "\"\nport = "@ + dec(db.port as nat)
        + "\nrole = \"primary\"\ndatabase_name = \""@ + name + "\"\nuser = \""@
        + toml_escaped(db.credentials.username@) + "\"\npassword = \""@
        + toml_escaped(db.credentials.password@) + "\"\n"@
}

/// Renders the proxy's main configuration.
pub fn render_pgdog_config(db: &ManagedDatabase) -> (r: String)
    ensures
        r@ == pgdog_config_text(*db),
{
    let name = escape_toml_string(db.credentials.database_name.as_str());
    let host = escape_toml_string(db.normalized_internal_host().as_str());
    let user = escape_toml_string(db.credentials.username.as_str());
    let password = escape_toml_string(db.credentials.password.as_str());
    let mut out = owned(
        "[general]\nhost = \"0.0.0.0\"\nport = 6432\ndefault_pool_size = 20\nmin_pool_size = 1\npooler_mode = \"session\"\n\n[[databases]]\nname = \"",
    );
    out.append(name.as_str());
    out.append("\"\nhost = \"");
    out.append(host.as_str());
    out.append("\"\nport = ");
    let port = dec_string(db.port as u64);
    out.append(port.as_str());
    out.append("\nrole = \"primary\"\ndatabase_name = \"");
    out.append(name.as_str());
    out.append("\"\nuser = \"");
    out.append(user.as_str());
    out.append("\"\npassword = \"");
    out.append(password.as_str());
    out.append("\"\n");
    out
}

/// The proxy's users file: the database's credentials, used both by
/// clients and towards the server.
pub open spec fn pgdog_users_text(db: ManagedDatabase) -> Seq<char> {
    let user = toml_escaped(db.credentials.username@);
    let password = toml_escaped(db.credentials.password@);
    "[[users]]\nname = \""@ + user + "\"\ndatabase = \""@ + toml_escaped(
        db.credentials.database_name@,
    ) + "\"\npassword = \""@ + password
        + "\"\npool_size = 20\npooler_mode = \"session\"\nserver_user = \""@ + user
        + "\"\nserver_password = \""@ + password + "\"\n"@
}

/// Renders the proxy's users file.
pub fn render_pgdog_users(db: &ManagedDatabase) -> (r: String)
    ensures
        r@ == pgdog_users_text(*db),
{
    let name = escape_toml_string(db.credentials.database_name.as_str());
    let user = escape_toml_string(db.credentials.username.as_str());
    let password = escape_toml_string(db.credentials.password.as_str());
    let mut out = owned("[[users]]\nname = \"");
    out.append(user.as_str());
    out.append("\"\ndatabase = \"");
    out.append(name.as_str());
    out.append("\"\npassword = \"");
    out.append(password.as_str());
    out.append("\"\npool_size = 20\npooler_mode = \"session\"\nserver_user = \"");
    out.append(user.as_str());
    out.append("\"\nserver_password = \"");
    out.append(password.as_str());
    out.append("\"\n");
    out
}

/// The shell command that probes a database's readiness; empty for an
/// engine without one.
pub open spec fn health_check_text(db: ManagedDatabase) -> Seq<char> {
    let c = db.credentials;
    match db.db_type {
        DatabaseType::Postgresql => "pg_isready -U "@ + c.username@ + " -d "@ + c.database_name@,
        DatabaseType::Mariadb => "mariadb-admin ping -u"@ + c.username@ + " -p"@ + c.password@,
        DatabaseType::Valkey => "valkey-cli -a "@ + c.password@ + " ping"@,
        DatabaseType::Qdrant => Seq::empty(),
    }
}

/// The readiness probe of a database.
pub fn health_check_cmd(db: &ManagedDatabase) -> (r: String)
    ensures
        r@ == health_check_text(*db),
{
    let c = &db.credentials;
    match db.db_type {
        DatabaseType::Postgresql => {
            let mut r = concat3("pg_isready -U ", c.username.as_str(), " -d ");
            r.append(c.database_name.as_str());
            r
        },
        DatabaseType::Mariadb => {
            let mut r = concat3("mariadb-admin ping -u", c.username.as_str(), " -p");
            r.append(c.password.as_str());
            r
        },
        DatabaseType::Valkey => concat3("valkey-cli -a ", c.password.as_str(), " ping"),
        DatabaseType::Qdrant => String::new(),
    }
}

/// The command a database container starts with, when not the image's
/// default: valkey is started requiring its password.
pub fn build_start_command(db: &ManagedDatabase) -> (r: Option<Vec<String>>)
    ensures
        r.deep_view() == match db.db_type {
            DatabaseType::Valkey => Some(
                seq!["valkey-server"@, "--requirepass"@, db.credentials.password@],
            ),
            _ => None,
        },
{
    match db.db_type {
        DatabaseType::Valkey => {
            let mut v: Vec<String> = Vec::new();
            push_deep(&mut v, owned("valkey-server"));
            push_deep(&mut v, owned("--requirepass"));
            push_deep(&mut v, db.credentials.password.dup());
            proof {
                assert(v.deep_view() =~= seq![
                    "valkey-server"@,
                    "--requirepass"@,
                    db.credentials.password@,
                ]);
            }
            Some(v)
        },
        _ => None,
    }
}

/// Name of a database's container: `containr-db-<id>`.
pub fn database_container_name(db: &ManagedDatabase) -> (r: String)
    ensures
        r@ == "containr-db-"@ + uuid_text(db.id),
{
    let id = uuid_string(db.id);
    concat2("containr-db-", id.as_str())
}

/// Name of a database's proxy container: `containr-db-proxy-<id>`.
pub fn proxy_container_name(db: &ManagedDatabase) -> (r: String)
    ensures
        r@ == "containr-db-proxy-"@ + uuid_text(db.id),
{
    let id = uuid_string(db.id);
    concat2("containr-db-proxy-", id.as_str())
}

/// The proxy container's entrypoint: the proxy executable.
pub fn build_pgdog_entrypoint() -> (r: Vec<String>)
    ensures
        r.deep_view() == seq![pgdog_binary_path()],
{
    let mut v: Vec<String> = Vec::new();
    push_deep(&mut v, owned("/usr/local/bin/pgdog"));
    proof {
        assert(v.deep_view() =~= seq![pgdog_binary_path()]);
    }
    v
}

/// The proxy container's arguments: its configuration and users files.
pub fn build_pgdog_command() -> (r: Vec<String>)
    ensures
        r.deep_view() == seq!["--config"@, pgdog_config_path(), "--users"@, pgdog_users_path()],
{
    let mut v: Vec<String> = Vec::new();
    push_deep(&mut v, owned("--config"));
    push_deep(&mut v, owned("/etc/pgdog/pgdog.toml"));
    push_deep(&mut v, owned("--users"));
    push_deep(&mut v, owned("/etc/pgdog/users.toml"));
    proof {
        assert(v.deep_view() =~= seq![
            "--config"@,
            pgdog_config_path(),
            "--users"@,
            pgdog_users_path(),
        ]);
    }
    v
}

/// The postgres command line with WAL archiving on, as point-in-time
/// recovery needs.
pub open spec fn postgres_pitr_args() -> Seq<Seq<char>> {
    seq![
        "postgres"@,
        "-c"@,
        "wal_level=replica"@,
        "-c"@,
        "archive_mode=on"@,
        "-c"@,
        "archive_timeout=60"@,
        "-c"@,
        "archive_command=test ! -f "@ + pitr_wal_path() + "/%f && cp %p "@ + pitr_wal_path()
            + "/%f"@,
    ]
}

/// Starts postgres with WAL archiving into the recovery directory.
pub fn build_postgres_pitr_command() -> (r: Vec<String>)
    ensures
        r.deep_view() == postgres_pitr_args(),
{
    let mut v: Vec<String> = Vec::new();
    push_deep(&mut v, owned("postgres"));
    push_deep(&mut v, owned("-c"));
    push_deep(&mut v, owned("wal_level=replica"));
    push_deep(&mut v, owned("-c"));
    push_deep(&mut v, owned("archive_mode=on"));
    push_deep(&mut v, owned("-c"));
    push_deep(&mut v, owned("archive_timeout=60"));
    push_deep(&mut v, owned("-c"));
    let mut cmd = concat3(
        "archive_command=test ! -f ",
        "/var/lib/postgresql/containr-pitr/wal",
        "/%f && cp %p ",
    );
    cmd.append("/var/lib/postgresql/containr-pitr/wal");
    cmd.append("/%f");
    push_deep(&mut v, cmd);
    proof {
        assert(v.deep_view() =~= postgres_pitr_args());
    }
    v
}

/// The `pg_basebackup` call that writes a base backup labelled `label`.
pub open spec fn base_backup_args(db: ManagedDatabase, label: Seq<char>) -> Seq<Seq<char>> {
    seq![
        "pg_basebackup"@,
        "-h"@,
        "127.0.0.1"@,
        "-p"@,
        dec(db.port as nat),
        "-U"@,
        db.credentials.username@,
        "-D"@,
        pitr_backups_dir() + "/"@ + label,
        "-Fp"@,
        "-Xs"@,
        "-P"@,
        "-l"@,
        label,
    ]
}

/// Builds the base backup command.
pub fn build_base_backup_command(db: &ManagedDatabase, label: &str) -> (r: Vec<String>)
    ensures
        r.deep_view() == base_backup_args(*db, label@),
{
    let mut v: Vec<String> = Vec::new();
    push_deep(&mut v, owned("pg_basebackup"));
    push_deep(&mut v, owned("-h"));
    push_deep(&mut v, owned("127.0.0.1"));
    push_deep(&mut v, owned("-p"));
    push_deep(&mut v, dec_string(db.port as u64));
    push_deep(&mut v, owned("-U"));
    push_deep(&mut v, db.credentials.username.dup());
    push_deep(&mut v, owned("-D"));
    push_deep(
        &mut v,
        concat3("/var/lib/postgresql/containr-pitr/basebackups", "/", label),
    );
    push_deep(&mut v, owned("-Fp"));
    push_deep(&mut v, owned("-Xs"));
    push_deep(&mut v, owned("-P"));
    push_deep(&mut v, owned("-l"));
    push_deep(&mut v, owned(label));
    proof {
        assert(v.deep_view() =~= base_backup_args(*db, label@));
    }
    v
}


/// The sanitizing pass of a label: ASCII letters and digits lower-cased,
/// '-' and '_' kept, every run of other chars (after a '-') one '-'.
pub open spec fn label_acc(s: Seq<char>) -> Seq<char>
    decreases s.len(),
{
    if s.len() == 0 {
        Seq::empty()
    } else {
        let prev = label_acc(s.drop_last());
        let c = s.last();
        if is_ascii_alnum(c) || c == '-' || c == '_' {
            prev.push(ascii_lower(c))
        } else if prev.len() > 0 && prev.last() == '-' {
            prev
        } else {
            prev.push('-')
        }
    }
}

/// `s` without leading and trailing copies of `c` (`str::trim_matches`).
pub open spec fn trim_both(s: Seq<char>, c: char) -> Seq<char> {
    trim_end_char(trim_start_char(s, c), c)
}

/// A requested label made safe for file names.
pub open spec fn sanitized_label(s: Seq<char>) -> Seq<char> {
    trim_both(trim_both(label_acc(s), '-'), '_')
}

/// The label of a base backup or restore point: the requested one
/// sanitized, else `<prefix>-<stamp>` (the stamp is the current UTC time as
/// `%Y%m%d%H%M%S`).
pub open spec fn pitr_label(requested: Option<Seq<char>>, prefix: Seq<char>, stamp: Seq<char>) -> Seq<
    char,
> {
    match requested {
        Some(v) => if sanitized_label(v).len() > 0 {
            sanitized_label(v)
        } else {
            prefix + "-"@ + stamp
        },
        None => prefix + "-"@ + stamp,
    }
}

fn sanitize_label(input: &str) -> (r: String)
    ensures
        r@ == sanitized_label(input@),
{
    let n = input.unicode_len();
    let mut acc = String::new();
    let mut i: usize = 0;
    proof {
        assert(input@.take(0) =~= Seq::<char>::empty());
    }
    while i < n
        invariant
            n == input@.len(),
            i <= n,
            acc@ == label_acc(input@.take(i as int)),
        decreases n - i,
    {
        let c = input.get_char(i);
        proof {
            assert(input@.take(i + 1).drop_last() =~= input@.take(i as int));
        }
        let keep = ('a' <= c && c <= 'z') || ('A' <= c && c <= 'Z') || ('0' <= c && c <= '9')
            || c == '-' || c == '_';
        if keep {
            let lower = if 'A' <= c && c <= 'Z' {
                ((c as u8) + 32u8) as char
            } else {
                c
            };
            proof {
                assert(lower == ascii_lower(c));
            }
            push_char(&mut acc, lower);
        } else {
            let len = acc.unicode_len();
            if !(len > 0 && acc.get_char(len - 1) == '-') {
                push_char(&mut acc, '-');
            }
        }
        i = i + 1;
    }
    proof {
        assert(input@.take(n as int) =~= input@);
    }
    let a = trim_start_char_owned(acc.as_str(), '-');
    let a = trim_end_char_owned(a.as_str(), '-');
    let a = trim_start_char_owned(a.as_str(), '_');
    trim_end_char_owned(a.as_str(), '_')
}

/// The label to use for a base backup or restore point, given the current
/// time's stamp.
pub fn resolve_pitr_label(requested: Option<&str>, prefix: &str, stamp: &str) -> (r: String)
    ensures
        r@ == pitr_label(opt_str(requested), prefix@, stamp@),
{
    match requested {
        Some(v) => {
            let s = sanitize_label(v);
            if s.unicode_len() > 0 {
                s
            } else {
                concat3(prefix, "-", stamp)
            }
        },
        None => concat3(prefix, "-", stamp),
    }
}

/// The shape of `%Y%m%d%H%M%S` for a year from 1970 on: decimal digits,
/// at least fourteen, after a '+' for years past 9999.
pub open spec fn clock_stamp(s: Seq<char>) -> bool {
    &&& s.len() >= 14
    &&& ('0' <= s[0] <= '9' || s[0] == '+')
    &&& forall|i: int| 1 <= i < s.len() ==> '0' <= #[trigger] s[i] <= '9'
}

/// The shape of `%Y%m%d_%H%M%S`: that of `clock_stamp`, with an underscore
/// before the last six digits.
pub open spec fn clock_stamp_split(s: Seq<char>) -> bool {
    &&& s.len() >= 15
    &&& s[s.len() - 7] == '_'
    &&& clock_stamp(s.take(s.len() - 7) + s.skip(s.len() - 6))
}

/// The current UTC time formatted by chrono (`Utc::now().format(fmt)`).
/// The value is the clock's; the contract states only its shape, which
/// chrono's formatting code fixes: `Utc::now` reads a time after the epoch,
/// each of month, day, hour, minute and second is written as two digits,
/// and the year as four digits, or with a '+' sign past 9999.
#[verifier::external_body]
pub(crate) fn utc_now_formatted(fmt: &str) -> (r: String)
    requires
        fmt@ == "%Y%m%d%H%M%S"@ || fmt@ == "%Y%m%d_%H%M%S"@,
    ensures
        fmt@ == "%Y%m%d%H%M%S"@ ==> clock_stamp(r@),
        fmt@ == "%Y%m%d_%H%M%S"@ ==> clock_stamp_split(r@),
{
    chrono::Utc::now().format(fmt).to_string()
}

/// The label for a base backup or restore point, stamped with the current
/// time when none usable was requested.
pub fn pitr_label_now(requested: Option<&str>, prefix: &str) -> (r: String)
    ensures
        exists|stamp: Seq<char>|
            clock_stamp(stamp) && r@ == #[trigger] pitr_label(opt_str(requested), prefix@, stamp),
{
    proof {
        reveal_strlit("%Y%m%d%H%M%S");
    }
    let stamp = utc_now_formatted("%Y%m%d%H%M%S");
    resolve_pitr_label(requested, prefix, stamp.as_str())
}

/// Why point-in-time recovery cannot be used for a database.
pub open spec fn pitr_refusal(db: ManagedDatabase) -> Option<Seq<char>> {
    if db.db_type != DatabaseType::Postgresql {
        Some("point in time recovery is only supported for postgresql"@)
    } else if !db.pitr_enabled {
        Some("point in time recovery is not enabled for this database"@)
    } else {
        None
    }
}

/// Checks that point-in-time recovery applies to the database; the error
/// says why not.
pub fn ensure_postgres_pitr_supported(db: &ManagedDatabase) -> (r: Result<(), String>)
    ensures
        match pitr_refusal(*db) {
            Some(m) => r matches Err(e) && e@ == m,
            None => r is Ok,
        },
{
    match db.db_type {
        DatabaseType::Postgresql => {},
        _ => return Err(owned("point in time recovery is only supported for postgresql")),
    }
    if !db.pitr_enabled {
        return Err(owned("point in time recovery is not enabled for this database"));
    }
    Ok(())
}

/// A recovery needs exactly one target: a restore point or a time.
pub fn check_recovery_target(has_restore_point: bool, has_target_time: bool) -> (r: Result<
    (),
    String,
>)
    ensures
        has_restore_point == has_target_time ==> (r matches Err(e) && e@
            == "provide exactly one recovery target"@),
        has_restore_point != has_target_time ==> r is Ok,
{
    if has_restore_point == has_target_time {
        Err(owned("provide exactly one recovery target"))
    } else {
        Ok(())
    }
}

/// A line of `str::lines`: without its '\n' and then one '\r' before it.
pub open spec fn line_body(line: Seq<char>, terminated: bool) -> Seq<char> {
    if terminated && line.len() > 0 && line.last() == '\r' {
        line.drop_last()
    } else {
        line
    }
}

/// Whether `s` has a '\n' at `i` and none before.
pub open spec fn first_newline_at(s: Seq<char>, i: int) -> bool {
    0 <= i < s.len() && s[i] == '\n' && forall|j: int| 0 <= j < i ==> s[j] != '\n'
}

/// The lines of a text as `str::lines` yields them.
pub open spec fn text_lines(s: Seq<char>) -> Seq<Seq<char>>
    decreases s.len(),
{
    if s.len() == 0 {
        Seq::empty()
    } else if exists|i: int| first_newline_at(s, i) {
        let i = choose|i: int| first_newline_at(s, i);
        seq![line_body(s.take(i), true)] + text_lines(s.skip(i + 1))
    } else {
        seq![line_body(s, false)]
    }
}

/// Keys of `postgresql.auto.conf` that recovery sets itself.
pub open spec fn recovery_keys() -> Seq<Seq<char>> {
    seq![
        "restore_command"@,
        "recovery_target_action"@,
        "recovery_target_name"@,
        "recovery_target_time"@,
    ]
}

/// A line that sets one of the recovery keys (after leading whitespace).
pub open spec fn sets_recovery_key(line: Seq<char>) -> bool {
    exists|k: int| 0 <= k < 4 && has_prefix(trim_start(line), #[trigger] recovery_keys()[k])
}

/// The lines of the existing configuration that recovery keeps.
pub open spec fn kept_lines(lines: Seq<Seq<char>>) -> Seq<Seq<char>>
    decreases lines.len(),
{
    if lines.len() == 0 {
        Seq::empty()
    } else {
        let prev = kept_lines(lines.drop_last());
        if sets_recovery_key(lines.last()) {
            prev
        } else {
            prev.push(lines.last())
        }
    }
}

/// The recovery settings appended to the configuration.
pub open spec fn recovery_settings(restore_point: Option<Seq<char>>, target_time: Option<Seq<char>>) -> Seq<
    Seq<char>,
> {
    seq!["restore_command = 'cp "@ + pitr_wal_path() + "/%f %p'"@, "recovery_target_action = 'promote'"@]
        + match restore_point {
        Some(v) => seq!["recovery_target_name = '"@ + v + "'"@],
        None => Seq::empty(),
    } + match target_time {
        Some(t) => seq!["recovery_target_time = '"@ + t + "'"@],
        None => Seq::empty(),
    }
}

/// Lines joined with '\n', each followed by one.
pub open spec fn lines_text(lines: Seq<Seq<char>>) -> Seq<char>
    decreases lines.len(),
{
    if lines.len() == 0 {
        Seq::empty()
    } else {
        lines_text(lines.drop_last()) + lines.last() + seq!['\n']
    }
}

/// The new `postgresql.auto.conf`: the existing lines that do not set a
/// recovery key, then the recovery settings, one per line, ending with a
/// newline. `target_time` is the target instant in RFC 3339.
pub open spec fn recovery_conf_text(
    existing: Seq<char>,
    restore_point: Option<Seq<char>>,
    target_time: Option<Seq<char>>,
) -> Seq<char> {
    lines_text(kept_lines(text_lines(existing)) + recovery_settings(restore_point, target_time))
}


/// The lines of `text`, as `str::lines` splits them.
pub fn split_lines(text: &str) -> (r: Vec<String>)
    ensures
        r.deep_view() == text_lines(text@),
{
    let n = text.unicode_len();
    let mut lines: Vec<String> = Vec::new();
    let mut start: usize = 0;
    let mut i: usize = 0;
    proof {
        assert(text@.skip(0) =~= text@);
        assert(lines.deep_view() + text_lines(text@.skip(0)) =~= text_lines(text@));
    }
    while i < n
        invariant
            n == text@.len(),
            start <= i <= n,
            lines.deep_view() + text_lines(text@.skip(start as int)) == text_lines(text@),
            forall|j: int| start <= j < i ==> text@[j] != '\n',
        decreases n - i,
    {
        if text.get_char(i) == '\n' {
            let ghost rest = text@.skip(start as int);
            let ghost k = i - start;
            proof {
                assert(first_newline_at(rest, k));
                let c = choose|c: int| first_newline_at(rest, c);
                if c < k {
                    assert(rest[c] == text@[start + c]);
                } else if c > k {
                    assert(rest[k] == '\n');
                }
                assert(c == k);
                assert(rest.take(k) =~= text@.subrange(start as int, i as int));
                assert(rest.skip(k + 1) =~= text@.skip(i + 1));
            }
            let piece = slice_chars(text, start, i);
            let len = piece.unicode_len();
            let body = if len > 0 && piece.get_char(len - 1) == '\r' {
                slice_chars(piece.as_str(), 0, len - 1)
            } else {
                piece
            };
            proof {
                assert(body@ =~= line_body(rest.take(k), true));
            }
            let ghost before = lines.deep_view();
            push_deep(&mut lines, body);
            proof {
                assert(lines.deep_view() + text_lines(text@.skip(i + 1)) =~= before + (seq![
                    line_body(rest.take(k), true),
                ] + text_lines(rest.skip(k + 1))));
            }
            start = i + 1;
        }
        i = i + 1;
    }
    let ghost rest = text@.skip(start as int);
    if start < n {
        proof {
            assert(!exists|c: int| first_newline_at(rest, c)) by {
                if exists|c: int| first_newline_at(rest, c) {
                    let c = choose|c: int| first_newline_at(rest, c);
                    assert(text@[start + c] == rest[c]);
                }
            }
            assert(rest =~= text@.subrange(start as int, n as int));
        }
        let piece = slice_chars(text, start, n);
        push_deep(&mut lines, piece);
        proof {
            assert(text_lines(rest) == seq![line_body(rest, false)]);
        }
    } else {
        proof {
            assert(rest.len() == 0);
            assert(lines.deep_view() + text_lines(rest) =~= lines.deep_view());
        }
    }
    lines
}

fn sets_recovery_key_exec(line: &str) -> (r: bool)
    ensures
        r == sets_recovery_key(line@),
{
    let t = trim_start_owned(line);
    let a = starts_with(t.as_str(), "restore_command");
    let b = starts_with(t.as_str(), "recovery_target_action");
    let c = starts_with(t.as_str(), "recovery_target_name");
    let d = starts_with(t.as_str(), "recovery_target_time");
    proof {
        let keys = recovery_keys();
        if a {
            assert(has_prefix(trim_start(line@), keys[0]));
        }
        if b {
            assert(has_prefix(trim_start(line@), keys[1]));
        }
        if c {
            assert(has_prefix(trim_start(line@), keys[2]));
        }
        if d {
            assert(has_prefix(trim_start(line@), keys[3]));
        }
        if sets_recovery_key(line@) {
            let k = choose|k: int| 0 <= k < 4 && has_prefix(trim_start(line@), #[trigger] keys[k]);
            assert(k == 0 || k == 1 || k == 2 || k == 3);
        }
    }
    a || b || c || d
}

/// The new `postgresql.auto.conf` for a recovery: the existing settings
/// other than the recovery keys, then the restore command, promotion, and
/// the target. `target_time` is the target instant in RFC 3339.
pub fn recovery_auto_conf(existing: &str, restore_point: Option<&str>, target_time: Option<&str>) -> (r:
    String)
    ensures
        r@ == recovery_conf_text(existing@, opt_str(restore_point), opt_str(target_time)),
{
    let lines = split_lines(existing);
    let ghost ls = lines.deep_view();
    let mut kept: Vec<String> = Vec::new();
    let mut i: usize = 0;
    proof {
        assert(ls.take(0) =~= Seq::<Seq<char>>::empty());
    }
    while i < lines.len()
        invariant
            i <= lines@.len(),
            ls == lines.deep_view(),
            kept.deep_view() == kept_lines(ls.take(i as int)),
        decreases lines.len() - i,
    {
        proof {
            assert(ls.take(i + 1).drop_last() =~= ls.take(i as int));
        }
        if !sets_recovery_key_exec(lines[i].as_str()) {
            push_deep(&mut kept, lines[i].dup());
        }
        i = i + 1;
    }
    proof {
        assert(ls.take(ls.len() as int) =~= ls);
    }
    let ghost k0 = kept.deep_view();
    push_deep(&mut kept, concat3("restore_command = 'cp ", "/var/lib/postgresql/containr-pitr/wal", "/%f %p'"));
    push_deep(&mut kept, owned("recovery_target_action = 'promote'"));
    match restore_point {
        Some(v) => push_deep(&mut kept, concat3("recovery_target_name = '", v, "'")),
        None => {},
    }
    match target_time {
        Some(t) => push_deep(&mut kept, concat3("recovery_target_time = '", t, "'")),
        None => {},
    }
    let ghost all = kept.deep_view();
    proof {
        assert(all =~= k0 + recovery_settings(opt_str(restore_point), opt_str(target_time)));
    }
    let mut out = String::new();
    let mut j: usize = 0;
    proof {
        assert(all.take(0) =~= Seq::<Seq<char>>::empty());
    }
    while j < kept.len()
        invariant
            j <= kept@.len(),
            all == kept.deep_view(),
            out@ == lines_text(all.take(j as int)),
        decreases kept.len() - j,
    {
        proof {
            assert(all.take(j + 1).drop_last() =~= all.take(j as int));
        }
        out.append(kept[j].as_str());
        push_char(&mut out, '\n');
        j = j + 1;
    }
    proof {
        assert(all.take(all.len() as int) =~= all);
    }
    out
}


/// An escaped value stays on one line of the TOML file.
pub proof fn lemma_toml_escaped_single_line(s: Seq<char>)
    ensures
        !toml_escaped(s).contains('\n'),
    decreases s.len(),
{
    if s.len() > 0 {
        lemma_toml_escaped_single_line(s.drop_last());
        let p = toml_escaped(s.drop_last());
        let e = toml_escape_char(s.last());
        assert(!e.contains('\n'));
        if toml_escaped(s).contains('\n') {
            let i = choose|i: int| 0 <= i < toml_escaped(s).len() && toml_escaped(s)[i] == '\n';
            if i < p.len() {
                assert(p[i] == '\n');
            } else {
                assert(e[i - p.len()] == '\n');
            }
        }
    }
}

/// A recovery never keeps an old setting of a recovery key: the kept lines
/// set none of them.
pub proof fn lemma_recovery_settings_replaced(lines: Seq<Seq<char>>)
    ensures
        forall|i: int|
            0 <= i < kept_lines(lines).len() ==> !sets_recovery_key(#[trigger] kept_lines(lines)[i]),
    decreases lines.len(),
{
    if lines.len() > 0 {
        lemma_recovery_settings_replaced(lines.drop_last());
        let p = kept_lines(lines.drop_last());
        assert forall|i: int| 0 <= i < kept_lines(lines).len() implies !sets_recovery_key(
            #[trigger] kept_lines(lines)[i],
        ) by {
            if i < p.len() {
                assert(kept_lines(lines)[i] == p[i]);
            }
        }
    }
}

} // verus!
