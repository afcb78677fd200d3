//! Names of containers, hosts and networks, and the small renderings that
//! go with them.
use vstd::prelude::*;

use crate::dup::{push_deep, Dup};
use crate::models::{HealthCheck, RestartPolicy};
use crate::text::{
    ascii_lower, concat2, dec, dec_string, first_piece, first_piece_of, is_ascii_alnum, owned,
    push_char, trim, trim_end_char, trim_owned, trim_start_char, uuid_string, uuid_text,
};

verus! {

/// Longest host name a container gets.
pub const MAX_HOSTNAME_LEN: usize = 63;

/// How one char of an identifier appears in a host name: ASCII letters and
/// digits lower-cased, anything else as '-'.
pub open spec fn host_char(c: char) -> char {
    if is_ascii_alnum(c) {
        ascii_lower(c)
    } else {
        '-'
    }
}

/// The host name built from the chars of `s` before trimming dashes: mapped
/// chars, runs of '-' collapsed, stopping once 63 chars are reached.
pub open spec fn host_acc(s: Seq<char>) -> Seq<char>
    decreases s.len(),
{
    if s.len() == 0 {
        Seq::empty()
    } else {
        let prev = host_acc(s.drop_last());
        let c = host_char(s.last());
        if prev.len() >= 63 {
            prev
        } else if c == '-' && prev.len() > 0 && prev.last() == '-' {
            prev
        } else {
            prev.push(c)
        }
    }
}

/// The container host name derived from an identifier: the accumulated
/// chars with leading and trailing dashes removed, or "containr" if nothing
/// is left.
pub open spec fn hostname_of(id: Seq<char>) -> Seq<char> {
    let h = trim_start_char(trim_end_char(host_acc(id), '-'), '-');
    if h.len() == 0 {
        "containr"@
    } else {
        h
    }
}

/// A valid host name char: lower-case ASCII letter, digit, or '-'.
pub open spec fn hostname_char_ok(c: char) -> bool {
    ('a' <= c && c <= 'z') || ('0' <= c && c <= '9') || c == '-'
}

proof fn lemma_host_acc_props(s: Seq<char>)
    ensures
        host_acc(s).len() <= 63,
        forall|i: int| 0 <= i < host_acc(s).len() ==> hostname_char_ok(#[trigger] host_acc(s)[i]),
    decreases s.len(),
{
    if s.len() > 0 {
        lemma_host_acc_props(s.drop_last());
    }
}

proof fn lemma_trim_end_char_prefix(s: Seq<char>, c: char)
    ensures
        trim_end_char(s, c).len() <= s.len(),
        trim_end_char(s, c) == s.take(trim_end_char(s, c).len() as int),
        trim_end_char(s, c).len() > 0 ==> trim_end_char(s, c).last() != c,
    decreases s.len(),
{
    if s.len() > 0 && s.last() == c {
        lemma_trim_end_char_prefix(s.drop_last(), c);
        let t = trim_end_char(s.drop_last(), c);
        assert(s.drop_last().take(t.len() as int) =~= s.take(t.len() as int));
    } else {
        assert(s.take(s.len() as int) =~= s);
    }
}

proof fn lemma_trim_start_char_suffix(s: Seq<char>, c: char)
    ensures
        trim_start_char(s, c).len() <= s.len(),
        trim_start_char(s, c) == s.skip(s.len() - trim_start_char(s, c).len()),
        trim_start_char(s, c).len() > 0 ==> trim_start_char(s, c)[0] != c,
    decreases s.len(),
{
    if s.len() > 0 && s[0] == c {
        lemma_trim_start_char_suffix(s.drop_first(), c);
        let t = trim_start_char(s.drop_first(), c);
        assert(s.drop_first().skip(s.len() - 1 - t.len()) =~= s.skip(s.len() - t.len()));
    } else {
        assert(s.skip(0) =~= s);
    }
}

/// The host name of a container: at most 63 chars, only lower-case ASCII
/// letters, digits and '-', never starting or ending with '-'.
pub proof fn lemma_hostname_valid(id: Seq<char>)
    ensures
        hostname_of(id).len() <= 63,
        hostname_of(id).len() > 0,
        forall|i: int| 0 <= i < hostname_of(id).len() ==> hostname_char_ok(#[trigger] hostname_of(id)[i]),
        hostname_of(id)[0] != '-',
        hostname_of(id).last() != '-',
{
    let a = host_acc(id);
    lemma_host_acc_props(id);
    let e = trim_end_char(a, '-');
    lemma_trim_end_char_prefix(a, '-');
    let h = trim_start_char(e, '-');
    lemma_trim_start_char_suffix(e, '-');
    if h.len() == 0 {
        reveal_strlit("containr");
    } else {
        assert forall|i: int| 0 <= i < h.len() implies hostname_char_ok(#[trigger] h[i]) by {
            assert(h[i] == e[e.len() - h.len() + i]);
            assert(e[e.len() - h.len() + i] == a[e.len() - h.len() + i]);
        }
        assert(h.last() == e.last());
    }
}

proof fn lemma_host_acc_step(s: Seq<char>, i: int)
    requires
        0 <= i < s.len(),
    ensures
        host_acc(s.take(i + 1)) == (if host_acc(s.take(i)).len() >= 63 {
            host_acc(s.take(i))
        } else if host_char(s[i]) == '-' && host_acc(s.take(i)).len() > 0 && host_acc(
            s.take(i),
        ).last() == '-' {
            host_acc(s.take(i))
        } else {
            host_acc(s.take(i)).push(host_char(s[i]))
        }),
{
    assert(s.take(i + 1).drop_last() =~= s.take(i));
}

proof fn lemma_host_acc_saturated(s: Seq<char>, i: int)
    requires
        0 <= i <= s.len(),
        host_acc(s.take(i)).len() >= 63,
    ensures
        host_acc(s) == host_acc(s.take(i)),
    decreases s.len() - i,
{
    if i < s.len() {
        lemma_host_acc_step(s, i);
        lemma_host_acc_saturated(s, i + 1);
    } else {
        assert(s.take(i) =~= s);
    }
}

/// The docker host name of a container: its identifier lower-cased, with
/// other chars turned into single dashes, at most 63 chars, no leading or
/// trailing dash, and "containr" if nothing is left.
pub fn build_container_hostname(id: &str) -> (r: String)
    ensures
        r@ == hostname_of(id@),
{
    let n = id.unicode_len();
    let mut acc = String::new();
    let mut count: usize = 0;
    let mut i: usize = 0;
    proof {
        assert(id@.take(0) =~= Seq::<char>::empty());
    }
    while i < n && count < MAX_HOSTNAME_LEN
        invariant
            n == id@.len(),
            i <= n,
            count == acc@.len(),
            acc@ == host_acc(id@.take(i as int)),
        decreases n - i,
    {
        let ch = id.get_char(i);
        let c = if ('a' <= ch && ch <= 'z') || ('0' <= ch && ch <= '9') {
            ch
        } else if 'A' <= ch && ch <= 'Z' {
            ((ch as u8) + 32u8) as char
        } else {
            '-'
        };
        proof {
            lemma_host_acc_step(id@, i as int);
            assert(c == host_char(id@[i as int]));
        }
        let skip = c == '-' && count > 0 && acc.get_char(count - 1) == '-';
        if !skip {
            push_char(&mut acc, c);
            count = count + 1;
        }
        i = i + 1;
    }
    proof {
        if i < n {
            lemma_host_acc_saturated(id@, i as int);
        } else {
            assert(id@.take(n as int) =~= id@);
        }
    }
    let t = crate::text::trim_end_char_owned(acc.as_str(), '-');
    let h = crate::text::trim_start_char_owned(t.as_str(), '-');
    if h.unicode_len() == 0 {
        owned("containr")
    } else {
        h
    }
}

/// How one char of a job name is kept: ASCII letters, digits, '-' and '_'
/// as they are, anything else as '-'.
pub open spec fn job_char(c: char) -> char {
    if is_ascii_alnum(c) || c == '-' || c == '_' {
        c
    } else {
        '-'
    }
}

/// A job name made safe for container names, or "job" when empty.
pub open spec fn sanitized_job_name(s: Seq<char>) -> Seq<char> {
    if s.len() == 0 {
        "job"@
    } else {
        s.map_values(|c: char| job_char(c))
    }
}

/// Sanitizes a service name for cron container names.
pub fn sanitize_job_name(value: &str) -> (r: String)
    ensures
        r@ == sanitized_job_name(value@),
{
    let n = value.unicode_len();
    if n == 0 {
        return owned("job");
    }
    let mut r = String::new();
    let mut i: usize = 0;
    while i < n
        invariant
            n == value@.len(),
            i <= n,
            r@ == value@.take(i as int).map_values(|c: char| job_char(c)),
        decreases n - i,
    {
        let ch = value.get_char(i);
        let c = if ('a' <= ch && ch <= 'z') || ('A' <= ch && ch <= 'Z') || ('0' <= ch && ch <= '9')
            || ch == '-' || ch == '_' {
            ch
        } else {
            '-'
        };
        push_char(&mut r, c);
        proof {
            assert(value@.take(i + 1).map_values(|c: char| job_char(c)) =~= value@.take(
                i as int,
            ).map_values(|c: char| job_char(c)).push(c));
        }
        i = i + 1;
    }
    assert(value@.take(n as int) =~= value@);
    r
}

/// The first `max_len` chars of `s` when its UTF-8 encoding (its byte
/// length, as `str::len` reports it) is longer than `max_len` bytes, else `s`.
pub open spec fn truncated(s: Seq<char>, max_len: nat) -> Seq<char> {
    if (vstd::utf8::encode_utf8(s).len() as usize) <= max_len {
        s
    } else if s.len() <= max_len {
        s
    } else {
        s.take(max_len as int)
    }
}

/// Truncates a name: kept whole when its byte length is at most `max_len`,
/// else its first `max_len` chars.
pub fn truncate_name(value: &str, max_len: usize) -> (r: String)
    ensures
        r@ == truncated(value@, max_len as nat),
{
    if value.len() <= max_len {
        return owned(value);
    }
    let n = value.unicode_len();
    if n <= max_len {
        owned(value)
    } else {
        let r = crate::text::slice_chars(value, 0, max_len);
        assert(r@ =~= value@.take(max_len as int));
        r
    }
}

/// The first dash-separated part of an identifier.
pub open spec fn short_of(s: Seq<char>) -> Seq<char> {
    first_piece(s, '-', '-')
}

/// The part of `value` before its first '-'.
pub fn short_id(value: &str) -> (r: String)
    ensures
        r@ == short_of(value@),
{
    first_piece_of(value, '-', '-')
}

/// The name prefix of the cron containers of a service.
pub open spec fn cron_prefix(app_id: u128, service_name: Seq<char>) -> Seq<char> {
    "containr-cron-"@ + short_of(uuid_text(app_id)) + "-"@ + truncated(
        sanitized_job_name(service_name),
        12,
    ) + "-"@
}

/// The name prefix of the cron containers of a service:
/// "containr-cron-{short app id}-{sanitized name, at most 12 chars}-".
pub fn cron_container_prefix(app_id: u128, service_name: &str) -> (r: String)
    ensures
        r@ == cron_prefix(app_id, service_name@),
{
    let id = uuid_string(app_id);
    let short = short_id(id.as_str());
    let sanitized = sanitize_job_name(service_name);
    let name = truncate_name(sanitized.as_str(), 12);
    let mut r = owned("containr-cron-");
    r.append(short.as_str());
    r.append("-");
    r.append(name.as_str());
    r.append("-");
    r
}

/// The name of a replica container:
/// "containr-{app id}-{service}-{replica}-{short deployment id}".
pub open spec fn replica_container(
    app_id: u128,
    service_name: Seq<char>,
    replica_index: u32,
    deployment_id: u128,
) -> Seq<char> {
    "containr-"@ + uuid_text(app_id) + "-"@ + service_name + "-"@ + dec(replica_index as nat) + "-"@
        + short_of(uuid_text(deployment_id))
}

/// The container name of one replica of a service in a deployment.
pub fn container_name(app_id: u128, service_name: &str, replica_index: u32, deployment_id: u128) -> (r:
    String)
    ensures
        r@ == replica_container(app_id, service_name@, replica_index, deployment_id),
{
    let app = uuid_string(app_id);
    let dep = uuid_string(deployment_id);
    let short = short_id(dep.as_str());
    let idx = dec_string(replica_index as u64);
    let mut r = owned("containr-");
    r.append(app.as_str());
    r.append("-");
    r.append(service_name);
    r.append("-");
    r.append(idx.as_str());
    r.append("-");
    r.append(short.as_str());
    r
}

/// The network aliases of a service replica: its name, and its name with
/// the replica index.
pub fn service_network_aliases(service_name: &str, replica_index: u32) -> (r: Vec<String>)
    ensures
        r.deep_view() == seq![service_name@, service_name@ + "-"@ + dec(replica_index as nat)],
{
    let mut r: Vec<String> = Vec::new();
    push_deep(&mut r, owned(service_name));
    let idx = dec_string(replica_index as u64);
    let mut second = concat2(service_name, "-");
    second.append(idx.as_str());
    push_deep(&mut r, second);
    assert(r.deep_view() =~= seq![service_name@, service_name@ + "-"@ + dec(replica_index as nat)]);
    r
}

/// The docker restart policy name of a service restart policy.
pub open spec fn restart_policy_text(p: RestartPolicy) -> Seq<char> {
    match p {
        RestartPolicy::Never => "no"@,
        RestartPolicy::Always => "always"@,
        RestartPolicy::OnFailure => "on-failure"@,
    }
}

/// The docker restart policy name of a service restart policy.
pub fn restart_policy_name(p: RestartPolicy) -> (r: String)
    ensures
        r@ == restart_policy_text(p),
{
    match p {
        RestartPolicy::Never => owned("no"),
        RestartPolicy::Always => owned("always"),
        RestartPolicy::OnFailure => owned("on-failure"),
    }
}

/// A health check run by docker inside the container.
#[derive(Debug, Clone)]
pub struct HealthCheckCommand {
    pub cmd: Vec<String>,
    pub interval_secs: u32,
    pub timeout_secs: u32,
    pub retries: u32,
}

/// The docker health check of a service: none without a configured check or
/// without a port; else `curl -f http://localhost:{port}{path}` with the
/// configured timing.
pub fn build_health_check(health_check: &Option<HealthCheck>, port: u16) -> (r: Option<
    HealthCheckCommand,
>)
    ensures
        (health_check is None || port == 0) ==> r is None,
        (health_check is Some && port != 0) ==> (r matches Some(c) && c.cmd.deep_view() == seq![
            "curl"@,
            "-f"@,
            "http://localhost:"@ + dec(port as nat) + health_check->0.path@,
        ] && c.interval_secs == health_check->0.interval_secs && c.timeout_secs
            == health_check->0.timeout_secs && c.retries == health_check->0.retries),
{
    let hc = match health_check {
        Some(hc) => hc,
        None => return None,
    };
    if port == 0 {
        return None;
    }
    let mut cmd: Vec<String> = Vec::new();
    push_deep(&mut cmd, owned("curl"));
    push_deep(&mut cmd, owned("-f"));
    let p = dec_string(port as u64);
    let mut url = concat2("http://localhost:", p.as_str());
    url.append(hc.path.as_str());
    push_deep(&mut cmd, url);
    Some(
        HealthCheckCommand {
            cmd,
            interval_secs: hc.interval_secs,
            timeout_secs: hc.timeout_secs,
            retries: hc.retries,
        },
    )
}

/// The exposed ports of a container: the primary port unless zero, then
/// the additional ports, each as "{port}/tcp".
pub open spec fn exposed_ports(primary: u16, additional: Seq<u16>) -> Seq<Seq<char>> {
    let rest = additional.map_values(|p: u16| dec(p as nat) + "/tcp"@);
    if primary > 0 {
        seq![dec(primary as nat) + "/tcp"@] + rest
    } else {
        rest
    }
}

/// The exposed ports of a container.
pub fn build_exposed_ports(primary_port: u16, additional_ports: &Vec<u16>) -> (r: Vec<String>)
    ensures
        r.deep_view() == exposed_ports(primary_port, additional_ports@),
{
    let mut r: Vec<String> = Vec::new();
    if primary_port > 0 {
        let p = dec_string(primary_port as u64);
        push_deep(&mut r, concat2(p.as_str(), "/tcp"));
    }
    let ghost head = r.deep_view();
    let mut i: usize = 0;
    while i < additional_ports.len()
        invariant
            i <= additional_ports@.len(),
            r.deep_view() == head + additional_ports@.take(i as int).map_values(
                |p: u16| dec(p as nat) + "/tcp"@,
            ),
        decreases additional_ports.len() - i,
    {
        let p = dec_string(additional_ports[i] as u64);
        push_deep(&mut r, concat2(p.as_str(), "/tcp"));
        proof {
            assert(additional_ports@.take(i + 1).map_values(|p: u16| dec(p as nat) + "/tcp"@)
                =~= additional_ports@.take(i as int).map_values(|p: u16| dec(p as nat) + "/tcp"@).push(
                dec(additional_ports@[i as int] as nat) + "/tcp"@,
            ));
        }
        i = i + 1;
    }
    proof {
        assert(additional_ports@.take(additional_ports@.len() as int) =~= additional_ports@);
        assert(r.deep_view() =~= exposed_ports(primary_port, additional_ports@));
    }
    r
}

/// The trimmed non-empty aliases, in order.
pub open spec fn clean_aliases(aliases: Seq<Seq<char>>) -> Seq<Seq<char>>
    decreases aliases.len(),
{
    if aliases.len() == 0 {
        Seq::empty()
    } else {
        let prev = clean_aliases(aliases.drop_last());
        let t = trim(aliases.last());
        if t.len() > 0 {
            prev.push(t)
        } else {
            prev
        }
    }
}

/// The network aliases an endpoint is given: the trimmed non-empty ones, or
/// none at all when nothing is left.
pub fn endpoint_aliases(aliases: &Vec<String>) -> (r: Option<Vec<String>>)
    ensures
        clean_aliases(aliases.deep_view()).len() == 0 ==> r is None,
        clean_aliases(aliases.deep_view()).len() > 0 ==> (r matches Some(v) && v.deep_view()
            == clean_aliases(aliases.deep_view())),
{
    let mut r: Vec<String> = Vec::new();
    let mut i: usize = 0;
    proof {
        assert(aliases.deep_view().take(0) =~= Seq::<Seq<char>>::empty());
        assert(r.deep_view() =~= Seq::<Seq<char>>::empty());
    }
    while i < aliases.len()
        invariant
            i <= aliases@.len(),
            r.deep_view() == clean_aliases(aliases.deep_view().take(i as int)),
        decreases aliases.len() - i,
    {
        proof {
            assert(aliases.deep_view().take(i + 1).drop_last() =~= aliases.deep_view().take(
                i as int,
            ));
        }
        let t = trim_owned(aliases[i].as_str());
        if t.unicode_len() > 0 {
            push_deep(&mut r, t);
        }
        i = i + 1;
    }
    proof {
        assert(aliases.deep_view().take(aliases@.len() as int) =~= aliases.deep_view());
    }
    if r.len() == 0 {
        None
    } else {
        Some(r)
    }
}

} // verus!
