//! Routing decisions of the reverse proxy.
use vstd::prelude::*;

use crate::config::Config;
use crate::dup::Dup;
use vstd::utf8::encode_utf8;
use crate::text::{
    ascii_lower_seq, concat2, concat3, contains_char, contains_seq, contains_str, first_piece,
    first_piece_of, has_prefix, owned, starts_with, str_eq, strip_prefix_owned, trim,
    trim_end_char, trim_end_char_owned, trim_owned, trim_start_str, trim_start_str_owned,
};

verus! {

/// What std's `str::to_lowercase` yields for a text (full Unicode
/// lower-casing).
pub uninterp spec fn unicode_lower(s: Seq<char>) -> Seq<char>;

/// std's `str::to_lowercase`. Besides naming the result, the contract states
/// the documented fact that ASCII text is lower-cased char by char.
#[verifier::external_body]
pub(crate) fn to_lowercase(s: &str) -> (r: String)
    ensures
        r@ == unicode_lower(s@),
        vstd::string::is_ascii(s) ==> r@ == ascii_lower_seq(s@),
{
    s.to_lowercase()
}

/// A host name without any leading "https://" and then "http://" prefixes
/// and trailing slashes, lower-cased.
pub open spec fn normalized_hostname(h: Seq<char>) -> Seq<char> {
    unicode_lower(trim_end_char(trim_start_str(trim_start_str(h, "https://"@), "http://"@), '/'))
}

/// Normalizes a configured host name for comparison with request hosts.
pub fn normalize_hostname(hostname: &str) -> (r: String)
    ensures
        r@ == normalized_hostname(hostname@),
{
    let a = trim_start_str_owned(hostname, "https://");
    let b = trim_start_str_owned(a.as_str(), "http://");
    let c = trim_end_char_owned(b.as_str(), '/');
    to_lowercase(c.as_str())
}

/// The upstream address and scheme of a management endpoint: the host and
/// port after an optional scheme and before the first '/', with the
/// scheme's default port added when none is given.
pub open spec fn storage_upstream(endpoint: Seq<char>) -> Option<(Seq<char>, bool)> {
    let t = trim(endpoint);
    if t.len() == 0 {
        None
    } else {
        let tls = has_prefix(t, "https://"@);
        let rest = if tls {
            t.skip(8)
        } else if has_prefix(t, "http://"@) {
            t.skip(7)
        } else {
            t
        };
        let authority = trim(first_piece(rest, '/', '/'));
        if authority.len() == 0 {
            None
        } else if authority.contains(':') {
            Some((authority, tls))
        } else {
            Some(
                (
                    authority + ":"@ + (if tls {
                        "443"@
                    } else {
                        "80"@
                    }),
                    tls,
                ),
            )
        }
    }
}

/// Parses the object store's management endpoint into an upstream address
/// and whether it speaks TLS.
pub fn parse_storage_management_upstream(endpoint: &str) -> (r: Option<(String, bool)>)
    ensures
        match storage_upstream(endpoint@) {
            Some((a, tls)) => r matches Some((ra, rtls)) && ra@ == a && rtls == tls,
            None => r is None,
        },
{
    let t = trim_owned(endpoint);
    if t.unicode_len() == 0 {
        return None;
    }
    proof {
        reveal_strlit("https://");
        reveal_strlit("http://");
    }
    let (rest, tls) = match strip_prefix_owned(t.as_str(), "https://") {
        Some(rest) => (rest, true),
        None => match strip_prefix_owned(t.as_str(), "http://") {
            Some(rest) => (rest, false),
            None => (owned(t.as_str()), false),
        },
    };
    let piece = first_piece_of(rest.as_str(), '/', '/');
    let authority = trim_owned(piece.as_str());
    if authority.unicode_len() == 0 {
        return None;
    }
    if contains_char(authority.as_str(), ':') {
        Some((authority, tls))
    } else {
        let port = if tls {
            "443"
        } else {
            "80"
        };
        Some((concat3(authority.as_str(), ":", port), tls))
    }
}

/// The host a request is for: the first of the Host header, the URI host
/// and the URI authority that is present, up to any ':'; empty if none is.
pub open spec fn request_host_of(
    host_header: Option<Seq<char>>,
    uri_host: Option<Seq<char>>,
    authority: Option<Seq<char>>,
) -> Seq<char> {
    let chosen = match host_header {
        Some(h) => Some(h),
        None => match uri_host {
            Some(h) => Some(h),
            None => authority,
        },
    };
    match chosen {
        Some(h) => first_piece(h, ':', ':'),
        None => Seq::empty(),
    }
}

/// The host a request is for.
pub fn request_host(host_header: Option<&str>, uri_host: Option<&str>, authority: Option<&str>) -> (r:
    String)
    ensures
        r@ == request_host_of(
            match host_header {
                Some(h) => Some(h@),
                None => None,
            },
            match uri_host {
                Some(h) => Some(h@),
                None => None,
            },
            match authority {
                Some(h) => Some(h@),
                None => None,
            },
        ),
{
    let chosen = match host_header {
        Some(h) => Some(h),
        None => match uri_host {
            Some(h) => Some(h),
            None => authority,
        },
    };
    match chosen {
        Some(h) => first_piece_of(h, ':', ':'),
        None => String::new(),
    }
}

/// Whether the Upgrade header asks for a WebSocket, in any letter case.
pub fn is_websocket_upgrade(upgrade: &str) -> (r: bool)
    ensures
        r == (ascii_lower_seq(upgrade@) == "websocket"@),
{
    let l = crate::text::ascii_lowercase(upgrade);
    str_eq(l.as_str(), "websocket")
}

/// Whether the content type marks a gRPC request.
pub fn is_grpc_content_type(content_type: &str) -> (r: bool)
    ensures
        r == has_prefix(content_type@, "application/grpc"@),
{
    starts_with(content_type, "application/grpc")
}

/// Whether the Accept header asks for server-sent events.
pub fn is_event_stream(accept: &str) -> (r: bool)
    ensures
        r == contains_seq(accept@, "text/event-stream"@),
{
    contains_str(accept, "text/event-stream")
}

/// The protocol a request is logged under: WebSocket before gRPC before
/// server-sent events before plain http.
pub open spec fn protocol_text(websocket: bool, grpc: bool, sse: bool) -> Seq<char> {
    if websocket {
        "websocket"@
    } else if grpc {
        "grpc"@
    } else if sse {
        "sse"@
    } else {
        "http"@
    }
}

/// The protocol a request is logged under.
pub fn protocol_label(websocket: bool, grpc: bool, sse: bool) -> (r: &'static str)
    ensures
        r@ == protocol_text(websocket, grpc, sse),
{
    if websocket {
        "websocket"
    } else if grpc {
        "grpc"
    } else if sse {
        "sse"
    } else {
        "http"
    }
}

/// The path prefix of ACME http-01 challenges.
pub open spec fn challenge_prefix() -> Seq<char> {
    "/.well-known/acme-challenge/"@
}

/// The challenge token a path asks for, if it is a challenge path: the path
/// with every leading copy of the challenge prefix removed.
pub fn acme_challenge_token(path: &str) -> (r: Option<String>)
    ensures
        has_prefix(path@, challenge_prefix()) ==> (r matches Some(t) && t@ == trim_start_str(
            path@,
            challenge_prefix(),
        )),
        !has_prefix(path@, challenge_prefix()) ==> r is None,
{
    if starts_with(path, "/.well-known/acme-challenge/") {
        Some(trim_start_str_owned(path, "/.well-known/acme-challenge/"))
    } else {
        None
    }
}

/// The per-request view of the proxy configuration: the trimmed base
/// domain, the normalized public storage host name and the storage
/// management upstream.
#[derive(Debug, Clone)]
pub struct ProxySettings {
    pub base_domain: String,
    pub storage_public_hostname: Option<String>,
    pub storage_upstream: Option<(String, bool)>,
}

/// The proxy settings read from the configuration.
pub fn proxy_settings(config: &Config) -> (r: ProxySettings)
    ensures
        r.base_domain@ == trim(config.proxy.base_domain@),
        match config.storage.rustfs_public_hostname {
            Some(h) => if trim(h@).len() > 0 {
                r.storage_public_hostname matches Some(n) && n@ == normalized_hostname(trim(h@))
            } else {
                r.storage_public_hostname is None
            },
            None => r.storage_public_hostname is None,
        },
        match storage_upstream(config.storage.rustfs_management_endpoint@) {
            Some((a, tls)) => r.storage_upstream matches Some((ra, rtls)) && ra@ == a && rtls == tls,
            None => r.storage_upstream is None,
        },
{
    let base_domain = trim_owned(config.proxy.base_domain.as_str());
    let storage_public_hostname = match &config.storage.rustfs_public_hostname {
        Some(h) => {
            let t = trim_owned(h.as_str());
            if t.unicode_len() > 0 {
                Some(normalize_hostname(t.as_str()))
            } else {
                None
            }
        },
        None => None,
    };
    let storage_upstream = parse_storage_management_upstream(
        config.storage.management_endpoint(),
    );
    ProxySettings { base_domain, storage_public_hostname, storage_upstream }
}

/// What the proxy does with a request.
#[derive(Debug, Clone, PartialEq, Eq)]
pub enum RequestAction {
    /// Answer 200 with the challenge's key authorization.
    ServeChallenge(String),
    /// Answer 301 to the https URL.
    RedirectHttps(String),
    /// Answer 426: https is required but no certificate exists yet.
    HttpsRequired,
    /// Forward to the api server.
    ForwardApi,
    /// Forward to the object store at the address, over TLS or not.
    ForwardStorage(String, bool),
    /// Answer 503: the object store has no upstream.
    StorageNotConfigured,
    /// Forward to an upstream of the host's route, if one can be selected.
    ForwardRoute,
}

/// Whether a request for `host` must use https: the base domain and the
/// public storage host always, a routed domain when its route says so.
pub open spec fn https_required_for(
    host: Seq<char>,
    base_domain: Seq<char>,
    storage_host: Option<Seq<char>>,
    route_ssl: Option<bool>,
) -> bool {
    if host.len() == 0 {
        false
    } else if host == base_domain {
        true
    } else if storage_host == Some(host) {
        true
    } else {
        match route_ssl {
            Some(ssl) => ssl,
            None => false,
        }
    }
}

/// The action for a request.
pub open spec fn request_action_of(
    host: Seq<char>,
    path_and_query: Seq<char>,
    challenge: Option<Seq<char>>,
    is_tls: bool,
    has_certificate: bool,
    route_ssl: Option<bool>,
    base_domain: Seq<char>,
    storage_host: Option<Seq<char>>,
    storage: Option<(Seq<char>, bool)>,
) -> RequestActionModel {
    match challenge {
        Some(key) => RequestActionModel::ServeChallenge(key),
        None => if !is_tls && https_required_for(host, base_domain, storage_host, route_ssl) {
            if has_certificate {
                RequestActionModel::RedirectHttps("https://"@ + host + path_and_query)
            } else {
                RequestActionModel::HttpsRequired
            }
        } else if host == base_domain {
            RequestActionModel::ForwardApi
        } else if storage_host == Some(host) {
            match storage {
                Some((a, tls)) => RequestActionModel::ForwardStorage(a, tls),
                None => RequestActionModel::StorageNotConfigured,
            }
        } else {
            RequestActionModel::ForwardRoute
        },
    }
}

/// The mathematical form of a request action.
pub enum RequestActionModel {
    ServeChallenge(Seq<char>),
    RedirectHttps(Seq<char>),
    HttpsRequired,
    ForwardApi,
    ForwardStorage(Seq<char>, bool),
    StorageNotConfigured,
    ForwardRoute,
}

impl DeepView for RequestAction {
    type V = RequestActionModel;

    open spec fn deep_view(&self) -> RequestActionModel {
        match self {
            RequestAction::ServeChallenge(k) => RequestActionModel::ServeChallenge(k@),
            RequestAction::RedirectHttps(u) => RequestActionModel::RedirectHttps(u@),
            RequestAction::HttpsRequired => RequestActionModel::HttpsRequired,
            RequestAction::ForwardApi => RequestActionModel::ForwardApi,
            RequestAction::ForwardStorage(a, t) => RequestActionModel::ForwardStorage(a@, *t),
            RequestAction::StorageNotConfigured => RequestActionModel::StorageNotConfigured,
            RequestAction::ForwardRoute => RequestActionModel::ForwardRoute,
        }
    }
}

/// Decides what to do with a request for `host`.
///
/// `challenge` is the key authorization stored for the request's ACME
/// challenge token, when the path is a challenge path and one is stored;
/// `has_certificate` tells whether a certificate exists for the host;
/// `route_ssl` is whether the host's route requires https, when the host
/// has a route.
pub fn decide_request(
    host: &str,
    path_and_query: &str,
    challenge: Option<String>,
    is_tls: bool,
    has_certificate: bool,
    route_ssl: Option<bool>,
    settings: &ProxySettings,
) -> (r: RequestAction)
    ensures
        r.deep_view() == request_action_of(
            host@,
            path_and_query@,
            challenge.deep_view(),
            is_tls,
            has_certificate,
            route_ssl,
            settings.base_domain@,
            settings.storage_public_hostname.deep_view(),
            match settings.storage_upstream {
                Some((a, t)) => Some((a@, t)),
                None => None,
            },
        ),
{
    if let Some(key) = challenge {
        return RequestAction::ServeChallenge(key);
    }
    let is_storage_host = match &settings.storage_public_hostname {
        Some(s) => str_eq(s.as_str(), host),
        None => false,
    };
    let is_base = str_eq(host, settings.base_domain.as_str());
    let https_required = if host.unicode_len() == 0 {
        false
    } else if is_base {
        true
    } else if is_storage_host {
        true
    } else {
        match route_ssl {
            Some(ssl) => ssl,
            None => false,
        }
    };
    if !is_tls && https_required {
        if has_certificate {
            let mut url = concat2("https://", host);
            url.append(path_and_query);
            return RequestAction::RedirectHttps(url);
        } else {
            return RequestAction::HttpsRequired;
        }
    }
    if is_base {
        return RequestAction::ForwardApi;
    }
    if is_storage_host {
        return match &settings.storage_upstream {
            Some((a, tls)) => RequestAction::ForwardStorage(crate::text::copy_string(a), *tls),
            None => RequestAction::StorageNotConfigured,
        };
    }
    RequestAction::ForwardRoute
}


/// A file of the embedded web frontend.
pub struct StaticFile {
    pub content_type: String,
    pub data: Vec<u8>,
}

/// The asset a request path names: the path without leading '/', or
/// "index.html" for the root.
pub open spec fn static_asset_name(path: Seq<char>) -> Seq<char> {
    let p = crate::text::trim_start_char(path, '/');
    if p.len() == 0 {
        "index.html"@
    } else {
        p
    }
}

/// The asset name of a request path.
pub fn static_asset_path(path: &str) -> (r: String)
    ensures
        r@ == static_asset_name(path@),
{
    let p = crate::text::trim_start_char_owned(path, '/');
    if p.unicode_len() == 0 {
        owned("index.html")
    } else {
        p
    }
}

/// The file served for a request: the named asset when it exists (`asset`
/// holds its content type and bytes), else, for a path without an
/// extension dot, the frontend's index page (`index`), else nothing.
pub fn static_response(path: &str, asset: Option<(String, Vec<u8>)>, index: Option<Vec<u8>>) -> (r:
    Option<StaticFile>)
    ensures
        match asset {
            Some(a) => r matches Some(f) && f.content_type@ == a.0@ && f.data@ == a.1@,
            None => if !static_asset_name(path@).contains('.') && index is Some {
                r matches Some(f) && f.content_type@ == "text/html"@ && f.data@ == index->0@
            } else {
                r is None
            },
        },
{
    match asset {
        Some((content_type, data)) => Some(StaticFile { content_type, data }),
        None => {
            let name = static_asset_path(path);
            if !contains_char(name.as_str(), '.') {
                match index {
                    Some(data) => Some(StaticFile { content_type: owned("text/html"), data }),
                    None => None,
                }
            } else {
                None
            }
        },
    }
}


/// An ACME challenge is answered whatever the host and scheme, and a
/// request that came over TLS is never redirected or refused for want of
/// TLS.
pub proof fn lemma_request_policy(
    host: Seq<char>,
    path_and_query: Seq<char>,
    challenge: Option<Seq<char>>,
    is_tls: bool,
    has_certificate: bool,
    route_ssl: Option<bool>,
    base_domain: Seq<char>,
    storage_host: Option<Seq<char>>,
    storage: Option<(Seq<char>, bool)>,
)
    ensures
        ({
            let a = request_action_of(
                host,
                path_and_query,
                challenge,
                is_tls,
                has_certificate,
                route_ssl,
                base_domain,
                storage_host,
                storage,
            );
            &&& challenge matches Some(k) ==> a == RequestActionModel::ServeChallenge(k)
            &&& is_tls ==> !(a is RedirectHttps) && !(a is HttpsRequired)
        }),
{
}


/// What the proxy remembers about a request while it is served. The
/// upstream chosen among a route's upstreams is remembered by its address,
/// by which the route manager knows the choice.
#[derive(Debug, Clone)]
pub struct ProxyCtx {
    pub upstream_addr: Option<String>,
    pub upstream_tls: bool,
    pub upstream_selection: Option<String>,
    pub is_websocket: bool,
    pub is_grpc: bool,
    pub is_sse: bool,
}

/// `ProxyCtx` with its strings as sequences.
pub struct ProxyCtxModel {
    pub upstream_addr: Option<Seq<char>>,
    pub upstream_tls: bool,
    pub upstream_selection: Option<Seq<char>>,
    pub is_websocket: bool,
    pub is_grpc: bool,
    pub is_sse: bool,
}

impl DeepView for ProxyCtx {
    type V = ProxyCtxModel;

    open spec fn deep_view(&self) -> ProxyCtxModel {
        ProxyCtxModel {
            upstream_addr: self.upstream_addr.deep_view(),
            upstream_tls: self.upstream_tls,
            upstream_selection: self.upstream_selection.deep_view(),
            is_websocket: self.is_websocket,
            is_grpc: self.is_grpc,
            is_sse: self.is_sse,
        }
    }
}

/// A response the proxy writes itself, which ends the request: its status,
/// its headers in order, and its body. Without a body the stream ends with
/// the headers.
pub struct ProxyReply {
    pub status: u16,
    pub headers: Vec<(String, String)>,
    pub body: Option<String>,
}

/// `ProxyReply` with its strings as sequences.
pub struct ProxyReplyModel {
    pub status: u16,
    pub headers: Seq<(Seq<char>, Seq<char>)>,
    pub body: Option<Seq<char>>,
}

impl DeepView for ProxyReply {
    type V = ProxyReplyModel;

    open spec fn deep_view(&self) -> ProxyReplyModel {
        ProxyReplyModel {
            status: self.status,
            headers: self.headers@.map_values(|h: (String, String)| (h.0@, h.1@)),
            body: self.body.deep_view(),
        }
    }
}

/// A plain-text reply: the status, `Content-Type: text/plain`, the body's
/// length in UTF-8 bytes as `Content-Length`, and the body.
pub open spec fn text_reply(status: u16, body: Seq<char>) -> ProxyReplyModel {
    ProxyReplyModel {
        status,
        headers: seq![
            ("Content-Type"@, "text/plain"@),
            ("Content-Length"@, crate::text::dec(encode_utf8(body).len())),
        ],
        body: Some(body),
    }
}

/// The reply to a request that is answered by the proxy itself, `None` when
/// it is forwarded. `route_upstream` is the address of the upstream selected
/// for the host's route, if one could be.
pub open spec fn reply_for(action: RequestActionModel, route_upstream: Option<Seq<char>>) -> Option<
    ProxyReplyModel,
> {
    match action {
        RequestActionModel::ServeChallenge(key) => Some(text_reply(200, key)),
        RequestActionModel::RedirectHttps(url) => Some(
            ProxyReplyModel {
                status: 301,
                headers: seq![("Location"@, url), ("Content-Length"@, "0"@)],
                body: None,
            },
        ),
        RequestActionModel::HttpsRequired => Some(
            text_reply(426, "https required; certificate provisioning in progress"@),
        ),
        RequestActionModel::StorageNotConfigured => Some(
            text_reply(503, "storage proxy is not configured"@),
        ),
        RequestActionModel::ForwardRoute => match route_upstream {
            Some(_) => None,
            None => Some(text_reply(404, "no route found"@)),
        },
        _ => None,
    }
}

/// The request's context after its action: a forwarded request records its
/// upstream address and whether it is reached over TLS (the api and the
/// object store are no route selection), a request answered here leaves the
/// context as it was.
pub open spec fn ctx_after(
    ctx: ProxyCtxModel,
    action: RequestActionModel,
    api_upstream: Seq<char>,
    route_upstream: Option<Seq<char>>,
) -> ProxyCtxModel {
    match action {
        RequestActionModel::ForwardApi => ProxyCtxModel {
            upstream_addr: Some(api_upstream),
            upstream_tls: false,
            upstream_selection: None,
            ..ctx
        },
        RequestActionModel::ForwardStorage(a, tls) => ProxyCtxModel {
            upstream_addr: Some(a),
            upstream_tls: tls,
            upstream_selection: None,
            ..ctx
        },
        RequestActionModel::ForwardRoute => match route_upstream {
            Some(u) => ProxyCtxModel {
                upstream_addr: Some(u),
                upstream_tls: false,
                upstream_selection: Some(u),
                ..ctx
            },
            None => ctx,
        },
        _ => ctx,
    }
}

fn plain_reply(status: u16, body: String) -> (r: ProxyReply)
    ensures
        r.deep_view() == text_reply(status, body@),
{
    let n = body.as_str().as_bytes().len();
    let len = crate::text::dec_string(n as u64);
    let mut headers: Vec<(String, String)> = Vec::new();
    headers.push((owned("Content-Type"), owned("text/plain")));
    headers.push((owned("Content-Length"), len));
    let r = ProxyReply { status, headers, body: Some(body) };
    proof {
        assert(r.headers@.map_values(|h: (String, String)| (h.0@, h.1@)) =~= text_reply(
            status,
            body@,
        ).headers);
    }
    r
}

/// What the proxy does for a decided request: the reply it writes when it
/// answers the request itself (`Some`, the request is handled), else
/// `None` with the upstream recorded in `ctx` (the request is forwarded).
/// `api_upstream` is the api server's address and `route_upstream` the
/// address selected among the host's route upstreams, if any.
pub fn proxy_response(
    action: RequestAction,
    ctx: &mut ProxyCtx,
    api_upstream: &str,
    route_upstream: Option<String>,
) -> (r: Option<ProxyReply>)
    ensures
        r.deep_view() == reply_for(action.deep_view(), route_upstream.deep_view()),
        final(ctx).deep_view() == ctx_after(
            old(ctx).deep_view(),
            action.deep_view(),
            api_upstream@,
            route_upstream.deep_view(),
        ),
{
    match action {
        RequestAction::ServeChallenge(key) => Some(plain_reply(200, key)),
        RequestAction::RedirectHttps(url) => {
            let mut headers: Vec<(String, String)> = Vec::new();
            let ghost u = url@;
            headers.push((owned("Location"), url));
            headers.push((owned("Content-Length"), owned("0")));
            let r = ProxyReply { status: 301, headers, body: None };
            proof {
                assert(r.headers@.map_values(|h: (String, String)| (h.0@, h.1@)) =~= seq![
                    ("Location"@, u),
                    ("Content-Length"@, "0"@),
                ]);
            }
            Some(r)
        },
        RequestAction::HttpsRequired => Some(
            plain_reply(426, owned("https required; certificate provisioning in progress")),
        ),
        RequestAction::StorageNotConfigured => Some(
            plain_reply(503, owned("storage proxy is not configured")),
        ),
        RequestAction::ForwardApi => {
            ctx.upstream_addr = Some(owned(api_upstream));
            ctx.upstream_tls = false;
            ctx.upstream_selection = None;
            None
        },
        RequestAction::ForwardStorage(a, tls) => {
            ctx.upstream_addr = Some(a);
            ctx.upstream_tls = tls;
            ctx.upstream_selection = None;
            None
        },
        RequestAction::ForwardRoute => match route_upstream {
            Some(u) => {
                ctx.upstream_addr = Some(u.dup());
                ctx.upstream_tls = false;
                ctx.upstream_selection = Some(u);
                None
            },
            None => Some(plain_reply(404, owned("no route found"))),
        },
    }
}

impl ProxyCtx {
    /// The state of a request that has not been routed yet.
    pub fn new_ctx() -> (r: ProxyCtx)
        ensures
            r.upstream_addr is None,
            !r.upstream_tls,
            r.upstream_selection is None,
            !r.is_websocket,
            !r.is_grpc,
            !r.is_sse,
    {
        ProxyCtx {
            upstream_addr: None,
            upstream_tls: false,
            upstream_selection: None,
            is_websocket: false,
            is_grpc: false,
            is_sse: false,
        }
    }
}

/// Headers set on the request sent upstream: the forwarded protocol for
/// websocket and gRPC traffic, no proxy buffering for event streams.
pub open spec fn upstream_header_list(is_websocket: bool, is_grpc: bool, is_sse: bool) -> Seq<
    (Seq<char>, Seq<char>),
> {
    (if is_websocket || is_grpc {
        seq![("X-Forwarded-Proto"@, "http"@)]
    } else {
        Seq::empty()
    }) + (if is_sse {
        seq![("X-Accel-Buffering"@, "no"@)]
    } else {
        Seq::empty()
    })
}

/// The headers to set on the upstream request.
pub fn upstream_request_headers(ctx: &ProxyCtx) -> (r: Vec<(String, String)>)
    ensures
        r@.map_values(|h: (String, String)| (h.0@, h.1@)) == upstream_header_list(
            ctx.is_websocket,
            ctx.is_grpc,
            ctx.is_sse,
        ),
{
    let mut r: Vec<(String, String)> = Vec::new();
    if ctx.is_websocket || ctx.is_grpc {
        r.push((owned("X-Forwarded-Proto"), owned("http")));
    }
    if ctx.is_sse {
        r.push((owned("X-Accel-Buffering"), owned("no")));
    }
    proof {
        assert(r@.map_values(|h: (String, String)| (h.0@, h.1@)) =~= upstream_header_list(
            ctx.is_websocket,
            ctx.is_grpc,
            ctx.is_sse,
        ));
    }
    r
}

/// The headers to set on the response of an event stream: no buffering,
/// no caching.
pub fn response_headers(ctx: &ProxyCtx) -> (r: Vec<(String, String)>)
    ensures
        ctx.is_sse ==> r@.map_values(|h: (String, String)| (h.0@, h.1@)) == seq![
            ("X-Accel-Buffering"@, "no"@),
            ("Cache-Control"@, "no-cache"@),
        ],
        !ctx.is_sse ==> r@.len() == 0,
{
    let mut r: Vec<(String, String)> = Vec::new();
    if ctx.is_sse {
        r.push((owned("X-Accel-Buffering"), owned("no")));
        r.push((owned("Cache-Control"), owned("no-cache")));
        proof {
            assert(r@.map_values(|h: (String, String)| (h.0@, h.1@)) =~= seq![
                ("X-Accel-Buffering"@, "no"@),
                ("Cache-Control"@, "no-cache"@),
            ]);
        }
    }
    r
}

/// The certificate and key files of a domain: `<dir>/<domain>.pem` and
/// `<dir>/<domain>.key`.
pub fn certificate_files(certs_dir: &str, domain: &str) -> (r: (String, String))
    ensures
        r.0@ == crate::text::path_join(certs_dir@, domain@ + ".pem"@),
        r.1@ == crate::text::path_join(certs_dir@, domain@ + ".key"@),
{
    let pem = concat2(domain, ".pem");
    let key = concat2(domain, ".key");
    (crate::text::join_path(certs_dir, pem.as_str()), crate::text::join_path(certs_dir, key.as_str()))
}

/// A cached certificate is still current when neither file's modification
/// time changed since it was loaded.
pub fn cached_certificate_current(
    cached_cert: Option<crate::ids::Timestamp>,
    cached_key: Option<crate::ids::Timestamp>,
    cert: Option<crate::ids::Timestamp>,
    key: Option<crate::ids::Timestamp>,
) -> (r: bool)
    ensures
        r == (cached_cert == cert && cached_key == key),
{
    let a = match (cached_cert, cert) {
        (Some(x), Some(y)) => x.secs == y.secs && x.nanos == y.nanos,
        (None, None) => true,
        _ => false,
    };
    let b = match (cached_key, key) {
        (Some(x), Some(y)) => x.secs == y.secs && x.nanos == y.nanos,
        (None, None) => true,
        _ => false,
    };
    a && b
}

/// The host recorded in a request log: the Host header without its port,
/// else the routed domain.
pub fn request_log_host(host_header: Option<&str>, route_domain: &str) -> (r: String)
    ensures
        r@ == match host_header {
            Some(h) => first_piece(h@, ':', ':'),
            None => route_domain@,
        },
{
    match host_header {
        Some(h) => first_piece_of(h, ':', ':'),
        None => owned(route_domain),
    }
}

/// A plain-http request for a host whose route requires https is never
/// forwarded: without an ACME challenge to answer, for a non-empty host
/// other than the dashboard's and the storage host, it is redirected to the
/// same host and path over https when a certificate exists, and refused
/// with "https required" while none does.
pub proof fn lemma_route_https_enforced(
    host: Seq<char>,
    path_and_query: Seq<char>,
    has_certificate: bool,
    base_domain: Seq<char>,
    storage_host: Option<Seq<char>>,
    storage: Option<(Seq<char>, bool)>,
)
    requires
        host.len() > 0,
        host != base_domain,
        storage_host != Some(host),
    ensures
        ({
            let a = request_action_of(
                host,
                path_and_query,
                None,
                false,
                has_certificate,
                Some(true),
                base_domain,
                storage_host,
                storage,
            );
            &&& has_certificate ==> a == RequestActionModel::RedirectHttps(
                "https://"@ + host + path_and_query,
            )
            &&& !has_certificate ==> a == RequestActionModel::HttpsRequired
            &&& !(a is ForwardRoute) && !(a is ForwardApi) && !(a is ForwardStorage)
        }),
{
}

/// The dashboard's domain and the storage host are always served over
/// https: a plain-http request for them, without a challenge, is never
/// forwarded.
pub proof fn lemma_managed_hosts_https_enforced(
    host: Seq<char>,
    path_and_query: Seq<char>,
    has_certificate: bool,
    route_ssl: Option<bool>,
    base_domain: Seq<char>,
    storage_host: Option<Seq<char>>,
    storage: Option<(Seq<char>, bool)>,
)
    requires
        host.len() > 0,
        host == base_domain || storage_host == Some(host),
    ensures
        ({
            let a = request_action_of(
                host,
                path_and_query,
                None,
                false,
                has_certificate,
                route_ssl,
                base_domain,
                storage_host,
                storage,
            );
            a is RedirectHttps || a is HttpsRequired
        }),
{
}

/// Where a request that needs no https answer goes: over TLS, or for a
/// host whose route does not require https, the dashboard's domain is
/// forwarded to the api, the storage host to the object store (or refused
/// when it has no upstream), and any other host to its route.
pub proof fn lemma_forward_targets(
    host: Seq<char>,
    path_and_query: Seq<char>,
    is_tls: bool,
    has_certificate: bool,
    route_ssl: Option<bool>,
    base_domain: Seq<char>,
    storage_host: Option<Seq<char>>,
    storage: Option<(Seq<char>, bool)>,
)
    requires
        is_tls || (host != base_domain && storage_host != Some(host) && route_ssl != Some(true)),
    ensures
        ({
            let a = request_action_of(
                host,
                path_and_query,
                None,
                is_tls,
                has_certificate,
                route_ssl,
                base_domain,
                storage_host,
                storage,
            );
            &&& host == base_domain ==> a == RequestActionModel::ForwardApi
            &&& (host != base_domain && storage_host == Some(host)) ==> (match storage {
                Some((addr, tls)) => a == RequestActionModel::ForwardStorage(addr, tls),
                None => a == RequestActionModel::StorageNotConfigured,
            })
            &&& (host != base_domain && storage_host != Some(host)) ==> a
                == RequestActionModel::ForwardRoute
        }),
{
}

} // verus!
