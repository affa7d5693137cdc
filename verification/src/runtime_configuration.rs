//! Startup configuration of the host-routing gateway.
//!
//! The versioned document is compiled into domain values before any listener starts. Unknown
//! versions, privileged listeners, unbounded limits, malformed routes, non-origin upstream URLs
//! and implicit private-network upstreams fail closed. Reading the document and resolving upstream
//! host names are left to the caller, which hands in their outcomes.

use vstd::prelude::*;
use vstd::string::*;

use crate::host_routing::{
    first_duplicate, is_route_id, opt_view, sort_routes, Route, RouteId, RouteTable, RoutingError,
    RoutingErrorView, UpstreamScheme, UpstreamTarget,
};
use crate::net::{in_ipv4_block, ipv4_bits, lemma_ipv4_non_public_blocks, IpAddress, SocketAddress};
use crate::text::{chars_eq, chars_of, contains_char, dec, lower_seq, lower_string, push_dec, string_from_range};

verus! {

/// Largest number of routes accepted.
pub const MAX_ROUTES: usize = 256;
/// Ceiling for `max_body_bytes`.
pub const MAX_BODY_BYTES_CEILING: u64 = 536870912;
/// Ceiling for `max_header_bytes`.
pub const MAX_HEADER_BYTES_CEILING: usize = 262144;
/// Ceiling for `max_header_count`.
pub const MAX_HEADER_COUNT_CEILING: usize = 512;
/// Ceiling for every timeout, in milliseconds.
pub const MAX_TIMEOUT_MS: u64 = 120000;

/// Validated request and upstream resource limits.
#[derive(Clone, Copy, Debug, PartialEq, Eq, Structural)]
pub struct Limits {
    /// Maximum downstream header fields.
    pub max_header_count: usize,
    /// Maximum aggregate downstream header name/value bytes.
    pub max_header_bytes: usize,
    /// Maximum streamed downstream request body bytes.
    pub max_body_bytes: u64,
    /// TCP connection timeout to an upstream, in milliseconds.
    pub connect_timeout_ms: u64,
    /// Per-read upstream timeout, in milliseconds.
    pub read_timeout_ms: u64,
    /// Per-write upstream timeout, in milliseconds.
    pub write_timeout_ms: u64,
}

/// The limits section of the configuration document, as written.
#[derive(Clone, Copy, Debug, PartialEq, Eq, Structural)]
pub struct RawLimits {
    pub max_header_count: usize,
    pub max_header_bytes: usize,
    pub max_body_bytes: u64,
    pub connect_timeout_ms: u64,
    pub read_timeout_ms: u64,
    pub write_timeout_ms: u64,
}

/// One route of the configuration document, as written.
#[derive(Clone, Debug, PartialEq, Eq)]
pub struct RawRoute {
    pub id: String,
    pub host: Option<String>,
    pub path_prefix: String,
    pub upstream: String,
    pub allow_private_networks: bool,
}

/// The configuration document, as written.
#[derive(Clone, Debug, PartialEq, Eq)]
pub struct RawConfig {
    pub version: u16,
    pub listener: String,
    pub limits: RawLimits,
    pub routes: Vec<RawRoute>,
}

/// Configuration failure that prevents listener startup.
#[derive(Debug, PartialEq, Eq)]
pub enum ConfigError {
    /// The document could not be read; the reader's message.
    Io(String),
    /// The document violated the versioned schema; the parser's message.
    Yaml(String),
    /// Only version 1 is accepted.
    UnsupportedVersion(u16),
    /// Listener must be numeric, non-privileged and explicit.
    InvalidListener(String),
    /// Resource limit is zero or exceeds the supported safety ceiling.
    InvalidLimit(String),
    /// Route count is empty or exceeds its bound.
    InvalidRouteCount,
    /// Route matcher is malformed.
    InvalidRoute {
        /// Route identifier from configuration.
        route_id: String,
        /// Validation reason.
        reason: String,
    },
    /// Upstream URL or name resolution failed closed.
    InvalidUpstream {
        /// Route identifier from configuration.
        route_id: String,
        /// Validation reason.
        reason: String,
    },
    /// The routing aggregate rejected ambiguity.
    Routing(RoutingError),
}

/// [`ConfigError`] with its text as character sequences.
pub enum ConfigErrorView {
    Io(Seq<char>),
    Yaml(Seq<char>),
    UnsupportedVersion(u16),
    InvalidListener(Seq<char>),
    InvalidLimit(Seq<char>),
    InvalidRouteCount,
    InvalidRoute(Seq<char>, Seq<char>),
    InvalidUpstream(Seq<char>, Seq<char>),
    Routing(RoutingErrorView),
}

impl View for ConfigError {
    type V = ConfigErrorView;

    open spec fn view(&self) -> ConfigErrorView {
        match self {
            ConfigError::Io(m) => ConfigErrorView::Io(m@),
            ConfigError::Yaml(m) => ConfigErrorView::Yaml(m@),
            ConfigError::UnsupportedVersion(v) => ConfigErrorView::UnsupportedVersion(*v),
            ConfigError::InvalidListener(l) => ConfigErrorView::InvalidListener(l@),
            ConfigError::InvalidLimit(n) => ConfigErrorView::InvalidLimit(n@),
            ConfigError::InvalidRouteCount => ConfigErrorView::InvalidRouteCount,
            ConfigError::InvalidRoute { route_id, reason } => ConfigErrorView::InvalidRoute(route_id@, reason@),
            ConfigError::InvalidUpstream { route_id, reason } => ConfigErrorView::InvalidUpstream(route_id@, reason@),
            ConfigError::Routing(e) => ConfigErrorView::Routing(e@),
        }
    }
}

/// Name of the first limit outside its bounds, in document order.
pub open spec fn limits_error(l: RawLimits) -> Option<Seq<char>> {
    if l.max_header_count == 0 || l.max_header_count > MAX_HEADER_COUNT_CEILING {
        Some("max_header_count"@)
    } else if l.max_header_bytes == 0 || l.max_header_bytes > MAX_HEADER_BYTES_CEILING {
        Some("max_header_bytes"@)
    } else if l.max_body_bytes == 0 || l.max_body_bytes > MAX_BODY_BYTES_CEILING {
        Some("max_body_bytes"@)
    } else if l.connect_timeout_ms == 0 || l.connect_timeout_ms > MAX_TIMEOUT_MS {
        Some("connect_timeout_ms"@)
    } else if l.read_timeout_ms == 0 || l.read_timeout_ms > MAX_TIMEOUT_MS {
        Some("read_timeout_ms"@)
    } else if l.write_timeout_ms == 0 || l.write_timeout_ms > MAX_TIMEOUT_MS {
        Some("write_timeout_ms"@)
    } else {
        None
    }
}

/// Rejects a limit that is zero or above its ceiling, naming the first such limit.
pub fn validate_limits(limits: &RawLimits) -> (r: Result<(), ConfigError>)
    ensures
        match limits_error(*limits) {
            Some(name) => r matches Err(e) && e@ == ConfigErrorView::InvalidLimit(name),
            None => r is Ok,
        },
{
    if limits.max_header_count == 0 || limits.max_header_count > MAX_HEADER_COUNT_CEILING {
        return Err(ConfigError::InvalidLimit("max_header_count".to_owned()));
    }
    if limits.max_header_bytes == 0 || limits.max_header_bytes > MAX_HEADER_BYTES_CEILING {
        return Err(ConfigError::InvalidLimit("max_header_bytes".to_owned()));
    }
    if limits.max_body_bytes == 0 || limits.max_body_bytes > MAX_BODY_BYTES_CEILING {
        return Err(ConfigError::InvalidLimit("max_body_bytes".to_owned()));
    }
    if limits.connect_timeout_ms == 0 || limits.connect_timeout_ms > MAX_TIMEOUT_MS {
        return Err(ConfigError::InvalidLimit("connect_timeout_ms".to_owned()));
    }
    if limits.read_timeout_ms == 0 || limits.read_timeout_ms > MAX_TIMEOUT_MS {
        return Err(ConfigError::InvalidLimit("read_timeout_ms".to_owned()));
    }
    if limits.write_timeout_ms == 0 || limits.write_timeout_ms > MAX_TIMEOUT_MS {
        return Err(ConfigError::InvalidLimit("write_timeout_ms".to_owned()));
    }
    Ok(())
}

/// The parts of a parsed URL that route compilation reads.
#[derive(Clone, Debug, PartialEq, Eq)]
pub struct UrlParts {
    /// Scheme, lowercase.
    pub scheme: String,
    /// User name, empty when absent.
    pub username: String,
    /// Password, when present.
    pub password: Option<String>,
    /// Path.
    pub path: String,
    /// Query, when present.
    pub query: Option<String>,
    /// Fragment, when present.
    pub fragment: Option<String>,
    /// Host, as text, when present.
    pub host: Option<String>,
    /// Explicit port, or the scheme's well-known port.
    pub port: Option<u16>,
}

/// [`UrlParts`] with its text as character sequences.
pub struct UrlPartsView {
    pub scheme: Seq<char>,
    pub username: Seq<char>,
    pub password: Option<Seq<char>>,
    pub path: Seq<char>,
    pub query: Option<Seq<char>>,
    pub fragment: Option<Seq<char>>,
    pub host: Option<Seq<char>>,
    pub port: Option<u16>,
}

impl View for UrlParts {
    type V = UrlPartsView;

    open spec fn view(&self) -> UrlPartsView {
        UrlPartsView {
            scheme: self.scheme@,
            username: self.username@,
            password: opt_view(self.password),
            path: self.path@,
            query: opt_view(self.query),
            fragment: opt_view(self.fragment),
            host: opt_view(self.host),
            port: self.port,
        }
    }
}

/// A URL parse outcome with its text as character sequences.
pub open spec fn parse_view(p: Result<UrlParts, String>) -> Result<UrlPartsView, Seq<char>> {
    match p {
        Ok(u) => Ok(u@),
        Err(m) => Err(m@),
    }
}

/// What WHATWG URL parsing, as the `url` crate implements it, makes of a text: its parts, or the
/// rendering of the parse error.
pub uninterp spec fn url_parse(text: Seq<char>) -> Result<UrlPartsView, Seq<char>>;

/// Parses `text` with `url::Url::parse` and reads the scheme, user name, password, path, query,
/// fragment, host text and port (`port_or_known_default`) of the result; on failure, the error's
/// `Display` text. The contract claims only that the outcome is `url_parse` of the text: equal
/// texts give equal outcomes.
#[verifier::external_body]
fn parse_url(text: &str) -> (r: Result<UrlParts, String>)
    ensures
        url_parse(text@) == parse_view(r),
{
    match url::Url::parse(text) {
        Ok(u) => Ok(UrlParts {
            scheme: u.scheme().to_owned(),
            username: u.username().to_owned(),
            password: u.password().map(String::from),
            path: u.path().to_owned(),
            query: u.query().map(String::from),
            fragment: u.fragment().map(String::from),
            host: u.host_str().map(String::from),
            port: u.port_or_known_default(),
        }),
        Err(e) => Err(e.to_string()),
    }
}

/// Scheme, host and port of an admitted upstream origin.
#[derive(Clone, Debug, PartialEq, Eq)]
pub struct UpstreamOrigin {
    pub scheme: UpstreamScheme,
    pub host: String,
    pub port: u16,
}

pub open spec fn origin_only_reason() -> Seq<char> {
    "upstream must be an origin URL only; credentials/path/query/fragment are forbidden"@
}

pub open spec fn host_required_reason() -> Seq<char> {
    "upstream host is required"@
}

pub open spec fn port_required_reason() -> Seq<char> {
    "upstream port is required"@
}

/// Whether a parsed URL names an origin only: no credentials, query or fragment, path `/`.
pub open spec fn is_origin_only(u: UrlPartsView) -> bool {
    &&& u.username.len() == 0
    &&& u.password is None
    &&& u.query is None
    &&& u.fragment is None
    &&& u.path == "/"@
}

/// What a route with identity `id` makes of the parse of its upstream URL.
pub open spec fn origin_outcome(id: Seq<char>, parsed: Result<UrlPartsView, Seq<char>>) -> Result<(UpstreamScheme, Seq<char>, u16), ConfigErrorView> {
    match parsed {
        Err(m) => Err(ConfigErrorView::InvalidUpstream(id, m)),
        Ok(u) => if !is_origin_only(u) {
            Err(ConfigErrorView::InvalidUpstream(id, origin_only_reason()))
        } else if u.scheme != "http"@ && u.scheme != "https"@ {
            Err(ConfigErrorView::InvalidUpstream(id, "unsupported scheme "@ + u.scheme))
        } else if u.host is None {
            Err(ConfigErrorView::InvalidUpstream(id, host_required_reason()))
        } else if u.port is None {
            Err(ConfigErrorView::InvalidUpstream(id, port_required_reason()))
        } else {
            Ok((if u.scheme == "http"@ { UpstreamScheme::Http } else { UpstreamScheme::Https }, u.host->0, u.port->0))
        },
    }
}

/// Admits a parsed upstream URL as an origin: only `http` or `https`, with a host and a port, and
/// without credentials, path, query or fragment.
pub fn upstream_origin(route_id: &RouteId, parsed: Result<UrlParts, String>) -> (r: Result<UpstreamOrigin, ConfigError>)
    ensures
        match origin_outcome(route_id@, parse_view(parsed)) {
            Err(ev) => r matches Err(e) && e@ == ev,
            Ok((scheme, host, port)) => r matches Ok(o) && o.scheme == scheme && o.host@ == host && o.port == port,
        },
{
    let id = route_id.as_str();
    let u = match parsed {
        Err(m) => return Err(ConfigError::InvalidUpstream { route_id: id.to_owned(), reason: m }),
        Ok(u) => u,
    };
    let path = chars_of(u.path.as_str());
    proof {
        reveal_strlit("/");
    }
    let path_is_root = path.len() == 1 && path[0] == '/';
    assert(path_is_root == (u.path@ == "/"@)) by {
        if path_is_root {
            assert(path@ =~= "/"@);
        }
    }
    if !u.username.as_str().is_empty() || u.password.is_some() || u.query.is_some() || u.fragment.is_some() || !path_is_root {
        return Err(ConfigError::InvalidUpstream {
            route_id: id.to_owned(),
            reason: "upstream must be an origin URL only; credentials/path/query/fragment are forbidden".to_owned(),
        });
    }
    let scheme_chars = chars_of(u.scheme.as_str());
    let is_http = chars_eq(&scheme_chars, &chars_of("http"));
    let is_https = chars_eq(&scheme_chars, &chars_of("https"));
    let scheme = if is_http {
        UpstreamScheme::Http
    } else if is_https {
        UpstreamScheme::Https
    } else {
        let reason = String::from_str("unsupported scheme ").concat(u.scheme.as_str());
        return Err(ConfigError::InvalidUpstream { route_id: id.to_owned(), reason });
    };
    let host = match u.host {
        Some(h) => h,
        None => return Err(ConfigError::InvalidUpstream { route_id: id.to_owned(), reason: "upstream host is required".to_owned() }),
    };
    let port = match u.port {
        Some(p) => p,
        None => return Err(ConfigError::InvalidUpstream { route_id: id.to_owned(), reason: "upstream port is required".to_owned() }),
    };
    Ok(UpstreamOrigin { scheme, host, port })
}

/// `h` without trailing dots.
pub open spec fn trim_end_dots(h: Seq<char>) -> Seq<char>
    decreases h.len(),
{
    if h.len() > 0 && h.last() == '.' {
        trim_end_dots(h.drop_last())
    } else {
        h
    }
}

/// A route host as it is matched: trailing dots removed, ASCII lowercase.
pub open spec fn normalized_host(h: Seq<char>) -> Seq<char> {
    lower_seq(trim_end_dots(h))
}

/// The normalized form of an optional route host.
pub open spec fn normalized_opt(h: Option<String>) -> Option<Seq<char>> {
    match h {
        Some(v) => Some(normalized_host(v@)),
        None => None,
    }
}

/// An absolute path without query or fragment.
pub open spec fn is_path_prefix_ok(p: Seq<char>) -> bool {
    p.len() > 0 && p[0] == '/' && !p.contains('?') && !p.contains('#')
}

/// A non-empty host without path or userinfo separators.
pub open spec fn is_route_host_ok(h: Seq<char>) -> bool {
    h.len() > 0 && !h.contains('/') && !h.contains('@')
}

pub open spec fn path_reason() -> Seq<char> {
    "path_prefix must be an absolute path without query or fragment"@
}

pub open spec fn host_reason() -> Seq<char> {
    "host must be a DNS host without port or userinfo"@
}

/// The first failure in the shape of a route, before its upstream is looked at.
pub open spec fn route_shape_error(raw: RawRoute) -> Option<ConfigErrorView> {
    if !is_route_id(raw.id@) {
        Some(ConfigErrorView::Routing(RoutingErrorView::InvalidRouteId(raw.id@)))
    } else if !is_path_prefix_ok(raw.path_prefix@) {
        Some(ConfigErrorView::InvalidRoute(raw.id@, path_reason()))
    } else if raw.host matches Some(h) && !is_route_host_ok(normalized_host(h@)) {
        Some(ConfigErrorView::InvalidRoute(raw.id@, host_reason()))
    } else {
        None
    }
}

/// A route whose shape and upstream origin were admitted, waiting for its upstream host to be
/// resolved.
#[derive(Clone, Debug, PartialEq, Eq)]
pub struct PreparedRoute {
    pub id: RouteId,
    pub host: Option<String>,
    pub path_prefix: String,
    pub origin: UpstreamOrigin,
    pub allow_private_networks: bool,
}

fn trim_end_dots_string(h: &str) -> (r: String)
    ensures
        r@ == trim_end_dots(h@),
{
    let chars = chars_of(h);
    let mut end: usize = chars.len();
    assert(chars@.subrange(0, chars@.len() as int) =~= chars@);
    while end > 0 && chars[end - 1] == '.'
        invariant
            end <= chars.len(),
            chars@ == h@,
            trim_end_dots(h@) == trim_end_dots(chars@.subrange(0, end as int)),
        decreases end,
    {
        assert(chars@.subrange(0, end as int).drop_last() =~= chars@.subrange(0, end - 1));
        end = end - 1;
    }
    string_from_range(&chars, 0, end)
}

/// A host as it is matched: trailing dots removed, ASCII lowercase.
pub fn normalize_host(h: &str) -> (r: String)
    ensures
        r@ == normalized_host(h@),
{
    let trimmed = trim_end_dots_string(h);
    lower_string(trimmed.as_str())
}

/// Checks a route's identity, path prefix and host, and admits its upstream URL as an origin.
pub fn prepare_route(raw: RawRoute) -> (r: Result<PreparedRoute, ConfigError>)
    ensures
        match route_shape_error(raw) {
            Some(ev) => r matches Err(e) && e@ == ev,
            None => match origin_outcome(raw.id@, url_parse(raw.upstream@)) {
                Err(ev) => r matches Err(e) && e@ == ev,
                Ok((scheme, host, port)) => r matches Ok(p) && p.id@ == raw.id@ && opt_view(p.host) == normalized_opt(raw.host)
                    && p.path_prefix@ == raw.path_prefix@ && p.origin.scheme == scheme && p.origin.host@ == host
                    && p.origin.port == port && p.allow_private_networks == raw.allow_private_networks,
            },
        },
{
    let id = match RouteId::new(raw.id.clone()) {
        Ok(id) => id,
        Err(e) => return Err(ConfigError::Routing(e)),
    };
    let prefix = chars_of(raw.path_prefix.as_str());
    if prefix.len() == 0 || prefix[0] != '/' || contains_char(&prefix, '?') || contains_char(&prefix, '#') {
        return Err(ConfigError::InvalidRoute {
            route_id: raw.id,
            reason: "path_prefix must be an absolute path without query or fragment".to_owned(),
        });
    }
    let host = match &raw.host {
        Some(value) => {
            let normalized = normalize_host(value.as_str());
            let hc = chars_of(normalized.as_str());
            if hc.len() == 0 || contains_char(&hc, '/') || contains_char(&hc, '@') {
                return Err(ConfigError::InvalidRoute {
                    route_id: id.as_str().to_owned(),
                    reason: "host must be a DNS host without port or userinfo".to_owned(),
                });
            }
            Some(normalized)
        },
        None => None,
    };
    let parsed = parse_url(raw.upstream.as_str());
    let origin = upstream_origin(&id, parsed)?;
    Ok(PreparedRoute { id, host, path_prefix: raw.path_prefix, origin, allow_private_networks: raw.allow_private_networks })
}

pub open spec fn no_addresses_reason() -> Seq<char> {
    "DNS resolution returned no addresses"@
}

pub open spec fn private_reason() -> Seq<char> {
    "private, loopback, link-local, multicast or unspecified addresses require allow_private_networks: true"@
}

/// The `Host` authority of an upstream: the host alone on the scheme's default port, else
/// `host:port`.
pub open spec fn authority_text(scheme: UpstreamScheme, host: Seq<char>, port: u16) -> Seq<char> {
    if (scheme == UpstreamScheme::Http && port == 80) || (scheme == UpstreamScheme::Https && port == 443) {
        host
    } else {
        host + ":"@ + dec(port as nat)
    }
}

/// Whether any resolved address is outside the public unicast space.
pub open spec fn any_non_public(v: Seq<SocketAddress>) -> bool {
    exists|i: int| 0 <= i < v.len() && (#[trigger] v[i]).ip.spec_is_non_public()
}

/// Whether any address of `v` is outside the public unicast space.
pub fn has_non_public(v: &Vec<SocketAddress>) -> (r: bool)
    ensures
        r == any_non_public(v@),
{
    let mut i: usize = 0;
    while i < v.len()
        invariant
            i <= v.len(),
            forall|j: int| 0 <= j < i ==> !(#[trigger] v@[j]).ip.spec_is_non_public(),
        decreases v.len() - i,
    {
        if v[i].ip.is_non_public() {
            assert(v@[i as int].ip.spec_is_non_public());
            return true;
        }
        i = i + 1;
    }
    false
}

/// Finishes a prepared route with the outcome of resolving its upstream host and port (the
/// addresses in resolver order, or the resolver's error message): private-network addresses need
/// the route's explicit opt-in, and the first address becomes the upstream socket.
pub fn compile_route(prepared: PreparedRoute, resolution: Result<Vec<SocketAddress>, String>) -> (r: Result<Route, ConfigError>)
    ensures
        match resolution {
            Err(m) => r matches Err(e) && e@ == ConfigErrorView::InvalidUpstream(prepared.id@, "DNS resolution failed: "@ + m@),
            Ok(v) => if v@.len() == 0 {
                r matches Err(e) && e@ == ConfigErrorView::InvalidUpstream(prepared.id@, no_addresses_reason())
            } else if !prepared.allow_private_networks && any_non_public(v@) {
                r matches Err(e) && e@ == ConfigErrorView::InvalidUpstream(prepared.id@, private_reason())
            } else {
                r matches Ok(route) && route.id@ == prepared.id@ && opt_view(route.host) == opt_view(prepared.host)
                    && route.path_prefix@ == prepared.path_prefix@ && route.upstream.socket == v@[0]
                    && route.upstream.host@ == prepared.origin.host@ && route.upstream.scheme == prepared.origin.scheme
                    && route.upstream.authority@ == authority_text(prepared.origin.scheme, prepared.origin.host@, prepared.origin.port)
            },
        },
{
    let resolved = match resolution {
        Err(m) => {
            let reason = String::from_str("DNS resolution failed: ").concat(m.as_str());
            return Err(ConfigError::InvalidUpstream { route_id: prepared.id.as_str().to_owned(), reason });
        },
        Ok(v) => v,
    };
    if resolved.len() == 0 {
        return Err(ConfigError::InvalidUpstream {
            route_id: prepared.id.as_str().to_owned(),
            reason: "DNS resolution returned no addresses".to_owned(),
        });
    }
    if !prepared.allow_private_networks && has_non_public(&resolved) {
        return Err(ConfigError::InvalidUpstream {
            route_id: prepared.id.as_str().to_owned(),
            reason: "private, loopback, link-local, multicast or unspecified addresses require allow_private_networks: true".to_owned(),
        });
    }
    let socket = resolved[0];
    let origin = prepared.origin;
    let default_port = (origin.scheme == UpstreamScheme::Http && origin.port == 80)
        || (origin.scheme == UpstreamScheme::Https && origin.port == 443);
    let authority = if default_port {
        origin.host.clone()
    } else {
        let mut a = origin.host.clone();
        a.append(":");
        push_dec(&mut a, origin.port as u64);
        a
    };
    Ok(Route {
        id: prepared.id,
        host: prepared.host,
        path_prefix: prepared.path_prefix,
        upstream: UpstreamTarget { socket, host: origin.host, authority, scheme: origin.scheme },
    })
}

/// The first failure of a route whose upstream resolved with `resolution`: its shape, then its
/// upstream URL, then the resolution.
pub open spec fn route_error(raw: RawRoute, resolution: Result<Vec<SocketAddress>, String>) -> Option<ConfigErrorView> {
    match route_shape_error(raw) {
        Some(ev) => Some(ev),
        None => match origin_outcome(raw.id@, url_parse(raw.upstream@)) {
            Err(ev) => Some(ev),
            Ok(_) => match resolution {
                Err(m) => Some(ConfigErrorView::InvalidUpstream(raw.id@, "DNS resolution failed: "@ + m@)),
                Ok(v) => if v@.len() == 0 {
                    Some(ConfigErrorView::InvalidUpstream(raw.id@, no_addresses_reason()))
                } else if !raw.allow_private_networks && any_non_public(v@) {
                    Some(ConfigErrorView::InvalidUpstream(raw.id@, private_reason()))
                } else {
                    None
                },
            },
        },
    }
}

/// Whether `route` is what `raw` compiles to when its upstream resolved with `resolution`.
pub open spec fn compiled_from(raw: RawRoute, resolution: Result<Vec<SocketAddress>, String>, route: Route) -> bool {
    match (origin_outcome(raw.id@, url_parse(raw.upstream@)), resolution) {
        (Ok((scheme, host, port)), Ok(v)) => v@.len() > 0 && route.id@ == raw.id@ && opt_view(route.host) == normalized_opt(raw.host)
            && route.path_prefix@ == raw.path_prefix@ && route.upstream.socket == v@[0] && route.upstream.host@ == host
            && route.upstream.scheme == scheme && route.upstream.authority@ == authority_text(scheme, host, port),
        _ => false,
    }
}

/// The first failure among the first `n` routes, in order.
pub open spec fn routes_error(raws: Seq<RawRoute>, resolutions: Seq<Result<Vec<SocketAddress>, String>>, n: nat) -> Option<ConfigErrorView>
    decreases n,
{
    if n == 0 {
        None
    } else {
        match routes_error(raws, resolutions, (n - 1) as nat) {
            Some(e) => Some(e),
            None => route_error(raws[n - 1], resolutions[n - 1]),
        }
    }
}

/// A route that did not opt in to private networks is refused when any address its upstream
/// resolves to lies in a private, loopback, link-local or multicast IPv4 block or is 0.0.0.0.
pub proof fn lemma_private_ipv4_upstream_refused(raw: RawRoute, v: Vec<SocketAddress>, i: int, a: u8, b: u8, c: u8, d: u8)
    requires
        0 <= i < v@.len(),
        v@[i].ip == IpAddress::V4(a, b, c, d),
        !raw.allow_private_networks,
        route_shape_error(raw) is None,
        origin_outcome(raw.id@, url_parse(raw.upstream@)) is Ok,
        ({
            let x = ipv4_bits(a, b, c, d);
            ||| in_ipv4_block(x, 0x0a000000u32, 8)
            ||| in_ipv4_block(x, 0xac100000u32, 12)
            ||| in_ipv4_block(x, 0xc0a80000u32, 16)
            ||| in_ipv4_block(x, 0x7f000000u32, 8)
            ||| in_ipv4_block(x, 0xa9fe0000u32, 16)
            ||| in_ipv4_block(x, 0xe0000000u32, 4)
            ||| x == 0
        }),
    ensures
        any_non_public(v@),
        route_error(raw, Ok(v)) == Some(ConfigErrorView::InvalidUpstream(raw.id@, private_reason())),
{
    lemma_ipv4_non_public_blocks(a, b, c, d);
    assert(v@[i].ip.spec_is_non_public());
}

proof fn lemma_routes_error_stays(raws: Seq<RawRoute>, resolutions: Seq<Result<Vec<SocketAddress>, String>>, n: nat, m: nat)
    requires
        n <= m,
        routes_error(raws, resolutions, n) is Some,
    ensures
        routes_error(raws, resolutions, m) == routes_error(raws, resolutions, n),
    decreases m - n,
{
    if n < m {
        lemma_routes_error_stays(raws, resolutions, n, (m - 1) as nat);
    }
}

/// Fully validated startup configuration.
#[derive(Clone, Debug)]
pub struct ValidatedConfig {
    /// Non-privileged listener address.
    pub listener: SocketAddress,
    /// Deterministic routing aggregate.
    pub routes: RouteTable,
    /// Bounded resource policy.
    pub limits: Limits,
}

/// The first failure in the document itself, before any route is compiled. `listener` is the
/// listener text as parsed into a socket address, `None` when it does not parse.
pub open spec fn document_error(raw: RawConfig, listener: Option<SocketAddress>) -> Option<ConfigErrorView> {
    if raw.version != 1 {
        Some(ConfigErrorView::UnsupportedVersion(raw.version))
    } else if listener is None || listener->0.port < 1024 {
        Some(ConfigErrorView::InvalidListener(raw.listener@))
    } else if limits_error(raw.limits) is Some {
        Some(ConfigErrorView::InvalidLimit(limits_error(raw.limits)->0))
    } else if raw.routes@.len() == 0 || raw.routes@.len() > MAX_ROUTES {
        Some(ConfigErrorView::InvalidRouteCount)
    } else {
        None
    }
}

impl ValidatedConfig {
    /// Checks the document's version, listener, limits and route count. `listener` is the
    /// document's listener text parsed as a numeric socket address, or `None` when it does not
    /// parse; a listener on a privileged port (below 1024) is refused.
    pub fn check_document(raw: &RawConfig, listener: Option<SocketAddress>) -> (r: Result<SocketAddress, ConfigError>)
        ensures
            match document_error(*raw, listener) {
                Some(ev) => r matches Err(e) && e@ == ev,
                None => r == Ok::<SocketAddress, ConfigError>(listener->0),
            },
    {
        if raw.version != 1 {
            return Err(ConfigError::UnsupportedVersion(raw.version));
        }
        let address = match listener {
            Some(a) => a,
            None => return Err(ConfigError::InvalidListener(raw.listener.clone())),
        };
        if address.port < 1024 || (address.ip.is_unspecified() && address.port == 0) {
            return Err(ConfigError::InvalidListener(raw.listener.clone()));
        }
        validate_limits(&raw.limits)?;
        if raw.routes.len() == 0 || raw.routes.len() > MAX_ROUTES {
            return Err(ConfigError::InvalidRouteCount);
        }
        Ok(address)
    }

    /// Compiles the whole document: `listener` is the document's listener text parsed as a
    /// numeric socket address (`None` when it does not parse), and `resolutions` holds, for each
    /// route in order, the outcome of resolving the host and port of its upstream origin (what
    /// [`prepare_route`] admits; the outcome of a route refused before resolution is not read).
    /// The document is checked first, then every route in order, then the table is assembled.
    pub fn from_document(raw: RawConfig, listener: Option<SocketAddress>, resolutions: Vec<Result<Vec<SocketAddress>, String>>) -> (r: Result<Self, ConfigError>)
        requires
            resolutions@.len() == raw.routes@.len(),
        ensures
            match document_error(raw, listener) {
                Some(ev) => r matches Err(e) && e@ == ev,
                None => match routes_error(raw.routes@, resolutions@, raw.routes@.len()) {
                    Some(ev) => r matches Err(e) && e@ == ev,
                    None => exists|rs: Seq<Route>| {
                        &&& rs.len() == raw.routes@.len()
                        &&& forall|i: int| 0 <= i < rs.len() ==> compiled_from(raw.routes@[i], resolutions@[i], #[trigger] rs[i])
                        &&& first_duplicate(rs) < rs.len() ==> (r matches Err(e) && e@ == ConfigErrorView::Routing(
                            RoutingErrorView::DuplicateMatcher(opt_view(rs[first_duplicate(rs)].host), rs[first_duplicate(rs)].path_prefix@),
                        ))
                        &&& first_duplicate(rs) >= rs.len() ==> (r matches Ok(c) && c.listener == listener->0
                            && c.routes.spec_routes() == sort_routes(rs) && c.routes.well_formed()
                            && c.limits == (Limits {
                                max_header_count: raw.limits.max_header_count,
                                max_header_bytes: raw.limits.max_header_bytes,
                                max_body_bytes: raw.limits.max_body_bytes,
                                connect_timeout_ms: raw.limits.connect_timeout_ms,
                                read_timeout_ms: raw.limits.read_timeout_ms,
                                write_timeout_ms: raw.limits.write_timeout_ms,
                            }))
                    },
                },
            },
    {
        let address = Self::check_document(&raw, listener)?;
        let ghost whole = raw;
        let ghost raws = raw.routes@;
        let ghost res = resolutions@;
        let limits = raw.limits;
        let n = raw.routes.len();
        let mut rest_raw = raw.routes;
        let mut rest_res = resolutions;
        let mut routes: Vec<Route> = Vec::new();
        let mut i: usize = 0;
        assert(raws.subrange(0, raws.len() as int) =~= raws);
        assert(res.subrange(0, res.len() as int) =~= res);
        while i < n
            invariant
                document_error(whole, listener) is None,
                whole.routes@ == raws,
                whole == raw,
                res == resolutions@,
                n == raws.len(),
                res.len() == n,
                i <= n,
                rest_raw@ == raws.subrange(i as int, n as int),
                rest_res@ == res.subrange(i as int, n as int),
                routes@.len() == i,
                routes_error(raws, res, i as nat) is None,
                forall|k: int| 0 <= k < i ==> compiled_from(raws[k], res[k], #[trigger] routes@[k]),
            decreases n - i,
        {
            let raw_route = rest_raw.remove(0);
            let resolution = rest_res.remove(0);
            assert(raw_route == raws[i as int]);
            assert(resolution == res[i as int]);
            proof {
                assert(routes_error(raws, res, (i + 1) as nat) == route_error(raws[i as int], res[i as int]));
            }
            let prepared = match prepare_route(raw_route) {
                Ok(p) => p,
                Err(e) => {
                    proof {
                        lemma_routes_error_stays(raws, res, (i + 1) as nat, n as nat);
                    }
                    return Err(e);
                },
            };
            let route = match compile_route(prepared, resolution) {
                Ok(route) => route,
                Err(e) => {
                    proof {
                        lemma_routes_error_stays(raws, res, (i + 1) as nat, n as nat);
                    }
                    return Err(e);
                },
            };
            routes.push(route);
            proof {
                assert(rest_raw@ =~= raws.subrange(i + 1, n as int));
                assert(rest_res@ =~= res.subrange(i + 1, n as int));
            }
            i = i + 1;
        }
        Self::assemble(address, limits, routes)
    }

    /// Assembles the configuration from its admitted listener, limits and compiled routes; the
    /// route table refuses two routes with the same matcher.
    pub fn assemble(listener: SocketAddress, limits: RawLimits, routes: Vec<Route>) -> (r: Result<Self, ConfigError>)
        ensures
            first_duplicate(routes@) < routes@.len() ==> (r matches Err(e) && e@ == ConfigErrorView::Routing(
                RoutingErrorView::DuplicateMatcher(
                    opt_view(routes@[first_duplicate(routes@)].host),
                    routes@[first_duplicate(routes@)].path_prefix@,
                ),
            )),
            first_duplicate(routes@) >= routes@.len() ==> (r matches Ok(c) && c.listener == listener
                && c.routes.spec_routes() == sort_routes(routes@) && c.routes.well_formed()
                && c.limits == (Limits {
                    max_header_count: limits.max_header_count,
                    max_header_bytes: limits.max_header_bytes,
                    max_body_bytes: limits.max_body_bytes,
                    connect_timeout_ms: limits.connect_timeout_ms,
                    read_timeout_ms: limits.read_timeout_ms,
                    write_timeout_ms: limits.write_timeout_ms,
                })),
    {
        let routes = match RouteTable::new(routes) {
            Ok(t) => t,
            Err(e) => return Err(ConfigError::Routing(e)),
        };
        Ok(ValidatedConfig {
            listener,
            routes,
            limits: Limits {
                max_header_count: limits.max_header_count,
                max_header_bytes: limits.max_header_bytes,
                max_body_bytes: limits.max_body_bytes,
                connect_timeout_ms: limits.connect_timeout_ms,
                read_timeout_ms: limits.read_timeout_ms,
                write_timeout_ms: limits.write_timeout_ms,
            },
        })
    }
}

} // verus!
