//! Request decisions of the host-routing gateway proxy: local health and metrics endpoints,
//! header and body bounds, route selection, upstream peer settings and upstream request edits.
//! The proxy transport performs the I/O each decision calls for.

use vstd::prelude::*;
use vstd::string::*;
use vstd::utf8::encode_utf8;

use crate::host_routing::{first_eligible, opt_view, Route, RouteTable, UpstreamScheme, UpstreamTarget};
use crate::http_model::{ProxyError, ProxyErrorView, first_value, is_value_text, value_text, visible_text, without_name, FieldView, HeaderList};
use crate::net::SocketAddress;
use crate::runtime_configuration::{normalize_host, normalized_host, Limits};
use crate::telemetry::{bump, metrics_text, Metrics};
use crate::text::{chars_eq, chars_of, parse_u64, parse_uint};

verus! {

/// The host of the authority that `http::uri::Authority::from_str` parses from a text, `None`
/// when the text is not an authority.
pub uninterp spec fn authority_host(text: Seq<char>) -> Option<Seq<char>>;

/// Parses `text` with `http::uri::Authority::from_str` and returns the host of the authority.
/// The contract claims only that the outcome is `authority_host` of the text.
#[verifier::external_body]
fn parse_authority_host(text: &str) -> (r: Option<String>)
    ensures
        opt_view(r) == authority_host(text@),
{
    match text.parse::<http::uri::Authority>() {
        Ok(authority) => Some(authority.host().to_owned()),
        Err(_) => None,
    }
}

/// Request-scoped state containing no credentials or request bodies.
#[derive(Debug, Default)]
pub struct RequestContext {
    /// The selected route, once routing succeeded.
    pub route: Option<Route>,
    /// Request body bytes streamed so far.
    pub body_bytes: u64,
    /// Whether the gateway answered the request itself.
    pub local_response: bool,
}

/// A plain-text answer the gateway gives itself.
#[derive(Debug, Clone, PartialEq, Eq)]
pub struct LocalText {
    /// HTTP status.
    pub status: u16,
    /// `Content-Type` value.
    pub content_type: String,
    /// Response body.
    pub body: String,
}

/// What the transport does after the request filter.
#[derive(Debug, Clone, PartialEq, Eq)]
pub enum FilterOutcome {
    /// Answer locally with this text; the request is finished.
    Respond(LocalText),
    /// Go on to the selected upstream.
    Proceed,
}

/// Connection settings for the selected upstream.
#[derive(Debug, Clone, PartialEq, Eq)]
pub struct UpstreamPeer {
    /// Resolved upstream address.
    pub socket: SocketAddress,
    /// Whether to speak TLS to the upstream.
    pub tls: bool,
    /// Host name for TLS server name indication and verification.
    pub sni: String,
    /// Connection timeout, in milliseconds.
    pub connection_timeout_ms: u64,
    /// Total connection timeout, TLS included, in milliseconds.
    pub total_connection_timeout_ms: u64,
    /// Per-read timeout, in milliseconds.
    pub read_timeout_ms: u64,
    /// Per-write timeout, in milliseconds.
    pub write_timeout_ms: u64,
    /// Whether the upstream certificate is verified.
    pub verify_cert: bool,
    /// Whether the upstream certificate must name the host.
    pub verify_hostname: bool,
}

/// A completed or failed proxied request, for the access log.
#[derive(Debug, Clone, PartialEq, Eq)]
pub struct AccessLogEntry {
    /// Route identity, or `unmatched`.
    pub route_id: String,
    /// Whether the request failed.
    pub failed: bool,
}

pub open spec fn is_local_path(p: Seq<char>) -> bool {
    p == "/livez"@ || p == "/readyz"@ || p == "/metrics"@
}

pub open spec fn is_get_or_head(m: Seq<char>) -> bool {
    m == "GET"@ || m == "HEAD"@
}

/// Aggregate bytes of the header names (UTF-8) and values.
pub open spec fn header_bytes(s: Seq<FieldView>) -> nat
    decreases s.len(),
{
    if s.len() == 0 {
        0
    } else {
        header_bytes(s.drop_last()) + encode_utf8(s.last().0).len() + s.last().1.len()
    }
}

/// `n`, counted up to the largest `usize`.
pub open spec fn capped(n: nat) -> nat {
    if n > usize::MAX {
        usize::MAX as nat
    } else {
        n
    }
}

/// The rejection a declared `Content-Length` calls for: unreadable, or above the body limit.
pub open spec fn content_length_rejection(s: Seq<FieldView>, max_body: u64) -> Option<(u16, Seq<char>)> {
    match first_value(s, "content-length"@) {
        None => None,
        Some(v) => match visible_text(v) {
            None => Some((400u16, "invalid Content-Length"@)),
            Some(t) => match parse_uint(t, u64::MAX as nat) {
                None => Some((400u16, "invalid Content-Length"@)),
                Some(n) => if n > max_body {
                    Some((413u16, "request body exceeds configured limit"@))
                } else {
                    None
                },
            },
        },
    }
}

/// The downstream host a request names in `Host`, normalized as route hosts are.
pub open spec fn request_host(s: Seq<FieldView>) -> Option<Seq<char>> {
    match first_value(s, "host"@) {
        None => None,
        Some(v) => match visible_text(v) {
            None => None,
            Some(t) => match authority_host(t) {
                None => None,
                Some(h) => Some(normalized_host(h)),
            },
        },
    }
}

/// Why a request for an application path is refused, if it is.
pub open spec fn admission_rejection(headers: Seq<FieldView>, path: Seq<char>, limits: Limits, routes: Seq<Route>) -> Option<(u16, Seq<char>)> {
    if headers.len() > limits.max_header_count {
        Some((431u16, "request header count exceeds configured limit"@))
    } else if capped(header_bytes(headers)) > limits.max_header_bytes {
        Some((431u16, "request headers exceed configured byte limit"@))
    } else if content_length_rejection(headers, limits.max_body_bytes) is Some {
        content_length_rejection(headers, limits.max_body_bytes)
    } else if first_eligible(routes, request_host(headers), path) >= routes.len() {
        Some((404u16, "no configured route matched the request"@))
    } else {
        None
    }
}

/// Bytes of the header names and values, counted up to the largest `usize`.
fn header_bytes_capped(headers: &HeaderList) -> (r: usize)
    ensures
        r == capped(header_bytes(headers@)),
{
    let mut total: usize = 0;
    let mut i: usize = 0;
    while i < headers.fields.len()
        invariant
            i <= headers.fields.len(),
            total == capped(header_bytes(headers@.subrange(0, i as int))),
        decreases headers.fields.len() - i,
    {
        let ghost pre = headers@.subrange(0, i as int);
        assert(headers@.subrange(0, i + 1).drop_last() =~= pre);
        assert(headers@.subrange(0, i + 1).last() == headers.fields@[i as int]@);
        let name_len = headers.fields[i].name.as_str().as_bytes().len();
        let value_len = headers.fields[i].value.len();
        total = total.saturating_add(name_len.saturating_add(value_len));
        i = i + 1;
    }
    assert(headers@.subrange(0, headers@.len() as int) =~= headers@);
    total
}

/// The rejection a declared `Content-Length` calls for.
fn check_content_length(headers: &HeaderList, max_body: u64) -> (r: Option<(u16, String)>)
    ensures
        match content_length_rejection(headers@, max_body) {
            None => r is None,
            Some((status, reason)) => r matches Some(x) && x.0 == status && x.1@ == reason,
        },
{
    match headers.get("content-length") {
        None => None,
        Some(v) => match value_text(v) {
            None => Some((400, "invalid Content-Length".to_owned())),
            Some(t) => {
                let chars = chars_of(t.as_str());
                match parse_u64(&chars) {
                    None => Some((400, "invalid Content-Length".to_owned())),
                    Some(n) => if n > max_body {
                        Some((413, "request body exceeds configured limit".to_owned()))
                    } else {
                        None
                    },
                }
            },
        },
    }
}

/// The normalized host a request names in `Host`.
fn host_of(headers: &HeaderList) -> (r: Option<String>)
    ensures
        opt_view(r) == request_host(headers@),
{
    match headers.get("host") {
        None => None,
        Some(v) => match value_text(v) {
            None => None,
            Some(t) => match parse_authority_host(t.as_str()) {
                None => None,
                Some(h) => Some(normalize_host(h.as_str())),
            },
        },
    }
}

/// An identical route.
fn copy_route(r: &Route) -> (c: Route)
    ensures
        c == *r,
{
    Route {
        id: r.id.clone_id(),
        host: match &r.host {
            Some(h) => Some(h.clone()),
            None => None,
        },
        path_prefix: r.path_prefix.clone(),
        upstream: UpstreamTarget {
            socket: r.upstream.socket,
            host: r.upstream.host.clone(),
            authority: r.upstream.authority.clone(),
            scheme: r.upstream.scheme,
        },
    }
}

/// Pingora adapter decisions. Routing is delegated to the route table.
#[derive(Debug)]
pub struct GatewayProxy {
    routes: RouteTable,
    limits: Limits,
    metrics: Metrics,
}

impl GatewayProxy {
    pub closed spec fn spec_routes(&self) -> RouteTable {
        self.routes
    }

    pub closed spec fn spec_limits(&self) -> Limits {
        self.limits
    }

    pub closed spec fn spec_metrics(&self) -> Metrics {
        self.metrics
    }

    /// Constructs the adapter from validated routing and limits.
    pub fn new(routes: RouteTable, limits: Limits, metrics: Metrics) -> (r: Self)
        ensures
            r.spec_routes() == routes,
            r.spec_limits() == limits,
            r.spec_metrics() == metrics,
    {
        GatewayProxy { routes, limits, metrics }
    }

    /// A fresh request context.
    pub fn new_ctx(&self) -> (r: RequestContext)
        ensures
            r.route is None,
            r.body_bytes == 0,
            !r.local_response,
    {
        RequestContext { route: None, body_bytes: 0, local_response: false }
    }

    /// The counters, rendered as Prometheus text.
    pub fn render_metrics(&self) -> (r: String)
        ensures
            r@ == metrics_text(self.spec_metrics().spec_requests(), self.spec_metrics().spec_rejected(), self.spec_metrics().spec_proxy_errors()),
    {
        self.metrics.render()
    }

    fn reject(&mut self, status: u16, reason: String) -> (r: ProxyError)
        ensures
            r@ == ProxyErrorView::HttpStatus(status, reason@),
            final(self).spec_routes() == old(self).spec_routes(),
            final(self).spec_limits() == old(self).spec_limits(),
            final(self).spec_metrics().spec_requests() == old(self).spec_metrics().spec_requests(),
            final(self).spec_metrics().spec_rejected() == bump(old(self).spec_metrics().spec_rejected()),
            final(self).spec_metrics().spec_proxy_errors() == old(self).spec_metrics().spec_proxy_errors(),
    {
        self.metrics.rejected();
        ProxyError::HttpStatus { status, reason }
    }
/// Decides what happens to a request before any upstream is contacted. Every request is
    /// counted. `/livez`, `/readyz` and `/metrics` are answered locally (GET or HEAD only);
    /// other requests must stay within the header-count, header-byte and declared body limits
    /// and match a route, which is kept in the context. Each refusal is counted as rejected.
    pub fn request_filter(&mut self, ctx: &mut RequestContext, method: &str, path: &str, headers: &HeaderList) -> (r: Result<FilterOutcome, ProxyError>)
        ensures
            final(self).spec_routes() == old(self).spec_routes(),
            final(self).spec_limits() == old(self).spec_limits(),
            final(self).spec_metrics().spec_requests() == bump(old(self).spec_metrics().spec_requests()),
            final(self).spec_metrics().spec_proxy_errors() == old(self).spec_metrics().spec_proxy_errors(),
            is_local_path(path@) && !is_get_or_head(method@) ==> {
                &&& r matches Err(e) && e@ == ProxyErrorView::HttpStatus(405, "health and metrics endpoints accept GET or HEAD only"@)
                &&& final(self).spec_metrics().spec_rejected() == bump(old(self).spec_metrics().spec_rejected())
                &&& *final(ctx) == *old(ctx)
            },
            is_local_path(path@) && is_get_or_head(method@) ==> {
                &&& r matches Ok(FilterOutcome::Respond(t))
                &&& t.status == 200
                &&& t.content_type@ == (if path@ == "/metrics"@ {
                    "text/plain; version=0.0.4; charset=utf-8"@
                } else {
                    "text/plain; charset=utf-8"@
                })
                &&& t.body@ == (if path@ == "/metrics"@ {
                    metrics_text(
                        bump(old(self).spec_metrics().spec_requests()),
                        old(self).spec_metrics().spec_rejected(),
                        old(self).spec_metrics().spec_proxy_errors(),
                    )
                } else {
                    "ok\n"@
                })
                &&& final(self).spec_metrics().spec_rejected() == old(self).spec_metrics().spec_rejected()
                &&& final(ctx).local_response
                &&& final(ctx).route == old(ctx).route
                &&& final(ctx).body_bytes == old(ctx).body_bytes
            },
            !is_local_path(path@) ==> match admission_rejection(headers@, path@, old(self).spec_limits(), old(self).spec_routes().spec_routes()) {
                Some((status, reason)) => {
                    &&& r matches Err(e) && e@ == ProxyErrorView::HttpStatus(status, reason)
                    &&& final(self).spec_metrics().spec_rejected() == bump(old(self).spec_metrics().spec_rejected())
                    &&& *final(ctx) == *old(ctx)
                },
                None => {
                    &&& r matches Ok(FilterOutcome::Proceed)
                    &&& final(self).spec_metrics().spec_rejected() == old(self).spec_metrics().spec_rejected()
                    &&& final(ctx).route == Some(old(self).spec_routes().spec_routes()[first_eligible(
                        old(self).spec_routes().spec_routes(),
                        request_host(headers@),
                        path@,
                    )])
                    &&& final(ctx).body_bytes == old(ctx).body_bytes
                    &&& final(ctx).local_response == old(ctx).local_response
                },
            },
    {
        self.metrics.request();
        let path_chars = chars_of(path);
        let is_livez = chars_eq(&path_chars, &chars_of("/livez"));
        let is_readyz = chars_eq(&path_chars, &chars_of("/readyz"));
        let is_metrics = chars_eq(&path_chars, &chars_of("/metrics"));
        if is_livez || is_readyz || is_metrics {
            let method_chars = chars_of(method);
            let get = chars_eq(&method_chars, &chars_of("GET"));
            let head = chars_eq(&method_chars, &chars_of("HEAD"));
            if !(get || head) {
                return Err(self.reject(405, "health and metrics endpoints accept GET or HEAD only".to_owned()));
            }
            let text = if is_metrics {
                LocalText {
                    status: 200,
                    content_type: "text/plain; version=0.0.4; charset=utf-8".to_owned(),
                    body: self.metrics.render(),
                }
            } else {
                LocalText { status: 200, content_type: "text/plain; charset=utf-8".to_owned(), body: "ok\n".to_owned() }
            };
            ctx.local_response = true;
            return Ok(FilterOutcome::Respond(text));
        }
        if headers.fields.len() > self.limits.max_header_count {
            return Err(self.reject(431, "request header count exceeds configured limit".to_owned()));
        }
        if header_bytes_capped(headers) > self.limits.max_header_bytes {
            return Err(self.reject(431, "request headers exceed configured byte limit".to_owned()));
        }
        match check_content_length(headers, self.limits.max_body_bytes) {
            Some((status, reason)) => return Err(self.reject(status, reason)),
            None => {},
        }
        let host = host_of(headers);
        let found = match &host {
            Some(h) => self.routes.find(Some(h.as_str()), path),
            None => self.routes.find(None, path),
        };
        let route = match found {
            Some(route) => copy_route(route),
            None => return Err(self.reject(404, "no configured route matched the request".to_owned())),
        };
        ctx.route = Some(route);
        Ok(FilterOutcome::Proceed)
    }

    /// Counts streamed request body bytes (saturating) and refuses the request once they exceed
    /// the body limit.
    pub fn request_body_filter(&mut self, chunk_len: Option<u64>, ctx: &mut RequestContext) -> (r: Result<(), ProxyError>)
        ensures
            final(self).spec_routes() == old(self).spec_routes(),
            final(self).spec_limits() == old(self).spec_limits(),
            final(self).spec_metrics().spec_requests() == old(self).spec_metrics().spec_requests(),
            final(self).spec_metrics().spec_proxy_errors() == old(self).spec_metrics().spec_proxy_errors(),
            final(ctx).route == old(ctx).route,
            final(ctx).local_response == old(ctx).local_response,
            match chunk_len {
                None => r is Ok && final(ctx).body_bytes == old(ctx).body_bytes
                    && final(self).spec_metrics().spec_rejected() == old(self).spec_metrics().spec_rejected(),
                Some(n) => {
                    &&& final(ctx).body_bytes == old(ctx).body_bytes.saturating_add(n)
                    &&& final(ctx).body_bytes > old(self).spec_limits().max_body_bytes ==> (r matches Err(e)
                        && e@ == ProxyErrorView::HttpStatus(413, "streamed request body exceeds configured limit"@)
                        && final(self).spec_metrics().spec_rejected() == bump(old(self).spec_metrics().spec_rejected()))
                    &&& final(ctx).body_bytes <= old(self).spec_limits().max_body_bytes ==> (r is Ok
                        && final(self).spec_metrics().spec_rejected() == old(self).spec_metrics().spec_rejected())
                },
            },
    {
        if let Some(n) = chunk_len {
            ctx.body_bytes = ctx.body_bytes.saturating_add(n);
            if ctx.body_bytes > self.limits.max_body_bytes {
                return Err(self.reject(413, "streamed request body exceeds configured limit".to_owned()));
            }
        }
        Ok(())
    }

    /// Connection settings for the route kept in the context; certificates and host names are
    /// always verified.
    pub fn upstream_peer(&self, ctx: &RequestContext) -> (r: Result<UpstreamPeer, ProxyError>)
        ensures
            match ctx.route {
                None => r matches Err(e) && e@ == ProxyErrorView::HttpStatus(500, "route context missing"@),
                Some(route) => r matches Ok(p) && p.socket == route.upstream.socket
                    && p.tls == (route.upstream.scheme == UpstreamScheme::Https) && p.sni@ == route.upstream.host@
                    && p.connection_timeout_ms == self.spec_limits().connect_timeout_ms
                    && p.total_connection_timeout_ms == self.spec_limits().connect_timeout_ms
                    && p.read_timeout_ms == self.spec_limits().read_timeout_ms
                    && p.write_timeout_ms == self.spec_limits().write_timeout_ms && p.verify_cert && p.verify_hostname,
            },
    {
        let route = match &ctx.route {
            Some(route) => route,
            None => return Err(ProxyError::HttpStatus { status: 500, reason: "route context missing".to_owned() }),
        };
        Ok(UpstreamPeer {
            socket: route.upstream.socket,
            tls: route.upstream.scheme == UpstreamScheme::Https,
            sni: route.upstream.host.clone(),
            connection_timeout_ms: self.limits.connect_timeout_ms,
            total_connection_timeout_ms: self.limits.connect_timeout_ms,
            read_timeout_ms: self.limits.read_timeout_ms,
            write_timeout_ms: self.limits.write_timeout_ms,
            verify_cert: true,
            verify_hostname: true,
        })
    }

    /// Removes client-supplied forwarding identity from the upstream request and sets `Host` to
    /// the route's upstream authority.
    pub fn upstream_request_filter(&self, ctx: &RequestContext, upstream_request: &mut HeaderList) -> (r: Result<(), ProxyError>)
        ensures
            match ctx.route {
                None => r matches Err(e) && e@ == ProxyErrorView::HttpStatus(500, "route context missing"@)
                    && final(upstream_request)@ == old(upstream_request)@,
                Some(route) => if is_value_text(route.upstream.authority@) {
                    r is Ok && final(upstream_request)@ == without_name(without_client_identity(old(upstream_request)@), "host"@).push(
                        ("host"@, encode_utf8(route.upstream.authority@)),
                    )
                } else {
                    r matches Err(e) && e@ == ProxyErrorView::InvalidHttpHeader
                        && final(upstream_request)@ == without_client_identity(old(upstream_request)@)
                },
            },
    {
        let route = match &ctx.route {
            Some(route) => route,
            None => return Err(ProxyError::HttpStatus { status: 500, reason: "route context missing".to_owned() }),
        };
        upstream_request.remove("forwarded");
        upstream_request.remove("x-forwarded-for");
        upstream_request.remove("x-forwarded-host");
        upstream_request.remove("x-forwarded-proto");
        upstream_request.remove("x-forwarded-port");
        upstream_request.remove("x-real-ip");
        match upstream_request.insert("host", route.upstream.authority.as_str()) {
            Ok(()) => Ok(()),
            Err(_) => Err(ProxyError::InvalidHttpHeader),
        }
    }

    /// The access-log entry for a finished request: none for local answers; otherwise the route
    /// identity (or `unmatched`) and whether it failed, a failure being counted as a proxy error.
    pub fn logging(&mut self, failed: bool, ctx: &RequestContext) -> (r: Option<AccessLogEntry>)
        ensures
            final(self).spec_routes() == old(self).spec_routes(),
            final(self).spec_limits() == old(self).spec_limits(),
            final(self).spec_metrics().spec_requests() == old(self).spec_metrics().spec_requests(),
            final(self).spec_metrics().spec_rejected() == old(self).spec_metrics().spec_rejected(),
            ctx.local_response ==> r is None && final(self).spec_metrics().spec_proxy_errors() == old(self).spec_metrics().spec_proxy_errors(),
            !ctx.local_response ==> {
                &&& r matches Some(entry)
                &&& entry.failed == failed
                &&& entry.route_id@ == match ctx.route {
                    Some(route) => route.id@,
                    None => "unmatched"@,
                }
                &&& final(self).spec_metrics().spec_proxy_errors() == (if failed {
                    bump(old(self).spec_metrics().spec_proxy_errors())
                } else {
                    old(self).spec_metrics().spec_proxy_errors()
                })
            },
    {
        if ctx.local_response {
            return None;
        }
        let route_id = match &ctx.route {
            Some(route) => route.id.as_str().to_owned(),
            None => "unmatched".to_owned(),
        };
        if failed {
            self.metrics.proxy_error();
        }
        Some(AccessLogEntry { route_id, failed })
    }
}

/// Whether a local answer carries its body: not for `HEAD`, nor for an empty body.
pub fn local_body_sent(method: &str, body: &str) -> (r: bool)
    ensures
        r == (method@ != "HEAD"@ && body@.len() > 0),
{
    let head = chars_eq(&chars_of(method), &chars_of("HEAD"));
    !head && !body.is_empty()
}

/// The request fields without the client-supplied forwarding identity the proxy removes.
pub open spec fn without_client_identity(s: Seq<FieldView>) -> Seq<FieldView> {
    without_name(without_name(without_name(without_name(without_name(without_name(
        s,
        "forwarded"@,
    ), "x-forwarded-for"@), "x-forwarded-host"@), "x-forwarded-proto"@), "x-forwarded-port"@), "x-real-ip"@)
}

} // verus!
