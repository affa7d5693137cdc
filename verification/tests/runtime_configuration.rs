use cwl_pingora_gateway::delivery::pingora_proxy::{FilterOutcome, GatewayProxy};
use cwl_pingora_gateway::host_routing::UpstreamScheme;
use cwl_pingora_gateway::http_model::{HeaderList, ProxyError};
use cwl_pingora_gateway::net::{IpAddress, SocketAddress};
use cwl_pingora_gateway::runtime_configuration::{
    compile_route, prepare_route, ConfigError, RawConfig, RawLimits, RawRoute, ValidatedConfig,
};
use cwl_pingora_gateway::telemetry::Metrics;

fn limits() -> RawLimits {
    RawLimits {
        max_header_count: 64,
        max_header_bytes: 32768,
        max_body_bytes: 1048576,
        connect_timeout_ms: 1000,
        read_timeout_ms: 5000,
        write_timeout_ms: 5000,
    }
}

fn raw_route(id: &str, host: Option<&str>, prefix: &str, upstream: &str, allow_private: bool) -> RawRoute {
    RawRoute {
        id: id.to_string(),
        host: host.map(str::to_owned),
        path_prefix: prefix.to_string(),
        upstream: upstream.to_string(),
        allow_private_networks: allow_private,
    }
}

fn loopback(port: u16) -> SocketAddress {
    SocketAddress { ip: IpAddress::V4(127, 0, 0, 1), port, flowinfo: 0, scope_id: 0 }
}

/// Compiles a one-route document whose upstream resolves to `resolved`.
fn from_document(upstream: &str, allow_private: bool, resolved: Vec<SocketAddress>) -> Result<ValidatedConfig, ConfigError> {
    let raw = RawConfig {
        version: 1,
        listener: "127.0.0.1:18080".to_string(),
        limits: limits(),
        routes: vec![raw_route("app", None, "/", upstream, allow_private)],
    };
    ValidatedConfig::from_document(raw, Some(loopback(18080)), vec![Ok(resolved)])
}

#[test]
fn private_upstream_requires_explicit_opt_in() {
    let error = from_document("http://127.0.0.1:19090", false, vec![loopback(19090)])
        .err()
        .unwrap_or_else(|| panic!("private upstream must be rejected"));
    assert!(matches!(error, ConfigError::InvalidUpstream { .. }));
    assert!(from_document("http://127.0.0.1:19090", true, vec![loopback(19090)]).is_ok());
}

#[test]
fn upstream_urls_must_be_origins() {
    for (url, reason) in [
        ("http://user@example.com", "upstream must be an origin URL only; credentials/path/query/fragment are forbidden"),
        ("http://example.com/path", "upstream must be an origin URL only; credentials/path/query/fragment are forbidden"),
        ("http://example.com/?q=1", "upstream must be an origin URL only; credentials/path/query/fragment are forbidden"),
        ("ftp://example.com", "unsupported scheme ftp"),
    ] {
        match prepare_route(raw_route("app", None, "/", url, false)) {
            Err(ConfigError::InvalidUpstream { route_id, reason: got }) => {
                assert_eq!(route_id, "app");
                assert_eq!(got, reason, "{url}");
            }
            other => panic!("{url}: expected an upstream refusal, got {other:?}"),
        }
    }
    assert!(matches!(
        prepare_route(raw_route("app", None, "/", "not a url", false)),
        Err(ConfigError::InvalidUpstream { .. })
    ));
}

#[test]
fn parsed_origins_carry_scheme_host_and_default_port() {
    let prepared = prepare_route(raw_route("web", Some("App.Example.."), "/", "https://Example.COM", false)).expect("origin URL");
    assert_eq!(prepared.origin.scheme, UpstreamScheme::Https);
    assert_eq!(prepared.origin.host, "example.com");
    assert_eq!(prepared.origin.port, 443);
    assert_eq!(prepared.host.as_deref(), Some("app.example"));

    let route = compile_route(prepared, Ok(vec![SocketAddress { ip: IpAddress::V4(93, 184, 216, 34), port: 443, flowinfo: 0, scope_id: 0 }])).expect("public address");
    assert_eq!(route.upstream.authority, "example.com");

    let prepared = prepare_route(raw_route("api", None, "/api", "http://127.0.0.1:19090", true)).expect("origin URL");
    assert_eq!(prepared.origin.port, 19090);
    let route = compile_route(prepared, Ok(vec![loopback(19090)])).expect("opted in");
    assert_eq!(route.upstream.authority, "127.0.0.1:19090");
    assert_eq!(route.upstream.socket, loopback(19090));
}

#[test]
fn route_shapes_and_resolution_outcomes_fail_closed() {
    assert!(matches!(prepare_route(raw_route("bad id", None, "/", "http://a.example", false)), Err(ConfigError::Routing(_))));
    assert!(matches!(prepare_route(raw_route("app", None, "api", "http://a.example", false)), Err(ConfigError::InvalidRoute { .. })));
    assert!(matches!(prepare_route(raw_route("app", None, "/a?b", "http://a.example", false)), Err(ConfigError::InvalidRoute { .. })));
    assert!(matches!(prepare_route(raw_route("app", Some("a@b"), "/", "http://a.example", false)), Err(ConfigError::InvalidRoute { .. })));
    assert!(matches!(prepare_route(raw_route("app", Some("..."), "/", "http://a.example", false)), Err(ConfigError::InvalidRoute { .. })));

    let prepared = prepare_route(raw_route("app", None, "/", "http://a.example", false)).expect("origin");
    match compile_route(prepared.clone(), Err("no such host".to_string())) {
        Err(ConfigError::InvalidUpstream { reason, .. }) => assert_eq!(reason, "DNS resolution failed: no such host"),
        other => panic!("unexpected {other:?}"),
    }
    match compile_route(prepared, Ok(Vec::new())) {
        Err(ConfigError::InvalidUpstream { reason, .. }) => assert_eq!(reason, "DNS resolution returned no addresses"),
        other => panic!("unexpected {other:?}"),
    }
}

#[test]
fn documents_compile_every_route_in_order() {
    let raw = |routes: Vec<RawRoute>| RawConfig {
        version: 1,
        listener: "127.0.0.1:18080".to_string(),
        limits: limits(),
        routes,
    };
    let config = ValidatedConfig::from_document(
        raw(vec![
            raw_route("root", None, "/", "http://127.0.0.1:19090", true),
            raw_route("api", Some("API.example"), "/api", "http://127.0.0.1:19091", true),
        ]),
        Some(loopback(18080)),
        vec![Ok(vec![loopback(19090)]), Ok(vec![loopback(19091)])],
    )
    .expect("valid document");
    assert_eq!(config.listener, loopback(18080));
    assert_eq!(config.routes.len(), 2);
    let selected = config.routes.find(Some("api.example"), "/api/v1").expect("a route admits the request");
    assert_eq!(selected.id.as_str(), "api");
    assert_eq!(selected.upstream.socket, loopback(19091));

    let second_fails = ValidatedConfig::from_document(
        raw(vec![
            raw_route("root", None, "/", "http://127.0.0.1:19090", true),
            raw_route("api", None, "/api", "http://127.0.0.1:19091", false),
        ]),
        Some(loopback(18080)),
        vec![Ok(vec![loopback(19090)]), Ok(vec![loopback(19091)])],
    );
    assert!(matches!(second_fails, Err(ConfigError::InvalidUpstream { route_id, .. }) if route_id == "api"));

    let duplicate = ValidatedConfig::from_document(
        raw(vec![
            raw_route("one", None, "/", "http://127.0.0.1:19090", true),
            raw_route("two", None, "/", "http://127.0.0.1:19091", true),
        ]),
        Some(loopback(18080)),
        vec![Ok(vec![loopback(19090)]), Ok(vec![loopback(19091)])],
    );
    assert!(matches!(duplicate, Err(ConfigError::Routing(_))));

    let refused_listener = ValidatedConfig::from_document(raw(vec![]), None, vec![]);
    assert_eq!(refused_listener.err(), Some(ConfigError::InvalidListener("127.0.0.1:18080".to_string())));
}

#[test]
fn document_checks_come_first() {
    let mut raw = RawConfig { version: 2, listener: "x".to_string(), limits: limits(), routes: vec![] };
    assert_eq!(ValidatedConfig::check_document(&raw, None), Err(ConfigError::UnsupportedVersion(2)));
    raw.version = 1;
    assert_eq!(ValidatedConfig::check_document(&raw, None), Err(ConfigError::InvalidListener("x".to_string())));
    assert_eq!(ValidatedConfig::check_document(&raw, Some(loopback(80))), Err(ConfigError::InvalidListener("x".to_string())));
    raw.limits.read_timeout_ms = 120001;
    assert_eq!(ValidatedConfig::check_document(&raw, Some(loopback(8080))), Err(ConfigError::InvalidLimit("read_timeout_ms".to_string())));
    raw.limits = limits();
    assert_eq!(ValidatedConfig::check_document(&raw, Some(loopback(8080))), Err(ConfigError::InvalidRouteCount));
}

fn gateway() -> GatewayProxy {
    let raw = RawConfig {
        version: 1,
        listener: "127.0.0.1:18080".to_string(),
        limits: limits(),
        routes: vec![
            raw_route("fallback", None, "/", "http://127.0.0.1:19090", true),
            raw_route("api", Some("app.example"), "/api/", "http://127.0.0.1:19091", true),
        ],
    };
    let listener = ValidatedConfig::check_document(&raw, Some(loopback(18080))).expect("document");
    let routes = raw
        .routes
        .iter()
        .map(|r| {
            let port = if r.id == "api" { 19091 } else { 19090 };
            compile_route(prepare_route(r.clone()).expect("route"), Ok(vec![loopback(port)])).expect("compiled")
        })
        .collect();
    let config = ValidatedConfig::assemble(listener, raw.limits, routes).expect("config");
    GatewayProxy::new(config.routes, config.limits, Metrics::new())
}

#[test]
fn requests_are_routed_by_their_host_authority() {
    let mut proxy = gateway();
    let mut ctx = proxy.new_ctx();
    let mut headers = HeaderList::new();
    headers.insert("host", "APP.example.:8080").unwrap();
    assert_eq!(proxy.request_filter(&mut ctx, "GET", "/api/items", &headers), Ok(FilterOutcome::Proceed));
    assert_eq!(ctx.route.as_ref().map(|r| r.id.as_str()), Some("api"));
    let peer = proxy.upstream_peer(&ctx).expect("route kept");
    assert_eq!(peer.socket, loopback(19091));

    let mut other = proxy.new_ctx();
    let mut bad_host = HeaderList::new();
    bad_host.insert("host", "app example").unwrap();
    assert_eq!(proxy.request_filter(&mut other, "GET", "/api/items", &bad_host), Ok(FilterOutcome::Proceed));
    assert_eq!(other.route.as_ref().map(|r| r.id.as_str()), Some("fallback"));
}

#[test]
fn local_endpoints_limits_and_metrics() {
    let mut proxy = gateway();
    let mut ctx = proxy.new_ctx();
    match proxy.request_filter(&mut ctx, "GET", "/livez", &HeaderList::new()) {
        Ok(FilterOutcome::Respond(text)) => {
            assert_eq!(text.status, 200);
            assert_eq!(text.body, "ok\n");
        }
        other => panic!("unexpected {other:?}"),
    }
    assert!(ctx.local_response);
    let mut ctx = proxy.new_ctx();
    assert!(matches!(
        proxy.request_filter(&mut ctx, "POST", "/metrics", &HeaderList::new()),
        Err(ProxyError::HttpStatus { status: 405, .. })
    ));
    let mut big = HeaderList::new();
    big.insert("content-length", "1048577").unwrap();
    let mut ctx = proxy.new_ctx();
    assert!(matches!(proxy.request_filter(&mut ctx, "PUT", "/", &big), Err(ProxyError::HttpStatus { status: 413, .. })));
    let mut ctx = proxy.new_ctx();
    match proxy.request_filter(&mut ctx, "GET", "/metrics", &HeaderList::new()) {
        Ok(FilterOutcome::Respond(text)) => assert_eq!(
            text.body,
            "# TYPE pingora_gateway_requests_total counter\npingora_gateway_requests_total 4\n# TYPE pingora_gateway_rejected_total counter\npingora_gateway_rejected_total 2\n# TYPE pingora_gateway_proxy_errors_total counter\npingora_gateway_proxy_errors_total 0\n"
        ),
        other => panic!("unexpected {other:?}"),
    }
}
