use cwl_pingora_gateway::edge_contract::{GatewayConfig, GatewayConfigError, UpstreamConfig, UpstreamTimeouts};
use cwl_pingora_gateway::gateway_proxy::{GatewayProxy, RequestContext};
use cwl_pingora_gateway::http_model::{HeaderList, ProxyError};
use cwl_pingora_gateway::net::{IpAddress, SocketAddress};
use cwl_pingora_gateway::runtime_policy::{build_server_conf, V1_GRACEFUL_SHUTDOWN_TIMEOUT_SECONDS, V1_MAX_UPSTREAM_ATTEMPTS};
use cwl_pingora_gateway::startup::{GatewayCommand, GatewayCommandError};
use cwl_pingora_gateway::telemetry::Metrics;

fn args(list: &[&str]) -> Vec<String> {
    list.iter().map(|s| s.to_string()).collect()
}

#[test]
fn exactly_one_explicit_config_path_is_required() {
    let command = GatewayCommand::parse(args(&["gateway", "--config", "/etc/gw.yaml"])).expect("explicit path");
    assert_eq!(command.config_path(), "/etc/gw.yaml");
    assert_eq!(GatewayCommand::parse(args(&["gateway"])), Err(GatewayCommandError::MissingConfigOption));
    assert_eq!(GatewayCommand::parse(args(&[])), Err(GatewayCommandError::MissingConfigOption));
    assert_eq!(GatewayCommand::parse(args(&["gateway", "--config"])), Err(GatewayCommandError::MissingConfigValue));
    assert_eq!(
        GatewayCommand::parse(args(&["gateway", "--config", "a", "--config", "b"])),
        Err(GatewayCommandError::DuplicateConfigOption)
    );
    assert_eq!(
        GatewayCommand::parse(args(&["gateway", "--verbose"])),
        Err(GatewayCommandError::UnexpectedArgument("--verbose".to_string()))
    );
}

fn upstream() -> UpstreamConfig {
    UpstreamConfig {
        name: "origin".to_string(),
        address: SocketAddress { ip: IpAddress::V4(10, 0, 0, 9), port: 8081, flowinfo: 0, scope_id: 0 },
        tls: false,
        sni: None,
        trust_bundle_file: None,
        timeouts: UpstreamTimeouts { connection_ms: 100, total_connection_ms: 200, read_ms: 300, write_ms: 400, idle_ms: 500 },
    }
}

fn gateway_config() -> GatewayConfig {
    GatewayConfig {
        version: 1,
        listener: SocketAddress { ip: IpAddress::V4(0, 0, 0, 0), port: 8080, flowinfo: 0, scope_id: 0 },
        metrics_listener: SocketAddress { ip: IpAddress::V4(127, 0, 0, 1), port: 9100, flowinfo: 0, scope_id: 0 },
        max_request_body_bytes: 16,
        max_in_flight_requests: 1,
        upstream_keepalive_pool_size: 4,
        upstreams: vec![upstream()],
    }
}

#[test]
fn configuration_outcomes_name_the_explicit_path() {
    let command = GatewayCommand::parse(args(&["gateway", "--config", "/etc/gw.yaml"])).unwrap();
    let read = command.load_config(Err("NotFound".to_string())).unwrap_err();
    assert_eq!(read, GatewayCommandError::ReadConfig { path: "/etc/gw.yaml".to_string(), kind: "NotFound".to_string() });
    assert_eq!(read.path().map(String::as_str), Some("/etc/gw.yaml"));
    let parse = command.load_config(Ok(Err("bad yaml".to_string()))).unwrap_err();
    assert_eq!(
        parse,
        GatewayCommandError::InvalidConfig { path: "/etc/gw.yaml".to_string(), source: GatewayConfigError::Parse("bad yaml".to_string()) }
    );
    let mut two = gateway_config();
    two.upstreams.push(upstream());
    assert!(matches!(command.load_config(Ok(Ok(two))), Err(GatewayCommandError::InvalidConfig { .. })));
    assert!(command.load_config(Ok(Ok(gateway_config()))).is_ok());
    assert_eq!(GatewayCommandError::MissingConfigValue.path(), None);
}

#[test]
fn v1_proxy_bypasses_admission_for_health_and_bounds_the_rest() {
    let mut proxy = GatewayProxy::try_from_config(&gateway_config(), None).expect("valid v1 config");
    assert_eq!(proxy.build_upstream_peer().address.port, 8081);
    let headers = HeaderList::new();
    let mut health = RequestContext::default();
    assert_eq!(proxy.request_filter("/livez", &headers, &mut health), Ok(true));
    assert!(health.admission.is_none());
    let mut first = RequestContext::default();
    assert_eq!(proxy.request_filter("/", &headers, &mut first), Ok(false));
    let mut second = RequestContext::default();
    assert!(matches!(proxy.request_filter("/", &headers, &mut second), Err(ProxyError::HttpStatus { status: 503, .. })));
    assert_eq!(proxy.request_filter("/readyz", &headers, &mut second), Ok(true));
    proxy.finish_request(first);
    let mut third = RequestContext::default();
    assert_eq!(proxy.request_filter("/", &headers, &mut third), Ok(false));
    assert!(proxy.request_body_filter(Some(16), &mut third).is_ok());
    assert!(matches!(proxy.request_body_filter(Some(1), &mut third), Err(ProxyError::HttpStatus { status: 413, .. })));

    let mut upstream_request = HeaderList::new();
    upstream_request.insert("x-forwarded-for", "203.0.113.1").unwrap();
    upstream_request.insert("forwarded", "for=evil").unwrap();
    upstream_request.insert("accept", "*/*").unwrap();
    upstream_request.insert("X-Forwarded-Prefix", "/spoofed").unwrap();
    upstream_request.insert("X-Forwarded-Port", "8443").unwrap();
    upstream_request.insert("X-Real-IP", "203.0.113.2").unwrap();
    proxy.upstream_request_filter(&mut upstream_request);
    assert!(upstream_request.get("x-forwarded-for").is_none());
    assert!(upstream_request.get("x-forwarded-prefix").is_none());
    assert!(upstream_request.get("x-forwarded-port").is_none());
    assert!(upstream_request.get("x-real-ip").is_none());
    assert_eq!(upstream_request.get("forwarded"), Some(&b"proto=http".to_vec()));
    assert_eq!(upstream_request.fields.len(), 2);
}

#[test]
fn admission_budget_rejects_at_capacity_and_recovers_after_release() {
    let mut proxy = GatewayProxy::try_from_config(&gateway_config(), None).expect("valid v1 config");
    let first = proxy.acquire_or_reject().expect("first request is admitted");
    assert!(matches!(proxy.acquire_or_reject(), Err(ProxyError::HttpStatus { status: 503, .. })));

    proxy.release(first);

    assert!(proxy.acquire_or_reject().is_ok());
}

#[test]
fn invalid_v1_configs_never_activate() {
    let mut config = gateway_config();
    config.metrics_listener = SocketAddress { ip: IpAddress::V4(0, 0, 0, 0), port: 8080, flowinfo: 0, scope_id: 0 };
    assert!(GatewayProxy::try_from_config(&config, None).is_err());
}

#[test]
fn server_policy_pins_attempts_and_shutdown_budget() {
    let policy = build_server_conf(32);
    assert_eq!(policy.max_upstream_attempts, V1_MAX_UPSTREAM_ATTEMPTS);
    assert_eq!(policy.max_upstream_attempts, 1);
    assert_eq!(policy.upstream_keepalive_pool_size, 32);
    assert_eq!(policy.grace_period_seconds, 5);
    assert_eq!(policy.graceful_shutdown_timeout_seconds, V1_GRACEFUL_SHUTDOWN_TIMEOUT_SECONDS);
}

#[test]
fn metrics_render_prometheus_text() {
    let mut metrics = Metrics::new();
    metrics.request();
    metrics.request();
    metrics.rejected();
    metrics.proxy_error();
    assert_eq!(
        metrics.render(),
        "# TYPE pingora_gateway_requests_total counter\npingora_gateway_requests_total 2\n# TYPE pingora_gateway_rejected_total counter\npingora_gateway_rejected_total 1\n# TYPE pingora_gateway_proxy_errors_total counter\npingora_gateway_proxy_errors_total 1\n"
    );
}
