use cwl_pingora_gateway::edge_contract::{GatewayConfigError, UpstreamConfig, UpstreamTimeouts};
use cwl_pingora_gateway::forwarding_policy::ForwardingRejection;
use cwl_pingora_gateway::http_model::{HeaderList, ProxyError};
use cwl_pingora_gateway::migration_admin::{pg_erd_migration_plan, PgErdMigrationConfig, PgErdMigrationConfigError};
use cwl_pingora_gateway::migration_delivery::{MigrationDeliveryError, MigrationDeliveryPlan};
use cwl_pingora_gateway::migration_proxy::{pg_erd_forwarding_context, MigrationGatewayProxyError};
use cwl_pingora_gateway::net::{IpAddress, SocketAddress};
use cwl_pingora_gateway::pingora_delivery::PeerBuildError;

fn upstream(name: &str, port: u16) -> UpstreamConfig {
    UpstreamConfig {
        name: name.to_string(),
        address: SocketAddress { ip: IpAddress::V4(10, 0, 0, 2), port, flowinfo: 0, scope_id: 0 },
        tls: false,
        sni: None,
        trust_bundle_file: None,
        timeouts: UpstreamTimeouts { connection_ms: 1, total_connection_ms: 2, read_ms: 3, write_ms: 4, idle_ms: 5 },
    }
}

fn config(upstreams: Vec<UpstreamConfig>) -> PgErdMigrationConfig {
    PgErdMigrationConfig {
        version: 1,
        listener: SocketAddress { ip: IpAddress::V4(0, 0, 0, 0), port: 8080, flowinfo: 0, scope_id: 0 },
        metrics_listener: SocketAddress { ip: IpAddress::V4(127, 0, 0, 1), port: 9100, flowinfo: 0, scope_id: 0 },
        max_request_body_bytes: 1024,
        max_in_flight_requests: 2,
        upstream_keepalive_pool_size: 8,
        upstreams,
    }
}

#[test]
fn characterized_plan_routes_by_priority() {
    let plan = pg_erd_migration_plan().expect("the characterized plan is valid");
    assert_eq!(plan.upstream_count(), 2);
    assert_eq!(plan.select_upstream("/healthz").map(String::as_str), Some("backend"));
    assert_eq!(plan.select_upstream("/healthz/x").map(String::as_str), Some("frontend"));
    assert_eq!(plan.select_upstream("/api/users").map(String::as_str), Some("backend"));
    assert_eq!(plan.select_upstream("/index.html").map(String::as_str), Some("frontend"));
    assert_eq!(plan.response_header_value("x-frame-options").map(String::as_str), Some("DENY"));
    assert!(plan.contains_upstream(" backend "));
    assert!(!plan.contains_upstream("db"));
}

#[test]
fn delivery_binds_every_admitted_upstream_exactly_once() {
    let plan = pg_erd_migration_plan().unwrap();
    let delivery = MigrationDeliveryPlan::try_new(plan, vec![upstream(" frontend", 3000), upstream("backend", 8000)], vec![None, None])
        .expect("a complete bijection");
    assert_eq!(delivery.upstream_count(), 2);
    assert_eq!(delivery.build_upstream_peer("/api").map(|p| p.address.port), Some(8000));
    assert_eq!(delivery.build_upstream_peer("/").map(|p| p.address.port), Some(3000));
    assert_eq!(delivery.select_upstream_name("/healthz").map(String::as_str), Some("backend"));
    assert_eq!(delivery.response_header_value("Referrer-Policy").map(String::as_str), Some("no-referrer"));
}

#[test]
fn delivery_refuses_incomplete_duplicate_or_unknown_bindings() {
    let plan = || pg_erd_migration_plan().unwrap();
    assert_eq!(
        MigrationDeliveryPlan::try_new(plan(), vec![upstream("backend", 1)], vec![None]).err(),
        Some(MigrationDeliveryError::UpstreamAuthorityCountMismatch { expected: 2, actual: 1 })
    );
    assert_eq!(
        MigrationDeliveryPlan::try_new(plan(), vec![upstream("backend", 1), upstream("backend ", 2)], vec![None, None]).err(),
        Some(MigrationDeliveryError::DuplicateConfiguredUpstream { upstream_name: "backend".to_string() })
    );
    assert_eq!(
        MigrationDeliveryPlan::try_new(plan(), vec![upstream("backend", 1), upstream("db", 2)], vec![None, None]).err(),
        Some(MigrationDeliveryError::UnknownConfiguredUpstream { upstream_name: "db".to_string() })
    );
    let mut with_bundle = upstream("frontend", 2);
    with_bundle.tls = true;
    with_bundle.sni = Some("frontend.internal".to_string());
    with_bundle.trust_bundle_file = Some("/etc/ca.pem".to_string());
    let unreadable = PeerBuildError::ReadTrustBundle { path: "/etc/ca.pem".to_string(), kind: "NotFound".to_string() };
    assert_eq!(
        MigrationDeliveryPlan::try_new(plan(), vec![upstream("backend", 1), with_bundle], vec![None, Some(Err(unreadable.clone()))]).err(),
        Some(MigrationDeliveryError::UpstreamActivation { upstream_name: "frontend".to_string(), source: unreadable })
    );
}

#[test]
fn admin_config_validates_authority_before_activation() {
    let valid = config(vec![upstream("backend", 8000), upstream("frontend", 3000)]);
    assert_eq!(valid.validate(), Ok(()));
    let mut wrong_version = config(vec![upstream("backend", 8000), upstream("frontend", 3000)]);
    wrong_version.version = 2;
    assert_eq!(wrong_version.validate(), Err(PgErdMigrationConfigError::UnsupportedVersion(2)));
    let mut collision = config(vec![upstream("backend", 8000), upstream("frontend", 3000)]);
    collision.metrics_listener = collision.listener;
    assert_eq!(collision.validate(), Err(PgErdMigrationConfigError::ListenerCollision));
    assert_eq!(
        config(vec![upstream("backend", 8000)]).validate(),
        Err(PgErdMigrationConfigError::TransportAuthorityCountMismatch { expected: 2, actual: 1 })
    );
    assert_eq!(
        config(vec![upstream("backend", 8000), upstream("backend", 3000)]).validate(),
        Err(PgErdMigrationConfigError::DuplicateTransportAuthority { upstream_name: "backend".to_string() })
    );
    assert_eq!(
        config(vec![upstream("backend", 8000), upstream(" ", 3000)]).validate(),
        Err(PgErdMigrationConfigError::UpstreamConfiguration(GatewayConfigError::EmptyUpstreamName))
    );
    let mut zero_body = config(vec![upstream("backend", 8000), upstream("frontend", 3000)]);
    zero_body.max_request_body_bytes = 0;
    assert!(matches!(zero_body.validate(), Err(PgErdMigrationConfigError::RuntimeIsolation(_))));
}

#[test]
fn admin_config_builds_a_bounded_proxy() {
    let valid = PgErdMigrationConfig::accept(config(vec![upstream("backend", 8000), upstream("frontend", 3000)])).expect("valid");
    assert_eq!(valid.upstream_keepalive_pool_size(), 8);
    assert_eq!(valid.listener().port, 8080);
    assert_eq!(valid.metrics_listener().port, 9100);
    let mut proxy = valid.build_proxy(vec![None, None]).expect("proxy");
    assert_eq!(proxy.build_upstream_peer("/api/x").map(|p| p.address.port), Ok(8000));
    assert_eq!(
        proxy.build_upstream_peer("no-slash"),
        Err(MigrationGatewayProxyError::UnmatchedRoute { request_path: "no-slash".to_string() })
    );

    let mut first = proxy.new_ctx();
    let mut second = proxy.new_ctx();
    let mut third = proxy.new_ctx();
    let headers = HeaderList::new();
    assert_eq!(proxy.request_filter(&headers, &mut first), Ok(false));
    assert_eq!(proxy.request_filter(&headers, &mut second), Ok(false));
    assert!(matches!(proxy.request_filter(&headers, &mut third), Err(ProxyError::HttpStatus { status: 503, .. })));
    proxy.finish_request(first);
    let mut fourth = proxy.new_ctx();
    let mut oversized = HeaderList::new();
    oversized.insert("content-length", "1025").unwrap();
    assert!(matches!(proxy.request_filter(&oversized, &mut fourth), Err(ProxyError::HttpStatus { status: 413, .. })));

    let mut response = HeaderList::new();
    response.insert("x-frame-options", "SAMEORIGIN").unwrap();
    proxy.apply_response_headers(&mut response).expect("policy values are valid");
    assert_eq!(response.get("x-frame-options"), Some(&b"DENY".to_vec()));
    assert_eq!(response.count("x-frame-options"), 1);
    assert_eq!(response.fields.len(), 4);
}

#[test]
fn pg_erd_forwarding_uses_the_clear_text_entry_point() {
    let mut downstream = HeaderList::new();
    downstream.insert("host", "erd.example").unwrap();
    let context = pg_erd_forwarding_context(Some(IpAddress::V4(198, 51, 100, 4)), &HeaderList::new(), &downstream).expect("authority");
    assert_eq!(context.downstream_port(), 80);
    assert_eq!(
        pg_erd_forwarding_context(None, &downstream, &downstream).err(),
        Some(ForwardingRejection::MissingClientAddress)
    );
}

#[test]
fn listeners_differing_only_in_ipv6_scope_do_not_collide() {
    let link_local = |scope_id: u32| SocketAddress {
        ip: IpAddress::V6(0xfe80, 0, 0, 0, 0, 0, 0, 1),
        port: 8080,
        flowinfo: 0,
        scope_id,
    };
    let mut scoped = config(vec![upstream("backend", 8000), upstream("frontend", 3000)]);
    scoped.listener = link_local(1);
    scoped.metrics_listener = link_local(2);
    assert_eq!(scoped.validate(), Ok(()));
    scoped.metrics_listener = link_local(1);
    assert_eq!(scoped.validate(), Err(PgErdMigrationConfigError::ListenerCollision));
}
