use cwl_pingora_gateway::host_routing::{Route, RouteId, RouteTable, RoutingError, UpstreamScheme, UpstreamTarget};
use cwl_pingora_gateway::net::{IpAddress, SocketAddress};

fn route(id: &str, host: Option<&str>, prefix: &str) -> Route {
    Route {
        id: RouteId::new(id.to_string()).unwrap_or_else(|error| panic!("test route id: {error:?}")),
        host: host.map(str::to_owned),
        path_prefix: prefix.to_owned(),
        upstream: UpstreamTarget {
            socket: SocketAddress { ip: IpAddress::V4(127, 0, 0, 1), port: 9000, flowinfo: 0, scope_id: 0 },
            host: "127.0.0.1".to_owned(),
            authority: "127.0.0.1:9000".to_owned(),
            scheme: UpstreamScheme::Http,
        },
    }
}

#[test]
fn exact_host_and_longest_prefix_have_precedence() {
    let table = RouteTable::new(vec![
        route("fallback", None, "/"),
        route("api", Some("app.example"), "/api/"),
        route("host-root", Some("app.example"), "/"),
    ])
    .unwrap_or_else(|error| panic!("route table: {error:?}"));

    assert_eq!(table.find(Some("APP.EXAMPLE"), "/api/items").map(|r| r.id.as_str()), Some("api"));
    assert_eq!(table.find(Some("app.example"), "/other").map(|r| r.id.as_str()), Some("host-root"));
    assert_eq!(table.find(Some("other.example"), "/other").map(|r| r.id.as_str()), Some("fallback"));
}

#[test]
fn duplicate_matchers_fail_closed() {
    let error = RouteTable::new(vec![route("a", None, "/"), route("b", None, "/")])
        .err()
        .unwrap_or_else(|| panic!("duplicate matcher must fail"));
    assert!(matches!(error, RoutingError::DuplicateMatcher { .. }));
}

#[test]
fn duplicate_matcher_reports_the_first_claimed_matcher() {
    let error = RouteTable::new(vec![
        route("a", Some("one.example"), "/x"),
        route("b", None, "/"),
        route("c", Some("one.example"), "/x"),
    ])
    .err()
    .expect("the repeated host and prefix must fail");
    assert_eq!(
        error,
        RoutingError::DuplicateMatcher { host: Some("one.example".to_owned()), path_prefix: "/x".to_owned() }
    );
}

#[test]
fn route_ids_are_bounded_and_restricted() {
    assert!(RouteId::new("api-v1_edge.2".to_string()).is_ok());
    assert_eq!(RouteId::new(String::new()), Err(RoutingError::InvalidRouteId(String::new())));
    assert_eq!(RouteId::new("a b".to_string()), Err(RoutingError::InvalidRouteId("a b".to_string())));
    assert!(RouteId::new("x".repeat(64)).is_ok());
    assert!(RouteId::new("x".repeat(65)).is_err());
    assert!(RouteId::new("é".to_string()).is_err());
}

#[test]
fn table_order_puts_host_routes_then_longer_prefixes_then_smaller_ids_first() {
    let table = RouteTable::new(vec![
        route("z", None, "/a"),
        route("b", None, "/long"),
        route("a", None, "/b"),
        route("h", Some("h.example"), "/"),
    ])
    .expect("distinct matchers");
    assert_eq!(table.len(), 4);
    assert!(!table.is_empty());
    assert_eq!(table.find(Some("h.example"), "/long").map(|r| r.id.as_str()), Some("h"));
    assert_eq!(table.find(None, "/long").map(|r| r.id.as_str()), Some("b"));
    assert_eq!(table.find(None, "/a").map(|r| r.id.as_str()), Some("z"));
    assert_eq!(table.find(None, "/c"), None);
    assert_eq!(table.find(Some("h.example."), "/c"), None);
}

#[test]
fn selection_does_not_depend_on_declaration_order() {
    let declared = [
        route("fallback", None, "/"),
        route("api", Some("app.example"), "/api/"),
        route("host-root", Some("app.example"), "/"),
        route("same-length-b", None, "/ab"),
        route("same-length-a", None, "/ac"),
    ];
    let forward = RouteTable::new(declared.to_vec()).unwrap_or_else(|error| panic!("route table: {error:?}"));
    let mut reversed_routes = declared.to_vec();
    reversed_routes.reverse();
    let reversed = RouteTable::new(reversed_routes).unwrap_or_else(|error| panic!("route table: {error:?}"));
    for (host, path) in [
        (Some("app.example"), "/api/items"),
        (Some("app.example"), "/ab"),
        (None, "/ab"),
        (None, "/ac"),
        (None, "/zz"),
        (Some("other.example"), "/api/items"),
    ] {
        assert_eq!(
            forward.find(host, path).map(|r| r.id.as_str()),
            reversed.find(host, path).map(|r| r.id.as_str()),
            "{host:?} {path}"
        );
    }
}
