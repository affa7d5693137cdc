use cwl_pingora_gateway::forwarding_policy::{authority_port, DownstreamScheme, ForwardingContext, ForwardingRejection};
use cwl_pingora_gateway::http_model::HeaderList;
use cwl_pingora_gateway::net::IpAddress;

fn request_with_host(host: &str) -> HeaderList {
    let mut request = HeaderList::new();
    request.insert("host", host).expect("fixture Host must be valid HTTP field data");
    request
}

fn value(headers: &HeaderList, name: &str) -> Option<String> {
    headers.get(name).map(|v| String::from_utf8(v.clone()).expect("ASCII value"))
}

const LOCALHOST_V4: IpAddress = IpAddress::V4(127, 0, 0, 1);
const LOCALHOST_V6: IpAddress = IpAddress::V6(0, 0, 0, 0, 0, 0, 0, 1);

#[test]
fn ipv6_forwarding_uses_ip_without_socket_port() {
    let mut request = HeaderList::new();
    let context = ForwardingContext::new(LOCALHOST_V6, "[::1]:8443".to_string(), 8443, DownstreamScheme::Https);

    context.apply(&mut request).expect("literal transport metadata must produce valid headers");

    assert_eq!(value(&request, "x-forwarded-for").as_deref(), Some("::1"));
    assert_eq!(value(&request, "x-real-ip").as_deref(), Some("::1"));
}

#[test]
fn host_authority_port_is_external_authority_not_listener_bind_port() {
    let downstream = request_with_host("app.example");
    let upstream = request_with_host("app.example");
    let context =
        ForwardingContext::from_downstream_transport(Some(LOCALHOST_V4), &upstream, &downstream, DownstreamScheme::Http)
            .expect("valid clear-text authority must derive forwarding metadata");
    let mut emitted = request_with_host("app.example");

    context.apply(&mut emitted).expect("derived forwarding metadata must remain representable");

    assert_eq!(value(&emitted, "x-forwarded-host").as_deref(), Some("app.example"));
    assert_eq!(value(&emitted, "x-forwarded-port").as_deref(), Some("80"));
    assert_eq!(value(&emitted, "x-forwarded-proto").as_deref(), Some("http"));
}

#[test]
fn downstream_host_is_fallback_authority_when_upstream_host_is_absent() {
    let upstream = HeaderList::new();
    let downstream = request_with_host("fallback.example:8080");

    let context =
        ForwardingContext::from_downstream_transport(Some(LOCALHOST_V4), &upstream, &downstream, DownstreamScheme::Http)
            .expect("downstream Host must supply fallback authority");

    assert_eq!(context.original_host(), "fallback.example:8080");
    assert_eq!(context.downstream_port(), 8080);
}

#[test]
fn missing_host_authority_fails_closed() {
    let request = HeaderList::new();

    let error =
        ForwardingContext::from_downstream_transport(Some(LOCALHOST_V4), &request, &request, DownstreamScheme::Http)
            .expect_err("missing Host authority must fail closed");

    assert_eq!(error.status(), 400);
}

#[test]
fn malformed_host_authority_fails_closed_through_transport_derivation() {
    let request = request_with_host("app.example:0");

    let error =
        ForwardingContext::from_downstream_transport(Some(LOCALHOST_V4), &request, &request, DownstreamScheme::Http)
            .expect_err("invalid Host port must fail closed at the transport-derived boundary");

    assert_eq!(error.status(), 400);
}

#[test]
fn invalid_forwarding_field_value_fails_closed() {
    let mut request = HeaderList::new();
    let context = ForwardingContext::new(LOCALHOST_V4, "bad\nvalue".to_string(), 80, DownstreamScheme::Http);

    assert!(context.apply(&mut request).is_err());
}

#[test]
fn explicit_and_ipv6_host_ports_are_preserved() {
    assert_eq!(authority_port("app.example:8080", DownstreamScheme::Http).unwrap(), 8080);
    assert_eq!(authority_port("[2001:db8::1]:8443", DownstreamScheme::Https).unwrap(), 8443);
    assert_eq!(authority_port("[2001:db8::1]", DownstreamScheme::Https).unwrap(), 443);
    assert_eq!(authority_port("[v1.edge]:9443", DownstreamScheme::Https).unwrap(), 9443);
    assert_eq!(authority_port("exa%6Dple.example", DownstreamScheme::Http).unwrap(), 80);
}

#[test]
fn malformed_host_authority_fails_closed() {
    for authority in [
        "",
        "app.example:",
        "app.example:0",
        "2001:db8::1",
        "[::1",
        "[::1]junk",
        "app[example",
        "app]example",
        "user@app.example",
        "app.example/path",
        "app.example?query",
        "app%2.example",
        "%zz.example",
        "[not-an-ip]",
        "[v.example]",
    ] {
        let error = authority_port(authority, DownstreamScheme::Http)
            .expect_err("malformed authority must not produce forwarding metadata");
        assert_eq!(error.status(), 400, "{authority}");
    }
}

#[test]
fn missing_ip_client_fails_closed() {
    let downstream = request_with_host("app.example:8080");
    let error = ForwardingContext::from_downstream_transport(None, &downstream, &downstream, DownstreamScheme::Http)
        .expect_err("missing accepted IP client address must fail closed");
    assert_eq!(error.status(), 500);
    assert_eq!(error, ForwardingRejection::MissingClientAddress);
}

#[test]
fn unit_compilation_sanitizes_client_controlled_forwarding_namespace() {
    let mut request = HeaderList::new();
    request.insert("X-Forwarded-For", "203.0.113.10").expect("fixture forwarding header must be valid");
    request.insert("X-Forwarded-Prefix", "/spoofed").expect("fixture compatibility header must be valid");
    let context = ForwardingContext::new(LOCALHOST_V6, "[::1]:8443".to_string(), 8443, DownstreamScheme::Https);

    context.apply(&mut request).expect("trusted forwarding metadata must remain representable");

    assert_eq!(value(&request, "x-forwarded-for").as_deref(), Some("::1"));
    assert!(request.get("x-forwarded-prefix").is_none());
}

#[test]
fn forwarding_fields_are_emitted_in_order_after_client_identity_is_removed() {
    let mut request = HeaderList::new();
    request.insert("Forwarded", "for=evil").unwrap();
    request.insert("x-real-ip", "10.0.0.1").unwrap();
    request.insert("accept", "*/*").unwrap();
    let context = ForwardingContext::new(IpAddress::V4(192, 0, 2, 7), "edge.example:8443".to_string(), 8443, DownstreamScheme::Https);
    context.apply(&mut request).unwrap();
    let names: Vec<&str> = request.fields.iter().map(|f| f.name.as_str()).collect();
    assert_eq!(names, vec!["accept", "X-Forwarded-For", "X-Real-IP", "X-Forwarded-Host", "X-Forwarded-Port", "X-Forwarded-Proto"]);
    assert_eq!(value(&request, "x-forwarded-for").as_deref(), Some("192.0.2.7"));
    assert_eq!(value(&request, "x-forwarded-port").as_deref(), Some("8443"));
    assert_eq!(value(&request, "x-forwarded-proto").as_deref(), Some("https"));
    assert!(request.get("forwarded").is_none());
}

#[test]
fn scheme_tokens_and_default_ports() {
    assert_eq!(DownstreamScheme::Http.as_str(), "http");
    assert_eq!(DownstreamScheme::Https.as_str(), "https");
    assert_eq!(DownstreamScheme::Http.default_port(), 80);
    assert_eq!(DownstreamScheme::Https.default_port(), 443);
}
