use cwl_pingora_gateway::edge_contract::{UpstreamConfig, UpstreamTimeouts};
use cwl_pingora_gateway::http_model::{HeaderList, ProxyError};
use cwl_pingora_gateway::logging_policy::{is_pingora_dependency_target, safe_message, REDACTED_PINGORA_DIAGNOSTIC};
use cwl_pingora_gateway::migration_proxy::{
    body_rejection_to_pingora, proxy_error_status, unmatched_route_to_pingora, FailureSource, FailureType,
    MigrationGatewayProxy, MigrationGatewayProxyError, MigrationRequestContext,
};
use cwl_pingora_gateway::net::{IpAddress, SocketAddress};
use cwl_pingora_gateway::observability::{RequestObservation, RequestOutcome};
use cwl_pingora_gateway::pingora_delivery::{
    build_peer, reject_uncharacterized_http1_protocol_transition, require_certificates, PeerBuildError,
};
use cwl_pingora_gateway::protocol_transition_policy::requests_http1_protocol_transition;
use cwl_pingora_gateway::runtime_isolation::{BodyLimitExceeded, RuntimeIsolationLimits};

fn status_of(error: &ProxyError) -> u16 {
    match error {
        ProxyError::HttpStatus { status, .. } => *status,
        ProxyError::InvalidHttpHeader => 0,
    }
}

#[test]
fn pingora_family_targets_are_classified_without_absorbing_application_targets() {
    for target in [
        "pingora",
        "pingora_proxy",
        "pingora_proxy::proxy_h1",
        "pingora_core::protocols::http",
        "pingora_http",
        "pingora_prometheus",
    ] {
        assert!(is_pingora_dependency_target(target), "Pingora dependency target must be payload-redacted: {target}");
    }

    for target in ["cwl_pingora_gateway::observability", "pg_erd_cloud", "application::pingora_adapter", "not_pingora"] {
        assert!(!is_pingora_dependency_target(target), "non-Pingora target must retain its own logging contract: {target}");
    }
}

#[test]
fn framework_messages_are_replaced_by_the_redaction_marker() {
    assert_eq!(safe_message("pingora_proxy", "GET /secret?token=1"), REDACTED_PINGORA_DIAGNOSTIC);
    assert_eq!(safe_message("cwl_pingora_gateway", "gateway_request status=200"), "gateway_request status=200");
}

#[test]
fn migration_context_starts_without_an_admission_lease() {
    let limits = RuntimeIsolationLimits::try_new(8, 1).expect("fixture limits are valid");
    let ctx = MigrationRequestContext::new(limits);
    assert_eq!(ctx.request_body.observed(), 0);
    assert!(ctx.admission.is_none());
}

#[test]
fn delivery_errors_map_to_fail_closed_http_errors() {
    let body_error = body_rejection_to_pingora(BodyLimitExceeded { observed: 2, limit: 1 });
    assert_eq!(status_of(&body_error), 413);

    let route_error =
        unmatched_route_to_pingora(MigrationGatewayProxyError::UnmatchedRoute { request_path: "/missing".to_string() });
    assert_eq!(status_of(&route_error), 404);
}

#[test]
fn proxy_error_status_preserves_pingora_failure_mapping() {
    assert_eq!(proxy_error_status(FailureType::HttpStatus(503), FailureSource::Unset), 503);
    assert_eq!(proxy_error_status(FailureType::Other, FailureSource::Upstream), 502);
    assert_eq!(proxy_error_status(FailureType::Other, FailureSource::Downstream), 400);
    assert_eq!(proxy_error_status(FailureType::ConnectionClosed, FailureSource::Downstream), 0);
    assert_eq!(proxy_error_status(FailureType::Other, FailureSource::Internal), 500);
}

#[test]
fn failed_requests_answer_only_when_a_status_exists() {
    let plan = MigrationGatewayProxy::fail_to_proxy(FailureType::ReadError, FailureSource::Downstream);
    assert_eq!(plan.error_code, 0);
    assert!(!plan.send_response);
    let plan = MigrationGatewayProxy::fail_to_proxy(FailureType::WriteError, FailureSource::Upstream);
    assert_eq!(plan.error_code, 502);
    assert!(plan.send_response);
    assert!(!plan.can_reuse_downstream);
}

#[test]
fn request_observation_maps_error_state_without_payload_fields() {
    let observation = RequestObservation::from_parts(204, false, 12);
    assert_eq!(observation.status(), 204);
    assert_eq!(observation.outcome(), RequestOutcome::Success);
    assert_eq!(observation.request_body_bytes(), 12);
    assert_eq!(observation.outcome_label(), "ok");
    assert_eq!(RequestObservation::from_parts(503, true, 0).outcome(), RequestOutcome::Error);
    assert_eq!(RequestObservation::from_parts(503, true, 0).outcome_label(), "error");
}

fn cleartext_upstream_without_custom_roots() -> UpstreamConfig {
    UpstreamConfig {
        name: "origin".to_string(),
        address: SocketAddress { ip: IpAddress::V4(127, 0, 0, 1), port: 8080, flowinfo: 0, scope_id: 0 },
        tls: false,
        sni: None,
        trust_bundle_file: None,
        timeouts: UpstreamTimeouts { connection_ms: 100, total_connection_ms: 200, read_ms: 300, write_ms: 400, idle_ms: 500 },
    }
}

#[test]
fn peer_without_custom_trust_bundle_preserves_platform_roots() {
    let peer = build_peer(&cleartext_upstream_without_custom_roots(), None)
        .expect("valid cleartext upstream should build a peer");

    assert!(peer.trust_anchors.is_none());
    assert!(peer.verify_cert && peer.verify_hostname && peer.http1_only && peer.deny_upgrades);
    assert_eq!(peer.connection_timeout_ms, 100);
    assert_eq!(peer.total_connection_timeout_ms, 200);
    assert_eq!(peer.read_timeout_ms, 300);
    assert_eq!(peer.write_timeout_ms, 400);
    assert_eq!(peer.idle_timeout_ms, 500);
    assert_eq!(peer.sni, "");
}

#[test]
fn invalid_upstream_contract_is_refused_before_any_peer_exists() {
    let mut upstream = cleartext_upstream_without_custom_roots();
    upstream.timeouts.read_ms = 0;
    assert!(matches!(build_peer(&upstream, None), Err(PeerBuildError::InvalidConfiguration(_))));
}

#[test]
fn uncharacterized_protocol_transition_fails_closed_before_proxying() {
    let normal = HeaderList::new();
    assert!(reject_uncharacterized_http1_protocol_transition(&normal).is_ok());

    let mut upgrade = HeaderList::new();
    upgrade.insert("Upgrade", "websocket").expect("Upgrade header must be valid");
    let error = reject_uncharacterized_http1_protocol_transition(&upgrade)
        .expect_err("uncharacterized Upgrade must fail closed");
    assert_eq!(status_of(&error), 501);
}

#[test]
fn connection_tokens_name_upgrade_case_insensitively() {
    assert!(requests_http1_protocol_transition(false, &vec![b"keep-alive, UpGrade ".to_vec()]));
    assert!(requests_http1_protocol_transition(false, &vec![b"close".to_vec(), b"\tupgrade".to_vec()]));
    assert!(!requests_http1_protocol_transition(false, &vec![b"x-upgrade, keep-alive".to_vec()]));
    assert!(!requests_http1_protocol_transition(false, &vec![]));
    assert!(requests_http1_protocol_transition(true, &vec![]));
}

#[test]
fn parsed_trust_bundle_must_contain_a_certificate() {
    let path = "/tmp/empty-trust-bundle.pem";

    assert_eq!(
        require_certificates::<String>(path, Vec::new()).unwrap_err(),
        PeerBuildError::InvalidTrustBundle {
            path: path.to_string(),
            reason: "bundle contains no certificates".to_string(),
        }
    );
}

#[test]
fn parsed_trust_bundle_preserves_nonempty_certificate_stack() {
    let path = "/tmp/nonempty-trust-bundle.pem";
    let certificate = "parsed certificate".to_string();

    let certificates = require_certificates(path, vec![certificate])
        .expect("a nonempty parsed certificate stack must be accepted");

    assert_eq!(certificates.len(), 1);
}
