use cwl_pingora_gateway::http_intermediary_policy::{apply_max_forwards_before_forward, max_forwards_action, MaxForwardsAction};
use cwl_pingora_gateway::http_model::{HeaderList, ProxyError};
use cwl_pingora_gateway::process_health::{classify_process_health_request, local_health_response, ProcessHealthAction};

fn classify(method: &str, path: &str, headers: &HeaderList) -> ProcessHealthAction {
    classify_process_health_request(method, path, headers)
}

#[test]
fn only_health_paths_are_classified_as_process_health() {
    let none = HeaderList::new();
    assert_eq!(classify("GET", "/application-health", &none), ProcessHealthAction::NotHealth);
    assert_eq!(classify("GET", "/livez", &none), ProcessHealthAction::Probe);
    assert_eq!(classify("GET", "/readyz", &none), ProcessHealthAction::Probe);
}

#[test]
fn unsupported_health_methods_are_not_privileged_probes() {
    let none = HeaderList::new();
    assert_eq!(classify("HEAD", "/readyz", &none), ProcessHealthAction::RejectMethod);
    assert_eq!(classify("POST", "/livez", &none), ProcessHealthAction::RejectMethod);
}

#[test]
fn zero_content_length_remains_payload_free() {
    let mut probe = HeaderList::new();
    probe.insert("Content-Length", "0").expect("fixture content length should be valid");
    assert_eq!(classify("GET", "/readyz", &probe), ProcessHealthAction::Probe);
}

#[test]
fn body_framing_is_not_entitled_to_health_bypass() {
    let mut positive_length = HeaderList::new();
    positive_length.insert("Content-Length", "1").expect("fixture content length should be valid");
    assert_eq!(classify("GET", "/readyz", &positive_length), ProcessHealthAction::RejectPayload);

    let mut transfer_encoding = HeaderList::new();
    transfer_encoding.insert("Transfer-Encoding", "chunked").expect("fixture transfer encoding should be valid");
    assert_eq!(classify("GET", "/livez", &transfer_encoding), ProcessHealthAction::RejectPayload);
}

#[test]
fn malformed_or_duplicate_content_length_is_not_a_probe() {
    let mut malformed = HeaderList::new();
    malformed.insert("Content-Length", "not-a-number").expect("fixture header bytes should be valid");
    assert_eq!(classify("GET", "/readyz", &malformed), ProcessHealthAction::RejectPayload);

    let mut duplicate = HeaderList::new();
    duplicate.append("Content-Length".to_string(), b"0".to_vec());
    duplicate.append("Content-Length".to_string(), b"0".to_vec());
    assert_eq!(classify("GET", "/readyz", &duplicate), ProcessHealthAction::RejectPayload);
}

#[test]
fn local_health_answers_carry_their_status() {
    assert_eq!(local_health_response(ProcessHealthAction::Probe), Some((200, false)));
    assert_eq!(local_health_response(ProcessHealthAction::RejectMethod), Some((405, true)));
    assert_eq!(local_health_response(ProcessHealthAction::RejectPayload), Some((413, false)));
    assert_eq!(local_health_response(ProcessHealthAction::NotHealth), None);
}

fn with_max_forwards(values: &[&str]) -> HeaderList {
    let mut h = HeaderList::new();
    for v in values {
        h.append("Max-Forwards".to_string(), v.as_bytes().to_vec());
    }
    h
}

#[test]
fn max_forwards_applies_only_to_trace_and_options() {
    assert_eq!(max_forwards_action("GET", &with_max_forwards(&["0"])), Ok(MaxForwardsAction::Ignore));
    assert_eq!(max_forwards_action("TRACE", &HeaderList::new()), Ok(MaxForwardsAction::Ignore));
    assert_eq!(max_forwards_action("OPTIONS", &with_max_forwards(&["000"])), Ok(MaxForwardsAction::FinalRecipient));
    assert_eq!(max_forwards_action("TRACE", &with_max_forwards(&["5"])), Ok(MaxForwardsAction::Forward(4)));
    assert_eq!(max_forwards_action("TRACE", &with_max_forwards(&["99999999999999999999"])), Ok(MaxForwardsAction::Forward(255)));
}

#[test]
fn malformed_or_repeated_max_forwards_fails_closed() {
    for values in [&["1", "2"][..], &[""][..], &["1a"][..], &["+1"][..], &[" 1"][..]] {
        match max_forwards_action("TRACE", &with_max_forwards(values)) {
            Err(ProxyError::HttpStatus { status, .. }) => assert_eq!(status, 400, "{values:?}"),
            other => panic!("expected a 400 refusal for {values:?}, got {other:?}"),
        }
    }
}

#[test]
fn forwarded_hop_budget_is_rewritten_before_delivery() {
    let mut request = with_max_forwards(&["10"]);
    apply_max_forwards_before_forward("OPTIONS", &mut request).expect("eligible hop budget");
    assert_eq!(request.get("max-forwards"), Some(&b"9".to_vec()));
    assert_eq!(request.count("max-forwards"), 1);

    let mut exhausted = with_max_forwards(&["0"]);
    match apply_max_forwards_before_forward("TRACE", &mut exhausted) {
        Err(ProxyError::HttpStatus { status, .. }) => assert_eq!(status, 501),
        other => panic!("expected 501, got {other:?}"),
    }
}
