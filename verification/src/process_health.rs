//! Process-local liveness and readiness policy shared by the delivery adapters.
//!
//! These endpoints report only that the gateway process is alive and serving through its
//! listener; they never probe consumer dependencies. Only payload-free `GET` probes bypass
//! application admission; application-shaped traffic on a health path stays subject to capacity.

use vstd::prelude::*;

use crate::http_model::{count_named, values_of, visible_text, HeaderList};
use crate::text::{chars_eq, chars_of, parse_u64, parse_uint};

verus! {

/// Stable process-local liveness endpoint.
pub const LIVENESS_PATH: &'static str = "/livez";
/// Stable process-local readiness endpoint reached through the serving path.
pub const READINESS_PATH: &'static str = "/readyz";

/// Classification of one request against the process-health privilege boundary.
#[derive(Debug, Clone, Copy, PartialEq, Eq, Structural)]
pub enum ProcessHealthAction {
    /// The request is not addressed to a process-health path.
    NotHealth,
    /// A payload-free GET may bypass application admission and receive the local health response.
    Probe,
    /// A health path used with another method is not a process probe.
    RejectMethod,
    /// A GET health request declares framing that could carry a request body.
    RejectPayload,
}

/// How a request relates to the process-health boundary.
pub open spec fn health_action(method: Seq<char>, path: Seq<char>, headers: Seq<(Seq<char>, Seq<u8>)>) -> ProcessHealthAction {
    let lengths = values_of(headers, "content-length"@);
    if path != "/livez"@ && path != "/readyz"@ {
        ProcessHealthAction::NotHealth
    } else if method != "GET"@ {
        ProcessHealthAction::RejectMethod
    } else if count_named(headers, "transfer-encoding"@) > 0 {
        ProcessHealthAction::RejectPayload
    } else if lengths.len() == 0 {
        ProcessHealthAction::Probe
    } else if lengths.len() > 1 {
        ProcessHealthAction::RejectPayload
    } else {
        match visible_text(lengths[0]) {
            Some(t) => if parse_uint(t, u64::MAX as nat) == Some(0nat) {
                ProcessHealthAction::Probe
            } else {
                ProcessHealthAction::RejectPayload
            },
            None => ProcessHealthAction::RejectPayload,
        }
    }
}

/// On a health path, a method other than `GET` is refused as a method, whatever the headers say;
/// the admission bypass (`Probe`) is granted only to `GET` on a health path, and never to a
/// request that carries `Transfer-Encoding`; any other path is not a health request.
pub proof fn lemma_health_classification(method: Seq<char>, path: Seq<char>, headers: Seq<(Seq<char>, Seq<u8>)>)
    ensures
        (path == "/livez"@ || path == "/readyz"@) && method != "GET"@ ==> health_action(method, path, headers)
            == ProcessHealthAction::RejectMethod,
        health_action(method, path, headers) == ProcessHealthAction::Probe ==> method == "GET"@
            && (path == "/livez"@ || path == "/readyz"@) && count_named(headers, "transfer-encoding"@) == 0,
        path != "/livez"@ && path != "/readyz"@ ==> health_action(method, path, headers) == ProcessHealthAction::NotHealth,
{
}

/// Classifies whether a request is entitled to the process-health admission bypass: exactly
/// `/livez` or `/readyz`, method `GET`, no `Transfer-Encoding`, and no body framing other than
/// one valid `Content-Length: 0`.
pub fn classify_process_health_request(method: &str, path: &str, headers: &HeaderList) -> (r: ProcessHealthAction)
    ensures
        r == health_action(method@, path@, headers@),
{
    let p = chars_of(path);
    if !chars_eq(&p, &chars_of(LIVENESS_PATH)) && !chars_eq(&p, &chars_of(READINESS_PATH)) {
        return ProcessHealthAction::NotHealth;
    }
    if !chars_eq(&chars_of(method), &chars_of("GET")) {
        return ProcessHealthAction::RejectMethod;
    }
    if headers.count("transfer-encoding") > 0 {
        return ProcessHealthAction::RejectPayload;
    }
    let lengths = headers.values_named("content-length");
    assert(lengths@.map_values(|v: Vec<u8>| v@).len() == lengths@.len());
    if lengths.len() == 0 {
        return ProcessHealthAction::Probe;
    }
    if lengths.len() > 1 {
        return ProcessHealthAction::RejectPayload;
    }
    assert(lengths@.map_values(|v: Vec<u8>| v@)[0] == lengths@[0]@);
    match crate::http_model::value_text(&lengths[0]) {
        Some(t) => {
            let chars = chars_of(t.as_str());
            match parse_u64(&chars) {
                Some(0) => ProcessHealthAction::Probe,
                _ => ProcessHealthAction::RejectPayload,
            }
        },
        None => ProcessHealthAction::RejectPayload,
    }
}

/// Status and `Allow` advertisement of the empty local answer for a health-path request that is
/// answered locally: 200 for a probe, 405 (advertising `GET`) for another method, 413 for body
/// framing. Requests off the health paths get no local answer.
pub fn local_health_response(action: ProcessHealthAction) -> (r: Option<(u16, bool)>)
    ensures
        r == match action {
            ProcessHealthAction::NotHealth => None::<(u16, bool)>,
            ProcessHealthAction::Probe => Some((200u16, false)),
            ProcessHealthAction::RejectMethod => Some((405u16, true)),
            ProcessHealthAction::RejectPayload => Some((413u16, false)),
        },
{
    match action {
        ProcessHealthAction::NotHealth => None,
        ProcessHealthAction::Probe => Some((200, false)),
        ProcessHealthAction::RejectMethod => Some((405, true)),
        ProcessHealthAction::RejectPayload => Some((413, false)),
    }
}

} // verus!
