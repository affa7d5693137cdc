//! Decisions of the version-1 proxy application: one explicitly configured upstream per process.
//!
//! Health endpoints are answered locally and bypass the in-flight budget; every other request
//! takes an admission slot (or is refused with 503), is held to the declared and streamed body
//! limit (413), and reaches the upstream without client-supplied forwarding identity.

use vstd::prelude::*;
use vstd::utf8::encode_utf8;

use crate::edge_contract::{config_error, GatewayConfig, GatewayConfigError, GatewayConfigErrorView};
use crate::http_model::{first_value, visible_text, value_text, without_name, FieldView, HeaderList, ProxyError, ProxyErrorView};
use crate::forwarding_policy::{lemma_without_forwarding_has_no, remove_forwarding, without_forwarding};
use crate::pingora_delivery::{build_peer_from_validated, settings_for, PeerBuildError, PeerBuildErrorView, PeerSettings};
use crate::runtime_isolation::{without_admission, RequestAdmission, RequestAdmissionBudget, RuntimeIsolationLimits};
use crate::text::{eq_ignore_case, chars_eq, chars_of, parse_u64, parse_uint};

verus! {

/// Stable process-local liveness endpoint.
pub const LIVENESS_PATH: &'static str = "/livez";
/// Stable readiness endpoint reached through the production serving path.
pub const READINESS_PATH: &'static str = "/readyz";

/// Per-request delivery state. Product domain state does not belong here.
#[derive(Debug, Default)]
pub struct RequestContext {
    /// Saturating count of downstream request-body bytes observed by streaming filters.
    pub request_body_bytes: u64,
    /// Admission held until the complete non-health request lifecycle ends.
    pub admission: Option<RequestAdmission>,
}

/// Activation failures that occur after the transport-neutral configuration is parsed.
#[derive(Debug, Clone, PartialEq, Eq)]
pub enum GatewayProxyError {
    /// The edge configuration itself violates a fail-closed invariant.
    InvalidConfiguration(GatewayConfigError),
    /// A validated upstream could not be turned safely into transport authority.
    UpstreamActivation(PeerBuildError),
}

/// [`GatewayProxyError`] with its text as character sequences.
pub enum GatewayProxyErrorView {
    InvalidConfiguration(GatewayConfigErrorView),
    UpstreamActivation(PeerBuildErrorView),
}

impl View for GatewayProxyError {
    type V = GatewayProxyErrorView;

    open spec fn view(&self) -> GatewayProxyErrorView {
        match self {
            GatewayProxyError::InvalidConfiguration(e) => GatewayProxyErrorView::InvalidConfiguration(e@),
            GatewayProxyError::UpstreamActivation(e) => GatewayProxyErrorView::UpstreamActivation(e@),
        }
    }
}

/// The `Content-Length` a request declares, when one is present and readable as a `u64`.
pub open spec fn declared_length(s: Seq<FieldView>) -> Option<nat> {
    match first_value(s, "content-length"@) {
        None => None,
        Some(v) => match visible_text(v) {
            None => None,
            Some(t) => parse_uint(t, u64::MAX as nat),
        },
    }
}

/// The readable `Content-Length` a request declares.
pub fn declared_content_length(headers: &HeaderList) -> (r: Option<u64>)
    ensures
        match declared_length(headers@) {
            Some(n) => r == Some(n as u64),
            None => r is None,
        },
{
    match headers.get("content-length") {
        None => None,
        Some(v) => match value_text(v) {
            None => None,
            Some(t) => {
                let chars = chars_of(t.as_str());
                parse_u64(&chars)
            },
        },
    }
}

/// Whether a path is one of the process health endpoints.
pub open spec fn is_health_path(p: Seq<char>) -> bool {
    p == "/livez"@ || p == "/readyz"@
}

/// Proxy application backed by one explicitly configured upstream.
#[derive(Debug)]
pub struct GatewayProxy {
    upstream_peer: PeerSettings,
    max_request_body_bytes: u64,
    admission_budget: RequestAdmissionBudget,
}

impl GatewayProxy {
    pub closed spec fn spec_peer(&self) -> PeerSettings {
        self.upstream_peer
    }

    pub closed spec fn spec_max_request_body_bytes(&self) -> u64 {
        self.max_request_body_bytes
    }

    pub closed spec fn spec_budget(&self) -> RequestAdmissionBudget {
        self.admission_budget
    }

    /// The admission budget never holds more requests than its limit.
    pub open spec fn well_formed(&self) -> bool {
        self.spec_budget().well_formed()
    }

    /// Builds the version-1 adapter from a validated edge configuration. `trust_bundle` is the
    /// outcome of loading the single upstream's configured trust bundle (the number of
    /// certificates), present exactly when one is configured.
    pub fn try_from_config(config: &GatewayConfig, trust_bundle: Option<Result<usize, PeerBuildError>>) -> (r: Result<Self, GatewayProxyError>)
        requires
            config.upstreams@.len() > 0 ==> (config.upstreams@[0].trust_bundle_file is Some <==> trust_bundle is Some),
        ensures
            match config_error(*config) {
                Some(ev) => r matches Err(e) && e@ == GatewayProxyErrorView::InvalidConfiguration(ev),
                None => match trust_bundle {
                    Some(Err(e)) => r == Err::<Self, GatewayProxyError>(GatewayProxyError::UpstreamActivation(e)),
                    _ => r matches Ok(p) && p.well_formed()
                        && settings_for(config.upstreams@[0], crate::migration_delivery::anchors_of(trust_bundle), p.spec_peer())
                        && p.spec_max_request_body_bytes() == config.max_request_body_bytes
                        && p.spec_budget().spec_in_flight() == 0
                        && p.spec_budget().spec_outstanding() == Set::<int>::empty()
                        && p.spec_budget().spec_limit() == config.max_in_flight_requests,
                },
            },
    {
        match config.validate() {
            Err(e) => return Err(GatewayProxyError::InvalidConfiguration(e)),
            Ok(()) => {},
        }
        let upstream_peer = match build_peer_from_validated(&config.upstreams[0], trust_bundle) {
            Ok(p) => p,
            Err(e) => return Err(GatewayProxyError::UpstreamActivation(e)),
        };
        let limits = RuntimeIsolationLimits::from_validated(config.max_request_body_bytes, config.max_in_flight_requests);
        Ok(GatewayProxy {
            upstream_peer,
            max_request_body_bytes: config.max_request_body_bytes,
            admission_budget: RequestAdmissionBudget::new(limits),
        })
    }

    /// Returns the prevalidated peer settings for one upstream connection attempt.
    pub fn build_upstream_peer(&self) -> (r: PeerSettings)
        ensures
            r == self.spec_peer(),
    {
        crate::migration_delivery::copy_settings(&self.upstream_peer)
    }

    /// Whether a request path is answered locally as a health probe.
    pub fn is_health_path(path: &str) -> (r: bool)
        ensures
            r == is_health_path(path@),
    {
        let p = chars_of(path);
        chars_eq(&p, &chars_of(LIVENESS_PATH)) || chars_eq(&p, &chars_of(READINESS_PATH))
    }

    /// Takes one admission slot, or refuses with 503 when the in-flight budget is exhausted.
    pub fn acquire_or_reject(&mut self) -> (r: Result<RequestAdmission, ProxyError>)
        requires
            old(self).well_formed(),
        ensures
            final(self).well_formed(),
            final(self).spec_peer() == old(self).spec_peer(),
            final(self).spec_max_request_body_bytes() == old(self).spec_max_request_body_bytes(),
            final(self).spec_budget().spec_limit() == old(self).spec_budget().spec_limit(),
            old(self).spec_budget().spec_in_flight() < old(self).spec_budget().spec_limit() ==> (r matches Ok(a)
                && !old(self).spec_budget().spec_outstanding().contains(a.spec_slot())
                && final(self).spec_budget().spec_outstanding() == old(self).spec_budget().spec_outstanding().insert(a.spec_slot())
                && final(self).spec_budget().spec_in_flight() == old(self).spec_budget().spec_in_flight() + 1),
            old(self).spec_budget().spec_in_flight() >= old(self).spec_budget().spec_limit() ==> (r matches Err(e)
                && e@ == ProxyErrorView::HttpStatus(503, "gateway max_in_flight_requests budget exhausted"@)
                && final(self).spec_budget() == old(self).spec_budget()),
    {
        match self.admission_budget.acquire() {
            Some(a) => Ok(a),
            None => Err(ProxyError::HttpStatus { status: 503, reason: "gateway max_in_flight_requests budget exhausted".to_owned() }),
        }
    }

    /// Hands an admission back when its request lifecycle ends; its slot is freed when this
    /// proxy's budget holds it, and nothing changes otherwise.
    pub fn release(&mut self, admission: RequestAdmission)
        requires
            old(self).well_formed(),
        ensures
            final(self).well_formed(),
            final(self).spec_peer() == old(self).spec_peer(),
            final(self).spec_max_request_body_bytes() == old(self).spec_max_request_body_bytes(),
            final(self).spec_budget().spec_limit() == old(self).spec_budget().spec_limit(),
            old(self).spec_budget().holds(admission) ==> final(self).spec_budget().spec_outstanding()
                == old(self).spec_budget().spec_outstanding().remove(admission.spec_slot())
                && final(self).spec_budget().spec_in_flight() == old(self).spec_budget().spec_in_flight() - 1,
            !old(self).spec_budget().holds(admission) ==> final(self).spec_budget() == old(self).spec_budget(),
    {
        self.admission_budget.release(admission);
    }

    /// Health probes are answered locally (`Ok(true)`) without touching the in-flight budget;
    /// every other request takes an admission slot (503 when exhausted), kept in the context
    /// until the request ends (an admission the context held before is handed back), and is held
    /// to the declared body limit (413).
    pub fn request_filter(&mut self, path: &str, headers: &HeaderList, ctx: &mut RequestContext) -> (r: Result<bool, ProxyError>)
        requires
            old(self).well_formed(),
        ensures
            final(self).well_formed(),
            final(self).spec_peer() == old(self).spec_peer(),
            final(self).spec_max_request_body_bytes() == old(self).spec_max_request_body_bytes(),
            final(self).spec_budget().spec_limit() == old(self).spec_budget().spec_limit(),
            final(ctx).request_body_bytes == old(ctx).request_body_bytes,
            is_health_path(path@) ==> r == Ok::<bool, ProxyError>(true)
                && final(self).spec_budget() == old(self).spec_budget()
                && final(ctx).admission == old(ctx).admission,
            !is_health_path(path@) && old(self).spec_budget().spec_in_flight() >= old(self).spec_budget().spec_limit() ==> (r matches Err(e)
                && e@ == ProxyErrorView::HttpStatus(503, "gateway max_in_flight_requests budget exhausted"@)
                && final(self).spec_budget() == old(self).spec_budget()
                && final(ctx).admission == old(ctx).admission),
            !is_health_path(path@) && old(self).spec_budget().spec_in_flight() < old(self).spec_budget().spec_limit() ==> {
                &&& final(ctx).admission matches Some(a)
                    && !old(self).spec_budget().spec_outstanding().contains(a.spec_slot())
                    && final(self).spec_budget().spec_outstanding() == without_admission(
                        old(self).spec_budget().spec_outstanding().insert(a.spec_slot()),
                        old(ctx).admission,
                    )
                &&& old(ctx).admission is None ==> final(self).spec_budget().spec_in_flight() == old(self).spec_budget().spec_in_flight() + 1
                &&& (declared_length(headers@) matches Some(n) && n > old(self).spec_max_request_body_bytes()) ==> (r matches Err(e)
                    && e@ == ProxyErrorView::HttpStatus(413, "request body exceeds configured max_request_body_bytes"@))
                &&& !(declared_length(headers@) matches Some(n) && n > old(self).spec_max_request_body_bytes()) ==> r == Ok::<bool, ProxyError>(false)
            },
    {
        if Self::is_health_path(path) {
            return Ok(true);
        }
        let admission = self.acquire_or_reject()?;
        let previous = ctx.admission.take();
        ctx.admission = Some(admission);
        if let Some(previous) = previous {
            self.release(previous);
        }
        self.reject_oversize_declared_body(headers)?;
        Ok(false)
    }

    /// Ends a request: its admission, if it holds one, goes back to the budget that granted it.
    pub fn finish_request(&mut self, ctx: RequestContext)
        requires
            old(self).well_formed(),
        ensures
            final(self).well_formed(),
            final(self).spec_peer() == old(self).spec_peer(),
            final(self).spec_max_request_body_bytes() == old(self).spec_max_request_body_bytes(),
            final(self).spec_budget().spec_limit() == old(self).spec_budget().spec_limit(),
            match ctx.admission {
                None => final(self).spec_budget() == old(self).spec_budget(),
                Some(a) => if old(self).spec_budget().holds(a) {
                    final(self).spec_budget().spec_outstanding() == old(self).spec_budget().spec_outstanding().remove(a.spec_slot())
                        && final(self).spec_budget().spec_in_flight() == old(self).spec_budget().spec_in_flight() - 1
                } else {
                    final(self).spec_budget() == old(self).spec_budget()
                },
            },
    {
        if let Some(admission) = ctx.admission {
            self.release(admission);
        }
    }

    /// Refuses with 413 a request whose readable `Content-Length` exceeds the body limit.
    pub fn reject_oversize_declared_body(&self, headers: &HeaderList) -> (r: Result<(), ProxyError>)
        ensures
            (declared_length(headers@) matches Some(n) && n > self.spec_max_request_body_bytes()) ==> (r matches Err(e)
                && e@ == ProxyErrorView::HttpStatus(413, "request body exceeds configured max_request_body_bytes"@)),
            !(declared_length(headers@) matches Some(n) && n > self.spec_max_request_body_bytes()) ==> r is Ok,
    {
        match declared_content_length(headers) {
            Some(length) => if length > self.max_request_body_bytes {
                Err(ProxyError::HttpStatus { status: 413, reason: "request body exceeds configured max_request_body_bytes".to_owned() })
            } else {
                Ok(())
            },
            None => Ok(()),
        }
    }

    /// Counts a streamed chunk (saturating; an absent chunk counts zero) and refuses with 413 once
    /// the total exceeds the body limit.
    pub fn request_body_filter(&self, chunk_len: Option<u64>, ctx: &mut RequestContext) -> (r: Result<(), ProxyError>)
        ensures
            final(ctx).request_body_bytes == old(ctx).request_body_bytes.saturating_add(match chunk_len {
                Some(n) => n,
                None => 0,
            }),
            final(ctx).admission == old(ctx).admission,
            final(ctx).request_body_bytes > self.spec_max_request_body_bytes() ==> (r matches Err(e)
                && e@ == ProxyErrorView::HttpStatus(413, "streamed request body exceeds configured max_request_body_bytes"@)),
            final(ctx).request_body_bytes <= self.spec_max_request_body_bytes() ==> r is Ok,
    {
        let chunk = match chunk_len {
            Some(n) => n,
            None => 0,
        };
        ctx.request_body_bytes = ctx.request_body_bytes.saturating_add(chunk);
        if ctx.request_body_bytes > self.max_request_body_bytes {
            return Err(ProxyError::HttpStatus { status: 413, reason: "streamed request body exceeds configured max_request_body_bytes".to_owned() });
        }
        Ok(())
    }

    /// Removes client-controlled forwarding identity (`Forwarded`, `X-Real-IP` and the whole
    /// `X-Forwarded-*` namespace, in any ASCII case) and adds the gateway-owned protocol fact
    /// `Forwarded: proto=http`.
    pub fn upstream_request_filter(&self, upstream_request: &mut HeaderList)
        ensures
            final(upstream_request)@ == without_forwarding(old(upstream_request)@).push(
                ("Forwarded"@, encode_utf8("proto=http"@)),
            ),
    {
        remove_forwarding(upstream_request);
        proof {
            reveal_strlit("proto=http");
            reveal_strlit("Forwarded");
            reveal_strlit("forwarded");
            crate::forwarding_policy::lemma_printable_value_text("proto=http"@);
            assert(eq_ignore_case("Forwarded"@, "forwarded"@));
            lemma_without_forwarding_has_no(old(upstream_request)@, "Forwarded"@);
        }
        let inserted = upstream_request.insert("Forwarded", "proto=http");
    }
}

} // verus!
