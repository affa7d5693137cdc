//! Decisions of the proxy application for one characterized multi-route edge migration.
//!
//! Routing, HTTP policy, transport binding, runtime isolation and trusted forwarding metadata are
//! composed here; no product authorization, service discovery or business logic is added.

use vstd::prelude::*;
use vstd::utf8::encode_utf8;

use crate::forwarding_policy::{authority_port_of, original_authority, without_forwarding, DownstreamScheme, ForwardingContext, ForwardingRejection};
use crate::gateway_proxy::{declared_content_length, declared_length};
use crate::http_model::{is_value_text, without_name, FieldView, HeaderList, InvalidHeaderValue, ProxyError, ProxyErrorView};
use crate::http_policy::ResponseHeaderRule;
use crate::migration_delivery::MigrationDeliveryPlan;
use crate::migration_plan::plan_selects;
use crate::net::IpAddress;
use crate::pingora_delivery::PeerSettings;
use crate::runtime_isolation::{without_admission, BodyLimitExceeded, RequestAdmission, RequestAdmissionBudget, RequestBodyBudget, RuntimeIsolationLimits};

verus! {

/// Fail-closed callback errors for a characterized migration runtime.
#[derive(Debug, Clone, PartialEq, Eq)]
pub enum MigrationGatewayProxyError {
    /// The request path did not match any route in the characterized edge contract.
    UnmatchedRoute {
        /// Exact request path that could not resolve to an admitted upstream identity.
        request_path: String,
    },
}

/// Per-request state for the characterized multi-route adapter.
#[derive(Debug)]
pub struct MigrationRequestContext {
    /// Body budget of this request.
    pub request_body: RequestBodyBudget,
    /// Admission held until the request ends.
    pub admission: Option<RequestAdmission>,
}

impl MigrationRequestContext {
    /// A context with nothing observed and no admission yet.
    pub fn new(limits: RuntimeIsolationLimits) -> (r: Self)
        ensures
            r.request_body.spec_observed() == 0,
            r.request_body.spec_limit() == limits.spec_max_request_body_bytes(),
            r.admission is None,
    {
        MigrationRequestContext { request_body: RequestBodyBudget::new(limits), admission: None }
    }
}

/// How a transport failure is classified.
#[derive(Debug, Clone, Copy, PartialEq, Eq, Structural)]
pub enum FailureType {
    /// An explicit HTTP status.
    HttpStatus(u16),
    /// Writing to a peer failed.
    WriteError,
    /// Reading from a peer failed.
    ReadError,
    /// The peer closed the connection.
    ConnectionClosed,
    /// Any other failure.
    Other,
}

/// Which side a transport failure came from.
#[derive(Debug, Clone, Copy, PartialEq, Eq, Structural)]
pub enum FailureSource {
    /// The upstream connection.
    Upstream,
    /// The downstream connection.
    Downstream,
    /// The gateway itself.
    Internal,
    /// Not recorded.
    Unset,
}

/// The downstream status answered for a failed request; zero when no answer can be sent.
pub open spec fn failure_status(etype: FailureType, esource: FailureSource) -> u16 {
    match etype {
        FailureType::HttpStatus(code) => code,
        _ => match esource {
            FailureSource::Upstream => 502,
            FailureSource::Downstream => match etype {
                FailureType::WriteError | FailureType::ReadError | FailureType::ConnectionClosed => 0,
                _ => 400,
            },
            FailureSource::Internal | FailureSource::Unset => 500,
        },
    }
}

/// The downstream status answered for a failed request: an explicit status is kept; otherwise
/// 502 for upstream failures, 400 for malformed downstream requests, nothing (0) when the
/// downstream connection itself broke, and 500 for the rest.
pub fn proxy_error_status(etype: FailureType, esource: FailureSource) -> (r: u16)
    ensures
        r == failure_status(etype, esource),
{
    if let FailureType::HttpStatus(code) = etype {
        return code;
    }
    match esource {
        FailureSource::Upstream => 502,
        FailureSource::Downstream => match etype {
            FailureType::WriteError | FailureType::ReadError | FailureType::ConnectionClosed => 0,
            _ => 400,
        },
        FailureSource::Internal | FailureSource::Unset => 500,
    }
}

/// What to do after a request failed before it could be proxied.
#[derive(Debug, Clone, Copy, PartialEq, Eq, Structural)]
pub struct FailToProxyPlan {
    /// Status recorded for the failure; zero when no response is sent.
    pub error_code: u16,
    /// Whether an error response (with the response-header policy applied) is sent.
    pub send_response: bool,
    /// Callback failures never opt into downstream connection reuse.
    pub can_reuse_downstream: bool,
}

/// Maps an exceeded body budget to a 413 answer.
pub fn body_rejection_to_pingora(rejection: BodyLimitExceeded) -> (r: ProxyError)
    ensures
        r@ == ProxyErrorView::HttpStatus(413, "request body exceeds configured max_request_body_bytes"@),
{
    ProxyError::HttpStatus { status: 413, reason: "request body exceeds configured max_request_body_bytes".to_owned() }
}

/// Maps an unmatched route to a 404 answer.
pub fn unmatched_route_to_pingora(error: MigrationGatewayProxyError) -> (r: ProxyError)
    ensures
        r@ == ProxyErrorView::HttpStatus(404, "request path does not match a characterized edge route"@),
{
    ProxyError::HttpStatus { status: 404, reason: "request path does not match a characterized edge route".to_owned() }
}

/// Forwarding identity for the characterized clear-text entry point.
pub fn pg_erd_forwarding_context(client_ip: Option<IpAddress>, upstream_request: &HeaderList, downstream_request: &HeaderList) -> (r: Result<ForwardingContext, ForwardingRejection>)
    ensures
        client_ip is None ==> r == Err::<ForwardingContext, ForwardingRejection>(ForwardingRejection::MissingClientAddress),
        client_ip matches Some(ip) ==> match original_authority(upstream_request@, downstream_request@) {
            Some(h) => match authority_port_of(h, DownstreamScheme::Http) {
                Some(p) => r matches Ok(c) && c.spec_client_ip() == ip && c.spec_original_host() == h
                    && c.spec_downstream_port() == p && c.spec_scheme() == DownstreamScheme::Http,
                None => r == Err::<ForwardingContext, ForwardingRejection>(ForwardingRejection::InvalidHostAuthority),
            },
            None => r == Err::<ForwardingContext, ForwardingRejection>(ForwardingRejection::InvalidHostAuthority),
        },
{
    ForwardingContext::from_downstream_transport(client_ip, upstream_request, downstream_request, DownstreamScheme::Http)
}

/// The response fields after inserting each rule in order, stopping at the first rule whose
/// value cannot be a field value: whether every rule was inserted, and the fields.
pub open spec fn insert_rules(s: Seq<FieldView>, rules: Seq<ResponseHeaderRule>) -> (bool, Seq<FieldView>)
    decreases rules.len(),
{
    if rules.len() == 0 {
        (true, s)
    } else {
        let (ok, t) = insert_rules(s, rules.drop_last());
        if !ok {
            (false, t)
        } else if is_value_text(rules.last().value@) {
            (true, without_name(t, rules.last().name@).push((rules.last().name@, encode_utf8(rules.last().value@))))
        } else {
            (false, t)
        }
    }
}

/// Proxy application backed only by a prevalidated migration delivery plan.
#[derive(Debug)]
pub struct MigrationGatewayProxy {
    delivery: MigrationDeliveryPlan,
    limits: RuntimeIsolationLimits,
    admission_budget: RequestAdmissionBudget,
}

impl MigrationGatewayProxy {
    pub closed spec fn spec_delivery(&self) -> MigrationDeliveryPlan {
        self.delivery
    }

    pub closed spec fn spec_limits(&self) -> RuntimeIsolationLimits {
        self.limits
    }

    pub closed spec fn spec_budget(&self) -> RequestAdmissionBudget {
        self.admission_budget
    }

    pub open spec fn well_formed(&self) -> bool {
        &&& self.spec_delivery().well_formed()
        &&& self.spec_budget().well_formed()
        &&& self.spec_budget().spec_limit() == self.spec_limits().spec_max_in_flight_requests()
    }

    /// Activates callbacks over an already validated delivery plan and runtime-isolation limits.
    pub fn try_new(delivery: MigrationDeliveryPlan, limits: RuntimeIsolationLimits) -> (r: Result<Self, MigrationGatewayProxyError>)
        requires
            delivery.well_formed(),
        ensures
            r matches Ok(p) && p.well_formed() && p.spec_delivery() == delivery && p.spec_limits() == limits
                && p.spec_budget().spec_in_flight() == 0 && p.spec_budget().spec_outstanding() == Set::<int>::empty(),
    {
        Ok(MigrationGatewayProxy { delivery, limits, admission_budget: RequestAdmissionBudget::new(limits) })
    }

    /// A fresh request context.
    pub fn new_ctx(&self) -> (r: MigrationRequestContext)
        ensures
            r.request_body.spec_observed() == 0,
            r.request_body.spec_limit() == self.spec_limits().spec_max_request_body_bytes(),
            r.admission is None,
    {
        MigrationRequestContext::new(self.limits)
    }

    /// The peer settings admitted for one characterized request path, or an unmatched route.
    pub fn build_upstream_peer(&self, request_path: &str) -> (r: Result<PeerSettings, MigrationGatewayProxyError>)
        requires
            self.well_formed(),
        ensures
            plan_selects(self.spec_delivery().spec_plan(), request_path@, None) ==> (r matches Err(
                MigrationGatewayProxyError::UnmatchedRoute { request_path: p },
            ) && p@ == request_path@),
            forall|u: Seq<char>| #[trigger] plan_selects(self.spec_delivery().spec_plan(), request_path@, Some(u)) ==> (r matches Ok(s)
                && exists|i: int| 0 <= i < self.spec_delivery().spec_peers().len()
                    && (#[trigger] self.spec_delivery().spec_peers()[i]).name@ == u && s == self.spec_delivery().spec_peers()[i].settings),
    {
        match self.delivery.build_upstream_peer(request_path) {
            Some(p) => Ok(p),
            None => Err(MigrationGatewayProxyError::UnmatchedRoute { request_path: request_path.to_owned() }),
        }
    }

    /// The peer settings for a request path, an unmatched path being answered with 404.
    pub fn upstream_peer(&self, request_path: &str) -> (r: Result<PeerSettings, ProxyError>)
        requires
            self.well_formed(),
        ensures
            plan_selects(self.spec_delivery().spec_plan(), request_path@, None) ==> (r matches Err(e)
                && e@ == ProxyErrorView::HttpStatus(404, "request path does not match a characterized edge route"@)),
            forall|u: Seq<char>| #[trigger] plan_selects(self.spec_delivery().spec_plan(), request_path@, Some(u)) ==> (r matches Ok(s)
                && exists|i: int| 0 <= i < self.spec_delivery().spec_peers().len()
                    && (#[trigger] self.spec_delivery().spec_peers()[i]).name@ == u && s == self.spec_delivery().spec_peers()[i].settings),
    {
        match self.build_upstream_peer(request_path) {
            Ok(p) => Ok(p),
            Err(e) => Err(unmatched_route_to_pingora(e)),
        }
    }

    /// Derives forwarding identity for the characterized clear-text entry point from the accepted
    /// client address and the request authority, then applies it to the upstream request.
    pub fn upstream_request_filter(
        &self,
        client_ip: Option<IpAddress>,
        upstream_request: &mut HeaderList,
        downstream_request: &HeaderList,
    ) -> (r: Result<(), ForwardingRejection>)
        ensures
            client_ip is None ==> r == Err::<(), ForwardingRejection>(ForwardingRejection::MissingClientAddress)
                && final(upstream_request)@ == old(upstream_request)@,
            client_ip matches Some(ip) ==> match original_authority(old(upstream_request)@, downstream_request@) {
                Some(h) => match authority_port_of(h, DownstreamScheme::Http) {
                    Some(p) => {
                        let c = crate::forwarding_policy::forwarding_fields(ip, h, p, DownstreamScheme::Http);
                        &&& is_value_text(h) ==> r is Ok && final(upstream_request)@ == without_forwarding(old(upstream_request)@) + c
                        &&& !is_value_text(h) ==> r == Err::<(), ForwardingRejection>(ForwardingRejection::InvalidHeaderValue)
                            && final(upstream_request)@ == without_forwarding(old(upstream_request)@) + c.subrange(0, 2)
                    },
                    None => r == Err::<(), ForwardingRejection>(ForwardingRejection::InvalidHostAuthority)
                        && final(upstream_request)@ == old(upstream_request)@,
                },
                None => r == Err::<(), ForwardingRejection>(ForwardingRejection::InvalidHostAuthority)
                    && final(upstream_request)@ == old(upstream_request)@,
            },
    {
        let forwarding = pg_erd_forwarding_context(client_ip, upstream_request, downstream_request)?;
        self.apply_upstream_request_policy(upstream_request, &forwarding)
    }

    /// Replaces request-controlled forwarding identity with transport-derived metadata.
    pub fn apply_upstream_request_policy(&self, upstream_request: &mut HeaderList, forwarding: &ForwardingContext) -> (r: Result<(), ForwardingRejection>)
        ensures
            is_value_text(forwarding.spec_original_host()) ==> r is Ok && final(upstream_request)@
                == without_forwarding(old(upstream_request)@) + forwarding.emitted_fields(),
            !is_value_text(forwarding.spec_original_host()) ==> r == Err::<(), ForwardingRejection>(ForwardingRejection::InvalidHeaderValue)
                && final(upstream_request)@ == without_forwarding(old(upstream_request)@) + forwarding.emitted_fields().subrange(0, 2),
    {
        forwarding.apply(upstream_request)
    }

    /// Applies every characterized edge-owned response header, replacing earlier values.
    pub fn apply_response_headers(&self, response: &mut HeaderList) -> (r: Result<(), InvalidHeaderValue>)
        ensures
            insert_rules(old(response)@, self.spec_delivery().spec_plan().spec_headers().spec_rules()).0 ==> r is Ok,
            !insert_rules(old(response)@, self.spec_delivery().spec_plan().spec_headers().spec_rules()).0 ==> r is Err,
            final(response)@ == insert_rules(old(response)@, self.spec_delivery().spec_plan().spec_headers().spec_rules()).1,
    {
        let rules = self.delivery.plan().response_header_rules();
        let ghost rs = rules@;
        let mut i: usize = 0;
        while i < rules.len()
            invariant
                rs == rules@,
                rs == self.spec_delivery().spec_plan().spec_headers().spec_rules(),
                i <= rs.len(),
                insert_rules(old(response)@, rs.subrange(0, i as int)) == (true, response@),
            decreases rs.len() - i,
        {
            assert(rs.subrange(0, i + 1).drop_last() =~= rs.subrange(0, i as int));
            let rule = &rules[i];
            match response.insert(rule.name.as_str(), rule.value.as_str()) {
                Ok(()) => {},
                Err(e) => {
                    proof {
                        lemma_insert_rules_stop(old(response)@, rs, i + 1);
                    }
                    return Err(e);
                },
            }
            i = i + 1;
        }
        assert(rs.subrange(0, rs.len() as int) =~= rs);
        Ok(())
    }

    /// Takes one admission slot, or refuses with 503 when the in-flight budget is exhausted; an
    /// admission the context held before is handed back.
    pub fn admit_request(&mut self, ctx: &mut MigrationRequestContext) -> (r: Result<(), ProxyError>)
        requires
            old(self).well_formed(),
        ensures
            final(self).well_formed(),
            final(self).spec_delivery() == old(self).spec_delivery(),
            final(self).spec_limits() == old(self).spec_limits(),
            final(ctx).request_body == old(ctx).request_body,
            old(self).spec_budget().spec_in_flight() < old(self).spec_budget().spec_limit() ==> r is Ok && (final(ctx).admission matches Some(a)
                && !old(self).spec_budget().spec_outstanding().contains(a.spec_slot())
                && final(self).spec_budget().spec_outstanding() == without_admission(
                    old(self).spec_budget().spec_outstanding().insert(a.spec_slot()),
                    old(ctx).admission,
                ))
                && (old(ctx).admission is None ==> final(self).spec_budget().spec_in_flight() == old(self).spec_budget().spec_in_flight() + 1),
            old(self).spec_budget().spec_in_flight() >= old(self).spec_budget().spec_limit() ==> (r matches Err(e)
                && e@ == ProxyErrorView::HttpStatus(503, "migration gateway max_in_flight_requests budget exhausted"@)
                && final(self).spec_budget() == old(self).spec_budget()
                && final(ctx).admission == old(ctx).admission),
    {
        match self.admission_budget.acquire() {
            Some(admission) => {
                let previous = ctx.admission.take();
                ctx.admission = Some(admission);
                if let Some(previous) = previous {
                    self.admission_budget.release(previous);
                }
                Ok(())
            },
            None => Err(ProxyError::HttpStatus {
                status: 503,
                reason: "migration gateway max_in_flight_requests budget exhausted".to_owned(),
            }),
        }
    }

    /// Takes an admission slot (503 when exhausted), kept in the context until the request ends,
    /// then holds the request to its declared body budget (413); `Ok(false)` lets it proceed.
    pub fn request_filter(&mut self, headers: &HeaderList, ctx: &mut MigrationRequestContext) -> (r: Result<bool, ProxyError>)
        requires
            old(self).well_formed(),
        ensures
            final(self).well_formed(),
            final(self).spec_delivery() == old(self).spec_delivery(),
            final(self).spec_limits() == old(self).spec_limits(),
            final(ctx).request_body == old(ctx).request_body,
            old(self).spec_budget().spec_in_flight() >= old(self).spec_budget().spec_limit() ==> (r matches Err(e)
                && e@ == ProxyErrorView::HttpStatus(503, "migration gateway max_in_flight_requests budget exhausted"@)
                && final(self).spec_budget() == old(self).spec_budget()
                && final(ctx).admission == old(ctx).admission),
            old(self).spec_budget().spec_in_flight() < old(self).spec_budget().spec_limit() ==> {
                &&& (final(ctx).admission matches Some(a)
                && !old(self).spec_budget().spec_outstanding().contains(a.spec_slot())
                && final(self).spec_budget().spec_outstanding() == without_admission(
                    old(self).spec_budget().spec_outstanding().insert(a.spec_slot()),
                    old(ctx).admission,
                ))
                &&& old(ctx).admission is None ==> final(self).spec_budget().spec_in_flight() == old(self).spec_budget().spec_in_flight() + 1
                &&& (declared_length(headers@) matches Some(n) && n > old(ctx).request_body.spec_limit()) ==> (r matches Err(e)
                    && e@ == ProxyErrorView::HttpStatus(413, "request body exceeds configured max_request_body_bytes"@))
                &&& !(declared_length(headers@) matches Some(n) && n > old(ctx).request_body.spec_limit()) ==> r == Ok::<bool, ProxyError>(false)
            },
    {
        self.admit_request(ctx)?;
        Self::reject_oversize_declared_body(headers, ctx)?;
        Ok(false)
    }

    /// Hands the request's admission back, if it holds one, to the budget that granted it.
    pub fn finish_request(&mut self, ctx: MigrationRequestContext)
        requires
            old(self).well_formed(),
        ensures
            final(self).well_formed(),
            final(self).spec_delivery() == old(self).spec_delivery(),
            final(self).spec_limits() == old(self).spec_limits(),
            match ctx.admission {
                None => final(self).spec_budget() == old(self).spec_budget(),
                Some(a) => if old(self).spec_budget().holds(a) {
                    final(self).spec_budget().spec_outstanding() == old(self).spec_budget().spec_outstanding().remove(a.spec_slot())
                        && final(self).spec_budget().spec_in_flight() == old(self).spec_budget().spec_in_flight() - 1
                } else {
                    final(self).spec_budget() == old(self).spec_budget()
                },
            },
    {
        if let Some(admission) = ctx.admission {
            self.admission_budget.release(admission);
        }
    }

    /// Refuses with 413 a request whose readable `Content-Length` exceeds the body budget.
    pub fn reject_oversize_declared_body(headers: &HeaderList, ctx: &MigrationRequestContext) -> (r: Result<(), ProxyError>)
        ensures
            (declared_length(headers@) matches Some(n) && n > ctx.request_body.spec_limit()) ==> (r matches Err(e)
                && e@ == ProxyErrorView::HttpStatus(413, "request body exceeds configured max_request_body_bytes"@)),
            !(declared_length(headers@) matches Some(n) && n > ctx.request_body.spec_limit()) ==> r is Ok,
    {
        match declared_content_length(headers) {
            Some(length) => match ctx.request_body.reject_declared_length(length) {
                Ok(()) => Ok(()),
                Err(rejection) => Err(body_rejection_to_pingora(rejection)),
            },
            None => Ok(()),
        }
    }

    /// Counts a streamed chunk (an absent chunk counts zero) and refuses with 413 once the body
    /// budget is exceeded.
    pub fn request_body_filter(chunk_len: Option<u64>, ctx: &mut MigrationRequestContext) -> (r: Result<(), ProxyError>)
        ensures
            final(ctx).admission == old(ctx).admission,
            final(ctx).request_body.spec_limit() == old(ctx).request_body.spec_limit(),
            final(ctx).request_body.spec_observed() == old(ctx).request_body.spec_observed().saturating_add(match chunk_len {
                Some(n) => n,
                None => 0,
            }),
            final(ctx).request_body.spec_observed() > old(ctx).request_body.spec_limit() ==> (r matches Err(e)
                && e@ == ProxyErrorView::HttpStatus(413, "request body exceeds configured max_request_body_bytes"@)),
            final(ctx).request_body.spec_observed() <= old(ctx).request_body.spec_limit() ==> r is Ok,
    {
        let chunk = match chunk_len {
            Some(n) => n,
            None => 0,
        };
        match ctx.request_body.observe_chunk(chunk) {
            Ok(()) => Ok(()),
            Err(rejection) => Err(body_rejection_to_pingora(rejection)),
        }
    }

    /// What to do after a request failed before it was proxied: answer with the failure's status
    /// (response-header policy applied) unless that status is zero; never reuse the connection.
    pub fn fail_to_proxy(etype: FailureType, esource: FailureSource) -> (r: FailToProxyPlan)
        ensures
            r.error_code == failure_status(etype, esource),
            r.send_response == (failure_status(etype, esource) > 0),
            !r.can_reuse_downstream,
    {
        let status = proxy_error_status(etype, esource);
        FailToProxyPlan { error_code: status, send_response: status > 0, can_reuse_downstream: false }
    }
}

proof fn lemma_insert_rules_stop(s: Seq<FieldView>, rules: Seq<ResponseHeaderRule>, n: int)
    requires
        0 < n <= rules.len(),
        !insert_rules(s, rules.subrange(0, n)).0,
    ensures
        insert_rules(s, rules) == insert_rules(s, rules.subrange(0, n)),
    decreases rules.len() - n,
{
    if n == rules.len() {
        assert(rules.subrange(0, n) =~= rules);
    } else {
        let shorter = rules.drop_last();
        assert(shorter.subrange(0, n) =~= rules.subrange(0, n));
        lemma_insert_rules_stop(s, shorter, n);
    }
}

} // verus!
