//! Low-cardinality gateway telemetry: three process-wide counters and their Prometheus text.

use vstd::prelude::*;
use vstd::string::*;

use crate::text::{dec, push_dec};

verus! {

/// A counter one step further, wrapping to zero past the largest value.
pub open spec fn bump(n: u64) -> u64 {
    if n == u64::MAX {
        0
    } else {
        (n + 1) as u64
    }
}

fn bump_exec(n: u64) -> (r: u64)
    ensures
        r == bump(n),
{
    if n == u64::MAX {
        0
    } else {
        n + 1
    }
}

/// Process-wide counters intentionally free of request-controlled labels.
#[derive(Debug, Default)]
pub struct Metrics {
    requests: u64,
    rejected: u64,
    proxy_errors: u64,
}

/// The Prometheus text exposition of the three counters.
pub open spec fn metrics_text(requests: u64, rejected: u64, proxy_errors: u64) -> Seq<char> {
    "# TYPE pingora_gateway_requests_total counter\npingora_gateway_requests_total "@ + dec(requests as nat)
        + "\n# TYPE pingora_gateway_rejected_total counter\npingora_gateway_rejected_total "@ + dec(rejected as nat)
        + "\n# TYPE pingora_gateway_proxy_errors_total counter\npingora_gateway_proxy_errors_total "@ + dec(
        proxy_errors as nat,
    ) + "\n"@
}

impl Metrics {
    /// Downstream requests that entered the gateway.
    pub closed spec fn spec_requests(&self) -> u64 {
        self.requests
    }

    /// Policy or routing rejections.
    pub closed spec fn spec_rejected(&self) -> u64 {
        self.rejected
    }

    /// Proxy failures after admission.
    pub closed spec fn spec_proxy_errors(&self) -> u64 {
        self.proxy_errors
    }

    /// All counters at zero.
    pub fn new() -> (r: Self)
        ensures
            r.spec_requests() == 0,
            r.spec_rejected() == 0,
            r.spec_proxy_errors() == 0,
    {
        Metrics { requests: 0, rejected: 0, proxy_errors: 0 }
    }

    /// Records a downstream request entering the gateway.
    pub fn request(&mut self)
        ensures
            final(self).spec_requests() == bump(old(self).spec_requests()),
            final(self).spec_rejected() == old(self).spec_rejected(),
            final(self).spec_proxy_errors() == old(self).spec_proxy_errors(),
    {
        self.requests = bump_exec(self.requests);
    }

    /// Records a policy or routing rejection.
    pub fn rejected(&mut self)
        ensures
            final(self).spec_requests() == old(self).spec_requests(),
            final(self).spec_rejected() == bump(old(self).spec_rejected()),
            final(self).spec_proxy_errors() == old(self).spec_proxy_errors(),
    {
        self.rejected = bump_exec(self.rejected);
    }

    /// Records a proxy failure after request admission.
    pub fn proxy_error(&mut self)
        ensures
            final(self).spec_requests() == old(self).spec_requests(),
            final(self).spec_rejected() == old(self).spec_rejected(),
            final(self).spec_proxy_errors() == bump(old(self).spec_proxy_errors()),
    {
        self.proxy_errors = bump_exec(self.proxy_errors);
    }

    /// Renders the Prometheus text exposition, without credential-bearing dimensions.
    pub fn render(&self) -> (r: String)
        ensures
            r@ == metrics_text(self.spec_requests(), self.spec_rejected(), self.spec_proxy_errors()),
    {
        let mut out = String::from_str("# TYPE pingora_gateway_requests_total counter\npingora_gateway_requests_total ");
        push_dec(&mut out, self.requests);
        out.append("\n# TYPE pingora_gateway_rejected_total counter\npingora_gateway_rejected_total ");
        push_dec(&mut out, self.rejected);
        out.append("\n# TYPE pingora_gateway_proxy_errors_total counter\npingora_gateway_proxy_errors_total ");
        push_dec(&mut out, self.proxy_errors);
        out.append("\n");
        out
    }
}

/// One recording call on [`Metrics`].
#[derive(Debug, Clone, Copy, PartialEq, Eq, Structural)]
pub enum MetricsEvent {
    /// [`Metrics::request`].
    Request,
    /// [`Metrics::rejected`].
    Rejected,
    /// [`Metrics::proxy_error`].
    ProxyError,
}

/// The counters `(requests, rejected, proxy_errors)` after the recording calls `events`, made in
/// order from `start`, each as that call's contract states.
pub open spec fn counters_after(start: (u64, u64, u64), events: Seq<MetricsEvent>) -> (u64, u64, u64)
    decreases events.len(),
{
    if events.len() == 0 {
        start
    } else {
        let c = counters_after(start, events.drop_last());
        match events.last() {
            MetricsEvent::Request => (bump(c.0), c.1, c.2),
            MetricsEvent::Rejected => (c.0, bump(c.1), c.2),
            MetricsEvent::ProxyError => (c.0, c.1, bump(c.2)),
        }
    }
}

/// How many of `events` are `e`.
pub open spec fn count_events(events: Seq<MetricsEvent>, e: MetricsEvent) -> nat
    decreases events.len(),
{
    if events.len() == 0 {
        0
    } else {
        count_events(events.drop_last(), e) + if events.last() == e {
            1nat
        } else {
            0nat
        }
    }
}

/// From fresh counters, a run of recording calls leaves each counter at the number of its calls
/// (while no counter wraps), and the rendered text reports those three numbers.
pub proof fn lemma_metrics_run(events: Seq<MetricsEvent>)
    requires
        count_events(events, MetricsEvent::Request) <= u64::MAX,
        count_events(events, MetricsEvent::Rejected) <= u64::MAX,
        count_events(events, MetricsEvent::ProxyError) <= u64::MAX,
    ensures
        counters_after((0, 0, 0), events) == (
            count_events(events, MetricsEvent::Request) as u64,
            count_events(events, MetricsEvent::Rejected) as u64,
            count_events(events, MetricsEvent::ProxyError) as u64,
        ),
        ({
            let c = counters_after((0, 0, 0), events);
            metrics_text(c.0, c.1, c.2) == metrics_text(
                count_events(events, MetricsEvent::Request) as u64,
                count_events(events, MetricsEvent::Rejected) as u64,
                count_events(events, MetricsEvent::ProxyError) as u64,
            )
        }),
    decreases events.len(),
{
    if events.len() > 0 {
        lemma_metrics_run(events.drop_last());
    }
}

} // verus!
