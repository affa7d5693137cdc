//! Explicit process policy for the version-1 runtime: framework defaults for retries, keepalive
//! capacity and shutdown timing are replaced by deliberate values.

use vstd::prelude::*;

verus! {

/// Number of total upstream attempts: one initial attempt and no retries.
pub const V1_MAX_UPSTREAM_ATTEMPTS: usize = 1;

/// Time allowed after SIGTERM before runtime shutdown begins, in seconds.
pub const V1_GRACE_PERIOD_SECONDS: u64 = 5;

/// Timeout given to each service runtime after the grace period, in seconds. The process may
/// wait for it twice after the grace period.
pub const V1_GRACEFUL_SHUTDOWN_TIMEOUT_SECONDS: u64 = 10;

/// External hard-kill budget required from the process supervisor, in seconds.
pub const V1_TERMINATION_BUDGET_SECONDS: u64 = 30;

/// Process settings of the version-1 runtime.
#[derive(Debug, Clone, Copy, PartialEq, Eq, Structural)]
pub struct ServerPolicy {
    /// Total upstream attempts per request.
    pub max_upstream_attempts: usize,
    /// Upstream keepalive pool budget.
    pub upstream_keepalive_pool_size: usize,
    /// Grace period after SIGTERM, in seconds.
    pub grace_period_seconds: u64,
    /// Per-runtime shutdown timeout, in seconds.
    pub graceful_shutdown_timeout_seconds: u64,
}

/// The process settings admitted by the version-1 runtime policy, with the validated keepalive
/// pool budget of the configuration.
pub fn build_server_conf(upstream_keepalive_pool_size: usize) -> (r: ServerPolicy)
    ensures
        r == (ServerPolicy {
            max_upstream_attempts: V1_MAX_UPSTREAM_ATTEMPTS,
            upstream_keepalive_pool_size,
            grace_period_seconds: V1_GRACE_PERIOD_SECONDS,
            graceful_shutdown_timeout_seconds: V1_GRACEFUL_SHUTDOWN_TIMEOUT_SECONDS,
        }),
        r.grace_period_seconds + 2 * r.graceful_shutdown_timeout_seconds < V1_TERMINATION_BUDGET_SECONDS,
{
    ServerPolicy {
        max_upstream_attempts: V1_MAX_UPSTREAM_ATTEMPTS,
        upstream_keepalive_pool_size,
        grace_period_seconds: V1_GRACE_PERIOD_SECONDS,
        graceful_shutdown_timeout_seconds: V1_GRACEFUL_SHUTDOWN_TIMEOUT_SECONDS,
    }
}

} // verus!
