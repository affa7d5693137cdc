//! Versioned, transport-neutral configuration contract for the shared edge runtime.
//!
//! The contract holds only the values the application boundary needs; transport objects are built
//! from it later. Every invariant is checked before network authority is granted.

use vstd::prelude::*;

use crate::net::{IpAddress, SocketAddress};
use crate::text::{chars_eq, chars_of, is_blank, is_blank_str, string_from_chars, trim};

verus! {

/// The only configuration version implemented by this release line.
pub const CURRENT_GATEWAY_CONFIG_VERSION: u32 = 1;

/// Fail-closed configuration for one gateway process.
#[derive(Debug)]
pub struct GatewayConfig {
    /// Version of the public edge configuration contract.
    pub version: u32,
    /// Socket address on which the gateway accepts downstream connections.
    pub listener: SocketAddress,
    /// Separate socket address that exposes only low-cardinality metrics.
    pub metrics_listener: SocketAddress,
    /// Maximum request body admitted by this gateway process, in bytes.
    pub max_request_body_bytes: u64,
    /// Maximum number of non-health downstream requests admitted concurrently.
    pub max_in_flight_requests: usize,
    /// Maximum number of reusable upstream keepalive connections retained.
    pub upstream_keepalive_pool_size: usize,
    /// Explicit set of upstream services that the gateway may contact.
    pub upstreams: Vec<UpstreamConfig>,
}

/// Explicit I/O budgets for one upstream connection, in milliseconds; all must be positive.
#[derive(Debug, Clone, Copy, PartialEq, Eq, Structural)]
pub struct UpstreamTimeouts {
    /// Maximum time to establish one TCP/TLS connection attempt.
    pub connection_ms: u64,
    /// Maximum total time across connection establishment attempts.
    pub total_connection_ms: u64,
    /// Maximum time waiting for upstream response bytes.
    pub read_ms: u64,
    /// Maximum time writing request bytes upstream.
    pub write_ms: u64,
    /// Maximum reusable upstream-connection idle time.
    pub idle_ms: u64,
}

/// An explicitly approved upstream target.
#[derive(Debug)]
pub struct UpstreamConfig {
    /// Stable operator-facing upstream name.
    pub name: String,
    /// Resolved socket endpoint; arbitrary per-request destinations are intentionally absent.
    pub address: SocketAddress,
    /// Whether the upstream connection must use TLS.
    pub tls: bool,
    /// TLS server name used for SNI and hostname verification.
    pub sni: Option<String>,
    /// Optional absolute path of a PEM bundle of additional trust anchors.
    pub trust_bundle_file: Option<String>,
    /// Explicit connection and I/O budgets for this upstream.
    pub timeouts: UpstreamTimeouts,
}

/// Reasons an edge configuration is not safe to activate.
#[derive(Debug, Clone, PartialEq, Eq)]
pub enum GatewayConfigError {
    /// The configuration text could not be decoded into the strict contract.
    Parse(String),
    /// The configuration requests a contract version this binary does not implement.
    UnsupportedVersion(u32),
    /// Port zero would delegate the traffic listener to an ephemeral OS-selected authority.
    ZeroListenerPort,
    /// Port zero would make the declared metrics endpoint indeterminate.
    ZeroMetricsListenerPort,
    /// Traffic and metrics endpoints must never overlap the same effective socket authority.
    ListenerCollision,
    /// An upstream must not resolve back to the gateway's downstream traffic listener.
    UpstreamListenerCollision {
        /// Stable upstream whose transport authority overlaps the traffic listener.
        upstream_name: String,
    },
    /// Application traffic must not resolve to the gateway's internal metrics listener.
    UpstreamMetricsListenerCollision {
        /// Stable upstream whose transport authority overlaps the metrics listener.
        upstream_name: String,
    },
    /// An approved upstream must identify a concrete, connectable transport port.
    ZeroUpstreamPort {
        /// Stable upstream whose transport binding used port zero.
        upstream_name: String,
    },
    /// A zero request-body limit would reject every body.
    InvalidRequestBodyLimit,
    /// A zero in-flight budget would reject every proxied request.
    InvalidInFlightRequestLimit,
    /// A zero keepalive pool silently disables reusable upstream connections.
    InvalidUpstreamKeepalivePoolSize,
    /// At least one upstream is required.
    NoUpstreams,
    /// Version 1 has no routing or load-balancing semantics, so exactly one target is allowed.
    UnsupportedUpstreamCount {
        /// Number of explicit upstream authorities presented by the configuration.
        actual: usize,
    },
    /// Upstream names are stable identifiers and therefore must be unique.
    DuplicateUpstreamName {
        /// Duplicate stable upstream identifier.
        upstream_name: String,
    },
    /// A TLS upstream must have an explicit server name for hostname verification.
    MissingTlsServerName {
        /// Upstream whose TLS identity is incomplete.
        upstream_name: String,
    },
    /// Empty or whitespace-only upstream names are not stable identifiers.
    EmptyUpstreamName,
    /// SNI must contain a non-empty hostname when TLS is enabled.
    EmptyTlsServerName {
        /// Upstream whose TLS identity is incomplete.
        upstream_name: String,
    },
    /// Cleartext upstreams must not carry an unused TLS identity.
    UnexpectedTlsServerName {
        /// Upstream that specified SNI while TLS is disabled.
        upstream_name: String,
    },
    /// An explicitly configured trust bundle must identify a concrete filesystem path.
    EmptyTrustBundlePath {
        /// Upstream whose trust-bundle path is empty.
        upstream_name: String,
    },
    /// Trust-bundle paths are absolute so working-directory changes cannot alter authority.
    RelativeTrustBundlePath {
        /// Upstream whose trust-bundle path is relative.
        upstream_name: String,
    },
    /// Cleartext upstreams must not carry unused certificate trust configuration.
    UnexpectedTrustBundle {
        /// Upstream that specified a trust bundle while TLS is disabled.
        upstream_name: String,
    },
    /// Timeout budgets must be positive so the runtime never acquires an infinite budget.
    InvalidTimeoutBudget {
        /// Upstream with the invalid timeout.
        upstream_name: String,
        /// Stable edge-contract field name whose value is invalid.
        timeout_name: String,
    },
}

/// [`GatewayConfigError`] with its text as character sequences.
pub enum GatewayConfigErrorView {
    Parse(Seq<char>),
    UnsupportedVersion(u32),
    ZeroListenerPort,
    ZeroMetricsListenerPort,
    ListenerCollision,
    UpstreamListenerCollision(Seq<char>),
    UpstreamMetricsListenerCollision(Seq<char>),
    ZeroUpstreamPort(Seq<char>),
    InvalidRequestBodyLimit,
    InvalidInFlightRequestLimit,
    InvalidUpstreamKeepalivePoolSize,
    NoUpstreams,
    UnsupportedUpstreamCount(nat),
    DuplicateUpstreamName(Seq<char>),
    MissingTlsServerName(Seq<char>),
    EmptyUpstreamName,
    EmptyTlsServerName(Seq<char>),
    UnexpectedTlsServerName(Seq<char>),
    EmptyTrustBundlePath(Seq<char>),
    RelativeTrustBundlePath(Seq<char>),
    UnexpectedTrustBundle(Seq<char>),
    InvalidTimeoutBudget(Seq<char>, Seq<char>),
}

impl View for GatewayConfigError {
    type V = GatewayConfigErrorView;

    open spec fn view(&self) -> GatewayConfigErrorView {
        match self {
            GatewayConfigError::Parse(m) => GatewayConfigErrorView::Parse(m@),
            GatewayConfigError::UnsupportedVersion(v) => GatewayConfigErrorView::UnsupportedVersion(*v),
            GatewayConfigError::ZeroListenerPort => GatewayConfigErrorView::ZeroListenerPort,
            GatewayConfigError::ZeroMetricsListenerPort => GatewayConfigErrorView::ZeroMetricsListenerPort,
            GatewayConfigError::ListenerCollision => GatewayConfigErrorView::ListenerCollision,
            GatewayConfigError::UpstreamListenerCollision { upstream_name } => GatewayConfigErrorView::UpstreamListenerCollision(upstream_name@),
            GatewayConfigError::UpstreamMetricsListenerCollision { upstream_name } => GatewayConfigErrorView::UpstreamMetricsListenerCollision(upstream_name@),
            GatewayConfigError::ZeroUpstreamPort { upstream_name } => GatewayConfigErrorView::ZeroUpstreamPort(upstream_name@),
            GatewayConfigError::InvalidRequestBodyLimit => GatewayConfigErrorView::InvalidRequestBodyLimit,
            GatewayConfigError::InvalidInFlightRequestLimit => GatewayConfigErrorView::InvalidInFlightRequestLimit,
            GatewayConfigError::InvalidUpstreamKeepalivePoolSize => GatewayConfigErrorView::InvalidUpstreamKeepalivePoolSize,
            GatewayConfigError::NoUpstreams => GatewayConfigErrorView::NoUpstreams,
            GatewayConfigError::UnsupportedUpstreamCount { actual } => GatewayConfigErrorView::UnsupportedUpstreamCount(*actual as nat),
            GatewayConfigError::DuplicateUpstreamName { upstream_name } => GatewayConfigErrorView::DuplicateUpstreamName(upstream_name@),
            GatewayConfigError::MissingTlsServerName { upstream_name } => GatewayConfigErrorView::MissingTlsServerName(upstream_name@),
            GatewayConfigError::EmptyUpstreamName => GatewayConfigErrorView::EmptyUpstreamName,
            GatewayConfigError::EmptyTlsServerName { upstream_name } => GatewayConfigErrorView::EmptyTlsServerName(upstream_name@),
            GatewayConfigError::UnexpectedTlsServerName { upstream_name } => GatewayConfigErrorView::UnexpectedTlsServerName(upstream_name@),
            GatewayConfigError::EmptyTrustBundlePath { upstream_name } => GatewayConfigErrorView::EmptyTrustBundlePath(upstream_name@),
            GatewayConfigError::RelativeTrustBundlePath { upstream_name } => GatewayConfigErrorView::RelativeTrustBundlePath(upstream_name@),
            GatewayConfigError::UnexpectedTrustBundle { upstream_name } => GatewayConfigErrorView::UnexpectedTrustBundle(upstream_name@),
            GatewayConfigError::InvalidTimeoutBudget { upstream_name, timeout_name } => GatewayConfigErrorView::InvalidTimeoutBudget(upstream_name@, timeout_name@),
        }
    }
}

/// Whether two socket authorities can compete for the same port: same port, and the same
/// address or a wildcard on either side; an IPv6 wildcard also covers IPv4 (dual stack).
pub open spec fn authorities_overlap(a: SocketAddress, b: SocketAddress) -> bool {
    a.port == b.port && match (a.ip, b.ip) {
        (IpAddress::V4(..), IpAddress::V4(..)) => a.ip == b.ip || a.ip.spec_is_unspecified() || b.ip.spec_is_unspecified(),
        (IpAddress::V6(..), IpAddress::V6(..)) => a.ip == b.ip || a.ip.spec_is_unspecified() || b.ip.spec_is_unspecified(),
        (IpAddress::V6(..), IpAddress::V4(..)) => a.ip.spec_is_unspecified(),
        (IpAddress::V4(..), IpAddress::V6(..)) => b.ip.spec_is_unspecified(),
    }
}

/// Decides whether two socket authorities overlap.
pub fn socket_authorities_overlap(listener: SocketAddress, metrics_listener: SocketAddress) -> (r: bool)
    ensures
        r == authorities_overlap(listener, metrics_listener),
{
    if listener.port != metrics_listener.port {
        return false;
    }
    match (listener.ip, metrics_listener.ip) {
        (IpAddress::V4(..), IpAddress::V4(..)) => listener.ip == metrics_listener.ip
            || listener.ip.is_unspecified() || metrics_listener.ip.is_unspecified(),
        (IpAddress::V6(..), IpAddress::V6(..)) => listener.ip == metrics_listener.ip
            || listener.ip.is_unspecified() || metrics_listener.ip.is_unspecified(),
        (IpAddress::V6(..), IpAddress::V4(..)) => listener.ip.is_unspecified(),
        (IpAddress::V4(..), IpAddress::V6(..)) => metrics_listener.ip.is_unspecified(),
    }
}

/// A Unix path is absolute when it starts with `/`.
pub open spec fn is_absolute_path(p: Seq<char>) -> bool {
    p.len() > 0 && p[0] == '/'
}

/// The check an upstream fails, in the order `UpstreamConfig::validate` checks them.
pub open spec fn upstream_error(u: UpstreamConfig) -> Option<GatewayConfigErrorView> {
    let n = trim(u.name@);
    if n.len() == 0 {
        Some(GatewayConfigErrorView::EmptyUpstreamName)
    } else if u.address.port == 0 {
        Some(GatewayConfigErrorView::ZeroUpstreamPort(n))
    } else if u.tls && u.sni is None {
        Some(GatewayConfigErrorView::MissingTlsServerName(n))
    } else if u.tls && (u.sni matches Some(s) && is_blank(s@)) {
        Some(GatewayConfigErrorView::EmptyTlsServerName(n))
    } else if !u.tls && u.sni is Some {
        Some(GatewayConfigErrorView::UnexpectedTlsServerName(n))
    } else if (u.trust_bundle_file matches Some(p) && is_blank(p@)) {
        Some(GatewayConfigErrorView::EmptyTrustBundlePath(n))
    } else if (u.trust_bundle_file matches Some(p) && !is_absolute_path(p@)) {
        Some(GatewayConfigErrorView::RelativeTrustBundlePath(n))
    } else if u.trust_bundle_file is Some && !u.tls {
        Some(GatewayConfigErrorView::UnexpectedTrustBundle(n))
    } else if u.timeouts.connection_ms == 0 {
        Some(GatewayConfigErrorView::InvalidTimeoutBudget(n, "connection_ms"@))
    } else if u.timeouts.total_connection_ms == 0 {
        Some(GatewayConfigErrorView::InvalidTimeoutBudget(n, "total_connection_ms"@))
    } else if u.timeouts.read_ms == 0 {
        Some(GatewayConfigErrorView::InvalidTimeoutBudget(n, "read_ms"@))
    } else if u.timeouts.write_ms == 0 {
        Some(GatewayConfigErrorView::InvalidTimeoutBudget(n, "write_ms"@))
    } else if u.timeouts.idle_ms == 0 {
        Some(GatewayConfigErrorView::InvalidTimeoutBudget(n, "idle_ms"@))
    } else {
        None
    }
}

/// The separation check an upstream fails against the two listeners.
pub open spec fn separation_error(listener: SocketAddress, metrics: SocketAddress, u: UpstreamConfig) -> Option<GatewayConfigErrorView> {
    if authorities_overlap(listener, u.address) {
        Some(GatewayConfigErrorView::UpstreamListenerCollision(trim(u.name@)))
    } else if authorities_overlap(metrics, u.address) {
        Some(GatewayConfigErrorView::UpstreamMetricsListenerCollision(trim(u.name@)))
    } else {
        None
    }
}

/// The first failure among the upstreams, checked in order, each one after those before it.
pub open spec fn upstreams_error(listener: SocketAddress, metrics: SocketAddress, us: Seq<UpstreamConfig>) -> Option<GatewayConfigErrorView>
    decreases us.len(),
{
    if us.len() == 0 {
        None
    } else {
        match upstreams_error(listener, metrics, us.drop_last()) {
            Some(e) => Some(e),
            None => {
                let u = us.last();
                match upstream_error(u) {
                    Some(e) => Some(e),
                    None => match separation_error(listener, metrics, u) {
                        Some(e) => Some(e),
                        None => if exists|j: int| 0 <= j < us.len() - 1 && trim(#[trigger] us[j].name@) == trim(u.name@) {
                            Some(GatewayConfigErrorView::DuplicateUpstreamName(trim(u.name@)))
                        } else {
                            None
                        },
                    },
                }
            },
        }
    }
}

/// What `GatewayConfig::validate` reports, if anything.
pub open spec fn config_error(c: GatewayConfig) -> Option<GatewayConfigErrorView> {
    if c.version != CURRENT_GATEWAY_CONFIG_VERSION {
        Some(GatewayConfigErrorView::UnsupportedVersion(c.version))
    } else if c.listener.port == 0 {
        Some(GatewayConfigErrorView::ZeroListenerPort)
    } else if c.metrics_listener.port == 0 {
        Some(GatewayConfigErrorView::ZeroMetricsListenerPort)
    } else if authorities_overlap(c.listener, c.metrics_listener) {
        Some(GatewayConfigErrorView::ListenerCollision)
    } else if c.max_request_body_bytes == 0 {
        Some(GatewayConfigErrorView::InvalidRequestBodyLimit)
    } else if c.max_in_flight_requests == 0 {
        Some(GatewayConfigErrorView::InvalidInFlightRequestLimit)
    } else if c.upstream_keepalive_pool_size == 0 {
        Some(GatewayConfigErrorView::InvalidUpstreamKeepalivePoolSize)
    } else if c.upstreams@.len() == 0 {
        Some(GatewayConfigErrorView::NoUpstreams)
    } else {
        match upstreams_error(c.listener, c.metrics_listener, c.upstreams@) {
            Some(e) => Some(e),
            None => if c.upstreams@.len() != 1 {
                Some(GatewayConfigErrorView::UnsupportedUpstreamCount(c.upstreams@.len()))
            } else {
                None
            },
        }
    }
}

fn copy_opt(o: &Option<String>) -> (r: Option<String>)
    ensures
        r == *o,
{
    match o {
        Some(s) => Some(s.clone()),
        None => None,
    }
}

/// Identical copies of upstream contracts, in order.
pub fn copy_upstreams(v: &Vec<UpstreamConfig>) -> (r: Vec<UpstreamConfig>)
    ensures
        r@ == v@,
{
    let mut out: Vec<UpstreamConfig> = Vec::new();
    let mut i: usize = 0;
    while i < v.len()
        invariant
            i <= v.len(),
            out@ == v@.subrange(0, i as int),
        decreases v.len() - i,
    {
        out.push(v[i].duplicate());
        assert(out@ =~= v@.subrange(0, i + 1));
        i = i + 1;
    }
    assert(v@.subrange(0, v@.len() as int) =~= v@);
    out
}

impl UpstreamConfig {
    /// An identical upstream contract.
    pub fn duplicate(&self) -> (r: Self)
        ensures
            r == *self,
    {
        UpstreamConfig {
            name: self.name.clone(),
            address: self.address,
            tls: self.tls,
            sni: copy_opt(&self.sni),
            trust_bundle_file: copy_opt(&self.trust_bundle_file),
            timeouts: self.timeouts,
        }
    }

    /// Validates the invariants required before this upstream can become network authority.
    pub fn validate(&self) -> (r: Result<(), GatewayConfigError>)
        ensures
            match upstream_error(*self) {
                Some(e) => (r matches Err(err) && err@ == e),
                None => r is Ok,
            },
    {
        let name_chars = chars_of(self.name.as_str());
        let (lo, hi) = crate::text::trim_bounds(&name_chars);
        if lo == hi {
            return Err(GatewayConfigError::EmptyUpstreamName);
        }
        let n = crate::text::string_from_range(&name_chars, lo, hi);
        if self.address.port == 0 {
            return Err(GatewayConfigError::ZeroUpstreamPort { upstream_name: n });
        }
        match &self.sni {
            None => {
                if self.tls {
                    return Err(GatewayConfigError::MissingTlsServerName { upstream_name: n });
                }
            },
            Some(server_name) => {
                if self.tls && is_blank_str(server_name.as_str()) {
                    return Err(GatewayConfigError::EmptyTlsServerName { upstream_name: n });
                }
                if !self.tls {
                    return Err(GatewayConfigError::UnexpectedTlsServerName { upstream_name: n });
                }
            },
        }
        match &self.trust_bundle_file {
            None => {},
            Some(path) => {
                if is_blank_str(path.as_str()) {
                    return Err(GatewayConfigError::EmptyTrustBundlePath { upstream_name: n });
                }
                let p = chars_of(path.as_str());
                if !(p.len() > 0 && p[0] == '/') {
                    return Err(GatewayConfigError::RelativeTrustBundlePath { upstream_name: n });
                }
                if !self.tls {
                    return Err(GatewayConfigError::UnexpectedTrustBundle { upstream_name: n });
                }
            },
        }
        let t = self.timeouts;
        if t.connection_ms == 0 {
            return Err(timeout_error(n, "connection_ms"));
        }
        if t.total_connection_ms == 0 {
            return Err(timeout_error(n, "total_connection_ms"));
        }
        if t.read_ms == 0 {
            return Err(timeout_error(n, "read_ms"));
        }
        if t.write_ms == 0 {
            return Err(timeout_error(n, "write_ms"));
        }
        if t.idle_ms == 0 {
            return Err(timeout_error(n, "idle_ms"));
        }
        Ok(())
    }
}

fn timeout_error(upstream_name: String, timeout_name: &str) -> (r: GatewayConfigError)
    ensures
        r@ == GatewayConfigErrorView::InvalidTimeoutBudget(upstream_name@, timeout_name@),
{
    GatewayConfigError::InvalidTimeoutBudget { upstream_name, timeout_name: timeout_name.to_owned() }
}

/// Rejects an upstream whose socket authority overlaps either listener.
pub fn validate_upstream_authority_separation(
    listener: SocketAddress,
    metrics_listener: SocketAddress,
    upstream: &UpstreamConfig,
) -> (r: Result<(), GatewayConfigError>)
    ensures
        match separation_error(listener, metrics_listener, *upstream) {
            Some(e) => (r matches Err(err) && err@ == e),
            None => r is Ok,
        },
{
    if socket_authorities_overlap(listener, upstream.address) {
        return Err(GatewayConfigError::UpstreamListenerCollision { upstream_name: crate::text::trim_string(upstream.name.as_str()) });
    }
    if socket_authorities_overlap(metrics_listener, upstream.address) {
        return Err(GatewayConfigError::UpstreamMetricsListenerCollision { upstream_name: crate::text::trim_string(upstream.name.as_str()) });
    }
    Ok(())
}

/// The first upstream failure decides the outcome of the whole list.
proof fn lemma_upstreams_error_at(l: SocketAddress, m: SocketAddress, us: Seq<UpstreamConfig>, i: int, e: GatewayConfigErrorView)
    requires
        0 <= i < us.len(),
        upstreams_error(l, m, us.subrange(0, i)) is None,
        upstreams_error(l, m, us.subrange(0, i + 1)) == Some(e),
    ensures
        upstreams_error(l, m, us) == Some(e),
    decreases us.len() - i,
{
    if i == us.len() - 1 {
        assert(us.subrange(0, i + 1) =~= us);
    } else {
        let shorter = us.drop_last();
        assert(shorter.subrange(0, i) =~= us.subrange(0, i));
        assert(shorter.subrange(0, i + 1) =~= us.subrange(0, i + 1));
        lemma_upstreams_error_at(l, m, shorter, i, e);
    }
}

impl GatewayConfig {
    /// Accepts a decoded configuration document (or the decoder's message) once it validates.
    pub fn accept(decoded: Result<GatewayConfig, String>) -> (r: Result<GatewayConfig, GatewayConfigError>)
        ensures
            match decoded {
                Err(m) => r matches Err(e) && e@ == GatewayConfigErrorView::Parse(m@),
                Ok(c) => match config_error(c) {
                    Some(ev) => r matches Err(e) && e@ == ev,
                    None => r == Ok::<GatewayConfig, GatewayConfigError>(c),
                },
            },
    {
        let config = match decoded {
            Err(m) => return Err(GatewayConfigError::Parse(m)),
            Ok(c) => c,
        };
        config.validate()?;
        Ok(config)
    }

    /// Verifies all configuration invariants required before network authority is granted.
    pub fn validate(&self) -> (r: Result<(), GatewayConfigError>)
        ensures
            match config_error(*self) {
                Some(e) => (r matches Err(err) && err@ == e),
                None => r is Ok,
            },
    {
        if self.version != CURRENT_GATEWAY_CONFIG_VERSION {
            return Err(GatewayConfigError::UnsupportedVersion(self.version));
        }
        if self.listener.port == 0 {
            return Err(GatewayConfigError::ZeroListenerPort);
        }
        if self.metrics_listener.port == 0 {
            return Err(GatewayConfigError::ZeroMetricsListenerPort);
        }
        if socket_authorities_overlap(self.listener, self.metrics_listener) {
            return Err(GatewayConfigError::ListenerCollision);
        }
        if self.max_request_body_bytes == 0 {
            return Err(GatewayConfigError::InvalidRequestBodyLimit);
        }
        if self.max_in_flight_requests == 0 {
            return Err(GatewayConfigError::InvalidInFlightRequestLimit);
        }
        if self.upstream_keepalive_pool_size == 0 {
            return Err(GatewayConfigError::InvalidUpstreamKeepalivePoolSize);
        }
        if self.upstreams.len() == 0 {
            return Err(GatewayConfigError::NoUpstreams);
        }
        let ghost us = self.upstreams@;
        let mut names: Vec<Vec<char>> = Vec::new();
        let mut i: usize = 0;
        while i < self.upstreams.len()
            invariant
                i <= self.upstreams.len(),
                us == self.upstreams@,
                us.len() > 0,
                config_error(*self) == match upstreams_error(self.listener, self.metrics_listener, us) {
                    Some(e) => Some(e),
                    None => if us.len() != 1 {
                        Some(GatewayConfigErrorView::UnsupportedUpstreamCount(us.len()))
                    } else {
                        None
                    },
                },
                names@.len() == i,
                forall|j: int| 0 <= j < i ==> #[trigger] names@[j]@ == trim(us[j].name@),
                upstreams_error(self.listener, self.metrics_listener, us.subrange(0, i as int)) is None,
            decreases self.upstreams.len() - i,
        {
            let upstream = &self.upstreams[i];
            let ghost pre = us.subrange(0, i as int);
            assert(us.subrange(0, i + 1).drop_last() =~= pre);
            assert(us.subrange(0, i + 1).last() == us[i as int]);
            if let Err(e) = upstream.validate() {
                proof {
                    lemma_upstreams_error_at(self.listener, self.metrics_listener, us, i as int, e@);
                }
                return Err(e);
            }
            if let Err(e) = validate_upstream_authority_separation(self.listener, self.metrics_listener, upstream) {
                proof {
                    lemma_upstreams_error_at(self.listener, self.metrics_listener, us, i as int, e@);
                }
                return Err(e);
            }
            let name_chars = chars_of(upstream.name.as_str());
            let (lo, hi) = crate::text::trim_bounds(&name_chars);
            let name = crate::net::sub_vec(&name_chars, lo, hi);
            let mut k: usize = 0;
            while k < i
                invariant
                    k <= i < us.len(),
                    us == self.upstreams@,
                    upstreams_error(self.listener, self.metrics_listener, us.subrange(0, i as int)) is None,
                    upstream_error(us[i as int]) is None,
                    separation_error(self.listener, self.metrics_listener, us[i as int]) is None,
                    config_error(*self) == match upstreams_error(self.listener, self.metrics_listener, us) {
                        Some(e) => Some(e),
                        None => if us.len() != 1 {
                            Some(GatewayConfigErrorView::UnsupportedUpstreamCount(us.len()))
                        } else {
                            None
                        },
                    },
                    names@.len() == i,
                    name@ == trim(us[i as int].name@),
                    forall|j: int| 0 <= j < i ==> #[trigger] names@[j]@ == trim(us[j].name@),
                    forall|j: int| 0 <= j < k ==> trim(#[trigger] us[j].name@) != name@,
                decreases i - k,
            {
                if chars_eq(&names[k], &name) {
                    let e = GatewayConfigError::DuplicateUpstreamName { upstream_name: string_from_chars(&name) };
                    proof {
                        let sub = us.subrange(0, i + 1);
                        assert(sub.drop_last() =~= us.subrange(0, i as int));
                        assert(sub.last() == us[i as int]);
                        assert(sub[k as int] == us[k as int]);
                        assert(exists|j: int| 0 <= j < sub.len() - 1 && trim(#[trigger] sub[j].name@) == trim(sub.last().name@));
                        lemma_upstreams_error_at(self.listener, self.metrics_listener, us, i as int, e@);
                    }
                    return Err(e);
                }
                k = k + 1;
            }
            proof {
                let sub = us.subrange(0, i + 1);
                assert(!exists|j: int| 0 <= j < sub.len() - 1 && trim(#[trigger] sub[j].name@) == trim(sub.last().name@)) by {
                    if exists|j: int| 0 <= j < sub.len() - 1 && trim(#[trigger] sub[j].name@) == trim(sub.last().name@) {
                        let j = choose|j: int| 0 <= j < sub.len() - 1 && trim(#[trigger] sub[j].name@) == trim(sub.last().name@);
                        assert(sub[j] == us[j]);
                    }
                }
            }
            names.push(name);
            i = i + 1;
        }
        assert(us.subrange(0, us.len() as int) =~= us);
        if self.upstreams.len() != 1 {
            return Err(GatewayConfigError::UnsupportedUpstreamCount { actual: self.upstreams.len() });
        }
        Ok(())
    }
}

/// Socket-authority overlap: it is symmetric, needs the same port, holds for the same address,
/// and holds whenever either side is a wildcard of the same family on that port (an IPv4
/// wildcard covers every IPv4 address, an IPv6 wildcard every address); two distinct specified
/// addresses never overlap.
pub proof fn lemma_authority_overlap(a: SocketAddress, b: SocketAddress)
    ensures
        authorities_overlap(a, b) == authorities_overlap(b, a),
        authorities_overlap(a, b) ==> a.port == b.port,
        a.port == b.port && a.ip == b.ip ==> authorities_overlap(a, b),
        a.port == b.port && (a.ip is V4) && (b.ip is V4) && (a.ip == IpAddress::V4(0, 0, 0, 0) || b.ip == IpAddress::V4(0, 0, 0, 0))
            ==> authorities_overlap(a, b),
        a.port == b.port && a.ip == IpAddress::V6(0, 0, 0, 0, 0, 0, 0, 0) ==> authorities_overlap(a, b),
        a.port == b.port && b.ip == IpAddress::V6(0, 0, 0, 0, 0, 0, 0, 0) ==> authorities_overlap(a, b),
        a.ip != b.ip && !a.ip.spec_is_unspecified() && !b.ip.spec_is_unspecified() ==> !authorities_overlap(a, b),
{
}

/// A version-1 configuration whose two listeners share a port, one of them bound to an IPv4 or
/// IPv6 wildcard, is refused with `ListenerCollision` (the earlier checks passing).
pub proof fn lemma_wildcard_listener_collides(c: GatewayConfig)
    requires
        c.version == CURRENT_GATEWAY_CONFIG_VERSION,
        c.listener.port != 0,
        c.listener.port == c.metrics_listener.port,
        (c.listener.ip is V4 && c.metrics_listener.ip is V4 && (c.listener.ip == IpAddress::V4(0, 0, 0, 0)
            || c.metrics_listener.ip == IpAddress::V4(0, 0, 0, 0)))
            || c.listener.ip == IpAddress::V6(0, 0, 0, 0, 0, 0, 0, 0)
            || c.metrics_listener.ip == IpAddress::V6(0, 0, 0, 0, 0, 0, 0, 0),
    ensures
        config_error(c) == Some(GatewayConfigErrorView::ListenerCollision),
{
    lemma_authority_overlap(c.listener, c.metrics_listener);
}

/// An upstream on the listener's port is refused when the listener is an IPv4 wildcard and the
/// upstream an IPv4 address: it could resolve back to the gateway itself.
pub proof fn lemma_upstream_behind_wildcard_collides(listener: SocketAddress, metrics: SocketAddress, u: UpstreamConfig)
    requires
        listener.ip == IpAddress::V4(0, 0, 0, 0),
        u.address.ip is V4,
        u.address.port == listener.port,
    ensures
        separation_error(listener, metrics, u) == Some(GatewayConfigErrorView::UpstreamListenerCollision(trim(u.name@))),
{
    lemma_authority_overlap(listener, u.address);
}

/// A configuration that validates names exactly one valid upstream, keeps its traffic and
/// metrics listeners on distinct non-zero ports apart, never lets the upstream resolve back to
/// either listener, and carries positive body, in-flight and keepalive budgets.
pub proof fn lemma_valid_config_shape(c: GatewayConfig)
    requires
        config_error(c) is None,
    ensures
        c.upstreams@.len() == 1,
        c.listener.port != 0,
        c.metrics_listener.port != 0,
        !authorities_overlap(c.listener, c.metrics_listener),
        upstream_error(c.upstreams@[0]) is None,
        !authorities_overlap(c.listener, c.upstreams@[0].address),
        !authorities_overlap(c.metrics_listener, c.upstreams@[0].address),
        c.max_request_body_bytes > 0,
        c.max_in_flight_requests > 0,
        c.upstream_keepalive_pool_size > 0,
{
    let us = c.upstreams@;
    assert(us.drop_last() =~= Seq::<UpstreamConfig>::empty());
    assert(us.last() == us[0]);
}

} // verus!
