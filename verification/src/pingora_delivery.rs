//! Upstream connection settings for validated edge contracts.
//!
//! This is the only place where an admitted upstream contract becomes connection settings for
//! the proxy transport: certificate and hostname verification stay on, HTTP/1.1 is the only
//! upstream protocol, HTTP/1 upgrades are refused, and every timeout comes from the contract.
//! Reading and parsing a configured trust bundle is the transport's part; its outcome is handed
//! in.

use vstd::prelude::*;

use crate::edge_contract::{upstream_error, GatewayConfigError, GatewayConfigErrorView, UpstreamConfig};

use crate::http_model::{count_named, values_of, HeaderList, ProxyError, ProxyErrorView};
use crate::net::SocketAddress;
use crate::protocol_transition_policy::{requests_http1_protocol_transition, transition_requested};

verus! {

/// Failures while turning an admitted edge contract into upstream connection settings.
#[derive(Debug, Clone, PartialEq, Eq)]
pub enum PeerBuildError {
    /// The transport-neutral upstream contract itself is invalid.
    InvalidConfiguration(GatewayConfigError),
    /// The configured trust bundle cannot be read before network authority is granted.
    ReadTrustBundle {
        /// Operator-selected absolute trust-bundle path.
        path: String,
        /// Operating-system error category, by its `Debug` name.
        kind: String,
    },
    /// The configured trust bundle is not a usable PEM certificate bundle.
    InvalidTrustBundle {
        /// Operator-selected absolute trust-bundle path.
        path: String,
        /// Diagnostic without certificate contents.
        reason: String,
    },
}

/// [`PeerBuildError`] with its text as character sequences.
pub enum PeerBuildErrorView {
    InvalidConfiguration(GatewayConfigErrorView),
    ReadTrustBundle(Seq<char>, Seq<char>),
    InvalidTrustBundle(Seq<char>, Seq<char>),
}

impl View for PeerBuildError {
    type V = PeerBuildErrorView;

    open spec fn view(&self) -> PeerBuildErrorView {
        match self {
            PeerBuildError::InvalidConfiguration(e) => PeerBuildErrorView::InvalidConfiguration(e@),
            PeerBuildError::ReadTrustBundle { path, kind } => PeerBuildErrorView::ReadTrustBundle(path@, kind@),
            PeerBuildError::InvalidTrustBundle { path, reason } => PeerBuildErrorView::InvalidTrustBundle(path@, reason@),
        }
    }
}

/// Connection settings for one upstream.
#[derive(Debug, Clone, PartialEq, Eq)]
pub struct PeerSettings {
    /// Upstream socket address.
    pub address: SocketAddress,
    /// Whether to speak TLS.
    pub tls: bool,
    /// TLS server name (empty for cleartext).
    pub sni: String,
    /// Whether the certificate chain is verified.
    pub verify_cert: bool,
    /// Whether the certificate must name the server.
    pub verify_hostname: bool,
    /// Whether HTTP/1.1 is the only protocol offered.
    pub http1_only: bool,
    /// Connection attempt budget, in milliseconds.
    pub connection_timeout_ms: u64,
    /// Total connection budget, in milliseconds.
    pub total_connection_timeout_ms: u64,
    /// Read budget, in milliseconds.
    pub read_timeout_ms: u64,
    /// Write budget, in milliseconds.
    pub write_timeout_ms: u64,
    /// Idle budget of a pooled connection, in milliseconds.
    pub idle_timeout_ms: u64,
    /// Whether HTTP/1 upgrade requests are refused at the peer.
    pub deny_upgrades: bool,
    /// Number of extra trust anchors loaded from the configured bundle; `None` keeps the
    /// platform roots only.
    pub trust_anchors: Option<usize>,
}

pub open spec fn no_certificates_reason() -> Seq<char> {
    "bundle contains no certificates"@
}

/// Accepts a parsed trust bundle only when it holds at least one certificate.
pub fn require_certificates<T>(path: &str, certificates: Vec<T>) -> (r: Result<Vec<T>, PeerBuildError>)
    ensures
        certificates@.len() == 0 ==> (r matches Err(e) && e@ == PeerBuildErrorView::InvalidTrustBundle(path@, no_certificates_reason())),
        certificates@.len() > 0 ==> r == Ok::<Vec<T>, PeerBuildError>(certificates),
{
    if certificates.len() == 0 {
        return Err(PeerBuildError::InvalidTrustBundle {
            path: path.to_owned(),
            reason: "bundle contains no certificates".to_owned(),
        });
    }
    Ok(certificates)
}

/// The settings an upstream's contract calls for, with `anchors` extra trust anchors.
pub open spec fn settings_for(u: UpstreamConfig, anchors: Option<usize>, s: PeerSettings) -> bool {
    &&& s.address == u.address
    &&& s.tls == u.tls
    &&& s.sni@ == (match u.sni {
        Some(n) => n@,
        None => Seq::<char>::empty(),
    })
    &&& s.verify_cert
    &&& s.verify_hostname
    &&& s.http1_only
    &&& s.connection_timeout_ms == u.timeouts.connection_ms
    &&& s.total_connection_timeout_ms == u.timeouts.total_connection_ms
    &&& s.read_timeout_ms == u.timeouts.read_ms
    &&& s.write_timeout_ms == u.timeouts.write_ms
    &&& s.idle_timeout_ms == u.timeouts.idle_ms
    &&& s.deny_upgrades
    &&& s.trust_anchors == anchors
}

/// Builds connection settings for an upstream whose contract was already validated.
/// `trust_bundle` is the outcome of loading the configured trust bundle (the number of
/// certificates it holds), present exactly when one is configured.
pub fn build_peer_from_validated(upstream: &UpstreamConfig, trust_bundle: Option<Result<usize, PeerBuildError>>) -> (r: Result<PeerSettings, PeerBuildError>)
    requires
        upstream.trust_bundle_file is Some <==> trust_bundle is Some,
    ensures
        match trust_bundle {
            Some(Err(e)) => r == Err::<PeerSettings, PeerBuildError>(e),
            Some(Ok(n)) => r matches Ok(s) && settings_for(*upstream, Some(n), s),
            None => r matches Ok(s) && settings_for(*upstream, None, s),
        },
{
    let anchors = match trust_bundle {
        Some(Err(e)) => return Err(e),
        Some(Ok(n)) => Some(n),
        None => None,
    };
    let sni = match &upstream.sni {
        Some(n) => n.clone(),
        None => String::new(),
    };
    Ok(PeerSettings {
        address: upstream.address,
        tls: upstream.tls,
        sni,
        verify_cert: true,
        verify_hostname: true,
        http1_only: true,
        connection_timeout_ms: upstream.timeouts.connection_ms,
        total_connection_timeout_ms: upstream.timeouts.total_connection_ms,
        read_timeout_ms: upstream.timeouts.read_ms,
        write_timeout_ms: upstream.timeouts.write_ms,
        idle_timeout_ms: upstream.timeouts.idle_ms,
        deny_upgrades: true,
        trust_anchors: anchors,
    })
}

/// Builds connection settings for one upstream, validating its contract again first so that a
/// directly constructed contract cannot bypass the fail-closed checks.
pub fn build_peer(upstream: &UpstreamConfig, trust_bundle: Option<Result<usize, PeerBuildError>>) -> (r: Result<PeerSettings, PeerBuildError>)
    requires
        upstream.trust_bundle_file is Some <==> trust_bundle is Some,
    ensures
        match upstream_error(*upstream) {
            Some(ev) => r matches Err(e) && e@ == PeerBuildErrorView::InvalidConfiguration(ev),
            None => match trust_bundle {
                Some(Err(e)) => r == Err::<PeerSettings, PeerBuildError>(e),
                Some(Ok(n)) => r matches Ok(s) && settings_for(*upstream, Some(n), s),
                None => r matches Ok(s) && settings_for(*upstream, None, s),
            },
        },
{
    match upstream.validate() {
        Err(e) => return Err(PeerBuildError::InvalidConfiguration(e)),
        Ok(()) => {},
    }
    build_peer_from_validated(upstream, trust_bundle)
}

/// Refuses, with status 501, a request that asks for an HTTP/1 protocol transition.
pub fn reject_uncharacterized_http1_protocol_transition(request: &HeaderList) -> (r: Result<(), ProxyError>)
    ensures
        transition_requested(count_named(request@, "upgrade"@) > 0, values_of(request@, "connection"@)) ==> (r matches Err(e)
            && e@ == ProxyErrorView::HttpStatus(501, "HTTP/1 protocol transition is not admitted by the current gateway contract"@)),
        !transition_requested(count_named(request@, "upgrade"@) > 0, values_of(request@, "connection"@)) ==> r is Ok,
{
    let values = request.values_named("connection");
    let upgrade = request.count("upgrade") > 0;
    if requests_http1_protocol_transition(upgrade, &values) {
        return Err(ProxyError::HttpStatus {
            status: 501,
            reason: "HTTP/1 protocol transition is not admitted by the current gateway contract".to_owned(),
        });
    }
    Ok(())
}

} // verus!
