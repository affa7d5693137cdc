//! Admin configuration for the characterized `pg-erd-cloud` edge migration.
//!
//! Only the already characterized route, response-policy and upstream-name contract is activated.
//! Operators supply concrete listener and upstream transport endpoints plus runtime budgets, but
//! cannot add routes, rename migration authorities, inject product authentication or widen
//! per-request network authority through configuration.

use vstd::prelude::*;

use crate::edge_contract::{copy_upstreams, upstream_error, GatewayConfigError, GatewayConfigErrorView, UpstreamConfig};
use crate::edge_routing::{first_rule_error, RouteMatch, RouteRule};
use crate::migration_delivery::{bindings_error, MigrationDeliveryError, MigrationDeliveryErrorView, MigrationDeliveryPlan};
use crate::migration_plan::MigrationPlanErrorView;
use crate::migration_proxy::{MigrationGatewayProxy, MigrationGatewayProxyError};
use crate::net::SocketAddress;
use crate::pingora_delivery::PeerBuildError;
use crate::runtime_isolation::{RuntimeIsolationConfigError, RuntimeIsolationLimits};
use crate::text::{chars_of, trim, trim_string};
use crate::http_policy::{first_header_error, header_rule_error, ResponseHeaderRule};
use crate::migration_plan::{first_unknown, names_error, trimmed_names, EdgeMigrationPlan, MigrationPlanError};
use crate::text::{is_blank, is_ws, lemma_trim_plain, lower_seq};

verus! {

/// A route with this name, priority, matcher kind (exact or prefix), path and upstream.
pub open spec fn pg_erd_route(r: RouteRule, name: Seq<char>, priority: i32, exact: bool, path: Seq<char>, upstream: Seq<char>) -> bool {
    &&& r.name@ == name
    &&& r.priority == priority
    &&& (r.matcher is Exact) == exact
    &&& r.matcher.spec_path() == path
    &&& r.upstream@ == upstream
}

/// The characterized route and response-header contract of the `pg-erd-cloud` migration:
/// upstreams `backend` and `frontend`; `/healthz` (exact, priority 110) and `/api` (prefix, 100) to
/// `backend`, everything else (prefix `/`, 1) to `frontend`; and four hardening response headers.
pub fn pg_erd_migration_plan() -> (r: Result<EdgeMigrationPlan, MigrationPlanError>)
    ensures
        r matches Ok(p) && p.well_formed() && p.spec_upstreams() == seq!["backend"@, "frontend"@]
            && p.spec_routes().spec_routes().len() == 3
            && pg_erd_route(p.spec_routes().spec_routes()[0], "healthz"@, 110, true, "/healthz"@, "backend"@)
            && pg_erd_route(p.spec_routes().spec_routes()[1], "api"@, 100, false, "/api"@, "backend"@)
            && pg_erd_route(p.spec_routes().spec_routes()[2], "frontend"@, 1, false, "/"@, "frontend"@)
            && p.spec_headers().spec_rules().len() == 4
            && p.spec_headers().spec_rules()[0].name@ == "X-Content-Type-Options"@
            && p.spec_headers().spec_rules()[0].value@ == "nosniff"@
            && p.spec_headers().spec_rules()[1].name@ == "X-Frame-Options"@
            && p.spec_headers().spec_rules()[1].value@ == "DENY"@
            && p.spec_headers().spec_rules()[2].name@ == "Referrer-Policy"@
            && p.spec_headers().spec_rules()[2].value@ == "no-referrer"@
            && p.spec_headers().spec_rules()[3].name@ == "Permissions-Policy"@
            && p.spec_headers().spec_rules()[3].value@ == "geolocation=(), microphone=(), camera=()"@,
{
    let names = vec!["backend".to_owned(), "frontend".to_owned()];
    let rules = vec![
        RouteRule {
            name: "healthz".to_owned(),
            priority: 110,
            matcher: RouteMatch::Exact("/healthz".to_owned()),
            upstream: "backend".to_owned(),
        },
        RouteRule {
            name: "api".to_owned(),
            priority: 100,
            matcher: RouteMatch::PathPrefix("/api".to_owned()),
            upstream: "backend".to_owned(),
        },
        RouteRule {
            name: "frontend".to_owned(),
            priority: 1,
            matcher: RouteMatch::PathPrefix("/".to_owned()),
            upstream: "frontend".to_owned(),
        },
    ];
    let headers = vec![
        ResponseHeaderRule { name: "X-Content-Type-Options".to_owned(), value: "nosniff".to_owned() },
        ResponseHeaderRule { name: "X-Frame-Options".to_owned(), value: "DENY".to_owned() },
        ResponseHeaderRule { name: "Referrer-Policy".to_owned(), value: "no-referrer".to_owned() },
        ResponseHeaderRule {
            name: "Permissions-Policy".to_owned(),
            value: "geolocation=(), microphone=(), camera=()".to_owned(),
        },
    ];
    proof {
        reveal_strlit("backend");
        reveal_strlit("frontend");
        reveal_strlit("healthz");
        reveal_strlit("api");
        reveal_strlit("/healthz");
        reveal_strlit("/api");
        reveal_strlit("/");
        reveal_strlit("X-Content-Type-Options");
        reveal_strlit("nosniff");
        reveal_strlit("X-Frame-Options");
        reveal_strlit("DENY");
        reveal_strlit("Referrer-Policy");
        reveal_strlit("no-referrer");
        reveal_strlit("Permissions-Policy");
        reveal_strlit("geolocation=(), microphone=(), camera=()");
    }
    proof {
        let ns = names@;
        let rs = rules@;
        let hs = headers@;
        lemma_trim_plain("backend"@);
        lemma_trim_plain("frontend"@);
        lemma_trim_plain("healthz"@);
        lemma_trim_plain("api"@);
        assert(ns.drop_last().drop_last() =~= Seq::<String>::empty());
        assert(names_error(ns.drop_last().drop_last()) is None);
        assert(ns.drop_last().last()@ == "backend"@);
        assert(names_error(ns.drop_last()) is None);
        assert(names_error(ns) is None);
        assert(rs.drop_last().drop_last().drop_last() =~= Seq::<RouteRule>::empty());
        assert(first_rule_error(rs.drop_last().drop_last().drop_last()) is None);
        assert(rs.drop_last().drop_last().last() == rs[0]);
        assert(rs[0].matcher.spec_path() == "/healthz"@);
        assert(!is_blank(rs[0].upstream@));
        assert(first_rule_error(rs.drop_last().drop_last()) is None);
        assert(first_rule_error(rs.drop_last()) is None);
        assert(first_rule_error(rs) is None);
        assert(trimmed_names(ns) =~= seq!["backend"@, "frontend"@]);
        let admitted = trimmed_names(ns);
        assert(admitted[0] == "backend"@ && admitted[1] == "frontend"@);
        assert(admitted.contains(rs[0].upstream@));
        assert(admitted.contains(rs[1].upstream@));
        assert(admitted.contains(rs[2].upstream@));
        assert(rs.drop_first().drop_first().drop_first() =~= Seq::<RouteRule>::empty());
        assert(first_unknown(rs.drop_first().drop_first().drop_first(), admitted) == 0);
        assert(rs.drop_first().drop_first()[0] == rs[2]);
        assert(first_unknown(rs.drop_first().drop_first(), admitted) == 1);
        assert(rs.drop_first()[0] == rs[1]);
        assert(first_unknown(rs.drop_first(), admitted) == 2);
        assert(first_unknown(rs, admitted) == 3);
        lemma_pg_erd_headers(hs);
        assert(pg_erd_route(rs[0], "healthz"@, 110, true, "/healthz"@, "backend"@));
        assert(pg_erd_route(rs[1], "api"@, 100, false, "/api"@, "backend"@));
        assert(pg_erd_route(rs[2], "frontend"@, 1, false, "/"@, "frontend"@));
    }
    EdgeMigrationPlan::try_new(names, rules, headers)
}

/// Version of the bounded `pg-erd-cloud` migration admin configuration.
pub const PG_ERD_MIGRATION_CONFIG_VERSION: u32 = 1;

/// Fail-closed admin configuration for the characterized `pg-erd-cloud` migration runtime.
#[derive(Debug)]
pub struct PgErdMigrationConfig {
    /// Version of the admin configuration contract.
    pub version: u32,
    /// Downstream traffic listener.
    pub listener: SocketAddress,
    /// Dedicated metrics listener.
    pub metrics_listener: SocketAddress,
    /// Request body budget, in bytes.
    pub max_request_body_bytes: u64,
    /// Concurrent non-health request budget.
    pub max_in_flight_requests: usize,
    /// Upstream keepalive pool budget.
    pub upstream_keepalive_pool_size: usize,
    /// Concrete transport bindings of the characterized upstream identities.
    pub upstreams: Vec<UpstreamConfig>,
}

/// Reasons the bounded migration admin configuration cannot obtain listener authority.
#[derive(Debug, Clone, PartialEq, Eq)]
pub enum PgErdMigrationConfigError {
    /// The document could not be decoded into the strict migration-admin contract.
    Parse(String),
    /// The configuration requests a migration-admin version this binary does not implement.
    UnsupportedVersion(u32),
    /// Traffic and metrics endpoints must never compete for the same socket address.
    ListenerCollision,
    /// A zero keepalive pool would silently change upstream connection-capacity behavior.
    InvalidUpstreamKeepalivePoolSize,
    /// The concrete authority set must be a complete bijection over the characterized plan.
    TransportAuthorityCountMismatch {
        /// Number of upstream identities admitted by the characterized migration plan.
        expected: usize,
        /// Number of concrete transport bindings supplied by the operator.
        actual: usize,
    },
    /// One characterized stable upstream identity cannot be configured twice.
    DuplicateTransportAuthority {
        /// Duplicate normalized upstream identity.
        upstream_name: String,
    },
    /// Operator configuration may bind only identities admitted by the characterized plan.
    UnknownTransportAuthority {
        /// Concrete upstream identity outside the characterized migration plan.
        upstream_name: String,
    },
    /// One supplied upstream violates the transport-neutral upstream contract.
    UpstreamConfiguration(GatewayConfigError),
    /// The fixed route/header migration plan itself failed validation.
    Plan(MigrationPlanError),
    /// Concrete transport authorities could not be bound.
    Delivery(MigrationDeliveryError),
    /// Runtime-isolation budgets are invalid.
    RuntimeIsolation(RuntimeIsolationConfigError),
    /// The validated delivery plan could not be composed into proxy callbacks.
    Proxy(MigrationGatewayProxyError),
}

/// [`PgErdMigrationConfigError`] with its text as character sequences.
pub enum PgErdMigrationConfigErrorView {
    Parse(Seq<char>),
    UnsupportedVersion(u32),
    ListenerCollision,
    InvalidUpstreamKeepalivePoolSize,
    TransportAuthorityCountMismatch(usize, usize),
    DuplicateTransportAuthority(Seq<char>),
    UnknownTransportAuthority(Seq<char>),
    UpstreamConfiguration(GatewayConfigErrorView),
    Plan(MigrationPlanErrorView),
    Delivery(MigrationDeliveryErrorView),
    RuntimeIsolation(RuntimeIsolationConfigError),
    Proxy(MigrationGatewayProxyError),
}

impl View for PgErdMigrationConfigError {
    type V = PgErdMigrationConfigErrorView;

    open spec fn view(&self) -> PgErdMigrationConfigErrorView {
        match self {
            PgErdMigrationConfigError::Parse(m) => PgErdMigrationConfigErrorView::Parse(m@),
            PgErdMigrationConfigError::UnsupportedVersion(v) => PgErdMigrationConfigErrorView::UnsupportedVersion(*v),
            PgErdMigrationConfigError::ListenerCollision => PgErdMigrationConfigErrorView::ListenerCollision,
            PgErdMigrationConfigError::InvalidUpstreamKeepalivePoolSize => PgErdMigrationConfigErrorView::InvalidUpstreamKeepalivePoolSize,
            PgErdMigrationConfigError::TransportAuthorityCountMismatch { expected, actual } => PgErdMigrationConfigErrorView::TransportAuthorityCountMismatch(*expected, *actual),
            PgErdMigrationConfigError::DuplicateTransportAuthority { upstream_name } => PgErdMigrationConfigErrorView::DuplicateTransportAuthority(upstream_name@),
            PgErdMigrationConfigError::UnknownTransportAuthority { upstream_name } => PgErdMigrationConfigErrorView::UnknownTransportAuthority(upstream_name@),
            PgErdMigrationConfigError::UpstreamConfiguration(e) => PgErdMigrationConfigErrorView::UpstreamConfiguration(e@),
            PgErdMigrationConfigError::Plan(e) => PgErdMigrationConfigErrorView::Plan(e@),
            PgErdMigrationConfigError::Delivery(e) => PgErdMigrationConfigErrorView::Delivery(e@),
            PgErdMigrationConfigError::RuntimeIsolation(e) => PgErdMigrationConfigErrorView::RuntimeIsolation(*e),
            PgErdMigrationConfigError::Proxy(e) => PgErdMigrationConfigErrorView::Proxy(*e),
        }
    }
}

/// The upstream identities the characterized plan admits.
pub open spec fn pg_erd_upstreams() -> Seq<Seq<char>> {
    seq!["backend"@, "frontend"@]
}

/// Why the upstream at `i` cannot bind a characterized identity, given those before it.
pub open spec fn authority_error(admitted: Seq<Seq<char>>, ups: Seq<UpstreamConfig>, i: int) -> Option<PgErdMigrationConfigErrorView> {
    let name = trim(ups[i].name@);
    if upstream_error(ups[i]) is Some {
        Some(PgErdMigrationConfigErrorView::UpstreamConfiguration(upstream_error(ups[i])->0))
    } else if exists|j: int| 0 <= j < i && trim(#[trigger] ups[j].name@) == name {
        Some(PgErdMigrationConfigErrorView::DuplicateTransportAuthority(name))
    } else if !admitted.contains(name) {
        Some(PgErdMigrationConfigErrorView::UnknownTransportAuthority(name))
    } else {
        None
    }
}

/// The first authority failure among the first `n` upstreams, in order.
pub open spec fn authorities_error(admitted: Seq<Seq<char>>, ups: Seq<UpstreamConfig>, n: nat) -> Option<PgErdMigrationConfigErrorView>
    decreases n,
{
    if n == 0 {
        None
    } else {
        match authorities_error(admitted, ups, (n - 1) as nat) {
            Some(e) => Some(e),
            None => authority_error(admitted, ups, n - 1),
        }
    }
}

/// The first failure of a configuration, in the order it is checked.
pub open spec fn pg_config_error(c: PgErdMigrationConfig) -> Option<PgErdMigrationConfigErrorView> {
    if c.version != PG_ERD_MIGRATION_CONFIG_VERSION {
        Some(PgErdMigrationConfigErrorView::UnsupportedVersion(c.version))
    } else if c.listener == c.metrics_listener {
        Some(PgErdMigrationConfigErrorView::ListenerCollision)
    } else if c.upstream_keepalive_pool_size == 0 {
        Some(PgErdMigrationConfigErrorView::InvalidUpstreamKeepalivePoolSize)
    } else if c.max_request_body_bytes == 0 {
        Some(PgErdMigrationConfigErrorView::RuntimeIsolation(RuntimeIsolationConfigError::ZeroMaxRequestBodyBytes))
    } else if c.max_in_flight_requests == 0 {
        Some(PgErdMigrationConfigErrorView::RuntimeIsolation(RuntimeIsolationConfigError::ZeroMaxInFlightRequests))
    } else if c.upstreams@.len() != pg_erd_upstreams().len() {
        Some(PgErdMigrationConfigErrorView::TransportAuthorityCountMismatch(pg_erd_upstreams().len() as usize, c.upstreams@.len() as usize))
    } else {
        authorities_error(pg_erd_upstreams(), c.upstreams@, c.upstreams@.len())
    }
}

impl PgErdMigrationConfig {
    /// Admits a decoded configuration once its authority and runtime invariants hold; nothing
    /// is activated and no trust bundle is read.
    pub fn accept(config: Self) -> (r: Result<Self, PgErdMigrationConfigError>)
        ensures
            match pg_config_error(config) {
                Some(ev) => r matches Err(e) && e@ == ev,
                None => r matches Ok(c) && c == config,
            },
    {
        config.validate()?;
        Ok(config)
    }

    /// Returns the downstream listener selected by the operator.
    pub fn listener(&self) -> (r: SocketAddress)
        ensures
            r == self.listener,
    {
        self.listener
    }

    /// Returns the dedicated low-cardinality metrics listener selected by the operator.
    pub fn metrics_listener(&self) -> (r: SocketAddress)
        ensures
            r == self.metrics_listener,
    {
        self.metrics_listener
    }

    /// Returns the validated upstream keepalive-pool budget.
    pub fn upstream_keepalive_pool_size(&self) -> (r: usize)
        ensures
            r == self.upstream_keepalive_pool_size,
    {
        self.upstream_keepalive_pool_size
    }

    /// Checks version, listener separation, keepalive and runtime budgets, and that the upstreams
    /// bind exactly the characterized identities.
    pub fn validate(&self) -> (r: Result<(), PgErdMigrationConfigError>)
        ensures
            match pg_config_error(*self) {
                Some(ev) => r matches Err(e) && e@ == ev,
                None => r is Ok,
            },
    {
        if self.version != PG_ERD_MIGRATION_CONFIG_VERSION {
            return Err(PgErdMigrationConfigError::UnsupportedVersion(self.version));
        }
        if self.listener == self.metrics_listener {
            return Err(PgErdMigrationConfigError::ListenerCollision);
        }
        if self.upstream_keepalive_pool_size == 0 {
            return Err(PgErdMigrationConfigError::InvalidUpstreamKeepalivePoolSize);
        }
        match RuntimeIsolationLimits::try_new(self.max_request_body_bytes, self.max_in_flight_requests) {
            Ok(_) => {},
            Err(e) => return Err(PgErdMigrationConfigError::RuntimeIsolation(e)),
        }
        let plan = match pg_erd_migration_plan() {
            Ok(p) => p,
            Err(e) => return Err(PgErdMigrationConfigError::Plan(e)),
        };
        self.validate_transport_authority(&plan)
    }

    /// Checks that the upstreams bind exactly the plan's admitted identities: as many as it
    /// admits, each valid, none twice, none unknown.
    pub fn validate_transport_authority(&self, plan: &EdgeMigrationPlan) -> (r: Result<(), PgErdMigrationConfigError>)
        ensures
            self.upstreams@.len() != plan.spec_upstreams().len() ==> (r matches Err(e)
                && e@ == PgErdMigrationConfigErrorView::TransportAuthorityCountMismatch(plan.spec_upstreams().len() as usize, self.upstreams@.len() as usize)),
            self.upstreams@.len() == plan.spec_upstreams().len() ==> match authorities_error(plan.spec_upstreams(), self.upstreams@, self.upstreams@.len()) {
                Some(ev) => r matches Err(e) && e@ == ev,
                None => r is Ok,
            },
    {
        let expected = plan.upstream_count();
        let actual = self.upstreams.len();
        if actual != expected {
            return Err(PgErdMigrationConfigError::TransportAuthorityCountMismatch { expected, actual });
        }
        let ghost ups = self.upstreams@;
        let ghost admitted = plan.spec_upstreams();
        let mut names: Vec<String> = Vec::new();
        let mut i: usize = 0;
        while i < self.upstreams.len()
            invariant
                ups == self.upstreams@,
                admitted == plan.spec_upstreams(),
                ups.len() == admitted.len(),
                i <= ups.len(),
                names@.len() == i,
                authorities_error(admitted, ups, i as nat) is None,
                forall|k: int| 0 <= k < i ==> (#[trigger] names@[k])@ == trim(ups[k].name@),
            decreases ups.len() - i,
        {
            let ghost nv = names@.map_values(|n: String| n@);
            assert(nv =~= Seq::new(i as nat, |k: int| trim(ups[k].name@)));
            match self.upstreams[i].validate() {
                Ok(()) => {},
                Err(e) => {
                    proof {
                        assert(authorities_error(admitted, ups, (i + 1) as nat) == authority_error(admitted, ups, i as int));
                        lemma_authorities_error_stays(admitted, ups, (i + 1) as nat, ups.len());
                    }
                    return Err(PgErdMigrationConfigError::UpstreamConfiguration(e));
                },
            }
            let upstream_name = trim_string(self.upstreams[i].name.as_str());
            let target = chars_of(upstream_name.as_str());
            if crate::migration_plan::contains_name(&names, &target) {
                proof {
                    let k = choose|k: int| 0 <= k < nv.len() && #[trigger] nv[k] == target@;
                    assert(trim(ups[k].name@) == trim(ups[i as int].name@));
                    assert(authorities_error(admitted, ups, (i + 1) as nat) == authority_error(admitted, ups, i as int));
                    lemma_authorities_error_stays(admitted, ups, (i + 1) as nat, ups.len());
                }
                return Err(PgErdMigrationConfigError::DuplicateTransportAuthority { upstream_name });
            }
            proof {
                assert(!exists|j: int| 0 <= j < i && trim(#[trigger] ups[j].name@) == trim(ups[i as int].name@)) by {
                    if exists|j: int| 0 <= j < i && trim(#[trigger] ups[j].name@) == trim(ups[i as int].name@) {
                        let j = choose|j: int| 0 <= j < i && trim(#[trigger] ups[j].name@) == trim(ups[i as int].name@);
                        assert(nv[j] == target@);
                    }
                }
                crate::text::lemma_trim_idempotent(ups[i as int].name@);
            }
            if !plan.contains_upstream(upstream_name.as_str()) {
                proof {
                    assert(authorities_error(admitted, ups, (i + 1) as nat) == authority_error(admitted, ups, i as int));
                    lemma_authorities_error_stays(admitted, ups, (i + 1) as nat, ups.len());
                }
                return Err(PgErdMigrationConfigError::UnknownTransportAuthority { upstream_name });
            }
            names.push(upstream_name);
            i = i + 1;
        }
        Ok(())
    }

    /// Binds the characterized plan to the configured upstreams. `trust_bundles` holds, for each
    /// upstream in order, the outcome of loading its configured trust bundle (present exactly
    /// when one is configured).
    pub fn build_delivery(&self, trust_bundles: Vec<Option<Result<usize, PeerBuildError>>>) -> (r: Result<MigrationDeliveryPlan, PgErdMigrationConfigError>)
        requires
            trust_bundles@.len() == self.upstreams@.len(),
            forall|i: int| 0 <= i < self.upstreams@.len() ==> ((#[trigger] self.upstreams@[i]).trust_bundle_file is Some <==> trust_bundles@[i] is Some),
        ensures
            self.upstreams@.len() != pg_erd_upstreams().len() ==> (r matches Err(e) && e@ == PgErdMigrationConfigErrorView::Delivery(
                MigrationDeliveryErrorView::UpstreamAuthorityCountMismatch(pg_erd_upstreams().len() as usize, self.upstreams@.len() as usize),
            )),
            self.upstreams@.len() == pg_erd_upstreams().len() ==> match bindings_error(pg_erd_upstreams(), self.upstreams@, trust_bundles@, self.upstreams@.len()) {
                Some(ev) => r matches Err(e) && e@ == PgErdMigrationConfigErrorView::Delivery(ev),
                None => r matches Ok(d) && d.well_formed() && d.spec_plan().spec_upstreams() == pg_erd_upstreams(),
            },
    {
        let plan = match pg_erd_migration_plan() {
            Ok(p) => p,
            Err(e) => return Err(PgErdMigrationConfigError::Plan(e)),
        };
        match MigrationDeliveryPlan::try_new(plan, copy_upstreams(&self.upstreams), trust_bundles) {
            Ok(d) => Ok(d),
            Err(e) => Err(PgErdMigrationConfigError::Delivery(e)),
        }
    }

    /// Builds the characterized multi-route proxy from the configured transport data and
    /// runtime budgets; see [`Self::build_delivery`] for `trust_bundles`.
    pub fn build_proxy(&self, trust_bundles: Vec<Option<Result<usize, PeerBuildError>>>) -> (r: Result<MigrationGatewayProxy, PgErdMigrationConfigError>)
        requires
            trust_bundles@.len() == self.upstreams@.len(),
            forall|i: int| 0 <= i < self.upstreams@.len() ==> ((#[trigger] self.upstreams@[i]).trust_bundle_file is Some <==> trust_bundles@[i] is Some),
        ensures
            self.upstreams@.len() != pg_erd_upstreams().len() ==> (r matches Err(e) && e@ == PgErdMigrationConfigErrorView::Delivery(
                MigrationDeliveryErrorView::UpstreamAuthorityCountMismatch(pg_erd_upstreams().len() as usize, self.upstreams@.len() as usize),
            )),
            self.upstreams@.len() == pg_erd_upstreams().len() ==> match bindings_error(pg_erd_upstreams(), self.upstreams@, trust_bundles@, self.upstreams@.len()) {
                Some(ev) => r matches Err(e) && e@ == PgErdMigrationConfigErrorView::Delivery(ev),
                None => if self.max_request_body_bytes == 0 {
                    r matches Err(e) && e@ == PgErdMigrationConfigErrorView::RuntimeIsolation(RuntimeIsolationConfigError::ZeroMaxRequestBodyBytes)
                } else if self.max_in_flight_requests == 0 {
                    r matches Err(e) && e@ == PgErdMigrationConfigErrorView::RuntimeIsolation(RuntimeIsolationConfigError::ZeroMaxInFlightRequests)
                } else {
                    r matches Ok(p) && p.well_formed() && p.spec_delivery().spec_plan().spec_upstreams() == pg_erd_upstreams()
                        && p.spec_limits().spec_max_request_body_bytes() == self.max_request_body_bytes
                        && p.spec_limits().spec_max_in_flight_requests() == self.max_in_flight_requests
                        && p.spec_budget().spec_in_flight() == 0
                },
            },
    {
        let delivery = self.build_delivery(trust_bundles)?;
        let limits = match RuntimeIsolationLimits::try_new(self.max_request_body_bytes, self.max_in_flight_requests) {
            Ok(l) => l,
            Err(e) => return Err(PgErdMigrationConfigError::RuntimeIsolation(e)),
        };
        match MigrationGatewayProxy::try_new(delivery, limits) {
            Ok(p) => Ok(p),
            Err(e) => Err(PgErdMigrationConfigError::Proxy(e)),
        }
    }
}

proof fn lemma_authorities_error_stays(admitted: Seq<Seq<char>>, ups: Seq<UpstreamConfig>, n: nat, m: nat)
    requires
        n <= m,
        authorities_error(admitted, ups, n) is Some,
    ensures
        authorities_error(admitted, ups, m) == authorities_error(admitted, ups, n),
    decreases m,
{
    if m > n {
        lemma_authorities_error_stays(admitted, ups, n, (m - 1) as nat);
    }
}

proof fn lemma_pg_erd_headers(hs: Seq<ResponseHeaderRule>)
    requires
        hs.len() == 4,
        hs[0].name@ == "X-Content-Type-Options"@,
        hs[0].value@ == "nosniff"@,
        hs[1].name@ == "X-Frame-Options"@,
        hs[1].value@ == "DENY"@,
        hs[2].name@ == "Referrer-Policy"@,
        hs[2].value@ == "no-referrer"@,
        hs[3].name@ == "Permissions-Policy"@,
        hs[3].value@ == "geolocation=(), microphone=(), camera=()"@,
    ensures
        first_header_error(hs) is None,
{
    reveal_strlit("X-Content-Type-Options");
    reveal_strlit("nosniff");
    reveal_strlit("X-Frame-Options");
    reveal_strlit("DENY");
    reveal_strlit("Referrer-Policy");
    reveal_strlit("no-referrer");
    reveal_strlit("Permissions-Policy");
    reveal_strlit("geolocation=(), microphone=(), camera=()");
    let h0 = hs.subrange(0, 0);
    let h1 = hs.subrange(0, 1);
    let h2 = hs.subrange(0, 2);
    let h3 = hs.subrange(0, 3);
    assert(h1.drop_last() =~= h0);
    assert(h2.drop_last() =~= h1);
    assert(h3.drop_last() =~= h2);
    assert(hs.drop_last() =~= h3);
    assert(first_header_error(h0) is None);
    assert(!is_blank(hs[0].value@)) by {
        assert(!is_ws(hs[0].value@[0]));
    }
    assert(!is_blank(hs[1].value@)) by {
        assert(!is_ws(hs[1].value@[0]));
    }
    assert(!is_blank(hs[2].value@)) by {
        assert(!is_ws(hs[2].value@[0]));
    }
    assert(!is_blank(hs[3].value@)) by {
        assert(!is_ws(hs[3].value@[0]));
    }
    assert(header_rule_error(h0, hs[0]) is None);
    assert(first_header_error(h1) is None);
    assert(lower_seq(hs[0].name@).len() != lower_seq(hs[1].name@).len());
    assert(header_rule_error(h1, hs[1]) is None);
    assert(first_header_error(h2) is None);
    assert(lower_seq(hs[1].name@)[0] != lower_seq(hs[2].name@)[0]);
    assert(header_rule_error(h2, hs[2]) is None);
    assert(first_header_error(h3) is None);
    assert(header_rule_error(h3, hs[3]) is None);
}

} // verus!
