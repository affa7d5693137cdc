//! Transport binding for one already characterized edge migration.
//!
//! The stable upstream identities admitted by an [`EdgeMigrationPlan`] are bound to concrete,
//! prevalidated upstream connection settings. Nothing here discovers services or infers a
//! destination from request data: every activated peer comes from an explicit
//! [`UpstreamConfig`] whose stable name the plan already admits, and the bindings form a
//! bijection over the plan's admitted names.

use vstd::prelude::*;

use crate::edge_contract::{upstream_error, UpstreamConfig};
use crate::edge_routing::RouteRule;
use crate::http_policy::first_named;
use crate::migration_plan::{contains_name, plan_selects, EdgeMigrationPlan};
use crate::pingora_delivery::{build_peer, settings_for, PeerBuildError, PeerBuildErrorView, PeerSettings};
use crate::text::{chars_of, chars_eq, trim, trim_string};

verus! {

/// Fail-closed errors while binding a characterized migration to concrete transport authority.
#[derive(Debug, Clone, PartialEq, Eq)]
pub enum MigrationDeliveryError {
    /// Every characterized upstream requires exactly one explicit transport binding.
    UpstreamAuthorityCountMismatch {
        /// Number of upstream identities admitted by the migration plan.
        expected: usize,
        /// Number of concrete upstream configurations supplied for activation.
        actual: usize,
    },
    /// One stable upstream identity cannot resolve to multiple concrete network authorities.
    DuplicateConfiguredUpstream {
        /// Duplicate normalized upstream identity.
        upstream_name: String,
    },
    /// Delivery configuration may bind only upstream identities admitted by the migration plan.
    UnknownConfiguredUpstream {
        /// Concrete upstream identity not admitted by the characterized migration.
        upstream_name: String,
    },
    /// A concrete upstream failed validation or peer construction before activation.
    UpstreamActivation {
        /// Stable upstream identity whose transport authority could not be built.
        upstream_name: String,
        /// Fail-closed transport construction error.
        source: PeerBuildError,
    },
}

/// [`MigrationDeliveryError`] with its text as character sequences.
pub enum MigrationDeliveryErrorView {
    UpstreamAuthorityCountMismatch(usize, usize),
    DuplicateConfiguredUpstream(Seq<char>),
    UnknownConfiguredUpstream(Seq<char>),
    UpstreamActivation(Seq<char>, PeerBuildErrorView),
}

impl View for MigrationDeliveryError {
    type V = MigrationDeliveryErrorView;

    open spec fn view(&self) -> MigrationDeliveryErrorView {
        match self {
            MigrationDeliveryError::UpstreamAuthorityCountMismatch { expected, actual } => MigrationDeliveryErrorView::UpstreamAuthorityCountMismatch(*expected, *actual),
            MigrationDeliveryError::DuplicateConfiguredUpstream { upstream_name } => MigrationDeliveryErrorView::DuplicateConfiguredUpstream(upstream_name@),
            MigrationDeliveryError::UnknownConfiguredUpstream { upstream_name } => MigrationDeliveryErrorView::UnknownConfiguredUpstream(upstream_name@),
            MigrationDeliveryError::UpstreamActivation { upstream_name, source } => MigrationDeliveryErrorView::UpstreamActivation(upstream_name@, source@),
        }
    }
}

/// The extra trust anchors a trust-bundle outcome supplies.
pub open spec fn anchors_of(t: Option<Result<usize, PeerBuildError>>) -> Option<usize> {
    match t {
        Some(Ok(n)) => Some(n),
        _ => None,
    }
}

/// Why the upstream at `i` cannot be bound, given those before it.
pub open spec fn binding_error(
    admitted: Seq<Seq<char>>,
    ups: Seq<UpstreamConfig>,
    bundles: Seq<Option<Result<usize, PeerBuildError>>>,
    i: int,
) -> Option<MigrationDeliveryErrorView> {
    let name = trim(ups[i].name@);
    if exists|j: int| 0 <= j < i && trim(#[trigger] ups[j].name@) == name {
        Some(MigrationDeliveryErrorView::DuplicateConfiguredUpstream(name))
    } else if !admitted.contains(name) {
        Some(MigrationDeliveryErrorView::UnknownConfiguredUpstream(name))
    } else if upstream_error(ups[i]) is Some {
        Some(MigrationDeliveryErrorView::UpstreamActivation(name, PeerBuildErrorView::InvalidConfiguration(upstream_error(ups[i])->0)))
    } else {
        match bundles[i] {
            Some(Err(e)) => Some(MigrationDeliveryErrorView::UpstreamActivation(name, e@)),
            _ => None,
        }
    }
}

/// The first binding failure among the first `n` upstreams, in order.
pub open spec fn bindings_error(
    admitted: Seq<Seq<char>>,
    ups: Seq<UpstreamConfig>,
    bundles: Seq<Option<Result<usize, PeerBuildError>>>,
    n: nat,
) -> Option<MigrationDeliveryErrorView>
    decreases n,
{
    if n == 0 {
        None
    } else {
        match bindings_error(admitted, ups, bundles, (n - 1) as nat) {
            Some(e) => Some(e),
            None => binding_error(admitted, ups, bundles, n - 1),
        }
    }
}

/// One stable upstream identity and its connection settings.
#[derive(Debug, Clone, PartialEq, Eq)]
pub struct PeerBinding {
    /// Normalized upstream identity.
    pub name: String,
    /// Connection settings.
    pub settings: PeerSettings,
}

/// Characterized migration plan with complete, immutable upstream transport bindings.
#[derive(Debug)]
pub struct MigrationDeliveryPlan {
    plan: EdgeMigrationPlan,
    peers: Vec<PeerBinding>,
}

/// Names of the bindings.
pub open spec fn binding_names(peers: Seq<PeerBinding>) -> Seq<Seq<char>> {
    peers.map_values(|p: PeerBinding| p.name@)
}

impl MigrationDeliveryPlan {
    pub closed spec fn spec_plan(&self) -> EdgeMigrationPlan {
        self.plan
    }

    pub closed spec fn spec_peers(&self) -> Seq<PeerBinding> {
        self.peers@
    }

    /// The plan is well formed, and the bindings carry pairwise distinct names, each admitted by
    /// the plan, as many as the plan admits.
    pub open spec fn well_formed(&self) -> bool {
        &&& self.spec_plan().well_formed()
        &&& binding_names(self.spec_peers()).no_duplicates()
        &&& forall|i: int| 0 <= i < self.spec_peers().len() ==> self.spec_plan().spec_upstreams().contains(#[trigger] self.spec_peers()[i].name@)
        &&& self.spec_peers().len() == self.spec_plan().spec_upstreams().len()
    }

    /// Binds every admitted migration upstream identity to one explicit peer.
    ///
    /// The number of bindings must equal the plan's admitted authority count. Each configuration
    /// is normalized by its trimmed name, must be admitted by the plan, and goes through the
    /// ordinary fail-closed [`build_peer`] before it can become network authority. `trust_bundles`
    /// holds, for each upstream in order, the outcome of loading its configured trust bundle
    /// (present exactly when one is configured).
    pub fn try_new(
        plan: EdgeMigrationPlan,
        upstreams: Vec<UpstreamConfig>,
        trust_bundles: Vec<Option<Result<usize, PeerBuildError>>>,
    ) -> (r: Result<Self, MigrationDeliveryError>)
        requires
            plan.well_formed(),
            trust_bundles@.len() == upstreams@.len(),
            forall|i: int| 0 <= i < upstreams@.len() ==> ((#[trigger] upstreams@[i]).trust_bundle_file is Some <==> trust_bundles@[i] is Some),
        ensures
            upstreams@.len() != plan.spec_upstreams().len() ==> (r matches Err(e) && e@ == MigrationDeliveryErrorView::UpstreamAuthorityCountMismatch(
                plan.spec_upstreams().len() as usize,
                upstreams@.len() as usize,
            )),
            upstreams@.len() == plan.spec_upstreams().len() ==> match bindings_error(plan.spec_upstreams(), upstreams@, trust_bundles@, upstreams@.len()) {
                Some(ev) => r matches Err(e) && e@ == ev,
                None => r matches Ok(d) && d.well_formed() && d.spec_plan() == plan && d.spec_peers().len() == upstreams@.len()
                    && forall|i: int| 0 <= i < upstreams@.len() ==> {
                        &&& (#[trigger] d.spec_peers()[i]).name@ == trim(upstreams@[i].name@)
                        &&& settings_for(upstreams@[i], anchors_of(trust_bundles@[i]), d.spec_peers()[i].settings)
                    },
            },
    {
        let expected = plan.upstream_count();
        let actual = upstreams.len();
        if actual != expected {
            return Err(MigrationDeliveryError::UpstreamAuthorityCountMismatch { expected, actual });
        }
        let ghost ups = upstreams@;
        let ghost bundles = trust_bundles@;
        let ghost admitted = plan.spec_upstreams();
        let mut peers: Vec<PeerBinding> = Vec::new();
        let mut names: Vec<String> = Vec::new();
        let mut rest = trust_bundles;
        let mut i: usize = 0;
        assert(bundles.subrange(0, bundles.len() as int) =~= bundles);
        while i < upstreams.len()
            invariant
                ups == upstreams@,
                bundles == trust_bundles@,
                rest@ == bundles.subrange(i as int, bundles.len() as int),
                admitted == plan.spec_upstreams(),
                ups.len() == admitted.len(),
                bundles.len() == ups.len(),
                forall|k: int| 0 <= k < ups.len() ==> ((#[trigger] ups[k]).trust_bundle_file is Some <==> bundles[k] is Some),
                i <= ups.len(),
                peers@.len() == i,
                names@.len() == i,
                bindings_error(admitted, ups, bundles, i as nat) is None,
                forall|k: int| 0 <= k < i ==> (#[trigger] names@[k])@ == trim(ups[k].name@),
                forall|k: int| 0 <= k < i ==> {
                    &&& (#[trigger] peers@[k]).name@ == trim(ups[k].name@)
                    &&& settings_for(ups[k], anchors_of(bundles[k]), peers@[k].settings)
                },
            decreases ups.len() - i,
        {
            let upstream_name = trim_string(upstreams[i].name.as_str());
            let target = chars_of(upstream_name.as_str());
            let ghost nv = names@.map_values(|n: String| n@);
            assert(nv =~= Seq::new(i as nat, |k: int| trim(ups[k].name@)));
            if contains_name(&names, &target) {
                proof {
                    let k = choose|k: int| 0 <= k < nv.len() && #[trigger] nv[k] == target@;
                    assert(trim(ups[k].name@) == trim(ups[i as int].name@));
                    assert(binding_error(admitted, ups, bundles, i as int) is Some);
                    assert(bindings_error(admitted, ups, bundles, (i + 1) as nat) == binding_error(admitted, ups, bundles, i as int));
                    lemma_bindings_error_stays(admitted, ups, bundles, (i + 1) as nat, ups.len());
                }
                return Err(MigrationDeliveryError::DuplicateConfiguredUpstream { upstream_name });
            }
            proof {
                assert(!exists|j: int| 0 <= j < i && trim(#[trigger] ups[j].name@) == trim(ups[i as int].name@)) by {
                    if exists|j: int| 0 <= j < i && trim(#[trigger] ups[j].name@) == trim(ups[i as int].name@) {
                        let j = choose|j: int| 0 <= j < i && trim(#[trigger] ups[j].name@) == trim(ups[i as int].name@);
                        assert(nv[j] == target@);
                    }
                }
            }
            if !plan.contains_upstream(upstream_name.as_str()) {
                proof {
                    crate::text::lemma_trim_idempotent(ups[i as int].name@);
                    assert(bindings_error(admitted, ups, bundles, (i + 1) as nat) == binding_error(admitted, ups, bundles, i as int));
                    lemma_bindings_error_stays(admitted, ups, bundles, (i + 1) as nat, ups.len());
                }
                return Err(MigrationDeliveryError::UnknownConfiguredUpstream { upstream_name });
            }
            proof {
                crate::text::lemma_trim_idempotent(ups[i as int].name@);
            }
            let bundle = rest.remove(0);
            assert(bundle == bundles[i as int]);
            let settings = match build_peer(&upstreams[i], bundle) {
                Ok(s) => s,
                Err(source) => {
                    proof {
                        assert(bindings_error(admitted, ups, bundles, (i + 1) as nat) == binding_error(admitted, ups, bundles, i as int));
                        lemma_bindings_error_stays(admitted, ups, bundles, (i + 1) as nat, ups.len());
                    }
                    return Err(MigrationDeliveryError::UpstreamActivation { upstream_name, source });
                },
            };
            names.push(upstream_name.clone());
            peers.push(PeerBinding { name: upstream_name, settings });
            proof {
                assert(binding_error(admitted, ups, bundles, i as int) is None);
                assert(rest@ =~= bundles.subrange(i + 1, bundles.len() as int));
            }
            i = i + 1;
        }
        proof {
            lemma_bindings_distinct(admitted, ups, bundles);
            assert(binding_names(peers@) =~= Seq::new(ups.len(), |k: int| trim(ups[k].name@)));
        }
        Ok(MigrationDeliveryPlan { plan, peers })
    }

    /// Selects the characterized stable upstream identity for one request path.
    pub fn select_upstream_name(&self, request_path: &str) -> (r: Option<&String>)
        requires
            self.well_formed(),
        ensures
            plan_selects(self.spec_plan(), request_path@, match r {
                Some(u) => Some(u@),
                None => None,
            }),
    {
        self.plan.select_upstream(request_path)
    }

    /// The settings of the peer bound to the upstream identity the request path selects. A path
    /// that matches no characterized route gets none; no fallback destination is invented.
    pub fn build_upstream_peer(&self, request_path: &str) -> (r: Option<PeerSettings>)
        requires
            self.well_formed(),
        ensures
            plan_selects(self.spec_plan(), request_path@, None) ==> r is None,
            forall|u: Seq<char>| #[trigger] plan_selects(self.spec_plan(), request_path@, Some(u)) ==> (r matches Some(s)
                && exists|i: int| 0 <= i < self.spec_peers().len() && (#[trigger] self.spec_peers()[i]).name@ == u
                    && s == self.spec_peers()[i].settings),
    {
        let selected = match self.plan.select_upstream(request_path) {
            Some(u) => u,
            None => return None,
        };
        proof {
            lemma_bindings_cover_plan(*self, selected@);
        }
        let target = chars_of(selected.as_str());
        match find_peer(&self.peers, &target) {
            Some(i) => {
                proof {
                    assert forall|u: Seq<char>| #[trigger] plan_selects(self.spec_plan(), request_path@, Some(u)) implies u == selected@ by {
                        crate::migration_plan::lemma_plan_selects_unique(self.spec_plan(), request_path@, Some(u), Some(selected@));
                    }
                    if plan_selects(self.spec_plan(), request_path@, None) {
                        crate::migration_plan::lemma_plan_selects_unique(self.spec_plan(), request_path@, None, Some(selected@));
                    }
                }
                Some(copy_settings(&self.peers[i].settings))
            },
            None => None,
        }
    }

    /// Returns the characterized edge-owned response value for one HTTP field name.
    pub fn response_header_value(&self, name: &str) -> (r: Option<&String>)
        ensures
            first_named(self.spec_plan().spec_headers().spec_rules(), name@) < self.spec_plan().spec_headers().spec_rules().len()
                ==> (r matches Some(v) && v@ == self.spec_plan().spec_headers().spec_rules()[first_named(
                self.spec_plan().spec_headers().spec_rules(),
                name@,
            )].value@),
            first_named(self.spec_plan().spec_headers().spec_rules(), name@) >= self.spec_plan().spec_headers().spec_rules().len() ==> r is None,
    {
        self.plan.response_header_value(name)
    }

    /// Returns the number of concrete upstream transport authorities activated for this plan.
    pub fn upstream_count(&self) -> (r: usize)
        ensures
            r == self.spec_peers().len(),
    {
        self.peers.len()
    }

    /// The characterized plan.
    pub fn plan(&self) -> (r: &EdgeMigrationPlan)
        ensures
            *r == self.spec_plan(),
    {
        &self.plan
    }
}

/// Position of the binding named `target`.
fn find_peer(peers: &Vec<PeerBinding>, target: &Vec<char>) -> (r: Option<usize>)
    ensures
        r matches Some(i) ==> i < peers@.len() && peers@[i as int].name@ == target@,
        r is None ==> forall|k: int| 0 <= k < peers@.len() ==> (#[trigger] peers@[k]).name@ != target@,
{
    let mut i: usize = 0;
    while i < peers.len()
        invariant
            i <= peers.len(),
            forall|k: int| 0 <= k < i ==> (#[trigger] peers@[k]).name@ != target@,
        decreases peers.len() - i,
    {
        let name = chars_of(peers[i].name.as_str());
        if chars_eq(&name, target) {
            return Some(i);
        }
        i = i + 1;
    }
    None
}

/// Identical connection settings.
pub(crate) fn copy_settings(s: &PeerSettings) -> (r: PeerSettings)
    ensures
        r == *s,
{
    PeerSettings {
        address: s.address,
        tls: s.tls,
        sni: s.sni.clone(),
        verify_cert: s.verify_cert,
        verify_hostname: s.verify_hostname,
        http1_only: s.http1_only,
        connection_timeout_ms: s.connection_timeout_ms,
        total_connection_timeout_ms: s.total_connection_timeout_ms,
        read_timeout_ms: s.read_timeout_ms,
        write_timeout_ms: s.write_timeout_ms,
        idle_timeout_ms: s.idle_timeout_ms,
        deny_upgrades: s.deny_upgrades,
        trust_anchors: s.trust_anchors,
    }
}


proof fn lemma_bindings_error_stays(
    admitted: Seq<Seq<char>>,
    ups: Seq<UpstreamConfig>,
    bundles: Seq<Option<Result<usize, PeerBuildError>>>,
    n: nat,
    m: nat,
)
    requires
        n <= m,
        bindings_error(admitted, ups, bundles, n) is Some,
    ensures
        bindings_error(admitted, ups, bundles, m) == bindings_error(admitted, ups, bundles, n),
    decreases m,
{
    if m > n {
        lemma_bindings_error_stays(admitted, ups, bundles, n, (m - 1) as nat);
    }
}

proof fn lemma_bindings_prefix(
    admitted: Seq<Seq<char>>,
    ups: Seq<UpstreamConfig>,
    bundles: Seq<Option<Result<usize, PeerBuildError>>>,
    n: nat,
)
    requires
        n <= ups.len(),
        bindings_error(admitted, ups, bundles, n) is None,
    ensures
        forall|i: int, j: int| 0 <= i < j < n ==> trim(#[trigger] ups[i].name@) != trim(#[trigger] ups[j].name@),
        forall|i: int| 0 <= i < n ==> admitted.contains(trim(#[trigger] ups[i].name@)),
    decreases n,
{
    if n > 0 {
        lemma_bindings_prefix(admitted, ups, bundles, (n - 1) as nat);
        let last = n - 1;
        assert(binding_error(admitted, ups, bundles, last) is None);
        assert forall|i: int, j: int| 0 <= i < j < n implies trim(#[trigger] ups[i].name@) != trim(#[trigger] ups[j].name@) by {
            if j == last {
                if trim(ups[i].name@) == trim(ups[j].name@) {
                    assert(exists|k: int| 0 <= k < last && trim(#[trigger] ups[k].name@) == trim(ups[last].name@));
                }
            }
        }
    }
}

proof fn lemma_bindings_distinct(
    admitted: Seq<Seq<char>>,
    ups: Seq<UpstreamConfig>,
    bundles: Seq<Option<Result<usize, PeerBuildError>>>,
)
    requires
        bindings_error(admitted, ups, bundles, ups.len()) is None,
    ensures
        forall|i: int, j: int| 0 <= i < j < ups.len() ==> trim(#[trigger] ups[i].name@) != trim(#[trigger] ups[j].name@),
        forall|i: int| 0 <= i < ups.len() ==> admitted.contains(trim(#[trigger] ups[i].name@)),
{
    lemma_bindings_prefix(admitted, ups, bundles, ups.len());
}

/// Every upstream identity the plan admits is bound to exactly one peer: the bindings are a
/// bijection over the plan's admitted names.
pub proof fn lemma_bindings_cover_plan(d: MigrationDeliveryPlan, name: Seq<char>)
    requires
        d.well_formed(),
        d.spec_plan().spec_upstreams().contains(name),
    ensures
        exists|i: int| 0 <= i < d.spec_peers().len() && (#[trigger] d.spec_peers()[i]).name@ == name,
        forall|i: int, j: int| 0 <= i < d.spec_peers().len() && 0 <= j < d.spec_peers().len()
            && (#[trigger] d.spec_peers()[i]).name@ == name && (#[trigger] d.spec_peers()[j]).name@ == name ==> i == j,
{
    let bn = binding_names(d.spec_peers());
    let ad = d.spec_plan().spec_upstreams();
    assert(ad.no_duplicates());
    bn.unique_seq_to_set();
    ad.unique_seq_to_set();
    assert(bn.to_set().subset_of(ad.to_set())) by {
        assert forall|x: Seq<char>| bn.to_set().contains(x) implies ad.to_set().contains(x) by {
            let i = choose|i: int| 0 <= i < bn.len() && bn[i] == x;
            assert(ad.contains(d.spec_peers()[i].name@));
        }
    }
    vstd::set_lib::lemma_subset_equality(bn.to_set(), ad.to_set());
    assert(ad.to_set().contains(name));
    assert(bn.to_set().contains(name));
    let k = choose|i: int| 0 <= i < bn.len() && bn[i] == name;
    assert(d.spec_peers()[k].name@ == name);
    assert forall|i: int, j: int| 0 <= i < d.spec_peers().len() && 0 <= j < d.spec_peers().len()
        && (#[trigger] d.spec_peers()[i]).name@ == name && (#[trigger] d.spec_peers()[j]).name@ == name implies i == j by {
        assert(bn[i] == bn[j]);
    }
}

/// The matching route of highest priority among the first `n` routes, if any route matches.
proof fn lemma_best_match(routes: Seq<RouteRule>, path: Seq<char>, n: int) -> (r: Option<int>)
    requires
        0 <= n <= routes.len(),
    ensures
        r matches Some(i) ==> 0 <= i < n && routes[i].matcher.spec_matches(path)
            && forall|j: int| 0 <= j < n && routes[j].matcher.spec_matches(path) ==> #[trigger] routes[j].priority <= routes[i].priority,
        r is None ==> forall|j: int| 0 <= j < n ==> !#[trigger] routes[j].matcher.spec_matches(path),
    decreases n,
{
    if n == 0 {
        None
    } else {
        let prev = lemma_best_match(routes, path, n - 1);
        if routes[n - 1].matcher.spec_matches(path) {
            match prev {
                Some(i) => if routes[i].priority >= routes[n - 1].priority {
                    Some(i)
                } else {
                    Some(n - 1)
                },
                None => Some(n - 1),
            }
        } else {
            prev
        }
    }
}

/// A well-formed delivery plan follows its migration plan: for every request path the plan
/// selects exactly one outcome, and an outcome that names an upstream names one bound to exactly
/// one peer. With the contracts of [`MigrationDeliveryPlan::select_upstream_name`] and
/// [`MigrationDeliveryPlan::build_upstream_peer`], a peer is delivered exactly when the plan
/// selects an upstream, and it is the peer bound to that upstream.
pub proof fn lemma_delivery_follows_plan(d: MigrationDeliveryPlan, path: Seq<char>)
    requires
        d.well_formed(),
    ensures
        d.spec_peers().len() == d.spec_plan().spec_upstreams().len(),
        exists|o: Option<Seq<char>>| #[trigger] plan_selects(d.spec_plan(), path, o),
        forall|a: Option<Seq<char>>, b: Option<Seq<char>>|
            #[trigger] plan_selects(d.spec_plan(), path, a) && #[trigger] plan_selects(d.spec_plan(), path, b) ==> a == b,
        forall|u: Seq<char>| #[trigger] plan_selects(d.spec_plan(), path, Some(u)) ==> {
            &&& exists|i: int| 0 <= i < d.spec_peers().len() && (#[trigger] d.spec_peers()[i]).name@ == u
            &&& forall|i: int, j: int| 0 <= i < d.spec_peers().len() && 0 <= j < d.spec_peers().len()
                && (#[trigger] d.spec_peers()[i]).name@ == u && (#[trigger] d.spec_peers()[j]).name@ == u ==> i == j
        },
{
    let plan = d.spec_plan();
    let routes = plan.spec_routes().spec_routes();
    match lemma_best_match(routes, path, routes.len() as int) {
        Some(i) => {
            assert(plan.spec_upstreams().contains(routes[i].upstream@));
            assert(plan_selects(plan, path, Some(routes[i].upstream@)));
        },
        None => {
            assert(plan_selects(plan, path, None));
        },
    }
    assert forall|a: Option<Seq<char>>, b: Option<Seq<char>>|
        #[trigger] plan_selects(plan, path, a) && #[trigger] plan_selects(plan, path, b) implies a == b by {
        crate::migration_plan::lemma_plan_selects_unique(plan, path, a, b);
    }
    assert forall|u: Seq<char>| #[trigger] plan_selects(plan, path, Some(u)) implies {
        &&& exists|i: int| 0 <= i < d.spec_peers().len() && (#[trigger] d.spec_peers()[i]).name@ == u
        &&& forall|i: int, j: int| 0 <= i < d.spec_peers().len() && 0 <= j < d.spec_peers().len()
            && (#[trigger] d.spec_peers()[i]).name@ == u && (#[trigger] d.spec_peers()[j]).name@ == u ==> i == j
    } by {
        lemma_bindings_cover_plan(d, u);
    }
}

/// The law of a delivery plan built from `plan` and configured upstreams `ups` (what
/// [`MigrationDeliveryPlan::try_new`] returns on success): there are as many upstreams as the plan
/// admits, their trimmed names are pairwise distinct and each admitted, so they are exactly the
/// admitted set; and for every request path the plan selects one outcome, whose upstream (if
/// any) is bound to exactly one peer.
pub proof fn lemma_delivery_plan_built(d: MigrationDeliveryPlan, plan: EdgeMigrationPlan, ups: Seq<UpstreamConfig>, path: Seq<char>)
    requires
        d.well_formed(),
        d.spec_plan() == plan,
        d.spec_peers().len() == ups.len(),
        forall|i: int| 0 <= i < ups.len() ==> (#[trigger] d.spec_peers()[i]).name@ == trim(ups[i].name@),
    ensures
        ups.len() == plan.spec_upstreams().len(),
        forall|i: int, j: int| 0 <= i < j < ups.len() ==> trim(#[trigger] ups[i].name@) != trim(#[trigger] ups[j].name@),
        forall|i: int| 0 <= i < ups.len() ==> plan.spec_upstreams().contains(trim(#[trigger] ups[i].name@)),
        forall|u: Seq<char>| plan.spec_upstreams().contains(u) ==> exists|i: int| 0 <= i < ups.len() && trim(#[trigger] ups[i].name@) == u,
        exists|o: Option<Seq<char>>| #[trigger] plan_selects(plan, path, o),
        forall|a: Option<Seq<char>>, b: Option<Seq<char>>|
            #[trigger] plan_selects(plan, path, a) && #[trigger] plan_selects(plan, path, b) ==> a == b,
        forall|u: Seq<char>| #[trigger] plan_selects(plan, path, Some(u)) ==> exists|i: int|
            0 <= i < ups.len() && trim(#[trigger] ups[i].name@) == u,
{
    lemma_delivery_follows_plan(d, path);
    let bn = binding_names(d.spec_peers());
    assert forall|i: int, j: int| 0 <= i < j < ups.len() implies trim(#[trigger] ups[i].name@) != trim(#[trigger] ups[j].name@) by {
        assert(bn[i] == d.spec_peers()[i].name@);
        assert(bn[j] == d.spec_peers()[j].name@);
    }
    assert forall|i: int| 0 <= i < ups.len() implies plan.spec_upstreams().contains(trim(#[trigger] ups[i].name@)) by {
        assert(plan.spec_upstreams().contains(d.spec_peers()[i].name@));
    }
    assert forall|u: Seq<char>| plan.spec_upstreams().contains(u) implies exists|i: int| 0 <= i < ups.len() && trim(#[trigger] ups[i].name@) == u by {
        lemma_bindings_cover_plan(d, u);
        let i = choose|i: int| 0 <= i < d.spec_peers().len() && (#[trigger] d.spec_peers()[i]).name@ == u;
        assert(trim(ups[i].name@) == u);
    }
    assert forall|u: Seq<char>| #[trigger] plan_selects(plan, path, Some(u)) implies exists|i: int|
        0 <= i < ups.len() && trim(#[trigger] ups[i].name@) == u by {
        lemma_bindings_cover_plan(d, u);
        let i = choose|i: int| 0 <= i < d.spec_peers().len() && (#[trigger] d.spec_peers()[i]).name@ == u;
        assert(trim(ups[i].name@) == u);
    }
}

} // verus!
