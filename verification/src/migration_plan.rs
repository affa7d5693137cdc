//! Transport-neutral composition of one characterized edge migration: an explicit upstream
//! authority set, an edge-routing table whose every route selects an admitted upstream, and a
//! validated response-header policy.

use vstd::prelude::*;

use crate::edge_routing::{first_rule_error, same_routes, RoutePolicyError, RoutePolicyErrorView, RouteRule, RouteTable};
use crate::http_policy::{first_header_error, first_named, HeaderPolicyError, HeaderPolicyErrorView, ResponseHeaderPolicy, ResponseHeaderRule};
use crate::text::{chars_eq, chars_of, trim, trim_string};

verus! {

/// Fail-closed errors produced while composing one characterized edge migration plan.
#[derive(Debug, Clone, PartialEq, Eq)]
pub enum MigrationPlanError {
    /// At least one explicitly approved upstream identity is required.
    NoUpstreams,
    /// Upstream identities are stable names and cannot be empty after trimming whitespace.
    EmptyUpstreamName,
    /// The explicit upstream-authority set cannot contain the same normalized identity twice.
    DuplicateUpstreamName {
        /// Duplicate normalized upstream identity.
        upstream_name: String,
    },
    /// A characterized route may select only an upstream explicitly admitted by this plan.
    UnknownRouteUpstream {
        /// Stable route identity whose target is outside the admitted upstream set.
        route_name: String,
        /// Upstream identity referenced by the route but not admitted by the plan.
        upstream_name: String,
    },
    /// The composed edge-routing contract is invalid.
    RoutePolicy(RoutePolicyError),
    /// The composed HTTP response policy is invalid.
    HeaderPolicy(HeaderPolicyError),
}

/// [`MigrationPlanError`] with its text as character sequences.
pub enum MigrationPlanErrorView {
    NoUpstreams,
    EmptyUpstreamName,
    DuplicateUpstreamName(Seq<char>),
    UnknownRouteUpstream(Seq<char>, Seq<char>),
    RoutePolicy(RoutePolicyErrorView),
    HeaderPolicy(HeaderPolicyErrorView),
}

impl View for MigrationPlanError {
    type V = MigrationPlanErrorView;

    open spec fn view(&self) -> MigrationPlanErrorView {
        match self {
            MigrationPlanError::NoUpstreams => MigrationPlanErrorView::NoUpstreams,
            MigrationPlanError::EmptyUpstreamName => MigrationPlanErrorView::EmptyUpstreamName,
            MigrationPlanError::DuplicateUpstreamName { upstream_name } => MigrationPlanErrorView::DuplicateUpstreamName(upstream_name@),
            MigrationPlanError::UnknownRouteUpstream { route_name, upstream_name } => MigrationPlanErrorView::UnknownRouteUpstream(route_name@, upstream_name@),
            MigrationPlanError::RoutePolicy(e) => MigrationPlanErrorView::RoutePolicy(e@),
            MigrationPlanError::HeaderPolicy(e) => MigrationPlanErrorView::HeaderPolicy(e@),
        }
    }
}

/// The first failure among upstream names, checked in order.
pub open spec fn names_error(names: Seq<String>) -> Option<MigrationPlanErrorView>
    decreases names.len(),
{
    if names.len() == 0 {
        None
    } else {
        match names_error(names.drop_last()) {
            Some(e) => Some(e),
            None => {
                let n = trim(names.last()@);
                if n.len() == 0 {
                    Some(MigrationPlanErrorView::EmptyUpstreamName)
                } else if exists|j: int| 0 <= j < names.len() - 1 && trim(#[trigger] names[j]@) == n {
                    Some(MigrationPlanErrorView::DuplicateUpstreamName(n))
                } else {
                    None
                }
            },
        }
    }
}

/// The normalized (trimmed) upstream names.
pub open spec fn trimmed_names(names: Seq<String>) -> Seq<Seq<char>> {
    names.map_values(|n: String| trim(n@))
}

/// Index of the first rule whose upstream is not in `admitted`, or the number of rules.
pub open spec fn first_unknown(rules: Seq<RouteRule>, admitted: Seq<Seq<char>>) -> int
    decreases rules.len(),
{
    if rules.len() == 0 {
        0
    } else if !admitted.contains(rules[0].upstream@) {
        0
    } else {
        1 + first_unknown(rules.drop_first(), admitted)
    }
}

/// What composing a plan from these parts reports, if anything.
pub open spec fn plan_error(names: Seq<String>, rules: Seq<RouteRule>, headers: Seq<ResponseHeaderRule>) -> Option<MigrationPlanErrorView> {
    if names.len() == 0 {
        Some(MigrationPlanErrorView::NoUpstreams)
    } else if names_error(names) is Some {
        names_error(names)
    } else if rules.len() == 0 {
        Some(MigrationPlanErrorView::RoutePolicy(RoutePolicyErrorView::NoRoutes))
    } else if first_rule_error(rules) is Some {
        Some(MigrationPlanErrorView::RoutePolicy(first_rule_error(rules)->0))
    } else if first_unknown(rules, trimmed_names(names)) < rules.len() {
        let k = first_unknown(rules, trimmed_names(names));
        Some(MigrationPlanErrorView::UnknownRouteUpstream(trim(rules[k].name@), rules[k].upstream@))
    } else if headers.len() == 0 {
        Some(MigrationPlanErrorView::HeaderPolicy(HeaderPolicyErrorView::NoHeaders))
    } else if first_header_error(headers) is Some {
        Some(MigrationPlanErrorView::HeaderPolicy(first_header_error(headers)->0))
    } else {
        None
    }
}

/// Whether `selected` is what the plan selects for `path`: the upstream of the matching route
/// with the highest priority (an admitted upstream), or nothing when no route matches.
pub open spec fn plan_selects(plan: EdgeMigrationPlan, path: Seq<char>, selected: Option<Seq<char>>) -> bool {
    let routes = plan.spec_routes().spec_routes();
    match selected {
        Some(u) => plan.spec_upstreams().contains(u) && exists|i: int|
            0 <= i < routes.len() && routes[i].matcher.spec_matches(path) && u == routes[i].upstream@
                && forall|j: int| 0 <= j < routes.len() && routes[j].matcher.spec_matches(path)
                    ==> #[trigger] routes[j].priority <= routes[i].priority,
        None => forall|j: int| 0 <= j < routes.len() ==> !#[trigger] routes[j].matcher.spec_matches(path),
    }
}

/// A well-formed plan selects at most one outcome for a path.
pub proof fn lemma_plan_selects_unique(plan: EdgeMigrationPlan, path: Seq<char>, a: Option<Seq<char>>, b: Option<Seq<char>>)
    requires
        plan.well_formed(),
        plan_selects(plan, path, a),
        plan_selects(plan, path, b),
    ensures
        a == b,
{
    let routes = plan.spec_routes().spec_routes();
    match (a, b) {
        (Some(u), Some(v)) => {
            let i = choose|i: int| 0 <= i < routes.len() && routes[i].matcher.spec_matches(path) && u == routes[i].upstream@
                && forall|j: int| 0 <= j < routes.len() && routes[j].matcher.spec_matches(path)
                    ==> #[trigger] routes[j].priority <= routes[i].priority;
            let k = choose|k: int| 0 <= k < routes.len() && routes[k].matcher.spec_matches(path) && v == routes[k].upstream@
                && forall|j: int| 0 <= j < routes.len() && routes[j].matcher.spec_matches(path)
                    ==> #[trigger] routes[j].priority <= routes[k].priority;
            assert(routes[i].priority <= routes[k].priority);
            assert(routes[k].priority <= routes[i].priority);
        },
        (Some(u), None) => {
            let i = choose|i: int| 0 <= i < routes.len() && routes[i].matcher.spec_matches(path) && u == routes[i].upstream@
                && forall|j: int| 0 <= j < routes.len() && routes[j].matcher.spec_matches(path)
                    ==> #[trigger] routes[j].priority <= routes[i].priority;
        },
        (None, Some(v)) => {
            let k = choose|k: int| 0 <= k < routes.len() && routes[k].matcher.spec_matches(path) && v == routes[k].upstream@
                && forall|j: int| 0 <= j < routes.len() && routes[j].matcher.spec_matches(path)
                    ==> #[trigger] routes[j].priority <= routes[k].priority;
        },
        (None, None) => {},
    }
}

/// Validated transport-neutral contract for one legacy-edge migration candidate.
#[derive(Debug)]
pub struct EdgeMigrationPlan {
    upstreams: Vec<String>,
    routes: RouteTable,
    response_headers: ResponseHeaderPolicy,
}

impl EdgeMigrationPlan {
    /// The admitted, normalized upstream identities.
    pub closed spec fn spec_upstreams(&self) -> Seq<Seq<char>> {
        self.upstreams@.map_values(|n: String| n@)
    }

    /// The route table.
    pub closed spec fn spec_routes(&self) -> RouteTable {
        self.routes
    }

    /// The response-header policy.
    pub closed spec fn spec_headers(&self) -> ResponseHeaderPolicy {
        self.response_headers
    }

    /// Admitted names are pairwise distinct, the table is ordered, and every route selects an
    /// admitted upstream.
    pub open spec fn well_formed(&self) -> bool {
        &&& self.spec_routes().well_formed()
        &&& forall|i: int, j: int| 0 <= i < j < self.spec_upstreams().len() ==> self.spec_upstreams()[i] != self.spec_upstreams()[j]
        &&& forall|i: int| 0 <= i < self.spec_routes().spec_routes().len() ==> self.spec_upstreams().contains(#[trigger] self.spec_routes().spec_routes()[i].upstream@)
    }

    /// Composes explicit upstream authority, edge routing and HTTP policy before runtime wiring.
    ///
    /// Upstream identities are normalized by trimming surrounding whitespace and duplicates are
    /// rejected. Route targets must then match those normalized identities exactly.
    pub fn try_new(
        upstream_names: Vec<String>,
        route_rules: Vec<RouteRule>,
        response_header_rules: Vec<ResponseHeaderRule>,
    ) -> (r: Result<Self, MigrationPlanError>)
        ensures
            match plan_error(upstream_names@, route_rules@, response_header_rules@) {
                Some(ev) => (r matches Err(e) && e@ == ev),
                None => (r matches Ok(p) && p.well_formed()
                    && p.spec_upstreams() == trimmed_names(upstream_names@)
                    && same_routes(p.spec_routes().spec_routes(), route_rules@)
                    && p.spec_headers().spec_rules() == response_header_rules@),
            },
    {
        if upstream_names.len() == 0 {
            return Err(MigrationPlanError::NoUpstreams);
        }
        let ghost names = upstream_names@;
        let mut upstreams: Vec<String> = Vec::new();
        let mut i: usize = 0;
        while i < upstream_names.len()
            invariant
                names == upstream_names@,
                i <= names.len(),
                upstreams@.len() == i,
                forall|j: int| 0 <= j < i ==> #[trigger] upstreams@[j]@ == trim(names[j]@),
                names_error(names.subrange(0, i as int)) is None,
            decreases names.len() - i,
        {
            let ghost sub = names.subrange(0, i + 1);
            assert(sub.drop_last() =~= names.subrange(0, i as int));
            assert(sub.last() == names[i as int]);
            let normalized = trim_string(upstream_names[i].as_str());
            let normalized_chars = chars_of(normalized.as_str());
            if normalized_chars.len() == 0 {
                proof {
                    lemma_names_error_at(names, i as int);
                }
                return Err(MigrationPlanError::EmptyUpstreamName);
            }
            let mut k: usize = 0;
            while k < i
                invariant
                    names == upstream_names@,
                    k <= i < names.len(),
                    upstreams@.len() == i,
                    normalized@ == trim(names[i as int]@),
                    normalized_chars@ == normalized@,
                    sub == names.subrange(0, i + 1),
                    normalized@.len() > 0,
                    sub.drop_last() == names.subrange(0, i as int),
                    sub.last() == names[i as int],
                    names_error(names.subrange(0, i as int)) is None,
                    forall|j: int| 0 <= j < i ==> #[trigger] upstreams@[j]@ == trim(names[j]@),
                    forall|j: int| 0 <= j < k ==> trim(#[trigger] names[j]@) != normalized@,
                decreases i - k,
            {
                let existing = chars_of(upstreams[k].as_str());
                if chars_eq(&existing, &normalized_chars) {
                    proof {
                        assert(sub[k as int] == names[k as int]);
                        assert(trim(sub[k as int]@) == trim(sub.last()@));
                        assert(names_error(sub) == Some(MigrationPlanErrorView::DuplicateUpstreamName(normalized@)));
                        lemma_names_error_at(names, i as int);
                    }
                    return Err(MigrationPlanError::DuplicateUpstreamName { upstream_name: normalized });
                }
                k = k + 1;
            }
            proof {
                assert(!exists|j: int| 0 <= j < sub.len() - 1 && trim(#[trigger] sub[j]@) == trim(sub.last()@)) by {
                    if exists|j: int| 0 <= j < sub.len() - 1 && trim(#[trigger] sub[j]@) == trim(sub.last()@) {
                        let j = choose|j: int| 0 <= j < sub.len() - 1 && trim(#[trigger] sub[j]@) == trim(sub.last()@);
                        assert(sub[j] == names[j]);
                    }
                }
            }
            upstreams.push(normalized);
            i = i + 1;
        }
        assert(names.subrange(0, names.len() as int) =~= names);
        assert(upstreams@.map_values(|n: String| n@) =~= trimmed_names(names));
        let ghost admitted = trimmed_names(names);
        let ghost rules = route_rules@;
        let k = first_unknown_index(&upstreams, &route_rules);
        let unknown: Option<(String, String)> = if k < route_rules.len() {
            Some((trim_string(route_rules[k].name.as_str()), route_rules[k].upstream.clone()))
        } else {
            None
        };
        let routes = match RouteTable::try_new(route_rules) {
            Ok(t) => t,
            Err(e) => return Err(MigrationPlanError::RoutePolicy(e)),
        };
        if let Some((route_name, upstream_name)) = unknown {
            return Err(MigrationPlanError::UnknownRouteUpstream { route_name, upstream_name });
        }
        proof {
            assert forall|j: int| 0 <= j < rules.len() implies admitted.contains(#[trigger] rules[j].upstream@) by {
                lemma_first_unknown(rules, admitted, j);
            }
            assert forall|i: int| 0 <= i < routes.spec_routes().len() implies admitted.contains(#[trigger] routes.spec_routes()[i].upstream@) by {
                let w = choose|w: int| 0 <= w < rules.len() && rules[w] == routes.spec_routes()[i];
            }
            lemma_trimmed_distinct(names);
        }
        let response_headers = match ResponseHeaderPolicy::try_new(response_header_rules) {
            Ok(p) => p,
            Err(e) => return Err(MigrationPlanError::HeaderPolicy(e)),
        };
        Ok(EdgeMigrationPlan { upstreams, routes, response_headers })
    }

    /// Selects the characterized upstream identity for one request path.
    pub fn select_upstream(&self, request_path: &str) -> (r: Option<&String>)
        requires
            self.well_formed(),
        ensures
            plan_selects(*self, request_path@, match r {
                Some(u) => Some(u@),
                None => None,
            }),
    {
        let r = self.routes.select_upstream(request_path);
        proof {
            if let Some(u) = r {
                let i = choose|i: int|
                    0 <= i < self.spec_routes().spec_routes().len()
                        && self.spec_routes().spec_routes()[i].matcher.spec_matches(request_path@)
                        && u@ == self.spec_routes().spec_routes()[i].upstream@ && forall|j: int|
                        0 <= j < self.spec_routes().spec_routes().len()
                            && self.spec_routes().spec_routes()[j].matcher.spec_matches(request_path@)
                            ==> #[trigger] self.spec_routes().spec_routes()[j].priority
                            <= self.spec_routes().spec_routes()[i].priority;
                assert(self.spec_upstreams().contains(self.spec_routes().spec_routes()[i].upstream@));
            }
        }
        r
    }

    /// Returns the characterized edge-owned response value for one HTTP field name.
    pub fn response_header_value(&self, name: &str) -> (r: Option<&String>)
        ensures
            first_named(self.spec_headers().spec_rules(), name@) < self.spec_headers().spec_rules().len()
                ==> (r matches Some(v) && v@ == self.spec_headers().spec_rules()[first_named(
                self.spec_headers().spec_rules(),
                name@,
            )].value@),
            first_named(self.spec_headers().spec_rules(), name@) >= self.spec_headers().spec_rules().len() ==> r is None,
    {
        self.response_headers.value_for(name)
    }

    /// Returns every characterized edge-owned response-header mutation in declaration order.
    pub fn response_header_rules(&self) -> (r: &[ResponseHeaderRule])
        ensures
            r@ == self.spec_headers().spec_rules(),
    {
        self.response_headers.rules()
    }

    /// Returns the number of explicitly admitted upstream identities in this plan.
    pub fn upstream_count(&self) -> (r: usize)
        ensures
            r == self.spec_upstreams().len(),
    {
        self.upstreams.len()
    }

    /// Returns whether an upstream identity, once trimmed, is admitted by this migration plan.
    pub fn contains_upstream(&self, name: &str) -> (r: bool)
        ensures
            r == self.spec_upstreams().contains(trim(name@)),
    {
        let normalized = trim_string(name);
        let target = chars_of(normalized.as_str());
        contains_name(&self.upstreams, &target)
    }

    /// The admitted upstream identities.
    pub fn upstream_names(&self) -> (r: &Vec<String>)
        ensures
            r@.map_values(|n: String| n@) == self.spec_upstreams(),
    {
        &self.upstreams
    }
}

/// Index of the first rule whose upstream is not one of `names`, or the number of rules.
fn first_unknown_index(names: &Vec<String>, rules: &Vec<RouteRule>) -> (r: usize)
    ensures
        r == first_unknown(rules@, names@.map_values(|n: String| n@)),
{
    let ghost admitted = names@.map_values(|n: String| n@);
    let ghost all = rules@;
    let mut k: usize = 0;
    assert(all.subrange(0, all.len() as int) =~= all);
    while k < rules.len()
        invariant
            all == rules@,
            admitted == names@.map_values(|n: String| n@),
            k <= all.len(),
            first_unknown(all, admitted) == k + first_unknown(all.subrange(k as int, all.len() as int), admitted),
        decreases all.len() - k,
    {
        let ghost rest = all.subrange(k as int, all.len() as int);
        assert(rest.drop_first() =~= all.subrange(k + 1, all.len() as int));
        assert(rest[0] == all[k as int]);
        let target = chars_of(rules[k].upstream.as_str());
        if !contains_name(names, &target) {
            return k;
        }
        k = k + 1;
    }
    k
}

/// Whether `target` is one of `names`.
pub fn contains_name(names: &Vec<String>, target: &Vec<char>) -> (r: bool)
    ensures
        r == names@.map_values(|n: String| n@).contains(target@),
{
    let ghost views = names@.map_values(|n: String| n@);
    let mut i: usize = 0;
    while i < names.len()
        invariant
            i <= names.len(),
            views == names@.map_values(|n: String| n@),
            forall|j: int| 0 <= j < i ==> views[j] != target@,
        decreases names.len() - i,
    {
        let n = chars_of(names[i].as_str());
        if chars_eq(&n, target) {
            assert(views[i as int] == target@);
            return true;
        }
        i = i + 1;
    }
    false
}

proof fn lemma_names_error_at(names: Seq<String>, i: int)
    requires
        0 <= i < names.len(),
        names_error(names.subrange(0, i)) is None,
        names_error(names.subrange(0, i + 1)) is Some,
    ensures
        names_error(names) == names_error(names.subrange(0, i + 1)),
    decreases names.len() - i,
{
    if i == names.len() - 1 {
        assert(names.subrange(0, i + 1) =~= names);
    } else {
        let shorter = names.drop_last();
        assert(shorter.subrange(0, i) =~= names.subrange(0, i));
        assert(shorter.subrange(0, i + 1) =~= names.subrange(0, i + 1));
        lemma_names_error_at(shorter, i);
    }
}

proof fn lemma_first_unknown(rules: Seq<RouteRule>, admitted: Seq<Seq<char>>, j: int)
    requires
        0 <= j < rules.len(),
        first_unknown(rules, admitted) >= rules.len(),
    ensures
        admitted.contains(rules[j].upstream@),
    decreases rules.len(),
{
    if j > 0 {
        lemma_first_unknown(rules.drop_first(), admitted, j - 1);
    }
}

proof fn lemma_trimmed_distinct(names: Seq<String>)
    requires
        names_error(names) is None,
    ensures
        forall|i: int, j: int| 0 <= i < j < names.len() ==> trim(names[i]@) != trim(names[j]@),
    decreases names.len(),
{
    if names.len() > 0 {
        let prev = names.drop_last();
        lemma_trimmed_distinct(prev);
        assert forall|i: int, j: int| 0 <= i < j < names.len() implies trim(names[i]@) != trim(names[j]@) by {
            assert(prev.len() == names.len() - 1);
            if j == names.len() - 1 {
                assert(names[i] == prev[i]);
            } else {
                assert(names[i] == prev[i] && names[j] == prev[j]);
            }
        }
    }
}

} // verus!
