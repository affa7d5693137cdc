//! Transport-neutral edge-routing policy: which explicitly configured upstream identity a request
//! path selects.
//!
//! Routes are validated and ordered by strictly descending priority before any request is routed;
//! equal priorities fail closed instead of depending on container order.

use vstd::prelude::*;

use crate::text::{chars_eq, chars_of, is_blank, is_blank_str, starts_with_chars, trim};

verus! {

/// Supported path matching semantics for the shared edge-routing contract.
#[derive(Debug, Clone, PartialEq, Eq)]
pub enum RouteMatch {
    /// Match one request path exactly.
    Exact(String),
    /// Match any request path beginning with the configured prefix.
    PathPrefix(String),
}

impl RouteMatch {
    pub open spec fn spec_path(&self) -> Seq<char> {
        match self {
            RouteMatch::Exact(p) => p@,
            RouteMatch::PathPrefix(p) => p@,
        }
    }

    /// Whether a request path satisfies this matcher.
    pub open spec fn spec_matches(&self, request_path: Seq<char>) -> bool {
        match self {
            RouteMatch::Exact(p) => request_path == p@,
            RouteMatch::PathPrefix(p) => p@.is_prefix_of(request_path),
        }
    }

    /// The configured path of the matcher.
    pub fn path(&self) -> (r: &String)
        ensures
            r@ == self.spec_path(),
    {
        match self {
            RouteMatch::Exact(p) => p,
            RouteMatch::PathPrefix(p) => p,
        }
    }

    /// Whether `request_path` satisfies this matcher.
    pub fn matches(&self, request_path: &str) -> (r: bool)
        ensures
            r == self.spec_matches(request_path@),
    {
        let request = chars_of(request_path);
        match self {
            RouteMatch::Exact(p) => {
                let p = chars_of(p.as_str());
                chars_eq(&request, &p)
            },
            RouteMatch::PathPrefix(p) => {
                let p = chars_of(p.as_str());
                starts_with_chars(&request, &p)
            },
        }
    }
}

/// One deterministic edge route from a path matcher to an upstream identity.
#[derive(Debug, Clone, PartialEq, Eq)]
pub struct RouteRule {
    /// Stable operator-facing route identity.
    pub name: String,
    /// Explicit precedence. Larger values are evaluated first.
    pub priority: i32,
    /// Request-path matching contract.
    pub matcher: RouteMatch,
    /// Stable upstream identity selected when the route matches.
    pub upstream: String,
}

/// Fail-closed route-contract validation errors.
#[derive(Debug, Clone, PartialEq, Eq)]
pub enum RoutePolicyError {
    /// At least one route is required to activate a route table.
    NoRoutes,
    /// Route names are stable identifiers and cannot be empty.
    EmptyRouteName,
    /// Route names must be unique within one activated table.
    DuplicateRouteName {
        /// Duplicate route identifier.
        route_name: String,
    },
    /// Equal priorities are rejected because the gateway does not invent undocumented tie-breaks.
    DuplicatePriority {
        /// Ambiguous precedence value.
        priority: i32,
    },
    /// Edge paths must be absolute HTTP paths.
    InvalidPath {
        /// Route whose matcher path is invalid.
        route_name: String,
    },
    /// Upstream identities must be explicit and non-empty.
    EmptyUpstream {
        /// Route whose upstream identity is missing.
        route_name: String,
    },
}

/// [`RoutePolicyError`] with its text as character sequences.
pub enum RoutePolicyErrorView {
    NoRoutes,
    EmptyRouteName,
    DuplicateRouteName(Seq<char>),
    DuplicatePriority(i32),
    InvalidPath(Seq<char>),
    EmptyUpstream(Seq<char>),
}

impl View for RoutePolicyError {
    type V = RoutePolicyErrorView;

    open spec fn view(&self) -> RoutePolicyErrorView {
        match self {
            RoutePolicyError::NoRoutes => RoutePolicyErrorView::NoRoutes,
            RoutePolicyError::EmptyRouteName => RoutePolicyErrorView::EmptyRouteName,
            RoutePolicyError::DuplicateRouteName { route_name } => RoutePolicyErrorView::DuplicateRouteName(route_name@),
            RoutePolicyError::DuplicatePriority { priority } => RoutePolicyErrorView::DuplicatePriority(*priority),
            RoutePolicyError::InvalidPath { route_name } => RoutePolicyErrorView::InvalidPath(route_name@),
            RoutePolicyError::EmptyUpstream { route_name } => RoutePolicyErrorView::EmptyUpstream(route_name@),
        }
    }
}

/// The check that route `r` fails, given the routes validated before it.
pub open spec fn rule_error(prev: Seq<RouteRule>, r: RouteRule) -> Option<RoutePolicyErrorView> {
    let name = trim(r.name@);
    if name.len() == 0 {
        Some(RoutePolicyErrorView::EmptyRouteName)
    } else if exists|j: int| 0 <= j < prev.len() && trim(#[trigger] prev[j].name@) == name {
        Some(RoutePolicyErrorView::DuplicateRouteName(name))
    } else if exists|j: int| 0 <= j < prev.len() && #[trigger] prev[j].priority == r.priority {
        Some(RoutePolicyErrorView::DuplicatePriority(r.priority))
    } else if r.matcher.spec_path().len() == 0 || r.matcher.spec_path()[0] != '/' {
        Some(RoutePolicyErrorView::InvalidPath(name))
    } else if is_blank(r.upstream@) {
        Some(RoutePolicyErrorView::EmptyUpstream(name))
    } else {
        None
    }
}

/// The first failed check, validating routes in order.
pub open spec fn first_rule_error(routes: Seq<RouteRule>) -> Option<RoutePolicyErrorView>
    decreases routes.len(),
{
    if routes.len() == 0 {
        None
    } else {
        match first_rule_error(routes.drop_last()) {
            Some(e) => Some(e),
            None => rule_error(routes.drop_last(), routes.last()),
        }
    }
}

/// Strictly descending priorities.
pub open spec fn strictly_descending(routes: Seq<RouteRule>) -> bool {
    forall|i: int, j: int| 0 <= i < j < routes.len() ==> routes[i].priority > routes[j].priority
}

/// `a` and `b` hold the same routes.
pub open spec fn same_routes(a: Seq<RouteRule>, b: Seq<RouteRule>) -> bool {
    &&& a.len() == b.len()
    &&& forall|i: int| 0 <= i < a.len() ==> b.contains(#[trigger] a[i])
    &&& forall|i: int| 0 <= i < b.len() ==> a.contains(#[trigger] b[i])
}

/// Index of the first route in `routes` that matches `path`, or `routes.len()`.
pub open spec fn first_match(routes: Seq<RouteRule>, path: Seq<char>) -> int
    decreases routes.len(),
{
    if routes.len() == 0 {
        0
    } else if routes[0].matcher.spec_matches(path) {
        0
    } else {
        1 + first_match(routes.drop_first(), path)
    }
}

/// Validated, deterministic edge-routing table.
#[derive(Debug, Clone, PartialEq, Eq)]
pub struct RouteTable {
    routes: Vec<RouteRule>,
}

impl RouteTable {
    /// The routes in evaluation order.
    pub closed spec fn spec_routes(&self) -> Seq<RouteRule> {
        self.routes@
    }

    /// Routes in strictly descending priority, each one valid.
    pub open spec fn well_formed(&self) -> bool {
        &&& strictly_descending(self.spec_routes())
        &&& self.spec_routes().len() > 0
    }

    /// Validates and orders route rules before any request can be routed.
    ///
    /// Equal priorities fail closed. This avoids depending on container order or on
    /// proxy-specific secondary precedence rules that were not captured in the migration contract.
    pub fn try_new(routes: Vec<RouteRule>) -> (r: Result<Self, RoutePolicyError>)
        ensures
            routes@.len() == 0 ==> (r matches Err(e) && e@ == RoutePolicyErrorView::NoRoutes),
            routes@.len() > 0 ==> match first_rule_error(routes@) {
                Some(ev) => (r matches Err(e) && e@ == ev),
                None => (r matches Ok(t) && t.well_formed() && same_routes(t.spec_routes(), routes@)),
            },
    {
        if routes.len() == 0 {
            return Err(RoutePolicyError::NoRoutes);
        }
        let mut names: Vec<Vec<char>> = Vec::new();
        let mut priorities: Vec<i32> = Vec::new();
        let mut i: usize = 0;
        while i < routes.len()
            invariant
                i <= routes.len(),
                names@.len() == i,
                priorities@.len() == i,
                forall|j: int| 0 <= j < i ==> #[trigger] names@[j]@ == trim(routes@[j].name@),
                forall|j: int| 0 <= j < i ==> #[trigger] priorities@[j] == routes@[j].priority,
                first_rule_error(routes@.subrange(0, i as int)) is None,
            decreases routes.len() - i,
        {
            let route = &routes[i];
            let ghost prev = routes@.subrange(0, i as int);
            assert(routes@.subrange(0, i + 1).drop_last() =~= prev);
            assert(routes@.subrange(0, i + 1).last() == routes@[i as int]);
            let name_chars = chars_of(route.name.as_str());
            let (lo, hi) = crate::text::trim_bounds(&name_chars);
            let name = crate::net::sub_vec(&name_chars, lo, hi);
            if name.len() == 0 {
                proof {
                    lemma_first_error_at(routes@, i as int);
                }
                return Err(RoutePolicyError::EmptyRouteName);
            }
            let mut k: usize = 0;
            while k < i
                invariant
                    k <= i,
                    names@.len() == i,
                    i < routes@.len(),
                    prev == routes@.subrange(0, i as int),
                    first_rule_error(prev) is None,
                    name@ == trim(routes@[i as int].name@),
                    name@.len() > 0,
                    forall|j: int| 0 <= j < i ==> #[trigger] names@[j]@ == trim(routes@[j].name@),
                    forall|j: int| 0 <= j < k ==> trim(#[trigger] prev[j].name@) != name@,
                decreases i - k,
            {
                if chars_eq(&names[k], &name) {
                    assert(trim(prev[k as int].name@) == name@);
                    proof {
                    lemma_first_error_at(routes@, i as int);
                }
                return Err(RoutePolicyError::DuplicateRouteName { route_name: crate::text::string_from_chars(&name) });
                }
                k = k + 1;
            }
            let mut k: usize = 0;
            while k < i
                invariant
                    k <= i,
                    priorities@.len() == i,
                    i < routes@.len(),
                    prev == routes@.subrange(0, i as int),
                    *route == routes@[i as int],
                    first_rule_error(prev) is None,
                    name@ == trim(routes@[i as int].name@),
                    name@.len() > 0,
                    forall|j: int| 0 <= j < i ==> trim(#[trigger] prev[j].name@) != name@,
                    forall|j: int| 0 <= j < i ==> #[trigger] priorities@[j] == routes@[j].priority,
                    forall|j: int| 0 <= j < k ==> #[trigger] prev[j].priority != routes@[i as int].priority,
                decreases i - k,
            {
                if priorities[k] == route.priority {
                    assert(prev[k as int].priority == routes@[i as int].priority);
                    proof {
                    lemma_first_error_at(routes@, i as int);
                }
                return Err(RoutePolicyError::DuplicatePriority { priority: route.priority });
                }
                k = k + 1;
            }
            let path = chars_of(route.matcher.path().as_str());
            if path.len() == 0 || path[0] != '/' {
                proof {
                    lemma_first_error_at(routes@, i as int);
                }
                return Err(RoutePolicyError::InvalidPath { route_name: crate::text::string_from_chars(&name) });
            }
            if is_blank_str(route.upstream.as_str()) {
                proof {
                    lemma_first_error_at(routes@, i as int);
                }
                return Err(RoutePolicyError::EmptyUpstream { route_name: crate::text::string_from_chars(&name) });
            }
            assert(rule_error(prev, routes@[i as int]) is None);
            names.push(name);
            priorities.push(route.priority);
            i = i + 1;
        }
        assert(routes@.subrange(0, routes@.len() as int) =~= routes@);
        proof {
            lemma_distinct_priorities(routes@);
        }
        let sorted = sort_by_priority(routes);
        Ok(RouteTable { routes: sorted })
    }

    /// Selects the upstream identity for one request path using explicit descending priority:
    /// the upstream of the matching route with the highest priority, if any route matches.
    pub fn select_upstream(&self, request_path: &str) -> (r: Option<&String>)
        requires
            self.well_formed(),
        ensures
            r matches Some(u) ==> exists|i: int|
                0 <= i < self.spec_routes().len() && self.spec_routes()[i].matcher.spec_matches(request_path@)
                    && u@ == self.spec_routes()[i].upstream@ && forall|j: int|
                    0 <= j < self.spec_routes().len() && self.spec_routes()[j].matcher.spec_matches(request_path@)
                        ==> #[trigger] self.spec_routes()[j].priority <= self.spec_routes()[i].priority,
            r is None ==> forall|j: int|
                0 <= j < self.spec_routes().len() ==> !#[trigger] self.spec_routes()[j].matcher.spec_matches(request_path@),
    {
        let mut i: usize = 0;
        while i < self.routes.len()
            invariant
                i <= self.routes.len(),
                self.well_formed(),
                forall|j: int| 0 <= j < i ==> !#[trigger] self.routes@[j].matcher.spec_matches(request_path@),
            decreases self.routes.len() - i,
        {
            if self.routes[i].matcher.matches(request_path) {
                assert forall|j: int|
                    0 <= j < self.spec_routes().len() && self.spec_routes()[j].matcher.spec_matches(request_path@)
                        implies #[trigger] self.spec_routes()[j].priority <= self.spec_routes()[i as int].priority by {
                    if j < i {
                    } else if j > i {
                    }
                }
                return Some(&self.routes[i].upstream);
            }
            i = i + 1;
        }
        None
    }

    /// Number of routes.
    pub fn len(&self) -> (r: usize)
        ensures
            r == self.spec_routes().len(),
    {
        self.routes.len()
    }
}

/// The first failing route decides the outcome of the whole validation.
proof fn lemma_first_error_at(routes: Seq<RouteRule>, i: int)
    requires
        0 <= i < routes.len(),
        first_rule_error(routes.subrange(0, i)) is None,
        rule_error(routes.subrange(0, i), routes[i]) is Some,
    ensures
        first_rule_error(routes) == rule_error(routes.subrange(0, i), routes[i]),
    decreases routes.len() - i,
{
    if i == routes.len() - 1 {
        assert(routes.drop_last() =~= routes.subrange(0, i));
    } else {
        let shorter = routes.drop_last();
        assert(shorter.subrange(0, i) =~= routes.subrange(0, i));
        lemma_first_error_at(shorter, i);
    }
}

/// After successful validation, priorities are pairwise distinct.
proof fn lemma_distinct_priorities(routes: Seq<RouteRule>)
    requires
        first_rule_error(routes) is None,
    ensures
        forall|i: int, j: int| 0 <= i < j < routes.len() ==> routes[i].priority != routes[j].priority,
    decreases routes.len(),
{
    if routes.len() > 0 {
        let prev = routes.drop_last();
        lemma_distinct_priorities(prev);
        assert forall|i: int, j: int| 0 <= i < j < routes.len() implies routes[i].priority != routes[j].priority by {
            if j == routes.len() - 1 {
                assert(prev[i] == routes[i]);
                if routes[i].priority == routes[j].priority {
                    assert(exists|k: int| 0 <= k < prev.len() && #[trigger] prev[k].priority == routes.last().priority);
                }
            } else {
                assert(prev[i] == routes[i] && prev[j] == routes[j]);
            }
        }
    }
}

/// Orders routes with pairwise-distinct priorities by descending priority.
fn sort_by_priority(routes: Vec<RouteRule>) -> (r: Vec<RouteRule>)
    requires
        forall|i: int, j: int| 0 <= i < j < routes@.len() ==> routes@[i].priority != routes@[j].priority,
    ensures
        strictly_descending(r@),
        same_routes(r@, routes@),
{
    let ghost original = routes@;
    let mut rest = routes;
    let mut out: Vec<RouteRule> = Vec::new();
    while rest.len() > 0
        invariant
            out@.len() + rest@.len() == original.len(),
            strictly_descending(out@),
            forall|i: int, j: int| 0 <= i < out@.len() && 0 <= j < rest@.len() ==> out@[i].priority > rest@[j].priority,
            forall|i: int, j: int| 0 <= i < j < rest@.len() ==> rest@[i].priority != rest@[j].priority,
            forall|i: int| 0 <= i < out@.len() ==> original.contains(#[trigger] out@[i]),
            forall|i: int| 0 <= i < rest@.len() ==> original.contains(#[trigger] rest@[i]),
            forall|i: int| 0 <= i < original.len() ==> out@.contains(#[trigger] original[i]) || rest@.contains(original[i]),
        decreases rest@.len(),
    {
        let mut best: usize = 0;
        let mut k: usize = 1;
        while k < rest.len()
            invariant
                best < rest@.len(),
                1 <= k <= rest@.len(),
                forall|j: int| 0 <= j < k ==> rest@[j].priority <= rest@[best as int].priority,
            decreases rest@.len() - k,
        {
            if rest[k].priority > rest[best].priority {
                best = k;
            }
            k = k + 1;
        }
        let ghost old_rest = rest@;
        let ghost old_out = out@;
        let item = rest.remove(best);
        assert(old_rest[best as int] == item);
        out.push(item);
        assert forall|i: int| 0 <= i < original.len() implies out@.contains(#[trigger] original[i]) || rest@.contains(original[i]) by {
            if old_out.contains(original[i]) {
                let w = choose|w: int| 0 <= w < old_out.len() && old_out[w] == original[i];
                assert(out@[w] == original[i]);
            } else {
                let w = choose|w: int| 0 <= w < old_rest.len() && old_rest[w] == original[i];
                if w < best {
                    assert(rest@[w] == original[i]);
                } else if w > best {
                    assert(rest@[w - 1] == original[i]);
                } else {
                    assert(out@[old_out.len() as int] == original[i]);
                }
            }
        }
        assert forall|i: int| 0 <= i < rest@.len() implies original.contains(#[trigger] rest@[i]) by {
            if i < best {
                assert(rest@[i] == old_rest[i]);
            } else {
                assert(rest@[i] == old_rest[i + 1]);
            }
        }
        assert forall|i: int, j: int| 0 <= i < out@.len() && 0 <= j < rest@.len() implies out@[i].priority > rest@[j].priority by {
            let jj = if j < best { j } else { j + 1 };
            assert(rest@[j] == old_rest[jj]);
            if i == old_out.len() {
                assert(old_rest[jj].priority != old_rest[best as int].priority);
            }
        }
        assert forall|i: int, j: int| 0 <= i < j < rest@.len() implies rest@[i].priority != rest@[j].priority by {
            let ii = if i < best { i } else { i + 1 };
            let jj = if j < best { j } else { j + 1 };
            assert(rest@[i] == old_rest[ii]);
            assert(rest@[j] == old_rest[jj]);
        }
    }
    assert forall|i: int| 0 <= i < original.len() implies out@.contains(#[trigger] original[i]) by {
        assert(!rest@.contains(original[i]));
    }
    out
}

} // verus!
