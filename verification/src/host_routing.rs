//! Host-aware edge routing: validated route identities, resolved upstream targets and a
//! deterministic route table in which an exact host beats a host-agnostic route, a longer path
//! prefix beats a shorter one, and the route identity breaks the remaining ties.

use vstd::prelude::*;
use vstd::utf8::encode_utf8;

use crate::net::SocketAddress;
use crate::text::{chars_eq, chars_of, eq_ignore_case, eq_ignore_case_chars, is_alnum, is_alnum_char, starts_with_chars};

verus! {

/// Characters a route identity may hold.
pub open spec fn is_route_id_char(c: char) -> bool {
    is_alnum(c) || c == '-' || c == '_' || c == '.'
}

/// A route identity is 1 to 64 ASCII letters, digits, `-`, `_` or `.`.
pub open spec fn is_route_id(s: Seq<char>) -> bool {
    &&& 0 < s.len() <= 64
    &&& forall|i: int| 0 <= i < s.len() ==> is_route_id_char(#[trigger] s[i])
}

/// Stable identifier used for operator evidence and low-cardinality telemetry.
#[derive(Clone, Debug, PartialEq, Eq, Hash)]
pub struct RouteId(String);

impl View for RouteId {
    type V = Seq<char>;

    closed spec fn view(&self) -> Seq<char> {
        self.0@
    }
}

impl RouteId {
    /// Constructs a route identifier after validating its bounded format.
    pub fn new(value: String) -> (r: Result<Self, RoutingError>)
        ensures
            is_route_id(value@) ==> (r matches Ok(id) && id@ == value@),
            !is_route_id(value@) ==> (r matches Err(e) && e@ == RoutingErrorView::InvalidRouteId(value@)),
    {
        let chars = chars_of(value.as_str());
        let mut valid = chars.len() > 0 && chars.len() <= 64;
        let mut i: usize = 0;
        while i < chars.len()
            invariant
                i <= chars.len(),
                chars@ == value@,
                valid == (0 < chars@.len() <= 64 && forall|j: int| 0 <= j < i ==> is_route_id_char(#[trigger] chars@[j])),
            decreases chars.len() - i,
        {
            let c = chars[i];
            if !(is_alnum_char(c) || c == '-' || c == '_' || c == '.') {
                valid = false;
            }
            i = i + 1;
        }
        if !valid {
            return Err(RoutingError::InvalidRouteId(value));
        }
        Ok(RouteId(value))
    }

    /// An identical identifier.
    pub fn clone_id(&self) -> (r: RouteId)
        ensures
            r == *self,
    {
        RouteId(self.0.clone())
    }

    /// Returns the validated route identifier.
    pub fn as_str(&self) -> (r: &str)
        ensures
            r@ == self@,
    {
        self.0.as_str()
    }
}

/// Upstream protocol supported by the gateway.
#[derive(Clone, Copy, Debug, PartialEq, Eq, Structural)]
pub enum UpstreamScheme {
    /// Cleartext HTTP, normally for explicitly approved private networks.
    Http,
    /// HTTPS with certificate and hostname verification.
    Https,
}

/// A resolved, request-independent upstream target.
#[derive(Clone, Debug, PartialEq, Eq)]
pub struct UpstreamTarget {
    /// Network endpoint resolved and validated when configuration is loaded.
    pub socket: SocketAddress,
    /// Host used for `Host` and TLS hostname verification.
    pub host: String,
    /// `Host` header authority, including a non-default port when necessary.
    pub authority: String,
    /// Upstream protocol.
    pub scheme: UpstreamScheme,
}

/// One route of the table.
#[derive(Clone, Debug, PartialEq, Eq)]
pub struct Route {
    /// Stable route identity.
    pub id: RouteId,
    /// Optional exact downstream host match, normalized to lowercase.
    pub host: Option<String>,
    /// Path prefix; the longest prefix wins among eligible routes.
    pub path_prefix: String,
    /// Validated static upstream.
    pub upstream: UpstreamTarget,
}

/// Edge-routing invariant failure.
#[derive(Debug, PartialEq, Eq)]
pub enum RoutingError {
    /// Route identity was empty, too long, or contained unsafe characters.
    InvalidRouteId(String),
    /// Two routes claimed the same matcher and therefore had ambiguous ownership.
    DuplicateMatcher {
        /// Duplicate exact host, or none for host-agnostic routes.
        host: Option<String>,
        /// Duplicate path prefix.
        path_prefix: String,
    },
}

/// [`RoutingError`] with its text as character sequences.
pub enum RoutingErrorView {
    InvalidRouteId(Seq<char>),
    DuplicateMatcher(Option<Seq<char>>, Seq<char>),
}

/// The characters of an optional string.
pub open spec fn opt_view(o: Option<String>) -> Option<Seq<char>> {
    match o {
        Some(s) => Some(s@),
        None => None,
    }
}

impl View for RoutingError {
    type V = RoutingErrorView;

    open spec fn view(&self) -> RoutingErrorView {
        match self {
            RoutingError::InvalidRouteId(v) => RoutingErrorView::InvalidRouteId(v@),
            RoutingError::DuplicateMatcher { host, path_prefix } => RoutingErrorView::DuplicateMatcher(opt_view(*host), path_prefix@),
        }
    }
}

/// Strict lexicographic order of character sequences by code point (which, for UTF-8 text, is
/// the byte order that `str` comparison uses).
pub open spec fn lex_less(a: Seq<char>, b: Seq<char>) -> bool
    decreases a.len(),
{
    if a.len() == 0 {
        b.len() > 0
    } else if b.len() == 0 {
        false
    } else if a[0] != b[0] {
        (a[0] as u32) < (b[0] as u32)
    } else {
        lex_less(a.drop_first(), b.drop_first())
    }
}

/// Length in UTF-8 bytes of a route's path prefix.
pub open spec fn prefix_len(r: Route) -> nat {
    encode_utf8(r.path_prefix@).len()
}

/// Whether route `a` is tried before route `b`: an exact-host route before a host-agnostic one,
/// then the longer path prefix, then the smaller route identity.
pub open spec fn precedes(a: Route, b: Route) -> bool {
    if (a.host is Some) != (b.host is Some) {
        a.host is Some
    } else if prefix_len(a) != prefix_len(b) {
        prefix_len(a) > prefix_len(b)
    } else {
        lex_less(a.id@, b.id@)
    }
}

/// Two routes claim the same matcher.
pub open spec fn same_matcher(a: Route, b: Route) -> bool {
    opt_view(a.host) == opt_view(b.host) && a.path_prefix@ == b.path_prefix@
}

/// Index of the first route whose matcher is claimed again later, or the number of routes.
pub open spec fn first_duplicate(s: Seq<Route>) -> int
    decreases s.len(),
{
    if s.len() == 0 {
        0
    } else if exists|j: int| 0 < j < s.len() && same_matcher(s[0], #[trigger] s[j]) {
        0
    } else {
        1 + first_duplicate(s.drop_first())
    }
}

/// Where a stable insertion puts `x` into `t`: before the first element that `x` precedes.
pub open spec fn insert_pos(t: Seq<Route>, x: Route) -> int
    decreases t.len(),
{
    if t.len() == 0 {
        0
    } else if precedes(x, t[0]) {
        0
    } else {
        1 + insert_pos(t.drop_first(), x)
    }
}

/// The stable sort of `s` by [`precedes`]: each route is inserted, in declaration order, after
/// every route already placed that it does not precede.
pub open spec fn sort_routes(s: Seq<Route>) -> Seq<Route>
    decreases s.len(),
{
    if s.len() == 0 {
        s
    } else {
        let t = sort_routes(s.drop_last());
        t.insert(insert_pos(t, s.last()), s.last())
    }
}

/// No route of `s` is preceded by a later one.
pub open spec fn is_sorted(s: Seq<Route>) -> bool {
    forall|i: int, j: int| 0 <= i < j < s.len() ==> !precedes(#[trigger] s[j], #[trigger] s[i])
}

/// Whether a request for `host` and `path` may use route `r`.
pub open spec fn eligible(r: Route, host: Option<Seq<char>>, path: Seq<char>) -> bool {
    &&& match r.host {
        None => true,
        Some(required) => host matches Some(actual) && eq_ignore_case(actual, required@),
    }
    &&& r.path_prefix@.is_prefix_of(path)
}

/// Index of the first route eligible for the request, or the number of routes.
pub open spec fn first_eligible(s: Seq<Route>, host: Option<Seq<char>>, path: Seq<char>) -> int
    decreases s.len(),
{
    if s.len() == 0 {
        0
    } else if eligible(s[0], host, path) {
        0
    } else {
        1 + first_eligible(s.drop_first(), host, path)
    }
}

/// Deterministic route table aggregate.
#[derive(Clone, Debug)]
pub struct RouteTable {
    routes: Vec<Route>,
}

impl RouteTable {
    /// The routes in the order they are tried.
    pub closed spec fn spec_routes(&self) -> Seq<Route> {
        self.routes@
    }

    /// Routes are in precedence order and no two claim the same matcher.
    pub open spec fn well_formed(&self) -> bool {
        &&& is_sorted(self.spec_routes())
        &&& first_duplicate(self.spec_routes()) == self.spec_routes().len()
    }

    /// Builds a route table, rejecting duplicate matchers, and orders it by precedence.
    pub fn new(routes: Vec<Route>) -> (r: Result<Self, RoutingError>)
        ensures
            first_duplicate(routes@) < routes@.len() ==> (r matches Err(e) && e@ == RoutingErrorView::DuplicateMatcher(
                opt_view(routes@[first_duplicate(routes@)].host),
                routes@[first_duplicate(routes@)].path_prefix@,
            )),
            first_duplicate(routes@) >= routes@.len() ==> (r matches Ok(t) && t.spec_routes() == sort_routes(routes@)
                && t.well_formed()),
    {
        let d = first_duplicate_index(&routes);
        if d < routes.len() {
            let host = match &routes[d].host {
                Some(h) => Some(h.clone()),
                None => None,
            };
            return Err(RoutingError::DuplicateMatcher { host, path_prefix: routes[d].path_prefix.clone() });
        }
        let ghost input = routes@;
        let mut rest = routes;
        let mut sorted: Vec<Route> = Vec::new();
        let ghost mut taken: int = 0;
        while rest.len() > 0
            invariant
                0 <= taken <= input.len(),
                rest@ == input.subrange(taken, input.len() as int),
                sorted@ == sort_routes(input.subrange(0, taken)),
            decreases rest.len(),
        {
            let x = rest.remove(0);
            proof {
                assert(input.subrange(0, taken + 1).drop_last() =~= input.subrange(0, taken));
                assert(input.subrange(0, taken + 1).last() == x);
            }
            let pos = insert_position(&sorted, &x);
            proof {
                lemma_insert_pos(sorted@, x);
            }
            sorted.insert(pos, x);
            proof {
                taken = taken + 1;
                assert(rest@ =~= input.subrange(taken, input.len() as int));
            }
        }
        proof {
            assert(input.subrange(0, taken) =~= input);
            lemma_sort_sorted(input);
            lemma_sort_keeps_matchers(input);
        }
        Ok(RouteTable { routes: sorted })
    }

    /// Selects the first route, in precedence order, whose host and path prefix admit the request.
    pub fn find(&self, host: Option<&str>, path: &str) -> (r: Option<&Route>)
        ensures
            first_eligible(self.spec_routes(), opt_str_view(host), path@) < self.spec_routes().len()
                ==> r == Some(&self.spec_routes()[first_eligible(self.spec_routes(), opt_str_view(host), path@)]),
            first_eligible(self.spec_routes(), opt_str_view(host), path@) >= self.spec_routes().len() ==> r is None,
    {
        let host_chars: Option<Vec<char>> = match host {
            Some(h) => Some(chars_of(h)),
            None => None,
        };
        let path_chars = chars_of(path);
        let ghost s = self.routes@;
        let ghost hv = opt_str_view(host);
        let mut i: usize = 0;
        assert(s.subrange(0, s.len() as int) =~= s);
        while i < self.routes.len()
            invariant
                s == self.routes@,
                hv == opt_str_view(host),
                path_chars@ == path@,
                match host_chars { Some(h) => hv == Some(h@), None => hv is None },
                i <= s.len(),
                first_eligible(s, hv, path@) == i + first_eligible(s.subrange(i as int, s.len() as int), hv, path@),
            decreases s.len() - i,
        {
            let ghost tail = s.subrange(i as int, s.len() as int);
            assert(tail.drop_first() =~= s.subrange(i + 1, s.len() as int));
            assert(tail[0] == s[i as int]);
            let route = &self.routes[i];
            let host_ok = match &route.host {
                None => true,
                Some(required) => match &host_chars {
                    Some(actual) => {
                        let req = chars_of(required.as_str());
                        eq_ignore_case_chars(actual, &req)
                    },
                    None => false,
                },
            };
            if host_ok {
                let prefix = chars_of(route.path_prefix.as_str());
                if starts_with_chars(&path_chars, &prefix) {
                    return Some(route);
                }
            }
            i = i + 1;
        }
        None
    }

    /// Number of bounded routes loaded into the aggregate.
    pub fn len(&self) -> (r: usize)
        ensures
            r == self.spec_routes().len(),
    {
        self.routes.len()
    }

    /// Whether no routes are configured.
    pub fn is_empty(&self) -> (r: bool)
        ensures
            r == (self.spec_routes().len() == 0),
    {
        self.routes.len() == 0
    }
}

/// The characters of an optional string slice.
pub open spec fn opt_str_view(o: Option<&str>) -> Option<Seq<char>> {
    match o {
        Some(s) => Some(s@),
        None => None,
    }
}

/// No two routes of `s` claim the same matcher.
pub open spec fn distinct_matchers(s: Seq<Route>) -> bool {
    forall|i: int, j: int| 0 <= i < j < s.len() ==> !same_matcher(#[trigger] s[i], #[trigger] s[j])
}

fn opt_chars_eq(a: &Option<String>, b: &Option<String>) -> (r: bool)
    ensures
        r == (opt_view(*a) == opt_view(*b)),
{
    match (a, b) {
        (Some(x), Some(y)) => {
            let xc = chars_of(x.as_str());
            let yc = chars_of(y.as_str());
            chars_eq(&xc, &yc)
        },
        (None, None) => true,
        _ => false,
    }
}

fn same_matcher_exec(a: &Route, b: &Route) -> (r: bool)
    ensures
        r == same_matcher(*a, *b),
{
    if !opt_chars_eq(&a.host, &b.host) {
        return false;
    }
    let ap = chars_of(a.path_prefix.as_str());
    let bp = chars_of(b.path_prefix.as_str());
    chars_eq(&ap, &bp)
}

/// Index of the first route whose matcher is claimed again later, or the number of routes.
fn first_duplicate_index(routes: &Vec<Route>) -> (r: usize)
    ensures
        r == first_duplicate(routes@),
{
    let ghost s = routes@;
    let mut i: usize = 0;
    assert(s.subrange(0, s.len() as int) =~= s);
    while i < routes.len()
        invariant
            s == routes@,
            i <= s.len(),
            first_duplicate(s) == i + first_duplicate(s.subrange(i as int, s.len() as int)),
        decreases s.len() - i,
    {
        let ghost tail = s.subrange(i as int, s.len() as int);
        assert(tail.drop_first() =~= s.subrange(i + 1, s.len() as int));
        let mut j: usize = i + 1;
        while j < routes.len()
            invariant
                s == routes@,
                i < j <= s.len(),
                tail == s.subrange(i as int, s.len() as int),
                first_duplicate(s) == i + first_duplicate(tail),
                forall|k: int| i < k < j ==> !same_matcher(s[i as int], #[trigger] s[k]),
            decreases s.len() - j,
        {
            if same_matcher_exec(&routes[i], &routes[j]) {
                proof {
                    let d: int = j - i;
                    assert(tail[0] == s[i as int]);
                    assert(tail[d] == s[j as int]);
                    assert(0 < d < tail.len() && same_matcher(tail[0], tail[d]));
                }
                return i;
            }
            j = j + 1;
        }
        proof {
            assert(!exists|k: int| 0 < k < tail.len() && same_matcher(tail[0], #[trigger] tail[k])) by {
                if exists|k: int| 0 < k < tail.len() && same_matcher(tail[0], #[trigger] tail[k]) {
                    let k = choose|k: int| 0 < k < tail.len() && same_matcher(tail[0], #[trigger] tail[k]);
                    assert(tail[k] == s[i + k]);
                }
            }
        }
        i = i + 1;
    }
    i
}

/// Whether `a` comes before `b` in code-point lexicographic order.
fn lex_less_chars(a: &Vec<char>, b: &Vec<char>) -> (r: bool)
    ensures
        r == lex_less(a@, b@),
{
    let mut i: usize = 0;
    assert(a@.subrange(0, a@.len() as int) =~= a@);
    assert(b@.subrange(0, b@.len() as int) =~= b@);
    while i < a.len() && i < b.len()
        invariant
            i <= a.len(),
            i <= b.len(),
            lex_less(a@, b@) == lex_less(a@.subrange(i as int, a@.len() as int), b@.subrange(i as int, b@.len() as int)),
        decreases a.len() - i,
    {
        let ghost ta = a@.subrange(i as int, a@.len() as int);
        let ghost tb = b@.subrange(i as int, b@.len() as int);
        assert(ta[0] == a@[i as int] && tb[0] == b@[i as int]);
        if a[i] != b[i] {
            return (a[i] as u32) < (b[i] as u32);
        }
        assert(ta.drop_first() =~= a@.subrange(i + 1, a@.len() as int));
        assert(tb.drop_first() =~= b@.subrange(i + 1, b@.len() as int));
        i = i + 1;
    }
    i == a.len() && i < b.len()
}

fn precedes_exec(a: &Route, b: &Route) -> (r: bool)
    ensures
        r == precedes(*a, *b),
{
    let ah = a.host.is_some();
    let bh = b.host.is_some();
    if ah != bh {
        return ah;
    }
    let al = a.path_prefix.as_str().as_bytes().len();
    let bl = b.path_prefix.as_str().as_bytes().len();
    if al != bl {
        return al > bl;
    }
    let ai = chars_of(a.id.as_str());
    let bi = chars_of(b.id.as_str());
    lex_less_chars(&ai, &bi)
}

/// Where a stable insertion puts `x` into `sorted`.
fn insert_position(sorted: &Vec<Route>, x: &Route) -> (r: usize)
    ensures
        r == insert_pos(sorted@, *x),
{
    let ghost t = sorted@;
    let mut i: usize = 0;
    assert(t.subrange(0, t.len() as int) =~= t);
    while i < sorted.len()
        invariant
            t == sorted@,
            i <= t.len(),
            insert_pos(t, *x) == i + insert_pos(t.subrange(i as int, t.len() as int), *x),
        decreases t.len() - i,
    {
        let ghost tail = t.subrange(i as int, t.len() as int);
        assert(tail.drop_first() =~= t.subrange(i + 1, t.len() as int));
        assert(tail[0] == t[i as int]);
        if precedes_exec(x, &sorted[i]) {
            return i;
        }
        i = i + 1;
    }
    i
}

proof fn lemma_lex_irreflexive(a: Seq<char>)
    ensures
        !lex_less(a, a),
    decreases a.len(),
{
    if a.len() > 0 {
        lemma_lex_irreflexive(a.drop_first());
    }
}

proof fn lemma_lex_transitive(a: Seq<char>, b: Seq<char>, c: Seq<char>)
    requires
        lex_less(a, b),
        lex_less(b, c),
    ensures
        lex_less(a, c),
    decreases a.len(),
{
    if a.len() > 0 && b.len() > 0 && c.len() > 0 && a[0] == b[0] && b[0] == c[0] {
        lemma_lex_transitive(a.drop_first(), b.drop_first(), c.drop_first());
    }
}

/// Route precedence is a strict order.
pub proof fn lemma_precedes_strict(a: Route, b: Route, c: Route)
    ensures
        !precedes(a, a),
        precedes(a, b) && precedes(b, c) ==> precedes(a, c),
{
    lemma_lex_irreflexive(a.id@);
    if precedes(a, b) && precedes(b, c) && (a.host is Some) == (c.host is Some) && prefix_len(a) == prefix_len(c) {
        lemma_lex_transitive(a.id@, b.id@, c.id@);
    }
}

proof fn lemma_insert_pos(t: Seq<Route>, x: Route)
    ensures
        0 <= insert_pos(t, x) <= t.len(),
        forall|k: int| 0 <= k < insert_pos(t, x) ==> !precedes(x, #[trigger] t[k]),
        insert_pos(t, x) < t.len() ==> precedes(x, t[insert_pos(t, x)]),
    decreases t.len(),
{
    if t.len() > 0 && !precedes(x, t[0]) {
        let rest = t.drop_first();
        lemma_insert_pos(rest, x);
        assert forall|k: int| 0 <= k < insert_pos(t, x) implies !precedes(x, #[trigger] t[k]) by {
            if k > 0 {
                assert(t[k] == rest[k - 1]);
            }
        }
    }
}

/// The stable sort orders routes by precedence and keeps exactly the given routes.
pub proof fn lemma_sort_sorted(s: Seq<Route>)
    ensures
        is_sorted(sort_routes(s)),
        sort_routes(s).to_multiset() == s.to_multiset(),
        sort_routes(s).len() == s.len(),
    decreases s.len(),
{
    broadcast use vstd::seq_lib::to_multiset_insert, vstd::seq_lib::to_multiset_build;
    if s.len() > 0 {
        let t = sort_routes(s.drop_last());
        let x = s.last();
        lemma_sort_sorted(s.drop_last());
        lemma_insert_pos(t, x);
        let p = insert_pos(t, x);
        let u = t.insert(p, x);
        t.insert_ensures(p, x);
        assert(s.drop_last().push(x) =~= s);
        assert forall|i: int, j: int| 0 <= i < j < u.len() implies !precedes(#[trigger] u[j], #[trigger] u[i]) by {
            if j < p {
                assert(u[i] == t[i] && u[j] == t[j]);
            } else if j == p {
                assert(u[i] == t[i]);
            } else if i == p {
                assert(u[j] == t[j - 1]);
                lemma_precedes_strict(t[j - 1], x, t[p]);
                lemma_precedes_strict(t[p], x, t[p]);
                lemma_precedes_strict(x, t[p], x);
            } else if i < p {
                assert(u[i] == t[i] && u[j] == t[j - 1]);
            } else {
                assert(u[i] == t[i - 1] && u[j] == t[j - 1]);
            }
        }
    }
}

/// Sorting keeps routes with pairwise distinct matchers pairwise distinct.
proof fn lemma_sort_keeps_distinct(s: Seq<Route>)
    requires
        distinct_matchers(s),
    ensures
        distinct_matchers(sort_routes(s)),
    decreases s.len(),
{
    broadcast use vstd::seq_lib::to_multiset_contains;
    if s.len() > 0 {
        let prev = s.drop_last();
        let t = sort_routes(prev);
        let x = s.last();
        assert(distinct_matchers(prev)) by {
            assert forall|i: int, j: int| 0 <= i < j < prev.len() implies !same_matcher(#[trigger] prev[i], #[trigger] prev[j]) by {
                assert(prev[i] == s[i] && prev[j] == s[j]);
            }
        }
        lemma_sort_keeps_distinct(prev);
        lemma_sort_sorted(prev);
        lemma_insert_pos(t, x);
        let p = insert_pos(t, x);
        let u = t.insert(p, x);
        t.insert_ensures(p, x);
        assert forall|k: int| 0 <= k < t.len() implies !same_matcher(#[trigger] t[k], x) && !same_matcher(x, t[k]) by {
            assert(t.contains(t[k]));
            assert(t.to_multiset().count(t[k]) > 0);
            assert(prev.contains(t[k]));
            let i = choose|i: int| 0 <= i < prev.len() && prev[i] == t[k];
            assert(prev[i] == s[i]);
            assert(!same_matcher(s[i], s[s.len() - 1]));
        }
        assert forall|i: int, j: int| 0 <= i < j < u.len() implies !same_matcher(#[trigger] u[i], #[trigger] u[j]) by {
            if j < p {
                assert(u[i] == t[i] && u[j] == t[j]);
            } else if j == p {
                assert(u[i] == t[i]);
            } else if i == p {
                assert(u[j] == t[j - 1]);
            } else if i < p {
                assert(u[i] == t[i] && u[j] == t[j - 1]);
            } else {
                assert(u[i] == t[i - 1] && u[j] == t[j - 1]);
            }
        }
    }
}

/// The first duplicate is absent exactly when all matchers are distinct, and a reported duplicate
/// is claimed again later.
pub proof fn lemma_first_duplicate(s: Seq<Route>)
    ensures
        0 <= first_duplicate(s) <= s.len(),
        (first_duplicate(s) == s.len()) == distinct_matchers(s),
        first_duplicate(s) < s.len() ==> exists|j: int| first_duplicate(s) < j < s.len() && same_matcher(s[first_duplicate(s)], #[trigger] s[j]),
    decreases s.len(),
{
    if s.len() > 0 {
        let rest = s.drop_first();
        lemma_first_duplicate(rest);
        if exists|j: int| 0 < j < s.len() && same_matcher(s[0], #[trigger] s[j]) {
        } else {
            assert(distinct_matchers(s) == distinct_matchers(rest)) by {
                if distinct_matchers(rest) {
                    assert forall|i: int, j: int| 0 <= i < j < s.len() implies !same_matcher(#[trigger] s[i], #[trigger] s[j]) by {
                        if i > 0 {
                            assert(s[i] == rest[i - 1] && s[j] == rest[j - 1]);
                        }
                    }
                }
                if distinct_matchers(s) {
                    assert forall|i: int, j: int| 0 <= i < j < rest.len() implies !same_matcher(#[trigger] rest[i], #[trigger] rest[j]) by {
                        assert(s[i + 1] == rest[i] && s[j + 1] == rest[j]);
                    }
                }
            }
            if first_duplicate(rest) < rest.len() {
                let j = choose|j: int| first_duplicate(rest) < j < rest.len() && same_matcher(rest[first_duplicate(rest)], #[trigger] rest[j]);
                assert(rest[j] == s[j + 1]);
                assert(rest[first_duplicate(rest)] == s[first_duplicate(s)]);
            }
        }
    }
}

proof fn lemma_sort_keeps_matchers(s: Seq<Route>)
    requires
        first_duplicate(s) >= s.len(),
    ensures
        first_duplicate(sort_routes(s)) == sort_routes(s).len(),
{
    lemma_first_duplicate(s);
    lemma_sort_keeps_distinct(s);
    lemma_first_duplicate(sort_routes(s));
}

proof fn lemma_first_eligible(s: Seq<Route>, host: Option<Seq<char>>, path: Seq<char>)
    ensures
        0 <= first_eligible(s, host, path) <= s.len(),
        forall|j: int| 0 <= j < first_eligible(s, host, path) ==> !eligible(#[trigger] s[j], host, path),
        first_eligible(s, host, path) < s.len() ==> eligible(s[first_eligible(s, host, path)], host, path),
    decreases s.len(),
{
    if s.len() > 0 && !eligible(s[0], host, path) {
        let rest = s.drop_first();
        lemma_first_eligible(rest, host, path);
        assert forall|j: int| 0 <= j < first_eligible(s, host, path) implies !eligible(#[trigger] s[j], host, path) by {
            if j > 0 {
                assert(s[j] == rest[j - 1]);
            }
        }
    }
}

/// In a sequence sorted by precedence, the first eligible route is eligible and no eligible
/// route precedes it; when there is none, no route is eligible.
proof fn lemma_first_eligible_maximal(s: Seq<Route>, host: Option<Seq<char>>, path: Seq<char>)
    requires
        is_sorted(s),
    ensures
        0 <= first_eligible(s, host, path) <= s.len(),
        first_eligible(s, host, path) < s.len() ==> {
            let k = first_eligible(s, host, path);
            &&& eligible(s[k], host, path)
            &&& forall|j: int| 0 <= j < s.len() && eligible(#[trigger] s[j], host, path) ==> !precedes(s[j], s[k])
        },
        first_eligible(s, host, path) >= s.len() ==> forall|j: int| 0 <= j < s.len() ==> !eligible(#[trigger] s[j], host, path),
{
    lemma_first_eligible(s, host, path);
    let k = first_eligible(s, host, path);
    if k < s.len() {
        assert forall|j: int| 0 <= j < s.len() && eligible(#[trigger] s[j], host, path) implies !precedes(s[j], s[k]) by {
            if j == k {
                lemma_precedes_strict(s[k], s[k], s[k]);
            }
        }
    }
}

/// The route a table selects for a request admits that request, and no other route of the table
/// that admits it takes precedence: an exact-host route wins over a host-agnostic one, then the
/// longest path prefix wins. When nothing is selected, no route admits the request.
pub proof fn lemma_find_precedence(t: RouteTable, host: Option<Seq<char>>, path: Seq<char>)
    requires
        t.well_formed(),
    ensures
        first_eligible(t.spec_routes(), host, path) < t.spec_routes().len() ==> {
            let s = t.spec_routes();
            let k = first_eligible(s, host, path);
            &&& eligible(s[k], host, path)
            &&& forall|j: int| 0 <= j < s.len() && eligible(#[trigger] s[j], host, path) ==> !precedes(s[j], s[k])
        },
        first_eligible(t.spec_routes(), host, path) >= t.spec_routes().len() ==> forall|j: int|
            0 <= j < t.spec_routes().len() ==> !eligible(#[trigger] t.spec_routes()[j], host, path),
{
    lemma_first_eligible_maximal(t.spec_routes(), host, path);
}

/// Over the routes as declared: for a table built from `routes` (no matcher claimed twice), the
/// route `find` selects is one of the declared routes, admits the request, and no declared route
/// that admits the request precedes it: the selected route has an exact host if any admitting
/// route has one, then the longest path prefix, then the smallest identity. When nothing is
/// selected, no declared route admits the request.
pub proof fn lemma_find_over_declared(routes: Seq<Route>, host: Option<Seq<char>>, path: Seq<char>)
    requires
        first_duplicate(routes) >= routes.len(),
    ensures
        ({
            let s = sort_routes(routes);
            let k = first_eligible(s, host, path);
            k < s.len() ==> {
                &&& routes.contains(s[k])
                &&& eligible(s[k], host, path)
                &&& forall|j: int| 0 <= j < routes.len() && eligible(#[trigger] routes[j], host, path) ==> !precedes(routes[j], s[k])
            }
        }),
        first_eligible(sort_routes(routes), host, path) >= sort_routes(routes).len() ==> forall|j: int|
            0 <= j < routes.len() ==> !eligible(#[trigger] routes[j], host, path),
{
    broadcast use vstd::seq_lib::to_multiset_contains;
    let s = sort_routes(routes);
    lemma_sort_sorted(routes);
    lemma_first_eligible_maximal(s, host, path);
    let k = first_eligible(s, host, path);
    assert forall|j: int| 0 <= j < routes.len() implies s.contains(#[trigger] routes[j]) by {
        assert(routes.contains(routes[j]));
        assert(routes.to_multiset().count(routes[j]) > 0);
        assert(s.to_multiset().count(routes[j]) > 0);
    }
    if k < s.len() {
        assert(s.contains(s[k]));
        assert(s.to_multiset().count(s[k]) > 0);
        assert(routes.to_multiset().count(s[k]) > 0);
        assert forall|j: int| 0 <= j < routes.len() && eligible(#[trigger] routes[j], host, path) implies !precedes(routes[j], s[k]) by {
            assert(s.contains(routes[j]));
            let m = choose|m: int| 0 <= m < s.len() && s[m] == routes[j];
            assert(eligible(s[m], host, path));
        }
    } else {
        assert forall|j: int| 0 <= j < routes.len() implies !eligible(#[trigger] routes[j], host, path) by {
            assert(s.contains(routes[j]));
            let m = choose|m: int| 0 <= m < s.len() && s[m] == routes[j];
            assert(!eligible(s[m], host, path));
        }
    }
}

/// The selection does not depend on the order in which routes are declared: two declarations of
/// the same routes select the same route for a request, provided no two different routes that
/// admit it are tied in precedence (same host presence, prefix length and identity).
pub proof fn lemma_find_order_independent(a: Seq<Route>, b: Seq<Route>, host: Option<Seq<char>>, path: Seq<char>)
    requires
        first_duplicate(a) >= a.len(),
        first_duplicate(b) >= b.len(),
        a.to_multiset() == b.to_multiset(),
        forall|i: int, j: int| 0 <= i < a.len() && 0 <= j < a.len() && eligible(#[trigger] a[i], host, path)
            && eligible(#[trigger] a[j], host, path) && a[i] != a[j] ==> precedes(a[i], a[j]) || precedes(a[j], a[i]),
    ensures
        (first_eligible(sort_routes(a), host, path) < sort_routes(a).len()) == (first_eligible(sort_routes(b), host, path)
            < sort_routes(b).len()),
        first_eligible(sort_routes(a), host, path) < sort_routes(a).len() ==> sort_routes(a)[first_eligible(sort_routes(a), host, path)]
            == sort_routes(b)[first_eligible(sort_routes(b), host, path)],
{
    broadcast use vstd::seq_lib::to_multiset_contains;
    lemma_find_over_declared(a, host, path);
    lemma_find_over_declared(b, host, path);
    let sa = sort_routes(a);
    let sb = sort_routes(b);
    let ka = first_eligible(sa, host, path);
    let kb = first_eligible(sb, host, path);
    lemma_sort_sorted(a);
    lemma_sort_sorted(b);
    if ka < sa.len() {
        assert(a.to_multiset().count(sa[ka]) > 0);
        assert(b.to_multiset().count(sa[ka]) > 0);
        assert(b.contains(sa[ka]));
        let ja = choose|j: int| 0 <= j < b.len() && b[j] == sa[ka];
        assert(eligible(b[ja], host, path));
        assert(kb < sb.len());
    }
    if kb < sb.len() {
        assert(b.to_multiset().count(sb[kb]) > 0);
        assert(a.to_multiset().count(sb[kb]) > 0);
        assert(a.contains(sb[kb]));
        let jb = choose|j: int| 0 <= j < a.len() && a[j] == sb[kb];
        assert(eligible(a[jb], host, path));
        assert(ka < sa.len());
        assert(b.to_multiset().count(sa[ka]) > 0);
        assert(b.contains(sa[ka]));
        let ja = choose|j: int| 0 <= j < b.len() && b[j] == sa[ka];
        assert(a.contains(sa[ka]));
        let ia = choose|j: int| 0 <= j < a.len() && a[j] == sa[ka];
        assert(!precedes(a[jb], sa[ka]));
        assert(!precedes(b[ja], sb[kb]));
        if sa[ka] != sb[kb] {
            assert(precedes(a[ia], a[jb]) || precedes(a[jb], a[ia]));
        }
    }
}

} // verus!
