//! Transport-derived forwarding metadata for trusted edge-to-upstream requests.
//!
//! Request-controlled forwarding identity is never authority: the whole `X-Forwarded-*`
//! namespace, `Forwarded` and `X-Real-IP` are removed before the characterized subset is rebuilt
//! from the accepted client address and the original request authority.

use vstd::prelude::*;
use vstd::utf8::{encode_utf8, is_ascii_chars, is_ascii_chars_encode_utf8};

use crate::http_model::{first_value, is_value_text, value_text, visible_text, without_name, FieldView, HeaderList};
use crate::net::{hex, ip_text, ip_to_string, ipv4_text, is_ipv6_literal, is_ipv6_literal_chars, join_hex, segments, sub_vec, longest_zero_run, IpAddress};
use crate::text::{all_digits, chars_of, dec, dec_string, dec_value, eq_ignore_case, is_alnum, is_alnum_char, is_digit, is_digit_char, is_hex, is_hex_char, lower, parse_u16};

verus! {

/// Scheme observed on the accepted downstream connection.
#[derive(Debug, Clone, Copy, PartialEq, Eq, Structural)]
pub enum DownstreamScheme {
    /// Clear-text HTTP transport.
    Http,
    /// TLS-terminated HTTPS transport.
    Https,
}

impl DownstreamScheme {
    /// The forwarding-protocol token.
    pub open spec fn token(self) -> Seq<char> {
        match self {
            DownstreamScheme::Http => seq!['h', 't', 't', 'p'],
            DownstreamScheme::Https => seq!['h', 't', 't', 'p', 's'],
        }
    }

    /// The well-known port of the scheme.
    pub open spec fn spec_default_port(self) -> u16 {
        match self {
            DownstreamScheme::Http => 80,
            DownstreamScheme::Https => 443,
        }
    }

    /// Returns the forwarding-protocol token derived from the accepted downstream transport.
    pub fn as_str(self) -> (r: &'static str)
        ensures
            r@ == self.token(),
    {
        match self {
            DownstreamScheme::Http => {
                let r = "http";
                proof {
                    reveal_strlit("http");
                }
                assert(r@ =~= self.token());
                r
            },
            DownstreamScheme::Https => {
                let r = "https";
                proof {
                    reveal_strlit("https");
                }
                assert(r@ =~= self.token());
                r
            },
        }
    }

    /// Returns the external default port used only when Host omits an explicit port.
    pub fn default_port(self) -> (r: u16)
        ensures
            r == self.spec_default_port(),
    {
        match self {
            DownstreamScheme::Http => 80,
            DownstreamScheme::Https => 443,
        }
    }
}

/// Why forwarding metadata could not be derived or emitted.
#[derive(Debug, Clone, Copy, PartialEq, Eq, Structural)]
pub enum ForwardingRejection {
    /// The accepted downstream connection has no IP client address.
    MissingClientAddress,
    /// The original request authority is absent or malformed.
    InvalidHostAuthority,
    /// A derived value cannot be represented as an HTTP field value.
    InvalidHeaderValue,
}

impl ForwardingRejection {
    /// HTTP status answered for this rejection.
    pub fn status(self) -> (r: u16)
        ensures
            r == (match self {
                ForwardingRejection::InvalidHostAuthority => 400u16,
                _ => 500u16,
            }),
    {
        match self {
            ForwardingRejection::InvalidHostAuthority => 400,
            _ => 500,
        }
    }
}

// ---------------------------------------------------------------------------------------------
// RFC 3986 authority syntax
// ---------------------------------------------------------------------------------------------

/// RFC 3986 `unreserved`.
pub open spec fn is_unreserved_char(c: char) -> bool {
    is_alnum(c) || c == '-' || c == '.' || c == '_' || c == '~'
}

/// RFC 3986 `sub-delims`.
pub open spec fn is_sub_delim_char(c: char) -> bool {
    c == '!' || c == '$' || c == '&' || c == '\'' || c == '(' || c == ')' || c == '*' || c == '+'
        || c == ',' || c == ';' || c == '='
}

/// RFC 3986 `reg-name`, non-empty: unreserved and sub-delims characters, and `%` only as the
/// start of an escape followed by two hexadecimal digits.
pub open spec fn is_reg_name(h: Seq<char>) -> bool {
    h.len() > 0 && forall|i: int|
        0 <= i < h.len() ==> {
            ||| is_unreserved_char(#[trigger] h[i])
            ||| is_sub_delim_char(h[i])
            ||| (h[i] == '%' && i + 2 < h.len() && is_hex(h[i + 1]) && is_hex(h[i + 2]))
        }
}

/// RFC 3986 `IPvFuture`: `v`, hexadecimal digits, `.`, then unreserved, sub-delims or `:`.
pub open spec fn is_ipv_future(s: Seq<char>) -> bool {
    &&& s.len() > 0
    &&& (s[0] == 'v' || s[0] == 'V')
    &&& exists|d: int|
        1 < d && d + 1 < s.len() && s[d] == '.' && (forall|j: int|
            1 <= j < d ==> is_hex(#[trigger] s[j])) && (forall|j: int|
            d < j < s.len() ==> is_unreserved_char(#[trigger] s[j]) || is_sub_delim_char(s[j])
                || s[j] == ':')
}

/// Bracket contents admitted as an RFC 3986 `IP-literal`.
pub open spec fn is_ip_literal(s: Seq<char>) -> bool {
    is_ipv6_literal(s) || is_ipv_future(s)
}

/// An explicit Host port: decimal digits, at most 65535, not zero.
pub open spec fn port_value(p: Seq<char>) -> Option<u16> {
    if p.len() > 0 && all_digits(p) && dec_value(p) <= 65535 && dec_value(p) != 0 {
        Some(dec_value(p) as u16)
    } else {
        None
    }
}

/// Position of the first `c` in `s`.
pub open spec fn first_index(s: Seq<char>, c: char) -> int {
    choose|i: int| 0 <= i < s.len() && s[i] == c && forall|j: int| 0 <= j < i ==> s[j] != c
}

/// Position of the last `c` in `s`.
pub open spec fn last_index(s: Seq<char>, c: char) -> int {
    choose|i: int| 0 <= i < s.len() && s[i] == c && forall|j: int| i < j < s.len() ==> s[j] != c
}

/// Port of a bracketed authority `[literal]` or `[literal]:port`.
pub open spec fn bracketed_port(a: Seq<char>, scheme: DownstreamScheme) -> Option<u16> {
    let rest = a.drop_first();
    if !rest.contains(']') {
        None
    } else {
        let c = first_index(rest, ']');
        let literal = rest.subrange(0, c);
        let suffix = rest.subrange(c + 1, rest.len() as int);
        if !is_ip_literal(literal) {
            None
        } else if suffix.len() == 0 {
            Some(scheme.spec_default_port())
        } else if suffix[0] == ':' {
            port_value(suffix.drop_first())
        } else {
            None
        }
    }
}

/// Port of an authority that is a registered name, optionally followed by `:port`.
pub open spec fn named_port(a: Seq<char>, scheme: DownstreamScheme) -> Option<u16> {
    if a.contains('[') || a.contains(']') {
        None
    } else if a.contains(':') {
        let k = last_index(a, ':');
        let host = a.subrange(0, k);
        let port = a.subrange(k + 1, a.len() as int);
        if host.contains(':') || !is_reg_name(host) {
            None
        } else {
            port_value(port)
        }
    } else if !is_reg_name(a) {
        None
    } else {
        Some(scheme.spec_default_port())
    }
}

/// The external forwarding port of an RFC 9110 Host authority: the explicit port when present,
/// otherwise the scheme's default; `None` when the authority is malformed.
pub open spec fn authority_port_of(a: Seq<char>, scheme: DownstreamScheme) -> Option<u16> {
    if a.len() == 0 {
        None
    } else if a[0] == '[' {
        bracketed_port(a, scheme)
    } else {
        named_port(a, scheme)
    }
}

/// Returns whether an octet belongs to RFC 3986 `unreserved`.
pub fn is_unreserved(c: char) -> (r: bool)
    ensures
        r == is_unreserved_char(c),
{
    is_alnum_char(c) || c == '-' || c == '.' || c == '_' || c == '~'
}

/// Returns whether an octet belongs to RFC 3986 `sub-delims`.
pub fn is_sub_delim(c: char) -> (r: bool)
    ensures
        r == is_sub_delim_char(c),
{
    c == '!' || c == '$' || c == '&' || c == '\'' || c == '(' || c == ')' || c == '*' || c == '+'
        || c == ',' || c == ';' || c == '='
}

/// Validates RFC 3986 `reg-name`, including only well-formed percent-encoded octets.
pub fn is_valid_reg_name(h: &Vec<char>) -> (r: bool)
    ensures
        r == is_reg_name(h@),
{
    if h.len() == 0 {
        return false;
    }
    let mut i: usize = 0;
    while i < h.len()
        invariant
            i <= h.len(),
            forall|j: int|
                0 <= j < i ==> {
                    ||| is_unreserved_char(#[trigger] h@[j])
                    ||| is_sub_delim_char(h@[j])
                    ||| (h@[j] == '%' && j + 2 < h@.len() && is_hex(h@[j + 1]) && is_hex(h@[j + 2]))
                },
        decreases h.len() - i,
    {
        let c = h[i];
        let ok = if is_unreserved(c) || is_sub_delim(c) {
            true
        } else {
            c == '%' && h.len() >= 3 && i < h.len() - 2 && is_hex_char(h[i + 1]) && is_hex_char(h[i + 2])
        };
        if !ok {
            return false;
        }
        i = i + 1;
    }
    true
}

/// Validates the forward-compatible bracket-literal form from RFC 3986 without interpreting it.
pub fn is_valid_ipv_future(s: &Vec<char>) -> (r: bool)
    ensures
        r == is_ipv_future(s@),
{
    if s.len() == 0 || !(s[0] == 'v' || s[0] == 'V') {
        return false;
    }
    // first `.` after the version marker
    let mut d: usize = 1;
    while d < s.len() && s[d] != '.'
        invariant
            1 <= d <= s.len(),
            forall|j: int| 1 <= j < d ==> s@[j] != '.',
        decreases s.len() - d,
    {
        d = d + 1;
    }
    if d == s.len() {
        assert forall|e: int| !(1 < e && e + 1 < s@.len() && s@[e] == '.') by {}
        return false;
    }
    let mut j: usize = 1;
    while j < d
        invariant
            1 <= j <= d < s.len(),
            s@[d as int] == '.',
            forall|k: int| 1 <= k < d ==> s@[k] != '.',
            forall|k: int| 1 <= k < j ==> is_hex(#[trigger] s@[k]),
        decreases d - j,
    {
        if !is_hex_char(s[j]) {
            proof {
                assert forall|e: int|
                    !(1 < e && e + 1 < s@.len() && s@[e] == '.' && (forall|k: int|
                        1 <= k < e ==> is_hex(#[trigger] s@[k])) && (forall|k: int|
                        e < k < s@.len() ==> is_unreserved_char(#[trigger] s@[k])
                            || is_sub_delim_char(s@[k]) || s@[k] == ':')) by {
                    if 1 < e && e + 1 < s@.len() && s@[e] == '.' && (forall|k: int|
                        1 <= k < e ==> is_hex(#[trigger] s@[k])) {
                        assert(e >= d);
                        if e > d {
                            assert(is_hex(s@[d as int]));
                        }
                        assert(is_hex(s@[j as int]));
                    }
                }
            }
            return false;
        }
        j = j + 1;
    }
    let mut k: usize = d + 1;
    while k < s.len()
        invariant
            1 <= d < s.len(),
            s@[d as int] == '.',
            forall|m: int| 1 <= m < d ==> s@[m] != '.',
            forall|m: int| 1 <= m < d ==> is_hex(#[trigger] s@[m]),
            d + 1 <= k <= s.len(),
            forall|m: int| d < m < k ==> is_unreserved_char(#[trigger] s@[m])
                || is_sub_delim_char(s@[m]) || s@[m] == ':',
        decreases s.len() - k,
    {
        let c = s[k];
        if !(is_unreserved(c) || is_sub_delim(c) || c == ':') {
            proof {
                assert forall|e: int|
                    !(1 < e && e + 1 < s@.len() && s@[e] == '.' && (forall|m: int|
                        1 <= m < e ==> is_hex(#[trigger] s@[m])) && (forall|m: int|
                        e < m < s@.len() ==> is_unreserved_char(#[trigger] s@[m])
                            || is_sub_delim_char(s@[m]) || s@[m] == ':')) by {
                    if 1 < e && e + 1 < s@.len() && s@[e] == '.' && (forall|m: int|
                        1 <= m < e ==> is_hex(#[trigger] s@[m])) {
                        if e > d {
                            assert(is_hex(s@[d as int]));
                            assert(false);
                        }
                        if e < d {
                            assert(s@[e] != '.');
                        }
                        assert(e == d);
                        assert(is_unreserved_char(s@[k as int]) || is_sub_delim_char(s@[k as int])
                            || s@[k as int] == ':' ==> false);
                    }
                }
            }
            return false;
        }
        k = k + 1;
    }
    if d <= 1 || d + 1 >= s.len() {
        proof {
            assert forall|e: int|
                !(1 < e && e + 1 < s@.len() && s@[e] == '.' && (forall|m: int|
                    1 <= m < e ==> is_hex(#[trigger] s@[m]))) by {
                if 1 < e && e + 1 < s@.len() && s@[e] == '.' && (forall|m: int|
                    1 <= m < e ==> is_hex(#[trigger] s@[m])) {
                    assert(e >= d);
                    if e > d {
                        assert(is_hex(s@[d as int]));
                    }
                }
            }
        }
        return false;
    }
    assert(1 < d && d + 1 < s@.len() && s@[d as int] == '.');
    true
}

/// Accepts bracket contents allowed by RFC 3986 `IP-literal` without treating arbitrary text as IP.
pub fn is_valid_ip_literal(s: &Vec<char>) -> (r: bool)
    ensures
        r == is_ip_literal(s@),
{
    is_ipv6_literal_chars(s) || is_valid_ipv_future(s)
}

/// Parses an explicit RFC 3986 Host port and rejects zero as unsupported external authority.
pub fn parse_port(p: &Vec<char>) -> (r: Option<u16>)
    ensures
        r == port_value(p@),
{
    if p.len() == 0 {
        return None;
    }
    let mut i: usize = 0;
    while i < p.len()
        invariant
            i <= p.len(),
            forall|j: int| 0 <= j < i ==> is_digit(#[trigger] p@[j]),
        decreases p.len() - i,
    {
        if !is_digit_char(p[i]) {
            return None;
        }
        i = i + 1;
    }
    assert(all_digits(p@));
    assert(p@[0] != '+');
    match parse_u16(p) {
        Some(v) => {
            if v == 0 {
                None
            } else {
                Some(v)
            }
        },
        None => None,
    }
}

fn find_first(s: &Vec<char>, from: usize, c: char) -> (r: Option<usize>)
    requires
        from <= s.len(),
    ensures
        r matches Some(i) ==> from <= i < s.len() && s@[i as int] == c && forall|j: int|
            from <= j < i ==> s@[j] != c,
        r is None ==> forall|j: int| from <= j < s.len() ==> s@[j] != c,
{
    let mut i = from;
    while i < s.len()
        invariant
            from <= i <= s.len(),
            forall|j: int| from <= j < i ==> s@[j] != c,
        decreases s.len() - i,
    {
        if s[i] == c {
            return Some(i);
        }
        i = i + 1;
    }
    None
}

fn find_last(s: &Vec<char>, c: char) -> (r: Option<usize>)
    ensures
        r matches Some(i) ==> i < s.len() && s@[i as int] == c && forall|j: int|
            i < j < s.len() ==> s@[j] != c,
        r is None ==> forall|j: int| 0 <= j < s.len() ==> s@[j] != c,
{
    let mut i = s.len();
    while i > 0
        invariant
            i <= s.len(),
            forall|j: int| i <= j < s.len() ==> s@[j] != c,
        decreases i,
    {
        if s[i - 1] == c {
            return Some(i - 1);
        }
        i = i - 1;
    }
    None
}

proof fn lemma_first_index(s: Seq<char>, c: char, k: int)
    requires
        0 <= k < s.len(),
        s[k] == c,
        forall|j: int| 0 <= j < k ==> s[j] != c,
    ensures
        s.contains(c),
        first_index(s, c) == k,
{
    let i = first_index(s, c);
    assert(0 <= i < s.len() && s[i] == c && forall|j: int| 0 <= j < i ==> s[j] != c);
}

fn bracketed_authority_port(a: &Vec<char>, scheme: DownstreamScheme) -> (r: Option<u16>)
    requires
        a.len() > 0,
        a@[0] == '[',
    ensures
        r == bracketed_port(a@, scheme),
{
    let ghost rest = a@.drop_first();
    match find_first(a, 1, ']') {
        None => {
            assert(!rest.contains(']')) by {
                if rest.contains(']') {
                    let k = choose|k: int| 0 <= k < rest.len() && rest[k] == ']';
                    assert(a@[k + 1] == ']');
                }
            }
            None
        },
        Some(close) => {
            let ghost c = first_index(rest, ']');
            proof {
                assert forall|j: int| 0 <= j < close - 1 implies rest[j] != ']' by {
                    assert(rest[j] == a@[j + 1]);
                }
                lemma_first_index(rest, ']', close - 1);
            }
            let literal = sub_vec(a, 1, close);
            assert(literal@ =~= rest.subrange(0, c));
            let suffix = sub_vec(a, close + 1, a.len());
            assert(suffix@ =~= rest.subrange(c + 1, rest.len() as int));
            bracket_suffix_port(&literal, &suffix, scheme)
        },
    }
}

/// The port of `[literal]suffix`, once the closing bracket is found.
fn bracket_suffix_port(literal: &Vec<char>, suffix: &Vec<char>, scheme: DownstreamScheme) -> (r: Option<u16>)
    ensures
        r == (if !is_ip_literal(literal@) {
            None
        } else if suffix@.len() == 0 {
            Some(scheme.spec_default_port())
        } else if suffix@[0] == ':' {
            port_value(suffix@.drop_first())
        } else {
            None
        }),
{
    if !is_valid_ip_literal(literal) {
        return None;
    }
    if suffix.len() == 0 {
        return Some(scheme.default_port());
    }
    if suffix[0] == ':' {
        let port = sub_vec(suffix, 1, suffix.len());
        assert(port@ =~= suffix@.drop_first());
        return parse_port(&port);
    }
    None
}

fn named_authority_port(a: &Vec<char>, scheme: DownstreamScheme) -> (r: Option<u16>)
    ensures
        r == named_port(a@, scheme),
{
    let open = find_first(a, 0, '[');
    let close = find_first(a, 0, ']');
    if open.is_some() || close.is_some() {
        proof {
            match open {
                Some(i) => {
                    assert(a@[i as int] == '[');
                },
                None => {},
            }
            match close {
                Some(i) => {
                    assert(a@[i as int] == ']');
                },
                None => {},
            }
        }
        return None;
    }
    assert(!a@.contains('[') && !a@.contains(']')) by {
        if a@.contains('[') {
            let k = choose|k: int| 0 <= k < a@.len() && a@[k] == '[';
        }
        if a@.contains(']') {
            let k = choose|k: int| 0 <= k < a@.len() && a@[k] == ']';
        }
    }
    match find_last(a, ':') {
        Some(k) => {
            assert(a@[k as int] == ':');
            assert(a@.contains(':'));
            let ghost kk = last_index(a@, ':');
            assert(kk == k) by {
                if kk < k {
                } else if kk > k {
                }
            }
            let host = sub_vec(a, 0, k);
            let port = sub_vec(a, k + 1, a.len());
            let host_colon = find_first(&host, 0, ':');
            if host_colon.is_some() {
                proof {
                    match host_colon {
                        Some(i) => {
                            assert(host@[i as int] == ':');
                        },
                        None => {},
                    }
                }
                return None;
            }
            assert(!host@.contains(':')) by {
                if host@.contains(':') {
                    let q = choose|q: int| 0 <= q < host@.len() && host@[q] == ':';
                }
            }
            if !is_valid_reg_name(&host) {
                return None;
            }
            parse_port(&port)
        },
        None => {
            assert(!a@.contains(':')) by {
                if a@.contains(':') {
                    let q = choose|q: int| 0 <= q < a@.len() && a@[q] == ':';
                }
            }
            if !is_valid_reg_name(a) {
                return None;
            }
            Some(scheme.default_port())
        },
    }
}

/// Resolves the external forwarding port from an RFC 9110 Host authority and downstream scheme.
///
/// `Host` adopts URI host syntax: userinfo, path/query delimiters, malformed percent escapes and
/// non-IP bracket literals fail before the value can become trusted forwarding metadata.
pub fn authority_port(authority: &str, scheme: DownstreamScheme) -> (r: Result<u16, ForwardingRejection>)
    ensures
        r matches Ok(p) ==> authority_port_of(authority@, scheme) == Some(p),
        r is Err ==> authority_port_of(authority@, scheme) is None && r == Err::<u16, ForwardingRejection>(ForwardingRejection::InvalidHostAuthority),
{
    let a = chars_of(authority);
    let port = if a.len() == 0 {
        None
    } else if a[0] == '[' {
        bracketed_authority_port(&a, scheme)
    } else {
        named_authority_port(&a, scheme)
    };
    match port {
        Some(p) => Ok(p),
        None => Err(ForwardingRejection::InvalidHostAuthority),
    }
}

// ---------------------------------------------------------------------------------------------
// Printable text
// ---------------------------------------------------------------------------------------------

/// Printable ASCII, space to tilde.
pub open spec fn is_printable(s: Seq<char>) -> bool {
    forall|i: int| 0 <= i < s.len() ==> ' ' <= #[trigger] s[i] && s[i] <= '~'
}

pub proof fn lemma_printable_concat(a: Seq<char>, b: Seq<char>)
    requires
        is_printable(a),
        is_printable(b),
    ensures
        is_printable(a + b),
{
    assert forall|i: int| 0 <= i < (a + b).len() implies ' ' <= #[trigger] (a + b)[i] && (a + b)[i] <= '~' by {
        if i < a.len() {
            assert((a + b)[i] == a[i]);
        } else {
            assert((a + b)[i] == b[i - a.len()]);
        }
    }
}

pub proof fn lemma_dec_printable(n: nat)
    ensures
        is_printable(dec(n)),
    decreases n,
{
    if n >= 10 {
        lemma_dec_printable(n / 10);
        lemma_printable_concat(dec(n / 10), seq![crate::text::digit_char(n % 10)]);
        assert(dec(n) =~= dec(n / 10) + seq![crate::text::digit_char(n % 10)]);
    }
}

pub proof fn lemma_hex_printable(n: nat)
    ensures
        is_printable(hex(n)),
    decreases n,
{
    if n >= 16 {
        lemma_hex_printable(n / 16);
        lemma_printable_concat(hex(n / 16), seq![crate::net::hex_digit_char(n % 16)]);
        assert(hex(n) =~= hex(n / 16) + seq![crate::net::hex_digit_char(n % 16)]);
    }
}

pub proof fn lemma_join_hex_printable(s: Seq<u16>)
    ensures
        is_printable(join_hex(s)),
    decreases s.len(),
{
    if s.len() == 1 {
        lemma_hex_printable(s[0] as nat);
    } else if s.len() > 1 {
        lemma_join_hex_printable(s.drop_last());
        lemma_hex_printable(s.last() as nat);
        lemma_printable_concat(join_hex(s.drop_last()), seq![':']);
        lemma_printable_concat(join_hex(s.drop_last()) + seq![':'], hex(s.last() as nat));
    }
}

pub proof fn lemma_ipv4_printable(a: u8, b: u8, c: u8, d: u8)
    ensures
        is_printable(ipv4_text(a, b, c, d)),
{
    lemma_dec_printable(a as nat);
    lemma_dec_printable(b as nat);
    lemma_dec_printable(c as nat);
    lemma_dec_printable(d as nat);
    let dot = seq!['.'];
    lemma_printable_concat(dec(a as nat), dot);
    lemma_printable_concat(dec(a as nat) + dot, dec(b as nat));
    lemma_printable_concat(dec(a as nat) + dot + dec(b as nat), dot);
    lemma_printable_concat(dec(a as nat) + dot + dec(b as nat) + dot, dec(c as nat));
    lemma_printable_concat(dec(a as nat) + dot + dec(b as nat) + dot + dec(c as nat), dot);
    lemma_printable_concat(dec(a as nat) + dot + dec(b as nat) + dot + dec(c as nat) + dot, dec(d as nat));
}

pub proof fn lemma_ip_text_printable(ip: IpAddress)
    ensures
        is_printable(ip_text(ip)),
{
    match ip {
        IpAddress::V4(a, b, c, d) => {
            lemma_ipv4_printable(a, b, c, d);
        },
        IpAddress::V6(a, b, c, d, e, f, g, h) => {
            let s = segments(a, b, c, d, e, f, g, h);
            if s[0] == 0 && s[1] == 0 && s[2] == 0 && s[3] == 0 && s[4] == 0 && s[5] == 0xffff {
                lemma_ipv4_printable((s[6] / 256) as u8, (s[6] % 256) as u8, (s[7] / 256) as u8, (s[7] % 256) as u8);
                lemma_printable_concat(seq![':', ':', 'f', 'f', 'f', 'f', ':'], ipv4_text((s[6] / 256) as u8, (s[6] % 256) as u8, (s[7] / 256) as u8, (s[7] % 256) as u8));
            } else {
                let run = longest_zero_run(s, 0);
                if run.1 > 1 {
                    lemma_join_hex_printable(s.subrange(0, run.0));
                    lemma_join_hex_printable(s.subrange(run.0 + run.1, 8));
                    lemma_printable_concat(join_hex(s.subrange(0, run.0)), seq![':', ':']);
                    lemma_printable_concat(join_hex(s.subrange(0, run.0)) + seq![':', ':'], join_hex(s.subrange(run.0 + run.1, 8)));
                } else {
                    lemma_join_hex_printable(s);
                }
            }
        },
    }
}

pub proof fn lemma_printable_value_text(s: Seq<char>)
    requires
        is_printable(s),
    ensures
        is_value_text(s),
{
    assert(is_ascii_chars(s));
    is_ascii_chars_encode_utf8(s);
}

// ---------------------------------------------------------------------------------------------
// Forwarding context
// ---------------------------------------------------------------------------------------------

/// Header names owned by the forwarding boundary: `Forwarded`, `X-Real-IP` and the whole
/// `X-Forwarded-*` namespace, in any ASCII case.
pub open spec fn is_forwarding_name(n: Seq<char>) -> bool {
    ||| eq_ignore_case(n, "forwarded"@)
    ||| eq_ignore_case(n, "x-real-ip"@)
    ||| (n.len() >= 12 && eq_ignore_case(n.subrange(0, 12), "x-forwarded-"@))
}

/// The fields whose name is not owned by the forwarding boundary.
pub open spec fn without_forwarding(s: Seq<FieldView>) -> Seq<FieldView>
    decreases s.len(),
{
    if s.len() == 0 {
        s
    } else {
        let r = without_forwarding(s.drop_last());
        if is_forwarding_name(s.last().0) {
            r
        } else {
            r.push(s.last())
        }
    }
}

/// The Host authority of a request: the upstream request's `Host` when present, otherwise the
/// downstream request's; `None` when absent or not visible ASCII.
pub open spec fn original_authority(upstream: Seq<FieldView>, downstream: Seq<FieldView>) -> Option<Seq<char>> {
    match first_value(upstream, "host"@) {
        Some(v) => visible_text(v),
        None => match first_value(downstream, "host"@) {
            Some(v) => visible_text(v),
            None => None,
        },
    }
}

/// The compatibility fields that carry a client address, original authority, external port and
/// scheme, in the order they are emitted.
pub open spec fn forwarding_fields(client_ip: IpAddress, original_host: Seq<char>, port: u16, scheme: DownstreamScheme) -> Seq<FieldView> {
    seq![
        ("X-Forwarded-For"@, encode_utf8(ip_text(client_ip))),
        ("X-Real-IP"@, encode_utf8(ip_text(client_ip))),
        ("X-Forwarded-Host"@, encode_utf8(original_host)),
        ("X-Forwarded-Port"@, encode_utf8(dec(port as nat))),
        ("X-Forwarded-Proto"@, encode_utf8(scheme.token())),
    ]
}

/// Trusted transport metadata used to reconstruct legacy forwarding fields.
#[derive(Debug)]
pub struct ForwardingContext {
    client_ip: IpAddress,
    original_host: String,
    downstream_port: u16,
    scheme: DownstreamScheme,
}

impl ForwardingContext {
    pub closed spec fn spec_client_ip(&self) -> IpAddress {
        self.client_ip
    }

    pub closed spec fn spec_original_host(&self) -> Seq<char> {
        self.original_host@
    }

    pub closed spec fn spec_downstream_port(&self) -> u16 {
        self.downstream_port
    }

    pub closed spec fn spec_scheme(&self) -> DownstreamScheme {
        self.scheme
    }

    /// The five fields emitted by [`Self::apply`], in order.
    pub open spec fn emitted_fields(&self) -> Seq<FieldView> {
        forwarding_fields(self.spec_client_ip(), self.spec_original_host(), self.spec_downstream_port(), self.spec_scheme())
    }

    /// Creates forwarding metadata only from values already observed by the edge runtime.
    pub fn new(client_ip: IpAddress, original_host: String, downstream_port: u16, scheme: DownstreamScheme) -> (r: Self)
        ensures
            r.spec_client_ip() == client_ip,
            r.spec_original_host() == original_host@,
            r.spec_downstream_port() == downstream_port,
            r.spec_scheme() == scheme,
    {
        ForwardingContext { client_ip, original_host, downstream_port, scheme }
    }

    /// The accepted client address.
    pub fn client_ip(&self) -> (r: IpAddress)
        ensures
            r == self.spec_client_ip(),
    {
        self.client_ip
    }

    /// The original request authority.
    pub fn original_host(&self) -> (r: &String)
        ensures
            r@ == self.spec_original_host(),
    {
        &self.original_host
    }

    /// The external port derived from the original authority.
    pub fn downstream_port(&self) -> (r: u16)
        ensures
            r == self.spec_downstream_port(),
    {
        self.downstream_port
    }

    /// Derives forwarding identity from the accepted client address and original request
    /// authority. The listener socket is not an input: an explicit Host port is authoritative,
    /// otherwise the scheme's well-known port. Malformed authority fails closed.
    pub fn from_downstream_transport(
        client_ip: Option<IpAddress>,
        upstream_request: &HeaderList,
        downstream_request: &HeaderList,
        scheme: DownstreamScheme,
    ) -> (r: Result<Self, ForwardingRejection>)
        ensures
            client_ip is None ==> r == Err::<Self, ForwardingRejection>(ForwardingRejection::MissingClientAddress),
            client_ip matches Some(ip) ==> match original_authority(upstream_request@, downstream_request@) {
                Some(h) => match authority_port_of(h, scheme) {
                    Some(p) => r matches Ok(c) && c.spec_client_ip() == ip && c.spec_original_host() == h
                        && c.spec_downstream_port() == p && c.spec_scheme() == scheme,
                    None => r == Err::<Self, ForwardingRejection>(ForwardingRejection::InvalidHostAuthority),
                },
                None => r == Err::<Self, ForwardingRejection>(ForwardingRejection::InvalidHostAuthority),
            },
    {
        let ip = match client_ip {
            Some(ip) => ip,
            None => return Err(ForwardingRejection::MissingClientAddress),
        };
        let host = "host";
        let value = match upstream_request.get(host) {
            Some(v) => Some(v),
            None => downstream_request.get(host),
        };
        let text = match value {
            Some(v) => value_text(v),
            None => None,
        };
        let original_host = match text {
            Some(t) => t,
            None => return Err(ForwardingRejection::InvalidHostAuthority),
        };
        let port = authority_port(original_host.as_str(), scheme)?;
        Ok(ForwardingContext::new(ip, original_host, port, scheme))
    }

    /// Removes request-controlled proxy authority and emits transport-derived compatibility
    /// fields: `X-Forwarded-For`, `X-Real-IP`, `X-Forwarded-Host`, `X-Forwarded-Port` and
    /// `X-Forwarded-Proto`, in that order. When the original host cannot be a field value, the
    /// fields before it stay emitted and the rest are not.
    pub fn apply(&self, upstream_request: &mut HeaderList) -> (r: Result<(), ForwardingRejection>)
        ensures
            is_value_text(self.spec_original_host()) ==> r is Ok && final(upstream_request)@
                == without_forwarding(old(upstream_request)@) + self.emitted_fields(),
            !is_value_text(self.spec_original_host()) ==> r == Err::<(), ForwardingRejection>(ForwardingRejection::InvalidHeaderValue)
                && final(upstream_request)@ == without_forwarding(old(upstream_request)@)
                + self.emitted_fields().subrange(0, 2),
    {
        remove_forwarding(upstream_request);
        let ghost base = upstream_request@;
        let client_ip = ip_to_string(&self.client_ip);
        let downstream_port = dec_string(self.downstream_port as u64);
        proof {
            lemma_ip_text_printable(self.client_ip);
            lemma_printable_value_text(ip_text(self.client_ip));
            lemma_dec_printable(self.downstream_port as nat);
            lemma_printable_value_text(dec(self.downstream_port as nat));
            reveal_strlit("http");
            reveal_strlit("https");
            assert(is_printable(self.scheme.token()));
            lemma_printable_value_text(self.scheme.token());
            reveal_strlit("X-Forwarded-For");
            reveal_strlit("X-Real-IP");
            reveal_strlit("X-Forwarded-Host");
            reveal_strlit("X-Forwarded-Port");
            reveal_strlit("X-Forwarded-Proto");
            reveal_strlit("forwarded");
            reveal_strlit("x-real-ip");
            reveal_strlit("x-forwarded-");
            lemma_no_forwarding(old(upstream_request)@);
        }
        let ghost e = self.emitted_fields();
        proof {
            assert(is_forwarding_name("X-Forwarded-For"@));
            assert(is_forwarding_name("X-Real-IP"@));
            assert(is_forwarding_name("X-Forwarded-Host"@));
            assert(is_forwarding_name("X-Forwarded-Port"@));
            assert(is_forwarding_name("X-Forwarded-Proto"@));
            assert(!eq_ignore_case("X-Forwarded-For"@, "X-Real-IP"@));
            assert(!eq_ignore_case("X-Forwarded-For"@, "X-Forwarded-Host"@));
            assert(!eq_ignore_case("X-Real-IP"@, "X-Forwarded-Host"@));
            assert(!eq_ignore_case("X-Forwarded-For"@, "X-Forwarded-Port"@));
            assert(!eq_ignore_case("X-Real-IP"@, "X-Forwarded-Port"@));
            assert(lower("X-Forwarded-Host"@[12]) != lower("X-Forwarded-Port"@[12]));
            assert(!eq_ignore_case("X-Forwarded-Host"@, "X-Forwarded-Port"@));
            assert(!eq_ignore_case("X-Forwarded-For"@, "X-Forwarded-Proto"@));
            assert(!eq_ignore_case("X-Real-IP"@, "X-Forwarded-Proto"@));
            assert(!eq_ignore_case("X-Forwarded-Host"@, "X-Forwarded-Proto"@));
            assert(!eq_ignore_case("X-Forwarded-Port"@, "X-Forwarded-Proto"@));
            lemma_name_absent(base, Seq::empty(), "X-Forwarded-For"@);
            assert(base + Seq::<FieldView>::empty() =~= base);
        }
        let _ = upstream_request.insert("X-Forwarded-For", client_ip.as_str());
        proof {
            lemma_without_absent(base, "X-Forwarded-For"@);
            assert(upstream_request@ =~= base + e.subrange(0, 1));
            lemma_name_absent(base, e.subrange(0, 1), "X-Real-IP"@);
            lemma_without_absent(base + e.subrange(0, 1), "X-Real-IP"@);
        }
        let _ = upstream_request.insert("X-Real-IP", client_ip.as_str());
        proof {
            assert(upstream_request@ =~= base + e.subrange(0, 2));
            lemma_name_absent(base, e.subrange(0, 2), "X-Forwarded-Host"@);
            lemma_without_absent(base + e.subrange(0, 2), "X-Forwarded-Host"@);
        }
        if upstream_request.insert("X-Forwarded-Host", self.original_host.as_str()).is_err() {
            return Err(ForwardingRejection::InvalidHeaderValue);
        }
        proof {
            assert(upstream_request@ =~= base + e.subrange(0, 3));
            lemma_name_absent(base, e.subrange(0, 3), "X-Forwarded-Port"@);
            lemma_without_absent(base + e.subrange(0, 3), "X-Forwarded-Port"@);
        }
        let _ = upstream_request.insert("X-Forwarded-Port", downstream_port.as_str());
        proof {
            assert(upstream_request@ =~= base + e.subrange(0, 4));
            lemma_name_absent(base, e.subrange(0, 4), "X-Forwarded-Proto"@);
            lemma_without_absent(base + e.subrange(0, 4), "X-Forwarded-Proto"@);
        }
        let _ = upstream_request.insert("X-Forwarded-Proto", self.scheme.as_str());
        assert(upstream_request@ =~= base + self.emitted_fields());
        Ok(())
    }
}

/// No field of `without_forwarding(s)` has a forwarding name.
proof fn lemma_no_forwarding(s: Seq<FieldView>)
    ensures
        forall|i: int| 0 <= i < without_forwarding(s).len() ==> !is_forwarding_name(#[trigger] without_forwarding(s)[i].0),
    decreases s.len(),
{
    if s.len() > 0 {
        lemma_no_forwarding(s.drop_last());
        let r = without_forwarding(s.drop_last());
        if !is_forwarding_name(s.last().0) {
            assert forall|i: int| 0 <= i < r.push(s.last()).len() implies !is_forwarding_name(#[trigger] r.push(s.last())[i].0) by {
                if i < r.len() {
                    assert(r.push(s.last())[i] == r[i]);
                }
            }
        }
    }
}

/// Names equal up to ASCII case are both or neither forwarding names.
proof fn lemma_forwarding_name_case(a: Seq<char>, b: Seq<char>)
    requires
        eq_ignore_case(a, b),
        is_forwarding_name(b),
    ensures
        is_forwarding_name(a),
{
    if b.len() >= 12 && eq_ignore_case(b.subrange(0, 12), "x-forwarded-"@) {
        assert(eq_ignore_case(a.subrange(0, 12), "x-forwarded-"@)) by {
            assert forall|i: int| 0 <= i < 12 implies lower(#[trigger] a.subrange(0, 12)[i]) == lower("x-forwarded-"@[i]) by {
                assert(a.subrange(0, 12)[i] == a[i]);
                assert(b.subrange(0, 12)[i] == b[i]);
            }
        }
    }
}

/// A forwarding name is carried by no field of `base + extra` when `base` holds no forwarding
/// name and no field of `extra` carries it.
proof fn lemma_name_absent(base: Seq<FieldView>, extra: Seq<FieldView>, n: Seq<char>)
    requires
        forall|i: int| 0 <= i < base.len() ==> !is_forwarding_name(#[trigger] base[i].0),
        is_forwarding_name(n),
        forall|j: int| 0 <= j < extra.len() ==> !eq_ignore_case(#[trigger] extra[j].0, n),
    ensures
        forall|i: int| 0 <= i < (base + extra).len() ==> !eq_ignore_case(#[trigger] (base + extra)[i].0, n),
{
    assert forall|i: int| 0 <= i < (base + extra).len() implies !eq_ignore_case(#[trigger] (base + extra)[i].0, n) by {
        if i < base.len() {
            assert((base + extra)[i] == base[i]);
            if eq_ignore_case(base[i].0, n) {
                lemma_forwarding_name_case(base[i].0, n);
            }
        } else {
            assert((base + extra)[i] == extra[i - base.len()]);
        }
    }
}

/// Once the forwarding-owned fields are gone, removing any forwarding name changes nothing.
pub proof fn lemma_without_forwarding_has_no(s: Seq<FieldView>, n: Seq<char>)
    requires
        is_forwarding_name(n),
    ensures
        without_name(without_forwarding(s), n) == without_forwarding(s),
{
    lemma_no_forwarding(s);
    lemma_name_absent(without_forwarding(s), Seq::empty(), n);
    assert(without_forwarding(s) + Seq::<FieldView>::empty() =~= without_forwarding(s));
    lemma_without_absent(without_forwarding(s), n);
}

/// Removing a name that no field carries leaves the fields unchanged.
pub proof fn lemma_without_absent(s: Seq<FieldView>, n: Seq<char>)
    requires
        forall|i: int| 0 <= i < s.len() ==> !eq_ignore_case(#[trigger] s[i].0, n),
    ensures
        without_name(s, n) == s,
    decreases s.len(),
{
    if s.len() > 0 {
        lemma_without_absent(s.drop_last(), n);
        assert(s.drop_last().push(s.last()) =~= s);
    }
}

fn is_forwarding_field_name(n: &str) -> (r: bool)
    ensures
        r == is_forwarding_name(n@),
{
    let chars = chars_of(n);
    let forwarded = chars_of("forwarded");
    let real_ip = chars_of("x-real-ip");
    let prefix = chars_of("x-forwarded-");
    proof {
        reveal_strlit("x-forwarded-");
    }
    if crate::text::eq_ignore_case_chars(&chars, &forwarded) || crate::text::eq_ignore_case_chars(&chars, &real_ip) {
        return true;
    }
    if chars.len() < 12 {
        return false;
    }
    let head = sub_vec(&chars, 0, 12);
    crate::text::eq_ignore_case_chars(&head, &prefix)
}

/// Removes `Forwarded`, `X-Real-IP` and every `X-Forwarded-*` field.
pub fn remove_forwarding(headers: &mut HeaderList)
    ensures
        final(headers)@ == without_forwarding(old(headers)@),
{
    let mut kept: Vec<crate::http_model::HeaderField> = Vec::new();
    let mut i: usize = 0;
    while i < headers.fields.len()
        invariant
            i <= headers.fields.len(),
            headers@ == old(headers)@,
            crate::http_model::field_views(kept@) == without_forwarding(headers@.subrange(0, i as int)),
        decreases headers.fields.len() - i,
    {
        let ghost pre = headers@.subrange(0, i as int);
        assert(headers@.subrange(0, i + 1).drop_last() =~= pre);
        assert(headers@.subrange(0, i + 1).last() == headers.fields@[i as int]@);
        if !is_forwarding_field_name(headers.fields[i].name.as_str()) {
            let ghost before = kept@;
            kept.push(headers.fields[i].duplicate());
            assert(crate::http_model::field_views(kept@) =~= crate::http_model::field_views(before).push(
                headers.fields@[i as int]@,
            ));
        }
        i = i + 1;
    }
    assert(headers@.subrange(0, headers@.len() as int) =~= headers@);
    headers.fields = kept;
}

} // verus!
