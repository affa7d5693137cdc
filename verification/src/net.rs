//! Network addresses as plain values: classification, textual validation and rendering.
//!
//! Addresses are carried as octets (IPv4) or 16-bit segments (IPv6) so that every decision the
//! policy modules take about them can be stated and checked over plain integers.

use vstd::prelude::*;

use crate::text::{all_digits, dec, dec_value, is_digit, is_digit_char, is_hex, is_hex_char, lemma_dec_value_extend, push_char, push_dec};

verus! {

/// An IP address.
#[derive(Debug, Clone, Copy, PartialEq, Eq, Structural)]
pub enum IpAddress {
    /// IPv4 address in network order.
    V4(u8, u8, u8, u8),
    /// IPv6 address as eight 16-bit segments in network order.
    V6(u16, u16, u16, u16, u16, u16, u16, u16),
}

/// A socket address: IP address, port and, for IPv6, flow information and scope identifier
/// (both zero for an IPv4 address). Two addresses are equal when all four parts are.
#[derive(Debug, Clone, Copy, PartialEq, Eq, Structural)]
pub struct SocketAddress {
    /// Address part.
    pub ip: IpAddress,
    /// Port part.
    pub port: u16,
    /// IPv6 flow information.
    pub flowinfo: u32,
    /// IPv6 scope identifier (the zone of a link-local address).
    pub scope_id: u32,
}

impl IpAddress {
    pub open spec fn spec_is_unspecified(self) -> bool {
        match self {
            IpAddress::V4(a, b, c, d) => a == 0 && b == 0 && c == 0 && d == 0,
            IpAddress::V6(a, b, c, d, e, f, g, h) => a == 0 && b == 0 && c == 0 && d == 0 && e
                == 0 && f == 0 && g == 0 && h == 0,
        }
    }

    /// `0.0.0.0` or `::`.
    pub fn is_unspecified(&self) -> (r: bool)
        ensures
            r == self.spec_is_unspecified(),
    {
        match *self {
            IpAddress::V4(a, b, c, d) => a == 0 && b == 0 && c == 0 && d == 0,
            IpAddress::V6(a, b, c, d, e, f, g, h) => a == 0 && b == 0 && c == 0 && d == 0 && e
                == 0 && f == 0 && g == 0 && h == 0,
        }
    }

    /// Private, loopback, link-local, multicast or unspecified, as `Ipv4Addr`/`Ipv6Addr` classify
    /// them (IPv6: loopback, unspecified, multicast `ff00::/8`, unique local `fc00::/7`, unicast
    /// link-local `fe80::/10`).
    pub open spec fn spec_is_non_public(self) -> bool {
        match self {
            IpAddress::V4(a, b, c, d) => {
                ||| a == 10
                ||| (a == 172 && 16 <= b && b <= 31)
                ||| (a == 192 && b == 168)
                ||| a == 127
                ||| (a == 169 && b == 254)
                ||| (224 <= a && a <= 239)
                ||| (a == 0 && b == 0 && c == 0 && d == 0)
            },
            IpAddress::V6(a, b, c, d, e, f, g, h) => {
                ||| (a == 0 && b == 0 && c == 0 && d == 0 && e == 0 && f == 0 && g == 0 && h == 1)
                ||| (a == 0 && b == 0 && c == 0 && d == 0 && e == 0 && f == 0 && g == 0 && h == 0)
                ||| a >= 0xff00
                ||| (0xfc00 <= a && a <= 0xfdff)
                ||| (0xfe80 <= a && a <= 0xfebf)
            },
        }
    }

    /// Whether this address is outside the public unicast space.
    pub fn is_non_public(&self) -> (r: bool)
        ensures
            r == self.spec_is_non_public(),
    {
        match *self {
            IpAddress::V4(a, b, c, d) => a == 10 || (a == 172 && 16 <= b && b <= 31) || (a == 192
                && b == 168) || a == 127 || (a == 169 && b == 254) || (224 <= a && a <= 239) || (a
                == 0 && b == 0 && c == 0 && d == 0),
            IpAddress::V6(a, b, c, d, e, f, g, h) => (a == 0 && b == 0 && c == 0 && d == 0 && e
                == 0 && f == 0 && g == 0 && h == 1) || (a == 0 && b == 0 && c == 0 && d == 0 && e
                == 0 && f == 0 && g == 0 && h == 0) || a >= 0xff00 || (0xfc00 <= a && a <= 0xfdff)
                || (0xfe80 <= a && a <= 0xfebf),
        }
    }
}

/// An IPv4 address as its 32-bit number, first octet most significant.
pub open spec fn ipv4_bits(a: u8, b: u8, c: u8, d: u8) -> u32 {
    ((a as u32) << 24u32) | ((b as u32) << 16u32) | ((c as u32) << 8u32) | (d as u32)
}

/// Whether the 32-bit IPv4 number `x` lies in the block of `prefix_len` leading bits `net`.
pub open spec fn in_ipv4_block(x: u32, net: u32, prefix_len: u32) -> bool {
    (x >> (32 - prefix_len) as u32) == (net >> (32 - prefix_len) as u32)
}

/// An IPv4 address is outside the public unicast space exactly when it lies in a private block
/// (10.0.0.0/8, 172.16.0.0/12, 192.168.0.0/16), in loopback (127.0.0.0/8), link-local
/// (169.254.0.0/16) or multicast (224.0.0.0/4), or is the unspecified address 0.0.0.0.
pub proof fn lemma_ipv4_non_public_blocks(a: u8, b: u8, c: u8, d: u8)
    ensures
        IpAddress::V4(a, b, c, d).spec_is_non_public() <==> {
            let x = ipv4_bits(a, b, c, d);
            ||| in_ipv4_block(x, 0x0a000000u32, 8)
            ||| in_ipv4_block(x, 0xac100000u32, 12)
            ||| in_ipv4_block(x, 0xc0a80000u32, 16)
            ||| in_ipv4_block(x, 0x7f000000u32, 8)
            ||| in_ipv4_block(x, 0xa9fe0000u32, 16)
            ||| in_ipv4_block(x, 0xe0000000u32, 4)
            ||| x == 0
        },
{
    let x = ipv4_bits(a, b, c, d);
    assert((x >> 24u32 == 0x0a000000u32 >> 24u32) == (a == 10)) by (bit_vector)
        requires
            x == ((a as u32) << 24u32) | ((b as u32) << 16u32) | ((c as u32) << 8u32) | (d as u32);
    assert((x >> 20u32 == 0xac100000u32 >> 20u32) == (a == 172 && 16 <= b && b <= 31)) by (bit_vector)
        requires
            x == ((a as u32) << 24u32) | ((b as u32) << 16u32) | ((c as u32) << 8u32) | (d as u32);
    assert((x >> 16u32 == 0xc0a80000u32 >> 16u32) == (a == 192 && b == 168)) by (bit_vector)
        requires
            x == ((a as u32) << 24u32) | ((b as u32) << 16u32) | ((c as u32) << 8u32) | (d as u32);
    assert((x >> 24u32 == 0x7f000000u32 >> 24u32) == (a == 127)) by (bit_vector)
        requires
            x == ((a as u32) << 24u32) | ((b as u32) << 16u32) | ((c as u32) << 8u32) | (d as u32);
    assert((x >> 16u32 == 0xa9fe0000u32 >> 16u32) == (a == 169 && b == 254)) by (bit_vector)
        requires
            x == ((a as u32) << 24u32) | ((b as u32) << 16u32) | ((c as u32) << 8u32) | (d as u32);
    assert((x >> 28u32 == 0xe0000000u32 >> 28u32) == (224 <= a && a <= 239)) by (bit_vector)
        requires
            x == ((a as u32) << 24u32) | ((b as u32) << 16u32) | ((c as u32) << 8u32) | (d as u32);
    assert((x == 0) == (a == 0 && b == 0 && c == 0 && d == 0)) by (bit_vector)
        requires
            x == ((a as u32) << 24u32) | ((b as u32) << 16u32) | ((c as u32) << 8u32) | (d as u32);
}

/// An IPv6 address is outside the public unicast space exactly when it is loopback (::1),
/// unspecified (::), multicast (ff00::/8), unique local (fc00::/7) or unicast link-local
/// (fe80::/10).
pub proof fn lemma_ipv6_non_public_blocks(a: u16, b: u16, c: u16, d: u16, e: u16, f: u16, g: u16, h: u16)
    ensures
        IpAddress::V6(a, b, c, d, e, f, g, h).spec_is_non_public() <==> {
            let rest_zero = b == 0 && c == 0 && d == 0 && e == 0 && f == 0 && g == 0;
            ||| (a == 0 && rest_zero && h == 1)
            ||| (a == 0 && rest_zero && h == 0)
            ||| (a >> 8u16) == 0xffu16
            ||| (a >> 9u16) == (0xfc00u16 >> 9u16)
            ||| (a >> 6u16) == (0xfe80u16 >> 6u16)
        },
{
    assert(((a >> 8u16) == 0xffu16) == (a >= 0xff00)) by (bit_vector);
    assert(((a >> 9u16) == (0xfc00u16 >> 9u16)) == (0xfc00 <= a && a <= 0xfdff)) by (bit_vector);
    assert(((a >> 6u16) == (0xfe80u16 >> 6u16)) == (0xfe80 <= a && a <= 0xfebf)) by (bit_vector);
}

// ---------------------------------------------------------------------------------------------
// Rendering
// ---------------------------------------------------------------------------------------------

pub open spec fn hex_digit_char(d: nat) -> char {
    if d < 10 {
        ((d + 48) as u32) as char
    } else {
        ((d + 87) as u32) as char
    }
}

/// Lower-case hexadecimal rendering without leading zeros.
pub open spec fn hex(n: nat) -> Seq<char>
    decreases n,
{
    if n < 16 {
        seq![hex_digit_char(n)]
    } else {
        hex(n / 16).push(hex_digit_char(n % 16))
    }
}

/// `a.b.c.d` with decimal octets.
pub open spec fn ipv4_text(a: u8, b: u8, c: u8, d: u8) -> Seq<char> {
    dec(a as nat) + seq!['.'] + dec(b as nat) + seq!['.'] + dec(c as nat) + seq!['.'] + dec(
        d as nat,
    )
}

/// Hexadecimal segments joined by `:`.
pub open spec fn join_hex(s: Seq<u16>) -> Seq<char>
    decreases s.len(),
{
    if s.len() == 0 {
        Seq::empty()
    } else if s.len() == 1 {
        hex(s[0] as nat)
    } else {
        join_hex(s.drop_last()) + seq![':'] + hex(s.last() as nat)
    }
}

/// Length of the run of zero segments starting at `i`.
pub open spec fn zero_run(s: Seq<u16>, i: int) -> nat
    decreases s.len() - i,
{
    if 0 <= i < s.len() && s[i] == 0 {
        1 + zero_run(s, i + 1)
    } else {
        0
    }
}

/// Start and length of the longest run of zero segments at or after `i`; the earliest such run
/// when several are equally long.
pub open spec fn longest_zero_run(s: Seq<u16>, i: int) -> (int, nat)
    decreases s.len() - i,
{
    if i < 0 || i >= s.len() {
        (0, 0)
    } else {
        let rest = longest_zero_run(s, i + 1);
        if zero_run(s, i) > 0 && zero_run(s, i) >= rest.1 {
            (i, zero_run(s, i))
        } else {
            rest
        }
    }
}

pub open spec fn segments(a: u16, b: u16, c: u16, d: u16, e: u16, f: u16, g: u16, h: u16) -> Seq<u16> {
    seq![a, b, c, d, e, f, g, h]
}

/// RFC 5952 text as the standard library renders it: IPv4-mapped addresses as `::ffff:a.b.c.d`,
/// otherwise lower-case hexadecimal segments with the longest run of two or more zero segments
/// (the first one on ties) compressed to `::`.
pub open spec fn ipv6_text(s: Seq<u16>) -> Seq<char> {
    if s[0] == 0 && s[1] == 0 && s[2] == 0 && s[3] == 0 && s[4] == 0 && s[5] == 0xffff {
        seq![':', ':', 'f', 'f', 'f', 'f', ':'] + ipv4_text(
            (s[6] / 256) as u8,
            (s[6] % 256) as u8,
            (s[7] / 256) as u8,
            (s[7] % 256) as u8,
        )
    } else {
        let run = longest_zero_run(s, 0);
        if run.1 > 1 {
            join_hex(s.subrange(0, run.0)) + seq![':', ':'] + join_hex(
                s.subrange(run.0 + run.1, 8),
            )
        } else {
            join_hex(s)
        }
    }
}

/// How an address is displayed.
pub open spec fn ip_text(ip: IpAddress) -> Seq<char> {
    match ip {
        IpAddress::V4(a, b, c, d) => ipv4_text(a, b, c, d),
        IpAddress::V6(a, b, c, d, e, f, g, h) => ipv6_text(segments(a, b, c, d, e, f, g, h)),
    }
}

fn hex_digit(d: u16) -> (c: char)
    requires
        d < 16,
    ensures
        c == hex_digit_char(d as nat),
{
    if d < 10 {
        ((d as u8) + 48) as char
    } else {
        ((d as u8) + 87) as char
    }
}

fn push_hex(s: &mut String, n: u16)
    ensures
        final(s)@ == old(s)@ + hex(n as nat),
    decreases n,
{
    if n < 16 {
        push_char(s, hex_digit(n));
        assert(old(s)@ + hex(n as nat) =~= old(s)@.push(hex_digit_char(n as nat)));
    } else {
        push_hex(s, n / 16);
        push_char(s, hex_digit(n % 16));
        assert(old(s)@ + hex(n as nat) =~= old(s)@ + hex((n / 16) as nat) + seq![
            hex_digit_char((n % 16) as nat),
        ]);
    }
}

fn push_ipv4(s: &mut String, a: u8, b: u8, c: u8, d: u8)
    ensures
        final(s)@ == old(s)@ + ipv4_text(a, b, c, d),
{
    push_dec(s, a as u64);
    push_char(s, '.');
    push_dec(s, b as u64);
    push_char(s, '.');
    push_dec(s, c as u64);
    push_char(s, '.');
    push_dec(s, d as u64);
    assert(final(s)@ =~= old(s)@ + ipv4_text(a, b, c, d));
}

fn push_join_hex(s: &mut String, segs: &Vec<u16>, from: usize, to: usize)
    requires
        from <= to <= segs.len(),
    ensures
        final(s)@ == old(s)@ + join_hex(segs@.subrange(from as int, to as int)),
{
    let mut i = from;
    while i < to
        invariant
            from <= i <= to <= segs.len(),
            s@ == old(s)@ + join_hex(segs@.subrange(from as int, i as int)),
        decreases to - i,
    {
        let ghost before = s@;
        if i > from {
            push_char(s, ':');
        }
        push_hex(s, segs[i]);
        let ghost sub = segs@.subrange(from as int, i + 1);
        assert(sub.drop_last() =~= segs@.subrange(from as int, i as int));
        if i == from {
            assert(segs@.subrange(from as int, i as int) =~= Seq::<u16>::empty());
            assert(s@ =~= old(s)@ + join_hex(sub));
        } else {
            assert(s@ =~= old(s)@ + join_hex(sub));
        }
        i = i + 1;
    }
}

/// Renders an address the way `IpAddr`'s `Display` does.
pub fn ip_to_string(ip: &IpAddress) -> (r: String)
    ensures
        r@ == ip_text(*ip),
{
    let mut r = String::new();
    match *ip {
        IpAddress::V4(a, b, c, d) => {
            push_ipv4(&mut r, a, b, c, d);
            assert(r@ =~= ip_text(*ip));
        },
        IpAddress::V6(a, b, c, d, e, f, g, h) => {
            let ghost segs = segments(a, b, c, d, e, f, g, h);
            if a == 0 && b == 0 && c == 0 && d == 0 && e == 0 && f == 0xffff {
                push_char(&mut r, ':');
                push_char(&mut r, ':');
                push_char(&mut r, 'f');
                push_char(&mut r, 'f');
                push_char(&mut r, 'f');
                push_char(&mut r, 'f');
                push_char(&mut r, ':');
                push_ipv4(&mut r, (g / 256) as u8, (g % 256) as u8, (h / 256) as u8, (h % 256) as u8);
                assert(r@ =~= ip_text(*ip));
            } else {
                let v: Vec<u16> = vec![a, b, c, d, e, f, g, h];
                assert(v@ =~= segs);
                let (start, len) = longest_run(&v);
                if len > 1 {
                    push_join_hex(&mut r, &v, 0, start);
                    push_char(&mut r, ':');
                    push_char(&mut r, ':');
                    push_join_hex(&mut r, &v, start + len, 8);
                    assert(r@ =~= ip_text(*ip));
                } else {
                    push_join_hex(&mut r, &v, 0, 8);
                    assert(v@.subrange(0, 8) =~= v@);
                    assert(r@ =~= ip_text(*ip));
                }
            }
        },
    }
    r
}

fn longest_run(v: &Vec<u16>) -> (r: (usize, usize))
    requires
        v.len() == 8,
    ensures
        r.0 as int == longest_zero_run(v@, 0).0,
        r.1 as nat == longest_zero_run(v@, 0).1,
        r.0 + r.1 <= 8,
{
    let mut run: usize = 0;
    let mut best_start: usize = 0;
    let mut best_len: usize = 0;
    let mut i: usize = 8;
    while i > 0
        invariant
            v.len() == 8,
            i <= 8,
            run as nat == zero_run(v@, i as int),
            best_start as int == longest_zero_run(v@, i as int).0,
            best_len as nat == longest_zero_run(v@, i as int).1,
            run <= 8 - i,
            best_len == 0 ==> best_start == 0,
            best_len == 0 || (i <= best_start && best_start + best_len <= 8),
        decreases i,
    {
        i = i - 1;
        if v[i] == 0 {
            run = run + 1;
        } else {
            run = 0;
        }
        assert(run as nat == zero_run(v@, i as int));
        if run > 0 && run >= best_len {
            best_start = i;
            best_len = run;
        }
    }
    (best_start, best_len)
}

// ---------------------------------------------------------------------------------------------
// Textual address syntax
// ---------------------------------------------------------------------------------------------

/// `s` cut at every `sep`, as `str::split` cuts it (always at least one piece).
pub open spec fn split(s: Seq<char>, sep: char) -> Seq<Seq<char>>
    decreases s.len(),
{
    if s.len() == 0 {
        seq![Seq::<char>::empty()]
    } else {
        let p = split(s.drop_last(), sep);
        if s.last() == sep {
            p.push(Seq::<char>::empty())
        } else {
            p.update(p.len() - 1, p.last().push(s.last()))
        }
    }
}

pub proof fn lemma_split_nonempty(s: Seq<char>, sep: char)
    ensures
        split(s, sep).len() >= 1,
    decreases s.len(),
{
    if s.len() > 0 {
        lemma_split_nonempty(s.drop_last(), sep);
    }
}

/// One IPv6 group: one to four hexadecimal digits.
pub open spec fn is_h16(p: Seq<char>) -> bool {
    1 <= p.len() <= 4 && forall|i: int| 0 <= i < p.len() ==> is_hex(#[trigger] p[i])
}

/// One dotted-quad octet: one to three decimal digits, no leading zero, at most 255.
pub open spec fn is_dec_octet(p: Seq<char>) -> bool {
    &&& 1 <= p.len() <= 3
    &&& all_digits(p)
    &&& (p.len() == 1 || p[0] != '0')
    &&& dec_value(p) <= 255
}

/// A dotted-quad IPv4 address.
pub open spec fn is_ipv4_literal(s: Seq<char>) -> bool {
    let parts = split(s, '.');
    parts.len() == 4 && forall|i: int| 0 <= i < 4 ==> is_dec_octet(#[trigger] parts[i])
}

/// Number of 16-bit units written by a `:`-separated group list without `::`, where the last
/// piece may be an embedded IPv4 address (two units) when `allow_v4` holds.
pub open spec fn group_units(t: Seq<char>, allow_v4: bool) -> Option<nat> {
    let parts = split(t, ':');
    if t.len() == 0 {
        Some(0)
    } else if forall|i: int| 0 <= i < parts.len() ==> is_h16(#[trigger] parts[i]) {
        Some(parts.len())
    } else if allow_v4 && is_ipv4_literal(parts.last()) && (forall|i: int|
        0 <= i < parts.len() - 1 ==> is_h16(#[trigger] parts[i])) {
        Some(parts.len() + 1)
    } else {
        None
    }
}

pub open spec fn dcolon_at(s: Seq<char>, p: int) -> bool {
    0 <= p && p + 1 < s.len() && s[p] == ':' && s[p + 1] == ':'
}

/// The textual IPv6 forms that `Ipv6Addr::from_str` accepts: eight groups, or six groups and an
/// embedded IPv4 address, or a list compressed by one `::` standing for at least one zero
/// group, where an embedded IPv4 address may only end the part after `::`.
pub open spec fn is_ipv6_literal(s: Seq<char>) -> bool {
    if exists|p: int| dcolon_at(s, p) {
        let p = choose|p: int| dcolon_at(s, p) && forall|q: int| 0 <= q < p ==> !dcolon_at(s, q);
        let head = group_units(s.subrange(0, p), false);
        let tail = group_units(s.subrange(p + 2, s.len() as int), true);
        head is Some && tail is Some && head->0 + tail->0 <= 7
    } else {
        group_units(s, true) == Some(8nat)
    }
}

/// The views of a sequence of character vectors.
pub open spec fn views(v: Seq<Vec<char>>) -> Seq<Seq<char>> {
    v.map_values(|x: Vec<char>| x@)
}

/// Splits `s` at every `sep`.
pub fn split_chars(s: &Vec<char>, sep: char) -> (r: Vec<Vec<char>>)
    ensures
        views(r@) == split(s@, sep),
{
    let mut done: Vec<Vec<char>> = Vec::new();
    let mut cur: Vec<char> = Vec::new();
    let mut i: usize = 0;
    assert(split(s@.subrange(0, 0), sep) =~= seq![Seq::<char>::empty()]);
    assert(views(done@).push(cur@) =~= seq![Seq::<char>::empty()]);
    while i < s.len()
        invariant
            i <= s.len(),
            views(done@).push(cur@) == split(s@.subrange(0, i as int), sep),
        decreases s.len() - i,
    {
        let c = s[i];
        let ghost pre = s@.subrange(0, i as int);
        let ghost next = s@.subrange(0, i + 1);
        assert(next.drop_last() =~= pre);
        assert(next.last() == c);
        let ghost old_done = done@;
        let ghost old_cur = cur@;
        if c == sep {
            done.push(cur);
            cur = Vec::new();
            assert(views(done@) =~= views(old_done).push(old_cur));
            assert(views(done@).push(cur@) =~= split(pre, sep).push(Seq::<char>::empty()));
        } else {
            cur.push(c);
            assert(views(done@).push(cur@) =~= split(pre, sep).update(
                split(pre, sep).len() - 1,
                old_cur.push(c),
            ));
        }
        i = i + 1;
    }
    assert(s@.subrange(0, s@.len() as int) =~= s@);
    let ghost old_done = done@;
    let ghost old_cur = cur@;
    done.push(cur);
    assert(views(done@) =~= views(old_done).push(old_cur));
    done
}

pub fn is_h16_chars(p: &Vec<char>) -> (r: bool)
    ensures
        r == is_h16(p@),
{
    if p.len() < 1 || p.len() > 4 {
        return false;
    }
    let mut i: usize = 0;
    while i < p.len()
        invariant
            i <= p.len(),
            forall|j: int| 0 <= j < i ==> is_hex(#[trigger] p@[j]),
        decreases p.len() - i,
    {
        if !is_hex_char(p[i]) {
            return false;
        }
        i = i + 1;
    }
    true
}

pub fn is_dec_octet_chars(p: &Vec<char>) -> (r: bool)
    ensures
        r == is_dec_octet(p@),
{
    if p.len() < 1 || p.len() > 3 {
        return false;
    }
    let mut value: u32 = 0;
    let mut i: usize = 0;
    while i < p.len()
        invariant
            p.len() <= 3,
            i <= p.len(),
            all_digits(p@.subrange(0, i as int)),
            value as nat == dec_value(p@.subrange(0, i as int)),
            i == 0 ==> value == 0,
            i <= 1 ==> value < 10,
            i <= 2 ==> value < 100,
            value < 1000,
        decreases p.len() - i,
    {
        if !is_digit_char(p[i]) {
            assert(!is_digit(p@[i as int]));
            return false;
        }
        assert(p@.subrange(0, i + 1) =~= p@.subrange(0, i as int).push(p@[i as int]));
        proof {
            lemma_dec_value_extend(p@.subrange(0, i as int), p@[i as int]);
        }
        value = value * 10 + (p[i] as u32 - 48);
        i = i + 1;
        assert forall|j: int| 0 <= j < i implies is_digit(#[trigger] p@.subrange(0, i as int)[j]) by {
            if j < i - 1 {
                assert(p@.subrange(0, i as int)[j] == p@.subrange(0, i - 1)[j]);
            }
        }
    }
    assert(p@.subrange(0, p@.len() as int) =~= p@);
    (p.len() == 1 || p[0] != '0') && value <= 255
}

/// Index of the first piece that fails `pred`, or the number of pieces.
fn first_non_group(parts: &Vec<Vec<char>>) -> (k: usize)
    ensures
        k <= parts.len(),
        forall|j: int| 0 <= j < k ==> is_h16(#[trigger] views(parts@)[j]),
        k < parts.len() ==> !is_h16(views(parts@)[k as int]),
{
    let mut i: usize = 0;
    while i < parts.len()
        invariant
            i <= parts.len(),
            forall|j: int| 0 <= j < i ==> is_h16(#[trigger] views(parts@)[j]),
        decreases parts.len() - i,
    {
        assert(views(parts@)[i as int] == parts@[i as int]@);
        if !is_h16_chars(&parts[i]) {
            return i;
        }
        i = i + 1;
    }
    i
}

pub fn is_ipv4_literal_chars(s: &Vec<char>) -> (r: bool)
    ensures
        r == is_ipv4_literal(s@),
{
    let parts = split_chars(s, '.');
    if parts.len() != 4 {
        return false;
    }
    let mut i: usize = 0;
    while i < 4
        invariant
            parts.len() == 4,
            views(parts@) == split(s@, '.'),
            i <= 4,
            forall|j: int| 0 <= j < i ==> is_dec_octet(#[trigger] split(s@, '.')[j]),
        decreases 4 - i,
    {
        assert(views(parts@)[i as int] == parts@[i as int]@);
        if !is_dec_octet_chars(&parts[i]) {
            return false;
        }
        i = i + 1;
    }
    true
}

/// `group_units`, where counts above eight are reported as `None`.
fn group_units_chars(t: &Vec<char>, allow_v4: bool) -> (r: Option<usize>)
    ensures
        r matches Some(n) ==> group_units(t@, allow_v4) == Some(n as nat) && n <= 8,
        r is None ==> group_units(t@, allow_v4) is None || group_units(t@, allow_v4)->0 > 8,
{
    if t.len() == 0 {
        return Some(0);
    }
    let parts = split_chars(t, ':');
    proof {
        lemma_split_nonempty(t@, ':');
    }
    let ghost sp = split(t@, ':');
    let n = parts.len();
    if n > 8 {
        return None;
    }
    let k = first_non_group(&parts);
    if k == n {
        return Some(n);
    }
    if allow_v4 && k == n - 1 {
        assert(views(parts@)[k as int] == parts@[k as int]@);
        if is_ipv4_literal_chars(&parts[k]) {
            if n + 1 > 8 {
                return None;
            }
            return Some(n + 1);
        }
    }
    None
}

pub proof fn lemma_split_len(s: Seq<char>, sep: char)
    ensures
        split(s, sep).len() <= s.len() + 1,
    decreases s.len(),
{
    if s.len() > 0 {
        lemma_split_len(s.drop_last(), sep);
        lemma_split_nonempty(s.drop_last(), sep);
    }
}

/// First position of `::` in `s`.
fn find_dcolon(s: &Vec<char>) -> (r: Option<usize>)
    ensures
        r matches Some(p) ==> dcolon_at(s@, p as int) && forall|q: int| 0 <= q < p ==> !dcolon_at(s@, q),
        r is None ==> forall|q: int| !dcolon_at(s@, q),
{
    if s.len() < 2 {
        return None;
    }
    let mut p: usize = 0;
    while p < s.len() - 1
        invariant
            s.len() >= 2,
            p <= s.len() - 1,
            forall|q: int| 0 <= q < p ==> !dcolon_at(s@, q),
        decreases s.len() - p,
    {
        if s[p] == ':' && s[p + 1] == ':' {
            return Some(p);
        }
        p = p + 1;
    }
    None
}

/// Whether `s` is IPv6 text that the standard library parser accepts.
pub fn is_ipv6_literal_chars(s: &Vec<char>) -> (r: bool)
    ensures
        r == is_ipv6_literal(s@),
{
    match find_dcolon(s) {
        Some(p) => {
            let ghost q = choose|q: int| dcolon_at(s@, q) && forall|r: int| 0 <= r < q ==> !dcolon_at(s@, r);
            assert(p + 2 <= s@.len());
            assert(q == p) by {
                if q < p {
                } else if q > p {
                }
            }
            let head = sub_vec(s, 0, p);
            let end = s.len();
            assert(p + 2 <= end);
            let tail = sub_vec(s, p + 2, end);
            let h = group_units_chars(&head, false);
            let t = group_units_chars(&tail, true);
            match (h, t) {
                (Some(h), Some(t)) => h + t <= 7,
                _ => false,
            }
        },
        None => {
            match group_units_chars(s, true) {
                Some(n) => n == 8,
                None => false,
            }
        },
    }
}

/// `s[from..to]` as a new vector.
pub fn sub_vec(s: &Vec<char>, from: usize, to: usize) -> (r: Vec<char>)
    requires
        from <= to <= s.len(),
    ensures
        r@ == s@.subrange(from as int, to as int),
{
    let mut r: Vec<char> = Vec::new();
    let mut i = from;
    while i < to
        invariant
            from <= i <= to <= s.len(),
            r@ == s@.subrange(from as int, i as int),
        decreases to - i,
    {
        r.push(s[i]);
        i = i + 1;
        assert(r@ =~= s@.subrange(from as int, i as int));
    }
    r
}

} // verus!
