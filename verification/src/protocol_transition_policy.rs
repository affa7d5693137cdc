//! Admission policy for connection-wide HTTP protocol transitions.
//!
//! Version 1 admits no HTTP/1 `Upgrade` semantics: a request that names an upgrade, in an
//! `Upgrade` field or as a `Connection` token, is refused before it is proxied.

use vstd::prelude::*;

verus! {

/// `u8::is_ascii_whitespace`: space, tab, line feed, form feed, carriage return.
pub open spec fn is_ascii_ws(b: u8) -> bool {
    b == 32 || b == 9 || b == 10 || b == 12 || b == 13
}

/// `s` without leading ASCII whitespace.
pub open spec fn trim_front_bytes(s: Seq<u8>) -> Seq<u8>
    decreases s.len(),
{
    if s.len() > 0 && is_ascii_ws(s[0]) {
        trim_front_bytes(s.drop_first())
    } else {
        s
    }
}

/// `s` without trailing ASCII whitespace.
pub open spec fn trim_back_bytes(s: Seq<u8>) -> Seq<u8>
    decreases s.len(),
{
    if s.len() > 0 && is_ascii_ws(s.last()) {
        trim_back_bytes(s.drop_last())
    } else {
        s
    }
}

/// `<[u8]>::trim_ascii`.
pub open spec fn trim_ascii_bytes(s: Seq<u8>) -> Seq<u8> {
    trim_back_bytes(trim_front_bytes(s))
}

/// ASCII lower-casing of one byte.
pub open spec fn lower_byte(b: u8) -> u8 {
    if 65 <= b && b <= 90 {
        (b + 32) as u8
    } else {
        b
    }
}

/// `<[u8]>::eq_ignore_ascii_case`.
pub open spec fn eq_ignore_case_bytes(a: Seq<u8>, b: Seq<u8>) -> bool {
    a.len() == b.len() && forall|i: int| 0 <= i < a.len() ==> lower_byte(#[trigger] a[i]) == lower_byte(b[i])
}

/// The bytes of `upgrade`.
pub open spec fn upgrade_bytes() -> Seq<u8> {
    seq![117u8, 112u8, 103u8, 114u8, 97u8, 100u8, 101u8]
}

/// `v[i..j]` is one of the comma-separated tokens of `v`.
pub open spec fn is_token(v: Seq<u8>, i: int, j: int) -> bool {
    &&& 0 <= i <= j <= v.len()
    &&& (i == 0 || v[i - 1] == 44)
    &&& (j == v.len() || v[j] == 44)
    &&& forall|k: int| i <= k < j ==> v[k] != 44
}

/// Some comma-separated token of a `Connection` value is `upgrade`, ignoring surrounding ASCII
/// whitespace and ASCII case.
pub open spec fn names_upgrade(v: Seq<u8>) -> bool {
    exists|i: int, j: int| is_token(v, i, j) && eq_ignore_case_bytes(trim_ascii_bytes(#[trigger] v.subrange(i, j)), upgrade_bytes())
}

/// An HTTP/1 request asks for a connection-wide protocol transition.
pub open spec fn transition_requested(upgrade_field_present: bool, connection_values: Seq<Seq<u8>>) -> bool {
    upgrade_field_present || exists|k: int| 0 <= k < connection_values.len() && names_upgrade(#[trigger] connection_values[k])
}

fn trimmed_token(v: &Vec<u8>, i: usize, j: usize) -> (r: Vec<u8>)
    requires
        i <= j <= v.len(),
    ensures
        r@ == trim_ascii_bytes(v@.subrange(i as int, j as int)),
{
    let ghost t = v@.subrange(i as int, j as int);
    let mut lo = i;
    assert(v@.subrange(lo as int, j as int) =~= t);
    while lo < j && (v[lo] == 32 || v[lo] == 9 || v[lo] == 10 || v[lo] == 12 || v[lo] == 13)
        invariant
            i <= lo <= j <= v.len(),
            t == v@.subrange(i as int, j as int),
            trim_front_bytes(t) == trim_front_bytes(v@.subrange(lo as int, j as int)),
        decreases j - lo,
    {
        assert(v@.subrange(lo as int, j as int).drop_first() =~= v@.subrange(lo + 1, j as int));
        lo = lo + 1;
    }
    let mut hi = j;
    assert(trim_front_bytes(t) == v@.subrange(lo as int, hi as int));
    while hi > lo && (v[hi - 1] == 32 || v[hi - 1] == 9 || v[hi - 1] == 10 || v[hi - 1] == 12 || v[hi - 1] == 13)
        invariant
            i <= lo <= hi <= j <= v.len(),
            trim_ascii_bytes(t) == trim_back_bytes(v@.subrange(lo as int, hi as int)),
        decreases hi - lo,
    {
        assert(v@.subrange(lo as int, hi as int).drop_last() =~= v@.subrange(lo as int, hi - 1));
        hi = hi - 1;
    }
    let mut r: Vec<u8> = Vec::new();
    let mut k = lo;
    while k < hi
        invariant
            lo <= k <= hi <= v.len(),
            r@ == v@.subrange(lo as int, k as int),
        decreases hi - k,
    {
        r.push(v[k]);
        assert(r@ =~= v@.subrange(lo as int, k + 1));
        k = k + 1;
    }
    r
}

fn is_upgrade(t: &Vec<u8>) -> (r: bool)
    ensures
        r == eq_ignore_case_bytes(t@, upgrade_bytes()),
{
    let expected: Vec<u8> = vec![117u8, 112u8, 103u8, 114u8, 97u8, 100u8, 101u8];
    assert(expected@ =~= upgrade_bytes());
    if t.len() != 7 {
        return false;
    }
    let mut i: usize = 0;
    while i < 7
        invariant
            i <= 7,
            t@.len() == 7,
            expected@ == upgrade_bytes(),
            forall|k: int| 0 <= k < i ==> lower_byte(#[trigger] t@[k]) == lower_byte(upgrade_bytes()[k]),
        decreases 7 - i,
    {
        let b = t[i];
        let lb: u8 = if 65 <= b && b <= 90 { b + 32 } else { b };
        if lb != expected[i] {
            assert(lower_byte(upgrade_bytes()[i as int]) == upgrade_bytes()[i as int]);
            return false;
        }
        i = i + 1;
    }
    true
}

/// Whether some comma-separated token of a `Connection` value is `upgrade`.
pub fn connection_value_names_upgrade(v: &Vec<u8>) -> (r: bool)
    ensures
        r == names_upgrade(v@),
{
    let mut start: usize = 0;
    let mut p: usize = 0;
    while p <= v.len()
        invariant
            start <= p <= v.len(),
            start == 0 || v@[start - 1] == 44,
            forall|k: int| start <= k < p && k < v.len() ==> v@[k] != 44,
            forall|i: int, j: int| #![trigger is_token(v@, i, j)] is_token(v@, i, j) && j < p
                ==> !eq_ignore_case_bytes(trim_ascii_bytes(v@.subrange(i, j)), upgrade_bytes()),
        decreases v.len() + 1 - p,
    {
        if p == v.len() || v[p] == 44 {
            let token = trimmed_token(v, start, p);
            if is_upgrade(&token) {
                assert(is_token(v@, start as int, p as int));
                return true;
            }
            proof {
                assert forall|i: int, j: int| #![trigger is_token(v@, i, j)] is_token(v@, i, j) && j < p + 1
                    implies !eq_ignore_case_bytes(trim_ascii_bytes(v@.subrange(i, j)), upgrade_bytes()) by {
                    if j == p {
                        if i < start {
                            assert(v@[start - 1] == 44);
                        } else if i > start {
                            assert(v@[i - 1] == 44);
                        }
                    }
                }
            }
            if p == v.len() {
                proof {
                    assert forall|i: int, j: int| is_token(v@, i, j) implies !eq_ignore_case_bytes(
                        trim_ascii_bytes(#[trigger] v@.subrange(i, j)),
                        upgrade_bytes(),
                    ) by {
                        assert(is_token(v@, i, j) && j < p + 1);
                    }
                }
                return false;
            }
            start = p + 1;
        } else {
            proof {
                assert forall|i: int, j: int| #![trigger is_token(v@, i, j)] is_token(v@, i, j) && j < p + 1
                    implies !eq_ignore_case_bytes(trim_ascii_bytes(v@.subrange(i, j)), upgrade_bytes()) by {
                    if j == p {
                        assert(v@[j] == 44);
                    }
                }
            }
        }
        p = p + 1;
    }
    false
}

/// Returns whether an HTTP/1 request attempts a connection-wide protocol transition.
///
/// An `Upgrade` field is sufficient evidence of an attempt. Each `Connection` value is also read
/// as a comma-separated, case-insensitive token list, so malformed or partial upgrade requests
/// cannot bypass the boundary; unrelated tokens such as `x-upgrade` do not match.
pub fn requests_http1_protocol_transition(upgrade_field_present: bool, connection_field_values: &Vec<Vec<u8>>) -> (r: bool)
    ensures
        r == transition_requested(upgrade_field_present, connection_field_values@.map_values(|v: Vec<u8>| v@)),
{
    let ghost values = connection_field_values@.map_values(|v: Vec<u8>| v@);
    if upgrade_field_present {
        return true;
    }
    let mut k: usize = 0;
    while k < connection_field_values.len()
        invariant
            k <= connection_field_values.len(),
            values == connection_field_values@.map_values(|v: Vec<u8>| v@),
            forall|m: int| 0 <= m < k ==> !names_upgrade(#[trigger] values[m]),
        decreases connection_field_values.len() - k,
    {
        if connection_value_names_upgrade(&connection_field_values[k]) {
            assert(names_upgrade(values[k as int]));
            return true;
        }
        k = k + 1;
    }
    false
}

} // verus!
