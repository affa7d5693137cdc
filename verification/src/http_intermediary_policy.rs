//! HTTP intermediary control policy shared by the delivery adapters: RFC 9110 `Max-Forwards`
//! handling for `TRACE` and `OPTIONS`.

use vstd::prelude::*;
use vstd::utf8::encode_utf8;

use crate::http_model::{values_of, without_name, HeaderList, ProxyError, ProxyErrorView};
use crate::text::{dec, digit_char, push_dec};

verus! {

/// Largest forwarded hop budget emitted by the gateway after decrementing an admitted value.
pub const MAX_SUPPORTED_MAX_FORWARDS: u32 = 255;

/// Intermediary action derived from an admitted request's `Max-Forwards` field.
#[derive(Debug, Clone, Copy, PartialEq, Eq, Structural)]
pub enum MaxForwardsAction {
    /// The method assigns no intermediary semantics to `Max-Forwards`, or no field exists.
    Ignore,
    /// This gateway is the final recipient because the hop budget is zero.
    FinalRecipient,
    /// Forward after replacing the field with this decremented bounded value.
    Forward(u32),
}

/// An ASCII decimal digit byte.
pub open spec fn is_digit_byte(b: u8) -> bool {
    48 <= b && b <= 57
}

/// The value of a sequence of ASCII decimal digits.
pub open spec fn dec_bytes(v: Seq<u8>) -> nat
    decreases v.len(),
{
    if v.len() == 0 {
        0
    } else {
        dec_bytes(v.drop_last()) * 10 + (v.last() - 48) as nat
    }
}

pub open spec fn invalid_max_forwards_reason() -> Seq<char> {
    "TRACE/OPTIONS Max-Forwards must contain exactly one decimal value"@
}

/// What a request's `Max-Forwards` asks of the gateway: `None` when it is malformed or repeated.
pub open spec fn max_forwards_of(method: Seq<char>, headers: Seq<(Seq<char>, Seq<u8>)>) -> Option<MaxForwardsAction> {
    let values = values_of(headers, "max-forwards"@);
    if method != "TRACE"@ && method != "OPTIONS"@ {
        Some(MaxForwardsAction::Ignore)
    } else if values.len() == 0 {
        Some(MaxForwardsAction::Ignore)
    } else if values.len() > 1 {
        None
    } else {
        let v = values[0];
        if v.len() == 0 || !(forall|i: int| 0 <= i < v.len() ==> is_digit_byte(#[trigger] v[i])) {
            None
        } else if dec_bytes(v) == 0 {
            Some(MaxForwardsAction::FinalRecipient)
        } else {
            Some(MaxForwardsAction::Forward(if dec_bytes(v) - 1 > 255 { 255u32 } else { (dec_bytes(v) - 1) as u32 }))
        }
    }
}

proof fn lemma_dec_bytes_zero(v: Seq<u8>)
    requires
        forall|i: int| 0 <= i < v.len() ==> is_digit_byte(#[trigger] v[i]),
    ensures
        (dec_bytes(v) == 0) == (forall|i: int| 0 <= i < v.len() ==> #[trigger] v[i] == 48),
    decreases v.len(),
{
    if v.len() > 0 {
        let p = v.drop_last();
        assert forall|i: int| 0 <= i < p.len() implies is_digit_byte(#[trigger] p[i]) by {
            assert(p[i] == v[i]);
        }
        lemma_dec_bytes_zero(p);
        if forall|i: int| 0 <= i < v.len() ==> #[trigger] v[i] == 48 {
            assert forall|i: int| 0 <= i < p.len() implies #[trigger] p[i] == 48 by {
                assert(p[i] == v[i]);
            }
        }
        if dec_bytes(v) == 0 {
            assert forall|i: int| 0 <= i < v.len() implies #[trigger] v[i] == 48 by {
                if i < p.len() {
                    assert(p[i] == v[i]);
                }
            }
        }
    }
}

/// The ASCII bytes of the decimal rendering of `n`.
pub open spec fn dec_ascii(n: nat) -> Seq<u8> {
    dec(n).map_values(|c: char| (c as u32) as u8)
}

proof fn lemma_dec_ascii(n: nat)
    ensures
        dec_ascii(n).len() > 0,
        forall|i: int| 0 <= i < dec_ascii(n).len() ==> is_digit_byte(#[trigger] dec_ascii(n)[i]),
        dec_bytes(dec_ascii(n)) == n,
    decreases n,
{
    let d = digit_char(n % 10);
    assert((d as u32) == (n % 10) + 48);
    let byte = (d as u32) as u8;
    assert(byte == (n % 10) + 48);
    assert((byte - 48) as nat == n % 10);
    if n < 10 {
        assert(dec_ascii(n) =~= seq![((d as u32) as u8)]);
        assert(dec_ascii(n).drop_last() =~= Seq::<u8>::empty());
        assert(dec_ascii(n).last() == byte);
        assert(dec_bytes(dec_ascii(n)) == dec_bytes(Seq::<u8>::empty()) * 10 + (byte - 48) as nat);
    } else {
        lemma_dec_ascii(n / 10);
        assert(dec_ascii(n) =~= dec_ascii(n / 10).push((d as u32) as u8));
        assert(dec_ascii(n).drop_last() =~= dec_ascii(n / 10));
        assert(dec_ascii(n).last() == byte);
        assert(dec_bytes(dec_ascii(n)) == dec_bytes(dec_ascii(n / 10)) * 10 + (byte - 48) as nat);
        assert(n == (n / 10) * 10 + n % 10);
        assert forall|i: int| 0 <= i < dec_ascii(n).len() implies is_digit_byte(#[trigger] dec_ascii(n)[i]) by {
            if i < dec_ascii(n / 10).len() {
                assert(dec_ascii(n)[i] == dec_ascii(n / 10)[i]);
            }
        }
    }
}

/// `Max-Forwards` on `TRACE` and `OPTIONS`: a single field holding the decimal number `n` makes
/// the gateway the final recipient exactly when `n` is zero, and otherwise forwards the request
/// with the budget decremented by one and capped at 255. A single all-digit value means final
/// recipient exactly when all its digits are `0`.
pub proof fn lemma_max_forwards_decrements(method: Seq<char>, headers: Seq<(Seq<char>, Seq<u8>)>, n: nat)
    requires
        method == "TRACE"@ || method == "OPTIONS"@,
        values_of(headers, "max-forwards"@) == seq![dec_ascii(n)],
    ensures
        n == 0 ==> max_forwards_of(method, headers) == Some(MaxForwardsAction::FinalRecipient),
        n >= 1 ==> max_forwards_of(method, headers) == Some(MaxForwardsAction::Forward(
            if n - 1 > 255 { 255u32 } else { (n - 1) as u32 },
        )),
{
    lemma_dec_ascii(n);
}

/// A single all-digit `Max-Forwards` value on `TRACE` or `OPTIONS` makes the gateway the final
/// recipient exactly when every digit is `0`; otherwise the request is forwarded.
pub proof fn lemma_final_recipient_only_at_zero(method: Seq<char>, headers: Seq<(Seq<char>, Seq<u8>)>, v: Seq<u8>)
    requires
        method == "TRACE"@ || method == "OPTIONS"@,
        values_of(headers, "max-forwards"@) == seq![v],
        v.len() > 0,
        forall|i: int| 0 <= i < v.len() ==> is_digit_byte(#[trigger] v[i]),
    ensures
        (max_forwards_of(method, headers) == Some(MaxForwardsAction::FinalRecipient)) == (forall|i: int| 0 <= i < v.len() ==> #[trigger] v[i] == 48),
        !(forall|i: int| 0 <= i < v.len() ==> #[trigger] v[i] == 48) ==> max_forwards_of(method, headers) matches Some(MaxForwardsAction::Forward(_)),
{
    lemma_dec_bytes_zero(v);
}

/// Classifies `Max-Forwards` for a request without changing it. Long decimal values saturate,
/// since only the bounded forwarded value matters; malformed or repeated fields are refused with
/// 400 before an upstream is selected.
pub fn max_forwards_action(method: &str, request: &HeaderList) -> (r: Result<MaxForwardsAction, ProxyError>)
    ensures
        match max_forwards_of(method@, request@) {
            Some(a) => r == Ok::<MaxForwardsAction, ProxyError>(a),
            None => r matches Err(e) && e@ == ProxyErrorView::HttpStatus(400, invalid_max_forwards_reason()),
        },
{
    let m = crate::text::chars_of(method);
    let trace = crate::text::chars_eq(&m, &crate::text::chars_of("TRACE"));
    let options = crate::text::chars_eq(&m, &crate::text::chars_of("OPTIONS"));
    if !trace && !options {
        return Ok(MaxForwardsAction::Ignore);
    }
    let values = request.values_named("max-forwards");
    proof {
        assert(values@.map_values(|v: Vec<u8>| v@).len() == values@.len());
    }
    if values.len() == 0 {
        return Ok(MaxForwardsAction::Ignore);
    }
    if values.len() > 1 {
        return Err(ProxyError::HttpStatus { status: 400, reason: "TRACE/OPTIONS Max-Forwards must contain exactly one decimal value".to_owned() });
    }
    let bytes = &values[0];
    assert(values@.map_values(|v: Vec<u8>| v@)[0] == bytes@);
    if bytes.len() == 0 {
        return Err(ProxyError::HttpStatus { status: 400, reason: "TRACE/OPTIONS Max-Forwards must contain exactly one decimal value".to_owned() });
    }
    let mut received: u32 = 0;
    let mut all_zero = true;
    let mut i: usize = 0;
    while i < bytes.len()
        invariant
            i <= bytes.len(),
            trace || options,
            trace == (method@ == "TRACE"@),
            options == (method@ == "OPTIONS"@),
            values@.map_values(|v: Vec<u8>| v@) == values_of(request@, "max-forwards"@),
            values@.len() == 1,
            values_of(request@, "max-forwards"@)[0] == bytes@,
            forall|k: int| 0 <= k < i ==> is_digit_byte(#[trigger] bytes@[k]),
            received as nat == if dec_bytes(bytes@.subrange(0, i as int)) > u32::MAX { u32::MAX as nat } else { dec_bytes(bytes@.subrange(0, i as int)) },
            all_zero == (forall|k: int| 0 <= k < i ==> #[trigger] bytes@[k] == 48),
        decreases bytes.len() - i,
    {
        let b = bytes[i];
        if !(48 <= b && b <= 57) {
            assert(!is_digit_byte(bytes@[i as int]));
            return Err(ProxyError::HttpStatus { status: 400, reason: "TRACE/OPTIONS Max-Forwards must contain exactly one decimal value".to_owned() });
        }
        let ghost pre = bytes@.subrange(0, i as int);
        assert(bytes@.subrange(0, i + 1).drop_last() =~= pre);
        let ghost d = dec_bytes(pre);
        proof {
            if d > u32::MAX {
                assert(d * 10 + (b - 48) > u32::MAX) by (nonlinear_arith)
                    requires d > u32::MAX;
            } else if received > 429496729 {
                assert(d * 10 > u32::MAX) by (nonlinear_arith)
                    requires d > 429496729;
            }
        }
        let times10: u32 = if received > 429496729 {
            u32::MAX
        } else {
            received * 10
        };
        received = times10.saturating_add((b - 48) as u32);
        if b != 48 {
            all_zero = false;
        }
        i = i + 1;
    }
    assert(bytes@.subrange(0, bytes@.len() as int) =~= bytes@);
    proof {
        lemma_dec_bytes_zero(bytes@);
    }
    if all_zero {
        return Ok(MaxForwardsAction::FinalRecipient);
    }
    let decremented = received.saturating_sub(1);
    Ok(MaxForwardsAction::Forward(if decremented > MAX_SUPPORTED_MAX_FORWARDS { MAX_SUPPORTED_MAX_FORWARDS } else { decremented }))
}

/// The request fields after a forwarding-eligible hop budget is rewritten to `value`.
pub open spec fn with_max_forwards(s: Seq<(Seq<char>, Seq<u8>)>, value: u32) -> Seq<(Seq<char>, Seq<u8>)> {
    without_name(s, "Max-Forwards"@).push(("Max-Forwards"@, encode_utf8(dec(value as nat))))
}

/// Rewrites a forwarding-eligible `TRACE`/`OPTIONS` hop budget immediately before delivery. A
/// final-recipient budget at this point means admission did not answer locally; it is refused
/// with 501 rather than forwarded.
pub fn apply_max_forwards_before_forward(method: &str, request: &mut HeaderList) -> (r: Result<(), ProxyError>)
    ensures
        match max_forwards_of(method@, old(request)@) {
            None => r matches Err(e) && e@ == ProxyErrorView::HttpStatus(400, invalid_max_forwards_reason())
                && final(request)@ == old(request)@,
            Some(MaxForwardsAction::Ignore) => r is Ok && final(request)@ == old(request)@,
            Some(MaxForwardsAction::FinalRecipient) => r matches Err(e)
                && e@ == ProxyErrorView::HttpStatus(501, "TRACE/OPTIONS Max-Forwards budget exhausted at gateway"@)
                && final(request)@ == old(request)@,
            Some(MaxForwardsAction::Forward(v)) => r is Ok && final(request)@ == with_max_forwards(old(request)@, v),
        },
{
    match max_forwards_action(method, request)? {
        MaxForwardsAction::Ignore => Ok(()),
        MaxForwardsAction::Forward(value) => {
            let mut text = String::new();
            push_dec(&mut text, value as u64);
            proof {
                assert(text@ =~= dec(value as nat));
                crate::forwarding_policy::lemma_dec_printable(value as nat);
                crate::forwarding_policy::lemma_printable_value_text(text@);
            }
            match request.insert("Max-Forwards", text.as_str()) {
                Ok(()) => Ok(()),
                Err(_) => Err(ProxyError::InvalidHttpHeader),
            }
        },
        MaxForwardsAction::FinalRecipient => Err(ProxyError::HttpStatus {
            status: 501,
            reason: "TRACE/OPTIONS Max-Forwards budget exhausted at gateway".to_owned(),
        }),
    }
}

} // verus!
