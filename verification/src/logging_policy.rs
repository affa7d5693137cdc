//! Process logging policy that preserves the gateway's payload-minimization boundary: records of
//! the proxy framework's own targets may carry request-derived material, so their messages are
//! replaced by a fixed marker, while the gateway's own targets keep their bounded messages.

use vstd::prelude::*;

verus! {

/// The message that replaces every framework diagnostic.
pub const REDACTED_PINGORA_DIAGNOSTIC: &'static str = "Pingora diagnostic message redacted by gateway payload-minimization policy";

/// Whether a log target belongs to the proxy framework: `pingora` itself, or a target starting
/// with `pingora_` or `pingora::`.
pub open spec fn is_framework_target(t: Seq<char>) -> bool {
    t == "pingora"@ || "pingora_"@.is_prefix_of(t) || "pingora::"@.is_prefix_of(t)
}

/// Whether a log target's messages must be redacted.
pub fn is_pingora_dependency_target(target: &str) -> (r: bool)
    ensures
        r == is_framework_target(target@),
{
    let t = crate::text::chars_of(target);
    crate::text::chars_eq(&t, &crate::text::chars_of("pingora"))
        || crate::text::starts_with_chars(&t, &crate::text::chars_of("pingora_"))
        || crate::text::starts_with_chars(&t, &crate::text::chars_of("pingora::"))
}

/// The message to log for a record of `target`: the redaction marker for framework targets,
/// the record's own message otherwise.
pub fn safe_message<'a>(target: &str, message: &'a str) -> (r: &'a str)
    ensures
        is_framework_target(target@) ==> r@ == REDACTED_PINGORA_DIAGNOSTIC@,
        !is_framework_target(target@) ==> r@ == message@,
{
    if is_pingora_dependency_target(target) {
        REDACTED_PINGORA_DIAGNOSTIC
    } else {
        message
    }
}

} // verus!
