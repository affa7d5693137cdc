//! Transport-neutral HTTP response policy: explicit response-header mutations captured from a
//! consumer's existing proxy contract.

use vstd::prelude::*;

use crate::text::{
    chars_eq, chars_of, contains_char, eq_ignore_case, eq_ignore_case_chars, is_alnum, is_alnum_char,
    is_blank, is_blank_str, lower_seq, lower_string,
};

verus! {

/// One explicit response-header mutation owned by the edge HTTP-policy boundary.
#[derive(Debug, Clone, PartialEq, Eq)]
pub struct ResponseHeaderRule {
    /// HTTP field name as declared by the migration contract.
    pub name: String,
    /// Exact HTTP field value to emit.
    pub value: String,
}

/// Fail-closed response-header policy validation errors.
#[derive(Debug, Clone, PartialEq, Eq)]
pub enum HeaderPolicyError {
    /// At least one explicit response header is required to activate a policy.
    NoHeaders,
    /// Header field names must fit the conservative alphanumeric-plus-hyphen migration profile.
    InvalidHeaderName {
        /// Invalid field name supplied by configuration.
        header_name: String,
    },
    /// One canonical field name may have only one edge-owned value in this contract.
    DuplicateHeaderName {
        /// Lower-cased duplicate field name.
        header_name: String,
    },
    /// Active response policy does not admit an empty field value.
    EmptyHeaderValue {
        /// Field whose configured value is empty after trimming whitespace.
        header_name: String,
    },
    /// CR/LF is rejected to prevent response-splitting/header-injection semantics.
    InvalidHeaderValue {
        /// Field whose configured value contains prohibited line breaks.
        header_name: String,
    },
}

/// [`HeaderPolicyError`] with its text as character sequences.
pub enum HeaderPolicyErrorView {
    NoHeaders,
    InvalidHeaderName(Seq<char>),
    DuplicateHeaderName(Seq<char>),
    EmptyHeaderValue(Seq<char>),
    InvalidHeaderValue(Seq<char>),
}

impl View for HeaderPolicyError {
    type V = HeaderPolicyErrorView;

    open spec fn view(&self) -> HeaderPolicyErrorView {
        match self {
            HeaderPolicyError::NoHeaders => HeaderPolicyErrorView::NoHeaders,
            HeaderPolicyError::InvalidHeaderName { header_name } => HeaderPolicyErrorView::InvalidHeaderName(header_name@),
            HeaderPolicyError::DuplicateHeaderName { header_name } => HeaderPolicyErrorView::DuplicateHeaderName(header_name@),
            HeaderPolicyError::EmptyHeaderValue { header_name } => HeaderPolicyErrorView::EmptyHeaderValue(header_name@),
            HeaderPolicyError::InvalidHeaderValue { header_name } => HeaderPolicyErrorView::InvalidHeaderValue(header_name@),
        }
    }
}

/// A name of the migration profile: non-empty, ASCII alphanumerics and `-` only.
pub open spec fn is_supported_name(n: Seq<char>) -> bool {
    n.len() > 0 && forall|i: int| 0 <= i < n.len() ==> is_alnum(#[trigger] n[i]) || n[i] == '-'
}

/// The check that header rule `h` fails, given the rules validated before it.
pub open spec fn header_rule_error(prev: Seq<ResponseHeaderRule>, h: ResponseHeaderRule) -> Option<HeaderPolicyErrorView> {
    if !is_supported_name(h.name@) {
        Some(HeaderPolicyErrorView::InvalidHeaderName(h.name@))
    } else if exists|j: int| 0 <= j < prev.len() && lower_seq(#[trigger] prev[j].name@) == lower_seq(h.name@) {
        Some(HeaderPolicyErrorView::DuplicateHeaderName(lower_seq(h.name@)))
    } else if is_blank(h.value@) {
        Some(HeaderPolicyErrorView::EmptyHeaderValue(h.name@))
    } else if h.value@.contains('\r') || h.value@.contains('\n') {
        Some(HeaderPolicyErrorView::InvalidHeaderValue(h.name@))
    } else {
        None
    }
}

/// The first failed check, validating rules in order.
pub open spec fn first_header_error(rules: Seq<ResponseHeaderRule>) -> Option<HeaderPolicyErrorView>
    decreases rules.len(),
{
    if rules.len() == 0 {
        None
    } else {
        match first_header_error(rules.drop_last()) {
            Some(e) => Some(e),
            None => header_rule_error(rules.drop_last(), rules.last()),
        }
    }
}

/// Index of the first rule whose name equals `name` up to ASCII case, or the number of rules.
pub open spec fn first_named(rules: Seq<ResponseHeaderRule>, name: Seq<char>) -> int
    decreases rules.len(),
{
    if rules.len() == 0 {
        0
    } else if eq_ignore_case(rules[0].name@, name) {
        0
    } else {
        1 + first_named(rules.drop_first(), name)
    }
}

/// Whether `name` is a supported header name.
pub fn is_supported_header_name(value: &str) -> (r: bool)
    ensures
        r == is_supported_name(value@),
{
    let chars = chars_of(value);
    if chars.len() == 0 {
        return false;
    }
    let mut i: usize = 0;
    while i < chars.len()
        invariant
            i <= chars.len(),
            chars@ == value@,
            forall|j: int| 0 <= j < i ==> is_alnum(#[trigger] chars@[j]) || chars@[j] == '-',
        decreases chars.len() - i,
    {
        if !(is_alnum_char(chars[i]) || chars[i] == '-') {
            assert(!(is_alnum(chars@[i as int]) || chars@[i as int] == '-'));
            return false;
        }
        i = i + 1;
    }
    true
}

/// Validated response-header policy independent from transport types.
#[derive(Debug, Clone, PartialEq, Eq)]
pub struct ResponseHeaderPolicy {
    headers: Vec<ResponseHeaderRule>,
}

/// The first failing rule decides the outcome of the whole validation.
proof fn lemma_first_header_error_at(rules: Seq<ResponseHeaderRule>, i: int)
    requires
        0 <= i < rules.len(),
        first_header_error(rules.subrange(0, i)) is None,
        header_rule_error(rules.subrange(0, i), rules[i]) is Some,
    ensures
        first_header_error(rules) == header_rule_error(rules.subrange(0, i), rules[i]),
    decreases rules.len() - i,
{
    if i == rules.len() - 1 {
        assert(rules.drop_last() =~= rules.subrange(0, i));
    } else {
        let shorter = rules.drop_last();
        assert(shorter.subrange(0, i) =~= rules.subrange(0, i));
        lemma_first_header_error_at(shorter, i);
    }
}

impl ResponseHeaderPolicy {
    /// The rules in declaration order.
    pub closed spec fn spec_rules(&self) -> Seq<ResponseHeaderRule> {
        self.headers@
    }

    /// Validates an explicit response-header set before it can be attached to an edge route.
    ///
    /// Field-name uniqueness is ASCII case-insensitive. Names admit only alphanumerics and `-`;
    /// values must not be blank and must not contain CR or LF.
    pub fn try_new(headers: Vec<ResponseHeaderRule>) -> (r: Result<Self, HeaderPolicyError>)
        ensures
            headers@.len() == 0 ==> (r matches Err(e) && e@ == HeaderPolicyErrorView::NoHeaders),
            headers@.len() > 0 ==> match first_header_error(headers@) {
                Some(ev) => (r matches Err(e) && e@ == ev),
                None => (r matches Ok(p) && p.spec_rules() == headers@),
            },
    {
        if headers.len() == 0 {
            return Err(HeaderPolicyError::NoHeaders);
        }
        let mut names: Vec<Vec<char>> = Vec::new();
        let mut i: usize = 0;
        while i < headers.len()
            invariant
                i <= headers.len(),
                names@.len() == i,
                forall|j: int| 0 <= j < i ==> #[trigger] names@[j]@ == lower_seq(headers@[j].name@),
                first_header_error(headers@.subrange(0, i as int)) is None,
            decreases headers.len() - i,
        {
            let header = &headers[i];
            let ghost prev = headers@.subrange(0, i as int);
            assert(headers@.subrange(0, i + 1).drop_last() =~= prev);
            assert(headers@.subrange(0, i + 1).last() == headers@[i as int]);
            if !is_supported_header_name(header.name.as_str()) {
                proof {
                    lemma_first_header_error_at(headers@, i as int);
                }
                return Err(HeaderPolicyError::InvalidHeaderName { header_name: header.name.clone() });
            }
            let normalized = lower_string(header.name.as_str());
            let normalized_chars = chars_of(normalized.as_str());
            let mut k: usize = 0;
            while k < i
                invariant
                    k <= i < headers@.len(),
                    names@.len() == i,
                    prev == headers@.subrange(0, i as int),
                    *header == headers@[i as int],
                    first_header_error(prev) is None,
                    is_supported_name(header.name@),
                    normalized_chars@ == lower_seq(header.name@),
                    normalized@ == lower_seq(header.name@),
                    forall|j: int| 0 <= j < i ==> #[trigger] names@[j]@ == lower_seq(headers@[j].name@),
                    forall|j: int| 0 <= j < k ==> lower_seq(#[trigger] prev[j].name@) != normalized_chars@,
                decreases i - k,
            {
                if chars_eq(&names[k], &normalized_chars) {
                    assert(lower_seq(prev[k as int].name@) == lower_seq(header.name@));
                    proof {
                        lemma_first_header_error_at(headers@, i as int);
                    }
                    return Err(HeaderPolicyError::DuplicateHeaderName { header_name: normalized });
                }
                k = k + 1;
            }
            if is_blank_str(header.value.as_str()) {
                proof {
                    lemma_first_header_error_at(headers@, i as int);
                }
                return Err(HeaderPolicyError::EmptyHeaderValue { header_name: header.name.clone() });
            }
            let value = chars_of(header.value.as_str());
            if contains_char(&value, '\r') || contains_char(&value, '\n') {
                proof {
                    lemma_first_header_error_at(headers@, i as int);
                }
                return Err(HeaderPolicyError::InvalidHeaderValue { header_name: header.name.clone() });
            }
            assert(header_rule_error(prev, headers@[i as int]) is None);
            names.push(normalized_chars);
            i = i + 1;
        }
        assert(headers@.subrange(0, headers@.len() as int) =~= headers@);
        Ok(ResponseHeaderPolicy { headers })
    }

    /// Returns the configured value for a field name using ASCII case-insensitive matching: the
    /// value of the first rule whose name matches.
    pub fn value_for(&self, name: &str) -> (r: Option<&String>)
        ensures
            first_named(self.spec_rules(), name@) < self.spec_rules().len() ==> (r matches Some(v)
                && v@ == self.spec_rules()[first_named(self.spec_rules(), name@)].value@),
            first_named(self.spec_rules(), name@) >= self.spec_rules().len() ==> r is None,
    {
        let target = chars_of(name);
        let mut i: usize = 0;
        assert(self.spec_rules().subrange(0, self.spec_rules().len() as int) =~= self.spec_rules());
        while i < self.headers.len()
            invariant
                i <= self.headers.len(),
                target@ == name@,
                first_named(self.spec_rules(), name@) == i + first_named(self.spec_rules().subrange(i as int, self.spec_rules().len() as int), name@),
            decreases self.headers.len() - i,
        {
            let ghost rest = self.spec_rules().subrange(i as int, self.spec_rules().len() as int);
            assert(rest.drop_first() =~= self.spec_rules().subrange(i + 1, self.spec_rules().len() as int));
            assert(rest[0] == self.headers@[i as int]);
            let n = chars_of(self.headers[i].name.as_str());
            if eq_ignore_case_chars(&n, &target) {
                return Some(&self.headers[i].value);
            }
            i = i + 1;
        }
        None
    }

    /// Returns the number of explicit response-header mutations in this policy.
    pub fn len(&self) -> (r: usize)
        ensures
            r == self.spec_rules().len(),
    {
        self.headers.len()
    }

    /// Returns whether this policy contains no response-header mutations; never true for a
    /// successfully constructed policy.
    pub fn is_empty(&self) -> (r: bool)
        ensures
            r == (self.spec_rules().len() == 0),
    {
        self.headers.len() == 0
    }

    /// Every response-header mutation in declaration order.
    pub fn rules(&self) -> (r: &[ResponseHeaderRule])
        ensures
            r@ == self.spec_rules(),
    {
        self.headers.as_slice()
    }
}

} // verus!
