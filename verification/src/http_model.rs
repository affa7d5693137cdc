//! Plain-value model of HTTP header fields, as the policy modules read and edit them.
//!
//! Names compare ASCII case-insensitively, as HTTP field names do. Values are raw bytes.

use vstd::prelude::*;

use vstd::string::*;
use vstd::utf8::encode_utf8;

use crate::text::{chars_of, eq_ignore_case, eq_ignore_case_chars};

verus! {

/// One header field.
#[derive(Debug)]
pub struct HeaderField {
    /// Field name.
    pub name: String,
    /// Field value bytes.
    pub value: Vec<u8>,
}

/// Header fields in order; a name may occur several times.
#[derive(Debug)]
pub struct HeaderList {
    /// The fields.
    pub fields: Vec<HeaderField>,
}

pub type FieldView = (Seq<char>, Seq<u8>);

impl View for HeaderField {
    type V = FieldView;

    open spec fn view(&self) -> FieldView {
        (self.name@, self.value@)
    }
}

pub open spec fn field_views(v: Seq<HeaderField>) -> Seq<FieldView> {
    v.map_values(|f: HeaderField| f@)
}

impl View for HeaderList {
    type V = Seq<FieldView>;

    open spec fn view(&self) -> Seq<FieldView> {
        field_views(self.fields@)
    }
}

/// The fields whose name is not `name` (any ASCII case), in order.
pub open spec fn without_name(s: Seq<FieldView>, name: Seq<char>) -> Seq<FieldView>
    decreases s.len(),
{
    if s.len() == 0 {
        s
    } else {
        let r = without_name(s.drop_last(), name);
        if eq_ignore_case(s.last().0, name) {
            r
        } else {
            r.push(s.last())
        }
    }
}

/// The first value of a field named `name` (any ASCII case).
pub open spec fn first_value(s: Seq<FieldView>, name: Seq<char>) -> Option<Seq<u8>>
    decreases s.len(),
{
    if s.len() == 0 {
        None
    } else if eq_ignore_case(s[0].0, name) {
        Some(s[0].1)
    } else {
        first_value(s.drop_first(), name)
    }
}

/// The values of the fields named `name` (any ASCII case), in order.
pub open spec fn values_of(s: Seq<FieldView>, name: Seq<char>) -> Seq<Seq<u8>>
    decreases s.len(),
{
    if s.len() == 0 {
        Seq::empty()
    } else {
        let r = values_of(s.drop_last(), name);
        if eq_ignore_case(s.last().0, name) {
            r.push(s.last().1)
        } else {
            r
        }
    }
}

/// Number of fields named `name` (any ASCII case).
pub open spec fn count_named(s: Seq<FieldView>, name: Seq<char>) -> nat
    decreases s.len(),
{
    if s.len() == 0 {
        0
    } else {
        count_named(s.drop_last(), name) + if eq_ignore_case(s.last().0, name) {
            1nat
        } else {
            0nat
        }
    }
}

/// A byte that a header value may carry: horizontal tab, or anything from space upward but DEL.
pub open spec fn is_value_byte(b: u8) -> bool {
    b == 9 || (32 <= b && b != 127)
}

/// Text whose UTF-8 encoding can become a header value.
pub open spec fn is_value_text(s: Seq<char>) -> bool {
    forall|i: int| 0 <= i < encode_utf8(s).len() ==> is_value_byte(#[trigger] encode_utf8(s)[i])
}

/// A byte that `HeaderValue::to_str` accepts: visible ASCII or horizontal tab.
pub open spec fn is_visible_byte(b: u8) -> bool {
    b == 9 || (32 <= b && b < 127)
}

/// The text of a value, when every byte is visible ASCII.
pub open spec fn visible_text(v: Seq<u8>) -> Option<Seq<char>> {
    if forall|i: int| 0 <= i < v.len() ==> is_visible_byte(#[trigger] v[i]) {
        Some(v.map_values(|b: u8| (b as u32) as char))
    } else {
        None
    }
}

/// Rejected header value.
#[derive(Debug, Clone, Copy, PartialEq, Eq)]
pub struct InvalidHeaderValue;

impl HeaderField {
    /// A field with the same name and value.
    pub fn duplicate(&self) -> (r: HeaderField)
        ensures
            r@ == self@,
    {
        let mut value: Vec<u8> = Vec::new();
        let mut i: usize = 0;
        while i < self.value.len()
            invariant
                i <= self.value.len(),
                value@ == self.value@.subrange(0, i as int),
            decreases self.value.len() - i,
        {
            value.push(self.value[i]);
            i = i + 1;
            assert(value@ =~= self.value@.subrange(0, i as int));
        }
        assert(self.value@.subrange(0, self.value@.len() as int) =~= self.value@);
        HeaderField { name: self.name.clone(), value }
    }
}

/// The text of a value when every byte is visible ASCII (`HeaderValue::to_str`).
pub fn value_text(v: &Vec<u8>) -> (r: Option<String>)
    ensures
        r matches Some(t) ==> visible_text(v@) == Some(t@),
        r is None ==> visible_text(v@) is None,
{
    let mut t = String::new();
    let mut i: usize = 0;
    while i < v.len()
        invariant
            i <= v.len(),
            forall|j: int| 0 <= j < i ==> is_visible_byte(#[trigger] v@[j]),
            t@ == v@.subrange(0, i as int).map_values(|b: u8| (b as u32) as char),
        decreases v.len() - i,
    {
        let b = v[i];
        if !(b == 9 || (32 <= b && b < 127)) {
            assert(!is_visible_byte(v@[i as int]));
            return None;
        }
        crate::text::push_char(&mut t, b as char);
        i = i + 1;
        assert(t@ =~= v@.subrange(0, i as int).map_values(|b: u8| (b as u32) as char));
    }
    assert(v@.subrange(0, v@.len() as int) =~= v@);
    Some(t)
}

impl HeaderList {
    /// An empty field list.
    pub fn new() -> (r: HeaderList)
        ensures
            r@ == Seq::<FieldView>::empty(),
    {
        let r = HeaderList { fields: Vec::new() };
        assert(r@ =~= Seq::<FieldView>::empty());
        r
    }

    /// Appends one field without touching existing fields of the same name.
    pub fn append(&mut self, name: String, value: Vec<u8>)
        ensures
            final(self)@ == old(self)@.push((name@, value@)),
    {
        self.fields.push(HeaderField { name, value });
        assert(final(self)@ =~= old(self)@.push((name@, value@)));
    }

    /// The first value of a field named `name`.
    pub fn get(&self, name: &str) -> (r: Option<&Vec<u8>>)
        ensures
            r matches Some(v) ==> first_value(self@, name@) == Some(v@),
            r is None ==> first_value(self@, name@) is None,
    {
        let target = chars_of(name);
        let mut i: usize = 0;
        assert(self@.subrange(0, self@.len() as int) =~= self@);
        while i < self.fields.len()
            invariant
                i <= self.fields.len(),
                target@ == name@,
                first_value(self@, name@) == first_value(self@.subrange(i as int, self@.len() as int), name@),
            decreases self.fields.len() - i,
        {
            let ghost rest = self@.subrange(i as int, self@.len() as int);
            assert(rest.drop_first() =~= self@.subrange(i + 1, self@.len() as int));
            assert(rest[0] == self.fields@[i as int]@);
            let n = chars_of(self.fields[i].name.as_str());
            if eq_ignore_case_chars(&n, &target) {
                return Some(&self.fields[i].value);
            }
            i = i + 1;
        }
        None
    }

    /// Whether a field named `name` is present.
    pub fn contains(&self, name: &str) -> (r: bool)
        ensures
            r == (first_value(self@, name@) is Some),
    {
        self.get(name).is_some()
    }

    /// Number of fields named `name`.
    pub fn count(&self, name: &str) -> (r: usize)
        ensures
            r as nat == count_named(self@, name@),
    {
        let target = chars_of(name);
        let mut n: usize = 0;
        let mut i: usize = 0;
        while i < self.fields.len()
            invariant
                i <= self.fields.len(),
                target@ == name@,
                n as nat == count_named(self@.subrange(0, i as int), name@),
                n <= i,
            decreases self.fields.len() - i,
        {
            let ghost pre = self@.subrange(0, i as int);
            assert(self@.subrange(0, i + 1).drop_last() =~= pre);
            assert(self@.subrange(0, i + 1).last() == self.fields@[i as int]@);
            let f = chars_of(self.fields[i].name.as_str());
            if eq_ignore_case_chars(&f, &target) {
                n = n + 1;
            }
            i = i + 1;
        }
        assert(self@.subrange(0, self@.len() as int) =~= self@);
        n
    }

    /// The values of every field named `name`, in order.
    pub fn values_named(&self, name: &str) -> (r: Vec<Vec<u8>>)
        ensures
            r@.map_values(|v: Vec<u8>| v@) == values_of(self@, name@),
    {
        let target = chars_of(name);
        let mut out: Vec<Vec<u8>> = Vec::new();
        let mut i: usize = 0;
        while i < self.fields.len()
            invariant
                i <= self.fields.len(),
                target@ == name@,
                out@.map_values(|v: Vec<u8>| v@) == values_of(self@.subrange(0, i as int), name@),
            decreases self.fields.len() - i,
        {
            let ghost pre = self@.subrange(0, i as int);
            assert(self@.subrange(0, i + 1).drop_last() =~= pre);
            assert(self@.subrange(0, i + 1).last() == self.fields@[i as int]@);
            let f = chars_of(self.fields[i].name.as_str());
            if eq_ignore_case_chars(&f, &target) {
                let ghost before = out@;
                out.push(self.fields[i].value.clone());
                assert(out@.map_values(|v: Vec<u8>| v@) =~= before.map_values(|v: Vec<u8>| v@).push(self.fields@[i as int].value@));
            }
            i = i + 1;
        }
        assert(self@.subrange(0, self@.len() as int) =~= self@);
        out
    }

    /// Replaces every field named `name` by one field with the UTF-8 bytes of `value`; when the
    /// value cannot be a header value, nothing changes.
    pub fn insert(&mut self, name: &str, value: &str) -> (r: Result<(), InvalidHeaderValue>)
        ensures
            is_value_text(value@) ==> r is Ok && final(self)@ == without_name(old(self)@, name@).push(
                (name@, encode_utf8(value@)),
            ),
            !is_value_text(value@) ==> r is Err && final(self)@ == old(self)@,
    {
        let bytes = value.as_bytes_vec();
        let mut i: usize = 0;
        while i < bytes.len()
            invariant
                i <= bytes.len(),
                bytes@ == encode_utf8(value@),
                forall|j: int| 0 <= j < i ==> is_value_byte(#[trigger] bytes@[j]),
            decreases bytes.len() - i,
        {
            let b = bytes[i];
            if !(b == 9 || (32 <= b && b != 127)) {
                assert(!is_value_byte(bytes@[i as int]));
                return Err(InvalidHeaderValue);
            }
            i = i + 1;
        }
        self.remove(name);
        self.append(name.to_owned(), bytes);
        Ok(())
    }

    /// Removes every field named `name`.
    pub fn remove(&mut self, name: &str)
        ensures
            final(self)@ == without_name(old(self)@, name@),
    {
        let target = chars_of(name);
        let mut kept: Vec<HeaderField> = Vec::new();
        let mut i: usize = 0;
        while i < self.fields.len()
            invariant
                i <= self.fields.len(),
                target@ == name@,
                self@ == old(self)@,
                field_views(kept@) == without_name(self@.subrange(0, i as int), name@),
            decreases self.fields.len() - i,
        {
            let ghost pre = self@.subrange(0, i as int);
            assert(self@.subrange(0, i + 1).drop_last() =~= pre);
            assert(self@.subrange(0, i + 1).last() == self.fields@[i as int]@);
            let f = chars_of(self.fields[i].name.as_str());
            if !eq_ignore_case_chars(&f, &target) {
                let ghost before = kept@;
                kept.push(self.fields[i].duplicate());
                assert(field_views(kept@) =~= field_views(before).push(self.fields@[i as int]@));
            }
            i = i + 1;
        }
        assert(self@.subrange(0, self@.len() as int) =~= self@);
        self.fields = kept;
    }
}

/// A failure reported to the proxy transport, as its error types classify it.
#[derive(Debug, Clone, PartialEq, Eq)]
pub enum ProxyError {
    /// Answer with this HTTP status; the reason is for operators.
    HttpStatus {
        /// HTTP status.
        status: u16,
        /// Operator-facing explanation.
        reason: String,
    },
    /// A header value could not be set on the upstream request.
    InvalidHttpHeader,
}

/// [`ProxyError`] with its text as character sequences.
pub enum ProxyErrorView {
    HttpStatus(u16, Seq<char>),
    InvalidHttpHeader,
}

impl View for ProxyError {
    type V = ProxyErrorView;

    open spec fn view(&self) -> ProxyErrorView {
        match self {
            ProxyError::HttpStatus { status, reason } => ProxyErrorView::HttpStatus(*status, reason@),
            ProxyError::InvalidHttpHeader => ProxyErrorView::InvalidHttpHeader,
        }
    }
}

} // verus!
