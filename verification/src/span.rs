//! Source positions and interned names.

use vstd::prelude::*;

verus! {

/// A half-open byte range `[start, end)` in the source text.
#[derive(Debug, Clone, Copy, PartialEq, Eq, Structural, Hash, Default)]
pub struct Span {
    pub start: u32,
    pub end: u32,
}

impl Span {
    /// Creates a span from a start and an end offset.
    pub fn new(start: u32, end: u32) -> (span: Self)
        ensures
            span.start == start,
            span.end == end,
    {
        Span { start, end }
    }
}

/// A name in the source program, compared by its text.
#[derive(Debug, Clone, Hash, Eq)]
pub struct Atom {
    pub text: String,
}

impl View for Atom {
    type V = Seq<char>;

    open spec fn view(&self) -> Seq<char> {
        self.text@
    }
}

impl Atom {
    /// The text of the name.
    pub fn as_str(&self) -> (s: &str)
        ensures
            s@ == self@,
    {
        self.text.as_str()
    }

    /// Builds a name from a string slice.
    pub fn from_str(s: &str) -> (a: Self)
        ensures
            a@ == s@,
    {
        Atom { text: s.to_string() }
    }

    /// Builds a name from a short string slice.
    pub fn new_inline(s: &str) -> (a: Self)
        ensures
            a@ == s@,
    {
        Atom { text: s.to_string() }
    }

    /// The text of the name as an owned string.
    pub fn to_string(&self) -> (s: String)
        ensures
            s@ == self@,
    {
        self.text.clone()
    }

    /// Builds a name that owns the given text.
    pub fn from_string(s: String) -> (a: Self)
        ensures
            a@ == s@,
    {
        Atom { text: s }
    }

    /// Compares two names by their text.
    pub fn same(&self, other: &Atom) -> (r: bool)
        ensures
            r == (self@ == other@),
    {
        self.text == other.text
    }

    /// A copy of the name.
    pub fn duplicate(&self) -> (a: Atom)
        ensures
            a@ == self@,
    {
        Atom { text: self.text.clone() }
    }
}

impl PartialEq for Atom {
    fn eq(&self, other: &Self) -> (r: bool) {
        self.text == other.text
    }
}

impl vstd::std_specs::cmp::PartialEqSpecImpl for Atom {
    open spec fn obeys_eq_spec() -> bool {
        true
    }

    open spec fn eq_spec(&self, other: &Self) -> bool {
        self.text@ == other.text@
    }
}

impl<'a> From<&'a str> for Atom {
    fn from(s: &'a str) -> (a: Self) {
        Atom { text: s.to_string() }
    }
}

impl From<String> for Atom {
    fn from(s: String) -> (a: Self) {
        Atom { text: s }
    }
}

impl vstd::std_specs::convert::FromSpecImpl<String> for Atom {
    open spec fn obeys_from_spec() -> bool {
        true
    }

    open spec fn from_spec(s: String) -> Self {
        Atom { text: s }
    }
}

/// The text of a string slice has no spec-level constructor, so the
/// conversion is described by `Atom::from_str` instead.
impl<'a> vstd::std_specs::convert::FromSpecImpl<&'a str> for Atom {
    open spec fn obeys_from_spec() -> bool {
        false
    }

    open spec fn from_spec(s: &'a str) -> Self {
        Atom { text: arbitrary() }
    }
}

} // verus!
