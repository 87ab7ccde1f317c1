//! Diagnostics reported by the passes, and the bag that collects them.

use vstd::prelude::*;

use crate::span::Span;

verus! {

/// How serious a diagnostic is.
#[derive(Debug, Clone, Copy, PartialEq, Eq, Structural, Hash)]
pub enum Severity {
    Error,
    Warning,
    Note,
}

/// A short machine-readable code such as `P0005`.
#[derive(Debug, Clone, PartialEq, Eq, Hash)]
pub struct DiagnosticCode(pub String);

impl DiagnosticCode {
    /// Builds a code from its text.
    pub fn new(code: &str) -> (c: Self)
        ensures
            c.0@ == code@,
    {
        DiagnosticCode(code.to_string())
    }

    /// The text of the code.
    pub fn as_str(&self) -> (s: &str)
        ensures
            s@ == self.0@,
    {
        self.0.as_str()
    }
}

impl<'a> From<&'a str> for DiagnosticCode {
    fn from(s: &'a str) -> (c: Self)
        ensures
            c.0@ == s@,
    {
        DiagnosticCode(s.to_string())
    }
}

/// A string slice has no spec-level constructor for `String`, so this
/// conversion is described by `DiagnosticCode::new` instead.
impl<'a> vstd::std_specs::convert::FromSpecImpl<&'a str> for DiagnosticCode {
    open spec fn obeys_from_spec() -> bool {
        false
    }

    open spec fn from_spec(s: &'a str) -> Self {
        arbitrary()
    }
}

impl From<String> for DiagnosticCode {
    fn from(s: String) -> (c: Self) {
        DiagnosticCode(s)
    }
}

impl vstd::std_specs::convert::FromSpecImpl<String> for DiagnosticCode {
    open spec fn obeys_from_spec() -> bool {
        true
    }

    open spec fn from_spec(s: String) -> Self {
        DiagnosticCode(s)
    }
}

/// One message produced by a pass.
#[derive(Debug, Clone, PartialEq, Eq, Hash)]
pub struct Diagnostic {
    pub severity: Severity,
    pub code: DiagnosticCode,
    pub message: String,
    pub span: Span,
}

impl Diagnostic {
    /// Whether `d` has the given severity, code text, message text and span.
    pub open spec fn spec_with(severity: Severity, code: Seq<char>, message: Seq<char>, span: Span, d: Diagnostic) -> bool {
        &&& d.severity == severity
        &&& d.code.0@ == code
        &&& d.message@ == message
        &&& d.span == span
    }

    fn build(severity: Severity, code: &str, message: &str, span: Span) -> (d: Self)
        ensures
            Self::spec_with(severity, code@, message@, span, d),
    {
        Diagnostic {
            severity,
            code: DiagnosticCode::new(code),
            message: message.to_string(),
            span,
        }
    }

    /// An error diagnostic.
    pub fn error(code: &str, message: &str, span: Span) -> (d: Self)
        ensures
            Self::spec_with(Severity::Error, code@, message@, span, d),
    {
        Self::build(Severity::Error, code, message, span)
    }

    /// A warning diagnostic.
    pub fn warning(code: &str, message: &str, span: Span) -> (d: Self)
        ensures
            Self::spec_with(Severity::Warning, code@, message@, span, d),
    {
        Self::build(Severity::Warning, code, message, span)
    }

    /// A note diagnostic.
    pub fn note(code: &str, message: &str, span: Span) -> (d: Self)
        ensures
            Self::spec_with(Severity::Note, code@, message@, span, d),
    {
        Self::build(Severity::Note, code, message, span)
    }
}

/// Whether a diagnostic is an error.
pub open spec fn is_error(d: Diagnostic) -> bool {
    d.severity == Severity::Error
}

/// Whether some diagnostic of `s` is an error.
pub open spec fn has_error(s: Seq<Diagnostic>) -> bool {
    exists|i: int| 0 <= i < s.len() && is_error(#[trigger] s[i])
}

/// An ordered collection of diagnostics.
#[derive(Debug, Default, Clone)]
pub struct DiagnosticBag {
    pub diagnostics: Vec<Diagnostic>,
}

impl View for DiagnosticBag {
    type V = Seq<Diagnostic>;

    open spec fn view(&self) -> Seq<Diagnostic> {
        self.diagnostics@
    }
}

impl DiagnosticBag {
    /// An empty bag.
    pub fn new() -> (bag: Self)
        ensures
            bag@ == Seq::<Diagnostic>::empty(),
    {
        DiagnosticBag { diagnostics: Vec::new() }
    }

    /// The number of diagnostics.
    pub fn len(&self) -> (n: usize)
        ensures
            n == self@.len(),
    {
        self.diagnostics.len()
    }

    /// Whether the bag holds no diagnostic.
    pub fn is_empty(&self) -> (b: bool)
        ensures
            b == (self@.len() == 0),
    {
        self.diagnostics.len() == 0
    }

    /// Appends one diagnostic.
    pub fn push(&mut self, diag: Diagnostic)
        ensures
            final(self)@ == old(self)@.push(diag),
    {
        self.diagnostics.push(diag);
    }

    /// Appends the given diagnostics, in order.
    pub fn extend(&mut self, items: Vec<Diagnostic>)
        ensures
            final(self)@ == old(self)@ + items@,
    {
        let mut items = items;
        self.diagnostics.append(&mut items);
    }

    /// Iterates over the diagnostics in order.
    pub fn iter(&self) -> (it: std::slice::Iter<'_, Diagnostic>)
        ensures
            vstd::std_specs::iter::IteratorSpec::remaining(&it).unref() == self@,
    {
        proof {
            broadcast use vstd::std_specs::slice::axiom_spec_slice_iter;
        }
        self.diagnostics.as_slice().iter()
    }

    /// The error diagnostics, in order.
    pub fn errors(&self) -> (errs: Vec<&Diagnostic>)
        ensures
            errs@.unref() == self@.filter(|d: Diagnostic| is_error(d)),
    {
        let mut errs: Vec<&Diagnostic> = Vec::new();
        let mut i: usize = 0;
        while i < self.diagnostics.len()
            invariant
                i <= self@.len(),
                errs@.unref() == self@.take(i as int).filter(|d: Diagnostic| is_error(d)),
            decreases self@.len() - i,
        {
            let d = &self.diagnostics[i];
            proof {
                assert(self@.take(i as int + 1).drop_last() == self@.take(i as int));
                reveal_with_fuel(Seq::filter, 1);
            }
            if d.severity == Severity::Error {
                errs.push(d);
            }
            i = i + 1;
        }
        assert(self@.take(self@.len() as int) == self@);
        errs
    }

    /// Whether at least one diagnostic is an error.
    pub fn has_errors(&self) -> (b: bool)
        ensures
            b == has_error(self@),
    {
        let mut i: usize = 0;
        while i < self.diagnostics.len()
            invariant
                i <= self@.len(),
                forall|j: int| 0 <= j < i ==> !is_error(#[trigger] self@[j]),
            decreases self@.len() - i,
        {
            if self.diagnostics[i].severity == Severity::Error {
                return true;
            }
            i = i + 1;
        }
        false
    }
}

/// Adding an error marks the diagnostics as having errors.
pub proof fn law_push_error_marks(s: Seq<Diagnostic>, d: Diagnostic)
    requires
        is_error(d),
    ensures
        has_error(s.push(d)),
{
    assert(is_error(s.push(d)[s.len() as int]));
}

/// Adding a warning or a note leaves the presence of errors unchanged.
pub proof fn law_push_non_error_keeps(s: Seq<Diagnostic>, d: Diagnostic)
    requires
        !is_error(d),
    ensures
        has_error(s.push(d)) == has_error(s),
{
    if has_error(s) {
        let i = choose|i: int| 0 <= i < s.len() && is_error(#[trigger] s[i]);
        assert(is_error(s.push(d)[i]));
    }
    if has_error(s.push(d)) {
        let i = choose|i: int| 0 <= i < s.push(d).len() && is_error(#[trigger] s.push(d)[i]);
        assert(s.push(d)[i] == s[i]);
    }
}

/// The diagnostics have errors exactly when the list of their errors is not
/// empty.
pub proof fn law_has_error_iff_errors(s: Seq<Diagnostic>)
    ensures
        has_error(s) <==> s.filter(|d: Diagnostic| is_error(d)).len() > 0,
{
    let p = |d: Diagnostic| is_error(d);
    if has_error(s) {
        let i = choose|i: int| 0 <= i < s.len() && is_error(#[trigger] s[i]);
        s.lemma_filter_contains(p, i);
    }
    if s.filter(p).len() > 0 {
        s.lemma_filter_pred(p, 0);
        s.lemma_filter_contains_rev(p, s.filter(p)[0]);
        let e = s.filter(p)[0];
        let j = choose|j: int| 0 <= j < s.len() && s[j] == e;
        assert(is_error(s[j]));
    }
}

} // verus!
