//! State shared by the passes: collected diagnostics and id counters.

use vstd::prelude::*;

use crate::diagnostics::{Diagnostic, DiagnosticBag, has_error};
use crate::ids::{FunctionId, LocalId, TypeId};
use crate::span::Span;

verus! {

/// The abstract state of a pass context.
pub struct PassContextView {
    pub diagnostics: Seq<Diagnostic>,
    pub next_function: u32,
    pub next_local: u32,
    pub next_type: u32,
}

/// Diagnostics and fresh-id counters of a running pass.
#[derive(Debug, Default)]
pub struct PassContext {
    diagnostics: DiagnosticBag,
    next_function: u32,
    next_local: u32,
    next_type: u32,
}

impl View for PassContext {
    type V = PassContextView;

    closed spec fn view(&self) -> PassContextView {
        PassContextView {
            diagnostics: self.diagnostics@,
            next_function: self.next_function,
            next_local: self.next_local,
            next_type: self.next_type,
        }
    }
}

/// Whether `after` is `before` with `d` appended and counters unchanged.
pub open spec fn pushed(before: PassContextView, after: PassContextView, d: Diagnostic) -> bool {
    &&& after.diagnostics == before.diagnostics.push(d)
    &&& after.next_function == before.next_function
    &&& after.next_local == before.next_local
    &&& after.next_type == before.next_type
}

impl PassContext {
    /// A context with no diagnostics and all counters at zero.
    pub fn new() -> (ctx: Self)
        ensures
            ctx@.diagnostics == Seq::<Diagnostic>::empty(),
            ctx@.next_function == 0,
            ctx@.next_local == 0,
            ctx@.next_type == 0,
    {
        PassContext { diagnostics: DiagnosticBag::new(), next_function: 0, next_local: 0, next_type: 0 }
    }

    /// A context whose counters start at the given values.
    pub fn with_seeded_counters(next_function: u32, next_local: u32, next_type: u32) -> (ctx: Self)
        ensures
            ctx@.diagnostics == Seq::<Diagnostic>::empty(),
            ctx@.next_function == next_function,
            ctx@.next_local == next_local,
            ctx@.next_type == next_type,
    {
        PassContext { diagnostics: DiagnosticBag::new(), next_function, next_local, next_type }
    }

    /// The diagnostics collected so far.
    pub fn diagnostics(&self) -> (bag: &DiagnosticBag)
        ensures
            bag@ == self@.diagnostics,
    {
        &self.diagnostics
    }

    /// Mutable access to the collected diagnostics.
    pub fn diagnostics_mut(&mut self) -> (bag: &mut DiagnosticBag)
        ensures
            (*bag)@ == old(self)@.diagnostics,
            final(self)@.diagnostics == (*final(bag))@,
            final(self)@.next_function == old(self)@.next_function,
            final(self)@.next_local == old(self)@.next_local,
            final(self)@.next_type == old(self)@.next_type,
    {
        &mut self.diagnostics
    }

    /// Whether an error has been reported.
    pub fn has_errors(&self) -> (b: bool)
        ensures
            b == has_error(self@.diagnostics),
    {
        self.diagnostics.has_errors()
    }

    /// Hands out the collected diagnostics and leaves the context without any.
    pub fn take_diagnostics(&mut self) -> (bag: DiagnosticBag)
        ensures
            bag@ == old(self)@.diagnostics,
            final(self)@.diagnostics == Seq::<Diagnostic>::empty(),
            final(self)@.next_function == old(self)@.next_function,
            final(self)@.next_local == old(self)@.next_local,
            final(self)@.next_type == old(self)@.next_type,
    {
        let mut bag = DiagnosticBag::new();
        std::mem::swap(&mut bag, &mut self.diagnostics);
        bag
    }

    /// Records a diagnostic.
    pub fn push_diagnostic(&mut self, diag: Diagnostic)
        ensures
            pushed(old(self)@, final(self)@, diag),
    {
        self.diagnostics.push(diag);
    }

    /// Records an error.
    pub fn error(&mut self, code: &str, message: &str, span: Span)
        ensures
            exists|d: Diagnostic|
                pushed(old(self)@, final(self)@, d) && #[trigger] Diagnostic::spec_with(
                    crate::diagnostics::Severity::Error,
                    code@,
                    message@,
                    span,
                    d,
                ),
    {
        let d = Diagnostic::error(code, message, span);
        self.diagnostics.push(d);
    }

    /// Records a warning.
    pub fn warning(&mut self, code: &str, message: &str, span: Span)
        ensures
            exists|d: Diagnostic|
                pushed(old(self)@, final(self)@, d) && #[trigger] Diagnostic::spec_with(
                    crate::diagnostics::Severity::Warning,
                    code@,
                    message@,
                    span,
                    d,
                ),
    {
        let d = Diagnostic::warning(code, message, span);
        self.diagnostics.push(d);
    }

    /// A fresh function id; the counter moves on by one.
    pub fn next_function_id(&mut self) -> (id: FunctionId)
        requires
            old(self)@.next_function < u32::MAX,
        ensures
            id.0 == old(self)@.next_function,
            final(self)@.next_function == old(self)@.next_function + 1,
            final(self)@.next_local == old(self)@.next_local,
            final(self)@.next_type == old(self)@.next_type,
            final(self)@.diagnostics == old(self)@.diagnostics,
    {
        let id = FunctionId::from_raw(self.next_function);
        self.next_function = self.next_function + 1;
        id
    }

    /// A fresh local id; the counter moves on by one.
    pub fn next_local_id(&mut self) -> (id: LocalId)
        requires
            old(self)@.next_local < u32::MAX,
        ensures
            id.0 == old(self)@.next_local,
            final(self)@.next_local == old(self)@.next_local + 1,
            final(self)@.next_function == old(self)@.next_function,
            final(self)@.next_type == old(self)@.next_type,
            final(self)@.diagnostics == old(self)@.diagnostics,
    {
        let id = LocalId::from_raw(self.next_local);
        self.next_local = self.next_local + 1;
        id
    }

    /// A fresh type id; the counter moves on by one.
    pub fn next_type_id(&mut self) -> (id: TypeId)
        requires
            old(self)@.next_type < u32::MAX,
        ensures
            id.0 == old(self)@.next_type,
            final(self)@.next_type == old(self)@.next_type + 1,
            final(self)@.next_function == old(self)@.next_function,
            final(self)@.next_local == old(self)@.next_local,
            final(self)@.diagnostics == old(self)@.diagnostics,
    {
        let id = TypeId::from_raw(self.next_type);
        self.next_type = self.next_type + 1;
        id
    }

    /// The next function id to be handed out.
    pub fn function_counter(&self) -> (n: u32)
        ensures
            n == self@.next_function,
    {
        self.next_function
    }

    /// The next local id to be handed out.
    pub fn local_counter(&self) -> (n: u32)
        ensures
            n == self@.next_local,
    {
        self.next_local
    }

    /// The next type id to be handed out.
    pub fn type_counter(&self) -> (n: u32)
        ensures
            n == self@.next_type,
    {
        self.next_type
    }
}

} // verus!
