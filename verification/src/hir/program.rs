//! A whole module of the high-level IR.

use vstd::prelude::*;

use crate::diagnostics::{Diagnostic, DiagnosticBag};
use crate::hir::stmt::{HirDecl, SDecl, decls_view};
use crate::ids::{ModuleId, StringId, SymbolId};

verus! {

/// An imported name.
#[derive(Debug, Clone, Copy, PartialEq, Eq, Structural, Hash)]
pub struct HirImport {
    pub module: StringId,
    pub name: SymbolId,
    pub alias: Option<SymbolId>,
}

/// An exported name.
#[derive(Debug, Clone, Copy, PartialEq, Eq, Structural, Hash)]
pub struct HirExport {
    pub name: SymbolId,
    pub alias: Option<StringId>,
}

/// A module of the high-level IR.
#[derive(Debug, Clone)]
pub struct HirProgram {
    pub module: ModuleId,
    pub imports: Vec<HirImport>,
    pub exports: Vec<HirExport>,
    pub declarations: Vec<HirDecl>,
    pub diagnostics: DiagnosticBag,
}

impl HirProgram {
    /// The abstract values of the declarations.
    pub open spec fn decls(&self) -> Seq<SDecl> {
        decls_view(self.declarations@)
    }

    /// An empty module.
    pub fn new(module: ModuleId) -> (p: Self)
        ensures
            p.module == module,
            p.imports@ == Seq::<HirImport>::empty(),
            p.exports@ == Seq::<HirExport>::empty(),
            p.declarations@ == Seq::<HirDecl>::empty(),
            p.diagnostics@ == Seq::<Diagnostic>::empty(),
    {
        HirProgram {
            module,
            imports: Vec::new(),
            exports: Vec::new(),
            declarations: Vec::new(),
            diagnostics: DiagnosticBag::new(),
        }
    }

    /// Appends a declaration.
    pub fn push_decl(&mut self, decl: HirDecl)
        ensures
            final(self).declarations@ == old(self).declarations@.push(decl),
            final(self).module == old(self).module,
            final(self).imports == old(self).imports,
            final(self).exports == old(self).exports,
            final(self).diagnostics == old(self).diagnostics,
    {
        self.declarations.push(decl);
    }

    /// The number of declarations.
    pub fn decl_count(&self) -> (n: usize)
        ensures
            n == self.declarations@.len(),
    {
        self.declarations.len()
    }
}

} // verus!
