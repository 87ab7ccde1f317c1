//! Imports and exports of a mid-level module.

use vstd::prelude::*;

use crate::ids::{ModuleId, SymbolId};
use crate::mir::decl::{MDecl, MirDecl, MirFunctionDecl, MirGlobalDecl, MirStructDecl, mdecl_view};

verus! {

/// A name imported from another module.
#[derive(Debug, Clone, PartialEq, Eq, Hash)]
pub struct MirImport {
    pub module: String,
    pub symbol: SymbolId,
    pub alias: Option<SymbolId>,
}

/// An exported name.
#[derive(Debug, Clone, Copy, PartialEq, Eq, Structural, Hash)]
pub struct MirExport {
    pub symbol: SymbolId,
    pub alias: Option<SymbolId>,
}

/// A module of the mid-level IR.
#[derive(Debug)]
pub struct MirProgram {
    pub module: ModuleId,
    pub imports: Vec<MirImport>,
    pub exports: Vec<MirExport>,
    pub declarations: Vec<MirDecl>,
}

/// The abstract values of a list of declarations.
pub open spec fn mdecls_view(s: Seq<MirDecl>) -> Seq<MDecl> {
    s.map_values(|d: MirDecl| mdecl_view(d))
}

/// The abstract value of an import: its module as text.
pub open spec fn import_view(i: MirImport) -> (Seq<char>, SymbolId, Option<SymbolId>) {
    (i.module@, i.symbol, i.alias)
}

/// The abstract values of a list of imports.
pub open spec fn imports_view(s: Seq<MirImport>) -> Seq<(Seq<char>, SymbolId, Option<SymbolId>)> {
    s.map_values(|i: MirImport| import_view(i))
}

/// The functions among `s`, in order.
pub open spec fn functions_in(s: Seq<MirDecl>) -> Seq<MirFunctionDecl>
    decreases s.len(),
{
    if s.len() == 0 {
        Seq::empty()
    } else {
        let p = functions_in(s.drop_last());
        match s.last() {
            MirDecl::Function(f) => p.push(f),
            _ => p,
        }
    }
}

/// The structs among `s`, in order.
pub open spec fn structs_in(s: Seq<MirDecl>) -> Seq<MirStructDecl>
    decreases s.len(),
{
    if s.len() == 0 {
        Seq::empty()
    } else {
        let p = structs_in(s.drop_last());
        match s.last() {
            MirDecl::Struct(x) => p.push(x),
            _ => p,
        }
    }
}

/// The globals among `s`, in order.
pub open spec fn globals_in(s: Seq<MirDecl>) -> Seq<MirGlobalDecl>
    decreases s.len(),
{
    if s.len() == 0 {
        Seq::empty()
    } else {
        let p = globals_in(s.drop_last());
        match s.last() {
            MirDecl::Global(g) => p.push(g),
            _ => p,
        }
    }
}

impl MirProgram {
    /// An empty module.
    pub fn new(module: ModuleId) -> (p: Self)
        ensures
            p.module == module,
            p.imports@ == Seq::<MirImport>::empty(),
            p.exports@ == Seq::<MirExport>::empty(),
            p.declarations@ == Seq::<MirDecl>::empty(),
    {
        MirProgram { module, imports: Vec::new(), exports: Vec::new(), declarations: Vec::new() }
    }

    /// Appends a declaration.
    pub fn push_decl(&mut self, decl: MirDecl)
        ensures
            final(self).declarations@ == old(self).declarations@.push(decl),
            final(self).module == old(self).module,
            final(self).imports@ == old(self).imports@,
            final(self).exports@ == old(self).exports@,
    {
        self.declarations.push(decl);
    }

    /// Appends an import.
    pub fn push_import(&mut self, import: MirImport)
        ensures
            final(self).imports@ == old(self).imports@.push(import),
            final(self).module == old(self).module,
            final(self).declarations@ == old(self).declarations@,
            final(self).exports@ == old(self).exports@,
    {
        self.imports.push(import);
    }

    /// Appends an export.
    pub fn push_export(&mut self, export: MirExport)
        ensures
            final(self).exports@ == old(self).exports@.push(export),
            final(self).module == old(self).module,
            final(self).declarations@ == old(self).declarations@,
            final(self).imports@ == old(self).imports@,
    {
        self.exports.push(export);
    }

    /// The number of declarations.
    pub fn decl_count(&self) -> (n: usize)
        ensures
            n == self.declarations@.len(),
    {
        self.declarations.len()
    }

    /// The functions, in order.
    pub fn functions(&self) -> (r: Vec<&MirFunctionDecl>)
        ensures
            r@.unref() == functions_in(self.declarations@),
    {
        let mut r: Vec<&MirFunctionDecl> = Vec::new();
        let mut i: usize = 0;
        while i < self.declarations.len()
            invariant
                i <= self.declarations@.len(),
                r@.unref() == functions_in(self.declarations@.take(i as int)),
            decreases self.declarations@.len() - i,
        {
            proof {
                assert(self.declarations@.take(i as int + 1).drop_last() =~= self.declarations@.take(i as int));
            }
            match &self.declarations[i] {
                MirDecl::Function(f) => {
                    r.push(f);
                },
                _ => {},
            }
            i = i + 1;
        }
        proof {
            assert(self.declarations@.take(self.declarations@.len() as int) =~= self.declarations@);
        }
        r
    }

    /// The structs, in order.
    pub fn structs(&self) -> (r: Vec<&MirStructDecl>)
        ensures
            r@.unref() == structs_in(self.declarations@),
    {
        let mut r: Vec<&MirStructDecl> = Vec::new();
        let mut i: usize = 0;
        while i < self.declarations.len()
            invariant
                i <= self.declarations@.len(),
                r@.unref() == structs_in(self.declarations@.take(i as int)),
            decreases self.declarations@.len() - i,
        {
            proof {
                assert(self.declarations@.take(i as int + 1).drop_last() =~= self.declarations@.take(i as int));
            }
            match &self.declarations[i] {
                MirDecl::Struct(s) => {
                    r.push(s);
                },
                _ => {},
            }
            i = i + 1;
        }
        proof {
            assert(self.declarations@.take(self.declarations@.len() as int) =~= self.declarations@);
        }
        r
    }

    /// The globals, in order.
    pub fn globals(&self) -> (r: Vec<&MirGlobalDecl>)
        ensures
            r@.unref() == globals_in(self.declarations@),
    {
        let mut r: Vec<&MirGlobalDecl> = Vec::new();
        let mut i: usize = 0;
        while i < self.declarations.len()
            invariant
                i <= self.declarations@.len(),
                r@.unref() == globals_in(self.declarations@.take(i as int)),
            decreases self.declarations@.len() - i,
        {
            proof {
                assert(self.declarations@.take(i as int + 1).drop_last() =~= self.declarations@.take(i as int));
            }
            match &self.declarations[i] {
                MirDecl::Global(g) => {
                    r.push(g);
                },
                _ => {},
            }
            i = i + 1;
        }
        proof {
            assert(self.declarations@.take(self.declarations@.len() as int) =~= self.declarations@);
        }
        r
    }
}

} // verus!
