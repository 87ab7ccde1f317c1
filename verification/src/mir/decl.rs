//! Headers of declarations in the mid-level IR.

use vstd::prelude::*;

use crate::ids::{FieldId, FunctionId, LocalId, StructId, SymbolId, TypeId};
use crate::mir::body::{MirBody, MStmt, mstmts_view};
use crate::ty::Visibility;

verus! {

/// A local variable of a function body.
#[derive(Debug, Clone, Copy, PartialEq, Eq, Structural, Hash)]
pub struct MirLocalDecl {
    pub id: LocalId,
    pub name: SymbolId,
    pub ty: TypeId,
    pub mutable: bool,
}

/// A function parameter.
#[derive(Debug, Clone, Copy, PartialEq, Eq, Structural, Hash)]
pub struct MirParam {
    pub id: LocalId,
    pub name: SymbolId,
    pub ty: TypeId,
}

/// A field of a struct.
#[derive(Debug, Clone, Copy, PartialEq, Eq, Structural, Hash)]
pub struct MirFieldDecl {
    pub id: FieldId,
    pub name: SymbolId,
    pub ty: TypeId,
    pub mutable: bool,
    pub visibility: Visibility,
}

/// What kind of function a declaration is.
#[derive(Debug, Clone, Copy, PartialEq, Eq, Structural, Hash)]
pub enum FunctionKind {
    Plain,
    Method { owner: StructId, self_param: LocalId },
    Closure,
    Constructor { owner: StructId },
    RuntimeShim,
}

/// What a function may do besides returning.
#[derive(Debug, Clone, Copy, PartialEq, Eq, Structural, Hash)]
pub struct FunctionEffects {
    pub can_throw: bool,
    pub is_async: bool,
}

impl Default for FunctionEffects {
    fn default() -> (e: Self)
        ensures
            !e.can_throw,
            !e.is_async,
    {
        FunctionEffects { can_throw: false, is_async: false }
    }
}

/// A global variable.
#[derive(Debug, Clone, PartialEq, Eq, Hash)]
pub struct MirGlobalDecl {
    pub name: SymbolId,
    pub ty: TypeId,
    pub mutable: bool,
    pub visibility: Visibility,
    pub export_name: Option<String>,
}

/// A function.
#[derive(Debug, PartialEq)]
pub struct MirFunctionDecl {
    pub id: FunctionId,
    pub name: SymbolId,
    pub export_name: Option<String>,
    pub params: Vec<MirParam>,
    pub ret: TypeId,
    pub throws: Option<TypeId>,
    pub body: MirBody,
    pub kind: FunctionKind,
    pub effects: FunctionEffects,
}

/// A struct with its fields and methods.
#[derive(Debug, PartialEq)]
pub struct MirStructDecl {
    pub id: StructId,
    pub name: SymbolId,
    pub fields: Vec<MirFieldDecl>,
    pub methods: Vec<MirFunctionDecl>,
}

/// A declaration.
#[derive(Debug, PartialEq)]
pub enum MirDecl {
    Function(MirFunctionDecl),
    Struct(MirStructDecl),
    Global(MirGlobalDecl),
}

/// The abstract value of a function.
pub struct MFunction {
    pub id: FunctionId,
    pub name: SymbolId,
    pub export_name: Option<Seq<char>>,
    pub params: Seq<MirParam>,
    pub ret: TypeId,
    pub throws: Option<TypeId>,
    pub locals: Seq<MirLocalDecl>,
    pub body: Seq<MStmt>,
    pub kind: FunctionKind,
    pub effects: FunctionEffects,
}

/// The abstract value of a global.
pub struct MGlobal {
    pub name: SymbolId,
    pub ty: TypeId,
    pub mutable: bool,
    pub visibility: Visibility,
    pub export_name: Option<Seq<char>>,
}

/// The abstract value of a struct.
pub struct MStruct {
    pub id: StructId,
    pub name: SymbolId,
    pub fields: Seq<MirFieldDecl>,
    pub methods: Seq<MFunction>,
}

/// The abstract value of a declaration.
pub enum MDecl {
    Function(MFunction),
    Struct(MStruct),
    Global(MGlobal),
}

/// The abstract value of an optional owned text.
pub open spec fn opt_text(o: Option<String>) -> Option<Seq<char>> {
    match o {
        Some(s) => Some(s@),
        None => None,
    }
}

/// The abstract value of a function.
pub open spec fn mfunction_view(f: MirFunctionDecl) -> MFunction {
    MFunction {
        id: f.id,
        name: f.name,
        export_name: opt_text(f.export_name),
        params: f.params@,
        ret: f.ret,
        throws: f.throws,
        locals: f.body.locals@,
        body: mstmts_view(f.body.block.stmts@),
        kind: f.kind,
        effects: f.effects,
    }
}

/// The abstract values of a list of functions.
pub open spec fn mfunctions_view(s: Seq<MirFunctionDecl>) -> Seq<MFunction> {
    s.map_values(|f: MirFunctionDecl| mfunction_view(f))
}

/// The abstract value of a global.
pub open spec fn mglobal_view(g: MirGlobalDecl) -> MGlobal {
    MGlobal {
        name: g.name,
        ty: g.ty,
        mutable: g.mutable,
        visibility: g.visibility,
        export_name: opt_text(g.export_name),
    }
}

/// The abstract value of a struct.
pub open spec fn mstruct_view(s: MirStructDecl) -> MStruct {
    MStruct { id: s.id, name: s.name, fields: s.fields@, methods: mfunctions_view(s.methods@) }
}

/// The abstract value of a declaration.
pub open spec fn mdecl_view(d: MirDecl) -> MDecl {
    match d {
        MirDecl::Function(f) => MDecl::Function(mfunction_view(f)),
        MirDecl::Struct(s) => MDecl::Struct(mstruct_view(s)),
        MirDecl::Global(g) => MDecl::Global(mglobal_view(g)),
    }
}

impl View for MirFunctionDecl {
    type V = MFunction;

    open spec fn view(&self) -> MFunction {
        mfunction_view(*self)
    }
}

impl View for MirStructDecl {
    type V = MStruct;

    open spec fn view(&self) -> MStruct {
        mstruct_view(*self)
    }
}

impl View for MirDecl {
    type V = MDecl;

    open spec fn view(&self) -> MDecl {
        mdecl_view(*self)
    }
}

impl From<MirFunctionDecl> for MirDecl {
    fn from(f: MirFunctionDecl) -> (d: Self) {
        MirDecl::Function(f)
    }
}

impl vstd::std_specs::convert::FromSpecImpl<MirFunctionDecl> for MirDecl {
    open spec fn obeys_from_spec() -> bool {
        true
    }

    open spec fn from_spec(f: MirFunctionDecl) -> Self {
        MirDecl::Function(f)
    }
}

impl From<MirStructDecl> for MirDecl {
    fn from(s: MirStructDecl) -> (d: Self) {
        MirDecl::Struct(s)
    }
}

impl vstd::std_specs::convert::FromSpecImpl<MirStructDecl> for MirDecl {
    open spec fn obeys_from_spec() -> bool {
        true
    }

    open spec fn from_spec(s: MirStructDecl) -> Self {
        MirDecl::Struct(s)
    }
}

impl From<MirGlobalDecl> for MirDecl {
    fn from(g: MirGlobalDecl) -> (d: Self) {
        MirDecl::Global(g)
    }
}

impl vstd::std_specs::convert::FromSpecImpl<MirGlobalDecl> for MirDecl {
    open spec fn obeys_from_spec() -> bool {
        true
    }

    open spec fn from_spec(g: MirGlobalDecl) -> Self {
        MirDecl::Global(g)
    }
}

} // verus!
