#![allow(unused_imports, unused_variables, unused_mut, dead_code, clippy::all)]

use ts2zig::diagnostics::{Diagnostic, DiagnosticBag, DiagnosticCode, Severity};
use ts2zig::hir::{
    Completion, HirAsyncInfo, HirBinaryOp, HirCallee, HirCatchClause, HirClass, HirDecl,
    HirEnumVariant, HirExport, HirExpr, HirField, HirFunction, HirImport, HirParam, HirProgram,
    HirStmt, HirSwitchCase, HirUnaryOp,
};
use ts2zig::ids::{
    AsyncTaskId, AwaitPointId, ClosureId, EnumId, ErrorId, FieldId, FunctionId, GenericParamId,
    LocalId, ModuleId, StringId, StructId, SymbolId, TypeId, UnionId, VariantId,
};
use ts2zig::passes::context::PassContext;
use ts2zig::span::{Atom, Span};
use ts2zig::tables::{StringTable, SymbolTable};
use ts2zig::ty::{MemoryKind, Type, TypeTable, Visibility};


#[test]
fn ids_ids_are_distinct_for_distinct_raw_values() {
    assert_ne!(TypeId::from_raw(0), TypeId::from_raw(1));
    assert_eq!(TypeId::from_raw(7), TypeId::from_raw(7));
}

#[test]
fn ids_raw_roundtrips() {
    assert_eq!(TypeId::from_raw(42).raw(), 42);
}

#[test]
fn from_u32_matches_from_raw() {
    assert_eq!(TypeId::from(99u32), TypeId::from_raw(99));
}

#[test]
fn into_u32_matches_raw() {
    let id = TypeId::from_raw(123);
    let raw: u32 = id.into();
    assert_eq!(raw, 123);
}

#[test]
fn atom_dedup() {
    let a: Atom = Atom::from("Promise");
    let b: Atom = Atom::from("Promise");
    assert_eq!(a, b);
    assert_eq!(a.as_str(), "Promise");
}
