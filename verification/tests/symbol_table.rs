#![allow(unused_imports, unused_variables, unused_mut, dead_code, clippy::all)]

use ts2zig::diagnostics::{Diagnostic, DiagnosticBag, DiagnosticCode, Severity};
use ts2zig::hir::{
    Completion, HirAsyncInfo, HirBinaryOp, HirCallee, HirCatchClause, HirClass, HirDecl,
    HirEnumVariant, HirExport, HirExpr, HirField, HirFunction, HirImport, HirParam, HirProgram,
    HirStmt, HirSwitchCase, HirUnaryOp,
};
use ts2zig::ids::{
    AsyncTaskId, AwaitPointId, ClosureId, EnumId, ErrorId, FieldId, FunctionId, GenericParamId,
    LocalId, ModuleId, StringId, StructId, SymbolId, TypeId, UnionId, VariantId,
};
use ts2zig::passes::context::PassContext;
use ts2zig::span::{Atom, Span};
use ts2zig::tables::{StringTable, SymbolTable};
use ts2zig::ty::{MemoryKind, Type, TypeTable, Visibility};

#[test]
fn intern_returns_same_id_for_same_name() {
    let mut table = SymbolTable::new();
    let a = table.intern("foo");
    let b = table.intern("foo");
    assert_eq!(a, b);
}

#[test]
fn intern_distinguishes_distinct_names() {
    let mut table = SymbolTable::new();
    let a = table.intern("foo");
    let b = table.intern("bar");
    assert_ne!(a, b);
}

#[test]
fn resolve_returns_interned_name() {
    let mut table = SymbolTable::new();
    let id = table.intern("foo");
    assert_eq!(table.resolve(id), Some("foo"));
}

#[test]
fn symbol_table_intern_assigns_sequential_ids() {
    let mut table = SymbolTable::new();
    assert_eq!(table.intern("a"), SymbolId::from_raw(0));
    assert_eq!(table.intern("b"), SymbolId::from_raw(1));
}

#[test]
fn symbol_table_resolve_returns_none_for_invalid_id() {
    let table = SymbolTable::new();
    assert_eq!(table.resolve(SymbolId::from_raw(42)), None);
}


