#![allow(unused_imports, unused_variables, unused_mut, dead_code, clippy::all)]

use ts2zig::diagnostics::{Diagnostic, DiagnosticBag, DiagnosticCode, Severity};
use ts2zig::hir::{
    Completion, HirAsyncInfo, HirBinaryOp, HirCallee, HirCatchClause, HirClass, HirDecl,
    HirEnumVariant, HirExport, HirExpr, HirField, HirFunction, HirImport, HirParam, HirProgram,
    HirStmt, HirSwitchCase, HirUnaryOp,
};
use ts2zig::ids::{
    AsyncTaskId, AwaitPointId, ClosureId, EnumId, ErrorId, FieldId, FunctionId, GenericParamId,
    LocalId, ModuleId, StringId, StructId, SymbolId, TypeId, UnionId, VariantId,
};
use ts2zig::passes::context::PassContext;
use ts2zig::span::{Atom, Span};
use ts2zig::tables::{StringTable, SymbolTable};
use ts2zig::ty::{MemoryKind, Type, TypeTable, Visibility};

#[test]
fn intern_returns_same_id_for_same_string() {
    let mut table = StringTable::new();
    let a = table.intern("hello");
    let b = table.intern("hello");
    assert_eq!(a, b);
}

#[test]
fn intern_distinguishes_distinct_strings() {
    let mut table = StringTable::new();
    let a = table.intern("hello");
    let b = table.intern("world");
    assert_ne!(a, b);
}

#[test]
fn resolve_returns_interned_string() {
    let mut table = StringTable::new();
    let id = table.intern("hello");
    assert_eq!(table.resolve(id), Some("hello"));
}

#[test]
fn resolve_handles_empty_string() {
    let mut table = StringTable::new();
    let id = table.intern("");
    assert_eq!(table.resolve(id), Some(""));
}

#[test]
fn string_table_intern_assigns_sequential_ids() {
    let mut table = StringTable::new();
    assert_eq!(table.intern("a"), StringId::from_raw(0));
    assert_eq!(table.intern("b"), StringId::from_raw(1));
    assert_eq!(table.intern("c"), StringId::from_raw(2));
}

#[test]
fn string_table_resolve_returns_none_for_invalid_id() {
    let table = StringTable::new();
    assert_eq!(table.resolve(StringId::from_raw(42)), None);
}


