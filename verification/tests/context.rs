#![allow(unused_imports, unused_variables, unused_mut, dead_code, clippy::all)]

use ts2zig::diagnostics::{Diagnostic, DiagnosticBag, DiagnosticCode, Severity};
use ts2zig::hir::{
    Completion, HirAsyncInfo, HirBinaryOp, HirCallee, HirCatchClause, HirClass, HirDecl,
    HirEnumVariant, HirExport, HirExpr, HirField, HirFunction, HirImport, HirParam, HirProgram,
    HirStmt, HirSwitchCase, HirUnaryOp,
};
use ts2zig::ids::{
    AsyncTaskId, AwaitPointId, ClosureId, EnumId, ErrorId, FieldId, FunctionId, GenericParamId,
    LocalId, ModuleId, StringId, StructId, SymbolId, TypeId, UnionId, VariantId,
};
use ts2zig::passes::context::PassContext;
use ts2zig::span::{Atom, Span};
use ts2zig::tables::{StringTable, SymbolTable};
use ts2zig::ty::{MemoryKind, Type, TypeTable, Visibility};


#[test]
fn fresh_context_has_no_diagnostics() {
    let ctx = PassContext::new();
    assert!(!ctx.has_errors());
    assert_eq!(ctx.function_counter(), 0);
    assert_eq!(ctx.local_counter(), 0);
    assert_eq!(ctx.type_counter(), 0);
}

#[test]
fn with_seeded_counters_initializes_them() {
    let ctx = PassContext::with_seeded_counters(5, 10, 15);
    assert_eq!(ctx.function_counter(), 5);
    assert_eq!(ctx.local_counter(), 10);
    assert_eq!(ctx.type_counter(), 15);
}

#[test]
fn next_function_id_increments_counter() {
    let mut ctx = PassContext::new();
    let a = ctx.next_function_id();
    let b = ctx.next_function_id();
    assert_eq!(a.raw(), 0);
    assert_eq!(b.raw(), 1);
    assert_eq!(ctx.function_counter(), 2);
}

#[test]
fn next_local_id_increments_counter() {
    let mut ctx = PassContext::new();
    let a = ctx.next_local_id();
    let b = ctx.next_local_id();
    let c = ctx.next_local_id();
    assert_eq!(a.raw(), 0);
    assert_eq!(b.raw(), 1);
    assert_eq!(c.raw(), 2);
    assert_eq!(ctx.local_counter(), 3);
}

#[test]
fn next_type_id_increments_counter() {
    let mut ctx = PassContext::new();
    let a = ctx.next_type_id();
    let b = ctx.next_type_id();
    assert_eq!(a.raw(), 0);
    assert_eq!(b.raw(), 1);
    assert_eq!(ctx.type_counter(), 2);
}

#[test]
fn id_counters_are_independent() {
    let mut ctx = PassContext::new();
    ctx.next_function_id();
    ctx.next_local_id();
    ctx.next_type_id();
    assert_eq!(ctx.function_counter(), 1);
    assert_eq!(ctx.local_counter(), 1);
    assert_eq!(ctx.type_counter(), 1);
}

#[test]
fn error_pushes_diagnostic_and_marks_has_errors() {
    let mut ctx = PassContext::new();
    ctx.error("E0001", "boom", Span::new(0, 4));
    assert!(ctx.has_errors());
    assert_eq!(ctx.diagnostics().len(), 1);
}

#[test]
fn warning_pushes_diagnostic_without_errors() {
    let mut ctx = PassContext::new();
    ctx.warning("W0001", "watch out", Span::new(0, 4));
    assert!(!ctx.has_errors());
    assert_eq!(ctx.diagnostics().len(), 1);
}

#[test]
fn take_diagnostics_resets_bag() {
    let mut ctx = PassContext::new();
    ctx.error("E0001", "first", Span::new(0, 1));
    ctx.error("E0002", "second", Span::new(2, 3));
    assert_eq!(ctx.diagnostics().len(), 2);

    let taken = ctx.take_diagnostics();
    assert_eq!(taken.len(), 2);
    assert!(!ctx.has_errors());
    assert_eq!(ctx.diagnostics().len(), 0);
}

#[test]
fn push_diagnostic_preserves_severity() {
    let mut ctx = PassContext::new();
    ctx.push_diagnostic(Diagnostic::note("N0001", "fyi", Span::new(0, 1)));
    assert!(!ctx.has_errors());
    let diag = ctx.diagnostics().iter().next().unwrap();
    assert_eq!(diag.severity, Severity::Note);
}

#[test]
fn diagnostics_mut_allows_extend() {
    let mut ctx = PassContext::new();
    ctx.error("E0001", "first", Span::new(0, 1));
    let incoming = vec![Diagnostic::error("E0002", "second", Span::new(2, 3))];
    ctx.diagnostics_mut().extend(incoming);
    assert_eq!(ctx.diagnostics().len(), 2);
}
