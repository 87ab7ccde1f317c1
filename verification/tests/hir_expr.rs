#![allow(unused_imports, unused_variables, unused_mut, dead_code, clippy::all)]

use ts2zig::diagnostics::{Diagnostic, DiagnosticBag, DiagnosticCode, Severity};
use ts2zig::hir::{
    Completion, HirAsyncInfo, HirBinaryOp, HirCallee, HirCatchClause, HirClass, HirDecl,
    HirEnumVariant, HirExport, HirExpr, HirField, HirFunction, HirImport, HirParam, HirProgram,
    HirStmt, HirSwitchCase, HirUnaryOp,
};
use ts2zig::ids::{
    AsyncTaskId, AwaitPointId, ClosureId, EnumId, ErrorId, FieldId, FunctionId, GenericParamId,
    LocalId, ModuleId, StringId, StructId, SymbolId, TypeId, UnionId, VariantId,
};
use ts2zig::passes::context::PassContext;
use ts2zig::span::{Atom, Span};
use ts2zig::tables::{StringTable, SymbolTable};
use ts2zig::ty::{MemoryKind, Type, TypeTable, Visibility};


#[test]
fn expr_binary_op_variants_are_distinct() {
    assert_ne!(HirBinaryOp::Add, HirBinaryOp::Sub);
    assert_ne!(HirBinaryOp::Eq, HirBinaryOp::Ne);
    assert_ne!(HirBinaryOp::BitAnd, HirBinaryOp::BitOr);
    assert_ne!(HirBinaryOp::Shl, HirBinaryOp::Shr);
}

#[test]
fn expr_unary_op_variants_are_distinct() {
    assert_ne!(HirUnaryOp::Neg, HirUnaryOp::Not);
    assert_ne!(HirUnaryOp::BitNot, HirUnaryOp::TypeOf);
}

#[test]
fn expr_construction_does_not_panic() {
    let int_ty = TypeId::from_raw(0);
    let expr = HirExpr::Int(42);
    match expr {
        HirExpr::Int(v) => assert_eq!(v, 42),
        _ => panic!("expected Int"),
    }
    assert_eq!(int_ty.raw(), 0);
}

#[test]
fn binary_expr_nests() {
    let int_ty = TypeId::from_raw(1);
    let a = HirExpr::Int(1);
    let b = HirExpr::Int(2);
    let sum = HirExpr::Binary {
        op: HirBinaryOp::Add,
        lhs: Box::new(a),
        rhs: Box::new(b),
        ty: int_ty,
    };
    match sum {
        HirExpr::Binary { op, .. } => assert_eq!(op, HirBinaryOp::Add),
        _ => panic!("expected Binary"),
    }
}

#[test]
fn expr_supports_equality() {
    let a = HirExpr::Int(42);
    let b = HirExpr::Int(42);
    let c = HirExpr::Int(7);
    assert_eq!(a, b);
    assert_ne!(a, c);
}
