#![allow(unused_imports, unused_variables, unused_mut, dead_code, clippy::all)]

use ts2zig::hir::{HirBinaryOp, HirCallee, HirExpr, HirUnaryOp};
use ts2zig::ids::{FieldId, FunctionId, LocalId, ModuleId, StringId, StructId, SymbolId, TypeId};
use ts2zig::mir::ops::{BinaryOp, UnaryOp};
use ts2zig::passes::context::PassContext;
use ts2zig::passes::hir_to_mir::converter::{placeholder_function, ExprConverter, FunctionRemap};
use ts2zig::passes::hir_to_mir::ops::{convert_binop, convert_unaryop};
use ts2zig::span::Span;

fn ctx() -> PassContext {
    PassContext::new()
}

fn int_lit(v: i64) -> HirExpr {
    HirExpr::Int(v)
}

fn unit_ty() -> TypeId {
    TypeId::from_raw(0)
}

#[test]
fn converter_starts_with_empty_state() {
    let c = ExprConverter::new();
    assert_eq!(c.peek_next_local(), 0);
}

#[test]
fn default_matches_new() {
    let a = ExprConverter::default();
    let b = ExprConverter::new();
    assert_eq!(a.peek_next_local(), b.peek_next_local());
}

#[test]
fn fresh_local_increments_counter() {
    let mut c = ExprConverter::new();
    let l0 = c.map_local_id(LocalId::from_raw(0));
    let l1 = c.map_local_id(LocalId::from_raw(1));
    assert_ne!(l0, l1);
    assert_eq!(c.peek_next_local(), 2);
}

#[test]
fn with_function_remap_and_offset_starts_past_offset() {
    let c = ExprConverter::with_function_remap_and_offset(FunctionRemap::new(), 5);
    assert_eq!(c.peek_next_local(), 5);
    let c2 = ExprConverter::with_function_remap(FunctionRemap::new());
    assert_eq!(c2.peek_next_local(), 0);
}

#[test]
fn seed_params_advances_next_local_past_param_count() {
    let mut c = ExprConverter::with_function_remap_and_offset(FunctionRemap::new(), 0);
    c.seed_params(3);
    assert_eq!(c.peek_next_local(), 3);
    let fresh = c.map_local_id(LocalId::from_raw(99));
    assert_eq!(fresh, LocalId::from_raw(3));
}

#[test]
fn map_local_id_returns_local_id() {
    let mut c = ExprConverter::new();
    let old = LocalId::from_raw(7);
    let new = c.map_local_id(old);
    assert_eq!(c.map_local_id(old), new);
}

#[test]
fn register_local_name_does_not_panic() {
    let mut c = ExprConverter::new();
    let id = LocalId::from_raw(0);
    c.register_local_name(id, SymbolId::from_raw(11));
}

#[test]
fn push_await_increments_state() {
    let mut c = ExprConverter::new();
    let (d1, s1) = c.push_await();
    let (d2, s2) = c.push_await();
    assert_ne!(d1, d2);
    assert_eq!(s1, 1);
    assert_eq!(s2, 2);
}

#[test]
fn resolve_callee_function_uses_remap() {
    let mut remap = FunctionRemap::new();
    remap.insert(FunctionId::from_raw(3), FunctionId::from_raw(99));
    let mut c = ExprConverter::with_function_remap(remap);
    let mut cx = ctx();
    let fid = c.resolve_callee(&HirCallee::Function(FunctionId::from_raw(3)), &mut cx);
    assert_eq!(fid, FunctionId::from_raw(99));
}

#[test]
fn resolve_callee_function_without_remap_returns_input() {
    let mut c = ExprConverter::new();
    let mut cx = ctx();
    let fid = c.resolve_callee(&HirCallee::Function(FunctionId::from_raw(7)), &mut cx);
    assert_eq!(fid, FunctionId::from_raw(7));
}

#[test]
fn resolve_callee_indirect_is_placeholder_and_diagnostics() {
    let mut c = ExprConverter::new();
    let mut cx = ctx();
    let fid = c.resolve_callee(&HirCallee::Indirect(Box::new(int_lit(1))), &mut cx);
    assert_eq!(fid, placeholder_function());
    assert!(cx.has_errors());
}

#[test]
fn resolve_callee_closure_is_placeholder_and_diagnostics() {
    let mut c = ExprConverter::new();
    let mut cx = ctx();
    let fid = c.resolve_callee(&HirCallee::Closure(LocalId::from_raw(0)), &mut cx);
    assert_eq!(fid, placeholder_function());
    assert!(cx.has_errors());
}

#[test]
fn resolve_callee_runtime_is_placeholder_and_diagnostics() {
    let mut c = ExprConverter::new();
    let mut cx = ctx();
    let fid = c.resolve_callee(
        &HirCallee::Runtime {
            name: StringId::from_raw(0),
            ty: TypeId::from_raw(0),
        },
        &mut cx,
    );
    assert_eq!(fid, placeholder_function());
    assert!(cx.has_errors());
}

#[test]
fn convert_binop_maps_all_variants() {
    let mut cx = ctx();
    assert_eq!(convert_binop(HirBinaryOp::Add, &mut cx), BinaryOp::Add);
    assert_eq!(convert_binop(HirBinaryOp::Sub, &mut cx), BinaryOp::Sub);
    assert_eq!(convert_binop(HirBinaryOp::Mul, &mut cx), BinaryOp::Mul);
    assert_eq!(convert_binop(HirBinaryOp::Div, &mut cx), BinaryOp::Div);
    assert_eq!(convert_binop(HirBinaryOp::Mod, &mut cx), BinaryOp::Mod);
    assert_eq!(convert_binop(HirBinaryOp::Eq, &mut cx), BinaryOp::Eq);
    assert_eq!(convert_binop(HirBinaryOp::Ne, &mut cx), BinaryOp::Ne);
    assert_eq!(convert_binop(HirBinaryOp::Lt, &mut cx), BinaryOp::Lt);
    assert_eq!(convert_binop(HirBinaryOp::Le, &mut cx), BinaryOp::Le);
    assert_eq!(convert_binop(HirBinaryOp::Gt, &mut cx), BinaryOp::Gt);
    assert_eq!(convert_binop(HirBinaryOp::Ge, &mut cx), BinaryOp::Ge);
    assert_eq!(convert_binop(HirBinaryOp::And, &mut cx), BinaryOp::And);
    assert_eq!(convert_binop(HirBinaryOp::Or, &mut cx), BinaryOp::Or);
    assert_eq!(
        convert_binop(HirBinaryOp::BitAnd, &mut cx),
        BinaryOp::BitAnd
    );
    assert_eq!(convert_binop(HirBinaryOp::BitOr, &mut cx), BinaryOp::BitOr);
    assert_eq!(
        convert_binop(HirBinaryOp::BitXor, &mut cx),
        BinaryOp::BitXor
    );
    assert_eq!(convert_binop(HirBinaryOp::Shl, &mut cx), BinaryOp::Shl);
    assert_eq!(convert_binop(HirBinaryOp::Shr, &mut cx), BinaryOp::Shr);
    assert_eq!(convert_binop(HirBinaryOp::Usr, &mut cx), BinaryOp::Eq);
    assert_eq!(convert_binop(HirBinaryOp::In, &mut cx), BinaryOp::Eq);
    assert_eq!(
        convert_binop(HirBinaryOp::InstanceOf, &mut cx),
        BinaryOp::Eq
    );
    assert!(
        cx.diagnostics()
            .iter()
            .any(|d| d.code.as_str() == "P0005" && d.message.contains("Usr")),
        "Usr/In/InstanceOf must emit a P0005 diagnostic from convert_binop"
    );
}

#[test]
fn convert_unaryop_maps_variants() {
    let mut cx = ctx();
    assert_eq!(convert_unaryop(HirUnaryOp::Neg, &mut cx), UnaryOp::Neg);
    assert_eq!(convert_unaryop(HirUnaryOp::Not, &mut cx), UnaryOp::Not);
    assert_eq!(
        convert_unaryop(HirUnaryOp::BitNot, &mut cx),
        UnaryOp::BitNot
    );
    assert_eq!(convert_unaryop(HirUnaryOp::TypeOf, &mut cx), UnaryOp::Not);
    assert_eq!(convert_unaryop(HirUnaryOp::Void, &mut cx), UnaryOp::Not);
    assert_eq!(convert_unaryop(HirUnaryOp::Delete, &mut cx), UnaryOp::Not);
    assert!(
        cx.diagnostics()
            .iter()
            .any(|d| d.code.as_str() == "P0005" && d.message.contains("TypeOf")),
        "TypeOf/Void/Delete must emit a P0005 diagnostic from convert_unaryop"
    );
}

#[test]
fn span_does_not_block_compile() {
    let _ = Span::new(0, 0);
}
