#![allow(unused_imports, unused_variables, unused_mut, dead_code, clippy::all)]

use ts2zig::diagnostics::{Diagnostic, DiagnosticBag, DiagnosticCode, Severity};
use ts2zig::hir::{
    Completion, HirAsyncInfo, HirBinaryOp, HirCallee, HirCatchClause, HirClass, HirDecl,
    HirEnumVariant, HirExport, HirExpr, HirField, HirFunction, HirImport, HirParam, HirProgram,
    HirStmt, HirSwitchCase, HirUnaryOp,
};
use ts2zig::ids::{
    AsyncTaskId, AwaitPointId, ClosureId, EnumId, ErrorId, FieldId, FunctionId, GenericParamId,
    LocalId, ModuleId, StringId, StructId, SymbolId, TypeId, UnionId, VariantId,
};
use ts2zig::passes::context::PassContext;
use ts2zig::span::{Atom, Span};
use ts2zig::tables::{StringTable, SymbolTable};
use ts2zig::ty::{MemoryKind, Type, TypeTable, Visibility};

#[test]
fn intern_returns_same_id_for_same_type() {
    let mut table = TypeTable::new();
    let a = table.intern(&Type::I32);
    let b = table.intern(&Type::I32);
    assert_eq!(a, b);
}

#[test]
fn intern_distinguishes_distinct_primitive_types() {
    let mut table = TypeTable::new();
    let a = table.intern(&Type::I32);
    let b = table.intern(&Type::I64);
    assert_ne!(a, b);
}

#[test]
fn resolve_returns_interned_type() {
    let mut table = TypeTable::new();
    let id = table.intern(&Type::String);
    assert_eq!(table.resolve(id), Some(&Type::String));
}

#[test]
fn type_table_intern_assigns_sequential_ids() {
    let mut table = TypeTable::new();
    assert_eq!(table.intern(&Type::I32), TypeId::from_raw(0));
    assert_eq!(table.intern(&Type::I64), TypeId::from_raw(1));
    assert_eq!(table.intern(&Type::Bool), TypeId::from_raw(2));
}

#[test]
fn type_table_resolve_returns_none_for_invalid_id() {
    let table = TypeTable::new();
    assert_eq!(table.resolve(TypeId::from_raw(42)), None);
}


#[test]
fn optional_dedups_by_inner() {
    let mut table = TypeTable::new();
    let inner = table.intern(&Type::I32);
    let a = table.intern(&Type::Optional { inner });
    let b = table.intern(&Type::Optional { inner });
    assert_eq!(a, b);
}

#[test]
fn optional_distinguishes_by_inner() {
    let mut table = TypeTable::new();
    let a = table.intern(&Type::Optional {
        inner: TypeId::from_raw(1),
    });
    let b = table.intern(&Type::Optional {
        inner: TypeId::from_raw(2),
    });
    assert_ne!(a, b);
}

#[test]
fn array_dedups_by_element() {
    let mut table = TypeTable::new();
    let element = table.intern(&Type::Bool);
    let a = table.intern(&Type::Array { element });
    let b = table.intern(&Type::Array { element });
    assert_eq!(a, b);
}

#[test]
fn fn_dedups_by_full_signature() {
    let mut table = TypeTable::new();
    let p1 = table.intern(&Type::I32);
    let p2 = table.intern(&Type::I64);
    let ret = table.intern(&Type::Bool);
    let a = table.intern(&Type::Fn {
        params: vec![p1, p2],
        ret,
        err: None,
    });
    let b = table.intern(&Type::Fn {
        params: vec![p1, p2],
        ret,
        err: None,
    });
    assert_eq!(a, b);
    assert_eq!(table.len(), 4);
}

#[test]
fn fn_distinguishes_by_param_order() {
    let mut table = TypeTable::new();
    let p1 = table.intern(&Type::I32);
    let p2 = table.intern(&Type::I64);
    let ret = table.intern(&Type::Bool);
    let a = table.intern(&Type::Fn {
        params: vec![p1, p2],
        ret,
        err: None,
    });
    let b = table.intern(&Type::Fn {
        params: vec![p2, p1],
        ret,
        err: None,
    });
    assert_ne!(a, b);
}

#[test]
fn result_dedups_by_components() {
    let mut table = TypeTable::new();
    let ok = table.intern(&Type::String);
    let err = table.intern(&Type::Named {
        symbol: Atom::new_inline("0"),
    });
    let a = table.intern(&Type::Result { ok, err });
    let b = table.intern(&Type::Result { ok, err });
    assert_eq!(a, b);
}

#[test]
fn struct_distinguishes_by_id() {
    let mut table = TypeTable::new();
    let a = table.intern(&Type::Struct {
        id: StructId::from_raw(0),
    });
    let b = table.intern(&Type::Struct {
        id: StructId::from_raw(1),
    });
    assert_ne!(a, b);
}

#[test]
fn named_dedups_by_symbol() {
    let mut table = TypeTable::new();
    let a = table.intern(&Type::Named {
        symbol: Atom::new_inline("7"),
    });
    let b = table.intern(&Type::Named {
        symbol: Atom::new_inline("7"),
    });
    assert_eq!(a, b);
}

#[test]
fn error_variant_is_singleton() {
    let mut table = TypeTable::new();
    let a = table.intern(&Type::Error);
    let b = table.intern(&Type::Error);
    assert_eq!(a, b);
    assert_eq!(table.len(), 1);
}

#[test]
fn promise_dedups_by_ok_and_err() {
    let mut table = TypeTable::new();
    let ok = table.intern(&Type::I32);
    let err = table.intern(&Type::String);
    let a = table.intern(&Type::Promise { ok, err: Some(err) });
    let b = table.intern(&Type::Promise { ok, err: Some(err) });
    assert_eq!(a, b);
    let c = table.intern(&Type::Promise { ok, err: None });
    assert_ne!(a, c);
}

#[test]
fn intern_with_dependent_types_dedups() {
    let mut table = TypeTable::new();
    let i32_id = table.intern(&Type::I32);
    let opt1 = table.intern(&Type::Optional { inner: i32_id });
    let opt2 = table.intern(&Type::Optional { inner: i32_id });
    assert_eq!(opt1, opt2);
    let arr = table.intern(&Type::Array { element: opt1 });
    let arr2 = table.intern(&Type::Array { element: opt2 });
    assert_eq!(arr, arr2);
    assert_eq!(table.len(), 3);
}

