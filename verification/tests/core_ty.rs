#![allow(unused_imports, unused_variables, unused_mut, dead_code, clippy::all)]

use ts2zig::diagnostics::{Diagnostic, DiagnosticBag, DiagnosticCode, Severity};
use ts2zig::hir::{
    Completion, HirAsyncInfo, HirBinaryOp, HirCallee, HirCatchClause, HirClass, HirDecl,
    HirEnumVariant, HirExport, HirExpr, HirField, HirFunction, HirImport, HirParam, HirProgram,
    HirStmt, HirSwitchCase, HirUnaryOp,
};
use ts2zig::ids::{
    AsyncTaskId, AwaitPointId, ClosureId, EnumId, ErrorId, FieldId, FunctionId, GenericParamId,
    LocalId, ModuleId, StringId, StructId, SymbolId, TypeId, UnionId, VariantId,
};
use ts2zig::passes::context::PassContext;
use ts2zig::span::{Atom, Span};
use ts2zig::tables::{StringTable, SymbolTable};
use ts2zig::ty::{MemoryKind, Type, TypeTable, Visibility};
use std::collections::HashSet;


#[test]
fn primitive_variants_are_distinct() {
    assert_ne!(Type::I32, Type::I64);
    assert_ne!(Type::F32, Type::F64);
    assert_ne!(Type::String, Type::Null);
    assert_ne!(Type::Bool, Type::I32);
    assert_ne!(Type::Void, Type::Never);
    assert_ne!(Type::Error, Type::Void);
}

#[test]
fn primitive_variants_hash_consistently() {
    let mut set = HashSet::new();
    set.insert(Type::I32);
    set.insert(Type::I32);
    set.insert(Type::I64);
    assert_eq!(set.len(), 2);
}

#[test]
fn optional_equality_depends_only_on_inner() {
    let a = Type::Optional {
        inner: TypeId::from_raw(7),
    };
    let b = Type::Optional {
        inner: TypeId::from_raw(7),
    };
    let c = Type::Optional {
        inner: TypeId::from_raw(8),
    };
    assert_eq!(a, b);
    assert_ne!(a, c);
}

#[test]
fn struct_equality_depends_only_on_id() {
    let a = Type::Struct {
        id: StructId::from_raw(3),
    };
    let b = Type::Struct {
        id: StructId::from_raw(3),
    };
    let c = Type::Struct {
        id: StructId::from_raw(4),
    };
    assert_eq!(a, b);
    assert_ne!(a, c);
}

#[test]
fn fn_equality_considers_all_components() {
    let p1 = TypeId::from_raw(1);
    let p2 = TypeId::from_raw(2);
    let ret = TypeId::from_raw(3);
    let err = TypeId::from_raw(4);
    let base = Type::Fn {
        params: vec![p1, p2],
        ret,
        err: None,
    };
    assert_eq!(
        base.clone(),
        Type::Fn {
            params: vec![p1, p2],
            ret,
            err: None
        }
    );
    assert_ne!(
        base.clone(),
        Type::Fn {
            params: vec![p1, p2],
            ret,
            err: Some(err)
        }
    );
    assert_ne!(
        base,
        Type::Fn {
            params: vec![p2, p1],
            ret,
            err: None
        }
    );
}

#[test]
fn result_distinguishes_ok_from_err() {
    let ty = Type::Result {
        ok: TypeId::from_raw(1),
        err: TypeId::from_raw(2),
    };
    assert_ne!(
        ty.clone(),
        Type::Result {
            ok: TypeId::from_raw(2),
            err: TypeId::from_raw(1)
        }
    );
}

#[test]
fn named_equality_depends_only_on_symbol() {
    let a = Type::Named {
        symbol: Atom::from("Foo"),
    };
    let b = Type::Named {
        symbol: Atom::from("Foo"),
    };
    let c = Type::Named {
        symbol: Atom::from("Bar"),
    };
    assert_eq!(a, b);
    assert_ne!(a, c);
}

#[test]
fn memory_kind_is_copy_and_distinct() {
    let kinds = [
        MemoryKind::CopyValue,
        MemoryKind::ValueStruct,
        MemoryKind::GcRef,
        MemoryKind::NullableGcRef,
        MemoryKind::LinearMemoryValue,
    ];
    for (i, a) in kinds.iter().enumerate() {
        for (j, b) in kinds.iter().enumerate() {
            assert_eq!(i == j, a == b);
        }
    }
}

#[test]
fn type_carries_indirection_ids_without_compile_error() {
    let _ = Type::Array {
        element: TypeId::from_raw(0),
    };
    let _ = Type::Promise {
        ok: TypeId::from_raw(1),
        err: None,
    };
    let _ = Type::Optional {
        inner: TypeId::from_raw(2),
    };
    let _ = FunctionId::from_raw(0);
    let _ = LocalId::from_raw(0);
}
