#![allow(unused_imports, unused_variables, unused_mut, dead_code, clippy::all)]

use ts2zig::ids::{FieldId, FunctionId, LocalId, ModuleId, StringId, StructId, SymbolId, TypeId};
use ts2zig::mir::decl::{FunctionEffects, FunctionKind, MirFieldDecl, MirGlobalDecl, MirLocalDecl, MirParam};
use ts2zig::mir::ops::{BinaryOp, RuntimeOp, UnaryOp};
use ts2zig::mir::program::{MirExport, MirImport};
use ts2zig::mir::runtime::RuntimeRequirements;
use ts2zig::ty::Visibility;

#[test]
fn tests_binary_op_variants_are_distinct() {
    let ops = [
        BinaryOp::Add,
        BinaryOp::Sub,
        BinaryOp::Mul,
        BinaryOp::Div,
        BinaryOp::Mod,
        BinaryOp::Eq,
        BinaryOp::Ne,
        BinaryOp::Lt,
        BinaryOp::Le,
        BinaryOp::Gt,
        BinaryOp::Ge,
        BinaryOp::And,
        BinaryOp::Or,
        BinaryOp::BitAnd,
        BinaryOp::BitOr,
        BinaryOp::BitXor,
        BinaryOp::Shl,
        BinaryOp::Shr,
    ];
    for (i, a) in ops.iter().enumerate() {
        for (j, b) in ops.iter().enumerate() {
            if i != j {
                assert_ne!(a, b, "ops[{i}]={a:?} should differ from ops[{j}]={b:?}");
            }
        }
    }
}

#[test]
fn tests_unary_op_variants_are_distinct() {
    assert_ne!(UnaryOp::Neg, UnaryOp::Not);
    assert_ne!(UnaryOp::Not, UnaryOp::BitNot);
    assert_ne!(UnaryOp::Neg, UnaryOp::BitNot);
}

#[test]
fn runtime_op_variants_are_distinct() {
    let ops = [
        RuntimeOp::StringConcat,
        RuntimeOp::StringEquals,
        RuntimeOp::StringLen,
        RuntimeOp::ArrayCreate,
        RuntimeOp::ArrayGet,
        RuntimeOp::ArraySet,
        RuntimeOp::ArrayLen,
        RuntimeOp::MapGet,
        RuntimeOp::MapSet,
        RuntimeOp::ResultOk,
        RuntimeOp::ResultErr,
        RuntimeOp::ResultUnwrapOk,
        RuntimeOp::PromiseCreate,
        RuntimeOp::PromiseResolve,
        RuntimeOp::HostConsoleLog,
        RuntimeOp::MathSqrt,
    ];
    for (i, a) in ops.iter().enumerate() {
        for (j, b) in ops.iter().enumerate() {
            if i != j {
                assert_ne!(a, b, "ops[{i}]={a:?} should differ from ops[{j}]={b:?}");
            }
        }
    }
}

#[test]
fn local_decl_carries_id_name_ty_mutable() {
    let d = MirLocalDecl {
        id: LocalId::from_raw(1),
        name: SymbolId::from_raw(2),
        ty: TypeId::from_raw(3),
        mutable: true,
    };
    assert_eq!(d.id, LocalId::from_raw(1));
    assert_eq!(d.name, SymbolId::from_raw(2));
    assert_eq!(d.ty, TypeId::from_raw(3));
    assert!(d.mutable);
}

#[test]
fn param_roundtrip() {
    let p = MirParam {
        id: LocalId::from_raw(3),
        name: SymbolId::from_raw(7),
        ty: TypeId::from_raw(0),
    };
    assert_eq!(p.id, LocalId::from_raw(3));
    assert_eq!(p.name, SymbolId::from_raw(7));
}

#[test]
fn field_visibility_roundtrip() {
    let f = MirFieldDecl {
        id: FieldId::from_raw(0),
        name: SymbolId::from_raw(1),
        ty: TypeId::from_raw(0),
        mutable: false,
        visibility: Visibility::Private,
    };
    assert_eq!(f.visibility, Visibility::Private);
    assert!(!f.mutable);
}

#[test]
fn function_kind_variants_are_distinct() {
    let plain = FunctionKind::Plain;
    let method = FunctionKind::Method {
        owner: StructId::from_raw(0),
        self_param: LocalId::from_raw(1),
    };
    let ctor = FunctionKind::Constructor {
        owner: StructId::from_raw(0),
    };
    let closure = FunctionKind::Closure;
    let shim = FunctionKind::RuntimeShim;
    assert_ne!(plain, method);
    assert_ne!(method, ctor);
    assert_ne!(closure, plain);
    assert_ne!(shim, plain);
}

#[test]
fn function_effects_default_is_empty() {
    let e = FunctionEffects::default();
    assert!(!e.can_throw);
    assert!(!e.is_async);
}

#[test]
fn global_decl_carries_visibility_and_mutation() {
    let g = MirGlobalDecl {
        name: SymbolId::from_raw(1),
        ty: TypeId::from_raw(0),
        mutable: false,
        visibility: Visibility::Public,
        export_name: None,
    };
    assert!(!g.mutable);
    assert_eq!(g.visibility, Visibility::Public);
}

#[test]
fn import_carries_module_symbol_alias() {
    let import = MirImport {
        module: "./other".to_owned(),
        symbol: SymbolId::from_raw(1),
        alias: Some(SymbolId::from_raw(2)),
    };
    assert_eq!(import.module, "./other");
    assert_eq!(import.symbol, SymbolId::from_raw(1));
    assert_eq!(import.alias, Some(SymbolId::from_raw(2)));
}

#[test]
fn import_without_alias_is_none() {
    let import = MirImport {
        module: "./a".to_owned(),
        symbol: SymbolId::from_raw(3),
        alias: None,
    };
    assert!(import.alias.is_none());
}

#[test]
fn export_with_and_without_alias() {
    let plain = MirExport {
        symbol: SymbolId::from_raw(1),
        alias: None,
    };
    let renamed = MirExport {
        symbol: SymbolId::from_raw(2),
        alias: Some(SymbolId::from_raw(3)),
    };
    assert!(plain.alias.is_none());
    assert_eq!(renamed.alias, Some(SymbolId::from_raw(3)));
}

#[test]
fn _local_id_type_is_in_scope() {
    let _id = LocalId::from_raw(0);
}

#[test]
fn default_has_no_requirements() {
    let r = RuntimeRequirements::default();
    assert!(!r.needs_runtime);
    assert!(!r.needs_string);
    assert!(!r.needs_array);
    assert!(!r.needs_map);
    assert!(!r.needs_result);
    assert!(!r.needs_promise);
    assert!(!r.needs_scheduler);
    assert!(!r.needs_host_io);
    assert!(!r.needs_console);
    assert!(!r.needs_math);
}

#[test]
fn require_string_op_sets_string_and_runtime() {
    let mut r = RuntimeRequirements::default();
    r.require(RuntimeOp::StringConcat);
    assert!(r.needs_runtime);
    assert!(r.needs_string);
    assert!(!r.needs_array);
    assert!(!r.needs_math);
}

#[test]
fn require_array_op_sets_array_and_runtime() {
    let mut r = RuntimeRequirements::default();
    r.require(RuntimeOp::ArrayCreate);
    assert!(r.needs_runtime);
    assert!(r.needs_array);
    assert!(!r.needs_string);
}

#[test]
fn require_promise_op_sets_promise_and_scheduler() {
    let mut r = RuntimeRequirements::default();
    r.require(RuntimeOp::PromiseCreate);
    assert!(r.needs_runtime);
    assert!(r.needs_promise);
    assert!(r.needs_scheduler);
}

#[test]
fn require_host_console_log_sets_host_io_and_console() {
    let mut r = RuntimeRequirements::default();
    r.require(RuntimeOp::HostConsoleLog);
    assert!(r.needs_runtime);
    assert!(r.needs_host_io);
    assert!(r.needs_console);
    assert!(!r.needs_math);
}

#[test]
fn require_math_sqrt_sets_math_only() {
    let mut r = RuntimeRequirements::default();
    r.require(RuntimeOp::MathSqrt);
    assert!(r.needs_runtime);
    assert!(r.needs_math);
    assert!(!r.needs_string);
    assert!(!r.needs_console);
}

#[test]
fn multiple_requires_accumulate() {
    let mut r = RuntimeRequirements::default();
    r.require(RuntimeOp::StringConcat);
    r.require(RuntimeOp::ArrayGet);
    r.require(RuntimeOp::MathSqrt);
    assert!(r.needs_runtime);
    assert!(r.needs_string);
    assert!(r.needs_array);
    assert!(r.needs_math);
}

#[test]
fn dump_runtime_requirements_none() {
    let r = RuntimeRequirements::default();
    assert!(r.to_string().contains("none"));
}

#[test]
fn dump_runtime_requirements_with_ops() {
    let mut r = RuntimeRequirements::default();
    r.require(RuntimeOp::StringConcat);
    r.require(RuntimeOp::ArrayCreate);
    let text = r.to_string();
    assert!(text.contains("string"));
    assert!(text.contains("array"));
    assert!(text.contains("runtime"));
}
