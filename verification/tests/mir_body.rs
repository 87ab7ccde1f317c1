#![allow(unused_imports, unused_variables, unused_mut, dead_code, clippy::all)]

use ts2zig::ids::{FieldId, FunctionId, LocalId, ModuleId, StringId, StructId, SymbolId, TypeId};
use ts2zig::mir::body::{MirBlock, MirBody, MirExpr, MirPlace, MirPlaceBase, MirStmt};
use ts2zig::mir::decl::{
    FunctionEffects, FunctionKind, MirDecl, MirFieldDecl, MirFunctionDecl, MirGlobalDecl, MirLocalDecl,
    MirParam, MirStructDecl,
};
use ts2zig::mir::ops::{BinaryOp, RuntimeOp, UnaryOp};
use ts2zig::mir::program::{MirExport, MirImport, MirProgram};
use ts2zig::ty::Visibility;

fn empty_function(id: u32) -> MirFunctionDecl {
    MirFunctionDecl {
        id: FunctionId::from_raw(id),
        name: SymbolId::from_raw(id + 1),
        export_name: None,
        params: Vec::new(),
        ret: TypeId::from_raw(0),
        throws: None,
        body: MirBody::default(),
        kind: FunctionKind::Plain,
        effects: FunctionEffects::default(),
    }
}

fn empty_struct(id: u32) -> MirStructDecl {
    MirStructDecl {
        id: StructId::from_raw(id),
        name: SymbolId::from_raw(id + 1),
        fields: Vec::new(),
        methods: Vec::new(),
    }
}

#[test]
fn block_starts_empty() {
    let b = MirBlock::new();
    assert!(b.is_empty());
    assert_eq!(b.len(), 0);
    assert!(b.stmts.is_empty());
}

#[test]
fn block_push_appends_in_order() {
    let mut b = MirBlock::new();
    b.push(MirStmt::Break);
    b.push(MirStmt::Continue);
    assert_eq!(b.len(), 2);
    assert!(matches!(b.stmts[0], MirStmt::Break));
    assert!(matches!(b.stmts[1], MirStmt::Continue));
}

#[test]
fn block_with_single_stmt() {
    let b = MirBlock::with(MirStmt::Return(None));
    assert_eq!(b.len(), 1);
    assert!(matches!(b.stmts[0], MirStmt::Return(None)));
}

#[test]
fn body_default_is_empty() {
    let body = MirBody::default();
    assert!(body.locals.is_empty());
    assert!(body.block.is_empty());
}

#[test]
fn stmt_break_and_continue_are_unit_variants() {
    assert!(matches!(MirStmt::Break, MirStmt::Break));
    assert!(matches!(MirStmt::Continue, MirStmt::Continue));
}

#[test]
fn stmt_let_carries_local_ty_init_mutable() {
    let s = MirStmt::Let {
        local: LocalId::from_raw(1),
        ty: TypeId::from_raw(2),
        init: Some(MirExpr::Unit),
        mutable: true,
    };
    match s {
        MirStmt::Let {
            local,
            ty,
            init,
            mutable,
        } => {
            assert_eq!(local, LocalId::from_raw(1));
            assert_eq!(ty, TypeId::from_raw(2));
            assert!(init.is_some());
            assert!(mutable);
        }
        _ => panic!("expected Let"),
    }
}

#[test]
fn stmt_assign_carries_place_and_value() {
    let s = MirStmt::Assign {
        target: MirPlace::Local {
            id: LocalId::from_raw(0),
        },
        value: MirExpr::Bool(true),
    };
    match s {
        MirStmt::Assign { target, value } => {
            assert!(matches!(target, MirPlace::Local { .. }));
            assert!(matches!(value, MirExpr::Bool(true)));
        }
        _ => panic!("expected Assign"),
    }
}

#[test]
fn stmt_if_carries_cond_and_blocks() {
    let s = MirStmt::If {
        cond: MirExpr::Bool(true),
        then_block: MirBlock::with(MirStmt::Return(None)),
        else_block: None,
    };
    match s {
        MirStmt::If {
            cond,
            then_block,
            else_block,
        } => {
            assert!(matches!(cond, MirExpr::Bool(true)));
            assert_eq!(then_block.len(), 1);
            assert!(else_block.is_none());
        }
        _ => panic!("expected If"),
    }
}

#[test]
fn stmt_for_of_carries_item_iterable_body() {
    let s = MirStmt::ForOf {
        item: LocalId::from_raw(0),
        iterable: MirExpr::Unit,
        body: MirBlock::new(),
    };
    match s {
        MirStmt::ForOf { item, body, .. } => {
            assert_eq!(item, LocalId::from_raw(0));
            assert!(body.is_empty());
        }
        _ => panic!("expected ForOf"),
    }
}

#[test]
fn stmt_runtime_carries_op_args_ty() {
    let s = MirStmt::Runtime {
        op: RuntimeOp::StringConcat,
        args: vec![MirExpr::Unit, MirExpr::Unit],
        dest: None,
        ty: TypeId::from_raw(0),
    };
    match s {
        MirStmt::Runtime { op, args, ty, .. } => {
            assert_eq!(op, RuntimeOp::StringConcat);
            assert_eq!(args.len(), 2);
            assert_eq!(ty, TypeId::from_raw(0));
        }
        _ => panic!("expected Runtime"),
    }
}

#[test]
fn stmt_await_carries_promise_dest_state_ty() {
    let s = MirStmt::Await {
        promise: MirExpr::Unit,
        dest: LocalId::from_raw(3),
        next_state: 7,
        ty: TypeId::from_raw(0),
    };
    match s {
        MirStmt::Await {
            promise,
            dest,
            next_state,
            ty,
        } => {
            assert!(matches!(promise, MirExpr::Unit));
            assert_eq!(dest, LocalId::from_raw(3));
            assert_eq!(next_state, 7);
            assert_eq!(ty, TypeId::from_raw(0));
        }
        _ => panic!("expected Await"),
    }
}

#[test]
fn stmt_set_state_carries_int_value() {
    assert!(matches!(
        MirStmt::SetState { value: 0 },
        MirStmt::SetState { value: 0 }
    ));
    assert!(matches!(
        MirStmt::SetState { value: -1 },
        MirStmt::SetState { value: -1 }
    ));
}

#[test]
fn place_local_carries_id() {
    let p = MirPlace::Local {
        id: LocalId::from_raw(5),
    };
    match p {
        MirPlace::Local { id } => assert_eq!(id, LocalId::from_raw(5)),
        _ => panic!("expected Local"),
    }
}

#[test]
fn place_field_carries_base_field_ty() {
    let p = MirPlace::Field {
        base: Box::new(MirPlaceBase::Local(LocalId::from_raw(0))),
        field: FieldId::from_raw(1),
        ty: TypeId::from_raw(2),
    };
    match p {
        MirPlace::Field { base, field, ty } => {
            assert!(matches!(*base, MirPlaceBase::Local(_)));
            assert_eq!(field, FieldId::from_raw(1));
            assert_eq!(ty, TypeId::from_raw(2));
        }
        _ => panic!("expected Field"),
    }
}

#[test]
fn place_index_carries_base_index_ty() {
    let p = MirPlace::Index {
        base: Box::new(MirExpr::Local(LocalId::from_raw(0))),
        index: Box::new(MirExpr::Int {
            value: 0,
            ty: TypeId::from_raw(0),
        }),
        ty: TypeId::from_raw(0),
    };
    match p {
        MirPlace::Index { ty, .. } => assert_eq!(ty, TypeId::from_raw(0)),
        _ => panic!("expected Index"),
    }
}

#[test]
fn expr_unit_is_unit_variant() {
    assert!(matches!(MirExpr::Unit, MirExpr::Unit));
}

#[test]
fn expr_bool_carries_value() {
    assert!(matches!(MirExpr::Bool(true), MirExpr::Bool(true)));
    assert!(matches!(MirExpr::Bool(false), MirExpr::Bool(false)));
}

#[test]
fn expr_int_carries_value_and_ty() {
    let e = MirExpr::Int {
        value: 42,
        ty: TypeId::from_raw(1),
    };
    match e {
        MirExpr::Int { value, ty } => {
            assert_eq!(value, 42);
            assert_eq!(ty, TypeId::from_raw(1));
        }
        _ => panic!("expected Int"),
    }
}

#[test]
fn expr_call_carries_callee_args_ty() {
    let e = MirExpr::Call {
        callee: FunctionId::from_raw(0),
        args: vec![MirExpr::Unit],
        ty: TypeId::from_raw(0),
    };
    match e {
        MirExpr::Call { callee, args, ty } => {
            assert_eq!(callee, FunctionId::from_raw(0));
            assert_eq!(args.len(), 1);
            assert_eq!(ty, TypeId::from_raw(0));
        }
        _ => panic!("expected Call"),
    }
}

#[test]
fn expr_struct_literal_carries_struct_id_fields_ty() {
    let e = MirExpr::StructLiteral {
        struct_id: StructId::from_raw(0),
        fields: vec![(FieldId::from_raw(0), MirExpr::Bool(true))],
        ty: TypeId::from_raw(0),
    };
    match e {
        MirExpr::StructLiteral {
            struct_id,
            fields,
            ty,
        } => {
            assert_eq!(struct_id, StructId::from_raw(0));
            assert_eq!(fields.len(), 1);
            assert_eq!(ty, TypeId::from_raw(0));
        }
        _ => panic!("expected StructLiteral"),
    }
}

#[test]
fn expr_binary_carries_op_left_right_ty() {
    let e = MirExpr::Binary {
        op: BinaryOp::Add,
        left: Box::new(MirExpr::Int {
            value: 1,
            ty: TypeId::from_raw(0),
        }),
        right: Box::new(MirExpr::Int {
            value: 2,
            ty: TypeId::from_raw(0),
        }),
        ty: TypeId::from_raw(0),
    };
    match e {
        MirExpr::Binary { op, ty, .. } => {
            assert_eq!(op, BinaryOp::Add);
            assert_eq!(ty, TypeId::from_raw(0));
        }
        _ => panic!("expected Binary"),
    }
}

#[test]
fn expr_unary_carries_op_expr_ty() {
    let e = MirExpr::Unary {
        op: UnaryOp::Neg,
        expr: Box::new(MirExpr::Int {
            value: 1,
            ty: TypeId::from_raw(0),
        }),
        ty: TypeId::from_raw(0),
    };
    match e {
        MirExpr::Unary { op, ty, .. } => {
            assert_eq!(op, UnaryOp::Neg);
            assert_eq!(ty, TypeId::from_raw(0));
        }
        _ => panic!("expected Unary"),
    }
}

#[test]
fn function_decl_carries_metadata() {
    let f = MirFunctionDecl {
        id: FunctionId::from_raw(0),
        name: SymbolId::from_raw(1),
        export_name: Some("render".to_owned()),
        params: vec![MirParam {
            id: LocalId::from_raw(0),
            name: SymbolId::from_raw(10),
            ty: TypeId::from_raw(0),
        }],
        ret: TypeId::from_raw(0),
        throws: None,
        body: MirBody::default(),
        kind: FunctionKind::Plain,
        effects: FunctionEffects {
            can_throw: true,
            is_async: false,
        },
    };
    assert_eq!(f.export_name.as_deref(), Some("render"));
    assert_eq!(f.params.len(), 1);
    assert!(f.effects.can_throw);
    assert!(f.body.block.is_empty());
    assert!(f.body.locals.is_empty());
}

#[test]
fn function_decl_body_carries_locals_and_block() {
    let f = MirFunctionDecl {
        id: FunctionId::from_raw(0),
        name: SymbolId::from_raw(1),
        export_name: None,
        params: Vec::new(),
        ret: TypeId::from_raw(0),
        throws: None,
        body: MirBody {
            locals: vec![MirLocalDecl {
                id: LocalId::from_raw(0),
                name: SymbolId::from_raw(1),
                ty: TypeId::from_raw(2),
                mutable: false,
            }],
            block: MirBlock::with(MirStmt::Return(None)),
        },
        kind: FunctionKind::Plain,
        effects: FunctionEffects::default(),
    };
    assert_eq!(f.body.locals.len(), 1);
    assert_eq!(f.body.block.len(), 1);
}

#[test]
fn struct_decl_carries_fields_and_methods() {
    let s = MirStructDecl {
        id: StructId::from_raw(0),
        name: SymbolId::from_raw(1),
        fields: vec![MirFieldDecl {
            id: FieldId::from_raw(0),
            name: SymbolId::from_raw(10),
            ty: TypeId::from_raw(0),
            mutable: true,
            visibility: Visibility::Public,
        }],
        methods: Vec::new(),
    };
    assert_eq!(s.fields.len(), 1);
    assert!(s.methods.is_empty());
    assert_eq!(s.fields[0].visibility, Visibility::Public);
}

#[test]
fn decl_from_impls_work_for_all_variants() {
    let f = MirFunctionDecl {
        id: FunctionId::from_raw(0),
        name: SymbolId::from_raw(1),
        export_name: None,
        params: Vec::new(),
        ret: TypeId::from_raw(0),
        throws: None,
        body: MirBody::default(),
        kind: FunctionKind::Plain,
        effects: FunctionEffects::default(),
    };
    let s = MirStructDecl {
        id: StructId::from_raw(0),
        name: SymbolId::from_raw(1),
        fields: Vec::new(),
        methods: Vec::new(),
    };
    let g = MirGlobalDecl {
        name: SymbolId::from_raw(1),
        ty: TypeId::from_raw(0),
        mutable: false,
        visibility: Visibility::Private,
        export_name: None,
    };
    let _: MirDecl = f.into();
    let _: MirDecl = s.into();
    let _: MirDecl = g.into();
}

#[test]
fn program_empty_program_has_no_decls() {
    let prog = MirProgram::new(ModuleId::from_raw(0));
    assert_eq!(prog.decl_count(), 0);
    assert!(prog.functions().into_iter().next().is_none());
    assert!(prog.structs().into_iter().next().is_none());
    assert!(prog.globals().into_iter().next().is_none());
}

#[test]
fn program_push_decl_increments_count() {
    let mut prog = MirProgram::new(ModuleId::from_raw(7));
    prog.push_decl(MirDecl::Function(empty_function(0)));
    prog.push_decl(MirDecl::Struct(empty_struct(1)));
    assert_eq!(prog.decl_count(), 2);
    assert_eq!(prog.functions().into_iter().count(), 1);
    assert_eq!(prog.structs().into_iter().count(), 1);
}

#[test]
fn module_id_is_preserved() {
    let prog = MirProgram::new(ModuleId::from_raw(99));
    assert_eq!(prog.module, ModuleId::from_raw(99));
}

#[test]
fn program_iterators_filter_by_decl_kind() {
    let mut prog = MirProgram::new(ModuleId::from_raw(0));
    prog.push_decl(MirDecl::Function(empty_function(0)));
    prog.push_decl(MirDecl::Struct(MirStructDecl {
        id: StructId::from_raw(2),
        name: SymbolId::from_raw(3),
        fields: vec![MirFieldDecl {
            id: FieldId::from_raw(0),
            name: SymbolId::from_raw(10),
            ty: TypeId::from_raw(0),
            mutable: false,
            visibility: Visibility::Public,
        }],
        methods: Vec::new(),
    }));
    prog.push_decl(MirDecl::Function(empty_function(4)));
    assert_eq!(prog.functions().into_iter().count(), 2);
    assert_eq!(prog.structs().into_iter().count(), 1);
    assert_eq!(prog.globals().into_iter().count(), 0);
}

#[test]
fn function_local_id_roundtrip() {
    let f = MirFunctionDecl {
        id: FunctionId::from_raw(42),
        name: SymbolId::from_raw(7),
        export_name: Some("render".to_owned()),
        params: vec![],
        ret: TypeId::from_raw(0),
        throws: None,
        body: MirBody::default(),
        kind: FunctionKind::Plain,
        effects: FunctionEffects::default(),
    };
    assert_eq!(f.id, FunctionId::from_raw(42));
    assert_eq!(f.export_name.as_deref(), Some("render"));
    assert!(matches!(f.kind, FunctionKind::Plain));
}
