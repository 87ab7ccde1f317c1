#![allow(unused_imports, unused_variables, unused_mut, dead_code, clippy::all)]

use ts2zig::ids::{FieldId, FunctionId, LocalId, ModuleId, StringId, StructId, SymbolId, TypeId};
use ts2zig::mir::body::{MirBlock, MirBody, MirExpr, MirPlace, MirPlaceBase, MirStmt};
use ts2zig::mir::decl::{
    FunctionEffects, FunctionKind, MirDecl, MirFunctionDecl, MirGlobalDecl, MirLocalDecl, MirStructDecl,
};
use ts2zig::mir::dump_body::FloatTexts;
use ts2zig::mir::floats::float_literals;
use ts2zig::mir::ops::{BinaryOp, RuntimeOp, UnaryOp};
use ts2zig::mir::program::{MirExport, MirImport, MirProgram};
use ts2zig::ty::Visibility;

fn make_import(module: &str, symbol: u32) -> MirImport {
    MirImport {
        module: module.to_owned(),
        symbol: SymbolId::from_raw(symbol),
        alias: None,
    }
}

fn make_export(symbol: u32) -> MirExport {
    MirExport {
        symbol: SymbolId::from_raw(symbol),
        alias: None,
    }
}

fn empty_func(id: u32) -> MirFunctionDecl {
    MirFunctionDecl {
        id: FunctionId::from_raw(id),
        name: SymbolId::from_raw(id + 1),
        export_name: None,
        params: Vec::new(),
        ret: TypeId::from_raw(0),
        throws: None,
        body: MirBody::default(),
        kind: FunctionKind::Plain,
        effects: FunctionEffects::default(),
    }
}

fn empty_struct(id: u32) -> MirStructDecl {
    MirStructDecl {
        id: StructId::from_raw(id),
        name: SymbolId::from_raw(id + 1),
        fields: Vec::new(),
        methods: Vec::new(),
    }
}

fn wrap_body(stmts: Vec<MirStmt>) -> MirBody {
    MirBody {
        locals: vec![],
        block: MirBlock { stmts },
    }
}

fn wrap_prog(body: MirBody) -> MirProgram {
    let mut f = empty_func(0);
    f.body = body;
    let mut prog = MirProgram::new(ModuleId::from_raw(0));
    prog.push_decl(MirDecl::Function(f));
    prog
}

#[test]
fn dump_empty_program() {
    let prog = MirProgram::new(ModuleId::from_raw(0));
    let text = prog.dump_text(&FloatTexts::new());
    assert!(text.contains("MirProgram(module=0)"));
    assert!(text.contains("imports: ["));
    assert!(text.contains("declarations: ["));
}

#[test]
fn dump_program_with_import_export() {
    let mut prog = MirProgram::new(ModuleId::from_raw(1));
    prog.push_import(make_import("./foo", 1));
    prog.push_export(make_export(2));
    let text = prog.dump_text(&FloatTexts::new());
    assert!(text.contains("import"));
    assert!(text.contains("export"));
    assert!(text.contains("./foo"));
}

#[test]
fn dump_program_with_function() {
    let mut prog = MirProgram::new(ModuleId::from_raw(0));
    prog.push_decl(MirDecl::Function(empty_func(0)));
    let text = prog.dump_text(&FloatTexts::new());
    assert!(text.contains("fn"));
    assert!(text.contains("#0"));
}

#[test]
fn dump_program_with_struct() {
    let mut prog = MirProgram::new(ModuleId::from_raw(0));
    prog.push_decl(MirDecl::Struct(empty_struct(0)));
    let text = prog.dump_text(&FloatTexts::new());
    assert!(text.contains("struct"));
}

#[test]
fn dump_let_stmt() {
    let body = MirBody {
        locals: vec![MirLocalDecl {
            id: LocalId::from_raw(0),
            name: SymbolId::from_raw(2),
            ty: TypeId::from_raw(1),
            mutable: false,
        }],
        block: MirBlock {
            stmts: vec![MirStmt::Let {
                local: LocalId::from_raw(0),
                ty: TypeId::from_raw(1),
                init: Some(MirExpr::Int {
                    value: 42,
                    ty: TypeId::from_raw(1),
                }),
                mutable: false,
            }],
        },
    };
    let text = wrap_prog(body).dump_text(&FloatTexts::new());
    assert!(text.contains("let"));
    assert!(text.contains("42"));
}

#[test]
fn dump_if_stmt() {
    let stmt = MirStmt::If {
        cond: MirExpr::Bool(true),
        then_block: MirBlock::with(MirStmt::Return(Some(MirExpr::Unit))),
        else_block: None,
    };
    let text = wrap_prog(wrap_body(vec![stmt])).dump_text(&FloatTexts::new());
    assert!(text.contains("if"));
    assert!(text.contains("true"));
    assert!(text.contains("return"));
}

#[test]
fn dump_while_stmt() {
    let stmt = MirStmt::While {
        cond: MirExpr::Bool(true),
        body: MirBlock::with(MirStmt::Break),
    };
    let text = wrap_prog(wrap_body(vec![stmt])).dump_text(&FloatTexts::new());
    assert!(text.contains("while"));
    assert!(text.contains("break"));
}

#[test]
fn dump_for_of_stmt() {
    let stmt = MirStmt::ForOf {
        item: LocalId::from_raw(0),
        iterable: MirExpr::Unit,
        body: MirBlock::with(MirStmt::Continue),
    };
    let text = wrap_prog(wrap_body(vec![stmt])).dump_text(&FloatTexts::new());
    assert!(text.contains("for"));
    assert!(text.contains("continue"));
}

#[test]
fn dump_runtime_stmt() {
    let stmt = MirStmt::Runtime {
        op: RuntimeOp::StringConcat,
        args: vec![MirExpr::Unit, MirExpr::Unit],
        dest: None,
        ty: TypeId::from_raw(0),
    };
    let text = wrap_prog(wrap_body(vec![stmt])).dump_text(&FloatTexts::new());
    assert!(text.contains("string_concat"));
    assert!(text.contains("runtime"));
}

#[test]
fn dump_return_result_err() {
    let stmt = MirStmt::ReturnResultErr {
        error: MirExpr::Unit,
        err_ty: TypeId::from_raw(1),
    };
    let text = wrap_prog(wrap_body(vec![stmt])).dump_text(&FloatTexts::new());
    assert!(text.contains("return_result_err"));
}

#[test]
fn dump_throw_stmt() {
    let stmt = MirStmt::Throw {
        error: MirExpr::Unit,
        error_ty: TypeId::from_raw(1),
    };
    let text = wrap_prog(wrap_body(vec![stmt])).dump_text(&FloatTexts::new());
    assert!(text.contains("throw"));
}

#[test]
fn dump_await_stmt() {
    let stmt = MirStmt::Await {
        promise: MirExpr::Unit,
        dest: LocalId::from_raw(0),
        next_state: 1,
        ty: TypeId::from_raw(0),
    };
    let text = wrap_prog(wrap_body(vec![stmt])).dump_text(&FloatTexts::new());
    assert!(text.contains("await"));
}

#[test]
fn dump_set_state() {
    let stmt = MirStmt::SetState { value: 0 };
    let text = wrap_prog(wrap_body(vec![stmt])).dump_text(&FloatTexts::new());
    assert!(text.contains("set_state"));
}

#[test]
fn dump_unary_neg() {
    let stmt = MirStmt::Return(Some(MirExpr::Unary {
        op: UnaryOp::Neg,
        expr: Box::new(MirExpr::Int {
            value: 5,
            ty: TypeId::from_raw(0),
        }),
        ty: TypeId::from_raw(7),
    }));
    let text = wrap_prog(wrap_body(vec![stmt])).dump_text(&FloatTexts::new());
    assert!(text.contains("return -(5(:0)):7"));
}

#[test]
fn dump_unary_not() {
    let stmt = MirStmt::Return(Some(MirExpr::Unary {
        op: UnaryOp::Not,
        expr: Box::new(MirExpr::Bool(false)),
        ty: TypeId::from_raw(3),
    }));
    let text = wrap_prog(wrap_body(vec![stmt])).dump_text(&FloatTexts::new());
    assert!(text.contains("return !(false):3"));
}

#[test]
fn dump_unary_bitnot() {
    let stmt = MirStmt::Return(Some(MirExpr::Unary {
        op: UnaryOp::BitNot,
        expr: Box::new(MirExpr::Int {
            value: 1,
            ty: TypeId::from_raw(0),
        }),
        ty: TypeId::from_raw(2),
    }));
    let text = wrap_prog(wrap_body(vec![stmt])).dump_text(&FloatTexts::new());
    assert!(text.contains("return ~(1(:0)):2"));
}

#[test]
fn dump_binary_add() {
    let stmt = MirStmt::Return(Some(MirExpr::Binary {
        op: BinaryOp::Add,
        left: Box::new(MirExpr::Int {
            value: 1,
            ty: TypeId::from_raw(0),
        }),
        right: Box::new(MirExpr::Int {
            value: 2,
            ty: TypeId::from_raw(0),
        }),
        ty: TypeId::from_raw(9),
    }));
    let text = wrap_prog(wrap_body(vec![stmt])).dump_text(&FloatTexts::new());
    assert!(text.contains("return (1(:0) + 2(:0)):9"));
}

#[test]
fn dump_expr_field() {
    let stmt = MirStmt::Return(Some(MirExpr::Field {
        base: Box::new(MirExpr::Local(LocalId::from_raw(0))),
        field: FieldId::from_raw(2),
        ty: TypeId::from_raw(7),
    }));
    let text = wrap_prog(wrap_body(vec![stmt])).dump_text(&FloatTexts::new());
    assert!(text.contains("return local(0).2:7"));
}

#[test]
fn dump_expr_index() {
    let stmt = MirStmt::Return(Some(MirExpr::Index {
        base: Box::new(MirExpr::Local(LocalId::from_raw(0))),
        index: Box::new(MirExpr::Int {
            value: 3,
            ty: TypeId::from_raw(0),
        }),
        ty: TypeId::from_raw(4),
    }));
    let text = wrap_prog(wrap_body(vec![stmt])).dump_text(&FloatTexts::new());
    assert!(text.contains("return local(0)[3(:0)]:4"));
}

#[test]
fn dump_expr_call() {
    let stmt = MirStmt::Return(Some(MirExpr::Call {
        callee: FunctionId::from_raw(5),
        args: vec![
            MirExpr::Int {
                value: 1,
                ty: TypeId::from_raw(0),
            },
            MirExpr::Bool(true),
        ],
        ty: TypeId::from_raw(8),
    }));
    let text = wrap_prog(wrap_body(vec![stmt])).dump_text(&FloatTexts::new());
    assert!(text.contains("return call fn(5)(1(:0), true):8"));
}

#[test]
fn dump_expr_struct_literal() {
    let stmt = MirStmt::Return(Some(MirExpr::StructLiteral {
        struct_id: StructId::from_raw(3),
        fields: vec![(
            FieldId::from_raw(0),
            MirExpr::Int {
                value: 7,
                ty: TypeId::from_raw(0),
            },
        )],
        ty: TypeId::from_raw(6),
    }));
    let text = wrap_prog(wrap_body(vec![stmt])).dump_text(&FloatTexts::new());
    assert!(text.contains("return struct(3){0:7(:0)}:6"));
}

#[test]
fn dump_expr_result_ok() {
    let stmt = MirStmt::Return(Some(MirExpr::ResultOk {
        value: Box::new(MirExpr::Int {
            value: 1,
            ty: TypeId::from_raw(0),
        }),
        ty: TypeId::from_raw(5),
    }));
    let text = wrap_prog(wrap_body(vec![stmt])).dump_text(&FloatTexts::new());
    assert!(text.contains("return ok(1(:0)):5"));
}

#[test]
fn dump_expr_result_err() {
    let stmt = MirStmt::Return(Some(MirExpr::ResultErr {
        error: Box::new(MirExpr::Unit),
        ty: TypeId::from_raw(5),
    }));
    let text = wrap_prog(wrap_body(vec![stmt])).dump_text(&FloatTexts::new());
    assert!(text.contains("return err(()):5"));
}

#[test]
fn dump_expr_string() {
    let stmt = MirStmt::Return(Some(MirExpr::String {
        id: StringId::from_raw(11),
        ty: TypeId::from_raw(2),
    }));
    let text = wrap_prog(wrap_body(vec![stmt])).dump_text(&FloatTexts::new());
    assert!(text.contains("return string(11)(:2)"));
}

#[test]
fn dump_expr_null() {
    let stmt = MirStmt::Return(Some(MirExpr::Null {
        ty: TypeId::from_raw(2),
    }));
    let text = wrap_prog(wrap_body(vec![stmt])).dump_text(&FloatTexts::new());
    assert!(text.contains("return null(:2)"));
}

#[test]
fn dump_expr_global() {
    let stmt = MirStmt::Return(Some(MirExpr::Global(SymbolId::from_raw(9))));
    let text = wrap_prog(wrap_body(vec![stmt])).dump_text(&FloatTexts::new());
    assert!(text.contains("return #9"));
}

#[test]
fn dump_expr_float() {
    let value: f64 = 1.5;
    let stmt = MirStmt::Return(Some(MirExpr::Float {
        value: value.to_bits(),
        ty: TypeId::from_raw(2),
    }));
    let mut floats = FloatTexts::new();
    floats.insert(value.to_bits(), format!("{value}"));
    let text = wrap_prog(wrap_body(vec![stmt])).dump_text(&floats);
    assert!(text.contains("1.5(:2)"));
}

#[test]
fn dump_expr_int() {
    let stmt = MirStmt::Return(Some(MirExpr::Int {
        value: 42,
        ty: TypeId::from_raw(2),
    }));
    let text = wrap_prog(wrap_body(vec![stmt])).dump_text(&FloatTexts::new());
    assert!(text.contains("42(:2)"));
}

#[test]
fn dump_expr_bool() {
    let stmt = MirStmt::Return(Some(MirExpr::Bool(false)));
    let text = wrap_prog(wrap_body(vec![stmt])).dump_text(&FloatTexts::new());
    assert!(text.contains("return false"));
}

#[test]
fn dump_expr_unit() {
    let stmt = MirStmt::Return(Some(MirExpr::Unit));
    let text = wrap_prog(wrap_body(vec![stmt])).dump_text(&FloatTexts::new());
    assert!(text.contains("return ()"));
}

#[test]
fn dump_expr_local() {
    let stmt = MirStmt::Return(Some(MirExpr::Local(LocalId::from_raw(3))));
    let text = wrap_prog(wrap_body(vec![stmt])).dump_text(&FloatTexts::new());
    assert!(text.contains("return local(3)"));
}

#[test]
fn dump_stmt_assign_to_local() {
    let stmt = MirStmt::Assign {
        target: MirPlace::Local {
            id: LocalId::from_raw(0),
        },
        value: MirExpr::Int {
            value: 9,
            ty: TypeId::from_raw(0),
        },
    };
    let text = wrap_prog(wrap_body(vec![stmt])).dump_text(&FloatTexts::new());
    assert!(text.contains("assign local(0) = 9(:0)"));
}

#[test]
fn dump_stmt_assign_to_field() {
    let stmt = MirStmt::Assign {
        target: MirPlace::Field {
            base: Box::new(MirPlaceBase::Local(LocalId::from_raw(0))),
            field: FieldId::from_raw(1),
            ty: TypeId::from_raw(7),
        },
        value: MirExpr::Int {
            value: 9,
            ty: TypeId::from_raw(0),
        },
    };
    let text = wrap_prog(wrap_body(vec![stmt])).dump_text(&FloatTexts::new());
    assert!(text.contains("assign field(local(0).1:7) = 9(:0)"));
}

#[test]
fn dump_stmt_assign_to_index() {
    let stmt = MirStmt::Assign {
        target: MirPlace::Index {
            base: Box::new(MirExpr::Local(LocalId::from_raw(0))),
            index: Box::new(MirExpr::Int {
                value: 1,
                ty: TypeId::from_raw(0),
            }),
            ty: TypeId::from_raw(7),
        },
        value: MirExpr::Int {
            value: 4,
            ty: TypeId::from_raw(0),
        },
    };
    let text = wrap_prog(wrap_body(vec![stmt])).dump_text(&FloatTexts::new());
    assert!(text.contains("assign index(local(0)[1(:0)]:7) = 4(:0)"));
}

#[test]
fn dump_stmt_return_unit() {
    let text = wrap_prog(wrap_body(vec![MirStmt::Return(None)])).dump_text(&FloatTexts::new());
    assert!(text.contains("return\n"));
}

#[test]
fn dump_stmt_expr_stmt() {
    let stmt = MirStmt::Expr(MirExpr::Int {
        value: 11,
        ty: TypeId::from_raw(0),
    });
    let text = wrap_prog(wrap_body(vec![stmt])).dump_text(&FloatTexts::new());
    assert!(text.contains("expr 11(:0)"));
}

#[test]
fn dump_program_with_global() {
    let mut prog = MirProgram::new(ModuleId::from_raw(0));
    prog.push_decl(MirDecl::Global(MirGlobalDecl {
        name: SymbolId::from_raw(5),
        ty: TypeId::from_raw(0),
        mutable: true,
        visibility: Visibility::Public,
        export_name: None,
    }));
    let text = prog.dump_text(&FloatTexts::new());
    assert!(text.contains("global"));
    assert!(text.contains("#5"));
    assert!(text.contains("mut: true"));
}


fn sample_program() -> MirProgram {
    let mut prog = MirProgram::new(ModuleId::from_raw(3));
    prog.push_import(MirImport {
        module: "./m".to_owned(),
        symbol: SymbolId::from_raw(1),
        alias: Some(SymbolId::from_raw(2)),
    });
    prog.push_export(make_export(4));
    let mut f = empty_func(0);
    f.params = vec![ts2zig::mir::decl::MirParam {
        id: LocalId::from_raw(0),
        name: SymbolId::from_raw(5),
        ty: TypeId::from_raw(2),
    }];
    f.ret = TypeId::from_raw(2);
    f.throws = Some(TypeId::from_raw(7));
    f.effects = FunctionEffects { can_throw: true, is_async: false };
    f.body = MirBody {
        locals: vec![MirLocalDecl {
            id: LocalId::from_raw(0),
            name: SymbolId::from_raw(5),
            ty: TypeId::from_raw(2),
            mutable: true,
        }],
        block: MirBlock {
            stmts: vec![MirStmt::If {
                cond: MirExpr::Bool(true),
                then_block: MirBlock::with(MirStmt::Return(Some(MirExpr::Local(LocalId::from_raw(0))))),
                else_block: Some(MirBlock::with(MirStmt::Break)),
            }],
        },
    };
    prog.push_decl(MirDecl::Function(f));
    prog
}

#[test]
fn dump_whole_program_text() {
    let text = sample_program().dump_text(&FloatTexts::new());
    let expected = "MirProgram(module=3) {\n  imports: [\n  import #1 from \"./m\" as #2\n  ]\n  exports: [\n  export #4\n  ]\n  declarations: [\nfn #0 #1(#5: 2) -> 2 throws 7 Plain [FunctionEffects { can_throw: true, is_async: false }]\n      locals: [\n        #5: var 2 = 0\n      ]\n      block: {\nif (true) {\nreturn local(0)\n        }\n        else {\n          break\n        }\n      }\n  ]\n}\n";
    assert_eq!(text, expected);
}

#[test]
fn dump_empty_program_text() {
    let text = MirProgram::new(ModuleId::from_raw(0)).dump_text(&FloatTexts::new());
    assert_eq!(
        text,
        "MirProgram(module=0) {\n  imports: [\n    \n  ]\n  exports: [\n    \n  ]\n  declarations: [\n  ]\n}\n"
    );
}

#[test]
fn dump_with_symbols_writes_names() {
    let mut symbols = ts2zig::tables::SymbolTable::new();
    let a = symbols.intern("main");
    let b = symbols.intern("x");
    let mut prog = MirProgram::new(ModuleId::from_raw(0));
    let mut f = empty_func(0);
    f.name = a;
    f.body = wrap_body(vec![MirStmt::Return(Some(MirExpr::Global(b)))]);
    prog.push_decl(MirDecl::Function(f));
    let text = prog.dump_with_symbols(&symbols, &FloatTexts::new());
    assert!(text.contains("fn #0 #0(main)() -> 0 Plain\n"));
    assert!(text.contains("return #1(x)\n"));
    let plain = prog.dump_text(&FloatTexts::new());
    assert!(plain.contains("return #1\n"));
}

#[test]
fn dump_struct_with_fields_and_method() {
    let mut s = empty_struct(0);
    s.fields = vec![ts2zig::mir::decl::MirFieldDecl {
        id: FieldId::from_raw(0),
        name: SymbolId::from_raw(2),
        ty: TypeId::from_raw(3),
        mutable: true,
        visibility: Visibility::Public,
    }];
    let mut m = empty_func(4);
    m.kind = FunctionKind::Method { owner: StructId::from_raw(0), self_param: LocalId::from_raw(1) };
    s.methods = vec![m];
    let mut prog = MirProgram::new(ModuleId::from_raw(0));
    prog.push_decl(MirDecl::Struct(s));
    let text = prog.dump_text(&FloatTexts::new());
    let expected = "struct #1 {\n      var #2: 3,\nfn #4 #5() -> 0 Method { owner: StructId(0), self_param: LocalId(1) }\n        locals: [\n          \n        ]\n        block: {\n          \n        }\n    }\n";
    assert!(text.contains(expected), "{text}");
}

#[test]
fn dump_empty_struct_and_global_lines() {
    let mut prog = MirProgram::new(ModuleId::from_raw(0));
    prog.push_decl(MirDecl::Struct(empty_struct(0)));
    prog.push_decl(MirDecl::Global(MirGlobalDecl {
        name: SymbolId::from_raw(5),
        ty: TypeId::from_raw(1),
        mutable: false,
        visibility: Visibility::Private,
        export_name: None,
    }));
    let text = prog.dump_text(&FloatTexts::new());
    assert!(text.contains("  declarations: [\nstruct #1 {    }\n    global #5: 1 (mut: false)\n  ]\n"), "{text}");
}

#[test]
fn dump_float_uses_first_text_for_its_bits() {
    let stmt = MirStmt::Expr(MirExpr::Float { value: 7, ty: TypeId::from_raw(1) });
    let mut floats = FloatTexts::new();
    floats.insert(3, "3.0".to_owned());
    floats.insert(7, "first".to_owned());
    floats.insert(7, "second".to_owned());
    let text = wrap_prog(wrap_body(vec![stmt])).dump_text(&floats);
    assert!(text.contains("expr first(:1)\n"));
    let missing = wrap_prog(wrap_body(vec![MirStmt::Expr(MirExpr::Float { value: 9, ty: TypeId::from_raw(1) })]))
        .dump_text(&floats);
    assert!(missing.contains("expr (:1)\n"));
}

#[test]
fn dump_runtime_await_and_state_lines() {
    let stmts = vec![
        MirStmt::Runtime {
            op: RuntimeOp::ArrayCreate,
            args: vec![MirExpr::Unit, MirExpr::Bool(true)],
            dest: Some(LocalId::from_raw(4)),
            ty: TypeId::from_raw(2),
        },
        MirStmt::Await {
            promise: MirExpr::Local(LocalId::from_raw(1)),
            dest: LocalId::from_raw(2),
            next_state: -3,
            ty: TypeId::from_raw(5),
        },
        MirStmt::SetState { value: -1 },
    ];
    let text = wrap_prog(wrap_body(stmts)).dump_text(&FloatTexts::new());
    assert!(text.contains(
        "      block: {\nruntime array_create((), true) -> 2 dest=local(4)\nawait (local(1)) -> local(2) state(-3) ty(5)\n        set_state(-1)\n      }\n"
    ), "{text}");
}

#[test]
fn float_literals_come_in_dump_order() {
    let mut prog = MirProgram::new(ModuleId::from_raw(0));
    let stmts = vec![
        MirStmt::Let {
            local: LocalId::from_raw(0),
            ty: TypeId::from_raw(1),
            init: Some(MirExpr::Binary {
                op: BinaryOp::Add,
                left: Box::new(MirExpr::Float { value: 10, ty: TypeId::from_raw(1) }),
                right: Box::new(MirExpr::Float { value: 20, ty: TypeId::from_raw(1) }),
                ty: TypeId::from_raw(1),
            }),
            mutable: false,
        },
        MirStmt::While {
            cond: MirExpr::Bool(true),
            body: MirBlock::with(MirStmt::Expr(MirExpr::Call {
                callee: FunctionId::from_raw(0),
                args: vec![MirExpr::Float { value: 30, ty: TypeId::from_raw(1) }],
                ty: TypeId::from_raw(1),
            })),
        },
    ];
    prog.push_decl(MirDecl::Function({
        let mut f = empty_func(0);
        f.body = wrap_body(stmts);
        f
    }));
    let mut s = empty_struct(1);
    let mut m = empty_func(1);
    m.body = wrap_body(vec![MirStmt::Return(Some(MirExpr::Float { value: 40, ty: TypeId::from_raw(1) }))]);
    s.methods = vec![m];
    prog.push_decl(MirDecl::Struct(s));
    assert_eq!(float_literals(&prog), vec![10, 20, 30, 40]);
    assert!(float_literals(&MirProgram::new(ModuleId::from_raw(0))).is_empty());
}
