#![allow(unused_imports, unused_variables, unused_mut, dead_code, clippy::all)]

use ts2zig::hir::{HirAsyncInfo, HirCallee, HirDecl, HirEnumVariant, HirExpr, HirFunction, HirProgram, HirStmt};
use ts2zig::ids::{FieldId, ModuleId, SymbolId, TypeId};
use ts2zig::mir::body::{MirExpr, MirStmt};
use ts2zig::passes::context::PassContext;
use ts2zig::passes::hir_to_mir::convert_program::convert_program;
use ts2zig::passes::lower_async::lower_async;
use ts2zig::passes::lower_enums::lower_enums;
use ts2zig::passes::lower_result::lower_result;
use ts2zig::tables::{StringTable, SymbolTable};
use ts2zig::ty::{Type, TypeTable};

fn fixture() -> (StringTable, SymbolTable, TypeTable, PassContext) {
    let strings = StringTable::new();
    let symbols = SymbolTable::new();
    let types = TypeTable::new();
    let ctx = PassContext::new();
    (strings, symbols, types, ctx)
}

fn unit_ty(types: &mut TypeTable) -> TypeId {
    types.intern(&Type::Void)
}

#[test]
fn convert_function_with_throw_sets_throws() {
    let (strings, mut symbols, mut types, mut ctx) = fixture();
    let name = symbols.intern("oops");

    let mut hir = HirProgram::new(ModuleId::from_raw(0));
    hir.declarations.push(HirDecl::Function(HirFunction {
        name,
        params: Vec::new(),
        ret: unit_ty(&mut types),
        throws: None,
        body: vec![HirStmt::Throw {
            expr: HirExpr::Int(7),
        }],
        is_async: false,
        is_generator: false,
        is_exported: false,
        type_params: Vec::new(),
        async_info: None,
    }));

    let mir = convert_program(&hir, &strings, &mut symbols, &mut ctx);
    let fns: Vec<_> = mir.functions().into_iter().collect();
    assert_eq!(fns.len(), 1);
    let f = fns[0];
    assert!(
        f.throws.is_some(),
        "convert_function must populate throws when body has Throw"
    );
    assert!(f.effects.can_throw);
}

#[test]
fn convert_function_without_throw_leaves_throws_none() {
    let (strings, mut symbols, mut types, mut ctx) = fixture();
    let name = symbols.intern("ok");

    let mut hir = HirProgram::new(ModuleId::from_raw(0));
    hir.declarations.push(HirDecl::Function(HirFunction {
        name,
        params: Vec::new(),
        ret: unit_ty(&mut types),
        throws: None,
        body: vec![HirStmt::Expr {
            expr: HirExpr::Int(1),
        }],
        is_async: false,
        is_generator: false,
        is_exported: false,
        type_params: Vec::new(),
        async_info: None,
    }));

    let mir = convert_program(&hir, &strings, &mut symbols, &mut ctx);
    let f = mir.functions().into_iter().next().expect("one function");
    assert!(f.throws.is_none());
    assert!(!f.effects.can_throw);
}

#[test]
fn end_to_end_lower_result_rewrites_throw_to_return_result_err() {
    let (strings, mut symbols, mut types, mut ctx) = fixture();
    let name = symbols.intern("oops");

    let mut hir = HirProgram::new(ModuleId::from_raw(0));
    hir.declarations.push(HirDecl::Function(HirFunction {
        name,
        params: Vec::new(),
        ret: unit_ty(&mut types),
        throws: None,
        body: vec![HirStmt::Throw {
            expr: HirExpr::Int(7),
        }],
        is_async: false,
        is_generator: false,
        is_exported: false,
        type_params: Vec::new(),
        async_info: None,
    }));

    let mut mir = convert_program(&hir, &strings, &mut symbols, &mut ctx);
    lower_result(&mut mir);

    let f = mir.functions().into_iter().next().expect("one function");
    assert!(f.throws.is_some());
    assert_eq!(f.body.block.stmts.len(), 1);
    assert!(
        matches!(f.body.block.stmts[0], MirStmt::ReturnResultErr { .. }),
        "Throw must be rewritten to ReturnResultErr by lower_result, got {:?}",
        f.body.block.stmts[0]
    );
}

fn build_enum_decl_returning_sym(
    name: &str,
    variants: Vec<(&str, Option<i64>)>,
    strings: &mut StringTable,
    symbols: &mut SymbolTable,
) -> (HirDecl, SymbolId) {
    let enum_name = symbols.intern(name);
    let variants = variants
        .into_iter()
        .map(|(n, v)| HirEnumVariant {
            name: strings.intern(n),
            value: v.map(HirExpr::Int),
        })
        .collect();
    (
        HirDecl::Enum {
            name: enum_name,
            variants,
        },
        enum_name,
    )
}

#[test]
fn enum_member_use_in_function_body_is_rewritten_to_namespaced_global() {
    let (mut strings, mut symbols, mut types, mut ctx) = fixture();
    let mut hir = HirProgram::new(ModuleId::from_raw(0));

    let (enum_decl, color_sym) = build_enum_decl_returning_sym(
        "Color",
        vec![("Red", None), ("Green", Some(10))],
        &mut strings,
        &mut symbols,
    );
    hir.declarations.push(enum_decl);

    let typed_id = types.intern(&Type::I64);
    let green_name = symbols.intern("Green");
    let fn_name = symbols.intern("pick");

    hir.declarations.push(HirDecl::Function(HirFunction {
        name: fn_name,
        params: Vec::new(),
        ret: typed_id,
        throws: None,
        body: vec![HirStmt::Return {
            value: Some(HirExpr::Field {
                owner: Box::new(HirExpr::Global {
                    name: color_sym,
                    ty: typed_id,
                }),
                field: FieldId::from_raw(0),
                field_name: green_name,
                ty: typed_id,
            }),
        }],
        is_async: false,
        is_generator: false,
        is_exported: false,
        type_params: Vec::new(),
        async_info: None,
    }));

    lower_enums(&mut hir, &strings, &mut symbols, &mut types, &mut ctx);
    let mir = convert_program(&hir, &strings, &mut symbols, &mut ctx);

    let fns: Vec<_> = mir.functions().into_iter().collect();
    assert_eq!(fns.len(), 1);
    let f = fns[0];
    assert_eq!(f.name, fn_name);

    let MirStmt::Return(Some(ret_expr)) = &f.body.block.stmts[0] else {
        panic!(
            "expected Return(Some(expr)), got {:?}",
            f.body.block.stmts[0]
        );
    };
    let MirExpr::Global(resolved) = ret_expr else {
        panic!(
            "Color.Green use must be rewritten to MirExpr::Global, got {:?}",
            ret_expr
        );
    };
    let expected = symbols.intern("Color.Green");
    assert_eq!(
        *resolved, expected,
        "Field(Global(Color), Green) must rewrite to Global(Color.Green)"
    );

    let text = mir.dump_with_symbols(&symbols, &ts2zig::mir::dump_body::FloatTexts::new());
    assert!(
        text.contains("Color.Green"),
        "dump must show the namespaced global:\n{text}"
    );
}

fn await_promise_resolve_call(
    arg: HirExpr,
    arg_ty: TypeId,
    symbols: &mut SymbolTable,
    types: &mut TypeTable,
) -> HirExpr {
    let promise_sym = symbols.intern("Promise");
    let resolve_sym = symbols.intern("resolve");
    let promise_ty = types.intern(&Type::I64);
    HirExpr::Await {
        expr: Box::new(HirExpr::Call {
            callee: HirCallee::Indirect(Box::new(HirExpr::Field {
                owner: Box::new(HirExpr::Global {
                    name: promise_sym,
                    ty: promise_ty,
                }),
                field: FieldId::from_raw(0),
                field_name: resolve_sym,
                ty: promise_ty,
            })),
            args: vec![arg],
            ty: promise_ty,
        }),
        ty: arg_ty,
    }
}

#[test]
fn end_to_end_lower_async_strips_promise_resolve_but_keeps_mir_await() {
    let (strings, mut symbols, mut types, mut ctx) = fixture();
    let typed_id = types.intern(&Type::I64);
    let fn_name = symbols.intern("greet");
    let mut hir = HirProgram::new(ModuleId::from_raw(0));
    hir.declarations.push(HirDecl::Function(HirFunction {
        name: fn_name,
        params: Vec::new(),
        ret: typed_id,
        throws: None,
        body: vec![HirStmt::Return {
            value: Some(await_promise_resolve_call(
                HirExpr::Int(42),
                typed_id,
                &mut symbols,
                &mut types,
            )),
        }],
        is_async: true,
        is_generator: false,
        is_exported: false,
        type_params: Vec::new(),
        async_info: Some(HirAsyncInfo::Promise {
            ok_ty: typed_id,
            err_ty: None,
            promise_ty: typed_id,
        }),
    }));

    let stats = lower_async(&mut hir, &strings, &mut symbols, &mut types, &mut ctx);
    assert_eq!(stats.inlined_promise_resolve, 1);
    assert_eq!(stats.cleared_async_info, 1);

    let mir = convert_program(&hir, &strings, &mut symbols, &mut ctx);
    let f = mir.functions().into_iter().next().expect("one function");
    let await_count = f
        .body
        .block
        .stmts
        .iter()
        .filter(|s| matches!(s, MirStmt::Await { .. }))
        .count();
    assert_eq!(
        await_count, 1,
        "Await wrapper must be preserved (Promise.resolve call inside it is rewritten, but the await state step stays), got stmts: {:?}",
        f.body.block.stmts
    );
    let MirStmt::Await { promise, .. } = &f.body.block.stmts[0] else {
        panic!(
            "expected MirStmt::Await (with rewritten promise = bare arg), got {:?}",
            f.body.block.stmts[0]
        );
    };
    let MirExpr::Int { value, .. } = promise else {
        panic!(
            "MirStmt::Await.promise must now be the bare Int(42) (Promise.resolve call was stripped), got {promise:?}"
        );
    };
    assert_eq!(*value, 42, "bare arg must be preserved through HIR -> MIR");
}

#[test]
fn end_to_end_lower_async_keeps_non_promise_resolve_await_as_mir_state() {
    let (strings, mut symbols, mut types, mut ctx) = fixture();
    let typed_id = types.intern(&Type::I64);
    let fn_name = symbols.intern("waitFor");
    let callee_sym = symbols.intern("realPromise");
    let mut hir = HirProgram::new(ModuleId::from_raw(0));
    hir.declarations.push(HirDecl::Function(HirFunction {
        name: fn_name,
        params: Vec::new(),
        ret: typed_id,
        throws: None,
        body: vec![HirStmt::Return {
            value: Some(HirExpr::Await {
                expr: Box::new(HirExpr::Call {
                    callee: HirCallee::Indirect(Box::new(HirExpr::Global {
                        name: callee_sym,
                        ty: typed_id,
                    })),
                    args: Vec::new(),
                    ty: typed_id,
                }),
                ty: typed_id,
            }),
        }],
        is_async: true,
        is_generator: false,
        is_exported: false,
        type_params: Vec::new(),
        async_info: Some(HirAsyncInfo::Promise {
            ok_ty: typed_id,
            err_ty: None,
            promise_ty: typed_id,
        }),
    }));

    let stats = lower_async(&mut hir, &strings, &mut symbols, &mut types, &mut ctx);
    assert_eq!(stats.inlined_promise_resolve, 0);
    assert_eq!(
        stats.cleared_async_info, 1,
        "still clears async_info on the function"
    );

    let mir = convert_program(&hir, &strings, &mut symbols, &mut ctx);
    let f = mir.functions().into_iter().next().expect("one function");
    assert!(
        f.body
            .block
            .stmts
            .iter()
            .any(|s| matches!(s, MirStmt::Await { .. })),
        "non-Promise.resolve await must remain a MirStmt::Await state step"
    );
}
