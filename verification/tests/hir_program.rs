#![allow(unused_imports, unused_variables, unused_mut, dead_code, clippy::all)]

use ts2zig::diagnostics::{Diagnostic, DiagnosticBag, DiagnosticCode, Severity};
use ts2zig::hir::{
    Completion, HirAsyncInfo, HirBinaryOp, HirCallee, HirCatchClause, HirClass, HirDecl,
    HirEnumVariant, HirExport, HirExpr, HirField, HirFunction, HirImport, HirParam, HirProgram,
    HirStmt, HirSwitchCase, HirUnaryOp,
};
use ts2zig::ids::{
    AsyncTaskId, AwaitPointId, ClosureId, EnumId, ErrorId, FieldId, FunctionId, GenericParamId,
    LocalId, ModuleId, StringId, StructId, SymbolId, TypeId, UnionId, VariantId,
};
use ts2zig::passes::context::PassContext;
use ts2zig::span::{Atom, Span};
use ts2zig::tables::{StringTable, SymbolTable};
use ts2zig::ty::{MemoryKind, Type, TypeTable, Visibility};


#[test]
fn empty_program_has_no_decls() {
    let prog = HirProgram::new(ModuleId::from_raw(0));
    assert_eq!(prog.decl_count(), 0);
    assert!(prog.diagnostics.is_empty());
}

#[test]
fn push_decl_increments_count() {
    let mut prog = HirProgram::new(ModuleId::from_raw(7));
    prog.push_decl(HirDecl::Global {
        name: SymbolId::from_raw(1),
        ty: TypeId::from_raw(2),
        init: None,
    });
    prog.push_decl(HirDecl::Class(HirClass {
        name: SymbolId::from_raw(3),
        ty: TypeId::from_raw(5),
        fields: vec![HirField {
            name: StringId::from_raw(4),
            ty: TypeId::from_raw(5),
        }],
        methods: vec![],
        extends: None,
        type_params: vec![],
    }));
    assert_eq!(prog.decl_count(), 2);
}

#[test]
fn program_module_id_is_preserved() {
    let prog = HirProgram::new(ModuleId::from_raw(99));
    assert_eq!(prog.module.raw(), 99);
}

#[test]
fn hir_function_minimal_construction() {
    let f = HirFunction {
        name: SymbolId::from_raw(1),
        params: vec![],
        ret: TypeId::from_raw(2),
        throws: None,
        body: vec![],
        is_async: false,
        is_generator: false,
        is_exported: false,
        type_params: vec![],
        async_info: None,
    };
    assert!(!f.is_async);
    assert!(f.params.is_empty());
}
