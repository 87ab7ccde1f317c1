#![allow(unused_imports, unused_variables, unused_mut, dead_code, clippy::all)]

use ts2zig::diagnostics::{Diagnostic, DiagnosticBag, DiagnosticCode, Severity};
use ts2zig::hir::{
    Completion, HirAsyncInfo, HirBinaryOp, HirCallee, HirCatchClause, HirClass, HirDecl,
    HirEnumVariant, HirExport, HirExpr, HirField, HirFunction, HirImport, HirParam, HirProgram,
    HirStmt, HirSwitchCase, HirUnaryOp,
};
use ts2zig::ids::{
    AsyncTaskId, AwaitPointId, ClosureId, EnumId, ErrorId, FieldId, FunctionId, GenericParamId,
    LocalId, ModuleId, StringId, StructId, SymbolId, TypeId, UnionId, VariantId,
};
use ts2zig::passes::context::PassContext;
use ts2zig::span::{Atom, Span};
use ts2zig::tables::{StringTable, SymbolTable};
use ts2zig::ty::{MemoryKind, Type, TypeTable, Visibility};
use ts2zig::passes::error::{PassError, PassResult};


#[test]
fn unresolved_symbol_carries_span_and_code() {
    let err = PassError::UnresolvedSymbol {
        name: SymbolId::from_raw(7),
        span: Span::new(10, 12),
    };
    assert_eq!(err.span(), Some(Span::new(10, 12)));
    assert_eq!(err.code(), "P0001");
}

#[test]
fn unresolved_type_carries_span_and_code() {
    let err = PassError::UnresolvedType {
        ty: TypeId::from_raw(3),
        span: Span::new(0, 4),
    };
    assert_eq!(err.span(), Some(Span::new(0, 4)));
    assert_eq!(err.code(), "P0002");
}

#[test]
fn duplicate_definition_uses_second_span() {
    let err = PassError::DuplicateDefinition {
        name: SymbolId::from_raw(1),
        first: Span::new(0, 1),
        second: Span::new(20, 25),
    };
    assert_eq!(err.span(), Some(Span::new(20, 25)));
    assert_eq!(err.code(), "P0003");
}

#[test]
fn arity_mismatch_carries_counts() {
    let err = PassError::ArityMismatch {
        expected: 3,
        got: 5,
        span: Span::new(0, 8),
    };
    assert_eq!(err.span(), Some(Span::new(0, 8)));
    assert_eq!(err.code(), "P0004");
    assert_eq!(err.to_string(), "expected 3 arguments, got 5");
}

#[test]
fn not_yet_implemented_includes_feature() {
    let err = PassError::NotYetImplemented {
        feature: "for-in",
        span: Span::new(5, 10),
    };
    assert_eq!(err.code(), "P0005");
    assert_eq!(err.to_string(), "feature not yet implemented: for-in");
}

#[test]
fn unsupported_syntax_includes_what() {
    let err = PassError::UnsupportedSyntax {
        what: "with statement",
        span: Span::new(0, 4),
    };
    assert_eq!(err.code(), "P0006");
    assert_eq!(err.to_string(), "unsupported syntax: with statement");
}

#[test]
fn internal_has_no_span() {
    let err = PassError::Internal {
        message: "boom".to_owned(),
    };
    assert_eq!(err.span(), None);
    assert_eq!(err.code(), "P0099");
    assert_eq!(err.to_string(), "internal pass error: boom");
}

#[test]
fn error_codes_are_distinct() {
    let errs = [
        PassError::UnresolvedSymbol {
            name: SymbolId::from_raw(0),
            span: Span::new(0, 1),
        },
        PassError::UnresolvedType {
            ty: TypeId::from_raw(0),
            span: Span::new(0, 1),
        },
        PassError::DuplicateDefinition {
            name: SymbolId::from_raw(0),
            first: Span::new(0, 1),
            second: Span::new(2, 3),
        },
        PassError::ArityMismatch {
            expected: 0,
            got: 1,
            span: Span::new(0, 1),
        },
        PassError::NotYetImplemented {
            feature: "x",
            span: Span::new(0, 1),
        },
        PassError::UnsupportedSyntax {
            what: "x",
            span: Span::new(0, 1),
        },
        PassError::Internal {
            message: "x".to_owned(),
        },
    ];
    let codes: Vec<&str> = errs.iter().map(PassError::code).collect();
    let unique: std::collections::HashSet<&str> = codes.iter().copied().collect();
    assert_eq!(unique.len(), codes.len());
}

#[test]
fn pass_result_ok_and_err() {
    let ok: PassResult<u32> = Ok(7);
    let err: PassResult<u32> = Err(PassError::Internal {
        message: "x".to_owned(),
    });
    assert!(matches!(ok, Ok(7)));
    assert!(err.is_err());
}
