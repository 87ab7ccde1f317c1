#![allow(unused_imports, unused_variables, unused_mut, dead_code, clippy::all)]

use ts2zig::diagnostics::{Diagnostic, DiagnosticBag, DiagnosticCode, Severity};
use ts2zig::hir::{
    Completion, HirAsyncInfo, HirBinaryOp, HirCallee, HirCatchClause, HirClass, HirDecl,
    HirEnumVariant, HirExport, HirExpr, HirField, HirFunction, HirImport, HirParam, HirProgram,
    HirStmt, HirSwitchCase, HirUnaryOp,
};
use ts2zig::ids::{
    AsyncTaskId, AwaitPointId, ClosureId, EnumId, ErrorId, FieldId, FunctionId, GenericParamId,
    LocalId, ModuleId, StringId, StructId, SymbolId, TypeId, UnionId, VariantId,
};
use ts2zig::passes::context::PassContext;
use ts2zig::span::{Atom, Span};
use ts2zig::tables::{StringTable, SymbolTable};
use ts2zig::ty::{MemoryKind, Type, TypeTable, Visibility};
use ts2zig::passes::lower_enums::lower_enums;


fn enum_decl(name: u32, variants: Vec<(u32, Option<i64>)>) -> HirDecl {
    HirDecl::Enum {
        name: SymbolId::from_raw(name),
        variants: variants
            .into_iter()
            .map(|(n, v)| HirEnumVariant {
                name: StringId::from_raw(n),
                value: v.map(HirExpr::Int),
            })
            .collect(),
    }
}

fn setup() -> (HirProgram, StringTable, SymbolTable, TypeTable, PassContext) {
    let strings = StringTable::new();
    let symbols = SymbolTable::new();
    let types = TypeTable::new();
    let ctx = PassContext::default();
    (
        HirProgram::new(ts2zig::ids::ModuleId::from_raw(0)),
        strings,
        symbols,
        types,
        ctx,
    )
}

fn collect_enum_outputs(program: &HirProgram) -> Vec<&HirDecl> {
    program
        .declarations
        .iter()
        .filter(|d| matches!(d, HirDecl::TypeAlias { .. } | HirDecl::Global { .. }))
        .collect()
}

#[test]
fn enum_with_no_variants_produces_only_typealias() {
    let (mut program, strings, mut symbols, mut types, mut ctx) = setup();
    program.declarations.push(enum_decl(1, vec![]));

    lower_enums(&mut program, &strings, &mut symbols, &mut types, &mut ctx);

    let out = collect_enum_outputs(&program);
    assert_eq!(out.len(), 1);
    assert!(matches!(out[0], HirDecl::TypeAlias { .. }));
}

#[test]
fn variants_get_auto_incremented_values_starting_from_zero() {
    let (mut program, strings, mut symbols, mut types, mut ctx) = setup();
    program
        .declarations
        .push(enum_decl(1, vec![(10, None), (11, None), (12, None)]));

    lower_enums(&mut program, &strings, &mut symbols, &mut types, &mut ctx);

    let out = collect_enum_outputs(&program);
    assert_eq!(out.len(), 4);

    let HirDecl::TypeAlias { name, .. } = out[0] else {
        panic!("expected TypeAlias");
    };
    assert_eq!(*name, SymbolId::from_raw(1));

    let values: Vec<i64> = out[1..]
        .iter()
        .map(|d| match d {
            HirDecl::Global {
                init: Some(HirExpr::Int(v)),
                ..
            } => *v,
            _ => panic!("expected Global with Int init"),
        })
        .collect();
    assert_eq!(values, vec![0, 1, 2]);
}

#[test]
fn explicit_initialiser_advances_the_accumulator() {
    let (mut program, strings, mut symbols, mut types, mut ctx) = setup();
    program.declarations.push(enum_decl(
        1,
        vec![(10, Some(10)), (11, None), (12, Some(20))],
    ));

    lower_enums(&mut program, &strings, &mut symbols, &mut types, &mut ctx);

    let values: Vec<i64> = collect_enum_outputs(&program)[1..]
        .iter()
        .map(|d| match d {
            HirDecl::Global {
                init: Some(HirExpr::Int(v)),
                ..
            } => *v,
            _ => panic!(),
        })
        .collect();
    assert_eq!(values, vec![10, 11, 20]);
}

#[test]
fn non_enum_declarations_pass_through() {
    let (mut program, strings, mut symbols, mut types, mut ctx) = setup();
    program.declarations.push(HirDecl::Interface {
        name: SymbolId::from_raw(99),
    });
    program.declarations.push(enum_decl(1, vec![(10, None)]));

    lower_enums(&mut program, &strings, &mut symbols, &mut types, &mut ctx);

    assert_eq!(program.declarations.len(), 3);
    assert!(matches!(program.declarations[0], HirDecl::Interface { .. }));
    assert!(matches!(program.declarations[1], HirDecl::TypeAlias { .. }));
    assert!(matches!(program.declarations[2], HirDecl::Global { .. }));
}

#[test]
fn multiple_enums_get_independent_accumulators() {
    let (mut program, strings, mut symbols, mut types, mut ctx) = setup();
    program
        .declarations
        .push(enum_decl(1, vec![(10, None), (11, None)]));
    program
        .declarations
        .push(enum_decl(2, vec![(20, None), (21, Some(100)), (22, None)]));

    lower_enums(&mut program, &strings, &mut symbols, &mut types, &mut ctx);

    let values: Vec<i64> = program
        .declarations
        .iter()
        .filter_map(|d| match d {
            HirDecl::Global {
                init: Some(HirExpr::Int(v)),
                ..
            } => Some(*v),
            _ => None,
        })
        .collect();
    assert_eq!(values, vec![0, 1, 0, 100, 101]);
}

#[test]
fn lower_enums_empty_program_is_a_noop() {
    let (mut program, strings, mut symbols, mut types, mut ctx) = setup();
    lower_enums(&mut program, &strings, &mut symbols, &mut types, &mut ctx);
    assert!(program.declarations.is_empty());
}

#[test]
fn variant_name_is_preserved_on_global() {
    let (mut program, strings, mut symbols, mut types, mut ctx) = setup();
    program.declarations.push(enum_decl(1, vec![(42, Some(7))]));

    lower_enums(&mut program, &strings, &mut symbols, &mut types, &mut ctx);

    let HirDecl::Global { init, .. } = &program.declarations[1] else {
        panic!("expected Global");
    };
    assert!(matches!(init, Some(HirExpr::Int(7))));
}

#[test]
fn float_variant_initialiser_falls_back_to_accumulator() {
    let (mut program, mut strings, mut symbols, mut types, mut ctx) = setup();
    let value_str = strings.intern("1.5");
    program
        .declarations
        .push(enum_decl(1, vec![(10, None), (11, None)]));
    // Mutate the just-pushed enum to inject a Float initialiser.
    if let HirDecl::Enum { variants, .. } = &mut program.declarations[0] {
        variants.push(HirEnumVariant {
            name: StringId::from_raw(12),
            value: Some(HirExpr::Float(u64::from(value_str.raw()))),
        });
    }

    lower_enums(&mut program, &strings, &mut symbols, &mut types, &mut ctx);

    let values: Vec<i64> = program
        .declarations
        .iter()
        .filter_map(|d| match d {
            HirDecl::Global {
                init: Some(HirExpr::Int(v)),
                ..
            } => Some(*v),
            _ => None,
        })
        .collect();
    assert_eq!(values, vec![0, 1, 2]);
}

#[test]
fn i64_type_is_shared_across_all_emitted_decls() {
    let (mut program, strings, mut symbols, mut types, mut ctx) = setup();
    program
        .declarations
        .push(enum_decl(1, vec![(10, None), (11, None)]));

    lower_enums(&mut program, &strings, &mut symbols, &mut types, &mut ctx);

    let alias_ty = match &program.declarations[0] {
        HirDecl::TypeAlias { target, .. } => *target,
        _ => panic!(),
    };
    let global_ty = match &program.declarations[1] {
        HirDecl::Global { ty, .. } => *ty,
        _ => panic!(),
    };
    let global_ty2 = match &program.declarations[2] {
        HirDecl::Global { ty, .. } => *ty,
        _ => panic!(),
    };
    assert_eq!(alias_ty, global_ty);
    assert_eq!(global_ty, global_ty2);
}

fn interned_enum_decl(
    enum_name: &str,
    variants: Vec<(&str, Option<i64>)>,
    strings: &mut StringTable,
    symbols: &mut SymbolTable,
) -> HirDecl {
    let variants = variants
        .into_iter()
        .map(|(n, v)| HirEnumVariant {
            name: strings.intern(n),
            value: v.map(HirExpr::Int),
        })
        .collect();
    HirDecl::Enum {
        name: symbols.intern(enum_name),
        variants,
    }
}

#[test]
fn variant_globals_are_namespaced_by_enum() {
    let (mut program, mut strings, mut symbols, mut types, mut ctx) = setup();
    program.declarations.push(interned_enum_decl(
        "Color",
        vec![("Red", None)],
        &mut strings,
        &mut symbols,
    ));
    program.declarations.push(interned_enum_decl(
        "Shape",
        vec![("Red", None)],
        &mut strings,
        &mut symbols,
    ));

    lower_enums(&mut program, &strings, &mut symbols, &mut types, &mut ctx);

    let names: Vec<String> = program
        .declarations
        .iter()
        .filter_map(|d| match d {
            HirDecl::Global { name, .. } => {
                Some(symbols.resolve(*name).unwrap_or("").to_owned())
            }
            _ => None,
        })
        .collect();
    assert_eq!(
        names,
        vec!["Color.Red".to_owned(), "Shape.Red".to_owned()],
        "variant globals must be namespaced to avoid SymbolId collisions"
    );
}

#[test]
fn accumulator_overflow_emits_diagnostic_and_saturates() {
    let (mut program, mut strings, mut symbols, mut types, mut ctx) = setup();
    let overflow_name = strings.intern("MAX_VARIANT");
    let variants = vec![
        HirEnumVariant {
            name: overflow_name,
            value: Some(HirExpr::Int(i64::MAX - 1)),
        },
        HirEnumVariant {
            name: overflow_name,
            value: None,
        },
        HirEnumVariant {
            name: overflow_name,
            value: None,
        },
    ];
    program.declarations.push(HirDecl::Enum {
        name: symbols.intern("O"),
        variants,
    });

    lower_enums(&mut program, &strings, &mut symbols, &mut types, &mut ctx);

    let values: Vec<i64> = program
        .declarations
        .iter()
        .filter_map(|d| match d {
            HirDecl::Global {
                init: Some(HirExpr::Int(v)),
                ..
            } => Some(*v),
            _ => None,
        })
        .collect();
    assert_eq!(
        values,
        vec![i64::MAX - 1, i64::MAX, i64::MAX],
        "subsequent variants after overflow must saturate at i64::MAX"
    );
    assert!(
        ctx.diagnostics().iter().any(|d| d.code.as_str() == "P0007"),
        "expected P0007 diagnostic on accumulator overflow"
    );
}
