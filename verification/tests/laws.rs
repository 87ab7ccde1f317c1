#![allow(unused_imports, unused_variables, unused_mut, dead_code, clippy::all)]

use ts2zig::diagnostics::{Diagnostic, DiagnosticBag};
use ts2zig::ids::{FunctionId, ModuleId, SymbolId, TypeId};
use ts2zig::mir::body::{MirBlock, MirBody, MirExpr, MirStmt};
use ts2zig::mir::decl::{FunctionEffects, FunctionKind, MirDecl, MirFunctionDecl, MirParam};
use ts2zig::mir::dump_body::FloatTexts;
use ts2zig::mir::ops::RuntimeOp;
use ts2zig::mir::program::MirProgram;
use ts2zig::mir::runtime::RuntimeRequirements;
use ts2zig::passes::lower_result::lower_result;
use ts2zig::span::Span;
use ts2zig::tables::{StringTable, SymbolTable};
use ts2zig::ty::{Type, TypeTable};

#[test]
fn interning_twice_gives_the_same_id_and_resolves_back() {
    let mut strings = StringTable::new();
    let a = strings.intern("alpha");
    let b = strings.intern("beta");
    let a2 = strings.intern("alpha");
    assert_eq!(a, a2);
    assert_ne!(a, b);
    assert_eq!(strings.len(), 2);
    assert_eq!(strings.resolve(a), Some("alpha"));
    assert_eq!(strings.resolve(b), Some("beta"));

    let mut symbols = SymbolTable::new();
    let x = symbols.intern("x");
    let y = symbols.intern("y");
    assert_eq!(symbols.intern("x"), x);
    assert_ne!(x, y);
    assert_eq!(symbols.resolve(y), Some("y"));
}

#[test]
fn interning_a_type_again_gives_its_slot() {
    let mut types = TypeTable::new();
    let i = types.intern(&Type::I64);
    let b = types.intern(&Type::Bool);
    assert_eq!(types.intern(&Type::I64), i);
    assert_ne!(i, b);
    assert_eq!(types.resolve(i), Some(&Type::I64));
}

#[test]
fn requiring_twice_or_in_another_order_changes_nothing() {
    let mut once = RuntimeRequirements::default();
    once.require(RuntimeOp::StringConcat);
    let mut twice = once;
    twice.require(RuntimeOp::StringConcat);
    assert_eq!(once, twice);

    let mut ab = RuntimeRequirements::default();
    ab.require(RuntimeOp::ArrayCreate);
    ab.require(RuntimeOp::MathSqrt);
    let mut ba = RuntimeRequirements::default();
    ba.require(RuntimeOp::MathSqrt);
    ba.require(RuntimeOp::ArrayCreate);
    assert_eq!(ab, ba);
    assert!(ab.needs_array && ab.needs_math);
}

#[test]
fn an_error_marks_the_bag_and_a_warning_does_not() {
    let mut bag = DiagnosticBag::new();
    bag.push(Diagnostic::warning("W1", "careful", Span::new(0, 1)));
    assert!(!bag.has_errors());
    assert!(bag.errors().is_empty());
    bag.push(Diagnostic::error("E1", "broken", Span::new(1, 2)));
    assert!(bag.has_errors());
    assert_eq!(bag.errors().len(), 1);
}

fn throwing_program() -> MirProgram {
    let mut program = MirProgram::new(ModuleId::from_raw(0));
    program.push_decl(MirDecl::Function(MirFunctionDecl {
        id: FunctionId::from_raw(0),
        name: SymbolId::from_raw(0),
        export_name: None,
        params: Vec::<MirParam>::new(),
        ret: TypeId::from_raw(0),
        throws: Some(TypeId::from_raw(9)),
        body: MirBody {
            locals: vec![],
            block: MirBlock {
                stmts: vec![
                    MirStmt::Throw { error: MirExpr::Unit, error_ty: TypeId::from_raw(1) },
                    MirStmt::While {
                        cond: MirExpr::Bool(true),
                        body: MirBlock::with(MirStmt::Throw {
                            error: MirExpr::Bool(false),
                            error_ty: TypeId::from_raw(1),
                        }),
                    },
                ],
            },
        },
        kind: FunctionKind::Plain,
        effects: FunctionEffects::default(),
    }));
    program
}

#[test]
fn lowering_results_twice_is_lowering_once() {
    let mut once = throwing_program();
    lower_result(&mut once);
    let mut twice = throwing_program();
    lower_result(&mut twice);
    lower_result(&mut twice);
    assert_eq!(once.declarations, twice.declarations);
    let text = once.dump_text(&FloatTexts::new());
    assert!(text.contains("return_result_err((), 9)"), "{text}");
    assert!(!text.contains("throw("), "{text}");
}

#[test]
fn default_tables_are_empty_and_usable() {
    let mut strings = StringTable::default();
    let mut symbols = SymbolTable::default();
    let mut types = TypeTable::default();
    assert!(strings.is_empty() && symbols.is_empty() && types.is_empty());
    let s = strings.intern("a");
    assert_eq!(strings.resolve(s), Some("a"));
    let y = symbols.intern("b");
    assert_eq!(symbols.resolve(y), Some("b"));
    let t = types.intern(&Type::Bool);
    assert_eq!(types.resolve(t), Some(&Type::Bool));
}
