use proc_macro2::TokenStream;
use ts2zig::backend::{compile_program, compile_to_string, emit_program, render_tokens, BackendError, RenderConfig};
use ts2zig::ids::{FunctionId, ModuleId, SymbolId, TypeId};
use ts2zig::mir::body::MirBody;
use ts2zig::mir::decl::{FunctionEffects, FunctionKind, MirDecl, MirFunctionDecl, MirParam};
use ts2zig::mir::program::MirProgram;

#[test]
fn render_default_config_round_trips() {
    let cfg = RenderConfig::default();
    assert_eq!(cfg.module_name, "ts_aot_module");
    assert_eq!(cfg.indent, 4);
}

#[test]
fn render_tokens_uses_token_stream_to_string() {
    let tokens: TokenStream = "fn answer() -> i32 { 42 }".parse().expect("valid tokens");
    let cfg = RenderConfig::default();
    let rendered = render_tokens(&tokens, &cfg);
    assert!(rendered.contains("fn answer"));
    assert!(rendered.contains("42"));
}

#[test]
fn render_tokens_of_empty_stream_is_empty() {
    let cfg = RenderConfig::default();
    assert!(render_tokens(&TokenStream::new(), &cfg).is_empty());
}

#[test]
fn backend_error_messages() {
    assert_eq!(
        BackendError::Internal("boom".to_string()).to_string(),
        "ts-aot-backend internal error: boom"
    );
    assert!(BackendError::NotImplemented
        .to_string()
        .starts_with("ts-aot-backend emission is not yet implemented"));
    assert_ne!(BackendError::NotImplemented, BackendError::Internal(String::new()));
}

#[test]
fn compile_empty_program_emits_empty_token_stream() {
    let program = MirProgram::new(ModuleId::from_raw(0));
    let tokens: TokenStream = compile_program(&program).expect("empty MIR should compile to Ok");
    assert!(tokens.is_empty());
}

#[test]
fn compile_to_string_for_empty_program_yields_empty_string() {
    let program = MirProgram::new(ModuleId::from_raw(0));
    let s = compile_to_string(&program).expect("empty MIR should compile to Ok");
    assert!(s.is_empty());
}

#[test]
fn compile_non_empty_program_returns_not_implemented() {
    let mut program = MirProgram::new(ModuleId::from_raw(0));
    program.push_decl(MirDecl::Function(MirFunctionDecl {
        id: FunctionId::from_raw(0),
        name: SymbolId::from_raw(1),
        export_name: None,
        params: Vec::<MirParam>::new(),
        ret: TypeId::from_raw(0),
        throws: None,
        body: MirBody::default(),
        kind: FunctionKind::Plain,
        effects: FunctionEffects::default(),
    }));

    let result = compile_program(&program);
    assert_eq!(
        result.err(),
        Some(BackendError::NotImplemented),
        "non-empty MIR must surface NotImplemented, not silently emit empty tokens"
    );
    assert_eq!(compile_to_string(&program), Err(BackendError::NotImplemented));
}

#[test]
fn emit_program_ignores_settings() {
    let program = MirProgram::new(ModuleId::from_raw(2));
    let cfg = RenderConfig { module_name: "other".to_owned(), indent: 2 };
    assert!(emit_program(&program, &cfg).expect("empty MIR").is_empty());
}
