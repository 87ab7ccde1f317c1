//! The code generator's error type, its settings, and the rendering of the
//! token streams it produces.

use vstd::prelude::*;
use proc_macro2::TokenStream;
use crate::mir::program::MirProgram;
use crate::text::push_str;

verus! {

/// A token stream of the `proc-macro2` crate, carried through unopened.
#[verifier::external_type_specification]
#[verifier::external_body]
pub struct ExTokenStream(TokenStream);

/// Why code generation failed.
#[derive(Debug, Clone, PartialEq, Eq)]
pub enum BackendError {
    NotImplemented,
    Internal(String),
}

/// The message of a code generation error.
pub open spec fn backend_error_message(e: BackendError) -> Seq<char> {
    match e {
        BackendError::NotImplemented =>
            "ts-aot-backend emission is not yet implemented for non-empty MIR; decl/expr emitters land in PR-19b and PR-19c"@,
        BackendError::Internal(msg) => "ts-aot-backend internal error: "@ + msg@,
    }
}

impl BackendError {
    /// The human-readable message of the error.
    pub fn to_string(&self) -> (s: String)
        ensures
            s@ == backend_error_message(*self),
    {
        let mut s = String::new();
        match self {
            BackendError::NotImplemented => {
                push_str(
                    &mut s,
                    "ts-aot-backend emission is not yet implemented for non-empty MIR; decl/expr emitters land in PR-19b and PR-19c",
                );
            },
            BackendError::Internal(msg) => {
                push_str(&mut s, "ts-aot-backend internal error: ");
                push_str(&mut s, msg.as_str());
            },
        }
        assert(s@ =~= backend_error_message(*self));
        s
    }
}

/// Settings of the rendering of generated code.
#[derive(Debug, Clone)]
pub struct RenderConfig {
    pub module_name: String,
    pub indent: usize,
}

impl Default for RenderConfig {
    /// The module is named `ts_aot_module` and indented by four spaces.
    fn default() -> (cfg: Self)
        ensures
            cfg.module_name@ == "ts_aot_module"@,
            cfg.indent == 4,
    {
        RenderConfig { module_name: "ts_aot_module".to_owned(), indent: 4 }
    }
}

/// The text `proc-macro2` prints for a token stream; it depends on the
/// tokens alone.
pub uninterp spec fn token_text(tokens: TokenStream) -> Seq<char>;

/// The text of a token stream (calls `TokenStream`'s `to_string`): the
/// crate's printing of the tokens, named `token_text`.
#[verifier::external_body]
fn token_stream_text(tokens: &TokenStream) -> (s: String)
    ensures
        s@ == token_text(*tokens),
{
    tokens.to_string()
}

/// Renders a token stream as source text; the settings do not change the text.
pub fn render_tokens(tokens: &TokenStream, _cfg: &RenderConfig) -> (s: String)
    ensures
        s@ == token_text(*tokens),
{
    token_stream_text(tokens)
}

/// A token stream with no tokens (calls `TokenStream::new`); printing it
/// writes nothing.
#[verifier::external_body]
fn empty_token_stream() -> (t: TokenStream)
    ensures
        token_text(t) == Seq::<char>::empty(),
{
    TokenStream::new()
}

/// Generates code for a module: a module without declarations gives an
/// empty token stream, and any declaration gives `NotImplemented`.
pub fn emit_program(program: &MirProgram, _cfg: &RenderConfig) -> (r: Result<TokenStream, BackendError>)
    ensures
        r is Ok <==> program.declarations@.len() == 0,
        !(r is Ok) ==> r == Err::<TokenStream, BackendError>(BackendError::NotImplemented),
        r matches Ok(t) ==> token_text(t) == Seq::<char>::empty(),
{
    if program.decl_count() == 0 {
        Ok(empty_token_stream())
    } else {
        Err(BackendError::NotImplemented)
    }
}

/// Generates code for a module with the default settings.
pub fn compile_program(program: &MirProgram) -> (r: Result<TokenStream, BackendError>)
    ensures
        r is Ok <==> program.declarations@.len() == 0,
        !(r is Ok) ==> r == Err::<TokenStream, BackendError>(BackendError::NotImplemented),
        r matches Ok(t) ==> token_text(t) == Seq::<char>::empty(),
{
    let cfg = RenderConfig::default();
    emit_program(program, &cfg)
}

/// Generates code for a module with the default settings and renders it as
/// source text.
pub fn compile_to_string(program: &MirProgram) -> (r: Result<String, BackendError>)
    ensures
        r is Ok <==> program.declarations@.len() == 0,
        !(r is Ok) ==> r == Err::<String, BackendError>(BackendError::NotImplemented),
        r matches Ok(s) ==> s@ == Seq::<char>::empty(),
{
    let cfg = RenderConfig::default();
    match emit_program(program, &cfg) {
        Ok(tokens) => Ok(render_tokens(&tokens, &cfg)),
        Err(e) => Err(e),
    }
}

} // verus!
