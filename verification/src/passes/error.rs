//! Errors that a pass can report.

use vstd::prelude::*;

use crate::ids::{SymbolId, TypeId};
use crate::span::Span;
use crate::text::{decimal, push_decimal, push_str};

verus! {

/// A failure of a compiler pass.
#[derive(Debug, Clone, PartialEq, Eq)]
pub enum PassError {
    UnresolvedSymbol { name: SymbolId, span: Span },
    UnresolvedType { ty: TypeId, span: Span },
    DuplicateDefinition { name: SymbolId, first: Span, second: Span },
    ArityMismatch { expected: usize, got: usize, span: Span },
    NotYetImplemented { feature: &'static str, span: Span },
    UnsupportedSyntax { what: &'static str, span: Span },
    Internal { message: String },
}

/// The result of a pass.
pub type PassResult<T> = Result<T, PassError>;

/// The span a pass error points at: the second definition for a duplicate,
/// none for an internal error.
pub open spec fn error_span(e: PassError) -> Option<Span> {
    match e {
        PassError::UnresolvedSymbol { span, .. } => Some(span),
        PassError::UnresolvedType { span, .. } => Some(span),
        PassError::ArityMismatch { span, .. } => Some(span),
        PassError::NotYetImplemented { span, .. } => Some(span),
        PassError::UnsupportedSyntax { span, .. } => Some(span),
        PassError::DuplicateDefinition { second, .. } => Some(second),
        PassError::Internal { .. } => None,
    }
}

/// The diagnostic code of a pass error.
pub open spec fn error_code(e: PassError) -> Seq<char> {
    match e {
        PassError::UnresolvedSymbol { .. } => "P0001"@,
        PassError::UnresolvedType { .. } => "P0002"@,
        PassError::DuplicateDefinition { .. } => "P0003"@,
        PassError::ArityMismatch { .. } => "P0004"@,
        PassError::NotYetImplemented { .. } => "P0005"@,
        PassError::UnsupportedSyntax { .. } => "P0006"@,
        PassError::Internal { .. } => "P0099"@,
    }
}

/// The human-readable message of a pass error.
pub open spec fn error_message(e: PassError) -> Seq<char> {
    match e {
        PassError::UnresolvedSymbol { name, .. } => "unresolved symbol #"@ + decimal(name.0 as nat),
        PassError::UnresolvedType { ty, .. } => "unresolved type #"@ + decimal(ty.0 as nat),
        PassError::DuplicateDefinition { name, .. } =>
            "duplicate definition of symbol #"@ + decimal(name.0 as nat),
        PassError::ArityMismatch { expected, got, .. } =>
            "expected "@ + decimal(expected as nat) + " arguments, got "@ + decimal(got as nat),
        PassError::NotYetImplemented { feature, .. } => "feature not yet implemented: "@ + feature@,
        PassError::UnsupportedSyntax { what, .. } => "unsupported syntax: "@ + what@,
        PassError::Internal { message } => "internal pass error: "@ + message@,
    }
}

impl PassError {
    /// The span the error points at.
    pub fn span(&self) -> (s: Option<Span>)
        ensures
            s == error_span(*self),
    {
        match self {
            PassError::UnresolvedSymbol { span, .. } => Some(*span),
            PassError::UnresolvedType { span, .. } => Some(*span),
            PassError::ArityMismatch { span, .. } => Some(*span),
            PassError::NotYetImplemented { span, .. } => Some(*span),
            PassError::UnsupportedSyntax { span, .. } => Some(*span),
            PassError::DuplicateDefinition { second, .. } => Some(*second),
            PassError::Internal { .. } => None,
        }
    }

    /// The diagnostic code of the error.
    pub fn code(&self) -> (c: &'static str)
        ensures
            c@ == error_code(*self),
    {
        match self {
            PassError::UnresolvedSymbol { .. } => "P0001",
            PassError::UnresolvedType { .. } => "P0002",
            PassError::DuplicateDefinition { .. } => "P0003",
            PassError::ArityMismatch { .. } => "P0004",
            PassError::NotYetImplemented { .. } => "P0005",
            PassError::UnsupportedSyntax { .. } => "P0006",
            PassError::Internal { .. } => "P0099",
        }
    }

    /// The human-readable message of the error.
    pub fn to_string(&self) -> (s: String)
        ensures
            s@ == error_message(*self),
    {
        let mut s = String::new();
        match self {
            PassError::UnresolvedSymbol { name, .. } => {
                push_str(&mut s, "unresolved symbol #");
                push_decimal(&mut s, name.0 as u128);
            },
            PassError::UnresolvedType { ty, .. } => {
                push_str(&mut s, "unresolved type #");
                push_decimal(&mut s, ty.0 as u128);
            },
            PassError::DuplicateDefinition { name, .. } => {
                push_str(&mut s, "duplicate definition of symbol #");
                push_decimal(&mut s, name.0 as u128);
            },
            PassError::ArityMismatch { expected, got, .. } => {
                push_str(&mut s, "expected ");
                push_decimal(&mut s, *expected as u128);
                push_str(&mut s, " arguments, got ");
                push_decimal(&mut s, *got as u128);
            },
            PassError::NotYetImplemented { feature, .. } => {
                push_str(&mut s, "feature not yet implemented: ");
                push_str(&mut s, feature);
            },
            PassError::UnsupportedSyntax { what, .. } => {
                push_str(&mut s, "unsupported syntax: ");
                push_str(&mut s, what);
            },
            PassError::Internal { message } => {
                push_str(&mut s, "internal pass error: ");
                push_str(&mut s, message.as_str());
            },
        }
        assert(s@ =~= error_message(*self));
        s
    }
}

/// Different kinds of pass error have different codes.
pub proof fn law_error_codes_distinct(a: PassError, b: PassError)
    requires
        error_code(a) == error_code(b),
    ensures
        a is UnresolvedSymbol <==> b is UnresolvedSymbol,
        a is UnresolvedType <==> b is UnresolvedType,
        a is DuplicateDefinition <==> b is DuplicateDefinition,
        a is ArityMismatch <==> b is ArityMismatch,
        a is NotYetImplemented <==> b is NotYetImplemented,
        a is UnsupportedSyntax <==> b is UnsupportedSyntax,
        a is Internal <==> b is Internal,
{
    reveal_strlit("P0001");
    reveal_strlit("P0002");
    reveal_strlit("P0003");
    reveal_strlit("P0004");
    reveal_strlit("P0005");
    reveal_strlit("P0006");
    reveal_strlit("P0099");
    assert("P0001"@[4] == '1');
    assert("P0002"@[4] == '2');
    assert("P0003"@[4] == '3');
    assert("P0004"@[4] == '4');
    assert("P0005"@[4] == '5');
    assert("P0006"@[4] == '6');
    assert("P0099"@[3] == '9');
}

} // verus!
