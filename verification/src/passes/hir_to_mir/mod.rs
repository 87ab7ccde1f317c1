//! Pieces of the lowering from the high-level IR to the mid-level IR:
//! operator conversion, the per-function conversion state, and the checks
//! that decide a function's effects.

pub mod ops;
pub mod converter;
pub mod spec;
pub mod convert_expr;
pub mod convert_stmt;
pub mod convert_program;
pub mod program;
pub mod laws;
