//! Verified core of a TypeScript ahead-of-time compiler: identifiers,
//! interning tables, diagnostics, the high-level and mid-level IRs, the
//! passes over them, the text dump of modules, source positions, and the
//! entry of code generation.

pub mod ids;
pub mod text;
pub mod span;
pub mod diagnostics;
pub mod tables;
pub mod ty;
pub mod passes;
pub mod hir;
pub mod aot;
pub mod mir;
pub mod backend;
