//! Passes over the high-level IR.

pub mod error;
pub mod context;
pub mod lower_enums;
pub mod enum_laws;
pub mod lower_result;
pub mod lower_async;
pub mod lower_async_laws;
pub mod hir_to_mir;
