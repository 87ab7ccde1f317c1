//! The mid-level IR: operators, function bodies, declarations, imports and
//! exports, runtime requirements, the text dump of modules, and the float
//! literals that the dump writes.

pub mod ops;
pub mod body;
pub mod decl;
pub mod program;
pub mod runtime;
pub mod dump;
pub mod dump_body;
pub mod dump_decl;
pub mod floats;
