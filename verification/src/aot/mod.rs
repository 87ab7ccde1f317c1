//! The second front end's high-level IR, whose names are texts, and the
//! passes over it.

pub mod hir;
pub mod lower_closures;
pub mod closure_laws;
pub mod lifting_laws;
pub mod source_map;
pub mod throws;
