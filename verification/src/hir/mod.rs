//! The high-level IR: expressions, statements, declarations and programs.

pub mod expr;
pub mod stmt;
pub mod program;

pub use expr::{HirBinaryOp, HirCallee, HirExpr, HirUnaryOp};
pub use program::{HirExport, HirImport, HirProgram};
pub use stmt::{
    Completion, HirAsyncInfo, HirCatchClause, HirClass, HirDecl, HirEnumVariant, HirField,
    HirFunction, HirParam, HirStmt, HirSwitchCase,
};
