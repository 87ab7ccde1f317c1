//! Operators of the mid-level IR and their spelling in a dump.

use vstd::prelude::*;

verus! {

/// A binary operator.
#[derive(Debug, Clone, Copy, PartialEq, Eq, Structural, Hash)]
pub enum BinaryOp {
    Add,
    Sub,
    Mul,
    Div,
    Mod,
    Eq,
    Ne,
    Lt,
    Le,
    Gt,
    Ge,
    And,
    Or,
    BitAnd,
    BitOr,
    BitXor,
    Shl,
    Shr,
}

/// A unary operator.
#[derive(Debug, Clone, Copy, PartialEq, Eq, Structural, Hash)]
pub enum UnaryOp {
    Neg,
    Not,
    BitNot,
}

/// An operation that the runtime library provides.
#[derive(Debug, Clone, Copy, PartialEq, Eq, Structural, Hash)]
pub enum RuntimeOp {
    StringConcat,
    StringEquals,
    StringLen,
    ArrayCreate,
    ArrayGet,
    ArraySet,
    ArrayLen,
    MapGet,
    MapSet,
    ResultOk,
    ResultErr,
    ResultUnwrapOk,
    PromiseCreate,
    PromiseResolve,
    HostConsoleLog,
    MathSqrt,
}

/// The symbol of a binary operator.
pub open spec fn bin_op_text(op: BinaryOp) -> Seq<char> {
    match op {
        BinaryOp::Add => "+"@,
        BinaryOp::Sub => "-"@,
        BinaryOp::Mul => "*"@,
        BinaryOp::Div => "/"@,
        BinaryOp::Mod => "%"@,
        BinaryOp::Eq => "=="@,
        BinaryOp::Ne => "!="@,
        BinaryOp::Lt => "<"@,
        BinaryOp::Le => "<="@,
        BinaryOp::Gt => ">"@,
        BinaryOp::Ge => ">="@,
        BinaryOp::And => "&&"@,
        BinaryOp::Or => "||"@,
        BinaryOp::BitAnd => "&"@,
        BinaryOp::BitOr => "|"@,
        BinaryOp::BitXor => "^"@,
        BinaryOp::Shl => "<<"@,
        BinaryOp::Shr => ">>"@,
    }
}

/// The name of a runtime operation.
pub open spec fn runtime_op_text(op: RuntimeOp) -> Seq<char> {
    match op {
        RuntimeOp::StringConcat => "string_concat"@,
        RuntimeOp::StringEquals => "string_equals"@,
        RuntimeOp::StringLen => "string_len"@,
        RuntimeOp::ArrayCreate => "array_create"@,
        RuntimeOp::ArrayGet => "array_get"@,
        RuntimeOp::ArraySet => "array_set"@,
        RuntimeOp::ArrayLen => "array_len"@,
        RuntimeOp::MapGet => "map_get"@,
        RuntimeOp::MapSet => "map_set"@,
        RuntimeOp::ResultOk => "result_ok"@,
        RuntimeOp::ResultErr => "result_err"@,
        RuntimeOp::ResultUnwrapOk => "result_unwrap_ok"@,
        RuntimeOp::PromiseCreate => "promise_create"@,
        RuntimeOp::PromiseResolve => "promise_resolve"@,
        RuntimeOp::HostConsoleLog => "host_console_log"@,
        RuntimeOp::MathSqrt => "math_sqrt"@,
    }
}

/// The symbol of a unary operator.
pub open spec fn unary_op_text(op: UnaryOp) -> Seq<char> {
    match op {
        UnaryOp::Neg => "-"@,
        UnaryOp::Not => "!"@,
        UnaryOp::BitNot => "~"@,
    }
}

/// The symbol of a binary operator.
pub fn fmt_bin_op(op: BinaryOp) -> (s: &'static str)
    ensures
        s@ == bin_op_text(op),
{
    match op {
        BinaryOp::Add => "+",
        BinaryOp::Sub => "-",
        BinaryOp::Mul => "*",
        BinaryOp::Div => "/",
        BinaryOp::Mod => "%",
        BinaryOp::Eq => "==",
        BinaryOp::Ne => "!=",
        BinaryOp::Lt => "<",
        BinaryOp::Le => "<=",
        BinaryOp::Gt => ">",
        BinaryOp::Ge => ">=",
        BinaryOp::And => "&&",
        BinaryOp::Or => "||",
        BinaryOp::BitAnd => "&",
        BinaryOp::BitOr => "|",
        BinaryOp::BitXor => "^",
        BinaryOp::Shl => "<<",
        BinaryOp::Shr => ">>",
    }
}

/// The name of a runtime operation.
pub fn fmt_op(op: RuntimeOp) -> (s: &'static str)
    ensures
        s@ == runtime_op_text(op),
{
    match op {
        RuntimeOp::StringConcat => "string_concat",
        RuntimeOp::StringEquals => "string_equals",
        RuntimeOp::StringLen => "string_len",
        RuntimeOp::ArrayCreate => "array_create",
        RuntimeOp::ArrayGet => "array_get",
        RuntimeOp::ArraySet => "array_set",
        RuntimeOp::ArrayLen => "array_len",
        RuntimeOp::MapGet => "map_get",
        RuntimeOp::MapSet => "map_set",
        RuntimeOp::ResultOk => "result_ok",
        RuntimeOp::ResultErr => "result_err",
        RuntimeOp::ResultUnwrapOk => "result_unwrap_ok",
        RuntimeOp::PromiseCreate => "promise_create",
        RuntimeOp::PromiseResolve => "promise_resolve",
        RuntimeOp::HostConsoleLog => "host_console_log",
        RuntimeOp::MathSqrt => "math_sqrt",
    }
}

/// The symbol of a unary operator.
pub fn fmt_unary(op: UnaryOp) -> (s: &'static str)
    ensures
        s@ == unary_op_text(op),
{
    match op {
        UnaryOp::Neg => "-",
        UnaryOp::Not => "!",
        UnaryOp::BitNot => "~",
    }
}

} // verus!
