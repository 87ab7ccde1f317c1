//! Conversion of operators from the high-level IR to the mid-level IR.

use vstd::prelude::*;

use crate::diagnostics::{Diagnostic, Severity};
use crate::hir::expr::{HirBinaryOp, HirUnaryOp};
use crate::mir::ops::{BinaryOp, UnaryOp};
use crate::passes::context::{PassContext, pushed};
use crate::span::Span;
use crate::text::push_str;

verus! {

/// The operator that a binary operator becomes; `None` for those the
/// mid-level IR does not have.
pub open spec fn binop_image(op: HirBinaryOp) -> Option<BinaryOp> {
    match op {
        HirBinaryOp::Add => Some(BinaryOp::Add),
        HirBinaryOp::Sub => Some(BinaryOp::Sub),
        HirBinaryOp::Mul => Some(BinaryOp::Mul),
        HirBinaryOp::Div => Some(BinaryOp::Div),
        HirBinaryOp::Mod => Some(BinaryOp::Mod),
        HirBinaryOp::Eq => Some(BinaryOp::Eq),
        HirBinaryOp::Ne => Some(BinaryOp::Ne),
        HirBinaryOp::Lt => Some(BinaryOp::Lt),
        HirBinaryOp::Le => Some(BinaryOp::Le),
        HirBinaryOp::Gt => Some(BinaryOp::Gt),
        HirBinaryOp::Ge => Some(BinaryOp::Ge),
        HirBinaryOp::And => Some(BinaryOp::And),
        HirBinaryOp::Or => Some(BinaryOp::Or),
        HirBinaryOp::BitAnd => Some(BinaryOp::BitAnd),
        HirBinaryOp::BitOr => Some(BinaryOp::BitOr),
        HirBinaryOp::BitXor => Some(BinaryOp::BitXor),
        HirBinaryOp::Shl => Some(BinaryOp::Shl),
        HirBinaryOp::Shr => Some(BinaryOp::Shr),
        _ => None,
    }
}

/// The name of a binary operator of the high-level IR.
pub open spec fn binop_name(op: HirBinaryOp) -> Seq<char> {
    match op {
        HirBinaryOp::Usr => "Usr"@,
        HirBinaryOp::In => "In"@,
        _ => "InstanceOf"@,
    }
}

/// The name of a unary operator of the high-level IR.
pub open spec fn unaryop_name(op: HirUnaryOp) -> Seq<char> {
    match op {
        HirUnaryOp::TypeOf => "TypeOf"@,
        HirUnaryOp::Void => "Void"@,
        _ => "Delete"@,
    }
}

/// The operator that a unary operator becomes; `None` for those the
/// mid-level IR does not have.
pub open spec fn unaryop_image(op: HirUnaryOp) -> Option<UnaryOp> {
    match op {
        HirUnaryOp::Neg => Some(UnaryOp::Neg),
        HirUnaryOp::BitNot => Some(UnaryOp::BitNot),
        HirUnaryOp::Not => Some(UnaryOp::Not),
        _ => None,
    }
}

/// Whether `d` reports that an operator named `name` of the kind `kind`
/// (`binary` or `unary`) is not supported.
pub open spec fn unsupported_op(kind: Seq<char>, name: Seq<char>, d: Diagnostic) -> bool {
    Diagnostic::spec_with(
        Severity::Error,
        "P0005"@,
        kind + " operator "@ + name + " is not yet supported in HIR→MIR"@,
        Span { start: 0, end: 0 },
        d,
    )
}

fn report_unsupported(kind: &str, name: &str, ctx: &mut PassContext) -> (g: Ghost<Diagnostic>)
    ensures
        pushed(old(ctx)@, final(ctx)@, g@) && unsupported_op(kind@, name@, g@),
{
    let mut msg = String::new();
    push_str(&mut msg, kind);
    push_str(&mut msg, " operator ");
    push_str(&mut msg, name);
    push_str(&mut msg, " is not yet supported in HIR→MIR");
    let d = Diagnostic::error("P0005", msg.as_str(), Span::new(0, 0));
    proof {
        assert(msg@ =~= kind@ + " operator "@ + name@ + " is not yet supported in HIR→MIR"@);
        assert(unsupported_op(kind@, name@, d));
    }
    let ghost dd = d;
    ctx.push_diagnostic(d);
    Ghost(dd)
}

/// Converts a binary operator; one that the mid-level IR lacks becomes
/// `Eq`, with an error that names it.
pub fn convert_binop(op: HirBinaryOp, ctx: &mut PassContext) -> (r: BinaryOp)
    ensures
        binop_image(op) matches Some(m) ==> r == m && final(ctx)@ == old(ctx)@,
        binop_image(op) is None ==> r == BinaryOp::Eq && exists|d: Diagnostic|
            pushed(old(ctx)@, final(ctx)@, d) && #[trigger] unsupported_op("binary"@, binop_name(op), d),
{
    match op {
        HirBinaryOp::Add => BinaryOp::Add,
        HirBinaryOp::Sub => BinaryOp::Sub,
        HirBinaryOp::Mul => BinaryOp::Mul,
        HirBinaryOp::Div => BinaryOp::Div,
        HirBinaryOp::Mod => BinaryOp::Mod,
        HirBinaryOp::Eq => BinaryOp::Eq,
        HirBinaryOp::Ne => BinaryOp::Ne,
        HirBinaryOp::Lt => BinaryOp::Lt,
        HirBinaryOp::Le => BinaryOp::Le,
        HirBinaryOp::Gt => BinaryOp::Gt,
        HirBinaryOp::Ge => BinaryOp::Ge,
        HirBinaryOp::And => BinaryOp::And,
        HirBinaryOp::Or => BinaryOp::Or,
        HirBinaryOp::BitAnd => BinaryOp::BitAnd,
        HirBinaryOp::BitOr => BinaryOp::BitOr,
        HirBinaryOp::BitXor => BinaryOp::BitXor,
        HirBinaryOp::Shl => BinaryOp::Shl,
        HirBinaryOp::Shr => BinaryOp::Shr,
        HirBinaryOp::Usr => {
            let g = report_unsupported("binary", "Usr", ctx);
            assert(unsupported_op("binary"@, binop_name(op), g@));
            BinaryOp::Eq
        },
        HirBinaryOp::In => {
            let g = report_unsupported("binary", "In", ctx);
            assert(unsupported_op("binary"@, binop_name(op), g@));
            BinaryOp::Eq
        },
        HirBinaryOp::InstanceOf => {
            let g = report_unsupported("binary", "InstanceOf", ctx);
            assert(unsupported_op("binary"@, binop_name(op), g@));
            BinaryOp::Eq
        },
    }
}

/// Converts a unary operator; one that the mid-level IR lacks becomes
/// `Not`, with an error that names it.
pub fn convert_unaryop(op: HirUnaryOp, ctx: &mut PassContext) -> (r: UnaryOp)
    ensures
        unaryop_image(op) matches Some(m) ==> r == m && final(ctx)@ == old(ctx)@,
        unaryop_image(op) is None ==> r == UnaryOp::Not && exists|d: Diagnostic|
            pushed(old(ctx)@, final(ctx)@, d) && #[trigger] unsupported_op("unary"@, unaryop_name(op), d),
{
    match op {
        HirUnaryOp::Neg => UnaryOp::Neg,
        HirUnaryOp::BitNot => UnaryOp::BitNot,
        HirUnaryOp::TypeOf => {
            let g = report_unsupported("unary", "TypeOf", ctx);
            assert(unsupported_op("unary"@, unaryop_name(op), g@));
            UnaryOp::Not
        },
        HirUnaryOp::Void => {
            let g = report_unsupported("unary", "Void", ctx);
            assert(unsupported_op("unary"@, unaryop_name(op), g@));
            UnaryOp::Not
        },
        HirUnaryOp::Delete => {
            let g = report_unsupported("unary", "Delete", ctx);
            assert(unsupported_op("unary"@, unaryop_name(op), g@));
            UnaryOp::Not
        },
        HirUnaryOp::Not => UnaryOp::Not,
    }
}

} // verus!
