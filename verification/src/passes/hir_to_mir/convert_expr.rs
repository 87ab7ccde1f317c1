//! Converting expressions of the high-level IR to the mid-level IR.

use vstd::prelude::*;

use crate::diagnostics::Diagnostic;
use crate::hir::expr::{HirCallee, HirExpr, SExpr, expr_view, exprs_view, fields_view, lemma_exprs_view, lemma_fields_view};
use crate::ids::{FieldId, LocalId, TypeId};
use crate::mir::body::{
    MirExpr, MirPlace, MirPlaceBase, MirStmt, MExpr, MPlace, MStmt, copy_mexpr, lemma_mexprs_view, lemma_mexprs_view_concat, lemma_mfields_view,
    mbase_view, mexpr_view, mexprs_view, mfields_view, mplace_view, mstmt_view, mstmts_view,
};
use crate::mir::ops::RuntimeOp;
use crate::passes::context::{PassContext, pushed};
use crate::passes::hir_to_mir::converter::{
    ExprConverter, StructIdMap, mapped, placeholder_function, unsupported_callee,
};
use crate::passes::hir_to_mir::ops::{binop_name, convert_binop, convert_unaryop, unaryop_name, unsupported_op};
use crate::passes::hir_to_mir::spec::{
    CState, ExprOut, FieldsOut, ListOut, Report, binop_of, callee_of, ce_compound, expr_done, unop_of, ce, ce_fields, ce_list, cstate, lemma_ce_fields_ok,
    lemma_ce_list_ok, lemma_ce_ok, lemma_reports_none, lemma_reports_pushed, lemma_reports_trans,
    lemma_to_base_ok, not_yet, reports, st_await, st_fresh, st_struct, st_temp, to_base, to_place,
};
use crate::span::Span;

verus! {

/// Appends one statement.
pub(crate) fn emit(out: &mut Vec<MirStmt>, s: MirStmt)
    ensures
        mstmts_view(final(out)@) == mstmts_view(old(out)@).push(mstmt_view(s)),
{
    let ghost before = out@;
    out.push(s);
    proof {
        assert(out@.drop_last() =~= before);
    }
}

/// Records an error at span `0..0`.
pub(crate) fn report_error(ctx: &mut PassContext, code: &str, message: &str)
    ensures
        reports(old(ctx)@, final(ctx)@, seq![Report { code: code@, message: message@ }]),
{
    let ghost c0 = ctx@;
    ctx.error(code, message, Span::new(0, 0));
    proof {
        let d = choose|d: Diagnostic|
            pushed(c0, ctx@, d) && #[trigger] Diagnostic::spec_with(
                crate::diagnostics::Severity::Error,
                code@,
                message@,
                Span { start: 0, end: 0 },
                d,
            );
        lemma_reports_pushed(c0, ctx@, d, code@, message@);
    }
}

/// The view of an optional place.
pub open spec fn opt_place_view(p: Option<MirPlace>) -> Option<MPlace> {
    match p {
        Some(x) => Some(mplace_view(x)),
        None => None,
    }
}


proof fn lemma_to_place_ok(s: CState, e: MExpr)
    ensures
        to_place(s, e).0.ok ==> s.ok,
{
    match e {
        MExpr::Field { base, .. } => lemma_to_base_ok(s, *base),
        _ => {},
    }
}

proof fn lemma_ce_list_prefix_ok(s: CState, es: Seq<SExpr>, i: int)
    requires
        0 <= i <= es.len(),
        ce_list(s, es).st.ok,
    ensures
        ce_list(s, es.take(i)).st.ok,
    decreases es.len(),
{
    if i < es.len() {
        let p = es.drop_last();
        lemma_ce_ok(ce_list(s, p).st, es.last());
        assert(es.take(i) =~= p.take(i));
        lemma_ce_list_prefix_ok(s, p, i);
    } else {
        assert(es.take(i) =~= es);
    }
}

proof fn lemma_ce_fields_prefix_ok(s: CState, fs: Seq<(FieldId, SExpr)>, i: int)
    requires
        0 <= i <= fs.len(),
        ce_fields(s, fs).st.ok,
    ensures
        ce_fields(s, fs.take(i)).st.ok,
    decreases fs.len(),
{
    if i < fs.len() {
        let p = fs.drop_last();
        lemma_ce_ok(ce_fields(s, p).st, fs.last().1);
        assert(fs.take(i) =~= p.take(i));
        lemma_ce_fields_prefix_ok(s, p, i);
    } else {
        assert(fs.take(i) =~= fs);
    }
}

impl ExprConverter {
    /// A local of the source as an expression over its new id.
    pub fn map_local(&mut self, local: LocalId) -> (e: MirExpr)
        requires
            old(self)@.locals.contains_key(local.0) || old(self)@.next_local < u32::MAX,
        ensures
            final(self)@ == mapped(old(self)@, local).0,
            e@ == MExpr::Local(mapped(old(self)@, local).1),
    {
        MirExpr::Local(self.map_local_id(local))
    }



    /// Converts an expression; the statements it needs are appended to
    /// `out` first.
    pub fn convert_expr(
        &mut self,
        e: &HirExpr,
        out: &mut Vec<MirStmt>,
        shared_struct_ids: &mut StructIdMap,
        shared_next_struct: &mut u32,
        ctx: &mut PassContext,
    ) -> (r: MirExpr)
        requires
            ce(cstate(old(self)@, old(shared_struct_ids).map@, *old(shared_next_struct)), e@).st.ok,
        ensures
            expr_done(
                ce(cstate(old(self)@, old(shared_struct_ids).map@, *old(shared_next_struct)), e@),
                cstate(final(self)@, final(shared_struct_ids).map@, *final(shared_next_struct)),
                mstmts_view(old(out)@),
                mstmts_view(final(out)@),
                r@,
                old(ctx)@,
                final(ctx)@,
            ),
            crate::passes::hir_to_mir::laws::grows(
                cstate(old(self)@, old(shared_struct_ids).map@, *old(shared_next_struct)),
                cstate(final(self)@, final(shared_struct_ids).map@, *final(shared_next_struct)),
            ),
        decreases e, 1nat,
    {
        let ghost o0 = out@;
        let ghost c0 = ctx@;
        proof {
            crate::passes::hir_to_mir::laws::law_expr_conversion_grows(
                cstate(self@, shared_struct_ids.map@, *shared_next_struct),
                e@,
            );
            lemma_reports_none(c0);
            assert(mstmts_view(o0) + Seq::<MStmt>::empty() =~= mstmts_view(o0));
        }
        match e {
            HirExpr::Unit => MirExpr::Unit,
            HirExpr::Bool(b) => MirExpr::Bool(*b),
            HirExpr::Int(v) => MirExpr::Int { value: *v as i128, ty: TypeId(0) },
            HirExpr::Float(bits) => MirExpr::Float { value: *bits, ty: TypeId(0) },
            HirExpr::String(id) => MirExpr::String { id: *id, ty: TypeId(0) },
            HirExpr::Null => MirExpr::Null { ty: TypeId(0) },
            HirExpr::Undefined => MirExpr::Unit,
            HirExpr::Local { id, .. } => self.map_local(*id),
            HirExpr::Global { name, .. } => MirExpr::Global(*name),
            HirExpr::Closure { .. } => {
                report_error(ctx, "P0005", "closure expressions are not yet supported in HIR→MIR");
                MirExpr::Unit
            },
            HirExpr::TypeAssertion { expr, .. } => self.convert_expr(expr, out, shared_struct_ids, shared_next_struct, ctx),
            HirExpr::Field { .. } => self.convert_field(e, out, shared_struct_ids, shared_next_struct, ctx),
            HirExpr::Index { .. } => self.convert_index(e, out, shared_struct_ids, shared_next_struct, ctx),
            HirExpr::Call { .. } => self.convert_call(e, out, shared_struct_ids, shared_next_struct, ctx),
            HirExpr::Binary { .. } => self.convert_binary(e, out, shared_struct_ids, shared_next_struct, ctx),
            HirExpr::Unary { .. } => self.convert_unary(e, out, shared_struct_ids, shared_next_struct, ctx),
            HirExpr::StructLiteral { .. } => self.convert_struct_literal(e, out, shared_struct_ids, shared_next_struct, ctx),
            HirExpr::ArrayLiteral { .. } => self.convert_array(e, out, shared_struct_ids, shared_next_struct, ctx),
            HirExpr::Await { .. } => self.convert_await(e, out, shared_struct_ids, shared_next_struct, ctx),
            HirExpr::Yield { .. } => self.convert_yield(e, out, shared_struct_ids, shared_next_struct, ctx),
            HirExpr::Template { .. } => self.convert_template(e, out, shared_struct_ids, shared_next_struct, ctx),
            HirExpr::New { .. } => self.convert_new(e, out, shared_struct_ids, shared_next_struct, ctx),
            HirExpr::OptionalChain { .. } => self.convert_optional_chain(e, out, shared_struct_ids, shared_next_struct, ctx),
            HirExpr::Assignment { .. } => self.convert_assignment(e, out, shared_struct_ids, shared_next_struct, ctx),
        }
    }

    /// A field read.
    fn convert_field(
        &mut self,
        e: &HirExpr,
        out: &mut Vec<MirStmt>,
        shared_struct_ids: &mut StructIdMap,
        shared_next_struct: &mut u32,
        ctx: &mut PassContext,
    ) -> (r: MirExpr)
        requires
            e is Field,
            ce_compound(cstate(old(self)@, old(shared_struct_ids).map@, *old(shared_next_struct)), e@).st.ok,
        ensures
            expr_done(
                ce_compound(cstate(old(self)@, old(shared_struct_ids).map@, *old(shared_next_struct)), e@),
                cstate(final(self)@, final(shared_struct_ids).map@, *final(shared_next_struct)),
                mstmts_view(old(out)@),
                mstmts_view(final(out)@),
                r@,
                old(ctx)@,
                final(ctx)@,
            ),
        decreases e, 0nat,
    {
        let ghost s0 = cstate(self@, shared_struct_ids.map@, *shared_next_struct);
        let ghost o0 = out@;
        let ghost c0 = ctx@;
        let ghost ev = e@;
        proof {
            lemma_reports_none(c0);
            assert(mstmts_view(o0) + Seq::<MStmt>::empty() =~= mstmts_view(o0));
        }
        match e {
            HirExpr::Field { owner, field, ty, .. } => {
                let b = self.convert_expr(owner, out, shared_struct_ids, shared_next_struct, ctx);
                MirExpr::Field { base: Box::new(b), field: *field, ty: *ty }
            },
            _ => MirExpr::Unit,
        }
    }

    /// An index read.
    fn convert_index(
        &mut self,
        e: &HirExpr,
        out: &mut Vec<MirStmt>,
        shared_struct_ids: &mut StructIdMap,
        shared_next_struct: &mut u32,
        ctx: &mut PassContext,
    ) -> (r: MirExpr)
        requires
            e is Index,
            ce_compound(cstate(old(self)@, old(shared_struct_ids).map@, *old(shared_next_struct)), e@).st.ok,
        ensures
            expr_done(
                ce_compound(cstate(old(self)@, old(shared_struct_ids).map@, *old(shared_next_struct)), e@),
                cstate(final(self)@, final(shared_struct_ids).map@, *final(shared_next_struct)),
                mstmts_view(old(out)@),
                mstmts_view(final(out)@),
                r@,
                old(ctx)@,
                final(ctx)@,
            ),
        decreases e, 0nat,
    {
        let ghost s0 = cstate(self@, shared_struct_ids.map@, *shared_next_struct);
        let ghost o0 = out@;
        let ghost c0 = ctx@;
        let ghost ev = e@;
        proof {
            lemma_reports_none(c0);
            assert(mstmts_view(o0) + Seq::<MStmt>::empty() =~= mstmts_view(o0));
        }
        match e {
            HirExpr::Index { owner, index, ty } => {
                let ghost r1 = ce(s0, owner@);
                proof {
                    lemma_ce_ok(r1.st, index@);
                }
                let b = self.convert_expr(owner, out, shared_struct_ids, shared_next_struct, ctx);
                let ghost c1 = ctx@;
                let i = self.convert_expr(index, out, shared_struct_ids, shared_next_struct, ctx);
                proof {
                    let r2 = ce(r1.st, index@);
                    lemma_reports_trans(c0, c1, ctx@, r1.ds, r2.ds);
                    assert(mstmts_view(o0) + r1.out + r2.out =~= mstmts_view(o0) + (r1.out + r2.out));
                }
                MirExpr::Index { base: Box::new(b), index: Box::new(i), ty: *ty }
            },
            _ => MirExpr::Unit,
        }
    }

    /// A call; its callee is resolved before its arguments are converted.
    fn convert_call(
        &mut self,
        e: &HirExpr,
        out: &mut Vec<MirStmt>,
        shared_struct_ids: &mut StructIdMap,
        shared_next_struct: &mut u32,
        ctx: &mut PassContext,
    ) -> (r: MirExpr)
        requires
            e is Call,
            ce_compound(cstate(old(self)@, old(shared_struct_ids).map@, *old(shared_next_struct)), e@).st.ok,
        ensures
            expr_done(
                ce_compound(cstate(old(self)@, old(shared_struct_ids).map@, *old(shared_next_struct)), e@),
                cstate(final(self)@, final(shared_struct_ids).map@, *final(shared_next_struct)),
                mstmts_view(old(out)@),
                mstmts_view(final(out)@),
                r@,
                old(ctx)@,
                final(ctx)@,
            ),
        decreases e, 0nat,
    {
        let ghost s0 = cstate(self@, shared_struct_ids.map@, *shared_next_struct);
        let ghost o0 = out@;
        let ghost c0 = ctx@;
        let ghost ev = e@;
        proof {
            lemma_reports_none(c0);
            assert(mstmts_view(o0) + Seq::<MStmt>::empty() =~= mstmts_view(o0));
        }
        match e {
            HirExpr::Call { callee, args, ty } => {
                let f = self.resolve_callee(callee, ctx);
                let ghost c1 = ctx@;
                proof {
                    match callee {
                        HirCallee::Function(_) => {},
                        HirCallee::Indirect(_) => {
                            let d = choose|d: Diagnostic|
                                pushed(c0, c1, d) && #[trigger] unsupported_callee("indirect (computed)"@, d);
                            lemma_reports_pushed(c0, c1, d, "P0005"@, "indirect (computed)"@ + " callee is not yet supported in HIR→MIR"@);
                        },
                        HirCallee::Closure(_) => {
                            let d = choose|d: Diagnostic| pushed(c0, c1, d) && #[trigger] unsupported_callee("closure"@, d);
                            lemma_reports_pushed(c0, c1, d, "P0005"@, "closure"@ + " callee is not yet supported in HIR→MIR"@);
                        },
                        HirCallee::Runtime { .. } => {
                            let d = choose|d: Diagnostic| pushed(c0, c1, d) && #[trigger] unsupported_callee("runtime"@, d);
                            lemma_reports_pushed(c0, c1, d, "P0005"@, "runtime"@ + " callee is not yet supported in HIR→MIR"@);
                        },
                    }
                    assert(reports(c0, c1, callee_of(s0.cv, callee@).1));
                }
                let a = self.convert_exprs(args, out, shared_struct_ids, shared_next_struct, ctx);
                proof {
                    lemma_reports_trans(c0, c1, ctx@, callee_of(s0.cv, callee@).1, ce_list(s0, exprs_view(args@)).ds);
                }
                MirExpr::Call { callee: f, args: a, ty: *ty }
            },
            _ => MirExpr::Unit,
        }
    }

    /// A binary operation; the operator is converted first.
    fn convert_binary(
        &mut self,
        e: &HirExpr,
        out: &mut Vec<MirStmt>,
        shared_struct_ids: &mut StructIdMap,
        shared_next_struct: &mut u32,
        ctx: &mut PassContext,
    ) -> (r: MirExpr)
        requires
            e is Binary,
            ce_compound(cstate(old(self)@, old(shared_struct_ids).map@, *old(shared_next_struct)), e@).st.ok,
        ensures
            expr_done(
                ce_compound(cstate(old(self)@, old(shared_struct_ids).map@, *old(shared_next_struct)), e@),
                cstate(final(self)@, final(shared_struct_ids).map@, *final(shared_next_struct)),
                mstmts_view(old(out)@),
                mstmts_view(final(out)@),
                r@,
                old(ctx)@,
                final(ctx)@,
            ),
        decreases e, 0nat,
    {
        let ghost s0 = cstate(self@, shared_struct_ids.map@, *shared_next_struct);
        let ghost o0 = out@;
        let ghost c0 = ctx@;
        let ghost ev = e@;
        proof {
            lemma_reports_none(c0);
            assert(mstmts_view(o0) + Seq::<MStmt>::empty() =~= mstmts_view(o0));
        }
        match e {
            HirExpr::Binary { op, lhs, rhs, ty } => {
                let m = convert_binop(*op, ctx);
                let ghost c1 = ctx@;
                proof {
                    if binop_of(*op).1.len() > 0 {
                        let d = choose|d: Diagnostic| pushed(c0, c1, d) && #[trigger] unsupported_op("binary"@, binop_name(*op), d);
                        lemma_reports_pushed(c0, c1, d, "P0005"@, "binary"@ + " operator "@ + binop_name(*op) + " is not yet supported in HIR→MIR"@);
                    } else {
                        lemma_reports_none(c1);
                    }
                }
                let ghost r1 = ce(s0, lhs@);
                proof {
                    lemma_ce_ok(r1.st, rhs@);
                }
                let l = self.convert_expr(lhs, out, shared_struct_ids, shared_next_struct, ctx);
                let ghost c2 = ctx@;
                let r = self.convert_expr(rhs, out, shared_struct_ids, shared_next_struct, ctx);
                proof {
                    let r2 = ce(r1.st, rhs@);
                    lemma_reports_trans(c0, c1, c2, binop_of(*op).1, r1.ds);
                    lemma_reports_trans(c0, c2, ctx@, binop_of(*op).1 + r1.ds, r2.ds);
                    assert(mstmts_view(o0) + r1.out + r2.out =~= mstmts_view(o0) + (r1.out + r2.out));
                }
                MirExpr::Binary { op: m, left: Box::new(l), right: Box::new(r), ty: *ty }
            },
            _ => MirExpr::Unit,
        }
    }

    /// A unary operation; the operator is converted first.
    fn convert_unary(
        &mut self,
        e: &HirExpr,
        out: &mut Vec<MirStmt>,
        shared_struct_ids: &mut StructIdMap,
        shared_next_struct: &mut u32,
        ctx: &mut PassContext,
    ) -> (r: MirExpr)
        requires
            e is Unary,
            ce_compound(cstate(old(self)@, old(shared_struct_ids).map@, *old(shared_next_struct)), e@).st.ok,
        ensures
            expr_done(
                ce_compound(cstate(old(self)@, old(shared_struct_ids).map@, *old(shared_next_struct)), e@),
                cstate(final(self)@, final(shared_struct_ids).map@, *final(shared_next_struct)),
                mstmts_view(old(out)@),
                mstmts_view(final(out)@),
                r@,
                old(ctx)@,
                final(ctx)@,
            ),
        decreases e, 0nat,
    {
        let ghost s0 = cstate(self@, shared_struct_ids.map@, *shared_next_struct);
        let ghost o0 = out@;
        let ghost c0 = ctx@;
        let ghost ev = e@;
        proof {
            lemma_reports_none(c0);
            assert(mstmts_view(o0) + Seq::<MStmt>::empty() =~= mstmts_view(o0));
        }
        match e {
            HirExpr::Unary { op, expr, ty } => {
                let m = convert_unaryop(*op, ctx);
                let ghost c1 = ctx@;
                proof {
                    if unop_of(*op).1.len() > 0 {
                        let d = choose|d: Diagnostic| pushed(c0, c1, d) && #[trigger] unsupported_op("unary"@, unaryop_name(*op), d);
                        lemma_reports_pushed(c0, c1, d, "P0005"@, "unary"@ + " operator "@ + unaryop_name(*op) + " is not yet supported in HIR→MIR"@);
                    }
                }
                let x = self.convert_expr(expr, out, shared_struct_ids, shared_next_struct, ctx);
                proof {
                    lemma_reports_trans(c0, c1, ctx@, unop_of(*op).1, ce(s0, expr@).ds);
                }
                MirExpr::Unary { op: m, expr: Box::new(x), ty: *ty }
            },
            _ => MirExpr::Unit,
        }
    }

    /// A struct literal; its struct id is found before its fields are converted.
    fn convert_struct_literal(
        &mut self,
        e: &HirExpr,
        out: &mut Vec<MirStmt>,
        shared_struct_ids: &mut StructIdMap,
        shared_next_struct: &mut u32,
        ctx: &mut PassContext,
    ) -> (r: MirExpr)
        requires
            e is StructLiteral,
            ce_compound(cstate(old(self)@, old(shared_struct_ids).map@, *old(shared_next_struct)), e@).st.ok,
        ensures
            expr_done(
                ce_compound(cstate(old(self)@, old(shared_struct_ids).map@, *old(shared_next_struct)), e@),
                cstate(final(self)@, final(shared_struct_ids).map@, *final(shared_next_struct)),
                mstmts_view(old(out)@),
                mstmts_view(final(out)@),
                r@,
                old(ctx)@,
                final(ctx)@,
            ),
        decreases e, 0nat,
    {
        let ghost s0 = cstate(self@, shared_struct_ids.map@, *shared_next_struct);
        let ghost o0 = out@;
        let ghost c0 = ctx@;
        let ghost ev = e@;
        proof {
            lemma_reports_none(c0);
            assert(mstmts_view(o0) + Seq::<MStmt>::empty() =~= mstmts_view(o0));
        }
        match e {
            HirExpr::StructLiteral { ty, fields } => {
                proof {
                    lemma_ce_fields_ok(st_struct(s0, *ty).0, fields_view(fields@));
                }
                let sid = self.lookup_or_alloc_struct_id(*ty, shared_struct_ids, shared_next_struct);
                assert(cstate(self@, shared_struct_ids.map@, *shared_next_struct) == st_struct(s0, *ty).0);
                let f = self.convert_fields(fields, out, shared_struct_ids, shared_next_struct, ctx);
                MirExpr::StructLiteral { struct_id: sid, fields: f, ty: *ty }
            },
            _ => MirExpr::Unit,
        }
    }

    /// An array literal: a runtime call creates it in a fresh temporary.
    fn convert_array(
        &mut self,
        e: &HirExpr,
        out: &mut Vec<MirStmt>,
        shared_struct_ids: &mut StructIdMap,
        shared_next_struct: &mut u32,
        ctx: &mut PassContext,
    ) -> (r: MirExpr)
        requires
            e is ArrayLiteral,
            ce_compound(cstate(old(self)@, old(shared_struct_ids).map@, *old(shared_next_struct)), e@).st.ok,
        ensures
            expr_done(
                ce_compound(cstate(old(self)@, old(shared_struct_ids).map@, *old(shared_next_struct)), e@),
                cstate(final(self)@, final(shared_struct_ids).map@, *final(shared_next_struct)),
                mstmts_view(old(out)@),
                mstmts_view(final(out)@),
                r@,
                old(ctx)@,
                final(ctx)@,
            ),
        decreases e, 0nat,
    {
        let ghost s0 = cstate(self@, shared_struct_ids.map@, *shared_next_struct);
        let ghost o0 = out@;
        let ghost c0 = ctx@;
        let ghost ev = e@;
        proof {
            lemma_reports_none(c0);
            assert(mstmts_view(o0) + Seq::<MStmt>::empty() =~= mstmts_view(o0));
        }
        match e {
            HirExpr::ArrayLiteral { elements, ty } => {
                let a = self.convert_exprs(elements, out, shared_struct_ids, shared_next_struct, ctx);
                let dest = self.fresh_local();
                self.push_temp_local(dest, *ty);
                emit(out, MirStmt::Runtime { op: RuntimeOp::ArrayCreate, args: a, dest: Some(dest), ty: *ty });
                proof {
                    assert(mstmts_view(out@) =~= mstmts_view(o0) + ce_compound(s0, ev).out);
                }
                MirExpr::Local(dest)
            },
            _ => MirExpr::Unit,
        }
    }

    /// An `await`: its destination and state are taken first.
    fn convert_await(
        &mut self,
        e: &HirExpr,
        out: &mut Vec<MirStmt>,
        shared_struct_ids: &mut StructIdMap,
        shared_next_struct: &mut u32,
        ctx: &mut PassContext,
    ) -> (r: MirExpr)
        requires
            e is Await,
            ce_compound(cstate(old(self)@, old(shared_struct_ids).map@, *old(shared_next_struct)), e@).st.ok,
        ensures
            expr_done(
                ce_compound(cstate(old(self)@, old(shared_struct_ids).map@, *old(shared_next_struct)), e@),
                cstate(final(self)@, final(shared_struct_ids).map@, *final(shared_next_struct)),
                mstmts_view(old(out)@),
                mstmts_view(final(out)@),
                r@,
                old(ctx)@,
                final(ctx)@,
            ),
        decreases e, 0nat,
    {
        let ghost s0 = cstate(self@, shared_struct_ids.map@, *shared_next_struct);
        let ghost o0 = out@;
        let ghost c0 = ctx@;
        let ghost ev = e@;
        proof {
            lemma_reports_none(c0);
            assert(mstmts_view(o0) + Seq::<MStmt>::empty() =~= mstmts_view(o0));
        }
        match e {
            HirExpr::Await { expr, ty } => {
                let ghost (s1, d0, n0) = st_await(s0);
                proof {
                    lemma_ce_ok(st_temp(s1, d0, *ty), expr@);
                }
                let (dest, next_state) = self.push_await();
                self.push_temp_local(dest, *ty);
                let p = self.convert_expr(expr, out, shared_struct_ids, shared_next_struct, ctx);
                emit(out, MirStmt::Await { promise: p, dest, next_state, ty: *ty });
                proof {
                    assert(mstmts_view(out@) =~= mstmts_view(o0) + ce_compound(s0, ev).out);
                }
                MirExpr::Local(dest)
            },
            _ => MirExpr::Unit,
        }
    }

    /// A `yield`: its value is stored in a fresh temporary.
    fn convert_yield(
        &mut self,
        e: &HirExpr,
        out: &mut Vec<MirStmt>,
        shared_struct_ids: &mut StructIdMap,
        shared_next_struct: &mut u32,
        ctx: &mut PassContext,
    ) -> (r: MirExpr)
        requires
            e is Yield,
            ce_compound(cstate(old(self)@, old(shared_struct_ids).map@, *old(shared_next_struct)), e@).st.ok,
        ensures
            expr_done(
                ce_compound(cstate(old(self)@, old(shared_struct_ids).map@, *old(shared_next_struct)), e@),
                cstate(final(self)@, final(shared_struct_ids).map@, *final(shared_next_struct)),
                mstmts_view(old(out)@),
                mstmts_view(final(out)@),
                r@,
                old(ctx)@,
                final(ctx)@,
            ),
        decreases e, 0nat,
    {
        let ghost s0 = cstate(self@, shared_struct_ids.map@, *shared_next_struct);
        let ghost o0 = out@;
        let ghost c0 = ctx@;
        let ghost ev = e@;
        proof {
            lemma_reports_none(c0);
            assert(mstmts_view(o0) + Seq::<MStmt>::empty() =~= mstmts_view(o0));
        }
        match e {
            HirExpr::Yield { expr, ty } => {
                let ghost (s1, d0) = st_fresh(s0);
                proof {
                    match expr {
                        Some(b) => lemma_ce_ok(st_temp(s1, d0, *ty), b@),
                        None => {},
                    }
                }
                let dest = self.fresh_local();
                self.push_temp_local(dest, *ty);
                let v = match expr {
                    Some(b) => self.convert_expr(b, out, shared_struct_ids, shared_next_struct, ctx),
                    None => MirExpr::Unit,
                };
                emit(out, MirStmt::Let { local: dest, ty: *ty, init: None, mutable: true });
                emit(out, MirStmt::Assign { target: MirPlace::Local { id: dest }, value: v });
                emit(out, MirStmt::SetState { value: -1 });
                emit(out, MirStmt::Expr(MirExpr::Local(dest)));
                proof {
                    assert(mstmts_view(out@) =~= mstmts_view(o0) + ce_compound(s0, ev).out);
                }
                MirExpr::Local(dest)
            },
            _ => MirExpr::Unit,
        }
    }

    /// A template: a runtime call concatenates its parts into a fresh temporary.
    fn convert_template(
        &mut self,
        e: &HirExpr,
        out: &mut Vec<MirStmt>,
        shared_struct_ids: &mut StructIdMap,
        shared_next_struct: &mut u32,
        ctx: &mut PassContext,
    ) -> (r: MirExpr)
        requires
            e is Template,
            ce_compound(cstate(old(self)@, old(shared_struct_ids).map@, *old(shared_next_struct)), e@).st.ok,
        ensures
            expr_done(
                ce_compound(cstate(old(self)@, old(shared_struct_ids).map@, *old(shared_next_struct)), e@),
                cstate(final(self)@, final(shared_struct_ids).map@, *final(shared_next_struct)),
                mstmts_view(old(out)@),
                mstmts_view(final(out)@),
                r@,
                old(ctx)@,
                final(ctx)@,
            ),
        decreases e, 0nat,
    {
        let ghost s0 = cstate(self@, shared_struct_ids.map@, *shared_next_struct);
        let ghost o0 = out@;
        let ghost c0 = ctx@;
        let ghost ev = e@;
        proof {
            lemma_reports_none(c0);
            assert(mstmts_view(o0) + Seq::<MStmt>::empty() =~= mstmts_view(o0));
        }
        match e {
            HirExpr::Template { parts, ty, .. } => {
                let a = self.convert_exprs(parts, out, shared_struct_ids, shared_next_struct, ctx);
                let dest = self.fresh_local();
                self.push_temp_local(dest, *ty);
                emit(out, MirStmt::Runtime { op: RuntimeOp::StringConcat, args: a, dest: Some(dest), ty: *ty });
                proof {
                    assert(mstmts_view(out@) =~= mstmts_view(o0) + ce_compound(s0, ev).out);
                }
                MirExpr::Local(dest)
            },
            _ => MirExpr::Unit,
        }
    }

    /// A `new`: the callee is evaluated, an empty struct is allocated, and the constructor placeholder is called on it.
    fn convert_new(
        &mut self,
        e: &HirExpr,
        out: &mut Vec<MirStmt>,
        shared_struct_ids: &mut StructIdMap,
        shared_next_struct: &mut u32,
        ctx: &mut PassContext,
    ) -> (r: MirExpr)
        requires
            e is New,
            ce_compound(cstate(old(self)@, old(shared_struct_ids).map@, *old(shared_next_struct)), e@).st.ok,
        ensures
            expr_done(
                ce_compound(cstate(old(self)@, old(shared_struct_ids).map@, *old(shared_next_struct)), e@),
                cstate(final(self)@, final(shared_struct_ids).map@, *final(shared_next_struct)),
                mstmts_view(old(out)@),
                mstmts_view(final(out)@),
                r@,
                old(ctx)@,
                final(ctx)@,
            ),
        decreases e, 0nat,
    {
        let ghost s0 = cstate(self@, shared_struct_ids.map@, *shared_next_struct);
        let ghost o0 = out@;
        let ghost c0 = ctx@;
        let ghost ev = e@;
        proof {
            lemma_reports_none(c0);
            assert(mstmts_view(o0) + Seq::<MStmt>::empty() =~= mstmts_view(o0));
        }
        match e {
            HirExpr::New { callee, args, ty } => {
                let ghost r = ce(s0, callee@);
                let ghost (s1, sid0) = st_struct(r.st, *ty);
                let ghost (s2, alloc0) = st_fresh(s1);
                let ghost s3 = st_temp(s2, alloc0, *ty);
                proof {
                    lemma_ce_list_ok(s3, exprs_view(args@));
                }
                let callee_mir = self.convert_expr(callee, out, shared_struct_ids, shared_next_struct, ctx);
                let ghost c1 = ctx@;
                emit(out, MirStmt::Expr(callee_mir));
                let sid = self.lookup_or_alloc_struct_id(*ty, shared_struct_ids, shared_next_struct);
                let alloc = self.fresh_local();
                self.push_temp_local(alloc, *ty);
                emit(
                    out,
                    MirStmt::Let {
                        local: alloc,
                        ty: *ty,
                        init: Some(MirExpr::StructLiteral { struct_id: sid, fields: Vec::new(), ty: *ty }),
                        mutable: true,
                    },
                );
                proof {
                    assert(mfields_view(Seq::<(FieldId, MirExpr)>::empty()) =~= Seq::<(FieldId, MExpr)>::empty());
                    assert(cstate(self@, shared_struct_ids.map@, *shared_next_struct) == s3);
                }
                let mut ctor_args: Vec<MirExpr> = Vec::new();
                ctor_args.push(MirExpr::Local(alloc));
                let mut rest = self.convert_exprs(args, out, shared_struct_ids, shared_next_struct, ctx);
                let ghost head = ctor_args@;
                let ghost restv = rest@;
                ctor_args.append(&mut rest);
                emit(out, MirStmt::Expr(MirExpr::Call { callee: placeholder_function(), args: ctor_args, ty: *ty }));
                proof {
                    let l = ce_list(s3, exprs_view(args@));
                    assert(ctor_args@ == head + restv);
                    lemma_mexprs_view_concat(head, restv);
                    assert(head.drop_last() =~= Seq::<MirExpr>::empty());
                    assert(mexprs_view(Seq::<MirExpr>::empty()) == Seq::<MExpr>::empty());
                    assert(head.len() == 1 && head.last() == MirExpr::Local(alloc));
                    assert(mexpr_view(MirExpr::Local(alloc)) == MExpr::Local(alloc));
                    assert(mexprs_view(head) =~= seq![MExpr::Local(alloc)]);
                    assert(mexprs_view(ctor_args@) =~= seq![MExpr::Local(alloc)] + l.es);
                    lemma_reports_trans(c0, c1, ctx@, r.ds, l.ds);
                    assert(mstmts_view(out@) =~= mstmts_view(o0) + ce_compound(s0, ev).out);
                }
                MirExpr::Local(alloc)
            },
            _ => MirExpr::Unit,
        }
    }

    /// An optional chain: reported as not supported; its base is still converted.
    fn convert_optional_chain(
        &mut self,
        e: &HirExpr,
        out: &mut Vec<MirStmt>,
        shared_struct_ids: &mut StructIdMap,
        shared_next_struct: &mut u32,
        ctx: &mut PassContext,
    ) -> (r: MirExpr)
        requires
            e is OptionalChain,
            ce_compound(cstate(old(self)@, old(shared_struct_ids).map@, *old(shared_next_struct)), e@).st.ok,
        ensures
            expr_done(
                ce_compound(cstate(old(self)@, old(shared_struct_ids).map@, *old(shared_next_struct)), e@),
                cstate(final(self)@, final(shared_struct_ids).map@, *final(shared_next_struct)),
                mstmts_view(old(out)@),
                mstmts_view(final(out)@),
                r@,
                old(ctx)@,
                final(ctx)@,
            ),
        decreases e, 0nat,
    {
        let ghost s0 = cstate(self@, shared_struct_ids.map@, *shared_next_struct);
        let ghost o0 = out@;
        let ghost c0 = ctx@;
        let ghost ev = e@;
        proof {
            lemma_reports_none(c0);
            assert(mstmts_view(o0) + Seq::<MStmt>::empty() =~= mstmts_view(o0));
        }
        match e {
            HirExpr::OptionalChain { base, .. } => {
                report_error(ctx, "P0005", "optional chaining (?.) is not yet supported in HIR→MIR");
                let ghost c1 = ctx@;
                let _inner = self.convert_expr(base, out, shared_struct_ids, shared_next_struct, ctx);
                proof {
                    lemma_reports_trans(c0, c1, ctx@, seq![not_yet("optional chaining (?.) is not yet supported in HIR→MIR"@)], ce(s0, base@).ds);
                }
                MirExpr::Unit
            },
            _ => MirExpr::Unit,
        }
    }

    /// An assignment: the target, its place, the value, then the write; the value is the result.
    fn convert_assignment(
        &mut self,
        e: &HirExpr,
        out: &mut Vec<MirStmt>,
        shared_struct_ids: &mut StructIdMap,
        shared_next_struct: &mut u32,
        ctx: &mut PassContext,
    ) -> (r: MirExpr)
        requires
            e is Assignment,
            ce_compound(cstate(old(self)@, old(shared_struct_ids).map@, *old(shared_next_struct)), e@).st.ok,
        ensures
            expr_done(
                ce_compound(cstate(old(self)@, old(shared_struct_ids).map@, *old(shared_next_struct)), e@),
                cstate(final(self)@, final(shared_struct_ids).map@, *final(shared_next_struct)),
                mstmts_view(old(out)@),
                mstmts_view(final(out)@),
                r@,
                old(ctx)@,
                final(ctx)@,
            ),
        decreases e, 0nat,
    {
        let ghost s0 = cstate(self@, shared_struct_ids.map@, *shared_next_struct);
        let ghost o0 = out@;
        let ghost c0 = ctx@;
        let ghost ev = e@;
        proof {
            lemma_reports_none(c0);
            assert(mstmts_view(o0) + Seq::<MStmt>::empty() =~= mstmts_view(o0));
        }
        match e {
            HirExpr::Assignment { target, value, .. } => {
                let ghost r1 = ce(s0, target@);
                let ghost pl = to_place(r1.st, r1.e);
                proof {
                    lemma_ce_ok(pl.0, value@);
                    lemma_to_place_ok(r1.st, r1.e);
                }
                let t = self.convert_expr(target, out, shared_struct_ids, shared_next_struct, ctx);
                let ghost c1 = ctx@;
                let ghost sh = shared_struct_ids.map@;
                let ghost ns = *shared_next_struct;
                let place = self.mir_expr_to_place(t, out, ctx, Ghost(sh), Ghost(ns));
                let ghost c2 = ctx@;
                let v = self.convert_expr(value, out, shared_struct_ids, shared_next_struct, ctx);
                match place {
                    Some(p) => {
                        emit(out, MirStmt::Assign { target: p, value: copy_mexpr(&v) });
                    },
                    None => {},
                }
                proof {
                    let r2 = ce(pl.0, value@);
                    lemma_reports_trans(c0, c1, c2, r1.ds, pl.3);
                    lemma_reports_trans(c0, c2, ctx@, r1.ds + pl.3, r2.ds);
                    assert(mstmts_view(out@) =~= mstmts_view(o0) + ce_compound(s0, ev).out);
                }
                v
            },
            _ => MirExpr::Unit,
        }
    }

    /// Converts a list of expressions left to right.
    pub fn convert_exprs(
        &mut self,
        es: &Vec<HirExpr>,
        out: &mut Vec<MirStmt>,
        shared_struct_ids: &mut StructIdMap,
        shared_next_struct: &mut u32,
        ctx: &mut PassContext,
    ) -> (r: Vec<MirExpr>)
        requires
            ce_list(cstate(old(self)@, old(shared_struct_ids).map@, *old(shared_next_struct)), exprs_view(es@)).st.ok,
        ensures
            ce_list(cstate(old(self)@, old(shared_struct_ids).map@, *old(shared_next_struct)), exprs_view(es@)).st
                == cstate(final(self)@, final(shared_struct_ids).map@, *final(shared_next_struct)),
            mstmts_view(final(out)@) == mstmts_view(old(out)@) + ce_list(
                cstate(old(self)@, old(shared_struct_ids).map@, *old(shared_next_struct)),
                exprs_view(es@),
            ).out,
            mexprs_view(r@) == ce_list(
                cstate(old(self)@, old(shared_struct_ids).map@, *old(shared_next_struct)),
                exprs_view(es@),
            ).es,
            reports(
                old(ctx)@,
                final(ctx)@,
                ce_list(cstate(old(self)@, old(shared_struct_ids).map@, *old(shared_next_struct)), exprs_view(es@)).ds,
            ),
        decreases es, 1nat,
    {
        broadcast use lemma_exprs_view, lemma_mexprs_view;

        let ghost s0 = cstate(self@, shared_struct_ids.map@, *shared_next_struct);
        let ghost ev = exprs_view(es@);
        let ghost o0 = out@;
        let ghost c0 = ctx@;
        let mut r: Vec<MirExpr> = Vec::new();
        let mut i: usize = 0;
        proof {
            assert(ev.take(0) =~= Seq::<SExpr>::empty());
            assert(mstmts_view(o0) + Seq::<MStmt>::empty() =~= mstmts_view(o0));
            lemma_reports_none(c0);
            lemma_ce_list_prefix_ok(s0, ev, 0);
        }
        while i < es.len()
            invariant
                i <= es@.len(),
                ev == exprs_view(es@),
                ev.len() == es@.len(),
                ce_list(s0, ev).st.ok,
                cstate(self@, shared_struct_ids.map@, *shared_next_struct) == ce_list(s0, ev.take(i as int)).st,
                mstmts_view(out@) == mstmts_view(o0) + ce_list(s0, ev.take(i as int)).out,
                mexprs_view(r@) == ce_list(s0, ev.take(i as int)).es,
                reports(c0, ctx@, ce_list(s0, ev.take(i as int)).ds),
            decreases es@.len() - i,
        {
            proof {
                assert(decreases_to!(es => es@[i as int]));
                assert(ev.take(i as int + 1).drop_last() =~= ev.take(i as int));
                lemma_exprs_view(es@);
                assert(exprs_view(es@)[i as int] == expr_view(es@[i as int]));
                assert(ev.take(i as int + 1).last() == es@[i as int]@);
                lemma_ce_list_prefix_ok(s0, ev, i as int + 1);
            }
            let ghost p = ce_list(s0, ev.take(i as int));
            let ghost o1 = out@;
            let ghost c1 = ctx@;
            let ghost r1 = r@;
            let x = self.convert_expr(&es[i], out, shared_struct_ids, shared_next_struct, ctx);
            r.push(x);
            proof {
                let q = ce(p.st, es@[i as int]@);
                lemma_reports_trans(c0, c1, ctx@, p.ds, q.ds);
                assert(r@.drop_last() =~= r1);
                assert(mstmts_view(o0) + p.out + q.out =~= mstmts_view(o0) + (p.out + q.out));
            }
            i = i + 1;
        }
        proof {
            assert(ev.take(es@.len() as int) =~= ev);
        }
        r
    }

    /// Converts the fields of a struct literal left to right.
    fn convert_fields(
        &mut self,
        fs: &Vec<(FieldId, HirExpr)>,
        out: &mut Vec<MirStmt>,
        shared_struct_ids: &mut StructIdMap,
        shared_next_struct: &mut u32,
        ctx: &mut PassContext,
    ) -> (r: Vec<(FieldId, MirExpr)>)
        requires
            ce_fields(cstate(old(self)@, old(shared_struct_ids).map@, *old(shared_next_struct)), fields_view(fs@)).st.ok,
        ensures
            ce_fields(cstate(old(self)@, old(shared_struct_ids).map@, *old(shared_next_struct)), fields_view(fs@)).st
                == cstate(final(self)@, final(shared_struct_ids).map@, *final(shared_next_struct)),
            mstmts_view(final(out)@) == mstmts_view(old(out)@) + ce_fields(
                cstate(old(self)@, old(shared_struct_ids).map@, *old(shared_next_struct)),
                fields_view(fs@),
            ).out,
            mfields_view(r@) == ce_fields(
                cstate(old(self)@, old(shared_struct_ids).map@, *old(shared_next_struct)),
                fields_view(fs@),
            ).fs,
            reports(
                old(ctx)@,
                final(ctx)@,
                ce_fields(cstate(old(self)@, old(shared_struct_ids).map@, *old(shared_next_struct)), fields_view(fs@)).ds,
            ),
        decreases fs, 1nat,
    {
        broadcast use lemma_fields_view, lemma_mfields_view;

        let ghost s0 = cstate(self@, shared_struct_ids.map@, *shared_next_struct);
        let ghost fv = fields_view(fs@);
        let ghost o0 = out@;
        let ghost c0 = ctx@;
        let mut r: Vec<(FieldId, MirExpr)> = Vec::new();
        let mut i: usize = 0;
        proof {
            assert(fv.take(0) =~= Seq::<(FieldId, SExpr)>::empty());
            assert(mstmts_view(o0) + Seq::<MStmt>::empty() =~= mstmts_view(o0));
            lemma_reports_none(c0);
            lemma_ce_fields_prefix_ok(s0, fv, 0);
        }
        while i < fs.len()
            invariant
                i <= fs@.len(),
                fv == fields_view(fs@),
                fv.len() == fs@.len(),
                ce_fields(s0, fv).st.ok,
                cstate(self@, shared_struct_ids.map@, *shared_next_struct) == ce_fields(s0, fv.take(i as int)).st,
                mstmts_view(out@) == mstmts_view(o0) + ce_fields(s0, fv.take(i as int)).out,
                mfields_view(r@) == ce_fields(s0, fv.take(i as int)).fs,
                reports(c0, ctx@, ce_fields(s0, fv.take(i as int)).ds),
            decreases fs@.len() - i,
        {
            proof {
                assert(decreases_to!(fs => fs@[i as int]));
                assert(decreases_to!(fs@[i as int] => fs@[i as int].1));
                assert(fv.take(i as int + 1).drop_last() =~= fv.take(i as int));
                lemma_fields_view(fs@);
                assert(fields_view(fs@)[i as int] == (fs@[i as int].0, expr_view(fs@[i as int].1)));
                assert(fv.take(i as int + 1).last() == (fs@[i as int].0, fs@[i as int].1@));
                lemma_ce_fields_prefix_ok(s0, fv, i as int + 1);
            }
            let ghost p = ce_fields(s0, fv.take(i as int));
            let ghost c1 = ctx@;
            let ghost r1 = r@;
            let (fid, fe) = &fs[i];
            let x = self.convert_expr(fe, out, shared_struct_ids, shared_next_struct, ctx);
            r.push((*fid, x));
            proof {
                let q = ce(p.st, fs@[i as int].1@);
                lemma_reports_trans(c0, c1, ctx@, p.ds, q.ds);
                assert(r@.drop_last() =~= r1);
                assert(mstmts_view(o0) + p.out + q.out =~= mstmts_view(o0) + (p.out + q.out));
            }
            i = i + 1;
        }
        proof {
            assert(fv.take(fs@.len() as int) =~= fv);
        }
        r
    }

    /// The base of a place; a value that is no place is first stored in a
    /// fresh temporary.
    fn materialize_place_base(
        &mut self,
        e: MirExpr,
        out: &mut Vec<MirStmt>,
        Ghost(sh): Ghost<Map<u32, u32>>,
        Ghost(ns): Ghost<u32>,
    ) -> (b: MirPlaceBase)
        requires
            to_base(cstate(old(self)@, sh, ns), e@).0.ok,
        ensures
            to_base(cstate(old(self)@, sh, ns), e@).0 == cstate(final(self)@, sh, ns),
            mstmts_view(final(out)@) == mstmts_view(old(out)@) + to_base(cstate(old(self)@, sh, ns), e@).1,
            mbase_view(b) == to_base(cstate(old(self)@, sh, ns), e@).2,
        decreases e,
    {
        let ghost s0 = cstate(self@, sh, ns);
        let ghost o0 = out@;
        match e {
            MirExpr::Local(id) => {
                assert(mstmts_view(o0) + Seq::<MStmt>::empty() =~= mstmts_view(o0));
                MirPlaceBase::Local(id)
            },
            MirExpr::Field { base, field, ty } => {
                let inner = self.materialize_place_base(*base, out, Ghost(sh), Ghost(ns));
                MirPlaceBase::Field { base: Box::new(inner), field, ty }
            },
            MirExpr::Index { base, index, ty } => {
                assert(mstmts_view(o0) + Seq::<MStmt>::empty() =~= mstmts_view(o0));
                MirPlaceBase::Index { base, index, ty }
            },
            other => {
                let ghost ov = other@;
                let temp = self.fresh_local();
                self.push_temp_local(temp, TypeId(0));
                emit(out, MirStmt::Let { local: temp, ty: TypeId(0), init: Some(other), mutable: false });
                assert(mstmts_view(out@) =~= mstmts_view(o0) + to_base(s0, ov).1);
                MirPlaceBase::Local(temp)
            },
        }
    }

    /// The place an assignment writes, or `None` with an error when the
    /// target is no place.
    fn mir_expr_to_place(
        &mut self,
        e: MirExpr,
        out: &mut Vec<MirStmt>,
        ctx: &mut PassContext,
        Ghost(sh): Ghost<Map<u32, u32>>,
        Ghost(ns): Ghost<u32>,
    ) -> (p: Option<MirPlace>)
        requires
            to_place(cstate(old(self)@, sh, ns), e@).0.ok,
        ensures
            to_place(cstate(old(self)@, sh, ns), e@).0 == cstate(final(self)@, sh, ns),
            mstmts_view(final(out)@) == mstmts_view(old(out)@) + to_place(cstate(old(self)@, sh, ns), e@).1,
            opt_place_view(p) == to_place(cstate(old(self)@, sh, ns), e@).2,
            reports(old(ctx)@, final(ctx)@, to_place(cstate(old(self)@, sh, ns), e@).3),
    {
        let ghost o0 = out@;
        proof {
            lemma_reports_none(ctx@);
        }
        match e {
            MirExpr::Local(id) => {
                assert(mstmts_view(o0) + Seq::<MStmt>::empty() =~= mstmts_view(o0));
                Some(MirPlace::Local { id })
            },
            MirExpr::Field { base, field, ty } => {
                let b = self.materialize_place_base(*base, out, Ghost(sh), Ghost(ns));
                Some(MirPlace::Field { base: Box::new(b), field, ty })
            },
            MirExpr::Index { base, index, ty } => {
                assert(mstmts_view(o0) + Seq::<MStmt>::empty() =~= mstmts_view(o0));
                Some(MirPlace::Index { base, index, ty })
            },
            _ => {
                report_error(ctx, "P0006", "expression is not a valid assignment target");
                assert(mstmts_view(o0) + Seq::<MStmt>::empty() =~= mstmts_view(o0));
                None
            },
        }
    }
}

} // verus!
