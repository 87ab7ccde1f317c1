//! Converting statements and blocks of the high-level IR to the mid-level IR.

use vstd::prelude::*;

use crate::hir::stmt::{HirStmt, SStmt, lemma_stmts_view, stmt_view, stmts_view};
use crate::ids::{LocalId, SymbolId, TypeId};
use crate::mir::body::{
    MirBlock, MirExpr, MirPlace, MirStmt, MExpr, MPlace, MStmt, copy_mexpr, copy_mstmt, copy_mstmts,
    lemma_mstmts_view, lemma_mstmts_view_concat, mexpr_view, mstmt_view, mstmts_view,
};
use crate::mir::decl::MirLocalDecl;
use crate::mir::ops::BinaryOp;
use crate::passes::context::PassContext;
use crate::passes::hir_to_mir::convert_expr::{emit, report_error};
use crate::passes::hir_to_mir::converter::{ConverterView, ExprConverter, StructIdMap};
use crate::passes::hir_to_mir::spec::{
    CState, StmtOut, ce, cs, cs_compound, cs_list, cstate, lemma_ce_ok, lemma_cs_list_ok, lemma_cs_ok,
    lemma_reports_none, lemma_reports_trans, loop_local, no_stmt, not_yet, rbc, rbc_one, reports, st_fresh,
    st_map, stmt_done,
};

verus! {

/// Moves the statements of `more` to the end of `out`.
fn append_stmts(out: &mut Vec<MirStmt>, more: &mut Vec<MirStmt>)
    ensures
        mstmts_view(final(out)@) == mstmts_view(old(out)@) + mstmts_view(old(more)@),
{
    let ghost a = out@;
    let ghost b = more@;
    out.append(more);
    proof {
        lemma_mstmts_view_concat(a, b);
    }
}

/// The statements of a loop body with its `break` and `continue`
/// rewritten for the loop that wraps it (see `rbc`); `our_depth` counts the
/// loops between the body and the statements.
fn rewrite_break_continue_for_loop(stmts: &Vec<MirStmt>, is_break_local: LocalId, our_depth: usize) -> (r: Vec<
    MirStmt,
>)
    ensures
        mstmts_view(r@) == rbc(mstmts_view(stmts@), is_break_local, our_depth == 0),
    decreases stmts, 1nat,
{
    let ghost v = mstmts_view(stmts@);
    let mut r: Vec<MirStmt> = Vec::new();
    let mut i: usize = 0;
    proof {
        lemma_mstmts_view(stmts@);
        assert(v.take(0) =~= Seq::<MStmt>::empty());
    }
    while i < stmts.len()
        invariant
            i <= stmts@.len(),
            v == mstmts_view(stmts@),
            v.len() == stmts@.len(),
            forall|k: int| 0 <= k < stmts@.len() ==> #[trigger] v[k] == mstmt_view(stmts@[k]),
            mstmts_view(r@) == rbc(v.take(i as int), is_break_local, our_depth == 0),
        decreases stmts@.len() - i,
    {
        proof {
            assert(decreases_to!(stmts => stmts@[i as int]));
            assert(v.take(i as int + 1).drop_last() =~= v.take(i as int));
            assert(v.take(i as int + 1).last() == v[i as int]);
        }
        let mut piece = rewrite_one(&stmts[i], is_break_local, our_depth);
        let ghost a = r@;
        let ghost b = piece@;
        r.append(&mut piece);
        proof {
            lemma_mstmts_view_concat(a, b);
        }
        i = i + 1;
    }
    proof {
        assert(v.take(stmts@.len() as int) =~= v);
    }
    r
}

/// One statement rewritten as `rbc_one` says.
fn rewrite_one(s: &MirStmt, is_break_local: LocalId, our_depth: usize) -> (r: Vec<MirStmt>)
    ensures
        mstmts_view(r@) == rbc_one(s@, is_break_local, our_depth == 0),
    decreases s, 0nat,
{
    proof {
        broadcast use lemma_mstmts_view;
    }
    let mut r: Vec<MirStmt> = Vec::new();
    let ghost sv = s@;
    match s {
        MirStmt::Continue => {
            if our_depth == 0 {
                r.push(MirStmt::Break);
            } else {
                r.push(MirStmt::Continue);
            }
        },
        MirStmt::Break => {
            if our_depth == 0 {
                r.push(MirStmt::Assign { target: MirPlace::Local { id: is_break_local }, value: MirExpr::Bool(true) });
                r.push(MirStmt::Break);
            } else {
                r.push(MirStmt::Break);
            }
        },
        MirStmt::While { cond, body } => {
            proof {
                assert(decreases_to!(s => body.stmts));
            }
            let nb = rewrite_break_continue_for_loop(&body.stmts, is_break_local, our_depth.saturating_add(1));
            r.push(MirStmt::While { cond: copy_mexpr(cond), body: MirBlock { stmts: nb } });
        },
        MirStmt::If { cond, then_block, else_block } => {
            proof {
                assert(decreases_to!(s => then_block.stmts));
            }
            let nt = rewrite_break_continue_for_loop(&then_block.stmts, is_break_local, our_depth);
            let ne = match else_block {
                Some(b) => {
                    proof {
                        assert(decreases_to!(s => b.stmts));
                    }
                    Some(MirBlock { stmts: rewrite_break_continue_for_loop(&b.stmts, is_break_local, our_depth) })
                },
                None => None,
            };
            r.push(MirStmt::If { cond: copy_mexpr(cond), then_block: MirBlock { stmts: nt }, else_block: ne });
        },
        MirStmt::ForOf { item, iterable, body } => {
            proof {
                assert(decreases_to!(s => body.stmts));
            }
            let nb = rewrite_break_continue_for_loop(&body.stmts, is_break_local, our_depth.saturating_add(1));
            r.push(MirStmt::ForOf { item: *item, iterable: copy_mexpr(iterable), body: MirBlock { stmts: nb } });
        },
        MirStmt::ForIn { key, object, body } => {
            proof {
                assert(decreases_to!(s => body.stmts));
            }
            let nb = rewrite_break_continue_for_loop(&body.stmts, is_break_local, our_depth.saturating_add(1));
            r.push(MirStmt::ForIn { key: *key, object: copy_mexpr(object), body: MirBlock { stmts: nb } });
        },
        other => {
            r.push(copy_mstmt(other));
        },
    }
    proof {
        assert(mstmts_view(r@) =~= rbc_one(sv, is_break_local, our_depth == 0));
    }
    r
}

proof fn lemma_cs_list_prefix_ok(s: CState, ss: Seq<SStmt>, i: int)
    requires
        0 <= i <= ss.len(),
        cs_list(s, ss).st.ok,
    ensures
        cs_list(s, ss.take(i)).st.ok,
    decreases ss.len(),
{
    if i < ss.len() {
        let p = ss.drop_last();
        lemma_cs_ok(cs_list(s, p).st, ss.last());
        assert(ss.take(i) =~= p.take(i));
        lemma_cs_list_prefix_ok(s, p, i);
    } else {
        assert(ss.take(i) =~= ss);
    }
}

impl ExprConverter {
    /// Converts a statement, appending its statements to `out` and the
    /// locals it declares to `final_locals`.
    pub fn convert_stmt_into(
        &mut self,
        s: &HirStmt,
        out: &mut Vec<MirStmt>,
        final_locals: &mut Vec<MirLocalDecl>,
        shared_struct_ids: &mut StructIdMap,
        shared_next_struct: &mut u32,
        ctx: &mut PassContext,
    )
        requires
            cs(cstate(old(self)@, old(shared_struct_ids).map@, *old(shared_next_struct)), s@).st.ok,
        ensures
            stmt_done(
                cs(cstate(old(self)@, old(shared_struct_ids).map@, *old(shared_next_struct)), s@),
                cstate(final(self)@, final(shared_struct_ids).map@, *final(shared_next_struct)),
                mstmts_view(old(out)@),
                mstmts_view(final(out)@),
                old(final_locals)@,
                final(final_locals)@,
                old(ctx)@,
                final(ctx)@,
            ),
        decreases s, 2nat,
    {
        let ghost s0 = cstate(self@, shared_struct_ids.map@, *shared_next_struct);
        let ghost o0 = out@;
        let ghost l0 = final_locals@;
        let ghost c0 = ctx@;
        let ghost sv = s@;
        proof {
            lemma_reports_none(c0);
            assert(mstmts_view(o0) + Seq::<MStmt>::empty() =~= mstmts_view(o0));
            assert(l0 + Seq::<MirLocalDecl>::empty() =~= l0);
        }
        match s {
            HirStmt::Block(stmts) => {
                self.convert_stmts_into(stmts, out, final_locals, shared_struct_ids, shared_next_struct, ctx);
            },
            HirStmt::Expr { expr } => {
                let m = self.convert_expr(expr, out, shared_struct_ids, shared_next_struct, ctx);
                emit(out, MirStmt::Expr(m));
                proof {
                    assert(mstmts_view(out@) =~= mstmts_view(o0) + cs(s0, sv).out);
                }
            },
            HirStmt::Switch { .. } => {
                report_error(ctx, "P0005", "switch statement is not yet implemented in HIR→MIR");
            },
            HirStmt::Return { value } => {
                let v = match value {
                    Some(e) => Some(self.convert_expr(e, out, shared_struct_ids, shared_next_struct, ctx)),
                    None => None,
                };
                emit(out, MirStmt::Return(v));
                proof {
                    assert(mstmts_view(out@) =~= mstmts_view(o0) + cs(s0, sv).out);
                }
            },
            HirStmt::Break { .. } => {
                emit(out, MirStmt::Break);
                proof {
                    assert(mstmts_view(out@) =~= mstmts_view(o0) + cs(s0, sv).out);
                }
            },
            HirStmt::Continue { .. } => {
                emit(out, MirStmt::Continue);
                proof {
                    assert(mstmts_view(out@) =~= mstmts_view(o0) + cs(s0, sv).out);
                }
            },
            HirStmt::Throw { expr } => {
                let m = self.convert_expr(expr, out, shared_struct_ids, shared_next_struct, ctx);
                emit(out, MirStmt::Throw { error: m, error_ty: TypeId(0) });
                proof {
                    assert(mstmts_view(out@) =~= mstmts_view(o0) + cs(s0, sv).out);
                }
            },
            HirStmt::Try { .. } => {
                report_error(ctx, "P0005", "try statement is not yet implemented in HIR→MIR");
            },
            HirStmt::Decl(_) => {},
            HirStmt::Let { .. } => self.convert_let(s, out, final_locals, shared_struct_ids, shared_next_struct, ctx),
            HirStmt::If { .. } => self.convert_if(s, out, final_locals, shared_struct_ids, shared_next_struct, ctx),
            HirStmt::While { .. } => self.convert_while(s, out, final_locals, shared_struct_ids, shared_next_struct, ctx),
            HirStmt::DoWhile { .. } => self.convert_do_while(s, out, final_locals, shared_struct_ids, shared_next_struct, ctx),
            HirStmt::ForOf { .. } => self.convert_for_of(s, out, final_locals, shared_struct_ids, shared_next_struct, ctx),
            HirStmt::ForIn { .. } => self.convert_for_in(s, out, final_locals, shared_struct_ids, shared_next_struct, ctx),
        }
    }

    /// Converts a list of statements in order.
    fn convert_stmts_into(
        &mut self,
        stmts: &Vec<HirStmt>,
        out: &mut Vec<MirStmt>,
        final_locals: &mut Vec<MirLocalDecl>,
        shared_struct_ids: &mut StructIdMap,
        shared_next_struct: &mut u32,
        ctx: &mut PassContext,
    )
        requires
            cs_list(cstate(old(self)@, old(shared_struct_ids).map@, *old(shared_next_struct)), stmts_view(stmts@)).st.ok,
        ensures
            stmt_done(
                cs_list(cstate(old(self)@, old(shared_struct_ids).map@, *old(shared_next_struct)), stmts_view(stmts@)),
                cstate(final(self)@, final(shared_struct_ids).map@, *final(shared_next_struct)),
                mstmts_view(old(out)@),
                mstmts_view(final(out)@),
                old(final_locals)@,
                final(final_locals)@,
                old(ctx)@,
                final(ctx)@,
            ),
        decreases stmts, 2nat,
    {
        let ghost s0 = cstate(self@, shared_struct_ids.map@, *shared_next_struct);
        let ghost v = stmts_view(stmts@);
        let ghost o0 = out@;
        let ghost l0 = final_locals@;
        let ghost c0 = ctx@;
        let mut i: usize = 0;
        proof {
            lemma_stmts_view(stmts@);
            assert(v.take(0) =~= Seq::<SStmt>::empty());
            assert(mstmts_view(o0) + Seq::<MStmt>::empty() =~= mstmts_view(o0));
            assert(l0 + Seq::<MirLocalDecl>::empty() =~= l0);
            lemma_reports_none(c0);
            lemma_cs_list_prefix_ok(s0, v, 0);
        }
        while i < stmts.len()
            invariant
                i <= stmts@.len(),
                v == stmts_view(stmts@),
                v.len() == stmts@.len(),
                forall|k: int| 0 <= k < stmts@.len() ==> #[trigger] v[k] == stmt_view(stmts@[k]),
                cs_list(s0, v).st.ok,
                cstate(self@, shared_struct_ids.map@, *shared_next_struct) == cs_list(s0, v.take(i as int)).st,
                mstmts_view(out@) == mstmts_view(o0) + cs_list(s0, v.take(i as int)).out,
                final_locals@ == l0 + cs_list(s0, v.take(i as int)).locals,
                reports(c0, ctx@, cs_list(s0, v.take(i as int)).ds),
            decreases stmts@.len() - i,
        {
            proof {
                assert(decreases_to!(stmts => stmts@[i as int]));
                assert(v.take(i as int + 1).drop_last() =~= v.take(i as int));
                assert(v.take(i as int + 1).last() == v[i as int]);
                lemma_cs_list_prefix_ok(s0, v, i as int + 1);
            }
            let ghost p = cs_list(s0, v.take(i as int));
            let ghost c1 = ctx@;
            self.convert_stmt_into(&stmts[i], out, final_locals, shared_struct_ids, shared_next_struct, ctx);
            proof {
                let q = cs(p.st, v[i as int]);
                lemma_reports_trans(c0, c1, ctx@, p.ds, q.ds);
                assert(mstmts_view(o0) + p.out + q.out =~= mstmts_view(o0) + (p.out + q.out));
                assert(l0 + p.locals + q.locals =~= l0 + (p.locals + q.locals));
            }
            i = i + 1;
        }
        proof {
            assert(v.take(stmts@.len() as int) =~= v);
        }
    }

    /// Converts a statement into a block of its own.
    fn convert_stmt_block(
        &mut self,
        s: &HirStmt,
        shared_struct_ids: &mut StructIdMap,
        shared_next_struct: &mut u32,
        ctx: &mut PassContext,
    ) -> (r: (MirBlock, Vec<MirLocalDecl>))
        requires
            cs(cstate(old(self)@, old(shared_struct_ids).map@, *old(shared_next_struct)), s@).st.ok,
        ensures
            cs(cstate(old(self)@, old(shared_struct_ids).map@, *old(shared_next_struct)), s@).st
                == cstate(final(self)@, final(shared_struct_ids).map@, *final(shared_next_struct)),
            r.0@ == cs(cstate(old(self)@, old(shared_struct_ids).map@, *old(shared_next_struct)), s@).out,
            r.1@ == cs(cstate(old(self)@, old(shared_struct_ids).map@, *old(shared_next_struct)), s@).locals,
            reports(old(ctx)@, final(ctx)@, cs(cstate(old(self)@, old(shared_struct_ids).map@, *old(shared_next_struct)), s@).ds),
        decreases s, 3nat,
    {
        let mut block = MirBlock::new();
        let mut locals: Vec<MirLocalDecl> = Vec::new();
        let ghost o0 = block.stmts@;
        self.convert_stmt_into(s, &mut block.stmts, &mut locals, shared_struct_ids, shared_next_struct, ctx);
        proof {
            assert(mstmts_view(o0) == Seq::<MStmt>::empty());
            assert(Seq::<MStmt>::empty() + cs(cstate(old(self)@, old(shared_struct_ids).map@, *old(shared_next_struct)), s@).out
                =~= cs(cstate(old(self)@, old(shared_struct_ids).map@, *old(shared_next_struct)), s@).out);
            assert(Seq::<MirLocalDecl>::empty() + cs(cstate(old(self)@, old(shared_struct_ids).map@, *old(shared_next_struct)), s@).locals
                =~= cs(cstate(old(self)@, old(shared_struct_ids).map@, *old(shared_next_struct)), s@).locals);
        }
        (block, locals)
    }

    /// A `let`: the local gets its new id and name before its initializer is converted.
    fn convert_let(
        &mut self,
        s: &HirStmt,
        out: &mut Vec<MirStmt>,
        final_locals: &mut Vec<MirLocalDecl>,
        shared_struct_ids: &mut StructIdMap,
        shared_next_struct: &mut u32,
        ctx: &mut PassContext,
    )
        requires
            s is Let,
            cs_compound(cstate(old(self)@, old(shared_struct_ids).map@, *old(shared_next_struct)), s@).st.ok,
        ensures
            stmt_done(
                cs_compound(cstate(old(self)@, old(shared_struct_ids).map@, *old(shared_next_struct)), s@),
                cstate(final(self)@, final(shared_struct_ids).map@, *final(shared_next_struct)),
                mstmts_view(old(out)@),
                mstmts_view(final(out)@),
                old(final_locals)@,
                final(final_locals)@,
                old(ctx)@,
                final(ctx)@,
            ),
        decreases s, 0nat,
    {
        let ghost s0 = cstate(self@, shared_struct_ids.map@, *shared_next_struct);
        let ghost o0 = out@;
        let ghost l0 = final_locals@;
        let ghost c0 = ctx@;
        let ghost sv = s@;
        match s {
            HirStmt::Let { id, name, ty, init } => {
                let ghost (s1, n0) = st_map(s0, *id);
                proof {
                    match init {
                        Some(e) => lemma_ce_ok(CState { cv: ConverterView { names: s1.cv.names.insert(n0.0, name.0), ..s1.cv }, ..s1 }, e@),
                        None => {},
                    }
                }
                let new_id = self.map_local_id(*id);
                self.register_local_name(new_id, *name);
                final_locals.push(MirLocalDecl { id: new_id, name: *name, ty: *ty, mutable: false });
                let init_mir = match init {
                    Some(e) => Some(self.convert_expr(e, out, shared_struct_ids, shared_next_struct, ctx)),
                    None => None,
                };
                emit(out, MirStmt::Let { local: new_id, ty: *ty, init: init_mir, mutable: false });
                proof {
                    lemma_reports_none(c0);
                    assert(mstmts_view(out@) =~= mstmts_view(o0) + cs_compound(s0, sv).out);
                    assert(final_locals@ =~= l0 + cs_compound(s0, sv).locals);
                }
            },
            _ => {},
        }
    }

    /// An `if`: the condition, then each branch as a block of its own.
    fn convert_if(
        &mut self,
        s: &HirStmt,
        out: &mut Vec<MirStmt>,
        final_locals: &mut Vec<MirLocalDecl>,
        shared_struct_ids: &mut StructIdMap,
        shared_next_struct: &mut u32,
        ctx: &mut PassContext,
    )
        requires
            s is If,
            cs_compound(cstate(old(self)@, old(shared_struct_ids).map@, *old(shared_next_struct)), s@).st.ok,
        ensures
            stmt_done(
                cs_compound(cstate(old(self)@, old(shared_struct_ids).map@, *old(shared_next_struct)), s@),
                cstate(final(self)@, final(shared_struct_ids).map@, *final(shared_next_struct)),
                mstmts_view(old(out)@),
                mstmts_view(final(out)@),
                old(final_locals)@,
                final(final_locals)@,
                old(ctx)@,
                final(ctx)@,
            ),
        decreases s, 0nat,
    {
        let ghost s0 = cstate(self@, shared_struct_ids.map@, *shared_next_struct);
        let ghost o0 = out@;
        let ghost l0 = final_locals@;
        let ghost c0 = ctx@;
        let ghost sv = s@;
        match s {
            HirStmt::If { cond, then, otherwise } => {
                let ghost r = ce(s0, cond@);
                let ghost t = cs(r.st, then@);
                proof {
                    match otherwise {
                        Some(o) => lemma_cs_ok(t.st, o@),
                        None => {},
                    }
                    lemma_cs_ok(r.st, then@);
                }
                let cond_mir = self.convert_expr(cond, out, shared_struct_ids, shared_next_struct, ctx);
                let ghost c1 = ctx@;
                let (then_mir, mut then_locals) = self.convert_stmt_block(then, shared_struct_ids, shared_next_struct, ctx);
                let ghost c2 = ctx@;
                final_locals.append(&mut then_locals);
                let else_mir = match otherwise {
                    Some(b) => {
                        let (m, mut l) = self.convert_stmt_block(b, shared_struct_ids, shared_next_struct, ctx);
                        final_locals.append(&mut l);
                        Some(m)
                    },
                    None => None,
                };
                emit(out, MirStmt::If { cond: cond_mir, then_block: then_mir, else_block: else_mir });
                proof {
                    lemma_reports_trans(c0, c1, c2, r.ds, t.ds);
                    match otherwise {
                        Some(o) => {
                            lemma_reports_trans(c0, c2, ctx@, r.ds + t.ds, cs(t.st, o@).ds);
                        },
                        None => {},
                    }
                    assert(mstmts_view(out@) =~= mstmts_view(o0) + cs_compound(s0, sv).out);
                    assert(final_locals@ =~= l0 + cs_compound(s0, sv).locals);
                }
            },
            _ => {},
        }
    }

    /// A `while` loop: the condition's statements run before each test; the body runs in an inner loop whose `break` sets a flag and whose `continue` leaves the inner loop.
    #[verifier::rlimit(50)]
    #[verifier::spinoff_prover]
    fn convert_while(
        &mut self,
        s: &HirStmt,
        out: &mut Vec<MirStmt>,
        final_locals: &mut Vec<MirLocalDecl>,
        shared_struct_ids: &mut StructIdMap,
        shared_next_struct: &mut u32,
        ctx: &mut PassContext,
    )
        requires
            s is While,
            cs_compound(cstate(old(self)@, old(shared_struct_ids).map@, *old(shared_next_struct)), s@).st.ok,
        ensures
            stmt_done(
                cs_compound(cstate(old(self)@, old(shared_struct_ids).map@, *old(shared_next_struct)), s@),
                cstate(final(self)@, final(shared_struct_ids).map@, *final(shared_next_struct)),
                mstmts_view(old(out)@),
                mstmts_view(final(out)@),
                old(final_locals)@,
                final(final_locals)@,
                old(ctx)@,
                final(ctx)@,
            ),
        decreases s, 0nat,
    {
        let ghost s0 = cstate(self@, shared_struct_ids.map@, *shared_next_struct);
        let ghost o0 = out@;
        let ghost l0 = final_locals@;
        let ghost c0 = ctx@;
        let ghost sv = s@;
        match s {
            HirStmt::While { cond, body } => {
                let ghost r = ce(s0, cond@);
                let ghost b = cs(r.st, body@);
                proof {
                    lemma_cs_ok(r.st, body@);
                }
                let mut cond_stmts: Vec<MirStmt> = Vec::new();
                let cond_mir = self.convert_expr(cond, &mut cond_stmts, shared_struct_ids, shared_next_struct, ctx);
                let ghost c1 = ctx@;
                proof {
                    assert(Seq::<MStmt>::empty() + r.out =~= r.out);
                }
                let mut cond_copy = copy_mstmts(&cond_stmts);
                append_stmts(out, &mut cond_copy);
                let (body_mir, mut body_locals) = self.convert_stmt_block(body, shared_struct_ids, shared_next_struct, ctx);
                final_locals.append(&mut body_locals);
                let is_break = self.fresh_local();
                final_locals.push(MirLocalDecl { id: is_break, name: SymbolId(0), ty: TypeId(0), mutable: true });
                let ghost o1 = out@;
                proof {
                    assert(mstmts_view(o1) == mstmts_view(o0) + r.out);
                    assert(body_mir@ == b.out);
                }
                let mut inner_stmts = rewrite_break_continue_for_loop(&body_mir.stmts, is_break, 0);
                emit(&mut inner_stmts, MirStmt::Break);
                let ghost inner_v = mstmts_view(inner_stmts@);
                proof {
                    assert(inner_v == rbc(b.out, is_break, true).push(MStmt::Break));
                }
                let mut loop_body: Vec<MirStmt> = Vec::new();
                proof {
                    assert(mstmts_view(loop_body@) == Seq::<MStmt>::empty());
                }
                emit(&mut loop_body, MirStmt::While { cond: MirExpr::Bool(true), body: MirBlock { stmts: inner_stmts } });
                emit(
                    &mut loop_body,
                    MirStmt::If { cond: MirExpr::Local(is_break), then_block: MirBlock::with(MirStmt::Break), else_block: None },
                );
                append_stmts(&mut loop_body, &mut cond_stmts);
                let ghost lb = mstmts_view(loop_body@);
                proof {
                    assert(lb =~= seq![
                        MStmt::While { cond: MExpr::Bool(true), body: inner_v },
                        MStmt::If { cond: MExpr::Local(is_break), then_block: seq![MStmt::Break], else_block: None },
                    ] + r.out);
                }
                emit(out, MirStmt::Let { local: is_break, ty: TypeId(0), init: Some(MirExpr::Bool(false)), mutable: true });
                emit(out, MirStmt::While { cond: cond_mir, body: MirBlock { stmts: loop_body } });
                proof {
                    lemma_reports_trans(c0, c1, ctx@, r.ds, b.ds);
                    let expected = r.out + seq![
                        MStmt::Let { local: is_break, ty: TypeId(0), init: Some(MExpr::Bool(false)), mutable: true },
                        MStmt::While { cond: r.e, body: lb },
                    ];
                    assert(mstmts_view(out@) =~= mstmts_view(o0) + expected);
                    assert(cs_compound(s0, sv).out =~= expected);
                    assert(final_locals@ =~= l0 + cs_compound(s0, sv).locals);
                }
            },
            _ => {},
        }
    }

    /// A `do ... while` loop: a flag makes the first test pass; otherwise as for `while`.
    fn convert_do_while(
        &mut self,
        s: &HirStmt,
        out: &mut Vec<MirStmt>,
        final_locals: &mut Vec<MirLocalDecl>,
        shared_struct_ids: &mut StructIdMap,
        shared_next_struct: &mut u32,
        ctx: &mut PassContext,
    )
        requires
            s is DoWhile,
            cs_compound(cstate(old(self)@, old(shared_struct_ids).map@, *old(shared_next_struct)), s@).st.ok,
        ensures
            stmt_done(
                cs_compound(cstate(old(self)@, old(shared_struct_ids).map@, *old(shared_next_struct)), s@),
                cstate(final(self)@, final(shared_struct_ids).map@, *final(shared_next_struct)),
                mstmts_view(old(out)@),
                mstmts_view(final(out)@),
                old(final_locals)@,
                final(final_locals)@,
                old(ctx)@,
                final(ctx)@,
            ),
        decreases s, 0nat,
    {
        let ghost s0 = cstate(self@, shared_struct_ids.map@, *shared_next_struct);
        let ghost o0 = out@;
        let ghost l0 = final_locals@;
        let ghost c0 = ctx@;
        let ghost sv = s@;
        match s {
            HirStmt::DoWhile { body, cond } => {
                let ghost b = cs(s0, body@);
                let ghost r = ce(b.st, cond@);
                proof {
                    lemma_ce_ok(b.st, cond@);
                }
                let (body_mir, mut body_locals) = self.convert_stmt_block(body, shared_struct_ids, shared_next_struct, ctx);
                let ghost c1 = ctx@;
                final_locals.append(&mut body_locals);
                let mut cond_stmts: Vec<MirStmt> = Vec::new();
                let cond_mir = self.convert_expr(cond, &mut cond_stmts, shared_struct_ids, shared_next_struct, ctx);
                proof {
                    assert(Seq::<MStmt>::empty() + r.out =~= r.out);
                    assert(cond_mir@ == r.e);
                }
                let first_id = self.fresh_local();
                final_locals.push(MirLocalDecl { id: first_id, name: SymbolId(0), ty: TypeId(0), mutable: true });
                let is_break = self.fresh_local();
                final_locals.push(MirLocalDecl { id: is_break, name: SymbolId(0), ty: TypeId(0), mutable: true });
                let mut inner_stmts: Vec<MirStmt> = Vec::new();
                proof {
                    assert(mstmts_view(inner_stmts@) == Seq::<MStmt>::empty());
                    assert(body_mir@ == b.out);
                }
                emit(&mut inner_stmts, MirStmt::Assign { target: MirPlace::Local { id: first_id }, value: MirExpr::Bool(false) });
                let mut rewritten = rewrite_break_continue_for_loop(&body_mir.stmts, is_break, 0);
                append_stmts(&mut inner_stmts, &mut rewritten);
                emit(&mut inner_stmts, MirStmt::Break);
                let ghost inner_v = mstmts_view(inner_stmts@);
                proof {
                    assert(inner_v =~= seq![MStmt::Assign { target: MPlace::Local { id: first_id }, value: MExpr::Bool(false) }]
                        + rbc(b.out, is_break, true).push(MStmt::Break));
                }
                let continue_cond = MirExpr::Binary {
                    op: BinaryOp::Or,
                    left: Box::new(MirExpr::Local(first_id)),
                    right: Box::new(cond_mir),
                    ty: TypeId(0),
                };
                let mut loop_body: Vec<MirStmt> = Vec::new();
                proof {
                    assert(mstmts_view(loop_body@) == Seq::<MStmt>::empty());
                }
                emit(&mut loop_body, MirStmt::While { cond: MirExpr::Bool(true), body: MirBlock { stmts: inner_stmts } });
                emit(
                    &mut loop_body,
                    MirStmt::If { cond: MirExpr::Local(is_break), then_block: MirBlock::with(MirStmt::Break), else_block: None },
                );
                append_stmts(&mut loop_body, &mut cond_stmts);
                let ghost lb = mstmts_view(loop_body@);
                proof {
                    assert(lb =~= seq![
                        MStmt::While { cond: MExpr::Bool(true), body: inner_v },
                        MStmt::If { cond: MExpr::Local(is_break), then_block: seq![MStmt::Break], else_block: None },
                    ] + r.out);
                }
                emit(out, MirStmt::Let { local: first_id, ty: TypeId(0), init: Some(MirExpr::Bool(true)), mutable: true });
                emit(out, MirStmt::Let { local: is_break, ty: TypeId(0), init: Some(MirExpr::Bool(false)), mutable: true });
                let ghost cc = continue_cond@;
                proof {
                    assert(mexpr_view(MirExpr::Local(first_id)) == MExpr::Local(first_id));
                    assert(cc == MExpr::Binary {
                        op: BinaryOp::Or,
                        left: Box::new(MExpr::Local(first_id)),
                        right: Box::new(r.e),
                        ty: TypeId(0),
                    });
                }
                emit(out, MirStmt::While { cond: continue_cond, body: MirBlock { stmts: loop_body } });
                proof {
                    lemma_reports_trans(c0, c1, ctx@, b.ds, r.ds);
                    let expected = seq![
                        MStmt::Let { local: first_id, ty: TypeId(0), init: Some(MExpr::Bool(true)), mutable: true },
                        MStmt::Let { local: is_break, ty: TypeId(0), init: Some(MExpr::Bool(false)), mutable: true },
                        MStmt::While { cond: cc, body: lb },
                    ];
                    assert(mstmts_view(out@) =~= mstmts_view(o0) + expected);
                    assert(cs_compound(s0, sv).out =~= expected);
                    assert(final_locals@ =~= l0 + cs_compound(s0, sv).locals);
                }
            },
            _ => {},
        }
    }

    /// A `for ... of` loop: the iterable, the binding's new id, then the body.
    fn convert_for_of(
        &mut self,
        s: &HirStmt,
        out: &mut Vec<MirStmt>,
        final_locals: &mut Vec<MirLocalDecl>,
        shared_struct_ids: &mut StructIdMap,
        shared_next_struct: &mut u32,
        ctx: &mut PassContext,
    )
        requires
            s is ForOf,
            cs_compound(cstate(old(self)@, old(shared_struct_ids).map@, *old(shared_next_struct)), s@).st.ok,
        ensures
            stmt_done(
                cs_compound(cstate(old(self)@, old(shared_struct_ids).map@, *old(shared_next_struct)), s@),
                cstate(final(self)@, final(shared_struct_ids).map@, *final(shared_next_struct)),
                mstmts_view(old(out)@),
                mstmts_view(final(out)@),
                old(final_locals)@,
                final(final_locals)@,
                old(ctx)@,
                final(ctx)@,
            ),
        decreases s, 0nat,
    {
        let ghost s0 = cstate(self@, shared_struct_ids.map@, *shared_next_struct);
        let ghost o0 = out@;
        let ghost l0 = final_locals@;
        let ghost c0 = ctx@;
        let ghost sv = s@;
        match s {
            HirStmt::ForOf { binding, iter, body } => {
                let ghost r = ce(s0, iter@);
                let ghost (s1, nb0) = st_map(r.st, *binding);
                proof {
                    lemma_cs_ok(s1, body@);
                }
                let iter_mir = self.convert_expr(iter, out, shared_struct_ids, shared_next_struct, ctx);
                let ghost c1 = ctx@;
                let new_binding = self.map_local_id(*binding);
                final_locals.push(MirLocalDecl { id: new_binding, name: SymbolId(0), ty: TypeId(0), mutable: false });
                let (body_mir, mut body_locals) = self.convert_stmt_block(body, shared_struct_ids, shared_next_struct, ctx);
                final_locals.append(&mut body_locals);
                emit(out, MirStmt::ForOf { item: new_binding, iterable: iter_mir, body: body_mir });
                proof {
                    lemma_reports_trans(c0, c1, ctx@, r.ds, cs(s1, body@).ds);
                    assert(mstmts_view(out@) =~= mstmts_view(o0) + cs_compound(s0, sv).out);
                    assert(final_locals@ =~= l0 + cs_compound(s0, sv).locals);
                }
            },
            _ => {},
        }
    }

    /// A `for ... in` loop: the object, the binding's new id, then the body.
    fn convert_for_in(
        &mut self,
        s: &HirStmt,
        out: &mut Vec<MirStmt>,
        final_locals: &mut Vec<MirLocalDecl>,
        shared_struct_ids: &mut StructIdMap,
        shared_next_struct: &mut u32,
        ctx: &mut PassContext,
    )
        requires
            s is ForIn,
            cs_compound(cstate(old(self)@, old(shared_struct_ids).map@, *old(shared_next_struct)), s@).st.ok,
        ensures
            stmt_done(
                cs_compound(cstate(old(self)@, old(shared_struct_ids).map@, *old(shared_next_struct)), s@),
                cstate(final(self)@, final(shared_struct_ids).map@, *final(shared_next_struct)),
                mstmts_view(old(out)@),
                mstmts_view(final(out)@),
                old(final_locals)@,
                final(final_locals)@,
                old(ctx)@,
                final(ctx)@,
            ),
        decreases s, 0nat,
    {
        let ghost s0 = cstate(self@, shared_struct_ids.map@, *shared_next_struct);
        let ghost o0 = out@;
        let ghost l0 = final_locals@;
        let ghost c0 = ctx@;
        let ghost sv = s@;
        match s {
            HirStmt::ForIn { binding, iter, body } => {
                let ghost r = ce(s0, iter@);
                let ghost (s1, nb0) = st_map(r.st, *binding);
                proof {
                    lemma_cs_ok(s1, body@);
                }
                let iter_mir = self.convert_expr(iter, out, shared_struct_ids, shared_next_struct, ctx);
                let ghost c1 = ctx@;
                let new_binding = self.map_local_id(*binding);
                final_locals.push(MirLocalDecl { id: new_binding, name: SymbolId(0), ty: TypeId(0), mutable: false });
                let (body_mir, mut body_locals) = self.convert_stmt_block(body, shared_struct_ids, shared_next_struct, ctx);
                final_locals.append(&mut body_locals);
                emit(out, MirStmt::ForIn { key: new_binding, object: iter_mir, body: body_mir });
                proof {
                    lemma_reports_trans(c0, c1, ctx@, r.ds, cs(s1, body@).ds);
                    assert(mstmts_view(out@) =~= mstmts_view(o0) + cs_compound(s0, sv).out);
                    assert(final_locals@ =~= l0 + cs_compound(s0, sv).locals);
                }
            },
            _ => {},
        }
    }

}

/// A list of statements of the high-level IR.
#[derive(Debug, PartialEq, Eq, Hash)]
pub struct HirBlock(pub Vec<HirStmt>);

impl std::ops::Deref for HirBlock {
    type Target = [HirStmt];

    fn deref(&self) -> (r: &[HirStmt])
        ensures
            r@ == self.0@,
    {
        self.0.as_slice()
    }
}

/// The converter after a block: its temporaries handed out.
pub open spec fn after_block(v: ConverterView) -> ConverterView {
    ConverterView { temps: Seq::empty(), ..v }
}

impl ExprConverter {
    /// Converts the statements of `block` in order.
    fn convert_slice_into(
        &mut self,
        block: &[HirStmt],
        out: &mut Vec<MirStmt>,
        final_locals: &mut Vec<MirLocalDecl>,
        shared_struct_ids: &mut StructIdMap,
        shared_next_struct: &mut u32,
        ctx: &mut PassContext,
    )
        requires
            cs_list(cstate(old(self)@, old(shared_struct_ids).map@, *old(shared_next_struct)), stmts_view(block@)).st.ok,
        ensures
            stmt_done(
                cs_list(cstate(old(self)@, old(shared_struct_ids).map@, *old(shared_next_struct)), stmts_view(block@)),
                cstate(final(self)@, final(shared_struct_ids).map@, *final(shared_next_struct)),
                mstmts_view(old(out)@),
                mstmts_view(final(out)@),
                old(final_locals)@,
                final(final_locals)@,
                old(ctx)@,
                final(ctx)@,
            ),
    {
        let ghost s0 = cstate(self@, shared_struct_ids.map@, *shared_next_struct);
        let ghost v = stmts_view(block@);
        let ghost o0 = out@;
        let ghost l0 = final_locals@;
        let ghost c0 = ctx@;
        let mut i: usize = 0;
        proof {
            lemma_stmts_view(block@);
            assert(v.take(0) =~= Seq::<SStmt>::empty());
            assert(mstmts_view(o0) + Seq::<MStmt>::empty() =~= mstmts_view(o0));
            assert(l0 + Seq::<MirLocalDecl>::empty() =~= l0);
            lemma_reports_none(c0);
            lemma_cs_list_prefix_ok(s0, v, 0);
        }
        while i < block.len()
            invariant
                i <= block@.len(),
                v == stmts_view(block@),
                v.len() == block@.len(),
                forall|k: int| 0 <= k < block@.len() ==> #[trigger] v[k] == stmt_view(block@[k]),
                cs_list(s0, v).st.ok,
                cstate(self@, shared_struct_ids.map@, *shared_next_struct) == cs_list(s0, v.take(i as int)).st,
                mstmts_view(out@) == mstmts_view(o0) + cs_list(s0, v.take(i as int)).out,
                final_locals@ == l0 + cs_list(s0, v.take(i as int)).locals,
                reports(c0, ctx@, cs_list(s0, v.take(i as int)).ds),
            decreases block@.len() - i,
        {
            proof {
                assert(v.take(i as int + 1).drop_last() =~= v.take(i as int));
                assert(v.take(i as int + 1).last() == v[i as int]);
                lemma_cs_list_prefix_ok(s0, v, i as int + 1);
            }
            let ghost p = cs_list(s0, v.take(i as int));
            let ghost c1 = ctx@;
            self.convert_stmt_into(&block[i], out, final_locals, shared_struct_ids, shared_next_struct, ctx);
            proof {
                let q = cs(p.st, v[i as int]);
                lemma_reports_trans(c0, c1, ctx@, p.ds, q.ds);
                assert(mstmts_view(o0) + p.out + q.out =~= mstmts_view(o0) + (p.out + q.out));
                assert(l0 + p.locals + q.locals =~= l0 + (p.locals + q.locals));
            }
            i = i + 1;
        }
        proof {
            assert(v.take(block@.len() as int) =~= v);
        }
    }

    /// Converts a block with struct ids of its own: its statements, then
    /// the locals it declares followed by the temporaries it made, which the
    /// converter hands out.
    pub fn convert_block(&mut self, block: &[HirStmt], ctx: &mut PassContext) -> (r: (MirBlock, Vec<MirLocalDecl>))
        requires
            cs_list(cstate(old(self)@, Map::empty(), 0), stmts_view(block@)).st.ok,
        ensures
            final(self)@ == after_block(cs_list(cstate(old(self)@, Map::empty(), 0), stmts_view(block@)).st.cv),
            r.0@ == cs_list(cstate(old(self)@, Map::empty(), 0), stmts_view(block@)).out,
            r.1@ == cs_list(cstate(old(self)@, Map::empty(), 0), stmts_view(block@)).locals + cs_list(
                cstate(old(self)@, Map::empty(), 0),
                stmts_view(block@),
            ).st.cv.temps,
            reports(old(ctx)@, final(ctx)@, cs_list(cstate(old(self)@, Map::empty(), 0), stmts_view(block@)).ds),
    {
        let mut shared_struct_ids = StructIdMap::new();
        let mut shared_next_struct: u32 = 0;
        self.convert_block_with_shared_struct_ids(block, &mut shared_struct_ids, &mut shared_next_struct, ctx)
    }

    /// Converts a block whose struct ids are shared with other blocks
    /// through `shared_struct_ids` and `shared_next_struct`: its statements,
    /// then the locals it declares followed by the temporaries it made,
    /// which the converter hands out.
    pub fn convert_block_with_shared_struct_ids(
        &mut self,
        block: &[HirStmt],
        shared_struct_ids: &mut StructIdMap,
        shared_next_struct: &mut u32,
        ctx: &mut PassContext,
    ) -> (r: (MirBlock, Vec<MirLocalDecl>))
        requires
            cs_list(cstate(old(self)@, old(shared_struct_ids).map@, *old(shared_next_struct)), stmts_view(block@)).st.ok,
        ensures
            final(self)@ == after_block(
                cs_list(cstate(old(self)@, old(shared_struct_ids).map@, *old(shared_next_struct)), stmts_view(block@)).st.cv,
            ),
            final(shared_struct_ids).map@ == cs_list(
                cstate(old(self)@, old(shared_struct_ids).map@, *old(shared_next_struct)),
                stmts_view(block@),
            ).st.shared,
            *final(shared_next_struct) == cs_list(
                cstate(old(self)@, old(shared_struct_ids).map@, *old(shared_next_struct)),
                stmts_view(block@),
            ).st.next_struct,
            r.0@ == cs_list(cstate(old(self)@, old(shared_struct_ids).map@, *old(shared_next_struct)), stmts_view(block@)).out,
            r.1@ == cs_list(cstate(old(self)@, old(shared_struct_ids).map@, *old(shared_next_struct)), stmts_view(block@)).locals
                + cs_list(cstate(old(self)@, old(shared_struct_ids).map@, *old(shared_next_struct)), stmts_view(block@)).st.cv.temps,
            reports(
                old(ctx)@,
                final(ctx)@,
                cs_list(cstate(old(self)@, old(shared_struct_ids).map@, *old(shared_next_struct)), stmts_view(block@)).ds,
            ),
    {
        let mut out = MirBlock::new();
        let mut final_locals: Vec<MirLocalDecl> = Vec::new();
        let mut interim: Vec<MirStmt> = Vec::new();
        self.convert_slice_into(block, &mut interim, &mut final_locals, shared_struct_ids, shared_next_struct, ctx);
        append_stmts(&mut out.stmts, &mut interim);
        let mut temps = self.take_temp_locals();
        final_locals.append(&mut temps);
        proof {
            let r = cs_list(cstate(old(self)@, old(shared_struct_ids).map@, *old(shared_next_struct)), stmts_view(block@));
            assert(mstmts_view(Seq::<MirStmt>::empty()) == Seq::<MStmt>::empty());
            assert(Seq::<MStmt>::empty() + (Seq::<MStmt>::empty() + r.out) =~= r.out);
            assert(Seq::<MirLocalDecl>::empty() + r.locals =~= r.locals);
        }
        (out, final_locals)
    }
}

} // verus!
