//! Running the async lowering a second time changes nothing.

use vstd::prelude::*;

use crate::hir::expr::{SCallee, SExpr};
use crate::hir::program::HirImport;
use crate::hir::stmt::{SCase, SCatch, SClass, SDecl, SFunction, SStmt};
use crate::ids::{FieldId, SymbolId};
use crate::passes::lower_async::{
    async_lowering, async_symbols, decl_shadows, inl, is_promise_resolve, ra, ra_fields, ra_list, ra_opt, rd, rds, rf,
    rfs, rs, rs_cases, rs_list, shadows_promise, strip,
};
use crate::tables::{all_distinct, interned, law_intern_keeps_earlier, law_intern_then_resolve, lemma_index_of_distinct};

verus! {

/// Whether `x` is a call of `Promise.resolve` with one argument, which
/// `strip` removes.
pub open spec fn resolve_call(x: SExpr, p: SymbolId, r: SymbolId) -> bool {
    match x {
        SExpr::Call { callee: SCallee::Indirect(f), args, .. } => args.len() == 1 && is_promise_resolve(*f, p, r),
        _ => false,
    }
}

proof fn lemma_strip_stops(x: SExpr, p: SymbolId, r: SymbolId)
    ensures
        !resolve_call(strip(x, p, r).0, p, r),
    decreases x,
{
    match x {
        SExpr::Call { callee: SCallee::Indirect(f), args, .. } => if args.len() == 1 && is_promise_resolve(*f, p, r) {
            assert(decreases_to!(x => args[0]));
            lemma_strip_stops(args[0], p, r);
        },
        _ => {},
    }
}

proof fn lemma_ra_list_len(s: Seq<SExpr>, p: SymbolId, r: SymbolId, can: bool)
    ensures
        ra_list(s, p, r, can).0.len() == s.len(),
    decreases s.len(),
{
    if s.len() > 0 {
        lemma_ra_list_len(s.drop_last(), p, r, can);
    }
}

proof fn lemma_ra_keeps_call(y: SExpr, p: SymbolId, r: SymbolId, can: bool)
    ensures
        resolve_call(ra(y, p, r, can).0, p, r) == resolve_call(y, p, r),
{
    match y {
        SExpr::Call { callee: SCallee::Indirect(f), args, ty } => {
            lemma_ra_list_len(args, p, r, can);
            let g = ra(*f, p, r, can).0;
            assert(ra(y, p, r, can).0 == SExpr::Call {
                callee: SCallee::Indirect(Box::new(g)),
                args: ra_list(args, p, r, can).0,
                ty,
            });
            match *f {
                SExpr::Field { owner, field, field_name, ty: fty } => {
                    let o = *owner;
                    assert(g == SExpr::Field { owner: Box::new(ra(o, p, r, can).0), field, field_name, ty: fty });
                    match o {
                        SExpr::Global { .. } => {
                            assert(ra(o, p, r, can).0 == o);
                        },
                        _ => {
                            assert(!(ra(o, p, r, can).0 is Global));
                        },
                    }
                    assert(is_promise_resolve(g, p, r) == is_promise_resolve(*f, p, r));
                },
                _ => {
                    assert(!(g is Field));
                    assert(!is_promise_resolve(g, p, r));
                },
            }
        },
        _ => {},
    }
}

proof fn lemma_ra_idem(e: SExpr, p: SymbolId, r: SymbolId, can: bool)
    ensures
        ra(ra(e, p, r, can).0, p, r, can).0 == ra(e, p, r, can).0,
        ra(ra(e, p, r, can).0, p, r, can).1 == 0,
    decreases e, 1nat,
{
    match e {
        SExpr::Await { expr, ty } => {
            crate::passes::lower_async::lemma_strip(*expr, p, r);
            let s = if can {
                strip(*expr, p, r).0
            } else {
                *expr
            };
            assert(decreases_to!(e => *expr));
            lemma_ra_idem(s, p, r, can);
            let x = ra(s, p, r, can).0;
            if can {
                lemma_strip_stops(*expr, p, r);
                lemma_ra_keeps_call(s, p, r, can);
                assert(strip(x, p, r) == (x, 0nat));
            }
        },
        SExpr::Field { owner, .. } => {
            lemma_ra_idem(*owner, p, r, can);
        },
        SExpr::Index { owner, index, .. } => {
            lemma_ra_idem(*owner, p, r, can);
            lemma_ra_idem(*index, p, r, can);
        },
        SExpr::Call { callee, args, .. } => {
            match callee {
                SCallee::Indirect(inner) => {
                    lemma_ra_idem(*inner, p, r, can);
                },
                _ => {},
            }
            lemma_ra_list_idem(args, p, r, can);
        },
        SExpr::Binary { lhs, rhs, .. } => {
            lemma_ra_idem(*lhs, p, r, can);
            lemma_ra_idem(*rhs, p, r, can);
        },
        SExpr::Unary { expr, .. } => {
            lemma_ra_idem(*expr, p, r, can);
        },
        SExpr::StructLiteral { fields, .. } => {
            lemma_ra_fields_idem(fields, p, r, can);
        },
        SExpr::ArrayLiteral { elements, .. } => {
            lemma_ra_list_idem(elements, p, r, can);
        },
        SExpr::Closure { captures, .. } => {
            lemma_ra_list_idem(captures, p, r, can);
        },
        SExpr::Yield { expr, .. } => match expr {
            Some(b) => {
                lemma_ra_idem(*b, p, r, can);
            },
            None => {},
        },
        SExpr::Template { tag, parts, .. } => {
            match tag {
                Some(b) => {
                    lemma_ra_idem(*b, p, r, can);
                },
                None => {},
            }
            lemma_ra_list_idem(parts, p, r, can);
        },
        SExpr::New { callee, args, .. } => {
            lemma_ra_idem(*callee, p, r, can);
            lemma_ra_list_idem(args, p, r, can);
        },
        SExpr::OptionalChain { base, .. } => {
            lemma_ra_idem(*base, p, r, can);
        },
        SExpr::TypeAssertion { expr, .. } => {
            lemma_ra_idem(*expr, p, r, can);
        },
        SExpr::Assignment { target, value, .. } => {
            lemma_ra_idem(*target, p, r, can);
            lemma_ra_idem(*value, p, r, can);
        },
        _ => {},
    }
}

proof fn lemma_ra_list_idem(s: Seq<SExpr>, p: SymbolId, r: SymbolId, can: bool)
    ensures
        ra_list(ra_list(s, p, r, can).0, p, r, can).0 == ra_list(s, p, r, can).0,
        ra_list(ra_list(s, p, r, can).0, p, r, can).1 == 0,
    decreases s, 0nat,
{
    if s.len() > 0 {
        lemma_ra_list_idem(s.drop_last(), p, r, can);
        lemma_ra_idem(s.last(), p, r, can);
        let xs = ra_list(s.drop_last(), p, r, can).0;
        let x = ra(s.last(), p, r, can).0;
        assert(xs.push(x).drop_last() =~= xs);
    }
}

proof fn lemma_ra_fields_idem(s: Seq<(FieldId, SExpr)>, p: SymbolId, r: SymbolId, can: bool)
    ensures
        ra_fields(ra_fields(s, p, r, can).0, p, r, can).0 == ra_fields(s, p, r, can).0,
        ra_fields(ra_fields(s, p, r, can).0, p, r, can).1 == 0,
    decreases s, 0nat,
{
    if s.len() > 0 {
        lemma_ra_fields_idem(s.drop_last(), p, r, can);
        assert(decreases_to!(s => s.last()));
        lemma_ra_idem(s.last().1, p, r, can);
        let xs = ra_fields(s.drop_last(), p, r, can).0;
        let x = (s.last().0, ra(s.last().1, p, r, can).0);
        assert(xs.push(x).drop_last() =~= xs);
    }
}

proof fn lemma_ra_opt_idem(o: Option<SExpr>, p: SymbolId, r: SymbolId, can: bool)
    ensures
        ra_opt(ra_opt(o, p, r, can).0, p, r, can).0 == ra_opt(o, p, r, can).0,
        ra_opt(ra_opt(o, p, r, can).0, p, r, can).1 == 0,
{
    match o {
        Some(e) => lemma_ra_idem(e, p, r, can),
        None => {},
    }
}

proof fn lemma_rs_idem(st: SStmt, p: SymbolId, r: SymbolId, can: bool)
    ensures
        rs(rs(st, p, r, can).0, p, r, can).0 == rs(st, p, r, can).0,
        rs(rs(st, p, r, can).0, p, r, can).1 == inl(0),
    decreases st,
{
    match st {
        SStmt::Block(v) => {
            lemma_rs_list_idem(v, p, r, can);
        },
        SStmt::Let { init, .. } => {
            lemma_ra_opt_idem(init, p, r, can);
        },
        SStmt::Expr { expr } => {
            lemma_ra_idem(expr, p, r, can);
        },
        SStmt::Return { value } => {
            lemma_ra_opt_idem(value, p, r, can);
        },
        SStmt::Throw { expr } => {
            lemma_ra_idem(expr, p, r, can);
        },
        SStmt::If { cond, then, otherwise } => {
            lemma_ra_idem(cond, p, r, can);
            lemma_rs_idem(*then, p, r, can);
            match otherwise {
                Some(b) => {
                    lemma_rs_idem(*b, p, r, can);
                },
                None => {},
            }
        },
        SStmt::While { cond, body } => {
            lemma_ra_idem(cond, p, r, can);
            lemma_rs_idem(*body, p, r, can);
        },
        SStmt::DoWhile { body, cond } => {
            lemma_ra_idem(cond, p, r, can);
            lemma_rs_idem(*body, p, r, can);
        },
        SStmt::ForOf { iter, body, .. } => {
            lemma_ra_idem(iter, p, r, can);
            lemma_rs_idem(*body, p, r, can);
        },
        SStmt::ForIn { iter, body, .. } => {
            lemma_ra_idem(iter, p, r, can);
            lemma_rs_idem(*body, p, r, can);
        },
        SStmt::Switch { disc, cases } => {
            lemma_ra_idem(disc, p, r, can);
            lemma_rs_cases_idem(cases, p, r, can);
        },
        SStmt::Try { body, catch, finally } => {
            lemma_rs_idem(*body, p, r, can);
            match catch {
                Some(c) => {
                    assert(decreases_to!(st => c));
                    lemma_rs_idem(*c.body, p, r, can);
                },
                None => {},
            }
            match finally {
                Some(fb) => {
                    lemma_rs_idem(*fb, p, r, can);
                },
                None => {},
            }
        },
        SStmt::Decl(d) => {
            lemma_rd_idem(d, p, r, can);
        },
        _ => {},
    }
}

proof fn lemma_rs_list_idem(s: Seq<SStmt>, p: SymbolId, r: SymbolId, can: bool)
    ensures
        rs_list(rs_list(s, p, r, can).0, p, r, can).0 == rs_list(s, p, r, can).0,
        rs_list(rs_list(s, p, r, can).0, p, r, can).1 == inl(0),
    decreases s,
{
    if s.len() > 0 {
        lemma_rs_list_idem(s.drop_last(), p, r, can);
        lemma_rs_idem(s.last(), p, r, can);
        let xs = rs_list(s.drop_last(), p, r, can).0;
        let x = rs(s.last(), p, r, can).0;
        assert(xs.push(x).drop_last() =~= xs);
    }
}

proof fn lemma_rs_cases_idem(s: Seq<SCase>, p: SymbolId, r: SymbolId, can: bool)
    ensures
        rs_cases(rs_cases(s, p, r, can).0, p, r, can).0 == rs_cases(s, p, r, can).0,
        rs_cases(rs_cases(s, p, r, can).0, p, r, can).1 == inl(0),
    decreases s,
{
    if s.len() > 0 {
        lemma_rs_cases_idem(s.drop_last(), p, r, can);
        assert(decreases_to!(s => s.last()));
        lemma_ra_opt_idem(s.last().test, p, r, can);
        lemma_rs_list_idem(s.last().body, p, r, can);
        let xs = rs_cases(s.drop_last(), p, r, can).0;
        let x = SCase { test: ra_opt(s.last().test, p, r, can).0, body: rs_list(s.last().body, p, r, can).0 };
        assert(xs.push(x).drop_last() =~= xs);
    }
}

proof fn lemma_rf_idem(f: SFunction, p: SymbolId, r: SymbolId, can: bool)
    ensures
        rf(rf(f, p, r, can).0, p, r, can).0 == rf(f, p, r, can).0,
        rf(rf(f, p, r, can).0, p, r, can).1 == inl(0),
    decreases f,
{
    lemma_rs_list_idem(f.body, p, r, can);
}

proof fn lemma_rfs_idem(s: Seq<SFunction>, p: SymbolId, r: SymbolId, can: bool)
    ensures
        rfs(rfs(s, p, r, can).0, p, r, can).0 == rfs(s, p, r, can).0,
        rfs(rfs(s, p, r, can).0, p, r, can).1 == inl(0),
    decreases s,
{
    if s.len() > 0 {
        lemma_rfs_idem(s.drop_last(), p, r, can);
        lemma_rf_idem(s.last(), p, r, can);
        let xs = rfs(s.drop_last(), p, r, can).0;
        let x = rf(s.last(), p, r, can).0;
        assert(xs.push(x).drop_last() =~= xs);
    }
}

proof fn lemma_rd_idem(d: SDecl, p: SymbolId, r: SymbolId, can: bool)
    ensures
        rd(rd(d, p, r, can).0, p, r, can).0 == rd(d, p, r, can).0,
        rd(rd(d, p, r, can).0, p, r, can).1 == inl(0),
        decl_shadows(rd(d, p, r, can).0, p) == decl_shadows(d, p),
    decreases d,
{
    match d {
        SDecl::Function(f) => {
            lemma_rf_idem(f, p, r, can && f.name != p);
        },
        SDecl::Class(cl) => {
            lemma_rfs_idem(cl.methods, p, r, can && cl.name != p);
        },
        SDecl::Global { init, .. } => {
            lemma_ra_opt_idem(init, p, r, can);
        },
        SDecl::Namespace { name, members } => {
            lemma_rds_idem(members, p, r, can && name != p);
        },
        _ => {},
    }
}

proof fn lemma_rds_idem(s: Seq<SDecl>, p: SymbolId, r: SymbolId, can: bool)
    ensures
        rds(rds(s, p, r, can).0, p, r, can).0 == rds(s, p, r, can).0,
        rds(rds(s, p, r, can).0, p, r, can).1 == inl(0),
        rds(s, p, r, can).0.len() == s.len(),
        forall|i: int| 0 <= i < s.len() ==> #[trigger] rds(s, p, r, can).0[i] == rd(s[i], p, r, can).0,
    decreases s,
{
    if s.len() > 0 {
        lemma_rds_idem(s.drop_last(), p, r, can);
        lemma_rd_idem(s.last(), p, r, can);
        let xs = rds(s.drop_last(), p, r, can).0;
        let x = rd(s.last(), p, r, can).0;
        assert(xs.push(x).drop_last() =~= xs);
    }
}

/// Running the async lowering again, on the declarations it produced and
/// with the symbol table it left, changes no declaration and counts neither
/// a removed call nor a dropped async record. A symbol table's `lemma_wf`
/// gives the premise.
pub proof fn law_lower_async_idempotent(decls: Seq<SDecl>, imports: Seq<HirImport>, syms: Seq<Seq<char>>)
    requires
        all_distinct(syms),
    ensures
        async_lowering(async_lowering(decls, imports, syms).0, imports, async_symbols(syms).0).0 == async_lowering(
            decls,
            imports,
            syms,
        ).0,
        async_lowering(async_lowering(decls, imports, syms).0, imports, async_symbols(syms).0).1 == inl(0),
{
    let (s1, i1) = interned(syms, "Promise"@);
    let (s2, i2) = interned(s1, "resolve"@);
    law_intern_then_resolve(syms, "Promise"@);
    law_intern_then_resolve(s1, "resolve"@);
    law_intern_keeps_earlier(s1, "resolve"@);
    assert(s2[i1] == "Promise"@);
    lemma_index_of_distinct(s2, "Promise"@, i1);
    lemma_index_of_distinct(s2, "resolve"@, i2);
    assert(interned(s2, "Promise"@) == (s2, i1));
    assert(interned(s2, "resolve"@) == (s2, i2));
    let (_, p, r) = async_symbols(syms);
    assert(async_symbols(s2) == (s2, p, r));
    let can = !shadows_promise(decls, imports, p);
    let out = rds(decls, p, r, can).0;
    lemma_rds_idem(decls, p, r, can);
    if shadows_promise(decls, imports, p) {
        if exists|i: int| 0 <= i < decls.len() && decl_shadows(#[trigger] decls[i], p) {
            let i = choose|i: int| 0 <= i < decls.len() && decl_shadows(#[trigger] decls[i], p);
            lemma_rd_idem(decls[i], p, r, can);
            assert(decl_shadows(out[i], p));
        }
    }
    if shadows_promise(out, imports, p) {
        if exists|i: int| 0 <= i < out.len() && decl_shadows(#[trigger] out[i], p) {
            let i = choose|i: int| 0 <= i < out.len() && decl_shadows(#[trigger] out[i], p);
            lemma_rd_idem(decls[i], p, r, can);
            assert(decl_shadows(decls[i], p));
        }
    }
    assert(shadows_promise(out, imports, p) == shadows_promise(decls, imports, p));
}

/// Where no call may be inlined, the rewriting leaves an expression as it
/// is and counts nothing.
pub proof fn law_expr_kept_without_inlining(e: SExpr, p: SymbolId, r: SymbolId)
    ensures
        ra(e, p, r, false) == (e, 0nat),
    decreases e, 1nat,
{
    match e {
        SExpr::Await { expr, .. } => {
            law_expr_kept_without_inlining(*expr, p, r);
        },
        SExpr::Field { owner, .. } => {
            law_expr_kept_without_inlining(*owner, p, r);
        },
        SExpr::Index { owner, index, .. } => {
            law_expr_kept_without_inlining(*owner, p, r);
            law_expr_kept_without_inlining(*index, p, r);
        },
        SExpr::Call { callee, args, .. } => {
            match callee {
                SCallee::Indirect(inner) => {
                    law_expr_kept_without_inlining(*inner, p, r);
                },
                _ => {},
            }
            lemma_list_kept(args, p, r);
        },
        SExpr::Binary { lhs, rhs, .. } => {
            law_expr_kept_without_inlining(*lhs, p, r);
            law_expr_kept_without_inlining(*rhs, p, r);
        },
        SExpr::Unary { expr, .. } => {
            law_expr_kept_without_inlining(*expr, p, r);
        },
        SExpr::StructLiteral { fields, .. } => {
            lemma_fields_kept(fields, p, r);
        },
        SExpr::ArrayLiteral { elements, .. } => {
            lemma_list_kept(elements, p, r);
        },
        SExpr::Closure { captures, .. } => {
            lemma_list_kept(captures, p, r);
        },
        SExpr::Yield { expr, .. } => match expr {
            Some(b) => {
                law_expr_kept_without_inlining(*b, p, r);
            },
            None => {},
        },
        SExpr::Template { tag, parts, .. } => {
            match tag {
                Some(b) => {
                    law_expr_kept_without_inlining(*b, p, r);
                },
                None => {},
            }
            lemma_list_kept(parts, p, r);
        },
        SExpr::New { callee, args, .. } => {
            law_expr_kept_without_inlining(*callee, p, r);
            lemma_list_kept(args, p, r);
        },
        SExpr::OptionalChain { base, .. } => {
            law_expr_kept_without_inlining(*base, p, r);
        },
        SExpr::TypeAssertion { expr, .. } => {
            law_expr_kept_without_inlining(*expr, p, r);
        },
        SExpr::Assignment { target, value, .. } => {
            law_expr_kept_without_inlining(*target, p, r);
            law_expr_kept_without_inlining(*value, p, r);
        },
        _ => {},
    }
}

proof fn lemma_list_kept(s: Seq<SExpr>, p: SymbolId, r: SymbolId)
    ensures
        ra_list(s, p, r, false) == (s, 0nat),
    decreases s, 0nat,
{
    if s.len() > 0 {
        lemma_list_kept(s.drop_last(), p, r);
        law_expr_kept_without_inlining(s.last(), p, r);
        assert(s.drop_last().push(s.last()) =~= s);
    }
}

proof fn lemma_fields_kept(s: Seq<(FieldId, SExpr)>, p: SymbolId, r: SymbolId)
    ensures
        ra_fields(s, p, r, false) == (s, 0nat),
    decreases s, 0nat,
{
    if s.len() > 0 {
        lemma_fields_kept(s.drop_last(), p, r);
        assert(decreases_to!(s => s.last()));
        law_expr_kept_without_inlining(s.last().1, p, r);
        assert(s.drop_last().push((s.last().0, s.last().1)) =~= s);
    }
}

proof fn lemma_rs_no_inline(st: SStmt, p: SymbolId, r: SymbolId)
    ensures
        rs(st, p, r, false).1.inlined == 0,
    decreases st,
{
    match st {
        SStmt::Block(v) => lemma_rs_list_no_inline(v, p, r),
        SStmt::Let { init, .. } => match init {
            Some(e) => law_expr_kept_without_inlining(e, p, r),
            None => {},
        },
        SStmt::Expr { expr } => law_expr_kept_without_inlining(expr, p, r),
        SStmt::Return { value } => match value {
            Some(e) => law_expr_kept_without_inlining(e, p, r),
            None => {},
        },
        SStmt::Throw { expr } => law_expr_kept_without_inlining(expr, p, r),
        SStmt::If { cond, then, otherwise } => {
            law_expr_kept_without_inlining(cond, p, r);
            lemma_rs_no_inline(*then, p, r);
            match otherwise {
                Some(b) => lemma_rs_no_inline(*b, p, r),
                None => {},
            }
        },
        SStmt::While { cond, body } => {
            law_expr_kept_without_inlining(cond, p, r);
            lemma_rs_no_inline(*body, p, r);
        },
        SStmt::DoWhile { body, cond } => {
            law_expr_kept_without_inlining(cond, p, r);
            lemma_rs_no_inline(*body, p, r);
        },
        SStmt::ForOf { iter, body, .. } => {
            law_expr_kept_without_inlining(iter, p, r);
            lemma_rs_no_inline(*body, p, r);
        },
        SStmt::ForIn { iter, body, .. } => {
            law_expr_kept_without_inlining(iter, p, r);
            lemma_rs_no_inline(*body, p, r);
        },
        SStmt::Switch { disc, cases } => {
            law_expr_kept_without_inlining(disc, p, r);
            lemma_rs_cases_no_inline(cases, p, r);
        },
        SStmt::Try { body, catch, finally } => {
            lemma_rs_no_inline(*body, p, r);
            match catch {
                Some(c) => {
                    assert(decreases_to!(st => c));
                    lemma_rs_no_inline(*c.body, p, r);
                },
                None => {},
            }
            match finally {
                Some(fb) => lemma_rs_no_inline(*fb, p, r),
                None => {},
            }
        },
        SStmt::Decl(d) => lemma_rd_no_inline(d, p, r),
        _ => {},
    }
}

proof fn lemma_rs_list_no_inline(s: Seq<SStmt>, p: SymbolId, r: SymbolId)
    ensures
        rs_list(s, p, r, false).1.inlined == 0,
    decreases s,
{
    if s.len() > 0 {
        lemma_rs_list_no_inline(s.drop_last(), p, r);
        lemma_rs_no_inline(s.last(), p, r);
    }
}

proof fn lemma_rs_cases_no_inline(s: Seq<SCase>, p: SymbolId, r: SymbolId)
    ensures
        rs_cases(s, p, r, false).1.inlined == 0,
    decreases s,
{
    if s.len() > 0 {
        lemma_rs_cases_no_inline(s.drop_last(), p, r);
        assert(decreases_to!(s => s.last()));
        match s.last().test {
            Some(e) => law_expr_kept_without_inlining(e, p, r),
            None => {},
        }
        lemma_rs_list_no_inline(s.last().body, p, r);
    }
}

proof fn lemma_rfs_no_inline(s: Seq<SFunction>, p: SymbolId, r: SymbolId)
    ensures
        rfs(s, p, r, false).1.inlined == 0,
    decreases s,
{
    if s.len() > 0 {
        lemma_rfs_no_inline(s.drop_last(), p, r);
        lemma_rs_list_no_inline(s.last().body, p, r);
        assert(rf(s.last(), p, r, false).1.inlined == 0);
    }
}

proof fn lemma_rd_no_inline(d: SDecl, p: SymbolId, r: SymbolId)
    ensures
        rd(d, p, r, false).1.inlined == 0,
    decreases d,
{
    match d {
        SDecl::Function(f) => lemma_rs_list_no_inline(f.body, p, r),
        SDecl::Class(cl) => lemma_rfs_no_inline(cl.methods, p, r),
        SDecl::Global { init, .. } => match init {
            Some(e) => law_expr_kept_without_inlining(e, p, r),
            None => {},
        },
        SDecl::Namespace { members, .. } => lemma_rds_no_inline(members, p, r),
        _ => {},
    }
}

proof fn lemma_rds_no_inline(s: Seq<SDecl>, p: SymbolId, r: SymbolId)
    ensures
        rds(s, p, r, false).1.inlined == 0,
    decreases s,
{
    if s.len() > 0 {
        lemma_rds_no_inline(s.drop_last(), p, r);
        lemma_rd_no_inline(s.last(), p, r);
    }
}

/// When the module binds the name `Promise` itself, the lowering removes
/// no call; every expression is kept as it is (`law_expr_kept_without_inlining`).
pub proof fn law_shadowed_promise_inlines_nothing(decls: Seq<SDecl>, imports: Seq<HirImport>, syms: Seq<Seq<char>>)
    requires
        shadows_promise(decls, imports, async_symbols(syms).1),
    ensures
        async_lowering(decls, imports, syms).1.inlined == 0,
{
    let (_, p, r) = async_symbols(syms);
    lemma_rds_no_inline(decls, p, r);
}

} // verus!
