//! Simplifies async code: `await Promise.resolve(x)` becomes `await x`, and
//! the async bookkeeping attached to functions is dropped.

use vstd::prelude::*;

use crate::hir::expr::{HirCallee, HirExpr, SCallee, SExpr, expr_view, exprs_view, fields_view, lemma_exprs_view, lemma_fields_view};
use crate::hir::program::{HirImport, HirProgram};
use crate::hir::stmt::{
    case_view, HirCatchClause, HirClass, HirDecl, HirFunction, HirStmt, HirSwitchCase, SCase, SCatch, SClass,
    SDecl, SFunction, SStmt, cases_view, decl_view, decls_view, function_view, functions_view,
    lemma_cases_view, lemma_decls_view, lemma_functions_view, lemma_stmts_view, opt_expr_view,
    stmt_view, stmts_view,
};
use crate::ids::{FieldId, SymbolId, TypeId};
use crate::passes::context::PassContext;
use crate::tables::{StringTable, SymbolTable, can_intern, interned};
use crate::ty::TypeTable;

verus! {

/// What `lower_async` changed.
#[derive(Debug, Default, Clone, Copy, PartialEq, Eq, Structural, Hash)]
pub struct LowerAsyncStats {
    pub inlined_promise_resolve: usize,
    pub cleared_async_info: usize,
}

// ---------------------------------------------------------------------------
// Specification
// ---------------------------------------------------------------------------

/// Whether `f` is the member access `Promise.resolve`.
pub open spec fn is_promise_resolve(f: SExpr, p: SymbolId, r: SymbolId) -> bool {
    match f {
        SExpr::Field { owner, field_name, .. } => field_name == r && match *owner {
            SExpr::Global { name, .. } => name == p,
            _ => false,
        },
        _ => false,
    }
}

/// Strips nested `Promise.resolve(..)` calls with one argument, counting
/// them.
pub open spec fn strip(x: SExpr, p: SymbolId, r: SymbolId) -> (SExpr, nat)
    decreases x,
{
    match x {
        SExpr::Call { callee: SCallee::Indirect(f), args, .. } => if args.len() == 1 && is_promise_resolve(*f, p, r) {
            let (y, k) = strip(args[0], p, r);
            (y, k + 1)
        } else {
            (x, 0)
        },
        _ => (x, 0),
    }
}

/// What `strip` returns is the expression itself or a part of it.
pub proof fn lemma_strip(x: SExpr, p: SymbolId, r: SymbolId)
    ensures
        strip(x, p, r).0 == x || decreases_to!(x => strip(x, p, r).0),
    decreases x,
{
    match x {
        SExpr::Call { callee: SCallee::Indirect(f), args, .. } => if args.len() == 1 && is_promise_resolve(*f, p, r) {
            assert(decreases_to!(x => args[0]));
            lemma_strip(args[0], p, r);
        },
        _ => {},
    }
}

/// Rewrites `await Promise.resolve(e)` to `await e` everywhere in an
/// expression when `can` holds, with the number of calls removed.
pub open spec fn ra(e: SExpr, p: SymbolId, r: SymbolId, can: bool) -> (SExpr, nat)
    decreases e, 0nat,
{
    match e {
        SExpr::Await { expr, ty } => {
            let (s, k) = if can { strip(*expr, p, r) } else { (*expr, 0nat) };
            proof {
                lemma_strip(*expr, p, r);
            }
            let (x, k2) = ra(s, p, r, can);
            (SExpr::Await { expr: Box::new(x), ty }, k + k2)
        },
        SExpr::Field { owner, field, field_name, ty } => {
            let (o, k) = ra(*owner, p, r, can);
            (SExpr::Field { owner: Box::new(o), field, field_name, ty }, k)
        },
        SExpr::Index { owner, index, ty } => {
            let (o, k1) = ra(*owner, p, r, can);
            let (i, k2) = ra(*index, p, r, can);
            (SExpr::Index { owner: Box::new(o), index: Box::new(i), ty }, k1 + k2)
        },
        SExpr::Call { callee, args, ty } => {
            let (c, k1) = match callee {
                SCallee::Indirect(inner) => {
                    let (x, k) = ra(*inner, p, r, can);
                    (SCallee::Indirect(Box::new(x)), k)
                },
                other => (other, 0nat),
            };
            let (a, k2) = ra_list(args, p, r, can);
            (SExpr::Call { callee: c, args: a, ty }, k1 + k2)
        },
        SExpr::Binary { op, lhs, rhs, ty } => {
            let (l, k1) = ra(*lhs, p, r, can);
            let (rr, k2) = ra(*rhs, p, r, can);
            (SExpr::Binary { op, lhs: Box::new(l), rhs: Box::new(rr), ty }, k1 + k2)
        },
        SExpr::Unary { op, expr, ty } => {
            let (x, k) = ra(*expr, p, r, can);
            (SExpr::Unary { op, expr: Box::new(x), ty }, k)
        },
        SExpr::StructLiteral { ty, fields } => {
            let (f, k) = ra_fields(fields, p, r, can);
            (SExpr::StructLiteral { ty, fields: f }, k)
        },
        SExpr::ArrayLiteral { elements, ty } => {
            let (x, k) = ra_list(elements, p, r, can);
            (SExpr::ArrayLiteral { elements: x, ty }, k)
        },
        SExpr::Closure { id, captures, ty } => {
            let (x, k) = ra_list(captures, p, r, can);
            (SExpr::Closure { id, captures: x, ty }, k)
        },
        SExpr::Yield { expr, ty } => match expr {
            Some(b) => {
                let (x, k) = ra(*b, p, r, can);
                (SExpr::Yield { expr: Some(Box::new(x)), ty }, k)
            },
            None => (e, 0),
        },
        SExpr::Template { tag, parts, ty } => {
            let (t, k1) = match tag {
                Some(b) => {
                    let (x, k) = ra(*b, p, r, can);
                    (Some(Box::new(x)), k)
                },
                None => (None, 0nat),
            };
            let (x, k2) = ra_list(parts, p, r, can);
            (SExpr::Template { tag: t, parts: x, ty }, k1 + k2)
        },
        SExpr::New { callee, args, ty } => {
            let (c, k1) = ra(*callee, p, r, can);
            let (a, k2) = ra_list(args, p, r, can);
            (SExpr::New { callee: Box::new(c), args: a, ty }, k1 + k2)
        },
        SExpr::OptionalChain { base, ty } => {
            let (x, k) = ra(*base, p, r, can);
            (SExpr::OptionalChain { base: Box::new(x), ty }, k)
        },
        SExpr::TypeAssertion { expr, target } => {
            let (x, k) = ra(*expr, p, r, can);
            (SExpr::TypeAssertion { expr: Box::new(x), target }, k)
        },
        SExpr::Assignment { target, value, ty } => {
            let (t, k1) = ra(*target, p, r, can);
            let (v, k2) = ra(*value, p, r, can);
            (SExpr::Assignment { target: Box::new(t), value: Box::new(v), ty }, k1 + k2)
        },
        _ => (e, 0),
    }
}

/// `ra` on each element, in order, with the total count.
pub open spec fn ra_list(s: Seq<SExpr>, p: SymbolId, r: SymbolId, can: bool) -> (Seq<SExpr>, nat)
    decreases s, 0nat,
{
    if s.len() == 0 {
        (Seq::empty(), 0)
    } else {
        let (xs, k1) = ra_list(s.drop_last(), p, r, can);
        let (x, k2) = ra(s.last(), p, r, can);
        (xs.push(x), k1 + k2)
    }
}

/// `ra` on the value of each field, in order, with the total count.
pub open spec fn ra_fields(s: Seq<(FieldId, SExpr)>, p: SymbolId, r: SymbolId, can: bool) -> (Seq<(FieldId, SExpr)>, nat)
    decreases s, 0nat,
{
    if s.len() == 0 {
        (Seq::empty(), 0)
    } else {
        let (xs, k1) = ra_fields(s.drop_last(), p, r, can);
        let (x, k2) = ra(s.last().1, p, r, can);
        (xs.push((s.last().0, x)), k1 + k2)
    }
}

/// `ra` on an optional expression.
pub open spec fn ra_opt(o: Option<SExpr>, p: SymbolId, r: SymbolId, can: bool) -> (Option<SExpr>, nat) {
    match o {
        Some(e) => {
            let (x, k) = ra(e, p, r, can);
            (Some(x), k)
        },
        None => (None, 0),
    }
}

/// Counts of inlined calls and cleared async records.
pub struct Counts {
    pub inlined: nat,
    pub cleared: nat,
}

/// The sum of two counts.
pub open spec fn plus(a: Counts, b: Counts) -> Counts {
    Counts { inlined: a.inlined + b.inlined, cleared: a.cleared + b.cleared }
}

/// Counts with only inlined calls.
pub open spec fn inl(k: nat) -> Counts {
    Counts { inlined: k, cleared: 0 }
}

/// Rewrites a statement; nested declarations are rewritten as by `rd`.
pub open spec fn rs(s: SStmt, p: SymbolId, r: SymbolId, can: bool) -> (SStmt, Counts)
    decreases s, 0nat,
{
    match s {
        SStmt::Block(v) => {
            let (x, c) = rs_list(v, p, r, can);
            (SStmt::Block(x), c)
        },
        SStmt::Let { id, name, ty, init } => {
            let (x, k) = ra_opt(init, p, r, can);
            (SStmt::Let { id, name, ty, init: x }, inl(k))
        },
        SStmt::Expr { expr } => {
            let (x, k) = ra(expr, p, r, can);
            (SStmt::Expr { expr: x }, inl(k))
        },
        SStmt::Return { value } => {
            let (x, k) = ra_opt(value, p, r, can);
            (SStmt::Return { value: x }, inl(k))
        },
        SStmt::Throw { expr } => {
            let (x, k) = ra(expr, p, r, can);
            (SStmt::Throw { expr: x }, inl(k))
        },
        SStmt::If { cond, then, otherwise } => {
            let (c, k) = ra(cond, p, r, can);
            let (t, c1) = rs(*then, p, r, can);
            let (o, c2) = match otherwise {
                Some(b) => {
                    let (x, c) = rs(*b, p, r, can);
                    (Some(Box::new(x)), c)
                },
                None => (None, inl(0)),
            };
            (SStmt::If { cond: c, then: Box::new(t), otherwise: o }, plus(inl(k), plus(c1, c2)))
        },
        SStmt::While { cond, body } => {
            let (c, k) = ra(cond, p, r, can);
            let (b, c1) = rs(*body, p, r, can);
            (SStmt::While { cond: c, body: Box::new(b) }, plus(inl(k), c1))
        },
        SStmt::DoWhile { body, cond } => {
            let (b, c1) = rs(*body, p, r, can);
            let (c, k) = ra(cond, p, r, can);
            (SStmt::DoWhile { body: Box::new(b), cond: c }, plus(inl(k), c1))
        },
        SStmt::ForOf { binding, iter, body } => {
            let (i, k) = ra(iter, p, r, can);
            let (b, c1) = rs(*body, p, r, can);
            (SStmt::ForOf { binding, iter: i, body: Box::new(b) }, plus(inl(k), c1))
        },
        SStmt::ForIn { binding, iter, body } => {
            let (i, k) = ra(iter, p, r, can);
            let (b, c1) = rs(*body, p, r, can);
            (SStmt::ForIn { binding, iter: i, body: Box::new(b) }, plus(inl(k), c1))
        },
        SStmt::Switch { disc, cases } => {
            let (d, k) = ra(disc, p, r, can);
            let (cs, c1) = rs_cases(cases, p, r, can);
            (SStmt::Switch { disc: d, cases: cs }, plus(inl(k), c1))
        },
        SStmt::Try { body, catch, finally } => {
            let (b, c1) = rs(*body, p, r, can);
            let (cat, c2) = match catch {
                Some(c) => {
                    let (x, cc) = rs(*c.body, p, r, can);
                    (Some(SCatch { binding: c.binding, body: Box::new(x) }), cc)
                },
                None => (None, inl(0)),
            };
            let (f, c3) = match finally {
                Some(fb) => {
                    let (x, cc) = rs(*fb, p, r, can);
                    (Some(Box::new(x)), cc)
                },
                None => (None, inl(0)),
            };
            (SStmt::Try { body: Box::new(b), catch: cat, finally: f }, plus(c1, plus(c2, c3)))
        },
        SStmt::Decl(d) => {
            let (x, c) = rd(d, p, r, can);
            (SStmt::Decl(x), c)
        },
        _ => (s, inl(0)),
    }
}

/// `rs` on each element, in order, with the total counts.
pub open spec fn rs_list(s: Seq<SStmt>, p: SymbolId, r: SymbolId, can: bool) -> (Seq<SStmt>, Counts)
    decreases s, 0nat,
{
    if s.len() == 0 {
        (Seq::empty(), inl(0))
    } else {
        let (xs, c1) = rs_list(s.drop_last(), p, r, can);
        let (x, c2) = rs(s.last(), p, r, can);
        (xs.push(x), plus(c1, c2))
    }
}

/// Rewrites the test and the body of each case, in order.
pub open spec fn rs_cases(s: Seq<SCase>, p: SymbolId, r: SymbolId, can: bool) -> (Seq<SCase>, Counts)
    decreases s, 0nat,
{
    if s.len() == 0 {
        (Seq::empty(), inl(0))
    } else {
        let (xs, c1) = rs_cases(s.drop_last(), p, r, can);
        let (t, k) = ra_opt(s.last().test, p, r, can);
        let (b, c2) = rs_list(s.last().body, p, r, can);
        (xs.push(SCase { test: t, body: b }), plus(c1, plus(inl(k), c2)))
    }
}

/// Rewrites a function body with `can` and drops its async record.
pub open spec fn rf(f: SFunction, p: SymbolId, r: SymbolId, can: bool) -> (SFunction, Counts)
    decreases f, 0nat,
{
    let (b, c) = rs_list(f.body, p, r, can);
    (
        SFunction { body: b, async_info: None, ..f },
        plus(c, Counts { inlined: 0, cleared: if f.async_info is Some { 1 } else { 0 } }),
    )
}

/// `rf` on each method, in order.
pub open spec fn rfs(s: Seq<SFunction>, p: SymbolId, r: SymbolId, can: bool) -> (Seq<SFunction>, Counts)
    decreases s, 0nat,
{
    if s.len() == 0 {
        (Seq::empty(), inl(0))
    } else {
        let (xs, c1) = rfs(s.drop_last(), p, r, can);
        let (x, c2) = rf(s.last(), p, r, can);
        (xs.push(x), plus(c1, c2))
    }
}

/// Rewrites a declaration; inside a function, class or namespace named
/// `Promise` no call is inlined.
pub open spec fn rd(d: SDecl, p: SymbolId, r: SymbolId, can: bool) -> (SDecl, Counts)
    decreases d, 0nat,
{
    match d {
        SDecl::Function(f) => {
            let (x, c) = rf(f, p, r, can && f.name != p);
            (SDecl::Function(x), c)
        },
        SDecl::Class(cl) => {
            let (ms, c) = rfs(cl.methods, p, r, can && cl.name != p);
            (SDecl::Class(SClass { methods: ms, ..cl }), c)
        },
        SDecl::Global { name, ty, init } => {
            let (x, k) = ra_opt(init, p, r, can);
            (SDecl::Global { name, ty, init: x }, inl(k))
        },
        SDecl::Namespace { name, members } => {
            let (ms, c) = rds(members, p, r, can && name != p);
            (SDecl::Namespace { name, members: ms }, c)
        },
        _ => (d, inl(0)),
    }
}

/// `rd` on each declaration, in order.
pub open spec fn rds(s: Seq<SDecl>, p: SymbolId, r: SymbolId, can: bool) -> (Seq<SDecl>, Counts)
    decreases s, 0nat,
{
    if s.len() == 0 {
        (Seq::empty(), inl(0))
    } else {
        let (xs, c1) = rds(s.drop_last(), p, r, can);
        let (x, c2) = rd(s.last(), p, r, can);
        (xs.push(x), plus(c1, c2))
    }
}

/// Whether a top-level declaration declares the name `Promise`.
pub open spec fn decl_shadows(d: SDecl, p: SymbolId) -> bool {
    match d {
        SDecl::Function(f) => f.name == p,
        SDecl::Class(c) => c.name == p,
        SDecl::Enum { name, .. } => name == p,
        SDecl::Namespace { name, .. } => name == p,
        SDecl::Global { name, .. } => name == p,
        _ => false,
    }
}

/// The local name an import binds.
pub open spec fn import_binding(i: HirImport) -> SymbolId {
    match i.alias {
        Some(a) => a,
        None => i.name,
    }
}

/// Whether the module binds the name `Promise` itself.
pub open spec fn shadows_promise(decls: Seq<SDecl>, imports: Seq<HirImport>, p: SymbolId) -> bool {
    ||| exists|i: int| 0 <= i < decls.len() && decl_shadows(#[trigger] decls[i], p)
    ||| exists|i: int| 0 <= i < imports.len() && import_binding(#[trigger] imports[i]) == p
}

/// The symbol table after interning `Promise` and `resolve`, with both ids.
pub open spec fn async_symbols(syms: Seq<Seq<char>>) -> (Seq<Seq<char>>, SymbolId, SymbolId) {
    let (s1, p) = interned(syms, "Promise"@);
    let (s2, r) = interned(s1, "resolve"@);
    (s2, SymbolId(p as u32), SymbolId(r as u32))
}

/// The declarations after the pass and what it changed.
pub open spec fn async_lowering(decls: Seq<SDecl>, imports: Seq<HirImport>, syms: Seq<Seq<char>>) -> (Seq<SDecl>, Counts) {
    let (_, p, r) = async_symbols(syms);
    rds(decls, p, r, !shadows_promise(decls, imports, p))
}


// ---------------------------------------------------------------------------
// Accounting
// ---------------------------------------------------------------------------

/// Whether adding `c` to the counters in `st` stays within `usize`.
pub open spec fn fits(st: LowerAsyncStats, c: Counts) -> bool {
    &&& st.inlined_promise_resolve + c.inlined <= usize::MAX
    &&& st.cleared_async_info + c.cleared <= usize::MAX
}

/// `after` holds the counters of `before` with `c` added.
pub open spec fn added(before: LowerAsyncStats, after: LowerAsyncStats, c: Counts) -> bool {
    &&& after.inlined_promise_resolve == before.inlined_promise_resolve + c.inlined
    &&& after.cleared_async_info == before.cleared_async_info + c.cleared
}

/// `a` is at most `b` in both counts.
pub open spec fn at_most(a: Counts, b: Counts) -> bool {
    a.inlined <= b.inlined && a.cleared <= b.cleared
}

proof fn lemma_ra_list_prefix(s: Seq<SExpr>, p: SymbolId, r: SymbolId, can: bool, i: int, j: int)
    requires
        0 <= i <= j <= s.len(),
    ensures
        ra_list(s.take(i), p, r, can).1 <= ra_list(s.take(j), p, r, can).1,
    decreases j - i,
{
    if i < j {
        lemma_ra_list_prefix(s, p, r, can, i, j - 1);
        assert(s.take(j).drop_last() =~= s.take(j - 1));
    }
}

proof fn lemma_ra_fields_prefix(s: Seq<(FieldId, SExpr)>, p: SymbolId, r: SymbolId, can: bool, i: int, j: int)
    requires
        0 <= i <= j <= s.len(),
    ensures
        ra_fields(s.take(i), p, r, can).1 <= ra_fields(s.take(j), p, r, can).1,
    decreases j - i,
{
    if i < j {
        lemma_ra_fields_prefix(s, p, r, can, i, j - 1);
        assert(s.take(j).drop_last() =~= s.take(j - 1));
    }
}

proof fn lemma_rs_list_prefix(s: Seq<SStmt>, p: SymbolId, r: SymbolId, can: bool, i: int, j: int)
    requires
        0 <= i <= j <= s.len(),
    ensures
        at_most(rs_list(s.take(i), p, r, can).1, rs_list(s.take(j), p, r, can).1),
    decreases j - i,
{
    if i < j {
        lemma_rs_list_prefix(s, p, r, can, i, j - 1);
        assert(s.take(j).drop_last() =~= s.take(j - 1));
    }
}

proof fn lemma_rs_cases_prefix(s: Seq<SCase>, p: SymbolId, r: SymbolId, can: bool, i: int, j: int)
    requires
        0 <= i <= j <= s.len(),
    ensures
        at_most(rs_cases(s.take(i), p, r, can).1, rs_cases(s.take(j), p, r, can).1),
    decreases j - i,
{
    if i < j {
        lemma_rs_cases_prefix(s, p, r, can, i, j - 1);
        assert(s.take(j).drop_last() =~= s.take(j - 1));
    }
}

proof fn lemma_rfs_prefix(s: Seq<SFunction>, p: SymbolId, r: SymbolId, can: bool, i: int, j: int)
    requires
        0 <= i <= j <= s.len(),
    ensures
        at_most(rfs(s.take(i), p, r, can).1, rfs(s.take(j), p, r, can).1),
    decreases j - i,
{
    if i < j {
        lemma_rfs_prefix(s, p, r, can, i, j - 1);
        assert(s.take(j).drop_last() =~= s.take(j - 1));
    }
}

proof fn lemma_rds_prefix(s: Seq<SDecl>, p: SymbolId, r: SymbolId, can: bool, i: int, j: int)
    requires
        0 <= i <= j <= s.len(),
    ensures
        at_most(rds(s.take(i), p, r, can).1, rds(s.take(j), p, r, can).1),
    decreases j - i,
{
    if i < j {
        lemma_rds_prefix(s, p, r, can, i, j - 1);
        assert(s.take(j).drop_last() =~= s.take(j - 1));
    }
}

// ---------------------------------------------------------------------------
// Executable rewriting of expressions
// ---------------------------------------------------------------------------

/// Whether `x` is a call of `Promise.resolve` with one argument.
fn is_resolve_call(x: &HirExpr, p: SymbolId, r: SymbolId) -> (b: bool)
    ensures
        b == (match x@ {
            SExpr::Call { callee: SCallee::Indirect(f), args, .. } => args.len() == 1 && is_promise_resolve(*f, p, r),
            _ => false,
        }),
{
    broadcast use lemma_exprs_view;

    match x {
        HirExpr::Call { callee: HirCallee::Indirect(f), args, .. } => {
            assert(exprs_view(args@).len() == args@.len());
            if args.len() != 1 {
                return false;
            }
            let fe: &HirExpr = &**f;
            assert(fe@ == expr_view(*fe));
            match fe {
                HirExpr::Field { owner, field_name, .. } => {
                    assert(fe@ matches SExpr::Field { .. });
                    if *field_name != r {
                        return false;
                    }
                    let oe: &HirExpr = &**owner;
                    assert(oe@ == expr_view(*oe));
                    match oe {
                        HirExpr::Global { name, .. } => *name == p,
                        _ => false,
                    }
                },
                _ => false,
            }
        },
        _ => false,
    }
}

/// Replaces nested `Promise.resolve(e)` calls by their argument.
fn strip_calls(x: HirExpr, p: SymbolId, r: SymbolId, stats: &mut LowerAsyncStats) -> (y: HirExpr)
    requires
        fits(*old(stats), inl(strip(x@, p, r).1)),
    ensures
        y@ == strip(x@, p, r).0,
        added(*old(stats), *final(stats), inl(strip(x@, p, r).1)),
    decreases x@,
{
    if is_resolve_call(&x, p, r) {
        match x {
            HirExpr::Call { callee, mut args, ty } => {
                let ghost av = exprs_view(args@);
                proof {
                    lemma_exprs_view(args@);
                    assert(decreases_to!(av => av[0]));
                }
                let arg = args.pop().unwrap();
                stats.inlined_promise_resolve = stats.inlined_promise_resolve + 1;
                strip_calls(arg, p, r, stats)
            },
            other => other,
        }
    } else {
        x
    }
}

fn rewrite_exprs(v: Vec<HirExpr>, p: SymbolId, r: SymbolId, can: bool, stats: &mut LowerAsyncStats) -> (w: Vec<HirExpr>)
    requires
        fits(*old(stats), inl(ra_list(exprs_view(v@), p, r, can).1)),
    ensures
        exprs_view(w@) == ra_list(exprs_view(v@), p, r, can).0,
        added(*old(stats), *final(stats), inl(ra_list(exprs_view(v@), p, r, can).1)),
    decreases exprs_view(v@), 1nat,
{
    let ghost sv = exprs_view(v@);
    let ghost s0 = *stats;
    proof {
        lemma_exprs_view(v@);
        assert(sv.take(0) =~= Seq::<SExpr>::empty());
    }
    let mut src = v;
    let n = src.len();
    let mut out: Vec<HirExpr> = Vec::new();
    let mut i: usize = 0;
    while i < n
        invariant
            sv == exprs_view(v@),
            n == src@.len(),
            n == sv.len(),
            i <= n,
            forall|j: int| i <= j < n ==> expr_view(#[trigger] src@[j]) == sv[j],
            exprs_view(out@) == ra_list(sv.take(i as int), p, r, can).0,
            added(s0, *stats, inl(ra_list(sv.take(i as int), p, r, can).1)),
            fits(s0, inl(ra_list(sv, p, r, can).1)),
        decreases n - i,
    {
        let mut tmp = HirExpr::Unit;
        std::mem::swap(&mut tmp, &mut src[i]);
        proof {
            assert(tmp@ == sv[i as int]);
            assert(decreases_to!(sv => sv[i as int]));
            lemma_ra_list_prefix(sv, p, r, can, i + 1, n as int);
            assert(sv.take(i + 1).drop_last() =~= sv.take(i as int));
            assert(sv.take(n as int) =~= sv);
        }
        let y = rewrite_expr(tmp, p, r, can, stats);
        let ghost prev = out@;
        out.push(y);
        proof {
            assert(out@.drop_last() =~= prev);
        }
        i = i + 1;
    }
    proof {
        assert(sv.take(n as int) =~= sv);
    }
    out
}

fn rewrite_fields(v: Vec<(FieldId, HirExpr)>, p: SymbolId, r: SymbolId, can: bool, stats: &mut LowerAsyncStats) -> (w: Vec<(FieldId, HirExpr)>)
    requires
        fits(*old(stats), inl(ra_fields(fields_view(v@), p, r, can).1)),
    ensures
        fields_view(w@) == ra_fields(fields_view(v@), p, r, can).0,
        added(*old(stats), *final(stats), inl(ra_fields(fields_view(v@), p, r, can).1)),
    decreases fields_view(v@), 1nat,
{
    let ghost sv = fields_view(v@);
    let ghost s0 = *stats;
    proof {
        lemma_fields_view(v@);
        assert(sv.take(0) =~= Seq::<(FieldId, SExpr)>::empty());
    }
    let mut src = v;
    let n = src.len();
    let mut out: Vec<(FieldId, HirExpr)> = Vec::new();
    let mut i: usize = 0;
    while i < n
        invariant
            sv == fields_view(v@),
            n == src@.len(),
            n == sv.len(),
            i <= n,
            forall|j: int| i <= j < n ==> ((#[trigger] src@[j]).0, expr_view(src@[j].1)) == sv[j],
            fields_view(out@) == ra_fields(sv.take(i as int), p, r, can).0,
            added(s0, *stats, inl(ra_fields(sv.take(i as int), p, r, can).1)),
            fits(s0, inl(ra_fields(sv, p, r, can).1)),
        decreases n - i,
    {
        let mut tmp = (FieldId(0), HirExpr::Unit);
        std::mem::swap(&mut tmp, &mut src[i]);
        proof {
            assert(tmp.1@ == sv[i as int].1);
            assert(decreases_to!(sv => sv[i as int]));
            assert(decreases_to!(sv[i as int] => sv[i as int].1));
            lemma_ra_fields_prefix(sv, p, r, can, i + 1, n as int);
            assert(sv.take(i + 1).drop_last() =~= sv.take(i as int));
            assert(sv.take(n as int) =~= sv);
        }
        let (f, e) = tmp;
        let y = rewrite_expr(e, p, r, can, stats);
        let ghost prev = out@;
        out.push((f, y));
        proof {
            assert(out@.drop_last() =~= prev);
        }
        i = i + 1;
    }
    proof {
        assert(sv.take(n as int) =~= sv);
    }
    out
}

fn rewrite_opt(o: Option<HirExpr>, p: SymbolId, r: SymbolId, can: bool, stats: &mut LowerAsyncStats) -> (y: Option<HirExpr>)
    requires
        fits(*old(stats), inl(ra_opt(opt_expr_view(o), p, r, can).1)),
    ensures
        opt_expr_view(y) == ra_opt(opt_expr_view(o), p, r, can).0,
        added(*old(stats), *final(stats), inl(ra_opt(opt_expr_view(o), p, r, can).1)),
    decreases opt_expr_view(o), 1nat,
{
    match o {
        Some(e) => Some(rewrite_expr(e, p, r, can, stats)),
        None => None,
    }
}

fn rewrite_expr(e: HirExpr, p: SymbolId, r: SymbolId, can: bool, stats: &mut LowerAsyncStats) -> (y: HirExpr)
    requires
        fits(*old(stats), inl(ra(e@, p, r, can).1)),
    ensures
        y@ == ra(e@, p, r, can).0,
        added(*old(stats), *final(stats), inl(ra(e@, p, r, can).1)),
    decreases e@, 0nat,
{
    match e {
        HirExpr::Await { expr, ty } => {
            let inner = *expr;
            let ghost iv = inner@;
            proof {
                lemma_strip(iv, p, r);
            }
            let s = if can {
                strip_calls(inner, p, r, stats)
            } else {
                inner
            };
            let x = rewrite_expr(s, p, r, can, stats);
            HirExpr::Await { expr: Box::new(x), ty }
        },
        HirExpr::Field { owner, field, field_name, ty } =>
            HirExpr::Field { owner: Box::new(rewrite_expr(*owner, p, r, can, stats)), field, field_name, ty },
        HirExpr::Index { owner, index, ty } => {
            let o = rewrite_expr(*owner, p, r, can, stats);
            let i = rewrite_expr(*index, p, r, can, stats);
            HirExpr::Index { owner: Box::new(o), index: Box::new(i), ty }
        },
        HirExpr::Call { callee, args, ty } => {
            let c = match callee {
                HirCallee::Indirect(inner) => HirCallee::Indirect(Box::new(rewrite_expr(*inner, p, r, can, stats))),
                other => other,
            };
            let a = rewrite_exprs(args, p, r, can, stats);
            HirExpr::Call { callee: c, args: a, ty }
        },
        HirExpr::Binary { op, lhs, rhs, ty } => {
            let l = rewrite_expr(*lhs, p, r, can, stats);
            let rr = rewrite_expr(*rhs, p, r, can, stats);
            HirExpr::Binary { op, lhs: Box::new(l), rhs: Box::new(rr), ty }
        },
        HirExpr::Unary { op, expr, ty } => HirExpr::Unary { op, expr: Box::new(rewrite_expr(*expr, p, r, can, stats)), ty },
        HirExpr::StructLiteral { ty, fields } => HirExpr::StructLiteral { ty, fields: rewrite_fields(fields, p, r, can, stats) },
        HirExpr::ArrayLiteral { elements, ty } => HirExpr::ArrayLiteral { elements: rewrite_exprs(elements, p, r, can, stats), ty },
        HirExpr::Closure { id, captures, ty } => HirExpr::Closure { id, captures: rewrite_exprs(captures, p, r, can, stats), ty },
        HirExpr::Yield { expr, ty } => match expr {
            Some(b) => HirExpr::Yield { expr: Some(Box::new(rewrite_expr(*b, p, r, can, stats))), ty },
            None => HirExpr::Yield { expr: None, ty },
        },
        HirExpr::Template { tag, parts, ty } => {
            let t = match tag {
                Some(b) => Some(Box::new(rewrite_expr(*b, p, r, can, stats))),
                None => None,
            };
            let x = rewrite_exprs(parts, p, r, can, stats);
            HirExpr::Template { tag: t, parts: x, ty }
        },
        HirExpr::New { callee, args, ty } => {
            let c = rewrite_expr(*callee, p, r, can, stats);
            let a = rewrite_exprs(args, p, r, can, stats);
            HirExpr::New { callee: Box::new(c), args: a, ty }
        },
        HirExpr::OptionalChain { base, ty } => HirExpr::OptionalChain { base: Box::new(rewrite_expr(*base, p, r, can, stats)), ty },
        HirExpr::TypeAssertion { expr, target } =>
            HirExpr::TypeAssertion { expr: Box::new(rewrite_expr(*expr, p, r, can, stats)), target },
        HirExpr::Assignment { target, value, ty } => {
            let t = rewrite_expr(*target, p, r, can, stats);
            let v = rewrite_expr(*value, p, r, can, stats);
            HirExpr::Assignment { target: Box::new(t), value: Box::new(v), ty }
        },
        other => other,
    }
}


// ---------------------------------------------------------------------------
// Executable rewriting of statements and declarations
// ---------------------------------------------------------------------------

fn rewrite_stmts(v: Vec<HirStmt>, p: SymbolId, r: SymbolId, can: bool, stats: &mut LowerAsyncStats) -> (w: Vec<HirStmt>)
    requires
        fits(*old(stats), rs_list(stmts_view(v@), p, r, can).1),
    ensures
        stmts_view(w@) == rs_list(stmts_view(v@), p, r, can).0,
        added(*old(stats), *final(stats), rs_list(stmts_view(v@), p, r, can).1),
    decreases stmts_view(v@), 1nat,
{
    let ghost sv = stmts_view(v@);
    let ghost s0 = *stats;
    proof {
        lemma_stmts_view(v@);
        assert(sv.take(0) =~= Seq::<SStmt>::empty());
    }
    let mut src = v;
    let n = src.len();
    let mut out: Vec<HirStmt> = Vec::new();
    let mut i: usize = 0;
    while i < n
        invariant
            sv == stmts_view(v@),
            n == src@.len(),
            n == sv.len(),
            i <= n,
            forall|j: int| i <= j < n ==> stmt_view(#[trigger] src@[j]) == sv[j],
            stmts_view(out@) == rs_list(sv.take(i as int), p, r, can).0,
            added(s0, *stats, rs_list(sv.take(i as int), p, r, can).1),
            fits(s0, rs_list(sv, p, r, can).1),
        decreases n - i,
    {
        let mut tmp = HirStmt::Break { label: None };
        std::mem::swap(&mut tmp, &mut src[i]);
        proof {
            assert(tmp@ == sv[i as int]);
            assert(decreases_to!(sv => sv[i as int]));
            lemma_rs_list_prefix(sv, p, r, can, i + 1, n as int);
            assert(sv.take(i + 1).drop_last() =~= sv.take(i as int));
            assert(sv.take(n as int) =~= sv);
        }
        let y = rewrite_stmt(tmp, p, r, can, stats);
        let ghost prev = out@;
        out.push(y);
        proof {
            assert(out@.drop_last() =~= prev);
        }
        i = i + 1;
    }
    proof {
        assert(sv.take(n as int) =~= sv);
    }
    out
}

fn rewrite_cases(v: Vec<HirSwitchCase>, p: SymbolId, r: SymbolId, can: bool, stats: &mut LowerAsyncStats) -> (w: Vec<HirSwitchCase>)
    requires
        fits(*old(stats), rs_cases(cases_view(v@), p, r, can).1),
    ensures
        cases_view(w@) == rs_cases(cases_view(v@), p, r, can).0,
        added(*old(stats), *final(stats), rs_cases(cases_view(v@), p, r, can).1),
    decreases cases_view(v@), 1nat,
{
    let ghost sv = cases_view(v@);
    let ghost s0 = *stats;
    proof {
        lemma_cases_view(v@);
        assert(sv.take(0) =~= Seq::<SCase>::empty());
    }
    let mut src = v;
    let n = src.len();
    let mut out: Vec<HirSwitchCase> = Vec::new();
    let mut i: usize = 0;
    while i < n
        invariant
            sv == cases_view(v@),
            n == src@.len(),
            n == sv.len(),
            i <= n,
            forall|j: int| i <= j < n ==> case_view(#[trigger] src@[j]) == sv[j],
            cases_view(out@) == rs_cases(sv.take(i as int), p, r, can).0,
            added(s0, *stats, rs_cases(sv.take(i as int), p, r, can).1),
            fits(s0, rs_cases(sv, p, r, can).1),
        decreases n - i,
    {
        let mut tmp = HirSwitchCase { test: None, body: Vec::new() };
        std::mem::swap(&mut tmp, &mut src[i]);
        proof {
            assert(case_view(tmp) == sv[i as int]);
            assert(decreases_to!(sv => sv[i as int]));
            assert(decreases_to!(sv[i as int] => sv[i as int].body));
            lemma_rs_cases_prefix(sv, p, r, can, i + 1, n as int);
            assert(sv.take(i + 1).drop_last() =~= sv.take(i as int));
            assert(sv.take(n as int) =~= sv);
        }
        let HirSwitchCase { test, body } = tmp;
        let t = rewrite_opt(test, p, r, can, stats);
        let b = rewrite_stmts(body, p, r, can, stats);
        let ghost prev = out@;
        out.push(HirSwitchCase { test: t, body: b });
        proof {
            assert(out@.drop_last() =~= prev);
        }
        i = i + 1;
    }
    proof {
        assert(sv.take(n as int) =~= sv);
    }
    out
}

fn rewrite_stmt(s: HirStmt, p: SymbolId, r: SymbolId, can: bool, stats: &mut LowerAsyncStats) -> (y: HirStmt)
    requires
        fits(*old(stats), rs(s@, p, r, can).1),
    ensures
        y@ == rs(s@, p, r, can).0,
        added(*old(stats), *final(stats), rs(s@, p, r, can).1),
    decreases s@, 0nat,
{
    match s {
        HirStmt::Block(v) => HirStmt::Block(rewrite_stmts(v, p, r, can, stats)),
        HirStmt::Let { id, name, ty, init } => HirStmt::Let { id, name, ty, init: rewrite_opt(init, p, r, can, stats) },
        HirStmt::Expr { expr } => HirStmt::Expr { expr: rewrite_expr(expr, p, r, can, stats) },
        HirStmt::Return { value } => HirStmt::Return { value: rewrite_opt(value, p, r, can, stats) },
        HirStmt::Throw { expr } => HirStmt::Throw { expr: rewrite_expr(expr, p, r, can, stats) },
        HirStmt::If { cond, then, otherwise } => {
            let c = rewrite_expr(cond, p, r, can, stats);
            let t = rewrite_stmt(*then, p, r, can, stats);
            let o = match otherwise {
                Some(b) => Some(Box::new(rewrite_stmt(*b, p, r, can, stats))),
                None => None,
            };
            HirStmt::If { cond: c, then: Box::new(t), otherwise: o }
        },
        HirStmt::While { cond, body } => {
            let c = rewrite_expr(cond, p, r, can, stats);
            let b = rewrite_stmt(*body, p, r, can, stats);
            HirStmt::While { cond: c, body: Box::new(b) }
        },
        HirStmt::DoWhile { body, cond } => {
            let b = rewrite_stmt(*body, p, r, can, stats);
            let c = rewrite_expr(cond, p, r, can, stats);
            HirStmt::DoWhile { body: Box::new(b), cond: c }
        },
        HirStmt::ForOf { binding, iter, body } => {
            let i = rewrite_expr(iter, p, r, can, stats);
            let b = rewrite_stmt(*body, p, r, can, stats);
            HirStmt::ForOf { binding, iter: i, body: Box::new(b) }
        },
        HirStmt::ForIn { binding, iter, body } => {
            let i = rewrite_expr(iter, p, r, can, stats);
            let b = rewrite_stmt(*body, p, r, can, stats);
            HirStmt::ForIn { binding, iter: i, body: Box::new(b) }
        },
        HirStmt::Switch { disc, cases } => {
            let d = rewrite_expr(disc, p, r, can, stats);
            let cs = rewrite_cases(cases, p, r, can, stats);
            HirStmt::Switch { disc: d, cases: cs }
        },
        HirStmt::Try { body, catch, finally } => {
            let b = rewrite_stmt(*body, p, r, can, stats);
            let c = match catch {
                Some(c) => {
                    let HirCatchClause { binding, body } = c;
                    Some(HirCatchClause { binding, body: Box::new(rewrite_stmt(*body, p, r, can, stats)) })
                },
                None => None,
            };
            let f = match finally {
                Some(fb) => Some(Box::new(rewrite_stmt(*fb, p, r, can, stats))),
                None => None,
            };
            HirStmt::Try { body: Box::new(b), catch: c, finally: f }
        },
        HirStmt::Decl(d) => HirStmt::Decl(rewrite_decl(d, p, r, can, stats)),
        other => other,
    }
}

fn rewrite_function(f: HirFunction, p: SymbolId, r: SymbolId, can: bool, stats: &mut LowerAsyncStats) -> (y: HirFunction)
    requires
        fits(*old(stats), rf(function_view(f), p, r, can).1),
    ensures
        function_view(y) == rf(function_view(f), p, r, can).0,
        added(*old(stats), *final(stats), rf(function_view(f), p, r, can).1),
    decreases function_view(f), 1nat,
{
    let HirFunction { name, params, ret, throws, body, is_async, is_generator, is_exported, type_params, async_info } = f;
    let body = rewrite_stmts(body, p, r, can, stats);
    if async_info.is_some() {
        stats.cleared_async_info = stats.cleared_async_info + 1;
    }
    HirFunction {
        name,
        params,
        ret,
        throws,
        body,
        is_async,
        is_generator,
        is_exported,
        type_params,
        async_info: None,
    }
}

fn empty_function() -> HirFunction {
    HirFunction {
        name: SymbolId(0),
        params: Vec::new(),
        ret: TypeId(0),
        throws: None,
        body: Vec::new(),
        is_async: false,
        is_generator: false,
        is_exported: false,
        type_params: Vec::new(),
        async_info: None,
    }
}

fn rewrite_functions(v: Vec<HirFunction>, p: SymbolId, r: SymbolId, can: bool, stats: &mut LowerAsyncStats) -> (w: Vec<HirFunction>)
    requires
        fits(*old(stats), rfs(functions_view(v@), p, r, can).1),
    ensures
        functions_view(w@) == rfs(functions_view(v@), p, r, can).0,
        added(*old(stats), *final(stats), rfs(functions_view(v@), p, r, can).1),
    decreases functions_view(v@), 2nat,
{
    let ghost sv = functions_view(v@);
    let ghost s0 = *stats;
    proof {
        lemma_functions_view(v@);
        assert(sv.take(0) =~= Seq::<SFunction>::empty());
    }
    let mut src = v;
    let n = src.len();
    let mut out: Vec<HirFunction> = Vec::new();
    let mut i: usize = 0;
    while i < n
        invariant
            sv == functions_view(v@),
            n == src@.len(),
            n == sv.len(),
            i <= n,
            forall|j: int| i <= j < n ==> function_view(#[trigger] src@[j]) == sv[j],
            functions_view(out@) == rfs(sv.take(i as int), p, r, can).0,
            added(s0, *stats, rfs(sv.take(i as int), p, r, can).1),
            fits(s0, rfs(sv, p, r, can).1),
        decreases n - i,
    {
        let mut tmp = empty_function();
        std::mem::swap(&mut tmp, &mut src[i]);
        proof {
            assert(function_view(tmp) == sv[i as int]);
            assert(decreases_to!(sv => sv[i as int]));
            lemma_rfs_prefix(sv, p, r, can, i + 1, n as int);
            assert(sv.take(i + 1).drop_last() =~= sv.take(i as int));
            assert(sv.take(n as int) =~= sv);
        }
        let y = rewrite_function(tmp, p, r, can, stats);
        let ghost prev = out@;
        out.push(y);
        proof {
            assert(out@.drop_last() =~= prev);
        }
        i = i + 1;
    }
    proof {
        assert(sv.take(n as int) =~= sv);
    }
    out
}

fn rewrite_decl(d: HirDecl, p: SymbolId, r: SymbolId, can: bool, stats: &mut LowerAsyncStats) -> (y: HirDecl)
    requires
        fits(*old(stats), rd(decl_view(d), p, r, can).1),
    ensures
        decl_view(y) == rd(decl_view(d), p, r, can).0,
        added(*old(stats), *final(stats), rd(decl_view(d), p, r, can).1),
    decreases decl_view(d), 0nat,
{
    match d {
        HirDecl::Function(f) => {
            let inner = can && f.name != p;
            HirDecl::Function(rewrite_function(f, p, r, inner, stats))
        },
        HirDecl::Class(c) => {
            let HirClass { name, ty, fields, methods, extends, type_params } = c;
            let inner = can && name != p;
            let methods = rewrite_functions(methods, p, r, inner, stats);
            HirDecl::Class(HirClass { name, ty, fields, methods, extends, type_params })
        },
        HirDecl::Global { name, ty, init } => HirDecl::Global { name, ty, init: rewrite_opt(init, p, r, can, stats) },
        HirDecl::Namespace { name, members } => {
            let inner = can && name != p;
            HirDecl::Namespace { name, members: rewrite_decls(members, p, r, inner, stats) }
        },
        other => other,
    }
}

fn rewrite_decls(v: Vec<HirDecl>, p: SymbolId, r: SymbolId, can: bool, stats: &mut LowerAsyncStats) -> (w: Vec<HirDecl>)
    requires
        fits(*old(stats), rds(decls_view(v@), p, r, can).1),
    ensures
        decls_view(w@) == rds(decls_view(v@), p, r, can).0,
        added(*old(stats), *final(stats), rds(decls_view(v@), p, r, can).1),
    decreases decls_view(v@), 1nat,
{
    let ghost sv = decls_view(v@);
    let ghost s0 = *stats;
    proof {
        lemma_decls_view(v@);
        assert(sv.take(0) =~= Seq::<SDecl>::empty());
    }
    let mut src = v;
    let n = src.len();
    let mut out: Vec<HirDecl> = Vec::new();
    let mut i: usize = 0;
    while i < n
        invariant
            sv == decls_view(v@),
            n == src@.len(),
            n == sv.len(),
            i <= n,
            forall|j: int| i <= j < n ==> decl_view(#[trigger] src@[j]) == sv[j],
            decls_view(out@) == rds(sv.take(i as int), p, r, can).0,
            added(s0, *stats, rds(sv.take(i as int), p, r, can).1),
            fits(s0, rds(sv, p, r, can).1),
        decreases n - i,
    {
        let mut tmp = HirDecl::Interface { name: SymbolId(0) };
        std::mem::swap(&mut tmp, &mut src[i]);
        proof {
            assert(decl_view(tmp) == sv[i as int]);
            assert(decreases_to!(sv => sv[i as int]));
            lemma_rds_prefix(sv, p, r, can, i + 1, n as int);
            assert(sv.take(i + 1).drop_last() =~= sv.take(i as int));
            assert(sv.take(n as int) =~= sv);
        }
        let y = rewrite_decl(tmp, p, r, can, stats);
        let ghost prev = out@;
        out.push(y);
        proof {
            assert(out@.drop_last() =~= prev);
        }
        i = i + 1;
    }
    proof {
        assert(sv.take(n as int) =~= sv);
    }
    out
}


// ---------------------------------------------------------------------------
// The pass
// ---------------------------------------------------------------------------

fn declares(d: &HirDecl, p: SymbolId) -> (b: bool)
    ensures
        b == decl_shadows(decl_view(*d), p),
{
    match d {
        HirDecl::Function(f) => f.name == p,
        HirDecl::Class(c) => c.name == p,
        HirDecl::Enum { name, .. } => *name == p,
        HirDecl::Namespace { name, .. } => *name == p,
        HirDecl::Global { name, .. } => *name == p,
        HirDecl::TypeAlias { .. } => false,
        HirDecl::Interface { .. } => false,
    }
}

/// Whether the module binds the name `p` itself, by a top-level declaration
/// or an import.
fn binds_name(decls: &Vec<HirDecl>, imports: &Vec<HirImport>, p: SymbolId) -> (b: bool)
    ensures
        b == shadows_promise(decls_view(decls@), imports@, p),
{
    broadcast use lemma_decls_view;

    let ghost dv = decls_view(decls@);
    proof {
        lemma_decls_view(decls@);
    }
    let mut i: usize = 0;
    while i < decls.len()
        invariant
            dv == decls_view(decls@),
            dv.len() == decls@.len(),
            i <= decls@.len(),
            forall|j: int| 0 <= j < i ==> !decl_shadows(#[trigger] dv[j], p),
        decreases decls@.len() - i,
    {
        proof {
            lemma_decls_view(decls@);
        }
        if declares(&decls[i], p) {
            assert(decl_shadows(dv[i as int], p));
            return true;
        }
        i = i + 1;
    }
    let mut k: usize = 0;
    while k < imports.len()
        invariant
            dv == decls_view(decls@),
            k <= imports@.len(),
            forall|j: int| 0 <= j < dv.len() ==> !decl_shadows(#[trigger] dv[j], p),
            forall|j: int| 0 <= j < k ==> import_binding(#[trigger] imports@[j]) != p,
        decreases imports@.len() - k,
    {
        let imp = imports[k];
        let bound = match imp.alias {
            Some(a) => a,
            None => imp.name,
        };
        if bound == p {
            assert(import_binding(imports@[k as int]) == p);
            return true;
        }
        k = k + 1;
    }
    false
}

/// Simplifies async code in a module.
///
/// `await Promise.resolve(e)` becomes `await e` (nested calls are all
/// removed), in function and method bodies and in global initializers,
/// unless the module itself binds the name `Promise` or the code sits in a
/// function, class or namespace of that name. Every function and method
/// loses its async record. The names `Promise` and `resolve` are interned
/// into `symbols`. The statistics count the calls removed and the async
/// records dropped.
pub fn lower_async(
    program: &mut HirProgram,
    strings: &StringTable,
    symbols: &mut SymbolTable,
    types: &mut TypeTable,
    ctx: &mut PassContext,
) -> (stats: LowerAsyncStats)
    requires
        old(symbols).wf(),
        can_intern(old(symbols)@, "Promise"@),
        can_intern(interned(old(symbols)@, "Promise"@).0, "resolve"@),
        fits(
            LowerAsyncStats { inlined_promise_resolve: 0, cleared_async_info: 0 },
            async_lowering(old(program).decls(), old(program).imports@, old(symbols)@).1,
        ),
    ensures
        final(symbols).wf(),
        final(symbols)@ == async_symbols(old(symbols)@).0,
        final(program).decls() == async_lowering(old(program).decls(), old(program).imports@, old(symbols)@).0,
        stats.inlined_promise_resolve == async_lowering(old(program).decls(), old(program).imports@, old(symbols)@).1.inlined,
        stats.cleared_async_info == async_lowering(old(program).decls(), old(program).imports@, old(symbols)@).1.cleared,
        final(program).module == old(program).module,
        final(program).imports == old(program).imports,
        final(program).exports == old(program).exports,
        final(program).diagnostics == old(program).diagnostics,
        *final(types) == *old(types),
        *final(ctx) == *old(ctx),
{
    let promise_sym = symbols.intern("Promise");
    let resolve_sym = symbols.intern("resolve");
    let shadowed = binds_name(&program.declarations, &program.imports, promise_sym);
    let mut stats = LowerAsyncStats { inlined_promise_resolve: 0, cleared_async_info: 0 };
    let mut decls: Vec<HirDecl> = Vec::new();
    std::mem::swap(&mut decls, &mut program.declarations);
    let out = rewrite_decls(decls, promise_sym, resolve_sym, !shadowed, &mut stats);
    program.declarations = out;
    stats
}

/// Whether no function of a declaration keeps an async record: a function,
/// each method of a class, each member of a namespace.
pub open spec fn async_free(d: SDecl) -> bool
    decreases d, 0nat,
{
    match d {
        SDecl::Function(f) => f.async_info is None,
        SDecl::Class(c) => forall|i: int| 0 <= i < c.methods.len() ==> (#[trigger] c.methods[i]).async_info is None,
        SDecl::Namespace { members, .. } => async_free_all(members),
        _ => true,
    }
}

/// `async_free` of each declaration.
pub open spec fn async_free_all(s: Seq<SDecl>) -> bool
    decreases s, 0nat,
{
    if s.len() == 0 {
        true
    } else {
        async_free_all(s.drop_last()) && async_free(s.last())
    }
}

proof fn lemma_rfs_clears(s: Seq<SFunction>, p: SymbolId, r: SymbolId, can: bool)
    ensures
        rfs(s, p, r, can).0.len() == s.len(),
        forall|i: int| 0 <= i < s.len() ==> (#[trigger] rfs(s, p, r, can).0[i]).async_info is None,
    decreases s.len(),
{
    if s.len() > 0 {
        lemma_rfs_clears(s.drop_last(), p, r, can);
        let (xs, _) = rfs(s.drop_last(), p, r, can);
        let (x, _) = rf(s.last(), p, r, can);
        assert(x.async_info is None);
        assert forall|i: int| 0 <= i < s.len() implies (#[trigger] rfs(s, p, r, can).0[i]).async_info is None by {
            if i < s.len() - 1 {
                assert(rfs(s, p, r, can).0[i] == xs[i]);
            }
        }
    }
}

proof fn lemma_rd_clears(d: SDecl, p: SymbolId, r: SymbolId, can: bool)
    ensures
        async_free(rd(d, p, r, can).0),
    decreases d, 0nat,
{
    match d {
        SDecl::Class(cl) => {
            lemma_rfs_clears(cl.methods, p, r, can && cl.name != p);
        },
        SDecl::Namespace { name, members } => {
            lemma_rds_clears(members, p, r, can && name != p);
        },
        _ => {},
    }
}

proof fn lemma_rds_clears(s: Seq<SDecl>, p: SymbolId, r: SymbolId, can: bool)
    ensures
        async_free_all(rds(s, p, r, can).0),
    decreases s, 1nat,
{
    if s.len() > 0 {
        lemma_rds_clears(s.drop_last(), p, r, can);
        assert(decreases_to!(s => s[s.len() - 1]));
        lemma_rd_clears(s.last(), p, r, can);
        let (xs, _) = rds(s.drop_last(), p, r, can);
        let (x, _) = rd(s.last(), p, r, can);
        assert(xs.push(x).drop_last() =~= xs);
    }
}

/// After the pass no function, method or namespace member keeps an async
/// record.
pub proof fn law_lowering_clears_async_records(
    decls: Seq<SDecl>,
    imports: Seq<HirImport>,
    syms: Seq<Seq<char>>,
)
    ensures
        async_free_all(async_lowering(decls, imports, syms).0),
{
    let (_, p, r) = async_symbols(syms);
    lemma_rds_clears(decls, p, r, !shadows_promise(decls, imports, p));
}

} // verus!
