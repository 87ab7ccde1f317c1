//! Lifts closures out of function bodies: a closure that captures nothing
//! becomes a top-level function under a fresh name, and calls of it call
//! that function.

use vstd::prelude::*;

use crate::aot::hir::{
    a_decl, a_decls, a_expr, a_exprs, a_fields, a_function, a_functions, a_opt, a_stmt, a_stmts,
    a_callee, a_cases, a_params, lemma_a_cases, lemma_a_decls, lemma_a_exprs, lemma_a_fields, lemma_a_functions,
    lemma_a_stmts, ACallee, ACase, ACatch, AClass, ADecl, AExpr, AFunction, AParam, AStmt,
    HirCallee, HirCatchClause, HirClass, HirDecl, HirExpr, HirFunction, HirParam, HirProgram,
    HirStmt, HirSwitchCase,
};
use crate::aot::closure_laws::{
    law_resolution_leaves_no_lifted_call, law_resolution_leaves_no_lifted_call_expr, no_lifted_call,
    no_lifted_call_stmts,
};
use crate::aot::lifting_laws::{law_closure_lowering_lifts_every_plain_closure, no_plain_closure_decls};
use crate::diagnostics::{Diagnostic, Severity};
use crate::ids::{FieldId, LocalId, TypeId};
use crate::passes::context::{PassContext, PassContextView};
use crate::span::{Atom, Span};
use crate::text::{decimal, push_decimal, push_str};

verus! {

/// What `lower_closures` did.
#[derive(Debug, Default, Clone, Copy, PartialEq, Eq, Structural, Hash)]
pub struct LowerClosuresStats {
    pub emitted_fns: usize,
    pub deferred_capturing: usize,
}

/// The statistics of `lower_closures` and the names it generated, in order.
#[derive(Debug)]
pub struct LowerClosuresResult {
    pub stats: LowerClosuresStats,
    pub closure_names: Vec<Atom>,
}

// ---------------------------------------------------------------------------
// Specification
// ---------------------------------------------------------------------------

/// A diagnostic that the pass reports.
pub enum Report {
    /// A call of a closure that no lifted function stands for.
    UndeclaredClosure,
    /// A closure that captures variables, left in place.
    CapturingClosure,
}

/// Whether `d` is the diagnostic reported for `r`.
pub open spec fn report_is(r: Report, d: Diagnostic) -> bool {
    match r {
        Report::UndeclaredClosure => Diagnostic::spec_with(
            Severity::Error,
            "P0005"@,
            "call to undeclared closure (lower_closures did not produce a fn for it)"@,
            Span { start: 0, end: 0 },
            d,
        ),
        Report::CapturingClosure => Diagnostic::spec_with(
            Severity::Warning,
            "P0007"@,
            "capturing closures are not yet supported by lower_closures; closure is left intact and will fail downstream in HIR→MIR"@,
            Span { start: 0, end: 0 },
            d,
        ),
    }
}

/// `after` is `before` followed by the diagnostics of `r`, in order.
pub open spec fn reported(before: Seq<Diagnostic>, after: Seq<Diagnostic>, r: Seq<Report>) -> bool {
    &&& after.len() == before.len() + r.len()
    &&& after.take(before.len() as int) == before
    &&& forall|i: int| 0 <= i < r.len() ==> report_is(#[trigger] r[i], after[before.len() + i])
}

/// The name of the `n`-th generated function.
pub open spec fn closure_name(n: int) -> Seq<char> {
    "__ts_aot_closure_"@ + decimal(n as nat)
}

/// Whether `t` is the name of some generated function.
pub open spec fn is_closure_name(t: Seq<char>) -> bool {
    exists|k: int| 0 <= k < u32::MAX && t == closure_name(k)
}

/// The first id from `n` on whose name is not taken; `u32::MAX` where
/// every id up to it is taken.
pub open spec fn first_free(n: int, taken: Set<Seq<char>>) -> int
    decreases u32::MAX - n,
{
    if !taken.contains(closure_name(n)) || n >= u32::MAX {
        n
    } else {
        first_free(n + 1, taken)
    }
}

/// The return type of the first lifted function named `name`, or type 0.
pub open spec fn callee_ty(decls: Seq<ADecl>, name: Seq<char>) -> TypeId
    decreases decls.len(),
{
    if decls.len() == 0 {
        TypeId(0)
    } else {
        match decls[0] {
            ADecl::Function(f) => if f.name == name {
                f.ret
            } else {
                callee_ty(decls.drop_first(), name)
            },
            _ => callee_ty(decls.drop_first(), name),
        }
    }
}

/// The state of the pass.
pub struct Lift {
    /// The next closure id to try.
    pub next: int,
    /// The functions lifted so far.
    pub decls: Seq<ADecl>,
    /// Their names, in order.
    pub generated: Seq<Seq<char>>,
    /// Names that a new function may not take.
    pub taken: Set<Seq<char>>,
    pub emitted: nat,
    pub deferred: nat,
    /// The diagnostics reported so far.
    pub reports: Seq<Report>,
    /// Whether no counter has run out.
    pub ok: bool,
}

/// Local closures of the current scope and the names of their functions.
pub type Names = Map<LocalId, Seq<char>>;

/// The function that a lifted closure becomes.
pub open spec fn lifted_function(name: Seq<char>, params: Seq<AParam>, body: Seq<AStmt>, ty: TypeId) -> AFunction {
    AFunction {
        name,
        params,
        ret: ty,
        throws: None,
        body,
        is_async: false,
        is_generator: false,
        is_exported: false,
        type_params: Seq::empty(),
        async_info: None,
    }
}

// --- resolving calls of local closures -----------------------------------

/// Replaces each call of a closure of `m` by a call of its function, with
/// an error for each closure call that `m` does not know.
pub open spec fn r_expr(e: AExpr, m: Names) -> (AExpr, Seq<Report>)
    decreases e, 0nat,
{
    match e {
        AExpr::Closure { id, params, captures, body, ty } => {
            let (b, r) = r_stmts(body, m);
            (AExpr::Closure { id, params, captures, body: b, ty }, r)
        },
        AExpr::Call { callee, args, ty } => {
            let (c, r1) = match callee {
                ACallee::Closure(id) => if m.contains_key(id) {
                    (ACallee::Indirect(Box::new(AExpr::Global { name: m[id], ty: TypeId(0) })), Seq::<Report>::empty())
                } else {
                    (callee, seq![Report::UndeclaredClosure])
                },
                ACallee::Indirect(inner) => {
                    let (x, r) = r_expr(*inner, m);
                    (ACallee::Indirect(Box::new(x)), r)
                },
                other => (other, Seq::<Report>::empty()),
            };
            let (a, r2) = r_exprs(args, m);
            (AExpr::Call { callee: c, args: a, ty }, r1 + r2)
        },
        AExpr::Binary { op, lhs, rhs, ty } => {
            let (l, r1) = r_expr(*lhs, m);
            let (x, r2) = r_expr(*rhs, m);
            (AExpr::Binary { op, lhs: Box::new(l), rhs: Box::new(x), ty }, r1 + r2)
        },
        AExpr::Unary { op, expr, ty } => {
            let (x, r) = r_expr(*expr, m);
            (AExpr::Unary { op, expr: Box::new(x), ty }, r)
        },
        AExpr::Field { owner, field, field_name, ty } => {
            let (x, r) = r_expr(*owner, m);
            (AExpr::Field { owner: Box::new(x), field, field_name, ty }, r)
        },
        AExpr::Index { owner, index, ty } => {
            let (o, r1) = r_expr(*owner, m);
            let (i, r2) = r_expr(*index, m);
            (AExpr::Index { owner: Box::new(o), index: Box::new(i), ty }, r1 + r2)
        },
        AExpr::StructLiteral { ty, fields } => {
            let (f, r) = r_fields(fields, m);
            (AExpr::StructLiteral { ty, fields: f }, r)
        },
        AExpr::ArrayLiteral { elements, ty } => {
            let (x, r) = r_exprs(elements, m);
            (AExpr::ArrayLiteral { elements: x, ty }, r)
        },
        AExpr::Await { expr, ty } => {
            let (x, r) = r_expr(*expr, m);
            (AExpr::Await { expr: Box::new(x), ty }, r)
        },
        AExpr::TypeAssertion { expr, target } => {
            let (x, r) = r_expr(*expr, m);
            (AExpr::TypeAssertion { expr: Box::new(x), target }, r)
        },
        AExpr::Yield { expr, ty } => match expr {
            Some(b) => {
                let (x, r) = r_expr(*b, m);
                (AExpr::Yield { expr: Some(Box::new(x)), ty }, r)
            },
            None => (e, Seq::empty()),
        },
        AExpr::Template { tag, parts, ty } => {
            let (t, r1) = match tag {
                Some(b) => {
                    let (x, r) = r_expr(*b, m);
                    (Some(Box::new(x)), r)
                },
                None => (None, Seq::<Report>::empty()),
            };
            let (x, r2) = r_exprs(parts, m);
            (AExpr::Template { tag: t, parts: x, ty }, r1 + r2)
        },
        AExpr::New { callee, args, ty } => {
            let (c, r1) = r_expr(*callee, m);
            let (a, r2) = r_exprs(args, m);
            (AExpr::New { callee: Box::new(c), args: a, ty }, r1 + r2)
        },
        AExpr::OptionalChain { base, ty } => {
            let (x, r) = r_expr(*base, m);
            (AExpr::OptionalChain { base: Box::new(x), ty }, r)
        },
        AExpr::Assignment { target, value, ty } => {
            let (t, r1) = r_expr(*target, m);
            let (v, r2) = r_expr(*value, m);
            (AExpr::Assignment { target: Box::new(t), value: Box::new(v), ty }, r1 + r2)
        },
        _ => (e, Seq::empty()),
    }
}

/// `r_expr` on each element, in order.
pub open spec fn r_exprs(s: Seq<AExpr>, m: Names) -> (Seq<AExpr>, Seq<Report>)
    decreases s, 0nat,
{
    if s.len() == 0 {
        (Seq::empty(), Seq::empty())
    } else {
        let (xs, r1) = r_exprs(s.drop_last(), m);
        let (x, r2) = r_expr(s.last(), m);
        (xs.push(x), r1 + r2)
    }
}

/// `r_expr` on the value of each field, in order.
pub open spec fn r_fields(s: Seq<(FieldId, AExpr)>, m: Names) -> (Seq<(FieldId, AExpr)>, Seq<Report>)
    decreases s, 0nat,
{
    if s.len() == 0 {
        (Seq::empty(), Seq::empty())
    } else {
        let (xs, r1) = r_fields(s.drop_last(), m);
        let (x, r2) = r_expr(s.last().1, m);
        (xs.push((s.last().0, x)), r1 + r2)
    }
}

/// `r_expr` on an optional expression.
pub open spec fn r_opt(o: Option<AExpr>, m: Names) -> (Option<AExpr>, Seq<Report>)
    decreases o, 0nat,
{
    match o {
        Some(e) => {
            let (x, r) = r_expr(e, m);
            (Some(x), r)
        },
        None => (None, Seq::empty()),
    }
}

/// Resolves closure calls in a statement.
pub open spec fn r_stmt(s: AStmt, m: Names) -> (AStmt, Seq<Report>)
    decreases s, 0nat,
{
    match s {
        AStmt::Block(v) => {
            let (x, r) = r_stmts(v, m);
            (AStmt::Block(x), r)
        },
        AStmt::Let { id, name, ty, init } => {
            let (x, r) = r_opt(init, m);
            (AStmt::Let { id, name, ty, init: x }, r)
        },
        AStmt::Expr { expr } => {
            let (x, r) = r_expr(expr, m);
            (AStmt::Expr { expr: x }, r)
        },
        AStmt::If { cond, then, otherwise } => {
            let (c, r1) = r_expr(cond, m);
            let (t, r2) = r_stmt(*then, m);
            let (o, r3) = match otherwise {
                Some(b) => {
                    let (x, r) = r_stmt(*b, m);
                    (Some(Box::new(x)), r)
                },
                None => (None, Seq::<Report>::empty()),
            };
            (AStmt::If { cond: c, then: Box::new(t), otherwise: o }, r1 + r2 + r3)
        },
        AStmt::While { cond, body } => {
            let (c, r1) = r_expr(cond, m);
            let (b, r2) = r_stmt(*body, m);
            (AStmt::While { cond: c, body: Box::new(b) }, r1 + r2)
        },
        AStmt::DoWhile { body, cond } => {
            let (c, r1) = r_expr(cond, m);
            let (b, r2) = r_stmt(*body, m);
            (AStmt::DoWhile { body: Box::new(b), cond: c }, r1 + r2)
        },
        AStmt::ForOf { binding, iter, body } => {
            let (i, r1) = r_expr(iter, m);
            let (b, r2) = r_stmt(*body, m);
            (AStmt::ForOf { binding, iter: i, body: Box::new(b) }, r1 + r2)
        },
        AStmt::ForIn { binding, iter, body } => {
            let (i, r1) = r_expr(iter, m);
            let (b, r2) = r_stmt(*body, m);
            (AStmt::ForIn { binding, iter: i, body: Box::new(b) }, r1 + r2)
        },
        AStmt::Switch { disc, cases } => {
            let (d, r1) = r_expr(disc, m);
            let (cs, r2) = r_cases(cases, m);
            (AStmt::Switch { disc: d, cases: cs }, r1 + r2)
        },
        AStmt::Return { value } => {
            let (x, r) = r_opt(value, m);
            (AStmt::Return { value: x }, r)
        },
        AStmt::Throw { expr } => {
            let (x, r) = r_expr(expr, m);
            (AStmt::Throw { expr: x }, r)
        },
        AStmt::Try { body, catch, finally } => {
            let (b, r1) = r_stmt(*body, m);
            let (c, r2) = match catch {
                Some(c) => {
                    let (x, r) = r_stmt(*c.body, m);
                    (Some(ACatch { binding: c.binding, body: Box::new(x) }), r)
                },
                None => (None, Seq::<Report>::empty()),
            };
            let (f, r3) = match finally {
                Some(fb) => {
                    let (x, r) = r_stmt(*fb, m);
                    (Some(Box::new(x)), r)
                },
                None => (None, Seq::<Report>::empty()),
            };
            (AStmt::Try { body: Box::new(b), catch: c, finally: f }, r1 + r2 + r3)
        },
        AStmt::Decl(d) => {
            let (x, r) = r_decl(d, m);
            (AStmt::Decl(x), r)
        },
        _ => (s, Seq::empty()),
    }
}

/// `r_stmt` on each statement, in order.
pub open spec fn r_stmts(s: Seq<AStmt>, m: Names) -> (Seq<AStmt>, Seq<Report>)
    decreases s, 0nat,
{
    if s.len() == 0 {
        (Seq::empty(), Seq::empty())
    } else {
        let (xs, r1) = r_stmts(s.drop_last(), m);
        let (x, r2) = r_stmt(s.last(), m);
        (xs.push(x), r1 + r2)
    }
}

/// Resolves the test and then the body of each case, in order.
pub open spec fn r_cases(s: Seq<ACase>, m: Names) -> (Seq<ACase>, Seq<Report>)
    decreases s, 0nat,
{
    if s.len() == 0 {
        (Seq::empty(), Seq::empty())
    } else {
        let (xs, r1) = r_cases(s.drop_last(), m);
        let (t, r2) = r_opt(s.last().test, m);
        let (b, r3) = r_stmts(s.last().body, m);
        (xs.push(ACase { test: t, body: b }), r1 + r2 + r3)
    }
}

/// Resolves the bodies of each method, in order.
pub open spec fn r_methods(s: Seq<AFunction>, m: Names) -> (Seq<AFunction>, Seq<Report>)
    decreases s, 0nat,
{
    if s.len() == 0 {
        (Seq::empty(), Seq::empty())
    } else {
        let (xs, r1) = r_methods(s.drop_last(), m);
        let (b, r2) = r_stmts(s.last().body, m);
        (xs.push(AFunction { body: b, ..s.last() }), r1 + r2)
    }
}

/// Resolves closure calls in a declaration.
pub open spec fn r_decl(d: ADecl, m: Names) -> (ADecl, Seq<Report>)
    decreases d, 0nat,
{
    match d {
        ADecl::Function(f) => {
            let (b, r) = r_stmts(f.body, m);
            (ADecl::Function(AFunction { body: b, ..f }), r)
        },
        ADecl::Class(c) => {
            let (ms, r) = r_methods(c.methods, m);
            (ADecl::Class(AClass { methods: ms, ..c }), r)
        },
        ADecl::Global { name, ty, init } => match init {
            Some(e) => {
                let (x, r) = r_expr(e, m);
                (ADecl::Global { name, ty, init: Some(x) }, r)
            },
            None => (d, Seq::empty()),
        },
        ADecl::Namespace { name, members } => {
            let (ms, r) = r_decls(members, m);
            (ADecl::Namespace { name, members: ms }, r)
        },
        _ => (d, Seq::empty()),
    }
}

/// `r_decl` on each declaration, in order.
pub open spec fn r_decls(s: Seq<ADecl>, m: Names) -> (Seq<ADecl>, Seq<Report>)
    decreases s, 0nat,
{
    if s.len() == 0 {
        (Seq::empty(), Seq::empty())
    } else {
        let (xs, r1) = r_decls(s.drop_last(), m);
        let (x, r2) = r_decl(s.last(), m);
        (xs.push(x), r1 + r2)
    }
}


// --- lifting --------------------------------------------------------------

/// The state after a closure has been left in place because it captures
/// variables.
pub open spec fn deferred_step(st: Lift) -> Lift {
    Lift {
        deferred: st.deferred + 1,
        reports: st.reports.push(Report::CapturingClosure),
        ok: st.ok && st.deferred + 1 <= usize::MAX,
        ..st
    }
}

/// The state after a function named `name` was lifted.
pub open spec fn lifted_step(st: Lift, k: int, f: AFunction, r: Seq<Report>) -> Lift {
    Lift {
        next: k + 1,
        decls: st.decls.push(ADecl::Function(f)),
        generated: st.generated.push(f.name),
        taken: st.taken.insert(f.name),
        emitted: st.emitted + 1,
        deferred: st.deferred,
        reports: st.reports + r,
        ok: st.ok && k < u32::MAX && st.emitted + 1 <= usize::MAX,
    }
}

/// The state with the diagnostics `r` added.
pub open spec fn with_reports(st: Lift, r: Seq<Report>) -> Lift {
    Lift { reports: st.reports + r, ..st }
}

/// Lifts the closures of an expression in a scope whose closures so far
/// are `m`.
pub open spec fn lift_expr(e: AExpr, st: Lift, m: Names) -> (AExpr, Lift, Names)
    decreases e, 0nat,
{
    if !st.ok {
        (e, st, m)
    } else {
        match e {
            AExpr::Closure { id, params, captures, body, ty } => if captures.len() > 0 {
                (e, deferred_step(st), m)
            } else {
                let (b1, st1, m1) = lift_stmts(body, st, m);
                let (b2, r) = r_stmts(b1, m1);
                let k = first_free(st1.next, st1.taken);
                let f = lifted_function(closure_name(k), params, b2, ty);
                (AExpr::Global { name: closure_name(k), ty }, lifted_step(st1, k, f, r), m1.insert(id, closure_name(k)))
            },
            AExpr::Call { callee, args, ty } => {
                let (c, st1, m1) = match callee {
                    ACallee::Closure(id) => if m.contains_key(id) {
                        (
                            ACallee::Indirect(Box::new(AExpr::Global { name: m[id], ty: callee_ty(st.decls, m[id]) })),
                            st,
                            m,
                        )
                    } else {
                        (callee, with_reports(st, seq![Report::UndeclaredClosure]), m)
                    },
                    ACallee::Indirect(inner) => {
                        let (x, s1, n1) = lift_expr(*inner, st, m);
                        (ACallee::Indirect(Box::new(x)), s1, n1)
                    },
                    other => (other, st, m),
                };
                let (a, st2, m2) = lift_exprs(args, st1, m1);
                (AExpr::Call { callee: c, args: a, ty }, st2, m2)
            },
            AExpr::Binary { op, lhs, rhs, ty } => {
                let (l, st1, m1) = lift_expr(*lhs, st, m);
                let (x, st2, m2) = lift_expr(*rhs, st1, m1);
                (AExpr::Binary { op, lhs: Box::new(l), rhs: Box::new(x), ty }, st2, m2)
            },
            AExpr::Unary { op, expr, ty } => {
                let (x, st1, m1) = lift_expr(*expr, st, m);
                (AExpr::Unary { op, expr: Box::new(x), ty }, st1, m1)
            },
            AExpr::Field { owner, field, field_name, ty } => {
                let (x, st1, m1) = lift_expr(*owner, st, m);
                (AExpr::Field { owner: Box::new(x), field, field_name, ty }, st1, m1)
            },
            AExpr::Index { owner, index, ty } => {
                let (o, st1, m1) = lift_expr(*owner, st, m);
                let (i, st2, m2) = lift_expr(*index, st1, m1);
                (AExpr::Index { owner: Box::new(o), index: Box::new(i), ty }, st2, m2)
            },
            AExpr::StructLiteral { ty, fields } => {
                let (f, st1, m1) = lift_fields(fields, st, m);
                (AExpr::StructLiteral { ty, fields: f }, st1, m1)
            },
            AExpr::ArrayLiteral { elements, ty } => {
                let (x, st1, m1) = lift_exprs(elements, st, m);
                (AExpr::ArrayLiteral { elements: x, ty }, st1, m1)
            },
            AExpr::Await { expr, ty } => {
                let (x, st1, m1) = lift_expr(*expr, st, m);
                (AExpr::Await { expr: Box::new(x), ty }, st1, m1)
            },
            AExpr::TypeAssertion { expr, target } => {
                let (x, st1, m1) = lift_expr(*expr, st, m);
                (AExpr::TypeAssertion { expr: Box::new(x), target }, st1, m1)
            },
            AExpr::Yield { expr, ty } => match expr {
                Some(b) => {
                    let (x, st1, m1) = lift_expr(*b, st, m);
                    (AExpr::Yield { expr: Some(Box::new(x)), ty }, st1, m1)
                },
                None => (e, st, m),
            },
            AExpr::Template { tag, parts, ty } => {
                let (t, st1, m1) = match tag {
                    Some(b) => {
                        let (x, s1, n1) = lift_expr(*b, st, m);
                        (Some(Box::new(x)), s1, n1)
                    },
                    None => (None, st, m),
                };
                let (x, st2, m2) = lift_exprs(parts, st1, m1);
                (AExpr::Template { tag: t, parts: x, ty }, st2, m2)
            },
            AExpr::New { callee, args, ty } => {
                let (c, st1, m1) = lift_expr(*callee, st, m);
                let (a, st2, m2) = lift_exprs(args, st1, m1);
                (AExpr::New { callee: Box::new(c), args: a, ty }, st2, m2)
            },
            AExpr::OptionalChain { base, ty } => {
                let (x, st1, m1) = lift_expr(*base, st, m);
                (AExpr::OptionalChain { base: Box::new(x), ty }, st1, m1)
            },
            AExpr::Assignment { target, value, ty } => {
                let (t, st1, m1) = lift_expr(*target, st, m);
                let (v, st2, m2) = lift_expr(*value, st1, m1);
                (AExpr::Assignment { target: Box::new(t), value: Box::new(v), ty }, st2, m2)
            },
            _ => (e, st, m),
        }
    }
}

/// `lift_expr` on each element, in order.
pub open spec fn lift_exprs(s: Seq<AExpr>, st: Lift, m: Names) -> (Seq<AExpr>, Lift, Names)
    decreases s, 0nat,
{
    if !st.ok || s.len() == 0 {
        (s, st, m)
    } else {
        let (xs, st1, m1) = lift_exprs(s.drop_last(), st, m);
        let (x, st2, m2) = lift_expr(s.last(), st1, m1);
        (xs.push(x), st2, m2)
    }
}

/// `lift_expr` on the value of each field, in order.
pub open spec fn lift_fields(s: Seq<(FieldId, AExpr)>, st: Lift, m: Names) -> (Seq<(FieldId, AExpr)>, Lift, Names)
    decreases s, 0nat,
{
    if !st.ok || s.len() == 0 {
        (s, st, m)
    } else {
        let (xs, st1, m1) = lift_fields(s.drop_last(), st, m);
        let (x, st2, m2) = lift_expr(s.last().1, st1, m1);
        (xs.push((s.last().0, x)), st2, m2)
    }
}

/// `lift_expr` on an optional expression.
pub open spec fn lift_opt(o: Option<AExpr>, st: Lift, m: Names) -> (Option<AExpr>, Lift, Names)
    decreases o, 0nat,
{
    match o {
        Some(e) => {
            let (x, st1, m1) = lift_expr(e, st, m);
            (Some(x), st1, m1)
        },
        None => (None, st, m),
    }
}

/// Lifts the closures of a statement.
pub open spec fn lift_stmt(s: AStmt, st: Lift, m: Names) -> (AStmt, Lift, Names)
    decreases s, 0nat,
{
    if !st.ok {
        (s, st, m)
    } else {
        match s {
            AStmt::Block(v) => {
                let (x, st1, m1) = lift_stmts(v, st, m);
                (AStmt::Block(x), st1, m1)
            },
            AStmt::Let { id, name, ty, init } => {
                let (x, st1, m1) = lift_opt(init, st, m);
                (AStmt::Let { id, name, ty, init: x }, st1, m1)
            },
            AStmt::Expr { expr } => {
                let (x, st1, m1) = lift_expr(expr, st, m);
                (AStmt::Expr { expr: x }, st1, m1)
            },
            AStmt::If { cond, then, otherwise } => {
                let (c, st1, m1) = lift_expr(cond, st, m);
                let (t, st2, m2) = lift_stmt(*then, st1, m1);
                let (o, st3, m3) = match otherwise {
                    Some(b) => {
                        let (x, s1, n1) = lift_stmt(*b, st2, m2);
                        (Some(Box::new(x)), s1, n1)
                    },
                    None => (None, st2, m2),
                };
                (AStmt::If { cond: c, then: Box::new(t), otherwise: o }, st3, m3)
            },
            AStmt::While { cond, body } => {
                let (c, st1, m1) = lift_expr(cond, st, m);
                let (b, st2, m2) = lift_stmt(*body, st1, m1);
                (AStmt::While { cond: c, body: Box::new(b) }, st2, m2)
            },
            AStmt::DoWhile { body, cond } => {
                let (c, st1, m1) = lift_expr(cond, st, m);
                let (b, st2, m2) = lift_stmt(*body, st1, m1);
                (AStmt::DoWhile { body: Box::new(b), cond: c }, st2, m2)
            },
            AStmt::ForOf { binding, iter, body } => {
                let (i, st1, m1) = lift_expr(iter, st, m);
                let (b, st2, m2) = lift_stmt(*body, st1, m1);
                (AStmt::ForOf { binding, iter: i, body: Box::new(b) }, st2, m2)
            },
            AStmt::ForIn { binding, iter, body } => {
                let (i, st1, m1) = lift_expr(iter, st, m);
                let (b, st2, m2) = lift_stmt(*body, st1, m1);
                (AStmt::ForIn { binding, iter: i, body: Box::new(b) }, st2, m2)
            },
            AStmt::Switch { disc, cases } => {
                let (d, st1, m1) = lift_expr(disc, st, m);
                let (cs, st2, m2) = lift_cases(cases, st1, m1);
                (AStmt::Switch { disc: d, cases: cs }, st2, m2)
            },
            AStmt::Return { value } => {
                let (x, st1, m1) = lift_opt(value, st, m);
                (AStmt::Return { value: x }, st1, m1)
            },
            AStmt::Throw { expr } => {
                let (x, st1, m1) = lift_expr(expr, st, m);
                (AStmt::Throw { expr: x }, st1, m1)
            },
            AStmt::Try { body, catch, finally } => {
                let (b, st1, m1) = lift_stmt(*body, st, m);
                let (c, st2, m2) = match catch {
                    Some(c) => {
                        let (x, s1, n1) = lift_stmt(*c.body, st1, m1);
                        (Some(ACatch { binding: c.binding, body: Box::new(x) }), s1, n1)
                    },
                    None => (None, st1, m1),
                };
                let (f, st3, m3) = match finally {
                    Some(fb) => {
                        let (x, s1, n1) = lift_stmt(*fb, st2, m2);
                        (Some(Box::new(x)), s1, n1)
                    },
                    None => (None, st2, m2),
                };
                (AStmt::Try { body: Box::new(b), catch: c, finally: f }, st3, m3)
            },
            AStmt::Decl(d) => {
                let (x, st1) = lift_decl(d, st);
                (AStmt::Decl(x), st1, m)
            },
            _ => (s, st, m),
        }
    }
}

/// `lift_stmt` on each statement, in order.
pub open spec fn lift_stmts(s: Seq<AStmt>, st: Lift, m: Names) -> (Seq<AStmt>, Lift, Names)
    decreases s, 0nat,
{
    if !st.ok || s.len() == 0 {
        (s, st, m)
    } else {
        let (xs, st1, m1) = lift_stmts(s.drop_last(), st, m);
        let (x, st2, m2) = lift_stmt(s.last(), st1, m1);
        (xs.push(x), st2, m2)
    }
}

/// Lifts the test and then the body of each case, in order.
pub open spec fn lift_cases(s: Seq<ACase>, st: Lift, m: Names) -> (Seq<ACase>, Lift, Names)
    decreases s, 0nat,
{
    if !st.ok || s.len() == 0 {
        (s, st, m)
    } else {
        let (xs, st1, m1) = lift_cases(s.drop_last(), st, m);
        let (t, st2, m2) = lift_opt(s.last().test, st1, m1);
        let (b, st3, m3) = lift_stmts(s.last().body, st2, m2);
        (xs.push(ACase { test: t, body: b }), st3, m3)
    }
}

/// Lifts the closures of a function body, a scope of its own, and then
/// resolves the calls of the closures it lifted.
pub open spec fn lift_scope(body: Seq<AStmt>, st: Lift) -> (Seq<AStmt>, Lift)
    decreases body, 1nat,
{
    let (b1, st1, m1) = lift_stmts(body, st, Map::empty());
    if m1 == Map::<LocalId, Seq<char>>::empty() {
        (b1, st1)
    } else {
        let (b2, r) = r_stmts(b1, m1);
        (b2, with_reports(st1, r))
    }
}

/// `lift_scope` on the body of each method, in order.
pub open spec fn lift_methods(s: Seq<AFunction>, st: Lift) -> (Seq<AFunction>, Lift)
    decreases s, 0nat,
{
    if !st.ok || s.len() == 0 {
        (s, st)
    } else {
        let (xs, st1) = lift_methods(s.drop_last(), st);
        let (b, st2) = lift_scope(s.last().body, st1);
        (xs.push(AFunction { body: b, ..s.last() }), st2)
    }
}

/// Lifts the closures of a declaration.
pub open spec fn lift_decl(d: ADecl, st: Lift) -> (ADecl, Lift)
    decreases d, 0nat,
{
    if !st.ok {
        (d, st)
    } else {
        match d {
            ADecl::Function(f) => {
                let (b, st1) = lift_scope(f.body, st);
                (ADecl::Function(AFunction { body: b, ..f }), st1)
            },
            ADecl::Class(c) => {
                let (ms, st1) = lift_methods(c.methods, st);
                (ADecl::Class(AClass { methods: ms, ..c }), st1)
            },
            ADecl::Global { name, ty, init } => match init {
                Some(e) => {
                    let (x, st1, m1) = lift_expr(e, st, Map::empty());
                    if m1 == Map::<LocalId, Seq<char>>::empty() {
                        (ADecl::Global { name, ty, init: Some(x) }, st1)
                    } else {
                        let (y, r) = r_expr(x, m1);
                        (ADecl::Global { name, ty, init: Some(y) }, with_reports(st1, r))
                    }
                },
                None => (d, st),
            },
            ADecl::Namespace { name, members } => {
                let (ms, st1) = lift_decls(members, st);
                (ADecl::Namespace { name, members: ms }, st1)
            },
            _ => (d, st),
        }
    }
}

/// `lift_decl` on each declaration, in order.
pub open spec fn lift_decls(s: Seq<ADecl>, st: Lift) -> (Seq<ADecl>, Lift)
    decreases s, 0nat,
{
    if !st.ok || s.len() == 0 {
        (s, st)
    } else {
        let (xs, st1) = lift_decls(s.drop_last(), st);
        let (x, st2) = lift_decl(s.last(), st1);
        (xs.push(x), st2)
    }
}

/// The names that the declarations of a module bind: functions, classes
/// and their methods, enums, interfaces, type aliases and globals, inside
/// namespaces too.
pub open spec fn taken_names(s: Seq<ADecl>) -> Set<Seq<char>>
    decreases s, 0nat,
{
    if s.len() == 0 {
        Set::empty()
    } else {
        taken_names(s.drop_last()).union(decl_names(s.last()))
    }
}

/// The names of a list of methods.
pub open spec fn method_names(s: Seq<AFunction>) -> Set<Seq<char>>
    decreases s.len(),
{
    if s.len() == 0 {
        Set::empty()
    } else {
        method_names(s.drop_last()).insert(s.last().name)
    }
}

/// The names that one declaration binds.
pub open spec fn decl_names(d: ADecl) -> Set<Seq<char>>
    decreases d, 0nat,
{
    match d {
        ADecl::Function(f) => set![f.name],
        ADecl::Class(c) => set![c.name].union(method_names(c.methods)),
        ADecl::Namespace { members, .. } => taken_names(members),
        ADecl::Enum { name, .. } => set![name],
        ADecl::Interface { name } => set![name],
        ADecl::TypeAlias { name, .. } => set![name],
        ADecl::Global { name, .. } => set![name],
    }
}

/// The state at the start of the pass over declarations `decls`.
pub open spec fn initial_lift(decls: Seq<ADecl>) -> Lift {
    Lift {
        next: first_free(0, taken_names(decls)),
        decls: Seq::empty(),
        generated: Seq::empty(),
        taken: taken_names(decls),
        emitted: 0,
        deferred: 0,
        reports: Seq::empty(),
        ok: !taken_names(decls).contains(closure_name(first_free(0, taken_names(decls)))),
    }
}

/// The declarations after the pass and its final state.
pub open spec fn closure_lowering(decls: Seq<ADecl>) -> (Seq<ADecl>, Lift) {
    let (ds, st) = lift_decls(decls, initial_lift(decls));
    (ds + st.decls, st)
}


// ---------------------------------------------------------------------------
// Executable state
// ---------------------------------------------------------------------------

/// A set of names.
struct NameSet {
    items: Vec<Atom>,
}

impl NameSet {
    spec fn view(&self) -> Set<Seq<char>> {
        Set::new(|t: Seq<char>| exists|i: int| 0 <= i < self.items@.len() && #[trigger] self.items@[i]@ == t)
    }

    fn new() -> (s: Self)
        ensures
            s.view() == Set::<Seq<char>>::empty(),
    {
        let s = NameSet { items: Vec::new() };
        assert(s.view() =~= Set::<Seq<char>>::empty());
        s
    }

    fn contains(&self, a: &Atom) -> (b: bool)
        ensures
            b == self.view().contains(a@),
    {
        let mut i: usize = 0;
        while i < self.items.len()
            invariant
                i <= self.items@.len(),
                forall|j: int| 0 <= j < i ==> self.items@[j]@ != a@,
            decreases self.items@.len() - i,
        {
            if self.items[i].same(a) {
                assert(self.items@[i as int]@ == a@);
                return true;
            }
            i = i + 1;
        }
        false
    }

    fn insert(&mut self, a: Atom)
        ensures
            final(self).view() == old(self).view().insert(a@),
    {
        let ghost n = self.items@.len();
        self.items.push(a);
        proof {
            assert forall|t: Seq<char>| old(self).view().insert(a@).contains(t) implies #[trigger] final(self).view().contains(t) by {
                if t == a@ {
                    assert(final(self).items@[n as int]@ == t);
                } else {
                    let i = choose|i: int| 0 <= i < old(self).items@.len() && old(self).items@[i]@ == t;
                    assert(final(self).items@[i]@ == t);
                }
            }
            assert forall|t: Seq<char>| #[trigger] final(self).view().contains(t) implies old(self).view().insert(a@).contains(t) by {
                let i = choose|i: int| 0 <= i < final(self).items@.len() && final(self).items@[i]@ == t;
                if i < n {
                    assert(old(self).items@[i]@ == t);
                }
            }
            assert(final(self).view() =~= old(self).view().insert(a@));
        }
    }
}

/// The map built by inserting the entries in order; a later entry for a
/// closure replaces an earlier one.
spec fn names_of(s: Seq<(LocalId, Atom)>) -> Names
    decreases s.len(),
{
    if s.len() == 0 {
        Map::empty()
    } else {
        names_of(s.drop_last()).insert(s.last().0, s.last().1@)
    }
}

proof fn lemma_names_of_tail(s: Seq<(LocalId, Atom)>, i: int, id: LocalId)
    requires
        0 <= i <= s.len(),
        forall|j: int| i <= j < s.len() ==> (#[trigger] s[j]).0 != id,
    ensures
        names_of(s).contains_key(id) == names_of(s.take(i)).contains_key(id),
        names_of(s).contains_key(id) ==> names_of(s)[id] == names_of(s.take(i))[id],
    decreases s.len() - i,
{
    if i < s.len() {
        let t = s.take(s.len() - 1);
        assert(s.drop_last() =~= t);
        assert(t.take(i) =~= s.take(i));
        lemma_names_of_tail(t, i, id);
    } else {
        assert(s.take(i) =~= s);
    }
}

proof fn lemma_names_of_nonempty(s: Seq<(LocalId, Atom)>)
    requires
        s.len() > 0,
    ensures
        names_of(s).contains_key(s.last().0),
        names_of(s) != Map::<LocalId, Seq<char>>::empty(),
{
    assert(!Map::<LocalId, Seq<char>>::empty().contains_key(s.last().0));
}

/// The closures of a scope and the names of the functions they became.
struct ClosureNames {
    entries: Vec<(LocalId, Atom)>,
}

impl ClosureNames {
    spec fn view(&self) -> Names {
        names_of(self.entries@)
    }

    fn new() -> (m: Self)
        ensures
            m.view() == Map::<LocalId, Seq<char>>::empty(),
    {
        ClosureNames { entries: Vec::new() }
    }

    fn is_empty(&self) -> (b: bool)
        ensures
            b == (self.view() == Map::<LocalId, Seq<char>>::empty()),
    {
        proof {
            if self.entries@.len() > 0 {
                lemma_names_of_nonempty(self.entries@);
            }
        }
        self.entries.len() == 0
    }

    fn get(&self, id: LocalId) -> (r: Option<&Atom>)
        ensures
            r is Some == self.view().contains_key(id),
            r matches Some(a) ==> a@ == self.view()[id],
    {
        let mut i: usize = self.entries.len();
        while i > 0
            invariant
                i <= self.entries@.len(),
                forall|j: int| i <= j < self.entries@.len() ==> (#[trigger] self.entries@[j]).0 != id,
            decreases i,
        {
            if self.entries[i - 1].0 == id {
                proof {
                    lemma_names_of_tail(self.entries@, i as int, id);
                    assert(self.entries@.take(i as int).drop_last() =~= self.entries@.take(i - 1));
                }
                return Some(&self.entries[i - 1].1);
            }
            i = i - 1;
        }
        proof {
            lemma_names_of_tail(self.entries@, 0, id);
        }
        None
    }

    fn insert(&mut self, id: LocalId, name: Atom)
        ensures
            final(self).view() == old(self).view().insert(id, name@),
    {
        let ghost prev = self.entries@;
        self.entries.push((id, name));
        assert(self.entries@.drop_last() =~= prev);
    }
}


// ---------------------------------------------------------------------------
// Reporting
// ---------------------------------------------------------------------------

/// The counters of a context are unchanged.
pub open spec fn same_counters(a: PassContextView, b: PassContextView) -> bool {
    &&& a.next_function == b.next_function
    &&& a.next_local == b.next_local
    &&& a.next_type == b.next_type
}

proof fn lemma_reported_none(a: Seq<Diagnostic>)
    ensures
        reported(a, a, Seq::empty()),
{
    assert(a.take(a.len() as int) =~= a);
}

proof fn lemma_reported_trans(a: Seq<Diagnostic>, b: Seq<Diagnostic>, c: Seq<Diagnostic>, r1: Seq<Report>, r2: Seq<Report>)
    requires
        reported(a, b, r1),
        reported(b, c, r2),
    ensures
        reported(a, c, r1 + r2),
{
    assert(c.take(a.len() as int) =~= b.take(a.len() as int)) by {
        assert forall|i: int| 0 <= i < a.len() implies c[i] == b[i] by {
            assert(c.take(b.len() as int)[i] == b[i]);
        }
    }
    assert forall|i: int| 0 <= i < (r1 + r2).len() implies report_is(#[trigger] (r1 + r2)[i], c[a.len() + i]) by {
        if i < r1.len() {
            assert(c.take(b.len() as int)[a.len() + i] == b[a.len() + i]);
            assert(report_is(r1[i], b[a.len() + i]));
        } else {
            assert(report_is(r2[i - r1.len()], c[b.len() + (i - r1.len())]));
        }
    }
}

fn report_undeclared(ctx: &mut PassContext)
    ensures
        reported(old(ctx)@.diagnostics, final(ctx)@.diagnostics, seq![Report::UndeclaredClosure]),
        same_counters(old(ctx)@, final(ctx)@),
{
    let d = Diagnostic::error(
        "P0005",
        "call to undeclared closure (lower_closures did not produce a fn for it)",
        Span::new(0, 0),
    );
    ctx.push_diagnostic(d);
    proof {
        let a = old(ctx)@.diagnostics;
        assert(final(ctx)@.diagnostics.take(a.len() as int) =~= a);
        assert(report_is(seq![Report::UndeclaredClosure][0], final(ctx)@.diagnostics[a.len() as int]));
    }
}

fn report_capturing(ctx: &mut PassContext)
    ensures
        reported(old(ctx)@.diagnostics, final(ctx)@.diagnostics, seq![Report::CapturingClosure]),
        same_counters(old(ctx)@, final(ctx)@),
{
    let d = Diagnostic::warning(
        "P0007",
        "capturing closures are not yet supported by lower_closures; closure is left intact and will fail downstream in HIR→MIR",
        Span::new(0, 0),
    );
    ctx.push_diagnostic(d);
    proof {
        let a = old(ctx)@.diagnostics;
        assert(final(ctx)@.diagnostics.take(a.len() as int) =~= a);
        assert(report_is(seq![Report::CapturingClosure][0], final(ctx)@.diagnostics[a.len() as int]));
    }
}

// ---------------------------------------------------------------------------
// Executable resolution of closure calls
// ---------------------------------------------------------------------------

fn resolve_exprs(v: Vec<HirExpr>, names: &ClosureNames, ctx: &mut PassContext) -> (w: Vec<HirExpr>)
    ensures
        a_exprs(w@) == r_exprs(a_exprs(v@), names.view()).0,
        reported(old(ctx)@.diagnostics, final(ctx)@.diagnostics, r_exprs(a_exprs(v@), names.view()).1),
        same_counters(old(ctx)@, final(ctx)@),
    decreases v, 1nat,
{
    let ghost sv = a_exprs(v@);
    let ghost d0 = ctx@.diagnostics;
    proof {
        lemma_a_exprs(v@);
        assert(sv.take(0) =~= Seq::<AExpr>::empty());
        lemma_reported_none(d0);
        assert(Seq::<Report>::empty() + Seq::<Report>::empty() =~= Seq::<Report>::empty());
    }
    let mut src = v;
    let n = src.len();
    let mut out: Vec<HirExpr> = Vec::new();
    let mut i: usize = 0;
    while i < n
        invariant
            sv == a_exprs(v@),
            n == src@.len(),
            n == sv.len(),
            i <= n,
            n == v@.len(),
            forall|j: int| i <= j < n ==> #[trigger] src@[j] == v@[j],
            forall|j: int| i <= j < n ==> a_expr(#[trigger] src@[j]) == sv[j],
            a_exprs(out@) == r_exprs(sv.take(i as int), names.view()).0,
            reported(d0, ctx@.diagnostics, r_exprs(sv.take(i as int), names.view()).1),
            same_counters(old(ctx)@, ctx@),
        decreases n - i,
    {
        let mut tmp = HirExpr::Unit;
        std::mem::swap(&mut tmp, &mut src[i]);
        proof {
            assert(tmp@ == sv[i as int]);
            assert(decreases_to!(v => v@[i as int]));
            assert(sv.take(i + 1).drop_last() =~= sv.take(i as int));
        }
        let ghost d1 = ctx@.diagnostics;
        let y = resolve_expr(tmp, names, ctx);
        proof {
            lemma_reported_trans(d0, d1, ctx@.diagnostics, r_exprs(sv.take(i as int), names.view()).1, r_expr(sv[i as int], names.view()).1);
        }
        let ghost prev = out@;
        out.push(y);
        proof {
            assert(out@.drop_last() =~= prev);
        }
        i = i + 1;
    }
    proof {
        assert(sv.take(n as int) =~= sv);
    }
    out
}

fn resolve_fields(v: Vec<(FieldId, HirExpr)>, names: &ClosureNames, ctx: &mut PassContext) -> (w: Vec<(FieldId, HirExpr)>)
    ensures
        a_fields(w@) == r_fields(a_fields(v@), names.view()).0,
        reported(old(ctx)@.diagnostics, final(ctx)@.diagnostics, r_fields(a_fields(v@), names.view()).1),
        same_counters(old(ctx)@, final(ctx)@),
    decreases v, 1nat,
{
    let ghost sv = a_fields(v@);
    let ghost d0 = ctx@.diagnostics;
    proof {
        lemma_a_fields(v@);
        assert(sv.take(0) =~= Seq::<(FieldId, AExpr)>::empty());
        lemma_reported_none(d0);
    }
    let mut src = v;
    let n = src.len();
    let mut out: Vec<(FieldId, HirExpr)> = Vec::new();
    let mut i: usize = 0;
    while i < n
        invariant
            sv == a_fields(v@),
            n == src@.len(),
            n == sv.len(),
            i <= n,
            n == v@.len(),
            forall|j: int| i <= j < n ==> #[trigger] src@[j] == v@[j],
            forall|j: int| i <= j < n ==> ((#[trigger] src@[j]).0, a_expr(src@[j].1)) == sv[j],
            a_fields(out@) == r_fields(sv.take(i as int), names.view()).0,
            reported(d0, ctx@.diagnostics, r_fields(sv.take(i as int), names.view()).1),
            same_counters(old(ctx)@, ctx@),
        decreases n - i,
    {
        let mut tmp = (FieldId(0), HirExpr::Unit);
        std::mem::swap(&mut tmp, &mut src[i]);
        proof {
            assert(tmp.1@ == sv[i as int].1);
            assert(decreases_to!(v => v@[i as int]));
            assert(decreases_to!(v@[i as int] => v@[i as int].1));
            assert(sv.take(i + 1).drop_last() =~= sv.take(i as int));
        }
        let (f, e) = tmp;
        let ghost d1 = ctx@.diagnostics;
        let y = resolve_expr(e, names, ctx);
        proof {
            lemma_reported_trans(d0, d1, ctx@.diagnostics, r_fields(sv.take(i as int), names.view()).1, r_expr(sv[i as int].1, names.view()).1);
        }
        let ghost prev = out@;
        out.push((f, y));
        proof {
            assert(out@.drop_last() =~= prev);
        }
        i = i + 1;
    }
    proof {
        assert(sv.take(n as int) =~= sv);
    }
    out
}

fn resolve_opt(o: Option<HirExpr>, names: &ClosureNames, ctx: &mut PassContext) -> (y: Option<HirExpr>)
    ensures
        a_opt(y) == r_opt(a_opt(o), names.view()).0,
        reported(old(ctx)@.diagnostics, final(ctx)@.diagnostics, r_opt(a_opt(o), names.view()).1),
        same_counters(old(ctx)@, final(ctx)@),
    decreases o, 1nat,
{
    match o {
        Some(e) => Some(resolve_expr(e, names, ctx)),
        None => {
            proof {
                lemma_reported_none(ctx@.diagnostics);
            }
            None
        },
    }
}

#[verifier::rlimit(40)]
fn resolve_expr(e: HirExpr, names: &ClosureNames, ctx: &mut PassContext) -> (y: HirExpr)
    ensures
        y@ == r_expr(e@, names.view()).0,
        no_lifted_call(y@, names.view()),
        reported(old(ctx)@.diagnostics, final(ctx)@.diagnostics, r_expr(e@, names.view()).1),
        same_counters(old(ctx)@, final(ctx)@),
    decreases e, 0nat,
{
    let ghost ev = e@;
    proof {
        law_resolution_leaves_no_lifted_call_expr(ev, names.view());
    }
    match e {
        HirExpr::Closure { id, params, captures, body, ty } => {
            let ghost pv = a_params(params@);
            let ghost cv = a_exprs(captures@);
            let ghost bv = a_stmts(body@);
            let b = resolve_stmts(body, names, ctx);
            let y = HirExpr::Closure { id, params, captures, body: b, ty };
            proof {
                let x = AExpr::Closure { id, params: pv, captures: cv, body: bv, ty };
                assert(ev == x);
                assert(r_expr(x, names.view()).0 == AExpr::Closure { id, params: pv, captures: cv, body: r_stmts(bv, names.view()).0, ty });
                assert(y@ == AExpr::Closure { id, params: pv, captures: cv, body: r_stmts(bv, names.view()).0, ty });
                assert(y@ == r_expr(ev, names.view()).0);
                assert(ev == e@);
                assert(reported(old(ctx)@.diagnostics, ctx@.diagnostics, r_expr(ev, names.view()).1));
            }
            y
        },
        HirExpr::Call { callee, args, ty } => {
            let ghost d0 = ctx@.diagnostics;
            let ghost cv = a_callee(callee);
            let ghost av = a_exprs(args@);
            let ghost rc = match cv {
                ACallee::Closure(id) => if names.view().contains_key(id) {
                    Seq::<Report>::empty()
                } else {
                    seq![Report::UndeclaredClosure]
                },
                ACallee::Indirect(inner) => r_expr(*inner, names.view()).1,
                _ => Seq::<Report>::empty(),
            };
            let ghost ce = match cv {
                ACallee::Closure(id) => if names.view().contains_key(id) {
                    ACallee::Indirect(Box::new(AExpr::Global { name: names.view()[id], ty: TypeId(0) }))
                } else {
                    cv
                },
                ACallee::Indirect(inner) => ACallee::Indirect(Box::new(r_expr(*inner, names.view()).0)),
                other => other,
            };
            proof {
                assert(ev == AExpr::Call { callee: cv, args: av, ty });
            }
            let c = match callee {
                HirCallee::Closure(id) => match names.get(id) {
                    Some(a) => {
                        proof {
                            lemma_reported_none(d0);
                        }
                        let g = HirExpr::Global { name: a.duplicate(), ty: TypeId(0) };
                        assert(g@ == AExpr::Global { name: names.view()[id], ty: TypeId(0) });
                        HirCallee::Indirect(Box::new(g))
                    },
                    None => {
                        report_undeclared(ctx);
                        HirCallee::Closure(id)
                    },
                },
                HirCallee::Indirect(inner) => HirCallee::Indirect(Box::new(resolve_expr(*inner, names, ctx))),
                other => {
                    proof {
                        lemma_reported_none(d0);
                    }
                    other
                },
            };
            assert(a_callee(c) == ce);
            let ghost d1 = ctx@.diagnostics;
            let a = resolve_exprs(args, names, ctx);
            proof {
                lemma_reported_trans(d0, d1, ctx@.diagnostics, rc, r_exprs(av, names.view()).1);
            }
            let y = HirExpr::Call { callee: c, args: a, ty };
            assert(y@ == AExpr::Call { callee: ce, args: r_exprs(av, names.view()).0, ty });
            y
        },
        HirExpr::Binary { op, lhs, rhs, ty } => {
            let ghost d0 = ctx@.diagnostics;
            let l = resolve_expr(*lhs, names, ctx);
            let ghost d1 = ctx@.diagnostics;
            let x = resolve_expr(*rhs, names, ctx);
            proof {
                lemma_reported_trans(d0, d1, ctx@.diagnostics, r_expr(lhs@, names.view()).1, r_expr(rhs@, names.view()).1);
            }
            HirExpr::Binary { op, lhs: Box::new(l), rhs: Box::new(x), ty }
        },
        HirExpr::Unary { op, expr, ty } => HirExpr::Unary { op, expr: Box::new(resolve_expr(*expr, names, ctx)), ty },
        HirExpr::Field { owner, field, field_name, ty } =>
            HirExpr::Field { owner: Box::new(resolve_expr(*owner, names, ctx)), field, field_name, ty },
        HirExpr::Index { owner, index, ty } => {
            let ghost d0 = ctx@.diagnostics;
            let o = resolve_expr(*owner, names, ctx);
            let ghost d1 = ctx@.diagnostics;
            let i = resolve_expr(*index, names, ctx);
            proof {
                lemma_reported_trans(d0, d1, ctx@.diagnostics, r_expr(owner@, names.view()).1, r_expr(index@, names.view()).1);
            }
            HirExpr::Index { owner: Box::new(o), index: Box::new(i), ty }
        },
        HirExpr::StructLiteral { ty, fields } => HirExpr::StructLiteral { ty, fields: resolve_fields(fields, names, ctx) },
        HirExpr::ArrayLiteral { elements, ty } => HirExpr::ArrayLiteral { elements: resolve_exprs(elements, names, ctx), ty },
        HirExpr::Await { expr, ty } => HirExpr::Await { expr: Box::new(resolve_expr(*expr, names, ctx)), ty },
        HirExpr::TypeAssertion { expr, target } =>
            HirExpr::TypeAssertion { expr: Box::new(resolve_expr(*expr, names, ctx)), target },
        HirExpr::Yield { expr, ty } => match expr {
            Some(b) => HirExpr::Yield { expr: Some(Box::new(resolve_expr(*b, names, ctx))), ty },
            None => {
                proof {
                    lemma_reported_none(ctx@.diagnostics);
                }
                HirExpr::Yield { expr: None, ty }
            },
        },
        HirExpr::Template { tag, parts, ty } => {
            let ghost d0 = ctx@.diagnostics;
            let ghost rt = match tag {
                Some(ref b) => r_expr(b@, names.view()).1,
                None => Seq::<Report>::empty(),
            };
            let t = match tag {
                Some(b) => Some(Box::new(resolve_expr(*b, names, ctx))),
                None => {
                    proof {
                        lemma_reported_none(d0);
                    }
                    None
                },
            };
            let ghost d1 = ctx@.diagnostics;
            let x = resolve_exprs(parts, names, ctx);
            proof {
                lemma_reported_trans(d0, d1, ctx@.diagnostics, rt, r_exprs(a_exprs(parts@), names.view()).1);
            }
            HirExpr::Template { tag: t, parts: x, ty }
        },
        HirExpr::New { callee, args, ty } => {
            let ghost d0 = ctx@.diagnostics;
            let c = resolve_expr(*callee, names, ctx);
            let ghost d1 = ctx@.diagnostics;
            let a = resolve_exprs(args, names, ctx);
            proof {
                lemma_reported_trans(d0, d1, ctx@.diagnostics, r_expr(callee@, names.view()).1, r_exprs(a_exprs(args@), names.view()).1);
            }
            HirExpr::New { callee: Box::new(c), args: a, ty }
        },
        HirExpr::OptionalChain { base, ty } => HirExpr::OptionalChain { base: Box::new(resolve_expr(*base, names, ctx)), ty },
        HirExpr::Assignment { target, value, ty } => {
            let ghost d0 = ctx@.diagnostics;
            let t = resolve_expr(*target, names, ctx);
            let ghost d1 = ctx@.diagnostics;
            let v = resolve_expr(*value, names, ctx);
            proof {
                lemma_reported_trans(d0, d1, ctx@.diagnostics, r_expr(target@, names.view()).1, r_expr(value@, names.view()).1);
            }
            HirExpr::Assignment { target: Box::new(t), value: Box::new(v), ty }
        },
        other => {
            proof {
                lemma_reported_none(ctx@.diagnostics);
            }
            other
        },
    }
}


fn resolve_stmts(v: Vec<HirStmt>, names: &ClosureNames, ctx: &mut PassContext) -> (w: Vec<HirStmt>)
    ensures
        a_stmts(w@) == r_stmts(a_stmts(v@), names.view()).0,
        no_lifted_call_stmts(a_stmts(w@), names.view()),
        reported(old(ctx)@.diagnostics, final(ctx)@.diagnostics, r_stmts(a_stmts(v@), names.view()).1),
        same_counters(old(ctx)@, final(ctx)@),
    decreases v, 1nat,
{
    let ghost sv = a_stmts(v@);
    proof {
        law_resolution_leaves_no_lifted_call(sv, names.view());
    }
    let ghost d0 = ctx@.diagnostics;
    proof {
        lemma_a_stmts(v@);
        assert(sv.take(0) =~= Seq::<AStmt>::empty());
        lemma_reported_none(d0);
    }
    let mut src = v;
    let n = src.len();
    let mut out: Vec<HirStmt> = Vec::new();
    let mut i: usize = 0;
    while i < n
        invariant
            sv == a_stmts(v@),
            n == src@.len(),
            n == sv.len(),
            i <= n,
            n == v@.len(),
            forall|j: int| i <= j < n ==> #[trigger] src@[j] == v@[j],
            forall|j: int| i <= j < n ==> a_stmt(#[trigger] src@[j]) == sv[j],
            a_stmts(out@) == r_stmts(sv.take(i as int), names.view()).0,
            reported(d0, ctx@.diagnostics, r_stmts(sv.take(i as int), names.view()).1),
            same_counters(old(ctx)@, ctx@),
        decreases n - i,
    {
        let mut tmp = HirStmt::Break { label: None };
        std::mem::swap(&mut tmp, &mut src[i]);
        proof {
            assert(tmp@ == sv[i as int]);
            assert(decreases_to!(v => v@[i as int]));
            assert(sv.take(i + 1).drop_last() =~= sv.take(i as int));
        }
        let ghost d1 = ctx@.diagnostics;
        let y = resolve_stmt(tmp, names, ctx);
        proof {
            lemma_reported_trans(d0, d1, ctx@.diagnostics, r_stmts(sv.take(i as int), names.view()).1, r_stmt(sv[i as int], names.view()).1);
        }
        let ghost prev = out@;
        out.push(y);
        proof {
            assert(out@.drop_last() =~= prev);
        }
        i = i + 1;
    }
    proof {
        assert(sv.take(n as int) =~= sv);
    }
    out
}

fn resolve_cases(v: Vec<HirSwitchCase>, names: &ClosureNames, ctx: &mut PassContext) -> (w: Vec<HirSwitchCase>)
    ensures
        a_cases(w@) == r_cases(a_cases(v@), names.view()).0,
        reported(old(ctx)@.diagnostics, final(ctx)@.diagnostics, r_cases(a_cases(v@), names.view()).1),
        same_counters(old(ctx)@, final(ctx)@),
    decreases v, 1nat,
{
    let ghost sv = a_cases(v@);
    let ghost d0 = ctx@.diagnostics;
    proof {
        lemma_a_cases(v@);
        assert(sv.take(0) =~= Seq::<ACase>::empty());
        lemma_reported_none(d0);
    }
    let mut src = v;
    let n = src.len();
    let mut out: Vec<HirSwitchCase> = Vec::new();
    let mut i: usize = 0;
    while i < n
        invariant
            sv == a_cases(v@),
            n == src@.len(),
            n == sv.len(),
            i <= n,
            n == v@.len(),
            forall|j: int| i <= j < n ==> #[trigger] src@[j] == v@[j],
            forall|j: int| i <= j < n ==> (ACase { test: a_opt((#[trigger] src@[j]).test), body: a_stmts(src@[j].body@) }) == sv[j],
            a_cases(out@) == r_cases(sv.take(i as int), names.view()).0,
            reported(d0, ctx@.diagnostics, r_cases(sv.take(i as int), names.view()).1),
            same_counters(old(ctx)@, ctx@),
        decreases n - i,
    {
        let mut tmp = HirSwitchCase { test: None, body: Vec::new() };
        std::mem::swap(&mut tmp, &mut src[i]);
        proof {
            assert(decreases_to!(v => v@[i as int]));
            assert(decreases_to!(v@[i as int] => v@[i as int].body));
            assert(sv.take(i + 1).drop_last() =~= sv.take(i as int));
        }
        let HirSwitchCase { test, body } = tmp;
        let ghost d1 = ctx@.diagnostics;
        let t = resolve_opt(test, names, ctx);
        let ghost d2 = ctx@.diagnostics;
        let b = resolve_stmts(body, names, ctx);
        proof {
            lemma_reported_trans(d0, d1, d2, r_cases(sv.take(i as int), names.view()).1, r_opt(sv[i as int].test, names.view()).1);
            lemma_reported_trans(d0, d2, ctx@.diagnostics,
                r_cases(sv.take(i as int), names.view()).1 + r_opt(sv[i as int].test, names.view()).1,
                r_stmts(sv[i as int].body, names.view()).1);
        }
        let ghost prev = out@;
        out.push(HirSwitchCase { test: t, body: b });
        proof {
            assert(out@.drop_last() =~= prev);
        }
        i = i + 1;
    }
    proof {
        assert(sv.take(n as int) =~= sv);
    }
    out
}

fn resolve_stmt(s: HirStmt, names: &ClosureNames, ctx: &mut PassContext) -> (y: HirStmt)
    ensures
        y@ == r_stmt(s@, names.view()).0,
        reported(old(ctx)@.diagnostics, final(ctx)@.diagnostics, r_stmt(s@, names.view()).1),
        same_counters(old(ctx)@, final(ctx)@),
    decreases s, 0nat,
{
    match s {
        HirStmt::Block(v) => HirStmt::Block(resolve_stmts(v, names, ctx)),
        HirStmt::Let { id, name, ty, init } => HirStmt::Let { id, name, ty, init: resolve_opt(init, names, ctx) },
        HirStmt::Expr { expr } => HirStmt::Expr { expr: resolve_expr(expr, names, ctx) },
        HirStmt::If { cond, then, otherwise } => {
            let ghost d0 = ctx@.diagnostics;
            let ghost r3 = match otherwise {
                Some(ref b) => r_stmt(b@, names.view()).1,
                None => Seq::<Report>::empty(),
            };
            let c = resolve_expr(cond, names, ctx);
            let ghost d1 = ctx@.diagnostics;
            let t = resolve_stmt(*then, names, ctx);
            let ghost d2 = ctx@.diagnostics;
            let o = match otherwise {
                Some(b) => Some(Box::new(resolve_stmt(*b, names, ctx))),
                None => {
                    let ghost d0 = ctx@.diagnostics;
                    proof {
                        lemma_reported_none(d2);
                    }
                    None
                },
            };
            proof {
                let r1 = r_expr(cond@, names.view()).1;
                let r2 = r_stmt(then@, names.view()).1;
                lemma_reported_trans(d0, d1, d2, r1, r2);
                lemma_reported_trans(d0, d2, ctx@.diagnostics, r1 + r2, r3);
            }
            HirStmt::If { cond: c, then: Box::new(t), otherwise: o }
        },
        HirStmt::While { cond, body } => {
            let ghost d0 = ctx@.diagnostics;
            let c = resolve_expr(cond, names, ctx);
            let ghost d1 = ctx@.diagnostics;
            let b = resolve_stmt(*body, names, ctx);
            proof {
                lemma_reported_trans(d0, d1, ctx@.diagnostics, r_expr(cond@, names.view()).1, r_stmt(body@, names.view()).1);
            }
            HirStmt::While { cond: c, body: Box::new(b) }
        },
        HirStmt::DoWhile { body, cond } => {
            let ghost d0 = ctx@.diagnostics;
            let c = resolve_expr(cond, names, ctx);
            let ghost d1 = ctx@.diagnostics;
            let b = resolve_stmt(*body, names, ctx);
            proof {
                lemma_reported_trans(d0, d1, ctx@.diagnostics, r_expr(cond@, names.view()).1, r_stmt(body@, names.view()).1);
            }
            HirStmt::DoWhile { body: Box::new(b), cond: c }
        },
        HirStmt::ForOf { binding, iter, body } => {
            let ghost d0 = ctx@.diagnostics;
            let i = resolve_expr(iter, names, ctx);
            let ghost d1 = ctx@.diagnostics;
            let b = resolve_stmt(*body, names, ctx);
            proof {
                lemma_reported_trans(d0, d1, ctx@.diagnostics, r_expr(iter@, names.view()).1, r_stmt(body@, names.view()).1);
            }
            HirStmt::ForOf { binding, iter: i, body: Box::new(b) }
        },
        HirStmt::ForIn { binding, iter, body } => {
            let ghost d0 = ctx@.diagnostics;
            let i = resolve_expr(iter, names, ctx);
            let ghost d1 = ctx@.diagnostics;
            let b = resolve_stmt(*body, names, ctx);
            proof {
                lemma_reported_trans(d0, d1, ctx@.diagnostics, r_expr(iter@, names.view()).1, r_stmt(body@, names.view()).1);
            }
            HirStmt::ForIn { binding, iter: i, body: Box::new(b) }
        },
        HirStmt::Switch { disc, cases } => {
            let ghost d0 = ctx@.diagnostics;
            let d = resolve_expr(disc, names, ctx);
            let ghost d1 = ctx@.diagnostics;
            let cs = resolve_cases(cases, names, ctx);
            proof {
                lemma_reported_trans(d0, d1, ctx@.diagnostics, r_expr(disc@, names.view()).1, r_cases(a_cases(cases@), names.view()).1);
            }
            HirStmt::Switch { disc: d, cases: cs }
        },
        HirStmt::Return { value } => HirStmt::Return { value: resolve_opt(value, names, ctx) },
        HirStmt::Throw { expr } => HirStmt::Throw { expr: resolve_expr(expr, names, ctx) },
        HirStmt::Try { body, catch, finally } => {
            let ghost d0 = ctx@.diagnostics;
            let ghost r1 = r_stmt(body@, names.view()).1;
            let ghost r2 = match catch {
                Some(ref c) => r_stmt(c.body@, names.view()).1,
                None => Seq::<Report>::empty(),
            };
            let ghost r3 = match finally {
                Some(ref fb) => r_stmt(fb@, names.view()).1,
                None => Seq::<Report>::empty(),
            };
            let b = resolve_stmt(*body, names, ctx);
            let ghost d1 = ctx@.diagnostics;
            let c = match catch {
                Some(c) => {
                    let HirCatchClause { binding, body } = c;
                    Some(HirCatchClause { binding, body: Box::new(resolve_stmt(*body, names, ctx)) })
                },
                None => {
                    proof {
                        lemma_reported_none(d1);
                    }
                    None
                },
            };
            let ghost d2 = ctx@.diagnostics;
            let f = match finally {
                Some(fb) => Some(Box::new(resolve_stmt(*fb, names, ctx))),
                None => {
                    let ghost d0 = ctx@.diagnostics;
                    proof {
                        lemma_reported_none(d2);
                    }
                    None
                },
            };
            proof {
                lemma_reported_trans(d0, d1, d2, r1, r2);
                lemma_reported_trans(d0, d2, ctx@.diagnostics, r1 + r2, r3);
            }
            HirStmt::Try { body: Box::new(b), catch: c, finally: f }
        },
        HirStmt::Decl(d) => HirStmt::Decl(resolve_decl(d, names, ctx)),
        other => {
            proof {
                lemma_reported_none(ctx@.diagnostics);
            }
            other
        },
    }
}

fn resolve_methods(v: Vec<HirFunction>, names: &ClosureNames, ctx: &mut PassContext) -> (w: Vec<HirFunction>)
    ensures
        a_functions(w@) == r_methods(a_functions(v@), names.view()).0,
        reported(old(ctx)@.diagnostics, final(ctx)@.diagnostics, r_methods(a_functions(v@), names.view()).1),
        same_counters(old(ctx)@, final(ctx)@),
    decreases v, 1nat,
{
    let ghost sv = a_functions(v@);
    let ghost d0 = ctx@.diagnostics;
    proof {
        lemma_a_functions(v@);
        assert(sv.take(0) =~= Seq::<AFunction>::empty());
        lemma_reported_none(d0);
    }
    let mut src = v;
    let n = src.len();
    let mut out: Vec<HirFunction> = Vec::new();
    let mut i: usize = 0;
    while i < n
        invariant
            sv == a_functions(v@),
            n == src@.len(),
            n == sv.len(),
            i <= n,
            n == v@.len(),
            forall|j: int| i <= j < n ==> #[trigger] src@[j] == v@[j],
            forall|j: int| i <= j < n ==> a_function(#[trigger] src@[j]) == sv[j],
            a_functions(out@) == r_methods(sv.take(i as int), names.view()).0,
            reported(d0, ctx@.diagnostics, r_methods(sv.take(i as int), names.view()).1),
            same_counters(old(ctx)@, ctx@),
        decreases n - i,
    {
        let mut tmp = HirFunction::default();
        std::mem::swap(&mut tmp, &mut src[i]);
        proof {
            assert(a_function(tmp) == sv[i as int]);
            assert(decreases_to!(v => v@[i as int]));
            assert(decreases_to!(v@[i as int] => v@[i as int].body));
            assert(sv.take(i + 1).drop_last() =~= sv.take(i as int));
        }
        let HirFunction { name, params, ret, throws, body, is_async, is_generator, is_exported, type_params, async_info } = tmp;
        let ghost d1 = ctx@.diagnostics;
        let b = resolve_stmts(body, names, ctx);
        proof {
            lemma_reported_trans(d0, d1, ctx@.diagnostics, r_methods(sv.take(i as int), names.view()).1, r_stmts(sv[i as int].body, names.view()).1);
        }
        let nf = HirFunction { name, params, ret, throws, body: b, is_async, is_generator, is_exported, type_params, async_info };
        proof {
            assert(a_function(nf) == (AFunction { body: r_stmts(sv[i as int].body, names.view()).0, ..sv[i as int] }));
        }
        let ghost prev = out@;
        out.push(nf);
        proof {
            assert(out@.drop_last() =~= prev);
        }
        i = i + 1;
    }
    proof {
        assert(sv.take(n as int) =~= sv);
    }
    out
}

fn resolve_function(f: HirFunction, names: &ClosureNames, ctx: &mut PassContext) -> (y: HirFunction)
    ensures
        a_function(y) == (AFunction { body: r_stmts(a_function(f).body, names.view()).0, ..a_function(f) }),
        reported(old(ctx)@.diagnostics, final(ctx)@.diagnostics, r_stmts(a_function(f).body, names.view()).1),
        same_counters(old(ctx)@, final(ctx)@),
    decreases f, 1nat,
{
    let HirFunction { name, params, ret, throws, body, is_async, is_generator, is_exported, type_params, async_info } = f;
    let b = resolve_stmts(body, names, ctx);
    HirFunction { name, params, ret, throws, body: b, is_async, is_generator, is_exported, type_params, async_info }
}

fn resolve_decl(d: HirDecl, names: &ClosureNames, ctx: &mut PassContext) -> (y: HirDecl)
    ensures
        y@ == r_decl(d@, names.view()).0,
        reported(old(ctx)@.diagnostics, final(ctx)@.diagnostics, r_decl(d@, names.view()).1),
        same_counters(old(ctx)@, final(ctx)@),
    decreases d, 0nat,
{
    match d {
        HirDecl::Function(f) => HirDecl::Function(resolve_function(f, names, ctx)),
        HirDecl::Class(c) => {
            let HirClass { name, ty, fields, methods, extends, type_params } = c;
            let ms = resolve_methods(methods, names, ctx);
            HirDecl::Class(HirClass { name, ty, fields, methods: ms, extends, type_params })
        },
        HirDecl::Global { name, ty, init } => {
            let x = resolve_opt(init, names, ctx);
            HirDecl::Global { name, ty, init: x }
        },
        HirDecl::Namespace { name, members } => HirDecl::Namespace { name, members: resolve_decls(members, names, ctx) },
        other => {
            proof {
                lemma_reported_none(ctx@.diagnostics);
            }
            other
        },
    }
}

fn resolve_decls(v: Vec<HirDecl>, names: &ClosureNames, ctx: &mut PassContext) -> (w: Vec<HirDecl>)
    ensures
        a_decls(w@) == r_decls(a_decls(v@), names.view()).0,
        reported(old(ctx)@.diagnostics, final(ctx)@.diagnostics, r_decls(a_decls(v@), names.view()).1),
        same_counters(old(ctx)@, final(ctx)@),
    decreases v, 1nat,
{
    let ghost sv = a_decls(v@);
    let ghost d0 = ctx@.diagnostics;
    proof {
        lemma_a_decls(v@);
        assert(sv.take(0) =~= Seq::<ADecl>::empty());
        lemma_reported_none(d0);
    }
    let mut src = v;
    let n = src.len();
    let mut out: Vec<HirDecl> = Vec::new();
    let mut i: usize = 0;
    while i < n
        invariant
            sv == a_decls(v@),
            n == src@.len(),
            n == sv.len(),
            i <= n,
            n == v@.len(),
            forall|j: int| i <= j < n ==> #[trigger] src@[j] == v@[j],
            forall|j: int| i <= j < n ==> a_decl(#[trigger] src@[j]) == sv[j],
            a_decls(out@) == r_decls(sv.take(i as int), names.view()).0,
            reported(d0, ctx@.diagnostics, r_decls(sv.take(i as int), names.view()).1),
            same_counters(old(ctx)@, ctx@),
        decreases n - i,
    {
        let mut tmp = HirDecl::Interface { name: Atom::from_str("") };
        std::mem::swap(&mut tmp, &mut src[i]);
        proof {
            assert(tmp@ == sv[i as int]);
            assert(decreases_to!(v => v@[i as int]));
            assert(sv.take(i + 1).drop_last() =~= sv.take(i as int));
        }
        let ghost d1 = ctx@.diagnostics;
        let y = resolve_decl(tmp, names, ctx);
        proof {
            lemma_reported_trans(d0, d1, ctx@.diagnostics, r_decls(sv.take(i as int), names.view()).1, r_decl(sv[i as int], names.view()).1);
        }
        let ghost prev = out@;
        out.push(y);
        proof {
            assert(out@.drop_last() =~= prev);
        }
        i = i + 1;
    }
    proof {
        assert(sv.take(n as int) =~= sv);
    }
    out
}



// ---------------------------------------------------------------------------
// Names
// ---------------------------------------------------------------------------

/// The name of the `n`-th generated function.
fn fresh_closure_name(n: u32) -> (a: Atom)
    ensures
        a@ == closure_name(n as int),
{
    let mut s = String::new();
    push_str(&mut s, "__ts_aot_closure_");
    push_decimal(&mut s, n as u128);
    proof {
        assert(s@ =~= closure_name(n as int));
    }
    Atom::from_string(s)
}

/// Moves `next_id` on to the first id whose name is not taken and returns
/// that name.
fn next_unused_closure_name(next_id: &mut u32, taken: &NameSet) -> (name: Atom)
    requires
        first_free(*old(next_id) as int, taken.view()) < u32::MAX,
    ensures
        *final(next_id) as int == first_free(*old(next_id) as int, taken.view()),
        name@ == closure_name(*final(next_id) as int),
{
    let ghost k = first_free(*next_id as int, taken.view());
    let mut name = fresh_closure_name(*next_id);
    while taken.contains(&name)
        invariant
            first_free(*next_id as int, taken.view()) == k,
            k < u32::MAX,
            name@ == closure_name(*next_id as int),
        decreases u32::MAX - *next_id,
    {
        *next_id = *next_id + 1;
        name = fresh_closure_name(*next_id);
    }
    name
}

/// The return type of the first function in `decls` named `name`, or
/// type 0.
fn closure_callee_ty(decls: &Vec<HirDecl>, name: &Atom) -> (ty: TypeId)
    ensures
        ty == callee_ty(a_decls(decls@), name@),
{
    let ghost dv = a_decls(decls@);
    proof {
        lemma_a_decls(decls@);
        assert(dv.skip(0) =~= dv);
    }
    let mut i: usize = 0;
    while i < decls.len()
        invariant
            dv == a_decls(decls@),
            dv.len() == decls@.len(),
            i <= decls@.len(),
            callee_ty(dv, name@) == callee_ty(dv.skip(i as int), name@),
        decreases decls@.len() - i,
    {
        proof {
            lemma_a_decls(decls@);
            assert(dv.skip(i as int)[0] == dv[i as int]);
            assert(dv.skip(i as int).drop_first() =~= dv.skip(i + 1));
        }
        match &decls[i] {
            HirDecl::Function(f) => {
                if f.name.same(name) {
                    return f.ret;
                }
            },
            _ => {},
        }
        i = i + 1;
    }
    proof {
        assert(dv.skip(i as int).len() == 0);
    }
    TypeId(0)
}

/// Adds the names that the declarations bind to `taken`.
fn collect_taken_names(decls: &Vec<HirDecl>, taken: &mut NameSet)
    ensures
        final(taken).view() == old(taken).view().union(taken_names(a_decls(decls@))),
    decreases decls,
{
    let ghost dv = a_decls(decls@);
    proof {
        lemma_a_decls(decls@);
        assert(dv.take(0) =~= Seq::<ADecl>::empty());
        assert(old(taken).view().union(Set::empty()) =~= old(taken).view());
    }
    let mut i: usize = 0;
    while i < decls.len()
        invariant
            dv == a_decls(decls@),
            dv.len() == decls@.len(),
            i <= decls@.len(),
            taken.view() == old(taken).view().union(taken_names(dv.take(i as int))),
        decreases decls@.len() - i,
    {
        proof {
            lemma_a_decls(decls@);
            assert(dv.take(i + 1).drop_last() =~= dv.take(i as int));
            assert(decreases_to!(decls => decls@[i as int]));
        }
        let ghost before = taken.view();
        match &decls[i] {
            HirDecl::Function(f) => {
                taken.insert(f.name.duplicate());
            },
            HirDecl::Class(c) => {
                taken.insert(c.name.duplicate());
                let ghost ms = a_functions(c.methods@);
                proof {
                    lemma_a_functions(c.methods@);
                    assert(ms.take(0) =~= Seq::<AFunction>::empty());
                }
                let mut j: usize = 0;
                while j < c.methods.len()
                    invariant
                        ms == a_functions(c.methods@),
                        ms.len() == c.methods@.len(),
                        j <= c.methods@.len(),
                        taken.view() == before.insert(c.name@).union(method_names(ms.take(j as int))),
                    decreases c.methods@.len() - j,
                {
                    proof {
                        lemma_a_functions(c.methods@);
                        assert(ms.take(j + 1).drop_last() =~= ms.take(j as int));
                    }
                    taken.insert(c.methods[j].name.duplicate());
                    j = j + 1;
                    proof {
                        assert(taken.view() =~= before.insert(c.name@).union(method_names(ms.take(j as int))));
                    }
                }
                proof {
                    assert(ms.take(j as int) =~= ms);
                }
            },
            HirDecl::Namespace { members, .. } => {
                collect_taken_names(members, taken);
            },
            HirDecl::Enum { name, .. } => {
                taken.insert(name.duplicate());
            },
            HirDecl::Interface { name } => {
                taken.insert(name.duplicate());
            },
            HirDecl::TypeAlias { name, .. } => {
                taken.insert(name.duplicate());
            },
            HirDecl::Global { name, .. } => {
                taken.insert(name.duplicate());
            },
        }
        i = i + 1;
        proof {
            assert(taken.view() =~= before.union(decl_names(dv[i - 1])));
            assert(taken.view() =~= old(taken).view().union(taken_names(dv.take(i as int))));
        }
    }
    proof {
        assert(dv.take(i as int) =~= dv);
    }
}


// ---------------------------------------------------------------------------
// The lifting state
// ---------------------------------------------------------------------------

/// What the pass carries from scope to scope.
struct Lifter {
    next_id: u32,
    new_decls: Vec<HirDecl>,
    generated: Vec<Atom>,
    taken: NameSet,
    stats: LowerClosuresStats,
    /// The diagnostics reported so far.
    reports: Ghost<Seq<Report>>,
    /// The diagnostics of the context when the pass started.
    base: Ghost<Seq<Diagnostic>>,
    /// The names bound by the program itself.
    initial: Ghost<Set<Seq<char>>>,
}

/// The texts of a list of names.
pub open spec fn texts_of(s: Seq<Atom>) -> Seq<Seq<char>> {
    s.map_values(|a: Atom| a@)
}

impl Lifter {
    spec fn state(&self) -> Lift {
        Lift {
            next: self.next_id as int,
            decls: a_decls(self.new_decls@),
            generated: texts_of(self.generated@),
            taken: self.taken.view(),
            emitted: self.stats.emitted_fns as nat,
            deferred: self.stats.deferred_capturing as nat,
            reports: self.reports@,
            ok: true,
        }
    }

    /// Generated names are distinct, taken, and none of the program's own.
    spec fn inv(&self) -> bool {
        &&& forall|i: int| 0 <= i < self.generated@.len() ==> self.taken.view().contains(#[trigger] self.generated@[i]@)
        &&& forall|i: int, j: int| 0 <= i < j < self.generated@.len() ==> #[trigger] self.generated@[i]@ != #[trigger] self.generated@[j]@
        &&& forall|i: int| 0 <= i < self.generated@.len() ==> !self.initial@.contains(#[trigger] self.generated@[i]@)
        &&& forall|t: Seq<char>| #[trigger] self.initial@.contains(t) ==> self.taken.view().contains(t)
        &&& forall|i: int| 0 <= i < self.generated@.len() ==> is_closure_name(#[trigger] self.generated@[i]@)
    }

    /// The diagnostics of `ctx` are those at the start and then those
    /// reported.
    spec fn synced(&self, ctx: PassContextView) -> bool {
        reported(self.base@, ctx.diagnostics, self.reports@)
    }

    /// The parts that stay fixed for the whole pass.
    spec fn kept(&self, other: Lifter) -> bool {
        &&& other.base@ == self.base@
        &&& other.initial@ == self.initial@
    }
}

proof fn lemma_expr_ok(e: AExpr, st: Lift, m: Names)
    ensures
        lift_expr(e, st, m).1.ok ==> st.ok,
{
    if !st.ok {
        assert(lift_expr(e, st, m) == (e, st, m));
    }
}

proof fn lemma_stmt_ok(s: AStmt, st: Lift, m: Names)
    ensures
        lift_stmt(s, st, m).1.ok ==> st.ok,
{
    if !st.ok {
        assert(lift_stmt(s, st, m) == (s, st, m));
    }
}

proof fn lemma_opt_ok(o: Option<AExpr>, st: Lift, m: Names)
    ensures
        lift_opt(o, st, m).1.ok ==> st.ok,
{
    match o {
        Some(e) => lemma_expr_ok(e, st, m),
        None => {},
    }
}

proof fn lemma_stmts_ok(s: Seq<AStmt>, st: Lift, m: Names)
    ensures
        lift_stmts(s, st, m).1.ok ==> st.ok,
{
    if !st.ok {
        assert(lift_stmts(s, st, m) == (s, st, m));
    }
}

proof fn lemma_exprs_ok(s: Seq<AExpr>, st: Lift, m: Names)
    ensures
        lift_exprs(s, st, m).1.ok ==> st.ok,
{
    if !st.ok {
        assert(lift_exprs(s, st, m) == (s, st, m));
    }
}

proof fn lemma_scope_ok(s: Seq<AStmt>, st: Lift)
    ensures
        lift_scope(s, st).1.ok ==> st.ok,
{
    lemma_stmts_ok(s, st, Map::empty());
}

proof fn lemma_decl_ok(d: ADecl, st: Lift)
    ensures
        lift_decl(d, st).1.ok ==> st.ok,
{
    if !st.ok {
        assert(lift_decl(d, st) == (d, st));
    }
}

proof fn lemma_lift_exprs_ok(s: Seq<AExpr>, st: Lift, m: Names, i: int)
    requires
        st.ok,
        0 <= i <= s.len(),
        lift_exprs(s, st, m).1.ok,
    ensures
        lift_exprs(s.take(i), st, m).1.ok,
    decreases s.len() - i,
{
    if i < s.len() {
        lemma_lift_exprs_ok(s, st, m, i + 1);
        let t = s.take(i + 1);
        assert(t.drop_last() =~= s.take(i));
        let (xs, st1, m1) = lift_exprs(s.take(i), st, m);
        lemma_expr_ok(t.last(), st1, m1);
    } else {
        assert(s.take(i) =~= s);
    }
}

proof fn lemma_lift_fields_ok(s: Seq<(FieldId, AExpr)>, st: Lift, m: Names, i: int)
    requires
        st.ok,
        0 <= i <= s.len(),
        lift_fields(s, st, m).1.ok,
    ensures
        lift_fields(s.take(i), st, m).1.ok,
    decreases s.len() - i,
{
    if i < s.len() {
        lemma_lift_fields_ok(s, st, m, i + 1);
        let t = s.take(i + 1);
        assert(t.drop_last() =~= s.take(i));
        let (xs, st1, m1) = lift_fields(s.take(i), st, m);
        lemma_expr_ok(t.last().1, st1, m1);
    } else {
        assert(s.take(i) =~= s);
    }
}

proof fn lemma_lift_stmts_ok(s: Seq<AStmt>, st: Lift, m: Names, i: int)
    requires
        st.ok,
        0 <= i <= s.len(),
        lift_stmts(s, st, m).1.ok,
    ensures
        lift_stmts(s.take(i), st, m).1.ok,
    decreases s.len() - i,
{
    if i < s.len() {
        lemma_lift_stmts_ok(s, st, m, i + 1);
        let t = s.take(i + 1);
        assert(t.drop_last() =~= s.take(i));
        let (xs, st1, m1) = lift_stmts(s.take(i), st, m);
        lemma_stmt_ok(t.last(), st1, m1);
    } else {
        assert(s.take(i) =~= s);
    }
}

proof fn lemma_lift_cases_ok(s: Seq<ACase>, st: Lift, m: Names, i: int)
    requires
        st.ok,
        0 <= i <= s.len(),
        lift_cases(s, st, m).1.ok,
    ensures
        lift_cases(s.take(i), st, m).1.ok,
    decreases s.len() - i,
{
    if i < s.len() {
        lemma_lift_cases_ok(s, st, m, i + 1);
        let t = s.take(i + 1);
        assert(t.drop_last() =~= s.take(i));
        let (xs, st1, m1) = lift_cases(s.take(i), st, m);
        let (tt, st2, m2) = lift_opt(t.last().test, st1, m1);
        lemma_stmts_ok(t.last().body, st2, m2);
        lemma_opt_ok(t.last().test, st1, m1);
    } else {
        assert(s.take(i) =~= s);
    }
}

proof fn lemma_lift_methods_ok(s: Seq<AFunction>, st: Lift, i: int)
    requires
        st.ok,
        0 <= i <= s.len(),
        lift_methods(s, st).1.ok,
    ensures
        lift_methods(s.take(i), st).1.ok,
    decreases s.len() - i,
{
    if i < s.len() {
        lemma_lift_methods_ok(s, st, i + 1);
        let t = s.take(i + 1);
        assert(t.drop_last() =~= s.take(i));
        let (xs, st1) = lift_methods(s.take(i), st);
        lemma_scope_ok(t.last().body, st1);
    } else {
        assert(s.take(i) =~= s);
    }
}

proof fn lemma_lift_decls_ok(s: Seq<ADecl>, st: Lift, i: int)
    requires
        st.ok,
        0 <= i <= s.len(),
        lift_decls(s, st).1.ok,
    ensures
        lift_decls(s.take(i), st).1.ok,
    decreases s.len() - i,
{
    if i < s.len() {
        lemma_lift_decls_ok(s, st, i + 1);
        let t = s.take(i + 1);
        assert(t.drop_last() =~= s.take(i));
        let (xs, st1) = lift_decls(s.take(i), st);
        lemma_decl_ok(t.last(), st1);
    } else {
        assert(s.take(i) =~= s);
    }
}


proof fn lemma_first_free(n: int, taken: Set<Seq<char>>)
    ensures
        first_free(n, taken) >= n,
        first_free(n, taken) < u32::MAX ==> !taken.contains(closure_name(first_free(n, taken))),
    decreases u32::MAX - n,
{
    if !taken.contains(closure_name(n)) || n >= u32::MAX {
    } else {
        lemma_first_free(n + 1, taken);
    }
}

/// The lifter is consistent with the context.
spec fn ready(lf: Lifter, ctx: PassContextView) -> bool {
    lf.inv() && lf.synced(ctx)
}

/// After a step the lifter is consistent, its fixed parts are unchanged,
/// its state is `st` and the context's counters are unchanged.
spec fn stepped(lf0: Lifter, lf1: Lifter, ctx0: PassContextView, ctx1: PassContextView, st: Lift) -> bool {
    &&& ready(lf1, ctx1)
    &&& lf0.kept(lf1)
    &&& lf1.state() == st
    &&& same_counters(ctx0, ctx1)
}

/// The abstract value of a closure expression.
spec fn closure_view(id: LocalId, params: Seq<HirParam>, captures: Seq<HirExpr>, body: Seq<HirStmt>, ty: TypeId) -> AExpr {
    AExpr::Closure { id, params: a_params(params), captures: a_exprs(captures), body: a_stmts(body), ty }
}

// ---------------------------------------------------------------------------
// Executable lifting
// ---------------------------------------------------------------------------

/// Replaces a closure by a reference to a new top-level function, or
/// leaves it in place with a warning when it captures variables.
fn lift_closure(
    id: LocalId,
    params: Vec<HirParam>,
    captures: Vec<HirExpr>,
    body: Vec<HirStmt>,
    ty: TypeId,
    lf: &mut Lifter,
    names: &mut ClosureNames,
    ctx: &mut PassContext,
) -> (y: HirExpr)
    requires
        ready(*old(lf), old(ctx)@),
        lift_expr(closure_view(id, params@, captures@, body@, ty), old(lf).state(), old(names).view()).1.ok,
    ensures
        stepped(*old(lf), *final(lf), old(ctx)@, final(ctx)@,
            lift_expr(closure_view(id, params@, captures@, body@, ty), old(lf).state(), old(names).view()).1),
        y@ == lift_expr(closure_view(id, params@, captures@, body@, ty), old(lf).state(), old(names).view()).0,
        final(names).view() == lift_expr(closure_view(id, params@, captures@, body@, ty), old(lf).state(), old(names).view()).2,
    decreases body, 2nat,
{
    let ghost st0 = lf.state();
    let ghost m0 = names.view();
    let ghost pv = a_params(params@);
    let ghost bv = a_stmts(body@);
    proof {
        lemma_a_exprs(captures@);
    }
    if captures.len() > 0 {
        let ghost d0 = ctx@.diagnostics;
        report_capturing(ctx);
        lf.stats.deferred_capturing = lf.stats.deferred_capturing + 1;
        proof {
            lemma_reported_trans(lf.base@, d0, ctx@.diagnostics, lf.reports@, seq![Report::CapturingClosure]);
            assert(lf.reports@ + seq![Report::CapturingClosure] =~= lf.reports@.push(Report::CapturingClosure));
        }
        lf.reports = Ghost(lf.reports@.push(Report::CapturingClosure));
        return HirExpr::Closure { id, params, captures, body, ty };
    }
    let b1 = walk_stmts(body, lf, names, ctx);
    let ghost st1 = lf.state();
    let ghost m1 = names.view();
    let ghost d1 = ctx@.diagnostics;
    let b2 = resolve_stmts(b1, names, ctx);
    let ghost r = r_stmts(a_stmts(b1@), m1).1;
    proof {
        lemma_reported_trans(lf.base@, d1, ctx@.diagnostics, lf.reports@, r);
    }
    lf.reports = Ghost(lf.reports@ + r);
    let ghost k = first_free(st1.next, st1.taken);
    proof {
        lemma_first_free(st1.next, st1.taken);
    }
    let name = next_unused_closure_name(&mut lf.next_id, &lf.taken);
    lf.next_id = lf.next_id + 1;
    let ghost gen0 = lf.generated@;
    let ghost taken0 = lf.taken.view();
    lf.taken.insert(name.duplicate());
    let f = HirFunction {
        name: name.duplicate(),
        params,
        ret: ty,
        throws: None,
        body: b2,
        is_async: false,
        is_generator: false,
        is_exported: false,
        type_params: Vec::new(),
        async_info: None,
    };
    let ghost fv = lifted_function(closure_name(k), pv, a_stmts(b2@), ty);
    proof {
        assert(a_function(f).type_params =~= Seq::<crate::ids::GenericParamId>::empty());
        assert(a_function(f) == fv);
    }
    let ghost decls0 = lf.new_decls@;
    let fdecl = HirDecl::Function(f);
    proof {
        assert(a_decl(fdecl) == ADecl::Function(fv));
    }
    lf.new_decls.push(fdecl);
    proof {
        assert(lf.new_decls@.drop_last() =~= decls0);
        assert(lf.new_decls@.last() == fdecl);
        assert(a_decls(lf.new_decls@) == a_decls(decls0).push(ADecl::Function(fv)));
    }
    names.insert(id, name.duplicate());
    lf.generated.push(name.duplicate());
    lf.stats.emitted_fns = lf.stats.emitted_fns + 1;
    proof {
        assert(texts_of(lf.generated@) =~= texts_of(gen0).push(closure_name(k)));
        assert(lf.taken.view() == taken0.insert(closure_name(k)));
        assert forall|i: int| 0 <= i < lf.generated@.len() implies lf.taken.view().contains(#[trigger] lf.generated@[i]@) by {
            if i < gen0.len() {
                assert(lf.generated@[i] == gen0[i]);
            }
        }
        assert forall|i: int, j: int| 0 <= i < j < lf.generated@.len() implies #[trigger] lf.generated@[i]@ != #[trigger] lf.generated@[j]@ by {
            if j == gen0.len() {
                assert(lf.generated@[i] == gen0[i]);
                assert(taken0.contains(gen0[i]@));
            } else {
                assert(lf.generated@[i] == gen0[i]);
                assert(lf.generated@[j] == gen0[j]);
            }
        }
        assert forall|i: int| 0 <= i < lf.generated@.len() implies is_closure_name(#[trigger] lf.generated@[i]@) by {
            if i < gen0.len() {
                assert(lf.generated@[i] == gen0[i]);
            } else {
                assert(lf.generated@[i]@ == closure_name(k));
            }
        }
        assert forall|i: int| 0 <= i < lf.generated@.len() implies !lf.initial@.contains(#[trigger] lf.generated@[i]@) by {
            if i < gen0.len() {
                assert(lf.generated@[i] == gen0[i]);
            } else {
                assert(lf.generated@[i]@ == closure_name(k));
            }
        }
        let cv = closure_view(id, params@, captures@, body@, ty);
        assert(lift_expr(cv, st0, m0) == {
            let (bb1, ss1, mm1) = lift_stmts(bv, st0, m0);
            let (bb2, rr) = r_stmts(bb1, mm1);
            let kk = first_free(ss1.next, ss1.taken);
            let ff = lifted_function(closure_name(kk), pv, bb2, ty);
            (AExpr::Global { name: closure_name(kk), ty }, lifted_step(ss1, kk, ff, rr), mm1.insert(id, closure_name(kk)))
        });
        assert(lf.state() == lifted_step(st1, k, fv, r));
    }
    HirExpr::Global { name, ty }
}


fn walk_exprs(v: Vec<HirExpr>, lf: &mut Lifter, names: &mut ClosureNames, ctx: &mut PassContext) -> (w: Vec<HirExpr>)
    requires
        ready(*old(lf), old(ctx)@),
        lift_exprs(a_exprs(v@), old(lf).state(), old(names).view()).1.ok,
    ensures
        stepped(*old(lf), *final(lf), old(ctx)@, final(ctx)@, lift_exprs(a_exprs(v@), old(lf).state(), old(names).view()).1),
        a_exprs(w@) == lift_exprs(a_exprs(v@), old(lf).state(), old(names).view()).0,
        final(names).view() == lift_exprs(a_exprs(v@), old(lf).state(), old(names).view()).2,
    decreases v, 1nat,
{
    let ghost sv = a_exprs(v@);
    let ghost st0 = lf.state();
    let ghost m0 = names.view();
    let ghost lf0 = *lf;
    let ghost c0 = ctx@;
    proof {
        lemma_a_exprs(v@);
        assert(sv.take(0) =~= Seq::<AExpr>::empty());
    }
    let mut src = v;
    let n = src.len();
    let mut out: Vec<HirExpr> = Vec::new();
    let mut i: usize = 0;
    while i < n
        invariant
            sv == a_exprs(v@),
            n == src@.len(),
            n == sv.len(),
            n == v@.len(),
            i <= n,
            forall|j: int| i <= j < n ==> #[trigger] src@[j] == v@[j],
            st0.ok,
            lift_exprs(sv, st0, m0).1.ok,
            ready(*lf, ctx@),
            lf0.kept(*lf),
            same_counters(c0, ctx@),
            a_exprs(out@) == lift_exprs(sv.take(i as int), st0, m0).0,
            lf.state() == lift_exprs(sv.take(i as int), st0, m0).1,
            names.view() == lift_exprs(sv.take(i as int), st0, m0).2,
        decreases n - i,
    {
        let mut tmp = HirExpr::Unit;
        std::mem::swap(&mut tmp, &mut src[i]);
        proof {
            lemma_a_exprs(v@);
            assert(decreases_to!(v => v@[i as int]));
            
            assert(sv.take(i + 1).drop_last() =~= sv.take(i as int));
            lemma_lift_exprs_ok(sv, st0, m0, i + 1);
        }
        let y = walk_expr(tmp, lf, names, ctx);
        let ghost prev = out@;
        out.push(y);
        proof {
            assert(out@.drop_last() =~= prev);
        }
        i = i + 1;
    }
    proof {
        assert(sv.take(n as int) =~= sv);
    }
    out
}

fn walk_fields(v: Vec<(FieldId, HirExpr)>, lf: &mut Lifter, names: &mut ClosureNames, ctx: &mut PassContext) -> (w: Vec<(FieldId, HirExpr)>)
    requires
        ready(*old(lf), old(ctx)@),
        lift_fields(a_fields(v@), old(lf).state(), old(names).view()).1.ok,
    ensures
        stepped(*old(lf), *final(lf), old(ctx)@, final(ctx)@, lift_fields(a_fields(v@), old(lf).state(), old(names).view()).1),
        a_fields(w@) == lift_fields(a_fields(v@), old(lf).state(), old(names).view()).0,
        final(names).view() == lift_fields(a_fields(v@), old(lf).state(), old(names).view()).2,
    decreases v, 1nat,
{
    let ghost sv = a_fields(v@);
    let ghost st0 = lf.state();
    let ghost m0 = names.view();
    let ghost lf0 = *lf;
    let ghost c0 = ctx@;
    proof {
        lemma_a_fields(v@);
        assert(sv.take(0) =~= Seq::<(FieldId, AExpr)>::empty());
    }
    let mut src = v;
    let n = src.len();
    let mut out: Vec<(FieldId, HirExpr)> = Vec::new();
    let mut i: usize = 0;
    while i < n
        invariant
            sv == a_fields(v@),
            n == src@.len(),
            n == sv.len(),
            n == v@.len(),
            i <= n,
            forall|j: int| i <= j < n ==> #[trigger] src@[j] == v@[j],
            st0.ok,
            lift_fields(sv, st0, m0).1.ok,
            ready(*lf, ctx@),
            lf0.kept(*lf),
            same_counters(c0, ctx@),
            a_fields(out@) == lift_fields(sv.take(i as int), st0, m0).0,
            lf.state() == lift_fields(sv.take(i as int), st0, m0).1,
            names.view() == lift_fields(sv.take(i as int), st0, m0).2,
        decreases n - i,
    {
        let mut tmp = (FieldId(0), HirExpr::Unit);
        std::mem::swap(&mut tmp, &mut src[i]);
        proof {
            lemma_a_fields(v@);
            assert(decreases_to!(v => v@[i as int]));
            assert(decreases_to!(v@[i as int] => v@[i as int].1));
            assert(sv.take(i + 1).drop_last() =~= sv.take(i as int));
            lemma_lift_fields_ok(sv, st0, m0, i + 1);
        }
        let (f, e) = tmp;
        let x = walk_expr(e, lf, names, ctx);
        let y = (f, x);
        let ghost prev = out@;
        out.push(y);
        proof {
            assert(out@.drop_last() =~= prev);
        }
        i = i + 1;
    }
    proof {
        assert(sv.take(n as int) =~= sv);
    }
    out
}

fn walk_stmts(v: Vec<HirStmt>, lf: &mut Lifter, names: &mut ClosureNames, ctx: &mut PassContext) -> (w: Vec<HirStmt>)
    requires
        ready(*old(lf), old(ctx)@),
        lift_stmts(a_stmts(v@), old(lf).state(), old(names).view()).1.ok,
    ensures
        stepped(*old(lf), *final(lf), old(ctx)@, final(ctx)@, lift_stmts(a_stmts(v@), old(lf).state(), old(names).view()).1),
        a_stmts(w@) == lift_stmts(a_stmts(v@), old(lf).state(), old(names).view()).0,
        final(names).view() == lift_stmts(a_stmts(v@), old(lf).state(), old(names).view()).2,
    decreases v, 1nat,
{
    let ghost sv = a_stmts(v@);
    let ghost st0 = lf.state();
    let ghost m0 = names.view();
    let ghost lf0 = *lf;
    let ghost c0 = ctx@;
    proof {
        lemma_a_stmts(v@);
        assert(sv.take(0) =~= Seq::<AStmt>::empty());
    }
    let mut src = v;
    let n = src.len();
    let mut out: Vec<HirStmt> = Vec::new();
    let mut i: usize = 0;
    while i < n
        invariant
            sv == a_stmts(v@),
            n == src@.len(),
            n == sv.len(),
            n == v@.len(),
            i <= n,
            forall|j: int| i <= j < n ==> #[trigger] src@[j] == v@[j],
            st0.ok,
            lift_stmts(sv, st0, m0).1.ok,
            ready(*lf, ctx@),
            lf0.kept(*lf),
            same_counters(c0, ctx@),
            a_stmts(out@) == lift_stmts(sv.take(i as int), st0, m0).0,
            lf.state() == lift_stmts(sv.take(i as int), st0, m0).1,
            names.view() == lift_stmts(sv.take(i as int), st0, m0).2,
        decreases n - i,
    {
        let mut tmp = HirStmt::Break { label: None };
        std::mem::swap(&mut tmp, &mut src[i]);
        proof {
            lemma_a_stmts(v@);
            assert(decreases_to!(v => v@[i as int]));
            
            assert(sv.take(i + 1).drop_last() =~= sv.take(i as int));
            lemma_lift_stmts_ok(sv, st0, m0, i + 1);
        }
        let y = walk_stmt(tmp, lf, names, ctx);
        let ghost prev = out@;
        out.push(y);
        proof {
            assert(out@.drop_last() =~= prev);
        }
        i = i + 1;
    }
    proof {
        assert(sv.take(n as int) =~= sv);
    }
    out
}

fn walk_cases(v: Vec<HirSwitchCase>, lf: &mut Lifter, names: &mut ClosureNames, ctx: &mut PassContext) -> (w: Vec<HirSwitchCase>)
    requires
        ready(*old(lf), old(ctx)@),
        lift_cases(a_cases(v@), old(lf).state(), old(names).view()).1.ok,
    ensures
        stepped(*old(lf), *final(lf), old(ctx)@, final(ctx)@, lift_cases(a_cases(v@), old(lf).state(), old(names).view()).1),
        a_cases(w@) == lift_cases(a_cases(v@), old(lf).state(), old(names).view()).0,
        final(names).view() == lift_cases(a_cases(v@), old(lf).state(), old(names).view()).2,
    decreases v, 1nat,
{
    let ghost sv = a_cases(v@);
    let ghost st0 = lf.state();
    let ghost m0 = names.view();
    let ghost lf0 = *lf;
    let ghost c0 = ctx@;
    proof {
        lemma_a_cases(v@);
        assert(sv.take(0) =~= Seq::<ACase>::empty());
    }
    let mut src = v;
    let n = src.len();
    let mut out: Vec<HirSwitchCase> = Vec::new();
    let mut i: usize = 0;
    while i < n
        invariant
            sv == a_cases(v@),
            n == src@.len(),
            n == sv.len(),
            n == v@.len(),
            i <= n,
            forall|j: int| i <= j < n ==> #[trigger] src@[j] == v@[j],
            st0.ok,
            lift_cases(sv, st0, m0).1.ok,
            ready(*lf, ctx@),
            lf0.kept(*lf),
            same_counters(c0, ctx@),
            a_cases(out@) == lift_cases(sv.take(i as int), st0, m0).0,
            lf.state() == lift_cases(sv.take(i as int), st0, m0).1,
            names.view() == lift_cases(sv.take(i as int), st0, m0).2,
        decreases n - i,
    {
        let mut tmp = HirSwitchCase { test: None, body: Vec::new() };
        std::mem::swap(&mut tmp, &mut src[i]);
        proof {
            lemma_a_cases(v@);
            assert(decreases_to!(v => v@[i as int]));
            assert(decreases_to!(v@[i as int] => v@[i as int].body));
            assert(decreases_to!(v@[i as int] => v@[i as int].test));
            assert(sv.take(i + 1).drop_last() =~= sv.take(i as int));
            lemma_lift_cases_ok(sv, st0, m0, i + 1);
        }
        proof {
            let (xs, s1, n1) = lift_cases(sv.take(i as int), st0, m0);
            let (tt, s2, n2) = lift_opt(sv[i as int].test, s1, n1);
            lemma_stmts_ok(sv[i as int].body, s2, n2);
        }
        let HirSwitchCase { test, body } = tmp;
        let t = walk_opt(test, lf, names, ctx);
        let b = walk_stmts(body, lf, names, ctx);
        let y = HirSwitchCase { test: t, body: b };
        let ghost prev = out@;
        out.push(y);
        proof {
            assert(out@.drop_last() =~= prev);
        }
        i = i + 1;
    }
    proof {
        assert(sv.take(n as int) =~= sv);
    }
    out
}

fn walk_opt(o: Option<HirExpr>, lf: &mut Lifter, names: &mut ClosureNames, ctx: &mut PassContext) -> (y: Option<HirExpr>)
    requires
        ready(*old(lf), old(ctx)@),
        lift_opt(a_opt(o), old(lf).state(), old(names).view()).1.ok,
    ensures
        stepped(*old(lf), *final(lf), old(ctx)@, final(ctx)@, lift_opt(a_opt(o), old(lf).state(), old(names).view()).1),
        a_opt(y) == lift_opt(a_opt(o), old(lf).state(), old(names).view()).0,
        final(names).view() == lift_opt(a_opt(o), old(lf).state(), old(names).view()).2,
    decreases o, 1nat,
{
    match o {
        Some(e) => Some(walk_expr(e, lf, names, ctx)),
        None => None,
    }
}

fn walk_expr(e: HirExpr, lf: &mut Lifter, names: &mut ClosureNames, ctx: &mut PassContext) -> (y: HirExpr)
    requires
        ready(*old(lf), old(ctx)@),
        lift_expr(e@, old(lf).state(), old(names).view()).1.ok,
    ensures
        stepped(*old(lf), *final(lf), old(ctx)@, final(ctx)@, lift_expr(e@, old(lf).state(), old(names).view()).1),
        y@ == lift_expr(e@, old(lf).state(), old(names).view()).0,
        final(names).view() == lift_expr(e@, old(lf).state(), old(names).view()).2,
    decreases e, 0nat,
{
    let ghost ev = e@;
    let ghost st0 = lf.state();
    let ghost m0 = names.view();
    match e {
        HirExpr::Closure { id, params, captures, body, ty } => {
            proof {
                assert(ev == closure_view(id, params@, captures@, body@, ty));
            }
            lift_closure(id, params, captures, body, ty, lf, names, ctx)
        },
        HirExpr::Call { callee, args, ty } => {
            let ghost cv = a_callee(callee);
            let ghost av = a_exprs(args@);
            proof {
                assert(ev == AExpr::Call { callee: cv, args: av, ty });
                match cv {
                    ACallee::Indirect(inner) => {
                        let (x, s1, n1) = lift_expr(*inner, st0, m0);
                        lemma_exprs_ok(av, s1, n1);
                    },
                    _ => {},
                }
            }
            let ghost d0 = ctx@.diagnostics;
            let c = match callee {
                HirCallee::Closure(id) => match names.get(id) {
                    Some(a) => {
                        let t = closure_callee_ty(&lf.new_decls, a);
                        let g = HirExpr::Global { name: a.duplicate(), ty: t };
                        assert(g@ == AExpr::Global { name: m0[id], ty: callee_ty(st0.decls, m0[id]) });
                        HirCallee::Indirect(Box::new(g))
                    },
                    None => {
                        report_undeclared(ctx);
                        proof {
                            lemma_reported_trans(lf.base@, d0, ctx@.diagnostics, lf.reports@, seq![Report::UndeclaredClosure]);
                        }
                        lf.reports = Ghost(lf.reports@ + seq![Report::UndeclaredClosure]);
                        HirCallee::Closure(id)
                    },
                },
                HirCallee::Indirect(inner) => HirCallee::Indirect(Box::new(walk_expr(*inner, lf, names, ctx))),
                other => other,
            };
            let ghost ce = match cv {
                ACallee::Closure(id) => if m0.contains_key(id) {
                    (ACallee::Indirect(Box::new(AExpr::Global { name: m0[id], ty: callee_ty(st0.decls, m0[id]) })), st0, m0)
                } else {
                    (cv, with_reports(st0, seq![Report::UndeclaredClosure]), m0)
                },
                ACallee::Indirect(inner) => {
                    let (x, s1, n1) = lift_expr(*inner, st0, m0);
                    (ACallee::Indirect(Box::new(x)), s1, n1)
                },
                other => (other, st0, m0),
            };
            assert(a_callee(c) == ce.0 && lf.state() == ce.1 && names.view() == ce.2);
            let a = walk_exprs(args, lf, names, ctx);
            HirExpr::Call { callee: c, args: a, ty }
        },
        HirExpr::Binary { op, lhs, rhs, ty } => {
            proof {
                let (a, s1, n1) = lift_expr(lhs@, st0, m0);
                lemma_expr_ok(rhs@, s1, n1);
            }
            let l = walk_expr(*lhs, lf, names, ctx);
            let x = walk_expr(*rhs, lf, names, ctx);
            HirExpr::Binary { op, lhs: Box::new(l), rhs: Box::new(x), ty }
        },
        HirExpr::Unary { op, expr, ty } => HirExpr::Unary { op, expr: Box::new(walk_expr(*expr, lf, names, ctx)), ty },
        HirExpr::Field { owner, field, field_name, ty } =>
            HirExpr::Field { owner: Box::new(walk_expr(*owner, lf, names, ctx)), field, field_name, ty },
        HirExpr::Index { owner, index, ty } => {
            proof {
                let (a, s1, n1) = lift_expr(owner@, st0, m0);
                lemma_expr_ok(index@, s1, n1);
            }
            let o = walk_expr(*owner, lf, names, ctx);
            let i = walk_expr(*index, lf, names, ctx);
            HirExpr::Index { owner: Box::new(o), index: Box::new(i), ty }
        },
        HirExpr::StructLiteral { ty, fields } => HirExpr::StructLiteral { ty, fields: walk_fields(fields, lf, names, ctx) },
        HirExpr::ArrayLiteral { elements, ty } => HirExpr::ArrayLiteral { elements: walk_exprs(elements, lf, names, ctx), ty },
        HirExpr::Await { expr, ty } => HirExpr::Await { expr: Box::new(walk_expr(*expr, lf, names, ctx)), ty },
        HirExpr::TypeAssertion { expr, target } =>
            HirExpr::TypeAssertion { expr: Box::new(walk_expr(*expr, lf, names, ctx)), target },
        HirExpr::Yield { expr, ty } => match expr {
            Some(b) => HirExpr::Yield { expr: Some(Box::new(walk_expr(*b, lf, names, ctx))), ty },
            None => HirExpr::Yield { expr: None, ty },
        },
        HirExpr::Template { tag, parts, ty } => {
            proof {
                match tag {
                    Some(ref b) => {
                        let (a, s1, n1) = lift_expr(b@, st0, m0);
                        lemma_exprs_ok(a_exprs(parts@), s1, n1);
                    },
                    None => {},
                }
            }
            let t = match tag {
                Some(b) => Some(Box::new(walk_expr(*b, lf, names, ctx))),
                None => None,
            };
            let x = walk_exprs(parts, lf, names, ctx);
            HirExpr::Template { tag: t, parts: x, ty }
        },
        HirExpr::New { callee, args, ty } => {
            proof {
                let (a, s1, n1) = lift_expr(callee@, st0, m0);
                lemma_exprs_ok(a_exprs(args@), s1, n1);
            }
            let c = walk_expr(*callee, lf, names, ctx);
            let a = walk_exprs(args, lf, names, ctx);
            HirExpr::New { callee: Box::new(c), args: a, ty }
        },
        HirExpr::OptionalChain { base, ty } => HirExpr::OptionalChain { base: Box::new(walk_expr(*base, lf, names, ctx)), ty },
        HirExpr::Assignment { target, value, ty } => {
            proof {
                let (a, s1, n1) = lift_expr(target@, st0, m0);
                lemma_expr_ok(value@, s1, n1);
            }
            let t = walk_expr(*target, lf, names, ctx);
            let v = walk_expr(*value, lf, names, ctx);
            HirExpr::Assignment { target: Box::new(t), value: Box::new(v), ty }
        },
        other => other,
    }
}


fn walk_stmt(s: HirStmt, lf: &mut Lifter, names: &mut ClosureNames, ctx: &mut PassContext) -> (y: HirStmt)
    requires
        ready(*old(lf), old(ctx)@),
        lift_stmt(s@, old(lf).state(), old(names).view()).1.ok,
    ensures
        stepped(*old(lf), *final(lf), old(ctx)@, final(ctx)@, lift_stmt(s@, old(lf).state(), old(names).view()).1),
        y@ == lift_stmt(s@, old(lf).state(), old(names).view()).0,
        final(names).view() == lift_stmt(s@, old(lf).state(), old(names).view()).2,
    decreases s, 0nat,
{
    let ghost sv = s@;
    let ghost st0 = lf.state();
    let ghost m0 = names.view();
    match s {
        HirStmt::Block(v) => HirStmt::Block(walk_stmts(v, lf, names, ctx)),
        HirStmt::Let { id, name, ty, init } => HirStmt::Let { id, name, ty, init: walk_opt(init, lf, names, ctx) },
        HirStmt::Expr { expr } => HirStmt::Expr { expr: walk_expr(expr, lf, names, ctx) },
        HirStmt::If { cond, then, otherwise } => {
            proof {
                let (c, s1, n1) = lift_expr(cond@, st0, m0);
                let (t, s2, n2) = lift_stmt(then@, s1, n1);
                lemma_stmt_ok(then@, s1, n1);
                match otherwise {
                    Some(ref b) => lemma_stmt_ok(b@, s2, n2),
                    None => {},
                }
            }
            let c = walk_expr(cond, lf, names, ctx);
            let t = walk_stmt(*then, lf, names, ctx);
            let o = match otherwise {
                Some(b) => Some(Box::new(walk_stmt(*b, lf, names, ctx))),
                None => None,
            };
            HirStmt::If { cond: c, then: Box::new(t), otherwise: o }
        },
        HirStmt::While { cond, body } => {
            proof {
                let (c, s1, n1) = lift_expr(cond@, st0, m0);
                lemma_stmt_ok(body@, s1, n1);
            }
            let c = walk_expr(cond, lf, names, ctx);
            let b = walk_stmt(*body, lf, names, ctx);
            HirStmt::While { cond: c, body: Box::new(b) }
        },
        HirStmt::DoWhile { body, cond } => {
            proof {
                let (c, s1, n1) = lift_expr(cond@, st0, m0);
                lemma_stmt_ok(body@, s1, n1);
            }
            let c = walk_expr(cond, lf, names, ctx);
            let b = walk_stmt(*body, lf, names, ctx);
            HirStmt::DoWhile { body: Box::new(b), cond: c }
        },
        HirStmt::ForOf { binding, iter, body } => {
            proof {
                let (c, s1, n1) = lift_expr(iter@, st0, m0);
                lemma_stmt_ok(body@, s1, n1);
            }
            let i = walk_expr(iter, lf, names, ctx);
            let b = walk_stmt(*body, lf, names, ctx);
            HirStmt::ForOf { binding, iter: i, body: Box::new(b) }
        },
        HirStmt::ForIn { binding, iter, body } => {
            proof {
                let (c, s1, n1) = lift_expr(iter@, st0, m0);
                lemma_stmt_ok(body@, s1, n1);
            }
            let i = walk_expr(iter, lf, names, ctx);
            let b = walk_stmt(*body, lf, names, ctx);
            HirStmt::ForIn { binding, iter: i, body: Box::new(b) }
        },
        HirStmt::Switch { disc, cases } => {
            proof {
                let (c, s1, n1) = lift_expr(disc@, st0, m0);
                if !s1.ok {
                    assert(lift_cases(a_cases(cases@), s1, n1) == (a_cases(cases@), s1, n1));
                }
            }
            let d = walk_expr(disc, lf, names, ctx);
            let cs = walk_cases(cases, lf, names, ctx);
            HirStmt::Switch { disc: d, cases: cs }
        },
        HirStmt::Return { value } => HirStmt::Return { value: walk_opt(value, lf, names, ctx) },
        HirStmt::Throw { expr } => HirStmt::Throw { expr: walk_expr(expr, lf, names, ctx) },
        HirStmt::Try { body, catch, finally } => {
            proof {
                let (b, s1, n1) = lift_stmt(body@, st0, m0);
                lemma_stmt_ok(body@, st0, m0);
                match catch {
                    Some(ref c) => {
                        lemma_stmt_ok(c.body@, s1, n1);
                        let (x, s2, n2) = lift_stmt(c.body@, s1, n1);
                        match finally {
                            Some(ref f) => lemma_stmt_ok(f@, s2, n2),
                            None => {},
                        }
                    },
                    None => {
                        match finally {
                            Some(ref f) => lemma_stmt_ok(f@, s1, n1),
                            None => {},
                        }
                    },
                }
            }
            let b = walk_stmt(*body, lf, names, ctx);
            let c = match catch {
                Some(c) => {
                    let HirCatchClause { binding, body } = c;
                    Some(HirCatchClause { binding, body: Box::new(walk_stmt(*body, lf, names, ctx)) })
                },
                None => None,
            };
            let f = match finally {
                Some(fb) => Some(Box::new(walk_stmt(*fb, lf, names, ctx))),
                None => None,
            };
            HirStmt::Try { body: Box::new(b), catch: c, finally: f }
        },
        HirStmt::Decl(d) => HirStmt::Decl(walk_decl(d, lf, ctx)),
        other => other,
    }
}

/// Lifts the closures of a function body, which is a scope of its own, and
/// resolves the calls of the closures lifted from it.
fn process_scope(body: Vec<HirStmt>, lf: &mut Lifter, ctx: &mut PassContext) -> (y: Vec<HirStmt>)
    requires
        ready(*old(lf), old(ctx)@),
        lift_scope(a_stmts(body@), old(lf).state()).1.ok,
    ensures
        stepped(*old(lf), *final(lf), old(ctx)@, final(ctx)@, lift_scope(a_stmts(body@), old(lf).state()).1),
        a_stmts(y@) == lift_scope(a_stmts(body@), old(lf).state()).0,
    decreases body, 2nat,
{
    let mut names = ClosureNames::new();
    let b = walk_stmts(body, lf, &mut names, ctx);
    if !names.is_empty() {
        let ghost d0 = ctx@.diagnostics;
        let ghost r = r_stmts(a_stmts(b@), names.view()).1;
        let out = resolve_stmts(b, &names, ctx);
        proof {
            lemma_reported_trans(lf.base@, d0, ctx@.diagnostics, lf.reports@, r);
        }
        lf.reports = Ghost(lf.reports@ + r);
        out
    } else {
        b
    }
}

/// Lifts the closures of a global's initializer, a scope of its own.
fn process_global_init(e: HirExpr, lf: &mut Lifter, ctx: &mut PassContext) -> (y: HirExpr)
    requires
        ready(*old(lf), old(ctx)@),
        lift_expr(e@, old(lf).state(), Map::empty()).1.ok,
    ensures
        ({
            let (x, st1, m1) = lift_expr(e@, old(lf).state(), Map::empty());
            if m1 == Map::<LocalId, Seq<char>>::empty() {
                stepped(*old(lf), *final(lf), old(ctx)@, final(ctx)@, st1) && y@ == x
            } else {
                stepped(*old(lf), *final(lf), old(ctx)@, final(ctx)@, with_reports(st1, r_expr(x, m1).1))
                    && y@ == r_expr(x, m1).0
            }
        }),
    decreases e, 1nat,
{
    let mut names = ClosureNames::new();
    let x = walk_expr(e, lf, &mut names, ctx);
    if !names.is_empty() {
        let ghost d0 = ctx@.diagnostics;
        let ghost r = r_expr(x@, names.view()).1;
        let out = resolve_expr(x, &names, ctx);
        proof {
            lemma_reported_trans(lf.base@, d0, ctx@.diagnostics, lf.reports@, r);
        }
        lf.reports = Ghost(lf.reports@ + r);
        out
    } else {
        x
    }
}

fn walk_methods(v: Vec<HirFunction>, lf: &mut Lifter, ctx: &mut PassContext) -> (w: Vec<HirFunction>)
    requires
        ready(*old(lf), old(ctx)@),
        lift_methods(a_functions(v@), old(lf).state()).1.ok,
    ensures
        stepped(*old(lf), *final(lf), old(ctx)@, final(ctx)@, lift_methods(a_functions(v@), old(lf).state()).1),
        a_functions(w@) == lift_methods(a_functions(v@), old(lf).state()).0,
    decreases v, 1nat,
{
    let ghost sv = a_functions(v@);
    let ghost st0 = lf.state();
    let ghost lf0 = *lf;
    let ghost c0 = ctx@;
    proof {
        lemma_a_functions(v@);
        assert(sv.take(0) =~= Seq::<AFunction>::empty());
    }
    let mut src = v;
    let n = src.len();
    let mut out: Vec<HirFunction> = Vec::new();
    let mut i: usize = 0;
    while i < n
        invariant
            sv == a_functions(v@),
            n == src@.len(),
            n == sv.len(),
            n == v@.len(),
            i <= n,
            forall|j: int| i <= j < n ==> #[trigger] src@[j] == v@[j],
            st0.ok,
            lift_methods(sv, st0).1.ok,
            ready(*lf, ctx@),
            lf0.kept(*lf),
            same_counters(c0, ctx@),
            a_functions(out@) == lift_methods(sv.take(i as int), st0).0,
            lf.state() == lift_methods(sv.take(i as int), st0).1,
        decreases n - i,
    {
        let mut tmp = HirFunction::default();
        std::mem::swap(&mut tmp, &mut src[i]);
        proof {
            lemma_a_functions(v@);
            assert(decreases_to!(v => v@[i as int]));
            assert(decreases_to!(v@[i as int] => v@[i as int].body));
            assert(sv.take(i + 1).drop_last() =~= sv.take(i as int));
            lemma_lift_methods_ok(sv, st0, i + 1);
        }
        let HirFunction { name, params, ret, throws, body, is_async, is_generator, is_exported, type_params, async_info } = tmp;
        let ghost st_i = lf.state();
        let b = process_scope(body, lf, ctx);
        let y = HirFunction { name, params, ret, throws, body: b, is_async, is_generator, is_exported, type_params, async_info };
        proof {
            assert(a_function(y) == (AFunction { body: lift_scope(sv[i as int].body, st_i).0, ..sv[i as int] }));
        }
        let ghost prev = out@;
        out.push(y);
        proof {
            assert(out@.drop_last() =~= prev);
        }
        i = i + 1;
    }
    proof {
        assert(sv.take(n as int) =~= sv);
    }
    out
}

fn walk_decl(d: HirDecl, lf: &mut Lifter, ctx: &mut PassContext) -> (y: HirDecl)
    requires
        ready(*old(lf), old(ctx)@),
        lift_decl(d@, old(lf).state()).1.ok,
    ensures
        stepped(*old(lf), *final(lf), old(ctx)@, final(ctx)@, lift_decl(d@, old(lf).state()).1),
        y@ == lift_decl(d@, old(lf).state()).0,
    decreases d, 0nat,
{
    match d {
        HirDecl::Function(f) => {
            let HirFunction { name, params, ret, throws, body, is_async, is_generator, is_exported, type_params, async_info } = f;
            let b = process_scope(body, lf, ctx);
            HirDecl::Function(HirFunction { name, params, ret, throws, body: b, is_async, is_generator, is_exported, type_params, async_info })
        },
        HirDecl::Class(c) => {
            let HirClass { name, ty, fields, methods, extends, type_params } = c;
            let ms = walk_methods(methods, lf, ctx);
            HirDecl::Class(HirClass { name, ty, fields, methods: ms, extends, type_params })
        },
        HirDecl::Global { name, ty, init } => match init {
            Some(e) => HirDecl::Global { name, ty, init: Some(process_global_init(e, lf, ctx)) },
            None => HirDecl::Global { name, ty, init: None },
        },
        HirDecl::Namespace { name, members } => HirDecl::Namespace { name, members: walk_decls(members, lf, ctx) },
        other => other,
    }
}

fn walk_decls(v: Vec<HirDecl>, lf: &mut Lifter, ctx: &mut PassContext) -> (w: Vec<HirDecl>)
    requires
        ready(*old(lf), old(ctx)@),
        lift_decls(a_decls(v@), old(lf).state()).1.ok,
    ensures
        stepped(*old(lf), *final(lf), old(ctx)@, final(ctx)@, lift_decls(a_decls(v@), old(lf).state()).1),
        a_decls(w@) == lift_decls(a_decls(v@), old(lf).state()).0,
    decreases v, 1nat,
{
    let ghost sv = a_decls(v@);
    let ghost st0 = lf.state();
    let ghost lf0 = *lf;
    let ghost c0 = ctx@;
    proof {
        lemma_a_decls(v@);
        assert(sv.take(0) =~= Seq::<ADecl>::empty());
    }
    let mut src = v;
    let n = src.len();
    let mut out: Vec<HirDecl> = Vec::new();
    let mut i: usize = 0;
    while i < n
        invariant
            sv == a_decls(v@),
            n == src@.len(),
            n == sv.len(),
            n == v@.len(),
            i <= n,
            forall|j: int| i <= j < n ==> #[trigger] src@[j] == v@[j],
            st0.ok,
            lift_decls(sv, st0).1.ok,
            ready(*lf, ctx@),
            lf0.kept(*lf),
            same_counters(c0, ctx@),
            a_decls(out@) == lift_decls(sv.take(i as int), st0).0,
            lf.state() == lift_decls(sv.take(i as int), st0).1,
        decreases n - i,
    {
        let mut tmp = HirDecl::Interface { name: Atom::from_str("") };
        std::mem::swap(&mut tmp, &mut src[i]);
        proof {
            lemma_a_decls(v@);
            assert(decreases_to!(v => v@[i as int]));
            assert(sv.take(i + 1).drop_last() =~= sv.take(i as int));
            lemma_lift_decls_ok(sv, st0, i + 1);
        }
        let y = walk_decl(tmp, lf, ctx);
        let ghost prev = out@;
        out.push(y);
        proof {
            assert(out@.drop_last() =~= prev);
        }
        i = i + 1;
    }
    proof {
        assert(sv.take(n as int) =~= sv);
    }
    out
}


proof fn lemma_decls_ok(s: Seq<ADecl>, st: Lift)
    ensures
        lift_decls(s, st).1.ok ==> st.ok,
{
    if !st.ok {
        assert(lift_decls(s, st) == (s, st));
    }
}

/// Lifts every closure that captures nothing out of the function bodies,
/// method bodies and global initializers of a program.
///
/// Each such closure becomes a top-level function named
/// `__ts_aot_closure_N`, with the first `N` whose name no declaration of the
/// program and no earlier generated function takes; the closure expression
/// becomes a reference to that function, and calls of the closure in its
/// scope call it. A closure that captures variables is left in place with a
/// warning. A call of a closure that no generated function stands for is an
/// error. The generated functions are appended to the declarations in the
/// order they were made.
pub fn lower_closures(program: &mut HirProgram, ctx: &mut PassContext) -> (result: LowerClosuresResult)
    requires
        closure_lowering(old(program).decls()).1.ok,
    ensures
        final(program).decls() == closure_lowering(old(program).decls()).0,
        result.stats.emitted_fns == closure_lowering(old(program).decls()).1.emitted,
        result.stats.deferred_capturing == closure_lowering(old(program).decls()).1.deferred,
        texts_of(result.closure_names@) == closure_lowering(old(program).decls()).1.generated,
        reported(old(ctx)@.diagnostics, final(ctx)@.diagnostics, closure_lowering(old(program).decls()).1.reports),
        same_counters(old(ctx)@, final(ctx)@),
        final(program).module == old(program).module,
        final(program).imports == old(program).imports,
        final(program).exports == old(program).exports,
        forall|i: int, j: int|
            0 <= i < j < result.closure_names@.len() ==> #[trigger] result.closure_names@[i]@
                != #[trigger] result.closure_names@[j]@,
        forall|i: int|
            0 <= i < result.closure_names@.len() ==> !taken_names(old(program).decls()).contains(
                #[trigger] result.closure_names@[i]@,
            ),
        forall|i: int| 0 <= i < result.closure_names@.len() ==> is_closure_name(#[trigger] result.closure_names@[i]@),
        result.stats.emitted_fns == result.closure_names@.len(),
        final(program).decls().len() == old(program).decls().len() + result.closure_names@.len(),
        final(program).decls().take(old(program).decls().len() as int) == lift_decls(
            old(program).decls(),
            initial_lift(old(program).decls()),
        ).0,
        forall|k: int|
            0 <= k < result.closure_names@.len() ==> (#[trigger] final(program).decls()[old(program).decls().len()
                + k] matches ADecl::Function(f) && f.name == result.closure_names@[k]@),
        no_plain_closure_decls(final(program).decls()),
{
    let ghost dv = old(program).decls();
    proof {
        law_closure_lowering_lifts_every_plain_closure(dv);
    }
    let mut taken = NameSet::new();
    collect_taken_names(&program.declarations, &mut taken);
    let ghost t = taken.view();
    proof {
        assert(t =~= taken_names(dv));
        lemma_first_free(0, t);
        lemma_decls_ok(dv, initial_lift(dv));
    }
    let mut next_closure_id: u32 = 0;
    while taken.contains(&fresh_closure_name(next_closure_id))
        invariant
            taken.view() == t,
            first_free(next_closure_id as int, t) == first_free(0, t),
            !t.contains(closure_name(first_free(0, t))),
        decreases u32::MAX - next_closure_id,
    {
        next_closure_id = next_closure_id + 1;
    }
    let mut lf = Lifter {
        next_id: next_closure_id,
        new_decls: Vec::new(),
        generated: Vec::new(),
        taken,
        stats: LowerClosuresStats { emitted_fns: 0, deferred_capturing: 0 },
        reports: Ghost(Seq::empty()),
        base: Ghost(ctx@.diagnostics),
        initial: Ghost(t),
    };
    proof {
        lemma_reported_none(ctx@.diagnostics);
        assert(a_decls(lf.new_decls@) =~= Seq::<ADecl>::empty());
        assert(texts_of(lf.generated@) =~= Seq::<Seq<char>>::empty());
        assert(lf.state() == initial_lift(dv));
    }
    let mut decls: Vec<HirDecl> = Vec::new();
    std::mem::swap(&mut decls, &mut program.declarations);
    let out = walk_decls(decls, &mut lf, ctx);
    program.declarations = out;
    let Lifter { next_id, new_decls, generated, taken, stats, reports, base, initial } = lf;
    let ghost before = program.declarations@;
    let mut extra = new_decls;
    let ghost ev = extra@;
    program.declarations.append(&mut extra);
    proof {
        lemma_a_decls(before);
        lemma_a_decls(ev);
        lemma_a_decls(program.declarations@);
        assert(a_decls(program.declarations@) =~= a_decls(before) + a_decls(ev));
    }
    proof {
        crate::aot::closure_laws::law_closure_lowering_shape(dv);
        assert forall|k: int| 0 <= k < generated@.len() implies #[trigger] texts_of(generated@)[k] == generated@[k]@ by {}
    }
    LowerClosuresResult { stats, closure_names: generated }
}

} // verus!
