//! The shape of what closure lifting produces: the declarations stay in
//! place, followed by one function per generated name.

use vstd::prelude::*;

use crate::aot::hir::{ACallee, ACase, ADecl, AExpr, AFunction, AStmt};
use crate::aot::lower_closures::{
    r_cases, r_decl, r_decls, r_expr, r_exprs, r_fields, r_methods, r_opt, r_stmt, r_stmts,
    Lift, Names, closure_lowering, initial_lift, lift_cases, lift_decl, lift_decls, lift_expr, lift_exprs,
    lift_fields, lift_methods, lift_opt, lift_scope, lift_stmt, lift_stmts,
};
use crate::ids::{FieldId, LocalId, TypeId};

verus! {

/// Whether the lifted functions of a state are one function per generated
/// name, in order, and the count of emitted functions is their number.
pub open spec fn lifted_in_order(st: Lift) -> bool {
    &&& st.decls.len() == st.generated.len()
    &&& st.emitted == st.generated.len()
    &&& forall|k: int|
        0 <= k < st.decls.len() ==> (#[trigger] st.decls[k] matches ADecl::Function(f) && f.name
            == st.generated[k])
}

proof fn lemma_expr_inv(e: AExpr, st: Lift, m: Names)
    requires
        lifted_in_order(st),
    ensures
        lifted_in_order(lift_expr(e, st, m).1),
    decreases e, 0nat,
{
    if st.ok {
        match e {
            AExpr::Closure { params, captures, body, ty, .. } => {
                if captures.len() == 0 {
                    lemma_stmts_inv(body, st, m);
                    let st1 = lift_stmts(body, st, m).1;
                    let st2 = lift_expr(e, st, m).1;
                    assert forall|k: int| 0 <= k < st2.decls.len() implies (#[trigger] st2.decls[k] matches ADecl::Function(
                        f,
                    ) && f.name == st2.generated[k]) by {
                        if k < st1.decls.len() {
                            assert(st2.decls[k] == st1.decls[k]);
                        }
                    }
                }
            },
            AExpr::Call { callee, args, .. } => {
                match callee {
                    ACallee::Indirect(inner) => {
                        lemma_expr_inv(*inner, st, m);
                        let (x, s1, n1) = lift_expr(*inner, st, m);
                        lemma_exprs_inv(args, s1, n1);
                    },
                    ACallee::Closure(id) => {
                        let (c, st1, m1) = if m.contains_key(id) {
                            (callee, st, m)
                        } else {
                            (callee, crate::aot::lower_closures::with_reports(st, seq![crate::aot::lower_closures::Report::UndeclaredClosure]), m)
                        };
                        lemma_exprs_inv(args, st1, m1);
                    },
                    _ => {
                        lemma_exprs_inv(args, st, m);
                    },
                }
            },
            AExpr::Binary { lhs, rhs, .. } => {
                lemma_expr_inv(*lhs, st, m);
                let (l, st1, m1) = lift_expr(*lhs, st, m);
                lemma_expr_inv(*rhs, st1, m1);
            },
            AExpr::Unary { expr, .. } => lemma_expr_inv(*expr, st, m),
            AExpr::Field { owner, .. } => lemma_expr_inv(*owner, st, m),
            AExpr::Index { owner, index, .. } => {
                lemma_expr_inv(*owner, st, m);
                let (o, st1, m1) = lift_expr(*owner, st, m);
                lemma_expr_inv(*index, st1, m1);
            },
            AExpr::StructLiteral { fields, .. } => lemma_fields_inv(fields, st, m),
            AExpr::ArrayLiteral { elements, .. } => lemma_exprs_inv(elements, st, m),
            AExpr::Await { expr, .. } => lemma_expr_inv(*expr, st, m),
            AExpr::TypeAssertion { expr, .. } => lemma_expr_inv(*expr, st, m),
            AExpr::Yield { expr, .. } => match expr {
                Some(b) => lemma_expr_inv(*b, st, m),
                None => {},
            },
            AExpr::Template { tag, parts, .. } => {
                match tag {
                    Some(b) => {
                        lemma_expr_inv(*b, st, m);
                        let (x, s1, n1) = lift_expr(*b, st, m);
                        lemma_exprs_inv(parts, s1, n1);
                    },
                    None => lemma_exprs_inv(parts, st, m),
                }
            },
            AExpr::New { callee, args, .. } => {
                lemma_expr_inv(*callee, st, m);
                let (c, st1, m1) = lift_expr(*callee, st, m);
                lemma_exprs_inv(args, st1, m1);
            },
            AExpr::OptionalChain { base, .. } => lemma_expr_inv(*base, st, m),
            AExpr::Assignment { target, value, .. } => {
                lemma_expr_inv(*target, st, m);
                let (t, st1, m1) = lift_expr(*target, st, m);
                lemma_expr_inv(*value, st1, m1);
            },
            _ => {},
        }
    }
}

proof fn lemma_exprs_inv(s: Seq<AExpr>, st: Lift, m: Names)
    requires
        lifted_in_order(st),
    ensures
        lifted_in_order(lift_exprs(s, st, m).1),
    decreases s, 0nat,
{
    if st.ok && s.len() > 0 {
        lemma_exprs_inv(s.drop_last(), st, m);
        let (xs, st1, m1) = lift_exprs(s.drop_last(), st, m);
        lemma_expr_inv(s.last(), st1, m1);
    }
}

proof fn lemma_fields_inv(s: Seq<(FieldId, AExpr)>, st: Lift, m: Names)
    requires
        lifted_in_order(st),
    ensures
        lifted_in_order(lift_fields(s, st, m).1),
    decreases s, 0nat,
{
    if st.ok && s.len() > 0 {
        lemma_fields_inv(s.drop_last(), st, m);
        let (xs, st1, m1) = lift_fields(s.drop_last(), st, m);
        assert(decreases_to!(s => s.last()));
        lemma_expr_inv(s.last().1, st1, m1);
    }
}

proof fn lemma_opt_inv(o: Option<AExpr>, st: Lift, m: Names)
    requires
        lifted_in_order(st),
    ensures
        lifted_in_order(lift_opt(o, st, m).1),
    decreases o, 0nat,
{
    match o {
        Some(e) => lemma_expr_inv(e, st, m),
        None => {},
    }
}

proof fn lemma_stmt_inv(s: AStmt, st: Lift, m: Names)
    requires
        lifted_in_order(st),
    ensures
        lifted_in_order(lift_stmt(s, st, m).1),
    decreases s, 0nat,
{
    if st.ok {
        match s {
            AStmt::Block(v) => lemma_stmts_inv(v, st, m),
            AStmt::Let { init, .. } => lemma_opt_inv(init, st, m),
            AStmt::Expr { expr } => lemma_expr_inv(expr, st, m),
            AStmt::If { cond, then, otherwise } => {
                lemma_expr_inv(cond, st, m);
                let (c, st1, m1) = lift_expr(cond, st, m);
                lemma_stmt_inv(*then, st1, m1);
                let (t, st2, m2) = lift_stmt(*then, st1, m1);
                match otherwise {
                    Some(b) => lemma_stmt_inv(*b, st2, m2),
                    None => {},
                }
            },
            AStmt::While { cond, body } | AStmt::DoWhile { body, cond } => {
                lemma_expr_inv(cond, st, m);
                let (c, st1, m1) = lift_expr(cond, st, m);
                lemma_stmt_inv(*body, st1, m1);
            },
            AStmt::ForOf { iter, body, .. } | AStmt::ForIn { iter, body, .. } => {
                lemma_expr_inv(iter, st, m);
                let (i, st1, m1) = lift_expr(iter, st, m);
                lemma_stmt_inv(*body, st1, m1);
            },
            AStmt::Switch { disc, cases } => {
                lemma_expr_inv(disc, st, m);
                let (d, st1, m1) = lift_expr(disc, st, m);
                lemma_cases_inv(cases, st1, m1);
            },
            AStmt::Return { value } => lemma_opt_inv(value, st, m),
            AStmt::Throw { expr } => lemma_expr_inv(expr, st, m),
            AStmt::Try { body, catch, finally } => {
                lemma_stmt_inv(*body, st, m);
                let (b, st1, m1) = lift_stmt(*body, st, m);
                let (st2, m2) = match catch {
                    Some(c) => {
                        assert(decreases_to!(s => c));
                        lemma_stmt_inv(*c.body, st1, m1);
                        let (x, s1, n1) = lift_stmt(*c.body, st1, m1);
                        (s1, n1)
                    },
                    None => (st1, m1),
                };
                match finally {
                    Some(fb) => lemma_stmt_inv(*fb, st2, m2),
                    None => {},
                }
            },
            AStmt::Decl(d) => lemma_decl_inv(d, st),
            _ => {},
        }
    }
}

proof fn lemma_stmts_inv(s: Seq<AStmt>, st: Lift, m: Names)
    requires
        lifted_in_order(st),
    ensures
        lifted_in_order(lift_stmts(s, st, m).1),
    decreases s, 0nat,
{
    if st.ok && s.len() > 0 {
        lemma_stmts_inv(s.drop_last(), st, m);
        let (xs, st1, m1) = lift_stmts(s.drop_last(), st, m);
        lemma_stmt_inv(s.last(), st1, m1);
    }
}

proof fn lemma_cases_inv(s: Seq<ACase>, st: Lift, m: Names)
    requires
        lifted_in_order(st),
    ensures
        lifted_in_order(lift_cases(s, st, m).1),
    decreases s, 0nat,
{
    if st.ok && s.len() > 0 {
        lemma_cases_inv(s.drop_last(), st, m);
        let (xs, st1, m1) = lift_cases(s.drop_last(), st, m);
        assert(decreases_to!(s => s.last()));
        lemma_opt_inv(s.last().test, st1, m1);
        let (t, st2, m2) = lift_opt(s.last().test, st1, m1);
        lemma_stmts_inv(s.last().body, st2, m2);
    }
}

proof fn lemma_scope_inv(body: Seq<AStmt>, st: Lift)
    requires
        lifted_in_order(st),
    ensures
        lifted_in_order(lift_scope(body, st).1),
    decreases body, 1nat,
{
    lemma_stmts_inv(body, st, Map::empty());
}

proof fn lemma_methods_inv(s: Seq<AFunction>, st: Lift)
    requires
        lifted_in_order(st),
    ensures
        lifted_in_order(lift_methods(s, st).1),
    decreases s, 0nat,
{
    if st.ok && s.len() > 0 {
        lemma_methods_inv(s.drop_last(), st);
        let (xs, st1) = lift_methods(s.drop_last(), st);
        assert(decreases_to!(s => s.last()));
        lemma_scope_inv(s.last().body, st1);
    }
}

proof fn lemma_decl_inv(d: ADecl, st: Lift)
    requires
        lifted_in_order(st),
    ensures
        lifted_in_order(lift_decl(d, st).1),
    decreases d, 0nat,
{
    if st.ok {
        match d {
            ADecl::Function(f) => lemma_scope_inv(f.body, st),
            ADecl::Class(c) => lemma_methods_inv(c.methods, st),
            ADecl::Global { init, .. } => match init {
                Some(e) => lemma_expr_inv(e, st, Map::empty()),
                None => {},
            },
            ADecl::Namespace { members, .. } => lemma_decls_inv(members, st),
            _ => {},
        }
    }
}

proof fn lemma_decls_inv(s: Seq<ADecl>, st: Lift)
    requires
        lifted_in_order(st),
    ensures
        lifted_in_order(lift_decls(s, st).1),
        lift_decls(s, st).0.len() == s.len(),
    decreases s, 0nat,
{
    if st.ok && s.len() > 0 {
        lemma_decls_inv(s.drop_last(), st);
        let (xs, st1) = lift_decls(s.drop_last(), st);
        lemma_decl_inv(s.last(), st1);
    }
}

/// Closure lifting keeps the declarations of a module in place, each with
/// its closures lifted, and appends one function per generated name, in
/// the order the names were generated; it counts one emitted function per
/// name.
pub proof fn law_closure_lowering_shape(decls: Seq<ADecl>)
    ensures
        closure_lowering(decls).0.len() == decls.len() + closure_lowering(decls).1.generated.len(),
        closure_lowering(decls).0.take(decls.len() as int) == lift_decls(decls, initial_lift(decls)).0,
        closure_lowering(decls).1.emitted == closure_lowering(decls).1.generated.len(),
        forall|k: int|
            0 <= k < closure_lowering(decls).1.generated.len() ==> (#[trigger] closure_lowering(decls).0[decls.len()
                + k] matches ADecl::Function(f) && f.name == closure_lowering(decls).1.generated[k]),
{
    let st0 = initial_lift(decls);
    lemma_decls_inv(decls, st0);
    let (ds, st) = lift_decls(decls, st0);
    let out = closure_lowering(decls).0;
    assert(out.take(decls.len() as int) =~= ds);
    assert forall|k: int| 0 <= k < st.generated.len() implies (#[trigger] out[decls.len() + k] matches ADecl::Function(
        f,
    ) && f.name == st.generated[k]) by {
        assert(out[decls.len() + k] == st.decls[k]);
    }
}

// ---------------------------------------------------------------------------
// Resolved calls
// ---------------------------------------------------------------------------

/// Whether no call in an expression, at any depth, still calls a closure
/// of `m` by its local id.
pub open spec fn no_lifted_call(e: AExpr, m: Names) -> bool
    decreases e, 0nat,
{
    match e {
        AExpr::Closure { body, .. } => no_lifted_call_stmts(body, m),
        AExpr::Call { callee, args, .. } => no_lifted_call_list(args, m) && match callee {
            ACallee::Closure(id) => !m.contains_key(id),
            ACallee::Indirect(inner) => no_lifted_call(*inner, m),
            _ => true,
        },
        AExpr::Binary { lhs, rhs, .. } => no_lifted_call(*lhs, m) && no_lifted_call(*rhs, m),
        AExpr::Unary { expr, .. } => no_lifted_call(*expr, m),
        AExpr::Field { owner, .. } => no_lifted_call(*owner, m),
        AExpr::Index { owner, index, .. } => no_lifted_call(*owner, m) && no_lifted_call(*index, m),
        AExpr::StructLiteral { fields, .. } => no_lifted_call_fields(fields, m),
        AExpr::ArrayLiteral { elements, .. } => no_lifted_call_list(elements, m),
        AExpr::Await { expr, .. } => no_lifted_call(*expr, m),
        AExpr::TypeAssertion { expr, .. } => no_lifted_call(*expr, m),
        AExpr::Yield { expr, .. } => match expr {
            Some(b) => no_lifted_call(*b, m),
            None => true,
        },
        AExpr::Template { tag, parts, .. } => no_lifted_call_list(parts, m) && match tag {
            Some(b) => no_lifted_call(*b, m),
            None => true,
        },
        AExpr::New { callee, args, .. } => no_lifted_call(*callee, m) && no_lifted_call_list(args, m),
        AExpr::OptionalChain { base, .. } => no_lifted_call(*base, m),
        AExpr::Assignment { target, value, .. } => no_lifted_call(*target, m) && no_lifted_call(*value, m),
        _ => true,
    }
}

/// `no_lifted_call` of every expression of a list.
pub open spec fn no_lifted_call_list(s: Seq<AExpr>, m: Names) -> bool
    decreases s, 0nat,
{
    s.len() == 0 || (no_lifted_call_list(s.drop_last(), m) && no_lifted_call(s.last(), m))
}

/// `no_lifted_call` of the value of every field.
pub open spec fn no_lifted_call_fields(s: Seq<(FieldId, AExpr)>, m: Names) -> bool
    decreases s, 0nat,
{
    s.len() == 0 || (no_lifted_call_fields(s.drop_last(), m) && no_lifted_call(s.last().1, m))
}

/// `no_lifted_call` of an optional expression.
pub open spec fn no_lifted_call_opt(o: Option<AExpr>, m: Names) -> bool
    decreases o, 0nat,
{
    match o {
        Some(e) => no_lifted_call(e, m),
        None => true,
    }
}

/// Whether no call in a statement, at any depth, still calls a closure of
/// `m` by its local id.
pub open spec fn no_lifted_call_stmt(s: AStmt, m: Names) -> bool
    decreases s, 0nat,
{
    match s {
        AStmt::Block(v) => no_lifted_call_stmts(v, m),
        AStmt::Let { init, .. } => no_lifted_call_opt(init, m),
        AStmt::Expr { expr } => no_lifted_call(expr, m),
        AStmt::If { cond, then, otherwise } => no_lifted_call(cond, m) && no_lifted_call_stmt(*then, m) && match otherwise {
            Some(b) => no_lifted_call_stmt(*b, m),
            None => true,
        },
        AStmt::While { cond, body } => no_lifted_call(cond, m) && no_lifted_call_stmt(*body, m),
        AStmt::DoWhile { body, cond } => no_lifted_call(cond, m) && no_lifted_call_stmt(*body, m),
        AStmt::ForOf { iter, body, .. } => no_lifted_call(iter, m) && no_lifted_call_stmt(*body, m),
        AStmt::ForIn { iter, body, .. } => no_lifted_call(iter, m) && no_lifted_call_stmt(*body, m),
        AStmt::Switch { disc, cases } => no_lifted_call(disc, m) && no_lifted_call_cases(cases, m),
        AStmt::Return { value } => no_lifted_call_opt(value, m),
        AStmt::Throw { expr } => no_lifted_call(expr, m),
        AStmt::Try { body, catch, finally } => no_lifted_call_stmt(*body, m) && match catch {
            Some(c) => no_lifted_call_stmt(*c.body, m),
            None => true,
        } && match finally {
            Some(f) => no_lifted_call_stmt(*f, m),
            None => true,
        },
        AStmt::Decl(d) => no_lifted_call_decl(d, m),
        _ => true,
    }
}

/// `no_lifted_call_stmt` of every statement of a list.
pub open spec fn no_lifted_call_stmts(s: Seq<AStmt>, m: Names) -> bool
    decreases s, 0nat,
{
    s.len() == 0 || (no_lifted_call_stmts(s.drop_last(), m) && no_lifted_call_stmt(s.last(), m))
}

/// `no_lifted_call` in the test and the body of every case.
pub open spec fn no_lifted_call_cases(s: Seq<ACase>, m: Names) -> bool
    decreases s, 0nat,
{
    s.len() == 0 || (no_lifted_call_cases(s.drop_last(), m) && no_lifted_call_opt(s.last().test, m)
        && no_lifted_call_stmts(s.last().body, m))
}

/// `no_lifted_call` in the body of every method.
pub open spec fn no_lifted_call_methods(s: Seq<AFunction>, m: Names) -> bool
    decreases s, 0nat,
{
    s.len() == 0 || (no_lifted_call_methods(s.drop_last(), m) && no_lifted_call_stmts(s.last().body, m))
}

/// `no_lifted_call` in a declaration: function and method bodies, global
/// initializers and namespace members.
pub open spec fn no_lifted_call_decl(d: ADecl, m: Names) -> bool
    decreases d, 0nat,
{
    match d {
        ADecl::Function(f) => no_lifted_call_stmts(f.body, m),
        ADecl::Class(c) => no_lifted_call_methods(c.methods, m),
        ADecl::Global { init, .. } => no_lifted_call_opt(init, m),
        ADecl::Namespace { members, .. } => no_lifted_call_decls(members, m),
        _ => true,
    }
}

/// `no_lifted_call_decl` of every declaration of a list.
pub open spec fn no_lifted_call_decls(s: Seq<ADecl>, m: Names) -> bool
    decreases s, 0nat,
{
    s.len() == 0 || (no_lifted_call_decls(s.drop_last(), m) && no_lifted_call_decl(s.last(), m))
}

proof fn lemma_r_expr(e: AExpr, m: Names)
    ensures
        no_lifted_call(r_expr(e, m).0, m),
    decreases e, 0nat,
{
    match e {
        AExpr::Closure { body, .. } => lemma_r_stmts(body, m),
        AExpr::Call { callee, args, .. } => {
            lemma_r_exprs(args, m);
            match callee {
                ACallee::Closure(id) => if m.contains_key(id) {
                    assert(no_lifted_call(AExpr::Global { name: m[id], ty: TypeId(0) }, m));
                },
                ACallee::Indirect(inner) => lemma_r_expr(*inner, m),
                _ => {},
            }
        },
        AExpr::Binary { lhs, rhs, .. } => {
            lemma_r_expr(*lhs, m);
            lemma_r_expr(*rhs, m);
        },
        AExpr::Unary { expr, .. } => lemma_r_expr(*expr, m),
        AExpr::Field { owner, .. } => lemma_r_expr(*owner, m),
        AExpr::Index { owner, index, .. } => {
            lemma_r_expr(*owner, m);
            lemma_r_expr(*index, m);
        },
        AExpr::StructLiteral { fields, .. } => lemma_r_fields(fields, m),
        AExpr::ArrayLiteral { elements, .. } => lemma_r_exprs(elements, m),
        AExpr::Await { expr, .. } => lemma_r_expr(*expr, m),
        AExpr::TypeAssertion { expr, .. } => lemma_r_expr(*expr, m),
        AExpr::Yield { expr, .. } => match expr {
            Some(b) => lemma_r_expr(*b, m),
            None => {},
        },
        AExpr::Template { tag, parts, .. } => {
            lemma_r_exprs(parts, m);
            match tag {
                Some(b) => lemma_r_expr(*b, m),
                None => {},
            }
        },
        AExpr::New { callee, args, .. } => {
            lemma_r_expr(*callee, m);
            lemma_r_exprs(args, m);
        },
        AExpr::OptionalChain { base, .. } => lemma_r_expr(*base, m),
        AExpr::Assignment { target, value, .. } => {
            lemma_r_expr(*target, m);
            lemma_r_expr(*value, m);
        },
        _ => {},
    }
}

proof fn lemma_r_exprs(s: Seq<AExpr>, m: Names)
    ensures
        no_lifted_call_list(r_exprs(s, m).0, m),
    decreases s, 0nat,
{
    if s.len() > 0 {
        lemma_r_exprs(s.drop_last(), m);
        lemma_r_expr(s.last(), m);
        let xs = r_exprs(s.drop_last(), m).0;
        assert(xs.push(r_expr(s.last(), m).0).drop_last() =~= xs);
    }
}

proof fn lemma_r_fields(s: Seq<(FieldId, AExpr)>, m: Names)
    ensures
        no_lifted_call_fields(r_fields(s, m).0, m),
    decreases s, 0nat,
{
    if s.len() > 0 {
        lemma_r_fields(s.drop_last(), m);
        assert(decreases_to!(s => s.last()));
        lemma_r_expr(s.last().1, m);
        let xs = r_fields(s.drop_last(), m).0;
        assert(xs.push((s.last().0, r_expr(s.last().1, m).0)).drop_last() =~= xs);
    }
}

proof fn lemma_r_opt(o: Option<AExpr>, m: Names)
    ensures
        no_lifted_call_opt(r_opt(o, m).0, m),
    decreases o, 0nat,
{
    match o {
        Some(e) => lemma_r_expr(e, m),
        None => {},
    }
}

proof fn lemma_r_stmt(s: AStmt, m: Names)
    ensures
        no_lifted_call_stmt(r_stmt(s, m).0, m),
    decreases s, 0nat,
{
    match s {
        AStmt::Block(v) => lemma_r_stmts(v, m),
        AStmt::Let { init, .. } => lemma_r_opt(init, m),
        AStmt::Expr { expr } => lemma_r_expr(expr, m),
        AStmt::If { cond, then, otherwise } => {
            lemma_r_expr(cond, m);
            lemma_r_stmt(*then, m);
            match otherwise {
                Some(b) => lemma_r_stmt(*b, m),
                None => {},
            }
        },
        AStmt::While { cond, body } => {
            lemma_r_expr(cond, m);
            lemma_r_stmt(*body, m);
        },
        AStmt::DoWhile { body, cond } => {
            lemma_r_expr(cond, m);
            lemma_r_stmt(*body, m);
        },
        AStmt::ForOf { iter, body, .. } => {
            lemma_r_expr(iter, m);
            lemma_r_stmt(*body, m);
        },
        AStmt::ForIn { iter, body, .. } => {
            lemma_r_expr(iter, m);
            lemma_r_stmt(*body, m);
        },
        AStmt::Switch { disc, cases } => {
            lemma_r_expr(disc, m);
            lemma_r_cases(cases, m);
        },
        AStmt::Return { value } => lemma_r_opt(value, m),
        AStmt::Throw { expr } => lemma_r_expr(expr, m),
        AStmt::Try { body, catch, finally } => {
            lemma_r_stmt(*body, m);
            match catch {
                Some(c) => {
                    assert(decreases_to!(s => c));
                    lemma_r_stmt(*c.body, m);
                },
                None => {},
            }
            match finally {
                Some(f) => lemma_r_stmt(*f, m),
                None => {},
            }
        },
        AStmt::Decl(d) => lemma_r_decl(d, m),
        _ => {},
    }
}

proof fn lemma_r_stmts(s: Seq<AStmt>, m: Names)
    ensures
        no_lifted_call_stmts(r_stmts(s, m).0, m),
    decreases s, 0nat,
{
    if s.len() > 0 {
        lemma_r_stmts(s.drop_last(), m);
        lemma_r_stmt(s.last(), m);
        let xs = r_stmts(s.drop_last(), m).0;
        assert(xs.push(r_stmt(s.last(), m).0).drop_last() =~= xs);
    }
}

proof fn lemma_r_cases(s: Seq<ACase>, m: Names)
    ensures
        no_lifted_call_cases(r_cases(s, m).0, m),
    decreases s, 0nat,
{
    if s.len() > 0 {
        lemma_r_cases(s.drop_last(), m);
        assert(decreases_to!(s => s.last()));
        lemma_r_opt(s.last().test, m);
        lemma_r_stmts(s.last().body, m);
        let xs = r_cases(s.drop_last(), m).0;
        let x = ACase { test: r_opt(s.last().test, m).0, body: r_stmts(s.last().body, m).0 };
        assert(xs.push(x).drop_last() =~= xs);
    }
}

proof fn lemma_r_methods(s: Seq<AFunction>, m: Names)
    ensures
        no_lifted_call_methods(r_methods(s, m).0, m),
    decreases s, 0nat,
{
    if s.len() > 0 {
        lemma_r_methods(s.drop_last(), m);
        assert(decreases_to!(s => s.last()));
        lemma_r_stmts(s.last().body, m);
        let xs = r_methods(s.drop_last(), m).0;
        let x = AFunction { body: r_stmts(s.last().body, m).0, ..s.last() };
        assert(xs.push(x).drop_last() =~= xs);
    }
}

proof fn lemma_r_decl(d: ADecl, m: Names)
    ensures
        no_lifted_call_decl(r_decl(d, m).0, m),
    decreases d, 0nat,
{
    match d {
        ADecl::Function(f) => lemma_r_stmts(f.body, m),
        ADecl::Class(c) => lemma_r_methods(c.methods, m),
        ADecl::Global { init, .. } => match init {
            Some(e) => lemma_r_expr(e, m),
            None => {},
        },
        ADecl::Namespace { members, .. } => lemma_r_decls(members, m),
        _ => {},
    }
}

proof fn lemma_r_decls(s: Seq<ADecl>, m: Names)
    ensures
        no_lifted_call_decls(r_decls(s, m).0, m),
    decreases s, 0nat,
{
    if s.len() > 0 {
        lemma_r_decls(s.drop_last(), m);
        lemma_r_decl(s.last(), m);
        let xs = r_decls(s.drop_last(), m).0;
        assert(xs.push(r_decl(s.last(), m).0).drop_last() =~= xs);
    }
}

/// After the calls of a scope are resolved against the closures `m` lifted
/// in it, no call anywhere in its statements (both operands of every
/// operator, arguments, branches, loop bodies, nested closures and
/// declarations included) still calls one of those closures by its local
/// id; each such call now names the lifted function.
pub proof fn law_resolution_leaves_no_lifted_call(body: Seq<AStmt>, m: Names)
    ensures
        no_lifted_call_stmts(r_stmts(body, m).0, m),
{
    lemma_r_stmts(body, m);
}

/// The same for a single expression, as in a global initializer.
pub proof fn law_resolution_leaves_no_lifted_call_expr(e: AExpr, m: Names)
    ensures
        no_lifted_call(r_expr(e, m).0, m),
{
    lemma_r_expr(e, m);
}

/// Lowering the closures of a scope resolves every call of a closure it
/// lifted: the scope that comes out calls none of them by its local id.
pub proof fn law_scope_lowering_resolves_lifted_calls(body: Seq<AStmt>, st: Lift)
    ensures
        ({
            let m = lift_stmts(body, st, Map::empty()).2;
            m != Map::<LocalId, Seq<char>>::empty() ==> no_lifted_call_stmts(lift_scope(body, st).0, m)
        }),
{
    let (b1, st1, m1) = lift_stmts(body, st, Map::empty());
    lemma_r_stmts(b1, m1);
}

} // verus!
