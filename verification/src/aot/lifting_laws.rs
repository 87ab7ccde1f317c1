//! What closure lifting leaves behind: no closure without captures, at
//! any depth of the module and of the functions it generates.

use vstd::prelude::*;

use crate::aot::hir::{ACallee, ACase, ACatch, ADecl, AExpr, AFunction, AStmt};
use crate::aot::lower_closures::{
    Lift, Names, Report, callee_ty, closure_lowering, closure_name, first_free, initial_lift, lift_cases,
    lift_decl, lift_decls, lift_expr, lift_exprs, lift_fields, lift_methods, lift_opt, lift_scope, lift_stmt,
    lift_stmts, lifted_function, lifted_step, r_cases, r_decl, r_decls, r_expr, r_exprs, r_fields, r_methods,
    r_opt, r_stmt, r_stmts, with_reports,
};
use crate::ids::{FieldId, TypeId};

verus! {

/// Whether no closure without captures occurs in an expression, at any
/// depth (the body of a capturing closure is not looked into).
pub open spec fn no_plain_closure(e: AExpr) -> bool
    decreases e, 0nat,
{
    match e {
        AExpr::Closure { captures, .. } => captures.len() > 0,
        AExpr::Call { callee, args, .. } => no_plain_closure_list(args) && match callee {
            ACallee::Indirect(inner) => no_plain_closure(*inner),
            _ => true,
        },
        AExpr::Binary { lhs, rhs, .. } => no_plain_closure(*lhs) && no_plain_closure(*rhs),
        AExpr::Unary { expr, .. } => no_plain_closure(*expr),
        AExpr::Field { owner, .. } => no_plain_closure(*owner),
        AExpr::Index { owner, index, .. } => no_plain_closure(*owner) && no_plain_closure(*index),
        AExpr::StructLiteral { fields, .. } => no_plain_closure_fields(fields),
        AExpr::ArrayLiteral { elements, .. } => no_plain_closure_list(elements),
        AExpr::Await { expr, .. } => no_plain_closure(*expr),
        AExpr::TypeAssertion { expr, .. } => no_plain_closure(*expr),
        AExpr::Yield { expr, .. } => match expr {
            Some(b) => no_plain_closure(*b),
            None => true,
        },
        AExpr::Template { tag, parts, .. } => no_plain_closure_list(parts) && match tag {
            Some(b) => no_plain_closure(*b),
            None => true,
        },
        AExpr::New { callee, args, .. } => no_plain_closure(*callee) && no_plain_closure_list(args),
        AExpr::OptionalChain { base, .. } => no_plain_closure(*base),
        AExpr::Assignment { target, value, .. } => no_plain_closure(*target) && no_plain_closure(*value),
        _ => true,
    }
}

/// `no_plain_closure` of every expression of a list.
pub open spec fn no_plain_closure_list(s: Seq<AExpr>) -> bool
    decreases s, 0nat,
{
    s.len() == 0 || (no_plain_closure_list(s.drop_last()) && no_plain_closure(s.last()))
}

/// `no_plain_closure` of the value of every field.
pub open spec fn no_plain_closure_fields(s: Seq<(FieldId, AExpr)>) -> bool
    decreases s, 0nat,
{
    s.len() == 0 || (no_plain_closure_fields(s.drop_last()) && no_plain_closure(s.last().1))
}

/// `no_plain_closure` of an optional expression.
pub open spec fn no_plain_closure_opt(o: Option<AExpr>) -> bool
    decreases o, 0nat,
{
    match o {
        Some(e) => no_plain_closure(e),
        None => true,
    }
}

/// Whether no closure without captures occurs in a statement, at any depth
/// of its expressions, nested statements and declarations.
pub open spec fn no_plain_closure_stmt(s: AStmt) -> bool
    decreases s, 0nat,
{
    match s {
        AStmt::Block(v) => no_plain_closure_stmts(v),
        AStmt::Let { init, .. } => no_plain_closure_opt(init),
        AStmt::Expr { expr } => no_plain_closure(expr),
        AStmt::If { cond, then, otherwise } => no_plain_closure(cond) && no_plain_closure_stmt(*then) && match otherwise {
            Some(b) => no_plain_closure_stmt(*b),
            None => true,
        },
        AStmt::While { cond, body } => no_plain_closure(cond) && no_plain_closure_stmt(*body),
        AStmt::DoWhile { body, cond } => no_plain_closure(cond) && no_plain_closure_stmt(*body),
        AStmt::ForOf { iter, body, .. } => no_plain_closure(iter) && no_plain_closure_stmt(*body),
        AStmt::ForIn { iter, body, .. } => no_plain_closure(iter) && no_plain_closure_stmt(*body),
        AStmt::Switch { disc, cases } => no_plain_closure(disc) && no_plain_closure_cases(cases),
        AStmt::Return { value } => no_plain_closure_opt(value),
        AStmt::Throw { expr } => no_plain_closure(expr),
        AStmt::Try { body, catch, finally } => no_plain_closure_stmt(*body) && match catch {
            Some(c) => no_plain_closure_stmt(*c.body),
            None => true,
        } && match finally {
            Some(f) => no_plain_closure_stmt(*f),
            None => true,
        },
        AStmt::Decl(d) => no_plain_closure_decl(d),
        _ => true,
    }
}

/// `no_plain_closure_stmt` of every statement of a list.
pub open spec fn no_plain_closure_stmts(s: Seq<AStmt>) -> bool
    decreases s, 0nat,
{
    s.len() == 0 || (no_plain_closure_stmts(s.drop_last()) && no_plain_closure_stmt(s.last()))
}

/// `no_plain_closure` in the test and the body of every case.
pub open spec fn no_plain_closure_cases(s: Seq<ACase>) -> bool
    decreases s, 0nat,
{
    s.len() == 0 || (no_plain_closure_cases(s.drop_last()) && no_plain_closure_opt(s.last().test)
        && no_plain_closure_stmts(s.last().body))
}

/// `no_plain_closure` in the body of every method.
pub open spec fn no_plain_closure_methods(s: Seq<AFunction>) -> bool
    decreases s, 0nat,
{
    s.len() == 0 || (no_plain_closure_methods(s.drop_last()) && no_plain_closure_stmts(s.last().body))
}

/// `no_plain_closure` in a declaration: function and method bodies, global
/// initializers and namespace members.
pub open spec fn no_plain_closure_decl(d: ADecl) -> bool
    decreases d, 0nat,
{
    match d {
        ADecl::Function(f) => no_plain_closure_stmts(f.body),
        ADecl::Class(c) => no_plain_closure_methods(c.methods),
        ADecl::Global { init, .. } => no_plain_closure_opt(init),
        ADecl::Namespace { members, .. } => no_plain_closure_decls(members),
        _ => true,
    }
}

/// `no_plain_closure_decl` of every declaration of a list.
pub open spec fn no_plain_closure_decls(s: Seq<ADecl>) -> bool
    decreases s, 0nat,
{
    s.len() == 0 || (no_plain_closure_decls(s.drop_last()) && no_plain_closure_decl(s.last()))
}

proof fn lemma_keep_expr(e: AExpr, m: Names)
    ensures
        no_plain_closure(e) ==> no_plain_closure(r_expr(e, m).0),
    decreases e, 0nat,
{
    match e {
        AExpr::Closure { body, .. } => lemma_keep_stmts(body, m),
        AExpr::Call { callee, args, .. } => {
            lemma_keep_exprs(args, m);
            match callee {
                ACallee::Closure(id) => if m.contains_key(id) {
                    assert(no_plain_closure(AExpr::Global { name: m[id], ty: TypeId(0) }));
                },
                ACallee::Indirect(inner) => lemma_keep_expr(*inner, m),
                _ => {},
            }
        },
        AExpr::Binary { lhs, rhs, .. } => {
            lemma_keep_expr(*lhs, m);
            lemma_keep_expr(*rhs, m);
        },
        AExpr::Unary { expr, .. } => lemma_keep_expr(*expr, m),
        AExpr::Field { owner, .. } => lemma_keep_expr(*owner, m),
        AExpr::Index { owner, index, .. } => {
            lemma_keep_expr(*owner, m);
            lemma_keep_expr(*index, m);
        },
        AExpr::StructLiteral { fields, .. } => lemma_keep_fields(fields, m),
        AExpr::ArrayLiteral { elements, .. } => lemma_keep_exprs(elements, m),
        AExpr::Await { expr, .. } => lemma_keep_expr(*expr, m),
        AExpr::TypeAssertion { expr, .. } => lemma_keep_expr(*expr, m),
        AExpr::Yield { expr, .. } => match expr {
            Some(b) => lemma_keep_expr(*b, m),
            None => {},
        },
        AExpr::Template { tag, parts, .. } => {
            lemma_keep_exprs(parts, m);
            match tag {
                Some(b) => lemma_keep_expr(*b, m),
                None => {},
            }
        },
        AExpr::New { callee, args, .. } => {
            lemma_keep_expr(*callee, m);
            lemma_keep_exprs(args, m);
        },
        AExpr::OptionalChain { base, .. } => lemma_keep_expr(*base, m),
        AExpr::Assignment { target, value, .. } => {
            lemma_keep_expr(*target, m);
            lemma_keep_expr(*value, m);
        },
        _ => {},
    }
}

proof fn lemma_keep_exprs(s: Seq<AExpr>, m: Names)
    ensures
        no_plain_closure_list(s) ==> no_plain_closure_list(r_exprs(s, m).0),
    decreases s, 0nat,
{
    if s.len() > 0 {
        lemma_keep_exprs(s.drop_last(), m);
        lemma_keep_expr(s.last(), m);
        let xs = r_exprs(s.drop_last(), m).0;
        assert(xs.push(r_expr(s.last(), m).0).drop_last() =~= xs);
    }
}

proof fn lemma_keep_fields(s: Seq<(FieldId, AExpr)>, m: Names)
    ensures
        no_plain_closure_fields(s) ==> no_plain_closure_fields(r_fields(s, m).0),
    decreases s, 0nat,
{
    if s.len() > 0 {
        lemma_keep_fields(s.drop_last(), m);
        assert(decreases_to!(s => s.last()));
        lemma_keep_expr(s.last().1, m);
        let xs = r_fields(s.drop_last(), m).0;
        assert(xs.push((s.last().0, r_expr(s.last().1, m).0)).drop_last() =~= xs);
    }
}

proof fn lemma_keep_opt(o: Option<AExpr>, m: Names)
    ensures
        no_plain_closure_opt(o) ==> no_plain_closure_opt(r_opt(o, m).0),
    decreases o, 0nat,
{
    match o {
        Some(e) => lemma_keep_expr(e, m),
        None => {},
    }
}

proof fn lemma_keep_stmt(s: AStmt, m: Names)
    ensures
        no_plain_closure_stmt(s) ==> no_plain_closure_stmt(r_stmt(s, m).0),
    decreases s, 0nat,
{
    match s {
        AStmt::Block(v) => lemma_keep_stmts(v, m),
        AStmt::Let { init, .. } => lemma_keep_opt(init, m),
        AStmt::Expr { expr } => lemma_keep_expr(expr, m),
        AStmt::If { cond, then, otherwise } => {
            lemma_keep_expr(cond, m);
            lemma_keep_stmt(*then, m);
            match otherwise {
                Some(b) => lemma_keep_stmt(*b, m),
                None => {},
            }
        },
        AStmt::While { cond, body } => {
            lemma_keep_expr(cond, m);
            lemma_keep_stmt(*body, m);
        },
        AStmt::DoWhile { body, cond } => {
            lemma_keep_expr(cond, m);
            lemma_keep_stmt(*body, m);
        },
        AStmt::ForOf { iter, body, .. } => {
            lemma_keep_expr(iter, m);
            lemma_keep_stmt(*body, m);
        },
        AStmt::ForIn { iter, body, .. } => {
            lemma_keep_expr(iter, m);
            lemma_keep_stmt(*body, m);
        },
        AStmt::Switch { disc, cases } => {
            lemma_keep_expr(disc, m);
            lemma_keep_cases(cases, m);
        },
        AStmt::Return { value } => lemma_keep_opt(value, m),
        AStmt::Throw { expr } => lemma_keep_expr(expr, m),
        AStmt::Try { body, catch, finally } => {
            lemma_keep_stmt(*body, m);
            match catch {
                Some(c) => {
                    assert(decreases_to!(s => c));
                    lemma_keep_stmt(*c.body, m);
                },
                None => {},
            }
            match finally {
                Some(f) => lemma_keep_stmt(*f, m),
                None => {},
            }
        },
        AStmt::Decl(d) => lemma_keep_decl(d, m),
        _ => {},
    }
}

proof fn lemma_keep_stmts(s: Seq<AStmt>, m: Names)
    ensures
        no_plain_closure_stmts(s) ==> no_plain_closure_stmts(r_stmts(s, m).0),
    decreases s, 0nat,
{
    if s.len() > 0 {
        lemma_keep_stmts(s.drop_last(), m);
        lemma_keep_stmt(s.last(), m);
        let xs = r_stmts(s.drop_last(), m).0;
        assert(xs.push(r_stmt(s.last(), m).0).drop_last() =~= xs);
    }
}

proof fn lemma_keep_cases(s: Seq<ACase>, m: Names)
    ensures
        no_plain_closure_cases(s) ==> no_plain_closure_cases(r_cases(s, m).0),
    decreases s, 0nat,
{
    if s.len() > 0 {
        lemma_keep_cases(s.drop_last(), m);
        assert(decreases_to!(s => s.last()));
        lemma_keep_opt(s.last().test, m);
        lemma_keep_stmts(s.last().body, m);
        let xs = r_cases(s.drop_last(), m).0;
        let x = ACase { test: r_opt(s.last().test, m).0, body: r_stmts(s.last().body, m).0 };
        assert(xs.push(x).drop_last() =~= xs);
    }
}

proof fn lemma_keep_methods(s: Seq<AFunction>, m: Names)
    ensures
        no_plain_closure_methods(s) ==> no_plain_closure_methods(r_methods(s, m).0),
    decreases s, 0nat,
{
    if s.len() > 0 {
        lemma_keep_methods(s.drop_last(), m);
        assert(decreases_to!(s => s.last()));
        lemma_keep_stmts(s.last().body, m);
        let xs = r_methods(s.drop_last(), m).0;
        let x = AFunction { body: r_stmts(s.last().body, m).0, ..s.last() };
        assert(xs.push(x).drop_last() =~= xs);
    }
}

proof fn lemma_keep_decl(d: ADecl, m: Names)
    ensures
        no_plain_closure_decl(d) ==> no_plain_closure_decl(r_decl(d, m).0),
    decreases d, 0nat,
{
    match d {
        ADecl::Function(f) => lemma_keep_stmts(f.body, m),
        ADecl::Class(c) => lemma_keep_methods(c.methods, m),
        ADecl::Global { init, .. } => match init {
            Some(e) => lemma_keep_expr(e, m),
            None => {},
        },
        ADecl::Namespace { members, .. } => lemma_keep_decls(members, m),
        _ => {},
    }
}

proof fn lemma_keep_decls(s: Seq<ADecl>, m: Names)
    ensures
        no_plain_closure_decls(s) ==> no_plain_closure_decls(r_decls(s, m).0),
    decreases s, 0nat,
{
    if s.len() > 0 {
        lemma_keep_decls(s.drop_last(), m);
        lemma_keep_decl(s.last(), m);
        let xs = r_decls(s.drop_last(), m).0;
        assert(xs.push(r_decl(s.last(), m).0).drop_last() =~= xs);
    }
}

/// Whether every declaration of a list passes `no_plain_closure_decl`.
pub open spec fn lifted_free(ds: Seq<ADecl>) -> bool {
    forall|i: int| 0 <= i < ds.len() ==> no_plain_closure_decl(#[trigger] ds[i])
}

#[verifier::rlimit(50)]
proof fn lemma_lift_expr(e: AExpr, st: Lift, m: Names)
    requires
        st.ok ==> lifted_free(st.decls),
    ensures
        lift_expr(e, st, m).1.ok ==> st.ok && no_plain_closure(lift_expr(e, st, m).0)
            && lifted_free(lift_expr(e, st, m).1.decls),
    decreases e, 0nat,
{
    if st.ok {
        match e {
            AExpr::Closure { id, params, captures, body, ty } => if captures.len() == 0 {
                lemma_lift_stmts(body, st, m);
                let (b1, st1, m1) = lift_stmts(body, st, m);
                lemma_keep_stmts(b1, m1);
                let (b2, r) = r_stmts(b1, m1);
                let k = first_free(st1.next, st1.taken);
                let f = lifted_function(closure_name(k), params, b2, ty);
                let st2 = lifted_step(st1, k, f, r);
                assert(no_plain_closure(AExpr::Global { name: closure_name(k), ty }));
                if st2.ok {
                    assert(no_plain_closure_decl(ADecl::Function(f)));
                    assert forall|i: int| 0 <= i < st2.decls.len() implies no_plain_closure_decl(
                        #[trigger] st2.decls[i],
                    ) by {
                        if i < st1.decls.len() {
                            assert(st2.decls[i] == st1.decls[i]);
                        }
                    }
                }
            },
            AExpr::Call { callee, args, ty } => {
                let (c, st1, m1) = match callee {
                    ACallee::Closure(id) => if m.contains_key(id) {
                        let g = AExpr::Global { name: m[id], ty: callee_ty(st.decls, m[id]) };
                        assert(no_plain_closure(g));
                        (ACallee::Indirect(Box::new(g)), st, m)
                    } else {
                        (callee, with_reports(st, seq![Report::UndeclaredClosure]), m)
                    },
                    ACallee::Indirect(inner) => {
                        lemma_lift_expr(*inner, st, m);
                        let (x, s1, n1) = lift_expr(*inner, st, m);
                        (ACallee::Indirect(Box::new(x)), s1, n1)
                    },
                    other => (other, st, m),
                };
                lemma_lift_exprs(args, st1, m1);
            },
            AExpr::Binary { lhs, rhs, .. } => {
                lemma_lift_expr(*lhs, st, m);
                let (l, st1, m1) = lift_expr(*lhs, st, m);
                lemma_lift_expr(*rhs, st1, m1);
            },
            AExpr::Unary { expr, .. } => lemma_lift_expr(*expr, st, m),
            AExpr::Field { owner, .. } => lemma_lift_expr(*owner, st, m),
            AExpr::Index { owner, index, .. } => {
                lemma_lift_expr(*owner, st, m);
                let (o, st1, m1) = lift_expr(*owner, st, m);
                lemma_lift_expr(*index, st1, m1);
            },
            AExpr::StructLiteral { fields, .. } => lemma_lift_fields(fields, st, m),
            AExpr::ArrayLiteral { elements, .. } => lemma_lift_exprs(elements, st, m),
            AExpr::Await { expr, .. } => lemma_lift_expr(*expr, st, m),
            AExpr::TypeAssertion { expr, .. } => lemma_lift_expr(*expr, st, m),
            AExpr::Yield { expr, .. } => match expr {
                Some(b) => lemma_lift_expr(*b, st, m),
                None => {},
            },
            AExpr::Template { tag, parts, .. } => {
                let (t, st1, m1) = match tag {
                    Some(b) => {
                        lemma_lift_expr(*b, st, m);
                        let (x, s1, n1) = lift_expr(*b, st, m);
                        (Some(Box::new(x)), s1, n1)
                    },
                    None => (None, st, m),
                };
                lemma_lift_exprs(parts, st1, m1);
            },
            AExpr::New { callee, args, .. } => {
                lemma_lift_expr(*callee, st, m);
                let (c, st1, m1) = lift_expr(*callee, st, m);
                lemma_lift_exprs(args, st1, m1);
            },
            AExpr::OptionalChain { base, .. } => lemma_lift_expr(*base, st, m),
            AExpr::Assignment { target, value, .. } => {
                lemma_lift_expr(*target, st, m);
                let (t, st1, m1) = lift_expr(*target, st, m);
                lemma_lift_expr(*value, st1, m1);
            },
            _ => {},
        }
    }
}

proof fn lemma_lift_exprs(s: Seq<AExpr>, st: Lift, m: Names)
    requires
        st.ok ==> lifted_free(st.decls),
    ensures
        lift_exprs(s, st, m).1.ok ==> st.ok && no_plain_closure_list(lift_exprs(s, st, m).0)
            && lifted_free(lift_exprs(s, st, m).1.decls),
    decreases s, 0nat,
{
    if st.ok && s.len() > 0 {
        lemma_lift_exprs(s.drop_last(), st, m);
        let (xs, st1, m1) = lift_exprs(s.drop_last(), st, m);
        lemma_lift_expr(s.last(), st1, m1);
        let x = lift_expr(s.last(), st1, m1).0;
        assert(xs.push(x).drop_last() =~= xs);
    }
}

proof fn lemma_lift_fields(s: Seq<(FieldId, AExpr)>, st: Lift, m: Names)
    requires
        st.ok ==> lifted_free(st.decls),
    ensures
        lift_fields(s, st, m).1.ok ==> st.ok && no_plain_closure_fields(lift_fields(s, st, m).0)
            && lifted_free(lift_fields(s, st, m).1.decls),
    decreases s, 0nat,
{
    if st.ok && s.len() > 0 {
        lemma_lift_fields(s.drop_last(), st, m);
        let (xs, st1, m1) = lift_fields(s.drop_last(), st, m);
        assert(decreases_to!(s => s.last()));
        lemma_lift_expr(s.last().1, st1, m1);
        let x = lift_expr(s.last().1, st1, m1).0;
        assert(xs.push((s.last().0, x)).drop_last() =~= xs);
    }
}

proof fn lemma_lift_opt(o: Option<AExpr>, st: Lift, m: Names)
    requires
        st.ok ==> lifted_free(st.decls),
    ensures
        lift_opt(o, st, m).1.ok ==> st.ok && no_plain_closure_opt(lift_opt(o, st, m).0)
            && lifted_free(lift_opt(o, st, m).1.decls),
    decreases o, 0nat,
{
    match o {
        Some(e) => lemma_lift_expr(e, st, m),
        None => {},
    }
}

#[verifier::rlimit(50)]
proof fn lemma_lift_stmt(s: AStmt, st: Lift, m: Names)
    requires
        st.ok ==> lifted_free(st.decls),
    ensures
        lift_stmt(s, st, m).1.ok ==> st.ok && no_plain_closure_stmt(lift_stmt(s, st, m).0)
            && lifted_free(lift_stmt(s, st, m).1.decls),
    decreases s, 0nat,
{
    if st.ok {
        match s {
            AStmt::Block(v) => lemma_lift_stmts(v, st, m),
            AStmt::Let { init, .. } => lemma_lift_opt(init, st, m),
            AStmt::Expr { expr } => lemma_lift_expr(expr, st, m),
            AStmt::If { cond, then, otherwise } => {
                lemma_lift_expr(cond, st, m);
                let (c, st1, m1) = lift_expr(cond, st, m);
                lemma_lift_stmt(*then, st1, m1);
                let (t, st2, m2) = lift_stmt(*then, st1, m1);
                match otherwise {
                    Some(b) => lemma_lift_stmt(*b, st2, m2),
                    None => {},
                }
            },
            AStmt::While { cond, body } => {
                lemma_lift_expr(cond, st, m);
                let (c, st1, m1) = lift_expr(cond, st, m);
                lemma_lift_stmt(*body, st1, m1);
            },
            AStmt::DoWhile { body, cond } => {
                lemma_lift_expr(cond, st, m);
                let (c, st1, m1) = lift_expr(cond, st, m);
                lemma_lift_stmt(*body, st1, m1);
            },
            AStmt::ForOf { iter, body, .. } => {
                lemma_lift_expr(iter, st, m);
                let (i, st1, m1) = lift_expr(iter, st, m);
                lemma_lift_stmt(*body, st1, m1);
            },
            AStmt::ForIn { iter, body, .. } => {
                lemma_lift_expr(iter, st, m);
                let (i, st1, m1) = lift_expr(iter, st, m);
                lemma_lift_stmt(*body, st1, m1);
            },
            AStmt::Switch { disc, cases } => {
                lemma_lift_expr(disc, st, m);
                let (d, st1, m1) = lift_expr(disc, st, m);
                lemma_lift_cases(cases, st1, m1);
            },
            AStmt::Return { value } => lemma_lift_opt(value, st, m),
            AStmt::Throw { expr } => lemma_lift_expr(expr, st, m),
            AStmt::Try { body, catch, finally } => {
                lemma_lift_stmt(*body, st, m);
                let (b, st1, m1) = lift_stmt(*body, st, m);
                let (c, st2, m2) = match catch {
                    Some(c) => {
                        assert(decreases_to!(s => c));
                        lemma_lift_stmt(*c.body, st1, m1);
                        let (x, s1, n1) = lift_stmt(*c.body, st1, m1);
                        (Some(ACatch { binding: c.binding, body: Box::new(x) }), s1, n1)
                    },
                    None => (None, st1, m1),
                };
                match finally {
                    Some(fb) => lemma_lift_stmt(*fb, st2, m2),
                    None => {},
                }
            },
            AStmt::Decl(d) => lemma_lift_decl(d, st),
            _ => {},
        }
    }
}

proof fn lemma_lift_stmts(s: Seq<AStmt>, st: Lift, m: Names)
    requires
        st.ok ==> lifted_free(st.decls),
    ensures
        lift_stmts(s, st, m).1.ok ==> st.ok && no_plain_closure_stmts(lift_stmts(s, st, m).0)
            && lifted_free(lift_stmts(s, st, m).1.decls),
    decreases s, 0nat,
{
    if st.ok && s.len() > 0 {
        lemma_lift_stmts(s.drop_last(), st, m);
        let (xs, st1, m1) = lift_stmts(s.drop_last(), st, m);
        lemma_lift_stmt(s.last(), st1, m1);
        let x = lift_stmt(s.last(), st1, m1).0;
        assert(xs.push(x).drop_last() =~= xs);
    }
}

#[verifier::rlimit(30)]
proof fn lemma_lift_cases(s: Seq<ACase>, st: Lift, m: Names)
    requires
        st.ok ==> lifted_free(st.decls),
    ensures
        lift_cases(s, st, m).1.ok ==> st.ok && no_plain_closure_cases(lift_cases(s, st, m).0)
            && lifted_free(lift_cases(s, st, m).1.decls),
    decreases s, 0nat,
{
    if st.ok && s.len() > 0 {
        lemma_lift_cases(s.drop_last(), st, m);
        let (xs, st1, m1) = lift_cases(s.drop_last(), st, m);
        assert(decreases_to!(s => s.last()));
        lemma_lift_opt(s.last().test, st1, m1);
        let (t, st2, m2) = lift_opt(s.last().test, st1, m1);
        lemma_lift_stmts(s.last().body, st2, m2);
        let b = lift_stmts(s.last().body, st2, m2).0;
        assert(xs.push(ACase { test: t, body: b }).drop_last() =~= xs);
    }
}

proof fn lemma_lift_scope(body: Seq<AStmt>, st: Lift)
    requires
        st.ok ==> lifted_free(st.decls),
    ensures
        lift_scope(body, st).1.ok ==> st.ok && no_plain_closure_stmts(lift_scope(body, st).0)
            && lifted_free(lift_scope(body, st).1.decls),
    decreases body, 1nat,
{
    lemma_lift_stmts(body, st, Map::empty());
    let (b1, st1, m1) = lift_stmts(body, st, Map::empty());
    lemma_keep_stmts(b1, m1);
}

proof fn lemma_lift_methods(s: Seq<AFunction>, st: Lift)
    requires
        st.ok ==> lifted_free(st.decls),
    ensures
        lift_methods(s, st).1.ok ==> st.ok && no_plain_closure_methods(lift_methods(s, st).0)
            && lifted_free(lift_methods(s, st).1.decls),
    decreases s, 0nat,
{
    if st.ok && s.len() > 0 {
        lemma_lift_methods(s.drop_last(), st);
        let (xs, st1) = lift_methods(s.drop_last(), st);
        assert(decreases_to!(s => s.last()));
        lemma_lift_scope(s.last().body, st1);
        let b = lift_scope(s.last().body, st1).0;
        assert(xs.push(AFunction { body: b, ..s.last() }).drop_last() =~= xs);
    }
}

proof fn lemma_lift_decl(d: ADecl, st: Lift)
    requires
        st.ok ==> lifted_free(st.decls),
    ensures
        lift_decl(d, st).1.ok ==> st.ok && no_plain_closure_decl(lift_decl(d, st).0)
            && lifted_free(lift_decl(d, st).1.decls),
    decreases d, 0nat,
{
    if st.ok {
        match d {
            ADecl::Function(f) => lemma_lift_scope(f.body, st),
            ADecl::Class(c) => lemma_lift_methods(c.methods, st),
            ADecl::Global { init, .. } => match init {
                Some(e) => {
                    lemma_lift_expr(e, st, Map::empty());
                    let (x, st1, m1) = lift_expr(e, st, Map::empty());
                    lemma_keep_expr(x, m1);
                },
                None => {},
            },
            ADecl::Namespace { members, .. } => lemma_lift_decls(members, st),
            _ => {},
        }
    }
}

proof fn lemma_lift_decls(s: Seq<ADecl>, st: Lift)
    requires
        st.ok ==> lifted_free(st.decls),
    ensures
        lift_decls(s, st).1.ok ==> st.ok && no_plain_closure_decls(lift_decls(s, st).0)
            && lifted_free(lift_decls(s, st).1.decls),
    decreases s, 0nat,
{
    if st.ok && s.len() > 0 {
        lemma_lift_decls(s.drop_last(), st);
        let (xs, st1) = lift_decls(s.drop_last(), st);
        lemma_lift_decl(s.last(), st1);
        let x = lift_decl(s.last(), st1).0;
        assert(xs.push(x).drop_last() =~= xs);
    }
}

proof fn lemma_decls_concat(a: Seq<ADecl>, b: Seq<ADecl>)
    requires
        no_plain_closure_decls(a),
        lifted_free(b),
    ensures
        no_plain_closure_decls(a + b),
    decreases b.len(),
{
    if b.len() > 0 {
        assert forall|i: int| 0 <= i < b.drop_last().len() implies no_plain_closure_decl(
            #[trigger] b.drop_last()[i],
        ) by {
            assert(b.drop_last()[i] == b[i]);
        }
        lemma_decls_concat(a, b.drop_last());
        assert((a + b).drop_last() =~= a + b.drop_last());
        assert((a + b).last() == b[b.len() - 1]);
    }
}

/// Closure lifting leaves no closure without captures anywhere in the
/// module: not in function or method bodies, global initializers or
/// namespace members, nor in the bodies of the functions it generates;
/// each such closure, at any depth of expressions and statements (both
/// operands of every operator included), became a reference to its
/// generated function. A closure that captures is left, with its body, as
/// it was.
pub proof fn law_closure_lowering_lifts_every_plain_closure(decls: Seq<ADecl>)
    ensures
        closure_lowering(decls).1.ok ==> no_plain_closure_decls(closure_lowering(decls).0),
{
    let st0 = initial_lift(decls);
    lemma_lift_decls(decls, st0);
    let (ds, st) = lift_decls(decls, st0);
    if st.ok {
        lemma_decls_concat(ds, st.decls);
    }
}

} // verus!
