//! Which function bodies can throw, and the type of the first value they
//! throw.

use vstd::prelude::*;

use crate::aot::hir::{
    a_cases, a_expr, a_exprs, a_opt, a_fields, a_stmt, a_stmts, lemma_a_cases, lemma_a_exprs,
    lemma_a_fields, lemma_a_stmts, ACase, AExpr, AStmt, HirExpr, HirStmt, HirSwitchCase,
};
use crate::ids::{FieldId, TypeId};

verus! {

// ---------------------------------------------------------------------------
// Specification
// ---------------------------------------------------------------------------

/// Whether evaluating an expression may throw: calls, `new`, `await` and
/// `yield` may, and so may any expression with such a part (the tag of a
/// template is not looked at).
pub open spec fn expr_throws(e: AExpr) -> bool
    decreases e, 0nat,
{
    match e {
        AExpr::Call { .. } => true,
        AExpr::New { .. } => true,
        AExpr::Await { .. } => true,
        AExpr::Yield { .. } => true,
        AExpr::StructLiteral { fields, .. } => fields_throw(fields),
        AExpr::Assignment { target, value, .. } => expr_throws(*target) || expr_throws(*value),
        AExpr::Index { owner, index, .. } => expr_throws(*owner) || expr_throws(*index),
        AExpr::Field { owner, .. } => expr_throws(*owner),
        AExpr::Binary { lhs, rhs, .. } => expr_throws(*lhs) || expr_throws(*rhs),
        AExpr::Unary { expr, .. } => expr_throws(*expr),
        AExpr::Template { parts, .. } => exprs_throw(parts),
        AExpr::ArrayLiteral { elements, .. } => exprs_throw(elements),
        AExpr::TypeAssertion { expr, .. } => expr_throws(*expr),
        AExpr::OptionalChain { base, .. } => expr_throws(*base),
        AExpr::Closure { captures, .. } => exprs_throw(captures),
        _ => false,
    }
}

/// Whether some expression of the list may throw.
pub open spec fn exprs_throw(s: Seq<AExpr>) -> bool
    decreases s, 0nat,
{
    if s.len() == 0 {
        false
    } else {
        expr_throws(s[0]) || exprs_throw(s.subrange(1, s.len() as int))
    }
}

/// Whether the value of some field may throw.
pub open spec fn fields_throw(s: Seq<(FieldId, AExpr)>) -> bool
    decreases s, 0nat,
{
    if s.len() == 0 {
        false
    } else {
        expr_throws(s[0].1) || fields_throw(s.subrange(1, s.len() as int))
    }
}

/// Whether executing a statement may throw; nested declarations do not.
pub open spec fn stmt_throws(s: AStmt) -> bool
    decreases s, 0nat,
{
    match s {
        AStmt::Expr { expr } => expr_throws(expr),
        AStmt::Throw { .. } => true,
        AStmt::If { cond, then, otherwise } => expr_throws(cond) || stmt_throws(*then) || match otherwise {
            Some(b) => stmt_throws(*b),
            None => false,
        },
        AStmt::While { cond, body } => expr_throws(cond) || stmt_throws(*body),
        AStmt::DoWhile { body, cond } => expr_throws(cond) || stmt_throws(*body),
        AStmt::ForOf { iter, body, .. } => expr_throws(iter) || stmt_throws(*body),
        AStmt::ForIn { iter, body, .. } => expr_throws(iter) || stmt_throws(*body),
        AStmt::Switch { disc, cases } => expr_throws(disc) || cases_throw(cases),
        AStmt::Try { body, catch, finally } => stmt_throws(*body) || match catch {
            Some(c) => stmt_throws(*c.body),
            None => false,
        } || match finally {
            Some(f) => stmt_throws(*f),
            None => false,
        },
        AStmt::Block(v) => stmts_throw(v),
        AStmt::Let { init, .. } => match init {
            Some(e) => expr_throws(e),
            None => false,
        },
        AStmt::Return { value } => match value {
            Some(e) => expr_throws(e),
            None => false,
        },
        _ => false,
    }
}

/// Whether some statement of the list may throw.
pub open spec fn stmts_throw(s: Seq<AStmt>) -> bool
    decreases s, 0nat,
{
    if s.len() == 0 {
        false
    } else {
        stmt_throws(s[0]) || stmts_throw(s.subrange(1, s.len() as int))
    }
}

/// Whether the test or the body of a case may throw.
pub open spec fn case_throws(c: ACase) -> bool
    decreases c, 0nat,
{
    (match c.test {
        Some(e) => expr_throws(e),
        None => false,
    }) || stmts_throw(c.body)
}

/// Whether the test or the body of some case may throw.
pub open spec fn cases_throw(s: Seq<ACase>) -> bool
    decreases s, 0nat,
{
    if s.len() == 0 {
        false
    } else {
        case_throws(s[0]) || cases_throw(s.subrange(1, s.len() as int))
    }
}

/// The type of a thrown expression: its own type, the target of a type
/// assertion, and type 0 for literals.
pub open spec fn thrown_type(e: AExpr) -> TypeId {
    match e {
        AExpr::Local { ty, .. } => ty,
        AExpr::Global { ty, .. } => ty,
        AExpr::Field { ty, .. } => ty,
        AExpr::Index { ty, .. } => ty,
        AExpr::Call { ty, .. } => ty,
        AExpr::Binary { ty, .. } => ty,
        AExpr::Unary { ty, .. } => ty,
        AExpr::StructLiteral { ty, .. } => ty,
        AExpr::ArrayLiteral { ty, .. } => ty,
        AExpr::Closure { ty, .. } => ty,
        AExpr::Await { ty, .. } => ty,
        AExpr::Yield { ty, .. } => ty,
        AExpr::Template { ty, .. } => ty,
        AExpr::New { ty, .. } => ty,
        AExpr::OptionalChain { ty, .. } => ty,
        AExpr::Assignment { ty, .. } => ty,
        AExpr::TypeAssertion { target, .. } => target,
        _ => TypeId(0),
    }
}

/// The type of the first `throw` found in a statement, looking into
/// branches, loop bodies, blocks, try bodies and switch cases.
pub open spec fn stmt_throw_type(s: AStmt) -> Option<TypeId>
    decreases s, 0nat,
{
    match s {
        AStmt::Throw { expr } => Some(thrown_type(expr)),
        AStmt::If { then, otherwise, .. } => match stmt_throw_type(*then) {
            Some(t) => Some(t),
            None => match otherwise {
                Some(b) => stmt_throw_type(*b),
                None => None,
            },
        },
        AStmt::While { body, .. } => stmt_throw_type(*body),
        AStmt::DoWhile { body, .. } => stmt_throw_type(*body),
        AStmt::ForOf { body, .. } => stmt_throw_type(*body),
        AStmt::ForIn { body, .. } => stmt_throw_type(*body),
        AStmt::Block(v) => stmts_throw_type(v),
        AStmt::Try { body, .. } => stmt_throw_type(*body),
        AStmt::Switch { cases, .. } => cases_throw_type(cases),
        _ => None,
    }
}

/// The first thrown type found in a list of statements.
pub open spec fn stmts_throw_type(s: Seq<AStmt>) -> Option<TypeId>
    decreases s, 0nat,
{
    if s.len() == 0 {
        None
    } else {
        match stmt_throw_type(s[0]) {
            Some(t) => Some(t),
            None => stmts_throw_type(s.subrange(1, s.len() as int)),
        }
    }
}

/// The first thrown type found in the bodies of the cases.
pub open spec fn cases_throw_type(s: Seq<ACase>) -> Option<TypeId>
    decreases s, 0nat,
{
    if s.len() == 0 {
        None
    } else {
        match stmts_throw_type(s[0].body) {
            Some(t) => Some(t),
            None => cases_throw_type(s.subrange(1, s.len() as int)),
        }
    }
}


// ---------------------------------------------------------------------------
// Executable checks
// ---------------------------------------------------------------------------

fn expr_can_throw(e: &HirExpr) -> (b: bool)
    ensures
        b == expr_throws(e@),
    decreases e, 0nat,
{
    match e {
        HirExpr::Call { .. } | HirExpr::New { .. } | HirExpr::Await { .. } | HirExpr::Yield { .. } => true,
        HirExpr::StructLiteral { fields, .. } => fields_can_throw(fields),
        HirExpr::Assignment { target, value, .. } => expr_can_throw(target) || expr_can_throw(value),
        HirExpr::Index { owner, index, .. } => expr_can_throw(owner) || expr_can_throw(index),
        HirExpr::Field { owner, .. } => expr_can_throw(owner),
        HirExpr::Binary { lhs, rhs, .. } => expr_can_throw(lhs) || expr_can_throw(rhs),
        HirExpr::Unary { expr, .. } => expr_can_throw(expr),
        HirExpr::Template { parts, .. } => exprs_can_throw(parts),
        HirExpr::ArrayLiteral { elements, .. } => exprs_can_throw(elements),
        HirExpr::TypeAssertion { expr, .. } => expr_can_throw(expr),
        HirExpr::OptionalChain { base, .. } => expr_can_throw(base),
        HirExpr::Closure { captures, .. } => exprs_can_throw(captures),
        _ => false,
    }
}

fn exprs_can_throw(v: &Vec<HirExpr>) -> (b: bool)
    ensures
        b == exprs_throw(a_exprs(v@)),
    decreases v, 1nat,
{
    let ghost sv = a_exprs(v@);
    proof {
        lemma_a_exprs(v@);
        assert(sv.subrange(0, sv.len() as int) =~= sv);
    }
    let mut i: usize = 0;
    while i < v.len()
        invariant
            sv == a_exprs(v@),
            sv.len() == v@.len(),
            i <= v@.len(),
            exprs_throw(sv) == exprs_throw(sv.subrange(i as int, sv.len() as int)),
        decreases v@.len() - i,
    {
        proof {
            lemma_a_exprs(v@);
            assert(decreases_to!(v => v@[i as int]));
            
            assert(sv.subrange(i as int, sv.len() as int)[0] == sv[i as int]);
            assert(sv.subrange(i as int, sv.len() as int).subrange(1, sv.len() - i) =~= sv.subrange(i + 1, sv.len() as int));
        }
        if expr_can_throw(&v[i]) {
            return true;
        }
        i = i + 1;
    }
    proof {
        assert(sv.subrange(i as int, sv.len() as int).len() == 0);
    }
    false
}

fn fields_can_throw(v: &Vec<(FieldId, HirExpr)>) -> (b: bool)
    ensures
        b == fields_throw(a_fields(v@)),
    decreases v, 1nat,
{
    let ghost sv = a_fields(v@);
    proof {
        lemma_a_fields(v@);
        assert(sv.subrange(0, sv.len() as int) =~= sv);
    }
    let mut i: usize = 0;
    while i < v.len()
        invariant
            sv == a_fields(v@),
            sv.len() == v@.len(),
            i <= v@.len(),
            fields_throw(sv) == fields_throw(sv.subrange(i as int, sv.len() as int)),
        decreases v@.len() - i,
    {
        proof {
            lemma_a_fields(v@);
            assert(decreases_to!(v => v@[i as int]));
            assert(decreases_to!(v@[i as int] => v@[i as int].1));
            assert(sv.subrange(i as int, sv.len() as int)[0] == sv[i as int]);
            assert(sv.subrange(i as int, sv.len() as int).subrange(1, sv.len() - i) =~= sv.subrange(i + 1, sv.len() as int));
        }
        if expr_can_throw(&v[i].1) {
            return true;
        }
        i = i + 1;
    }
    proof {
        assert(sv.subrange(i as int, sv.len() as int).len() == 0);
    }
    false
}

fn case_can_throw(c: &HirSwitchCase) -> (b: bool)
    ensures
        b == case_throws(ACase { test: a_opt(c.test), body: a_stmts(c.body@) }),
    decreases c, 0nat,
{
    let t = match &c.test {
        Some(e) => expr_can_throw(e),
        None => false,
    };
    t || block_can_throw(&c.body)
}

fn stmt_can_throw(s: &HirStmt) -> (b: bool)
    ensures
        b == stmt_throws(s@),
    decreases s, 0nat,
{
    match s {
        HirStmt::Expr { expr } => expr_can_throw(expr),
        HirStmt::Throw { .. } => true,
        HirStmt::If { cond, then, otherwise } => expr_can_throw(cond) || stmt_can_throw(then) || match otherwise {
            Some(b) => stmt_can_throw(b),
            None => false,
        },
        HirStmt::While { cond, body } => expr_can_throw(cond) || stmt_can_throw(body),
        HirStmt::DoWhile { body, cond } => expr_can_throw(cond) || stmt_can_throw(body),
        HirStmt::ForOf { iter, body, .. } => expr_can_throw(iter) || stmt_can_throw(body),
        HirStmt::ForIn { iter, body, .. } => expr_can_throw(iter) || stmt_can_throw(body),
        HirStmt::Switch { disc, cases } => expr_can_throw(disc) || cases_can_throw(cases),
        HirStmt::Try { body, catch, finally } => stmt_can_throw(body) || match catch {
            Some(c) => stmt_can_throw(&c.body),
            None => false,
        } || match finally {
            Some(f) => stmt_can_throw(f),
            None => false,
        },
        HirStmt::Block(v) => block_can_throw(v),
        HirStmt::Let { init, .. } => match init {
            Some(e) => expr_can_throw(e),
            None => false,
        },
        HirStmt::Return { value } => match value {
            Some(e) => expr_can_throw(e),
            None => false,
        },
        _ => false,
    }
}

fn block_can_throw(v: &Vec<HirStmt>) -> (b: bool)
    ensures
        b == stmts_throw(a_stmts(v@)),
    decreases v, 1nat,
{
    let ghost sv = a_stmts(v@);
    proof {
        lemma_a_stmts(v@);
        assert(sv.subrange(0, sv.len() as int) =~= sv);
    }
    let mut i: usize = 0;
    while i < v.len()
        invariant
            sv == a_stmts(v@),
            sv.len() == v@.len(),
            i <= v@.len(),
            stmts_throw(sv) == stmts_throw(sv.subrange(i as int, sv.len() as int)),
        decreases v@.len() - i,
    {
        proof {
            lemma_a_stmts(v@);
            assert(decreases_to!(v => v@[i as int]));
            
            assert(sv.subrange(i as int, sv.len() as int)[0] == sv[i as int]);
            assert(sv.subrange(i as int, sv.len() as int).subrange(1, sv.len() - i) =~= sv.subrange(i + 1, sv.len() as int));
        }
        if stmt_can_throw(&v[i]) {
            return true;
        }
        i = i + 1;
    }
    proof {
        assert(sv.subrange(i as int, sv.len() as int).len() == 0);
    }
    false
}

fn cases_can_throw(v: &Vec<HirSwitchCase>) -> (b: bool)
    ensures
        b == cases_throw(a_cases(v@)),
    decreases v, 1nat,
{
    let ghost sv = a_cases(v@);
    proof {
        lemma_a_cases(v@);
        assert(sv.subrange(0, sv.len() as int) =~= sv);
    }
    let mut i: usize = 0;
    while i < v.len()
        invariant
            sv == a_cases(v@),
            sv.len() == v@.len(),
            i <= v@.len(),
            cases_throw(sv) == cases_throw(sv.subrange(i as int, sv.len() as int)),
        decreases v@.len() - i,
    {
        proof {
            lemma_a_cases(v@);
            assert(decreases_to!(v => v@[i as int]));
            
            assert(sv.subrange(i as int, sv.len() as int)[0] == sv[i as int]);
            assert(sv.subrange(i as int, sv.len() as int).subrange(1, sv.len() - i) =~= sv.subrange(i + 1, sv.len() as int));
        }
        if case_can_throw(&v[i]) {
            return true;
        }
        i = i + 1;
    }
    proof {
        assert(sv.subrange(i as int, sv.len() as int).len() == 0);
    }
    false
}

/// Whether a function body may throw: some statement throws, or evaluates
/// a call, `new`, `await` or `yield`.
pub fn body_can_throw(body: &Vec<HirStmt>) -> (b: bool)
    ensures
        b == stmts_throw(a_stmts(body@)),
        contains_throw_in(a_stmts(body@)) ==> b,
{
    proof {
        law_throw_statement_found(a_stmts(body@));
    }
    block_can_throw(body)
}

/// The type that a thrown expression has.
pub fn throw_expr_type(expr: &HirExpr) -> (ty: TypeId)
    ensures
        ty == thrown_type(expr@),
{
    match expr {
        HirExpr::Local { ty, .. }
        | HirExpr::Global { ty, .. }
        | HirExpr::Field { ty, .. }
        | HirExpr::Index { ty, .. }
        | HirExpr::Call { ty, .. }
        | HirExpr::Binary { ty, .. }
        | HirExpr::Unary { ty, .. }
        | HirExpr::StructLiteral { ty, .. }
        | HirExpr::ArrayLiteral { ty, .. }
        | HirExpr::Closure { ty, .. }
        | HirExpr::Await { ty, .. }
        | HirExpr::Yield { ty, .. }
        | HirExpr::Template { ty, .. }
        | HirExpr::New { ty, .. }
        | HirExpr::OptionalChain { ty, .. }
        | HirExpr::Assignment { ty, .. } => *ty,
        HirExpr::TypeAssertion { target, .. } => *target,
        _ => TypeId(0),
    }
}

fn stmt_throw_ty(s: &HirStmt) -> (r: Option<TypeId>)
    ensures
        r == stmt_throw_type(s@),
    decreases s, 0nat,
{
    match s {
        HirStmt::Throw { expr } => Some(throw_expr_type(expr)),
        HirStmt::If { then, otherwise, .. } => match stmt_throw_ty(then) {
            Some(t) => Some(t),
            None => match otherwise {
                Some(b) => stmt_throw_ty(b),
                None => None,
            },
        },
        HirStmt::While { body, .. } | HirStmt::DoWhile { body, .. } => stmt_throw_ty(body),
        HirStmt::ForOf { body, .. } | HirStmt::ForIn { body, .. } => stmt_throw_ty(body),
        HirStmt::Block(v) => stmts_throw_ty(v),
        HirStmt::Try { body, .. } => stmt_throw_ty(body),
        HirStmt::Switch { cases, .. } => cases_throw_ty(cases),
        _ => None,
    }
}

fn stmts_throw_ty(v: &Vec<HirStmt>) -> (r: Option<TypeId>)
    ensures
        r == stmts_throw_type(a_stmts(v@)),
    decreases v, 1nat,
{
    let ghost sv = a_stmts(v@);
    proof {
        lemma_a_stmts(v@);
        assert(sv.subrange(0, sv.len() as int) =~= sv);
    }
    let mut i: usize = 0;
    while i < v.len()
        invariant
            sv == a_stmts(v@),
            sv.len() == v@.len(),
            i <= v@.len(),
            stmts_throw_type(sv) == stmts_throw_type(sv.subrange(i as int, sv.len() as int)),
        decreases v@.len() - i,
    {
        proof {
            lemma_a_stmts(v@);
            assert(decreases_to!(v => v@[i as int]));
            assert(sv.subrange(i as int, sv.len() as int)[0] == sv[i as int]);
            assert(sv.subrange(i as int, sv.len() as int).subrange(1, sv.len() - i) =~= sv.subrange(i + 1, sv.len() as int));
        }
        match stmt_throw_ty(&v[i]) {
            Some(t) => {
                return Some(t);
            },
            None => {},
        }
        i = i + 1;
    }
    proof {
        assert(sv.subrange(i as int, sv.len() as int).len() == 0);
    }
    None
}

fn cases_throw_ty(v: &Vec<HirSwitchCase>) -> (r: Option<TypeId>)
    ensures
        r == cases_throw_type(a_cases(v@)),
    decreases v, 1nat,
{
    let ghost sv = a_cases(v@);
    proof {
        lemma_a_cases(v@);
        assert(sv.subrange(0, sv.len() as int) =~= sv);
    }
    let mut i: usize = 0;
    while i < v.len()
        invariant
            sv == a_cases(v@),
            sv.len() == v@.len(),
            i <= v@.len(),
            cases_throw_type(sv) == cases_throw_type(sv.subrange(i as int, sv.len() as int)),
        decreases v@.len() - i,
    {
        proof {
            lemma_a_cases(v@);
            assert(decreases_to!(v => v@[i as int]));
            assert(decreases_to!(v@[i as int] => v@[i as int].body));
            assert(sv.subrange(i as int, sv.len() as int)[0] == sv[i as int]);
            assert(sv.subrange(i as int, sv.len() as int).subrange(1, sv.len() - i) =~= sv.subrange(i + 1, sv.len() as int));
        }
        match stmts_throw_ty(&v[i].body) {
            Some(t) => {
                return Some(t);
            },
            None => {},
        }
        i = i + 1;
    }
    proof {
        assert(sv.subrange(i as int, sv.len() as int).len() == 0);
    }
    None
}

/// The type of the first `throw` in a function body, found by looking
/// into branches, loop bodies, blocks, try bodies and switch cases.
pub fn body_throws_type(body: &Vec<HirStmt>) -> (r: Option<TypeId>)
    ensures
        r == stmts_throw_type(a_stmts(body@)),
        r is Some <==> contains_throw_in(a_stmts(body@)),
{
    proof {
        law_throw_statement_found(a_stmts(body@));
    }
    stmts_throw_ty(body)
}

/// The type a function throws: the declared one, or else the type of the
/// first `throw` in its body.
pub fn infer_throws(body: &Vec<HirStmt>, declared: Option<TypeId>) -> (r: Option<TypeId>)
    ensures
        r == (match declared {
            Some(t) => Some(t),
            None => stmts_throw_type(a_stmts(body@)),
        }),
{
    if declared.is_some() {
        declared
    } else {
        body_throws_type(body)
    }
}

// ---------------------------------------------------------------------------
// Laws
// ---------------------------------------------------------------------------

/// Whether a `throw` statement occurs in a statement, in its branches, loop
/// bodies, blocks, try body or switch cases, at any depth.
pub open spec fn contains_throw(s: AStmt) -> bool
    decreases s, 0nat,
{
    match s {
        AStmt::Throw { .. } => true,
        AStmt::If { then, otherwise, .. } => contains_throw(*then) || match otherwise {
            Some(b) => contains_throw(*b),
            None => false,
        },
        AStmt::While { body, .. } => contains_throw(*body),
        AStmt::DoWhile { body, .. } => contains_throw(*body),
        AStmt::ForOf { body, .. } => contains_throw(*body),
        AStmt::ForIn { body, .. } => contains_throw(*body),
        AStmt::Block(v) => contains_throw_in(v),
        AStmt::Try { body, .. } => contains_throw(*body),
        AStmt::Switch { cases, .. } => contains_throw_in_cases(cases),
        _ => false,
    }
}

/// Whether a `throw` statement occurs in some statement of the list.
pub open spec fn contains_throw_in(v: Seq<AStmt>) -> bool
    decreases v, 0nat,
{
    v.len() > 0 && (contains_throw(v[0]) || contains_throw_in(v.subrange(1, v.len() as int)))
}

/// Whether a `throw` statement occurs in the body of some case.
pub open spec fn contains_throw_in_cases(cs: Seq<ACase>) -> bool
    decreases cs, 0nat,
{
    cs.len() > 0 && (contains_throw_in(cs[0].body) || contains_throw_in_cases(cs.subrange(1, cs.len() as int)))
}

proof fn lemma_contains_throw(s: AStmt)
    ensures
        stmt_throw_type(s) is Some <==> contains_throw(s),
        contains_throw(s) ==> stmt_throws(s),
    decreases s, 0nat,
{
    match s {
        AStmt::If { then, otherwise, .. } => {
            lemma_contains_throw(*then);
            match otherwise {
                Some(b) => lemma_contains_throw(*b),
                None => {},
            }
        },
        AStmt::While { body, .. } => lemma_contains_throw(*body),
        AStmt::DoWhile { body, .. } => lemma_contains_throw(*body),
        AStmt::ForOf { body, .. } => lemma_contains_throw(*body),
        AStmt::ForIn { body, .. } => lemma_contains_throw(*body),
        AStmt::Block(v) => lemma_contains_throw_in(v),
        AStmt::Try { body, .. } => lemma_contains_throw(*body),
        AStmt::Switch { cases, .. } => lemma_contains_throw_in_cases(cases),
        _ => {},
    }
}

proof fn lemma_contains_throw_in(v: Seq<AStmt>)
    ensures
        stmts_throw_type(v) is Some <==> contains_throw_in(v),
        contains_throw_in(v) ==> stmts_throw(v),
    decreases v, 0nat,
{
    if v.len() > 0 {
        lemma_contains_throw(v[0]);
        lemma_contains_throw_in(v.subrange(1, v.len() as int));
    }
}

proof fn lemma_contains_throw_in_cases(cs: Seq<ACase>)
    ensures
        cases_throw_type(cs) is Some <==> contains_throw_in_cases(cs),
        contains_throw_in_cases(cs) ==> cases_throw(cs),
    decreases cs, 0nat,
{
    if cs.len() > 0 {
        assert(decreases_to!(cs => cs[0]));
        lemma_contains_throw_in(cs[0].body);
        lemma_contains_throw_in_cases(cs.subrange(1, cs.len() as int));
        assert(contains_throw_in(cs[0].body) ==> case_throws(cs[0]));
    }
}

/// A body has a thrown type exactly when a `throw` statement occurs in it,
/// in its branches, loop bodies (`for-of` and `for-in` included), blocks,
/// try bodies or switch cases, at any depth; and such a body can throw.
pub proof fn law_throw_statement_found(body: Seq<AStmt>)
    ensures
        stmts_throw_type(body) is Some <==> contains_throw_in(body),
        contains_throw_in(body) ==> stmts_throw(body),
{
    lemma_contains_throw_in(body);
}

} // verus!
