//! The effects of a function of the high-level IR: whether its body can
//! throw, and the parameters of its converted form.

use vstd::prelude::*;

use crate::hir::expr::{expr_view, exprs_view, fields_view, lemma_exprs_view, lemma_fields_view, HirExpr, SExpr};
use crate::hir::stmt::{lemma_stmts_view, stmt_view, stmts_view, HirParam, HirStmt, SStmt};
use crate::ids::{FieldId, LocalId, SymbolId, TypeId};
use crate::mir::decl::MirParam;
use crate::passes::lower_enums::text_or_empty;
use crate::tables::{StringTable, SymbolTable, can_intern, interned};

verus! {

/// Whether evaluating an expression may throw: calls, `await`, `new`,
/// closures and `yield` may, and so may an expression with such a part.
pub open spec fn hir_expr_throws(e: SExpr) -> bool
    decreases e, 0nat,
{
    match e {
        SExpr::Call { .. } => true,
        SExpr::Await { .. } => true,
        SExpr::New { .. } => true,
        SExpr::Closure { .. } => true,
        SExpr::Yield { .. } => true,
        SExpr::Field { owner, .. } => hir_expr_throws(*owner),
        SExpr::Index { owner, index, .. } => hir_expr_throws(*owner) || hir_expr_throws(*index),
        SExpr::Binary { lhs, rhs, .. } => hir_expr_throws(*lhs) || hir_expr_throws(*rhs),
        SExpr::Unary { expr, .. } => hir_expr_throws(*expr),
        SExpr::Template { parts, .. } => hir_exprs_throw(parts),
        SExpr::OptionalChain { base, .. } => hir_expr_throws(*base),
        SExpr::TypeAssertion { expr, .. } => hir_expr_throws(*expr),
        SExpr::Assignment { target, value, .. } => hir_expr_throws(*target) || hir_expr_throws(*value),
        SExpr::ArrayLiteral { elements, .. } => hir_exprs_throw(elements),
        SExpr::StructLiteral { fields, .. } => hir_fields_throw(fields),
        _ => false,
    }
}

/// Whether some expression of the list may throw.
pub open spec fn hir_exprs_throw(s: Seq<SExpr>) -> bool
    decreases s, 0nat,
{
    if s.len() == 0 {
        false
    } else {
        hir_expr_throws(s[0]) || hir_exprs_throw(s.subrange(1, s.len() as int))
    }
}

/// Whether the value of some field may throw.
pub open spec fn hir_fields_throw(s: Seq<(FieldId, SExpr)>) -> bool
    decreases s, 0nat,
{
    if s.len() == 0 {
        false
    } else {
        hir_expr_throws(s[0].1) || hir_fields_throw(s.subrange(1, s.len() as int))
    }
}

/// Whether executing a statement may throw; the tests of switch cases and
/// nested declarations are not looked at.
pub open spec fn hir_stmt_throws(s: SStmt) -> bool
    decreases s, 0nat,
{
    match s {
        SStmt::Throw { .. } => true,
        SStmt::Block(v) => hir_stmts_throw(v),
        SStmt::Let { init, .. } => match init {
            Some(e) => hir_expr_throws(e),
            None => false,
        },
        SStmt::Expr { expr } => hir_expr_throws(expr),
        SStmt::If { cond, then, otherwise } => hir_expr_throws(cond) || hir_stmt_throws(*then) || match otherwise {
            Some(b) => hir_stmt_throws(*b),
            None => false,
        },
        SStmt::While { cond, body } => hir_expr_throws(cond) || hir_stmt_throws(*body),
        SStmt::DoWhile { body, cond } => hir_expr_throws(cond) || hir_stmt_throws(*body),
        SStmt::ForOf { iter, body, .. } => hir_expr_throws(iter) || hir_stmt_throws(*body),
        SStmt::ForIn { iter, body, .. } => hir_expr_throws(iter) || hir_stmt_throws(*body),
        SStmt::Switch { disc, cases } => hir_expr_throws(disc) || hir_case_bodies_throw(cases),
        SStmt::Try { body, catch, finally } => hir_stmt_throws(*body) || match catch {
            Some(c) => hir_stmt_throws(*c.body),
            None => false,
        } || match finally {
            Some(f) => hir_stmt_throws(*f),
            None => false,
        },
        SStmt::Return { value } => match value {
            Some(e) => hir_expr_throws(e),
            None => false,
        },
        _ => false,
    }
}

/// Whether some statement of the list may throw.
pub open spec fn hir_stmts_throw(s: Seq<SStmt>) -> bool
    decreases s, 0nat,
{
    if s.len() == 0 {
        false
    } else {
        hir_stmt_throws(s[0]) || hir_stmts_throw(s.subrange(1, s.len() as int))
    }
}

/// Whether the body of some case may throw.
pub open spec fn hir_case_bodies_throw(s: Seq<crate::hir::stmt::SCase>) -> bool
    decreases s, 0nat,
{
    if s.len() == 0 {
        false
    } else {
        hir_stmts_throw(s[0].body) || hir_case_bodies_throw(s.subrange(1, s.len() as int))
    }
}

/// Whether a `throw` statement occurs in a statement, at any depth of
/// blocks, branches, loop bodies, switch cases and `try` parts (nested
/// declarations are other functions and are not looked at).
pub open spec fn has_throw(s: SStmt) -> bool
    decreases s, 0nat,
{
    match s {
        SStmt::Throw { .. } => true,
        SStmt::Block(v) => has_throw_in(v),
        SStmt::If { then, otherwise, .. } => has_throw(*then) || match otherwise {
            Some(b) => has_throw(*b),
            None => false,
        },
        SStmt::While { body, .. } => has_throw(*body),
        SStmt::DoWhile { body, .. } => has_throw(*body),
        SStmt::ForOf { body, .. } => has_throw(*body),
        SStmt::ForIn { body, .. } => has_throw(*body),
        SStmt::Switch { cases, .. } => has_throw_in_cases(cases),
        SStmt::Try { body, catch, finally } => has_throw(*body) || match catch {
            Some(c) => has_throw(*c.body),
            None => false,
        } || match finally {
            Some(f) => has_throw(*f),
            None => false,
        },
        _ => false,
    }
}

/// Whether a `throw` statement occurs in some statement of the list.
pub open spec fn has_throw_in(v: Seq<SStmt>) -> bool
    decreases v, 1nat,
{
    v.len() > 0 && (has_throw_in(v.drop_last()) || has_throw(v.last()))
}

/// Whether a `throw` statement occurs in the body of some case.
pub open spec fn has_throw_in_cases(cs: Seq<crate::hir::stmt::SCase>) -> bool
    decreases cs, 1nat,
{
    cs.len() > 0 && (has_throw_in_cases(cs.drop_last()) || has_throw_in(cs.last().body))
}

proof fn lemma_stmts_throw_at(v: Seq<SStmt>, i: int)
    requires
        0 <= i < v.len(),
        hir_stmt_throws(v[i]),
    ensures
        hir_stmts_throw(v),
    decreases i,
{
    if i > 0 {
        let r = v.subrange(1, v.len() as int);
        assert(r[i - 1] == v[i]);
        lemma_stmts_throw_at(r, i - 1);
    }
}

proof fn lemma_cases_throw_at(cs: Seq<crate::hir::stmt::SCase>, i: int)
    requires
        0 <= i < cs.len(),
        hir_stmts_throw(cs[i].body),
    ensures
        hir_case_bodies_throw(cs),
    decreases i,
{
    if i > 0 {
        let r = cs.subrange(1, cs.len() as int);
        assert(r[i - 1] == cs[i]);
        lemma_cases_throw_at(r, i - 1);
    }
}

proof fn lemma_has_throw(s: SStmt)
    requires
        has_throw(s),
    ensures
        hir_stmt_throws(s),
    decreases s, 2nat,
{
    match s {
        SStmt::Block(v) => lemma_has_throw_in(v),
        SStmt::If { then, otherwise, .. } => {
            if has_throw(*then) {
                lemma_has_throw(*then);
            } else {
                match otherwise {
                    Some(b) => lemma_has_throw(*b),
                    None => {},
                }
            }
        },
        SStmt::While { body, .. } => lemma_has_throw(*body),
        SStmt::DoWhile { body, .. } => lemma_has_throw(*body),
        SStmt::ForOf { body, .. } => lemma_has_throw(*body),
        SStmt::ForIn { body, .. } => lemma_has_throw(*body),
        SStmt::Switch { cases, .. } => lemma_has_throw_in_cases(cases),
        SStmt::Try { body, catch, finally } => {
            if has_throw(*body) {
                lemma_has_throw(*body);
            } else if catch is Some && has_throw(*catch->0.body) {
                let c = catch->0;
                assert(decreases_to!(s => c));
                lemma_has_throw(*c.body);
            } else {
                match finally {
                    Some(f) => lemma_has_throw(*f),
                    None => {},
                }
            }
        },
        _ => {},
    }
}

proof fn lemma_has_throw_in(v: Seq<SStmt>)
    requires
        has_throw_in(v),
    ensures
        hir_stmts_throw(v),
    decreases v, 1nat,
{
    if has_throw(v.last()) {
        lemma_has_throw(v.last());
        lemma_stmts_throw_at(v, v.len() - 1);
    } else {
        lemma_has_throw_in_at(v.drop_last());
        let i = choose|i: int| 0 <= i < v.drop_last().len() && hir_stmt_throws(#[trigger] v.drop_last()[i]);
        assert(v.drop_last()[i] == v[i]);
        lemma_stmts_throw_at(v, i);
    }
}

proof fn lemma_has_throw_in_at(v: Seq<SStmt>)
    requires
        has_throw_in(v),
    ensures
        exists|i: int| 0 <= i < v.len() && hir_stmt_throws(#[trigger] v[i]),
    decreases v, 0nat,
{
    if has_throw(v.last()) {
        lemma_has_throw(v.last());
        assert(hir_stmt_throws(v[v.len() - 1]));
    } else {
        lemma_has_throw_in_at(v.drop_last());
        let i = choose|i: int| 0 <= i < v.drop_last().len() && hir_stmt_throws(#[trigger] v.drop_last()[i]);
        assert(v.drop_last()[i] == v[i]);
    }
}

proof fn lemma_has_throw_in_cases(cs: Seq<crate::hir::stmt::SCase>)
    requires
        has_throw_in_cases(cs),
    ensures
        hir_case_bodies_throw(cs),
    decreases cs, 1nat,
{
    if has_throw_in(cs.last().body) {
        assert(decreases_to!(cs => cs.last()));
        lemma_has_throw_in(cs.last().body);
        lemma_cases_throw_at(cs, cs.len() - 1);
    } else {
        lemma_has_throw_in_cases_at(cs.drop_last());
        let i = choose|i: int| 0 <= i < cs.drop_last().len() && hir_stmts_throw(#[trigger] cs.drop_last()[i].body);
        assert(cs.drop_last()[i] == cs[i]);
        lemma_cases_throw_at(cs, i);
    }
}

proof fn lemma_has_throw_in_cases_at(cs: Seq<crate::hir::stmt::SCase>)
    requires
        has_throw_in_cases(cs),
    ensures
        exists|i: int| 0 <= i < cs.len() && hir_stmts_throw(#[trigger] cs[i].body),
    decreases cs, 0nat,
{
    if has_throw_in(cs.last().body) {
        assert(decreases_to!(cs => cs.last()));
        lemma_has_throw_in(cs.last().body);
        assert(hir_stmts_throw(cs[cs.len() - 1].body));
    } else {
        lemma_has_throw_in_cases_at(cs.drop_last());
        let i = choose|i: int| 0 <= i < cs.drop_last().len() && hir_stmts_throw(#[trigger] cs.drop_last()[i].body);
        assert(cs.drop_last()[i] == cs[i]);
    }
}

/// A body with a `throw` statement anywhere in it, at any depth of blocks,
/// branches, loop bodies, switch cases and `try` parts, may throw.
pub proof fn law_throw_statement_means_may_throw(body: Seq<SStmt>)
    requires
        has_throw_in(body),
    ensures
        hir_stmts_throw(body),
{
    lemma_has_throw_in(body);
}

// ---------------------------------------------------------------------------
// Executable checks
// ---------------------------------------------------------------------------

/// Whether evaluating an expression may throw.
pub fn hir_expr_can_throw(e: &HirExpr) -> (b: bool)
    ensures
        b == hir_expr_throws(e@),
    decreases e, 0nat,
{
    match e {
        HirExpr::Call { .. } | HirExpr::Await { .. } | HirExpr::New { .. } => true,
        HirExpr::Field { owner, .. } => hir_expr_can_throw(owner),
        HirExpr::Index { owner, index, .. } => hir_expr_can_throw(owner) || hir_expr_can_throw(index),
        HirExpr::Binary { lhs, rhs, .. } => hir_expr_can_throw(lhs) || hir_expr_can_throw(rhs),
        HirExpr::Unary { expr, .. } => hir_expr_can_throw(expr),
        HirExpr::Template { parts, .. } => exprs_can_throw(parts),
        HirExpr::OptionalChain { base, .. } => hir_expr_can_throw(base),
        HirExpr::TypeAssertion { expr, .. } => hir_expr_can_throw(expr),
        HirExpr::Assignment { target, value, .. } => hir_expr_can_throw(target) || hir_expr_can_throw(value),
        HirExpr::ArrayLiteral { elements, .. } => exprs_can_throw(elements),
        HirExpr::StructLiteral { fields, .. } => fields_can_throw(fields),
        HirExpr::Closure { .. } | HirExpr::Yield { .. } => true,
        _ => false,
    }
}
fn exprs_can_throw(v: &Vec<HirExpr>) -> (b: bool)
    ensures
        b == hir_exprs_throw(exprs_view(v@)),
    decreases v, 1nat,
{
    let ghost sv = exprs_view(v@);
    proof {
        lemma_exprs_view(v@);
        assert(sv.subrange(0, sv.len() as int) =~= sv);
    }
    let mut i: usize = 0;
    while i < v.len()
        invariant
            sv == exprs_view(v@),
            sv.len() == v@.len(),
            i <= v@.len(),
            hir_exprs_throw(sv) == hir_exprs_throw(sv.subrange(i as int, sv.len() as int)),
        decreases v@.len() - i,
    {
        proof {
            lemma_exprs_view(v@);
            assert(decreases_to!(v => v@[i as int]));
            
            assert(sv.subrange(i as int, sv.len() as int)[0] == sv[i as int]);
            assert(sv.subrange(i as int, sv.len() as int).subrange(1, sv.len() - i) =~= sv.subrange(i + 1, sv.len() as int));
        }
        if hir_expr_can_throw(&v[i]) {
            return true;
        }
        i = i + 1;
    }
    proof {
        assert(sv.subrange(i as int, sv.len() as int).len() == 0);
    }
    false
}

fn fields_can_throw(v: &Vec<(FieldId, HirExpr)>) -> (b: bool)
    ensures
        b == hir_fields_throw(fields_view(v@)),
    decreases v, 1nat,
{
    let ghost sv = fields_view(v@);
    proof {
        lemma_fields_view(v@);
        assert(sv.subrange(0, sv.len() as int) =~= sv);
    }
    let mut i: usize = 0;
    while i < v.len()
        invariant
            sv == fields_view(v@),
            sv.len() == v@.len(),
            i <= v@.len(),
            hir_fields_throw(sv) == hir_fields_throw(sv.subrange(i as int, sv.len() as int)),
        decreases v@.len() - i,
    {
        proof {
            lemma_fields_view(v@);
            assert(decreases_to!(v => v@[i as int]));
            assert(decreases_to!(v@[i as int] => v@[i as int].1));
            
            assert(sv.subrange(i as int, sv.len() as int)[0] == sv[i as int]);
            assert(sv.subrange(i as int, sv.len() as int).subrange(1, sv.len() - i) =~= sv.subrange(i + 1, sv.len() as int));
        }
        if hir_expr_can_throw(&v[i].1) {
            return true;
        }
        i = i + 1;
    }
    proof {
        assert(sv.subrange(i as int, sv.len() as int).len() == 0);
    }
    false
}


/// Whether executing a statement may throw.
pub fn stmt_can_throw(s: &HirStmt) -> (b: bool)
    ensures
        b == hir_stmt_throws(s@),
    decreases s, 0nat,
{
    match s {
        HirStmt::Throw { .. } => true,
        HirStmt::Block(stmts) => body_can_throw(stmts),
        HirStmt::Let { init, .. } => match init {
            Some(e) => hir_expr_can_throw(e),
            None => false,
        },
        HirStmt::Expr { expr } => hir_expr_can_throw(expr),
        HirStmt::If { cond, then, otherwise } => hir_expr_can_throw(cond) || stmt_can_throw(then) || match otherwise {
            Some(b) => stmt_can_throw(b),
            None => false,
        },
        HirStmt::While { cond, body } | HirStmt::DoWhile { body, cond } => hir_expr_can_throw(cond) || stmt_can_throw(body),
        HirStmt::ForOf { iter, body, .. } | HirStmt::ForIn { iter, body, .. } => hir_expr_can_throw(iter) || stmt_can_throw(body),
        HirStmt::Switch { disc, cases } => hir_expr_can_throw(disc) || case_bodies_can_throw(cases),
        HirStmt::Try { body, catch, finally } => stmt_can_throw(body) || match catch {
            Some(c) => stmt_can_throw(&c.body),
            None => false,
        } || match finally {
            Some(f) => stmt_can_throw(f),
            None => false,
        },
        HirStmt::Return { value } => match value {
            Some(e) => hir_expr_can_throw(e),
            None => false,
        },
        HirStmt::Break { .. } | HirStmt::Continue { .. } | HirStmt::Decl(_) => false,
    }
}
/// Whether some statement of a body may throw.
pub fn body_can_throw(v: &Vec<HirStmt>) -> (b: bool)
    ensures
        b == hir_stmts_throw(stmts_view(v@)),
    decreases v, 1nat,
{
    let ghost sv = stmts_view(v@);
    proof {
        lemma_stmts_view(v@);
        assert(sv.subrange(0, sv.len() as int) =~= sv);
    }
    let mut i: usize = 0;
    while i < v.len()
        invariant
            sv == stmts_view(v@),
            sv.len() == v@.len(),
            i <= v@.len(),
            hir_stmts_throw(sv) == hir_stmts_throw(sv.subrange(i as int, sv.len() as int)),
        decreases v@.len() - i,
    {
        proof {
            lemma_stmts_view(v@);
            assert(decreases_to!(v => v@[i as int]));
            
            assert(sv.subrange(i as int, sv.len() as int)[0] == sv[i as int]);
            assert(sv.subrange(i as int, sv.len() as int).subrange(1, sv.len() - i) =~= sv.subrange(i + 1, sv.len() as int));
        }
        if stmt_can_throw(&v[i]) {
            return true;
        }
        i = i + 1;
    }
    proof {
        assert(sv.subrange(i as int, sv.len() as int).len() == 0);
    }
    false
}

fn case_bodies_can_throw(v: &Vec<crate::hir::stmt::HirSwitchCase>) -> (b: bool)
    ensures
        b == hir_case_bodies_throw(crate::hir::stmt::cases_view(v@)),
    decreases v, 1nat,
{
    let ghost sv = crate::hir::stmt::cases_view(v@);
    proof {
        crate::hir::stmt::lemma_cases_view(v@);
        assert(sv.subrange(0, sv.len() as int) =~= sv);
    }
    let mut i: usize = 0;
    while i < v.len()
        invariant
            sv == crate::hir::stmt::cases_view(v@),
            sv.len() == v@.len(),
            i <= v@.len(),
            hir_case_bodies_throw(sv) == hir_case_bodies_throw(sv.subrange(i as int, sv.len() as int)),
        decreases v@.len() - i,
    {
        proof {
            crate::hir::stmt::lemma_cases_view(v@);
            assert(decreases_to!(v => v@[i as int]));
            assert(decreases_to!(v@[i as int] => v@[i as int].body));
            
            assert(sv.subrange(i as int, sv.len() as int)[0] == sv[i as int]);
            assert(sv.subrange(i as int, sv.len() as int).subrange(1, sv.len() - i) =~= sv.subrange(i + 1, sv.len() as int));
        }
        if body_can_throw(&v[i].body) {
            return true;
        }
        i = i + 1;
    }
    proof {
        assert(sv.subrange(i as int, sv.len() as int).len() == 0);
    }
    false
}



// ---------------------------------------------------------------------------
// Parameters
// ---------------------------------------------------------------------------

/// The symbol table after interning the names of `ps` in order, the
/// parameters they become, and whether every name could be interned.
pub open spec fn params_built(ps: Seq<HirParam>, strs: Seq<Seq<char>>, syms: Seq<Seq<char>>) -> (Seq<Seq<char>>, Seq<MirParam>, bool)
    decreases ps.len(),
{
    if ps.len() == 0 {
        (syms, Seq::empty(), true)
    } else {
        let (s1, out, ok) = params_built(ps.drop_last(), strs, syms);
        let raw = text_or_empty(strs, ps.last().name.0);
        let (s2, id) = interned(s1, raw);
        (
            s2,
            out.push(MirParam { id: LocalId((ps.len() - 1) as u32), name: SymbolId(id as u32), ty: ps.last().ty }),
            ok && can_intern(s1, raw),
        )
    }
}

/// The parameters of a converted function: the `i`-th is local `i`, named
/// by interning the text of its name (the empty text when the string table
/// lacks it).
pub fn build_params(params: &Vec<HirParam>, strings: &StringTable, symbols: &mut SymbolTable) -> (r: Vec<MirParam>)
    requires
        old(symbols).wf(),
        params@.len() <= u32::MAX,
        params_built(params@, strings@, old(symbols)@).2,
    ensures
        final(symbols).wf(),
        final(symbols)@ == params_built(params@, strings@, old(symbols)@).0,
        r@ == params_built(params@, strings@, old(symbols)@).1,
{
    let ghost ps = params@;
    let ghost strs = strings@;
    let ghost s0 = symbols@;
    let mut out: Vec<MirParam> = Vec::new();
    let mut i: usize = 0;
    proof {
        assert(ps.take(0) =~= Seq::<HirParam>::empty());
    }
    while i < params.len()
        invariant
            ps == params@,
            strs == strings@,
            i <= ps.len(),
            ps.len() <= u32::MAX,
            symbols.wf(),
            params_built(ps, strs, s0).2,
            symbols@ == params_built(ps.take(i as int), strs, s0).0,
            out@ == params_built(ps.take(i as int), strs, s0).1,
            params_built(ps.take(i as int), strs, s0).2,
        decreases ps.len() - i,
    {
        proof {
            assert(ps.take(i + 1).drop_last() =~= ps.take(i as int));
            lemma_params_prefix(ps, strs, s0, i + 1);
        }
        let p = params[i];
        let raw: &str = match strings.resolve(p.name) {
            Some(t) => t,
            None => "",
        };
        proof {
            reveal_strlit("");
            assert(raw@ == text_or_empty(strs, p.name.0));
        }
        let name = symbols.intern(raw);
        out.push(MirParam { id: LocalId(i as u32), name, ty: p.ty });
        i = i + 1;
    }
    proof {
        assert(ps.take(i as int) =~= ps);
    }
    out
}

proof fn lemma_params_prefix(ps: Seq<HirParam>, strs: Seq<Seq<char>>, syms: Seq<Seq<char>>, j: int)
    requires
        0 <= j <= ps.len(),
        params_built(ps, strs, syms).2,
    ensures
        params_built(ps.take(j), strs, syms).2,
    decreases ps.len() - j,
{
    if j < ps.len() {
        lemma_params_prefix(ps, strs, syms, j + 1);
        assert(ps.take(j + 1).drop_last() =~= ps.take(j));
    } else {
        assert(ps.take(j) =~= ps);
    }
}

} // verus!
