//! Lowers enum declarations to an `i64` type alias plus one global per
//! member, and rewrites `Enum.Member` accesses to those globals.

use vstd::prelude::*;

use crate::hir::expr::{
    HirCallee, HirExpr, SCallee, SExpr, expr_view, exprs_view, fields_view, lemma_exprs_view,
    lemma_fields_view,
};
use crate::hir::program::HirProgram;
use crate::hir::stmt::{
    HirCatchClause, HirClass, HirDecl, HirEnumVariant, HirFunction, HirStmt, HirSwitchCase, SCase,
    SCatch, SClass, SDecl, SFunction, SStmt, SVariant, cases_view, decl_view, decls_view, function_view,
    functions_view, lemma_cases_view, lemma_decls_view, lemma_functions_view, lemma_stmts_view,
    lemma_variants_view, opt_expr_view, stmt_view, stmts_view, variants_view,
};
use crate::diagnostics::{Diagnostic, Severity};
use crate::passes::enum_laws::{
    law_lowering_rewrites_every_member_access, law_member_rewrite_complete, member_free, member_free_decls,
    members_apart,
};
use crate::ids::{FieldId, StringId, SymbolId, TypeId};
use crate::passes::context::PassContext;
use crate::span::Span;
use crate::tables::{StringTable, SymbolTable, can_intern, interned};
use crate::text::{push_char, push_signed_decimal, push_str, signed_decimal};
use crate::ty::{Type, TypeTable, holds_type, same_type, type_slot};

verus! {

/// Maps (enum name, member name) to the symbol of the global that holds
/// the member's value.
pub type EnumMemberMap = Map<(SymbolId, SymbolId), SymbolId>;

// ---------------------------------------------------------------------------
// Rewriting member accesses
// ---------------------------------------------------------------------------

/// The global that holds member `field_name` of the enum named by
/// `owner`, when `owner` is a global and the pair is in `m`.
pub open spec fn member_global(owner: SExpr, field_name: SymbolId, m: EnumMemberMap) -> Option<SymbolId> {
    match owner {
        SExpr::Global { name, .. } => if m.contains_key((name, field_name)) {
            Some(m[(name, field_name)])
        } else {
            None
        },
        _ => None,
    }
}

/// Rewrites `E.M` (a field access on the global `E`) to the global of the
/// member when `(E, M)` is in `m`, everywhere in `e`.
pub open spec fn rw_expr(e: SExpr, m: EnumMemberMap) -> SExpr
    decreases e, 0nat,
{
    match e {
        SExpr::Field { owner, field, field_name, ty } => match member_global(*owner, field_name, m) {
            Some(g) => SExpr::Global { name: g, ty },
            None => SExpr::Field { owner: Box::new(rw_expr(*owner, m)), field, field_name, ty },
        },
        SExpr::Call { callee, args, ty } => SExpr::Call {
            callee: match callee {
                SCallee::Indirect(inner) => SCallee::Indirect(Box::new(rw_expr(*inner, m))),
                other => other,
            },
            args: rw_exprs(args, m),
            ty,
        },
        SExpr::Binary { op, lhs, rhs, ty } =>
            SExpr::Binary { op, lhs: Box::new(rw_expr(*lhs, m)), rhs: Box::new(rw_expr(*rhs, m)), ty },
        SExpr::Unary { op, expr, ty } => SExpr::Unary { op, expr: Box::new(rw_expr(*expr, m)), ty },
        SExpr::Index { owner, index, ty } =>
            SExpr::Index { owner: Box::new(rw_expr(*owner, m)), index: Box::new(rw_expr(*index, m)), ty },
        SExpr::Assignment { target, value, ty } =>
            SExpr::Assignment { target: Box::new(rw_expr(*target, m)), value: Box::new(rw_expr(*value, m)), ty },
        SExpr::StructLiteral { ty, fields } => SExpr::StructLiteral { ty, fields: rw_fields(fields, m) },
        SExpr::ArrayLiteral { elements, ty } => SExpr::ArrayLiteral { elements: rw_exprs(elements, m), ty },
        SExpr::Closure { id, captures, ty } => SExpr::Closure { id, captures: rw_exprs(captures, m), ty },
        SExpr::Await { expr, ty } => SExpr::Await { expr: Box::new(rw_expr(*expr, m)), ty },
        SExpr::Yield { expr, ty } => SExpr::Yield {
            expr: match expr {
                Some(b) => Some(Box::new(rw_expr(*b, m))),
                None => None,
            },
            ty,
        },
        SExpr::Template { tag, parts, ty } => SExpr::Template {
            tag: match tag {
                Some(b) => Some(Box::new(rw_expr(*b, m))),
                None => None,
            },
            parts: rw_exprs(parts, m),
            ty,
        },
        SExpr::New { callee, args, ty } =>
            SExpr::New { callee: Box::new(rw_expr(*callee, m)), args: rw_exprs(args, m), ty },
        SExpr::OptionalChain { base, ty } => SExpr::OptionalChain { base: Box::new(rw_expr(*base, m)), ty },
        SExpr::TypeAssertion { expr, target } =>
            SExpr::TypeAssertion { expr: Box::new(rw_expr(*expr, m)), target },
        _ => e,
    }
}

/// `rw_expr` on each element.
pub open spec fn rw_exprs(s: Seq<SExpr>, m: EnumMemberMap) -> Seq<SExpr>
    decreases s, 0nat,
{
    if s.len() == 0 {
        Seq::empty()
    } else {
        rw_exprs(s.drop_last(), m).push(rw_expr(s.last(), m))
    }
}

/// `rw_expr` on the value of each field.
pub open spec fn rw_fields(s: Seq<(FieldId, SExpr)>, m: EnumMemberMap) -> Seq<(FieldId, SExpr)>
    decreases s, 0nat,
{
    if s.len() == 0 {
        Seq::empty()
    } else {
        rw_fields(s.drop_last(), m).push((s.last().0, rw_expr(s.last().1, m)))
    }
}

/// `rw_expr` on an optional expression.
pub open spec fn rw_opt(o: Option<SExpr>, m: EnumMemberMap) -> Option<SExpr> {
    match o {
        Some(e) => Some(rw_expr(e, m)),
        None => None,
    }
}

/// Rewrites the expressions of a statement; nested declarations are
/// rewritten as by `rw_decl`.
pub open spec fn rw_stmt(s: SStmt, m: EnumMemberMap) -> SStmt
    decreases s, 0nat,
{
    match s {
        SStmt::Block(v) => SStmt::Block(rw_stmts(v, m)),
        SStmt::Let { id, name, ty, init } => SStmt::Let { id, name, ty, init: rw_opt(init, m) },
        SStmt::Expr { expr } => SStmt::Expr { expr: rw_expr(expr, m) },
        SStmt::Return { value } => SStmt::Return { value: rw_opt(value, m) },
        SStmt::Throw { expr } => SStmt::Throw { expr: rw_expr(expr, m) },
        SStmt::If { cond, then, otherwise } => SStmt::If {
            cond: rw_expr(cond, m),
            then: Box::new(rw_stmt(*then, m)),
            otherwise: match otherwise {
                Some(o) => Some(Box::new(rw_stmt(*o, m))),
                None => None,
            },
        },
        SStmt::While { cond, body } => SStmt::While { cond: rw_expr(cond, m), body: Box::new(rw_stmt(*body, m)) },
        SStmt::DoWhile { body, cond } => SStmt::DoWhile { body: Box::new(rw_stmt(*body, m)), cond: rw_expr(cond, m) },
        SStmt::ForOf { binding, iter, body } =>
            SStmt::ForOf { binding, iter: rw_expr(iter, m), body: Box::new(rw_stmt(*body, m)) },
        SStmt::ForIn { binding, iter, body } =>
            SStmt::ForIn { binding, iter: rw_expr(iter, m), body: Box::new(rw_stmt(*body, m)) },
        SStmt::Switch { disc, cases } => SStmt::Switch { disc: rw_expr(disc, m), cases: rw_cases(cases, m) },
        SStmt::Try { body, catch, finally } => SStmt::Try {
            body: Box::new(rw_stmt(*body, m)),
            catch: match catch {
                Some(c) => Some(SCatch { binding: c.binding, body: Box::new(rw_stmt(*c.body, m)) }),
                None => None,
            },
            finally: match finally {
                Some(f) => Some(Box::new(rw_stmt(*f, m))),
                None => None,
            },
        },
        SStmt::Decl(d) => SStmt::Decl(rw_decl(d, m)),
        _ => s,
    }
}

/// `rw_stmt` on each element.
pub open spec fn rw_stmts(s: Seq<SStmt>, m: EnumMemberMap) -> Seq<SStmt>
    decreases s, 0nat,
{
    if s.len() == 0 {
        Seq::empty()
    } else {
        rw_stmts(s.drop_last(), m).push(rw_stmt(s.last(), m))
    }
}

/// Rewrites the test and the body of each case.
pub open spec fn rw_cases(s: Seq<SCase>, m: EnumMemberMap) -> Seq<SCase>
    decreases s, 0nat,
{
    if s.len() == 0 {
        Seq::empty()
    } else {
        rw_cases(s.drop_last(), m).push(
            SCase { test: rw_opt(s.last().test, m), body: rw_stmts(s.last().body, m) },
        )
    }
}

/// Rewrites the body of a function.
pub open spec fn rw_function(f: SFunction, m: EnumMemberMap) -> SFunction
    decreases f, 0nat,
{
    SFunction { body: rw_stmts(f.body, m), ..f }
}

/// `rw_function` on each element.
pub open spec fn rw_functions(s: Seq<SFunction>, m: EnumMemberMap) -> Seq<SFunction>
    decreases s, 0nat,
{
    if s.len() == 0 {
        Seq::empty()
    } else {
        rw_functions(s.drop_last(), m).push(rw_function(s.last(), m))
    }
}

/// Rewrites a declaration: function bodies, method bodies and global
/// initializers; the members of a namespace are left as they are.
pub open spec fn rw_decl(d: SDecl, m: EnumMemberMap) -> SDecl
    decreases d, 0nat,
{
    match d {
        SDecl::Function(f) => SDecl::Function(rw_function(f, m)),
        SDecl::Class(c) => SDecl::Class(SClass { methods: rw_functions(c.methods, m), ..c }),
        SDecl::Global { name, ty, init } => SDecl::Global { name, ty, init: rw_opt(init, m) },
        _ => d,
    }
}

/// `rw_decl` on each element.
pub open spec fn rw_decls(s: Seq<SDecl>, m: EnumMemberMap) -> Seq<SDecl>
    decreases s.len(),
{
    if s.len() == 0 {
        Seq::empty()
    } else {
        rw_decls(s.drop_last(), m).push(rw_decl(s.last(), m))
    }
}

proof fn lemma_rw_exprs(s: Seq<SExpr>, m: EnumMemberMap)
    ensures
        rw_exprs(s, m).len() == s.len(),
        forall|i: int| 0 <= i < s.len() ==> #[trigger] rw_exprs(s, m)[i] == rw_expr(s[i], m),
    decreases s.len(),
{
    if s.len() > 0 {
        lemma_rw_exprs(s.drop_last(), m);
    }
}

proof fn lemma_rw_fields(s: Seq<(FieldId, SExpr)>, m: EnumMemberMap)
    ensures
        rw_fields(s, m).len() == s.len(),
        forall|i: int| 0 <= i < s.len() ==> #[trigger] rw_fields(s, m)[i] == (s[i].0, rw_expr(s[i].1, m)),
    decreases s.len(),
{
    if s.len() > 0 {
        lemma_rw_fields(s.drop_last(), m);
    }
}

proof fn lemma_rw_stmts(s: Seq<SStmt>, m: EnumMemberMap)
    ensures
        rw_stmts(s, m).len() == s.len(),
        forall|i: int| 0 <= i < s.len() ==> #[trigger] rw_stmts(s, m)[i] == rw_stmt(s[i], m),
    decreases s.len(),
{
    if s.len() > 0 {
        lemma_rw_stmts(s.drop_last(), m);
    }
}

proof fn lemma_rw_cases(s: Seq<SCase>, m: EnumMemberMap)
    ensures
        rw_cases(s, m).len() == s.len(),
        forall|i: int| 0 <= i < s.len() ==> #[trigger] rw_cases(s, m)[i]
            == (SCase { test: rw_opt(s[i].test, m), body: rw_stmts(s[i].body, m) }),
    decreases s.len(),
{
    if s.len() > 0 {
        lemma_rw_cases(s.drop_last(), m);
    }
}

proof fn lemma_rw_functions(s: Seq<SFunction>, m: EnumMemberMap)
    ensures
        rw_functions(s, m).len() == s.len(),
        forall|i: int| 0 <= i < s.len() ==> #[trigger] rw_functions(s, m)[i] == rw_function(s[i], m),
    decreases s.len(),
{
    if s.len() > 0 {
        lemma_rw_functions(s.drop_last(), m);
    }
}

proof fn lemma_rw_decls(s: Seq<SDecl>, m: EnumMemberMap)
    ensures
        rw_decls(s, m).len() == s.len(),
        forall|i: int| 0 <= i < s.len() ==> #[trigger] rw_decls(s, m)[i] == rw_decl(s[i], m),
    decreases s.len(),
{
    if s.len() > 0 {
        lemma_rw_decls(s.drop_last(), m);
    }
}

// ---------------------------------------------------------------------------
// The member map
// ---------------------------------------------------------------------------

/// The map built by inserting the entries in order; a later entry for the
/// same key replaces an earlier one.
pub open spec fn map_of(s: Seq<(SymbolId, SymbolId, SymbolId)>) -> EnumMemberMap
    decreases s.len(),
{
    if s.len() == 0 {
        Map::empty()
    } else {
        map_of(s.drop_last()).insert((s.last().0, s.last().1), s.last().2)
    }
}

struct MemberMap {
    entries: Vec<(SymbolId, SymbolId, SymbolId)>,
}

impl MemberMap {
    spec fn view(&self) -> EnumMemberMap {
        map_of(self.entries@)
    }

    fn new() -> (m: Self)
        ensures
            m.view() == EnumMemberMap::empty(),
            m.entries@.len() == 0,
    {
        MemberMap { entries: Vec::new() }
    }

    fn insert(&mut self, a: SymbolId, b: SymbolId, v: SymbolId)
        ensures
            final(self).view() == old(self).view().insert((a, b), v),
            final(self).entries@.len() > 0,
    {
        self.entries.push((a, b, v));
        assert(self.entries@.drop_last() =~= old(self).entries@);
    }

    fn is_empty(&self) -> (r: bool)
        ensures
            r == (self.view() == EnumMemberMap::empty()),
    {
        if self.entries.len() == 0 {
            true
        } else {
            let ghost l = self.entries@.last();
            assert(self.view().contains_key((l.0, l.1)));
            false
        }
    }

    fn get(&self, a: SymbolId, b: SymbolId) -> (r: Option<SymbolId>)
        ensures
            r is Some <==> self.view().contains_key((a, b)),
            r matches Some(v) ==> v == self.view()[(a, b)],
    {
        let mut found: Option<SymbolId> = None;
        let mut i: usize = 0;
        while i < self.entries.len()
            invariant
                i <= self.entries@.len(),
                found is Some <==> map_of(self.entries@.take(i as int)).contains_key((a, b)),
                found matches Some(v) ==> v == map_of(self.entries@.take(i as int))[(a, b)],
            decreases self.entries@.len() - i,
        {
            let (x, y, v) = self.entries[i];
            assert(self.entries@.take(i as int + 1).drop_last() =~= self.entries@.take(i as int));
            if x.0 == a.0 && y.0 == b.0 {
                found = Some(v);
            }
            i = i + 1;
        }
        assert(self.entries@.take(self.entries@.len() as int) =~= self.entries@);
        found
    }
}

// ---------------------------------------------------------------------------
// Executable rewriting
// ---------------------------------------------------------------------------

fn rewrite_exprs(v: Vec<HirExpr>, map: &MemberMap) -> (r: Vec<HirExpr>)
    ensures
        exprs_view(r@) == rw_exprs(exprs_view(v@), map.view()),
    decreases v, 0nat,
{
    broadcast use lemma_exprs_view;

    let ghost v0 = v@;
    let mut w = v;
    let n = w.len();
    let mut i: usize = 0;
    while i < n
        invariant
            v0 == v@,
            w@.len() == n,
            n == v0.len(),
            i <= n,
            forall|j: int| 0 <= j < i ==> expr_view(#[trigger] w@[j]) == rw_expr(expr_view(v0[j]), map.view()),
            forall|j: int| i <= j < n ==> #[trigger] w@[j] == v0[j],
        decreases n - i,
    {
        let mut tmp = HirExpr::Unit;
        std::mem::swap(&mut tmp, &mut w[i]);
        proof {
            assert(decreases_to!(v => v@[i as int]));
        }
        let new = rewrite_expr(tmp, map);
        w.set(i, new);
        i = i + 1;
    }
    proof {
        lemma_rw_exprs(exprs_view(v0), map.view());
        assert(exprs_view(w@) =~= rw_exprs(exprs_view(v0), map.view()));
    }
    w
}

fn rewrite_fields(v: Vec<(FieldId, HirExpr)>, map: &MemberMap) -> (r: Vec<(FieldId, HirExpr)>)
    ensures
        fields_view(r@) == rw_fields(fields_view(v@), map.view()),
    decreases v, 0nat,
{
    broadcast use lemma_fields_view;

    let ghost v0 = v@;
    let mut w = v;
    let n = w.len();
    let mut i: usize = 0;
    while i < n
        invariant
            v0 == v@,
            w@.len() == n,
            n == v0.len(),
            i <= n,
            forall|j: int| 0 <= j < i ==> (#[trigger] w@[j]).0 == v0[j].0
                && expr_view(w@[j].1) == rw_expr(expr_view(v0[j].1), map.view()),
            forall|j: int| i <= j < n ==> #[trigger] w@[j] == v0[j],
        decreases n - i,
    {
        let mut tmp = (FieldId(0), HirExpr::Unit);
        std::mem::swap(&mut tmp, &mut w[i]);
        proof {
            assert(decreases_to!(v => v@[i as int].1));
        }
        let (f, e) = tmp;
        let new = rewrite_expr(e, map);
        w.set(i, (f, new));
        i = i + 1;
    }
    proof {
        lemma_rw_fields(fields_view(v0), map.view());
        assert(fields_view(w@) =~= rw_fields(fields_view(v0), map.view()));
    }
    w
}

fn rewrite_opt_box(o: Option<Box<HirExpr>>, map: &MemberMap) -> (r: Option<Box<HirExpr>>)
    ensures
        (match r {
            Some(b) => Some(Box::new(expr_view(*b))),
            None => None,
        }) == (match o {
            Some(b) => Some(Box::new(rw_expr(expr_view(*b), map.view()))),
            None => None,
        }),
    decreases o, 0nat,
{
    match o {
        Some(b) => Some(Box::new(rewrite_expr(*b, map))),
        None => None,
    }
}

fn rewrite_opt(o: Option<HirExpr>, map: &MemberMap) -> (r: Option<HirExpr>)
    ensures
        opt_expr_view(r) == rw_opt(opt_expr_view(o), map.view()),
    decreases o, 0nat,
{
    match o {
        Some(e) => Some(rewrite_expr(e, map)),
        None => None,
    }
}

fn member_target(owner: &HirExpr, field_name: SymbolId, map: &MemberMap) -> (r: Option<SymbolId>)
    ensures
        r == member_global(expr_view(*owner), field_name, map.view()),
{
    match owner {
        HirExpr::Global { name, .. } => map.get(*name, field_name),
        _ => None,
    }
}

fn rewrite_expr(e: HirExpr, map: &MemberMap) -> (r: HirExpr)
    ensures
        r@ == rw_expr(e@, map.view()),
        members_apart(map.view()) ==> member_free(r@, map.view()),
    decreases e, 0nat,
{
    proof {
        if members_apart(map.view()) {
            law_member_rewrite_complete(e@, map.view());
        }
    }
    match e {
        HirExpr::Field { owner, field, field_name, ty } => match member_target(&owner, field_name, map) {
            Some(g) => HirExpr::Global { name: g, ty },
            None => HirExpr::Field { owner: Box::new(rewrite_expr(*owner, map)), field, field_name, ty },
        },
        HirExpr::Call { callee, args, ty } => {
            let callee = match callee {
                HirCallee::Indirect(inner) => HirCallee::Indirect(Box::new(rewrite_expr(*inner, map))),
                other => other,
            };
            HirExpr::Call { callee, args: rewrite_exprs(args, map), ty }
        },
        HirExpr::Binary { op, lhs, rhs, ty } => HirExpr::Binary {
            op,
            lhs: Box::new(rewrite_expr(*lhs, map)),
            rhs: Box::new(rewrite_expr(*rhs, map)),
            ty,
        },
        HirExpr::Unary { op, expr, ty } => HirExpr::Unary { op, expr: Box::new(rewrite_expr(*expr, map)), ty },
        HirExpr::Index { owner, index, ty } => HirExpr::Index {
            owner: Box::new(rewrite_expr(*owner, map)),
            index: Box::new(rewrite_expr(*index, map)),
            ty,
        },
        HirExpr::Assignment { target, value, ty } => HirExpr::Assignment {
            target: Box::new(rewrite_expr(*target, map)),
            value: Box::new(rewrite_expr(*value, map)),
            ty,
        },
        HirExpr::StructLiteral { ty, fields } => HirExpr::StructLiteral { ty, fields: rewrite_fields(fields, map) },
        HirExpr::ArrayLiteral { elements, ty } => HirExpr::ArrayLiteral { elements: rewrite_exprs(elements, map), ty },
        HirExpr::Closure { id, captures, ty } => HirExpr::Closure { id, captures: rewrite_exprs(captures, map), ty },
        HirExpr::Await { expr, ty } => HirExpr::Await { expr: Box::new(rewrite_expr(*expr, map)), ty },
        HirExpr::Yield { expr, ty } => HirExpr::Yield { expr: rewrite_opt_box(expr, map), ty },
        HirExpr::Template { tag, parts, ty } => HirExpr::Template {
            tag: rewrite_opt_box(tag, map),
            parts: rewrite_exprs(parts, map),
            ty,
        },
        HirExpr::New { callee, args, ty } => HirExpr::New {
            callee: Box::new(rewrite_expr(*callee, map)),
            args: rewrite_exprs(args, map),
            ty,
        },
        HirExpr::OptionalChain { base, ty } => HirExpr::OptionalChain { base: Box::new(rewrite_expr(*base, map)), ty },
        HirExpr::TypeAssertion { expr, target } =>
            HirExpr::TypeAssertion { expr: Box::new(rewrite_expr(*expr, map)), target },
        other => other,
    }
}

fn rewrite_stmts(v: Vec<HirStmt>, map: &MemberMap) -> (r: Vec<HirStmt>)
    ensures
        stmts_view(r@) == rw_stmts(stmts_view(v@), map.view()),
    decreases v, 0nat,
{
    broadcast use lemma_stmts_view;

    let ghost v0 = v@;
    let mut w = v;
    let n = w.len();
    let mut i: usize = 0;
    while i < n
        invariant
            v0 == v@,
            w@.len() == n,
            n == v0.len(),
            i <= n,
            forall|j: int| 0 <= j < i ==> stmt_view((#[trigger] w@[j])) == rw_stmt(stmt_view(v0[j]), map.view()),
            forall|j: int| i <= j < n ==> #[trigger] w@[j] == v0[j],
        decreases n - i,
    {
        let mut tmp = HirStmt::Break { label: None };
        std::mem::swap(&mut tmp, &mut w[i]);
        proof {
            assert(decreases_to!(v => v@[i as int]));
        }
        let new = rewrite_stmt(tmp, map);
        w.set(i, new);
        i = i + 1;
    }
    proof {
        lemma_rw_stmts(stmts_view(v0), map.view());
        assert(stmts_view(w@) =~= rw_stmts(stmts_view(v0), map.view()));
    }
    w
}

fn rewrite_cases(v: Vec<HirSwitchCase>, map: &MemberMap) -> (r: Vec<HirSwitchCase>)
    ensures
        cases_view(r@) == rw_cases(cases_view(v@), map.view()),
    decreases v, 0nat,
{
    broadcast use lemma_cases_view;

    let ghost v0 = v@;
    let mut w = v;
    let n = w.len();
    let mut i: usize = 0;
    while i < n
        invariant
            v0 == v@,
            w@.len() == n,
            n == v0.len(),
            i <= n,
            forall|j: int| 0 <= j < i ==> crate::hir::stmt::case_view((#[trigger] w@[j])) == (SCase { test: rw_opt(crate::hir::stmt::case_view(v0[j]).test, map.view()), body: rw_stmts(crate::hir::stmt::case_view(v0[j]).body, map.view()) }),
            forall|j: int| i <= j < n ==> #[trigger] w@[j] == v0[j],
        decreases n - i,
    {
        let mut tmp = HirSwitchCase { test: None, body: Vec::new() };
        std::mem::swap(&mut tmp, &mut w[i]);
        proof {
            assert(decreases_to!(v => v@[i as int]));
        }
        let new = HirSwitchCase { test: rewrite_opt(tmp.test, map), body: rewrite_stmts(tmp.body, map) };
        w.set(i, new);
        i = i + 1;
    }
    proof {
        lemma_rw_cases(cases_view(v0), map.view());
        assert(cases_view(w@) =~= rw_cases(cases_view(v0), map.view()));
    }
    w
}

fn rewrite_functions(v: Vec<HirFunction>, map: &MemberMap) -> (r: Vec<HirFunction>)
    ensures
        functions_view(r@) == rw_functions(functions_view(v@), map.view()),
    decreases v, 0nat,
{
    broadcast use lemma_functions_view;

    let ghost v0 = v@;
    let mut w = v;
    let n = w.len();
    let mut i: usize = 0;
    while i < n
        invariant
            v0 == v@,
            w@.len() == n,
            n == v0.len(),
            i <= n,
            forall|j: int| 0 <= j < i ==> function_view((#[trigger] w@[j])) == rw_function(function_view(v0[j]), map.view()),
            forall|j: int| i <= j < n ==> #[trigger] w@[j] == v0[j],
        decreases n - i,
    {
        let mut tmp = empty_function();
        std::mem::swap(&mut tmp, &mut w[i]);
        proof {
            assert(decreases_to!(v => v@[i as int]));
        }
        let new = rewrite_function(tmp, map);
        w.set(i, new);
        i = i + 1;
    }
    proof {
        lemma_rw_functions(functions_view(v0), map.view());
        assert(functions_view(w@) =~= rw_functions(functions_view(v0), map.view()));
    }
    w
}

fn rewrite_decls(v: Vec<HirDecl>, map: &MemberMap) -> (r: Vec<HirDecl>)
    ensures
        decls_view(r@) == rw_decls(decls_view(v@), map.view()),
{
    broadcast use lemma_decls_view;

    let ghost v0 = v@;
    let mut w = v;
    let n = w.len();
    let mut i: usize = 0;
    while i < n
        invariant
            w@.len() == n,
            n == v0.len(),
            i <= n,
            forall|j: int| 0 <= j < i ==> decl_view(#[trigger] w@[j]) == rw_decl(decl_view(v0[j]), map.view()),
            forall|j: int| i <= j < n ==> #[trigger] w@[j] == v0[j],
        decreases n - i,
    {
        let mut tmp = HirDecl::Interface { name: SymbolId(0) };
        std::mem::swap(&mut tmp, &mut w[i]);
        let new = rewrite_decl(tmp, map);
        w.set(i, new);
        i = i + 1;
    }
    proof {
        lemma_rw_decls(decls_view(v0), map.view());
        assert(decls_view(w@) =~= rw_decls(decls_view(v0), map.view()));
    }
    w
}

fn empty_function() -> (f: HirFunction) {
    HirFunction {
        name: SymbolId(0),
        params: Vec::new(),
        ret: TypeId(0),
        throws: None,
        body: Vec::new(),
        is_async: false,
        is_generator: false,
        is_exported: false,
        type_params: Vec::new(),
        async_info: None,
    }
}

fn rewrite_function(f: HirFunction, map: &MemberMap) -> (r: HirFunction)
    ensures
        function_view(r) == rw_function(function_view(f), map.view()),
    decreases f, 0nat,
{
    let HirFunction { name, params, ret, throws, body, is_async, is_generator, is_exported, type_params, async_info } = f;
    HirFunction {
        name,
        params,
        ret,
        throws,
        body: rewrite_stmts(body, map),
        is_async,
        is_generator,
        is_exported,
        type_params,
        async_info,
    }
}

fn rewrite_decl(d: HirDecl, map: &MemberMap) -> (r: HirDecl)
    ensures
        decl_view(r) == rw_decl(decl_view(d), map.view()),
    decreases d, 0nat,
{
    match d {
        HirDecl::Function(f) => HirDecl::Function(rewrite_function(f, map)),
        HirDecl::Class(c) => {
            let HirClass { name, ty, fields, methods, extends, type_params } = c;
            HirDecl::Class(HirClass { name, ty, fields, methods: rewrite_functions(methods, map), extends, type_params })
        },
        HirDecl::Global { name, ty, init } => HirDecl::Global { name, ty, init: rewrite_opt(init, map) },
        other => other,
    }
}

fn rewrite_stmt(s: HirStmt, map: &MemberMap) -> (r: HirStmt)
    ensures
        r@ == rw_stmt(s@, map.view()),
    decreases s, 0nat,
{
    match s {
        HirStmt::Block(v) => HirStmt::Block(rewrite_stmts(v, map)),
        HirStmt::Let { id, name, ty, init } => HirStmt::Let { id, name, ty, init: rewrite_opt(init, map) },
        HirStmt::Expr { expr } => HirStmt::Expr { expr: rewrite_expr(expr, map) },
        HirStmt::Return { value } => HirStmt::Return { value: rewrite_opt(value, map) },
        HirStmt::Throw { expr } => HirStmt::Throw { expr: rewrite_expr(expr, map) },
        HirStmt::If { cond, then, otherwise } => HirStmt::If {
            cond: rewrite_expr(cond, map),
            then: Box::new(rewrite_stmt(*then, map)),
            otherwise: match otherwise {
                Some(o) => Some(Box::new(rewrite_stmt(*o, map))),
                None => None,
            },
        },
        HirStmt::While { cond, body } => HirStmt::While {
            cond: rewrite_expr(cond, map),
            body: Box::new(rewrite_stmt(*body, map)),
        },
        HirStmt::DoWhile { body, cond } => {
            let body = Box::new(rewrite_stmt(*body, map));
            HirStmt::DoWhile { body, cond: rewrite_expr(cond, map) }
        },
        HirStmt::ForOf { binding, iter, body } => HirStmt::ForOf {
            binding,
            iter: rewrite_expr(iter, map),
            body: Box::new(rewrite_stmt(*body, map)),
        },
        HirStmt::ForIn { binding, iter, body } => HirStmt::ForIn {
            binding,
            iter: rewrite_expr(iter, map),
            body: Box::new(rewrite_stmt(*body, map)),
        },
        HirStmt::Switch { disc, cases } => HirStmt::Switch {
            disc: rewrite_expr(disc, map),
            cases: rewrite_cases(cases, map),
        },
        HirStmt::Try { body, catch, finally } => HirStmt::Try {
            body: Box::new(rewrite_stmt(*body, map)),
            catch: match catch {
                Some(c) => Some(HirCatchClause { binding: c.binding, body: Box::new(rewrite_stmt(*c.body, map)) }),
                None => None,
            },
            finally: match finally {
                Some(f) => Some(Box::new(rewrite_stmt(*f, map))),
                None => None,
            },
        },
        HirStmt::Decl(d) => HirStmt::Decl(rewrite_decl(d, map)),
        other => other,
    }
}

// ---------------------------------------------------------------------------
// Lowering the declarations
// ---------------------------------------------------------------------------

/// The text interned under `id` in a table, or the empty text when `id` is
/// out of range.
pub open spec fn text_or_empty(t: Seq<Seq<char>>, id: u32) -> Seq<char> {
    if id < t.len() {
        t[id as int]
    } else {
        Seq::empty()
    }
}

/// The state of the lowering after a prefix of the declarations: the
/// declarations produced, the symbol table, the member map, the
/// accumulator values that did not fit an `i64`, and whether every
/// interning stayed within `u32` identifiers.
pub struct EnumLowering {
    pub out: Seq<SDecl>,
    pub symbols: Seq<Seq<char>>,
    pub map: EnumMemberMap,
    pub overflows: Seq<int>,
    pub ok: bool,
}

/// The accumulator after `n`, saturating at the top of `i128`.
pub open spec fn next_after(n: int) -> int {
    if n == i128::MAX {
        n
    } else {
        n + 1
    }
}

/// The value of a member given its initializer and the accumulator, the
/// accumulator for the next member, and whether the accumulator did not fit
/// an `i64` (the value is then `i64::MAX`).
pub open spec fn member_value(value: Option<SExpr>, next: int) -> (int, int, bool) {
    match value {
        Some(SExpr::Int(v)) => (v as int, v + 1, false),
        _ => if i64::MIN <= next <= i64::MAX {
            (next, next_after(next), false)
        } else {
            (i64::MAX as int, next_after(next), true)
        },
    }
}

/// One member of enum `name` (whose text is `enum_text`): a global
/// `enum_text.member` holding the member's value.
pub open spec fn member_step(
    st: EnumLowering,
    next: int,
    name: SymbolId,
    enum_text: Seq<char>,
    v: SVariant,
    strings: Seq<Seq<char>>,
    ty: TypeId,
) -> (EnumLowering, int) {
    let (value, next2, over) = member_value(v.value, next);
    let raw = text_or_empty(strings, v.name.0);
    let ns = enum_text + seq!['.'] + raw;
    let (syms1, ns_id) = interned(st.symbols, ns);
    let (syms2, raw_id) = interned(syms1, raw);
    (
        EnumLowering {
            out: st.out.push(
                SDecl::Global { name: SymbolId(ns_id as u32), ty, init: Some(SExpr::Int(value as i64)) },
            ),
            symbols: syms2,
            map: st.map.insert((name, SymbolId(raw_id as u32)), SymbolId(ns_id as u32)),
            overflows: if over {
                st.overflows.push(next)
            } else {
                st.overflows
            },
            ok: st.ok && can_intern(st.symbols, ns) && can_intern(syms1, raw),
        },
        next2,
    )
}

/// The members of one enum, in order, starting with the accumulator at 0.
pub open spec fn members_fold(
    st: EnumLowering,
    name: SymbolId,
    enum_text: Seq<char>,
    vs: Seq<SVariant>,
    strings: Seq<Seq<char>>,
    ty: TypeId,
) -> (EnumLowering, int)
    decreases vs.len(),
{
    if vs.len() == 0 {
        (st, 0)
    } else {
        let (st1, next) = members_fold(st, name, enum_text, vs.drop_last(), strings, ty);
        member_step(st1, next, name, enum_text, vs.last(), strings, ty)
    }
}

/// One declaration: an enum becomes a type alias of `ty` followed by its
/// member globals; any other declaration is kept.
pub open spec fn decl_step(st: EnumLowering, d: SDecl, strings: Seq<Seq<char>>, ty: TypeId) -> EnumLowering {
    match d {
        SDecl::Enum { name, variants } => members_fold(
            EnumLowering { out: st.out.push(SDecl::TypeAlias { name, target: ty }), ..st },
            name,
            text_or_empty(st.symbols, name.0),
            variants,
            strings,
            ty,
        ).0,
        other => EnumLowering { out: st.out.push(other), ..st },
    }
}

/// The declarations, in order.
pub open spec fn decls_fold(st: EnumLowering, ds: Seq<SDecl>, strings: Seq<Seq<char>>, ty: TypeId) -> EnumLowering
    decreases ds.len(),
{
    if ds.len() == 0 {
        st
    } else {
        decl_step(decls_fold(st, ds.drop_last(), strings, ty), ds.last(), strings, ty)
    }
}

/// The lowering of a whole module with `i64` interned as `ty`.
pub open spec fn enum_lowering(
    decls: Seq<SDecl>,
    strings: Seq<Seq<char>>,
    symbols: Seq<Seq<char>>,
    ty: TypeId,
) -> EnumLowering {
    decls_fold(
        EnumLowering {
            out: Seq::empty(),
            symbols,
            map: EnumMemberMap::empty(),
            overflows: Seq::empty(),
            ok: true,
        },
        decls,
        strings,
        ty,
    )
}

/// The declarations after the lowering: member accesses are rewritten when
/// some enum member was lowered.
pub open spec fn lowered_decls(l: EnumLowering) -> Seq<SDecl> {
    if l.map == EnumMemberMap::empty() {
        l.out
    } else {
        rw_decls(l.out, l.map)
    }
}

/// The index at which `i64` sits in the type table once interned.
pub open spec fn i64_slot(types: Seq<Type>) -> int {
    type_slot(types, Type::I64)
}

/// The message reported when the accumulator does not fit an `i64`.
pub open spec fn overflow_message(v: int) -> Seq<char> {
    "enum variant accumulator overflows i64 (current: "@ + signed_decimal(v) + ")"@
}

/// Whether `after` is `before` followed by one overflow error per value.
pub open spec fn overflow_errors(before: Seq<Diagnostic>, after: Seq<Diagnostic>, overflows: Seq<int>) -> bool {
    &&& after.len() == before.len() + overflows.len()
    &&& after.take(before.len() as int) == before
    &&& forall|k: int| 0 <= k < overflows.len() ==> Diagnostic::spec_with(
        Severity::Error,
        "P0007"@,
        overflow_message(overflows[k]),
        Span { start: 0, end: 0 },
        #[trigger] after[before.len() + k],
    )
}

proof fn lemma_members_ok(st: EnumLowering, name: SymbolId, text: Seq<char>, vs: Seq<SVariant>,
    strings: Seq<Seq<char>>, ty: TypeId, k: int)
    requires
        0 <= k <= vs.len(),
        members_fold(st, name, text, vs, strings, ty).0.ok,
    ensures
        members_fold(st, name, text, vs.take(k), strings, ty).0.ok,
        st.ok,
    decreases vs.len(),
{
    if vs.len() > 0 {
        lemma_members_ok(st, name, text, vs.drop_last(), strings, ty, if k == vs.len() { k - 1 } else { k });
        if k == vs.len() {
            assert(vs.take(k) =~= vs);
        } else {
            assert(vs.drop_last().take(k) =~= vs.take(k));
        }
    } else {
        assert(vs.take(k) =~= vs);
    }
}

proof fn lemma_decls_ok(st: EnumLowering, ds: Seq<SDecl>, strings: Seq<Seq<char>>, ty: TypeId, k: int)
    requires
        0 <= k <= ds.len(),
        decls_fold(st, ds, strings, ty).ok,
    ensures
        decls_fold(st, ds.take(k), strings, ty).ok,
    decreases ds.len(),
{
    if ds.len() > 0 {
        let prev = decls_fold(st, ds.drop_last(), strings, ty);
        match ds.last() {
            SDecl::Enum { name, variants } => {
                lemma_members_ok(
                    EnumLowering { out: prev.out.push(SDecl::TypeAlias { name, target: ty }), ..prev },
                    name,
                    text_or_empty(prev.symbols, name.0),
                    variants,
                    strings,
                    ty,
                    0,
                );
            },
            _ => {},
        }
        if k == ds.len() {
            assert(ds.take(k) =~= ds);
        } else {
            lemma_decls_ok(st, ds.drop_last(), strings, ty, k);
            assert(ds.drop_last().take(k) =~= ds.take(k));
        }
    } else {
        assert(ds.take(k) =~= ds);
    }
}

/// The lowering of a module whose type table held `types` before `i64`
/// was interned.
pub open spec fn lowering_of(
    decls: Seq<SDecl>,
    strings: Seq<Seq<char>>,
    symbols: Seq<Seq<char>>,
    types: Seq<Type>,
) -> EnumLowering {
    enum_lowering(decls, strings, symbols, TypeId(i64_slot(types) as u32))
}

fn owned_text(t: Option<&str>) -> (s: String)
    ensures
        s@ == (match t {
            Some(x) => x@,
            None => Seq::<char>::empty(),
        }),
{
    match t {
        Some(x) => x.to_string(),
        None => String::new(),
    }
}

/// Rewrites each enum declaration into a type alias of `i64` followed by
/// one global per member, named `Enum.Member` and initialized with the
/// member's value (its own integer initializer, or one more than the
/// previous member, starting at 0), then rewrites every `Enum.Member`
/// access in function bodies, method bodies and global initializers into a
/// read of that global.
pub fn lower_enums(
    program: &mut HirProgram,
    strings: &StringTable,
    symbols: &mut SymbolTable,
    types: &mut TypeTable,
    ctx: &mut PassContext,
)
    requires
        old(symbols).wf(),
        old(types).wf(),
        holds_type(old(types)@, Type::I64) || old(types)@.len() <= u32::MAX,
        lowering_of(old(program).decls(), strings@, old(symbols)@, old(types)@).ok,
    ensures
        final(types).wf(),
        final(symbols).wf(),
        holds_type(old(types)@, Type::I64) ==> final(types)@ == old(types)@,
        !holds_type(old(types)@, Type::I64) ==> final(types)@.len() == old(types)@.len() + 1
            && final(types)@.take(old(types)@.len() as int) == old(types)@
            && same_type(final(types)@[old(types)@.len() as int], Type::I64),
        final(symbols)@ == lowering_of(old(program).decls(), strings@, old(symbols)@, old(types)@).symbols,
        final(program).decls() == lowered_decls(lowering_of(old(program).decls(), strings@, old(symbols)@, old(types)@)),
        ({
            let l = lowering_of(old(program).decls(), strings@, old(symbols)@, old(types)@);
            members_apart(l.map) && l.map != EnumMemberMap::empty() ==> member_free_decls(final(program).decls(), l.map)
        }),
        final(program).module == old(program).module,
        final(program).imports == old(program).imports,
        final(program).exports == old(program).exports,
        final(program).diagnostics == old(program).diagnostics,
        overflow_errors(
            old(ctx)@.diagnostics,
            final(ctx)@.diagnostics,
            lowering_of(old(program).decls(), strings@, old(symbols)@, old(types)@).overflows,
        ),
        final(ctx)@.next_function == old(ctx)@.next_function,
        final(ctx)@.next_local == old(ctx)@.next_local,
        final(ctx)@.next_type == old(ctx)@.next_type,
{
    broadcast use lemma_decls_view, lemma_variants_view;

    let i64_ty = types.intern(&Type::I64);
    let ghost ty = i64_ty;
    let ghost strs = strings@;
    let ghost init = EnumLowering {
        out: Seq::empty(),
        symbols: old(symbols)@,
        map: EnumMemberMap::empty(),
        overflows: Seq::empty(),
        ok: true,
    };
    let mut decls: Vec<HirDecl> = Vec::new();
    std::mem::swap(&mut decls, &mut program.declarations);
    let ghost d0 = decls@;
    let ghost dv = decls_view(d0);
    let ghost ctx0 = old(ctx)@;
    let mut rewritten: Vec<HirDecl> = Vec::new();
    let mut map = MemberMap::new();
    let ghost mut st = init;
    assert(dv.take(0) =~= Seq::<SDecl>::empty());
    assert(ctx0.diagnostics.take(ctx0.diagnostics.len() as int) =~= ctx0.diagnostics);
    proof {
        lemma_decls_view(d0);
    }
    let n = decls.len();
    let mut i: usize = 0;
    while i < n
        invariant
            n == d0.len(),
            dv == decls_view(d0),
            decls@.len() == n,
            i <= n,
            forall|j: int| i <= j < n ==> #[trigger] decls@[j] == d0[j],
            decls_fold(init, dv, strs, ty).ok,
            st == decls_fold(init, dv.take(i as int), strs, ty),
            decls_view(rewritten@) == st.out,
            symbols@ == st.symbols,
            symbols.wf(),
            strings@ == strs,
            map.view() == st.map,
            overflow_errors(ctx0.diagnostics, ctx@.diagnostics, st.overflows),
            ctx@.next_function == ctx0.next_function,
            ctx@.next_local == ctx0.next_local,
            ctx@.next_type == ctx0.next_type,
            i64_ty == ty,
        decreases n - i,
    {
        let mut d = HirDecl::Interface { name: SymbolId(0) };
        std::mem::swap(&mut d, &mut decls[i]);
        proof {
            lemma_decls_view(d0);
            assert(dv.take(i as int + 1).drop_last() =~= dv.take(i as int));
            assert(decl_view(d) == dv[i as int]);
            lemma_decls_ok(init, dv, strs, ty, i as int + 1);
        }
        match d {
            HirDecl::Enum { name, variants } => {
                let ghost vv = variants_view(variants@);
                let ghost st_alias = EnumLowering { out: st.out.push(SDecl::TypeAlias { name, target: ty }), ..st };
                let enum_text = owned_text(symbols.resolve(name));
                let ghost etext = enum_text@;
                let ghost prev = rewritten@;
                rewritten.push(HirDecl::TypeAlias { name, target: i64_ty });
                assert(rewritten@.drop_last() =~= prev);
                assert(decl_view(HirDecl::TypeAlias { name, target: i64_ty }) == SDecl::TypeAlias { name, target: ty });
                assert(decls_view(rewritten@) == decls_view(prev).push(SDecl::TypeAlias { name, target: ty }));
                proof {
                    lemma_variants_view(variants@);
                    lemma_members_ok(st_alias, name, etext, vv, strs, ty, 0);
                    assert(vv.take(0) =~= Seq::<SVariant>::empty());
                }
                let mut vars = variants;
                let ghost v0 = vars@;
                let nv = vars.len();
                let mut next_value: i128 = 0;
                let ghost mut inner = st_alias;
                let mut k: usize = 0;
                while k < nv
                    invariant
                        nv == v0.len(),
                        vv == variants_view(v0),
                        vars@.len() == nv,
                        k <= nv,
                        forall|j: int| k <= j < nv ==> #[trigger] vars@[j] == v0[j],
                        members_fold(st_alias, name, etext, vv, strs, ty).0.ok,
                        (inner, next_value as int) == members_fold(st_alias, name, etext, vv.take(k as int), strs, ty),
                        decls_view(rewritten@) == inner.out,
                        symbols@ == inner.symbols,
                        symbols.wf(),
                        strings@ == strs,
                        map.view() == inner.map,
                        enum_text@ == etext,
                        overflow_errors(ctx0.diagnostics, ctx@.diagnostics, inner.overflows),
                        ctx@.next_function == ctx0.next_function,
                        ctx@.next_local == ctx0.next_local,
                        ctx@.next_type == ctx0.next_type,
                        i64_ty == ty,
                    decreases nv - k,
                {
                    let mut var = HirEnumVariant { name: StringId(0), value: None };
                    std::mem::swap(&mut var, &mut vars[k]);
                    proof {
                        lemma_variants_view(v0);
                        assert(vv.take(k as int + 1).drop_last() =~= vv.take(k as int));
                        assert(vv[k as int] == SVariant { name: var.name, value: opt_expr_view(var.value) });
                        lemma_members_ok(st_alias, name, etext, vv, strs, ty, k as int + 1);
                    }
                    let ghost cur_next = next_value as int;
                    let ghost step = member_step(inner, cur_next, name, etext, vv[k as int], strs, ty);
                    let ghost ctx_before = ctx@;
                    let value: i64 = match var.value {
                        Some(HirExpr::Int(v)) => {
                            next_value = v as i128 + 1;
                            v
                        },
                        _ => {
                            if i64::MIN as i128 <= next_value && next_value <= i64::MAX as i128 {
                                let v = next_value as i64;
                                if next_value < i128::MAX {
                                    next_value = next_value + 1;
                                }
                                v
                            } else {
                                let mut msg = String::new();
                                push_str(&mut msg, "enum variant accumulator overflows i64 (current: ");
                                push_signed_decimal(&mut msg, next_value);
                                push_str(&mut msg, ")");
                                assert(msg@ =~= overflow_message(cur_next));
                                ctx.error("P0007", msg.as_str(), Span::new(0, 0));
                                proof {
                                    let dd = choose|dd: Diagnostic|
                                        crate::passes::context::pushed(ctx_before, ctx@, dd) && #[trigger] Diagnostic::spec_with(
                                            Severity::Error,
                                            "P0007"@,
                                            msg@,
                                            Span { start: 0, end: 0 },
                                            dd,
                                        );
                                    let b = ctx0.diagnostics;
                                    let ov = inner.overflows.push(cur_next);
                                    assert(ctx@.diagnostics.take(b.len() as int) =~= b) by {
                                        assert(ctx_before.diagnostics.take(b.len() as int) == b);
                                        assert(ctx@.diagnostics == ctx_before.diagnostics.push(dd));
                                    }
                                    assert forall|q: int| 0 <= q < ov.len() implies Diagnostic::spec_with(
                                        Severity::Error,
                                        "P0007"@,
                                        overflow_message(ov[q]),
                                        Span { start: 0, end: 0 },
                                        #[trigger] ctx@.diagnostics[b.len() + q],
                                    ) by {
                                        if q < inner.overflows.len() {
                                            assert(ctx@.diagnostics[b.len() + q] == ctx_before.diagnostics[b.len() + q]);
                                        }
                                    }
                                }
                                if next_value < i128::MAX {
                                    next_value = next_value + 1;
                                }
                                i64::MAX
                            }
                        },
                    };
                    let raw = owned_text(strings.resolve(var.name));
                    let mut ns = String::new();
                    push_str(&mut ns, enum_text.as_str());
                    push_char(&mut ns, '.');
                    push_str(&mut ns, raw.as_str());
                    assert(ns@ =~= etext + seq!['.'] + raw@);
                    let ns_sym = symbols.intern(ns.as_str());
                    let raw_sym = symbols.intern(raw.as_str());
                    map.insert(name, raw_sym, ns_sym);
                    let ghost prev2 = rewritten@;
                    rewritten.push(HirDecl::Global { name: ns_sym, ty: i64_ty, init: Some(HirExpr::Int(value)) });
                    proof {
                        assert(rewritten@.drop_last() =~= prev2);
                        let g = HirDecl::Global { name: ns_sym, ty: i64_ty, init: Some(HirExpr::Int(value)) };
                        assert(decl_view(g) == SDecl::Global { name: ns_sym, ty, init: Some(SExpr::Int(value)) });
                        assert(decls_view(rewritten@) == decls_view(prev2).push(decl_view(g)));
                        inner = step.0;
                    }
                    k = k + 1;
                }
                proof {
                    lemma_variants_view(v0);
                    assert(vv.take(nv as int) =~= vv);
                    st = inner;
                }
            },
            other => {
                let ghost prev = rewritten@;
                rewritten.push(other);
                proof {
                    assert(rewritten@.drop_last() =~= prev);
                    st = decl_step(st, decl_view(other), strs, ty);
                }
            },
        }
        i = i + 1;
    }
    proof {
        lemma_decls_view(d0);
        assert(dv.take(n as int) =~= dv);
    }
    if map.is_empty() {
        program.declarations = rewritten;
    } else {
        program.declarations = rewrite_decls(rewritten, &map);
    }
    proof {
        let l = lowering_of(old(program).decls(), strs, old(symbols)@, old(types)@);
        if members_apart(l.map) {
            law_lowering_rewrites_every_member_access(old(program).decls(), strs, old(symbols)@, TypeId(i64_slot(old(types)@) as u32));
        }
    }
}

/// Whether no declaration of `s` is an enum.
pub open spec fn no_enums(s: Seq<SDecl>) -> bool {
    forall|k: int| 0 <= k < s.len() ==> !(#[trigger] s[k] is Enum)
}

proof fn lemma_members_fold_no_enums(
    st: EnumLowering,
    name: SymbolId,
    text: Seq<char>,
    vs: Seq<SVariant>,
    strings: Seq<Seq<char>>,
    ty: TypeId,
)
    requires
        no_enums(st.out),
    ensures
        no_enums(members_fold(st, name, text, vs, strings, ty).0.out),
    decreases vs.len(),
{
    if vs.len() > 0 {
        lemma_members_fold_no_enums(st, name, text, vs.drop_last(), strings, ty);
    }
}

proof fn lemma_decls_fold_no_enums(st: EnumLowering, ds: Seq<SDecl>, strings: Seq<Seq<char>>, ty: TypeId)
    requires
        no_enums(st.out),
    ensures
        no_enums(decls_fold(st, ds, strings, ty).out),
    decreases ds.len(),
{
    if ds.len() > 0 {
        lemma_decls_fold_no_enums(st, ds.drop_last(), strings, ty);
        let prev = decls_fold(st, ds.drop_last(), strings, ty);
        match ds.last() {
            SDecl::Enum { name, variants } => {
                let st1 = EnumLowering { out: prev.out.push(SDecl::TypeAlias { name, target: ty }), ..prev };
                lemma_members_fold_no_enums(st1, name, text_or_empty(prev.symbols, name.0), variants, strings, ty);
            },
            _ => {},
        }
    }
}

/// After the lowering no enum declaration is left at the top level of the
/// module.
pub proof fn law_lowering_leaves_no_enum(
    decls: Seq<SDecl>,
    strings: Seq<Seq<char>>,
    symbols: Seq<Seq<char>>,
    ty: TypeId,
)
    ensures
        no_enums(lowered_decls(enum_lowering(decls, strings, symbols, ty))),
{
    let l = enum_lowering(decls, strings, symbols, ty);
    let st0 = EnumLowering {
        out: Seq::empty(),
        symbols,
        map: EnumMemberMap::empty(),
        overflows: Seq::empty(),
        ok: true,
    };
    lemma_decls_fold_no_enums(st0, decls, strings, ty);
    lemma_rw_decls(l.out, l.map);
}

/// How many declarations one declaration becomes: an enum its alias and
/// one global per member, anything else itself.
pub open spec fn block_len(d: SDecl) -> int {
    match d {
        SDecl::Enum { variants, .. } => 1 + variants.len() as int,
        _ => 1,
    }
}

/// How many declarations a list of declarations becomes.
pub open spec fn blocks_len(ds: Seq<SDecl>) -> int
    decreases ds.len(),
{
    if ds.len() == 0 {
        0
    } else {
        blocks_len(ds.drop_last()) + block_len(ds.last())
    }
}

/// Whether `out[o]` onwards is what declaration `d` becomes: an enum its
/// alias of `ty` followed by one global of type `ty` with an integer value
/// per member, anything else itself.
pub open spec fn block_at(out: Seq<SDecl>, o: int, d: SDecl, ty: TypeId) -> bool {
    match d {
        SDecl::Enum { name, variants } => {
            &&& out[o] == SDecl::TypeAlias { name, target: ty }
            &&& forall|k: int|
                0 <= k < variants.len() ==> (#[trigger] out[o + 1 + k] matches SDecl::Global {
                    ty: t,
                    init: Some(SExpr::Int(_)),
                    ..
                } && t == ty)
        },
        _ => out[o] == d,
    }
}

proof fn lemma_members_fold_shape(
    st: EnumLowering,
    name: SymbolId,
    text: Seq<char>,
    vs: Seq<SVariant>,
    strings: Seq<Seq<char>>,
    ty: TypeId,
)
    ensures
        members_fold(st, name, text, vs, strings, ty).0.out.len() == st.out.len() + vs.len(),
        members_fold(st, name, text, vs, strings, ty).0.out.take(st.out.len() as int) == st.out,
        forall|k: int|
            0 <= k < vs.len() ==> (#[trigger] members_fold(st, name, text, vs, strings, ty).0.out[st.out.len() + k]
                matches SDecl::Global { ty: t, init: Some(SExpr::Int(_)), .. } && t == ty),
    decreases vs.len(),
{
    if vs.len() > 0 {
        lemma_members_fold_shape(st, name, text, vs.drop_last(), strings, ty);
        let prev = members_fold(st, name, text, vs.drop_last(), strings, ty).0;
        let out = members_fold(st, name, text, vs, strings, ty).0.out;
        assert(out.drop_last() == prev.out);
        assert(out.take(st.out.len() as int) =~= prev.out.take(st.out.len() as int));
        assert forall|k: int| 0 <= k < vs.len() implies (#[trigger] out[st.out.len() + k] matches SDecl::Global {
            ty: t,
            init: Some(SExpr::Int(_)),
            ..
        } && t == ty) by {
            if k < vs.len() - 1 {
                assert(out[st.out.len() + k] == prev.out[st.out.len() + k]);
            }
        }
    }
}

proof fn lemma_decl_step_shape(st: EnumLowering, d: SDecl, strings: Seq<Seq<char>>, ty: TypeId)
    ensures
        decl_step(st, d, strings, ty).out.len() == st.out.len() + block_len(d),
        decl_step(st, d, strings, ty).out.take(st.out.len() as int) == st.out,
        block_at(decl_step(st, d, strings, ty).out, st.out.len() as int, d, ty),
{
    let out = decl_step(st, d, strings, ty).out;
    match d {
        SDecl::Enum { name, variants } => {
            let st1 = EnumLowering { out: st.out.push(SDecl::TypeAlias { name, target: ty }), ..st };
            lemma_members_fold_shape(st1, name, text_or_empty(st.symbols, name.0), variants, strings, ty);
            assert(out.take(st1.out.len() as int)[st.out.len() as int] == st1.out[st.out.len() as int]);
            assert(out.take(st.out.len() as int) =~= out.take(st1.out.len() as int).take(st.out.len() as int));
            assert(st1.out.take(st.out.len() as int) =~= st.out);
            assert forall|k: int| 0 <= k < variants.len() implies (#[trigger] out[st.out.len() + 1 + k] matches SDecl::Global {
                ty: t,
                init: Some(SExpr::Int(_)),
                ..
            } && t == ty) by {
                assert(out[st1.out.len() + k] == out[st.out.len() + 1 + k]);
            }
        },
        _ => {
            assert(out.take(st.out.len() as int) =~= st.out);
        },
    }
}

proof fn lemma_decls_fold_shape(st: EnumLowering, ds: Seq<SDecl>, strings: Seq<Seq<char>>, ty: TypeId)
    ensures
        decls_fold(st, ds, strings, ty).out.len() == st.out.len() + blocks_len(ds),
        decls_fold(st, ds, strings, ty).out.take(st.out.len() as int) == st.out,
        forall|i: int|
            0 <= i < ds.len() ==> block_at(
                decls_fold(st, ds, strings, ty).out,
                st.out.len() + blocks_len(#[trigger] ds.take(i)),
                ds[i],
                ty,
            ),
    decreases ds.len(),
{
    let out = decls_fold(st, ds, strings, ty).out;
    if ds.len() == 0 {
        assert(out.take(st.out.len() as int) =~= st.out);
    } else {
        let q = ds.drop_last();
        lemma_decls_fold_shape(st, q, strings, ty);
        let prev = decls_fold(st, q, strings, ty);
        lemma_decl_step_shape(prev, ds.last(), strings, ty);
        lemma_blocks_nonneg(q);
        assert(out.take(st.out.len() as int) =~= out.take(prev.out.len() as int).take(st.out.len() as int));
        assert(ds.take(ds.len() - 1) =~= q);
        assert forall|i: int| 0 <= i < ds.len() implies block_at(
            out,
            st.out.len() + blocks_len(#[trigger] ds.take(i)),
            ds[i],
            ty,
        ) by {
            if i < ds.len() - 1 {
                assert(ds.take(i) =~= q.take(i));
                assert(block_at(prev.out, st.out.len() + blocks_len(q.take(i)), q[i], ty));
                lemma_blocks_prefix(q, i);
                lemma_blocks_nonneg(q.take(i));
                let o = st.out.len() + blocks_len(q.take(i));
                assert forall|j: int| 0 <= j < prev.out.len() implies out[j] == prev.out[j] by {
                    assert(out.take(prev.out.len() as int)[j] == out[j]);
                }
                match q[i] {
                    SDecl::Enum { name, variants } => {
                        assert forall|k: int| 0 <= k < variants.len() implies (#[trigger] out[o + 1 + k] matches SDecl::Global {
                            ty: t,
                            init: Some(SExpr::Int(_)),
                            ..
                        } && t == ty) by {
                            assert(out[o + 1 + k] == prev.out[o + 1 + k]);
                        }
                    },
                    _ => {},
                }
            }
        }
    }
}

proof fn lemma_blocks_nonneg(ds: Seq<SDecl>)
    ensures
        blocks_len(ds) >= 0,
    decreases ds.len(),
{
    if ds.len() > 0 {
        lemma_blocks_nonneg(ds.drop_last());
    }
}

proof fn lemma_blocks_prefix(ds: Seq<SDecl>, i: int)
    requires
        0 <= i < ds.len(),
    ensures
        blocks_len(ds.take(i)) + block_len(ds[i]) <= blocks_len(ds),
    decreases ds.len(),
{
    if i < ds.len() - 1 {
        assert(ds.take(i) =~= ds.drop_last().take(i));
        lemma_blocks_prefix(ds.drop_last(), i);
    } else {
        assert(ds.take(i) =~= ds.drop_last());
    }
}

/// The enum lowering works in place: each declaration becomes, at its own
/// position and in order, either itself or (for an enum) a type alias of
/// `ty` followed by one global of type `ty` with an integer value per
/// member; member accesses are then rewritten declaration by declaration.
pub proof fn law_enum_lowering_in_place(
    decls: Seq<SDecl>,
    strings: Seq<Seq<char>>,
    symbols: Seq<Seq<char>>,
    ty: TypeId,
)
    ensures
        enum_lowering(decls, strings, symbols, ty).out.len() == blocks_len(decls),
        forall|i: int|
            0 <= i < decls.len() ==> block_at(
                enum_lowering(decls, strings, symbols, ty).out,
                blocks_len(#[trigger] decls.take(i)),
                decls[i],
                ty,
            ),
        lowered_decls(enum_lowering(decls, strings, symbols, ty)).len() == blocks_len(decls),
        forall|j: int|
            0 <= j < blocks_len(decls) ==> #[trigger] lowered_decls(enum_lowering(decls, strings, symbols, ty))[j]
                == (if enum_lowering(decls, strings, symbols, ty).map == EnumMemberMap::empty() {
                enum_lowering(decls, strings, symbols, ty).out[j]
            } else {
                rw_decl(enum_lowering(decls, strings, symbols, ty).out[j], enum_lowering(decls, strings, symbols, ty).map)
            }),
{
    let st0 = EnumLowering {
        out: Seq::empty(),
        symbols,
        map: EnumMemberMap::empty(),
        overflows: Seq::empty(),
        ok: true,
    };
    lemma_decls_fold_shape(st0, decls, strings, ty);
    let l = enum_lowering(decls, strings, symbols, ty);
    lemma_rw_decls(l.out, l.map);
}

} // verus!
