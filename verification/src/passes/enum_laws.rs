//! What the rewriting of member accesses leaves behind: no access `E.M`
//! to a lowered member, at any depth of the expressions it rewrites.

use vstd::prelude::*;

use crate::hir::expr::{SCallee, SExpr};
use crate::hir::stmt::{SCase, SDecl, SFunction, SStmt};
use crate::ids::{FieldId, SymbolId, TypeId};
use crate::passes::lower_enums::{
    EnumMemberMap, enum_lowering, lowered_decls, member_global, rw_decl, rw_decls, rw_expr, rw_exprs,
    rw_cases, rw_fields, rw_function, rw_functions, rw_opt, rw_stmt, rw_stmts,
};

verus! {

/// Whether no member global of `m` is also the enum name of an entry of
/// `m`: a rewritten access then never forms a new one.
pub open spec fn members_apart(m: EnumMemberMap) -> bool {
    forall|k1: (SymbolId, SymbolId), k2: (SymbolId, SymbolId)|
        #![trigger m[k1], m.contains_key(k2)]
        m.contains_key(k1) && m.contains_key(k2) ==> m[k1] != k2.0
}

/// Whether no subexpression of `e` that the rewriting visits is a field
/// access `E.M` with `(E, M)` in `m`.
pub open spec fn member_free(e: SExpr, m: EnumMemberMap) -> bool
    decreases e, 0nat,
{
    match e {
        SExpr::Field { owner, field_name, .. } =>
            member_global(*owner, field_name, m) is None && member_free(*owner, m),
        SExpr::Call { callee, args, .. } => member_free_list(args, m) && match callee {
            SCallee::Indirect(inner) => member_free(*inner, m),
            _ => true,
        },
        SExpr::Binary { lhs, rhs, .. } => member_free(*lhs, m) && member_free(*rhs, m),
        SExpr::Unary { expr, .. } => member_free(*expr, m),
        SExpr::Index { owner, index, .. } => member_free(*owner, m) && member_free(*index, m),
        SExpr::Assignment { target, value, .. } => member_free(*target, m) && member_free(*value, m),
        SExpr::StructLiteral { fields, .. } => member_free_fields(fields, m),
        SExpr::ArrayLiteral { elements, .. } => member_free_list(elements, m),
        SExpr::Closure { captures, .. } => member_free_list(captures, m),
        SExpr::Await { expr, .. } => member_free(*expr, m),
        SExpr::Yield { expr, .. } => match expr {
            Some(b) => member_free(*b, m),
            None => true,
        },
        SExpr::Template { tag, parts, .. } => member_free_list(parts, m) && match tag {
            Some(b) => member_free(*b, m),
            None => true,
        },
        SExpr::New { callee, args, .. } => member_free(*callee, m) && member_free_list(args, m),
        SExpr::OptionalChain { base, .. } => member_free(*base, m),
        SExpr::TypeAssertion { expr, .. } => member_free(*expr, m),
        _ => true,
    }
}

/// `member_free` of every element.
pub open spec fn member_free_list(s: Seq<SExpr>, m: EnumMemberMap) -> bool
    decreases s, 0nat,
{
    s.len() == 0 || (member_free_list(s.drop_last(), m) && member_free(s.last(), m))
}

/// `member_free` of the value of every field.
pub open spec fn member_free_fields(s: Seq<(FieldId, SExpr)>, m: EnumMemberMap) -> bool
    decreases s, 0nat,
{
    s.len() == 0 || (member_free_fields(s.drop_last(), m) && member_free(s.last().1, m))
}

/// `member_free` of an optional expression.
pub open spec fn member_free_opt(o: Option<SExpr>, m: EnumMemberMap) -> bool {
    match o {
        Some(e) => member_free(e, m),
        None => true,
    }
}

/// `member_free` of every expression of a statement, nested statements and
/// declarations included.
pub open spec fn member_free_stmt(s: SStmt, m: EnumMemberMap) -> bool
    decreases s, 0nat,
{
    match s {
        SStmt::Block(v) => member_free_stmts(v, m),
        SStmt::Let { init, .. } => member_free_opt(init, m),
        SStmt::Expr { expr } => member_free(expr, m),
        SStmt::Return { value } => member_free_opt(value, m),
        SStmt::Throw { expr } => member_free(expr, m),
        SStmt::If { cond, then, otherwise } => member_free(cond, m) && member_free_stmt(*then, m)
            && match otherwise {
            Some(o) => member_free_stmt(*o, m),
            None => true,
        },
        SStmt::While { cond, body } => member_free(cond, m) && member_free_stmt(*body, m),
        SStmt::DoWhile { body, cond } => member_free(cond, m) && member_free_stmt(*body, m),
        SStmt::ForOf { iter, body, .. } => member_free(iter, m) && member_free_stmt(*body, m),
        SStmt::ForIn { iter, body, .. } => member_free(iter, m) && member_free_stmt(*body, m),
        SStmt::Switch { disc, cases } => member_free(disc, m) && member_free_cases(cases, m),
        SStmt::Try { body, catch, finally } => member_free_stmt(*body, m) && match catch {
            Some(c) => member_free_stmt(*c.body, m),
            None => true,
        } && match finally {
            Some(f) => member_free_stmt(*f, m),
            None => true,
        },
        SStmt::Decl(d) => member_free_decl(d, m),
        _ => true,
    }
}

/// `member_free_stmt` of every element.
pub open spec fn member_free_stmts(s: Seq<SStmt>, m: EnumMemberMap) -> bool
    decreases s, 0nat,
{
    s.len() == 0 || (member_free_stmts(s.drop_last(), m) && member_free_stmt(s.last(), m))
}

/// `member_free` in the test and the body of every case.
pub open spec fn member_free_cases(s: Seq<SCase>, m: EnumMemberMap) -> bool
    decreases s, 0nat,
{
    s.len() == 0 || (member_free_cases(s.drop_last(), m) && member_free_opt(s.last().test, m)
        && member_free_stmts(s.last().body, m))
}

/// `member_free` in the body of every function.
pub open spec fn member_free_functions(s: Seq<SFunction>, m: EnumMemberMap) -> bool
    decreases s, 0nat,
{
    s.len() == 0 || (member_free_functions(s.drop_last(), m) && member_free_stmts(s.last().body, m))
}

/// `member_free` in what the rewriting visits of a declaration: the body of
/// a function, the bodies of a class's methods, a global's initializer.
pub open spec fn member_free_decl(d: SDecl, m: EnumMemberMap) -> bool
    decreases d, 0nat,
{
    match d {
        SDecl::Function(f) => member_free_stmts(f.body, m),
        SDecl::Class(c) => member_free_functions(c.methods, m),
        SDecl::Global { init, .. } => member_free_opt(init, m),
        _ => true,
    }
}

/// `member_free_decl` of every element.
pub open spec fn member_free_decls(s: Seq<SDecl>, m: EnumMemberMap) -> bool
    decreases s.len(),
{
    s.len() == 0 || (member_free_decls(s.drop_last(), m) && member_free_decl(s.last(), m))
}

proof fn lemma_rw_expr(e: SExpr, m: EnumMemberMap)
    requires
        members_apart(m),
    ensures
        member_free(rw_expr(e, m), m),
    decreases e, 0nat,
{
    match e {
        SExpr::Field { owner, field_name, ty, .. } => match member_global(*owner, field_name, m) {
            Some(g) => {
                assert(member_free(SExpr::Global { name: g, ty }, m));
            },
            None => {
                lemma_rw_expr(*owner, m);
                match *owner {
                    SExpr::Field { owner: o2, field_name: f2, .. } => match *o2 {
                        SExpr::Global { name: n2, .. } => if m.contains_key((n2, f2)) {
                            let g = m[(n2, f2)];
                            if m.contains_key((g, field_name)) {
                                assert(m[(n2, f2)] != (g, field_name).0);
                            }
                        },
                        _ => {},
                    },
                    _ => {},
                }
            },
        },
        SExpr::Call { callee, args, .. } => {
            lemma_rw_exprs(args, m);
            match callee {
                SCallee::Indirect(inner) => lemma_rw_expr(*inner, m),
                _ => {},
            }
        },
        SExpr::Binary { lhs, rhs, .. } => {
            lemma_rw_expr(*lhs, m);
            lemma_rw_expr(*rhs, m);
        },
        SExpr::Unary { expr, .. } => lemma_rw_expr(*expr, m),
        SExpr::Index { owner, index, .. } => {
            lemma_rw_expr(*owner, m);
            lemma_rw_expr(*index, m);
        },
        SExpr::Assignment { target, value, .. } => {
            lemma_rw_expr(*target, m);
            lemma_rw_expr(*value, m);
        },
        SExpr::StructLiteral { fields, .. } => lemma_rw_fields(fields, m),
        SExpr::ArrayLiteral { elements, .. } => lemma_rw_exprs(elements, m),
        SExpr::Closure { captures, .. } => lemma_rw_exprs(captures, m),
        SExpr::Await { expr, .. } => lemma_rw_expr(*expr, m),
        SExpr::Yield { expr, .. } => match expr {
            Some(b) => lemma_rw_expr(*b, m),
            None => {},
        },
        SExpr::Template { tag, parts, .. } => {
            lemma_rw_exprs(parts, m);
            match tag {
                Some(b) => lemma_rw_expr(*b, m),
                None => {},
            }
        },
        SExpr::New { callee, args, .. } => {
            lemma_rw_expr(*callee, m);
            lemma_rw_exprs(args, m);
        },
        SExpr::OptionalChain { base, .. } => lemma_rw_expr(*base, m),
        SExpr::TypeAssertion { expr, .. } => lemma_rw_expr(*expr, m),
        _ => {},
    }
}

proof fn lemma_rw_exprs(s: Seq<SExpr>, m: EnumMemberMap)
    requires
        members_apart(m),
    ensures
        member_free_list(rw_exprs(s, m), m),
    decreases s, 0nat,
{
    if s.len() > 0 {
        lemma_rw_exprs(s.drop_last(), m);
        lemma_rw_expr(s.last(), m);
        let xs = rw_exprs(s.drop_last(), m);
        assert(xs.push(rw_expr(s.last(), m)).drop_last() =~= xs);
    }
}

proof fn lemma_rw_fields(s: Seq<(FieldId, SExpr)>, m: EnumMemberMap)
    requires
        members_apart(m),
    ensures
        member_free_fields(rw_fields(s, m), m),
    decreases s, 0nat,
{
    if s.len() > 0 {
        lemma_rw_fields(s.drop_last(), m);
        assert(decreases_to!(s => s.last()));
        lemma_rw_expr(s.last().1, m);
        let xs = rw_fields(s.drop_last(), m);
        assert(xs.push((s.last().0, rw_expr(s.last().1, m))).drop_last() =~= xs);
    }
}

proof fn lemma_rw_opt(o: Option<SExpr>, m: EnumMemberMap)
    requires
        members_apart(m),
    ensures
        member_free_opt(rw_opt(o, m), m),
    decreases o, 0nat,
{
    match o {
        Some(e) => lemma_rw_expr(e, m),
        None => {},
    }
}

proof fn lemma_rw_stmt(s: SStmt, m: EnumMemberMap)
    requires
        members_apart(m),
    ensures
        member_free_stmt(rw_stmt(s, m), m),
    decreases s, 0nat,
{
    match s {
        SStmt::Block(v) => lemma_rw_stmts(v, m),
        SStmt::Let { init, .. } => lemma_rw_opt(init, m),
        SStmt::Expr { expr } => lemma_rw_expr(expr, m),
        SStmt::Return { value } => lemma_rw_opt(value, m),
        SStmt::Throw { expr } => lemma_rw_expr(expr, m),
        SStmt::If { cond, then, otherwise } => {
            lemma_rw_expr(cond, m);
            lemma_rw_stmt(*then, m);
            match otherwise {
                Some(o) => lemma_rw_stmt(*o, m),
                None => {},
            }
        },
        SStmt::While { cond, body } => {
            lemma_rw_expr(cond, m);
            lemma_rw_stmt(*body, m);
        },
        SStmt::DoWhile { body, cond } => {
            lemma_rw_expr(cond, m);
            lemma_rw_stmt(*body, m);
        },
        SStmt::ForOf { iter, body, .. } => {
            lemma_rw_expr(iter, m);
            lemma_rw_stmt(*body, m);
        },
        SStmt::ForIn { iter, body, .. } => {
            lemma_rw_expr(iter, m);
            lemma_rw_stmt(*body, m);
        },
        SStmt::Switch { disc, cases } => {
            lemma_rw_expr(disc, m);
            lemma_rw_cases(cases, m);
        },
        SStmt::Try { body, catch, finally } => {
            lemma_rw_stmt(*body, m);
            match catch {
                Some(c) => {
                    assert(decreases_to!(s => c));
                    lemma_rw_stmt(*c.body, m);
                },
                None => {},
            }
            match finally {
                Some(f) => lemma_rw_stmt(*f, m),
                None => {},
            }
        },
        SStmt::Decl(d) => lemma_rw_decl(d, m),
        _ => {},
    }
}

proof fn lemma_rw_stmts(s: Seq<SStmt>, m: EnumMemberMap)
    requires
        members_apart(m),
    ensures
        member_free_stmts(rw_stmts(s, m), m),
    decreases s, 0nat,
{
    if s.len() > 0 {
        lemma_rw_stmts(s.drop_last(), m);
        lemma_rw_stmt(s.last(), m);
        let xs = rw_stmts(s.drop_last(), m);
        assert(xs.push(rw_stmt(s.last(), m)).drop_last() =~= xs);
    }
}

proof fn lemma_rw_cases(s: Seq<SCase>, m: EnumMemberMap)
    requires
        members_apart(m),
    ensures
        member_free_cases(rw_cases(s, m), m),
    decreases s, 0nat,
{
    if s.len() > 0 {
        lemma_rw_cases(s.drop_last(), m);
        assert(decreases_to!(s => s.last()));
        lemma_rw_opt(s.last().test, m);
        lemma_rw_stmts(s.last().body, m);
        let xs = rw_cases(s.drop_last(), m);
        let x = SCase { test: rw_opt(s.last().test, m), body: rw_stmts(s.last().body, m) };
        assert(xs.push(x).drop_last() =~= xs);
    }
}

proof fn lemma_rw_functions(s: Seq<SFunction>, m: EnumMemberMap)
    requires
        members_apart(m),
    ensures
        member_free_functions(rw_functions(s, m), m),
    decreases s, 0nat,
{
    if s.len() > 0 {
        lemma_rw_functions(s.drop_last(), m);
        assert(decreases_to!(s => s.last()));
        lemma_rw_stmts(s.last().body, m);
        let xs = rw_functions(s.drop_last(), m);
        assert(xs.push(rw_function(s.last(), m)).drop_last() =~= xs);
    }
}

proof fn lemma_rw_decl(d: SDecl, m: EnumMemberMap)
    requires
        members_apart(m),
    ensures
        member_free_decl(rw_decl(d, m), m),
    decreases d, 0nat,
{
    match d {
        SDecl::Function(f) => lemma_rw_stmts(f.body, m),
        SDecl::Class(c) => lemma_rw_functions(c.methods, m),
        SDecl::Global { init, .. } => lemma_rw_opt(init, m),
        _ => {},
    }
}

proof fn lemma_rw_decls(s: Seq<SDecl>, m: EnumMemberMap)
    requires
        members_apart(m),
    ensures
        member_free_decls(rw_decls(s, m), m),
    decreases s.len(),
{
    if s.len() > 0 {
        lemma_rw_decls(s.drop_last(), m);
        lemma_rw_decl(s.last(), m);
        let xs = rw_decls(s.drop_last(), m);
        assert(xs.push(rw_decl(s.last(), m)).drop_last() =~= xs);
    }
}

/// Rewriting an expression against a member map whose globals are apart
/// from its enum names leaves no access `E.M` with `(E, M)` in the map
/// anywhere it looks: both operands of every operator, arguments, indices,
/// fields, captures and the owners of other field accesses included.
pub proof fn law_member_rewrite_complete(e: SExpr, m: EnumMemberMap)
    requires
        members_apart(m),
    ensures
        member_free(rw_expr(e, m), m),
{
    lemma_rw_expr(e, m);
}

/// The same for the statements of a body.
pub proof fn law_member_rewrite_complete_stmts(s: Seq<SStmt>, m: EnumMemberMap)
    requires
        members_apart(m),
    ensures
        member_free_stmts(rw_stmts(s, m), m),
{
    lemma_rw_stmts(s, m);
}

/// After the lowering of a module that lowered at least one member, and
/// whose member globals are apart from its enum names, no function body,
/// method body or global initializer still reads a lowered member as a
/// field access `E.M`: each such access reads the member's global.
pub proof fn law_lowering_rewrites_every_member_access(
    decls: Seq<SDecl>,
    strings: Seq<Seq<char>>,
    symbols: Seq<Seq<char>>,
    ty: TypeId,
)
    requires
        members_apart(enum_lowering(decls, strings, symbols, ty).map),
    ensures
        ({
            let l = enum_lowering(decls, strings, symbols, ty);
            l.map != EnumMemberMap::empty() ==> member_free_decls(lowered_decls(l), l.map)
        }),
{
    let l = enum_lowering(decls, strings, symbols, ty);
    lemma_rw_decls(l.out, l.map);
}

} // verus!
