//! The conversion state only grows: fresh ids never go back and shared
//! struct ids are never forgotten.

use vstd::prelude::*;

use crate::hir::expr::SExpr;
use crate::ids::{FieldId, TypeId};
use crate::mir::body::MExpr;
use crate::passes::hir_to_mir::spec::{CState, ce, ce_compound, ce_fields, ce_list, to_base, to_place};

verus! {

/// Whether `b` is `a` grown: the next local and the next struct id are no
/// smaller, and every shared struct id is kept.
pub open spec fn grows(a: CState, b: CState) -> bool {
    &&& a.cv.next_local <= b.cv.next_local
    &&& a.next_struct <= b.next_struct
    &&& forall|k: u32| #[trigger] a.shared.contains_key(k) ==> b.shared.contains_key(k) && b.shared[k] == a.shared[k]
}

proof fn lemma_grows_trans(a: CState, b: CState, c: CState)
    requires
        grows(a, b),
        grows(b, c),
    ensures
        grows(a, c),
{
    assert forall|k: u32| #[trigger] a.shared.contains_key(k) implies c.shared.contains_key(k) && c.shared[k]
        == a.shared[k] by {
        assert(b.shared.contains_key(k));
    }
}

proof fn lemma_struct_grows(s: CState, ty: TypeId)
    ensures
        grows(s, crate::passes::hir_to_mir::spec::st_struct(s, ty).0),
{
    let t = crate::passes::hir_to_mir::spec::st_struct(s, ty).0;
    assert forall|k: u32| #[trigger] s.shared.contains_key(k) implies t.shared.contains_key(k) && t.shared[k]
        == s.shared[k] by {
        if !s.cv.structs.contains_key(ty.0) && !s.shared.contains_key(ty.0) && s.next_struct < u32::MAX {
            assert(k != ty.0);
        }
    }
}

proof fn lemma_to_base_grows(s: CState, e: MExpr)
    ensures
        grows(s, to_base(s, e).0),
    decreases e,
{
    match e {
        MExpr::Field { base, .. } => lemma_to_base_grows(s, *base),
        _ => {},
    }
}

proof fn lemma_ce_grows(s: CState, e: SExpr)
    ensures
        grows(s, ce(s, e).st),
    decreases e, 1nat,
{
    if s.ok {
        match e {
            SExpr::TypeAssertion { expr, .. } => lemma_ce_grows(s, *expr),
            SExpr::Unit | SExpr::Bool(_) | SExpr::Int(_) | SExpr::Float(_) | SExpr::String(_) | SExpr::Null
            | SExpr::Undefined | SExpr::Local { .. } | SExpr::Global { .. } | SExpr::Closure { .. } => {},
            _ => lemma_ce_compound_grows(s, e),
        }
    }
}

proof fn lemma_ce_list_grows(s: CState, es: Seq<SExpr>)
    ensures
        grows(s, ce_list(s, es).st),
    decreases es, 1nat,
{
    if es.len() > 0 {
        lemma_ce_list_grows(s, es.drop_last());
        lemma_ce_grows(ce_list(s, es.drop_last()).st, es.last());
    }
}

proof fn lemma_ce_fields_grows(s: CState, fs: Seq<(FieldId, SExpr)>)
    ensures
        grows(s, ce_fields(s, fs).st),
    decreases fs, 1nat,
{
    if fs.len() > 0 {
        lemma_ce_fields_grows(s, fs.drop_last());
        assert(decreases_to!(fs => fs.last()));
        lemma_ce_grows(ce_fields(s, fs.drop_last()).st, fs.last().1);
    }
}

proof fn lemma_ce_compound_grows(s: CState, e: SExpr)
    ensures
        grows(s, ce_compound(s, e).st),
    decreases e, 0nat,
{
    match e {
        SExpr::Field { owner, .. } => {
            lemma_ce_grows(s, *owner);
            assert(ce_compound(s, e).st == ce(s, *owner).st);
        },
        SExpr::Index { owner, index, .. } => {
            lemma_ce_grows(s, *owner);
            lemma_ce_grows(ce(s, *owner).st, *index);
        },
        SExpr::Call { args, .. } => lemma_ce_list_grows(s, args),
        SExpr::Binary { lhs, rhs, .. } => {
            lemma_ce_grows(s, *lhs);
            lemma_ce_grows(ce(s, *lhs).st, *rhs);
        },
        SExpr::Unary { expr, .. } => lemma_ce_grows(s, *expr),
        SExpr::StructLiteral { ty, fields } => {
            let s1 = crate::passes::hir_to_mir::spec::st_struct(s, ty).0;
            lemma_struct_grows(s, ty);
            lemma_ce_fields_grows(s1, fields);
            lemma_grows_trans(s, s1, ce_fields(s1, fields).st);
        },
        SExpr::ArrayLiteral { elements, .. } => lemma_ce_list_grows(s, elements),
        SExpr::Await { expr, ty } => {
            let (s1, dest, ns) = crate::passes::hir_to_mir::spec::st_await(s);
            lemma_ce_grows(crate::passes::hir_to_mir::spec::st_temp(s1, dest, ty), *expr);
        },
        SExpr::Yield { expr, ty } => {
            let (s1, dest) = crate::passes::hir_to_mir::spec::st_fresh(s);
            match expr {
                Some(b) => lemma_ce_grows(crate::passes::hir_to_mir::spec::st_temp(s1, dest, ty), *b),
                None => {},
            }
        },
        SExpr::Template { parts, .. } => lemma_ce_list_grows(s, parts),
        SExpr::New { callee, args, ty } => {
            lemma_ce_grows(s, *callee);
            let r = ce(s, *callee);
            let (s1, sid) = crate::passes::hir_to_mir::spec::st_struct(r.st, ty);
            let (s2, alloc) = crate::passes::hir_to_mir::spec::st_fresh(s1);
            let s3 = crate::passes::hir_to_mir::spec::st_temp(s2, alloc, ty);
            lemma_struct_grows(r.st, ty);
            lemma_ce_list_grows(s3, args);
            lemma_grows_trans(r.st, s1, s3);
            lemma_grows_trans(s, r.st, s3);
            lemma_grows_trans(s, s3, ce_list(s3, args).st);
        },
        SExpr::OptionalChain { base, .. } => lemma_ce_grows(s, *base),
        SExpr::Assignment { target, value, .. } => {
            lemma_ce_grows(s, *target);
            let r1 = ce(s, *target);
            match r1.e {
                MExpr::Field { base, .. } => {
                    lemma_to_base_grows(r1.st, *base);
                },
                _ => {},
            }
            lemma_ce_grows(to_place(r1.st, r1.e).0, *value);
        },
        _ => {},
    }
}

/// Converting an expression only grows the conversion state: the next
/// local and the next struct id never go back, and every shared struct id
/// stays. With the contract of `ExprConverter::convert_expr`, which appends
/// the emitted statements to those already there and the reports to the
/// diagnostics already there, this says that the conversion only adds.
pub proof fn law_expr_conversion_grows(s: CState, e: SExpr)
    ensures
        grows(s, ce(s, e).st),
{
    lemma_ce_grows(s, e);
}

} // verus!
