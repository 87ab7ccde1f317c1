//! The float literals of a module, in the order its dump writes them.

use vstd::prelude::*;

use crate::ids::FieldId;
use crate::mir::body::{
    MBase, MExpr, MPlace, MStmt, MirExpr, MirPlace, MirPlaceBase, MirStmt, lemma_mexprs_view, lemma_mfields_view,
    lemma_mstmts_view, mbase_view, mexpr_view, mexprs_view, mfields_view, mplace_view, mstmt_view, mstmts_view,
};
use crate::mir::decl::{MDecl, MFunction, MirDecl, MirFunctionDecl, mdecl_view, mfunction_view, mfunctions_view};
use crate::mir::program::{MirProgram, mdecls_view};

verus! {

// ---------------------------------------------------------------------------
// Specification
// ---------------------------------------------------------------------------

/// The bits of the float literals of an expression, left to right.
pub open spec fn expr_floats(e: MExpr) -> Seq<u64>
    decreases e, 0nat,
{
    match e {
        MExpr::Float { value, .. } => seq![value],
        MExpr::Field { base, .. } => expr_floats(*base),
        MExpr::Index { base, index, .. } => expr_floats(*base) + expr_floats(*index),
        MExpr::Call { args, .. } => exprs_floats(args),
        MExpr::StructLiteral { fields, .. } => fields_floats(fields),
        MExpr::ResultOk { value, .. } => expr_floats(*value),
        MExpr::ResultErr { error, .. } => expr_floats(*error),
        MExpr::Binary { left, right, .. } => expr_floats(*left) + expr_floats(*right),
        MExpr::Unary { expr, .. } => expr_floats(*expr),
        _ => Seq::empty(),
    }
}

/// The float literals of expressions, one after the other.
pub open spec fn exprs_floats(es: Seq<MExpr>) -> Seq<u64>
    decreases es, 1nat,
{
    if es.len() == 0 {
        Seq::empty()
    } else {
        exprs_floats(es.drop_last()) + expr_floats(es.last())
    }
}

/// The float literals of the values of struct literal fields.
pub open spec fn fields_floats(fs: Seq<(FieldId, MExpr)>) -> Seq<u64>
    decreases fs, 1nat,
{
    if fs.len() == 0 {
        Seq::empty()
    } else {
        fields_floats(fs.drop_last()) + expr_floats(fs.last().1)
    }
}

/// The float literals of the base of a place.
pub open spec fn base_floats(b: MBase) -> Seq<u64>
    decreases b,
{
    match b {
        MBase::Local(_) => Seq::empty(),
        MBase::Field { base, .. } => base_floats(*base),
        MBase::Index { base, index, .. } => expr_floats(*base) + expr_floats(*index),
    }
}

/// The float literals of a place.
pub open spec fn place_floats(p: MPlace) -> Seq<u64> {
    match p {
        MPlace::Local { .. } => Seq::empty(),
        MPlace::Field { base, .. } => base_floats(*base),
        MPlace::Index { base, index, .. } => expr_floats(*base) + expr_floats(*index),
    }
}

/// The float literals of an optional expression.
pub open spec fn opt_floats(o: Option<MExpr>) -> Seq<u64> {
    match o {
        Some(e) => expr_floats(e),
        None => Seq::empty(),
    }
}

/// The float literals of a statement, in the order they are written.
pub open spec fn stmt_floats(s: MStmt) -> Seq<u64>
    decreases s, 0nat,
{
    match s {
        MStmt::Let { init, .. } => opt_floats(init),
        MStmt::Assign { target, value } => place_floats(target) + expr_floats(value),
        MStmt::Expr(e) => expr_floats(e),
        MStmt::Return(v) => opt_floats(v),
        MStmt::ReturnResultErr { error, .. } => expr_floats(error),
        MStmt::Throw { error, .. } => expr_floats(error),
        MStmt::If { cond, then_block, else_block } => expr_floats(cond) + stmts_floats(then_block) + match else_block {
            Some(b) => stmts_floats(b),
            None => Seq::empty(),
        },
        MStmt::While { cond, body } => expr_floats(cond) + stmts_floats(body),
        MStmt::ForOf { iterable, body, .. } => expr_floats(iterable) + stmts_floats(body),
        MStmt::ForIn { object, body, .. } => expr_floats(object) + stmts_floats(body),
        MStmt::Runtime { args, .. } => exprs_floats(args),
        MStmt::Await { promise, .. } => expr_floats(promise),
        _ => Seq::empty(),
    }
}

/// The float literals of statements, one after the other.
pub open spec fn stmts_floats(ss: Seq<MStmt>) -> Seq<u64>
    decreases ss, 1nat,
{
    if ss.len() == 0 {
        Seq::empty()
    } else {
        stmts_floats(ss.drop_last()) + stmt_floats(ss.last())
    }
}

/// The float literals of functions, one after the other.
pub open spec fn functions_floats(fs: Seq<MFunction>) -> Seq<u64>
    decreases fs.len(),
{
    if fs.len() == 0 {
        Seq::empty()
    } else {
        functions_floats(fs.drop_last()) + stmts_floats(fs.last().body)
    }
}

/// The float literals of a declaration.
pub open spec fn decl_floats(d: MDecl) -> Seq<u64> {
    match d {
        MDecl::Function(f) => stmts_floats(f.body),
        MDecl::Struct(s) => functions_floats(s.methods),
        MDecl::Global(_) => Seq::empty(),
    }
}

/// The float literals of declarations, one after the other.
pub open spec fn decls_floats(ds: Seq<MDecl>) -> Seq<u64>
    decreases ds.len(),
{
    if ds.len() == 0 {
        Seq::empty()
    } else {
        decls_floats(ds.drop_last()) + decl_floats(ds.last())
    }
}

// ---------------------------------------------------------------------------
// Collecting
// ---------------------------------------------------------------------------

/// Appends the float literals of an expression.
pub fn collect_expr_floats(e: &MirExpr, out: &mut Vec<u64>)
    ensures
        final(out)@ == old(out)@ + expr_floats(e@),
    decreases e, 1nat,
{
    let ghost o = out@;
    match e {
        MirExpr::Float { value, .. } => {
            out.push(*value);
        },
        MirExpr::Field { base, .. } => {
            collect_expr_floats(base, out);
        },
        MirExpr::Index { base, index, .. } => {
            collect_expr_floats(base, out);
            collect_expr_floats(index, out);
        },
        MirExpr::Call { args, .. } => {
            collect_exprs_floats(args, out);
        },
        MirExpr::StructLiteral { fields, .. } => {
            collect_fields_floats(fields, out);
        },
        MirExpr::ResultOk { value, .. } => {
            collect_expr_floats(value, out);
        },
        MirExpr::ResultErr { error, .. } => {
            collect_expr_floats(error, out);
        },
        MirExpr::Binary { left, right, .. } => {
            collect_expr_floats(left, out);
            collect_expr_floats(right, out);
        },
        MirExpr::Unary { expr, .. } => {
            collect_expr_floats(expr, out);
        },
        _ => {},
    }
    proof {
        assert(out@ =~= o + expr_floats(e@));
    }
}

/// Appends the float literals of expressions, one after the other.
fn collect_exprs_floats(es: &Vec<MirExpr>, out: &mut Vec<u64>)
    ensures
        final(out)@ == old(out)@ + exprs_floats(mexprs_view(es@)),
    decreases es, 0nat,
{
    let ghost v = mexprs_view(es@);
    let mut i: usize = 0;
    proof {
        lemma_mexprs_view(es@);
        assert(v.take(0) =~= Seq::<MExpr>::empty());
        assert(out@ =~= old(out)@ + exprs_floats(v.take(0)));
    }
    while i < es.len()
        invariant
            i <= es@.len(),
            v == mexprs_view(es@),
            v.len() == es@.len(),
            forall|k: int| 0 <= k < es@.len() ==> #[trigger] v[k] == mexpr_view(es@[k]),
            out@ == old(out)@ + exprs_floats(v.take(i as int)),
        decreases es@.len() - i,
    {
        proof {
            assert(decreases_to!(es => es@[i as int]));
        }
        collect_expr_floats(&es[i], out);
        proof {
            let t = v.take(i as int + 1);
            assert(t.drop_last() =~= v.take(i as int));
            assert(t.last() == v[i as int]);
            assert(out@ =~= old(out)@ + exprs_floats(t));
        }
        i = i + 1;
    }
    proof {
        assert(v.take(es@.len() as int) =~= v);
    }
}

/// Appends the float literals of the values of struct literal fields.
fn collect_fields_floats(fs: &Vec<(FieldId, MirExpr)>, out: &mut Vec<u64>)
    ensures
        final(out)@ == old(out)@ + fields_floats(mfields_view(fs@)),
    decreases fs, 0nat,
{
    let ghost v = mfields_view(fs@);
    let mut i: usize = 0;
    proof {
        lemma_mfields_view(fs@);
        assert(v.take(0) =~= Seq::<(FieldId, MExpr)>::empty());
        assert(out@ =~= old(out)@ + fields_floats(v.take(0)));
    }
    while i < fs.len()
        invariant
            i <= fs@.len(),
            v == mfields_view(fs@),
            v.len() == fs@.len(),
            forall|k: int| 0 <= k < fs@.len() ==> #[trigger] v[k] == (fs@[k].0, mexpr_view(fs@[k].1)),
            out@ == old(out)@ + fields_floats(v.take(i as int)),
        decreases fs@.len() - i,
    {
        proof {
            assert(decreases_to!(fs => fs@[i as int]));
            assert(decreases_to!(fs@[i as int] => fs@[i as int].1));
        }
        collect_expr_floats(&fs[i].1, out);
        proof {
            let t = v.take(i as int + 1);
            assert(t.drop_last() =~= v.take(i as int));
            assert(t.last() == v[i as int]);
            assert(out@ =~= old(out)@ + fields_floats(t));
        }
        i = i + 1;
    }
    proof {
        assert(v.take(fs@.len() as int) =~= v);
    }
}

/// Appends the float literals of the base of a place.
fn collect_base_floats(b: &MirPlaceBase, out: &mut Vec<u64>)
    ensures
        final(out)@ == old(out)@ + base_floats(mbase_view(*b)),
    decreases b,
{
    let ghost o = out@;
    match b {
        MirPlaceBase::Local(_) => {},
        MirPlaceBase::Field { base, .. } => {
            collect_base_floats(base, out);
        },
        MirPlaceBase::Index { base, index, .. } => {
            collect_expr_floats(base, out);
            collect_expr_floats(index, out);
        },
    }
    proof {
        assert(out@ =~= o + base_floats(mbase_view(*b)));
    }
}

/// Appends the float literals of a place.
fn collect_place_floats(p: &MirPlace, out: &mut Vec<u64>)
    ensures
        final(out)@ == old(out)@ + place_floats(mplace_view(*p)),
{
    let ghost o = out@;
    match p {
        MirPlace::Local { .. } => {},
        MirPlace::Field { base, .. } => {
            collect_base_floats(base, out);
        },
        MirPlace::Index { base, index, .. } => {
            collect_expr_floats(base, out);
            collect_expr_floats(index, out);
        },
    }
    proof {
        assert(out@ =~= o + place_floats(mplace_view(*p)));
    }
}

/// Appends the float literals of an optional expression.
fn collect_opt_floats(e: &Option<MirExpr>, out: &mut Vec<u64>)
    ensures
        final(out)@ == old(out)@ + opt_floats(
            match *e {
                Some(x) => Some(mexpr_view(x)),
                None => None,
            },
        ),
{
    match e {
        Some(x) => collect_expr_floats(x, out),
        None => {
            proof {
                assert(out@ =~= old(out)@ + Seq::<u64>::empty());
            }
        },
    }
}

/// Appends the float literals of a statement.
pub fn collect_stmt_floats(s: &MirStmt, out: &mut Vec<u64>)
    ensures
        final(out)@ == old(out)@ + stmt_floats(s@),
    decreases s, 1nat,
{
    let ghost o = out@;
    match s {
        MirStmt::Let { init, .. } => collect_opt_floats(init, out),
        MirStmt::Assign { target, value } => {
            collect_place_floats(target, out);
            collect_expr_floats(value, out);
        },
        MirStmt::Expr(e) => collect_expr_floats(e, out),
        MirStmt::Return(v) => collect_opt_floats(v, out),
        MirStmt::ReturnResultErr { error, .. } => collect_expr_floats(error, out),
        MirStmt::Throw { error, .. } => collect_expr_floats(error, out),
        MirStmt::If { cond, then_block, else_block } => {
            proof {
                assert(decreases_to!(s => then_block.stmts));
            }
            collect_expr_floats(cond, out);
            collect_stmts_floats(&then_block.stmts, out);
            match else_block {
                Some(b) => {
                    proof {
                        assert(decreases_to!(s => b.stmts));
                    }
                    collect_stmts_floats(&b.stmts, out);
                },
                None => {},
            }
        },
        MirStmt::While { cond, body } => {
            proof {
                assert(decreases_to!(s => body.stmts));
            }
            collect_expr_floats(cond, out);
            collect_stmts_floats(&body.stmts, out);
        },
        MirStmt::ForOf { iterable, body, .. } => {
            proof {
                assert(decreases_to!(s => body.stmts));
            }
            collect_expr_floats(iterable, out);
            collect_stmts_floats(&body.stmts, out);
        },
        MirStmt::ForIn { object, body, .. } => {
            proof {
                assert(decreases_to!(s => body.stmts));
            }
            collect_expr_floats(object, out);
            collect_stmts_floats(&body.stmts, out);
        },
        MirStmt::Runtime { args, .. } => collect_exprs_floats(args, out),
        MirStmt::Await { promise, .. } => collect_expr_floats(promise, out),
        _ => {},
    }
    proof {
        assert(out@ =~= o + stmt_floats(s@));
    }
}

/// Appends the float literals of statements, one after the other.
pub fn collect_stmts_floats(ss: &Vec<MirStmt>, out: &mut Vec<u64>)
    ensures
        final(out)@ == old(out)@ + stmts_floats(mstmts_view(ss@)),
    decreases ss, 0nat,
{
    let ghost v = mstmts_view(ss@);
    let mut i: usize = 0;
    proof {
        lemma_mstmts_view(ss@);
        assert(v.take(0) =~= Seq::<MStmt>::empty());
        assert(out@ =~= old(out)@ + stmts_floats(v.take(0)));
    }
    while i < ss.len()
        invariant
            i <= ss@.len(),
            v == mstmts_view(ss@),
            v.len() == ss@.len(),
            forall|k: int| 0 <= k < ss@.len() ==> #[trigger] v[k] == mstmt_view(ss@[k]),
            out@ == old(out)@ + stmts_floats(v.take(i as int)),
        decreases ss@.len() - i,
    {
        proof {
            assert(decreases_to!(ss => ss@[i as int]));
        }
        collect_stmt_floats(&ss[i], out);
        proof {
            let t = v.take(i as int + 1);
            assert(t.drop_last() =~= v.take(i as int));
            assert(t.last() == v[i as int]);
            assert(out@ =~= old(out)@ + stmts_floats(t));
        }
        i = i + 1;
    }
    proof {
        assert(v.take(ss@.len() as int) =~= v);
    }
}

/// Appends the float literals of functions, one after the other.
fn collect_functions_floats(fs: &Vec<MirFunctionDecl>, out: &mut Vec<u64>)
    ensures
        final(out)@ == old(out)@ + functions_floats(mfunctions_view(fs@)),
{
    let ghost v = mfunctions_view(fs@);
    let mut i: usize = 0;
    proof {
        assert(v.take(0) =~= Seq::<MFunction>::empty());
        assert(out@ =~= old(out)@ + functions_floats(v.take(0)));
    }
    while i < fs.len()
        invariant
            i <= fs@.len(),
            v == mfunctions_view(fs@),
            out@ == old(out)@ + functions_floats(v.take(i as int)),
        decreases fs@.len() - i,
    {
        collect_stmts_floats(&fs[i].body.block.stmts, out);
        proof {
            let t = v.take(i as int + 1);
            assert(t.drop_last() =~= v.take(i as int));
            assert(t.last() == mfunction_view(fs@[i as int]));
            assert(out@ =~= old(out)@ + functions_floats(t));
        }
        i = i + 1;
    }
    proof {
        assert(v.take(fs@.len() as int) =~= v);
    }
}

/// The bits of every float literal of a module, in the order its dump
/// writes them.
pub fn float_literals(prog: &MirProgram) -> (v: Vec<u64>)
    ensures
        v@ == decls_floats(mdecls_view(prog.declarations@)),
{
    let ghost ds = mdecls_view(prog.declarations@);
    let mut out: Vec<u64> = Vec::new();
    let mut i: usize = 0;
    proof {
        assert(ds.take(0) =~= Seq::<MDecl>::empty());
    }
    while i < prog.declarations.len()
        invariant
            i <= prog.declarations@.len(),
            ds == mdecls_view(prog.declarations@),
            out@ == decls_floats(ds.take(i as int)),
        decreases prog.declarations@.len() - i,
    {
        let ghost before = out@;
        match &prog.declarations[i] {
            MirDecl::Function(f) => collect_stmts_floats(&f.body.block.stmts, &mut out),
            MirDecl::Struct(s) => collect_functions_floats(&s.methods, &mut out),
            MirDecl::Global(_) => {},
        }
        proof {
            let t = ds.take(i as int + 1);
            assert(t.drop_last() =~= ds.take(i as int));
            assert(t.last() == mdecl_view(prog.declarations@[i as int]));
            assert(out@ =~= decls_floats(t));
        }
        i = i + 1;
    }
    proof {
        assert(ds.take(prog.declarations@.len() as int) =~= ds);
    }
    out
}

} // verus!
