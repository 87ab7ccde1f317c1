//! Lowering `throw` in functions that declare what they throw: each becomes
//! a return of an error result.

use vstd::prelude::*;

use crate::ids::TypeId;
use crate::mir::body::{MExpr, MirBlock, MirExpr, MirStmt, MStmt, copy_mstmt, lemma_mstmts_view, mstmt_view, mstmts_view};
use crate::mir::decl::{MDecl, MFunction, MirDecl, mdecl_view, mfunction_view};
use crate::mir::program::{MirProgram, mdecls_view};

verus! {

/// A statement with each `throw` turned into a return of an error of type
/// `t`, inside branches and loop bodies too.
pub open spec fn lr_stmt(s: MStmt, t: TypeId) -> MStmt
    decreases s, 0nat,
{
    match s {
        MStmt::Throw { error, .. } => MStmt::ReturnResultErr { error, err_ty: t },
        MStmt::If { cond, then_block, else_block } => MStmt::If {
            cond,
            then_block: lr_stmts(then_block, t),
            else_block: match else_block {
                Some(b) => Some(lr_stmts(b, t)),
                None => None,
            },
        },
        MStmt::While { cond, body } => MStmt::While { cond, body: lr_stmts(body, t) },
        MStmt::ForOf { item, iterable, body } => MStmt::ForOf { item, iterable, body: lr_stmts(body, t) },
        MStmt::ForIn { key, object, body } => MStmt::ForIn { key, object, body: lr_stmts(body, t) },
        other => other,
    }
}

/// `lr_stmt` on each statement.
pub open spec fn lr_stmts(s: Seq<MStmt>, t: TypeId) -> Seq<MStmt>
    decreases s, 1nat,
{
    if s.len() == 0 {
        Seq::empty()
    } else {
        lr_stmts(s.drop_last(), t).push(lr_stmt(s.last(), t))
    }
}

/// A declaration after the lowering: a function that declares what it
/// throws has its body rewritten; everything else is kept.
pub open spec fn lr_decl(d: MDecl) -> MDecl {
    match d {
        MDecl::Function(f) => match f.throws {
            Some(t) => MDecl::Function(MFunction { body: lr_stmts(f.body, t), ..f }),
            None => d,
        },
        _ => d,
    }
}

/// The view of `lr_stmts` lists `lr_stmt` of each statement.
pub proof fn lemma_lr_stmts(s: Seq<MStmt>, t: TypeId)
    ensures
        lr_stmts(s, t).len() == s.len(),
        forall|i: int| 0 <= i < s.len() ==> #[trigger] lr_stmts(s, t)[i] == lr_stmt(s[i], t),
    decreases s.len(),
{
    if s.len() > 0 {
        lemma_lr_stmts(s.drop_last(), t);
    }
}

/// Rewrites every `throw` of a function that declares what it throws into
/// a return of an error result of that type; functions that declare
/// nothing, structs and globals are left as they are.
pub fn lower_result(program: &mut MirProgram)
    ensures
        final(program).module == old(program).module,
        final(program).imports@ == old(program).imports@,
        final(program).exports@ == old(program).exports@,
        mdecls_view(final(program).declarations@) == mdecls_view(old(program).declarations@).map_values(
            |d: MDecl| lr_decl(d),
        ),
        forall|k: int|
            0 <= k < final(program).declarations@.len() ==> (#[trigger] mdecl_view(final(program).declarations@[k])
                matches MDecl::Function(f) ==> (f.throws is Some ==> throw_free_all(f.body))),
        forall|k: int|
            0 <= k < old(program).declarations@.len() ==> (#[trigger] mdecl_view(old(program).declarations@[k])
                matches MDecl::Function(f) ==> (f.throws matches Some(t) ==> (mdecl_view(
                final(program).declarations@[k],
            ) matches MDecl::Function(g) ==> raised_all(g.body, t) == raised_all(f.body, t)))),
{
    let ghost before = mdecls_view(program.declarations@);
    let n = program.declarations.len();
    let mut i: usize = 0;
    while i < n
        invariant
            n == program.declarations@.len(),
            before.len() == n,
            i <= n,
            program.module == old(program).module,
            program.imports@ == old(program).imports@,
            program.exports@ == old(program).exports@,
            before == mdecls_view(old(program).declarations@),
            forall|k: int| 0 <= k < i ==> #[trigger] mdecl_view(program.declarations@[k]) == lr_decl(before[k]),
            forall|k: int| i <= k < n ==> #[trigger] mdecl_view(program.declarations@[k]) == before[k],
        decreases n - i,
    {
        let ghost d0 = program.declarations@[i as int];
        let throws = match &program.declarations[i] {
            MirDecl::Function(f) => f.throws,
            _ => None,
        };
        proof {
            assert(before[i as int] == mdecl_view(d0));
        }
        match throws {
            Some(err_ty) => {
                let ghost f0 = d0->Function_0;
                match &mut program.declarations[i] {
                    MirDecl::Function(f) => {
                        let new_stmts = rewrite_block(&f.body.block.stmts, err_ty);
                        f.body.block = MirBlock { stmts: new_stmts };
                    },
                    _ => {},
                }
                proof {
                    let f1 = program.declarations@[i as int]->Function_0;
                    assert(f1.body.locals == f0.body.locals);
                    assert(mstmts_view(f1.body.block.stmts@) == lr_stmts(mstmts_view(f0.body.block.stmts@), err_ty));
                    assert(mfunction_view(f1) == MFunction { body: lr_stmts(mfunction_view(f0).body, err_ty), ..mfunction_view(f0) });
                }
            },
            None => {},
        }
        proof {
            assert(mdecl_view(program.declarations@[i as int]) == lr_decl(before[i as int]));
        }
        i = i + 1;
    }
    proof {
        assert(mdecls_view(program.declarations@) =~= before.map_values(|d: MDecl| lr_decl(d)));
        assert forall|k: int| 0 <= k < program.declarations@.len() implies (#[trigger] mdecl_view(
            program.declarations@[k],
        ) matches MDecl::Function(f) ==> (f.throws is Some ==> throw_free_all(f.body))) by {
            law_lower_result_leaves_no_throw(before[k]);
        }
        assert forall|k: int| 0 <= k < old(program).declarations@.len() implies (#[trigger] mdecl_view(
            old(program).declarations@[k],
        ) matches MDecl::Function(f) ==> (f.throws matches Some(t) ==> (mdecl_view(
            program.declarations@[k],
        ) matches MDecl::Function(g) ==> raised_all(g.body, t) == raised_all(f.body, t)))) by {
            law_lower_result_keeps_raised_errors(before[k]);
        }
    }
}

/// A block with each `throw` rewritten.
fn rewrite_block(stmts: &Vec<MirStmt>, err_ty: TypeId) -> (r: Vec<MirStmt>)
    ensures
        mstmts_view(r@) == lr_stmts(mstmts_view(stmts@), err_ty),
    decreases stmts, 1nat,
{
    let ghost v = mstmts_view(stmts@);
    let mut r: Vec<MirStmt> = Vec::new();
    let mut i: usize = 0;
    proof {
        lemma_mstmts_view(stmts@);
        assert(v.take(0) =~= Seq::<MStmt>::empty());
    }
    while i < stmts.len()
        invariant
            i <= stmts@.len(),
            v == mstmts_view(stmts@),
            v.len() == stmts@.len(),
            forall|k: int| 0 <= k < stmts@.len() ==> #[trigger] v[k] == mstmt_view(stmts@[k]),
            mstmts_view(r@) == lr_stmts(v.take(i as int), err_ty),
        decreases stmts@.len() - i,
    {
        proof {
            assert(decreases_to!(stmts => stmts@[i as int]));
            assert(v.take(i as int + 1).drop_last() =~= v.take(i as int));
            assert(v.take(i as int + 1).last() == v[i as int]);
        }
        let ghost prev = r@;
        r.push(rewrite_stmt(&stmts[i], err_ty));
        proof {
            assert(r@.drop_last() =~= prev);
        }
        i = i + 1;
    }
    proof {
        assert(v.take(stmts@.len() as int) =~= v);
    }
    r
}

/// One statement with each `throw` rewritten.
fn rewrite_stmt(s: &MirStmt, err_ty: TypeId) -> (r: MirStmt)
    ensures
        r@ == lr_stmt(s@, err_ty),
    decreases s, 0nat,
{
    match s {
        MirStmt::Throw { error, .. } => MirStmt::ReturnResultErr { error: crate::mir::body::copy_mexpr(error), err_ty },
        MirStmt::If { cond, then_block, else_block } => {
            proof {
                assert(decreases_to!(s => then_block.stmts));
            }
            let t = rewrite_block(&then_block.stmts, err_ty);
            let e = match else_block {
                Some(b) => {
                    proof {
                        assert(decreases_to!(s => b.stmts));
                    }
                    Some(MirBlock { stmts: rewrite_block(&b.stmts, err_ty) })
                },
                None => None,
            };
            MirStmt::If { cond: crate::mir::body::copy_mexpr(cond), then_block: MirBlock { stmts: t }, else_block: e }
        },
        MirStmt::While { cond, body } => {
            proof {
                assert(decreases_to!(s => body.stmts));
            }
            MirStmt::While { cond: crate::mir::body::copy_mexpr(cond), body: MirBlock { stmts: rewrite_block(&body.stmts, err_ty) } }
        },
        MirStmt::ForOf { item, iterable, body } => {
            proof {
                assert(decreases_to!(s => body.stmts));
            }
            MirStmt::ForOf {
                item: *item,
                iterable: crate::mir::body::copy_mexpr(iterable),
                body: MirBlock { stmts: rewrite_block(&body.stmts, err_ty) },
            }
        },
        MirStmt::ForIn { key, object, body } => {
            proof {
                assert(decreases_to!(s => body.stmts));
            }
            MirStmt::ForIn {
                key: *key,
                object: crate::mir::body::copy_mexpr(object),
                body: MirBlock { stmts: rewrite_block(&body.stmts, err_ty) },
            }
        },
        other => copy_mstmt(other),
    }
}

/// Lowering a statement twice gives what lowering it once gives.
pub proof fn law_lr_stmt_idempotent(s: MStmt, t: TypeId)
    ensures
        lr_stmt(lr_stmt(s, t), t) == lr_stmt(s, t),
    decreases s, 0nat,
{
    match s {
        MStmt::If { then_block, else_block, .. } => {
            law_lr_stmts_idempotent(then_block, t);
            match else_block {
                Some(b) => law_lr_stmts_idempotent(b, t),
                None => {},
            }
        },
        MStmt::While { body, .. } => law_lr_stmts_idempotent(body, t),
        MStmt::ForOf { body, .. } => law_lr_stmts_idempotent(body, t),
        MStmt::ForIn { body, .. } => law_lr_stmts_idempotent(body, t),
        _ => {},
    }
}

/// Lowering a block twice gives what lowering it once gives: the lowering
/// leaves nothing for a second run to do.
pub proof fn law_lr_stmts_idempotent(s: Seq<MStmt>, t: TypeId)
    ensures
        lr_stmts(lr_stmts(s, t), t) == lr_stmts(s, t),
    decreases s, 1nat,
{
    if s.len() > 0 {
        law_lr_stmts_idempotent(s.drop_last(), t);
        law_lr_stmt_idempotent(s.last(), t);
        let p = lr_stmts(s.drop_last(), t);
        let x = lr_stmt(s.last(), t);
        assert(p.push(x).drop_last() =~= p);
    }
}

/// Running the lowering on a module twice gives what running it once gives.
pub proof fn law_lower_result_idempotent(d: MDecl)
    ensures
        lr_decl(lr_decl(d)) == lr_decl(d),
{
    match d {
        MDecl::Function(f) => match f.throws {
            Some(t) => law_lr_stmts_idempotent(f.body, t),
            None => {},
        },
        _ => {},
    }
}

/// Whether no `throw` statement occurs in a statement, at any depth of
/// branches and loop bodies.
pub open spec fn throw_free(s: MStmt) -> bool
    decreases s, 0nat,
{
    match s {
        MStmt::Throw { .. } => false,
        MStmt::If { then_block, else_block, .. } => throw_free_all(then_block) && match else_block {
            Some(b) => throw_free_all(b),
            None => true,
        },
        MStmt::While { body, .. } => throw_free_all(body),
        MStmt::ForOf { body, .. } => throw_free_all(body),
        MStmt::ForIn { body, .. } => throw_free_all(body),
        _ => true,
    }
}

/// Whether no `throw` statement occurs in any of the statements.
pub open spec fn throw_free_all(s: Seq<MStmt>) -> bool
    decreases s, 1nat,
{
    s.len() == 0 || (throw_free(s[0]) && throw_free_all(s.subrange(1, s.len() as int)))
}

proof fn lemma_throw_free_all(s: Seq<MStmt>)
    ensures
        throw_free_all(s) <==> forall|i: int| 0 <= i < s.len() ==> #[trigger] throw_free(s[i]),
    decreases s.len(),
{
    if s.len() > 0 {
        let r = s.subrange(1, s.len() as int);
        lemma_throw_free_all(r);
        assert forall|i: int| 1 <= i < s.len() implies #[trigger] s[i] == r[i - 1] by {}
        if forall|i: int| 0 <= i < s.len() ==> #[trigger] throw_free(s[i]) {
            assert forall|j: int| 0 <= j < r.len() implies #[trigger] throw_free(r[j]) by {
                assert(r[j] == s[j + 1]);
            }
            assert(throw_free(s[0]));
            assert(throw_free_all(r));
            assert(throw_free_all(s));
        }
        if throw_free_all(s) {
            assert forall|i: int| 0 <= i < s.len() implies #[trigger] throw_free(s[i]) by {
                if i > 0 {
                    assert(throw_free(r[i - 1]));
                }
            }
        }
    }
}

proof fn lemma_lr_stmt_throw_free(s: MStmt, t: TypeId)
    ensures
        throw_free(lr_stmt(s, t)),
        throw_free(s) ==> lr_stmt(s, t) == s,
    decreases s, 0nat,
{
    match s {
        MStmt::If { then_block, else_block, .. } => {
            lemma_lr_stmts_throw_free(then_block, t);
            match else_block {
                Some(b) => lemma_lr_stmts_throw_free(b, t),
                None => {},
            }
        },
        MStmt::While { body, .. } => lemma_lr_stmts_throw_free(body, t),
        MStmt::ForOf { body, .. } => lemma_lr_stmts_throw_free(body, t),
        MStmt::ForIn { body, .. } => lemma_lr_stmts_throw_free(body, t),
        _ => {},
    }
}

proof fn lemma_lr_stmts_throw_free(v: Seq<MStmt>, t: TypeId)
    ensures
        throw_free_all(lr_stmts(v, t)),
        throw_free_all(v) ==> lr_stmts(v, t) == v,
    decreases v, 1nat,
{
    lemma_lr_stmts(v, t);
    let w = lr_stmts(v, t);
    assert forall|i: int| 0 <= i < w.len() implies #[trigger] throw_free(w[i]) by {
        assert(decreases_to!(v => v[i]));
        lemma_lr_stmt_throw_free(v[i], t);
    }
    lemma_throw_free_all(w);
    lemma_throw_free_all(v);
    if throw_free_all(v) {
        assert forall|i: int| 0 <= i < v.len() implies #[trigger] w[i] == v[i] by {
            assert(decreases_to!(v => v[i]));
            lemma_lr_stmt_throw_free(v[i], t);
        }
        assert(w =~= v);
    }
}

/// The errors a statement raises, in order, at any depth of branches and
/// loop bodies: the error of each `throw`, and the error of each return of
/// an error result of type `t`.
pub open spec fn raised(s: MStmt, t: TypeId) -> Seq<MExpr>
    decreases s, 0nat,
{
    match s {
        MStmt::Throw { error, .. } => seq![error],
        MStmt::ReturnResultErr { error, err_ty } => if err_ty == t {
            seq![error]
        } else {
            Seq::empty()
        },
        MStmt::If { then_block, else_block, .. } => raised_all(then_block, t) + match else_block {
            Some(b) => raised_all(b, t),
            None => Seq::empty(),
        },
        MStmt::While { body, .. } => raised_all(body, t),
        MStmt::ForOf { body, .. } => raised_all(body, t),
        MStmt::ForIn { body, .. } => raised_all(body, t),
        _ => Seq::empty(),
    }
}

/// `raised` of each statement, concatenated in order.
pub open spec fn raised_all(v: Seq<MStmt>, t: TypeId) -> Seq<MExpr>
    decreases v, 1nat,
{
    if v.len() == 0 {
        Seq::empty()
    } else {
        raised_all(v.drop_last(), t) + raised(v.last(), t)
    }
}

proof fn lemma_lr_stmt_raised(s: MStmt, t: TypeId)
    ensures
        raised(lr_stmt(s, t), t) == raised(s, t),
    decreases s, 0nat,
{
    match s {
        MStmt::If { then_block, else_block, .. } => {
            lemma_lr_stmts_raised(then_block, t);
            match else_block {
                Some(b) => lemma_lr_stmts_raised(b, t),
                None => {},
            }
        },
        MStmt::While { body, .. } => lemma_lr_stmts_raised(body, t),
        MStmt::ForOf { body, .. } => lemma_lr_stmts_raised(body, t),
        MStmt::ForIn { body, .. } => lemma_lr_stmts_raised(body, t),
        _ => {},
    }
}

proof fn lemma_lr_stmts_raised(v: Seq<MStmt>, t: TypeId)
    ensures
        raised_all(lr_stmts(v, t), t) == raised_all(v, t),
    decreases v, 1nat,
{
    if v.len() > 0 {
        lemma_lr_stmts_raised(v.drop_last(), t);
        lemma_lr_stmt_raised(v.last(), t);
        let xs = lr_stmts(v.drop_last(), t);
        let w = xs.push(lr_stmt(v.last(), t));
        assert(w.drop_last() =~= xs);
        assert(w.last() == lr_stmt(v.last(), t));
    }
}

/// Each `throw` of a function that declares what it throws becomes, in its
/// place, a return of its own error as a result of the declared type: the
/// errors the body raises, by `throw` or by such a return, are the same
/// after the lowering as before and in the same order, and none of them is
/// raised by `throw` any more.
pub proof fn law_lower_result_keeps_raised_errors(d: MDecl)
    ensures
        d matches MDecl::Function(f) ==> (f.throws matches Some(t) ==> (lr_decl(d) matches MDecl::Function(g)
            ==> raised_all(g.body, t) == raised_all(f.body, t) && throw_free_all(g.body))),
{
    match d {
        MDecl::Function(f) => match f.throws {
            Some(t) => {
                lemma_lr_stmts_raised(f.body, t);
                lemma_lr_stmts_throw_free(f.body, t);
            },
            None => {},
        },
        _ => {},
    }
}

/// After the lowering, a function that declares what it throws has no
/// `throw` statement left anywhere in its body, at any depth of branches
/// and loop bodies; a body that had none is left exactly as it was.
pub proof fn law_lower_result_leaves_no_throw(d: MDecl)
    ensures
        lr_decl(d) matches MDecl::Function(f) ==> (f.throws is Some ==> throw_free_all(f.body)),
        d matches MDecl::Function(f) ==> (throw_free_all(f.body) ==> lr_decl(d) == d),
{
    match d {
        MDecl::Function(f) => match f.throws {
            Some(t) => lemma_lr_stmts_throw_free(f.body, t),
            None => {},
        },
        _ => {},
    }
}

} // verus!
