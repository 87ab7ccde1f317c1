//! What converting expressions and statements of the high-level IR to the
//! mid-level IR produces, written over abstract values: the state of the
//! conversion is threaded through, left to right.

use vstd::prelude::*;

use crate::diagnostics::{Diagnostic, Severity};
use crate::hir::expr::{HirBinaryOp, HirUnaryOp, SCallee, SExpr};
use crate::hir::stmt::SStmt;
use crate::ids::{FieldId, FunctionId, LocalId, StructId, SymbolId, TypeId};
use crate::mir::body::{MBase, MExpr, MPlace, MStmt};
use crate::mir::decl::MirLocalDecl;
use crate::mir::ops::{BinaryOp, RuntimeOp, UnaryOp};
use crate::passes::context::{PassContextView, pushed};
use crate::passes::hir_to_mir::converter::{ConverterView, mapped, placeholder};
use crate::passes::hir_to_mir::ops::{binop_image, binop_name, unaryop_image, unaryop_name};
use crate::span::Span;

verus! {

// ---------------------------------------------------------------------------
// Reported errors
// ---------------------------------------------------------------------------

/// An error to report: its code and its message.
pub struct Report {
    pub code: Seq<char>,
    pub message: Seq<char>,
}

/// Whether `after` is `before` with one error diagnostic per report
/// appended, at span `0..0`, and the counters unchanged.
pub open spec fn reports(before: PassContextView, after: PassContextView, ds: Seq<Report>) -> bool {
    &&& after.next_function == before.next_function
    &&& after.next_local == before.next_local
    &&& after.next_type == before.next_type
    &&& after.diagnostics.len() == before.diagnostics.len() + ds.len()
    &&& after.diagnostics.take(before.diagnostics.len() as int) == before.diagnostics
    &&& forall|k: int|
        0 <= k < ds.len() ==> Diagnostic::spec_with(
            Severity::Error,
            ds[k].code,
            ds[k].message,
            Span { start: 0, end: 0 },
            #[trigger] after.diagnostics[before.diagnostics.len() + k],
        )
}

pub proof fn lemma_reports_none(c: PassContextView)
    ensures
        reports(c, c, Seq::empty()),
{
    assert(c.diagnostics.take(c.diagnostics.len() as int) =~= c.diagnostics);
}

pub proof fn lemma_reports_trans(a: PassContextView, b: PassContextView, c: PassContextView, d1: Seq<Report>, d2: Seq<Report>)
    requires
        reports(a, b, d1),
        reports(b, c, d2),
    ensures
        reports(a, c, d1 + d2),
{
    let n = a.diagnostics.len() as int;
    let m = b.diagnostics.len() as int;
    assert(c.diagnostics.take(n) =~= a.diagnostics) by {
        assert(c.diagnostics.take(m).take(n) =~= c.diagnostics.take(n));
        assert(b.diagnostics.take(n) =~= a.diagnostics);
    }
    assert forall|k: int| 0 <= k < (d1 + d2).len() implies Diagnostic::spec_with(
        Severity::Error,
        (d1 + d2)[k].code,
        (d1 + d2)[k].message,
        Span { start: 0, end: 0 },
        #[trigger] c.diagnostics[n + k],
    ) by {
        if k < d1.len() {
            assert(c.diagnostics[n + k] == c.diagnostics.take(m)[n + k]);
            assert(b.diagnostics[n + k] == c.diagnostics[n + k]);
        } else {
            assert(c.diagnostics[m + (k - d1.len())] == c.diagnostics[n + k]);
        }
    }
}

pub proof fn lemma_reports_pushed(a: PassContextView, b: PassContextView, d: Diagnostic, code: Seq<char>, message: Seq<char>)
    requires
        pushed(a, b, d),
        Diagnostic::spec_with(Severity::Error, code, message, Span { start: 0, end: 0 }, d),
    ensures
        reports(a, b, seq![Report { code, message }]),
{
    assert(b.diagnostics.take(a.diagnostics.len() as int) =~= a.diagnostics);
    assert(b.diagnostics[a.diagnostics.len() as int] == d);
}

/// A report with code `P0005`.
pub open spec fn not_yet(message: Seq<char>) -> Report {
    Report { code: "P0005"@, message }
}

// ---------------------------------------------------------------------------
// Steps of the converter
// ---------------------------------------------------------------------------

/// The state of a conversion: the converter, the struct ids shared between
/// converters, the next struct id, and whether no counter ran out.
pub struct CState {
    pub cv: ConverterView,
    pub shared: Map<u32, u32>,
    pub next_struct: u32,
    pub ok: bool,
}

/// The state at the start of a conversion.
pub open spec fn cstate(cv: ConverterView, shared: Map<u32, u32>, next_struct: u32) -> CState {
    CState { cv, shared, next_struct, ok: true }
}

/// The state marked as having run out of a counter.
pub open spec fn spent(s: CState) -> CState {
    CState { ok: false, ..s }
}

/// A fresh local.
pub open spec fn st_fresh(s: CState) -> (CState, LocalId) {
    if s.cv.next_local < u32::MAX {
        (
            CState { cv: ConverterView { next_local: (s.cv.next_local + 1) as u32, ..s.cv }, ..s },
            LocalId(s.cv.next_local),
        )
    } else {
        (spent(s), LocalId(0))
    }
}

/// A temporary of type `ty` declared.
pub open spec fn st_temp(s: CState, id: LocalId, ty: TypeId) -> CState {
    CState {
        cv: ConverterView {
            temps: s.cv.temps.push(MirLocalDecl { id, name: SymbolId(0), ty, mutable: true }),
            ..s.cv
        },
        ..s
    }
}

/// The new id of a local of the source.
pub open spec fn st_map(s: CState, local: LocalId) -> (CState, LocalId) {
    if s.cv.locals.contains_key(local.0) || s.cv.next_local < u32::MAX {
        (CState { cv: mapped(s.cv, local).0, ..s }, mapped(s.cv, local).1)
    } else {
        (spent(s), LocalId(0))
    }
}

/// The destination and the state number of an `await`.
pub open spec fn st_await(s: CState) -> (CState, LocalId, i32) {
    if s.cv.next_local < u32::MAX && s.cv.next_state < i32::MAX {
        (
            CState {
                cv: ConverterView {
                    next_local: (s.cv.next_local + 1) as u32,
                    next_state: (s.cv.next_state + 1) as i32,
                    ..s.cv
                },
                ..s
            },
            LocalId(s.cv.next_local),
            (s.cv.next_state + 1) as i32,
        )
    } else {
        (spent(s), LocalId(0), 0)
    }
}

/// The struct id of class type `ty`.
pub open spec fn st_struct(s: CState, ty: TypeId) -> (CState, StructId) {
    if s.cv.structs.contains_key(ty.0) {
        (s, StructId(s.cv.structs[ty.0]))
    } else if s.shared.contains_key(ty.0) {
        (
            CState { cv: ConverterView { structs: s.cv.structs.insert(ty.0, s.shared[ty.0]), ..s.cv }, ..s },
            StructId(s.shared[ty.0]),
        )
    } else if s.next_struct < u32::MAX {
        (
            CState {
                cv: ConverterView { structs: s.cv.structs.insert(ty.0, s.next_struct), ..s.cv },
                shared: s.shared.insert(ty.0, s.next_struct),
                next_struct: (s.next_struct + 1) as u32,
                ok: s.ok,
            },
            StructId(s.next_struct),
        )
    } else {
        (spent(s), StructId(0))
    }
}

/// The function a call calls, and what is reported.
pub open spec fn callee_of(cv: ConverterView, c: SCallee) -> (FunctionId, Seq<Report>) {
    match c {
        SCallee::Function(f) => (
            if cv.remap.contains_key(f.0) {
                FunctionId(cv.remap[f.0])
            } else {
                f
            },
            Seq::empty(),
        ),
        SCallee::Indirect(_) => (
            placeholder(),
            seq![not_yet("indirect (computed)"@ + " callee is not yet supported in HIR→MIR"@)],
        ),
        SCallee::Closure(_) => (placeholder(), seq![not_yet("closure"@ + " callee is not yet supported in HIR→MIR"@)]),
        SCallee::Runtime { .. } => (placeholder(), seq![not_yet("runtime"@ + " callee is not yet supported in HIR→MIR"@)]),
    }
}

/// A binary operator converted, and what is reported.
pub open spec fn binop_of(op: HirBinaryOp) -> (BinaryOp, Seq<Report>) {
    match binop_image(op) {
        Some(m) => (m, Seq::empty()),
        None => (
            BinaryOp::Eq,
            seq![not_yet("binary"@ + " operator "@ + binop_name(op) + " is not yet supported in HIR→MIR"@)],
        ),
    }
}

/// A unary operator converted, and what is reported.
pub open spec fn unop_of(op: HirUnaryOp) -> (UnaryOp, Seq<Report>) {
    match unaryop_image(op) {
        Some(m) => (m, Seq::empty()),
        None => (
            UnaryOp::Not,
            seq![not_yet("unary"@ + " operator "@ + unaryop_name(op) + " is not yet supported in HIR→MIR"@)],
        ),
    }
}

// ---------------------------------------------------------------------------
// Expressions
// ---------------------------------------------------------------------------

/// What converting an expression gives: the state after it, the statements
/// it emits before the expression, the expression, and the reports.
pub struct ExprOut {
    pub st: CState,
    pub out: Seq<MStmt>,
    pub e: MExpr,
    pub ds: Seq<Report>,
}

/// What converting a list of expressions gives.
pub struct ListOut {
    pub st: CState,
    pub out: Seq<MStmt>,
    pub es: Seq<MExpr>,
    pub ds: Seq<Report>,
}

/// What converting the fields of a struct literal gives.
pub struct FieldsOut {
    pub st: CState,
    pub out: Seq<MStmt>,
    pub fs: Seq<(FieldId, MExpr)>,
    pub ds: Seq<Report>,
}

/// An expression that needs no conversion state.
pub open spec fn plain(s: CState, e: MExpr) -> ExprOut {
    ExprOut { st: s, out: Seq::empty(), e, ds: Seq::empty() }
}

/// A list of expressions converted left to right.
pub open spec fn ce_list(s: CState, es: Seq<SExpr>) -> ListOut
    decreases es, 1nat,
{
    if es.len() == 0 {
        ListOut { st: s, out: Seq::empty(), es: Seq::empty(), ds: Seq::empty() }
    } else {
        let p = ce_list(s, es.drop_last());
        let r = ce(p.st, es.last());
        ListOut { st: r.st, out: p.out + r.out, es: p.es.push(r.e), ds: p.ds + r.ds }
    }
}

/// The fields of a struct literal converted left to right.
pub open spec fn ce_fields(s: CState, fs: Seq<(FieldId, SExpr)>) -> FieldsOut
    decreases fs, 1nat,
{
    if fs.len() == 0 {
        FieldsOut { st: s, out: Seq::empty(), fs: Seq::empty(), ds: Seq::empty() }
    } else {
        let p = ce_fields(s, fs.drop_last());
        let r = ce(p.st, fs.last().1);
        FieldsOut { st: r.st, out: p.out + r.out, fs: p.fs.push((fs.last().0, r.e)), ds: p.ds + r.ds }
    }
}

/// The base of a place, with a non-place value first stored in a fresh
/// temporary.
pub open spec fn to_base(s: CState, e: MExpr) -> (CState, Seq<MStmt>, MBase)
    decreases e,
{
    match e {
        MExpr::Local(id) => (s, Seq::empty(), MBase::Local(id)),
        MExpr::Field { base, field, ty } => {
            let (s1, out, b) = to_base(s, *base);
            (s1, out, MBase::Field { base: Box::new(b), field, ty })
        },
        MExpr::Index { base, index, ty } => (s, Seq::empty(), MBase::Index { base, index, ty }),
        _ => {
            let (s1, t) = st_fresh(s);
            let s2 = st_temp(s1, t, TypeId(0));
            (s2, seq![MStmt::Let { local: t, ty: TypeId(0), init: Some(e), mutable: false }], MBase::Local(t))
        },
    }
}

/// The place an assignment writes, or `None` with an error.
pub open spec fn to_place(s: CState, e: MExpr) -> (CState, Seq<MStmt>, Option<MPlace>, Seq<Report>) {
    match e {
        MExpr::Local(id) => (s, Seq::empty(), Some(MPlace::Local { id }), Seq::empty()),
        MExpr::Field { base, field, ty } => {
            let (s1, out, b) = to_base(s, *base);
            (s1, out, Some(MPlace::Field { base: Box::new(b), field, ty }), Seq::empty())
        },
        MExpr::Index { base, index, ty } => (s, Seq::empty(), Some(MPlace::Index { base, index, ty }), Seq::empty()),
        _ => (
            s,
            Seq::empty(),
            None,
            seq![Report { code: "P0006"@, message: "expression is not a valid assignment target"@ }],
        ),
    }
}

/// An expression converted: the statements it needs come first, in the
/// order in which its parts are converted.
pub open spec fn ce(s: CState, e: SExpr) -> ExprOut
    decreases e, 1nat,
{
    if !s.ok {
        plain(s, MExpr::Unit)
    } else {
        match e {
            SExpr::Unit => plain(s, MExpr::Unit),
            SExpr::Bool(b) => plain(s, MExpr::Bool(b)),
            SExpr::Int(v) => plain(s, MExpr::Int { value: v as i128, ty: TypeId(0) }),
            SExpr::Float(bits) => plain(s, MExpr::Float { value: bits, ty: TypeId(0) }),
            SExpr::String(id) => plain(s, MExpr::String { id, ty: TypeId(0) }),
            SExpr::Null => plain(s, MExpr::Null { ty: TypeId(0) }),
            SExpr::Undefined => plain(s, MExpr::Unit),
            SExpr::Local { id, .. } => plain(st_map(s, id).0, MExpr::Local(st_map(s, id).1)),
            SExpr::Global { name, .. } => plain(s, MExpr::Global(name)),
            SExpr::Closure { .. } => ExprOut {
                st: s,
                out: Seq::empty(),
                e: MExpr::Unit,
                ds: seq![not_yet("closure expressions are not yet supported in HIR→MIR"@)],
            },
            SExpr::TypeAssertion { expr, .. } => ce(s, *expr),
            _ => ce_compound(s, e),
        }
    }
}

/// Whether a conversion from `before` ended in `after`, appended its
/// statements to `out0` giving `out1`, gave `e`, and reported what it says.
pub open spec fn expr_done(
    r: ExprOut,
    after: CState,
    out0: Seq<MStmt>,
    out1: Seq<MStmt>,
    e: MExpr,
    c0: PassContextView,
    c1: PassContextView,
) -> bool {
    &&& r.st == after
    &&& out1 == out0 + r.out
    &&& e == r.e
    &&& reports(c0, c1, r.ds)
}

/// The conversion of the expressions with parts.
pub open spec fn ce_compound(s: CState, e: SExpr) -> ExprOut
    decreases e, 0nat,
{
    match e {
        SExpr::Field { owner, field, ty, .. } => {
            let r = ce(s, *owner);
            ExprOut { e: MExpr::Field { base: Box::new(r.e), field, ty }, ..r }
        },
        SExpr::Index { owner, index, ty } => {
            let r1 = ce(s, *owner);
            let r2 = ce(r1.st, *index);
            ExprOut {
                st: r2.st,
                out: r1.out + r2.out,
                e: MExpr::Index { base: Box::new(r1.e), index: Box::new(r2.e), ty },
                ds: r1.ds + r2.ds,
            }
        },
        SExpr::Call { callee, args, ty } => {
            let (f, d0) = callee_of(s.cv, callee);
            let l = ce_list(s, args);
            ExprOut { st: l.st, out: l.out, e: MExpr::Call { callee: f, args: l.es, ty }, ds: d0 + l.ds }
        },
        SExpr::Binary { op, lhs, rhs, ty } => {
            let (m, d0) = binop_of(op);
            let r1 = ce(s, *lhs);
            let r2 = ce(r1.st, *rhs);
            ExprOut {
                st: r2.st,
                out: r1.out + r2.out,
                e: MExpr::Binary { op: m, left: Box::new(r1.e), right: Box::new(r2.e), ty },
                ds: d0 + r1.ds + r2.ds,
            }
        },
        SExpr::Unary { op, expr, ty } => {
            let (m, d0) = unop_of(op);
            let r = ce(s, *expr);
            ExprOut { st: r.st, out: r.out, e: MExpr::Unary { op: m, expr: Box::new(r.e), ty }, ds: d0 + r.ds }
        },
        SExpr::StructLiteral { ty, fields } => {
            let (s1, sid) = st_struct(s, ty);
            let f = ce_fields(s1, fields);
            ExprOut { st: f.st, out: f.out, e: MExpr::StructLiteral { struct_id: sid, fields: f.fs, ty }, ds: f.ds }
        },
        SExpr::ArrayLiteral { elements, ty } => {
            let l = ce_list(s, elements);
            let (s1, dest) = st_fresh(l.st);
            ExprOut {
                st: st_temp(s1, dest, ty),
                out: l.out.push(MStmt::Runtime { op: RuntimeOp::ArrayCreate, args: l.es, dest: Some(dest), ty }),
                e: MExpr::Local(dest),
                ds: l.ds,
            }
        },
        SExpr::Await { expr, ty } => {
            let (s1, dest, ns) = st_await(s);
            let r = ce(st_temp(s1, dest, ty), *expr);
            ExprOut {
                st: r.st,
                out: r.out.push(MStmt::Await { promise: r.e, dest, next_state: ns, ty }),
                e: MExpr::Local(dest),
                ds: r.ds,
            }
        },
        SExpr::Yield { expr, ty } => {
            let (s1, dest) = st_fresh(s);
            let s2 = st_temp(s1, dest, ty);
            let r = match expr {
                Some(b) => ce(s2, *b),
                None => plain(s2, MExpr::Unit),
            };
            ExprOut {
                st: r.st,
                out: r.out + seq![
                    MStmt::Let { local: dest, ty, init: None, mutable: true },
                    MStmt::Assign { target: MPlace::Local { id: dest }, value: r.e },
                    MStmt::SetState { value: -1i32 },
                    MStmt::Expr(MExpr::Local(dest)),
                ],
                e: MExpr::Local(dest),
                ds: r.ds,
            }
        },
        SExpr::Template { parts, ty, .. } => {
            let l = ce_list(s, parts);
            let (s1, dest) = st_fresh(l.st);
            ExprOut {
                st: st_temp(s1, dest, ty),
                out: l.out.push(MStmt::Runtime { op: RuntimeOp::StringConcat, args: l.es, dest: Some(dest), ty }),
                e: MExpr::Local(dest),
                ds: l.ds,
            }
        },
        SExpr::New { callee, args, ty } => {
            let r = ce(s, *callee);
            let (s1, sid) = st_struct(r.st, ty);
            let (s2, alloc) = st_fresh(s1);
            let s3 = st_temp(s2, alloc, ty);
            let l = ce_list(s3, args);
            ExprOut {
                st: l.st,
                out: r.out + seq![
                    MStmt::Expr(r.e),
                    MStmt::Let {
                        local: alloc,
                        ty,
                        init: Some(MExpr::StructLiteral { struct_id: sid, fields: Seq::empty(), ty }),
                        mutable: true,
                    },
                ] + l.out + seq![
                    MStmt::Expr(MExpr::Call { callee: placeholder(), args: seq![MExpr::Local(alloc)] + l.es, ty }),
                ],
                e: MExpr::Local(alloc),
                ds: r.ds + l.ds,
            }
        },
        SExpr::OptionalChain { base, .. } => {
            let r = ce(s, *base);
            ExprOut {
                st: r.st,
                out: r.out,
                e: MExpr::Unit,
                ds: seq![not_yet("optional chaining (?.) is not yet supported in HIR→MIR"@)] + r.ds,
            }
        },
        SExpr::Assignment { target, value, .. } => {
            let r1 = ce(s, *target);
            let (s1, pout, place, pds) = to_place(r1.st, r1.e);
            let r2 = ce(s1, *value);
            ExprOut {
                st: r2.st,
                out: r1.out + pout + r2.out + match place {
                    Some(p) => seq![MStmt::Assign { target: p, value: r2.e }],
                    None => Seq::empty(),
                },
                e: r2.e,
                ds: r1.ds + pds + r2.ds,
            }
        },
        _ => plain(s, MExpr::Unit),
    }
}

// ---------------------------------------------------------------------------
// Statements
// ---------------------------------------------------------------------------

/// What converting a statement gives: the state after it, its statements,
/// the locals it declares, and the reports.
pub struct StmtOut {
    pub st: CState,
    pub out: Seq<MStmt>,
    pub locals: Seq<MirLocalDecl>,
    pub ds: Seq<Report>,
}

/// The `break` and `continue` statements of a loop body rewritten for the
/// loop that wraps it: at the top level (`top`), `continue` leaves the inner
/// loop and `break` first sets the flag `flag`; nested loops keep theirs.
pub open spec fn rbc(s: Seq<MStmt>, flag: LocalId, top: bool) -> Seq<MStmt>
    decreases s, 0nat,
{
    if s.len() == 0 {
        Seq::empty()
    } else {
        rbc(s.drop_last(), flag, top) + rbc_one(s.last(), flag, top)
    }
}

/// One statement rewritten as `rbc` says.
pub open spec fn rbc_one(st: MStmt, flag: LocalId, top: bool) -> Seq<MStmt>
    decreases st, 0nat,
{
    match st {
        MStmt::Continue => if top {
            seq![MStmt::Break]
        } else {
            seq![MStmt::Continue]
        },
        MStmt::Break => if top {
            seq![MStmt::Assign { target: MPlace::Local { id: flag }, value: MExpr::Bool(true) }, MStmt::Break]
        } else {
            seq![MStmt::Break]
        },
        MStmt::While { cond, body } => seq![MStmt::While { cond, body: rbc(body, flag, false) }],
        MStmt::If { cond, then_block, else_block } => seq![
            MStmt::If {
                cond,
                then_block: rbc(then_block, flag, top),
                else_block: match else_block {
                    Some(b) => Some(rbc(b, flag, top)),
                    None => None,
                },
            },
        ],
        MStmt::ForOf { item, iterable, body } => seq![MStmt::ForOf { item, iterable, body: rbc(body, flag, false) }],
        MStmt::ForIn { key, object, body } => seq![MStmt::ForIn { key, object, body: rbc(body, flag, false) }],
        other => seq![other],
    }
}

/// A local declared by the lowering of a loop.
pub open spec fn loop_local(id: LocalId, mutable: bool) -> MirLocalDecl {
    MirLocalDecl { id, name: SymbolId(0), ty: TypeId(0), mutable }
}

/// A statement with no conversion state.
pub open spec fn no_stmt(s: CState) -> StmtOut {
    StmtOut { st: s, out: Seq::empty(), locals: Seq::empty(), ds: Seq::empty() }
}

/// A list of statements converted in order.
pub open spec fn cs_list(s: CState, ss: Seq<SStmt>) -> StmtOut
    decreases ss, 0nat,
{
    if ss.len() == 0 {
        no_stmt(s)
    } else {
        let p = cs_list(s, ss.drop_last());
        let r = cs(p.st, ss.last());
        StmtOut { st: r.st, out: p.out + r.out, locals: p.locals + r.locals, ds: p.ds + r.ds }
    }
}

/// An optional expression converted.
pub open spec fn ce_opt(s: CState, o: Option<SExpr>) -> (ExprOut, bool) {
    match o {
        Some(e) => (ce(s, e), true),
        None => (plain(s, MExpr::Unit), false),
    }
}

/// Whether a statement's conversion from `before` ended in `after`,
/// appended its statements and locals, and reported what it says.
pub open spec fn stmt_done(
    r: StmtOut,
    after: CState,
    out0: Seq<MStmt>,
    out1: Seq<MStmt>,
    l0: Seq<MirLocalDecl>,
    l1: Seq<MirLocalDecl>,
    c0: PassContextView,
    c1: PassContextView,
) -> bool {
    &&& r.st == after
    &&& out1 == out0 + r.out
    &&& l1 == l0 + r.locals
    &&& reports(c0, c1, r.ds)
}

/// A statement converted.
pub open spec fn cs(s: CState, st: SStmt) -> StmtOut
    decreases st, 1nat,
{
    if !s.ok {
        no_stmt(s)
    } else {
        match st {
            SStmt::Block(stmts) => cs_list(s, stmts),
            SStmt::Expr { expr } => {
                let r = ce(s, expr);
                StmtOut { st: r.st, out: r.out.push(MStmt::Expr(r.e)), locals: Seq::empty(), ds: r.ds }
            },
            SStmt::Switch { .. } => StmtOut {
                ds: seq![not_yet("switch statement is not yet implemented in HIR→MIR"@)],
                ..no_stmt(s)
            },
            SStmt::Return { value } => match value {
                Some(e) => {
                    let r = ce(s, e);
                    StmtOut { st: r.st, out: r.out.push(MStmt::Return(Some(r.e))), locals: Seq::empty(), ds: r.ds }
                },
                None => StmtOut { out: seq![MStmt::Return(None)], ..no_stmt(s) },
            },
            SStmt::Break { .. } => StmtOut { out: seq![MStmt::Break], ..no_stmt(s) },
            SStmt::Continue { .. } => StmtOut { out: seq![MStmt::Continue], ..no_stmt(s) },
            SStmt::Throw { expr } => {
                let r = ce(s, expr);
                StmtOut {
                    st: r.st,
                    out: r.out.push(MStmt::Throw { error: r.e, error_ty: TypeId(0) }),
                    locals: Seq::empty(),
                    ds: r.ds,
                }
            },
            SStmt::Try { .. } => StmtOut {
                ds: seq![not_yet("try statement is not yet implemented in HIR→MIR"@)],
                ..no_stmt(s)
            },
            SStmt::Decl(_) => no_stmt(s),
            _ => cs_compound(s, st),
        }
    }
}

/// The conversion of declarations of locals, branches and loops.
pub open spec fn cs_compound(s: CState, st: SStmt) -> StmtOut
    decreases st, 0nat,
{
    match st {
        SStmt::Let { id, name, ty, init } => {
            let (s1, n) = st_map(s, id);
            let s2 = CState { cv: ConverterView { names: s1.cv.names.insert(n.0, name.0), ..s1.cv }, ..s1 };
            let (r, has) = match init {
                Some(e) => (ce(s2, e), true),
                None => (plain(s2, MExpr::Unit), false),
            };
            StmtOut {
                st: r.st,
                out: r.out.push(
                    MStmt::Let {
                        local: n,
                        ty,
                        init: if has {
                            Some(r.e)
                        } else {
                            None
                        },
                        mutable: false,
                    },
                ),
                locals: seq![MirLocalDecl { id: n, name, ty, mutable: false }],
                ds: r.ds,
            }
        },
        SStmt::If { cond, then, otherwise } => {
            let r = ce(s, cond);
            let t = cs(r.st, *then);
            match otherwise {
                Some(o) => {
                    let el = cs(t.st, *o);
                    StmtOut {
                        st: el.st,
                        out: r.out.push(MStmt::If { cond: r.e, then_block: t.out, else_block: Some(el.out) }),
                        locals: t.locals + el.locals,
                        ds: r.ds + t.ds + el.ds,
                    }
                },
                None => StmtOut {
                    st: t.st,
                    out: r.out.push(MStmt::If { cond: r.e, then_block: t.out, else_block: None }),
                    locals: t.locals,
                    ds: r.ds + t.ds,
                },
            }
        },
        SStmt::While { cond, body } => {
            let r = ce(s, cond);
            let b = cs(r.st, *body);
            let (s1, flag) = st_fresh(b.st);
            let inner = rbc(b.out, flag, true).push(MStmt::Break);
            let loop_body = seq![
                MStmt::While { cond: MExpr::Bool(true), body: inner },
                MStmt::If { cond: MExpr::Local(flag), then_block: seq![MStmt::Break], else_block: None },
            ] + r.out;
            StmtOut {
                st: s1,
                out: r.out + seq![
                    MStmt::Let { local: flag, ty: TypeId(0), init: Some(MExpr::Bool(false)), mutable: true },
                    MStmt::While { cond: r.e, body: loop_body },
                ],
                locals: b.locals.push(loop_local(flag, true)),
                ds: r.ds + b.ds,
            }
        },
        SStmt::DoWhile { body, cond } => {
            let b = cs(s, *body);
            let r = ce(b.st, cond);
            let (s1, first) = st_fresh(r.st);
            let (s2, flag) = st_fresh(s1);
            let inner = seq![MStmt::Assign { target: MPlace::Local { id: first }, value: MExpr::Bool(false) }]
                + rbc(b.out, flag, true).push(MStmt::Break);
            let continue_cond = MExpr::Binary {
                op: BinaryOp::Or,
                left: Box::new(MExpr::Local(first)),
                right: Box::new(r.e),
                ty: TypeId(0),
            };
            let loop_body = seq![
                MStmt::While { cond: MExpr::Bool(true), body: inner },
                MStmt::If { cond: MExpr::Local(flag), then_block: seq![MStmt::Break], else_block: None },
            ] + r.out;
            StmtOut {
                st: s2,
                out: seq![
                    MStmt::Let { local: first, ty: TypeId(0), init: Some(MExpr::Bool(true)), mutable: true },
                    MStmt::Let { local: flag, ty: TypeId(0), init: Some(MExpr::Bool(false)), mutable: true },
                    MStmt::While { cond: continue_cond, body: loop_body },
                ],
                locals: b.locals.push(loop_local(first, true)).push(loop_local(flag, true)),
                ds: b.ds + r.ds,
            }
        },
        SStmt::ForOf { binding, iter, body } => {
            let r = ce(s, iter);
            let (s1, nb) = st_map(r.st, binding);
            let b = cs(s1, *body);
            StmtOut {
                st: b.st,
                out: r.out.push(MStmt::ForOf { item: nb, iterable: r.e, body: b.out }),
                locals: seq![loop_local(nb, false)] + b.locals,
                ds: r.ds + b.ds,
            }
        },
        SStmt::ForIn { binding, iter, body } => {
            let r = ce(s, iter);
            let (s1, nb) = st_map(r.st, binding);
            let b = cs(s1, *body);
            StmtOut {
                st: b.st,
                out: r.out.push(MStmt::ForIn { key: nb, object: r.e, body: b.out }),
                locals: seq![loop_local(nb, false)] + b.locals,
                ds: r.ds + b.ds,
            }
        },
        _ => no_stmt(s),
    }
}

// ---------------------------------------------------------------------------
// Running out of counters
// ---------------------------------------------------------------------------

/// A conversion that ends with its counters in range began with them in range.
pub proof fn lemma_ce_ok(s: CState, e: SExpr)
    ensures
        ce(s, e).st.ok ==> s.ok,
{
}

pub proof fn lemma_cs_ok(s: CState, st: SStmt)
    ensures
        cs(s, st).st.ok ==> s.ok,
{
}

pub proof fn lemma_ce_list_ok(s: CState, es: Seq<SExpr>)
    ensures
        ce_list(s, es).st.ok ==> s.ok,
    decreases es.len(),
{
    if es.len() > 0 {
        lemma_ce_list_ok(s, es.drop_last());
        lemma_ce_ok(ce_list(s, es.drop_last()).st, es.last());
    }
}

pub proof fn lemma_ce_fields_ok(s: CState, fs: Seq<(FieldId, SExpr)>)
    ensures
        ce_fields(s, fs).st.ok ==> s.ok,
    decreases fs.len(),
{
    if fs.len() > 0 {
        lemma_ce_fields_ok(s, fs.drop_last());
        lemma_ce_ok(ce_fields(s, fs.drop_last()).st, fs.last().1);
    }
}

pub proof fn lemma_cs_list_ok(s: CState, ss: Seq<SStmt>)
    ensures
        cs_list(s, ss).st.ok ==> s.ok,
    decreases ss.len(),
{
    if ss.len() > 0 {
        lemma_cs_list_ok(s, ss.drop_last());
        lemma_cs_ok(cs_list(s, ss.drop_last()).st, ss.last());
    }
}

pub proof fn lemma_to_base_ok(s: CState, e: MExpr)
    ensures
        to_base(s, e).0.ok ==> s.ok,
    decreases e,
{
    match e {
        MExpr::Field { base, .. } => lemma_to_base_ok(s, *base),
        _ => {},
    }
}

} // verus!
