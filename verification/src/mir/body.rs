//! Function bodies of the mid-level IR: blocks, statements, places and
//! expressions.

use vstd::prelude::*;

use crate::ids::{FieldId, FunctionId, LocalId, StringId, StructId, SymbolId, TypeId};
use crate::mir::decl::MirLocalDecl;
use crate::mir::ops::{BinaryOp, RuntimeOp, UnaryOp};

verus! {

/// A sequence of statements.
#[derive(Debug, Default, PartialEq)]
pub struct MirBlock {
    pub stmts: Vec<MirStmt>,
}

/// The locals and the statements of a function.
#[derive(Debug, Default, PartialEq)]
pub struct MirBody {
    pub locals: Vec<MirLocalDecl>,
    pub block: MirBlock,
}

/// A statement.
#[derive(Debug, PartialEq)]
pub enum MirStmt {
    Let { local: LocalId, ty: TypeId, init: Option<MirExpr>, mutable: bool },
    Assign { target: MirPlace, value: MirExpr },
    Expr(MirExpr),
    Return(Option<MirExpr>),
    ReturnResultErr { error: MirExpr, err_ty: TypeId },
    Throw { error: MirExpr, error_ty: TypeId },
    If { cond: MirExpr, then_block: MirBlock, else_block: Option<MirBlock> },
    While { cond: MirExpr, body: MirBlock },
    ForOf { item: LocalId, iterable: MirExpr, body: MirBlock },
    ForIn { key: LocalId, object: MirExpr, body: MirBlock },
    Break,
    Continue,
    Runtime { op: RuntimeOp, args: Vec<MirExpr>, dest: Option<LocalId>, ty: TypeId },
    Await { promise: MirExpr, dest: LocalId, next_state: i32, ty: TypeId },
    SetState { value: i32 },
}

/// Something that can be assigned to.
#[derive(Debug, PartialEq)]
pub enum MirPlace {
    Local { id: LocalId },
    Field { base: Box<MirPlaceBase>, field: FieldId, ty: TypeId },
    Index { base: Box<MirExpr>, index: Box<MirExpr>, ty: TypeId },
}

/// What a field of a place is taken from.
#[derive(Debug, PartialEq)]
pub enum MirPlaceBase {
    Local(LocalId),
    Field { base: Box<MirPlaceBase>, field: FieldId, ty: TypeId },
    Index { base: Box<MirExpr>, index: Box<MirExpr>, ty: TypeId },
}

/// An expression; a float literal is held as the bits of its `f64` value.
#[derive(Debug, PartialEq)]
pub enum MirExpr {
    Unit,
    Bool(bool),
    Int { value: i128, ty: TypeId },
    Float { value: u64, ty: TypeId },
    String { id: StringId, ty: TypeId },
    Null { ty: TypeId },
    Local(LocalId),
    Global(SymbolId),
    Field { base: Box<MirExpr>, field: FieldId, ty: TypeId },
    Index { base: Box<MirExpr>, index: Box<MirExpr>, ty: TypeId },
    Call { callee: FunctionId, args: Vec<MirExpr>, ty: TypeId },
    StructLiteral { struct_id: StructId, fields: Vec<(FieldId, MirExpr)>, ty: TypeId },
    ResultOk { value: Box<MirExpr>, ty: TypeId },
    ResultErr { error: Box<MirExpr>, ty: TypeId },
    Binary { op: BinaryOp, left: Box<MirExpr>, right: Box<MirExpr>, ty: TypeId },
    Unary { op: UnaryOp, expr: Box<MirExpr>, ty: TypeId },
}

// ---------------------------------------------------------------------------
// Abstract values
// ---------------------------------------------------------------------------

/// The abstract value of an expression.
pub enum MExpr {
    Unit,
    Bool(bool),
    Int { value: i128, ty: TypeId },
    Float { value: u64, ty: TypeId },
    String { id: StringId, ty: TypeId },
    Null { ty: TypeId },
    Local(LocalId),
    Global(SymbolId),
    Field { base: Box<MExpr>, field: FieldId, ty: TypeId },
    Index { base: Box<MExpr>, index: Box<MExpr>, ty: TypeId },
    Call { callee: FunctionId, args: Seq<MExpr>, ty: TypeId },
    StructLiteral { struct_id: StructId, fields: Seq<(FieldId, MExpr)>, ty: TypeId },
    ResultOk { value: Box<MExpr>, ty: TypeId },
    ResultErr { error: Box<MExpr>, ty: TypeId },
    Binary { op: BinaryOp, left: Box<MExpr>, right: Box<MExpr>, ty: TypeId },
    Unary { op: UnaryOp, expr: Box<MExpr>, ty: TypeId },
}

/// The abstract value of a place base.
pub enum MBase {
    Local(LocalId),
    Field { base: Box<MBase>, field: FieldId, ty: TypeId },
    Index { base: Box<MExpr>, index: Box<MExpr>, ty: TypeId },
}

/// The abstract value of a place.
pub enum MPlace {
    Local { id: LocalId },
    Field { base: Box<MBase>, field: FieldId, ty: TypeId },
    Index { base: Box<MExpr>, index: Box<MExpr>, ty: TypeId },
}

/// The abstract value of a statement; blocks are sequences of statements.
pub enum MStmt {
    Let { local: LocalId, ty: TypeId, init: Option<MExpr>, mutable: bool },
    Assign { target: MPlace, value: MExpr },
    Expr(MExpr),
    Return(Option<MExpr>),
    ReturnResultErr { error: MExpr, err_ty: TypeId },
    Throw { error: MExpr, error_ty: TypeId },
    If { cond: MExpr, then_block: Seq<MStmt>, else_block: Option<Seq<MStmt>> },
    While { cond: MExpr, body: Seq<MStmt> },
    ForOf { item: LocalId, iterable: MExpr, body: Seq<MStmt> },
    ForIn { key: LocalId, object: MExpr, body: Seq<MStmt> },
    Break,
    Continue,
    Runtime { op: RuntimeOp, args: Seq<MExpr>, dest: Option<LocalId>, ty: TypeId },
    Await { promise: MExpr, dest: LocalId, next_state: i32, ty: TypeId },
    SetState { value: i32 },
}

/// The abstract values of a list of expressions.
pub open spec fn mexprs_view(s: Seq<MirExpr>) -> Seq<MExpr>
    decreases s, 0nat,
{
    if s.len() == 0 {
        Seq::empty()
    } else {
        mexprs_view(s.drop_last()).push(mexpr_view(s.last()))
    }
}

/// The abstract values of the fields of a struct literal.
pub open spec fn mfields_view(s: Seq<(FieldId, MirExpr)>) -> Seq<(FieldId, MExpr)>
    decreases s, 0nat,
{
    if s.len() == 0 {
        Seq::empty()
    } else {
        mfields_view(s.drop_last()).push((s.last().0, mexpr_view(s.last().1)))
    }
}

/// The abstract value of an expression.
pub open spec fn mexpr_view(e: MirExpr) -> MExpr
    decreases e, 0nat,
{
    match e {
        MirExpr::Unit => MExpr::Unit,
        MirExpr::Bool(b) => MExpr::Bool(b),
        MirExpr::Int { value, ty } => MExpr::Int { value, ty },
        MirExpr::Float { value, ty } => MExpr::Float { value, ty },
        MirExpr::String { id, ty } => MExpr::String { id, ty },
        MirExpr::Null { ty } => MExpr::Null { ty },
        MirExpr::Local(l) => MExpr::Local(l),
        MirExpr::Global(g) => MExpr::Global(g),
        MirExpr::Field { base, field, ty } => MExpr::Field { base: Box::new(mexpr_view(*base)), field, ty },
        MirExpr::Index { base, index, ty } =>
            MExpr::Index { base: Box::new(mexpr_view(*base)), index: Box::new(mexpr_view(*index)), ty },
        MirExpr::Call { callee, args, ty } => MExpr::Call { callee, args: mexprs_view(args@), ty },
        MirExpr::StructLiteral { struct_id, fields, ty } =>
            MExpr::StructLiteral { struct_id, fields: mfields_view(fields@), ty },
        MirExpr::ResultOk { value, ty } => MExpr::ResultOk { value: Box::new(mexpr_view(*value)), ty },
        MirExpr::ResultErr { error, ty } => MExpr::ResultErr { error: Box::new(mexpr_view(*error)), ty },
        MirExpr::Binary { op, left, right, ty } =>
            MExpr::Binary { op, left: Box::new(mexpr_view(*left)), right: Box::new(mexpr_view(*right)), ty },
        MirExpr::Unary { op, expr, ty } => MExpr::Unary { op, expr: Box::new(mexpr_view(*expr)), ty },
    }
}

/// The abstract value of a place base.
pub open spec fn mbase_view(b: MirPlaceBase) -> MBase
    decreases b,
{
    match b {
        MirPlaceBase::Local(l) => MBase::Local(l),
        MirPlaceBase::Field { base, field, ty } => MBase::Field { base: Box::new(mbase_view(*base)), field, ty },
        MirPlaceBase::Index { base, index, ty } =>
            MBase::Index { base: Box::new(mexpr_view(*base)), index: Box::new(mexpr_view(*index)), ty },
    }
}

/// The abstract value of a place.
pub open spec fn mplace_view(p: MirPlace) -> MPlace {
    match p {
        MirPlace::Local { id } => MPlace::Local { id },
        MirPlace::Field { base, field, ty } => MPlace::Field { base: Box::new(mbase_view(*base)), field, ty },
        MirPlace::Index { base, index, ty } =>
            MPlace::Index { base: Box::new(mexpr_view(*base)), index: Box::new(mexpr_view(*index)), ty },
    }
}

/// The abstract value of an optional expression.
pub open spec fn mopt_view(o: Option<MirExpr>) -> Option<MExpr> {
    match o {
        Some(e) => Some(mexpr_view(e)),
        None => None,
    }
}

/// The abstract values of a list of statements.
pub open spec fn mstmts_view(s: Seq<MirStmt>) -> Seq<MStmt>
    decreases s, 0nat,
{
    if s.len() == 0 {
        Seq::empty()
    } else {
        mstmts_view(s.drop_last()).push(mstmt_view(s.last()))
    }
}

/// The abstract value of a statement.
pub open spec fn mstmt_view(s: MirStmt) -> MStmt
    decreases s, 0nat,
{
    match s {
        MirStmt::Let { local, ty, init, mutable } => MStmt::Let {
            local,
            ty,
            init: match init {
                Some(e) => Some(mexpr_view(e)),
                None => None,
            },
            mutable,
        },
        MirStmt::Assign { target, value } => MStmt::Assign { target: mplace_view(target), value: mexpr_view(value) },
        MirStmt::Expr(e) => MStmt::Expr(mexpr_view(e)),
        MirStmt::Return(v) => MStmt::Return(
            match v {
                Some(e) => Some(mexpr_view(e)),
                None => None,
            },
        ),
        MirStmt::ReturnResultErr { error, err_ty } => MStmt::ReturnResultErr { error: mexpr_view(error), err_ty },
        MirStmt::Throw { error, error_ty } => MStmt::Throw { error: mexpr_view(error), error_ty },
        MirStmt::If { cond, then_block, else_block } => MStmt::If {
            cond: mexpr_view(cond),
            then_block: mstmts_view(then_block.stmts@),
            else_block: match else_block {
                Some(b) => Some(mstmts_view(b.stmts@)),
                None => None,
            },
        },
        MirStmt::While { cond, body } => MStmt::While { cond: mexpr_view(cond), body: mstmts_view(body.stmts@) },
        MirStmt::ForOf { item, iterable, body } =>
            MStmt::ForOf { item, iterable: mexpr_view(iterable), body: mstmts_view(body.stmts@) },
        MirStmt::ForIn { key, object, body } =>
            MStmt::ForIn { key, object: mexpr_view(object), body: mstmts_view(body.stmts@) },
        MirStmt::Break => MStmt::Break,
        MirStmt::Continue => MStmt::Continue,
        MirStmt::Runtime { op, args, dest, ty } => MStmt::Runtime { op, args: mexprs_view(args@), dest, ty },
        MirStmt::Await { promise, dest, next_state, ty } =>
            MStmt::Await { promise: mexpr_view(promise), dest, next_state, ty },
        MirStmt::SetState { value } => MStmt::SetState { value },
    }
}

impl View for MirExpr {
    type V = MExpr;

    open spec fn view(&self) -> MExpr {
        mexpr_view(*self)
    }
}

impl View for MirStmt {
    type V = MStmt;

    open spec fn view(&self) -> MStmt {
        mstmt_view(*self)
    }
}

impl View for MirBlock {
    type V = Seq<MStmt>;

    open spec fn view(&self) -> Seq<MStmt> {
        mstmts_view(self.stmts@)
    }
}

/// The view of a list of expressions lists the views of its elements.
pub broadcast proof fn lemma_mexprs_view(s: Seq<MirExpr>)
    ensures
        #[trigger] mexprs_view(s).len() == s.len(),
        forall|i: int| 0 <= i < s.len() ==> #[trigger] mexprs_view(s)[i] == mexpr_view(s[i]),
    decreases s.len(),
{
    if s.len() > 0 {
        lemma_mexprs_view(s.drop_last());
    }
}

/// The view of the fields of a struct literal lists the views of its fields.
pub broadcast proof fn lemma_mfields_view(s: Seq<(FieldId, MirExpr)>)
    ensures
        #[trigger] mfields_view(s).len() == s.len(),
        forall|i: int| 0 <= i < s.len() ==> #[trigger] mfields_view(s)[i] == (s[i].0, mexpr_view(s[i].1)),
    decreases s.len(),
{
    if s.len() > 0 {
        lemma_mfields_view(s.drop_last());
    }
}

/// The view of a list of statements lists the views of its elements.
pub broadcast proof fn lemma_mstmts_view(s: Seq<MirStmt>)
    ensures
        #[trigger] mstmts_view(s).len() == s.len(),
        forall|i: int| 0 <= i < s.len() ==> #[trigger] mstmts_view(s)[i] == mstmt_view(s[i]),
    decreases s.len(),
{
    if s.len() > 0 {
        lemma_mstmts_view(s.drop_last());
    }
}

/// The view of two lists of statements one after the other.
pub proof fn lemma_mstmts_view_concat(a: Seq<MirStmt>, b: Seq<MirStmt>)
    ensures
        mstmts_view(a + b) == mstmts_view(a) + mstmts_view(b),
{
    broadcast use lemma_mstmts_view;

    assert(mstmts_view(a + b) =~= mstmts_view(a) + mstmts_view(b));
}

/// The view of two lists of expressions one after the other.
pub proof fn lemma_mexprs_view_concat(a: Seq<MirExpr>, b: Seq<MirExpr>)
    ensures
        mexprs_view(a + b) == mexprs_view(a) + mexprs_view(b),
{
    broadcast use lemma_mexprs_view;

    assert(mexprs_view(a + b) =~= mexprs_view(a) + mexprs_view(b));
}

// ---------------------------------------------------------------------------
// Blocks
// ---------------------------------------------------------------------------

impl MirBlock {
    /// An empty block.
    pub fn new() -> (b: Self)
        ensures
            b@ == Seq::<MStmt>::empty(),
    {
        MirBlock { stmts: Vec::new() }
    }

    /// A block of one statement.
    pub fn with(stmt: MirStmt) -> (b: Self)
        ensures
            b@ == seq![stmt@],
    {
        let mut stmts: Vec<MirStmt> = Vec::new();
        stmts.push(stmt);
        proof {
            broadcast use lemma_mstmts_view;
            assert(mstmts_view(stmts@) =~= seq![stmt@]);
        }
        MirBlock { stmts }
    }

    /// Appends a statement.
    pub fn push(&mut self, stmt: MirStmt)
        ensures
            final(self)@ == old(self)@.push(stmt@),
    {
        proof {
            broadcast use lemma_mstmts_view;
        }
        let ghost before = self.stmts@;
        self.stmts.push(stmt);
        proof {
            assert(self.stmts@.drop_last() =~= before);
        }
    }

    /// The number of statements.
    pub fn len(&self) -> (n: usize)
        ensures
            n == self@.len(),
    {
        proof {
            broadcast use lemma_mstmts_view;
        }
        self.stmts.len()
    }

    /// Whether the block has no statement.
    pub fn is_empty(&self) -> (b: bool)
        ensures
            b == (self@.len() == 0),
    {
        proof {
            broadcast use lemma_mstmts_view;
        }
        self.stmts.len() == 0
    }
}

// ---------------------------------------------------------------------------
// Copies
// ---------------------------------------------------------------------------

/// A copy of a list of expressions.
pub fn copy_mexprs(v: &Vec<MirExpr>) -> (r: Vec<MirExpr>)
    ensures
        mexprs_view(r@) == mexprs_view(v@),
    decreases v, 0nat,
{
    let mut r: Vec<MirExpr> = Vec::new();
    let mut i: usize = 0;
    while i < v.len()
        invariant
            i <= v@.len(),
            mexprs_view(r@) == mexprs_view(v@.take(i as int)),
        decreases v@.len() - i,
    {
        proof {
            assert(decreases_to!(v => v@[i as int]));
        }
        let ghost prev = r@;
        r.push(copy_mexpr(&v[i]));
        proof {
            assert(r@.drop_last() =~= prev);
            assert(v@.take(i as int + 1).drop_last() =~= v@.take(i as int));
        }
        i = i + 1;
    }
    assert(v@.take(v@.len() as int) =~= v@);
    r
}

fn copy_mfields(v: &Vec<(FieldId, MirExpr)>) -> (r: Vec<(FieldId, MirExpr)>)
    ensures
        mfields_view(r@) == mfields_view(v@),
    decreases v, 0nat,
{
    let mut r: Vec<(FieldId, MirExpr)> = Vec::new();
    let mut i: usize = 0;
    while i < v.len()
        invariant
            i <= v@.len(),
            mfields_view(r@) == mfields_view(v@.take(i as int)),
        decreases v@.len() - i,
    {
        proof {
            assert(decreases_to!(v => v@[i as int]));
            assert(decreases_to!(v@[i as int] => v@[i as int].1));
        }
        let ghost prev = r@;
        let (f, e) = &v[i];
        r.push((*f, copy_mexpr(e)));
        proof {
            assert(r@.drop_last() =~= prev);
            assert(v@.take(i as int + 1).drop_last() =~= v@.take(i as int));
        }
        i = i + 1;
    }
    assert(v@.take(v@.len() as int) =~= v@);
    r
}

/// A copy of an expression.
pub fn copy_mexpr(e: &MirExpr) -> (r: MirExpr)
    ensures
        r@ == e@,
    decreases e, 0nat,
{
    match e {
        MirExpr::Unit => MirExpr::Unit,
        MirExpr::Bool(b) => MirExpr::Bool(*b),
        MirExpr::Int { value, ty } => MirExpr::Int { value: *value, ty: *ty },
        MirExpr::Float { value, ty } => MirExpr::Float { value: *value, ty: *ty },
        MirExpr::String { id, ty } => MirExpr::String { id: *id, ty: *ty },
        MirExpr::Null { ty } => MirExpr::Null { ty: *ty },
        MirExpr::Local(l) => MirExpr::Local(*l),
        MirExpr::Global(g) => MirExpr::Global(*g),
        MirExpr::Field { base, field, ty } => MirExpr::Field { base: Box::new(copy_mexpr(base)), field: *field, ty: *ty },
        MirExpr::Index { base, index, ty } =>
            MirExpr::Index { base: Box::new(copy_mexpr(base)), index: Box::new(copy_mexpr(index)), ty: *ty },
        MirExpr::Call { callee, args, ty } => MirExpr::Call { callee: *callee, args: copy_mexprs(args), ty: *ty },
        MirExpr::StructLiteral { struct_id, fields, ty } =>
            MirExpr::StructLiteral { struct_id: *struct_id, fields: copy_mfields(fields), ty: *ty },
        MirExpr::ResultOk { value, ty } => MirExpr::ResultOk { value: Box::new(copy_mexpr(value)), ty: *ty },
        MirExpr::ResultErr { error, ty } => MirExpr::ResultErr { error: Box::new(copy_mexpr(error)), ty: *ty },
        MirExpr::Binary { op, left, right, ty } => MirExpr::Binary {
            op: *op,
            left: Box::new(copy_mexpr(left)),
            right: Box::new(copy_mexpr(right)),
            ty: *ty,
        },
        MirExpr::Unary { op, expr, ty } => MirExpr::Unary { op: *op, expr: Box::new(copy_mexpr(expr)), ty: *ty },
    }
}

fn copy_mbase(b: &MirPlaceBase) -> (r: MirPlaceBase)
    ensures
        mbase_view(r) == mbase_view(*b),
    decreases b,
{
    match b {
        MirPlaceBase::Local(l) => MirPlaceBase::Local(*l),
        MirPlaceBase::Field { base, field, ty } =>
            MirPlaceBase::Field { base: Box::new(copy_mbase(base)), field: *field, ty: *ty },
        MirPlaceBase::Index { base, index, ty } =>
            MirPlaceBase::Index { base: Box::new(copy_mexpr(base)), index: Box::new(copy_mexpr(index)), ty: *ty },
    }
}

fn copy_mplace(p: &MirPlace) -> (r: MirPlace)
    ensures
        mplace_view(r) == mplace_view(*p),
{
    match p {
        MirPlace::Local { id } => MirPlace::Local { id: *id },
        MirPlace::Field { base, field, ty } => MirPlace::Field { base: Box::new(copy_mbase(base)), field: *field, ty: *ty },
        MirPlace::Index { base, index, ty } =>
            MirPlace::Index { base: Box::new(copy_mexpr(base)), index: Box::new(copy_mexpr(index)), ty: *ty },
    }
}

fn copy_mopt(o: &Option<MirExpr>) -> (r: Option<MirExpr>)
    ensures
        mopt_view(r) == mopt_view(*o),
{
    match o {
        Some(e) => Some(copy_mexpr(e)),
        None => None,
    }
}

/// A copy of a list of statements.
pub fn copy_mstmts(v: &Vec<MirStmt>) -> (r: Vec<MirStmt>)
    ensures
        mstmts_view(r@) == mstmts_view(v@),
    decreases v, 0nat,
{
    let mut r: Vec<MirStmt> = Vec::new();
    let mut i: usize = 0;
    while i < v.len()
        invariant
            i <= v@.len(),
            mstmts_view(r@) == mstmts_view(v@.take(i as int)),
        decreases v@.len() - i,
    {
        proof {
            assert(decreases_to!(v => v@[i as int]));
        }
        let ghost prev = r@;
        r.push(copy_mstmt(&v[i]));
        proof {
            assert(r@.drop_last() =~= prev);
            assert(v@.take(i as int + 1).drop_last() =~= v@.take(i as int));
        }
        i = i + 1;
    }
    assert(v@.take(v@.len() as int) =~= v@);
    r
}

/// A copy of a statement.
pub fn copy_mstmt(s: &MirStmt) -> (r: MirStmt)
    ensures
        r@ == s@,
    decreases s, 0nat,
{
    match s {
        MirStmt::Let { local, ty, init, mutable } =>
            MirStmt::Let { local: *local, ty: *ty, init: copy_mopt(init), mutable: *mutable },
        MirStmt::Assign { target, value } => MirStmt::Assign { target: copy_mplace(target), value: copy_mexpr(value) },
        MirStmt::Expr(e) => MirStmt::Expr(copy_mexpr(e)),
        MirStmt::Return(v) => MirStmt::Return(copy_mopt(v)),
        MirStmt::ReturnResultErr { error, err_ty } =>
            MirStmt::ReturnResultErr { error: copy_mexpr(error), err_ty: *err_ty },
        MirStmt::Throw { error, error_ty } => MirStmt::Throw { error: copy_mexpr(error), error_ty: *error_ty },
        MirStmt::If { cond, then_block, else_block } => {
            proof {
                assert(decreases_to!(s => then_block.stmts));
            }
            let else_copy = match else_block {
                Some(b) => {
                    proof {
                        assert(decreases_to!(s => b.stmts));
                    }
                    Some(MirBlock { stmts: copy_mstmts(&b.stmts) })
                },
                None => None,
            };
            MirStmt::If {
                cond: copy_mexpr(cond),
                then_block: MirBlock { stmts: copy_mstmts(&then_block.stmts) },
                else_block: else_copy,
            }
        },
        MirStmt::While { cond, body } => {
            proof {
                assert(decreases_to!(s => body.stmts));
            }
            MirStmt::While { cond: copy_mexpr(cond), body: MirBlock { stmts: copy_mstmts(&body.stmts) } }
        },
        MirStmt::ForOf { item, iterable, body } => {
            proof {
                assert(decreases_to!(s => body.stmts));
            }
            MirStmt::ForOf {
                item: *item,
                iterable: copy_mexpr(iterable),
                body: MirBlock { stmts: copy_mstmts(&body.stmts) },
            }
        },
        MirStmt::ForIn { key, object, body } => {
            proof {
                assert(decreases_to!(s => body.stmts));
            }
            MirStmt::ForIn { key: *key, object: copy_mexpr(object), body: MirBlock { stmts: copy_mstmts(&body.stmts) } }
        },
        MirStmt::Break => MirStmt::Break,
        MirStmt::Continue => MirStmt::Continue,
        MirStmt::Runtime { op, args, dest, ty } =>
            MirStmt::Runtime { op: *op, args: copy_mexprs(args), dest: *dest, ty: *ty },
        MirStmt::Await { promise, dest, next_state, ty } =>
            MirStmt::Await { promise: copy_mexpr(promise), dest: *dest, next_state: *next_state, ty: *ty },
        MirStmt::SetState { value } => MirStmt::SetState { value: *value },
    }
}

impl Clone for MirExpr {
    fn clone(&self) -> (r: Self)
        ensures
            r@ == self@,
    {
        copy_mexpr(self)
    }
}

impl Clone for MirStmt {
    fn clone(&self) -> (r: Self)
        ensures
            r@ == self@,
    {
        copy_mstmt(self)
    }
}

impl Clone for MirBlock {
    fn clone(&self) -> (r: Self)
        ensures
            r@ == self@,
    {
        MirBlock { stmts: copy_mstmts(&self.stmts) }
    }
}

} // verus!
