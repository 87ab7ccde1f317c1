//! Expressions of the high-level IR.

use vstd::prelude::*;

use crate::ids::{FieldId, FunctionId, LocalId, StringId, SymbolId, TypeId};

verus! {

/// Binary operators of the source language.
#[derive(Debug, Clone, Copy, PartialEq, Eq, Structural, Hash)]
pub enum HirBinaryOp {
    Add,
    Sub,
    Mul,
    Div,
    Mod,
    Eq,
    Ne,
    Lt,
    Le,
    Gt,
    Ge,
    And,
    Or,
    BitAnd,
    BitOr,
    BitXor,
    Shl,
    Shr,
    Usr,
    In,
    InstanceOf,
}

/// Unary operators of the source language.
#[derive(Debug, Clone, Copy, PartialEq, Eq, Structural, Hash)]
pub enum HirUnaryOp {
    Neg,
    Not,
    BitNot,
    TypeOf,
    Void,
    Delete,
}

/// What a call expression calls.
#[derive(Debug, PartialEq, Eq, Hash)]
pub enum HirCallee {
    Function(FunctionId),
    Indirect(Box<HirExpr>),
    Closure(LocalId),
    Runtime { name: StringId, ty: TypeId },
}

/// An expression; a float literal is held as the bits of its `f64` value.
#[derive(Debug, PartialEq, Eq, Hash)]
pub enum HirExpr {
    Unit,
    Bool(bool),
    Int(i64),
    Float(u64),
    String(StringId),
    Null,
    Undefined,
    Local { id: LocalId, ty: TypeId },
    Global { name: SymbolId, ty: TypeId },
    Field { owner: Box<HirExpr>, field: FieldId, field_name: SymbolId, ty: TypeId },
    Index { owner: Box<HirExpr>, index: Box<HirExpr>, ty: TypeId },
    Call { callee: HirCallee, args: Vec<HirExpr>, ty: TypeId },
    Binary { op: HirBinaryOp, lhs: Box<HirExpr>, rhs: Box<HirExpr>, ty: TypeId },
    Unary { op: HirUnaryOp, expr: Box<HirExpr>, ty: TypeId },
    StructLiteral { ty: TypeId, fields: Vec<(FieldId, HirExpr)> },
    ArrayLiteral { elements: Vec<HirExpr>, ty: TypeId },
    Closure { id: LocalId, captures: Vec<HirExpr>, ty: TypeId },
    Await { expr: Box<HirExpr>, ty: TypeId },
    Yield { expr: Option<Box<HirExpr>>, ty: TypeId },
    Template { tag: Option<Box<HirExpr>>, parts: Vec<HirExpr>, ty: TypeId },
    New { callee: Box<HirExpr>, args: Vec<HirExpr>, ty: TypeId },
    OptionalChain { base: Box<HirExpr>, ty: TypeId },
    TypeAssertion { expr: Box<HirExpr>, target: TypeId },
    Assignment { target: Box<HirExpr>, value: Box<HirExpr>, ty: TypeId },
}

/// The abstract value of a callee.
pub enum SCallee {
    Function(FunctionId),
    Indirect(Box<SExpr>),
    Closure(LocalId),
    Runtime { name: StringId, ty: TypeId },
}

/// The abstract value of an expression: the same tree with sequences in
/// place of vectors.
pub enum SExpr {
    Unit,
    Bool(bool),
    Int(i64),
    Float(u64),
    String(StringId),
    Null,
    Undefined,
    Local { id: LocalId, ty: TypeId },
    Global { name: SymbolId, ty: TypeId },
    Field { owner: Box<SExpr>, field: FieldId, field_name: SymbolId, ty: TypeId },
    Index { owner: Box<SExpr>, index: Box<SExpr>, ty: TypeId },
    Call { callee: SCallee, args: Seq<SExpr>, ty: TypeId },
    Binary { op: HirBinaryOp, lhs: Box<SExpr>, rhs: Box<SExpr>, ty: TypeId },
    Unary { op: HirUnaryOp, expr: Box<SExpr>, ty: TypeId },
    StructLiteral { ty: TypeId, fields: Seq<(FieldId, SExpr)> },
    ArrayLiteral { elements: Seq<SExpr>, ty: TypeId },
    Closure { id: LocalId, captures: Seq<SExpr>, ty: TypeId },
    Await { expr: Box<SExpr>, ty: TypeId },
    Yield { expr: Option<Box<SExpr>>, ty: TypeId },
    Template { tag: Option<Box<SExpr>>, parts: Seq<SExpr>, ty: TypeId },
    New { callee: Box<SExpr>, args: Seq<SExpr>, ty: TypeId },
    OptionalChain { base: Box<SExpr>, ty: TypeId },
    TypeAssertion { expr: Box<SExpr>, target: TypeId },
    Assignment { target: Box<SExpr>, value: Box<SExpr>, ty: TypeId },
}

/// The abstract values of a list of expressions.
pub open spec fn exprs_view(s: Seq<HirExpr>) -> Seq<SExpr>
    decreases s, 0nat,
{
    if s.len() == 0 {
        Seq::empty()
    } else {
        exprs_view(s.drop_last()).push(expr_view(s.last()))
    }
}

/// The abstract values of the fields of a struct literal.
pub open spec fn fields_view(s: Seq<(FieldId, HirExpr)>) -> Seq<(FieldId, SExpr)>
    decreases s, 0nat,
{
    if s.len() == 0 {
        Seq::empty()
    } else {
        fields_view(s.drop_last()).push((s.last().0, expr_view(s.last().1)))
    }
}

/// The abstract value of an optional boxed expression.
pub open spec fn opt_view(o: Option<Box<HirExpr>>) -> Option<Box<SExpr>> {
    match o {
        Some(b) => Some(Box::new(expr_view(*b))),
        None => None,
    }
}

/// The abstract value of a callee.
pub open spec fn callee_view(c: HirCallee) -> SCallee {
    match c {
        HirCallee::Function(f) => SCallee::Function(f),
        HirCallee::Indirect(e) => SCallee::Indirect(Box::new(expr_view(*e))),
        HirCallee::Closure(l) => SCallee::Closure(l),
        HirCallee::Runtime { name, ty } => SCallee::Runtime { name, ty },
    }
}

/// The abstract value of an expression.
pub open spec fn expr_view(e: HirExpr) -> SExpr
    decreases e, 0nat,
{
    match e {
        HirExpr::Unit => SExpr::Unit,
        HirExpr::Bool(b) => SExpr::Bool(b),
        HirExpr::Int(v) => SExpr::Int(v),
        HirExpr::Float(v) => SExpr::Float(v),
        HirExpr::String(s) => SExpr::String(s),
        HirExpr::Null => SExpr::Null,
        HirExpr::Undefined => SExpr::Undefined,
        HirExpr::Local { id, ty } => SExpr::Local { id, ty },
        HirExpr::Global { name, ty } => SExpr::Global { name, ty },
        HirExpr::Field { owner, field, field_name, ty } =>
            SExpr::Field { owner: Box::new(expr_view(*owner)), field, field_name, ty },
        HirExpr::Index { owner, index, ty } =>
            SExpr::Index { owner: Box::new(expr_view(*owner)), index: Box::new(expr_view(*index)), ty },
        HirExpr::Call { callee, args, ty } =>
            SExpr::Call {
                callee: match callee {
                    HirCallee::Function(f) => SCallee::Function(f),
                    HirCallee::Indirect(e) => SCallee::Indirect(Box::new(expr_view(*e))),
                    HirCallee::Closure(l) => SCallee::Closure(l),
                    HirCallee::Runtime { name, ty } => SCallee::Runtime { name, ty },
                },
                args: exprs_view(args@),
                ty,
            },
        HirExpr::Binary { op, lhs, rhs, ty } =>
            SExpr::Binary { op, lhs: Box::new(expr_view(*lhs)), rhs: Box::new(expr_view(*rhs)), ty },
        HirExpr::Unary { op, expr, ty } => SExpr::Unary { op, expr: Box::new(expr_view(*expr)), ty },
        HirExpr::StructLiteral { ty, fields } => SExpr::StructLiteral { ty, fields: fields_view(fields@) },
        HirExpr::ArrayLiteral { elements, ty } => SExpr::ArrayLiteral { elements: exprs_view(elements@), ty },
        HirExpr::Closure { id, captures, ty } => SExpr::Closure { id, captures: exprs_view(captures@), ty },
        HirExpr::Await { expr, ty } => SExpr::Await { expr: Box::new(expr_view(*expr)), ty },
        HirExpr::Yield { expr, ty } => SExpr::Yield {
            expr: match expr {
                Some(b) => Some(Box::new(expr_view(*b))),
                None => None,
            },
            ty,
        },
        HirExpr::Template { tag, parts, ty } =>
            SExpr::Template {
                tag: match tag {
                    Some(b) => Some(Box::new(expr_view(*b))),
                    None => None,
                },
                parts: exprs_view(parts@),
                ty,
            },
        HirExpr::New { callee, args, ty } =>
            SExpr::New { callee: Box::new(expr_view(*callee)), args: exprs_view(args@), ty },
        HirExpr::OptionalChain { base, ty } => SExpr::OptionalChain { base: Box::new(expr_view(*base)), ty },
        HirExpr::TypeAssertion { expr, target } =>
            SExpr::TypeAssertion { expr: Box::new(expr_view(*expr)), target },
        HirExpr::Assignment { target, value, ty } =>
            SExpr::Assignment { target: Box::new(expr_view(*target)), value: Box::new(expr_view(*value)), ty },
    }
}

impl View for HirExpr {
    type V = SExpr;

    open spec fn view(&self) -> SExpr {
        expr_view(*self)
    }
}

impl View for HirCallee {
    type V = SCallee;

    open spec fn view(&self) -> SCallee {
        callee_view(*self)
    }
}

/// The view of a list of expressions lists the views of its elements.
pub broadcast proof fn lemma_exprs_view(s: Seq<HirExpr>)
    ensures
        #[trigger] exprs_view(s).len() == s.len(),
        forall|i: int| 0 <= i < s.len() ==> #[trigger] exprs_view(s)[i] == expr_view(s[i]),
    decreases s.len(),
{
    if s.len() > 0 {
        lemma_exprs_view(s.drop_last());
    }
}

/// The view of the fields of a struct literal lists the views of its fields.
pub broadcast proof fn lemma_fields_view(s: Seq<(FieldId, HirExpr)>)
    ensures
        #[trigger] fields_view(s).len() == s.len(),
        forall|i: int| 0 <= i < s.len() ==> #[trigger] fields_view(s)[i] == (s[i].0, expr_view(s[i].1)),
    decreases s.len(),
{
    if s.len() > 0 {
        lemma_fields_view(s.drop_last());
    }
}

/// A copy of a list of expressions.
pub fn copy_exprs(v: &Vec<HirExpr>) -> (r: Vec<HirExpr>)
    ensures
        exprs_view(r@) == exprs_view(v@),
    decreases v, 0nat,
{
    let mut r: Vec<HirExpr> = Vec::new();
    let mut i: usize = 0;
    while i < v.len()
        invariant
            i <= v@.len(),
            exprs_view(r@) == exprs_view(v@.take(i as int)),
        decreases v@.len() - i,
    {
        proof {
            assert(decreases_to!(v => v@[i as int]));
        }
        let ghost prev = r@;
        r.push(copy_expr(&v[i]));
        proof {
            assert(r@.drop_last() =~= prev);
            assert(v@.take(i as int + 1).drop_last() =~= v@.take(i as int));
        }
        i = i + 1;
    }
    assert(v@.take(v@.len() as int) =~= v@);
    r
}

fn copy_fields(v: &Vec<(FieldId, HirExpr)>) -> (r: Vec<(FieldId, HirExpr)>)
    ensures
        fields_view(r@) == fields_view(v@),
    decreases v, 0nat,
{
    let mut r: Vec<(FieldId, HirExpr)> = Vec::new();
    let mut i: usize = 0;
    while i < v.len()
        invariant
            i <= v@.len(),
            fields_view(r@) == fields_view(v@.take(i as int)),
        decreases v@.len() - i,
    {
        proof {
            assert(decreases_to!(v => v@[i as int].1));
        }
        let ghost prev = r@;
        let f = v[i].0;
        r.push((f, copy_expr(&v[i].1)));
        proof {
            assert(r@.drop_last() =~= prev);
            assert(v@.take(i as int + 1).drop_last() =~= v@.take(i as int));
        }
        i = i + 1;
    }
    assert(v@.take(v@.len() as int) =~= v@);
    r
}

fn copy_opt(e: &Option<Box<HirExpr>>) -> (r: Option<Box<HirExpr>>)
    ensures
        opt_view(r) == opt_view(*e),
    decreases e, 0nat,
{
    match e {
        Some(b) => Some(Box::new(copy_expr(b))),
        None => None,
    }
}

/// A copy of a callee.
pub fn copy_callee(c: &HirCallee) -> (r: HirCallee)
    ensures
        r@ == c@,
    decreases c, 0nat,
{
    match c {
        HirCallee::Function(f) => HirCallee::Function(*f),
        HirCallee::Indirect(e) => HirCallee::Indirect(Box::new(copy_expr(e))),
        HirCallee::Closure(l) => HirCallee::Closure(*l),
        HirCallee::Runtime { name, ty } => HirCallee::Runtime { name: *name, ty: *ty },
    }
}

/// A copy of an expression.
pub fn copy_expr(e: &HirExpr) -> (r: HirExpr)
    ensures
        r@ == e@,
    decreases e, 0nat,
{
    match e {
        HirExpr::Unit => HirExpr::Unit,
        HirExpr::Bool(b) => HirExpr::Bool(*b),
        HirExpr::Int(v) => HirExpr::Int(*v),
        HirExpr::Float(v) => HirExpr::Float(*v),
        HirExpr::String(s) => HirExpr::String(*s),
        HirExpr::Null => HirExpr::Null,
        HirExpr::Undefined => HirExpr::Undefined,
        HirExpr::Local { id, ty } => HirExpr::Local { id: *id, ty: *ty },
        HirExpr::Global { name, ty } => HirExpr::Global { name: *name, ty: *ty },
        HirExpr::Field { owner, field, field_name, ty } => HirExpr::Field {
            owner: Box::new(copy_expr(owner)),
            field: *field,
            field_name: *field_name,
            ty: *ty,
        },
        HirExpr::Index { owner, index, ty } => HirExpr::Index {
            owner: Box::new(copy_expr(owner)),
            index: Box::new(copy_expr(index)),
            ty: *ty,
        },
        HirExpr::Call { callee, args, ty } => HirExpr::Call {
            callee: copy_callee(callee),
            args: copy_exprs(args),
            ty: *ty,
        },
        HirExpr::Binary { op, lhs, rhs, ty } => HirExpr::Binary {
            op: *op,
            lhs: Box::new(copy_expr(lhs)),
            rhs: Box::new(copy_expr(rhs)),
            ty: *ty,
        },
        HirExpr::Unary { op, expr, ty } => HirExpr::Unary {
            op: *op,
            expr: Box::new(copy_expr(expr)),
            ty: *ty,
        },
        HirExpr::StructLiteral { ty, fields } => HirExpr::StructLiteral {
            ty: *ty,
            fields: copy_fields(fields),
        },
        HirExpr::ArrayLiteral { elements, ty } => HirExpr::ArrayLiteral {
            elements: copy_exprs(elements),
            ty: *ty,
        },
        HirExpr::Closure { id, captures, ty } => HirExpr::Closure {
            id: *id,
            captures: copy_exprs(captures),
            ty: *ty,
        },
        HirExpr::Await { expr, ty } => HirExpr::Await { expr: Box::new(copy_expr(expr)), ty: *ty },
        HirExpr::Yield { expr, ty } => HirExpr::Yield { expr: copy_opt(expr), ty: *ty },
        HirExpr::Template { tag, parts, ty } => HirExpr::Template {
            tag: copy_opt(tag),
            parts: copy_exprs(parts),
            ty: *ty,
        },
        HirExpr::New { callee, args, ty } => HirExpr::New {
            callee: Box::new(copy_expr(callee)),
            args: copy_exprs(args),
            ty: *ty,
        },
        HirExpr::OptionalChain { base, ty } => HirExpr::OptionalChain {
            base: Box::new(copy_expr(base)),
            ty: *ty,
        },
        HirExpr::TypeAssertion { expr, target } => HirExpr::TypeAssertion {
            expr: Box::new(copy_expr(expr)),
            target: *target,
        },
        HirExpr::Assignment { target, value, ty } => HirExpr::Assignment {
            target: Box::new(copy_expr(target)),
            value: Box::new(copy_expr(value)),
            ty: *ty,
        },
    }
}

impl Clone for HirExpr {
    fn clone(&self) -> (r: Self)
        ensures
            r@ == self@,
    {
        copy_expr(self)
    }
}

impl Clone for HirCallee {
    fn clone(&self) -> (r: Self)
        ensures
            r@ == self@,
    {
        copy_callee(self)
    }
}

} // verus!
