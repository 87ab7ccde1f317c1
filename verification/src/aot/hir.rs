//! A high-level IR whose names are texts: expressions, statements,
//! declarations and programs, with their abstract values.

use vstd::prelude::*;

use crate::hir::expr::{HirBinaryOp, HirUnaryOp};
use crate::hir::stmt::HirAsyncInfo;
use crate::ids::{FieldId, FunctionId, GenericParamId, LocalId, ModuleId, TypeId};
use crate::span::Atom;

verus! {

/// What a call expression calls.
#[derive(Debug)]
pub enum HirCallee {
    Function(FunctionId),
    Indirect(Box<HirExpr>),
    Closure(LocalId),
    Runtime { name: Atom, ty: TypeId },
}

/// An expression; a float literal is held as the bits of its `f64` value.
#[derive(Debug)]
pub enum HirExpr {
    Unit,
    Bool(bool),
    Int(i64),
    Float(u64),
    String(Atom),
    Null,
    Undefined,
    Local { id: LocalId, ty: TypeId },
    Global { name: Atom, ty: TypeId },
    Field { owner: Box<HirExpr>, field: FieldId, field_name: Atom, ty: TypeId },
    Index { owner: Box<HirExpr>, index: Box<HirExpr>, ty: TypeId },
    Call { callee: HirCallee, args: Vec<HirExpr>, ty: TypeId },
    Binary { op: HirBinaryOp, lhs: Box<HirExpr>, rhs: Box<HirExpr>, ty: TypeId },
    Unary { op: HirUnaryOp, expr: Box<HirExpr>, ty: TypeId },
    StructLiteral { ty: TypeId, fields: Vec<(FieldId, HirExpr)> },
    ArrayLiteral { elements: Vec<HirExpr>, ty: TypeId },
    Closure { id: LocalId, params: Vec<HirParam>, captures: Vec<HirExpr>, body: Vec<HirStmt>, ty: TypeId },
    Await { expr: Box<HirExpr>, ty: TypeId },
    Yield { expr: Option<Box<HirExpr>>, ty: TypeId },
    Template { tag: Option<Box<HirExpr>>, parts: Vec<HirExpr>, ty: TypeId },
    New { callee: Box<HirExpr>, args: Vec<HirExpr>, ty: TypeId },
    OptionalChain { base: Box<HirExpr>, ty: TypeId },
    TypeAssertion { expr: Box<HirExpr>, target: TypeId },
    Assignment { target: Box<HirExpr>, value: Box<HirExpr>, ty: TypeId },
}

/// A function parameter.
#[derive(Debug, PartialEq, Eq, Hash)]
pub struct HirParam {
    pub name: Atom,
    pub ty: TypeId,
}

/// A class field.
#[derive(Debug, PartialEq, Eq, Hash)]
pub struct HirField {
    pub name: Atom,
    pub ty: TypeId,
}

/// A statement.
#[derive(Debug)]
pub enum HirStmt {
    Block(Vec<HirStmt>),
    Let { id: LocalId, name: Atom, ty: TypeId, init: Option<HirExpr> },
    Expr { expr: HirExpr },
    If { cond: HirExpr, then: Box<HirStmt>, otherwise: Option<Box<HirStmt>> },
    While { cond: HirExpr, body: Box<HirStmt> },
    DoWhile { body: Box<HirStmt>, cond: HirExpr },
    ForOf { binding: LocalId, iter: HirExpr, body: Box<HirStmt> },
    ForIn { binding: LocalId, iter: HirExpr, body: Box<HirStmt> },
    Switch { disc: HirExpr, cases: Vec<HirSwitchCase> },
    Return { value: Option<HirExpr> },
    Break { label: Option<Atom> },
    Continue { label: Option<Atom> },
    Throw { expr: HirExpr },
    Try { body: Box<HirStmt>, catch: Option<HirCatchClause>, finally: Option<Box<HirStmt>> },
    Decl(HirDecl),
}

/// A `case` or `default` arm of a switch.
#[derive(Debug)]
pub struct HirSwitchCase {
    pub test: Option<HirExpr>,
    pub body: Vec<HirStmt>,
}

/// The `catch` part of a try statement.
#[derive(Debug)]
pub struct HirCatchClause {
    pub binding: Option<(LocalId, Atom)>,
    pub body: Box<HirStmt>,
}

/// A member of an enum declaration.
#[derive(Debug)]
pub struct HirEnumVariant {
    pub name: Atom,
    pub value: Option<HirExpr>,
}

/// A function declaration.
#[derive(Debug)]
pub struct HirFunction {
    pub name: Atom,
    pub params: Vec<HirParam>,
    pub ret: TypeId,
    pub throws: Option<TypeId>,
    pub body: Vec<HirStmt>,
    pub is_async: bool,
    pub is_generator: bool,
    pub is_exported: bool,
    pub type_params: Vec<GenericParamId>,
    pub async_info: Option<HirAsyncInfo>,
}

/// A class declaration.
#[derive(Debug)]
pub struct HirClass {
    pub name: Atom,
    pub ty: TypeId,
    pub fields: Vec<HirField>,
    pub methods: Vec<HirFunction>,
    pub extends: Option<Atom>,
    pub type_params: Vec<GenericParamId>,
}

/// A declaration.
#[derive(Debug)]
pub enum HirDecl {
    Function(HirFunction),
    Class(HirClass),
    TypeAlias { name: Atom, target: TypeId },
    Enum { name: Atom, variants: Vec<HirEnumVariant> },
    Global { name: Atom, ty: TypeId, init: Option<HirExpr> },
    Interface { name: Atom },
    Namespace { name: Atom, members: Vec<HirDecl> },
}

/// An imported name.
#[derive(Debug)]
pub struct HirImport {
    pub module: Atom,
    pub name: Atom,
    pub alias: Option<Atom>,
}

/// An exported name.
#[derive(Debug)]
pub struct HirExport {
    pub name: Atom,
    pub alias: Option<Atom>,
}

/// A module of the IR.
#[derive(Debug)]
pub struct HirProgram {
    pub module: ModuleId,
    pub imports: Vec<HirImport>,
    pub exports: Vec<HirExport>,
    pub declarations: Vec<HirDecl>,
}

impl HirProgram {
    /// An empty module.
    pub fn new(module: ModuleId) -> (p: Self)
        ensures
            p.module == module,
            p.imports@.len() == 0,
            p.exports@.len() == 0,
            p.declarations@.len() == 0,
    {
        HirProgram { module, imports: Vec::new(), exports: Vec::new(), declarations: Vec::new() }
    }
}

impl HirFunction {
    /// A function with an empty name, no parameters and an empty body,
    /// returning type 0.
    pub fn default() -> (f: Self)
        ensures
            f.name@ == Seq::<char>::empty(),
            f.params@.len() == 0,
            f.ret == TypeId(0),
            f.throws is None,
            f.body@.len() == 0,
            !f.is_async,
            !f.is_generator,
            !f.is_exported,
            f.type_params@.len() == 0,
            f.async_info is None,
    {
        proof {
            reveal_strlit("");
        }
        HirFunction {
            name: Atom::from_str(""),
            params: Vec::new(),
            ret: TypeId(0),
            throws: None,
            body: Vec::new(),
            is_async: false,
            is_generator: false,
            is_exported: false,
            type_params: Vec::new(),
            async_info: None,
        }
    }
}

// ---------------------------------------------------------------------------
// Abstract values
// ---------------------------------------------------------------------------

/// The abstract value of a callee.
pub enum ACallee {
    Function(FunctionId),
    Indirect(Box<AExpr>),
    Closure(LocalId),
    Runtime { name: Seq<char>, ty: TypeId },
}

/// The abstract value of a parameter or a field.
pub struct AParam {
    pub name: Seq<char>,
    pub ty: TypeId,
}

/// The abstract value of an expression: the same tree with texts in place
/// of names and sequences in place of vectors.
pub enum AExpr {
    Unit,
    Bool(bool),
    Int(i64),
    Float(u64),
    String(Seq<char>),
    Null,
    Undefined,
    Local { id: LocalId, ty: TypeId },
    Global { name: Seq<char>, ty: TypeId },
    Field { owner: Box<AExpr>, field: FieldId, field_name: Seq<char>, ty: TypeId },
    Index { owner: Box<AExpr>, index: Box<AExpr>, ty: TypeId },
    Call { callee: ACallee, args: Seq<AExpr>, ty: TypeId },
    Binary { op: HirBinaryOp, lhs: Box<AExpr>, rhs: Box<AExpr>, ty: TypeId },
    Unary { op: HirUnaryOp, expr: Box<AExpr>, ty: TypeId },
    StructLiteral { ty: TypeId, fields: Seq<(FieldId, AExpr)> },
    ArrayLiteral { elements: Seq<AExpr>, ty: TypeId },
    Closure { id: LocalId, params: Seq<AParam>, captures: Seq<AExpr>, body: Seq<AStmt>, ty: TypeId },
    Await { expr: Box<AExpr>, ty: TypeId },
    Yield { expr: Option<Box<AExpr>>, ty: TypeId },
    Template { tag: Option<Box<AExpr>>, parts: Seq<AExpr>, ty: TypeId },
    New { callee: Box<AExpr>, args: Seq<AExpr>, ty: TypeId },
    OptionalChain { base: Box<AExpr>, ty: TypeId },
    TypeAssertion { expr: Box<AExpr>, target: TypeId },
    Assignment { target: Box<AExpr>, value: Box<AExpr>, ty: TypeId },
}

/// The abstract value of a statement.
pub enum AStmt {
    Block(Seq<AStmt>),
    Let { id: LocalId, name: Seq<char>, ty: TypeId, init: Option<AExpr> },
    Expr { expr: AExpr },
    If { cond: AExpr, then: Box<AStmt>, otherwise: Option<Box<AStmt>> },
    While { cond: AExpr, body: Box<AStmt> },
    DoWhile { body: Box<AStmt>, cond: AExpr },
    ForOf { binding: LocalId, iter: AExpr, body: Box<AStmt> },
    ForIn { binding: LocalId, iter: AExpr, body: Box<AStmt> },
    Switch { disc: AExpr, cases: Seq<ACase> },
    Return { value: Option<AExpr> },
    Break { label: Option<Seq<char>> },
    Continue { label: Option<Seq<char>> },
    Throw { expr: AExpr },
    Try { body: Box<AStmt>, catch: Option<ACatch>, finally: Option<Box<AStmt>> },
    Decl(ADecl),
}

/// The abstract value of a switch case.
pub struct ACase {
    pub test: Option<AExpr>,
    pub body: Seq<AStmt>,
}

/// The abstract value of a catch clause.
pub struct ACatch {
    pub binding: Option<(LocalId, Seq<char>)>,
    pub body: Box<AStmt>,
}

/// The abstract value of an enum member.
pub struct AVariant {
    pub name: Seq<char>,
    pub value: Option<AExpr>,
}

/// The abstract value of a function.
pub struct AFunction {
    pub name: Seq<char>,
    pub params: Seq<AParam>,
    pub ret: TypeId,
    pub throws: Option<TypeId>,
    pub body: Seq<AStmt>,
    pub is_async: bool,
    pub is_generator: bool,
    pub is_exported: bool,
    pub type_params: Seq<GenericParamId>,
    pub async_info: Option<HirAsyncInfo>,
}

/// The abstract value of a class.
pub struct AClass {
    pub name: Seq<char>,
    pub ty: TypeId,
    pub fields: Seq<AParam>,
    pub methods: Seq<AFunction>,
    pub extends: Option<Seq<char>>,
    pub type_params: Seq<GenericParamId>,
}

/// The abstract value of a declaration.
pub enum ADecl {
    Function(AFunction),
    Class(AClass),
    TypeAlias { name: Seq<char>, target: TypeId },
    Enum { name: Seq<char>, variants: Seq<AVariant> },
    Global { name: Seq<char>, ty: TypeId, init: Option<AExpr> },
    Interface { name: Seq<char> },
    Namespace { name: Seq<char>, members: Seq<ADecl> },
}

/// The abstract values of parameters.
pub open spec fn a_params(s: Seq<HirParam>) -> Seq<AParam> {
    s.map_values(|p: HirParam| AParam { name: p.name@, ty: p.ty })
}

/// The abstract values of class fields.
pub open spec fn a_fields_decl(s: Seq<HirField>) -> Seq<AParam> {
    s.map_values(|f: HirField| AParam { name: f.name@, ty: f.ty })
}

/// An optional name as an optional text.
pub open spec fn a_name_opt(o: Option<Atom>) -> Option<Seq<char>> {
    match o {
        Some(a) => Some(a@),
        None => None,
    }
}

/// The abstract value of a callee.
pub open spec fn a_callee(c: HirCallee) -> ACallee {
    match c {
        HirCallee::Function(f) => ACallee::Function(f),
        HirCallee::Indirect(i) => ACallee::Indirect(Box::new(a_expr(*i))),
        HirCallee::Closure(l) => ACallee::Closure(l),
        HirCallee::Runtime { name, ty } => ACallee::Runtime { name: name@, ty },
    }
}

/// The abstract values of a list of expressions.
pub open spec fn a_exprs(s: Seq<HirExpr>) -> Seq<AExpr>
    decreases s, 0nat,
{
    if s.len() == 0 {
        Seq::empty()
    } else {
        a_exprs(s.drop_last()).push(a_expr(s.last()))
    }
}

/// The abstract values of the fields of a struct literal.
pub open spec fn a_fields(s: Seq<(FieldId, HirExpr)>) -> Seq<(FieldId, AExpr)>
    decreases s, 0nat,
{
    if s.len() == 0 {
        Seq::empty()
    } else {
        a_fields(s.drop_last()).push((s.last().0, a_expr(s.last().1)))
    }
}

/// The abstract value of an optional expression.
pub open spec fn a_opt(o: Option<HirExpr>) -> Option<AExpr>
    decreases o, 0nat,
{
    match o {
        Some(e) => Some(a_expr(e)),
        None => None,
    }
}

/// The abstract value of an expression.
pub open spec fn a_expr(e: HirExpr) -> AExpr
    decreases e, 0nat,
{
    match e {
        HirExpr::Unit => AExpr::Unit,
        HirExpr::Bool(b) => AExpr::Bool(b),
        HirExpr::Int(v) => AExpr::Int(v),
        HirExpr::Float(v) => AExpr::Float(v),
        HirExpr::String(s) => AExpr::String(s@),
        HirExpr::Null => AExpr::Null,
        HirExpr::Undefined => AExpr::Undefined,
        HirExpr::Local { id, ty } => AExpr::Local { id, ty },
        HirExpr::Global { name, ty } => AExpr::Global { name: name@, ty },
        HirExpr::Field { owner, field, field_name, ty } =>
            AExpr::Field { owner: Box::new(a_expr(*owner)), field, field_name: field_name@, ty },
        HirExpr::Index { owner, index, ty } =>
            AExpr::Index { owner: Box::new(a_expr(*owner)), index: Box::new(a_expr(*index)), ty },
        HirExpr::Call { callee, args, ty } => AExpr::Call {
            callee: match callee {
                HirCallee::Function(f) => ACallee::Function(f),
                HirCallee::Indirect(i) => ACallee::Indirect(Box::new(a_expr(*i))),
                HirCallee::Closure(l) => ACallee::Closure(l),
                HirCallee::Runtime { name, ty } => ACallee::Runtime { name: name@, ty },
            },
            args: a_exprs(args@),
            ty,
        },
        HirExpr::Binary { op, lhs, rhs, ty } =>
            AExpr::Binary { op, lhs: Box::new(a_expr(*lhs)), rhs: Box::new(a_expr(*rhs)), ty },
        HirExpr::Unary { op, expr, ty } => AExpr::Unary { op, expr: Box::new(a_expr(*expr)), ty },
        HirExpr::StructLiteral { ty, fields } => AExpr::StructLiteral { ty, fields: a_fields(fields@) },
        HirExpr::ArrayLiteral { elements, ty } => AExpr::ArrayLiteral { elements: a_exprs(elements@), ty },
        HirExpr::Closure { id, params, captures, body, ty } => AExpr::Closure {
            id,
            params: a_params(params@),
            captures: a_exprs(captures@),
            body: a_stmts(body@),
            ty,
        },
        HirExpr::Await { expr, ty } => AExpr::Await { expr: Box::new(a_expr(*expr)), ty },
        HirExpr::Yield { expr, ty } => AExpr::Yield {
            expr: match expr {
                Some(b) => Some(Box::new(a_expr(*b))),
                None => None,
            },
            ty,
        },
        HirExpr::Template { tag, parts, ty } => AExpr::Template {
            tag: match tag {
                Some(b) => Some(Box::new(a_expr(*b))),
                None => None,
            },
            parts: a_exprs(parts@),
            ty,
        },
        HirExpr::New { callee, args, ty } =>
            AExpr::New { callee: Box::new(a_expr(*callee)), args: a_exprs(args@), ty },
        HirExpr::OptionalChain { base, ty } => AExpr::OptionalChain { base: Box::new(a_expr(*base)), ty },
        HirExpr::TypeAssertion { expr, target } => AExpr::TypeAssertion { expr: Box::new(a_expr(*expr)), target },
        HirExpr::Assignment { target, value, ty } =>
            AExpr::Assignment { target: Box::new(a_expr(*target)), value: Box::new(a_expr(*value)), ty },
    }
}

/// The abstract values of a list of statements.
pub open spec fn a_stmts(s: Seq<HirStmt>) -> Seq<AStmt>
    decreases s, 0nat,
{
    if s.len() == 0 {
        Seq::empty()
    } else {
        a_stmts(s.drop_last()).push(a_stmt(s.last()))
    }
}

/// The abstract values of the cases of a switch.
pub open spec fn a_cases(s: Seq<HirSwitchCase>) -> Seq<ACase>
    decreases s, 0nat,
{
    if s.len() == 0 {
        Seq::empty()
    } else {
        a_cases(s.drop_last()).push(
            ACase {
                test: match s.last().test {
                    Some(e) => Some(a_expr(e)),
                    None => None,
                },
                body: a_stmts(s.last().body@),
            },
        )
    }
}

/// The abstract value of a statement.
pub open spec fn a_stmt(s: HirStmt) -> AStmt
    decreases s, 0nat,
{
    match s {
        HirStmt::Block(v) => AStmt::Block(a_stmts(v@)),
        HirStmt::Let { id, name, ty, init } => AStmt::Let {
            id,
            name: name@,
            ty,
            init: match init {
                Some(e) => Some(a_expr(e)),
                None => None,
            },
        },
        HirStmt::Expr { expr } => AStmt::Expr { expr: a_expr(expr) },
        HirStmt::If { cond, then, otherwise } => AStmt::If {
            cond: a_expr(cond),
            then: Box::new(a_stmt(*then)),
            otherwise: match otherwise {
                Some(b) => Some(Box::new(a_stmt(*b))),
                None => None,
            },
        },
        HirStmt::While { cond, body } => AStmt::While { cond: a_expr(cond), body: Box::new(a_stmt(*body)) },
        HirStmt::DoWhile { body, cond } => AStmt::DoWhile { body: Box::new(a_stmt(*body)), cond: a_expr(cond) },
        HirStmt::ForOf { binding, iter, body } =>
            AStmt::ForOf { binding, iter: a_expr(iter), body: Box::new(a_stmt(*body)) },
        HirStmt::ForIn { binding, iter, body } =>
            AStmt::ForIn { binding, iter: a_expr(iter), body: Box::new(a_stmt(*body)) },
        HirStmt::Switch { disc, cases } => AStmt::Switch { disc: a_expr(disc), cases: a_cases(cases@) },
        HirStmt::Return { value } => AStmt::Return {
            value: match value {
                Some(e) => Some(a_expr(e)),
                None => None,
            },
        },
        HirStmt::Break { label } => AStmt::Break { label: a_name_opt(label) },
        HirStmt::Continue { label } => AStmt::Continue { label: a_name_opt(label) },
        HirStmt::Throw { expr } => AStmt::Throw { expr: a_expr(expr) },
        HirStmt::Try { body, catch, finally } => AStmt::Try {
            body: Box::new(a_stmt(*body)),
            catch: match catch {
                Some(c) => Some(
                    ACatch {
                        binding: match c.binding {
                            Some((l, n)) => Some((l, n@)),
                            None => None,
                        },
                        body: Box::new(a_stmt(*c.body)),
                    },
                ),
                None => None,
            },
            finally: match finally {
                Some(b) => Some(Box::new(a_stmt(*b))),
                None => None,
            },
        },
        HirStmt::Decl(d) => AStmt::Decl(a_decl(d)),
    }
}

/// The abstract values of the members of an enum.
pub open spec fn a_variants(s: Seq<HirEnumVariant>) -> Seq<AVariant>
    decreases s, 0nat,
{
    if s.len() == 0 {
        Seq::empty()
    } else {
        a_variants(s.drop_last()).push(
            AVariant {
                name: s.last().name@,
                value: match s.last().value {
                    Some(e) => Some(a_expr(e)),
                    None => None,
                },
            },
        )
    }
}

/// The abstract value of a function.
pub open spec fn a_function(f: HirFunction) -> AFunction
    decreases f, 0nat,
{
    AFunction {
        name: f.name@,
        params: a_params(f.params@),
        ret: f.ret,
        throws: f.throws,
        body: a_stmts(f.body@),
        is_async: f.is_async,
        is_generator: f.is_generator,
        is_exported: f.is_exported,
        type_params: f.type_params@,
        async_info: f.async_info,
    }
}

/// The abstract values of a list of functions.
pub open spec fn a_functions(s: Seq<HirFunction>) -> Seq<AFunction>
    decreases s, 0nat,
{
    if s.len() == 0 {
        Seq::empty()
    } else {
        a_functions(s.drop_last()).push(a_function(s.last()))
    }
}

/// The abstract value of a declaration.
pub open spec fn a_decl(d: HirDecl) -> ADecl
    decreases d, 0nat,
{
    match d {
        HirDecl::Function(f) => ADecl::Function(a_function(f)),
        HirDecl::Class(c) => ADecl::Class(
            AClass {
                name: c.name@,
                ty: c.ty,
                fields: a_fields_decl(c.fields@),
                methods: a_functions(c.methods@),
                extends: a_name_opt(c.extends),
                type_params: c.type_params@,
            },
        ),
        HirDecl::TypeAlias { name, target } => ADecl::TypeAlias { name: name@, target },
        HirDecl::Enum { name, variants } => ADecl::Enum { name: name@, variants: a_variants(variants@) },
        HirDecl::Global { name, ty, init } => ADecl::Global {
            name: name@,
            ty,
            init: match init {
                Some(e) => Some(a_expr(e)),
                None => None,
            },
        },
        HirDecl::Interface { name } => ADecl::Interface { name: name@ },
        HirDecl::Namespace { name, members } => ADecl::Namespace { name: name@, members: a_decls(members@) },
    }
}

/// The abstract values of a list of declarations.
pub open spec fn a_decls(s: Seq<HirDecl>) -> Seq<ADecl>
    decreases s, 0nat,
{
    if s.len() == 0 {
        Seq::empty()
    } else {
        a_decls(s.drop_last()).push(a_decl(s.last()))
    }
}

impl View for HirExpr {
    type V = AExpr;

    open spec fn view(&self) -> AExpr {
        a_expr(*self)
    }
}

impl View for HirStmt {
    type V = AStmt;

    open spec fn view(&self) -> AStmt {
        a_stmt(*self)
    }
}

impl View for HirDecl {
    type V = ADecl;

    open spec fn view(&self) -> ADecl {
        a_decl(*self)
    }
}

impl View for HirFunction {
    type V = AFunction;

    open spec fn view(&self) -> AFunction {
        a_function(*self)
    }
}

impl HirProgram {
    /// The abstract values of the declarations.
    pub open spec fn decls(&self) -> Seq<ADecl> {
        a_decls(self.declarations@)
    }
}

/// The view of a list of expressions lists the views of its elements.
pub broadcast proof fn lemma_a_exprs(s: Seq<HirExpr>)
    ensures
        #[trigger] a_exprs(s).len() == s.len(),
        forall|i: int| 0 <= i < s.len() ==> #[trigger] a_exprs(s)[i] == a_expr(s[i]),
    decreases s.len(),
{
    if s.len() > 0 {
        lemma_a_exprs(s.drop_last());
    }
}

/// The view of the fields of a struct literal lists the views of its fields.
pub broadcast proof fn lemma_a_fields(s: Seq<(FieldId, HirExpr)>)
    ensures
        #[trigger] a_fields(s).len() == s.len(),
        forall|i: int| 0 <= i < s.len() ==> #[trigger] a_fields(s)[i] == (s[i].0, a_expr(s[i].1)),
    decreases s.len(),
{
    if s.len() > 0 {
        lemma_a_fields(s.drop_last());
    }
}

/// The view of a list of statements lists the views of its elements.
pub broadcast proof fn lemma_a_stmts(s: Seq<HirStmt>)
    ensures
        #[trigger] a_stmts(s).len() == s.len(),
        forall|i: int| 0 <= i < s.len() ==> #[trigger] a_stmts(s)[i] == a_stmt(s[i]),
    decreases s.len(),
{
    if s.len() > 0 {
        lemma_a_stmts(s.drop_last());
    }
}

/// The view of a list of cases lists the views of its cases.
pub broadcast proof fn lemma_a_cases(s: Seq<HirSwitchCase>)
    ensures
        #[trigger] a_cases(s).len() == s.len(),
        forall|i: int| 0 <= i < s.len() ==> #[trigger] a_cases(s)[i] == (ACase {
            test: a_opt(s[i].test),
            body: a_stmts(s[i].body@),
        }),
    decreases s.len(),
{
    if s.len() > 0 {
        lemma_a_cases(s.drop_last());
    }
}

/// The view of a list of functions lists the views of its functions.
pub broadcast proof fn lemma_a_functions(s: Seq<HirFunction>)
    ensures
        #[trigger] a_functions(s).len() == s.len(),
        forall|i: int| 0 <= i < s.len() ==> #[trigger] a_functions(s)[i] == a_function(s[i]),
    decreases s.len(),
{
    if s.len() > 0 {
        lemma_a_functions(s.drop_last());
    }
}

/// The view of a list of declarations lists the views of its declarations.
pub broadcast proof fn lemma_a_decls(s: Seq<HirDecl>)
    ensures
        #[trigger] a_decls(s).len() == s.len(),
        forall|i: int| 0 <= i < s.len() ==> #[trigger] a_decls(s)[i] == a_decl(s[i]),
    decreases s.len(),
{
    if s.len() > 0 {
        lemma_a_decls(s.drop_last());
    }
}

} // verus!
