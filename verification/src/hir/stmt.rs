//! Statements and declarations of the high-level IR, and how statements
//! complete.

use vstd::prelude::*;

use crate::hir::expr::{HirExpr, SExpr, copy_expr, exprs_view, expr_view};
use crate::ids::{GenericParamId, LocalId, StringId, SymbolId, TypeId};

verus! {

broadcast use crate::hir::expr::lemma_exprs_view;

/// How control leaves a statement.
#[derive(Debug, Clone, Copy, PartialEq, Eq, Structural, Hash)]
pub enum Completion {
    MayFallThrough,
    Returns,
    Throws,
}

impl Completion {
    /// Whether control never falls through.
    pub fn is_terminal(self) -> (b: bool)
        ensures
            b == terminal(self),
    {
        match self {
            Completion::Returns | Completion::Throws => true,
            Completion::MayFallThrough => false,
        }
    }
}

/// Whether a completion never falls through.
pub open spec fn terminal(c: Completion) -> bool {
    c == Completion::Returns || c == Completion::Throws
}

/// The promise type an async function resolves with.
#[derive(Debug, Clone, Copy, PartialEq, Eq, Structural, Hash)]
pub enum HirAsyncInfo {
    Promise { ok_ty: TypeId, err_ty: Option<TypeId>, promise_ty: TypeId },
}

/// A function parameter.
#[derive(Debug, Clone, Copy, PartialEq, Eq, Structural, Hash)]
pub struct HirParam {
    pub name: StringId,
    pub ty: TypeId,
}

/// A class field.
#[derive(Debug, Clone, Copy, PartialEq, Eq, Structural, Hash)]
pub struct HirField {
    pub name: StringId,
    pub ty: TypeId,
}

/// A statement.
#[derive(Debug, PartialEq, Eq, Hash)]
pub enum HirStmt {
    Block(Vec<HirStmt>),
    Let { id: LocalId, name: SymbolId, ty: TypeId, init: Option<HirExpr> },
    Expr { expr: HirExpr },
    If { cond: HirExpr, then: Box<HirStmt>, otherwise: Option<Box<HirStmt>> },
    While { cond: HirExpr, body: Box<HirStmt> },
    DoWhile { body: Box<HirStmt>, cond: HirExpr },
    ForOf { binding: LocalId, iter: HirExpr, body: Box<HirStmt> },
    ForIn { binding: LocalId, iter: HirExpr, body: Box<HirStmt> },
    Switch { disc: HirExpr, cases: Vec<HirSwitchCase> },
    Return { value: Option<HirExpr> },
    Break { label: Option<SymbolId> },
    Continue { label: Option<SymbolId> },
    Throw { expr: HirExpr },
    Try { body: Box<HirStmt>, catch: Option<HirCatchClause>, finally: Option<Box<HirStmt>> },
    Decl(HirDecl),
}

/// One `case` (or the `default`, when `test` is `None`) of a switch.
#[derive(Debug, PartialEq, Eq, Hash)]
pub struct HirSwitchCase {
    pub test: Option<HirExpr>,
    pub body: Vec<HirStmt>,
}

/// The `catch` part of a `try` statement.
#[derive(Debug, PartialEq, Eq, Hash)]
pub struct HirCatchClause {
    pub binding: Option<(LocalId, SymbolId)>,
    pub body: Box<HirStmt>,
}

/// A member of an enum declaration.
#[derive(Debug, PartialEq, Eq, Hash)]
pub struct HirEnumVariant {
    pub name: StringId,
    pub value: Option<HirExpr>,
}

/// A function declaration.
#[derive(Debug, PartialEq, Eq, Hash)]
pub struct HirFunction {
    pub name: SymbolId,
    pub params: Vec<HirParam>,
    pub ret: TypeId,
    pub throws: Option<TypeId>,
    pub body: Vec<HirStmt>,
    pub is_async: bool,
    pub is_generator: bool,
    pub is_exported: bool,
    pub type_params: Vec<GenericParamId>,
    pub async_info: Option<HirAsyncInfo>,
}

/// A class declaration.
#[derive(Debug, PartialEq, Eq, Hash)]
pub struct HirClass {
    pub name: SymbolId,
    pub ty: TypeId,
    pub fields: Vec<HirField>,
    pub methods: Vec<HirFunction>,
    pub extends: Option<SymbolId>,
    pub type_params: Vec<GenericParamId>,
}

/// A declaration.
#[derive(Debug, PartialEq, Eq, Hash)]
pub enum HirDecl {
    Function(HirFunction),
    Class(HirClass),
    TypeAlias { name: SymbolId, target: TypeId },
    Enum { name: SymbolId, variants: Vec<HirEnumVariant> },
    Global { name: SymbolId, ty: TypeId, init: Option<HirExpr> },
    Interface { name: SymbolId },
    Namespace { name: SymbolId, members: Vec<HirDecl> },
}

// ---------------------------------------------------------------------------
// Abstract values
// ---------------------------------------------------------------------------

/// The abstract value of a statement.
pub enum SStmt {
    Block(Seq<SStmt>),
    Let { id: LocalId, name: SymbolId, ty: TypeId, init: Option<SExpr> },
    Expr { expr: SExpr },
    If { cond: SExpr, then: Box<SStmt>, otherwise: Option<Box<SStmt>> },
    While { cond: SExpr, body: Box<SStmt> },
    DoWhile { body: Box<SStmt>, cond: SExpr },
    ForOf { binding: LocalId, iter: SExpr, body: Box<SStmt> },
    ForIn { binding: LocalId, iter: SExpr, body: Box<SStmt> },
    Switch { disc: SExpr, cases: Seq<SCase> },
    Return { value: Option<SExpr> },
    Break { label: Option<SymbolId> },
    Continue { label: Option<SymbolId> },
    Throw { expr: SExpr },
    Try { body: Box<SStmt>, catch: Option<SCatch>, finally: Option<Box<SStmt>> },
    Decl(SDecl),
}

/// The abstract value of a switch case.
pub struct SCase {
    pub test: Option<SExpr>,
    pub body: Seq<SStmt>,
}

/// The abstract value of a catch clause.
pub struct SCatch {
    pub binding: Option<(LocalId, SymbolId)>,
    pub body: Box<SStmt>,
}

/// The abstract value of an enum member.
pub struct SVariant {
    pub name: StringId,
    pub value: Option<SExpr>,
}

/// The abstract value of a function declaration.
pub struct SFunction {
    pub name: SymbolId,
    pub params: Seq<HirParam>,
    pub ret: TypeId,
    pub throws: Option<TypeId>,
    pub body: Seq<SStmt>,
    pub is_async: bool,
    pub is_generator: bool,
    pub is_exported: bool,
    pub type_params: Seq<GenericParamId>,
    pub async_info: Option<HirAsyncInfo>,
}

/// The abstract value of a class declaration.
pub struct SClass {
    pub name: SymbolId,
    pub ty: TypeId,
    pub fields: Seq<HirField>,
    pub methods: Seq<SFunction>,
    pub extends: Option<SymbolId>,
    pub type_params: Seq<GenericParamId>,
}

/// The abstract value of a declaration.
pub enum SDecl {
    Function(SFunction),
    Class(SClass),
    TypeAlias { name: SymbolId, target: TypeId },
    Enum { name: SymbolId, variants: Seq<SVariant> },
    Global { name: SymbolId, ty: TypeId, init: Option<SExpr> },
    Interface { name: SymbolId },
    Namespace { name: SymbolId, members: Seq<SDecl> },
}

/// The abstract value of an optional expression.
pub open spec fn opt_expr_view(o: Option<HirExpr>) -> Option<SExpr> {
    match o {
        Some(e) => Some(expr_view(e)),
        None => None,
    }
}

/// The abstract values of a list of statements.
pub open spec fn stmts_view(s: Seq<HirStmt>) -> Seq<SStmt>
    decreases s, 0nat,
{
    if s.len() == 0 {
        Seq::empty()
    } else {
        stmts_view(s.drop_last()).push(stmt_view(s.last()))
    }
}


/// The abstract value of a switch case.
pub open spec fn case_view(c: HirSwitchCase) -> SCase {
    SCase { test: opt_expr_view(c.test), body: stmts_view(c.body@) }
}

/// The abstract values of a list of switch cases.
pub open spec fn cases_view(s: Seq<HirSwitchCase>) -> Seq<SCase>
    decreases s, 0nat,
{
    if s.len() == 0 {
        Seq::empty()
    } else {
        cases_view(s.drop_last()).push(
            SCase { test: opt_expr_view(s.last().test), body: stmts_view(s.last().body@) },
        )
    }
}


/// The abstract value of a statement.
pub open spec fn stmt_view(s: HirStmt) -> SStmt
    decreases s, 0nat,
{
    match s {
        HirStmt::Block(v) => SStmt::Block(stmts_view(v@)),
        HirStmt::Let { id, name, ty, init } => SStmt::Let { id, name, ty, init: opt_expr_view(init) },
        HirStmt::Expr { expr } => SStmt::Expr { expr: expr_view(expr) },
        HirStmt::If { cond, then, otherwise } => SStmt::If {
            cond: expr_view(cond),
            then: Box::new(stmt_view(*then)),
            otherwise: match otherwise {
                Some(b) => Some(Box::new(stmt_view(*b))),
                None => None,
            },
        },
        HirStmt::While { cond, body } => SStmt::While { cond: expr_view(cond), body: Box::new(stmt_view(*body)) },
        HirStmt::DoWhile { body, cond } => SStmt::DoWhile { body: Box::new(stmt_view(*body)), cond: expr_view(cond) },
        HirStmt::ForOf { binding, iter, body } =>
            SStmt::ForOf { binding, iter: expr_view(iter), body: Box::new(stmt_view(*body)) },
        HirStmt::ForIn { binding, iter, body } =>
            SStmt::ForIn { binding, iter: expr_view(iter), body: Box::new(stmt_view(*body)) },
        HirStmt::Switch { disc, cases } => SStmt::Switch { disc: expr_view(disc), cases: cases_view(cases@) },
        HirStmt::Return { value } => SStmt::Return { value: opt_expr_view(value) },
        HirStmt::Break { label } => SStmt::Break { label },
        HirStmt::Continue { label } => SStmt::Continue { label },
        HirStmt::Throw { expr } => SStmt::Throw { expr: expr_view(expr) },
        HirStmt::Try { body, catch, finally } => SStmt::Try {
            body: Box::new(stmt_view(*body)),
            catch: match catch {
                Some(c) => Some(SCatch { binding: c.binding, body: Box::new(stmt_view(*c.body)) }),
                None => None,
            },
            finally: match finally {
                Some(b) => Some(Box::new(stmt_view(*b))),
                None => None,
            },
        },
        HirStmt::Decl(d) => SStmt::Decl(decl_view(d)),
    }
}

/// The abstract values of the members of an enum.
pub open spec fn variants_view(s: Seq<HirEnumVariant>) -> Seq<SVariant>
    decreases s, 0nat,
{
    if s.len() == 0 {
        Seq::empty()
    } else {
        variants_view(s.drop_last()).push(
            SVariant { name: s.last().name, value: opt_expr_view(s.last().value) },
        )
    }
}

/// The abstract value of a function.
pub open spec fn function_view(f: HirFunction) -> SFunction
    decreases f, 0nat,
{
    SFunction {
        name: f.name,
        params: f.params@,
        ret: f.ret,
        throws: f.throws,
        body: stmts_view(f.body@),
        is_async: f.is_async,
        is_generator: f.is_generator,
        is_exported: f.is_exported,
        type_params: f.type_params@,
        async_info: f.async_info,
    }
}

/// The abstract values of a list of functions.
pub open spec fn functions_view(s: Seq<HirFunction>) -> Seq<SFunction>
    decreases s, 0nat,
{
    if s.len() == 0 {
        Seq::empty()
    } else {
        functions_view(s.drop_last()).push(function_view(s.last()))
    }
}

/// The abstract value of a class.
pub open spec fn class_view(c: HirClass) -> SClass
    decreases c, 0nat,
{
    SClass {
        name: c.name,
        ty: c.ty,
        fields: c.fields@,
        methods: functions_view(c.methods@),
        extends: c.extends,
        type_params: c.type_params@,
    }
}

/// The abstract value of a declaration.
pub open spec fn decl_view(d: HirDecl) -> SDecl
    decreases d, 0nat,
{
    match d {
        HirDecl::Function(f) => SDecl::Function(function_view(f)),
        HirDecl::Class(c) => SDecl::Class(class_view(c)),
        HirDecl::TypeAlias { name, target } => SDecl::TypeAlias { name, target },
        HirDecl::Enum { name, variants } => SDecl::Enum { name, variants: variants_view(variants@) },
        HirDecl::Global { name, ty, init } => SDecl::Global { name, ty, init: opt_expr_view(init) },
        HirDecl::Interface { name } => SDecl::Interface { name },
        HirDecl::Namespace { name, members } => SDecl::Namespace { name, members: decls_view(members@) },
    }
}

/// The abstract values of a list of declarations.
pub open spec fn decls_view(s: Seq<HirDecl>) -> Seq<SDecl>
    decreases s, 0nat,
{
    if s.len() == 0 {
        Seq::empty()
    } else {
        decls_view(s.drop_last()).push(decl_view(s.last()))
    }
}

impl View for HirStmt {
    type V = SStmt;

    open spec fn view(&self) -> SStmt {
        stmt_view(*self)
    }
}

impl View for HirSwitchCase {
    type V = SCase;

    open spec fn view(&self) -> SCase {
        case_view(*self)
    }
}

impl View for HirDecl {
    type V = SDecl;

    open spec fn view(&self) -> SDecl {
        decl_view(*self)
    }
}

impl View for HirFunction {
    type V = SFunction;

    open spec fn view(&self) -> SFunction {
        function_view(*self)
    }
}

/// The view of a list of statements lists the views of its elements.
pub broadcast proof fn lemma_stmts_view(s: Seq<HirStmt>)
    ensures
        #[trigger] stmts_view(s).len() == s.len(),
        forall|i: int| 0 <= i < s.len() ==> #[trigger] stmts_view(s)[i] == stmt_view(s[i]),
    decreases s.len(),
{
    if s.len() > 0 {
        lemma_stmts_view(s.drop_last());
    }
}

/// The view of a list of cases lists the views of its elements.
pub broadcast proof fn lemma_cases_view(s: Seq<HirSwitchCase>)
    ensures
        #[trigger] cases_view(s).len() == s.len(),
        forall|i: int| 0 <= i < s.len() ==> #[trigger] cases_view(s)[i] == case_view(s[i]),
    decreases s.len(),
{
    if s.len() > 0 {
        lemma_cases_view(s.drop_last());
    }
}

/// The view of a list of declarations lists the views of its elements.
pub broadcast proof fn lemma_decls_view(s: Seq<HirDecl>)
    ensures
        #[trigger] decls_view(s).len() == s.len(),
        forall|i: int| 0 <= i < s.len() ==> #[trigger] decls_view(s)[i] == decl_view(s[i]),
    decreases s.len(),
{
    if s.len() > 0 {
        lemma_decls_view(s.drop_last());
    }
}

/// The view of a list of functions lists the views of its elements.
pub broadcast proof fn lemma_functions_view(s: Seq<HirFunction>)
    ensures
        #[trigger] functions_view(s).len() == s.len(),
        forall|i: int| 0 <= i < s.len() ==> #[trigger] functions_view(s)[i] == function_view(s[i]),
    decreases s.len(),
{
    if s.len() > 0 {
        lemma_functions_view(s.drop_last());
    }
}

/// The view of a list of enum members lists the views of its elements.
pub broadcast proof fn lemma_variants_view(s: Seq<HirEnumVariant>)
    ensures
        #[trigger] variants_view(s).len() == s.len(),
        forall|i: int| 0 <= i < s.len() ==> #[trigger] variants_view(s)[i]
            == (SVariant { name: s[i].name, value: opt_expr_view(s[i].value) }),
    decreases s.len(),
{
    if s.len() > 0 {
        lemma_variants_view(s.drop_last());
    }
}

// ---------------------------------------------------------------------------
// Completion analysis
// ---------------------------------------------------------------------------

/// How the statement list of a switch case ends.
#[derive(Debug, Clone, Copy, PartialEq, Eq, Structural)]
pub enum TailClass {
    Returns,
    Throws,
    ExitsSwitch,
    FallsThrough,
}

/// Joins the completions of two alternative paths: falling through wins,
/// then throwing, and only two returning paths return.
pub open spec fn combine(a: Completion, b: Completion) -> Completion {
    if a == Completion::MayFallThrough || b == Completion::MayFallThrough {
        Completion::MayFallThrough
    } else if a == Completion::Throws || b == Completion::Throws {
        Completion::Throws
    } else {
        Completion::Returns
    }
}

/// Whether one of the cases is the `default`.
pub open spec fn has_default(cases: Seq<SCase>) -> bool {
    exists|i: int| 0 <= i < cases.len() && (#[trigger] cases[i]).test is None
}

/// How a statement list ends, seen from an enclosing switch.
pub open spec fn tail_class_of(stmts: Seq<SStmt>) -> TailClass
    decreases stmts, 0int,
{
    if stmts.len() == 0 {
        TailClass::FallsThrough
    } else {
        match stmts.last() {
            SStmt::Return { .. } => TailClass::Returns,
            SStmt::Throw { .. } => TailClass::Throws,
            SStmt::Break { .. } => TailClass::ExitsSwitch,
            SStmt::Continue { .. } => TailClass::ExitsSwitch,
            SStmt::Block(inner) => tail_class_of(inner),
            other => match completion_of(other) {
                Completion::Returns => TailClass::Returns,
                Completion::Throws => TailClass::Throws,
                Completion::MayFallThrough => TailClass::FallsThrough,
            },
        }
    }
}

/// The completion of case `i` of a switch, following fall-through into the
/// cases after it.
pub open spec fn chain_of(cases: Seq<SCase>, i: int) -> Completion
    decreases cases, 2 * (cases.len() - i),
{
    if 0 <= i < cases.len() {
        match tail_class_of(cases[i].body) {
            TailClass::Returns => Completion::Returns,
            TailClass::Throws => Completion::Throws,
            TailClass::ExitsSwitch => Completion::MayFallThrough,
            TailClass::FallsThrough => if i + 1 < cases.len() {
                chain_of(cases, i + 1)
            } else {
                Completion::MayFallThrough
            },
        }
    } else {
        Completion::MayFallThrough
    }
}

/// The join of the chained completions of cases `i..`.
pub open spec fn chains_from(cases: Seq<SCase>, i: int) -> Completion
    decreases cases, 2 * (cases.len() - i) + 1,
{
    if 0 <= i < cases.len() {
        combine(chain_of(cases, i), chains_from(cases, i + 1))
    } else {
        Completion::Returns
    }
}

/// The completion of a switch statement.
pub open spec fn switch_completion_of(cases: Seq<SCase>) -> Completion
    decreases cases, 2 * cases.len() + 2,
{
    if !has_default(cases) {
        Completion::MayFallThrough
    } else {
        chains_from(cases, 0)
    }
}

/// The completion of a statement.
pub open spec fn completion_of(s: SStmt) -> Completion
    decreases s, 0int,
{
    match s {
        SStmt::Return { .. } => Completion::Returns,
        SStmt::Throw { .. } => Completion::Throws,
        SStmt::Break { .. } => Completion::MayFallThrough,
        SStmt::Continue { .. } => Completion::MayFallThrough,
        SStmt::Block(stmts) => if stmts.len() == 0 {
            Completion::MayFallThrough
        } else {
            completion_of(stmts.last())
        },
        SStmt::If { then, otherwise, .. } => match otherwise {
            Some(o) => combine(completion_of(*then), completion_of(*o)),
            None => combine(completion_of(*then), Completion::MayFallThrough),
        },
        SStmt::Switch { cases, .. } => switch_completion_of(cases),
        SStmt::Try { body, catch, finally } => {
            let finally_terminal = match finally {
                Some(f) => terminal(completion_of(*f)),
                None => false,
            };
            if finally_terminal {
                completion_of(*finally.unwrap())
            } else {
                match completion_of(*body) {
                    Completion::Returns => Completion::Returns,
                    Completion::Throws => match catch {
                        Some(c) => completion_of(*c.body),
                        None => Completion::Throws,
                    },
                    Completion::MayFallThrough => Completion::MayFallThrough,
                }
            }
        },
        SStmt::DoWhile { body, .. } => completion_of(*body),
        _ => Completion::MayFallThrough,
    }
}

fn combine_completion(a: Completion, b: Completion) -> (c: Completion)
    ensures
        c == combine(a, b),
{
    if a == Completion::MayFallThrough || b == Completion::MayFallThrough {
        Completion::MayFallThrough
    } else if a == Completion::Throws || b == Completion::Throws {
        Completion::Throws
    } else {
        Completion::Returns
    }
}

fn tail_class(stmts: &Vec<HirStmt>) -> (t: TailClass)
    ensures
        t == tail_class_of(stmts_view(stmts@)),
    decreases stmts, 0int,
{
    broadcast use lemma_stmts_view, lemma_cases_view;

    if stmts.len() == 0 {
        return TailClass::FallsThrough;
    }
    let last = &stmts[stmts.len() - 1];
    proof {
        assert(decreases_to!(stmts => stmts@[stmts@.len() - 1]));
        assert(stmts_view(stmts@).last() == stmt_view(*last));
    }
    match last {
        HirStmt::Return { .. } => TailClass::Returns,
        HirStmt::Throw { .. } => TailClass::Throws,
        HirStmt::Break { .. } | HirStmt::Continue { .. } => TailClass::ExitsSwitch,
        HirStmt::Block(inner) => tail_class(inner),
        other => match other.completion() {
            Completion::Returns => TailClass::Returns,
            Completion::Throws => TailClass::Throws,
            Completion::MayFallThrough => TailClass::FallsThrough,
        },
    }
}

fn chain_at(cases: &Vec<HirSwitchCase>, i: usize) -> (c: Completion)
    requires
        i < cases@.len(),
    ensures
        c == chain_of(cases_view(cases@), i as int),
    decreases cases, 2 * (cases@.len() - i),
{
    broadcast use lemma_stmts_view, lemma_cases_view;

    proof {
        assert(decreases_to!(cases => cases@[i as int].body));
    }
    match tail_class(&cases[i].body) {
        TailClass::Returns => Completion::Returns,
        TailClass::Throws => Completion::Throws,
        TailClass::ExitsSwitch => Completion::MayFallThrough,
        TailClass::FallsThrough => if i < cases.len() - 1 {
            chain_at(cases, i + 1)
        } else {
            Completion::MayFallThrough
        },
    }
}

fn switch_completion(cases: &Vec<HirSwitchCase>) -> (c: Completion)
    ensures
        c == switch_completion_of(cases_view(cases@)),
    decreases cases, 2 * cases@.len() + 2,
{
    broadcast use lemma_stmts_view, lemma_cases_view;

    let ghost cv = cases_view(cases@);
    proof {
        lemma_cases_view(cases@);
    }
    let mut found = false;
    let mut k: usize = 0;
    while k < cases.len()
        invariant
            k <= cases@.len(),
            cv == cases_view(cases@),
            found == exists|j: int| 0 <= j < k && (#[trigger] cv[j]).test is None,
        decreases cases@.len() - k,
    {
        proof {
            lemma_cases_view(cases@);
        }
        if cases[k].test.is_none() {
            assert(cv[k as int].test is None);
            found = true;
        }
        k = k + 1;
    }
    if !found {
        return Completion::MayFallThrough;
    }
    let mut acc = Completion::Returns;
    let mut i: usize = cases.len();
    while i > 0
        invariant
            i <= cases@.len(),
            cv == cases_view(cases@),
            acc == chains_from(cv, i as int),
        decreases i,
    {
        proof {
            lemma_cases_view(cases@);
        }
        i = i - 1;
        let c = chain_at(cases, i);
        acc = combine_completion(c, acc);
    }
    acc
}

impl HirStmt {
    /// A block of statements.
    pub fn block(stmts: Vec<HirStmt>) -> (s: Self)
        ensures
            s == HirStmt::Block(stmts),
    {
        HirStmt::Block(stmts)
    }

    /// A `return`, with or without a value.
    pub fn ret(value: Option<HirExpr>) -> (s: Self)
        ensures
            s == (HirStmt::Return { value }),
    {
        HirStmt::Return { value }
    }

    /// An expression statement.
    pub fn expr(expr: HirExpr) -> (s: Self)
        ensures
            s == (HirStmt::Expr { expr }),
    {
        HirStmt::Expr { expr }
    }

    /// A local declaration.
    pub fn let_(id: LocalId, name: SymbolId, ty: TypeId, init: Option<HirExpr>) -> (s: Self)
        ensures
            s == (HirStmt::Let { id, name, ty, init }),
    {
        HirStmt::Let { id, name, ty, init }
    }

    /// How control leaves this statement.
    pub fn completion(&self) -> (c: Completion)
        ensures
            c == completion_of(self@),
        decreases self, 0int,
    {
        broadcast use lemma_stmts_view, lemma_cases_view;

            match self {
            HirStmt::Return { .. } => Completion::Returns,
            HirStmt::Throw { .. } => Completion::Throws,
            HirStmt::Break { .. } | HirStmt::Continue { .. } => Completion::MayFallThrough,
            HirStmt::Block(stmts) => {
                if stmts.len() == 0 {
                    Completion::MayFallThrough
                } else {
                    proof {
                        assert(decreases_to!(stmts => stmts@[stmts@.len() - 1]));
                    }
                    let c = stmts[stmts.len() - 1].completion();
                    assert(stmts_view(stmts@).last() == stmt_view(stmts@[stmts@.len() - 1]));
                    assert(c == completion_of(self@));
                    c
                }
            },
            HirStmt::If { then, otherwise: Some(otherwise), .. } =>
                combine_completion(then.completion(), otherwise.completion()),
            HirStmt::If { then, otherwise: None, .. } =>
                combine_completion(then.completion(), Completion::MayFallThrough),
            HirStmt::Switch { cases, .. } => switch_completion(cases),
            HirStmt::Try { body, catch, finally } => {
                let body_c = body.completion();
                match finally {
                    Some(f) => {
                        let fc = f.completion();
                        assert(fc == completion_of(stmt_view(**f)));
                        assert(self@ matches SStmt::Try { finally: Some(fv), .. } && *fv == stmt_view(**f));
                        if fc.is_terminal() {
                            assert(fc == completion_of(self@));
                            return fc;
                        }
                    },
                    None => {},
                }
                match body_c {
                    Completion::Returns => Completion::Returns,
                    Completion::Throws => match catch {
                        Some(c) => c.body.completion(),
                        None => Completion::Throws,
                    },
                    Completion::MayFallThrough => Completion::MayFallThrough,
                }
            },
            HirStmt::DoWhile { body, .. } => body.completion(),
            HirStmt::While { .. }
            | HirStmt::ForOf { .. }
            | HirStmt::ForIn { .. }
            | HirStmt::Let { .. }
            | HirStmt::Expr { .. }
            | HirStmt::Decl(_) => Completion::MayFallThrough,
        }
    }

    /// Whether control never falls through this statement.
    pub fn is_terminal(&self) -> (b: bool)
        ensures
            b == terminal(completion_of(self@)),
    {
        self.completion().is_terminal()
    }
}

/// The completion of `case` at position `index` of `cases`, following
/// fall-through into the cases after `index`.
pub open spec fn case_chain_of(case: SCase, cases: Seq<SCase>, index: int) -> Completion {
    match tail_class_of(case.body) {
        TailClass::Returns => Completion::Returns,
        TailClass::Throws => Completion::Throws,
        TailClass::ExitsSwitch => Completion::MayFallThrough,
        TailClass::FallsThrough => if index + 1 < cases.len() {
            chain_of(cases, index + 1)
        } else {
            Completion::MayFallThrough
        },
    }
}

impl HirSwitchCase {
    /// A case with the given test (`None` for `default`) and body.
    pub fn new(test: Option<HirExpr>, body: Vec<HirStmt>) -> (c: Self)
        ensures
            c == (HirSwitchCase { test, body }),
    {
        HirSwitchCase { test, body }
    }

    /// Whether this is the `default` case.
    pub fn is_default(&self) -> (b: bool)
        ensures
            b == (self.test is None),
    {
        self.test.is_none()
    }

    /// Whether the body of this case ends by returning or throwing.
    pub fn is_terminal(&self) -> (b: bool)
        ensures
            b == (tail_class_of(self@.body) == TailClass::Returns
                || tail_class_of(self@.body) == TailClass::Throws),
    {
        match tail_class(&self.body) {
            TailClass::Returns | TailClass::Throws => true,
            _ => false,
        }
    }

    /// Whether control never leaves the switch normally once this case,
    /// at position `index` of `cases`, is entered.
    pub fn is_terminal_in_switch(&self, cases: &Vec<HirSwitchCase>, index: usize) -> (b: bool)
        ensures
            b == terminal(case_chain_of(self@, cases_view(cases@), index as int)),
    {
        self.completion_chain(cases, index).is_terminal()
    }

    /// The completion of this case at position `index` of `cases`,
    /// following fall-through into the cases after it.
    pub fn completion_chain(&self, cases: &Vec<HirSwitchCase>, index: usize) -> (c: Completion)
        ensures
            c == case_chain_of(self@, cases_view(cases@), index as int),
    {
        broadcast use lemma_stmts_view, lemma_cases_view;

            match tail_class(&self.body) {
            TailClass::Returns => Completion::Returns,
            TailClass::Throws => Completion::Throws,
            TailClass::ExitsSwitch => Completion::MayFallThrough,
            TailClass::FallsThrough => {
                if index < cases.len() && index + 1 < cases.len() {
                    chain_at(cases, index + 1)
                } else {
                    Completion::MayFallThrough
                }
            },
        }
    }
}

impl HirCatchClause {
    /// A catch clause with an optional binding and a body.
    pub fn new(binding: Option<(LocalId, SymbolId)>, body: Box<HirStmt>) -> (c: Self)
        ensures
            c == (HirCatchClause { binding, body }),
    {
        HirCatchClause { binding, body }
    }
}

// ---------------------------------------------------------------------------
// Copies
// ---------------------------------------------------------------------------

fn copy_opt_expr(o: &Option<HirExpr>) -> (r: Option<HirExpr>)
    ensures
        opt_expr_view(r) == opt_expr_view(*o),
{
    match o {
        Some(e) => Some(copy_expr(e)),
        None => None,
    }
}

fn copy_ids<T: Copy>(v: &Vec<T>) -> (r: Vec<T>)
    ensures
        r@ == v@,
{
    let mut r: Vec<T> = Vec::new();
    let mut i: usize = 0;
    while i < v.len()
        invariant
            i <= v@.len(),
            r@ == v@.take(i as int),
        decreases v@.len() - i,
    {
        r.push(v[i]);
        i = i + 1;
        assert(r@ =~= v@.take(i as int));
    }
    assert(v@.take(v@.len() as int) =~= v@);
    r
}

fn copy_stmts(v: &Vec<HirStmt>) -> (r: Vec<HirStmt>)
    ensures
        stmts_view(r@) == stmts_view(v@),
    decreases v, 0nat,
{
    let mut r: Vec<HirStmt> = Vec::new();
    let mut i: usize = 0;
    while i < v.len()
        invariant
            i <= v@.len(),
            stmts_view(r@) == stmts_view(v@.take(i as int)),
        decreases v@.len() - i,
    {
        proof {
            assert(decreases_to!(v => v@[i as int]));
        }
        let ghost prev = r@;
        r.push(copy_stmt(&v[i]));
        proof {
            assert(r@.drop_last() =~= prev);
            assert(v@.take(i as int + 1).drop_last() =~= v@.take(i as int));
        }
        i = i + 1;
    }
    assert(v@.take(v@.len() as int) =~= v@);
    r
}

fn copy_cases(v: &Vec<HirSwitchCase>) -> (r: Vec<HirSwitchCase>)
    ensures
        cases_view(r@) == cases_view(v@),
    decreases v, 0nat,
{
    let mut r: Vec<HirSwitchCase> = Vec::new();
    let mut i: usize = 0;
    while i < v.len()
        invariant
            i <= v@.len(),
            cases_view(r@) == cases_view(v@.take(i as int)),
        decreases v@.len() - i,
    {
        proof {
            assert(decreases_to!(v => v@[i as int]));
        }
        let ghost prev = r@;
        r.push(HirSwitchCase { test: copy_opt_expr(&v[i].test), body: copy_stmts(&v[i].body) });
        proof {
            assert(r@.drop_last() =~= prev);
            assert(v@.take(i as int + 1).drop_last() =~= v@.take(i as int));
        }
        i = i + 1;
    }
    assert(v@.take(v@.len() as int) =~= v@);
    r
}

fn copy_functions(v: &Vec<HirFunction>) -> (r: Vec<HirFunction>)
    ensures
        functions_view(r@) == functions_view(v@),
    decreases v, 0nat,
{
    let mut r: Vec<HirFunction> = Vec::new();
    let mut i: usize = 0;
    while i < v.len()
        invariant
            i <= v@.len(),
            functions_view(r@) == functions_view(v@.take(i as int)),
        decreases v@.len() - i,
    {
        proof {
            assert(decreases_to!(v => v@[i as int]));
        }
        let ghost prev = r@;
        r.push(copy_function(&v[i]));
        proof {
            assert(r@.drop_last() =~= prev);
            assert(v@.take(i as int + 1).drop_last() =~= v@.take(i as int));
        }
        i = i + 1;
    }
    assert(v@.take(v@.len() as int) =~= v@);
    r
}

fn copy_decls(v: &Vec<HirDecl>) -> (r: Vec<HirDecl>)
    ensures
        decls_view(r@) == decls_view(v@),
    decreases v, 0nat,
{
    let mut r: Vec<HirDecl> = Vec::new();
    let mut i: usize = 0;
    while i < v.len()
        invariant
            i <= v@.len(),
            decls_view(r@) == decls_view(v@.take(i as int)),
        decreases v@.len() - i,
    {
        proof {
            assert(decreases_to!(v => v@[i as int]));
        }
        let ghost prev = r@;
        r.push(copy_decl(&v[i]));
        proof {
            assert(r@.drop_last() =~= prev);
            assert(v@.take(i as int + 1).drop_last() =~= v@.take(i as int));
        }
        i = i + 1;
    }
    assert(v@.take(v@.len() as int) =~= v@);
    r
}

fn copy_variants(v: &Vec<HirEnumVariant>) -> (r: Vec<HirEnumVariant>)
    ensures
        variants_view(r@) == variants_view(v@),
    decreases v, 0nat,
{
    let mut r: Vec<HirEnumVariant> = Vec::new();
    let mut i: usize = 0;
    while i < v.len()
        invariant
            i <= v@.len(),
            variants_view(r@) == variants_view(v@.take(i as int)),
        decreases v@.len() - i,
    {
        proof {
            assert(decreases_to!(v => v@[i as int]));
        }
        let ghost prev = r@;
        r.push(HirEnumVariant { name: v[i].name, value: copy_opt_expr(&v[i].value) });
        proof {
            assert(r@.drop_last() =~= prev);
            assert(v@.take(i as int + 1).drop_last() =~= v@.take(i as int));
        }
        i = i + 1;
    }
    assert(v@.take(v@.len() as int) =~= v@);
    r
}

/// A copy of a statement.
pub fn copy_stmt(s: &HirStmt) -> (r: HirStmt)
    ensures
        r@ == s@,
    decreases s, 0nat,
{
    match s {
        HirStmt::Block(v) => HirStmt::Block(copy_stmts(v)),
        HirStmt::Let { id, name, ty, init } => HirStmt::Let { id: *id, name: *name, ty: *ty, init: copy_opt_expr(init) },
        HirStmt::Expr { expr } => HirStmt::Expr { expr: copy_expr(expr) },
        HirStmt::If { cond, then, otherwise } => HirStmt::If {
            cond: copy_expr(cond),
            then: Box::new(copy_stmt(then)),
            otherwise: match otherwise {
                Some(b) => Some(Box::new(copy_stmt(b))),
                None => None,
            },
        },
        HirStmt::While { cond, body } => HirStmt::While { cond: copy_expr(cond), body: Box::new(copy_stmt(body)) },
        HirStmt::DoWhile { body, cond } => HirStmt::DoWhile { body: Box::new(copy_stmt(body)), cond: copy_expr(cond) },
        HirStmt::ForOf { binding, iter, body } =>
            HirStmt::ForOf { binding: *binding, iter: copy_expr(iter), body: Box::new(copy_stmt(body)) },
        HirStmt::ForIn { binding, iter, body } =>
            HirStmt::ForIn { binding: *binding, iter: copy_expr(iter), body: Box::new(copy_stmt(body)) },
        HirStmt::Switch { disc, cases } => HirStmt::Switch { disc: copy_expr(disc), cases: copy_cases(cases) },
        HirStmt::Return { value } => HirStmt::Return { value: copy_opt_expr(value) },
        HirStmt::Break { label } => HirStmt::Break { label: *label },
        HirStmt::Continue { label } => HirStmt::Continue { label: *label },
        HirStmt::Throw { expr } => HirStmt::Throw { expr: copy_expr(expr) },
        HirStmt::Try { body, catch, finally } => HirStmt::Try {
            body: Box::new(copy_stmt(body)),
            catch: match catch {
                Some(c) => Some(HirCatchClause { binding: c.binding, body: Box::new(copy_stmt(&c.body)) }),
                None => None,
            },
            finally: match finally {
                Some(b) => Some(Box::new(copy_stmt(b))),
                None => None,
            },
        },
        HirStmt::Decl(d) => HirStmt::Decl(copy_decl(d)),
    }
}

/// A copy of a function.
pub fn copy_function(f: &HirFunction) -> (r: HirFunction)
    ensures
        r@ == f@,
    decreases f, 0nat,
{
    HirFunction {
        name: f.name,
        params: copy_ids(&f.params),
        ret: f.ret,
        throws: f.throws,
        body: copy_stmts(&f.body),
        is_async: f.is_async,
        is_generator: f.is_generator,
        is_exported: f.is_exported,
        type_params: copy_ids(&f.type_params),
        async_info: f.async_info,
    }
}

/// A copy of a declaration.
pub fn copy_decl(d: &HirDecl) -> (r: HirDecl)
    ensures
        r@ == d@,
    decreases d, 0nat,
{
    match d {
        HirDecl::Function(f) => HirDecl::Function(copy_function(f)),
        HirDecl::Class(c) => HirDecl::Class(HirClass {
            name: c.name,
            ty: c.ty,
            fields: copy_ids(&c.fields),
            methods: copy_functions(&c.methods),
            extends: c.extends,
            type_params: copy_ids(&c.type_params),
        }),
        HirDecl::TypeAlias { name, target } => HirDecl::TypeAlias { name: *name, target: *target },
        HirDecl::Enum { name, variants } => HirDecl::Enum { name: *name, variants: copy_variants(variants) },
        HirDecl::Global { name, ty, init } => HirDecl::Global { name: *name, ty: *ty, init: copy_opt_expr(init) },
        HirDecl::Interface { name } => HirDecl::Interface { name: *name },
        HirDecl::Namespace { name, members } => HirDecl::Namespace { name: *name, members: copy_decls(members) },
    }
}

impl Clone for HirStmt {
    fn clone(&self) -> (r: Self)
        ensures
            r@ == self@,
    {
        copy_stmt(self)
    }
}

impl Clone for HirSwitchCase {
    fn clone(&self) -> (r: Self)
        ensures
            r@ == self@,
    {
        HirSwitchCase { test: copy_opt_expr(&self.test), body: copy_stmts(&self.body) }
    }
}

impl Clone for HirCatchClause {
    fn clone(&self) -> (r: Self) {
        HirCatchClause { binding: self.binding, body: Box::new(copy_stmt(&self.body)) }
    }
}

impl Clone for HirEnumVariant {
    fn clone(&self) -> (r: Self) {
        HirEnumVariant { name: self.name, value: copy_opt_expr(&self.value) }
    }
}

impl Clone for HirFunction {
    fn clone(&self) -> (r: Self)
        ensures
            r@ == self@,
    {
        copy_function(self)
    }
}

impl Clone for HirClass {
    fn clone(&self) -> (r: Self) {
        HirClass {
            name: self.name,
            ty: self.ty,
            fields: copy_ids(&self.fields),
            methods: copy_functions(&self.methods),
            extends: self.extends,
            type_params: copy_ids(&self.type_params),
        }
    }
}

impl Clone for HirDecl {
    fn clone(&self) -> (r: Self)
        ensures
            r@ == self@,
    {
        copy_decl(self)
    }
}

/// Joining two paths does not depend on their order.
pub proof fn law_combine_commutes(a: Completion, b: Completion)
    ensures
        combine(a, b) == combine(b, a),
{
}

/// Swapping the branches of an `if` with an `else` keeps its completion.
pub proof fn law_if_branches_swap(cond: SExpr, a: SStmt, b: SStmt)
    ensures
        completion_of(SStmt::If { cond, then: Box::new(a), otherwise: Some(Box::new(b)) })
            == completion_of(SStmt::If { cond, then: Box::new(b), otherwise: Some(Box::new(a)) }),
{
}

/// An `if` without `else` may always fall through.
pub proof fn law_if_without_else_falls_through(cond: SExpr, a: SStmt)
    ensures
        completion_of(SStmt::If { cond, then: Box::new(a), otherwise: None })
            == Completion::MayFallThrough,
{
}

/// A `finally` block that returns or throws decides the completion of the
/// whole `try`.
pub proof fn law_terminal_finally_decides(body: SStmt, catch: Option<SCatch>, fin: SStmt)
    requires
        terminal(completion_of(fin)),
    ensures
        completion_of(SStmt::Try { body: Box::new(body), catch, finally: Some(Box::new(fin)) })
            == completion_of(fin),
{
}

/// A switch without a `default` case may always fall through.
pub proof fn law_switch_without_default_falls_through(disc: SExpr, cases: Seq<SCase>)
    requires
        forall|i: int| 0 <= i < cases.len() ==> (#[trigger] cases[i]).test is Some,
    ensures
        completion_of(SStmt::Switch { disc, cases }) == Completion::MayFallThrough,
{
    assert(!has_default(cases));
    assert(switch_completion_of(cases) == Completion::MayFallThrough);
}

/// Wrapping a statement in a block of its own keeps its completion.
pub proof fn law_block_of_one(s: SStmt)
    ensures
        completion_of(SStmt::Block(seq![s])) == completion_of(s),
{
    assert(seq![s].last() == s);
}

} // verus!
