//! The text dump of function bodies: expressions, places and statements.

use vstd::prelude::*;

use crate::ids::{FieldId, SymbolId};
use crate::mir::body::{
    MBase, MExpr, MPlace, MStmt, MirBody, MirExpr, MirPlace, MirPlaceBase, MirStmt, lemma_mexprs_view,
    lemma_mfields_view, lemma_mstmts_view, mbase_view, mexpr_view, mexprs_view, mfields_view, mplace_view,
    mstmt_view, mstmts_view,
};
use crate::mir::decl::MirLocalDecl;
use crate::mir::dump::{Dumper, dump_sym, spaces, sym_text, table_texts};
use crate::mir::ops::{bin_op_text, fmt_bin_op, fmt_op, fmt_unary, runtime_op_text, unary_op_text};
use crate::text::{decimal, signed_decimal};

verus! {

// ---------------------------------------------------------------------------
// Texts of float literals
// ---------------------------------------------------------------------------

/// The texts that float literals are written with, by the bits of their
/// value; the first entry for given bits counts.
#[derive(Debug)]
pub struct FloatTexts {
    pub entries: Vec<(u64, String)>,
}

/// The texts of float literals as abstract values.
pub open spec fn float_entries(t: Option<&FloatTexts>) -> Seq<(u64, Seq<char>)> {
    match t {
        Some(f) => f.entries@.map_values(|e: (u64, String)| (e.0, e.1@)),
        None => Seq::empty(),
    }
}

/// The text of the float literal with bits `bits`: that of the first entry
/// for them, or nothing.
pub open spec fn float_lookup(entries: Seq<(u64, Seq<char>)>, bits: u64) -> Seq<char>
    decreases entries.len(),
{
    if entries.len() == 0 {
        Seq::empty()
    } else if entries[0].0 == bits {
        entries[0].1
    } else {
        float_lookup(entries.drop_first(), bits)
    }
}

impl FloatTexts {
    /// No texts.
    pub fn new() -> (t: Self)
        ensures
            t.entries@.len() == 0,
    {
        FloatTexts { entries: Vec::new() }
    }

    /// Adds the text of the float with bits `bits`.
    pub fn insert(&mut self, bits: u64, text: String)
        ensures
            final(self).entries@ == old(self).entries@.push((bits, text)),
    {
        self.entries.push((bits, text));
    }
}

/// What the dump needs besides the text: the symbol table and the float
/// texts.
pub struct DumpEnv {
    pub syms: Option<Seq<Seq<char>>>,
    pub floats: Seq<(u64, Seq<char>)>,
}

/// The environment of a dumper.
pub open spec fn env_of(d: &Dumper) -> DumpEnv {
    DumpEnv { syms: table_texts(d.symbols), floats: float_entries(d.floats) }
}

// ---------------------------------------------------------------------------
// Texts
// ---------------------------------------------------------------------------

/// The decimal text of an id.
pub open spec fn dec(n: u32) -> Seq<char> {
    decimal(n as nat)
}

/// How an expression is written.
pub open spec fn expr_text(e: MExpr, env: DumpEnv) -> Seq<char>
    decreases e, 0nat,
{
    match e {
        MExpr::Unit => "()"@,
        MExpr::Bool(v) => if v {
            "true"@
        } else {
            "false"@
        },
        MExpr::Int { value, ty } => signed_decimal(value as int) + "(:"@ + dec(ty.0) + ")"@,
        MExpr::Float { value, ty } => float_lookup(env.floats, value) + "(:"@ + dec(ty.0) + ")"@,
        MExpr::String { id, ty } => "string("@ + dec(id.0) + ")(:"@ + dec(ty.0) + ")"@,
        MExpr::Null { ty } => "null(:"@ + dec(ty.0) + ")"@,
        MExpr::Local(id) => "local("@ + dec(id.0) + ")"@,
        MExpr::Global(sym) => sym_text(sym, env.syms),
        MExpr::Field { base, field, ty } => expr_text(*base, env) + "."@ + dec(field.0) + ":"@ + dec(ty.0),
        MExpr::Index { base, index, ty } => expr_text(*base, env) + "["@ + expr_text(*index, env) + "]:"@ + dec(
            ty.0,
        ),
        MExpr::Call { callee, args, ty } => "call fn("@ + dec(callee.0) + ")("@ + args_text(args, env) + "):"@
            + dec(ty.0),
        MExpr::StructLiteral { struct_id, fields, ty } => "struct("@ + dec(struct_id.0) + "){"@ + fields_text(
            fields,
            env,
        ) + "}:"@ + dec(ty.0),
        MExpr::ResultOk { value, ty } => "ok("@ + expr_text(*value, env) + "):"@ + dec(ty.0),
        MExpr::ResultErr { error, ty } => "err("@ + expr_text(*error, env) + "):"@ + dec(ty.0),
        MExpr::Binary { op, left, right, ty } => "("@ + expr_text(*left, env) + " "@ + bin_op_text(op) + " "@
            + expr_text(*right, env) + "):"@ + dec(ty.0),
        MExpr::Unary { op, expr, ty } => unary_op_text(op) + "("@ + expr_text(*expr, env) + "):"@ + dec(ty.0),
    }
}

/// Expressions written one after the other, separated by `, `.
pub open spec fn args_text(es: Seq<MExpr>, env: DumpEnv) -> Seq<char>
    decreases es, 1nat,
{
    if es.len() == 0 {
        Seq::empty()
    } else if es.len() == 1 {
        expr_text(es[0], env)
    } else {
        args_text(es.drop_last(), env) + ", "@ + expr_text(es.last(), env)
    }
}

/// The fields of a struct literal, each `id:value`, separated by `, `.
pub open spec fn fields_text(fs: Seq<(FieldId, MExpr)>, env: DumpEnv) -> Seq<char>
    decreases fs, 1nat,
{
    if fs.len() == 0 {
        Seq::empty()
    } else if fs.len() == 1 {
        dec(fs[0].0.0) + ":"@ + expr_text(fs[0].1, env)
    } else {
        fields_text(fs.drop_last(), env) + ", "@ + dec(fs.last().0.0) + ":"@ + expr_text(fs.last().1, env)
    }
}

/// How the base of a place is written.
pub open spec fn base_text(b: MBase, env: DumpEnv) -> Seq<char>
    decreases b,
{
    match b {
        MBase::Local(id) => "local("@ + dec(id.0) + ")"@,
        MBase::Field { base, field, .. } => base_text(*base, env) + "."@ + dec(field.0),
        MBase::Index { base, index, ty } => "index("@ + expr_text(*base, env) + "["@ + expr_text(*index, env)
            + "]:"@ + dec(ty.0) + ")"@,
    }
}

/// How a place is written.
pub open spec fn place_text(p: MPlace, env: DumpEnv) -> Seq<char> {
    match p {
        MPlace::Local { id } => "local("@ + dec(id.0) + ")"@,
        MPlace::Field { base, field, ty } => "field("@ + base_text(*base, env) + "."@ + dec(field.0) + ":"@ + dec(
            ty.0,
        ) + ")"@,
        MPlace::Index { base, index, ty } => "index("@ + expr_text(*base, env) + "["@ + expr_text(*index, env)
            + "]:"@ + dec(ty.0) + ")"@,
    }
}

/// A line break.
pub open spec fn nl() -> Seq<char> {
    seq!['\n']
}

/// How a statement is written at indentation level `lvl`: most statements
/// start where the text is, and only the lines that close a block, and
/// `return`, `break`, `continue` and `set_state`, are indented.
pub open spec fn stmt_text(s: MStmt, lvl: nat, env: DumpEnv) -> Seq<char>
    decreases s, 0nat,
{
    match s {
        MStmt::Let { local, ty, init, mutable } => "let "@ + (if mutable {
            "mut "@
        } else {
            Seq::empty()
        }) + dec(local.0) + ": "@ + dec(ty.0) + match init {
            Some(e) => " = "@ + expr_text(e, env),
            None => Seq::empty(),
        } + nl(),
        MStmt::Assign { target, value } => "assign "@ + place_text(target, env) + " = "@ + expr_text(value, env)
            + nl(),
        MStmt::Expr(e) => "expr "@ + expr_text(e, env) + nl(),
        MStmt::Return(v) => match v {
            None => spaces(lvl) + "return"@ + nl(),
            Some(e) => "return "@ + expr_text(e, env) + nl(),
        },
        MStmt::ReturnResultErr { error, err_ty } => "return_result_err("@ + expr_text(error, env) + ", "@ + dec(
            err_ty.0,
        ) + ")"@ + nl(),
        MStmt::Throw { error, error_ty } => "throw("@ + expr_text(error, env) + ", "@ + dec(error_ty.0) + ")"@
            + nl(),
        MStmt::If { cond, then_block, else_block } => "if ("@ + expr_text(cond, env) + ") {\n"@ + stmts_text(
            then_block,
            lvl + 1,
            env,
        ) + spaces(lvl) + "}"@ + nl() + match else_block {
            Some(b) => spaces(lvl) + "else {"@ + nl() + stmts_text(b, lvl + 1, env) + spaces(lvl) + "}"@ + nl(),
            None => Seq::empty(),
        },
        MStmt::While { cond, body } => "while ("@ + expr_text(cond, env) + ") {\n"@ + stmts_text(body, lvl + 1, env)
            + spaces(lvl) + "}"@ + nl(),
        MStmt::ForOf { item, iterable, body } => "for "@ + dec(item.0) + " of "@ + expr_text(iterable, env)
            + " {\n"@ + stmts_text(body, lvl + 1, env) + spaces(lvl) + "}"@ + nl(),
        MStmt::ForIn { key, object, body } => "for "@ + dec(key.0) + " in "@ + expr_text(object, env) + " {\n"@
            + stmts_text(body, lvl + 1, env) + spaces(lvl) + "}"@ + nl(),
        MStmt::Break => spaces(lvl) + "break"@ + nl(),
        MStmt::Continue => spaces(lvl) + "continue"@ + nl(),
        MStmt::Runtime { op, args, dest, ty } => "runtime "@ + runtime_op_text(op) + "("@ + args_text(args, env)
            + ") -> "@ + dec(ty.0) + match dest {
            Some(d) => " dest=local("@ + dec(d.0) + ")"@,
            None => Seq::empty(),
        } + nl(),
        MStmt::Await { promise, dest, next_state, ty } => "await ("@ + expr_text(promise, env) + ") -> local("@
            + dec(dest.0) + ") state("@ + signed_decimal(next_state as int) + ") ty("@ + dec(ty.0) + ")"@ + nl(),
        MStmt::SetState { value } => spaces(lvl) + "set_state("@ + signed_decimal(value as int) + ")"@ + nl(),
    }
}

/// Statements written one after the other.
pub open spec fn stmts_text(ss: Seq<MStmt>, lvl: nat, env: DumpEnv) -> Seq<char>
    decreases ss, 1nat,
{
    if ss.len() == 0 {
        Seq::empty()
    } else {
        stmts_text(ss.drop_last(), lvl, env) + stmt_text(ss.last(), lvl, env)
    }
}

/// How many blocks a statement nests.
pub open spec fn stmt_depth(s: MStmt) -> nat
    decreases s, 0nat,
{
    match s {
        MStmt::If { then_block, else_block, .. } => {
            let t = stmts_depth(then_block);
            let e = match else_block {
                Some(b) => stmts_depth(b),
                None => 0,
            };
            1 + if t >= e {
                t
            } else {
                e
            }
        },
        MStmt::While { body, .. } => 1 + stmts_depth(body),
        MStmt::ForOf { body, .. } => 1 + stmts_depth(body),
        MStmt::ForIn { body, .. } => 1 + stmts_depth(body),
        _ => 0,
    }
}

/// How many blocks the deepest statement of a list nests.
pub open spec fn stmts_depth(ss: Seq<MStmt>) -> nat
    decreases ss, 1nat,
{
    if ss.len() == 0 {
        0
    } else {
        let a = stmts_depth(ss.drop_last());
        let b = stmt_depth(ss.last());
        if a >= b {
            a
        } else {
            b
        }
    }
}

/// How a local is written.
pub open spec fn local_text(l: MirLocalDecl, lvl: nat, env: DumpEnv) -> Seq<char> {
    spaces(lvl) + sym_text(l.name, env.syms) + ": "@ + (if l.mutable {
        "var "@
    } else {
        Seq::empty()
    }) + dec(l.ty.0) + " = "@ + dec(l.id.0) + nl()
}

/// Locals written one after the other.
pub open spec fn locals_text(ls: Seq<MirLocalDecl>, lvl: nat, env: DumpEnv) -> Seq<char>
    decreases ls.len(),
{
    if ls.len() == 0 {
        Seq::empty()
    } else {
        locals_text(ls.drop_last(), lvl, env) + local_text(ls.last(), lvl, env)
    }
}

/// The list of locals, written at level `lvl` with its entries one level
/// deeper; an empty list holds one empty line.
pub open spec fn locals_section(locals: Seq<MirLocalDecl>, lvl: nat, env: DumpEnv) -> Seq<char> {
    spaces(lvl) + "locals: ["@ + nl() + (if locals.len() == 0 {
        spaces(lvl + 1) + nl()
    } else {
        locals_text(locals, lvl + 1, env)
    }) + spaces(lvl) + "]"@ + nl()
}

/// The block of a body, written at level `lvl` with its statements one
/// level deeper; an empty block holds one empty line.
pub open spec fn block_section(stmts: Seq<MStmt>, lvl: nat, env: DumpEnv) -> Seq<char> {
    spaces(lvl) + "block: {"@ + nl() + (if stmts.len() == 0 {
        spaces(lvl + 1) + nl()
    } else {
        Seq::empty()
    }) + stmts_text(stmts, lvl + 1, env) + spaces(lvl) + "}"@ + nl()
}

/// How a body is written below a function written at level `lvl`.
pub open spec fn body_text(locals: Seq<MirLocalDecl>, stmts: Seq<MStmt>, lvl: nat, env: DumpEnv) -> Seq<char> {
    locals_section(locals, lvl + 1, env) + block_section(stmts, lvl + 1, env)
}

// ---------------------------------------------------------------------------
// Writing
// ---------------------------------------------------------------------------

/// Whether `after` is `before` with `text` appended and the same level and
/// environment.
pub open spec fn wrote(before: Dumper, after: Dumper, text: Seq<char>) -> bool {
    &&& after.buf@ == before.buf@ + text
    &&& after.level() == before.level()
    &&& after.symbols == before.symbols
    &&& after.floats == before.floats
}

impl<'a> Dumper<'a> {
    /// Appends the decimal text of `n`.
    pub fn write_dec(&mut self, n: u32)
        ensures
            wrote(*old(self), *final(self), dec(n)),
    {
        crate::text::push_decimal(&mut self.buf, n as u128);
    }

    /// Appends the decimal text of `n`, with a sign when negative.
    pub fn write_signed(&mut self, n: i128)
        ensures
            wrote(*old(self), *final(self), signed_decimal(n as int)),
    {
        crate::text::push_signed_decimal(&mut self.buf, n);
    }

    /// Appends the text of the float literal with bits `bits`.
    pub fn write_float(&mut self, bits: u64)
        ensures
            wrote(*old(self), *final(self), float_lookup(float_entries(old(self).floats), bits)),
    {
        match self.floats {
            Some(t) => {
                let mut i: usize = 0;
                let ghost es = float_entries(self.floats);
                proof {
                    assert(es.skip(0) =~= es);
                }
                while i < t.entries.len()
                    invariant
                        i <= t.entries@.len(),
                        es == float_entries(Some(t)),
                        old(self).floats == Some(t),
                        es.len() == t.entries@.len(),
                        float_lookup(es.skip(i as int), bits) == float_lookup(es, bits),
                        forall|k: int| 0 <= k < t.entries@.len() ==> #[trigger] es[k] == (t.entries@[k].0, t.entries@[k].1@),
                        wrote(*old(self), *self, Seq::empty()),
                    decreases t.entries@.len() - i,
                {
                    proof {
                        assert(es.skip(i as int).drop_first() =~= es.skip(i as int + 1));
                    }
                    if t.entries[i].0 == bits {
                        proof {
                            assert(es.skip(i as int)[0] == es[i as int]);
                        }
                        crate::text::push_str(&mut self.buf, t.entries[i].1.as_str());
                        proof {
                            assert(self.buf@ =~= old(self).buf@ + float_lookup(es, bits));
                        }
                        return;
                    }
                    i = i + 1;
                }
                proof {
                    assert(es.skip(i as int).len() == 0);
                    assert(self.buf@ =~= old(self).buf@ + float_lookup(es, bits));
                }
            },
            None => {
                proof {
                    assert(old(self).buf@ + Seq::<char>::empty() =~= old(self).buf@);
                }
            },
        }
    }
}

/// Writes an expression.
pub fn dump_expr_inline(e: &MirExpr, d: &mut Dumper)
    ensures
        wrote(*old(d), *final(d), expr_text(e@, env_of(old(d)))),
    decreases e, 1nat,
{
    let ghost env = env_of(d);
    let ghost b0 = d.buf@;
    match e {
        MirExpr::Unit => {
            d.write("()");
        },
        MirExpr::Bool(v) => {
            d.write(if *v { "true" } else { "false" });
        },
        MirExpr::Int { value, ty } => {
            d.write_signed(*value);
            d.write("(:");
            d.write_dec(ty.0);
            d.write(")");
            proof {
                assert(d.buf@ =~= b0 + expr_text(e@, env));
            }
        },
        MirExpr::Float { value, ty } => {
            d.write_float(*value);
            d.write("(:");
            d.write_dec(ty.0);
            d.write(")");
            proof {
                assert(d.buf@ =~= b0 + expr_text(e@, env));
            }
        },
        MirExpr::String { id, ty } => {
            d.write("string(");
            d.write_dec(id.0);
            d.write(")(:");
            d.write_dec(ty.0);
            d.write(")");
            proof {
                assert(d.buf@ =~= b0 + expr_text(e@, env));
            }
        },
        MirExpr::Null { ty } => {
            d.write("null(:");
            d.write_dec(ty.0);
            d.write(")");
            proof {
                assert(d.buf@ =~= b0 + expr_text(e@, env));
            }
        },
        MirExpr::Local(id) => {
            d.write("local(");
            d.write_dec(id.0);
            d.write(")");
            proof {
                assert(d.buf@ =~= b0 + expr_text(e@, env));
            }
        },
        MirExpr::Global(sym) => {
            let s = dump_sym(*sym, d);
            d.write(s.as_str());
        },
        MirExpr::Field { .. } | MirExpr::Index { .. } => dump_access(e, d),
        MirExpr::Call { .. } => dump_call(e, d),
        MirExpr::StructLiteral { .. } => dump_struct_literal(e, d),
        MirExpr::ResultOk { .. } | MirExpr::ResultErr { .. } => dump_result(e, d),
        MirExpr::Binary { .. } | MirExpr::Unary { .. } => dump_operation(e, d),
    }
}

/// Writes a field or index access.
fn dump_access(e: &MirExpr, d: &mut Dumper)
    requires
        e is Field || e is Index,
    ensures
        wrote(*old(d), *final(d), expr_text(e@, env_of(old(d)))),
    decreases e, 0nat,
{
    let ghost env = env_of(d);
    let ghost b0 = d.buf@;
    match e {
        MirExpr::Field { base, field, ty } => {
            dump_expr_inline(base, d);
            d.write(".");
            d.write_dec(field.0);
            d.write(":");
            d.write_dec(ty.0);
        },
        MirExpr::Index { base, index, ty } => {
            dump_expr_inline(base, d);
            d.write("[");
            dump_expr_inline(index, d);
            d.write("]:");
            d.write_dec(ty.0);
        },
        _ => {},
    }
    proof {
        assert(d.buf@ =~= b0 + expr_text(e@, env));
    }
}

/// Writes a call.
fn dump_call(e: &MirExpr, d: &mut Dumper)
    requires
        e is Call,
    ensures
        wrote(*old(d), *final(d), expr_text(e@, env_of(old(d)))),
    decreases e, 0nat,
{
    let ghost env = env_of(d);
    let ghost b0 = d.buf@;
    match e {
        MirExpr::Call { callee, args, ty } => {
            d.write("call fn(");
            d.write_dec(callee.0);
            d.write(")(");
            dump_args(args, d);
            d.write("):");
            d.write_dec(ty.0);
        },
        _ => {},
    }
    proof {
        assert(d.buf@ =~= b0 + expr_text(e@, env));
    }
}

/// Writes a struct literal.
fn dump_struct_literal(e: &MirExpr, d: &mut Dumper)
    requires
        e is StructLiteral,
    ensures
        wrote(*old(d), *final(d), expr_text(e@, env_of(old(d)))),
    decreases e, 0nat,
{
    let ghost env = env_of(d);
    let ghost b0 = d.buf@;
    match e {
        MirExpr::StructLiteral { struct_id, fields, ty } => {
            d.write("struct(");
            d.write_dec(struct_id.0);
            d.write("){");
            dump_fields(fields, d);
            d.write("}:");
            d.write_dec(ty.0);
        },
        _ => {},
    }
    proof {
        assert(d.buf@ =~= b0 + expr_text(e@, env));
    }
}

/// Writes a result value.
fn dump_result(e: &MirExpr, d: &mut Dumper)
    requires
        e is ResultOk || e is ResultErr,
    ensures
        wrote(*old(d), *final(d), expr_text(e@, env_of(old(d)))),
    decreases e, 0nat,
{
    let ghost env = env_of(d);
    let ghost b0 = d.buf@;
    match e {
        MirExpr::ResultOk { value, ty } => {
            d.write("ok(");
            dump_expr_inline(value, d);
            d.write("):");
            d.write_dec(ty.0);
        },
        MirExpr::ResultErr { error, ty } => {
            d.write("err(");
            dump_expr_inline(error, d);
            d.write("):");
            d.write_dec(ty.0);
        },
        _ => {},
    }
    proof {
        assert(d.buf@ =~= b0 + expr_text(e@, env));
    }
}

/// Writes a binary or unary operation.
fn dump_operation(e: &MirExpr, d: &mut Dumper)
    requires
        e is Binary || e is Unary,
    ensures
        wrote(*old(d), *final(d), expr_text(e@, env_of(old(d)))),
    decreases e, 0nat,
{
    let ghost env = env_of(d);
    let ghost b0 = d.buf@;
    match e {
        MirExpr::Binary { op, left, right, ty } => {
            d.write("(");
            dump_expr_inline(left, d);
            d.write(" ");
            d.write(fmt_bin_op(*op));
            d.write(" ");
            dump_expr_inline(right, d);
            d.write("):");
            d.write_dec(ty.0);
        },
        MirExpr::Unary { op, expr, ty } => {
            d.write(fmt_unary(*op));
            d.write("(");
            dump_expr_inline(expr, d);
            d.write("):");
            d.write_dec(ty.0);
        },
        _ => {},
    }
    proof {
        assert(d.buf@ =~= b0 + expr_text(e@, env));
    }
}

/// Writes expressions separated by `, `.
fn dump_args(args: &Vec<MirExpr>, d: &mut Dumper)
    ensures
        wrote(*old(d), *final(d), args_text(mexprs_view(args@), env_of(old(d)))),
    decreases args, 1nat,
{
    let ghost env = env_of(d);
    let ghost b0 = d.buf@;
    let ghost v = mexprs_view(args@);
    let mut i: usize = 0;
    proof {
        lemma_mexprs_view(args@);
        assert(v.take(0) =~= Seq::<MExpr>::empty());
        assert(b0 + Seq::<char>::empty() =~= b0);
    }
    while i < args.len()
        invariant
            i <= args@.len(),
            v == mexprs_view(args@),
            v.len() == args@.len(),
            forall|k: int| 0 <= k < args@.len() ==> #[trigger] v[k] == mexpr_view(args@[k]),
            env == env_of(d),
            b0 == old(d).buf@,
            wrote(*old(d), *d, args_text(v.take(i as int), env)),
        decreases args@.len() - i,
    {
        proof {
            assert(decreases_to!(args => args@[i as int]));
            assert(v.take(i as int + 1).drop_last() =~= v.take(i as int));
            assert(v.take(i as int + 1).last() == v[i as int]);
        }
        let ghost bi = d.buf@;
        if i > 0 {
            d.write(", ");
        }
        dump_expr_inline(&args[i], d);
        proof {
            let t = v.take(i as int + 1);
            assert(t.drop_last() =~= v.take(i as int));
            assert(t.last() == v[i as int]);
            if i == 0 {
                assert(t[0] == v[0]);
                assert(args_text(t, env) == expr_text(v[0], env));
                assert(d.buf@ =~= b0 + args_text(t, env));
            } else {
                assert(args_text(t, env) == args_text(v.take(i as int), env) + ", "@ + expr_text(v[i as int], env));
                assert(d.buf@ =~= bi + ", "@ + expr_text(v[i as int], env));
                assert(d.buf@ =~= b0 + args_text(t, env));
            }
        }
        i = i + 1;
    }
    proof {
        assert(v.take(args@.len() as int) =~= v);
    }
}

/// Writes the fields of a struct literal, each `id:value`, separated by `, `.
fn dump_fields(fields: &Vec<(FieldId, MirExpr)>, d: &mut Dumper)
    ensures
        wrote(*old(d), *final(d), fields_text(mfields_view(fields@), env_of(old(d)))),
    decreases fields, 1nat,
{
    let ghost env = env_of(d);
    let ghost b0 = d.buf@;
    let ghost v = mfields_view(fields@);
    let mut i: usize = 0;
    proof {
        lemma_mfields_view(fields@);
        assert(v.take(0) =~= Seq::<(FieldId, MExpr)>::empty());
        assert(b0 + Seq::<char>::empty() =~= b0);
    }
    while i < fields.len()
        invariant
            i <= fields@.len(),
            v == mfields_view(fields@),
            v.len() == fields@.len(),
            forall|k: int| 0 <= k < fields@.len() ==> #[trigger] v[k] == (fields@[k].0, mexpr_view(fields@[k].1)),
            env == env_of(d),
            b0 == old(d).buf@,
            wrote(*old(d), *d, fields_text(v.take(i as int), env)),
        decreases fields@.len() - i,
    {
        proof {
            assert(decreases_to!(fields => fields@[i as int]));
            assert(decreases_to!(fields@[i as int] => fields@[i as int].1));
            assert(v.take(i as int + 1).drop_last() =~= v.take(i as int));
            assert(v.take(i as int + 1).last() == v[i as int]);
        }
        let ghost bi = d.buf@;
        if i > 0 {
            d.write(", ");
        }
        let (fid, fe) = &fields[i];
        d.write_dec(fid.0);
        d.write(":");
        dump_expr_inline(fe, d);
        proof {
            let t = v.take(i as int + 1);
            let piece = dec(v[i as int].0.0) + ":"@ + expr_text(v[i as int].1, env);
            assert(t.drop_last() =~= v.take(i as int));
            assert(t.last() == v[i as int]);
            if i == 0 {
                assert(t[0] == v[0]);
                assert(fields_text(t, env) == piece);
                assert(d.buf@ =~= b0 + fields_text(t, env));
            } else {
                assert(fields_text(t, env) == fields_text(v.take(i as int), env) + ", "@ + piece);
                assert(d.buf@ =~= bi + ", "@ + piece);
                assert(d.buf@ =~= b0 + fields_text(t, env));
            }
        }
        i = i + 1;
    }
    proof {
        assert(v.take(fields@.len() as int) =~= v);
    }
}

/// Writes the base of a place.
fn dump_place_base(base: &MirPlaceBase, d: &mut Dumper)
    ensures
        wrote(*old(d), *final(d), base_text(mbase_view(*base), env_of(old(d)))),
    decreases base,
{
    let ghost env = env_of(d);
    let ghost b0 = d.buf@;
    match base {
        MirPlaceBase::Local(id) => {
            d.write("local(");
            d.write_dec(id.0);
            d.write(")");
        },
        MirPlaceBase::Field { base, field, .. } => {
            dump_place_base(base, d);
            d.write(".");
            d.write_dec(field.0);
        },
        MirPlaceBase::Index { base, index, ty } => {
            d.write("index(");
            dump_expr_inline(base, d);
            d.write("[");
            dump_expr_inline(index, d);
            d.write("]:");
            d.write_dec(ty.0);
            d.write(")");
        },
    }
    proof {
        assert(d.buf@ =~= b0 + base_text(mbase_view(*base), env));
    }
}

/// Writes a place.
pub fn dump_place(place: &MirPlace, d: &mut Dumper)
    ensures
        wrote(*old(d), *final(d), place_text(mplace_view(*place), env_of(old(d)))),
{
    let ghost env = env_of(d);
    let ghost b0 = d.buf@;
    match place {
        MirPlace::Local { id } => {
            d.write("local(");
            d.write_dec(id.0);
            d.write(")");
        },
        MirPlace::Field { base, field, ty } => {
            d.write("field(");
            dump_place_base(base, d);
            d.write(".");
            d.write_dec(field.0);
            d.write(":");
            d.write_dec(ty.0);
            d.write(")");
        },
        MirPlace::Index { base, index, ty } => {
            d.write("index(");
            dump_expr_inline(base, d);
            d.write("[");
            dump_expr_inline(index, d);
            d.write("]:");
            d.write_dec(ty.0);
            d.write(")");
        },
    }
    proof {
        assert(d.buf@ =~= b0 + place_text(mplace_view(*place), env));
    }
}

/// The deepest statement of a list nests no deeper than the list.
pub proof fn lemma_stmts_depth_bound(ss: Seq<MStmt>, k: int)
    requires
        0 <= k < ss.len(),
    ensures
        stmt_depth(ss[k]) <= stmts_depth(ss),
    decreases ss.len(),
{
    if k < ss.len() - 1 {
        lemma_stmts_depth_bound(ss.drop_last(), k);
    }
}

/// Writes a statement at the dumper's level.
pub fn dump_stmt(s: &MirStmt, d: &mut Dumper)
    requires
        old(d).level() + stmt_depth(s@) < usize::MAX,
    ensures
        wrote(*old(d), *final(d), stmt_text(s@, old(d).level(), env_of(old(d)))),
    decreases s, 1nat,
{
    match s {
        MirStmt::If { .. } => dump_if(s, d),
        MirStmt::While { .. } | MirStmt::ForOf { .. } | MirStmt::ForIn { .. } => dump_loop(s, d),
        MirStmt::Let { .. } | MirStmt::Assign { .. } | MirStmt::Expr(_) | MirStmt::Return(_)
        | MirStmt::ReturnResultErr { .. } | MirStmt::Throw { .. } => dump_plain_stmt(s, d),
        _ => dump_control_stmt(s, d),
    }
}

/// Writes statements one after the other at the dumper's level.
pub fn dump_stmts(ss: &Vec<MirStmt>, d: &mut Dumper)
    requires
        old(d).level() + stmts_depth(mstmts_view(ss@)) < usize::MAX,
    ensures
        wrote(*old(d), *final(d), stmts_text(mstmts_view(ss@), old(d).level(), env_of(old(d)))),
    decreases ss, 0nat,
{
    let ghost env = env_of(d);
    let ghost lvl = d.level();
    let ghost v = mstmts_view(ss@);
    let mut i: usize = 0;
    proof {
        lemma_mstmts_view(ss@);
        assert(v.take(0) =~= Seq::<MStmt>::empty());
        assert(d.buf@ + Seq::<char>::empty() =~= d.buf@);
    }
    while i < ss.len()
        invariant
            i <= ss@.len(),
            v == mstmts_view(ss@),
            v.len() == ss@.len(),
            forall|k: int| 0 <= k < ss@.len() ==> #[trigger] v[k] == mstmt_view(ss@[k]),
            env == env_of(d),
            lvl == old(d).level(),
            lvl + stmts_depth(v) < usize::MAX,
            wrote(*old(d), *d, stmts_text(v.take(i as int), lvl, env)),
        decreases ss@.len() - i,
    {
        proof {
            assert(decreases_to!(ss => ss@[i as int]));
            lemma_stmts_depth_bound(v, i as int);
        }
        let ghost bi = d.buf@;
        dump_stmt(&ss[i], d);
        proof {
            let t = v.take(i as int + 1);
            assert(t.drop_last() =~= v.take(i as int));
            assert(t.last() == v[i as int]);
            assert(d.buf@ =~= old(d).buf@ + stmts_text(t, lvl, env));
        }
        i = i + 1;
    }
    proof {
        assert(v.take(ss@.len() as int) =~= v);
    }
}

/// Writes a statement that holds no block and starts where the text is.
fn dump_plain_stmt(s: &MirStmt, d: &mut Dumper)
    requires
        s is Let || s is Assign || s is Expr || s is Return || s is ReturnResultErr || s is Throw,
    ensures
        wrote(*old(d), *final(d), stmt_text(s@, old(d).level(), env_of(old(d)))),
    decreases s, 0nat,
{
    let ghost env = env_of(d);
    let ghost b0 = d.buf@;
    match s {
        MirStmt::Let { local, ty, init, mutable } => {
            d.write("let ");
            if *mutable {
                d.write("mut ");
            }
            d.write_dec(local.0);
            d.write(": ");
            d.write_dec(ty.0);
            match init {
                Some(e) => {
                    d.write(" = ");
                    dump_expr_inline(e, d);
                },
                None => {},
            }
            d.write("\n");
        },
        MirStmt::Assign { target, value } => {
            d.write("assign ");
            dump_place(target, d);
            d.write(" = ");
            dump_expr_inline(value, d);
            d.write("\n");
        },
        MirStmt::Expr(e) => {
            d.write("expr ");
            dump_expr_inline(e, d);
            d.write("\n");
        },
        MirStmt::Return(None) => {
            d.line("return");
        },
        MirStmt::Return(Some(e)) => {
            d.write("return ");
            dump_expr_inline(e, d);
            d.write("\n");
        },
        MirStmt::ReturnResultErr { error, err_ty } => {
            d.write("return_result_err(");
            dump_expr_inline(error, d);
            d.write(", ");
            d.write_dec(err_ty.0);
            d.write(")");
            d.write("\n");
        },
        MirStmt::Throw { error, error_ty } => {
            d.write("throw(");
            dump_expr_inline(error, d);
            d.write(", ");
            d.write_dec(error_ty.0);
            d.write(")");
            d.write("\n");
        },
        _ => {},
    }
    proof {
        reveal_strlit("\n");
        assert(d.buf@ =~= b0 + stmt_text(s@, old(d).level(), env));
    }
}

/// Writes `break`, `continue`, a runtime call, an await or a state change.
fn dump_control_stmt(s: &MirStmt, d: &mut Dumper)
    requires
        s is Break || s is Continue || s is Runtime || s is Await || s is SetState,
    ensures
        wrote(*old(d), *final(d), stmt_text(s@, old(d).level(), env_of(old(d)))),
    decreases s, 1nat,
{
    let ghost env = env_of(d);
    let ghost b0 = d.buf@;
    let ghost lvl = d.level();
    match s {
        MirStmt::Break => {
            d.line("break");
            proof {
                assert(d.buf@ =~= b0 + stmt_text(s@, lvl, env));
            }
        },
        MirStmt::Continue => {
            d.line("continue");
            proof {
                assert(d.buf@ =~= b0 + stmt_text(s@, lvl, env));
            }
        },
        MirStmt::Runtime { .. } => dump_runtime_stmt(s, d),
        MirStmt::Await { .. } => dump_await_stmt(s, d),
        MirStmt::SetState { value } => {
            let mut t = String::new();
            crate::text::push_str(&mut t, "set_state(");
            crate::text::push_signed_decimal(&mut t, *value as i128);
            crate::text::push_str(&mut t, ")");
            d.line(t.as_str());
            proof {
                assert(d.buf@ =~= b0 + stmt_text(s@, lvl, env));
            }
        },
        _ => {},
    }
}

/// Writes a runtime call: `runtime op(args) -> type`, then the local it
/// stores to, if any.
fn dump_runtime_stmt(s: &MirStmt, d: &mut Dumper)
    requires
        s is Runtime,
    ensures
        wrote(*old(d), *final(d), stmt_text(s@, old(d).level(), env_of(old(d)))),
    decreases s, 0nat,
{
    let ghost env = env_of(d);
    let ghost b0 = d.buf@;
    let ghost lvl = d.level();
    match s {
        MirStmt::Runtime { op, args, dest, ty } => {
            d.write("runtime ");
            d.write(fmt_op(*op));
            d.write("(");
            dump_args(args, d);
            d.write(") -> ");
            d.write_dec(ty.0);
            match dest {
                Some(l) => {
                    d.write(" dest=local(");
                    d.write_dec(l.0);
                    d.write(")");
                },
                None => {},
            }
            d.write("\n");
            proof {
                reveal_strlit("\n");
                assert(d.buf@ =~= b0 + stmt_text(s@, lvl, env));
            }
        },
        _ => {},
    }
}

/// Writes an await: the promise, the local it stores to, the state it
/// resumes in and the type.
fn dump_await_stmt(s: &MirStmt, d: &mut Dumper)
    requires
        s is Await,
    ensures
        wrote(*old(d), *final(d), stmt_text(s@, old(d).level(), env_of(old(d)))),
    decreases s, 0nat,
{
    let ghost env = env_of(d);
    let ghost b0 = d.buf@;
    let ghost lvl = d.level();
    match s {
        MirStmt::Await { promise, dest, next_state, ty } => {
            d.write("await (");
            dump_expr_inline(promise, d);
            d.write(") -> local(");
            d.write_dec(dest.0);
            d.write(") state(");
            d.write_signed(*next_state as i128);
            d.write(") ty(");
            d.write_dec(ty.0);
            d.write(")");
            d.write("\n");
            proof {
                reveal_strlit("\n");
                assert(d.buf@ =~= b0 + stmt_text(s@, lvl, env));
            }
        },
        _ => {},
    }
}

/// Writes the lines of a block one level deeper, then its closing brace.
fn dump_block(ss: &Vec<MirStmt>, d: &mut Dumper)
    requires
        old(d).level() + 1 + stmts_depth(mstmts_view(ss@)) < usize::MAX,
    ensures
        wrote(
            *old(d),
            *final(d),
            stmts_text(mstmts_view(ss@), old(d).level() + 1, env_of(old(d))) + spaces(old(d).level()) + "}"@
                + nl(),
        ),
    decreases ss, 1nat,
{
    let ghost b0 = d.buf@;
    d.push();
    dump_stmts(ss, d);
    d.pop();
    d.line("}");
    proof {
        assert(d.buf@ =~= b0 + (stmts_text(mstmts_view(ss@), old(d).level() + 1, env_of(old(d))) + spaces(
            old(d).level(),
        ) + "}"@ + nl()));
    }
}

/// Writes an `if` statement.
fn dump_if(s: &MirStmt, d: &mut Dumper)
    requires
        s is If,
        old(d).level() + stmt_depth(s@) < usize::MAX,
    ensures
        wrote(*old(d), *final(d), stmt_text(s@, old(d).level(), env_of(old(d)))),
    decreases s, 0nat,
{
    let ghost env = env_of(d);
    let ghost b0 = d.buf@;
    match s {
        MirStmt::If { cond, then_block, else_block } => {
            proof {
                assert(decreases_to!(s => then_block.stmts));
            }
            d.write("if (");
            dump_expr_inline(cond, d);
            d.write(") {\n");
            dump_block(&then_block.stmts, d);
            match else_block {
                Some(b) => {
                    proof {
                        assert(decreases_to!(s => b.stmts));
                    }
                    d.line("else {");
                    dump_block(&b.stmts, d);
                },
                None => {},
            }
        },
        _ => {},
    }
    proof {
        assert(d.buf@ =~= b0 + stmt_text(s@, old(d).level(), env));
    }
}

/// Writes a `while`, `for of` or `for in` loop.
fn dump_loop(s: &MirStmt, d: &mut Dumper)
    requires
        s is While || s is ForOf || s is ForIn,
        old(d).level() + stmt_depth(s@) < usize::MAX,
    ensures
        wrote(*old(d), *final(d), stmt_text(s@, old(d).level(), env_of(old(d)))),
    decreases s, 0nat,
{
    let ghost env = env_of(d);
    let ghost b0 = d.buf@;
    match s {
        MirStmt::While { cond, body } => {
            proof {
                assert(decreases_to!(s => body.stmts));
            }
            d.write("while (");
            dump_expr_inline(cond, d);
            d.write(") {\n");
            dump_block(&body.stmts, d);
        },
        MirStmt::ForOf { item, iterable, body } => {
            proof {
                assert(decreases_to!(s => body.stmts));
            }
            d.write("for ");
            d.write_dec(item.0);
            d.write(" of ");
            dump_expr_inline(iterable, d);
            d.write(" {\n");
            dump_block(&body.stmts, d);
        },
        MirStmt::ForIn { key, object, body } => {
            proof {
                assert(decreases_to!(s => body.stmts));
            }
            d.write("for ");
            d.write_dec(key.0);
            d.write(" in ");
            dump_expr_inline(object, d);
            d.write(" {\n");
            dump_block(&body.stmts, d);
        },
        _ => {},
    }
    proof {
        assert(d.buf@ =~= b0 + stmt_text(s@, old(d).level(), env));
    }
}

/// Writes the line of a local: `name: [var ]type = id`.
fn dump_local(l: &MirLocalDecl, d: &mut Dumper)
    ensures
        wrote(*old(d), *final(d), local_text(*l, old(d).level(), env_of(old(d)))),
{
    let mut t = dump_sym(l.name, d);
    crate::text::push_str(&mut t, ": ");
    if l.mutable {
        crate::text::push_str(&mut t, "var ");
    }
    crate::text::push_decimal(&mut t, l.ty.0 as u128);
    crate::text::push_str(&mut t, " = ");
    crate::text::push_decimal(&mut t, l.id.0 as u128);
    d.line(t.as_str());
    proof {
        assert(d.buf@ =~= old(d).buf@ + local_text(*l, old(d).level(), env_of(old(d))));
    }
}

/// Writes the locals of a body, one line each.
fn dump_locals(ls: &Vec<MirLocalDecl>, d: &mut Dumper)
    ensures
        wrote(*old(d), *final(d), locals_text(ls@, old(d).level(), env_of(old(d)))),
{
    let ghost env = env_of(d);
    let ghost lvl = d.level();
    let mut i: usize = 0;
    proof {
        assert(ls@.take(0) =~= Seq::<MirLocalDecl>::empty());
        assert(d.buf@ + Seq::<char>::empty() =~= d.buf@);
    }
    while i < ls.len()
        invariant
            i <= ls@.len(),
            env == env_of(d),
            lvl == old(d).level(),
            wrote(*old(d), *d, locals_text(ls@.take(i as int), lvl, env)),
        decreases ls@.len() - i,
    {
        dump_local(&ls[i], d);
        proof {
            let t = ls@.take(i as int + 1);
            assert(t.drop_last() =~= ls@.take(i as int));
            assert(t.last() == ls@[i as int]);
            assert(d.buf@ =~= old(d).buf@ + locals_text(t, lvl, env));
        }
        i = i + 1;
    }
    proof {
        assert(ls@.take(ls@.len() as int) =~= ls@);
    }
}

/// Writes the list of locals at the dumper's level.
fn dump_locals_section(ls: &Vec<MirLocalDecl>, d: &mut Dumper)
    requires
        old(d).level() + 1 < usize::MAX,
    ensures
        wrote(*old(d), *final(d), locals_section(ls@, old(d).level(), env_of(old(d)))),
{
    let ghost b0 = d.buf@;
    let ghost env = env_of(d);
    let ghost lvl = d.level();
    d.line("locals: [");
    d.push();
    dump_locals(ls, d);
    if ls.len() == 0 {
        d.line("");
    }
    d.pop();
    d.line("]");
    proof {
        reveal_strlit("");
        if ls@.len() == 0 {
            assert(locals_text(ls@, lvl + 1, env) =~= Seq::<char>::empty());
        }
        assert(d.buf@ =~= b0 + locals_section(ls@, lvl, env));
    }
}

/// Writes the block of a body at the dumper's level.
fn dump_block_section(ss: &Vec<MirStmt>, d: &mut Dumper)
    requires
        old(d).level() + 1 + stmts_depth(mstmts_view(ss@)) < usize::MAX,
    ensures
        wrote(*old(d), *final(d), block_section(mstmts_view(ss@), old(d).level(), env_of(old(d)))),
{
    let ghost b0 = d.buf@;
    let ghost env = env_of(d);
    let ghost lvl = d.level();
    d.line("block: {");
    d.push();
    if ss.len() == 0 {
        d.line("");
    }
    proof {
        lemma_mstmts_view(ss@);
    }
    dump_stmts(ss, d);
    d.pop();
    d.line("}");
    proof {
        reveal_strlit("");
        assert(d.buf@ =~= b0 + block_section(mstmts_view(ss@), lvl, env));
    }
}

/// Writes a function body below a header written at the dumper's level:
/// its locals, then its block, each one level deeper.
pub fn dump_body(body: &MirBody, d: &mut Dumper)
    requires
        old(d).level() + 2 + stmts_depth(mstmts_view(body.block.stmts@)) < usize::MAX,
    ensures
        wrote(
            *old(d),
            *final(d),
            body_text(body.locals@, mstmts_view(body.block.stmts@), old(d).level(), env_of(old(d))),
        ),
{
    let ghost b0 = d.buf@;
    d.push();
    dump_locals_section(&body.locals, d);
    dump_block_section(&body.block.stmts, d);
    d.pop();
    proof {
        assert(d.buf@ =~= b0 + body_text(body.locals@, mstmts_view(body.block.stmts@), old(d).level(), env_of(old(d))));
    }
}

} // verus!
