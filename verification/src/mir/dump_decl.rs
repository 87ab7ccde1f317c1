//! The text dump of declarations and of a whole module.

use vstd::prelude::*;

use crate::mir::body::{MStmt, MirStmt, lemma_mstmts_view, mstmt_view, mstmts_view};
use crate::mir::dump_body::{lemma_stmts_depth_bound, stmt_depth, stmts_depth};
use crate::mir::decl::{
    FunctionEffects, FunctionKind, MDecl, MFunction, MGlobal, MStruct, MirDecl, MirFieldDecl, MirFunctionDecl,
    MirGlobalDecl, MirParam, MirStructDecl, mdecl_view, mfunction_view, mfunctions_view,
};
use crate::mir::dump::{Dumper, dump_export, dump_import, dump_sym, export_text, import_text, spaces, sym_text};
use crate::mir::dump_body::{DumpEnv, FloatTexts, body_text, dec, dump_body, env_of, float_entries, nl, wrote};
use crate::mir::program::{MirExport, MirImport, MirProgram, mdecls_view};
use crate::tables::SymbolTable;

verus! {

// ---------------------------------------------------------------------------
// Texts
// ---------------------------------------------------------------------------

/// How a boolean is written.
pub open spec fn bool_text(b: bool) -> Seq<char> {
    if b {
        "true"@
    } else {
        "false"@
    }
}

/// How the kind of a function is written: as its variant, with the ids it
/// holds.
pub open spec fn kind_text(k: FunctionKind) -> Seq<char> {
    match k {
        FunctionKind::Plain => "Plain"@,
        FunctionKind::Method { owner, self_param } => "Method { owner: StructId("@ + dec(owner.0)
            + "), self_param: LocalId("@ + dec(self_param.0) + ") }"@,
        FunctionKind::Closure => "Closure"@,
        FunctionKind::Constructor { owner } => "Constructor { owner: StructId("@ + dec(owner.0) + ") }"@,
        FunctionKind::RuntimeShim => "RuntimeShim"@,
    }
}

/// How the effects of a function are written.
pub open spec fn effects_text(e: FunctionEffects) -> Seq<char> {
    "FunctionEffects { can_throw: "@ + bool_text(e.can_throw) + ", is_async: "@ + bool_text(e.is_async) + " }"@
}

/// How a parameter is written: `name: type`.
pub open spec fn param_text(p: MirParam, syms: Option<Seq<Seq<char>>>) -> Seq<char> {
    sym_text(p.name, syms) + ": "@ + dec(p.ty.0)
}

/// Parameters separated by `, `.
pub open spec fn params_text(ps: Seq<MirParam>, syms: Option<Seq<Seq<char>>>) -> Seq<char>
    decreases ps.len(),
{
    if ps.len() == 0 {
        Seq::empty()
    } else if ps.len() == 1 {
        param_text(ps[0], syms)
    } else {
        params_text(ps.drop_last(), syms) + ", "@ + param_text(ps.last(), syms)
    }
}

/// The start of the header of a function: id, name, parameters and result
/// type.
pub open spec fn fn_signature_text(f: MFunction, env: DumpEnv) -> Seq<char> {
    "fn #"@ + dec(f.id.0) + " "@ + sym_text(f.name, env.syms) + "("@ + params_text(f.params, env.syms) + ") -> "@
        + dec(f.ret.0)
}

/// The end of the header of a function: the type it throws, its kind, and
/// its effects when it throws or awaits.
pub open spec fn fn_traits_text(f: MFunction) -> Seq<char> {
    (match f.throws {
        Some(t) => " throws "@ + dec(t.0),
        None => Seq::empty(),
    }) + " "@ + kind_text(f.kind) + (if f.effects.can_throw || f.effects.is_async {
        " ["@ + effects_text(f.effects) + "]"@
    } else {
        Seq::empty()
    })
}

/// The header line of a function.
pub open spec fn fn_header_text(f: MFunction, env: DumpEnv) -> Seq<char> {
    fn_signature_text(f, env) + fn_traits_text(f) + nl()
}

/// How a function is written at level `lvl`: its header, where the text
/// is, then its body.
pub open spec fn function_text(f: MFunction, lvl: nat, env: DumpEnv) -> Seq<char> {
    fn_header_text(f, env) + body_text(f.locals, f.body, lvl, env)
}

/// How a field of a struct is written.
pub open spec fn field_decl_text(fd: MirFieldDecl, lvl: nat, env: DumpEnv) -> Seq<char> {
    spaces(lvl) + (if fd.mutable {
        "var "@
    } else {
        Seq::empty()
    }) + sym_text(fd.name, env.syms) + ": "@ + dec(fd.ty.0) + ","@ + nl()
}

/// Fields of a struct, one line each.
pub open spec fn field_decls_text(fs: Seq<MirFieldDecl>, lvl: nat, env: DumpEnv) -> Seq<char>
    decreases fs.len(),
{
    if fs.len() == 0 {
        Seq::empty()
    } else {
        field_decls_text(fs.drop_last(), lvl, env) + field_decl_text(fs.last(), lvl, env)
    }
}

/// Functions written one after the other.
pub open spec fn functions_text(fs: Seq<MFunction>, lvl: nat, env: DumpEnv) -> Seq<char>
    decreases fs.len(),
{
    if fs.len() == 0 {
        Seq::empty()
    } else {
        functions_text(fs.drop_last(), lvl, env) + function_text(fs.last(), lvl, env)
    }
}

/// How a struct is written at level `lvl`: its fields and methods one
/// level deeper, between braces.
pub open spec fn struct_text(s: MStruct, lvl: nat, env: DumpEnv) -> Seq<char> {
    "struct "@ + sym_text(s.name, env.syms) + " {"@ + (if s.fields.len() > 0 || s.methods.len() > 0 {
        nl() + field_decls_text(s.fields, lvl + 1, env) + functions_text(s.methods, lvl + 1, env)
    } else {
        Seq::empty()
    }) + spaces(lvl) + "}"@ + nl()
}

/// How a global is written at level `lvl`.
pub open spec fn global_text(g: MGlobal, lvl: nat, env: DumpEnv) -> Seq<char> {
    spaces(lvl) + "global "@ + sym_text(g.name, env.syms) + ": "@ + dec(g.ty.0) + " (mut: "@ + bool_text(g.mutable)
        + ")"@ + nl()
}

/// How a declaration is written at level `lvl`.
pub open spec fn decl_text(d: MDecl, lvl: nat, env: DumpEnv) -> Seq<char> {
    match d {
        MDecl::Function(f) => function_text(f, lvl, env),
        MDecl::Struct(s) => struct_text(s, lvl, env),
        MDecl::Global(g) => global_text(g, lvl, env),
    }
}

/// Declarations written one after the other.
pub open spec fn decls_text(ds: Seq<MDecl>, lvl: nat, env: DumpEnv) -> Seq<char>
    decreases ds.len(),
{
    if ds.len() == 0 {
        Seq::empty()
    } else {
        decls_text(ds.drop_last(), lvl, env) + decl_text(ds.last(), lvl, env)
    }
}

/// Imports, each on a line that starts with two spaces.
pub open spec fn imports_text(imps: Seq<MirImport>, syms: Option<Seq<Seq<char>>>) -> Seq<char>
    decreases imps.len(),
{
    if imps.len() == 0 {
        Seq::empty()
    } else {
        imports_text(imps.drop_last(), syms) + "  "@ + import_text(imps.last(), syms)
    }
}

/// Exports, each on a line that starts with two spaces.
pub open spec fn exports_text(exps: Seq<MirExport>, syms: Option<Seq<Seq<char>>>) -> Seq<char>
    decreases exps.len(),
{
    if exps.len() == 0 {
        Seq::empty()
    } else {
        exports_text(exps.drop_last(), syms) + "  "@ + export_text(exps.last(), syms)
    }
}

/// A list at level 1 between `name: [` and `]`: its entries, or one empty
/// line at level 2 when it has none.
pub open spec fn list_text(name: Seq<char>, entries: Seq<char>, empty: bool) -> Seq<char> {
    spaces(1) + name + ": ["@ + nl() + (if empty {
        spaces(2) + nl()
    } else {
        entries
    }) + spaces(1) + "]"@ + nl()
}

/// How a module is written: its id, then its imports, exports and
/// declarations, each list between brackets; an empty list of imports or
/// exports holds one empty line.
pub open spec fn program_text(p: MirProgram, env: DumpEnv) -> Seq<char> {
    "MirProgram(module="@ + dec(p.module.0) + ") {"@ + nl() + list_text(
        "imports"@,
        imports_text(p.imports@, env.syms),
        p.imports@.len() == 0,
    ) + list_text("exports"@, exports_text(p.exports@, env.syms), p.exports@.len() == 0) + decls_section(
        mdecls_view(p.declarations@),
        env,
    ) + "}"@ + nl()
}

/// The list of declarations at level 1, with its entries at level 2.
pub open spec fn decls_section(ds: Seq<MDecl>, env: DumpEnv) -> Seq<char> {
    spaces(1) + "declarations: ["@ + nl() + decls_text(ds, 2, env) + spaces(1) + "]"@ + nl()
}

// ---------------------------------------------------------------------------
// Depth
// ---------------------------------------------------------------------------

/// Whether the body of a function written at level `lvl` nests few enough
/// blocks for the indentation to be counted.
pub open spec fn fn_fits(f: MFunction, lvl: nat) -> bool {
    lvl + 2 + crate::mir::dump_body::stmts_depth(f.body) < usize::MAX
}

/// Whether a struct written at level `lvl` nests few enough blocks for the
/// indentation to be counted.
pub open spec fn struct_fits(s: MStruct, lvl: nat) -> bool {
    &&& lvl + 1 < usize::MAX
    &&& forall|k: int| 0 <= k < s.methods.len() ==> fn_fits(#[trigger] s.methods[k], lvl + 1)
}

/// Whether a declaration written at level `lvl` nests few enough blocks
/// for the indentation to be counted.
pub open spec fn decl_fits(d: MDecl, lvl: nat) -> bool {
    match d {
        MDecl::Function(f) => fn_fits(f, lvl),
        MDecl::Struct(s) => struct_fits(s, lvl),
        MDecl::Global(_) => true,
    }
}

/// Whether every declaration of a module nests few enough blocks for the
/// indentation of its dump to be counted.
pub open spec fn program_fits(p: MirProgram) -> bool {
    forall|k: int| 0 <= k < p.declarations@.len() ==> decl_fits(#[trigger] mdecl_view(p.declarations@[k]), 2)
}

// ---------------------------------------------------------------------------
// Writing
// ---------------------------------------------------------------------------

/// Writes `true` or `false`.
fn dump_bool(b: bool, d: &mut Dumper)
    ensures
        wrote(*old(d), *final(d), bool_text(b)),
{
    d.write(if b { "true" } else { "false" });
}

/// Writes the kind of a function.
fn dump_kind(k: FunctionKind, d: &mut Dumper)
    ensures
        wrote(*old(d), *final(d), kind_text(k)),
{
    let ghost b0 = d.buf@;
    match k {
        FunctionKind::Plain => d.write("Plain"),
        FunctionKind::Method { owner, self_param } => {
            d.write("Method { owner: StructId(");
            d.write_dec(owner.0);
            d.write("), self_param: LocalId(");
            d.write_dec(self_param.0);
            d.write(") }");
        },
        FunctionKind::Closure => d.write("Closure"),
        FunctionKind::Constructor { owner } => {
            d.write("Constructor { owner: StructId(");
            d.write_dec(owner.0);
            d.write(") }");
        },
        FunctionKind::RuntimeShim => d.write("RuntimeShim"),
    }
    proof {
        assert(d.buf@ =~= b0 + kind_text(k));
    }
}

/// Writes the effects of a function.
fn dump_effects(e: FunctionEffects, d: &mut Dumper)
    ensures
        wrote(*old(d), *final(d), effects_text(e)),
{
    let ghost b0 = d.buf@;
    d.write("FunctionEffects { can_throw: ");
    dump_bool(e.can_throw, d);
    d.write(", is_async: ");
    dump_bool(e.is_async, d);
    d.write(" }");
    proof {
        assert(d.buf@ =~= b0 + effects_text(e));
    }
}

/// Writes parameters separated by `, `.
fn dump_params(ps: &Vec<MirParam>, d: &mut Dumper)
    ensures
        wrote(*old(d), *final(d), params_text(ps@, env_of(old(d)).syms)),
{
    let ghost env = env_of(d);
    let mut i: usize = 0;
    proof {
        assert(ps@.take(0) =~= Seq::<MirParam>::empty());
        assert(d.buf@ + Seq::<char>::empty() =~= d.buf@);
    }
    while i < ps.len()
        invariant
            i <= ps@.len(),
            env == env_of(d),
            wrote(*old(d), *d, params_text(ps@.take(i as int), env.syms)),
        decreases ps@.len() - i,
    {
        let ghost bi = d.buf@;
        if i > 0 {
            d.write(", ");
        }
        let p = &ps[i];
        let name = dump_sym(p.name, d);
        d.write(name.as_str());
        d.write(": ");
        d.write_dec(p.ty.0);
        proof {
            let t = ps@.take(i as int + 1);
            assert(t.drop_last() =~= ps@.take(i as int));
            assert(t.last() == ps@[i as int]);
            if i == 0 {
                assert(t[0] == ps@[0]);
            }
            assert(d.buf@ =~= old(d).buf@ + params_text(t, env.syms));
        }
        i = i + 1;
    }
    proof {
        assert(ps@.take(ps@.len() as int) =~= ps@);
    }
}

/// Writes the start of the header of a function.
fn dump_fn_signature(f: &MirFunctionDecl, d: &mut Dumper)
    ensures
        wrote(*old(d), *final(d), fn_signature_text(f@, env_of(old(d)))),
{
    let ghost b0 = d.buf@;
    let ghost env = env_of(d);
    d.write("fn #");
    d.write_dec(f.id.0);
    d.write(" ");
    let name = dump_sym(f.name, d);
    d.write(name.as_str());
    d.write("(");
    dump_params(&f.params, d);
    d.write(") -> ");
    d.write_dec(f.ret.0);
    proof {
        assert(d.buf@ =~= b0 + fn_signature_text(f@, env));
    }
}

/// Writes the end of the header of a function.
fn dump_fn_traits(f: &MirFunctionDecl, d: &mut Dumper)
    ensures
        wrote(*old(d), *final(d), fn_traits_text(f@)),
{
    let ghost b0 = d.buf@;
    match f.throws {
        Some(t) => {
            d.write(" throws ");
            d.write_dec(t.0);
        },
        None => {},
    }
    let ghost b1 = d.buf@;
    d.write(" ");
    dump_kind(f.kind, d);
    let ghost b2 = d.buf@;
    if f.effects.can_throw || f.effects.is_async {
        d.write(" [");
        dump_effects(f.effects, d);
        d.write("]");
    }
    proof {
        assert(d.buf@ =~= b0 + fn_traits_text(f@));
    }
}

/// Writes the header line of a function.
fn dump_fn_header(f: &MirFunctionDecl, d: &mut Dumper)
    ensures
        wrote(*old(d), *final(d), fn_header_text(f@, env_of(old(d)))),
{
    let ghost b0 = d.buf@;
    let ghost env = env_of(d);
    dump_fn_signature(f, d);
    dump_fn_traits(f, d);
    d.write("\n");
    proof {
        reveal_strlit("\n");
        assert(d.buf@ =~= b0 + fn_header_text(f@, env));
    }
}

/// Writes a function: its header where the text is, then its body.
pub fn dump_function(f: &MirFunctionDecl, d: &mut Dumper)
    requires
        fn_fits(f@, old(d).level()),
    ensures
        wrote(*old(d), *final(d), function_text(f@, old(d).level(), env_of(old(d)))),
{
    let ghost b0 = d.buf@;
    dump_fn_header(f, d);
    dump_body(&f.body, d);
    proof {
        assert(d.buf@ =~= b0 + function_text(f@, old(d).level(), env_of(old(d))));
    }
}

/// Writes the fields of a struct, one line each.
fn dump_field_decls(fs: &Vec<MirFieldDecl>, d: &mut Dumper)
    ensures
        wrote(*old(d), *final(d), field_decls_text(fs@, old(d).level(), env_of(old(d)))),
{
    let ghost env = env_of(d);
    let ghost lvl = d.level();
    let mut i: usize = 0;
    proof {
        assert(fs@.take(0) =~= Seq::<MirFieldDecl>::empty());
        assert(d.buf@ + Seq::<char>::empty() =~= d.buf@);
    }
    while i < fs.len()
        invariant
            i <= fs@.len(),
            env == env_of(d),
            lvl == old(d).level(),
            wrote(*old(d), *d, field_decls_text(fs@.take(i as int), lvl, env)),
        decreases fs@.len() - i,
    {
        let fd = &fs[i];
        let mut t = String::new();
        if fd.mutable {
            crate::text::push_str(&mut t, "var ");
        }
        let name = dump_sym(fd.name, d);
        crate::text::push_str(&mut t, name.as_str());
        crate::text::push_str(&mut t, ": ");
        crate::text::push_decimal(&mut t, fd.ty.0 as u128);
        crate::text::push_str(&mut t, ",");
        d.line(t.as_str());
        proof {
            let s = fs@.take(i as int + 1);
            assert(s.drop_last() =~= fs@.take(i as int));
            assert(s.last() == fs@[i as int]);
            assert(d.buf@ =~= old(d).buf@ + field_decls_text(s, lvl, env));
        }
        i = i + 1;
    }
    proof {
        assert(fs@.take(fs@.len() as int) =~= fs@);
    }
}

/// Writes functions one after the other.
fn dump_functions(fs: &Vec<MirFunctionDecl>, d: &mut Dumper)
    requires
        forall|k: int| 0 <= k < fs@.len() ==> fn_fits(#[trigger] mfunction_view(fs@[k]), old(d).level()),
    ensures
        wrote(*old(d), *final(d), functions_text(mfunctions_view(fs@), old(d).level(), env_of(old(d)))),
{
    let ghost env = env_of(d);
    let ghost lvl = d.level();
    let ghost v = mfunctions_view(fs@);
    let mut i: usize = 0;
    proof {
        assert(v.take(0) =~= Seq::<MFunction>::empty());
        assert(d.buf@ + Seq::<char>::empty() =~= d.buf@);
    }
    while i < fs.len()
        invariant
            i <= fs@.len(),
            v == mfunctions_view(fs@),
            env == env_of(d),
            lvl == old(d).level(),
            forall|k: int| 0 <= k < fs@.len() ==> fn_fits(#[trigger] mfunction_view(fs@[k]), lvl),
            wrote(*old(d), *d, functions_text(v.take(i as int), lvl, env)),
        decreases fs@.len() - i,
    {
        dump_function(&fs[i], d);
        proof {
            let s = v.take(i as int + 1);
            assert(s.drop_last() =~= v.take(i as int));
            assert(s.last() == mfunction_view(fs@[i as int]));
            assert(d.buf@ =~= old(d).buf@ + functions_text(s, lvl, env));
        }
        i = i + 1;
    }
    proof {
        assert(v.take(fs@.len() as int) =~= v);
    }
}

/// Writes the fields and then the methods of a struct one level deeper.
fn dump_struct_members(s: &MirStructDecl, d: &mut Dumper)
    requires
        struct_fits(s@, old(d).level()),
    ensures
        wrote(
            *old(d),
            *final(d),
            field_decls_text(s.fields@, old(d).level() + 1, env_of(old(d))) + functions_text(
                s@.methods,
                old(d).level() + 1,
                env_of(old(d)),
            ),
        ),
{
    let ghost b0 = d.buf@;
    let ghost lvl = d.level();
    proof {
        assert forall|k: int| 0 <= k < s.methods@.len() implies fn_fits(
            #[trigger] mfunction_view(s.methods@[k]),
            lvl + 1,
        ) by {
            assert(s@.methods[k] == mfunction_view(s.methods@[k]));
            assert(fn_fits(s@.methods[k], lvl + 1));
        }
    }
    d.push();
    dump_field_decls(&s.fields, d);
    dump_functions(&s.methods, d);
    d.pop();
    proof {
        assert(d.buf@ =~= b0 + (field_decls_text(s.fields@, lvl + 1, env_of(old(d))) + functions_text(
            s@.methods,
            lvl + 1,
            env_of(old(d)),
        )));
    }
}

/// Writes a struct: its fields and methods one level deeper, between
/// braces.
#[verifier::rlimit(40)]
pub fn dump_struct(s: &MirStructDecl, d: &mut Dumper)
    requires
        struct_fits(s@, old(d).level()),
    ensures
        wrote(*old(d), *final(d), struct_text(s@, old(d).level(), env_of(old(d)))),
{
    let ghost b0 = d.buf@;
    let ghost env = env_of(d);
    let ghost lvl = d.level();
    d.write("struct ");
    let name = dump_sym(s.name, d);
    d.write(name.as_str());
    d.write(" {");
    let ghost b1 = d.buf@;
    proof {
        assert(b1 =~= b0 + ("struct "@ + sym_text(s.name, env.syms) + " {"@));
    }
    if s.fields.len() > 0 || s.methods.len() > 0 {
        d.write("\n");
        dump_struct_members(s, d);
    }
    let ghost b2 = d.buf@;
    proof {
        reveal_strlit("\n");
        assert(b2 =~= b1 + (if s@.fields.len() > 0 || s@.methods.len() > 0 {
            nl() + field_decls_text(s@.fields, lvl + 1, env) + functions_text(s@.methods, lvl + 1, env)
        } else {
            Seq::empty()
        }));
    }
    d.line("}");
    proof {
        reveal_strlit("\n");
        assert(d.buf@ =~= b0 + struct_text(s@, lvl, env));
    }
}

/// Writes a global: `global name: type (mut: bool)`.
pub fn dump_global(g: &MirGlobalDecl, d: &mut Dumper)
    ensures
        wrote(*old(d), *final(d), global_text(crate::mir::decl::mglobal_view(*g), old(d).level(), env_of(old(d)))),
{
    let mut t = String::new();
    crate::text::push_str(&mut t, "global ");
    let name = dump_sym(g.name, d);
    crate::text::push_str(&mut t, name.as_str());
    crate::text::push_str(&mut t, ": ");
    crate::text::push_decimal(&mut t, g.ty.0 as u128);
    crate::text::push_str(&mut t, " (mut: ");
    crate::text::push_str(&mut t, if g.mutable { "true" } else { "false" });
    crate::text::push_str(&mut t, ")");
    d.line(t.as_str());
    proof {
        assert(d.buf@ =~= old(d).buf@ + global_text(
            crate::mir::decl::mglobal_view(*g),
            old(d).level(),
            env_of(old(d)),
        ));
    }
}

/// Writes a declaration.
pub fn dump_decl(decl: &MirDecl, d: &mut Dumper)
    requires
        decl_fits(decl@, old(d).level()),
    ensures
        wrote(*old(d), *final(d), decl_text(decl@, old(d).level(), env_of(old(d)))),
{
    match decl {
        MirDecl::Function(f) => dump_function(f, d),
        MirDecl::Struct(s) => dump_struct(s, d),
        MirDecl::Global(g) => dump_global(g, d),
    }
}

/// Writes declarations one after the other.
fn dump_decls(ds: &Vec<MirDecl>, d: &mut Dumper)
    requires
        forall|k: int| 0 <= k < ds@.len() ==> decl_fits(#[trigger] mdecl_view(ds@[k]), old(d).level()),
    ensures
        wrote(*old(d), *final(d), decls_text(mdecls_view(ds@), old(d).level(), env_of(old(d)))),
{
    let ghost env = env_of(d);
    let ghost lvl = d.level();
    let ghost v = mdecls_view(ds@);
    let mut i: usize = 0;
    proof {
        assert(v.take(0) =~= Seq::<MDecl>::empty());
        assert(d.buf@ + Seq::<char>::empty() =~= d.buf@);
    }
    while i < ds.len()
        invariant
            i <= ds@.len(),
            v == mdecls_view(ds@),
            env == env_of(d),
            lvl == old(d).level(),
            forall|k: int| 0 <= k < ds@.len() ==> decl_fits(#[trigger] mdecl_view(ds@[k]), lvl),
            wrote(*old(d), *d, decls_text(v.take(i as int), lvl, env)),
        decreases ds@.len() - i,
    {
        dump_decl(&ds[i], d);
        proof {
            let s = v.take(i as int + 1);
            assert(s.drop_last() =~= v.take(i as int));
            assert(s.last() == mdecl_view(ds@[i as int]));
            assert(d.buf@ =~= old(d).buf@ + decls_text(s, lvl, env));
        }
        i = i + 1;
    }
    proof {
        assert(v.take(ds@.len() as int) =~= v);
    }
}

/// Writes imports, each as two spaces and then its line.
fn dump_imports(imps: &Vec<MirImport>, d: &mut Dumper)
    ensures
        wrote(*old(d), *final(d), imports_text(imps@, env_of(old(d)).syms)),
{
    let ghost env = env_of(d);
    let mut i: usize = 0;
    proof {
        assert(imps@.take(0) =~= Seq::<MirImport>::empty());
        assert(d.buf@ + Seq::<char>::empty() =~= d.buf@);
    }
    while i < imps.len()
        invariant
            i <= imps@.len(),
            env == env_of(d),
            wrote(*old(d), *d, imports_text(imps@.take(i as int), env.syms)),
        decreases imps@.len() - i,
    {
        d.write("  ");
        dump_import(&imps[i], d);
        proof {
            let s = imps@.take(i as int + 1);
            assert(s.drop_last() =~= imps@.take(i as int));
            assert(s.last() == imps@[i as int]);
            assert(d.buf@ =~= old(d).buf@ + imports_text(s, env.syms));
        }
        i = i + 1;
    }
    proof {
        assert(imps@.take(imps@.len() as int) =~= imps@);
    }
}

/// Writes exports, each as two spaces and then its line.
fn dump_exports(exps: &Vec<MirExport>, d: &mut Dumper)
    ensures
        wrote(*old(d), *final(d), exports_text(exps@, env_of(old(d)).syms)),
{
    let ghost env = env_of(d);
    let mut i: usize = 0;
    proof {
        assert(exps@.take(0) =~= Seq::<MirExport>::empty());
        assert(d.buf@ + Seq::<char>::empty() =~= d.buf@);
    }
    while i < exps.len()
        invariant
            i <= exps@.len(),
            env == env_of(d),
            wrote(*old(d), *d, exports_text(exps@.take(i as int), env.syms)),
        decreases exps@.len() - i,
    {
        d.write("  ");
        dump_export(&exps[i], d);
        proof {
            let s = exps@.take(i as int + 1);
            assert(s.drop_last() =~= exps@.take(i as int));
            assert(s.last() == exps@[i as int]);
            assert(d.buf@ =~= old(d).buf@ + exports_text(s, env.syms));
        }
        i = i + 1;
    }
    proof {
        assert(exps@.take(exps@.len() as int) =~= exps@);
    }
}

/// Writes the list of imports at level 1.
fn dump_imports_section(imps: &Vec<MirImport>, d: &mut Dumper)
    requires
        old(d).level() == 1,
    ensures
        wrote(*old(d), *final(d), list_text("imports"@, imports_text(imps@, env_of(old(d)).syms), imps@.len() == 0)),
{
    let ghost b0 = d.buf@;
    let ghost env = env_of(d);
    d.line("imports: [");
    d.push();
    dump_imports(imps, d);
    if imps.len() == 0 {
        d.line("");
    }
    d.pop();
    d.line("]");
    proof {
        reveal_strlit("");
        reveal_strlit("imports");
        reveal_strlit("imports: [");
        reveal_strlit(": [");
        reveal_strlit("]");
        assert("imports: ["@ =~= "imports"@ + ": ["@);
        if imps@.len() == 0 {
            assert(imports_text(imps@, env.syms) =~= Seq::<char>::empty());
        }
        assert(d.buf@ =~= b0 + list_text("imports"@, imports_text(imps@, env.syms), imps@.len() == 0));
    }
}

/// Writes the list of exports at level 1.
fn dump_exports_section(exps: &Vec<MirExport>, d: &mut Dumper)
    requires
        old(d).level() == 1,
    ensures
        wrote(*old(d), *final(d), list_text("exports"@, exports_text(exps@, env_of(old(d)).syms), exps@.len() == 0)),
{
    let ghost b0 = d.buf@;
    let ghost env = env_of(d);
    d.line("exports: [");
    d.push();
    dump_exports(exps, d);
    if exps.len() == 0 {
        d.line("");
    }
    d.pop();
    d.line("]");
    proof {
        reveal_strlit("");
        reveal_strlit("exports");
        reveal_strlit("exports: [");
        reveal_strlit(": [");
        reveal_strlit("]");
        assert("exports: ["@ =~= "exports"@ + ": ["@);
        if exps@.len() == 0 {
            assert(exports_text(exps@, env.syms) =~= Seq::<char>::empty());
        }
        assert(d.buf@ =~= b0 + list_text("exports"@, exports_text(exps@, env.syms), exps@.len() == 0));
    }
}

/// Writes the list of declarations at level 1.
fn dump_decls_section(ds: &Vec<MirDecl>, d: &mut Dumper)
    requires
        old(d).level() == 1,
        forall|k: int| 0 <= k < ds@.len() ==> decl_fits(#[trigger] mdecl_view(ds@[k]), 2),
    ensures
        wrote(*old(d), *final(d), decls_section(mdecls_view(ds@), env_of(old(d)))),
{
    let ghost b0 = d.buf@;
    let ghost env = env_of(d);
    d.line("declarations: [");
    d.push();
    dump_decls(ds, d);
    d.pop();
    d.line("]");
    proof {
        assert(d.buf@ =~= b0 + decls_section(mdecls_view(ds@), env));
    }
}

/// Writes a module.
fn dump_program(prog: &MirProgram, d: &mut Dumper)
    requires
        old(d).level() == 0,
        program_fits(*prog),
    ensures
        wrote(*old(d), *final(d), program_text(*prog, env_of(old(d)))),
{
    let ghost b0 = d.buf@;
    let ghost env = env_of(d);
    let mut t = String::new();
    crate::text::push_str(&mut t, "MirProgram(module=");
    crate::text::push_decimal(&mut t, prog.module.0 as u128);
    crate::text::push_str(&mut t, ") {");
    d.line(t.as_str());
    proof {
        assert(spaces(0) =~= Seq::<char>::empty());
        assert(d.buf@ =~= b0 + ("MirProgram(module="@ + dec(prog.module.0) + ") {"@ + nl()));
    }
    let ghost b1 = d.buf@;
    d.push();
    dump_imports_section(&prog.imports, d);
    dump_exports_section(&prog.exports, d);
    dump_decls_section(&prog.declarations, d);
    d.pop();
    d.line("}");
    proof {
        assert(d.buf@ =~= b0 + program_text(*prog, env));
    }
}

// ---------------------------------------------------------------------------
// Checking the depth
// ---------------------------------------------------------------------------

/// A count, or `usize::MAX` when it is that large or larger.
pub open spec fn capped(n: nat) -> nat {
    if n < usize::MAX {
        n
    } else {
        usize::MAX as nat
    }
}

/// How many blocks a statement nests, counted up to `usize::MAX`.
pub fn stmt_depth_capped(s: &MirStmt) -> (r: usize)
    ensures
        r == capped(stmt_depth(s@)),
    decreases s, 1nat,
{
    let m: usize = match s {
        MirStmt::If { then_block, else_block, .. } => {
            proof {
                assert(decreases_to!(s => then_block.stmts));
            }
            let t = stmts_depth_capped(&then_block.stmts);
            let e = match else_block {
                Some(b) => {
                    proof {
                        assert(decreases_to!(s => b.stmts));
                    }
                    stmts_depth_capped(&b.stmts)
                },
                None => 0,
            };
            if t >= e {
                t
            } else {
                e
            }
        },
        MirStmt::While { body, .. } | MirStmt::ForOf { body, .. } | MirStmt::ForIn { body, .. } => {
            proof {
                assert(decreases_to!(s => body.stmts));
            }
            stmts_depth_capped(&body.stmts)
        },
        _ => {
            return 0;
        },
    };
    if m == usize::MAX {
        usize::MAX
    } else {
        m + 1
    }
}

/// How many blocks the deepest of statements nests, counted up to
/// `usize::MAX`.
pub fn stmts_depth_capped(ss: &Vec<MirStmt>) -> (r: usize)
    ensures
        r == capped(stmts_depth(mstmts_view(ss@))),
    decreases ss, 0nat,
{
    let ghost v = mstmts_view(ss@);
    let mut acc: usize = 0;
    let mut i: usize = 0;
    proof {
        lemma_mstmts_view(ss@);
        assert(v.take(0) =~= Seq::<MStmt>::empty());
    }
    while i < ss.len()
        invariant
            i <= ss@.len(),
            v == mstmts_view(ss@),
            v.len() == ss@.len(),
            forall|k: int| 0 <= k < ss@.len() ==> #[trigger] v[k] == mstmt_view(ss@[k]),
            acc == capped(stmts_depth(v.take(i as int))),
        decreases ss@.len() - i,
    {
        proof {
            assert(decreases_to!(ss => ss@[i as int]));
        }
        let d = stmt_depth_capped(&ss[i]);
        proof {
            let t = v.take(i as int + 1);
            assert(t.drop_last() =~= v.take(i as int));
            assert(t.last() == v[i as int]);
        }
        if d > acc {
            acc = d;
        }
        i = i + 1;
    }
    proof {
        assert(v.take(ss@.len() as int) =~= v);
    }
    acc
}

/// Whether a function written at level `lvl` nests few enough blocks.
fn fn_fits_check(f: &MirFunctionDecl, lvl: usize) -> (b: bool)
    requires
        lvl <= 3,
    ensures
        b == fn_fits(f@, lvl as nat),
{
    let d = stmts_depth_capped(&f.body.block.stmts);
    d < usize::MAX - 2 - lvl
}

/// Whether every declaration of a module nests few enough blocks for the
/// indentation of its dump to be counted: what `dump_text` and
/// `dump_with_symbols` require.
pub fn program_fits_check(prog: &MirProgram) -> (b: bool)
    ensures
        b == program_fits(*prog),
{
    let mut i: usize = 0;
    while i < prog.declarations.len()
        invariant
            i <= prog.declarations@.len(),
            forall|k: int| 0 <= k < i ==> decl_fits(#[trigger] mdecl_view(prog.declarations@[k]), 2),
        decreases prog.declarations@.len() - i,
    {
        let ok = match &prog.declarations[i] {
            MirDecl::Function(f) => fn_fits_check(f, 2),
            MirDecl::Struct(s) => {
                let mut j: usize = 0;
                let mut all = true;
                while j < s.methods.len()
                    invariant
                        j <= s.methods@.len(),
                        all == (forall|k: int| 0 <= k < j ==> fn_fits(#[trigger] mfunction_view(s.methods@[k]), 3)),
                    decreases s.methods@.len() - j,
                {
                    let f = fn_fits_check(&s.methods[j], 3);
                    all = all && f;
                    j = j + 1;
                }
                proof {
                    assert(s@.methods.len() == s.methods@.len());
                    if all {
                        assert forall|k: int| 0 <= k < s@.methods.len() implies fn_fits(
                            #[trigger] s@.methods[k],
                            3,
                        ) by {
                            assert(s@.methods[k] == mfunction_view(s.methods@[k]));
                        }
                    } else {
                        let k = choose|k: int|
                            0 <= k < s.methods@.len() && !fn_fits(#[trigger] mfunction_view(s.methods@[k]), 3);
                        assert(s@.methods[k] == mfunction_view(s.methods@[k]));
                    }
                    assert(all == struct_fits(s@, 2));
                }
                all
            },
            MirDecl::Global(_) => true,
        };
        proof {
            assert(ok == decl_fits(mdecl_view(prog.declarations@[i as int]), 2));
        }
        if !ok {
            return false;
        }
        i = i + 1;
    }
    true
}

impl MirProgram {
    /// The text dump of the module, with float literals written by
    /// `floats` and symbols by number alone.
    pub fn dump_text(&self, floats: &FloatTexts) -> (s: String)
        requires
            program_fits(*self),
        ensures
            s@ == program_text(*self, DumpEnv { syms: None, floats: float_entries(Some(floats)) }),
    {
        let mut d = Dumper::with_floats(None, floats);
        dump_program(self, &mut d);
        proof {
            assert(d.buf@ =~= Seq::<char>::empty() + program_text(*self, env_of(&d)));
        }
        d.buf
    }

    /// The text dump of the module, with float literals written by
    /// `floats` and symbols with the names `symbols` gives them.
    pub fn dump_with_symbols(&self, symbols: &SymbolTable, floats: &FloatTexts) -> (s: String)
        requires
            program_fits(*self),
        ensures
            s@ == program_text(*self, DumpEnv { syms: Some(symbols@), floats: float_entries(Some(floats)) }),
    {
        let mut d = Dumper::with_floats(Some(symbols), floats);
        dump_program(self, &mut d);
        proof {
            assert(d.buf@ =~= Seq::<char>::empty() + program_text(*self, env_of(&d)));
        }
        d.buf
    }
}

} // verus!
