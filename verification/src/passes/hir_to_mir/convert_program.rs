//! Converting functions, classes and whole modules of the high-level IR to
//! the mid-level IR.

use vstd::prelude::*;

use crate::hir::program::{HirExport, HirImport, HirProgram};
use crate::hir::stmt::{
    HirClass, HirDecl, HirField, HirFunction, SClass, SDecl, SFunction, SStmt, class_view, decls_view, lemma_decls_view,
    lemma_functions_view, stmts_view,
};
use crate::ids::{FieldId, FunctionId, StructId, SymbolId};
use crate::mir::body::{MirBlock, MirBody};
use crate::mir::decl::{
    FunctionEffects, FunctionKind, MDecl, MFunction, MStruct, MirDecl, MirFieldDecl, MirFunctionDecl,
    MirStructDecl, mdecl_view, mfunction_view, opt_text,
};
use crate::mir::program::{MirExport, MirImport, MirProgram, mdecls_view};
use crate::passes::context::PassContext;
use crate::passes::hir_to_mir::convert_stmt::after_block;
use crate::passes::hir_to_mir::converter::{ConverterView, ExprConverter, FunctionRemap, StructIdMap, seeded};
use crate::passes::hir_to_mir::program::{
    body_can_throw, build_params, has_throw_in, hir_stmts_throw, law_throw_statement_means_may_throw, params_built,
};
use crate::passes::hir_to_mir::spec::{CState, Report, cs_list, lemma_reports_none, lemma_reports_trans, reports};
use crate::passes::lower_enums::text_or_empty;
use crate::tables::{StringTable, SymbolTable, can_intern, interned};
use crate::ty::Visibility;

verus! {

// ---------------------------------------------------------------------------
// Functions
// ---------------------------------------------------------------------------

/// The converter a function body starts with: parameters `0..n` are locals
/// of the same ids, and new locals come after them.
pub open spec fn function_start(remap: Map<u32, u32>, n: u32) -> ConverterView {
    ConverterView {
        locals: seeded(Map::empty(), n),
        names: Map::empty(),
        remap,
        next_local: n,
        next_state: 0,
        next_await: 0,
        temps: Seq::empty(),
        structs: Map::empty(),
    }
}

/// What converting a function gives: the function, the symbol table, the
/// shared struct ids, the next struct id, the reports, and whether no
/// counter ran out.
pub struct FnOut {
    pub f: MFunction,
    pub symbols: Seq<Seq<char>>,
    pub shared: Map<u32, u32>,
    pub next_struct: u32,
    pub ds: Seq<Report>,
    pub ok: bool,
}

/// A function converted: its body with struct ids shared through `shared`,
/// its parameters named through the symbol table, and its effects.
pub open spec fn fn_conv(
    f: SFunction,
    id: FunctionId,
    export: Option<Seq<char>>,
    remap: Map<u32, u32>,
    strs: Seq<Seq<char>>,
    syms: Seq<Seq<char>>,
    shared: Map<u32, u32>,
    next: u32,
) -> FnOut {
    let n = f.params.len() as u32;
    let r = cs_list(CState { cv: function_start(remap, n), shared, next_struct: next, ok: true }, f.body);
    let (syms2, params, pok) = params_built(f.params, strs, syms);
    FnOut {
        f: MFunction {
            id,
            name: f.name,
            export_name: export,
            params,
            ret: f.ret,
            throws: None,
            locals: r.locals + r.st.cv.temps,
            body: r.out,
            kind: FunctionKind::Plain,
            effects: FunctionEffects { can_throw: hir_stmts_throw(f.body), is_async: f.is_async },
        },
        symbols: syms2,
        shared: r.st.shared,
        next_struct: r.st.next_struct,
        ds: r.ds,
        ok: r.st.ok && pok && f.params.len() <= u32::MAX,
    }
}

/// Converts a function with the given id and exported name; calls in its
/// body follow `function_remap`, and struct ids are shared through
/// `struct_id_map` and `next_struct_id`.
pub fn convert_function(
    f: &HirFunction,
    id: FunctionId,
    export_name: Option<String>,
    function_remap: FunctionRemap,
    strings: &StringTable,
    symbols: &mut SymbolTable,
    struct_id_map: &mut StructIdMap,
    next_struct_id: &mut u32,
    ctx: &mut PassContext,
) -> (r: MirFunctionDecl)
    requires
        old(symbols).wf(),
        fn_conv(
            f@,
            id,
            opt_text(export_name),
            function_remap.map@,
            strings@,
            old(symbols)@,
            old(struct_id_map).map@,
            *old(next_struct_id),
        ).ok,
    ensures
        final(symbols).wf(),
        mfunction_view(r) == fn_conv(
            f@,
            id,
            opt_text(export_name),
            function_remap.map@,
            strings@,
            old(symbols)@,
            old(struct_id_map).map@,
            *old(next_struct_id),
        ).f,
        final(symbols)@ == fn_conv(
            f@,
            id,
            opt_text(export_name),
            function_remap.map@,
            strings@,
            old(symbols)@,
            old(struct_id_map).map@,
            *old(next_struct_id),
        ).symbols,
        final(struct_id_map).map@ == fn_conv(
            f@,
            id,
            opt_text(export_name),
            function_remap.map@,
            strings@,
            old(symbols)@,
            old(struct_id_map).map@,
            *old(next_struct_id),
        ).shared,
        *final(next_struct_id) == fn_conv(
            f@,
            id,
            opt_text(export_name),
            function_remap.map@,
            strings@,
            old(symbols)@,
            old(struct_id_map).map@,
            *old(next_struct_id),
        ).next_struct,
        reports(
            old(ctx)@,
            final(ctx)@,
            fn_conv(
                f@,
                id,
                opt_text(export_name),
                function_remap.map@,
                strings@,
                old(symbols)@,
                old(struct_id_map).map@,
                *old(next_struct_id),
            ).ds,
        ),
        has_throw_in(f@.body) ==> r.effects.can_throw,
{
    let ghost remap = function_remap.map@;
    let param_count = f.params.len() as u32;
    let mut converter = ExprConverter::with_function_remap_and_offset(function_remap, param_count);
    converter.seed_params(param_count);
    proof {
        assert(converter@ == function_start(remap, param_count));
    }
    let (block, locals) = converter.convert_block_with_shared_struct_ids(
        f.body.as_slice(),
        struct_id_map,
        next_struct_id,
        ctx,
    );
    let params = build_params(&f.params, strings, symbols);
    let can_throw = body_can_throw(&f.body);
    proof {
        if has_throw_in(f@.body) {
            law_throw_statement_means_may_throw(f@.body);
        }
    }
    MirFunctionDecl {
        id,
        name: f.name,
        export_name,
        params,
        ret: f.ret,
        throws: None,
        body: MirBody { locals, block },
        kind: FunctionKind::Plain,
        effects: FunctionEffects { can_throw, is_async: f.is_async },
    }
}

// ---------------------------------------------------------------------------
// Classes
// ---------------------------------------------------------------------------

/// The symbol table after interning the names of the fields `fs` in order,
/// the fields they become, and whether every name could be interned.
pub open spec fn fields_conv(fs: Seq<HirField>, strs: Seq<Seq<char>>, syms: Seq<Seq<char>>) -> (
    Seq<Seq<char>>,
    Seq<MirFieldDecl>,
    bool,
)
    decreases fs.len(),
{
    if fs.len() == 0 {
        (syms, Seq::empty(), true)
    } else {
        let (s1, out, ok) = fields_conv(fs.drop_last(), strs, syms);
        let raw = text_or_empty(strs, fs.last().name.0);
        let (s2, id) = interned(s1, raw);
        (
            s2,
            out.push(
                MirFieldDecl {
                    id: FieldId((fs.len() - 1) as u32),
                    name: SymbolId(id as u32),
                    ty: fs.last().ty,
                    mutable: false,
                    visibility: Visibility::Public,
                },
            ),
            ok && can_intern(s1, raw),
        )
    }
}

/// The state of converting the declarations of a module.
pub struct Acc {
    pub syms: Seq<Seq<char>>,
    pub shared: Map<u32, u32>,
    pub next_struct: u32,
    pub next_function: u32,
    pub ds: Seq<Report>,
    pub ok: bool,
}

/// The methods of a class converted in order, each with the next function
/// id; those with a first parameter become methods of the struct on it,
/// the others are dropped.
pub open spec fn methods_fold(a: Acc, kept: Seq<MFunction>, ms: Seq<SFunction>, sid: StructId, strs: Seq<Seq<char>>) -> (
    Acc,
    Seq<MFunction>,
)
    decreases ms.len(),
{
    if ms.len() == 0 {
        (a, kept)
    } else {
        let (a1, k1) = methods_fold(a, kept, ms.drop_last(), sid, strs);
        if !a1.ok || a1.next_function == u32::MAX {
            (Acc { ok: false, ..a1 }, k1)
        } else {
            let r = fn_conv(ms.last(), FunctionId(a1.next_function), None, Map::empty(), strs, a1.syms, a1.shared, a1.next_struct);
            (
                Acc {
                    syms: r.symbols,
                    shared: r.shared,
                    next_struct: r.next_struct,
                    next_function: (a1.next_function + 1) as u32,
                    ds: a1.ds + r.ds,
                    ok: r.ok,
                },
                if r.f.params.len() > 0 {
                    k1.push(MFunction { kind: FunctionKind::Method { owner: sid, self_param: r.f.params[0].id }, ..r.f })
                } else {
                    k1
                },
            )
        }
    }
}

/// A class converted to struct `sid`: its type gets that struct id, its
/// fields are named through the symbol table, then its methods follow.
pub open spec fn class_conv(c: SClass, sid: StructId, strs: Seq<Seq<char>>, a: Acc) -> (Acc, MStruct) {
    let (syms1, fields, fok) = fields_conv(c.fields, strs, a.syms);
    let (a2, kept) = methods_fold(
        Acc { syms: syms1, shared: a.shared.insert(c.ty.0, sid.0), ok: a.ok && fok && c.fields.len() <= u32::MAX, ..a },
        Seq::empty(),
        c.methods,
        sid,
        strs,
    );
    (a2, MStruct { id: sid, name: c.name, fields, methods: kept })
}

/// Converts a class to struct `struct_id`.
fn convert_class(
    c: &HirClass,
    struct_id: StructId,
    next_function_id: &mut u32,
    struct_id_map: &mut StructIdMap,
    next_struct_id: &mut u32,
    strings: &StringTable,
    symbols: &mut SymbolTable,
    ctx: &mut PassContext,
) -> (r: MirDecl)
    requires
        old(symbols).wf(),
        class_conv(
            class_view(*c),
            struct_id,
            strings@,
            Acc {
                syms: old(symbols)@,
                shared: old(struct_id_map).map@,
                next_struct: *old(next_struct_id),
                next_function: *old(next_function_id),
                ds: Seq::empty(),
                ok: true,
            },
        ).0.ok,
    ensures
        ({
            let (a, st) = class_conv(
                class_view(*c),
                struct_id,
                strings@,
                Acc {
                    syms: old(symbols)@,
                    shared: old(struct_id_map).map@,
                    next_struct: *old(next_struct_id),
                    next_function: *old(next_function_id),
                    ds: Seq::empty(),
                    ok: true,
                },
            );
            &&& final(symbols).wf()
            &&& mdecl_view(r) == MDecl::Struct(st)
            &&& final(symbols)@ == a.syms
            &&& final(struct_id_map).map@ == a.shared
            &&& *final(next_struct_id) == a.next_struct
            &&& *final(next_function_id) == a.next_function
            &&& reports(old(ctx)@, final(ctx)@, a.ds)
        }),
{
    let ghost strs = strings@;
    let ghost a0 = Acc {
        syms: symbols@,
        shared: struct_id_map.map@,
        next_struct: *next_struct_id,
        next_function: *next_function_id,
        ds: Seq::empty(),
        ok: true,
    };
    let ghost cv = class_view(*c);
    let ghost c0 = ctx@;
    struct_id_map.map.insert(c.ty.0, struct_id.0);
    let ghost (fsyms, ffields, fok) = fields_conv(c.fields@, strs, a0.syms);
    let ghost a1 = Acc { syms: fsyms, shared: a0.shared.insert(cv.ty.0, struct_id.0), ok: fok && c.fields@.len() <= u32::MAX, ..a0 };
    proof {
        lemma_methods_fold_ok(a1, Seq::empty(), cv.methods, struct_id, strs, 0);
        assert(cv.methods.take(0) =~= Seq::<SFunction>::empty());
        assert(a1.ok);
    }
    let fields = build_fields(&c.fields, strings, symbols);
    let mut methods: Vec<MirFunctionDecl> = Vec::new();
    let mut i: usize = 0;
    proof {
        lemma_functions_view(c.methods@);
        assert(cv.methods.take(0) =~= Seq::<SFunction>::empty());
        lemma_reports_none(c0);
    }
    while i < c.methods.len()
        invariant
            i <= c.methods@.len(),
            cv == class_view(*c),
            cv.methods.len() == c.methods@.len(),
            strs == strings@,
            symbols.wf(),
            methods_fold(a1, Seq::empty(), cv.methods, struct_id, strs).0.ok,
            methods_fold(a1, Seq::empty(), cv.methods.take(i as int), struct_id, strs).0.ok,
            symbols@ == methods_fold(a1, Seq::empty(), cv.methods.take(i as int), struct_id, strs).0.syms,
            struct_id_map.map@ == methods_fold(a1, Seq::empty(), cv.methods.take(i as int), struct_id, strs).0.shared,
            *next_struct_id == methods_fold(a1, Seq::empty(), cv.methods.take(i as int), struct_id, strs).0.next_struct,
            *next_function_id == methods_fold(a1, Seq::empty(), cv.methods.take(i as int), struct_id, strs).0.next_function,
            methods@.map_values(|m: MirFunctionDecl| mfunction_view(m)) == methods_fold(a1, Seq::empty(), cv.methods.take(i as int), struct_id, strs).1,
            reports(c0, ctx@, methods_fold(a1, Seq::empty(), cv.methods.take(i as int), struct_id, strs).0.ds),
        decreases c.methods@.len() - i,
    {
        proof {
            assert(cv.methods.take(i as int + 1).drop_last() =~= cv.methods.take(i as int));
            lemma_functions_view(c.methods@);
            assert(cv.methods[i as int] == c.methods@[i as int]@);
            assert(cv.methods.take(i as int + 1).last() == c.methods@[i as int]@);
            lemma_methods_fold_ok(a1, Seq::empty(), cv.methods, struct_id, strs, i as int + 1);
        }
        let ghost p = methods_fold(a1, Seq::empty(), cv.methods.take(i as int), struct_id, strs);
        let ghost c1 = ctx@;
        let ghost mv = methods@.map_values(|m: MirFunctionDecl| mfunction_view(m));
        let id = FunctionId(*next_function_id);
        *next_function_id = *next_function_id + 1;
        let mut m = convert_function(
            &c.methods[i],
            id,
            None,
            FunctionRemap::new(),
            strings,
            symbols,
            struct_id_map,
            next_struct_id,
            ctx,
        );
        if m.params.len() > 0 {
            m.kind = FunctionKind::Method { owner: struct_id, self_param: m.params[0].id };
            methods.push(m);
            proof {
                assert(methods@.map_values(|m: MirFunctionDecl| mfunction_view(m)) =~= mv.push(mfunction_view(methods@.last())));
            }
        }
        proof {
            let r = fn_conv(c.methods@[i as int]@, id, None, Map::empty(), strs, p.0.syms, p.0.shared, p.0.next_struct);
            lemma_reports_trans(c0, c1, ctx@, p.0.ds, r.ds);
        }
        i = i + 1;
    }
    proof {
        assert(cv.methods.take(c.methods@.len() as int) =~= cv.methods);
    }
    MirDecl::Struct(MirStructDecl { id: struct_id, name: c.name, fields, methods })
}

proof fn lemma_methods_fold_ok(a: Acc, kept: Seq<MFunction>, ms: Seq<SFunction>, sid: StructId, strs: Seq<Seq<char>>, i: int)
    requires
        0 <= i <= ms.len(),
        methods_fold(a, kept, ms, sid, strs).0.ok,
    ensures
        methods_fold(a, kept, ms.take(i), sid, strs).0.ok,
    decreases ms.len(),
{
    if i < ms.len() {
        let p = ms.drop_last();
        assert(ms.take(i) =~= p.take(i));
        lemma_methods_fold_ok(a, kept, p, sid, strs, i);
    } else {
        assert(ms.take(i) =~= ms);
    }
}

/// The fields of a converted class: the `i`-th has field id `i`, is
/// immutable and public, and is named by interning the text of its name.
fn build_fields(fields: &Vec<HirField>, strings: &StringTable, symbols: &mut SymbolTable) -> (r: Vec<MirFieldDecl>)
    requires
        old(symbols).wf(),
        fields@.len() <= u32::MAX,
        fields_conv(fields@, strings@, old(symbols)@).2,
    ensures
        final(symbols).wf(),
        final(symbols)@ == fields_conv(fields@, strings@, old(symbols)@).0,
        r@ == fields_conv(fields@, strings@, old(symbols)@).1,
{
    let ghost fs = fields@;
    let ghost strs = strings@;
    let ghost s0 = symbols@;
    let mut out: Vec<MirFieldDecl> = Vec::new();
    let mut i: usize = 0;
    proof {
        assert(fs.take(0) =~= Seq::<HirField>::empty());
    }
    while i < fields.len()
        invariant
            fs == fields@,
            strs == strings@,
            i <= fs.len(),
            fs.len() <= u32::MAX,
            symbols.wf(),
            fields_conv(fs, strs, s0).2,
            symbols@ == fields_conv(fs.take(i as int), strs, s0).0,
            out@ == fields_conv(fs.take(i as int), strs, s0).1,
            fields_conv(fs.take(i as int), strs, s0).2,
        decreases fs.len() - i,
    {
        proof {
            assert(fs.take(i + 1).drop_last() =~= fs.take(i as int));
            lemma_fields_prefix(fs, strs, s0, i + 1);
        }
        let f = fields[i];
        let raw: &str = match strings.resolve(f.name) {
            Some(t) => t,
            None => "",
        };
        proof {
            reveal_strlit("");
            assert(raw@ == text_or_empty(strs, f.name.0));
        }
        let name = symbols.intern(raw);
        out.push(MirFieldDecl { id: FieldId(i as u32), name, ty: f.ty, mutable: false, visibility: Visibility::Public });
        i = i + 1;
    }
    proof {
        assert(fs.take(i as int) =~= fs);
    }
    out
}

proof fn lemma_fields_prefix(fs: Seq<HirField>, strs: Seq<Seq<char>>, syms: Seq<Seq<char>>, j: int)
    requires
        0 <= j <= fs.len(),
        fields_conv(fs, strs, syms).2,
    ensures
        fields_conv(fs.take(j), strs, syms).2,
    decreases fs.len() - j,
{
    if j < fs.len() {
        lemma_fields_prefix(fs, strs, syms, j + 1);
        assert(fs.take(j + 1).drop_last() =~= fs.take(j));
    } else {
        assert(fs.take(j) =~= fs);
    }
}

// ---------------------------------------------------------------------------
// Modules
// ---------------------------------------------------------------------------

/// The struct ids given to classes before anything is converted: the
/// `k`-th class gets `k`, recorded for its type in order; and how many
/// classes there are.
pub open spec fn class_ids(ds: Seq<SDecl>) -> (Map<u32, u32>, nat)
    decreases ds.len(),
{
    if ds.len() == 0 {
        (Map::empty(), 0)
    } else {
        let (m, n) = class_ids(ds.drop_last());
        match ds.last() {
            SDecl::Class(c) => (m.insert(c.ty.0, n as u32), n + 1),
            _ => (m, n),
        }
    }
}

/// The state of converting the declarations of a module: the common state,
/// how many classes were seen, and the declarations produced.
pub struct ProgAcc {
    pub a: Acc,
    pub classes: nat,
    pub decls: Seq<MDecl>,
}

/// The name a function is exported under: its text, when it is exported and
/// the symbol table has it.
pub open spec fn export_of(f: SFunction, syms: Seq<Seq<char>>) -> Option<Seq<char>> {
    if f.is_exported && f.name.0 < syms.len() {
        Some(syms[f.name.0 as int])
    } else {
        None
    }
}

/// One declaration converted: a function gets the next function id, a
/// class becomes the struct of the id its position gave it; others give
/// nothing.
pub open spec fn decl_conv(p: ProgAcc, d: SDecl, strs: Seq<Seq<char>>) -> ProgAcc {
    if !p.a.ok {
        p
    } else {
        match d {
            SDecl::Function(f) => if p.a.next_function == u32::MAX {
                ProgAcc { a: Acc { ok: false, ..p.a }, ..p }
            } else {
                let r = fn_conv(
                    f,
                    FunctionId(p.a.next_function),
                    export_of(f, p.a.syms),
                    Map::empty(),
                    strs,
                    p.a.syms,
                    p.a.shared,
                    p.a.next_struct,
                );
                ProgAcc {
                    a: Acc {
                        syms: r.symbols,
                        shared: r.shared,
                        next_struct: r.next_struct,
                        next_function: (p.a.next_function + 1) as u32,
                        ds: p.a.ds + r.ds,
                        ok: r.ok,
                    },
                    classes: p.classes,
                    decls: p.decls.push(MDecl::Function(r.f)),
                }
            },
            SDecl::Class(c) => {
                let (a2, st) = class_conv(c, StructId(p.classes as u32), strs, p.a);
                ProgAcc { a: a2, classes: p.classes + 1, decls: p.decls.push(MDecl::Struct(st)) }
            },
            _ => p,
        }
    }
}

/// The declarations converted in order.
pub open spec fn decls_conv(p: ProgAcc, ds: Seq<SDecl>, strs: Seq<Seq<char>>) -> ProgAcc
    decreases ds.len(),
{
    if ds.len() == 0 {
        p
    } else {
        decl_conv(decls_conv(p, ds.drop_last(), strs), ds.last(), strs)
    }
}

/// The state a module's conversion starts from.
pub open spec fn prog_start(ds: Seq<SDecl>, syms: Seq<Seq<char>>) -> ProgAcc {
    ProgAcc {
        a: Acc {
            syms,
            shared: class_ids(ds).0,
            next_struct: class_ids(ds).1 as u32,
            next_function: 0,
            ds: Seq::empty(),
            ok: class_ids(ds).1 <= u32::MAX,
        },
        classes: 0,
        decls: Seq::empty(),
    }
}

/// The conversion of a module's declarations.
pub open spec fn prog_conv(ds: Seq<SDecl>, strs: Seq<Seq<char>>, syms: Seq<Seq<char>>) -> ProgAcc {
    decls_conv(prog_start(ds, syms), ds, strs)
}

/// The import a module import becomes: the text of its module, its name
/// and its alias.
pub open spec fn import_conv(i: HirImport, strs: Seq<Seq<char>>) -> (Seq<char>, SymbolId, Option<SymbolId>) {
    (text_or_empty(strs, i.module.0), i.name, i.alias)
}

/// The export a module export becomes; the alias keeps its raw id.
pub open spec fn export_conv(e: HirExport) -> MirExport {
    MirExport {
        symbol: e.name,
        alias: match e.alias {
            Some(s) => Some(SymbolId(s.0)),
            None => None,
        },
    }
}

proof fn lemma_decls_conv_ok(p: ProgAcc, ds: Seq<SDecl>, strs: Seq<Seq<char>>, i: int)
    requires
        0 <= i <= ds.len(),
        decls_conv(p, ds, strs).a.ok,
    ensures
        decls_conv(p, ds.take(i), strs).a.ok,
    decreases ds.len(),
{
    if i < ds.len() {
        let q = ds.drop_last();
        assert(ds.take(i) =~= q.take(i));
        lemma_decls_conv_ok(p, q, strs, i);
    } else {
        assert(ds.take(i) =~= ds);
    }
}

proof fn lemma_class_ids_bound(ds: Seq<SDecl>, i: int)
    requires
        0 <= i <= ds.len(),
    ensures
        class_ids(ds.take(i)).1 <= class_ids(ds).1,
    decreases ds.len(),
{
    if i < ds.len() {
        let q = ds.drop_last();
        assert(ds.take(i) =~= q.take(i));
        lemma_class_ids_bound(q, i);
    } else {
        assert(ds.take(i) =~= ds);
    }
}

/// Converts a module: its exports, its imports (the module named by its
/// text), then its functions and classes in order. Classes get struct ids
/// by their position among classes before anything is converted; functions
/// and methods get function ids in the order they are met.
pub fn convert_program(hir: &HirProgram, strings: &StringTable, symbols: &mut SymbolTable, ctx: &mut PassContext) -> (r:
    MirProgram)
    requires
        old(symbols).wf(),
        prog_conv(hir.decls(), strings@, old(symbols)@).a.ok,
    ensures
        final(symbols).wf(),
        r.module == hir.module,
        r.exports@ == hir.exports@.map_values(|e: HirExport| export_conv(e)),
        r.imports@.map_values(|i: MirImport| (i.module@, i.symbol, i.alias)) == hir.imports@.map_values(
            |i: HirImport| import_conv(i, strings@),
        ),
        mdecls_view(r.declarations@) == prog_conv(hir.decls(), strings@, old(symbols)@).decls,
        final(symbols)@ == prog_conv(hir.decls(), strings@, old(symbols)@).a.syms,
        reports(old(ctx)@, final(ctx)@, prog_conv(hir.decls(), strings@, old(symbols)@).a.ds),
{
    let ghost strs = strings@;
    let ghost dv = hir.decls();
    let ghost s0 = symbols@;
    let ghost c0 = ctx@;
    let mut mir = MirProgram::new(hir.module);
    let mut k: usize = 0;
    while k < hir.exports.len()
        invariant
            k <= hir.exports@.len(),
            mir.module == hir.module,
            mir.imports@ == Seq::<MirImport>::empty(),
            mir.declarations@ == Seq::<MirDecl>::empty(),
            mir.exports@ == hir.exports@.take(k as int).map_values(|e: HirExport| export_conv(e)),
        decreases hir.exports@.len() - k,
    {
        let e = hir.exports[k];
        let alias = match e.alias {
            Some(s) => Some(SymbolId(s.0)),
            None => None,
        };
        mir.push_export(MirExport { symbol: e.name, alias });
        proof {
            assert(hir.exports@.take(k as int + 1).map_values(|e: HirExport| export_conv(e))
                =~= hir.exports@.take(k as int).map_values(|e: HirExport| export_conv(e)).push(export_conv(e)));
        }
        k = k + 1;
    }
    proof {
        assert(hir.exports@.take(hir.exports@.len() as int) =~= hir.exports@);
    }
    let mut k: usize = 0;
    while k < hir.imports.len()
        invariant
            k <= hir.imports@.len(),
            strs == strings@,
            mir.module == hir.module,
            mir.exports@ == hir.exports@.map_values(|e: HirExport| export_conv(e)),
            mir.declarations@ == Seq::<MirDecl>::empty(),
            mir.imports@.map_values(|i: MirImport| (i.module@, i.symbol, i.alias)) == hir.imports@.take(k as int).map_values(
                |i: HirImport| import_conv(i, strs),
            ),
        decreases hir.imports@.len() - k,
    {
        let imp = &hir.imports[k];
        let text: &str = match strings.resolve(imp.module) {
            Some(t) => t,
            None => "",
        };
        proof {
            reveal_strlit("");
            assert(text@ == text_or_empty(strs, imp.module.0));
        }
        let ghost before = mir.imports@;
        mir.push_import(MirImport { module: text.to_owned(), symbol: imp.name, alias: imp.alias });
        proof {
            assert(mir.imports@.map_values(|i: MirImport| (i.module@, i.symbol, i.alias))
                =~= before.map_values(|i: MirImport| (i.module@, i.symbol, i.alias)).push(import_conv(*imp, strs)));
            assert(hir.imports@.take(k as int + 1).map_values(|i: HirImport| import_conv(i, strs))
                =~= hir.imports@.take(k as int).map_values(|i: HirImport| import_conv(i, strs)).push(import_conv(*imp, strs)));
        }
        k = k + 1;
    }
    proof {
        assert(hir.imports@.take(hir.imports@.len() as int) =~= hir.imports@);
    }
    let mut struct_id_map = StructIdMap::new();
    let mut next_struct_id: u32 = 0;
    let mut class_struct_ids: Vec<StructId> = Vec::new();
    let mut k: usize = 0;
    proof {
        lemma_decls_view(hir.declarations@);
        lemma_decls_conv_ok(prog_start(dv, s0), dv, strs, 0);
        assert(dv.take(0) =~= Seq::<SDecl>::empty());
    }
    while k < hir.declarations.len()
        invariant
            k <= hir.declarations@.len(),
            dv == hir.decls(),
            dv.len() == hir.declarations@.len(),
            forall|j: int| 0 <= j < dv.len() ==> #[trigger] dv[j] == hir.declarations@[j]@,
            class_ids(dv).1 <= u32::MAX,
            struct_id_map.map@ == class_ids(dv.take(k as int)).0,
            next_struct_id == class_ids(dv.take(k as int)).1,
            class_struct_ids@.len() == class_ids(dv.take(k as int)).1,
            forall|j: int| 0 <= j < class_struct_ids@.len() ==> (#[trigger] class_struct_ids@[j]).0 == j,
        decreases hir.declarations@.len() - k,
    {
        proof {
            assert(dv.take(k as int + 1).drop_last() =~= dv.take(k as int));
            lemma_class_ids_bound(dv, k as int + 1);
        }
        match &hir.declarations[k] {
            HirDecl::Class(c) => {
                let sid = StructId(next_struct_id);
                next_struct_id = next_struct_id + 1;
                struct_id_map.map.insert(c.ty.0, sid.0);
                class_struct_ids.push(sid);
            },
            _ => {},
        }
        k = k + 1;
    }
    proof {
        assert(dv.take(dv.len() as int) =~= dv);
    }
    let mut next_function_id: u32 = 0;
    let mut classes_seen: usize = 0;
    let mut k: usize = 0;
    proof {
        lemma_reports_none(c0);
    }
    while k < hir.declarations.len()
        invariant
            k <= hir.declarations@.len(),
            dv == hir.decls(),
            strs == strings@,
            dv.len() == hir.declarations@.len(),
            forall|j: int| 0 <= j < dv.len() ==> #[trigger] dv[j] == hir.declarations@[j]@,
            decls_conv(prog_start(dv, s0), dv, strs).a.ok,
            decls_conv(prog_start(dv, s0), dv.take(k as int), strs).a.ok,
            symbols.wf(),
            symbols@ == decls_conv(prog_start(dv, s0), dv.take(k as int), strs).a.syms,
            struct_id_map.map@ == decls_conv(prog_start(dv, s0), dv.take(k as int), strs).a.shared,
            next_struct_id == decls_conv(prog_start(dv, s0), dv.take(k as int), strs).a.next_struct,
            next_function_id == decls_conv(prog_start(dv, s0), dv.take(k as int), strs).a.next_function,
            classes_seen == decls_conv(prog_start(dv, s0), dv.take(k as int), strs).classes,
            classes_seen <= class_struct_ids@.len(),
            forall|j: int| 0 <= j < class_struct_ids@.len() ==> (#[trigger] class_struct_ids@[j]).0 == j,
            class_struct_ids@.len() == class_ids(dv).1,
            class_ids(dv).1 <= u32::MAX,
            mdecls_view(mir.declarations@) == decls_conv(prog_start(dv, s0), dv.take(k as int), strs).decls,
            mir.module == hir.module,
            mir.exports@ == hir.exports@.map_values(|e: HirExport| export_conv(e)),
            mir.imports@.map_values(|i: MirImport| (i.module@, i.symbol, i.alias)) == hir.imports@.map_values(
                |i: HirImport| import_conv(i, strs),
            ),
            reports(c0, ctx@, decls_conv(prog_start(dv, s0), dv.take(k as int), strs).a.ds),
        decreases hir.declarations@.len() - k,
    {
        proof {
            assert(dv.take(k as int + 1).drop_last() =~= dv.take(k as int));
            assert(dv.take(k as int + 1).last() == dv[k as int]);
            lemma_decls_conv_ok(prog_start(dv, s0), dv, strs, k as int + 1);
            lemma_classes_seen_bound(prog_start(dv, s0), dv, strs, k as int);
        }
        let ghost p = decls_conv(prog_start(dv, s0), dv.take(k as int), strs);
        let ghost c1 = ctx@;
        let ghost before = mir.declarations@;
        proof {
            lemma_decl_conv_shift(p, dv[k as int], strs);
        }
        let d = convert_decl(
            &hir.declarations[k],
            &mut next_function_id,
            &mut struct_id_map,
            &mut next_struct_id,
            &class_struct_ids,
            &mut classes_seen,
            strings,
            symbols,
            ctx,
        );
        match d {
            Some(x) => {
                let ghost xv = mdecl_view(x);
                mir.push_decl(x);
                proof {
                    assert(mdecls_view(mir.declarations@) =~= mdecls_view(before).push(xv));
                }
            },
            None => {},
        }
        proof {
            let p0 = ProgAcc { a: Acc { ds: Seq::empty(), ..p.a }, classes: p.classes, decls: Seq::empty() };
            lemma_reports_trans(c0, c1, ctx@, p.a.ds, decl_conv(p0, dv[k as int], strs).a.ds);
            assert(mdecls_view(mir.declarations@) =~= decls_conv(prog_start(dv, s0), dv.take(k as int + 1), strs).decls);
        }
        k = k + 1;
    }
    proof {
        assert(dv.take(dv.len() as int) =~= dv);
    }
    mir
}

proof fn lemma_classes_seen_bound(p: ProgAcc, ds: Seq<SDecl>, strs: Seq<Seq<char>>, k: int)
    requires
        0 <= k < ds.len(),
        p.classes == 0,
        decls_conv(p, ds.take(k + 1), strs).a.ok,
    ensures
        decls_conv(p, ds.take(k), strs).classes == class_ids(ds.take(k)).1,
        ds[k] is Class ==> decls_conv(p, ds.take(k), strs).classes < class_ids(ds).1,
{
    lemma_decls_conv_ok(p, ds.take(k + 1), strs, k);
    assert(ds.take(k + 1).take(k) =~= ds.take(k));
    lemma_classes_count(p, ds.take(k), strs);
    lemma_class_ids_bound(ds, k + 1);
    assert(ds.take(k + 1).drop_last() =~= ds.take(k));
    assert(ds.take(k + 1).last() == ds[k]);
}

proof fn lemma_classes_count(p: ProgAcc, ds: Seq<SDecl>, strs: Seq<Seq<char>>)
    requires
        p.classes == 0,
        decls_conv(p, ds, strs).a.ok,
    ensures
        decls_conv(p, ds, strs).classes == class_ids(ds).1,
    decreases ds.len(),
{
    if ds.len() > 0 {
        lemma_classes_count(p, ds.drop_last(), strs);
    }
}

/// What `decl_conv` gives from a state with no reports and no
/// declarations yet, prefixed by those of the state it starts from.
proof fn lemma_decl_conv_shift(p: ProgAcc, d: SDecl, strs: Seq<Seq<char>>)
    requires
        p.a.ok,
    ensures
        ({
            let p0 = ProgAcc { a: Acc { ds: Seq::empty(), ..p.a }, classes: p.classes, decls: Seq::empty() };
            let q0 = decl_conv(p0, d, strs);
            let q = decl_conv(p, d, strs);
            &&& q.a == Acc { ds: p.a.ds + q0.a.ds, ..q0.a }
            &&& q.classes == q0.classes
            &&& q.decls == p.decls + q0.decls
        }),
{
    let p0 = ProgAcc { a: Acc { ds: Seq::empty(), ..p.a }, classes: p.classes, decls: Seq::empty() };
    match d {
        SDecl::Function(f) => {
            if p.a.next_function != u32::MAX {
                let r = fn_conv(f, FunctionId(p.a.next_function), export_of(f, p.a.syms), Map::empty(), strs, p.a.syms, p.a.shared, p.a.next_struct);
                assert(p.a.ds + (Seq::<Report>::empty() + r.ds) =~= p.a.ds + r.ds);
                assert(p.decls + Seq::<MDecl>::empty().push(MDecl::Function(r.f)) =~= p.decls.push(MDecl::Function(r.f)));
            } else {
                assert(p.a.ds + Seq::<Report>::empty() =~= p.a.ds);
                assert(p.decls + Seq::<MDecl>::empty() =~= p.decls);
            }
        },
        SDecl::Class(c) => {
            let sid = StructId(p.classes as u32);
            let (syms1, fields, fok) = fields_conv(c.fields, strs, p.a.syms);
            let base = Acc { syms: syms1, shared: p.a.shared.insert(c.ty.0, sid.0), ok: p.a.ok && fok && c.fields.len() <= u32::MAX, ..p.a };
            let base0 = Acc { ds: Seq::empty(), ..base };
            lemma_methods_fold_shift(base0, Seq::empty(), c.methods, sid, strs, p.a.ds);
            assert(Acc { ds: p.a.ds + base0.ds, ..base0 } == base) by {
                assert(p.a.ds + Seq::<Report>::empty() =~= p.a.ds);
            }
            let st = class_conv(c, sid, strs, p0.a).1;
            assert(p.decls + Seq::<MDecl>::empty().push(MDecl::Struct(st)) =~= p.decls.push(MDecl::Struct(st)));
        },
        _ => {
            assert(p.a.ds + Seq::<Report>::empty() =~= p.a.ds);
            assert(p.decls + Seq::<MDecl>::empty() =~= p.decls);
        },
    }
}

/// Reports already made before the methods are converted stay in front.
proof fn lemma_methods_fold_shift(a: Acc, kept: Seq<MFunction>, ms: Seq<SFunction>, sid: StructId, strs: Seq<Seq<char>>, x: Seq<Report>)
    ensures
        methods_fold((Acc { ds: x + a.ds, ..a }), kept, ms, sid, strs).0 == (Acc {
            ds: x + methods_fold(a, kept, ms, sid, strs).0.ds,
            ..methods_fold(a, kept, ms, sid, strs).0
        }),
        methods_fold((Acc { ds: x + a.ds, ..a }), kept, ms, sid, strs).1 == methods_fold(a, kept, ms, sid, strs).1,
    decreases ms.len(),
{
    if ms.len() > 0 {
        lemma_methods_fold_shift(a, kept, ms.drop_last(), sid, strs, x);
        let a1 = methods_fold(a, kept, ms.drop_last(), sid, strs).0;
        if a1.ok && a1.next_function != u32::MAX {
            let r = fn_conv(ms.last(), FunctionId(a1.next_function), None, Map::empty(), strs, a1.syms, a1.shared, a1.next_struct);
            assert((x + a1.ds) + r.ds =~= x + (a1.ds + r.ds));
        }
    }
}

/// Converts one declaration: a function with the next function id, a class
/// with the struct id its position among classes gave it.
fn convert_decl(
    decl: &HirDecl,
    next_function_id: &mut u32,
    struct_id_map: &mut StructIdMap,
    next_struct_id: &mut u32,
    class_struct_ids: &Vec<StructId>,
    classes_seen: &mut usize,
    strings: &StringTable,
    symbols: &mut SymbolTable,
    ctx: &mut PassContext,
) -> (r: Option<MirDecl>)
    requires
        old(symbols).wf(),
        forall|j: int| 0 <= j < class_struct_ids@.len() ==> (#[trigger] class_struct_ids@[j]).0 == j,
        decl is Class ==> *old(classes_seen) < class_struct_ids@.len(),
        class_struct_ids@.len() <= u32::MAX,
        decl_conv(
            ProgAcc {
                a: Acc {
                    syms: old(symbols)@,
                    shared: old(struct_id_map).map@,
                    next_struct: *old(next_struct_id),
                    next_function: *old(next_function_id),
                    ds: Seq::empty(),
                    ok: true,
                },
                classes: *old(classes_seen) as nat,
                decls: Seq::empty(),
            },
            decl@,
            strings@,
        ).a.ok,
    ensures
        ({
            let q = decl_conv(
                ProgAcc {
                    a: Acc {
                        syms: old(symbols)@,
                        shared: old(struct_id_map).map@,
                        next_struct: *old(next_struct_id),
                        next_function: *old(next_function_id),
                        ds: Seq::empty(),
                        ok: true,
                    },
                    classes: *old(classes_seen) as nat,
                    decls: Seq::empty(),
                },
                decl@,
                strings@,
            );
            &&& final(symbols).wf()
            &&& final(symbols)@ == q.a.syms
            &&& final(struct_id_map).map@ == q.a.shared
            &&& *final(next_struct_id) == q.a.next_struct
            &&& *final(next_function_id) == q.a.next_function
            &&& *final(classes_seen) == q.classes
            &&& q.decls == match r {
                Some(d) => seq![mdecl_view(d)],
                None => Seq::<MDecl>::empty(),
            }
            &&& reports(old(ctx)@, final(ctx)@, q.a.ds)
        }),
{
    let ghost c0 = ctx@;
    proof {
        lemma_reports_none(c0);
    }
    match decl {
        HirDecl::Function(f) => {
            let ghost syms = symbols@;
            let id = FunctionId(*next_function_id);
            *next_function_id = *next_function_id + 1;
            let export_name = if f.is_exported {
                match symbols.resolve(f.name) {
                    Some(t) => Some(t.to_owned()),
                    None => None,
                }
            } else {
                None
            };
            proof {
                assert(opt_text(export_name) == export_of(f@, syms));
            }
            let m = convert_function(
                f,
                id,
                export_name,
                FunctionRemap::new(),
                strings,
                symbols,
                struct_id_map,
                next_struct_id,
                ctx,
            );
            proof {
                assert(Seq::<Report>::empty() + fn_conv(f@, id, export_of(f@, syms), Map::empty(), strings@, syms, old(struct_id_map).map@, *old(next_struct_id)).ds
                    =~= fn_conv(f@, id, export_of(f@, syms), Map::empty(), strings@, syms, old(struct_id_map).map@, *old(next_struct_id)).ds);
            }
            Some(MirDecl::Function(m))
        },
        HirDecl::Class(c) => {
            let struct_id = class_struct_ids[*classes_seen];
            let d = convert_class(
                c,
                struct_id,
                next_function_id,
                struct_id_map,
                next_struct_id,
                strings,
                symbols,
                ctx,
            );
            *classes_seen = *classes_seen + 1;
            Some(d)
        },
        _ => None,
    }
}

// ---------------------------------------------------------------------------
// Ids of the converted declarations
// ---------------------------------------------------------------------------

/// The function ids of functions, in order.
pub open spec fn ids_of(fs: Seq<MFunction>) -> Seq<u32> {
    fs.map_values(|f: MFunction| f.id.0)
}

/// The ids of the functions and methods of declarations, in order.
pub open spec fn function_ids(ds: Seq<MDecl>) -> Seq<u32>
    decreases ds.len(),
{
    if ds.len() == 0 {
        Seq::empty()
    } else {
        function_ids(ds.drop_last()) + match ds.last() {
            MDecl::Function(f) => seq![f.id.0],
            MDecl::Struct(st) => ids_of(st.methods),
            MDecl::Global(_) => Seq::empty(),
        }
    }
}

/// The ids of the structs of declarations, in order.
pub open spec fn struct_ids(ds: Seq<MDecl>) -> Seq<u32>
    decreases ds.len(),
{
    if ds.len() == 0 {
        Seq::empty()
    } else {
        struct_ids(ds.drop_last()) + match ds.last() {
            MDecl::Struct(st) => seq![st.id.0],
            _ => Seq::empty(),
        }
    }
}

/// Whether ids strictly increase and lie in `[lo, hi)`.
pub open spec fn ids_in(s: Seq<u32>, lo: int, hi: int) -> bool {
    &&& forall|i: int, j: int| 0 <= i < j < s.len() ==> s[i] < s[j]
    &&& forall|i: int| 0 <= i < s.len() ==> lo <= #[trigger] s[i] < hi
}

proof fn lemma_methods_fold_ids(
    a: Acc,
    kept: Seq<MFunction>,
    ms: Seq<SFunction>,
    sid: StructId,
    strs: Seq<Seq<char>>,
    lo: int,
)
    requires
        ids_in(ids_of(kept), lo, a.next_function as int),
        lo <= a.next_function,
    ensures
        ids_in(
            ids_of(methods_fold(a, kept, ms, sid, strs).1),
            lo,
            methods_fold(a, kept, ms, sid, strs).0.next_function as int,
        ),
        a.next_function <= methods_fold(a, kept, ms, sid, strs).0.next_function,
    decreases ms.len(),
{
    if ms.len() > 0 {
        lemma_methods_fold_ids(a, kept, ms.drop_last(), sid, strs, lo);
        let (a1, k1) = methods_fold(a, kept, ms.drop_last(), sid, strs);
        if a1.ok && a1.next_function != u32::MAX {
            let r = fn_conv(
                ms.last(),
                FunctionId(a1.next_function),
                None,
                Map::empty(),
                strs,
                a1.syms,
                a1.shared,
                a1.next_struct,
            );
            if r.f.params.len() > 0 {
                let m = MFunction { kind: FunctionKind::Method { owner: sid, self_param: r.f.params[0].id }, ..r.f };
                assert(ids_of(k1.push(m)) =~= ids_of(k1).push(a1.next_function));
            }
        }
    }
}

proof fn lemma_decl_conv_ids(p: ProgAcc, d: SDecl, strs: Seq<Seq<char>>)
    requires
        ids_in(function_ids(p.decls), 0, p.a.next_function as int),
        forall|k: int| 0 <= k < struct_ids(p.decls).len() ==> #[trigger] struct_ids(p.decls)[k] == k,
        struct_ids(p.decls).len() == p.classes,
        d is Class ==> p.classes < u32::MAX,
    ensures
        ids_in(function_ids(decl_conv(p, d, strs).decls), 0, decl_conv(p, d, strs).a.next_function as int),
        forall|k: int|
            0 <= k < struct_ids(decl_conv(p, d, strs).decls).len() ==> #[trigger] struct_ids(
                decl_conv(p, d, strs).decls,
            )[k] == k,
        struct_ids(decl_conv(p, d, strs).decls).len() == decl_conv(p, d, strs).classes,
        p.a.next_function <= decl_conv(p, d, strs).a.next_function,
        decl_conv(p, d, strs).classes <= p.classes + (if d is Class {
            1int
        } else {
            0
        }),
{
    if p.a.ok {
        match d {
            SDecl::Function(f) => {
                if p.a.next_function != u32::MAX {
                    let q = decl_conv(p, d, strs);
                    assert(q.decls.drop_last() =~= p.decls);
                    assert(function_ids(q.decls) =~= function_ids(p.decls).push(p.a.next_function));
                    assert(struct_ids(q.decls) =~= struct_ids(p.decls));
                }
            },
            SDecl::Class(c) => {
                let sid = StructId(p.classes as u32);
                let (syms1, fields, fok) = fields_conv(c.fields, strs, p.a.syms);
                let a0 = Acc {
                    syms: syms1,
                    shared: p.a.shared.insert(c.ty.0, sid.0),
                    ok: p.a.ok && fok && c.fields.len() <= u32::MAX,
                    ..p.a
                };
                assert(ids_of(Seq::<MFunction>::empty()) =~= Seq::<u32>::empty());
                lemma_methods_fold_ids(a0, Seq::empty(), c.methods, sid, strs, p.a.next_function as int);
                let q = decl_conv(p, d, strs);
                assert(q.decls.drop_last() =~= p.decls);
                let kept = methods_fold(a0, Seq::empty(), c.methods, sid, strs).1;
                assert(function_ids(q.decls) =~= function_ids(p.decls) + ids_of(kept));
                assert(struct_ids(q.decls) =~= struct_ids(p.decls).push(p.classes as u32));
            },
            _ => {},
        }
    }
}

proof fn lemma_decls_conv_ids(p: ProgAcc, ds: Seq<SDecl>, strs: Seq<Seq<char>>)
    requires
        ids_in(function_ids(p.decls), 0, p.a.next_function as int),
        forall|k: int| 0 <= k < struct_ids(p.decls).len() ==> #[trigger] struct_ids(p.decls)[k] == k,
        struct_ids(p.decls).len() == p.classes,
        p.classes + class_ids(ds).1 <= u32::MAX,
    ensures
        ids_in(function_ids(decls_conv(p, ds, strs).decls), 0, decls_conv(p, ds, strs).a.next_function as int),
        forall|k: int|
            0 <= k < struct_ids(decls_conv(p, ds, strs).decls).len() ==> #[trigger] struct_ids(
                decls_conv(p, ds, strs).decls,
            )[k] == k,
        struct_ids(decls_conv(p, ds, strs).decls).len() == decls_conv(p, ds, strs).classes,
        decls_conv(p, ds, strs).classes <= p.classes + class_ids(ds).1,
    decreases ds.len(),
{
    if ds.len() > 0 {
        lemma_decls_conv_ids(p, ds.drop_last(), strs);
        lemma_decl_conv_ids(decls_conv(p, ds.drop_last(), strs), ds.last(), strs);
    }
}

/// Converting a module gives its functions and methods distinct function
/// ids, increasing in the order they are met, and its structs the ids 0, 1,
/// 2, ... in the order of their classes.
pub proof fn law_converted_ids_in_order(ds: Seq<SDecl>, strs: Seq<Seq<char>>, syms: Seq<Seq<char>>)
    requires
        prog_conv(ds, strs, syms).a.ok,
    ensures
        forall|i: int, j: int|
            0 <= i < j < function_ids(prog_conv(ds, strs, syms).decls).len() ==> function_ids(
                prog_conv(ds, strs, syms).decls,
            )[i] < function_ids(prog_conv(ds, strs, syms).decls)[j],
        forall|k: int|
            0 <= k < struct_ids(prog_conv(ds, strs, syms).decls).len() ==> #[trigger] struct_ids(
                prog_conv(ds, strs, syms).decls,
            )[k] == k,
{
    let p = prog_start(ds, syms);
    lemma_decls_conv_ok(p, ds, strs, 0);
    assert(ds.take(0) =~= Seq::<SDecl>::empty());
    assert(function_ids(p.decls) =~= Seq::<u32>::empty());
    assert(struct_ids(p.decls) =~= Seq::<u32>::empty());
    lemma_decls_conv_ids(p, ds, strs);
}

/// A converted function may throw whenever its body holds a `throw`
/// statement at any depth of blocks, branches, loop bodies, switch cases
/// and `try` parts.
pub proof fn law_converted_function_throws(
    f: SFunction,
    id: FunctionId,
    export: Option<Seq<char>>,
    remap: Map<u32, u32>,
    strs: Seq<Seq<char>>,
    syms: Seq<Seq<char>>,
    shared: Map<u32, u32>,
    next: u32,
)
    requires
        has_throw_in(f.body),
    ensures
        fn_conv(f, id, export, remap, strs, syms, shared, next).f.effects.can_throw,
{
    law_throw_statement_means_may_throw(f.body);
}

} // verus!
