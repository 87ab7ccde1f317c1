//! State of the conversion of one function: how locals and functions are
//! renumbered, the async state counter, temporaries and struct ids.

use std::collections::HashMap;

use vstd::prelude::*;

use crate::diagnostics::{Diagnostic, Severity};
use crate::hir::expr::HirCallee;
use crate::ids::{FunctionId, LocalId, StructId, SymbolId, TypeId};
use crate::mir::decl::MirLocalDecl;
use crate::passes::context::{PassContext, pushed};
use crate::span::Span;

verus! {

/// The id of the function a call refers to when its callee cannot be
/// converted.
pub open spec fn placeholder() -> FunctionId {
    FunctionId(u32::MAX)
}

/// The function a call refers to when its callee cannot be converted.
pub fn placeholder_function() -> (f: FunctionId)
    ensures
        f == placeholder(),
{
    FunctionId(u32::MAX)
}

// ---------------------------------------------------------------------------
// Maps between raw ids
// ---------------------------------------------------------------------------

/// A finite map between raw ids.
#[derive(Debug)]
pub struct IdMap {
    entries: HashMap<u32, u32>,
}

impl View for IdMap {
    type V = Map<u32, u32>;

    closed spec fn view(&self) -> Map<u32, u32> {
        self.entries@
    }
}

impl IdMap {
    /// The empty map.
    pub fn new() -> (m: Self)
        ensures
            m@ == Map::<u32, u32>::empty(),
    {
        IdMap { entries: HashMap::new() }
    }

    /// The value of `k`, if it has one.
    pub fn get(&self, k: u32) -> (r: Option<u32>)
        ensures
            r is Some == self@.contains_key(k),
            r matches Some(v) ==> v == self@[k],
    {
        broadcast use vstd::std_specs::hash::group_hash_axioms;

        match self.entries.get(&k) {
            Some(v) => Some(*v),
            None => None,
        }
    }

    /// Maps `k` to `v`.
    pub fn insert(&mut self, k: u32, v: u32)
        ensures
            final(self)@ == old(self)@.insert(k, v),
    {
        broadcast use vstd::std_specs::hash::group_hash_axioms;

        self.entries.insert(k, v);
    }
}

/// Which function ids stand for others.
#[derive(Debug)]
pub struct FunctionRemap {
    pub map: IdMap,
}

impl FunctionRemap {
    /// No function is renumbered.
    pub fn new() -> (m: Self)
        ensures
            m.map@ == Map::<u32, u32>::empty(),
    {
        FunctionRemap { map: IdMap::new() }
    }

    /// Calls of `from` call `to`.
    pub fn insert(&mut self, from: FunctionId, to: FunctionId)
        ensures
            final(self).map@ == old(self).map@.insert(from.0, to.0),
    {
        self.map.insert(from.0, to.0);
    }
}

/// The struct id given to each class type.
#[derive(Debug)]
pub struct StructIdMap {
    pub map: IdMap,
}

impl StructIdMap {
    /// No type has a struct id.
    pub fn new() -> (m: Self)
        ensures
            m.map@ == Map::<u32, u32>::empty(),
    {
        StructIdMap { map: IdMap::new() }
    }
}

// ---------------------------------------------------------------------------
// The converter
// ---------------------------------------------------------------------------

/// The abstract state of a converter.
pub struct ConverterView {
    /// Old local id to new local id.
    pub locals: Map<u32, u32>,
    /// Names recorded for locals.
    pub names: Map<u32, u32>,
    /// Function id to the id that calls of it use.
    pub remap: Map<u32, u32>,
    pub next_local: u32,
    pub next_state: i32,
    pub next_await: u32,
    pub temps: Seq<MirLocalDecl>,
    /// Type id to struct id, as this converter has seen them.
    pub structs: Map<u32, u32>,
}

/// Converts the expressions and statements of one function.
#[derive(Debug)]
pub struct ExprConverter {
    local_map: IdMap,
    local_names: IdMap,
    function_remap: IdMap,
    next_local: u32,
    next_state: i32,
    next_await: u32,
    temp_locals: Vec<MirLocalDecl>,
    struct_ids: IdMap,
}

impl View for ExprConverter {
    type V = ConverterView;

    closed spec fn view(&self) -> ConverterView {
        ConverterView {
            locals: self.local_map@,
            names: self.local_names@,
            remap: self.function_remap@,
            next_local: self.next_local,
            next_state: self.next_state,
            next_await: self.next_await,
            temps: self.temp_locals@,
            structs: self.struct_ids@,
        }
    }
}

/// A converter that has done nothing yet, whose calls of functions follow
/// `remap` and whose new locals start at `next_local`.
pub open spec fn fresh_converter(v: ConverterView, remap: Map<u32, u32>, next_local: u32) -> bool {
    &&& v.locals == Map::<u32, u32>::empty()
    &&& v.names == Map::<u32, u32>::empty()
    &&& v.remap == remap
    &&& v.next_local == next_local
    &&& v.next_state == 0
    &&& v.next_await == 0
    &&& v.temps == Seq::<MirLocalDecl>::empty()
    &&& v.structs == Map::<u32, u32>::empty()
}

/// The local map with parameters `0..count` mapped to themselves.
pub open spec fn seeded(m: Map<u32, u32>, count: u32) -> Map<u32, u32> {
    Map::new(|k: u32| m.contains_key(k) || k < count, |k: u32| if k < count { k } else { m[k] })
}

/// The state after mapping `local`, and the new id: the one it already had,
/// or else the next fresh id.
pub open spec fn mapped(v: ConverterView, local: LocalId) -> (ConverterView, LocalId) {
    if v.locals.contains_key(local.0) {
        (v, LocalId(v.locals[local.0]))
    } else {
        (
            ConverterView {
                locals: v.locals.insert(local.0, v.next_local),
                next_local: (v.next_local + 1) as u32,
                ..v
            },
            LocalId(v.next_local),
        )
    }
}

/// Whether `d` reports that a callee of the given kind cannot be converted.
pub open spec fn unsupported_callee(what: Seq<char>, d: Diagnostic) -> bool {
    Diagnostic::spec_with(
        Severity::Error,
        "P0005"@,
        what + " callee is not yet supported in HIR→MIR"@,
        Span { start: 0, end: 0 },
        d,
    )
}

impl ExprConverter {
    /// A converter with no renumbering of functions.
    pub fn new() -> (c: Self)
        ensures
            fresh_converter(c@, Map::empty(), 0),
    {
        Self::with_function_remap(FunctionRemap::new())
    }

    /// A converter whose calls follow `remap`.
    pub fn with_function_remap(remap: FunctionRemap) -> (c: Self)
        ensures
            fresh_converter(c@, remap.map@, 0),
    {
        Self::with_function_remap_and_offset(remap, 0)
    }

    /// A converter whose calls follow `remap` and whose new locals start at
    /// `next_local`.
    pub fn with_function_remap_and_offset(remap: FunctionRemap, next_local: u32) -> (c: Self)
        ensures
            fresh_converter(c@, remap.map@, next_local),
    {
        ExprConverter {
            local_map: IdMap::new(),
            local_names: IdMap::new(),
            function_remap: remap.map,
            next_local,
            next_state: 0,
            next_await: 0,
            temp_locals: Vec::new(),
            struct_ids: IdMap::new(),
        }
    }

    /// Hands out the temporaries declared so far and forgets them.
    pub fn take_temp_locals(&mut self) -> (t: Vec<MirLocalDecl>)
        ensures
            t@ == old(self)@.temps,
            final(self)@ == (ConverterView { temps: Seq::empty(), ..old(self)@ }),
    {
        let mut t: Vec<MirLocalDecl> = Vec::new();
        std::mem::swap(&mut t, &mut self.temp_locals);
        t
    }

    /// Declares a mutable temporary `id` of type `ty`.
    pub fn push_temp_local(&mut self, id: LocalId, ty: TypeId)
        ensures
            final(self)@ == (ConverterView {
                temps: old(self)@.temps.push(MirLocalDecl { id, name: SymbolId(0), ty, mutable: true }),
                ..old(self)@
            }),
    {
        self.temp_locals.push(MirLocalDecl { id, name: SymbolId(0), ty, mutable: true });
    }

    /// The id the next fresh local gets.
    pub fn peek_next_local(&self) -> (n: u32)
        ensures
            n == self@.next_local,
    {
        self.next_local
    }

    /// A fresh local id.
    pub fn fresh_local(&mut self) -> (id: LocalId)
        requires
            old(self)@.next_local < u32::MAX,
        ensures
            id.0 == old(self)@.next_local,
            final(self)@ == (ConverterView { next_local: (old(self)@.next_local + 1) as u32, ..old(self)@ }),
    {
        let id = LocalId(self.next_local);
        self.next_local = self.next_local + 1;
        id
    }

    /// The new id of local `old`, made fresh the first time it is asked for.
    pub fn map_local_id(&mut self, local: LocalId) -> (id: LocalId)
        requires
            old(self)@.locals.contains_key(local.0) || old(self)@.next_local < u32::MAX,
        ensures
            (final(self)@, id) == mapped(old(self)@, local),
    {
        match self.local_map.get(local.0) {
            Some(new) => LocalId(new),
            None => {
                let new_id = self.fresh_local();
                self.local_map.insert(local.0, new_id.0);
                new_id
            },
        }
    }

    /// Records the name of local `id`.
    pub fn register_local_name(&mut self, id: LocalId, name: SymbolId)
        ensures
            final(self)@ == (ConverterView { names: old(self)@.names.insert(id.0, name.0), ..old(self)@ }),
    {
        self.local_names.insert(id.0, name.0);
    }

    /// Maps the parameters `0..count` to themselves and moves the next
    /// fresh local past them.
    pub fn seed_params(&mut self, count: u32)
        ensures
            final(self)@ == (ConverterView {
                locals: seeded(old(self)@.locals, count),
                next_local: if count > old(self)@.next_local { count } else { old(self)@.next_local },
                ..old(self)@
            }),
    {
        let ghost m0 = self.local_map@;
        let mut i: u32 = 0;
        while i < count
            invariant
                i <= count,
                self.local_map@ == seeded(m0, i),
                self@ == (ConverterView { locals: self.local_map@, ..old(self)@ }),
            decreases count - i,
        {
            self.local_map.insert(i, i);
            proof {
                assert(self.local_map@ =~= seeded(m0, (i + 1) as u32));
            }
            i = i + 1;
        }
        if count > self.next_local {
            self.next_local = count;
        }
    }

    /// A fresh local that an `await` writes its result to.
    pub fn fresh_await_dest(&mut self) -> (id: LocalId)
        requires
            old(self)@.next_local < u32::MAX,
        ensures
            id.0 == old(self)@.next_local,
            final(self)@ == (ConverterView { next_local: (old(self)@.next_local + 1) as u32, ..old(self)@ }),
    {
        self.fresh_local()
    }

    /// The destination and the state number of the next `await`.
    pub fn push_await(&mut self) -> (r: (LocalId, i32))
        requires
            old(self)@.next_local < u32::MAX,
            old(self)@.next_state < i32::MAX,
        ensures
            r.0.0 == old(self)@.next_local,
            r.1 == old(self)@.next_state + 1,
            final(self)@ == (ConverterView {
                next_local: (old(self)@.next_local + 1) as u32,
                next_state: (old(self)@.next_state + 1) as i32,
                ..old(self)@
            }),
    {
        let next_state = self.next_state + 1;
        let dest = self.fresh_await_dest();
        self.next_state = next_state;
        (dest, next_state)
    }

    /// The function a call of `callee` calls: a direct callee as renumbered;
    /// an error and the placeholder for any other callee.
    pub fn resolve_callee(&mut self, callee: &HirCallee, ctx: &mut PassContext) -> (f: FunctionId)
        ensures
            final(self)@ == old(self)@,
            callee matches HirCallee::Function(fid) ==> final(ctx)@ == old(ctx)@ && f == (if old(self)@.remap.contains_key(
                fid.0,
            ) {
                FunctionId(old(self)@.remap[fid.0])
            } else {
                *fid
            }),
            callee matches HirCallee::Indirect(_) ==> f == placeholder() && exists|d: Diagnostic|
                pushed(old(ctx)@, final(ctx)@, d) && #[trigger] unsupported_callee("indirect (computed)"@, d),
            callee matches HirCallee::Closure(_) ==> f == placeholder() && exists|d: Diagnostic|
                pushed(old(ctx)@, final(ctx)@, d) && #[trigger] unsupported_callee("closure"@, d),
            callee matches HirCallee::Runtime { .. } ==> f == placeholder() && exists|d: Diagnostic|
                pushed(old(ctx)@, final(ctx)@, d) && #[trigger] unsupported_callee("runtime"@, d),
    {
        match callee {
            HirCallee::Function(fid) => match self.function_remap.get(fid.0) {
                Some(to) => FunctionId(to),
                None => *fid,
            },
            HirCallee::Indirect(_) => {
                let d = Diagnostic::error(
                    "P0005",
                    "indirect (computed) callee is not yet supported in HIR→MIR",
                    Span::new(0, 0),
                );
                proof {
                    reveal_strlit("indirect (computed) callee is not yet supported in HIR→MIR");
                    reveal_strlit("indirect (computed)");
                    reveal_strlit(" callee is not yet supported in HIR→MIR");
                    assert("indirect (computed)"@ + " callee is not yet supported in HIR→MIR"@ =~= "indirect (computed) callee is not yet supported in HIR→MIR"@);
                    assert(unsupported_callee("indirect (computed)"@, d));
                }
                let ghost dd = d;
                ctx.push_diagnostic(d);
                assert(pushed(old(ctx)@, ctx@, dd));
                placeholder_function()
            },
            HirCallee::Closure(_) => {
                let d = Diagnostic::error("P0005", "closure callee is not yet supported in HIR→MIR", Span::new(0, 0));
                proof {
                    reveal_strlit("closure callee is not yet supported in HIR→MIR");
                    reveal_strlit("closure");
                    reveal_strlit(" callee is not yet supported in HIR→MIR");
                    assert("closure"@ + " callee is not yet supported in HIR→MIR"@ =~= "closure callee is not yet supported in HIR→MIR"@);
                    assert(unsupported_callee("closure"@, d));
                }
                let ghost dd = d;
                ctx.push_diagnostic(d);
                assert(pushed(old(ctx)@, ctx@, dd));
                placeholder_function()
            },
            HirCallee::Runtime { .. } => {
                let d = Diagnostic::error("P0005", "runtime callee is not yet supported in HIR→MIR", Span::new(0, 0));
                proof {
                    reveal_strlit("runtime callee is not yet supported in HIR→MIR");
                    reveal_strlit("runtime");
                    reveal_strlit(" callee is not yet supported in HIR→MIR");
                    assert("runtime"@ + " callee is not yet supported in HIR→MIR"@ =~= "runtime callee is not yet supported in HIR→MIR"@);
                    assert(unsupported_callee("runtime"@, d));
                }
                let ghost dd = d;
                ctx.push_diagnostic(d);
                assert(pushed(old(ctx)@, ctx@, dd));
                placeholder_function()
            },
        }
    }

    /// The struct id of class type `ty`: the one this converter already
    /// gave it, else the one shared between converters, else a new one from
    /// `shared_next`, recorded in both.
    pub fn lookup_or_alloc_struct_id(&mut self, ty: TypeId, shared_ids: &mut StructIdMap, shared_next: &mut u32) -> (id: StructId)
        requires
            old(self)@.structs.contains_key(ty.0) || old(shared_ids).map@.contains_key(ty.0) || *old(shared_next) < u32::MAX,
        ensures
            old(self)@.structs.contains_key(ty.0) ==> id.0 == old(self)@.structs[ty.0] && final(self)@ == old(self)@
                && final(shared_ids).map@ == old(shared_ids).map@ && *final(shared_next) == *old(shared_next),
            !old(self)@.structs.contains_key(ty.0) && old(shared_ids).map@.contains_key(ty.0) ==> id.0 == old(shared_ids).map@[ty.0]
                && final(self)@ == (ConverterView { structs: old(self)@.structs.insert(ty.0, id.0), ..old(self)@ })
                && final(shared_ids).map@ == old(shared_ids).map@ && *final(shared_next) == *old(shared_next),
            !old(self)@.structs.contains_key(ty.0) && !old(shared_ids).map@.contains_key(ty.0) ==> id.0 == *old(shared_next)
                && *final(shared_next) == *old(shared_next) + 1
                && final(shared_ids).map@ == old(shared_ids).map@.insert(ty.0, id.0)
                && final(self)@ == (ConverterView { structs: old(self)@.structs.insert(ty.0, id.0), ..old(self)@ }),
    {
        match self.struct_ids.get(ty.0) {
            Some(id) => {
                return StructId(id);
            },
            None => {},
        }
        match shared_ids.map.get(ty.0) {
            Some(id) => {
                self.struct_ids.insert(ty.0, id);
                return StructId(id);
            },
            None => {},
        }
        let id = StructId(*shared_next);
        *shared_next = *shared_next + 1;
        shared_ids.map.insert(ty.0, id.0);
        self.struct_ids.insert(ty.0, id.0);
        id
    }
}

impl Default for ExprConverter {
    fn default() -> (c: Self)
        ensures
            fresh_converter(c@, Map::empty(), 0),
    {
        Self::new()
    }
}

/// Asking for the same local twice gives the same new id and changes
/// nothing the second time.
pub proof fn law_map_local_stable(v: ConverterView, local: LocalId)
    requires
        v.locals.contains_key(local.0) || v.next_local < u32::MAX,
    ensures
        mapped(mapped(v, local).0, local) == (mapped(v, local).0, mapped(v, local).1),
{
}

/// Distinct locals asked for in turn get distinct new ids, provided the
/// map is one-to-one below the next fresh id.
pub proof fn law_map_local_distinct(v: ConverterView, a: LocalId, b: LocalId)
    requires
        a != b,
        forall|k: u32| #[trigger] v.locals.contains_key(k) ==> v.locals[k] < v.next_local,
        forall|k1: u32, k2: u32|
            #[trigger] v.locals.contains_key(k1) && #[trigger] v.locals.contains_key(k2) && k1 != k2 ==> v.locals[k1]
                != v.locals[k2],
        v.next_local + 2 <= u32::MAX,
    ensures
        mapped(v, a).1 != mapped(mapped(v, a).0, b).1,
{
}

} // verus!
