//! Semantic types and the table that interns them.

use vstd::prelude::*;

use crate::ids::{StructId, TypeId};
use crate::span::Atom;

verus! {

/// Whether a declaration is visible outside its owner.
#[derive(Debug, Clone, Copy, PartialEq, Eq, Structural, Hash)]
pub enum Visibility {
    Public,
    Private,
}

/// How a value of a type is laid out in memory.
#[derive(Debug, Clone, Copy, PartialEq, Eq, Structural, Hash)]
pub enum MemoryKind {
    CopyValue,
    ValueStruct,
    GcRef,
    NullableGcRef,
    LinearMemoryValue,
}

/// A semantic type; compound types refer to their parts by `TypeId`.
#[derive(Debug, Clone, PartialEq, Eq, Hash)]
pub enum Type {
    Void,
    Never,
    Bool,
    I8,
    I16,
    I32,
    I64,
    U8,
    U16,
    U32,
    U64,
    F32,
    F64,
    String,
    Null,
    Optional { inner: TypeId },
    Struct { id: StructId },
    Array { element: TypeId },
    Fn { params: Vec<TypeId>, ret: TypeId, err: Option<TypeId> },
    Promise { ok: TypeId, err: Option<TypeId> },
    Result { ok: TypeId, err: TypeId },
    Named { symbol: Atom },
    Error,
}

/// Whether two types are the same type: the same variant with equal parts,
/// names compared by their text.
pub open spec fn same_type(a: Type, b: Type) -> bool {
    match (a, b) {
        (Type::Optional { inner: x }, Type::Optional { inner: y }) => x == y,
        (Type::Struct { id: x }, Type::Struct { id: y }) => x == y,
        (Type::Array { element: x }, Type::Array { element: y }) => x == y,
        (Type::Fn { params: p1, ret: r1, err: e1 }, Type::Fn { params: p2, ret: r2, err: e2 }) =>
            p1@ == p2@ && r1 == r2 && e1 == e2,
        (Type::Promise { ok: o1, err: e1 }, Type::Promise { ok: o2, err: e2 }) => o1 == o2 && e1 == e2,
        (Type::Result { ok: o1, err: e1 }, Type::Result { ok: o2, err: e2 }) => o1 == o2 && e1 == e2,
        (Type::Named { symbol: s1 }, Type::Named { symbol: s2 }) => s1@ == s2@,
        (Type::Void, Type::Void) => true,
        (Type::Never, Type::Never) => true,
        (Type::Bool, Type::Bool) => true,
        (Type::I8, Type::I8) => true,
        (Type::I16, Type::I16) => true,
        (Type::I32, Type::I32) => true,
        (Type::I64, Type::I64) => true,
        (Type::U8, Type::U8) => true,
        (Type::U16, Type::U16) => true,
        (Type::U32, Type::U32) => true,
        (Type::U64, Type::U64) => true,
        (Type::F32, Type::F32) => true,
        (Type::F64, Type::F64) => true,
        (Type::String, Type::String) => true,
        (Type::Null, Type::Null) => true,
        (Type::Error, Type::Error) => true,
        _ => false,
    }
}

fn ids_equal(a: &Vec<TypeId>, b: &Vec<TypeId>) -> (r: bool)
    ensures
        r == (a@ == b@),
{
    if a.len() != b.len() {
        return false;
    }
    let mut i: usize = 0;
    while i < a.len()
        invariant
            a@.len() == b@.len(),
            i <= a@.len(),
            forall|j: int| 0 <= j < i ==> a@[j] == b@[j],
        decreases a@.len() - i,
    {
        if a[i].0 != b[i].0 {
            return false;
        }
        i = i + 1;
    }
    assert(a@ =~= b@);
    true
}

fn opt_equal(a: Option<TypeId>, b: Option<TypeId>) -> (r: bool)
    ensures
        r == (a == b),
{
    match (a, b) {
        (Some(x), Some(y)) => x.0 == y.0,
        (None, None) => true,
        _ => false,
    }
}

fn copy_ids(v: &Vec<TypeId>) -> (r: Vec<TypeId>)
    ensures
        r@ == v@,
{
    let mut r: Vec<TypeId> = Vec::new();
    let mut i: usize = 0;
    while i < v.len()
        invariant
            i <= v@.len(),
            r@ == v@.take(i as int),
        decreases v@.len() - i,
    {
        r.push(v[i]);
        i = i + 1;
        assert(r@ =~= v@.take(i as int));
    }
    assert(v@.take(v@.len() as int) =~= v@);
    r
}

impl Type {
    /// Decides `same_type`.
    pub fn same(&self, other: &Type) -> (r: bool)
        ensures
            r == same_type(*self, *other),
    {
        match (self, other) {
            (Type::Optional { inner: x }, Type::Optional { inner: y }) => x.0 == y.0,
            (Type::Struct { id: x }, Type::Struct { id: y }) => x.0 == y.0,
            (Type::Array { element: x }, Type::Array { element: y }) => x.0 == y.0,
            (Type::Fn { params: p1, ret: r1, err: e1 }, Type::Fn { params: p2, ret: r2, err: e2 }) =>
                ids_equal(p1, p2) && r1.0 == r2.0 && opt_equal(*e1, *e2),
            (Type::Promise { ok: o1, err: e1 }, Type::Promise { ok: o2, err: e2 }) =>
                o1.0 == o2.0 && opt_equal(*e1, *e2),
            (Type::Result { ok: o1, err: e1 }, Type::Result { ok: o2, err: e2 }) =>
                o1.0 == o2.0 && e1.0 == e2.0,
            (Type::Named { symbol: s1 }, Type::Named { symbol: s2 }) => s1.same(s2),
            (Type::Void, Type::Void) => true,
            (Type::Never, Type::Never) => true,
            (Type::Bool, Type::Bool) => true,
            (Type::I8, Type::I8) => true,
            (Type::I16, Type::I16) => true,
            (Type::I32, Type::I32) => true,
            (Type::I64, Type::I64) => true,
            (Type::U8, Type::U8) => true,
            (Type::U16, Type::U16) => true,
            (Type::U32, Type::U32) => true,
            (Type::U64, Type::U64) => true,
            (Type::F32, Type::F32) => true,
            (Type::F64, Type::F64) => true,
            (Type::String, Type::String) => true,
            (Type::Null, Type::Null) => true,
            (Type::Error, Type::Error) => true,
            _ => false,
        }
    }

    /// A copy of the type.
    pub fn duplicate(&self) -> (t: Type)
        ensures
            same_type(t, *self),
    {
        match self {
            Type::Void => Type::Void,
            Type::Never => Type::Never,
            Type::Bool => Type::Bool,
            Type::I8 => Type::I8,
            Type::I16 => Type::I16,
            Type::I32 => Type::I32,
            Type::I64 => Type::I64,
            Type::U8 => Type::U8,
            Type::U16 => Type::U16,
            Type::U32 => Type::U32,
            Type::U64 => Type::U64,
            Type::F32 => Type::F32,
            Type::F64 => Type::F64,
            Type::String => Type::String,
            Type::Null => Type::Null,
            Type::Optional { inner } => Type::Optional { inner: *inner },
            Type::Struct { id } => Type::Struct { id: *id },
            Type::Array { element } => Type::Array { element: *element },
            Type::Fn { params, ret, err } => Type::Fn { params: copy_ids(params), ret: *ret, err: *err },
            Type::Promise { ok, err } => Type::Promise { ok: *ok, err: *err },
            Type::Result { ok, err } => Type::Result { ok: *ok, err: *err },
            Type::Named { symbol } => Type::Named { symbol: symbol.duplicate() },
            Type::Error => Type::Error,
        }
    }
}

/// Whether no two entries of `s` are the same type.
pub open spec fn distinct_types(s: Seq<Type>) -> bool {
    forall|i: int, j: int|
        0 <= i < s.len() && 0 <= j < s.len() && i != j ==> !same_type(#[trigger] s[i], #[trigger] s[j])
}

/// Whether `s` holds a type that is the same as `t`.
pub open spec fn holds_type(s: Seq<Type>, t: Type) -> bool {
    exists|i: int| 0 <= i < s.len() && same_type(#[trigger] s[i], t)
}

/// The index at which `t` sits in a table holding `s` once interned: its
/// current index when present, the end of the table otherwise.
pub open spec fn type_slot(s: Seq<Type>, t: Type) -> int {
    if holds_type(s, t) {
        choose|i: int| 0 <= i < s.len() && same_type(s[i], t)
    } else {
        s.len() as int
    }
}

/// Interns types: the same type always gets the same identifier.
#[derive(Debug, Clone)]
pub struct TypeTable {
    types: Vec<Type>,
}

impl Default for TypeTable {
    /// An empty table.
    fn default() -> (t: Self)
        ensures
            t@ == Seq::<Type>::empty(),
            t.wf(),
    {
        TypeTable::new()
    }
}

impl View for TypeTable {
    type V = Seq<Type>;

    closed spec fn view(&self) -> Seq<Type> {
        self.types@
    }
}

impl TypeTable {
    /// A well-formed table holds no type twice, at indices that fit a
    /// `TypeId`.
    pub proof fn lemma_wf(&self)
        requires
            self.wf(),
        ensures
            distinct_types(self@),
            self@.len() <= u32::MAX + 1,
    {
    }

    /// No type occurs twice and every index fits a `TypeId`.
    pub closed spec fn wf(&self) -> bool {
        &&& distinct_types(self.types@)
        &&& self.types@.len() <= u32::MAX + 1
    }

    /// An empty table.
    pub fn new() -> (t: Self)
        ensures
            t@ == Seq::<Type>::empty(),
            t.wf(),
    {
        TypeTable { types: Vec::new() }
    }

    /// The number of interned types.
    pub fn len(&self) -> (n: usize)
        ensures
            n == self@.len(),
    {
        self.types.len()
    }

    /// Whether nothing is interned.
    pub fn is_empty(&self) -> (b: bool)
        ensures
            b == (self@.len() == 0),
    {
        self.types.len() == 0
    }

    /// The identifier of `ty`; a type not seen before is added at the end.
    pub fn intern(&mut self, ty: &Type) -> (id: TypeId)
        requires
            old(self).wf(),
            holds_type(old(self)@, *ty) || old(self)@.len() <= u32::MAX,
        ensures
            final(self).wf(),
            holds_type(old(self)@, *ty) ==> final(self)@ == old(self)@ && id.0 < old(self)@.len()
                && same_type(old(self)@[id.0 as int], *ty),
            !holds_type(old(self)@, *ty) ==> final(self)@.len() == old(self)@.len() + 1
                && final(self)@.take(old(self)@.len() as int) == old(self)@
                && same_type(final(self)@[id.0 as int], *ty) && id.0 == old(self)@.len(),
            id.0 as int == type_slot(old(self)@, *ty),
            holds_type(final(self)@, *ty),
            id.0 < final(self)@.len(),
            same_type(final(self)@[id.0 as int], *ty),
            distinct_types(final(self)@),
    {
        let mut i: usize = 0;
        while i < self.types.len()
            invariant
                self.wf(),
                i <= self@.len(),
                forall|j: int| 0 <= j < i ==> !same_type(self@[j], *ty),
            decreases self@.len() - i,
        {
            if self.types[i].same(ty) {
                assert(i < self@.len());
                proof {
                    let j = choose|j: int| 0 <= j < self@.len() && same_type(self@[j], *ty);
                    lemma_same_type_sym_trans();
                    if j != i as int {
                        assert(!same_type(self@[j], self@[i as int]));
                    }
                }
                return TypeId::from_raw(i as u32);
            }
            i = i + 1;
        }
        assert(!holds_type(self@, *ty));
        let id = self.types.len() as u32;
        let copy = ty.duplicate();
        self.types.push(copy);
        proof {
            assert(self@.take(old(self)@.len() as int) =~= old(self)@);
            assert forall|a: int, b: int|
                0 <= a < self@.len() && 0 <= b < self@.len() && a != b implies
                !same_type(#[trigger] self@[a], #[trigger] self@[b]) by {
                lemma_same_type_sym_trans();
                if a == id as int {
                    assert(!same_type(old(self)@[b], *ty));
                } else if b == id as int {
                    assert(!same_type(old(self)@[a], *ty));
                }
            }
        }
        assert(same_type(self@[id as int], *ty));
        TypeId::from_raw(id)
    }

    /// The type interned under `id`, if any.
    pub fn resolve(&self, id: TypeId) -> (r: Option<&Type>)
        ensures
            r is Some <==> id.0 < self@.len(),
            r matches Some(t) ==> *t == self@[id.0 as int],
    {
        if (id.0 as usize) < self.types.len() {
            Some(&self.types[id.0 as usize])
        } else {
            None
        }
    }

    /// All interned types, in identifier order.
    pub fn types(&self) -> (s: &[Type])
        ensures
            s@ == self@,
    {
        self.types.as_slice()
    }
}

/// `same_type` is symmetric and transitive.
pub proof fn lemma_same_type_sym_trans()
    ensures
        forall|a: Type, b: Type| same_type(a, b) ==> same_type(b, a),
        forall|a: Type, b: Type, c: Type| same_type(a, b) && same_type(b, c) ==> same_type(a, c),
{
}

/// Once a table holds a type, the slot of that type names it: resolving the
/// identifier gives back the same type.
pub proof fn law_type_slot_resolves(s: Seq<Type>, t: Type)
    requires
        holds_type(s, t),
    ensures
        0 <= type_slot(s, t) < s.len(),
        same_type(s[type_slot(s, t)], t),
{
}

/// Interning the same type again hands back the same identifier: in a table
/// of distinct types, every type the same as `t` has `t`'s slot.
pub proof fn law_type_slot_same(s: Seq<Type>, t: Type, u: Type)
    requires
        distinct_types(s),
        holds_type(s, t),
        same_type(t, u),
    ensures
        type_slot(s, u) == type_slot(s, t),
{
    lemma_same_type_sym_trans();
    let i = type_slot(s, t);
    assert(same_type(s[i], u));
    assert(holds_type(s, u));
    let j = type_slot(s, u);
    assert(same_type(s[j], u));
    assert(same_type(s[i], s[j]));
}

/// Different types held by a table of distinct types have different slots.
pub proof fn law_type_slot_distinct(s: Seq<Type>, t: Type, u: Type)
    requires
        distinct_types(s),
        holds_type(s, t),
        holds_type(s, u),
        !same_type(t, u),
    ensures
        type_slot(s, u) != type_slot(s, t),
{
    lemma_same_type_sym_trans();
    let i = type_slot(s, t);
    let j = type_slot(s, u);
    assert(same_type(s[i], t));
    assert(same_type(s[j], u));
}

} // verus!
