//! Interning tables that map names to dense identifiers.

use vstd::prelude::*;

use crate::ids::{StringId, SymbolId};

verus! {

/// Whether no text occurs twice in `s`.
pub open spec fn all_distinct(s: Seq<Seq<char>>) -> bool {
    forall|i: int, j: int| 0 <= i < s.len() && 0 <= j < s.len() && i != j ==> s[i] != s[j]
}

/// The texts of a list of strings.
pub open spec fn texts(v: Seq<String>) -> Seq<Seq<char>> {
    v.map_values(|s: String| s@)
}

/// The effect of interning `s` into a table holding `before`: the table
/// afterwards and the index handed back.
pub open spec fn interned(before: Seq<Seq<char>>, s: Seq<char>) -> (Seq<Seq<char>>, int) {
    if before.contains(s) {
        (before, before.index_of(s))
    } else {
        (before.push(s), before.len() as int)
    }
}

/// Whether interning `s` into `before` stays within `u32` indices.
pub open spec fn can_intern(before: Seq<Seq<char>>, s: Seq<char>) -> bool {
    before.contains(s) || before.len() <= u32::MAX
}

/// A list of distinct texts; the position of a text is its identifier.
#[derive(Debug, Default, Clone)]
struct InternList {
    items: Vec<String>,
}

impl InternList {
    spec fn view(&self) -> Seq<Seq<char>> {
        texts(self.items@)
    }

    spec fn wf(&self) -> bool {
        &&& all_distinct(self.view())
        &&& self.view().len() <= u32::MAX + 1
    }

    fn new() -> (l: Self)
        ensures
            l.view() == Seq::<Seq<char>>::empty(),
            l.wf(),
    {
        InternList { items: Vec::new() }
    }

    fn find(&self, s: &String) -> (r: Option<usize>)
        requires
            self.wf(),
        ensures
            r is None <==> !self.view().contains(s@),
            r matches Some(i) ==> i < self.view().len() && self.view()[i as int] == s@
                && i == self.view().index_of(s@),
    {
        let mut i: usize = 0;
        while i < self.items.len()
            invariant
                self.wf(),
                i <= self.items@.len(),
                forall|j: int| 0 <= j < i ==> self.view()[j] != s@,
            decreases self.items@.len() - i,
        {
            if self.items[i] == *s {
                proof {
                    assert(self.view()[i as int] == s@);
                    assert(self.view().contains(s@));
                    let k = self.view().index_of(s@);
                    assert(self.view()[k] == s@);
                    if k != i as int {
                        assert(self.view()[k] != self.view()[i as int]);
                    }
                }
                return Some(i);
            }
            i = i + 1;
        }
        proof {
            if self.view().contains(s@) {
                let k = self.view().index_of(s@);
                assert(self.view()[k] == s@);
            }
        }
        None
    }

    fn intern(&mut self, s: &str) -> (id: u32)
        requires
            old(self).wf(),
            can_intern(old(self).view(), s@),
        ensures
            final(self).wf(),
            final(self).view() == interned(old(self).view(), s@).0,
            id as int == interned(old(self).view(), s@).1,
    {
        let owned = s.to_string();
        match self.find(&owned) {
            Some(i) => {
                assert(i <= u32::MAX);
                i as u32
            },
            None => {
                let id = self.items.len() as u32;
                self.items.push(owned);
                proof {
                    assert(self.view() =~= old(self).view().push(s@));
                }
                id
            },
        }
    }

    fn resolve(&self, id: u32) -> (r: Option<&str>)
        ensures
            r is Some <==> id < self.view().len(),
            r matches Some(t) ==> t@ == self.view()[id as int],
    {
        if (id as usize) < self.items.len() {
            Some(self.items[id as usize].as_str())
        } else {
            None
        }
    }
}

/// Interns string literals of the program.
#[derive(Debug, Clone)]
pub struct StringTable {
    strings: InternList,
}

impl Default for StringTable {
    /// An empty table.
    fn default() -> (t: Self)
        ensures
            t@ == Seq::<Seq<char>>::empty(),
            t.wf(),
    {
        StringTable::new()
    }
}

impl View for StringTable {
    type V = Seq<Seq<char>>;

    closed spec fn view(&self) -> Seq<Seq<char>> {
        self.strings.view()
    }
}

impl StringTable {
    /// A well-formed table holds every text once, at an index that fits a
    /// `u32`.
    pub proof fn lemma_wf(&self)
        requires
            self.wf(),
        ensures
            all_distinct(self@),
            self@.len() <= u32::MAX + 1,
    {
    }

    /// Every text occurs once.
    pub closed spec fn wf(&self) -> bool {
        self.strings.wf()
    }

    /// An empty table.
    pub fn new() -> (t: Self)
        ensures
            t@ == Seq::<Seq<char>>::empty(),
            t.wf(),
    {
        StringTable { strings: InternList::new() }
    }

    /// The number of interned strings.
    pub fn len(&self) -> (n: usize)
        ensures
            n == self@.len(),
    {
        self.strings.items.len()
    }

    /// Whether nothing is interned.
    pub fn is_empty(&self) -> (b: bool)
        ensures
            b == (self@.len() == 0),
    {
        self.strings.items.len() == 0
    }

    /// The identifier of `s`, added at the end if it was not there yet.
    pub fn intern(&mut self, s: &str) -> (id: StringId)
        requires
            old(self).wf(),
            can_intern(old(self)@, s@),
        ensures
            final(self).wf(),
            final(self)@ == interned(old(self)@, s@).0,
            id.0 as int == interned(old(self)@, s@).1,
    {
        StringId::from_raw(self.strings.intern(s))
    }

    /// The text interned under `id`, if any.
    pub fn resolve(&self, id: StringId) -> (r: Option<&str>)
        ensures
            r is Some <==> id.0 < self@.len(),
            r matches Some(t) ==> t@ == self@[id.0 as int],
    {
        self.strings.resolve(id.raw())
    }
}

/// Interns identifiers (symbols) of the program.
#[derive(Debug, Clone)]
pub struct SymbolTable {
    names: InternList,
}

impl Default for SymbolTable {
    /// An empty table.
    fn default() -> (t: Self)
        ensures
            t@ == Seq::<Seq<char>>::empty(),
            t.wf(),
    {
        SymbolTable::new()
    }
}

impl View for SymbolTable {
    type V = Seq<Seq<char>>;

    closed spec fn view(&self) -> Seq<Seq<char>> {
        self.names.view()
    }
}

impl SymbolTable {
    /// A well-formed table holds every text once, at an index that fits a
    /// `u32`.
    pub proof fn lemma_wf(&self)
        requires
            self.wf(),
        ensures
            all_distinct(self@),
            self@.len() <= u32::MAX + 1,
    {
    }

    /// Every name occurs once.
    pub closed spec fn wf(&self) -> bool {
        self.names.wf()
    }

    /// An empty table.
    pub fn new() -> (t: Self)
        ensures
            t@ == Seq::<Seq<char>>::empty(),
            t.wf(),
    {
        SymbolTable { names: InternList::new() }
    }

    /// The number of interned names.
    pub fn len(&self) -> (n: usize)
        ensures
            n == self@.len(),
    {
        self.names.items.len()
    }

    /// Whether nothing is interned.
    pub fn is_empty(&self) -> (b: bool)
        ensures
            b == (self@.len() == 0),
    {
        self.names.items.len() == 0
    }

    /// The identifier of `name`, added at the end if it was not there yet.
    pub fn intern(&mut self, name: &str) -> (id: SymbolId)
        requires
            old(self).wf(),
            can_intern(old(self)@, name@),
        ensures
            final(self).wf(),
            final(self)@ == interned(old(self)@, name@).0,
            id.0 as int == interned(old(self)@, name@).1,
    {
        SymbolId::from_raw(self.names.intern(name))
    }

    /// The name interned under `id`, if any.
    pub fn resolve(&self, id: SymbolId) -> (r: Option<&str>)
        ensures
            r is Some <==> id.0 < self@.len(),
            r matches Some(t) ==> t@ == self@[id.0 as int],
    {
        self.names.resolve(id.raw())
    }
}

/// Read after write: once `s` is interned, its identifier names `s`, and the
/// table still holds every text once.
pub proof fn law_intern_then_resolve(before: Seq<Seq<char>>, s: Seq<char>)
    requires
        all_distinct(before),
    ensures
        0 <= interned(before, s).1 < interned(before, s).0.len(),
        interned(before, s).0[interned(before, s).1] == s,
        all_distinct(interned(before, s).0),
{
    if before.contains(s) {
        assert(before[before.index_of(s)] == s);
    } else {
        let after = before.push(s);
        assert forall|i: int, j: int| 0 <= i < after.len() && 0 <= j < after.len() && i != j
            implies after[i] != after[j] by {
            if i == before.len() as int {
                assert(after[j] == before[j]);
            } else if j == before.len() as int {
                assert(after[i] == before[i]);
            }
        }
    }
}

/// Interning a text a second time changes nothing and hands back the same
/// identifier.
pub proof fn law_intern_idempotent(before: Seq<Seq<char>>, s: Seq<char>)
    requires
        all_distinct(before),
    ensures
        interned(interned(before, s).0, s) == interned(before, s),
{
    law_intern_then_resolve(before, s);
    let (after, i) = interned(before, s);
    assert(after.contains(s));
    lemma_index_of_distinct(after, s, i);
}

/// Interning keeps every earlier identifier and its text.
pub proof fn law_intern_keeps_earlier(before: Seq<Seq<char>>, s: Seq<char>)
    ensures
        interned(before, s).0.len() >= before.len(),
        forall|k: int| 0 <= k < before.len() ==> #[trigger] interned(before, s).0[k] == before[k],
{
}

/// Different texts get different identifiers.
pub proof fn law_intern_distinct(before: Seq<Seq<char>>, s: Seq<char>, t: Seq<char>)
    requires
        all_distinct(before),
        s != t,
    ensures
        interned(interned(before, s).0, t).1 != interned(before, s).1,
{
    law_intern_then_resolve(before, s);
    let (after, i) = interned(before, s);
    law_intern_then_resolve(after, t);
    law_intern_keeps_earlier(after, t);
}

/// In a list of distinct texts, the position of a text is the one where it sits.
pub proof fn lemma_index_of_distinct(v: Seq<Seq<char>>, s: Seq<char>, i: int)
    requires
        all_distinct(v),
        0 <= i < v.len(),
        v[i] == s,
    ensures
        v.index_of(s) == i,
{
    assert(v.contains(s));
    let j = v.index_of(s);
    assert(v[j] == s);
}

} // verus!
