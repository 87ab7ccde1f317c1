//! The text dump of imports, exports and symbols.

use vstd::prelude::*;

use crate::ids::SymbolId;
use crate::mir::dump_body::FloatTexts;
use crate::mir::program::{MirExport, MirImport};
use crate::tables::SymbolTable;
use crate::text::{decimal, push_char, push_decimal, push_str};

verus! {

/// What `{:?}` writes for a string: the text quoted and escaped.
pub uninterp spec fn debug_str(s: Seq<char>) -> Seq<char>;

/// Writes a string as `{:?}` does.
#[verifier::external_body]
fn debug_text(s: &str) -> (r: String)
    ensures
        r@ == debug_str(s@),
{
    format!("{:?}", s)
}

/// The texts of the symbol table a dump resolves names with, if any.
pub open spec fn table_texts(symbols: Option<&SymbolTable>) -> Option<Seq<Seq<char>>> {
    match symbols {
        Some(t) => Some(t@),
        None => None,
    }
}

/// How a symbol is written: `#N`, followed by its name in brackets when
/// the table knows it.
pub open spec fn sym_text(id: SymbolId, symbols: Option<Seq<Seq<char>>>) -> Seq<char> {
    match symbols {
        Some(t) => if id.0 < t.len() {
            "#"@ + decimal(id.0 as nat) + "("@ + t[id.0 as int] + ")"@
        } else {
            "#"@ + decimal(id.0 as nat)
        },
        None => "#"@ + decimal(id.0 as nat),
    }
}

/// Two spaces for each level of indentation.
pub open spec fn spaces(n: nat) -> Seq<char>
    decreases n,
{
    if n == 0 {
        Seq::empty()
    } else {
        spaces((n - 1) as nat) + "  "@
    }
}

/// A text buffer with an indentation level.
pub struct Dumper<'a> {
    pub indent: usize,
    pub buf: String,
    pub symbols: Option<&'a SymbolTable>,
    pub floats: Option<&'a FloatTexts>,
}

impl<'a> Dumper<'a> {
    /// The indentation level.
    pub open spec fn level(&self) -> nat {
        self.indent as nat
    }

    /// An empty buffer at level 0.
    pub fn new(symbols: Option<&'a SymbolTable>) -> (d: Self)
        ensures
            d.buf@ == Seq::<char>::empty(),
            d.level() == 0,
            d.symbols == symbols,
            d.floats is None,
    {
        Dumper { indent: 0, buf: String::new(), symbols, floats: None }
    }

    /// An empty buffer at level 0 that writes float literals with `floats`.
    pub fn with_floats(symbols: Option<&'a SymbolTable>, floats: &'a FloatTexts) -> (d: Self)
        ensures
            d.buf@ == Seq::<char>::empty(),
            d.level() == 0,
            d.symbols == symbols,
            d.floats == Some(floats),
    {
        Dumper { indent: 0, buf: String::new(), symbols, floats: Some(floats) }
    }

    /// Appends text.
    pub fn write(&mut self, s: &str)
        ensures
            final(self).buf@ == old(self).buf@ + s@,
            final(self).level() == old(self).level(),
            final(self).symbols == old(self).symbols,
            final(self).floats == old(self).floats,
    {
        push_str(&mut self.buf, s);
    }

    /// Appends the indentation and then text.
    pub fn indent_write(&mut self, s: &str)
        ensures
            final(self).buf@ == old(self).buf@ + spaces(old(self).level()) + s@,
            final(self).level() == old(self).level(),
            final(self).symbols == old(self).symbols,
            final(self).floats == old(self).floats,
    {
        let mut i: usize = 0;
        let ghost b0 = self.buf@;
        while i < self.indent
            invariant
                i <= self.indent,
                self.indent == old(self).indent,
                self.symbols == old(self).symbols,
                self.floats == old(self).floats,
                self.buf@ == b0 + spaces(i as nat),
            decreases self.indent - i,
        {
            push_str(&mut self.buf, "  ");
            i = i + 1;
            proof {
                assert(self.buf@ =~= b0 + spaces(i as nat));
            }
        }
        push_str(&mut self.buf, s);
    }

    /// Appends an indented line.
    pub fn line(&mut self, s: &str)
        ensures
            final(self).buf@ == old(self).buf@ + spaces(old(self).level()) + s@ + seq!['\n'],
            final(self).level() == old(self).level(),
            final(self).symbols == old(self).symbols,
            final(self).floats == old(self).floats,
    {
        self.indent_write(s);
        push_char(&mut self.buf, '\n');
    }

    /// Indents one level more.
    pub fn push(&mut self)
        requires
            old(self).level() < usize::MAX,
        ensures
            final(self).buf == old(self).buf,
            final(self).level() == old(self).level() + 1,
            final(self).symbols == old(self).symbols,
            final(self).floats == old(self).floats,
    {
        self.indent = self.indent + 1;
    }

    /// Indents one level less.
    pub fn pop(&mut self)
        requires
            old(self).level() > 0,
        ensures
            final(self).buf == old(self).buf,
            final(self).level() == old(self).level() - 1,
            final(self).symbols == old(self).symbols,
            final(self).floats == old(self).floats,
    {
        self.indent = self.indent - 1;
    }
}

/// Writes a symbol as `#N`, with its name when the dump's table knows it.
pub fn dump_sym(id: SymbolId, d: &Dumper) -> (s: String)
    ensures
        s@ == sym_text(id, table_texts(d.symbols)),
{
    let mut s = String::new();
    push_str(&mut s, "#");
    push_decimal(&mut s, id.0 as u128);
    match d.symbols {
        Some(t) => match t.resolve(id) {
            Some(name) => {
                push_str(&mut s, "(");
                push_str(&mut s, name);
                push_str(&mut s, ")");
            },
            None => {},
        },
        None => {},
    }
    proof {
        assert(s@ =~= sym_text(id, table_texts(d.symbols)));
    }
    s
}

/// How an import is written.
pub open spec fn import_text(imp: MirImport, symbols: Option<Seq<Seq<char>>>) -> Seq<char> {
    "import "@ + sym_text(imp.symbol, symbols) + " from "@ + debug_str(imp.module@) + match imp.alias {
        Some(a) => " as "@ + sym_text(a, symbols),
        None => Seq::empty(),
    } + "\n"@
}

/// How an export is written.
pub open spec fn export_text(exp: MirExport, symbols: Option<Seq<Seq<char>>>) -> Seq<char> {
    "export "@ + sym_text(exp.symbol, symbols) + match exp.alias {
        Some(a) => " as "@ + sym_text(a, symbols),
        None => Seq::empty(),
    } + "\n"@
}

/// Writes an import: `import #N from "module"`, then ` as #M` for an alias.
pub fn dump_import(imp: &MirImport, d: &mut Dumper)
    ensures
        final(d).buf@ == old(d).buf@ + import_text(*imp, table_texts(old(d).symbols)),
        final(d).level() == old(d).level(),
        final(d).symbols == old(d).symbols,
        final(d).floats == old(d).floats,
{
    let mut s = String::new();
    push_str(&mut s, "import ");
    let sym = dump_sym(imp.symbol, d);
    push_str(&mut s, sym.as_str());
    push_str(&mut s, " from ");
    let m = debug_text(imp.module.as_str());
    push_str(&mut s, m.as_str());
    d.write(s.as_str());
    let ghost mid = d.buf@;
    match imp.alias {
        Some(alias) => {
            let mut t = String::new();
            push_str(&mut t, " as ");
            let a = dump_sym(alias, d);
            push_str(&mut t, a.as_str());
            d.write(t.as_str());
        },
        None => {},
    }
    d.write("\n");
    proof {
        assert(d.buf@ =~= old(d).buf@ + import_text(*imp, table_texts(old(d).symbols)));
    }
}

/// Writes an export: `export #N`, then ` as #M` for an alias.
pub fn dump_export(exp: &MirExport, d: &mut Dumper)
    ensures
        final(d).buf@ == old(d).buf@ + export_text(*exp, table_texts(old(d).symbols)),
        final(d).level() == old(d).level(),
        final(d).symbols == old(d).symbols,
        final(d).floats == old(d).floats,
{
    let mut s = String::new();
    push_str(&mut s, "export ");
    let sym = dump_sym(exp.symbol, d);
    push_str(&mut s, sym.as_str());
    d.write(s.as_str());
    match exp.alias {
        Some(alias) => {
            let mut t = String::new();
            push_str(&mut t, " as ");
            let a = dump_sym(alias, d);
            push_str(&mut t, a.as_str());
            d.write(t.as_str());
        },
        None => {},
    }
    d.write("\n");
    proof {
        assert(d.buf@ =~= old(d).buf@ + export_text(*exp, table_texts(old(d).symbols)));
    }
}

} // verus!
