//! Mapping byte offsets of a source text to lines and columns.

use vstd::prelude::*;
use vstd::utf8::*;
use vstd::string::StringSliceAdditionalSpecFns;
use crate::span::Span;

verus! {

/// A zero-based line and a byte column within that line.
#[derive(Debug, Clone, Copy, PartialEq, Eq, Structural)]
pub struct LineCol {
    pub line: u32,
    pub column: u32,
}

/// The byte offsets at which the lines of `b` begin: `0`, then one past
/// every newline byte, in order.
pub open spec fn line_starts_of(b: Seq<u8>) -> Seq<int>
    decreases b.len(),
{
    if b.len() == 0 {
        seq![0int]
    } else {
        let prev = line_starts_of(b.drop_last());
        if b.last() == 10u8 {
            prev.push(b.len() as int)
        } else {
            prev
        }
    }
}

/// `l` is the line of `offset` under the line starts `s`: the last line
/// that begins at or before `offset`.
pub open spec fn is_line_of(s: Seq<int>, offset: int, l: int) -> bool {
    &&& 0 <= l < s.len()
    &&& s[l] <= offset
    &&& (l + 1 < s.len() ==> offset < s[l + 1])
}

/// Where line `l` ends (before its newline is removed): the start of the
/// next line, or the end of the text for the last line.
pub open spec fn line_end(s: Seq<int>, len: int, l: int) -> int {
    if l + 1 < s.len() {
        s[l + 1]
    } else {
        len
    }
}

/// The bytes of a line without its line terminator: a final `"\r\n"` or,
/// failing that, a final `"\n"` is removed.
pub open spec fn strip_eol(raw: Seq<u8>) -> Seq<u8> {
    if raw.len() >= 2 && raw[raw.len() - 2] == 13u8 && raw[raw.len() - 1] == 10u8 {
        raw.subrange(0, raw.len() - 2)
    } else if raw.len() >= 1 && raw[raw.len() - 1] == 10u8 {
        raw.subrange(0, raw.len() - 1)
    } else {
        raw
    }
}

spec fn starts_match(v: Seq<u32>, s: Seq<int>) -> bool {
    &&& v.len() == s.len()
    &&& forall|k: int| 0 <= k < v.len() ==> v[k] as int == #[trigger] s[k]
}

/// The shape of the line starts of any text: they begin at `0`, rise
/// strictly, stay within the text, and every later one follows a newline.
pub proof fn lemma_line_starts_shape(b: Seq<u8>)
    ensures
        line_starts_of(b).len() >= 1,
        line_starts_of(b).len() <= b.len() + 1,
        line_starts_of(b)[0] == 0,
        forall|i: int|
            0 <= i < line_starts_of(b).len() ==> 0 <= #[trigger] line_starts_of(b)[i] <= b.len(),
        forall|i: int, j: int|
            0 <= i < j < line_starts_of(b).len() ==> line_starts_of(b)[i] < line_starts_of(b)[j],
        forall|i: int|
            1 <= i < line_starts_of(b).len() ==> #[trigger] b[line_starts_of(b)[i] - 1] == 10u8,
    decreases b.len(),
{
    if b.len() > 0 {
        let p = b.drop_last();
        lemma_line_starts_shape(p);
        assert forall|i: int| 1 <= i < line_starts_of(p).len() implies #[trigger] b[line_starts_of(
            p,
        )[i] - 1] == 10u8 by {
            assert(p[line_starts_of(p)[i] - 1] == 10u8);
        }
    }
}

/// The line starts hold exactly one entry more than the text has newlines.
pub open spec fn newline_count(b: Seq<u8>) -> nat
    decreases b.len(),
{
    if b.len() == 0 {
        0
    } else {
        newline_count(b.drop_last()) + if b.last() == 10u8 {
            1nat
        } else {
            0nat
        }
    }
}

/// A text has one line more than it has newline bytes.
pub proof fn lemma_line_count_is_newlines_plus_one(b: Seq<u8>)
    ensures
        line_starts_of(b).len() == newline_count(b) + 1,
    decreases b.len(),
{
    if b.len() > 0 {
        lemma_line_count_is_newlines_plus_one(b.drop_last());
    }
}

/// Every offset has exactly one line.
pub proof fn lemma_line_of_unique(b: Seq<u8>, offset: int, l1: int, l2: int)
    requires
        is_line_of(line_starts_of(b), offset, l1),
        is_line_of(line_starts_of(b), offset, l2),
    ensures
        l1 == l2,
{
    lemma_line_starts_shape(b);
    let s = line_starts_of(b);
    if l1 < l2 {
        assert(s[l1 + 1] <= s[l2]);
    } else if l2 < l1 {
        assert(s[l2 + 1] <= s[l1]);
    }
}

/// A byte that follows an ASCII byte of valid UTF-8 starts a character.
proof fn lemma_boundary_after_ascii(b: Seq<u8>, k: int)
    requires
        valid_utf8(b),
        0 <= k < b.len(),
        b[k] < 0x80,
    ensures
        is_char_boundary(b, k + 1),
    decreases b.len(),
{
    let lf = length_of_first_scalar(b);
    if k < lf {
        reveal_with_fuel(is_char_boundary, 2);
    } else {
        let rest = pop_first_scalar(b);
        assert(rest[k - lf] == b[k]);
        lemma_boundary_after_ascii(rest, k - lf);
    }
}

/// A character boundary of a text is one of each of its prefixes that reach it.
proof fn lemma_boundary_in_prefix(b: Seq<u8>, end: int, i: int)
    requires
        valid_utf8(b),
        0 <= i <= end <= b.len(),
        is_char_boundary(b, end),
        is_char_boundary(b, i),
    ensures
        valid_utf8(b.subrange(0, end)),
        is_char_boundary(b.subrange(0, end), i),
{
    let p = b.subrange(0, end);
    valid_utf8_split(b, end);
    if i == end {
        is_char_boundary_start_end_of_seq(p);
    } else {
        is_char_boundary_iff_not_is_continuation_byte(b, i);
        is_char_boundary_iff_not_is_continuation_byte(p, i);
    }
}

/// A text indexed by lines.
proof fn lemma_starts_prefix(b: Seq<u8>, o: int)
    requires
        0 <= o <= b.len(),
    ensures
        line_starts_of(b.take(o)).len() <= line_starts_of(b).len(),
        forall|i: int|
            0 <= i < line_starts_of(b.take(o)).len() ==> #[trigger] line_starts_of(b)[i] == line_starts_of(
                b.take(o),
            )[i],
        forall|i: int|
            line_starts_of(b.take(o)).len() <= i < line_starts_of(b).len() ==> #[trigger] line_starts_of(b)[i] > o,
    decreases b.len(),
{
    if o == b.len() {
        assert(b.take(o) =~= b);
    } else {
        let p = b.drop_last();
        assert(b.take(o) =~= p.take(o));
        lemma_starts_prefix(p, o);
    }
}

proof fn lemma_newline_makes_start(b: Seq<u8>, k: int)
    requires
        0 <= k < b.len(),
        b[k] == 10u8,
    ensures
        line_starts_of(b).contains(k + 1),
    decreases b.len(),
{
    let p = b.drop_last();
    if k == b.len() - 1 {
        assert(line_starts_of(b).last() == k + 1);
    } else {
        lemma_newline_makes_start(p, k);
        let i = choose|i: int| 0 <= i < line_starts_of(p).len() && line_starts_of(p)[i] == k + 1;
        assert(line_starts_of(b)[i] == k + 1);
    }
}

/// The line of an offset is the number of newline bytes before it; the
/// line begins at `0` or one past a newline, and no newline lies between
/// its start and the offset. An offset past the text falls on the last
/// line, whose number is the count of all newlines.
pub proof fn law_line_of_offset(b: Seq<u8>, o: int, l: int)
    requires
        0 <= o,
        is_line_of(line_starts_of(b), o, l),
    ensures
        o <= b.len() ==> l == newline_count(b.take(o)),
        o > b.len() ==> l == newline_count(b),
        l > 0 ==> b[line_starts_of(b)[l] - 1] == 10u8,
        forall|k: int| line_starts_of(b)[l] <= k < o && k < b.len() ==> b[k] != 10u8,
{
    let s = line_starts_of(b);
    lemma_line_starts_shape(b);
    lemma_line_count_is_newlines_plus_one(b);
    if o <= b.len() {
        lemma_starts_prefix(b, o);
        let t = b.take(o);
        lemma_line_starts_shape(t);
        lemma_line_count_is_newlines_plus_one(t);
        let m = line_starts_of(t).len() as int;
        assert(is_line_of(s, o, m - 1));
        lemma_line_of_unique(b, o, l, m - 1);
    } else {
        if l + 1 < s.len() {
            assert(s[l + 1] <= b.len());
        }
    }
    assert forall|k: int| s[l] <= k < o && k < b.len() implies b[k] != 10u8 by {
        if b[k] == 10u8 {
            lemma_newline_makes_start(b, k);
            let i = choose|i: int| 0 <= i < s.len() && s[i] == k + 1;
            if i <= l {
                assert(s[i] <= s[l]);
            } else {
                assert(s[l + 1] <= s[i]);
            }
        }
    }
}

#[derive(Debug)]
pub struct SourceMap {
    source: String,
    line_starts: Vec<u32>,
}

impl SourceMap {
    #[verifier::type_invariant]
    spec fn well_formed(self) -> bool {
        &&& encode_utf8(self.source@).len() < u32::MAX
        &&& starts_match(self.line_starts@, line_starts_of(encode_utf8(self.source@)))
    }

    /// The text.
    pub closed spec fn text(&self) -> Seq<char> {
        self.source@
    }

    /// The text as UTF-8 bytes, which offsets count.
    pub open spec fn bytes(&self) -> Seq<u8> {
        encode_utf8(self.text())
    }

    /// The byte offsets at which the lines begin.
    pub open spec fn starts(&self) -> Seq<int> {
        line_starts_of(self.bytes())
    }

    /// A copy of the map.
    pub fn duplicate(&self) -> (m: Self)
        ensures
            m.text() == self.text(),
    {
        proof {
            use_type_invariant(self);
        }
        SourceMap { source: self.source.clone(), line_starts: self.line_starts.clone() }
    }

    /// Indexes `source` by lines.
    pub fn new(source: &str) -> (m: Self)
        requires
            source.spec_bytes().len() < u32::MAX,
        ensures
            m.text() == source@,
    {
        let bytes = source.as_bytes();
        let n = bytes.len();
        let mut line_starts: Vec<u32> = Vec::new();
        line_starts.push(0);
        let mut i: usize = 0;
        proof {
            assert(bytes@.take(0).len() == 0);
        }
        while i < n
            invariant
                n == bytes@.len(),
                n < u32::MAX,
                i <= n,
                starts_match(line_starts@, line_starts_of(bytes@.take(i as int))),
            decreases n - i,
        {
            proof {
                assert(bytes@.take(i as int + 1).drop_last() =~= bytes@.take(i as int));
            }
            if bytes[i] == 10u8 {
                line_starts.push((i + 1) as u32);
            }
            i = i + 1;
        }
        proof {
            assert(bytes@.take(n as int) =~= bytes@);
        }
        SourceMap { source: source.to_owned(), line_starts }
    }

    /// The text.
    pub fn source(&self) -> (s: &str)
        ensures
            s@ == self.text(),
    {
        self.source.as_str()
    }

    /// How many lines the text has; a final newline opens an empty last line.
    pub fn line_count(&self) -> (n: u32)
        ensures
            n as int == self.starts().len(),
            n as int == newline_count(self.bytes()) + 1,
    {
        proof {
            use_type_invariant(self);
            lemma_line_starts_shape(self.bytes());
            lemma_line_count_is_newlines_plus_one(self.bytes());
        }
        self.line_starts.len() as u32
    }

    /// The line and column of the start and of the end of `span`. An offset
    /// past the text falls on the last line.
    pub fn lookup(&self, span: Span) -> (r: (LineCol, LineCol))
        ensures
            is_line_of(self.starts(), span.start as int, r.0.line as int),
            r.0.column == span.start - self.starts()[r.0.line as int],
            is_line_of(self.starts(), span.end as int, r.1.line as int),
            r.1.column == span.end - self.starts()[r.1.line as int],
            span.start <= self.bytes().len() ==> r.0.line == newline_count(self.bytes().take(span.start as int)),
            span.start > self.bytes().len() ==> r.0.line == newline_count(self.bytes()),
            span.end <= self.bytes().len() ==> r.1.line == newline_count(self.bytes().take(span.end as int)),
            span.end > self.bytes().len() ==> r.1.line == newline_count(self.bytes()),
    {
        let start = self.lookup_one(span.start);
        let end = self.lookup_one(span.end);
        proof {
            law_line_of_offset(self.bytes(), span.start as int, start.line as int);
            law_line_of_offset(self.bytes(), span.end as int, end.line as int);
        }
        (start, end)
    }

    /// The text of line `line` without its line terminator, or `None` past
    /// the last line.
    pub fn line_text(&self, line: u32) -> (r: Option<&str>)
        ensures
            line as int >= self.starts().len() ==> r is None,
            (line as int) < self.starts().len() ==> r is Some && r->0.spec_bytes() == strip_eol(
                self.bytes().subrange(
                    self.starts()[line as int],
                    line_end(self.starts(), self.bytes().len() as int, line as int),
                ),
            ),
    {
        proof {
            use_type_invariant(self);
            lemma_line_starts_shape(self.bytes());
        }
        let ghost b = self.bytes();
        let ghost s = self.starts();
        let count = self.line_starts.len();
        let l = line as usize;
        if l >= count {
            return None;
        }
        let start = self.line_starts[l] as usize;
        let text = self.source.as_str();
        let end = if l + 1 < count {
            self.line_starts[l + 1] as usize
        } else {
            text.len()
        };
        proof {
            encode_utf8_valid_utf8(self.text());
            is_char_boundary_start_end_of_seq(b);
            assert(s[l as int] == start);
            if l > 0 {
                assert(s[0] < s[l as int]);
                assert(b[s[l as int] - 1] == 10u8);
                lemma_boundary_after_ascii(b, start - 1);
            }
            if l + 1 < count {
                assert(s[l as int + 1] == end);
                assert(b[s[l as int + 1] - 1] == 10u8);
                lemma_boundary_after_ascii(b, end - 1);
            }
            lemma_boundary_in_prefix(b, end as int, start as int);
        }
        let (head, _) = text.split_at(end);
        let (_, raw) = head.split_at(start);
        let ghost rb = raw.spec_bytes();
        proof {
            assert(rb =~= b.subrange(start as int, end as int));
            valid_utf8_split(b.subrange(0, end as int), start as int);
        }
        let rbytes = raw.as_bytes();
        let rn = rbytes.len();
        if rn >= 2 && rbytes[rn - 2] == 13u8 && rbytes[rn - 1] == 10u8 {
            proof {
                is_char_boundary_iff_not_is_continuation_byte(rb, rn - 2);
            }
            let (trimmed, _) = raw.split_at(rn - 2);
            Some(trimmed)
        } else if rn >= 1 && rbytes[rn - 1] == 10u8 {
            proof {
                is_char_boundary_iff_not_is_continuation_byte(rb, rn - 1);
            }
            let (trimmed, _) = raw.split_at(rn - 1);
            Some(trimmed)
        } else {
            Some(raw)
        }
    }

    /// The line and column of one offset.
    fn lookup_one(&self, offset: u32) -> (lc: LineCol)
        ensures
            is_line_of(self.starts(), offset as int, lc.line as int),
            lc.column == offset - self.starts()[lc.line as int],
    {
        proof {
            use_type_invariant(self);
            lemma_line_starts_shape(self.bytes());
        }
        let ghost s = self.starts();
        let n = self.line_starts.len();
        let mut lo: usize = 0;
        let mut hi: usize = n;
        while hi - lo > 1
            invariant
                n == s.len(),
                n <= u32::MAX,
                starts_match(self.line_starts@, s),
                s[0] == 0,
                forall|i: int, j: int| 0 <= i < j < s.len() ==> s[i] < s[j],
                0 <= lo < hi <= n,
                s[lo as int] <= offset,
                hi < n ==> offset < s[hi as int],
            decreases hi - lo,
        {
            let mid = lo + (hi - lo) / 2;
            if self.line_starts[mid] <= offset {
                lo = mid;
            } else {
                hi = mid;
            }
        }
        let line_start = self.line_starts[lo];
        LineCol { line: lo as u32, column: offset - line_start }
    }
}

impl Clone for SourceMap {
    fn clone(&self) -> (m: Self)
        ensures
            m.text() == self.text(),
    {
        self.duplicate()
    }
}

} // verus!
