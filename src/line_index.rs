use vstd::prelude::*;
use vstd::string::StringSliceAdditionalSpecFns;

verus! {

/// A line/column coordinate, both zero-based; the column counts UTF-16 code units.
#[derive(Clone, Copy, Debug, PartialEq, Eq, Structural)]
pub struct Position {
    pub line: usize,
    pub character: usize,
}

/// A half-open range of positions.
#[derive(Clone, Copy, Debug, PartialEq, Eq, Structural)]
pub struct Range {
    pub start: Position,
    pub end: Position,
}

pub open spec fn is_continuation(b: u8) -> bool {
    0x80 <= b && b < 0xC0
}

/// UTF-16 code units that byte `k` of UTF-8 text accounts for: each leading
/// byte one, and the first continuation byte of a four-byte sequence one more
/// (the second half of its surrogate pair).
pub open spec fn utf16_width(b: Seq<u8>, k: int) -> nat {
    if !is_continuation(b[k]) {
        1
    } else if k > 0 && b[k - 1] >= 0xF0 {
        1
    } else {
        0
    }
}

/// UTF-16 code units in `b[s..e]`.
pub open spec fn units(b: Seq<u8>, s: int, e: int) -> nat
    decreases e - s,
{
    if e <= s {
        0
    } else {
        units(b, s, e - 1) + utf16_width(b, e - 1)
    }
}

/// Number of line terminators in `b[0..n]`.
pub open spec fn newlines(b: Seq<u8>, n: int) -> nat
    decreases n,
{
    if n <= 0 {
        0
    } else {
        newlines(b, n - 1) + if b[n - 1] == 10u8 { 1nat } else { 0nat }
    }
}

/// Offset at which the line holding offset `n` starts.
pub open spec fn line_start_of(b: Seq<u8>, n: int) -> int
    decreases n,
{
    if n <= 0 {
        0
    } else if b[n - 1] == 10u8 {
        n
    } else {
        line_start_of(b, n - 1)
    }
}

/// Line starts among the offsets `0..=n`, in increasing order.
pub open spec fn starts_upto(b: Seq<u8>, n: int) -> Seq<usize>
    decreases n,
{
    if n <= 0 {
        seq![0usize]
    } else if b[n - 1] == 10u8 {
        starts_upto(b, n - 1).push(n as usize)
    } else {
        starts_upto(b, n - 1)
    }
}

/// Position of byte offset `off`, clamped to the end of the text.
pub open spec fn position_of(b: Seq<u8>, off: int) -> Position {
    let o = if off > b.len() { b.len() as int } else { off };
    Position { line: newlines(b, o) as usize, character: units(b, line_start_of(b, o), o) as usize }
}

/// Walks from offset `p` over `n` UTF-16 code units, never past the end of the line.
pub open spec fn seek(b: Seq<u8>, p: int, n: nat) -> int
    decreases b.len() - p,
{
    if p < 0 || p >= b.len() || b[p] == 10u8 || (n == 0 && !is_continuation(b[p])) {
        p
    } else {
        let w = utf16_width(b, p);
        seek(b, p + 1, if w >= n { 0 } else { (n - w) as nat })
    }
}

/// Byte offset of `(line, column)`; a line past the last one stands for the end of the text.
pub open spec fn offset_of(b: Seq<u8>, line: int, column: nat) -> int {
    let starts = starts_upto(b, b.len() as int);
    let start = if 0 <= line < starts.len() { starts[line] as int } else { b.len() as int };
    seek(b, start, column)
}

pub proof fn lemma_units_bound(b: Seq<u8>, s: int, e: int)
    ensures
        units(b, s, e) <= if e <= s { 0 } else { e - s },
    decreases e - s,
{
    if e > s {
        lemma_units_bound(b, s, e - 1);
    }
}

pub proof fn lemma_newlines_bound(b: Seq<u8>, n: int)
    ensures
        newlines(b, n) <= if n <= 0 { 0 } else { n },
    decreases n,
{
    if n > 0 {
        lemma_newlines_bound(b, n - 1);
    }
}

pub proof fn lemma_line_start_bound(b: Seq<u8>, n: int)
    ensures
        0 <= line_start_of(b, n) <= if n <= 0 { 0 } else { n },
    decreases n,
{
    if n > 0 {
        lemma_line_start_bound(b, n - 1);
    }
}

pub proof fn lemma_starts_upto(b: Seq<u8>, n: int)
    requires
        0 <= n <= b.len(),
    ensures
        1 <= starts_upto(b, n).len() <= n + 1,
        forall|i: int| 0 <= i < starts_upto(b, n).len() ==> starts_upto(b, n)[i] <= n,
    decreases n,
{
    if n > 0 {
        lemma_starts_upto(b, n - 1);
    }
}

pub proof fn lemma_seek_bound(b: Seq<u8>, p: int, n: nat)
    requires
        0 <= p <= b.len(),
    ensures
        p <= seek(b, p, n) <= b.len(),
    decreases b.len() - p,
{
    if !(p < 0 || p >= b.len() || b[p] == 10u8 || (n == 0 && !is_continuation(b[p]))) {
        let w = utf16_width(b, p);
        lemma_seek_bound(b, p + 1, if w >= n { 0 } else { (n - w) as nat });
    }
}

/// Line starts of one source text, for converting between byte offsets and positions.
pub struct LineIndex {
    pub bytes: Vec<u8>,
    pub line_starts: Vec<usize>,
}

impl LineIndex {
    /// The line starts of a text.
    pub open spec fn starts_of(b: Seq<u8>) -> Seq<usize> {
        starts_upto(b, b.len() as int)
    }

    pub open spec fn wf(&self) -> bool {
        self.line_starts@ == Self::starts_of(self.bytes@)
    }

    /// Scans `src` once for line terminators.
    pub fn new(src: &str) -> (r: LineIndex)
        ensures
            r.bytes@ == src.spec_bytes(),
            r.wf(),
    {
        let b = src.as_bytes();
        let mut bytes: Vec<u8> = Vec::new();
        let mut line_starts: Vec<usize> = Vec::new();
        line_starts.push(0);
        let mut i: usize = 0;
        while i < b.len()
            invariant
                i <= b@.len(),
                bytes@ == b@.subrange(0, i as int),
                line_starts@ == starts_upto(b@, i as int),
            decreases b@.len() - i,
        {
            assert(starts_upto(b@, i as int) == starts_upto(b@.subrange(0, i as int + 1), i as int)) by {
                lemma_starts_prefix(b@, b@.subrange(0, i as int + 1), i as int);
            }
            bytes.push(b[i]);
            if b[i] == 10u8 {
                line_starts.push(i + 1);
            }
            i = i + 1;
            assert(bytes@ == b@.subrange(0, i as int));
        }
        assert(b@.subrange(0, b@.len() as int) == b@);
        LineIndex { bytes, line_starts }
    }

    /// Position of a byte offset; offsets past the end stand for the end.
    pub fn position(&self, offset: usize) -> (r: Position)
        ensures
            r == position_of(self.bytes@, offset as int),
    {
        let len = self.bytes.len();
        let o = if offset > len { len } else { offset };
        let mut line: usize = 0;
        let mut start: usize = 0;
        let mut k: usize = 0;
        while k < o
            invariant
                o <= len == self.bytes@.len(),
                k <= o,
                line == newlines(self.bytes@, k as int),
                start == line_start_of(self.bytes@, k as int),
            decreases o - k,
        {
            proof {
                lemma_newlines_bound(self.bytes@, k as int);
            }
            if self.bytes[k] == 10u8 {
                line = line + 1;
                start = k + 1;
            }
            k = k + 1;
        }
        proof {
            lemma_line_start_bound(self.bytes@, o as int);
        }
        let mut column: usize = 0;
        let mut j: usize = start;
        while j < o
            invariant
                o <= len == self.bytes@.len(),
                start <= j <= o,
                column == units(self.bytes@, start as int, j as int),
            decreases o - j,
        {
            proof {
                lemma_units_bound(self.bytes@, start as int, j as int);
            }
            let byte = self.bytes[j];
            if !(0x80u8 <= byte && byte < 0xC0u8) || (j > 0 && self.bytes[j - 1] >= 0xF0u8) {
                column = column + 1;
            }
            j = j + 1;
        }
        Position { line, character: column }
    }

    /// Byte offset of a position; a line past the last stands for the end of
    /// the text, and a column past the end of its line for the line's end.
    pub fn byte_index(&self, line: usize, character: usize) -> (r: usize)
        requires
            self.wf(),
        ensures
            r == offset_of(self.bytes@, line as int, character as nat),
    {
        proof {
            lemma_starts_upto(self.bytes@, self.bytes@.len() as int);
        }
        let mut p: usize = if line < self.line_starts.len() {
            self.line_starts[line]
        } else {
            self.bytes.len()
        };
        let ghost start = p as int;
        let mut n: usize = character;
        while p < self.bytes.len() && self.bytes[p] != 10u8 && !(n == 0 && !(0x80u8 <= self.bytes[p]
            && self.bytes[p] < 0xC0u8))
            invariant
                p <= self.bytes@.len(),
                seek(self.bytes@, p as int, n as nat) == seek(self.bytes@, start, character as nat),
            decreases self.bytes@.len() - p,
        {
            let byte = self.bytes[p];
            let w: usize = if !(0x80u8 <= byte && byte < 0xC0u8) || (p > 0 && self.bytes[p - 1] >= 0xF0u8) {
                1
            } else {
                0
            };
            n = if w >= n { 0 } else { n - w };
            p = p + 1;
        }
        p
    }

    /// The range that a span of byte offsets covers.
    pub fn range(&self, start: usize, end: usize) -> (r: Range)
        ensures
            r.start == position_of(self.bytes@, start as int),
            r.end == position_of(self.bytes@, end as int),
    {
        Range { start: self.position(start), end: self.position(end) }
    }
}

proof fn lemma_starts_prefix(b: Seq<u8>, c: Seq<u8>, n: int)
    requires
        0 <= n <= c.len() <= b.len(),
        c == b.subrange(0, c.len() as int),
    ensures
        starts_upto(b, n) == starts_upto(c, n),
    decreases n,
{
    if n > 0 {
        lemma_starts_prefix(b, c, n - 1);
    }
}

} // verus!
