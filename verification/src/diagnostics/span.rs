//! Byte-offset spans within a source file and their resolution into
//! line/column locations.

use vstd::prelude::*;
use vstd::string::*;
use vstd::utf8::*;

verus! {

broadcast use vstd::string::group_string_axioms;

/// Byte-offset span within a source file: `start` inclusive, `end` exclusive.
#[derive(Debug, Clone, Copy, PartialEq, Eq, Hash, Structural)]
pub struct Span {
    /// Byte offset of the first character.
    pub start: usize,
    /// Byte offset one past the last character.
    pub end: usize,
}

impl Span {
    /// A span from `start` to `end`.
    pub fn new(start: usize, end: usize) -> (s: Span)
        requires
            start <= end,
        ensures
            s.start == start,
            s.end == end,
    {
        Span { start, end }
    }

    /// The zero-width span at `offset`.
    pub open spec fn point_spec(offset: usize) -> Span {
        Span { start: offset, end: offset }
    }

    /// A zero-width span at a single position, used for synthetic tokens.
    pub fn point(offset: usize) -> (s: Span)
        ensures
            s == Span::point_spec(offset),
    {
        Span { start: offset, end: offset }
    }

    /// The smallest span that covers both `self` and `other`.
    pub open spec fn spec_merge(self, other: Span) -> Span {
        Span {
            start: if self.start <= other.start { self.start } else { other.start },
            end: if self.end >= other.end { self.end } else { other.end },
        }
    }

    /// Merge two spans into one that covers both.
    pub fn merge(self, other: Span) -> (s: Span)
        ensures
            s == self.spec_merge(other),
    {
        Span {
            start: if self.start <= other.start { self.start } else { other.start },
            end: if self.end >= other.end { self.end } else { other.end },
        }
    }

    /// Length of the span in bytes.
    pub fn len(&self) -> (n: usize)
        requires
            self.start <= self.end,
        ensures
            n == self.end - self.start,
    {
        self.end - self.start
    }

    /// Whether the span covers no bytes.
    pub fn is_empty(&self) -> (b: bool)
        ensures
            b == (self.start == self.end),
    {
        self.start == self.end
    }

    /// Extract the slice of source text covered by this span.
    pub fn slice<'a>(&self, source: &'a str) -> (r: &'a str)
        requires
            self.start <= self.end <= source.spec_bytes().len(),
            is_char_boundary(source.spec_bytes(), self.start as int),
            is_char_boundary(source.spec_bytes(), self.end as int),
        ensures
            r.spec_bytes() == source.spec_bytes().subrange(self.start as int, self.end as int),
    {
        proof {
            broadcast use vstd::utf8::encode_utf8_valid_utf8;
            assert(valid_utf8(source.spec_bytes()));
        }
        let (head, _) = source.split_at(self.end);
        proof {
            assert(head.spec_bytes() =~= source.spec_bytes().subrange(0, self.end as int));
            char_boundary_in_prefix(source.spec_bytes(), self.end as int, self.start as int);
        }
        let (_, body) = head.split_at(self.start);
        proof {
            assert(body.spec_bytes() =~= source.spec_bytes().subrange(
                self.start as int,
                self.end as int,
            ));
        }
        body
    }
}

/// `outer` covers `inner`: it starts no later and ends no earlier.
pub open spec fn covers(outer: Span, inner: Span) -> bool {
    outer.start <= inner.start && inner.end <= outer.end
}

/// Merging two spans gives the smallest span that covers both: it covers
/// each of them, every span that covers both covers it, and the order of
/// the two does not matter.
pub proof fn law_merge_is_smallest_cover(a: Span, b: Span, c: Span)
    ensures
        covers(a.spec_merge(b), a),
        covers(a.spec_merge(b), b),
        covers(c, a) && covers(c, b) ==> covers(c, a.spec_merge(b)),
        a.spec_merge(b) == b.spec_merge(a),
{
}

/// A character boundary of a valid UTF-8 sequence stays a boundary of any
/// prefix that ends on a boundary at or after it.
pub proof fn char_boundary_in_prefix(bytes: Seq<u8>, end: int, i: int)
    requires
        valid_utf8(bytes),
        0 <= i <= end <= bytes.len(),
        is_char_boundary(bytes, end),
        is_char_boundary(bytes, i),
    ensures
        valid_utf8(bytes.subrange(0, end)),
        is_char_boundary(bytes.subrange(0, end), i),
{
    broadcast use vstd::utf8::valid_utf8_split;
    broadcast use vstd::utf8::is_char_boundary_start_end_of_seq;
    broadcast use vstd::utf8::is_char_boundary_iff_not_is_continuation_byte;
    let pre = bytes.subrange(0, end);
    assert(valid_utf8(pre));
    if i == end {
        assert(pre.len() == end);
        is_char_boundary_start_end_of_seq(pre);
    } else {
        assert(pre[i] == bytes[i]);
        is_char_boundary_iff_not_is_continuation_byte(bytes, i);
        is_char_boundary_iff_not_is_continuation_byte(pre, i);
    }
}

/// Whether a byte begins the UTF-8 encoding of a character.
pub open spec fn starts_char(b: u8) -> bool {
    !is_continuation_byte(b)
}

/// Line and column reached after reading the first `n` bytes of `bytes`:
/// a newline starts a new line at column 1, every other character moves
/// one column to the right.
pub open spec fn line_col_after(bytes: Seq<u8>, n: int) -> (nat, nat)
    decreases n,
{
    if n <= 0 {
        (1, 1)
    } else {
        let (line, col) = line_col_after(bytes, n - 1);
        let b = bytes[n - 1];
        if b == 10u8 {
            (line + 1, 1)
        } else if starts_char(b) {
            (line, col + 1)
        } else {
            (line, col)
        }
    }
}

/// The line reached after the first `n` bytes is one more than the number
/// of line breaks among them.
pub proof fn law_line_counts_breaks(bytes: Seq<u8>, n: int)
    requires
        0 <= n <= bytes.len(),
    ensures
        line_col_after(bytes, n).0 == 1 + bytes.subrange(0, n).filter(|b: u8| b == 10u8).len(),
    decreases n,
{
    reveal(Seq::filter);
    if n > 0 {
        law_line_counts_breaks(bytes, n - 1);
        let p = bytes.subrange(0, n);
        assert(p.drop_last() =~= bytes.subrange(0, n - 1));
        assert(p.last() == bytes[n - 1]);
    }
}

/// Reading on from `n` to `m` bytes never goes back a line, and while it
/// stays on the same line it never goes back a column.
pub proof fn lemma_line_col_monotone(bytes: Seq<u8>, n: int, m: int)
    requires
        0 <= n <= m,
    ensures
        line_col_after(bytes, n).0 <= line_col_after(bytes, m).0,
        line_col_after(bytes, n).0 == line_col_after(bytes, m).0 ==> line_col_after(bytes, n).1
            <= line_col_after(bytes, m).1,
    decreases m - n,
{
    if n < m {
        lemma_line_col_monotone(bytes, n, m - 1);
        lemma_line_col_bounds(bytes, m - 1);
    }
}

/// Lines and columns count from 1 and grow by at most one per byte.
pub proof fn lemma_line_col_bounds(bytes: Seq<u8>, n: int)
    requires
        0 <= n,
    ensures
        1 <= line_col_after(bytes, n).0 <= n + 1,
        1 <= line_col_after(bytes, n).1 <= n + 1,
    decreases n,
{
    if n > 0 {
        lemma_line_col_bounds(bytes, n - 1);
    }
}

/// Resolved line/column location for display purposes.
#[derive(Debug, Clone, PartialEq, Eq)]
pub struct SourceLocation {
    pub filename: String,
    pub line: usize,
    pub column: usize,
    pub offset: usize,
}

impl SourceLocation {
    /// Resolve a byte offset into a line/column pair by scanning the source.
    /// Lines and columns count from 1; columns count characters.
    pub fn from_offset(source: &str, offset: usize, filename: &str) -> (loc: SourceLocation)
        requires
            source.spec_bytes().len() < usize::MAX,
        ensures
            ({
                let bytes = source.spec_bytes();
                let n = if offset <= bytes.len() { offset as int } else { bytes.len() as int };
                &&& loc.line == line_col_after(bytes, n).0
                &&& loc.column == line_col_after(bytes, n).1
            }),
            loc.offset == offset,
            loc.filename@ == filename@,
    {
        let bytes = source.as_bytes();
        let mut line: usize = 1;
        let mut col: usize = 1;
        let mut i: usize = 0;
        while i < bytes.len() && i < offset
            invariant
                bytes@ == source.spec_bytes(),
                i <= bytes@.len(),
                i <= offset,
                bytes@.len() < usize::MAX,
                line as nat == line_col_after(bytes@, i as int).0,
                col as nat == line_col_after(bytes@, i as int).1,
            decreases bytes@.len() - i,
        {
            proof {
                lemma_line_col_bounds(bytes@, i as int);
            }
            let b = bytes[i];
            if b == 10u8 {
                line = line + 1;
                col = 1;
            } else if b & 0xC0u8 != 0x80u8 {
                assert(starts_char(b)) by (bit_vector)
                    requires b & 0xC0u8 != 0x80u8;
                col = col + 1;
            } else {
                assert(!starts_char(b)) by (bit_vector)
                    requires b & 0xC0u8 == 0x80u8;
            }
            i = i + 1;
        }
        SourceLocation { filename: String::from_str(filename), line, column: col, offset }
    }

    /// `file:line:column` rendering of the location.
    pub fn render(&self) -> (s: String)
        ensures
            s@ == self.filename@ + seq![':'] + crate::text::decimal(self.line as nat) + seq![':']
                + crate::text::decimal(self.column as nat),
    {
        let colon = ":";
        proof {
            reveal_strlit(":");
        }
        let line = crate::text::usize_to_text(self.line);
        let col = crate::text::usize_to_text(self.column);
        let s = self.filename.clone();
        let s = s.concat(colon);
        let s = s.concat(line.as_str());
        let s = s.concat(colon);
        let s = s.concat(col.as_str());
        s
    }
}

} // verus!
