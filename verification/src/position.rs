//! Conversions between byte offsets into a UTF-8 text and editor positions,
//! which count lines from zero and columns in UTF-16 code units. A line ends
//! with its line feed; a carriage return before it is a character of the
//! line like any other, and a tab is one character.

use vstd::prelude::*;
use vstd::string::*;
use vstd::utf8::*;

verus! {

/// A place in a text as an editor names it: a line, counted from zero, and a
/// column within that line, counted in UTF-16 code units.
#[derive(Clone, Copy, Debug, PartialEq, Eq, Structural)]
pub struct Position {
    pub line: u32,
    pub character: u32,
}

/// A pair of editor positions.
#[derive(Clone, Copy, Debug, PartialEq, Eq, Structural)]
pub struct Range {
    pub start: Position,
    pub end: Position,
}

/// A half-open span `[start, end)` of byte offsets.
#[derive(Clone, Copy, Debug, PartialEq, Eq, Structural)]
pub struct TextRange {
    pub start: u32,
    pub end: u32,
}

impl TextRange {
    /// The span is ordered and ends within a text of `len` bytes.
    pub open spec fn within(self, len: int) -> bool {
        self.start <= self.end <= len
    }

    /// Both spans have a byte in common: `self` starts before `other` ends
    /// and ends after `other` starts.
    pub open spec fn overlaps(self, other: TextRange) -> bool {
        self.start < other.end && self.end > other.start
    }

    /// Both spans meet, a shared end point included.
    pub open spec fn touches(self, other: TextRange) -> bool {
        self.start <= other.end && other.start <= self.end
    }

    pub fn intersects(&self, other: &TextRange) -> (r: bool)
        ensures
            r == self.overlaps(*other),
    {
        self.start < other.end && self.end > other.start
    }

    pub fn meets(&self, other: &TextRange) -> (r: bool)
        ensures
            r == self.touches(*other),
    {
        self.start <= other.end && other.start <= self.end
    }
}

/// The number of bytes of the UTF-8 encoding of `text`.
pub open spec fn byte_len(text: Seq<char>) -> nat {
    encode_utf8(text).len()
}

/// The number of UTF-16 code units that the byte `b` of a UTF-8 text stands
/// for: none for a continuation byte, two for the first byte of a four-byte
/// sequence (a code point beyond the Basic Multilingual Plane), one otherwise.
pub open spec fn utf16_width(b: u8) -> nat {
    if is_continuation_byte(b) {
        0
    } else if b >= 0xf0 {
        2
    } else {
        1
    }
}

/// The number of UTF-16 code units of the bytes in `[from, to)`.
pub open spec fn utf16_units(bytes: Seq<u8>, from: int, to: int) -> nat
    decreases to - from,
{
    if to <= from {
        0
    } else {
        utf16_units(bytes, from, to - 1) + utf16_width(bytes[to - 1])
    }
}

/// The number of line feeds among the first `to` bytes.
pub open spec fn newlines(bytes: Seq<u8>, to: int) -> nat
    decreases to,
{
    if to <= 0 {
        0
    } else if bytes[to - 1] == 10 {
        newlines(bytes, to - 1) + 1
    } else {
        newlines(bytes, to - 1)
    }
}

/// The offset at which the line that holds offset `to` begins: just behind
/// the last line feed before `to`, or 0.
pub open spec fn line_start(bytes: Seq<u8>, to: int) -> int
    decreases to,
{
    if to <= 0 {
        0
    } else if bytes[to - 1] == 10 {
        to
    } else {
        line_start(bytes, to - 1)
    }
}

/// The position of byte offset `offset`; an offset behind the end of the text
/// counts as the end of the text.
pub open spec fn position_at(bytes: Seq<u8>, offset: int) -> Position {
    let o = if offset < bytes.len() { offset } else { bytes.len() as int };
    Position {
        line: newlines(bytes, o) as u32,
        character: utf16_units(bytes, line_start(bytes, o), o) as u32,
    }
}

/// The offset of the first line feed at or behind `from`, or the length of
/// the text.
pub open spec fn line_end(bytes: Seq<u8>, from: int) -> int
    decreases bytes.len() - from,
{
    if from >= bytes.len() || bytes[from] == 10 {
        from
    } else {
        line_end(bytes, from + 1)
    }
}

/// The offset at which line `n` begins; the length of the text where the
/// text has no such line.
pub open spec fn line_offset(bytes: Seq<u8>, n: nat) -> int
    decreases n,
{
    if n == 0 {
        0
    } else {
        let e = line_end(bytes, line_offset(bytes, (n - 1) as nat));
        if e < bytes.len() {
            e + 1
        } else {
            bytes.len() as int
        }
    }
}

/// Walks from `from` towards the end of its line while the UTF-16 code units
/// on the way fit in `budget`, and gives the offset reached. A code point
/// that does not fit whole is not entered.
pub open spec fn advance(bytes: Seq<u8>, from: int, budget: nat) -> int
    decreases bytes.len() - from,
{
    if from >= bytes.len() || bytes[from] == 10 || utf16_width(bytes[from]) > budget {
        from
    } else {
        advance(bytes, from + 1, (budget - utf16_width(bytes[from])) as nat)
    }
}

/// The byte offset of `pos`: a column behind the end of its line counts as
/// the end of the line, a line behind the last as the end of the text.
pub open spec fn offset_at(bytes: Seq<u8>, pos: Position) -> int {
    advance(bytes, line_offset(bytes, pos.line as nat), pos.character as nat)
}

/// Every first byte of a four-byte sequence has a continuation byte behind it.
pub open spec fn wide_leads_followed(bytes: Seq<u8>) -> bool {
    forall|i: int|
        0 <= i < bytes.len() && #[trigger] bytes[i] >= 0xf0 ==> i + 1 < bytes.len()
            && is_continuation_byte(bytes[i + 1])
}

/// The UTF-8 encoding of any text has a continuation byte behind each first
/// byte of a four-byte sequence.
pub proof fn lemma_wide_leads_followed(text: Seq<char>)
    ensures
        wide_leads_followed(encode_utf8(text)),
{
    let bytes = encode_utf8(text);
    encode_utf8_valid_utf8(text);
    assert forall|i: int| 0 <= i < bytes.len() && #[trigger] bytes[i] >= 0xf0 implies i + 1
        < bytes.len() && is_continuation_byte(bytes[i + 1]) by {
        is_char_boundary_iff_not_is_continuation_byte(bytes, i);
        valid_utf8_split(bytes, i);
        let tail = bytes.subrange(i, bytes.len() as int);
        assert(valid_utf8(tail));
        assert(tail.len() == bytes.len() - i);
        assert(tail[0] == bytes[i]);
        assert(valid_first_scalar(tail));
        assert(tail[1] == bytes[i + 1]);
    }
}

/// Splitting a span of bytes at its first byte adds that byte's width to the
/// width of the rest.
pub proof fn lemma_units_front(bytes: Seq<u8>, from: int, to: int)
    requires
        from < to,
    ensures
        utf16_units(bytes, from, to) == utf16_width(bytes[from]) + utf16_units(bytes, from + 1, to),
    decreases to - from,
{
    if to - 1 > from {
        lemma_units_front(bytes, from, to - 1);
    } else {
        assert(utf16_units(bytes, from, from) == 0);
        assert(utf16_units(bytes, from + 1, to) == 0);
    }
}

/// A line begins at or before every offset that it holds, and there are no
/// more line feeds before an offset than bytes.
pub proof fn lemma_line_start_bounds(bytes: Seq<u8>, to: int)
    requires
        0 <= to,
    ensures
        0 <= line_start(bytes, to) <= to,
        newlines(bytes, to) <= to,
    decreases to,
{
    if to > 0 {
        lemma_line_start_bounds(bytes, to - 1);
    }
}

/// No line feed stands between the beginning of a line and an offset on it,
/// so the line's end seen from its beginning is the first line feed at or
/// behind that offset.
pub proof fn lemma_line_end_from_start(bytes: Seq<u8>, to: int)
    requires
        0 <= to <= bytes.len(),
    ensures
        line_end(bytes, line_start(bytes, to)) == line_end(bytes, to),
    decreases to,
{
    if to > 0 && bytes[to - 1] != 10 {
        lemma_line_end_from_start(bytes, to - 1);
        lemma_line_start_bounds(bytes, to - 1);
        lemma_line_end_step(bytes, line_start(bytes, to - 1), to - 1);
    }
}

/// Where the line's end seen from `from` is that seen from `at`, and the
/// byte at `at` is no line feed, it is also that seen from `at + 1`.
proof fn lemma_line_end_step(bytes: Seq<u8>, from: int, at: int)
    requires
        0 <= from <= at < bytes.len(),
        bytes[at] != 10,
        line_end(bytes, from) == line_end(bytes, at),
    ensures
        line_end(bytes, from) == line_end(bytes, at + 1),
{
}

/// Line `newlines(to)` begins where the line that holds offset `to` begins.
pub proof fn lemma_line_offset_of_newlines(bytes: Seq<u8>, to: int)
    requires
        0 <= to <= bytes.len(),
    ensures
        line_offset(bytes, newlines(bytes, to)) == line_start(bytes, to),
    decreases to,
{
    if to > 0 {
        lemma_line_offset_of_newlines(bytes, to - 1);
        if bytes[to - 1] == 10 {
            lemma_line_end_from_start(bytes, to - 1);
            assert(line_end(bytes, to - 1) == to - 1);
        }
    }
}

/// Walking from the beginning of a span without line feeds, with the span's
/// width as budget, ends at the span's end, provided that the walk cannot go
/// on from there: the text or the line ends, or a new code point begins.
pub proof fn lemma_advance_reaches(bytes: Seq<u8>, from: int, to: int)
    requires
        0 <= from <= to <= bytes.len(),
        line_start(bytes, to) <= from,
        to == bytes.len() || bytes[to] == 10 || !is_continuation_byte(bytes[to]),
    ensures
        advance(bytes, from, utf16_units(bytes, from, to)) == to,
    decreases to - from,
{
    if from < to {
        lemma_units_front(bytes, from, to);
        lemma_no_newline_on_line(bytes, from, to);
        lemma_advance_reaches(bytes, from + 1, to);
    } else {
        assert(utf16_units(bytes, from, to) == 0);
    }
}

/// No byte between the beginning of the line of `to` and `to` is a line feed.
proof fn lemma_no_newline_on_line(bytes: Seq<u8>, at: int, to: int)
    requires
        0 <= at < to,
        line_start(bytes, to) <= at,
    ensures
        bytes[at] != 10,
    decreases to,
{
    if bytes[to - 1] == 10 {
    } else if at < to - 1 {
        lemma_no_newline_on_line(bytes, at, to - 1);
    }
}

/// Where every first byte of a four-byte sequence has a continuation byte
/// behind it, a span has at most one code unit per byte, and one more where
/// its last byte is such a first byte.
pub proof fn lemma_units_bound(bytes: Seq<u8>, from: int, to: int)
    requires
        0 <= from <= to <= bytes.len(),
        wide_leads_followed(bytes),
    ensures
        utf16_units(bytes, from, to) <= to - from + (if to > from && bytes[to - 1] >= 0xf0 {
            1int
        } else {
            0int
        }),
        utf16_units(bytes, from, to) <= bytes.len(),
    decreases to - from,
{
    if to > from {
        lemma_units_bound(bytes, from, to - 1);
    }
}

/// Once a line begins at the end of the text, so do all later lines.
pub proof fn lemma_line_offset_saturates(bytes: Seq<u8>, n: nat, m: nat)
    requires
        n <= m,
        line_offset(bytes, n) == bytes.len(),
    ensures
        line_offset(bytes, m) == bytes.len(),
    decreases m,
{
    if n < m {
        lemma_line_offset_saturates(bytes, n, (m - 1) as nat);
    }
}

/// The number of UTF-16 code units of a text: two for each code point
/// beyond the Basic Multilingual Plane, one for each other.
pub open spec fn utf16_len(text: Seq<char>) -> nat
    decreases text.len(),
{
    if text.len() == 0 {
        0
    } else {
        (if text[0] as u32 >= 0x10000 {
            2nat
        } else {
            1nat
        }) + utf16_len(text.drop_first())
    }
}

/// The width of a span is the sum of the widths of its two parts.
pub proof fn lemma_units_split(bytes: Seq<u8>, from: int, mid: int, to: int)
    requires
        from <= mid <= to,
    ensures
        utf16_units(bytes, from, to) == utf16_units(bytes, from, mid) + utf16_units(bytes, mid, to),
    decreases to - mid,
{
    if mid < to {
        lemma_units_split(bytes, from, mid, to - 1);
    }
}

/// The width of the first `n` bytes behind offset `k` is that of the first
/// `n` bytes of the text cut off at `k`.
proof fn lemma_units_shift(bytes: Seq<u8>, k: int, n: int)
    requires
        0 <= k,
        0 <= n,
        k + n <= bytes.len(),
    ensures
        utf16_units(bytes.subrange(k, bytes.len() as int), 0, n) == utf16_units(bytes, k, k + n),
    decreases n,
{
    if n > 0 {
        lemma_units_shift(bytes, k, n - 1);
        assert(bytes.subrange(k, bytes.len() as int)[n - 1] == bytes[k + n - 1]);
    }
}

/// The bytes of a text stand for as many UTF-16 code units as the text has
/// when it is encoded in UTF-16.
pub proof fn lemma_units_of_text(text: Seq<char>)
    ensures
        utf16_units(encode_utf8(text), 0, byte_len(text) as int) == utf16_len(text),
    decreases text.len(),
{
    if text.len() > 0 {
        let bytes = encode_utf8(text);
        let head = encode_scalar(text[0] as u32);
        let rest = encode_utf8(text.drop_first());
        let l = head.len() as int;
        encode_utf8_first_scalar(text);
        char_is_scalar(text[0]);
        lemma_units_of_text(text.drop_first());
        assert(bytes.subrange(l, bytes.len() as int) =~= rest);
        lemma_units_shift(bytes, l, rest.len() as int);
        lemma_units_split(bytes, 0, l, bytes.len() as int);
        assert(utf16_units(bytes, 0, l) == if text[0] as u32 >= 0x10000 {
            2nat
        } else {
            1nat
        }) by {
            reveal_with_fuel(utf16_units, 5);
        }
    }
}

/// Converting a byte offset that lies on a code-point boundary of a text to
/// a position and back gives the offset again.
pub proof fn lemma_position_round_trip(text: Seq<char>, offset: int)
    requires
        byte_len(text) <= u32::MAX,
        0 <= offset <= byte_len(text),
        is_char_boundary(encode_utf8(text), offset),
    ensures
        offset_at(encode_utf8(text), position_at(encode_utf8(text), offset)) == offset,
{
    let bytes = encode_utf8(text);
    encode_utf8_valid_utf8(text);
    lemma_wide_leads_followed(text);
    lemma_line_start_bounds(bytes, offset);
    let start = line_start(bytes, offset);
    lemma_units_bound(bytes, start, offset);
    lemma_line_offset_of_newlines(bytes, offset);
    if offset < bytes.len() {
        is_char_boundary_iff_not_is_continuation_byte(bytes, offset);
    }
    lemma_advance_reaches(bytes, start, offset);
}

/// A line ends at or behind the offset from which its end is sought, and
/// within the text.
pub proof fn lemma_line_end_bounds(bytes: Seq<u8>, from: int)
    requires
        0 <= from <= bytes.len(),
    ensures
        from <= line_end(bytes, from) <= bytes.len(),
    decreases bytes.len() - from,
{
    if from < bytes.len() && bytes[from] != 10 {
        lemma_line_end_bounds(bytes, from + 1);
    }
}

/// Every line begins within the text.
pub proof fn lemma_line_offset_bounds(bytes: Seq<u8>, n: nat)
    ensures
        0 <= line_offset(bytes, n) <= bytes.len(),
    decreases n,
{
    if n > 0 {
        lemma_line_offset_bounds(bytes, (n - 1) as nat);
        lemma_line_end_bounds(bytes, line_offset(bytes, (n - 1) as nat));
    }
}

/// A walk ends within the text, and not on a continuation byte.
pub proof fn lemma_advance_stops(bytes: Seq<u8>, from: int, budget: nat)
    requires
        0 <= from <= bytes.len(),
    ensures
        from <= advance(bytes, from, budget) <= bytes.len(),
        advance(bytes, from, budget) == bytes.len() || !is_continuation_byte(
            bytes[advance(bytes, from, budget)],
        ),
    decreases bytes.len() - from,
{
    if !(from >= bytes.len() || bytes[from] == 10 || utf16_width(bytes[from]) > budget) {
        lemma_advance_stops(bytes, from + 1, (budget - utf16_width(bytes[from])) as nat);
    }
}

/// The offset of every position lies in the text, on a code-point boundary.
pub proof fn lemma_offset_on_boundary(text: Seq<char>, pos: Position)
    ensures
        0 <= offset_at(encode_utf8(text), pos) <= byte_len(text),
        is_char_boundary(encode_utf8(text), offset_at(encode_utf8(text), pos)),
{
    let bytes = encode_utf8(text);
    encode_utf8_valid_utf8(text);
    lemma_line_offset_bounds(bytes, pos.line as nat);
    lemma_advance_stops(bytes, line_offset(bytes, pos.line as nat), pos.character as nat);
    let offset = offset_at(bytes, pos);
    if offset < bytes.len() {
        is_char_boundary_iff_not_is_continuation_byte(bytes, offset);
    } else {
        is_char_boundary_start_end_of_seq(bytes);
    }
}

/// One position stands at or before another: on an earlier line, or on the
/// same line at no later column.
pub open spec fn not_behind(a: Position, b: Position) -> bool {
    a.line < b.line || (a.line == b.line && a.character <= b.character)
}

/// From one offset to a later one the line feeds do not get fewer, and
/// where they stay as many, the line is the same.
proof fn lemma_lines_grow(bytes: Seq<u8>, a: int, b: int)
    requires
        0 <= a <= b,
    ensures
        newlines(bytes, a) <= newlines(bytes, b),
        newlines(bytes, a) == newlines(bytes, b) ==> line_start(bytes, a) == line_start(bytes, b),
    decreases b - a,
{
    if a < b {
        lemma_lines_grow(bytes, a, b - 1);
    }
}

/// Positions keep the order of offsets: a later offset of a text has no
/// earlier position.
pub proof fn lemma_positions_keep_order(text: Seq<char>, a: int, b: int)
    requires
        byte_len(text) <= u32::MAX,
        0 <= a <= b,
    ensures
        not_behind(position_at(encode_utf8(text), a), position_at(encode_utf8(text), b)),
{
    let bytes = encode_utf8(text);
    let x = if a < bytes.len() { a } else { bytes.len() as int };
    let y = if b < bytes.len() { b } else { bytes.len() as int };
    lemma_wide_leads_followed(text);
    lemma_lines_grow(bytes, x, y);
    lemma_line_start_bounds(bytes, x);
    lemma_line_start_bounds(bytes, y);
    lemma_units_bound(bytes, line_start(bytes, x), x);
    lemma_units_bound(bytes, line_start(bytes, y), y);
    if newlines(bytes, x) == newlines(bytes, y) {
        lemma_units_split(bytes, line_start(bytes, x), x, y);
    }
}

/// The number of UTF-16 code units that a byte of a UTF-8 text stands for.
pub fn utf16_width_of(b: u8) -> (w: u32)
    ensures
        w == utf16_width(b),
{
    if 0x80 <= b && b <= 0xbf {
        0
    } else if b >= 0xf0 {
        2
    } else {
        1
    }
}

/// The editor position of a byte offset in `text`. An offset behind the end
/// of the text gives the position of the end of the text.
pub fn offset_to_position(text: &str, offset: u32) -> (pos: Position)
    requires
        byte_len(text@) <= u32::MAX,
    ensures
        pos == position_at(encode_utf8(text@), offset as int),
{
    let bytes = text.as_bytes();
    let len: usize = bytes.len();
    let stop: usize = if (offset as usize) < len {
        offset as usize
    } else {
        len
    };
    let mut i: usize = 0;
    let mut line: u32 = 0;
    let mut begin: usize = 0;
    let mut character: u32 = 0;
    proof {
        lemma_wide_leads_followed(text@);
    }
    while i < stop
        invariant
            bytes@ == encode_utf8(text@),
            len == bytes@.len(),
            len <= u32::MAX,
            i <= stop <= len,
            wide_leads_followed(bytes@),
            line == newlines(bytes@, i as int),
            begin == line_start(bytes@, i as int),
            begin <= i,
            character == utf16_units(bytes@, begin as int, i as int),
        decreases stop - i,
    {
        proof {
            lemma_line_start_bounds(bytes@, i as int);
            lemma_units_bound(bytes@, begin as int, i as int);
            lemma_units_bound(bytes@, begin as int, i + 1);
        }
        let b: u8 = bytes[i];
        if b == 10 {
            line = line + 1;
            begin = i + 1;
            character = 0;
            assert(utf16_units(bytes@, begin as int, i + 1) == 0);
        } else {
            character = character + utf16_width_of(b);
        }
        i = i + 1;
    }
    Position { line, character }
}

/// The byte offset of an editor position in `text`. A column behind the end
/// of its line gives the end of that line (the offset of its line feed); a
/// line behind the last gives the end of the text; a column inside a code
/// point that takes two UTF-16 code units gives the offset of that code
/// point.
pub fn position_to_offset(text: &str, pos: Position) -> (offset: u32)
    requires
        byte_len(text@) <= u32::MAX,
    ensures
        offset == offset_at(encode_utf8(text@), pos),
        offset <= byte_len(text@),
        is_char_boundary(encode_utf8(text@), offset as int),
{
    proof {
        lemma_offset_on_boundary(text@, pos);
    }
    let bytes = text.as_bytes();
    let len: usize = bytes.len();
    let mut begin: usize = 0;
    let mut n: u32 = 0;
    while n < pos.line && begin < len
        invariant
            len == bytes@.len(),
            begin <= len,
            n <= pos.line,
            begin == line_offset(bytes@, n as nat),
        decreases len - begin,
    {
        let mut e: usize = begin;
        while e < len && bytes[e] != 10
            invariant
                len == bytes@.len(),
                begin <= e <= len,
                line_end(bytes@, e as int) == line_end(bytes@, begin as int),
            decreases len - e,
        {
            e = e + 1;
        }
        begin = if e < len {
            e + 1
        } else {
            len
        };
        n = n + 1;
    }
    proof {
        if n < pos.line {
            lemma_line_offset_saturates(bytes@, n as nat, pos.line as nat);
        }
    }
    let mut i: usize = begin;
    let mut budget: u32 = pos.character;
    while i < len && bytes[i] != 10 && utf16_width_of(bytes[i]) <= budget
        invariant
            len == bytes@.len(),
            begin <= i <= len,
            advance(bytes@, i as int, budget as nat) == offset_at(bytes@, pos),
        decreases len - i,
    {
        budget = budget - utf16_width_of(bytes[i]);
        i = i + 1;
    }
    i as u32
}

/// The editor range of a span of byte offsets: each end converted by
/// `offset_to_position`.
pub fn text_range_to_lsp_range(text: &str, range: TextRange) -> (r: Range)
    requires
        byte_len(text@) <= u32::MAX,
    ensures
        r.start == position_at(encode_utf8(text@), range.start as int),
        r.end == position_at(encode_utf8(text@), range.end as int),
{
    Range {
        start: offset_to_position(text, range.start),
        end: offset_to_position(text, range.end),
    }
}

/// The span of byte offsets of an editor range: each end converted by
/// `position_to_offset`.
pub fn lsp_range_to_text_range(text: &str, range: Range) -> (r: TextRange)
    requires
        byte_len(text@) <= u32::MAX,
    ensures
        r.start == offset_at(encode_utf8(text@), range.start),
        r.end == offset_at(encode_utf8(text@), range.end),
        r.start <= byte_len(text@),
        r.end <= byte_len(text@),
{
    TextRange {
        start: position_to_offset(text, range.start),
        end: position_to_offset(text, range.end),
    }
}

}
