//! What a position means in terms of the characters of a text: the line
//! feeds before it, and the UTF-16 length of what stands between the last
//! of them and the position.

use vstd::prelude::*;
use vstd::utf8::*;
use crate::position::byte_len;
use crate::position::lemma_line_start_bounds;
use crate::position::lemma_units_bound;
use crate::position::lemma_units_of_text;
use crate::position::lemma_units_split;
use crate::position::lemma_wide_leads_followed;
use crate::position::line_start;
use crate::position::newlines;
use crate::position::position_at;
use crate::position::utf16_len;
use crate::position::utf16_units;

verus! {

/// The number of line feeds in a text.
pub open spec fn line_feeds(text: Seq<char>) -> nat
    decreases text.len(),
{
    if text.len() == 0 {
        0
    } else {
        line_feeds(text.drop_last()) + if text.last() == '\n' {
            1nat
        } else {
            0nat
        }
    }
}

/// What stands in a text behind its last line feed.
pub open spec fn last_line(text: Seq<char>) -> Seq<char>
    decreases text.len(),
{
    if text.len() == 0 || text.last() == '\n' {
        Seq::empty()
    } else {
        last_line(text.drop_last()).push(text.last())
    }
}

/// The encoding of two texts in a row is the encoding of the first, then
/// that of the second.
pub proof fn lemma_encode_concat(a: Seq<char>, b: Seq<char>)
    ensures
        encode_utf8(a + b) == encode_utf8(a) + encode_utf8(b),
    decreases a.len(),
{
    if a.len() == 0 {
        assert(a + b =~= b);
        assert(encode_utf8(a) + encode_utf8(b) =~= encode_utf8(b));
    } else {
        lemma_encode_concat(a.drop_first(), b);
        assert((a + b).drop_first() =~= a.drop_first() + b);
        assert((a + b)[0] == a[0]);
        assert(encode_utf8(a + b) =~= encode_utf8(a) + encode_utf8(b));
    }
}

/// The encoding of one character: one to four bytes, none of which is a
/// line feed unless the character is one, with the UTF-16 width of the
/// character.
proof fn lemma_encode_one(c: char)
    ensures
        ({
            let s = encode_utf8(seq![c]);
            &&& 1 <= s.len() <= 4
            &&& (c == '\n' ==> s.len() == 1 && s[0] == 10)
            &&& (c != '\n' ==> forall|i: int| 0 <= i < s.len() ==> #[trigger] s[i] != 10)
            &&& utf16_units(s, 0, s.len() as int) == utf16_len(seq![c])
        }),
{
    let t = seq![c];
    let s = encode_utf8(t);
    encode_utf8_first_scalar(t);
    char_is_scalar(c);
    assert(t.drop_first() =~= Seq::<char>::empty());
    assert(encode_utf8(Seq::<char>::empty()) =~= Seq::<u8>::empty());
    assert(t[0] == c);
    assert(s == encode_scalar(c as u32) + encode_utf8(t.drop_first()));
    assert(s =~= encode_scalar(c as u32));
    lemma_units_of_text(t);
    let b = s[0];
    assert(b <= 0x7f ==> (b & 0x7f) == b) by (bit_vector);
}

/// The width of a text that is made of two is the sum of their widths.
pub proof fn lemma_utf16_len_concat(a: Seq<char>, b: Seq<char>)
    ensures
        utf16_len(a + b) == utf16_len(a) + utf16_len(b),
    decreases a.len(),
{
    if a.len() == 0 {
        assert(a + b =~= b);
    } else {
        lemma_utf16_len_concat(a.drop_first(), b);
        assert((a + b).drop_first() =~= a.drop_first() + b);
        assert((a + b)[0] == a[0]);
    }
}

/// Two byte strings that agree on their first `n` bytes have the same line
/// feeds and the same beginning of the last line there.
proof fn lemma_prefix_agrees(x: Seq<u8>, y: Seq<u8>, n: int)
    requires
        0 <= n <= x.len(),
        n <= y.len(),
        forall|i: int| 0 <= i < n ==> x[i] == y[i],
    ensures
        newlines(x, n) == newlines(y, n),
        line_start(x, n) == line_start(y, n),
    decreases n,
{
    if n > 0 {
        lemma_prefix_agrees(x, y, n - 1);
    }
}

/// Two byte strings that agree between `from` and `to` have the same width
/// there.
proof fn lemma_units_agree(x: Seq<u8>, y: Seq<u8>, shift: int, from: int, to: int)
    requires
        0 <= from <= to <= x.len(),
        0 <= from - shift,
        to - shift <= y.len(),
        forall|i: int| from <= i < to ==> x[i] == y[i - shift],
    ensures
        utf16_units(x, from, to) == utf16_units(y, from - shift, to - shift),
    decreases to - from,
{
    if to > from {
        lemma_units_agree(x, y, shift, from, to - 1);
    }
}

/// A span without line feeds adds no line and leaves the beginning of the
/// line where it was.
proof fn lemma_span_without_line_feed(bytes: Seq<u8>, from: int, to: int)
    requires
        0 <= from <= to <= bytes.len(),
        forall|i: int| from <= i < to ==> bytes[i] != 10,
    ensures
        newlines(bytes, to) == newlines(bytes, from),
        line_start(bytes, to) == line_start(bytes, from),
    decreases to - from,
{
    if to > from {
        lemma_span_without_line_feed(bytes, from, to - 1);
    }
}

/// At the end of the encoding of a text there are as many line feeds before
/// as the text has; the last line begins as many bytes before the end as the
/// encoding of the text's last line has; and it is as wide as that last line
/// is long in UTF-16.
pub proof fn lemma_end_of_text(text: Seq<char>)
    ensures
        newlines(encode_utf8(text), byte_len(text) as int) == line_feeds(text),
        line_start(encode_utf8(text), byte_len(text) as int) == byte_len(text) - byte_len(
            last_line(text),
        ),
        utf16_units(
            encode_utf8(text),
            line_start(encode_utf8(text), byte_len(text) as int),
            byte_len(text) as int,
        ) == utf16_len(last_line(text)),
    decreases text.len(),
{
    if text.len() > 0 {
        let init = text.drop_last();
        let c = text.last();
        let one = seq![c];
        lemma_end_of_text(init);
        assert(text =~= init + one);
        lemma_encode_concat(init, one);
        lemma_encode_one(c);
        let i = encode_utf8(init);
        let s = encode_utf8(one);
        let b = encode_utf8(text);
        let m = i.len() as int;
        let n = b.len() as int;
        assert(b == i + s);
        lemma_prefix_agrees(b, i, m);
        lemma_line_start_bounds(b, m);
        let start = line_start(b, m);
        lemma_units_agree(b, i, 0, start, m);
        lemma_units_agree(b, s, m, m, n);
        if c == '\n' {
            assert(b[n - 1] == 10);
            assert(last_line(text) =~= Seq::<char>::empty());
            assert(utf16_units(b, n, n) == 0);
        } else {
            assert forall|k: int| m <= k < n implies b[k] != 10 by {
                assert(b[k] == s[k - m]);
            }
            lemma_span_without_line_feed(b, m, n);
            lemma_units_split(b, start, m, n);
            let line = last_line(init);
            assert(last_line(text) == line.push(c));
            assert(line.push(c) =~= line + one);
            lemma_encode_concat(line, one);
            lemma_utf16_len_concat(line, one);
        }
    }
}

/// The position of the offset at which a text continues: its line is the
/// number of line feeds before, its column the UTF-16 length of what stands
/// between the last of them and the offset.
pub proof fn lemma_position_behind(before: Seq<char>, after: Seq<char>)
    requires
        byte_len(before + after) <= u32::MAX,
    ensures
        position_at(encode_utf8(before + after), byte_len(before) as int).line == line_feeds(
            before,
        ),
        position_at(encode_utf8(before + after), byte_len(before) as int).character == utf16_len(
            last_line(before),
        ),
{
    let bytes = encode_utf8(before + after);
    let head = encode_utf8(before);
    let m = head.len() as int;
    lemma_encode_concat(before, after);
    lemma_end_of_text(before);
    lemma_prefix_agrees(bytes, head, m);
    lemma_line_start_bounds(bytes, m);
    let start = line_start(bytes, m);
    lemma_units_agree(bytes, head, 0, start, m);
    lemma_wide_leads_followed(before + after);
    lemma_units_bound(bytes, start, m);
}

}
