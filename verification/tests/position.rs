use debian_lsp::position::lsp_range_to_text_range;
use debian_lsp::position::offset_to_position;
use debian_lsp::position::position_to_offset;
use debian_lsp::position::text_range_to_lsp_range;
use debian_lsp::position::utf16_width_of;
use debian_lsp::position::Position;
use debian_lsp::position::Range;
use debian_lsp::position::TextRange;

fn pos(line: u32, character: u32) -> Position {
    Position { line, character }
}

#[test]
fn offsets_on_several_lines() {
    let text = "Source: x\nMaintainer: y\n";
    assert_eq!(offset_to_position(text, 0), pos(0, 0));
    assert_eq!(offset_to_position(text, 6), pos(0, 6));
    assert_eq!(offset_to_position(text, 9), pos(0, 9));
    assert_eq!(offset_to_position(text, 10), pos(1, 0));
    assert_eq!(offset_to_position(text, 20), pos(1, 10));
    assert_eq!(offset_to_position(text, 24), pos(2, 0));
}

#[test]
fn offset_behind_the_end_is_the_end() {
    assert_eq!(offset_to_position("ab\ncd", 5), pos(1, 2));
    assert_eq!(offset_to_position("ab\ncd", 6), pos(1, 2));
    assert_eq!(offset_to_position("ab\ncd", u32::MAX), pos(1, 2));
    assert_eq!(offset_to_position("", 0), pos(0, 0));
    assert_eq!(offset_to_position("", 9), pos(0, 0));
}

#[test]
fn columns_count_utf16_code_units() {
    // a (1 byte), e acute (2 bytes), euro sign (3 bytes), an emoji (4 bytes,
    // two code units), b
    let text = "a\u{00E9}\u{20AC}\u{1F600}b";
    assert_eq!(text.len(), 11);
    assert_eq!(offset_to_position(text, 1), pos(0, 1));
    assert_eq!(offset_to_position(text, 3), pos(0, 2));
    assert_eq!(offset_to_position(text, 6), pos(0, 3));
    assert_eq!(offset_to_position(text, 10), pos(0, 5));
    assert_eq!(offset_to_position(text, 11), pos(0, 6));
    assert_eq!(position_to_offset(text, pos(0, 1)), 1);
    assert_eq!(position_to_offset(text, pos(0, 2)), 3);
    assert_eq!(position_to_offset(text, pos(0, 3)), 6);
    assert_eq!(position_to_offset(text, pos(0, 5)), 10);
    assert_eq!(position_to_offset(text, pos(0, 6)), 11);
}

#[test]
fn column_inside_a_surrogate_pair_is_the_code_point() {
    let text = "a\u{1F600}b";
    assert_eq!(position_to_offset(text, pos(0, 2)), 1);
    assert_eq!(position_to_offset(text, pos(0, 3)), 5);
}

#[test]
fn widths_by_first_byte() {
    assert_eq!(utf16_width_of(b'a'), 1);
    assert_eq!(utf16_width_of(0x7f), 1);
    assert_eq!(utf16_width_of(0x80), 0);
    assert_eq!(utf16_width_of(0xbf), 0);
    assert_eq!(utf16_width_of(0xc3), 1);
    assert_eq!(utf16_width_of(0xe2), 1);
    assert_eq!(utf16_width_of(0xef), 1);
    assert_eq!(utf16_width_of(0xf0), 2);
    assert_eq!(utf16_width_of(0xf4), 2);
}

#[test]
fn positions_clamp() {
    let text = "ab\ncd\n";
    assert_eq!(position_to_offset(text, pos(0, 0)), 0);
    assert_eq!(position_to_offset(text, pos(0, 2)), 2);
    assert_eq!(position_to_offset(text, pos(0, 3)), 2);
    assert_eq!(position_to_offset(text, pos(0, 99)), 2);
    assert_eq!(position_to_offset(text, pos(1, 1)), 4);
    assert_eq!(position_to_offset(text, pos(1, 99)), 5);
    assert_eq!(position_to_offset(text, pos(2, 0)), 6);
    assert_eq!(position_to_offset(text, pos(2, 5)), 6);
    assert_eq!(position_to_offset(text, pos(3, 0)), 6);
    assert_eq!(position_to_offset(text, pos(u32::MAX, u32::MAX)), 6);
    assert_eq!(position_to_offset("", pos(0, 0)), 0);
    assert_eq!(position_to_offset("", pos(4, 4)), 0);
    assert_eq!(position_to_offset("ab", pos(1, 0)), 2);
}

#[test]
fn carriage_return_belongs_to_its_line() {
    let text = "ab\r\ncd";
    assert_eq!(offset_to_position(text, 2), pos(0, 2));
    assert_eq!(offset_to_position(text, 3), pos(0, 3));
    assert_eq!(offset_to_position(text, 4), pos(1, 0));
    assert_eq!(position_to_offset(text, pos(0, 3)), 3);
    assert_eq!(position_to_offset(text, pos(0, 9)), 3);
    assert_eq!(position_to_offset(text, pos(1, 1)), 5);
}

#[test]
fn tab_is_one_column() {
    assert_eq!(offset_to_position("\t\tx", 2), pos(0, 2));
    assert_eq!(position_to_offset("\t\tx", pos(0, 2)), 2);
}

#[test]
fn round_trip_on_every_code_point_boundary() {
    let texts = [
        "",
        "Source: x\n",
        "a\u{00E9}\u{20AC}\u{1F600}b\n\u{1F600}\u{1F600}\n\nz",
        "\n\n\n",
        "ab\r\ncd\r\n",
        "no newline at the end",
    ];
    for text in texts {
        for offset in 0..=text.len() {
            if text.is_char_boundary(offset) {
                let position = offset_to_position(text, offset as u32);
                assert_eq!(position_to_offset(text, position), offset as u32);
            }
        }
    }
}

#[test]
fn ranges_convert_end_by_end() {
    let text = "source: x\nmaintainer: y <y@z>\n";
    let range = text_range_to_lsp_range(text, TextRange { start: 10, end: 20 });
    assert_eq!(range, Range { start: pos(1, 0), end: pos(1, 10) });
    assert_eq!(lsp_range_to_text_range(text, range), TextRange { start: 10, end: 20 });
    let far = Range { start: pos(0, 50), end: pos(9, 0) };
    assert_eq!(lsp_range_to_text_range(text, far), TextRange { start: 9, end: 30 });
}

#[test]
fn spans_overlap_and_meet() {
    let a = TextRange { start: 0, end: 6 };
    assert!(a.intersects(&TextRange { start: 5, end: 9 }));
    assert!(!a.intersects(&TextRange { start: 6, end: 9 }));
    assert!(!a.intersects(&TextRange { start: 0, end: 0 }));
    assert!(a.intersects(&TextRange { start: 3, end: 3 }));
    assert!(a.meets(&TextRange { start: 6, end: 9 }));
    assert!(a.meets(&TextRange { start: 0, end: 0 }));
    assert!(!a.meets(&TextRange { start: 7, end: 9 }));
}

#[test]
fn position_counts_line_feeds_and_utf16_units() {
    let texts = [
        "Source: x\nMaintainer: y\n",
        "a\u{00E9}\u{20AC}\u{1F600}b\n\u{1F600}\u{1F600}c\n\nz",
        "\u{10FFFF}\r\n\u{FFFF}\u{10000}",
    ];
    for text in texts {
        for offset in 0..=text.len() {
            if text.is_char_boundary(offset) {
                let before = &text[..offset];
                let line = before.matches('\n').count() as u32;
                let begin = before.rfind('\n').map(|at| at + 1).unwrap_or(0);
                let character = before[begin..].encode_utf16().count() as u32;
                assert_eq!(offset_to_position(text, offset as u32), pos(line, character));
            }
        }
    }
}

#[test]
fn positions_keep_the_order_of_offsets() {
    let text = "a\u{1F600}\n\nbc\r\n\u{00E9}";
    let mut last = pos(0, 0);
    for offset in 0..=(text.len() as u32 + 2) {
        let here = offset_to_position(text, offset);
        assert!((last.line, last.character) <= (here.line, here.character));
        last = here;
    }
}
