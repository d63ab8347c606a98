use std::cmp::Ordering;

use raph::syntax::{SourcePos, SourceSpan};

#[test]
fn start_of_file_is_line_one_column_one() {
    let pos = SourcePos::start_of_file(7);
    assert_eq!(pos.file_index, 7);
    assert_eq!(pos.line, 1);
    assert_eq!(pos.column, 1);
    assert_eq!(pos.byte_offset, 0);
}

#[test]
fn row_moves_one_column_and_one_byte() {
    let mut pos = SourcePos::start_of_file(0);
    pos.row();
    assert_eq!(pos, SourcePos { file_index: 0, line: 1, column: 2, byte_offset: 1 });
}

#[test]
fn newline_resets_the_column() {
    let mut pos = SourcePos { file_index: 3, line: 4, column: 17, byte_offset: 90 };
    pos.newline();
    assert_eq!(pos, SourcePos { file_index: 3, line: 5, column: 1, byte_offset: 91 });
}

#[test]
fn advance_by_char_counts_the_bytes_of_the_encoding() {
    for (c, width) in [('a', 1usize), ('\u{7f}', 1), ('\u{80}', 2), ('é', 2), ('\u{7ff}', 2),
        ('\u{800}', 3), ('€', 3), ('\u{ffff}', 3), ('\u{10000}', 4), ('💖', 4), ('\u{10ffff}', 4)]
    {
        let mut pos = SourcePos { file_index: 0, line: 2, column: 5, byte_offset: 10 };
        pos.advance_by_char(c);
        assert_eq!(c.len_utf8(), width);
        assert_eq!(pos, SourcePos { file_index: 0, line: 2, column: 6, byte_offset: 10 + width });
    }
}

#[test]
fn advance_by_char_moves_to_the_next_line_at_a_line_feed() {
    let mut pos = SourcePos::start_of_file(0);
    pos.row();
    pos.advance_by_char('\n');
    assert_eq!(pos, SourcePos { file_index: 0, line: 2, column: 1, byte_offset: 2 });
    pos.advance_by_char('\r');
    assert_eq!(pos, SourcePos { file_index: 0, line: 2, column: 2, byte_offset: 3 });
    pos.advance_by_char('\n');
    pos.advance_by_char('\n');
    assert_eq!(pos, SourcePos { file_index: 0, line: 4, column: 1, byte_offset: 5 });
    let mut stepped = SourcePos { file_index: 3, line: 7, column: 9, byte_offset: 40 };
    let mut jumped = stepped;
    stepped.newline();
    jumped.advance_by_char('\n');
    assert_eq!(stepped, jumped);
}

#[test]
fn rows_one_by_one_end_where_one_advance_ends() {
    for n in [0usize, 1, 2, 7, 100] {
        let mut stepped = SourcePos { file_index: 1, line: 3, column: 4, byte_offset: 50 };
        for _ in 0..n {
            stepped.row();
        }
        let mut jumped = SourcePos { file_index: 1, line: 3, column: 4, byte_offset: 50 };
        jumped.advance(n);
        assert_eq!(stepped, jumped);
        assert_eq!(jumped.column, 4 + n);
        assert_eq!(jumped.byte_offset, 50 + n);
    }
}

#[test]
fn byte_offset_is_the_sum_of_the_widths() {
    let mut pos = SourcePos::start_of_file(0);
    pos.row();
    pos.newline();
    pos.advance_by_char('€');
    pos.advance(4);
    pos.newline();
    assert_eq!(pos.byte_offset, 1 + 1 + 3 + 4 + 1);
    assert_eq!(pos.line, 3);
    assert_eq!(pos.column, 1);
}

#[test]
fn positions_are_ordered_by_byte_offset_alone() {
    let early = SourcePos { file_index: 9, line: 40, column: 40, byte_offset: 3 };
    let late = SourcePos { file_index: 0, line: 1, column: 1, byte_offset: 4 };
    let twin = SourcePos { file_index: 5, line: 2, column: 2, byte_offset: 3 };
    assert_eq!(early.partial_cmp(&late), Some(Ordering::Less));
    assert_eq!(late.partial_cmp(&early), Some(Ordering::Greater));
    assert_eq!(early.partial_cmp(&twin), Some(Ordering::Equal));
    assert!(early < late);
    assert!(late > twin);
    assert!(early <= twin && early >= twin);
    assert_ne!(early, twin);
}

#[test]
fn spans_compare_field_by_field() {
    let a = SourcePos::start_of_file(0);
    let mut b = a;
    b.advance(3);
    assert_eq!(SourceSpan { start: a, end: b }, SourceSpan { start: a, end: b });
    assert_ne!(SourceSpan { start: a, end: b }, SourceSpan { start: a, end: a });
}
