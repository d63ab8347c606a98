use raph::syntax::lexer::Lexer;
use raph::syntax::token::{LexError, LexErrorKind, Token, TokenKind};
use raph::syntax::{SourceFile, SourcePos, SourceSpan};

fn file(source: &[u8]) -> SourceFile<'_> {
    assert!(source.len() < usize::MAX);
    SourceFile { id: 0, name: "test", source, package: None }
}

fn all<'a>(source_file: &'a SourceFile<'a>) -> Vec<Result<Token<'a>, LexError<'a>>> {
    let mut lexer = Lexer::new(source_file);
    let mut items = Vec::new();
    while let Some(item) = lexer.next() {
        items.push(item);
    }
    assert_eq!(lexer.cursor().byte_offset, source_file.source.len());
    assert!(lexer.next().is_none());
    items
}

fn pos(line: usize, column: usize, byte_offset: usize) -> SourcePos {
    SourcePos { file_index: 0, line, column, byte_offset }
}

fn span_of(item: &Result<Token<'_>, LexError<'_>>) -> SourceSpan {
    match item {
        Ok(token) => token.span,
        Err(error) => error.span,
    }
}

fn lexeme_of<'a>(item: &Result<Token<'a>, LexError<'a>>) -> &'a [u8] {
    match item {
        Ok(token) => token.lexeme,
        Err(error) => error.lexeme,
    }
}

#[test]
fn empty_source_yields_nothing() {
    let source_file = file(b"");
    assert!(all(&source_file).is_empty());
}

#[test]
fn blanks_alone_yield_nothing_and_move_the_cursor_to_the_end() {
    let source_file = file(b" \t\r\n  \n");
    let mut lexer = Lexer::new(&source_file);
    assert!(lexer.next().is_none());
    assert_eq!(lexer.cursor(), pos(3, 1, 7));
}

#[test]
fn a_lexer_starts_at_the_start_of_its_file() {
    let source_file = SourceFile { id: 12, name: "m", source: b"1", package: Some("p") };
    let lexer = Lexer::new(&source_file);
    assert_eq!(lexer.cursor(), SourcePos { file_index: 12, line: 1, column: 1, byte_offset: 0 });
}

#[test]
fn a_number_is_a_maximal_run_of_digits() {
    let source_file = file(b"  1234 56");
    let items = all(&source_file);
    assert_eq!(
        items,
        vec![
            Ok(Token {
                lexeme: b"1234",
                kind: TokenKind::Number,
                span: SourceSpan { start: pos(1, 3, 2), end: pos(1, 7, 6) },
            }),
            Ok(Token {
                lexeme: b"56",
                kind: TokenKind::Number,
                span: SourceSpan { start: pos(1, 8, 7), end: pos(1, 10, 9) },
            }),
        ]
    );
}

#[test]
fn a_string_runs_to_the_next_quote() {
    let source_file = file(b"\"ab c\"\"\"7");
    let items = all(&source_file);
    assert_eq!(
        items,
        vec![
            Ok(Token {
                lexeme: b"\"ab c\"",
                kind: TokenKind::String,
                span: SourceSpan { start: pos(1, 1, 0), end: pos(1, 7, 6) },
            }),
            Ok(Token {
                lexeme: b"\"\"",
                kind: TokenKind::String,
                span: SourceSpan { start: pos(1, 7, 6), end: pos(1, 9, 8) },
            }),
            Ok(Token {
                lexeme: b"7",
                kind: TokenKind::Number,
                span: SourceSpan { start: pos(1, 9, 8), end: pos(1, 10, 9) },
            }),
        ]
    );
}

#[test]
fn a_string_without_its_closing_quote_runs_to_the_end() {
    let source_file = file(b"\"abc");
    let items = all(&source_file);
    assert_eq!(
        items,
        vec![Ok(Token {
            lexeme: b"\"abc",
            kind: TokenKind::String,
            span: SourceSpan { start: pos(1, 1, 0), end: pos(1, 5, 4) },
        })]
    );
    let lone = file(b"\"");
    assert_eq!(
        all(&lone),
        vec![Ok(Token {
            lexeme: b"\"",
            kind: TokenKind::String,
            span: SourceSpan { start: pos(1, 1, 0), end: pos(1, 2, 1) },
        })]
    );
}

#[test]
fn a_backslash_does_not_escape_a_quote() {
    let source_file = file(b"\"a\\\"b\"");
    let items = all(&source_file);
    assert_eq!(items.len(), 3);
    assert_eq!(lexeme_of(&items[0]), b"\"a\\\"");
    assert!(matches!(items[1], Ok(Token { kind: TokenKind::LowerIdentifier, lexeme: b"b", .. })));
    assert_eq!(lexeme_of(&items[2]), b"\"");
}

#[test]
fn inside_a_string_lines_and_characters_are_counted() {
    let source_file = file(b"\"a\nb\" 1");
    let items = all(&source_file);
    assert_eq!(span_of(&items[0]), SourceSpan { start: pos(1, 1, 0), end: pos(2, 3, 5) });
    assert_eq!(span_of(&items[1]), SourceSpan { start: pos(2, 4, 6), end: pos(2, 5, 7) });
    let open = file(b"1 \"\n\n");
    let items = all(&open);
    assert_eq!(span_of(&items[1]), SourceSpan { start: pos(1, 3, 2), end: pos(3, 1, 5) });
    let bytes = file(&[0x22, 0xc3, 0xa9, 0x22]);
    let items = all(&bytes);
    assert_eq!(span_of(&items[0]), SourceSpan { start: pos(1, 1, 0), end: pos(1, 4, 4) });
    let text = file("\"\u{20ac}\u{1f496}a\" 1".as_bytes());
    let items = all(&text);
    assert_eq!(span_of(&items[0]), SourceSpan { start: pos(1, 1, 0), end: pos(1, 6, 10) });
    assert_eq!(span_of(&items[1]), SourceSpan { start: pos(1, 7, 11), end: pos(1, 8, 12) });
}

#[test]
fn any_other_byte_is_reported_alone_and_lexing_goes_on() {
    let source_file = file(b"@1\n?");
    let items = all(&source_file);
    assert_eq!(
        items,
        vec![
            Err(LexError {
                kind: LexErrorKind::UnexpectedChar('@'),
                span: SourceSpan { start: pos(1, 1, 0), end: pos(1, 2, 1) },
                lexeme: b"@",
            }),
            Ok(Token {
                lexeme: b"1",
                kind: TokenKind::Number,
                span: SourceSpan { start: pos(1, 2, 1), end: pos(1, 3, 2) },
            }),
            Err(LexError {
                kind: LexErrorKind::UnexpectedChar('?'),
                span: SourceSpan { start: pos(2, 1, 3), end: pos(2, 2, 4) },
                lexeme: b"?",
            }),
        ]
    );
    for byte in [b'!', b'#', b'$', b'%', b'&', b'\'', b'+', b'.', b'/', b';', b'<', b'=', b'>',
        b'\\', b'^', b'`', b'|', b'~', 0x00, 0x7f, 0x80, 0x97, 0xc2, 0xff]
    {
        let source = [byte];
        let source_file = file(&source);
        let items = all(&source_file);
        assert_eq!(
            items,
            vec![Err(LexError {
                kind: LexErrorKind::UnexpectedChar(byte as char),
                span: SourceSpan { start: pos(1, 1, 0), end: pos(1, 2, 1) },
                lexeme: &source,
            })]
        );
    }
}

#[test]
fn every_sign_is_a_token_of_one_byte() {
    let source_file = file(b"(){}[]:,*");
    let items = all(&source_file);
    let kinds: Vec<TokenKind> = items.iter().map(|item| item.unwrap().kind).collect();
    assert_eq!(
        kinds,
        vec![
            TokenKind::LParen,
            TokenKind::RParen,
            TokenKind::LBrace,
            TokenKind::RBrace,
            TokenKind::LBracket,
            TokenKind::RBracket,
            TokenKind::Colon,
            TokenKind::Comma,
            TokenKind::Product,
        ]
    );
    for (i, item) in items.iter().enumerate() {
        assert_eq!(span_of(item), SourceSpan { start: pos(1, i + 1, i), end: pos(1, i + 2, i + 1) });
        assert_eq!(lexeme_of(item), &source_file.source[i..i + 1]);
    }
}

#[test]
fn an_opening_parenthesis_alone_is_one_token() {
    let source_file = file(b"(");
    let mut lexer = Lexer::new(&source_file);
    assert_eq!(
        lexer.next(),
        Some(Ok(Token {
            lexeme: &[0x28],
            kind: TokenKind::LParen,
            span: SourceSpan { start: pos(1, 1, 0), end: pos(1, 2, 1) },
        }))
    );
    assert_eq!(lexer.next(), None);
}

#[test]
fn a_hyphen_before_a_greater_sign_is_the_arrow() {
    let source_file = file(b"->-> - >->");
    let items = all(&source_file);
    assert_eq!(
        items,
        vec![
            Ok(Token {
                lexeme: b"->",
                kind: TokenKind::Arrow,
                span: SourceSpan { start: pos(1, 1, 0), end: pos(1, 3, 2) },
            }),
            Ok(Token {
                lexeme: b"->",
                kind: TokenKind::Arrow,
                span: SourceSpan { start: pos(1, 3, 2), end: pos(1, 5, 4) },
            }),
            Err(LexError {
                kind: LexErrorKind::UnexpectedChar('-'),
                span: SourceSpan { start: pos(1, 6, 5), end: pos(1, 7, 6) },
                lexeme: b"-",
            }),
            Err(LexError {
                kind: LexErrorKind::UnexpectedChar('>'),
                span: SourceSpan { start: pos(1, 8, 7), end: pos(1, 9, 8) },
                lexeme: b">",
            }),
            Ok(Token {
                lexeme: b"->",
                kind: TokenKind::Arrow,
                span: SourceSpan { start: pos(1, 9, 8), end: pos(1, 11, 10) },
            }),
        ]
    );
    let lone = file(b"-");
    assert!(matches!(all(&lone)[0], Err(LexError { kind: LexErrorKind::UnexpectedChar('-'), .. })));
}

#[test]
fn the_multiplication_sign_is_the_product_sign_and_takes_one_column() {
    let source_file = file("a \u{d7} b".as_bytes());
    let items = all(&source_file);
    assert_eq!(
        items,
        vec![
            Ok(Token {
                lexeme: b"a",
                kind: TokenKind::LowerIdentifier,
                span: SourceSpan { start: pos(1, 1, 0), end: pos(1, 2, 1) },
            }),
            Ok(Token {
                lexeme: &[0xc3, 0x97],
                kind: TokenKind::Product,
                span: SourceSpan { start: pos(1, 3, 2), end: pos(1, 4, 4) },
            }),
            Ok(Token {
                lexeme: b"b",
                kind: TokenKind::LowerIdentifier,
                span: SourceSpan { start: pos(1, 5, 5), end: pos(1, 6, 6) },
            }),
        ]
    );
    let cut = file(&[0xc3]);
    assert!(matches!(all(&cut)[0], Err(LexError { kind: LexErrorKind::UnexpectedChar('\u{c3}'), .. })));
}

#[test]
fn a_name_is_upper_or_lower_by_its_first_byte() {
    let source_file = file(b"x Nat long_name _ _x1 Vec2 aB Ab x' T_");
    let items = all(&source_file);
    let seen: Vec<(Result<TokenKind, LexErrorKind>, &[u8])> = items
        .iter()
        .map(|item| match item {
            Ok(token) => (Ok(token.kind), token.lexeme),
            Err(error) => (Err(error.kind), error.lexeme),
        })
        .collect();
    assert_eq!(
        seen,
        vec![
            (Ok(TokenKind::LowerIdentifier), &b"x"[..]),
            (Ok(TokenKind::UpperIdentifier), &b"Nat"[..]),
            (Ok(TokenKind::LowerIdentifier), &b"long_name"[..]),
            (Ok(TokenKind::LowerIdentifier), &b"_"[..]),
            (Ok(TokenKind::LowerIdentifier), &b"_x1"[..]),
            (Ok(TokenKind::UpperIdentifier), &b"Vec2"[..]),
            (Ok(TokenKind::LowerIdentifier), &b"aB"[..]),
            (Ok(TokenKind::UpperIdentifier), &b"Ab"[..]),
            (Ok(TokenKind::LowerIdentifier), &b"x"[..]),
            (Err(LexErrorKind::UnexpectedChar('\'')), &b"'"[..]),
            (Ok(TokenKind::UpperIdentifier), &b"T_"[..]),
        ]
    );
    assert_eq!(span_of(&items[2]), SourceSpan { start: pos(1, 7, 6), end: pos(1, 16, 15) });
}

#[test]
fn a_number_ends_where_a_name_begins() {
    let source_file = file(b"12ab 3_4 a1");
    let items = all(&source_file);
    let lexemes: Vec<&[u8]> = items.iter().map(lexeme_of).collect();
    assert_eq!(lexemes, vec![&b"12"[..], b"ab", b"3", b"_4", b"a1"]);
}

#[test]
fn a_byte_above_ascii_is_reported_as_the_character_with_its_number() {
    let source_file = file(&[0xc3, 0xa9]);
    let items = all(&source_file);
    assert_eq!(items.len(), 2);
    assert!(matches!(items[0], Err(LexError { kind: LexErrorKind::UnexpectedChar('\u{c3}'), .. })));
    assert!(matches!(items[1], Err(LexError { kind: LexErrorKind::UnexpectedChar('\u{a9}'), .. })));
    assert_eq!(lexeme_of(&items[0]), &[0xc3]);
}

#[test]
fn newlines_count_lines_and_reset_columns() {
    let source_file = file(b"1\n 22\r\n\t333");
    let items = all(&source_file);
    let spans: Vec<SourceSpan> = items.iter().map(span_of).collect();
    assert_eq!(
        spans,
        vec![
            SourceSpan { start: pos(1, 1, 0), end: pos(1, 2, 1) },
            SourceSpan { start: pos(2, 2, 3), end: pos(2, 4, 5) },
            SourceSpan { start: pos(3, 2, 8), end: pos(3, 5, 11) },
        ]
    );
}

#[test]
fn the_cursor_moves_forward_with_every_item() {
    let source = b" 12 \"s\" ab\n\n9 @ (x : Nat) -> \"open";
    let source_file = file(source);
    let mut lexer = Lexer::new(&source_file);
    let mut before = lexer.cursor().byte_offset;
    let mut last_end = 0;
    let mut count = 0;
    while let Some(item) = lexer.next() {
        let after = lexer.cursor().byte_offset;
        assert!(after > before);
        let span = span_of(&item);
        assert!(before <= span.start.byte_offset);
        assert!(span.start.byte_offset < span.end.byte_offset);
        assert_eq!(span.end, lexer.cursor());
        last_end = span.end.byte_offset;
        before = after;
        count += 1;
    }
    assert_eq!(count, 12);
    assert_eq!(last_end, source.len());
}

#[test]
fn the_last_token_ends_before_trailing_blanks() {
    let source_file = file(b"12 ");
    let items = all(&source_file);
    assert_eq!(items.len(), 1);
    assert_eq!(span_of(&items[0]).end.byte_offset, 2);
}

#[test]
fn lexemes_and_skipped_blanks_give_the_source_back() {
    for source in [
        &b""[..],
        b"   ",
        b"1",
        b" 12 \"s\" ab\n\n9 \"open",
        b"\t\"a\nb\"\r\n(x : Nat) -> Nat  ",
        "{a : Type} -> [e : Eq a] -> (n : Nat) \u{d7} Vec n a * (a, \"\u{e9}\") - > @".as_bytes(),
        &[0x31, 0xff, 0x20, 0x22, 0xc3, 0x28, 0x22, 0x0a, 0xc3, 0x97, 0xc3],
    ] {
        let source_file = file(source);
        let mut rebuilt: Vec<u8> = Vec::new();
        let mut at = 0;
        for item in all(&source_file) {
            let span = span_of(&item);
            let gap = &source[at..span.start.byte_offset];
            assert!(gap.iter().all(|b| matches!(b, b' ' | b'\t' | b'\r' | b'\n')));
            rebuilt.extend_from_slice(gap);
            assert_eq!(lexeme_of(&item), &source[span.start.byte_offset..span.end.byte_offset]);
            rebuilt.extend_from_slice(lexeme_of(&item));
            at = span.end.byte_offset;
        }
        let rest = &source[at..];
        assert!(rest.iter().all(|b| matches!(b, b' ' | b'\t' | b'\r' | b'\n')));
        rebuilt.extend_from_slice(rest);
        assert_eq!(rebuilt, source);
    }
}


fn blank_token() -> Token<'static> {
    Token {
        lexeme: b"",
        kind: TokenKind::EndOfFile,
        span: SourceSpan { start: pos(0, 0, 0), end: pos(0, 0, 0) },
    }
}

#[test]
fn read_all_fills_a_buffer_that_is_large_enough() {
    let source_file = file(b"1 \"two\" 3");
    let mut lexer = Lexer::new(&source_file);
    let mut buffer = [blank_token(); 5];
    let count = lexer.read_all(&mut buffer);
    assert_eq!(count, 3);
    assert_eq!(buffer[0].lexeme, b"1");
    assert_eq!(buffer[1].lexeme, b"\"two\"");
    assert_eq!(buffer[1].kind, TokenKind::String);
    assert_eq!(buffer[2].lexeme, b"3");
    assert_eq!(buffer[2].span, SourceSpan { start: pos(1, 9, 8), end: pos(1, 10, 9) });
    assert_eq!(buffer[3], blank_token());
    assert_eq!(buffer[4], blank_token());
    assert_eq!(lexer.cursor().byte_offset, 9);
    assert!(lexer.next().is_none());
}

#[test]
fn read_all_stops_when_the_buffer_is_full_and_loses_nothing() {
    let source_file = file(b"1 2 3 4");
    let mut lexer = Lexer::new(&source_file);
    let mut buffer = [blank_token(); 2];
    let count = lexer.read_all(&mut buffer);
    assert_eq!(count, 2);
    assert_eq!(buffer[0].lexeme, b"1");
    assert_eq!(buffer[1].lexeme, b"2");
    assert_eq!(lexer.cursor(), buffer[1].span.end);
    assert_eq!(lexer.cursor().byte_offset, 3);
    let count = lexer.read_all(&mut buffer);
    assert_eq!(count, 2);
    assert_eq!(buffer[0].lexeme, b"3");
    assert_eq!(buffer[1].lexeme, b"4");
    assert_eq!(lexer.read_all(&mut buffer), 0);
    assert_eq!(buffer[0].lexeme, b"3");
    assert!(lexer.next().is_none());
}

#[test]
fn read_all_passes_over_lexical_errors() {
    let source_file = file(b"1 @ 2");
    let mut lexer = Lexer::new(&source_file);
    let mut buffer = [blank_token(); 4];
    let count = lexer.read_all(&mut buffer);
    assert_eq!(count, 2);
    assert_eq!(buffer[0].lexeme, b"1");
    assert_eq!(buffer[1].lexeme, b"2");
    assert_eq!(buffer[1].span, SourceSpan { start: pos(1, 5, 4), end: pos(1, 6, 5) });
    assert_eq!(buffer[2], blank_token());
    assert_eq!(buffer[3], blank_token());
    assert_eq!(lexer.cursor().byte_offset, 5);
    assert!(lexer.next().is_none());

    let errors_only = file(b"@ # $ ");
    let mut lexer = Lexer::new(&errors_only);
    assert_eq!(lexer.read_all(&mut buffer), 0);
    assert_eq!(buffer[0].lexeme, b"1");
    assert_eq!(lexer.cursor().byte_offset, 6);

    let mixed = file(b"? a ? b ? c ?");
    let mut lexer = Lexer::new(&mixed);
    let mut two = [blank_token(); 2];
    assert_eq!(lexer.read_all(&mut two), 2);
    assert_eq!(two[0].lexeme, b"a");
    assert_eq!(two[1].lexeme, b"b");
    assert_eq!(lexer.cursor().byte_offset, 7);
    assert_eq!(lexer.read_all(&mut two), 1);
    assert_eq!(two[0].lexeme, b"c");
    assert_eq!(two[1].lexeme, b"b");
    assert_eq!(lexer.cursor().byte_offset, 13);
}

#[test]
fn read_all_into_an_empty_buffer_reads_nothing() {
    let source_file = file(b" 1 2");
    let mut lexer = Lexer::new(&source_file);
    let mut buffer: [Token<'_>; 0] = [];
    assert_eq!(lexer.read_all(&mut buffer), 0);
    assert_eq!(lexer.cursor(), pos(1, 1, 0));
}

#[test]
fn read_all_on_an_exhausted_lexer_stores_nothing() {
    let source_file = file(b"  ");
    let mut lexer = Lexer::new(&source_file);
    let mut buffer = [blank_token(); 2];
    assert_eq!(lexer.read_all(&mut buffer), 0);
    assert_eq!(buffer, [blank_token(); 2]);
    assert_eq!(lexer.cursor().byte_offset, 2);
}
