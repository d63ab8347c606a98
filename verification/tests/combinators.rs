//! The grammar of type expressions once more, put together from parser
//! combinators, and the parser held against it.

use chumsky::error::Rich;
use chumsky::extra;
use chumsky::input::{Input, MappedInput};
use chumsky::primitive::{any, choice};
use chumsky::recursive::recursive;
use chumsky::{IterParser, Parser};

use raph::syntax::error::ParseErrorKind;
use raph::syntax::parser::parse;
use raph::syntax::token::{Token, TokenKind};
use raph::syntax::tree::{Binder, TypeExpr};
use raph::syntax::{SourcePos, SourceSpan};

#[derive(Clone, Copy, Debug, PartialEq, Eq)]
struct Place {
    file: usize,
    start: usize,
    end: usize,
}

impl chumsky::span::Span for Place {
    type Offset = usize;
    type Context = usize;

    fn new(context: Self::Context, range: core::ops::Range<Self::Offset>) -> Self {
        Place { file: context, start: range.start, end: range.end }
    }

    fn context(&self) -> Self::Context {
        self.file
    }

    fn start(&self) -> Self::Offset {
        self.start
    }

    fn end(&self) -> Self::Offset {
        self.end
    }
}

type Tokens<'a> = MappedInput<'a, Token<'a>, Place, &'a [(Token<'a>, Place)]>;

type Failure<'a> = extra::Err<Rich<'a, Token<'a>, Place>>;

fn just_token<'a>(kind: TokenKind) -> impl Parser<'a, Tokens<'a>, Token<'a>, Failure<'a>> + Clone {
    any().filter(move |t: &Token| t.kind == kind)
}

fn text(lexeme: &[u8]) -> String {
    String::from_utf8_lossy(lexeme).into_owned()
}

fn type_expr<'a>() -> impl Parser<'a, Tokens<'a>, TypeExpr, Failure<'a>> {
    recursive(|type_expr| {
        let atom = type_atom(type_expr.clone());

        let app = atom.clone().foldl(atom.clone().repeated(), |lhs, rhs| {
            TypeExpr::App(Box::new(lhs), Box::new(rhs))
        });

        let explicit_binder = just_token(TokenKind::LParen)
            .ignore_then(just_token(TokenKind::LowerIdentifier))
            .then_ignore(just_token(TokenKind::Colon))
            .then(type_expr.clone())
            .then_ignore(just_token(TokenKind::RParen))
            .map(|(name, ty)| Binder::Explicit(text(name.lexeme), Box::new(ty)));

        let implicit_binder = just_token(TokenKind::LBrace)
            .ignore_then(just_token(TokenKind::LowerIdentifier))
            .then_ignore(just_token(TokenKind::Colon))
            .then(type_expr.clone())
            .then_ignore(just_token(TokenKind::RBrace))
            .map(|(name, ty)| Binder::Implicit(text(name.lexeme), Box::new(ty)));

        let instance_binder = just_token(TokenKind::LBracket)
            .ignore_then(just_token(TokenKind::LowerIdentifier))
            .then_ignore(just_token(TokenKind::Colon))
            .then(type_expr.clone())
            .then_ignore(just_token(TokenKind::RBracket))
            .map(|(name, ty)| Binder::Instance(text(name.lexeme), Box::new(ty)));

        let binder = choice((explicit_binder, implicit_binder, instance_binder));

        let pi = binder
            .clone()
            .then_ignore(just_token(TokenKind::Arrow))
            .then(type_expr.clone())
            .map(|(binder, body)| TypeExpr::Pi(binder, Box::new(body)));

        let sigma = binder
            .then_ignore(just_token(TokenKind::Product))
            .then(type_expr.clone())
            .map(|(binder, body)| TypeExpr::Sigma(binder, Box::new(body)));

        let arrow_or_product = app.clone().foldl(
            choice((
                just_token(TokenKind::Arrow).to(true),
                just_token(TokenKind::Product).to(false),
            ))
            .then(app.clone())
            .repeated(),
            |lhs, (is_arrow, rhs)| {
                if is_arrow {
                    TypeExpr::Arrow(Box::new(lhs), Box::new(rhs))
                } else {
                    TypeExpr::Sigma(
                        Binder::Explicit(String::from("_"), Box::new(lhs)),
                        Box::new(rhs),
                    )
                }
            },
        );

        choice((pi, sigma, arrow_or_product))
    })
}

fn type_atom<'a>(
    type_expr: impl Parser<'a, Tokens<'a>, TypeExpr, Failure<'a>> + Clone,
) -> impl Parser<'a, Tokens<'a>, TypeExpr, Failure<'a>> + Clone {
    let var = just_token(TokenKind::LowerIdentifier).map(|t| TypeExpr::Var(text(t.lexeme)));

    let constructor =
        just_token(TokenKind::UpperIdentifier).map(|t| TypeExpr::Constructor(text(t.lexeme)));

    let number = just_token(TokenKind::Number).map(|t| {
        let s = text(t.lexeme);
        let n = s.parse::<u64>().unwrap_or(0);
        TypeExpr::Nat(n)
    });

    let string = just_token(TokenKind::String).map(|t| {
        let s = text(t.lexeme);
        let inner = if s.len() >= 2 { &s[1..s.len() - 1] } else { &s };
        TypeExpr::String(String::from(inner))
    });

    let tuple_or_grouped = just_token(TokenKind::LParen)
        .ignore_then(type_expr.clone().separated_by(just_token(TokenKind::Comma)).collect::<Vec<_>>())
        .then_ignore(just_token(TokenKind::RParen))
        .map(|items| {
            if items.len() == 1 {
                items.into_iter().next().unwrap()
            } else {
                TypeExpr::Tuple(items)
            }
        });

    choice((var, constructor, number, string, tuple_or_grouped))
}

const KINDS: [TokenKind; 15] = [
    TokenKind::Number,
    TokenKind::String,
    TokenKind::LowerIdentifier,
    TokenKind::UpperIdentifier,
    TokenKind::LParen,
    TokenKind::RParen,
    TokenKind::LBrace,
    TokenKind::RBrace,
    TokenKind::LBracket,
    TokenKind::RBracket,
    TokenKind::Colon,
    TokenKind::Comma,
    TokenKind::Arrow,
    TokenKind::Product,
    TokenKind::EndOfFile,
];

fn lexeme(kind: TokenKind, variant: usize) -> &'static [u8] {
    match kind {
        TokenKind::Number => [&b"0"[..], b"42", b"18446744073709551616", b"+7"][variant % 4],
        TokenKind::String => {
            [&b"\"\""[..], b"\"text\"", b"\"", b"\"open", "\"h\u{e9}llo \u{20ac}\"".as_bytes()][variant % 5]
        }
        TokenKind::LowerIdentifier => {
            [&b"x"[..], b"y", b"long_name", b"_", "na\u{ef}ve".as_bytes(), &[0x61, 0xff, 0x62]][variant % 6]
        }
        TokenKind::UpperIdentifier => [&b"Nat"[..], b"Type", b"T", b"Vec"][variant % 4],
        TokenKind::LParen => b"(",
        TokenKind::RParen => b")",
        TokenKind::LBrace => b"{",
        TokenKind::RBrace => b"}",
        TokenKind::LBracket => b"[",
        TokenKind::RBracket => b"]",
        TokenKind::Colon => b":",
        TokenKind::Comma => b",",
        TokenKind::Arrow => b"->",
        TokenKind::Product => b"*",
        TokenKind::EndOfFile => b"",
    }
}

fn position(offset: usize) -> SourcePos {
    SourcePos { file_index: 0, line: 1, column: offset + 1, byte_offset: offset }
}

fn span(place: Place) -> SourceSpan {
    SourceSpan { start: position(place.start), end: position(place.end) }
}

/// Parses the tokens of the kinds `kinds` both ways and compares what
/// comes out: the tree, and of the error the kind, the token found and
/// the span.
fn compare(kinds: &[TokenKind]) {
    let mut offset = 0;
    let mut marked: Vec<(Token<'static>, Place)> = Vec::new();
    for (i, kind) in kinds.iter().enumerate() {
        let text = lexeme(*kind, i);
        let place = Place { file: 0, start: offset, end: offset + text.len() };
        marked.push((Token { lexeme: text, kind: *kind, span: span(place) }, place));
        offset += text.len() + 1;
    }
    let end = Place { file: 0, start: offset, end: offset };

    let (wanted, wanted_errors) =
        type_expr().parse(marked[..].split_token_span(end)).into_output_errors();

    let paired: Vec<(Token<'static>, SourceSpan)> =
        marked.iter().map(|(token, place)| (*token, span(*place))).collect();
    let (tree, errors) = parse(&paired, span(end));

    assert_eq!(tree, wanted, "{:?}", kinds);
    assert_eq!(errors.len(), wanted_errors.len(), "{:?}", kinds);
    for (error, wanted) in errors.iter().zip(wanted_errors.iter()) {
        let found = wanted.found().map(|t| t.kind);
        assert_eq!(error.found, found, "{:?}", kinds);
        assert_eq!(error.span, span(*wanted.span()), "{:?}", kinds);
        let kind = if found.is_none() {
            ParseErrorKind::UnexpectedEndOfInput
        } else {
            ParseErrorKind::UnexpectedToken
        };
        assert_eq!(error.kind, kind, "{:?}", kinds);
        assert!(!error.expected.is_empty(), "{:?}", kinds);
        match found {
            Some(TokenKind::EndOfFile) | None => {}
            Some(found) => assert!(!error.expected.contains(&found), "{:?}", kinds),
        }
    }
}

fn all_sequences(length: usize) {
    let mut digits = vec![0usize; length];
    loop {
        let kinds: Vec<TokenKind> = digits.iter().map(|d| KINDS[*d]).collect();
        compare(&kinds);
        let mut place = 0;
        loop {
            if place == length {
                return;
            }
            digits[place] += 1;
            if digits[place] < KINDS.len() {
                break;
            }
            digits[place] = 0;
            place += 1;
        }
    }
}

#[test]
fn the_parser_agrees_with_the_combinators_on_every_short_input() {
    for length in 0..=3 {
        all_sequences(length);
    }
}

#[test]
fn the_parser_agrees_with_the_combinators_on_every_input_of_four_tokens() {
    all_sequences(4);
}

struct Dice(u64);

impl Dice {
    fn roll(&mut self, sides: usize) -> usize {
        self.0 = self.0.wrapping_mul(6364136223846793005).wrapping_add(1442695040888963407);
        ((self.0 >> 33) as usize) % sides
    }
}

#[test]
fn the_parser_agrees_with_the_combinators_on_random_inputs() {
    let mut dice = Dice(2024);
    for _ in 0..4000 {
        let length = 5 + dice.roll(10);
        let kinds: Vec<TokenKind> = (0..length).map(|_| KINDS[dice.roll(KINDS.len())]).collect();
        compare(&kinds);
    }
}

/// Writes a random type expression as tokens, with a wrong token thrown
/// in now and then.
fn scribble(dice: &mut Dice, depth: usize, out: &mut Vec<TokenKind>) {
    if dice.roll(40) == 0 {
        out.push(KINDS[dice.roll(KINDS.len())]);
    }
    let choice = if depth == 0 { dice.roll(4) } else { dice.roll(12) };
    match choice {
        0 => out.push(TokenKind::LowerIdentifier),
        1 => out.push(TokenKind::UpperIdentifier),
        2 => out.push(TokenKind::Number),
        3 => out.push(TokenKind::String),
        4 | 5 => {
            scribble(dice, depth - 1, out);
            scribble(dice, depth - 1, out);
        }
        6 | 7 => {
            scribble(dice, depth - 1, out);
            out.push(if dice.roll(2) == 0 { TokenKind::Arrow } else { TokenKind::Product });
            scribble(dice, depth - 1, out);
        }
        8 => {
            out.push(TokenKind::LParen);
            let count = dice.roll(4);
            for i in 0..count {
                if i > 0 {
                    out.push(TokenKind::Comma);
                }
                scribble(dice, depth - 1, out);
            }
            out.push(TokenKind::RParen);
        }
        _ => {
            let (open, close) = [
                (TokenKind::LParen, TokenKind::RParen),
                (TokenKind::LBrace, TokenKind::RBrace),
                (TokenKind::LBracket, TokenKind::RBracket),
            ][dice.roll(3)];
            out.push(open);
            out.push(TokenKind::LowerIdentifier);
            out.push(TokenKind::Colon);
            scribble(dice, depth - 1, out);
            out.push(close);
            out.push(if dice.roll(2) == 0 { TokenKind::Arrow } else { TokenKind::Product });
            scribble(dice, depth - 1, out);
        }
    }
}

#[test]
fn the_parser_agrees_with_the_combinators_on_random_type_expressions() {
    let mut dice = Dice(7);
    let mut parsed = 0;
    for _ in 0..3000 {
        let mut kinds = Vec::new();
        scribble(&mut dice, 4, &mut kinds);
        if kinds.len() > 60 {
            continue;
        }
        compare(&kinds);
        let paired: Vec<(Token<'static>, SourceSpan)> = kinds
            .iter()
            .enumerate()
            .map(|(i, kind)| {
                let at = span(Place { file: 0, start: i, end: i + 1 });
                (Token { lexeme: lexeme(*kind, i), kind: *kind, span: at }, at)
            })
            .collect();
        if parse(&paired, span(Place { file: 0, start: 0, end: 0 })).0.is_some() {
            parsed += 1;
        }
    }
    assert!(parsed > 1500);
}
