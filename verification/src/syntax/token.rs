//! Tokens and lexical errors: what the lexer hands to the parser.

use vstd::prelude::*;

use crate::syntax::SourceSpan;

verus! {

/// A token: its kind, where it stands, and the bytes it was read from,
/// borrowed from the source.
#[derive(Debug, Clone, Copy, PartialEq, Eq)]
pub struct Token<'a> {
    pub lexeme: &'a [u8],
    pub kind: TokenKind,
    pub span: SourceSpan,
}

/// The kinds of token that the grammar knows.
#[derive(Debug, Clone, Copy, PartialEq, Eq, Structural)]
pub enum TokenKind {
    Number,
    String,
    LowerIdentifier,
    UpperIdentifier,
    LParen,
    RParen,
    LBrace,
    RBrace,
    LBracket,
    RBracket,
    Colon,
    Comma,
    Arrow,
    Product,
    EndOfFile,
}

/// A stretch of source that begins no token.
#[derive(Debug, Clone, Copy, PartialEq, Eq)]
pub struct LexError<'a> {
    pub kind: LexErrorKind,
    pub span: SourceSpan,
    pub lexeme: &'a [u8],
}

/// The ways in which a stretch of source can fail to be a token.
#[derive(Debug, Clone, Copy, PartialEq, Eq, Structural)]
pub enum LexErrorKind {
    UnexpectedChar(char),
}

/// A cursor into a slice of tokens.
#[derive(Debug, Clone, PartialEq, Eq)]
pub struct TokenStream<'a> {
    pub tokens: &'a [Token<'a>],
    pub position: usize,
}

} // verus!
