//! Errors of the syntactic stages.

use vstd::prelude::*;

use crate::syntax::token::TokenKind;
use crate::syntax::SourceSpan;

verus! {

/// What is wrong with a stretch of source, and where.
#[derive(Debug, Clone, Copy, PartialEq, Eq)]
pub struct SyntacticError<'a> {
    pub kind: SyntacticErrorKind,
    pub span: SourceSpan,
    pub lexeme: &'a [u8],
}

/// The ways in which a stretch of source can be wrong.
#[derive(Debug, Clone, Copy, PartialEq, Eq)]
pub enum SyntacticErrorKind {
    UnexpectedEndOfInput,
    InvalidToken,
    UnterminatedString,
    UnexpectedChar(char),
    ExpectedCharacter { expected: char, found: Option<char> },
}

/// A place where the parser could not go on: the span of the offending
/// token, the kinds that would have been accepted there, and the kind that
/// was found (none at the end of the input).
#[derive(Debug, Clone, PartialEq, Eq)]
pub struct ParseError {
    pub kind: ParseErrorKind,
    pub span: SourceSpan,
    pub expected: Vec<TokenKind>,
    pub found: Option<TokenKind>,
}

/// Whether the parser ran out of tokens or met a token it could not use.
#[derive(Debug, Clone, Copy, PartialEq, Eq, Structural)]
pub enum ParseErrorKind {
    UnexpectedEndOfInput,
    UnexpectedToken,
}

} // verus!
