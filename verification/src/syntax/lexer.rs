//! The lexer: from the bytes of a source file to tokens and lexical errors.
//!
//! Blanks separate tokens. A token is a number, a run of decimal digits;
//! a string, from a quote to the next quote; a name, an ASCII letter or
//! an underscore followed by ASCII letters, digits and underscores, which
//! is an upper-case name where it begins with an upper-case letter and a
//! lower-case name otherwise; one of the signs `( ) { } [ ] : ,`; the
//! arrow `->`; or the product sign, written `*` or as the multiplication
//! sign U+00D7 (in UTF-8 the bytes C3 97). Any other byte is reported by
//! itself as a lexical error.

use vstd::prelude::*;
use vstd::slice::slice_subrange;

use crate::syntax::token::{LexError, LexErrorKind, Token, TokenKind};
use crate::syntax::{Position, SourceFile, SourcePos, SourceSpan, Span};

verus! {

/// Space, tab, carriage return and line feed separate tokens.
pub open spec fn is_blank(b: u8) -> bool {
    b == 0x20 || b == 0x09 || b == 0x0d || b == 0x0a
}

/// The ten decimal digits.
pub open spec fn is_digit(b: u8) -> bool {
    0x30 <= b <= 0x39
}

/// The letters `a` to `z`.
pub open spec fn is_lower(b: u8) -> bool {
    0x61 <= b <= 0x7a
}

/// The letters `A` to `Z`.
pub open spec fn is_upper(b: u8) -> bool {
    0x41 <= b <= 0x5a
}

/// The bytes that a name is made of: ASCII letters, digits and the
/// underscore.
pub open spec fn is_name_byte(b: u8) -> bool {
    is_lower(b) || is_upper(b) || is_digit(b) || b == 0x5f
}

/// The kind of the token that the byte `b` is by itself: one of the signs
/// `( ) { } [ ] : ,`, or `*` for the product.
pub open spec fn sign_kind(b: u8) -> Option<TokenKind> {
    if b == 0x28 {
        Some(TokenKind::LParen)
    } else if b == 0x29 {
        Some(TokenKind::RParen)
    } else if b == 0x7b {
        Some(TokenKind::LBrace)
    } else if b == 0x7d {
        Some(TokenKind::RBrace)
    } else if b == 0x5b {
        Some(TokenKind::LBracket)
    } else if b == 0x5d {
        Some(TokenKind::RBracket)
    } else if b == 0x3a {
        Some(TokenKind::Colon)
    } else if b == 0x2c {
        Some(TokenKind::Comma)
    } else if b == 0x2a {
        Some(TokenKind::Product)
    } else {
        None
    }
}

/// A byte that goes on with a character of several bytes in UTF-8.
pub open spec fn is_continuation(b: u8) -> bool {
    0x80 <= b <= 0xbf
}

/// The position after the byte `b`: a line feed leads to the next line, a
/// byte that goes on with a character takes no column of its own, and
/// any other byte takes one column. So every character of well-formed
/// UTF-8 takes one column, however many bytes it has.
pub open spec fn after_byte(pos: Position, b: u8) -> Position {
    if b == 0x0a {
        pos.newline()
    } else if is_continuation(b) {
        Position { byte_offset: pos.byte_offset + 1, ..pos }
    } else {
        pos.row()
    }
}

/// The position reached from `pos` by stepping over the blanks that begin
/// there.
pub open spec fn skip_blanks(src: Seq<u8>, pos: Position) -> Position
    decreases src.len() - pos.byte_offset,
{
    if pos.byte_offset < src.len() && is_blank(src[pos.byte_offset as int]) {
        skip_blanks(src, after_byte(pos, src[pos.byte_offset as int]))
    } else {
        pos
    }
}

/// The position reached from `pos` by stepping byte by byte up to the
/// offset `to`.
pub open spec fn walk(src: Seq<u8>, pos: Position, to: nat) -> Position
    decreases to - pos.byte_offset,
{
    if pos.byte_offset < to && pos.byte_offset < src.len() {
        walk(src, after_byte(pos, src[pos.byte_offset as int]), to)
    } else {
        pos
    }
}

/// The end of the longest run of digits that begins at `i`.
pub open spec fn digits_end(src: Seq<u8>, i: nat) -> nat
    decreases src.len() - i,
{
    if i < src.len() && is_digit(src[i as int]) {
        digits_end(src, i + 1)
    } else {
        i
    }
}

/// The end of the longest run of name bytes that begins at `i`.
pub open spec fn name_end(src: Seq<u8>, i: nat) -> nat
    decreases src.len() - i,
{
    if i < src.len() && is_name_byte(src[i as int]) {
        name_end(src, i + 1)
    } else {
        i
    }
}

/// The end of a string literal whose text begins at `i`, just behind the
/// opening quote: one past the next quote, or the end of the source where
/// no quote follows.
pub open spec fn string_end(src: Seq<u8>, i: nat) -> nat
    decreases src.len() - i,
{
    if i >= src.len() {
        i
    } else if src[i as int] == 0x22 {
        i + 1
    } else {
        string_end(src, i + 1)
    }
}

/// The token that begins at the offset `at`: its kind and the offset at
/// which it ends; or `None` where the byte at `at` begins no token.
///
/// A digit begins a number and a quote a string. An upper-case letter
/// begins an upper-case name; a lower-case letter or an underscore begins
/// a lower-case name; a name goes on as far as letters, digits and
/// underscores do. A hyphen begins the arrow where `>` follows it, and
/// nothing otherwise. The bytes C3 97, the multiplication sign U+00D7,
/// are the product sign, and so is `*`.
pub open spec fn token_at(src: Seq<u8>, at: nat) -> Option<(TokenKind, nat)> {
    let b = src[at as int];
    if is_digit(b) {
        Some((TokenKind::Number, digits_end(src, at)))
    } else if b == 0x22 {
        Some((TokenKind::String, string_end(src, at + 1)))
    } else if is_upper(b) {
        Some((TokenKind::UpperIdentifier, name_end(src, at)))
    } else if is_name_byte(b) {
        Some((TokenKind::LowerIdentifier, name_end(src, at)))
    } else if b == 0x2d && at + 1 < src.len() && src[at + 1 as int] == 0x3e {
        Some((TokenKind::Arrow, at + 2))
    } else if b == 0xc3 && at + 1 < src.len() && src[at + 1 as int] == 0x97 {
        Some((TokenKind::Product, at + 2))
    } else {
        match sign_kind(b) {
            Some(kind) => Some((kind, at + 1)),
            None => None,
        }
    }
}

/// The position at which a token of kind `kind` ends that begins at
/// `start` and ends at the offset `end`. Inside a string every line feed
/// leads to the next line and every other character takes one column;
/// the product sign of two bytes is one character and takes one column;
/// every other token is made of characters of one byte, each of which
/// takes one column.
pub open spec fn token_end(src: Seq<u8>, start: Position, kind: TokenKind, end: nat) -> Position {
    if kind == TokenKind::String {
        walk(src, start.row(), end)
    } else if kind == TokenKind::Product && end == start.byte_offset + 2 {
        start.wide(2)
    } else {
        start.advance((end - start.byte_offset) as nat)
    }
}

/// What one step of the lexer yields: a token kind or an error kind, and
/// the span it covers.
pub struct Step {
    pub kind: Result<TokenKind, LexErrorKind>,
    pub span: Span,
}

/// The step that the lexer takes from `pos`, or `None` where only blanks
/// are left: the token that begins behind the blanks, or the one byte
/// there that begins none.
pub open spec fn step_at(src: Seq<u8>, pos: Position) -> Option<Step> {
    let start = skip_blanks(src, pos);
    let at = start.byte_offset;
    if at >= src.len() {
        None
    } else {
        match token_at(src, at) {
            Some((kind, end)) => Some(
                Step {
                    kind: Ok(kind),
                    span: Span { start, end: token_end(src, start, kind, end) },
                },
            ),
            None => Some(
                Step {
                    kind: Err(LexErrorKind::UnexpectedChar(src[at as int] as char)),
                    span: Span { start, end: start.row() },
                },
            ),
        }
    }
}

/// The bytes of `src` that `span` covers.
pub open spec fn text_of(src: Seq<u8>, span: Span) -> Seq<u8> {
    src.subrange(span.start.byte_offset as int, span.end.byte_offset as int)
}

/// `item` is what the step `step` over `src` yields: the same kind, the
/// same span, and as lexeme the bytes under the span.
pub open spec fn yields(item: Result<Token, LexError>, src: Seq<u8>, step: Step) -> bool {
    match item {
        Ok(token) => {
            &&& step.kind == Ok::<TokenKind, LexErrorKind>(token.kind)
            &&& token.span@ == step.span
            &&& token.lexeme@ == text_of(src, step.span)
        },
        Err(error) => {
            &&& step.kind == Err::<TokenKind, LexErrorKind>(error.kind)
            &&& error.span@ == step.span
            &&& error.lexeme@ == text_of(src, step.span)
        },
    }
}

/// Skipping blanks moves forward, stays inside the source, and stops at a
/// byte that is not blank.
pub proof fn lemma_skip_blanks(src: Seq<u8>, pos: Position)
    requires
        pos.byte_offset <= src.len(),
    ensures
        pos.byte_offset <= skip_blanks(src, pos).byte_offset <= src.len(),
        skip_blanks(src, pos).file_index == pos.file_index,
        skip_blanks(src, pos).byte_offset < src.len() ==> !is_blank(
            src[skip_blanks(src, pos).byte_offset as int],
        ),
        forall|k: int|
            pos.byte_offset <= k < skip_blanks(src, pos).byte_offset ==> is_blank(
                #[trigger] src[k],
            ),
        skip_blanks(src, pos).line - pos.line <= skip_blanks(src, pos).byte_offset
            - pos.byte_offset,
        skip_blanks(src, pos).column <= pos.column + skip_blanks(src, pos).byte_offset
            - pos.byte_offset,
        skip_blanks(src, pos).line >= pos.line,
    decreases src.len() - pos.byte_offset,
{
    if pos.byte_offset < src.len() && is_blank(src[pos.byte_offset as int]) {
        lemma_skip_blanks(src, after_byte(pos, src[pos.byte_offset as int]));
    }
}

/// Walking up to an offset inside the source ends at that offset, in the
/// same file, and adds no more lines and columns than bytes.
pub proof fn lemma_walk(src: Seq<u8>, pos: Position, to: nat)
    requires
        pos.byte_offset <= to <= src.len(),
    ensures
        walk(src, pos, to).byte_offset == to,
        walk(src, pos, to).file_index == pos.file_index,
        pos.line <= walk(src, pos, to).line <= pos.line + to - pos.byte_offset,
        walk(src, pos, to).column <= pos.column + to - pos.byte_offset,
    decreases to - pos.byte_offset,
{
    if pos.byte_offset < to {
        lemma_walk(src, after_byte(pos, src[pos.byte_offset as int]), to);
    }
}

/// A run of digits is made of digits, and what follows it is none.
pub proof fn lemma_digits_end(src: Seq<u8>, i: nat)
    requires
        i <= src.len(),
    ensures
        i <= digits_end(src, i) <= src.len(),
        forall|k: int| i <= k < digits_end(src, i) ==> is_digit(#[trigger] src[k]),
        digits_end(src, i) < src.len() ==> !is_digit(src[digits_end(src, i) as int]),
        i < src.len() && is_digit(src[i as int]) ==> i < digits_end(src, i),
    decreases src.len() - i,
{
    if i < src.len() && is_digit(src[i as int]) {
        lemma_digits_end(src, i + 1);
    }
}

/// A name is made of name bytes, and what follows it is none.
pub proof fn lemma_name_end(src: Seq<u8>, i: nat)
    requires
        i <= src.len(),
    ensures
        i <= name_end(src, i) <= src.len(),
        forall|k: int| i <= k < name_end(src, i) ==> is_name_byte(#[trigger] src[k]),
        name_end(src, i) < src.len() ==> !is_name_byte(src[name_end(src, i) as int]),
        i < src.len() && is_name_byte(src[i as int]) ==> i < name_end(src, i),
    decreases src.len() - i,
{
    if i < src.len() && is_name_byte(src[i as int]) {
        lemma_name_end(src, i + 1);
    }
}

/// A string literal holds no quote before its last byte, and ends in a
/// quote unless the source ends first.
pub proof fn lemma_string_end(src: Seq<u8>, i: nat)
    requires
        i <= src.len(),
    ensures
        i <= string_end(src, i) <= src.len(),
        forall|k: int| i <= k < string_end(src, i) - 1 ==> #[trigger] src[k] != 0x22,
        string_end(src, i) > i ==> (src[string_end(src, i) - 1] == 0x22 || string_end(src, i)
            == src.len()),
        string_end(src, i) == i ==> i == src.len(),
    decreases src.len() - i,
{
    if i < src.len() && src[i as int] != 0x22 {
        lemma_string_end(src, i + 1);
    }
}

/// A token takes up at least one byte and ends inside the source, and the
/// position at its end has the offset of its end, in the same file, with
/// no more lines and columns added than bytes.
pub proof fn lemma_token_at(src: Seq<u8>, start: Position)
    requires
        start.byte_offset < src.len(),
    ensures
        token_at(src, start.byte_offset) matches Some((kind, end)) ==> {
            &&& start.byte_offset < end <= src.len()
            &&& token_end(src, start, kind, end).byte_offset == end
            &&& token_end(src, start, kind, end).file_index == start.file_index
            &&& start.line <= token_end(src, start, kind, end).line <= start.line + end
                - start.byte_offset
            &&& token_end(src, start, kind, end).column <= start.column + end - start.byte_offset
        },
{
    let at = start.byte_offset;
    lemma_digits_end(src, at);
    lemma_name_end(src, at);
    lemma_string_end(src, at + 1);
    if src[at as int] == 0x22 {
        lemma_walk(src, start.row(), string_end(src, at + 1));
    }
}

/// Every step moves the cursor forward and stays inside the source.
pub proof fn lemma_step_advances(src: Seq<u8>, pos: Position)
    requires
        pos.byte_offset <= src.len(),
    ensures
        step_at(src, pos) matches Some(step) ==> {
            &&& step.span.start == skip_blanks(src, pos)
            &&& pos.byte_offset <= step.span.start.byte_offset
            &&& step.span.start.byte_offset < step.span.end.byte_offset
            &&& step.span.end.byte_offset <= src.len()
            &&& !is_blank(src[step.span.start.byte_offset as int])
        },
        step_at(src, pos) is None ==> skip_blanks(src, pos).byte_offset == src.len(),
{
    lemma_skip_blanks(src, pos);
    let start = skip_blanks(src, pos);
    if start.byte_offset < src.len() {
        lemma_token_at(src, start);
    }
}

/// All the steps that the lexer takes from `pos` to the end of the source,
/// in order.
pub open spec fn steps_from(src: Seq<u8>, pos: Position) -> Seq<Step>
    decreases src.len() - pos.byte_offset,
    when pos.byte_offset <= src.len()
{
    match step_at(src, pos) {
        None => Seq::empty(),
        Some(step) => {
            proof {
                lemma_step_advances(src, pos);
            }
            seq![step] + steps_from(src, step.span.end)
        },
    }
}

/// Where the cursor stands after `n` calls of [`Lexer::next`] from `pos`.
pub open spec fn cursor_after(src: Seq<u8>, pos: Position, n: nat) -> Position
    decreases n,
{
    if n == 0 {
        pos
    } else {
        match step_at(src, pos) {
            None => skip_blanks(src, pos),
            Some(step) => cursor_after(src, step.span.end, (n - 1) as nat),
        }
    }
}

/// The text of `src` from offset `from` on, put together again from the
/// steps `steps`: before each lexeme the bytes that were skipped, and
/// behind the last one what is left of the source.
pub open spec fn reassemble(src: Seq<u8>, from: nat, steps: Seq<Step>) -> Seq<u8>
    decreases steps.len(),
{
    if steps.len() == 0 {
        src.subrange(from as int, src.len() as int)
    } else {
        src.subrange(from as int, steps[0].span.start.byte_offset as int) + text_of(
            src,
            steps[0].span,
        ) + reassemble(src, steps[0].span.end.byte_offset, steps.drop_first())
    }
}

/// The offset at which step `i` of `steps` begins to skip blanks: the end
/// of the step before it, or `from` for the first.
pub open spec fn gap_start(from: nat, steps: Seq<Step>, i: int) -> nat {
    if i == 0 {
        from
    } else {
        steps[i - 1].span.end.byte_offset
    }
}

/// Successive steps move strictly forward: each begins at or behind the
/// end of the one before it, and ends behind its own beginning.
pub proof fn lemma_steps_increase(src: Seq<u8>, pos: Position, i: int)
    requires
        pos.byte_offset <= src.len(),
        0 <= i < steps_from(src, pos).len(),
    ensures
        gap_start(pos.byte_offset, steps_from(src, pos), i) <= steps_from(
            src,
            pos,
        )[i].span.start.byte_offset,
        steps_from(src, pos)[i].span.start.byte_offset < steps_from(
            src,
            pos,
        )[i].span.end.byte_offset,
        steps_from(src, pos)[i].span.end.byte_offset <= src.len(),
        forall|k: int|
            gap_start(pos.byte_offset, steps_from(src, pos), i) <= k < steps_from(
                src,
                pos,
            )[i].span.start.byte_offset ==> is_blank(#[trigger] src[k]),
    decreases i,
{
    lemma_step_advances(src, pos);
    lemma_skip_blanks(src, pos);
    let step = step_at(src, pos)->Some_0;
    if i > 0 {
        lemma_steps_increase(src, step.span.end, i - 1);
        let rest = steps_from(src, step.span.end);
        assert(steps_from(src, pos)[i] == rest[i - 1]);
        if i > 1 {
            assert(steps_from(src, pos)[i - 1] == rest[i - 2]);
        }
    }
}

/// Where lexing yields anything and the source does not end in a blank,
/// the last step ends at the end of the source.
pub proof fn lemma_last_step_ends_source(src: Seq<u8>, pos: Position)
    requires
        pos.byte_offset <= src.len(),
        steps_from(src, pos).len() > 0,
        !is_blank(src.last()),
    ensures
        steps_from(src, pos).last().span.end.byte_offset == src.len(),
    decreases src.len() - pos.byte_offset,
{
    lemma_step_advances(src, pos);
    let step = step_at(src, pos)->Some_0;
    let rest = steps_from(src, step.span.end);
    if rest.len() == 0 {
        lemma_skip_blanks(src, step.span.end);
        if step.span.end.byte_offset < src.len() {
            assert(is_blank(src[src.len() - 1]));
        }
    } else {
        lemma_last_step_ends_source(src, step.span.end);
        assert(steps_from(src, pos).last() == rest.last());
    }
}

/// The lexemes of all the steps, each behind the blanks that were skipped
/// before it, followed by what is left behind the last, are the source
/// again; and what is left behind the last step is blank.
pub proof fn lemma_reassemble(src: Seq<u8>, pos: Position)
    requires
        pos.byte_offset <= src.len(),
    ensures
        reassemble(src, pos.byte_offset, steps_from(src, pos)) == src.subrange(
            pos.byte_offset as int,
            src.len() as int,
        ),
        forall|k: int|
            gap_start(pos.byte_offset, steps_from(src, pos), steps_from(src, pos).len() as int)
                <= k < src.len() ==> is_blank(#[trigger] src[k]),
    decreases src.len() - pos.byte_offset,
{
    lemma_step_advances(src, pos);
    lemma_skip_blanks(src, pos);
    match step_at(src, pos) {
        None => {},
        Some(step) => {
            lemma_reassemble(src, step.span.end);
            let steps = steps_from(src, pos);
            let rest = steps_from(src, step.span.end);
            assert(steps.drop_first() == rest);
            if rest.len() > 0 {
                assert(steps[steps.len() - 1] == rest[rest.len() - 1]);
            }
        },
    }
}

/// The cursor after `m + n` steps is the cursor `n` steps after the one
/// reached in `m` steps.
pub proof fn lemma_cursor_after_split(src: Seq<u8>, pos: Position, m: nat, n: nat)
    requires
        pos.byte_offset <= src.len(),
    ensures
        cursor_after(src, pos, m + n) == cursor_after(src, cursor_after(src, pos, m), n),
        cursor_after(src, pos, m).byte_offset <= src.len(),
    decreases m,
{
    lemma_step_advances(src, pos);
    lemma_skip_blanks(src, pos);
    if m > 0 {
        match step_at(src, pos) {
            None => {
                lemma_cursor_at_end(src, skip_blanks(src, pos), n);
            },
            Some(step) => {
                lemma_cursor_after_split(src, step.span.end, (m - 1) as nat, n);
            },
        }
    }
}

/// At the end of the source the cursor no longer moves.
pub proof fn lemma_cursor_at_end(src: Seq<u8>, pos: Position, n: nat)
    requires
        pos.byte_offset == src.len(),
    ensures
        cursor_after(src, pos, n) == pos,
    decreases n,
{
    if n > 0 {
        lemma_cursor_at_end(src, pos, (n - 1) as nat);
    }
}

/// The steps of `steps` that are tokens, in order: the steps without the
/// lexical errors among them.
pub open spec fn token_steps(steps: Seq<Step>) -> Seq<Step>
    decreases steps.len(),
{
    if steps.len() == 0 {
        Seq::empty()
    } else if steps[0].kind is Ok {
        seq![steps[0]] + token_steps(steps.drop_first())
    } else {
        token_steps(steps.drop_first())
    }
}

/// The token steps are steps that are tokens, and there are no more of
/// them than steps.
pub proof fn lemma_token_steps(steps: Seq<Step>)
    ensures
        token_steps(steps).len() <= steps.len(),
        forall|i: int|
            0 <= i < token_steps(steps).len() ==> (#[trigger] token_steps(steps)[i]).kind is Ok,
        (forall|i: int| 0 <= i < steps.len() ==> (#[trigger] steps[i]).kind is Ok) ==> token_steps(
            steps,
        ) == steps,
    decreases steps.len(),
{
    if steps.len() > 0 {
        let rest = steps.drop_first();
        lemma_token_steps(rest);
        if forall|i: int| 0 <= i < steps.len() ==> (#[trigger] steps[i]).kind is Ok {
            assert forall|i: int| 0 <= i < rest.len() implies (#[trigger] rest[i]).kind is Ok by {
                assert(rest[i] == steps[i + 1]);
            }
            assert(seq![steps[0]] + rest == steps);
        }
    }
}

/// Finds the end of the run of digits that begins at `from`.
fn scan_digits(source: &[u8], from: usize) -> (end: usize)
    requires
        from <= source@.len(),
    ensures
        end == digits_end(source@, from as nat),
        from <= end <= source@.len(),
{
    let mut end: usize = from;
    while end < source.len() && source[end] >= 0x30 && source[end] <= 0x39
        invariant
            from <= end <= source@.len(),
            digits_end(source@, end as nat) == digits_end(source@, from as nat),
        decreases source@.len() - end,
    {
        end += 1;
    }
    end
}

/// Says whether a name can hold the byte `b`.
fn name_byte(b: u8) -> (holds: bool)
    ensures
        holds == is_name_byte(b),
{
    (b >= 0x61 && b <= 0x7a) || (b >= 0x41 && b <= 0x5a) || (b >= 0x30 && b <= 0x39) || b == 0x5f
}

/// Finds the end of the run of name bytes that begins at `from`.
fn scan_name(source: &[u8], from: usize) -> (end: usize)
    requires
        from <= source@.len(),
    ensures
        end == name_end(source@, from as nat),
        from <= end <= source@.len(),
{
    let mut end: usize = from;
    while end < source.len() && name_byte(source[end])
        invariant
            from <= end <= source@.len(),
            name_end(source@, end as nat) == name_end(source@, from as nat),
        decreases source@.len() - end,
    {
        end += 1;
    }
    end
}

/// The kind of the token that the byte `b` is by itself.
fn sign_of(b: u8) -> (kind: Option<TokenKind>)
    ensures
        kind == sign_kind(b),
{
    if b == 0x28 {
        Some(TokenKind::LParen)
    } else if b == 0x29 {
        Some(TokenKind::RParen)
    } else if b == 0x7b {
        Some(TokenKind::LBrace)
    } else if b == 0x7d {
        Some(TokenKind::RBrace)
    } else if b == 0x5b {
        Some(TokenKind::LBracket)
    } else if b == 0x5d {
        Some(TokenKind::RBracket)
    } else if b == 0x3a {
        Some(TokenKind::Colon)
    } else if b == 0x2c {
        Some(TokenKind::Comma)
    } else if b == 0x2a {
        Some(TokenKind::Product)
    } else {
        None
    }
}

/// A cursor over the bytes of one source file that yields its tokens one
/// by one. Each lexer owns its cursor; nothing is shared between lexers.
pub struct Lexer<'a> {
    source_file: &'a SourceFile<'a>,
    source_pos: SourcePos,
}

impl<'a> Lexer<'a> {
    #[verifier::type_invariant]
    spec fn inv(self) -> bool {
        &&& self.source_file.source@.len() < usize::MAX
        &&& self.source_pos.byte_offset <= self.source_file.source@.len()
        &&& self.source_pos.column <= self.source_pos.byte_offset + 1
        &&& self.source_pos.line <= self.source_pos.byte_offset + 1
    }

    /// The bytes that this lexer reads.
    pub closed spec fn source(&self) -> Seq<u8> {
        self.source_file.source@
    }

    /// Where the cursor stands.
    pub closed spec fn position(&self) -> Position {
        self.source_pos@
    }

    /// A lexer at the start of `source_file`. The source has to be shorter
    /// than the largest `usize`, so that the position behind its last
    /// byte can be counted.
    pub fn new(source_file: &'a SourceFile<'a>) -> (lexer: Self)
        requires
            source_file.source@.len() < usize::MAX,
        ensures
            lexer.source() == source_file.source@,
            lexer.position() == Position::start_of_file(source_file.id as nat),
            lexer.position().byte_offset <= lexer.source().len(),
    {
        Self { source_file, source_pos: SourcePos::start_of_file(source_file.id) }
    }

    /// Where the cursor stands.
    pub fn cursor(&self) -> (pos: SourcePos)
        ensures
            pos@ == self.position(),
            pos.byte_offset <= self.source().len(),
    {
        proof {
            use_type_invariant(self);
        }
        self.source_pos
    }

    /// Steps over blanks, then reads one token or reports one byte that
    /// begins none. Returns `None` once only blanks were left; the cursor
    /// then stands at the end of the source.
    pub fn next(&mut self) -> (item: Option<Result<Token<'a>, LexError<'a>>>)
        ensures
            final(self).source() == old(self).source(),
            match step_at(old(self).source(), old(self).position()) {
                None => {
                    &&& item is None
                    &&& final(self).position() == skip_blanks(
                        old(self).source(),
                        old(self).position(),
                    )
                    &&& final(self).position().byte_offset == old(self).source().len()
                },
                Some(step) => {
                    &&& item matches Some(found)
                    &&& yields(found, old(self).source(), step)
                    &&& final(self).position() == step.span.end
                    &&& old(self).position().byte_offset <= step.span.start.byte_offset
                    &&& step.span.start.byte_offset < step.span.end.byte_offset
                    &&& step.span.end.byte_offset <= old(self).source().len()
                },
            },
            item is Some ==> old(self).position().byte_offset < final(self).position().byte_offset,
    {
        proof {
            use_type_invariant(&*self);
        }
        let source: &'a [u8] = self.source_file.source;
        let ghost src = source@;
        let ghost entry = self.source_pos@;
        let mut pos: SourcePos = self.source_pos;
        proof {
            lemma_skip_blanks(src, entry);
        }
        loop
            invariant
                *self == *old(self),
                source@ == self.source_file.source@,
                entry == old(self).source_pos@,
                src == source@,
                src.len() < usize::MAX,
                pos.byte_offset <= src.len(),
                pos.column <= pos.byte_offset + 1,
                pos.line <= pos.byte_offset + 1,
                skip_blanks(src, pos@) == skip_blanks(src, entry),
            ensures
                *self == *old(self),
                pos@ == skip_blanks(src, entry),
                pos.byte_offset < src.len(),
                pos.column <= pos.byte_offset + 1,
                pos.line <= pos.byte_offset + 1,
            decreases src.len() - pos.byte_offset,
        {
            if pos.byte_offset >= source.len() {
                self.source_pos = pos;
                return None;
            }
            let current: u8 = source[pos.byte_offset];
            if current == 0x20 || current == 0x09 || current == 0x0d {
                pos.row();
            } else if current == 0x0a {
                pos.newline();
            } else {
                break ;
            }
        }
        let start: SourcePos = pos;
        let at: usize = start.byte_offset;
        let current: u8 = source[at];
        proof {
            lemma_token_at(src, start@);
        }
        let kind: Option<TokenKind> = if current >= 0x30 && current <= 0x39 {
            let end = scan_digits(source, at);
            pos.advance(end - at);
            Some(TokenKind::Number)
        } else if current == 0x22 {
            let ghost end = string_end(src, (at + 1) as nat);
            pos.row();
            while pos.byte_offset < source.len()
                invariant_except_break
                    at < pos.byte_offset <= src.len(),
                    string_end(src, pos.byte_offset as nat) == end,
                    walk(src, pos@, end) == walk(src, start@.row(), end),
                invariant
                    src == source@,
                    src.len() < usize::MAX,
                    *self == *old(self),
                    at == start.byte_offset,
                    end == string_end(src, (at + 1) as nat),
                    pos.column <= pos.byte_offset + 1,
                    pos.line <= pos.byte_offset + 1,
                ensures
                    pos@ == walk(src, start@.row(), end),
                    pos.byte_offset == end,
                decreases src.len() - pos.byte_offset,
            {
                let c: u8 = source[pos.byte_offset];
                proof {
                    lemma_string_end(src, (pos.byte_offset + 1) as nat);
                    assert(walk(src, pos@, end) == walk(src, after_byte(pos@, c), end));
                }
                if c == 0x22 {
                    pos.row();
                    break ;
                } else if c == 0x0a {
                    pos.newline();
                } else if c >= 0x80 && c <= 0xbf {
                    pos.byte_offset += 1;
                } else {
                    pos.row();
                }
            }
            Some(TokenKind::String)
        } else if current >= 0x41 && current <= 0x5a {
            let end = scan_name(source, at);
            pos.advance(end - at);
            Some(TokenKind::UpperIdentifier)
        } else if name_byte(current) {
            let end = scan_name(source, at);
            pos.advance(end - at);
            Some(TokenKind::LowerIdentifier)
        } else if current == 0x2d && at + 1 < source.len() && source[at + 1] == 0x3e {
            pos.advance(2);
            Some(TokenKind::Arrow)
        } else if current == 0xc3 && at + 1 < source.len() && source[at + 1] == 0x97 {
            pos.column += 1;
            pos.byte_offset += 2;
            Some(TokenKind::Product)
        } else {
            pos.row();
            sign_of(current)
        };
        self.source_pos = pos;
        let lexeme: &'a [u8] = slice_subrange(source, at, pos.byte_offset);
        let span = SourceSpan { start, end: pos };
        match kind {
            Some(kind) => Some(Ok(Token { kind, lexeme, span })),
            None => Some(
                Err(LexError { kind: LexErrorKind::UnexpectedChar(current as char), span, lexeme }),
            ),
        }
    }

    /// Reads tokens into `tokens` until the buffer is full or the source
    /// is exhausted, and returns how many were stored. Lexical errors on
    /// the way are passed over. Once the buffer is full nothing more is
    /// read: the cursor stands behind the last token stored, and what is
    /// left of the source can be read by further calls. A buffer that is
    /// too small for the tokens of the source therefore holds only the
    /// first of them.
    pub fn read_all(&mut self, tokens: &mut [Token<'a>]) -> (count: usize)
        ensures
            final(self).source() == old(self).source(),
            final(tokens)@.len() == old(tokens)@.len(),
            count <= old(tokens)@.len(),
            count <= token_steps(steps_from(old(self).source(), old(self).position())).len(),
            count == old(tokens)@.len() || count == token_steps(
                steps_from(old(self).source(), old(self).position()),
            ).len(),
            forall|i: int|
                0 <= i < count ==> yields(
                    Ok(#[trigger] final(tokens)@[i]),
                    old(self).source(),
                    token_steps(steps_from(old(self).source(), old(self).position()))[i],
                ),
            forall|i: int|
                count <= i < old(tokens)@.len() ==> #[trigger] final(tokens)@[i] == old(tokens)@[i],
            count < old(tokens)@.len() ==> final(self).position() == cursor_after(
                old(self).source(),
                old(self).position(),
                steps_from(old(self).source(), old(self).position()).len() + 1,
            ) && final(self).position().byte_offset == old(self).source().len(),
            count == old(tokens)@.len() ==> final(self).position() == if count == 0 {
                old(self).position()
            } else {
                final(tokens)@[count - 1].span@.end
            },
            final(self).position().byte_offset <= old(self).source().len(),
    {
        let ghost src = self.source();
        let ghost entry = self.position();
        let ghost steps = steps_from(src, entry);
        let ghost mut stored: Seq<Step> = Seq::empty();
        let ghost mut taken: nat = 0;
        let mut index: usize = 0;
        proof {
            use_type_invariant(&*self);
            assert(steps.skip(0) == steps);
            assert(stored + token_steps(steps) == token_steps(steps));
        }
        loop
            invariant_except_break
                steps.skip(taken as int) == steps_from(src, self.position()),
                self.position() == cursor_after(src, entry, taken),
                index == tokens@.len() ==> self.position() == if index == 0 {
                    entry
                } else {
                    tokens@[index - 1].span@.end
                },
            invariant
                self.source() == src,
                src == old(self).source(),
                entry == old(self).position(),
                steps == steps_from(src, entry),
                self.position().byte_offset <= src.len(),
                entry.byte_offset <= src.len(),
                taken <= steps.len(),
                index <= tokens@.len(),
                tokens@.len() == old(tokens)@.len(),
                stored.len() == index,
                token_steps(steps) == stored + token_steps(steps.skip(taken as int)),
                forall|i: int| 0 <= i < index ==> yields(Ok(#[trigger] tokens@[i]), src, stored[i]),
                forall|i: int|
                    index <= i < old(tokens)@.len() ==> #[trigger] tokens@[i] == old(tokens)@[i],
            ensures
                index < tokens@.len() ==> {
                    &&& token_steps(steps) == stored
                    &&& self.position() == cursor_after(src, entry, steps.len() + 1)
                    &&& self.position().byte_offset == src.len()
                },
                index == tokens@.len() ==> self.position() == if index == 0 {
                    entry
                } else {
                    tokens@[index - 1].span@.end
                },
            decreases steps.len() - taken,
        {
            if index >= tokens.len() {
                break ;
            }
            let ghost before = self.position();
            let ghost rest = steps.skip(taken as int);
            proof {
                lemma_step_advances(src, before);
                lemma_cursor_after_split(src, entry, taken, 1);
            }
            let item = self.next();
            proof {
                use_type_invariant(&*self);
                assert(self.position() == cursor_after(src, before, 1)) by {
                    reveal_with_fuel(cursor_after, 2);
                }
                if rest.len() > 0 {
                    assert(rest[0] == steps[taken as int]);
                    assert(rest.drop_first() == steps.skip(taken + 1 as int));
                }
            }
            match item {
                Some(Ok(token)) => {
                    tokens[index] = token;
                    index += 1;
                    proof {
                        stored = stored.push(rest[0]);
                        taken = taken + 1;
                        assert(stored + token_steps(steps.skip(taken as int)) == stored.drop_last()
                            + token_steps(rest));
                    }
                },
                Some(Err(_)) => {
                    proof {
                        taken = taken + 1;
                    }
                },
                None => {
                    proof {
                        assert(token_steps(rest) == Seq::<Step>::empty());
                        assert(stored + token_steps(rest) == stored);
                    }
                    break ;
                },
            }
        }
        index
    }
}

} // verus!
