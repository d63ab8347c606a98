//! Source files, the positions and spans that locate text inside them,
//! and the stages that read them: the lexer and the parser.

use vstd::prelude::*;

use core::cmp::Ordering;
use vstd::std_specs::cmp::PartialOrdSpecImpl;

pub mod derivation;
pub mod error;
pub mod exact;
pub mod grammar;
pub mod kinds;
pub mod lexer;
pub mod parser;
pub mod text;
pub mod token;
pub mod tree;

verus! {

/// One source file, owned by the caller and only ever read.
pub struct SourceFile<'a> {
    pub id: usize,
    pub name: &'a str,
    pub source: &'a [u8],
    pub package: Option<&'a str>,
}

/// Mathematical model of a [`SourcePos`].
pub struct Position {
    pub file_index: nat,
    pub line: nat,
    pub column: nat,
    pub byte_offset: nat,
}

impl Position {
    /// The first position of the file `file_index`.
    pub open spec fn start_of_file(file_index: nat) -> Position {
        Position { file_index, line: 1, column: 1, byte_offset: 0 }
    }

    /// The position after `n` one-byte characters, none of them a newline.
    pub open spec fn advance(self, n: nat) -> Position {
        Position { column: self.column + n, byte_offset: self.byte_offset + n, ..self }
    }

    /// The position after one one-byte character that is not a newline.
    pub open spec fn row(self) -> Position {
        self.advance(1)
    }

    /// The position after a newline.
    pub open spec fn newline(self) -> Position {
        Position { line: self.line + 1, column: 1, byte_offset: self.byte_offset + 1, ..self }
    }

    /// The position after one character that is `width` bytes long and no
    /// newline.
    pub open spec fn wide(self, width: nat) -> Position {
        Position { column: self.column + 1, byte_offset: self.byte_offset + width, ..self }
    }

    /// The position after the character `c`: a line feed leads to the
    /// first column of the next line, any other character takes one
    /// column and the bytes of its UTF-8 encoding.
    pub open spec fn after(self, c: char) -> Position {
        if c == '\n' {
            self.newline()
        } else {
            self.wide(utf8_width(c))
        }
    }

    /// The position after `n` successive single-byte steps.
    pub open spec fn rows(self, n: nat) -> Position
        decreases n,
    {
        if n == 0 {
            self
        } else {
            self.row().rows((n - 1) as nat)
        }
    }

    /// `n` single steps end where one step of `n` bytes ends.
    pub proof fn lemma_rows_is_advance(self, n: nat)
        ensures
            self.rows(n) == self.advance(n),
        decreases n,
    {
        if n > 0 {
            self.row().lemma_rows_is_advance((n - 1) as nat);
        }
    }
}

/// Number of bytes in the UTF-8 encoding of `c`.
pub open spec fn utf8_width(c: char) -> nat {
    vstd::utf8::encode_scalar(c as u32).len()
}

/// A location in a source file: line and column count from 1, the byte
/// offset from 0.
#[derive(Clone, Copy, Debug, PartialEq, Eq, Structural)]
pub struct SourcePos {
    pub file_index: usize,
    pub line: usize,
    pub column: usize,
    pub byte_offset: usize,
}

impl View for SourcePos {
    type V = Position;

    open spec fn view(&self) -> Position {
        Position {
            file_index: self.file_index as nat,
            line: self.line as nat,
            column: self.column as nat,
            byte_offset: self.byte_offset as nat,
        }
    }
}

impl SourcePos {
    /// The first position of the file `file_index`.
    pub fn start_of_file(file_index: usize) -> (pos: Self)
        ensures
            pos@ == Position::start_of_file(file_index as nat),
    {
        Self { file_index, line: 1, column: 1, byte_offset: 0 }
    }

    /// Steps over a newline: to the first column of the next line.
    pub fn newline(&mut self)
        requires
            old(self).line < usize::MAX,
            old(self).byte_offset < usize::MAX,
        ensures
            final(self)@ == old(self)@.newline(),
    {
        self.line += 1;
        self.byte_offset += 1;
        self.column = 1;
    }

    /// Steps over one one-byte character that is not a newline.
    pub fn row(&mut self)
        requires
            old(self).column < usize::MAX,
            old(self).byte_offset < usize::MAX,
        ensures
            final(self)@ == old(self)@.row(),
    {
        self.column += 1;
        self.byte_offset += 1;
    }

    /// Steps over `n` one-byte characters at once.
    pub fn advance(&mut self, n: usize)
        requires
            old(self).column + n <= usize::MAX,
            old(self).byte_offset + n <= usize::MAX,
        ensures
            final(self)@ == old(self)@.advance(n as nat),
            final(self)@ == old(self)@.rows(n as nat),
    {
        proof {
            self@.lemma_rows_is_advance(n as nat);
        }
        self.column += n;
        self.byte_offset += n;
    }

    /// Steps over the character `c`. A line feed leads to the first column
    /// of the next line; any other character takes one column. Either way
    /// the byte offset grows by as many bytes as the UTF-8 encoding of
    /// `c` has.
    pub fn advance_by_char(&mut self, c: char)
        requires
            c == '\n' ==> old(self).line < usize::MAX,
            c != '\n' ==> old(self).column < usize::MAX,
            old(self).byte_offset + utf8_width(c) <= usize::MAX,
        ensures
            final(self)@ == old(self)@.after(c),
    {
        let code: u32 = c as u32;
        proof {
            vstd::utf8::char_is_scalar(c);
            vstd::utf8::char_u32_cast(c, code);
            vstd::utf8::char_u32_cast('\n', 0x0a);
        }
        if code == 0x0a {
            self.newline();
        } else {
            let width: usize = if code < 0x80 {
                1
            } else if code < 0x800 {
                2
            } else if code < 0x10000 {
                3
            } else {
                4
            };
            self.column += 1;
            self.byte_offset += width;
        }
    }
}

impl PartialOrd for SourcePos {
    /// Positions are ordered by byte offset and by nothing else.
    fn partial_cmp(&self, other: &Self) -> (r: Option<Ordering>) {
        if self.byte_offset < other.byte_offset {
            Some(Ordering::Less)
        } else if self.byte_offset > other.byte_offset {
            Some(Ordering::Greater)
        } else {
            Some(Ordering::Equal)
        }
    }
}

impl PartialOrdSpecImpl for SourcePos {
    open spec fn obeys_partial_cmp_spec() -> bool {
        true
    }

    open spec fn partial_cmp_spec(&self, other: &Self) -> Option<Ordering> {
        if self.byte_offset < other.byte_offset {
            Some(Ordering::Less)
        } else if self.byte_offset > other.byte_offset {
            Some(Ordering::Greater)
        } else {
            Some(Ordering::Equal)
        }
    }
}

/// Mathematical model of a [`SourceSpan`].
pub struct Span {
    pub start: Position,
    pub end: Position,
}

/// A half-open range `[start, end)` of a source file.
#[derive(Clone, Copy, Debug, PartialEq, Eq, Structural)]
pub struct SourceSpan {
    pub start: SourcePos,
    pub end: SourcePos,
}

impl View for SourceSpan {
    type V = Span;

    open spec fn view(&self) -> Span {
        Span { start: self.start@, end: self.end@ }
    }
}

} // verus!
