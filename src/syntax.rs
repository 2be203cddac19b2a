//! Positions in source text, and the tokens read from it.
use vstd::prelude::*;

verus! {

/// The line (counted from 1) on which position `i` of `s` stands.
pub open spec fn line_at(s: Seq<char>, i: int) -> int
    decreases i,
{
    if i <= 0 {
        1
    } else if s[i - 1] == '\n' {
        line_at(s, i - 1) + 1
    } else {
        line_at(s, i - 1)
    }
}

/// The column (counted in characters, from 1) of position `i` of `s`.
pub open spec fn column_at(s: Seq<char>, i: int) -> int
    decreases i,
{
    if i <= 0 {
        1
    } else if s[i - 1] == '\n' {
        1
    } else {
        column_at(s, i - 1) + 1
    }
}

/// How many bytes the UTF-8 encoding of `c` takes.
pub open spec fn utf8_width(c: char) -> int {
    let v = c as u32;
    if v < 0x80 {
        1
    } else if v < 0x800 {
        2
    } else if v < 0x10000 {
        3
    } else {
        4
    }
}

/// How many bytes the UTF-8 encoding of the first `i` characters of `s` takes.
pub open spec fn byte_offset_at(s: Seq<char>, i: int) -> int
    decreases i,
{
    if i <= 0 {
        0
    } else {
        byte_offset_at(s, i - 1) + utf8_width(s[i - 1])
    }
}

/// How many bytes the UTF-8 encoding of `c` takes.
fn utf8_len(c: char) -> (r: usize)
    ensures
        r == utf8_width(c),
{
    let v = c as u32;
    if v < 0x80 {
        1
    } else if v < 0x800 {
        2
    } else if v < 0x10000 {
        3
    } else {
        4
    }
}

/// Line and column of position `i` are both at least 1 and at most `i + 1`,
/// and its byte offset at most `4 * i`.
pub proof fn lemma_line_column_bounds(s: Seq<char>, i: int)
    requires
        0 <= i,
    ensures
        0 <= byte_offset_at(s, i) <= 4 * i,
        1 <= line_at(s, i) <= i + 1,
        1 <= column_at(s, i) <= i + 1,
    decreases i,
{
    if i > 0 {
        lemma_line_column_bounds(s, i - 1);
    }
}

/// A view of the characters `start..end` of a source text, with the byte
/// offset, line and column at which it begins. The source itself is
/// borrowed, never copied.
#[derive(Clone, Copy, Debug, PartialEq)]
pub struct Span<'a> {
    pub src: &'a [char],
    pub start: usize,
    pub end: usize,
    pub offset: usize,
    pub line: usize,
    pub column: usize,
}

impl<'a> Span<'a> {
    /// The span lies within its source, and its line and column are those of
    /// its first position.
    pub open spec fn wf(self) -> bool {
        &&& self.start <= self.end
        &&& self.end <= self.src@.len()
        &&& 4 * self.src@.len() < usize::MAX
        &&& self.offset == byte_offset_at(self.src@, self.start as int)
        &&& self.line == line_at(self.src@, self.start as int)
        &&& self.column == column_at(self.src@, self.start as int)
    }

    /// The characters that the span covers.
    pub open spec fn text(self) -> Seq<char> {
        self.src@.subrange(self.start as int, self.end as int)
    }

    /// The span of the first `n` characters.
    pub open spec fn spec_first(self, n: int) -> Span<'a> {
        Span { end: (self.start + n) as usize, ..self }
    }

    /// The span of what follows the first `n` characters.
    pub open spec fn spec_rest(self, n: int) -> Span<'a> {
        Span {
            start: (self.start + n) as usize,
            offset: byte_offset_at(self.src@, self.start + n) as usize,
            line: line_at(self.src@, self.start + n) as usize,
            column: column_at(self.src@, self.start + n) as usize,
            ..self
        }
    }

    /// The span of a whole source text.
    pub fn new(src: &'a [char]) -> (r: Span<'a>)
        requires
            4 * src@.len() < usize::MAX,
        ensures
            r.wf(),
            r.src@ == src@,
            r.start == 0,
            r.end == src@.len(),
    {
        Span { src, start: 0, end: src.len(), offset: 0, line: 1, column: 1 }
    }

    /// The characters that the span covers.
    pub fn fragment(&self) -> (r: &'a [char])
        requires
            self.wf(),
        ensures
            r@ == self.text(),
    {
        &self.src[self.start..self.end]
    }

    /// The number of bytes that the UTF-8 encoding of the source takes
    /// before the span.
    pub fn location_offset(&self) -> (r: usize)
        ensures
            r == self.offset,
    {
        self.offset
    }

    /// The line on which the span begins.
    pub fn location_line(&self) -> (r: usize)
        ensures
            r == self.line,
    {
        self.line
    }

    /// The column at which the span begins.
    pub fn get_column(&self) -> (r: usize)
        ensures
            r == self.column,
    {
        self.column
    }

    /// The span of the first `n` characters.
    pub fn first(&self, n: usize) -> (r: Span<'a>)
        requires
            self.wf(),
            n <= self.end - self.start,
        ensures
            r == self.spec_first(n as int),
            r.wf(),
    {
        Span { end: self.start + n, ..*self }
    }

    /// The span of what follows the first `n` characters, with its line and
    /// column.
    pub fn rest(&self, n: usize) -> (r: Span<'a>)
        requires
            self.wf(),
            n <= self.end - self.start,
        ensures
            r == self.spec_rest(n as int),
            r.wf(),
    {
        let target = self.start + n;
        let mut i = self.start;
        let mut offset = self.offset;
        let mut line = self.line;
        let mut column = self.column;
        proof {
            lemma_line_column_bounds(self.src@, i as int);
        }
        while i < target
            invariant
                self.start <= i <= target <= self.src@.len(),
                4 * self.src@.len() < usize::MAX,
                offset == byte_offset_at(self.src@, i as int),
                offset <= 4 * i,
                line == line_at(self.src@, i as int),
                column == column_at(self.src@, i as int),
                line <= i + 1,
                column <= i + 1,
            decreases target - i,
        {
            offset = offset + utf8_len(self.src[i]);
            if self.src[i] == '\n' {
                line = line + 1;
                column = 1;
            } else {
                column = column + 1;
            }
            i = i + 1;
        }
        Span { start: target, offset, line, column, ..*self }
    }
}

/// A numeric literal, by the grammar that recognised it.
#[derive(Clone, Copy, Debug, PartialEq)]
pub enum NumericLiteral<'a> {
    Hexadecimal(Span<'a>),
    Octal(Span<'a>),
    Binary(Span<'a>),
    Integer(Span<'a>),
    Float(Span<'a>),
}

/// An identifier (not an operator).
#[derive(Clone, Copy, Debug, PartialEq)]
pub struct IdentifierLiteral<'a>(pub Span<'a>);

/// An operator.
#[derive(Clone, Copy, Debug, PartialEq)]
pub enum OperatorLiteral<'a> {
    Assignment(Span<'a>),
}

/// An assignment of a numeric literal to an identifier.
#[derive(Clone, Copy, Debug, PartialEq)]
pub struct AssignmentExpr<'a> {
    pub lvalue: IdentifierLiteral<'a>,
    pub operator: OperatorLiteral<'a>,
    pub rvalue: NumericLiteral<'a>,
}

/// A token of the lexer: a numeric literal or an identifier.
#[derive(Clone, Copy, Debug, PartialEq)]
pub enum Token<'a> {
    Numeric(NumericLiteral<'a>),
    Identifier(IdentifierLiteral<'a>),
}

} // verus!
