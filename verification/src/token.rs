//! Span and token model: immutable value types describing one lexical unit
//! and its offset range in the source text.

use vstd::prelude::*;

use crate::keyword::keyword_of;
use crate::keyword::Keyword;

verus! {

/// A half-open offset range `[start, end)` into the source text.
/// `start == end` denotes a zero-width position, used for end-of-input.
#[derive(Debug, Clone, Copy, PartialEq, Eq, Structural)]
pub struct Span {
    pub start: usize,
    pub end: usize,
}

/// The category of a token, carrying the keyword identity where relevant.
#[derive(Debug, Clone, Copy, PartialEq, Eq, Structural)]
pub enum TokenKind {
    Eof,
    /* Single Char */
    Semicolon,
    Plus,
    Minus,
    Asterisk,
    ForwardSlash,
    Equals,
    Comma,
    Period,
    OpeningParen,
    ClosingParen,
    OpeningBracket,
    ClosingBracket,
    OpeningBrace,
    ClosingBrace,
    /* Other */
    Identifier,
    Keyword(Keyword),
    /* Numbers */
    IntegerLiteral,
    FloatLiteral,
}

/// A classified lexical unit: its kind, the borrowed slice of the source
/// text it covers, and the span of that slice.
#[derive(Debug, Clone, Copy)]
pub struct Token<'a> {
    pub kind: TokenKind,
    pub literal: &'a str,
    pub span: Span,
}

impl Span {
    pub fn new(start: usize, end: usize) -> (r: Self)
        ensures
            r == (Span { start, end }),
    {
        Span { start, end }
    }

    /// The span of a single-character token at `position`.
    pub fn single(position: usize) -> (r: Self)
        requires
            position < usize::MAX,
        ensures
            r == (Span { start: position, end: (position + 1) as usize }),
    {
        Span { start: position, end: position + 1 }
    }

    /// The zero-width span at the very start of the input.
    pub fn empty() -> (r: Self)
        ensures
            r == (Span { start: 0usize, end: 0usize }),
    {
        Span { start: 0, end: 0 }
    }

    /// A zero-width span marking `position` itself.
    pub fn zero_width(position: usize) -> (r: Self)
        ensures
            r == (Span { start: position, end: position }),
    {
        Span { start: position, end: position }
    }
}

impl<'a> Token<'a> {
    pub fn new(kind: TokenKind, literal: &'a str, span: Span) -> (r: Self)
        ensures
            r.kind == kind,
            r.literal == literal,
            r.span == span,
    {
        Token { kind, literal, span }
    }

    /// The end-of-input token: zero-width, with an empty literal.
    pub fn eof(position: usize) -> (r: Self)
        ensures
            r.kind == TokenKind::Eof,
            r.literal@ == Seq::<char>::empty(),
            r.span == (Span { start: position, end: position }),
    {
        proof {
            reveal_strlit("");
            assert(""@ =~= Seq::<char>::empty());
        }
        Token { kind: TokenKind::Eof, literal: "", span: Span::zero_width(position) }
    }

    pub fn kind(&self) -> (r: TokenKind)
        ensures
            r == self.kind,
    {
        self.kind
    }

    pub fn literal(&self) -> (r: &'a str)
        ensures
            r == self.literal,
    {
        self.literal
    }

    pub fn span(&self) -> (r: Span)
        ensures
            r == self.span,
    {
        self.span
    }
}

/// The kind of an identifier-shaped word: the keyword it names, matched
/// case-insensitively, or a plain identifier. A word that case-insensitively
/// matches a keyword is always classified as that keyword; there is no
/// quoting mechanism to use a keyword as an identifier.
pub open spec fn spec_kind_of_word(w: Seq<char>) -> TokenKind {
    match keyword_of(w) {
        Some(k) => TokenKind::Keyword(k),
        None => TokenKind::Identifier,
    }
}

impl TokenKind {
    /// Classifies an identifier-shaped word against the keyword table.
    pub fn from_keyword_or_identifier(literal: &str) -> (r: TokenKind)
        ensures
            r == spec_kind_of_word(literal@),
    {
        match Keyword::from_word(literal) {
            Ok(keyword) => TokenKind::Keyword(keyword),
            Err(_) => TokenKind::Identifier,
        }
    }
}

} // verus!
