//! The lexer: a cursor over the source text producing one token at a time on
//! demand. It classifies characters into token categories and raises a
//! lexical error on illegal input.
//!
//! Positions count characters, and the cursor steps one character at a
//! time. Since any character outside the 7-bit ASCII range is rejected
//! before it could be stepped over, every token span and every error span's
//! start also equals the byte offset into the source text. (The end of a
//! non-ASCII error's span is the next character position, which for a
//! multi-byte character is less than its byte end; the start is the offset
//! that locates the error.)

use vstd::prelude::*;

use crate::token::spec_kind_of_word;
use crate::token::Span;
use crate::token::Token;
use crate::token::TokenKind;

verus! {

/// A lexical error: the offending character and the span marking where in
/// the source text it was found. Lexical errors are always fatal to the
/// current parse attempt.
#[derive(Debug, Clone, Copy, PartialEq, Eq, Structural)]
pub enum LexerError {
    /// A character outside the 7-bit ASCII range.
    NonAsciiCharacter { ch: char, span: Span },
    /// An ASCII control character outside whitespace.
    AsciiControlCharacter { ch: char, span: Span },
    /// An ASCII character that begins no token of the grammar, such as a
    /// quote or a comparison sign; those token categories are an open
    /// extension point.
    UnexpectedCharacter { ch: char, span: Span },
}

/// The whitespace characters the lexer skips: the ASCII characters with the
/// Unicode whitespace property.
pub open spec fn is_ws_char(c: char) -> bool {
    c == ' ' || c == '\t' || c == '\n' || c == '\r' || c == '\u{b}' || c == '\u{c}'
}

/// An ASCII letter, which begins an identifier or keyword token.
pub open spec fn is_letter(c: char) -> bool {
    ('a' <= c && c <= 'z') || ('A' <= c && c <= 'Z')
}

/// An ASCII digit, which begins a numeric token.
pub open spec fn is_digit_char(c: char) -> bool {
    '0' <= c && c <= '9'
}

/// A character that may continue an identifier or keyword token.
pub open spec fn is_ident_char(c: char) -> bool {
    is_letter(c) || is_digit_char(c) || c == '_'
}

/// A character of the 7-bit ASCII range.
pub open spec fn is_ascii_char(c: char) -> bool {
    c as u32 <= 0x7f
}

/// An ASCII control character.
pub open spec fn is_control_char(c: char) -> bool {
    c as u32 <= 0x1f || c as u32 == 0x7f
}

/// The token kind of a single-character token, if the character forms one.
pub open spec fn single_char_kind(c: char) -> Option<TokenKind> {
    match c {
        ';' => Some(TokenKind::Semicolon),
        '+' => Some(TokenKind::Plus),
        '-' => Some(TokenKind::Minus),
        '*' => Some(TokenKind::Asterisk),
        '/' => Some(TokenKind::ForwardSlash),
        '=' => Some(TokenKind::Equals),
        ',' => Some(TokenKind::Comma),
        '.' => Some(TokenKind::Period),
        '(' => Some(TokenKind::OpeningParen),
        ')' => Some(TokenKind::ClosingParen),
        '[' => Some(TokenKind::OpeningBracket),
        ']' => Some(TokenKind::ClosingBracket),
        '{' => Some(TokenKind::OpeningBrace),
        '}' => Some(TokenKind::ClosingBrace),
        _ => None,
    }
}

/// The first position at or after `pos` holding a non-whitespace character,
/// or the input length if only whitespace remains.
pub open spec fn ws_end(s: Seq<char>, pos: int) -> int
    decreases s.len() - pos when 0 <= pos <= s.len()
{
    if pos < s.len() && is_ws_char(s[pos]) {
        ws_end(s, pos + 1)
    } else {
        pos
    }
}

/// The first position at or after `pos` holding no identifier character.
pub open spec fn ident_end(s: Seq<char>, pos: int) -> int
    decreases s.len() - pos when 0 <= pos <= s.len()
{
    if pos < s.len() && is_ident_char(s[pos]) {
        ident_end(s, pos + 1)
    } else {
        pos
    }
}

/// The first position at or after `pos` holding no digit.
pub open spec fn digits_end(s: Seq<char>, pos: int) -> int
    decreases s.len() - pos when 0 <= pos <= s.len()
{
    if pos < s.len() && is_digit_char(s[pos]) {
        digits_end(s, pos + 1)
    } else {
        pos
    }
}

/// What one token of the source text is: its kind and the positions it
/// covers. End-of-input is the zero-width token at the input length.
pub ghost struct SpecTok {
    pub kind: TokenKind,
    pub start: int,
    pub end: int,
}

/// The token beginning at position `pos` of the source text, after skipping
/// whitespace, or the lexical error found there. This is the complete
/// specification `Lexer::next_token` is proved against.
pub open spec fn spec_next_token(s: Seq<char>, pos: int) -> Result<SpecTok, LexerError> {
    let p = ws_end(s, pos);
    if p >= s.len() {
        Ok(SpecTok { kind: TokenKind::Eof, start: p, end: p })
    } else {
        let c = s[p];
        if is_letter(c) {
            let e = ident_end(s, p + 1);
            Ok(SpecTok { kind: spec_kind_of_word(s.subrange(p, e)), start: p, end: e })
        } else if is_digit_char(c) {
            let e1 = digits_end(s, p + 1);
            if e1 < s.len() && s[e1] == '.' {
                let e2 = digits_end(s, e1 + 1);
                Ok(SpecTok { kind: TokenKind::FloatLiteral, start: p, end: e2 })
            } else {
                Ok(SpecTok { kind: TokenKind::IntegerLiteral, start: p, end: e1 })
            }
        } else if single_char_kind(c) is Some {
            Ok(SpecTok { kind: single_char_kind(c)->Some_0, start: p, end: p + 1 })
        } else if !is_ascii_char(c) {
            Err(
                LexerError::NonAsciiCharacter {
                    ch: c,
                    span: Span { start: p as usize, end: (p + 1) as usize },
                },
            )
        } else if is_control_char(c) {
            Err(
                LexerError::AsciiControlCharacter {
                    ch: c,
                    span: Span { start: p as usize, end: (p + 1) as usize },
                },
            )
        } else {
            Err(
                LexerError::UnexpectedCharacter {
                    ch: c,
                    span: Span { start: p as usize, end: (p + 1) as usize },
                },
            )
        }
    }
}

/// Bounds of `ws_end`: it never moves backwards, never passes the input
/// length, skips only whitespace, and stops only at non-whitespace.
pub proof fn lemma_ws_end(s: Seq<char>, pos: int)
    requires
        0 <= pos <= s.len(),
    ensures
        pos <= ws_end(s, pos) <= s.len(),
        forall|j: int| pos <= j < ws_end(s, pos) ==> is_ws_char(s[j]),
        ws_end(s, pos) == s.len() || !is_ws_char(s[ws_end(s, pos)]),
    decreases s.len() - pos,
{
    if pos < s.len() && is_ws_char(s[pos]) {
        lemma_ws_end(s, pos + 1);
    }
}

/// Bounds of `ident_end`, in the same shape as `lemma_ws_end`.
pub proof fn lemma_ident_end(s: Seq<char>, pos: int)
    requires
        0 <= pos <= s.len(),
    ensures
        pos <= ident_end(s, pos) <= s.len(),
        forall|j: int| pos <= j < ident_end(s, pos) ==> is_ident_char(s[j]),
        ident_end(s, pos) == s.len() || !is_ident_char(s[ident_end(s, pos)]),
    decreases s.len() - pos,
{
    if pos < s.len() && is_ident_char(s[pos]) {
        lemma_ident_end(s, pos + 1);
    }
}

/// Bounds of `digits_end`, in the same shape as `lemma_ws_end`.
pub proof fn lemma_digits_end(s: Seq<char>, pos: int)
    requires
        0 <= pos <= s.len(),
    ensures
        pos <= digits_end(s, pos) <= s.len(),
        forall|j: int| pos <= j < digits_end(s, pos) ==> is_digit_char(s[j]),
        digits_end(s, pos) == s.len() || !is_digit_char(s[digits_end(s, pos)]),
    decreases s.len() - pos,
{
    if pos < s.len() && is_digit_char(s[pos]) {
        lemma_digits_end(s, pos + 1);
    }
}

/// Shape of any successful token: it sits between `pos` and the input
/// length, only whitespace precedes it, end-of-input is exactly the
/// zero-width token at the input length, every other token is non-empty and
/// strictly advances the cursor, and the characters a token covers match
/// its kind.
pub proof fn lemma_spec_next_token_props(s: Seq<char>, pos: int)
    requires
        0 <= pos <= s.len(),
    ensures
        match spec_next_token(s, pos) {
            Ok(st) => {
                &&& pos <= st.start <= st.end <= s.len()
                &&& forall|j: int| pos <= j < st.start ==> is_ws_char(s[j])
                &&& (st.kind == TokenKind::Eof <==> st.start == s.len())
                &&& (st.kind == TokenKind::Eof ==> st.end == st.start)
                &&& (st.kind != TokenKind::Eof ==> st.start < st.end)
                &&& (st.kind matches TokenKind::Keyword(_) || st.kind == TokenKind::Identifier
                    ==> forall|j: int| st.start <= j < st.end ==> is_ident_char(s[j]))
                &&& (st.kind == TokenKind::IntegerLiteral ==> forall|j: int|
                    st.start <= j < st.end ==> is_digit_char(s[j]))
                &&& (forall|j: int| pos <= j < st.end ==> is_ascii_char(s[j]))
            },
            Err(_) => true,
        },
{
    lemma_ws_end(s, pos);
    let p = ws_end(s, pos);
    assert forall|j: int| pos <= j < p implies is_ascii_char(s[j]) by {
        assert(is_ws_char(s[j]));
    }
    if p < s.len() {
        let c = s[p];
        if is_letter(c) {
            lemma_ident_end(s, p + 1);
            let e = ident_end(s, p + 1);
            assert forall|j: int| pos <= j < e implies is_ascii_char(s[j]) by {
                if p <= j {
                    assert(is_ident_char(s[j]));
                }
            }
        } else if is_digit_char(c) {
            lemma_digits_end(s, p + 1);
            let e1 = digits_end(s, p + 1);
            if e1 < s.len() && s[e1] == '.' {
                lemma_digits_end(s, e1 + 1);
                let e2 = digits_end(s, e1 + 1);
                assert forall|j: int| pos <= j < e2 implies is_ascii_char(s[j]) by {
                    if p <= j < e1 {
                        assert(is_digit_char(s[j]));
                    } else if j == e1 {
                        assert(s[j] == '.');
                    } else if e1 < j {
                        assert(is_digit_char(s[j]));
                    }
                }
            } else {
                assert forall|j: int| pos <= j < e1 implies is_ascii_char(s[j]) by {
                    if p <= j {
                        assert(is_digit_char(s[j]));
                    }
                }
            }
        }
    }
}

/// After a whitespace character, skipping whitespace reaches the same place.
pub proof fn lemma_ws_end_step(s: Seq<char>, pos: int)
    requires
        0 <= pos < s.len(),
        is_ws_char(s[pos]),
    ensures
        ws_end(s, pos) == ws_end(s, pos + 1),
{
}

/// An input of whitespace alone holds no token: skipping whitespace from
/// anywhere inside it reaches the input length.
pub proof fn lemma_ws_end_all_ws(s: Seq<char>, pos: int)
    requires
        0 <= pos <= s.len(),
        forall|j: int| 0 <= j < s.len() ==> is_ws_char(s[j]),
    ensures
        ws_end(s, pos) == s.len(),
    decreases s.len() - pos,
{
    if pos < s.len() {
        lemma_ws_end_all_ws(s, pos + 1);
    }
}

/// The lexer: a cursor over the source text. Tokens are produced lazily, so
/// a diagnostic for a later token is never raised before the caller asks
/// for that token.
#[derive(Debug)]
pub struct Lexer<'a> {
    input: &'a str,
    position: usize,
}

impl<'a> Lexer<'a> {
    /// The source text under the cursor.
    pub closed spec fn spec_input(&self) -> Seq<char> {
        self.input@
    }

    /// The cursor, as a character position into the source text.
    pub closed spec fn spec_pos(&self) -> int {
        self.position as int
    }

    /// The cursor never leaves the source text, and is a machine position.
    pub open spec fn wf(&self) -> bool {
        0 <= self.spec_pos() <= self.spec_input().len() && self.spec_pos() <= usize::MAX
    }

    pub fn new(input: &'a str) -> (r: Self)
        ensures
            r.spec_input() == input@,
            r.spec_pos() == 0,
            r.wf(),
    {
        Lexer { input, position: 0 }
    }

    /// Reads the character under the cursor and advances past it.
    fn next_char(&mut self) -> (c: char)
        requires
            old(self).wf(),
            old(self).spec_pos() < old(self).spec_input().len(),
        ensures
            final(self).wf(),
            final(self).spec_input() == old(self).spec_input(),
            final(self).spec_pos() == old(self).spec_pos() + 1,
            c == old(self).spec_input()[old(self).spec_pos()],
    {
        let c = self.input.get_char(self.position);
        let n = self.input.unicode_len();
        if self.position < n {
            self.position += 1;
        }
        c
    }

    /// Reads the character under the cursor without advancing.
    fn peek_char(&self) -> (r: Option<char>)
        requires
            self.wf(),
        ensures
            match r {
                Some(c) => self.spec_pos() < self.spec_input().len() && c
                    == self.spec_input()[self.spec_pos()],
                None => self.spec_pos() == self.spec_input().len(),
            },
    {
        if self.position < self.input.unicode_len() {
            Some(self.input.get_char(self.position))
        } else {
            None
        }
    }

    /// Advances the cursor past any run of whitespace.
    fn skip_whitespace(&mut self)
        requires
            old(self).wf(),
        ensures
            final(self).wf(),
            final(self).spec_input() == old(self).spec_input(),
            final(self).spec_pos() == ws_end(old(self).spec_input(), old(self).spec_pos()),
    {
        loop
            invariant
                self.wf(),
                self.spec_input() == old(self).spec_input(),
                ws_end(self.spec_input(), self.spec_pos()) == ws_end(
                    old(self).spec_input(),
                    old(self).spec_pos(),
                ),
            ensures
                self.wf(),
                self.spec_input() == old(self).spec_input(),
                self.spec_pos() == ws_end(old(self).spec_input(), old(self).spec_pos()),
            decreases self.spec_input().len() - self.spec_pos(),
        {
            match self.peek_char() {
                Some(c) => {
                    if !is_ws_char_exec(c) {
                        proof {
                            assert(ws_end(self.spec_input(), self.spec_pos()) == self.spec_pos());
                        }
                        break;
                    }
                    proof {
                        lemma_ws_end_step(self.spec_input(), self.spec_pos());
                    }
                    self.next_char();
                },
                None => {
                    proof {
                        assert(ws_end(self.spec_input(), self.spec_pos()) == self.spec_pos());
                    }
                    break;
                },
            }
        }
    }

    /// Lexes one single-character token of the given kind.
    fn parse_single_char_token(&mut self, kind: TokenKind) -> (t: Token<'a>)
        requires
            old(self).wf(),
            old(self).spec_pos() < old(self).spec_input().len(),
        ensures
            final(self).wf(),
            final(self).spec_input() == old(self).spec_input(),
            final(self).spec_pos() == old(self).spec_pos() + 1,
            t.kind == kind,
            t.span == (Span {
                start: old(self).spec_pos() as usize,
                end: (old(self).spec_pos() + 1) as usize,
            }),
            t.literal@ == old(self).spec_input().subrange(
                old(self).spec_pos(),
                old(self).spec_pos() + 1,
            ),
    {
        let input = self.input;
        let n = input.unicode_len();
        let end = if self.position < n {
            self.position + 1
        } else {
            n
        };
        let literal = input.substring_char(self.position, end);
        let token = Token::new(kind, literal, Span::single(self.position));
        self.position += 1;
        token
    }

    /// Lexes an identifier-or-keyword token: a maximal run of identifier
    /// characters, classified against the keyword table.
    fn parse_keyword_or_identifier(&mut self) -> (t: Token<'a>)
        requires
            old(self).wf(),
            old(self).spec_pos() < old(self).spec_input().len(),
            is_letter(old(self).spec_input()[old(self).spec_pos()]),
        ensures
            final(self).wf(),
            final(self).spec_input() == old(self).spec_input(),
            final(self).spec_pos() == ident_end(old(self).spec_input(), old(self).spec_pos() + 1),
            ({
                let s = old(self).spec_input();
                let start = old(self).spec_pos();
                let end = ident_end(s, start + 1);
                &&& t.kind == spec_kind_of_word(s.subrange(start, end))
                &&& t.span == (Span { start: start as usize, end: end as usize })
                &&& t.literal@ == s.subrange(start, end)
            }),
    {
        let ghost s = self.spec_input();
        let starting_position = self.position;
        self.next_char();
        proof {
            assert(is_ident_char(s[starting_position as int]));
            lemma_ident_end(s, self.spec_pos());
        }
        loop
            invariant
                self.wf(),
                self.spec_input() == s,
                starting_position < self.spec_pos() <= s.len(),
                ident_end(s, self.spec_pos()) == ident_end(s, starting_position + 1),
            ensures
                self.wf(),
                self.spec_input() == s,
                starting_position < self.spec_pos() <= s.len(),
                self.spec_pos() == ident_end(s, starting_position + 1),
            decreases s.len() - self.spec_pos(),
        {
            match self.peek_char() {
                Some(c) => {
                    if !is_ident_char_exec(c) {
                        proof {
                            assert(ident_end(s, self.spec_pos()) == self.spec_pos());
                        }
                        break;
                    }
                    self.next_char();
                },
                None => {
                    proof {
                        assert(ident_end(s, self.spec_pos()) == self.spec_pos());
                    }
                    break;
                },
            }
        }
        let input = self.input;
        let literal = input.substring_char(starting_position, self.position);
        Token::new(
            TokenKind::from_keyword_or_identifier(literal),
            literal,
            Span::new(starting_position, self.position),
        )
    }

    /// Lexes a numeric token: a maximal run of digits, then — only if a `.`
    /// follows immediately — the `.` and a further maximal run of digits,
    /// which classifies the token as a float literal. A dangling `.` with no
    /// following digits still yields a float literal token; syntactic
    /// validation is left to the parser.
    fn parse_number(&mut self) -> (t: Token<'a>)
        requires
            old(self).wf(),
            old(self).spec_pos() < old(self).spec_input().len(),
            is_digit_char(old(self).spec_input()[old(self).spec_pos()]),
        ensures
            final(self).wf(),
            final(self).spec_input() == old(self).spec_input(),
            ({
                let s = old(self).spec_input();
                let start = old(self).spec_pos();
                let e1 = digits_end(s, start + 1);
                if e1 < s.len() && s[e1] == '.' {
                    let e2 = digits_end(s, e1 + 1);
                    &&& final(self).spec_pos() == e2
                    &&& t.kind == TokenKind::FloatLiteral
                    &&& t.span == (Span { start: start as usize, end: e2 as usize })
                    &&& t.literal@ == s.subrange(start, e2)
                } else {
                    &&& final(self).spec_pos() == e1
                    &&& t.kind == TokenKind::IntegerLiteral
                    &&& t.span == (Span { start: start as usize, end: e1 as usize })
                    &&& t.literal@ == s.subrange(start, e1)
                }
            }),
    {
        let ghost s = self.spec_input();
        let starting_position = self.position;
        let mut token_kind = TokenKind::IntegerLiteral;
        self.next_char();
        proof {
            lemma_digits_end(s, self.spec_pos());
        }
        // Integer part, or the first portion of a float
        loop
            invariant
                self.wf(),
                self.spec_input() == s,
                starting_position < self.spec_pos() <= s.len(),
                digits_end(s, self.spec_pos()) == digits_end(s, starting_position + 1),
            ensures
                self.wf(),
                self.spec_input() == s,
                starting_position < self.spec_pos() <= s.len(),
                self.spec_pos() == digits_end(s, starting_position + 1),
            decreases s.len() - self.spec_pos(),
        {
            match self.peek_char() {
                Some(c) => {
                    if !is_digit_char_exec(c) {
                        proof {
                            assert(digits_end(s, self.spec_pos()) == self.spec_pos());
                        }
                        break;
                    }
                    self.next_char();
                },
                None => {
                    proof {
                        assert(digits_end(s, self.spec_pos()) == self.spec_pos());
                    }
                    break;
                },
            }
        }
        proof {
            lemma_digits_end(s, starting_position + 1);
        }
        // The fractional part, if a `.` follows immediately
        let dot_follows = match self.peek_char() {
            Some(c) => c == '.',
            None => false,
        };
        if dot_follows {
            self.next_char();
            token_kind = TokenKind::FloatLiteral;
            let ghost e1 = digits_end(s, starting_position + 1);
            proof {
                lemma_digits_end(s, e1 + 1);
            }
            loop
                invariant
                    self.wf(),
                    self.spec_input() == s,
                    e1 == digits_end(s, starting_position + 1),
                    e1 < self.spec_pos() <= s.len(),
                    digits_end(s, self.spec_pos()) == digits_end(s, e1 + 1),
                ensures
                    self.wf(),
                    self.spec_input() == s,
                    e1 < self.spec_pos() <= s.len(),
                    self.spec_pos() == digits_end(s, e1 + 1),
                decreases s.len() - self.spec_pos(),
            {
                match self.peek_char() {
                    Some(c) => {
                        if !is_digit_char_exec(c) {
                            proof {
                                assert(digits_end(s, self.spec_pos()) == self.spec_pos());
                            }
                            break;
                        }
                        self.next_char();
                    },
                    None => {
                        proof {
                            assert(digits_end(s, self.spec_pos()) == self.spec_pos());
                        }
                        break;
                    },
                }
            }
        }
        let input = self.input;
        let literal = input.substring_char(starting_position, self.position);
        Token::new(token_kind, literal, Span::new(starting_position, self.position))
    }

    /// Returns the next token starting at the cursor, advancing the cursor
    /// past it, or fails with a lexical error, leaving the cursor on the
    /// offending character. Exhausting the input yields the zero-width
    /// end-of-input token on this and on every later call.
    pub fn next_token(&mut self) -> (r: Result<Token<'a>, LexerError>)
        requires
            old(self).wf(),
        ensures
            final(self).wf(),
            final(self).spec_input() == old(self).spec_input(),
            ({
                let s = old(self).spec_input();
                let pos = old(self).spec_pos();
                match spec_next_token(s, pos) {
                    Ok(st) => {
                        &&& r matches Ok(t)
                        &&& (r matches Ok(t) ==> {
                            &&& t.kind == st.kind
                            &&& t.span == (Span { start: st.start as usize, end: st.end as usize })
                            &&& t.literal@ == s.subrange(st.start, st.end)
                            &&& final(self).spec_pos() == st.end
                        })
                    },
                    Err(e) => r == Err::<Token<'a>, LexerError>(e) && final(self).spec_pos()
                        == ws_end(s, pos),
                }
            }),
    {
        proof {
            lemma_spec_next_token_props(old(self).spec_input(), old(self).spec_pos());
            lemma_ws_end(old(self).spec_input(), old(self).spec_pos());
        }
        self.skip_whitespace();

        let n = self.input.unicode_len();
        if self.position >= n {
            proof {
                let s = old(self).spec_input();
                let p = ws_end(s, old(self).spec_pos());
                assert(s.subrange(p, p) =~= Seq::<char>::empty());
            }
            return Ok(Token::eof(self.position));
        }
        let c = self.input.get_char(self.position);

        if is_letter_exec(c) {
            Ok(self.parse_keyword_or_identifier())
        } else if is_digit_char_exec(c) {
            Ok(self.parse_number())
        } else if let Some(kind) = single_char_kind_exec(c) {
            Ok(self.parse_single_char_token(kind))
        } else if !is_ascii_char_exec(c) {
            Err(LexerError::NonAsciiCharacter { ch: c, span: Span::single(self.position) })
        } else if is_control_char_exec(c) {
            Err(LexerError::AsciiControlCharacter { ch: c, span: Span::single(self.position) })
        } else {
            Err(LexerError::UnexpectedCharacter { ch: c, span: Span::single(self.position) })
        }
    }
}

/// A character the lexical grammar accepts as part of some token or as
/// whitespace.
pub open spec fn clean_char(c: char) -> bool {
    is_ws_char(c) || is_letter(c) || is_digit_char(c) || single_char_kind(c) is Some
}

/// The lexical error, if any, that lexing the source text from `pos` runs
/// into before reaching end-of-input.
pub open spec fn spec_lex_error(s: Seq<char>, pos: int) -> Option<LexerError>
    decreases s.len() - pos when 0 <= pos <= s.len()
{
    match spec_next_token(s, pos) {
        Err(e) => Some(e),
        Ok(st) => if st.kind == TokenKind::Eof {
            None
        } else if pos < st.end <= s.len() {
            spec_lex_error(s, st.end)
        } else {
            None
        },
    }
}

/// One step of the lexical run: the run's first error from `pos` is the
/// error found right at `pos`, or else the first error after the token that
/// begins at `pos`.
pub proof fn lemma_lex_error_step(s: Seq<char>, pos: int)
    requires
        0 <= pos <= s.len(),
    ensures
        match spec_next_token(s, pos) {
            Ok(st) => spec_lex_error(s, pos) == if st.kind == TokenKind::Eof {
                None::<LexerError>
            } else {
                spec_lex_error(s, st.end)
            },
            Err(e) => spec_lex_error(s, pos) == Some(e),
        },
{
    lemma_spec_next_token_props(s, pos);
}

/// End-of-input is idempotent: at the input length, the next token is the
/// zero-width end-of-input token, and the cursor stays where it is, so
/// asking again returns the same token forever.
pub proof fn lemma_eof_idempotent(s: Seq<char>)
    ensures
        spec_next_token(s, s.len() as int) == Ok::<SpecTok, LexerError>(
            SpecTok { kind: TokenKind::Eof, start: s.len() as int, end: s.len() as int },
        ),
{
    assert(ws_end(s, s.len() as int) == s.len() as int);
}

proof fn lemma_non_ascii_rejected_from(s: Seq<char>, pos: int, k: int)
    requires
        0 <= pos <= k < s.len(),
        !is_ascii_char(s[k]),
        forall|j: int| pos <= j < k ==> is_ascii_char(#[trigger] s[j]) && clean_char(s[j]),
    ensures
        spec_lex_error(s, pos) == Some(
            LexerError::NonAsciiCharacter {
                ch: s[k],
                span: Span { start: k as usize, end: (k + 1) as usize },
            },
        ),
    decreases k - pos,
{
    lemma_spec_next_token_props(s, pos);
    lemma_ws_end(s, pos);
    let p = ws_end(s, pos);
    assert(!is_ws_char(s[k]));
    assert(p <= k) by {
        if p > k {
            assert(is_ws_char(s[k]));
        }
    }
    if p == k {
        assert(spec_next_token(s, pos) == Err::<SpecTok, LexerError>(
            LexerError::NonAsciiCharacter {
                ch: s[k],
                span: Span { start: k as usize, end: (k + 1) as usize },
            },
        ));
    } else {
        let c = s[p];
        assert(is_ascii_char(c) && clean_char(c));
        if is_letter(c) {
            lemma_ident_end(s, p + 1);
            let e = ident_end(s, p + 1);
            assert(e <= k) by {
                if e > k {
                    assert(is_ident_char(s[k]));
                }
            }
            lemma_non_ascii_rejected_from(s, e, k);
        } else if is_digit_char(c) {
            lemma_digits_end(s, p + 1);
            let e1 = digits_end(s, p + 1);
            assert(e1 <= k) by {
                if e1 > k {
                    assert(is_digit_char(s[k]));
                }
            }
            if e1 < s.len() && s[e1] == '.' {
                assert(e1 < k);
                lemma_digits_end(s, e1 + 1);
                let e2 = digits_end(s, e1 + 1);
                assert(e2 <= k) by {
                    if e2 > k {
                        assert(is_digit_char(s[k]));
                    }
                }
                lemma_non_ascii_rejected_from(s, e2, k);
            } else {
                lemma_non_ascii_rejected_from(s, e1, k);
            }
        } else {
            assert(single_char_kind(c) is Some);
            lemma_non_ascii_rejected_from(s, p + 1, k);
        }
    }
}

/// Non-ASCII rejection: when the source text holds a character outside the
/// 7-bit ASCII range, and everything before the first such character is
/// part of the lexical grammar, lexing runs into `NonAsciiCharacter` naming
/// exactly that character and its offset. (When an ASCII control character
/// or an unclassifiable character comes first, lexing fails there instead,
/// with the matching error.)
pub proof fn lemma_non_ascii_rejected(s: Seq<char>, k: int)
    requires
        0 <= k < s.len(),
        !is_ascii_char(s[k]),
        forall|j: int| 0 <= j < k ==> is_ascii_char(#[trigger] s[j]) && clean_char(s[j]),
    ensures
        spec_lex_error(s, 0) == Some(
            LexerError::NonAsciiCharacter {
                ch: s[k],
                span: Span { start: k as usize, end: (k + 1) as usize },
            },
        ),
{
    lemma_non_ascii_rejected_from(s, 0, k);
}

/// Executable form of `is_ws_char`.
pub fn is_ws_char_exec(c: char) -> (r: bool)
    ensures
        r == is_ws_char(c),
{
    c == ' ' || c == '\t' || c == '\n' || c == '\r' || c == '\u{b}' || c == '\u{c}'
}

/// Executable form of `is_letter`.
pub fn is_letter_exec(c: char) -> (r: bool)
    ensures
        r == is_letter(c),
{
    ('a' <= c && c <= 'z') || ('A' <= c && c <= 'Z')
}

/// Executable form of `is_digit_char`.
pub fn is_digit_char_exec(c: char) -> (r: bool)
    ensures
        r == is_digit_char(c),
{
    '0' <= c && c <= '9'
}

/// Executable form of `is_ident_char`.
pub fn is_ident_char_exec(c: char) -> (r: bool)
    ensures
        r == is_ident_char(c),
{
    is_letter_exec(c) || is_digit_char_exec(c) || c == '_'
}

/// Executable form of `is_ascii_char`.
pub fn is_ascii_char_exec(c: char) -> (r: bool)
    ensures
        r == is_ascii_char(c),
{
    c as u32 <= 0x7f
}

/// Executable form of `is_control_char`.
pub fn is_control_char_exec(c: char) -> (r: bool)
    ensures
        r == is_control_char(c),
{
    c as u32 <= 0x1f || c as u32 == 0x7f
}

/// Executable form of `single_char_kind`.
pub fn single_char_kind_exec(c: char) -> (r: Option<TokenKind>)
    ensures
        r == single_char_kind(c),
{
    match c {
        ';' => Some(TokenKind::Semicolon),
        '+' => Some(TokenKind::Plus),
        '-' => Some(TokenKind::Minus),
        '*' => Some(TokenKind::Asterisk),
        '/' => Some(TokenKind::ForwardSlash),
        '=' => Some(TokenKind::Equals),
        ',' => Some(TokenKind::Comma),
        '.' => Some(TokenKind::Period),
        '(' => Some(TokenKind::OpeningParen),
        ')' => Some(TokenKind::ClosingParen),
        '[' => Some(TokenKind::OpeningBracket),
        ']' => Some(TokenKind::ClosingBracket),
        '{' => Some(TokenKind::OpeningBrace),
        '}' => Some(TokenKind::ClosingBrace),
        _ => None,
    }
}

} // verus!
