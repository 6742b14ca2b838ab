use drown::keyword::eq_ignore_ascii_case;
use drown::keyword::Keyword;
use drown::lexer::Lexer;
use drown::lexer::LexerError;
use drown::token::Span;
use drown::token::Token;
use drown::token::TokenKind;

fn lex_all(input: &str) -> Result<Vec<(TokenKind, String, Span)>, LexerError> {
    let mut lexer = Lexer::new(input);
    let mut out = Vec::new();
    loop {
        let tok = lexer.next_token()?;
        if tok.kind() == TokenKind::Eof {
            return Ok(out);
        }
        out.push((tok.kind(), tok.literal().to_string(), tok.span()));
    }
}

#[test]
fn lexes_simple_statement() {
    let toks = lex_all("SELECT a, b.c FROM t1;").unwrap();
    let kinds: Vec<TokenKind> = toks.iter().map(|t| t.0).collect();
    assert_eq!(
        kinds,
        vec![
            TokenKind::Keyword(Keyword::Select),
            TokenKind::Identifier,
            TokenKind::Comma,
            TokenKind::Identifier,
            TokenKind::Period,
            TokenKind::Identifier,
            TokenKind::Keyword(Keyword::From),
            TokenKind::Identifier,
            TokenKind::Semicolon,
        ]
    );
    assert_eq!(toks[1].1, "a");
    assert_eq!(toks[3].1, "b");
    assert_eq!(toks[5].1, "c");
    assert_eq!(toks[7].1, "t1");
}

#[test]
fn span_literal_round_trip() {
    // Re-lexing the literal slice stored in any token reproduces exactly
    // the substring of the source text at that token's span.
    let input = "  SELECT a_1 , 42 1.5 12. * ( ) [ ] { } + - / = . ; from T";
    let toks = lex_all(input).unwrap();
    assert!(!toks.is_empty());
    for (kind, literal, span) in toks {
        assert_eq!(&input[span.start..span.end], literal.as_str());
        let relexed = lex_all(&literal).unwrap();
        assert_eq!(relexed.len(), 1);
        assert_eq!(relexed[0].0, kind);
        assert_eq!(relexed[0].1, literal);
    }
}

#[test]
fn eof_is_idempotent() {
    let input = "select   ";
    let mut lexer = Lexer::new(input);
    let first = lexer.next_token().unwrap();
    assert_eq!(first.kind(), TokenKind::Keyword(Keyword::Select));
    for _ in 0..3 {
        let eof = lexer.next_token().unwrap();
        assert_eq!(eof.kind(), TokenKind::Eof);
        assert_eq!(eof.span(), Span::new(input.len(), input.len()));
        assert_eq!(eof.literal(), "");
    }
}

#[test]
fn eof_on_empty_input() {
    let mut lexer = Lexer::new("");
    for _ in 0..3 {
        let eof = lexer.next_token().unwrap();
        assert_eq!(eof.kind(), TokenKind::Eof);
        assert_eq!(eof.span(), Span::new(0, 0));
    }
}

#[test]
fn keywords_are_case_insensitive() {
    for spelling in ["select", "SELECT", "SeLeCt"] {
        let toks = lex_all(spelling).unwrap();
        assert_eq!(toks.len(), 1);
        assert_eq!(toks[0].0, TokenKind::Keyword(Keyword::Select));
    }
    for spelling in ["FROM", "from", "FrOm"] {
        let toks = lex_all(spelling).unwrap();
        assert_eq!(toks[0].0, TokenKind::Keyword(Keyword::From));
    }
}

#[test]
fn keyword_table_lookup() {
    assert_eq!(Keyword::from_word("LIMIT"), Ok(Keyword::Limit));
    assert_eq!(Keyword::from_word("limit"), Ok(Keyword::Limit));
    assert_eq!(Keyword::from_word("outer"), Ok(Keyword::Outer));
    assert!(Keyword::from_word("limits").is_err());
    assert!(Keyword::from_word("").is_err());
    assert_eq!(Keyword::Select.canonical(), "SELECT");
    assert_eq!(Keyword::Dec.canonical(), "DEC");
    assert_eq!(Keyword::Join.canonical(), "JOIN");
}

#[test]
fn identifier_that_is_no_keyword() {
    assert_eq!(
        TokenKind::from_keyword_or_identifier("users"),
        TokenKind::Identifier
    );
    assert_eq!(
        TokenKind::from_keyword_or_identifier("WhErE"),
        TokenKind::Keyword(Keyword::Where)
    );
}

#[test]
fn case_insensitive_comparison() {
    assert!(eq_ignore_ascii_case("AbC", "abc"));
    assert!(eq_ignore_ascii_case("", ""));
    assert!(!eq_ignore_ascii_case("ab", "abc"));
    assert!(!eq_ignore_ascii_case("ab_", "aB1"));
}

#[test]
fn numeric_tokens() {
    let toks = lex_all("123 1.5 12. 0.0 7").unwrap();
    let kinds: Vec<TokenKind> = toks.iter().map(|t| t.0).collect();
    assert_eq!(
        kinds,
        vec![
            TokenKind::IntegerLiteral,
            TokenKind::FloatLiteral,
            TokenKind::FloatLiteral,
            TokenKind::FloatLiteral,
            TokenKind::IntegerLiteral,
        ]
    );
    assert_eq!(toks[2].1, "12.");
}

#[test]
fn non_ascii_is_rejected_with_offset() {
    // Any input whose first offending character is outside 7-bit ASCII
    // fails with NonAsciiCharacter naming the character and its offset.
    let err = lex_all("ab\u{e9}cd").unwrap_err();
    assert_eq!(
        err,
        LexerError::NonAsciiCharacter {
            ch: '\u{e9}',
            span: Span::new(2, 3)
        }
    );

    let err = lex_all("\u{1f600}").unwrap_err();
    assert_eq!(
        err,
        LexerError::NonAsciiCharacter {
            ch: '\u{1f600}',
            span: Span::new(0, 1)
        }
    );
}

#[test]
fn control_character_is_rejected() {
    let err = lex_all("a \u{1}").unwrap_err();
    assert_eq!(
        err,
        LexerError::AsciiControlCharacter {
            ch: '\u{1}',
            span: Span::new(2, 3)
        }
    );
}

#[test]
fn unclassifiable_character_is_rejected() {
    let err = lex_all("a \"text\"").unwrap_err();
    assert_eq!(
        err,
        LexerError::UnexpectedCharacter {
            ch: '"',
            span: Span::new(2, 3)
        }
    );
    let err = lex_all("a < b").unwrap_err();
    assert!(matches!(err, LexerError::UnexpectedCharacter { ch: '<', .. }));
}

#[test]
fn whitespace_only_inputs_lex_to_eof() {
    for input in ["", " ", "\t\n\r \u{b}\u{c}"] {
        let toks = lex_all(input).unwrap();
        assert!(toks.is_empty());
    }
}

#[test]
fn token_constructors() {
    let tok = Token::new(TokenKind::Identifier, "abc", Span::new(4, 7));
    assert_eq!(tok.kind(), TokenKind::Identifier);
    assert_eq!(tok.literal(), "abc");
    assert_eq!(tok.span(), Span::new(4, 7));

    let eof = Token::eof(9);
    assert_eq!(eof.kind(), TokenKind::Eof);
    assert_eq!(eof.literal(), "");
    assert_eq!(eof.span(), Span::zero_width(9));

    assert_eq!(Span::single(3), Span::new(3, 4));
    assert_eq!(Span::empty(), Span::new(0, 0));
}
