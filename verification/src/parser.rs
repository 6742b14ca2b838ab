//! The parser: a recursive-descent consumer of the token stream, with one
//! token of lookahead and no backtracking. It assembles the syntax tree
//! bottom-up, enforcing clause order, arity and nesting rules, and aborts at
//! the first lexical or syntactic failure; no partial tree is produced.

use vstd::prelude::*;

use crate::keyword::eq_ignore_ascii_case;
use crate::keyword::Keyword;
use crate::lexer::is_ascii_char;
use crate::lexer::is_digit_char;
use crate::lexer::is_ws_char;
use crate::lexer::lemma_lex_error_step;
use crate::lexer::lemma_ws_end_all_ws;
use crate::lexer::spec_lex_error;
use crate::lexer::spec_next_token;
use crate::lexer::Lexer;
use crate::lexer::LexerError;
use crate::lexer::lemma_spec_next_token_props;
use crate::statement::AliasedColumnName;
use crate::statement::AliasedFromTable;
use crate::statement::ColumnName;
use crate::statement::Expr;
use crate::statement::FromClause;
use crate::statement::FromTable;
use crate::statement::GroupByClause;
use crate::statement::HavingClause;
use crate::statement::JoinCondition;
use crate::statement::JoinType;
use crate::statement::LimitClause;
use crate::statement::OffsetClause;
use crate::statement::OrderByClause;
use crate::statement::OrderByItem;
use crate::statement::Ordering;
use crate::statement::ResultColumns;
use crate::statement::SelectStatement;
use crate::statement::Statement;
use crate::statement::WhereClause;
use crate::statement::from_clause_depth;
use crate::statement::from_table_depth;
use crate::statement::select_depth;
use crate::statement::statement_depth;
use crate::statement::wf_aliased_column;
use crate::statement::wf_aliased_from_table;
use crate::statement::wf_column_name;
use crate::statement::wf_from_clause;
use crate::statement::wf_join_condition;
use crate::statement::wf_result_columns;
use crate::statement::wf_select;
use crate::statement::wf_statement;
use crate::statement::view_aliased_column;
use crate::statement::view_aliased_from_table;
use crate::statement::view_alias;
use crate::statement::view_column_name;
use crate::statement::view_from_clause;
use crate::statement::view_join_condition;
use crate::statement::view_order_item;
use crate::statement::view_result_columns;
use crate::statement::view_select;
use crate::statement::view_statement;
use crate::statement::SpecAliasedColumnName;
use crate::statement::SpecAliasedFromTable;
use crate::statement::SpecColumnName;
use crate::statement::SpecFromClause;
use crate::statement::SpecFromTable;
use crate::statement::SpecJoinCondition;
use crate::statement::SpecOrderByItem;
use crate::statement::SpecResultColumns;
use crate::statement::SpecSelect;
use crate::statement::SpecStatement;
use crate::lexer::SpecTok;
use crate::keyword::eq_icase;
use crate::token::Span;
use crate::token::Token;
use crate::token::TokenKind;

verus! {

/// The default maximum sub-query nesting depth.
pub const DEFAULT_MAX_DEPTH: u64 = 64;

/// What the parser was looking for when it found something else.
#[derive(Debug, Clone, Copy, PartialEq, Eq, Structural)]
pub enum Expectation {
    Identifier,
    IntegerLiteral,
    Keyword(Keyword),
    Punctuation(TokenKind),
    TableReference,
    JoinConditionStart,
    ConditionExpression,
    StatementTerminator,
}

/// A failed parse: the first lexical or syntactic error found. Each
/// syntactic error names what was expected and carries the span of the
/// token actually found (the zero-width end-of-input span when the input
/// was exhausted early).
#[derive(Debug, Clone, Copy, PartialEq, Eq, Structural)]
pub enum StatementParseError {
    /// The lexer found an illegal character.
    LexerError(LexerError),
    /// No statement begins here. When nothing but whitespace was found at
    /// all, the span is the zero-width span at the start of the input.
    ExpectedStatement { span: Span },
    /// An expected token, keyword or structure was absent.
    UnexpectedToken { expected: Expectation, span: Span },
    /// A clause keyword appeared out of the fixed clause order, or twice.
    ClauseOutOfOrder { keyword: Keyword, span: Span },
    /// A sub-query was nested beyond the configured maximum depth.
    NestingTooDeep { span: Span },
    /// An `OFFSET`/`LIMIT` literal does not fit in 64 unsigned bits.
    IntegerOutOfRange { span: Span },
    /// Tokens were left over after a recognized statement, before the next
    /// `;` or end-of-input.
    TrailingTokens { span: Span },
}

/// The numeric value of one ASCII digit character.
pub open spec fn digit_of(c: char) -> int {
    c as u32 - 48
}

/// The numeric value of a string of ASCII digits, most significant first.
pub open spec fn digits_value(s: Seq<char>) -> int
    decreases s.len(),
{
    if s.len() == 0 {
        0
    } else {
        digits_value(s.drop_last()) * 10 + digit_of(s.last())
    }
}

proof fn lemma_digits_value_nonneg(s: Seq<char>)
    requires
        forall|j: int| 0 <= j < s.len() ==> is_digit_char(#[trigger] s[j]),
    ensures
        digits_value(s) >= 0,
    decreases s.len(),
{
    if s.len() > 0 {
        lemma_digits_value_nonneg(s.drop_last());
    }
}

proof fn lemma_digits_value_grows(s: Seq<char>, i: int)
    requires
        forall|j: int| 0 <= j < s.len() ==> is_digit_char(#[trigger] s[j]),
        0 <= i <= s.len(),
    ensures
        digits_value(s) >= digits_value(s.subrange(0, i)),
    decreases s.len() - i,
{
    if i < s.len() {
        let a = s.subrange(0, i);
        let b = s.subrange(0, i + 1);
        assert(b.drop_last() =~= a);
        lemma_digits_value_nonneg(a);
        lemma_digits_value_grows(s, i + 1);
    } else {
        assert(s.subrange(0, i) =~= s);
    }
}

/// Reads the numeric value of a string of ASCII digits, or reports that the
/// value does not fit in 64 unsigned bits: `Some(v)` exactly when the value
/// is `v` and fits, `None` exactly when it overflows.
pub fn parse_u64_from_digits(literal: &str) -> (r: Option<u64>)
    requires
        forall|j: int| 0 <= j < literal@.len() ==> is_digit_char(#[trigger] literal@[j]),
    ensures
        match r {
            Some(v) => v == digits_value(literal@),
            None => digits_value(literal@) > u64::MAX,
        },
{
    let ghost s = literal@;
    let n = literal.unicode_len();
    let mut value: u64 = 0;
    let mut i: usize = 0;
    proof {
        assert(s.subrange(0, 0) =~= Seq::<char>::empty());
    }
    while i < n
        invariant
            n == s.len(),
            s == literal@,
            forall|j: int| 0 <= j < s.len() ==> is_digit_char(#[trigger] s[j]),
            0 <= i <= n,
            value == digits_value(s.subrange(0, i as int)),
        decreases n - i,
    {
        let c = literal.get_char(i);
        let d: u64 = (c as u32 - 48) as u64;
        proof {
            assert(is_digit_char(s[i as int]));
            assert(d == digit_of(s[i as int]));
            assert(d <= 9);
        }
        if value > (u64::MAX - d) / 10 {
            proof {
                let prefix = s.subrange(0, i as int + 1);
                assert(prefix.drop_last() =~= s.subrange(0, i as int));
                assert(prefix.last() == s[i as int]);
                assert(digits_value(prefix) == value * 10 + d);
                assert(value * 10 + d > u64::MAX) by (nonlinear_arith)
                    requires
                        value > (u64::MAX - d) / 10,
                        0 <= d <= 9,
                        value >= 0,
                {
                }
                lemma_digits_value_grows(s, i as int + 1);
            }
            return None;
        }
        proof {
            assert(value * 10 + d <= u64::MAX) by (nonlinear_arith)
                requires
                    value <= (u64::MAX - d) / 10,
                    0 <= d <= 9,
                    value >= 0,
            {
            }
            let prefix = s.subrange(0, i as int + 1);
            assert(prefix.drop_last() =~= s.subrange(0, i as int));
            assert(prefix.last() == s[i as int]);
        }
        value = value * 10 + d;
        i += 1;
    }
    proof {
        assert(s.subrange(0, n as int) =~= s);
    }
    Some(value)
}

/// What the parser may assume of every token the lexer hands it: word-shaped
/// and numeric tokens carry the right characters.
pub open spec fn token_ok(t: Token<'_>) -> bool {
    &&& ((t.kind == TokenKind::Identifier || (t.kind matches TokenKind::Keyword(_)))
        ==> t.literal@.len() > 0)
    &&& (t.kind == TokenKind::IntegerLiteral ==> t.literal@.len() > 0 && forall|j: int|
        0 <= j < t.literal@.len() ==> is_digit_char(#[trigger] t.literal@[j]))
}

/// The keywords that introduce one of the optional trailing clauses.
pub open spec fn is_clause_kw(k: Keyword) -> bool {
    ||| k == Keyword::Where
    ||| k == Keyword::Group
    ||| k == Keyword::Having
    ||| k == Keyword::Order
    ||| k == Keyword::Offset
    ||| k == Keyword::Limit
}

fn is_clause_kw_exec(k: Keyword) -> (r: bool)
    ensures
        r == is_clause_kw(k),
{
    match k {
        Keyword::Where | Keyword::Group | Keyword::Having | Keyword::Order | Keyword::Offset
            | Keyword::Limit => true,
        _ => false,
    }
}

/// The tokens that end the forward scan over an unparsed condition body
/// (after `WHERE`, `HAVING` or `ON`): the end of the statement, the end of
/// an enclosing parenthesis, a clause keyword, or a join keyword.
pub open spec fn is_scan_stop(kind: TokenKind) -> bool {
    ||| kind == TokenKind::Semicolon
    ||| kind == TokenKind::Eof
    ||| kind == TokenKind::ClosingParen
    ||| (kind matches TokenKind::Keyword(k) && (is_clause_kw(k) || is_join_start_kw(k)))
}

/// The keywords that may begin a join specification.
pub open spec fn is_join_start_kw(k: Keyword) -> bool {
    ||| k == Keyword::Join
    ||| k == Keyword::Inner
    ||| k == Keyword::Left
    ||| k == Keyword::Right
    ||| k == Keyword::Full
}

fn is_join_start_kw_exec(k: Keyword) -> (r: bool)
    ensures
        r == is_join_start_kw(k),
{
    match k {
        Keyword::Join | Keyword::Inner | Keyword::Left | Keyword::Right | Keyword::Full => true,
        _ => false,
    }
}

fn is_scan_stop_exec(kind: TokenKind) -> (r: bool)
    ensures
        r == is_scan_stop(kind),
{
    match kind {
        TokenKind::Semicolon | TokenKind::Eof | TokenKind::ClosingParen => true,
        TokenKind::Keyword(k) => is_clause_kw_exec(k) || is_join_start_kw_exec(k),
        _ => false,
    }
}


/// The successful token beginning at `q`; meaningful only where the lexical
/// run is known to succeed there, which holds at every position the
/// specification parser below reaches.
pub open spec fn spec_tok(s: Seq<char>, q: int) -> SpecTok {
    spec_next_token(s, q)->Ok_0
}

/// The span of a token, as the parser reports it.
pub open spec fn tok_span(st: SpecTok) -> Span {
    Span { start: st.start as usize, end: st.end as usize }
}

/// Consumes the token at `q`: the position the following token is read
/// from, or the lexical error that reading it raises.
pub open spec fn spec_step(s: Seq<char>, q: int) -> Result<int, StatementParseError> {
    match spec_next_token(s, q) {
        Err(e) => Err(StatementParseError::LexerError(e)),
        Ok(st) => match spec_next_token(s, st.end) {
            Ok(_) => Ok(st.end),
            Err(e) => Err(StatementParseError::LexerError(e)),
        },
    }
}

/// The error placed on recursion branches that the lexer's strict progress
/// makes unreachable: no reachable parse takes this value from there.
pub open spec fn spec_stuck() -> StatementParseError {
    StatementParseError::TrailingTokens { span: Span { start: 0, end: 0 } }
}

/// Consuming the given keyword.
pub open spec fn spec_expect_kw(s: Seq<char>, q: int, k: Keyword) -> Result<
    int,
    StatementParseError,
> {
    let st = spec_tok(s, q);
    if st.kind == TokenKind::Keyword(k) {
        spec_step(s, q)
    } else {
        Err(StatementParseError::UnexpectedToken { expected: Expectation::Keyword(k), span: tok_span(st) })
    }
}

/// Consuming the given punctuation token.
pub open spec fn spec_expect_punct(s: Seq<char>, q: int, kind: TokenKind) -> Result<
    int,
    StatementParseError,
> {
    let st = spec_tok(s, q);
    if st.kind == kind {
        spec_step(s, q)
    } else {
        Err(
            StatementParseError::UnexpectedToken {
                expected: Expectation::Punctuation(kind),
                span: tok_span(st),
            },
        )
    }
}

/// Consuming one identifier and its spelling.
pub open spec fn spec_identifier(s: Seq<char>, q: int) -> Result<
    (Seq<char>, int),
    StatementParseError,
> {
    let st = spec_tok(s, q);
    if st.kind == TokenKind::Identifier {
        match spec_step(s, q) {
            Err(e) => Err(e),
            Ok(q1) => Ok((s.subrange(st.start, st.end), q1)),
        }
    } else {
        Err(
            StatementParseError::UnexpectedToken {
                expected: Expectation::Identifier,
                span: tok_span(st),
            },
        )
    }
}

/// An optional alias: the contextual word `as`, then the alias identifier.
pub open spec fn spec_alias(s: Seq<char>, q: int) -> Result<
    (Option<Seq<char>>, int),
    StatementParseError,
> {
    let st = spec_tok(s, q);
    if st.kind == TokenKind::Identifier && eq_icase(s.subrange(st.start, st.end), "as"@) {
        match spec_step(s, q) {
            Err(e) => Err(e),
            Ok(q1) => match spec_identifier(s, q1) {
                Err(e) => Err(e),
                Ok((name, q2)) => Ok((Some(name), q2)),
            },
        }
    } else {
        Ok((None, q))
    }
}

/// A column reference: an identifier, optionally qualified by one `.`.
pub open spec fn spec_column_name(s: Seq<char>, q: int) -> Result<
    (SpecColumnName, int),
    StatementParseError,
> {
    match spec_identifier(s, q) {
        Err(e) => Err(e),
        Ok((first, q1)) => {
            if spec_tok(s, q1).kind == TokenKind::Period {
                match spec_step(s, q1) {
                    Err(e) => Err(e),
                    Ok(q2) => match spec_identifier(s, q2) {
                        Err(e) => Err(e),
                        Ok((second, q3)) => Ok(
                            (
                                SpecColumnName::Qualified {
                                    table_name: first,
                                    column_name: second,
                                },
                                q3,
                            ),
                        ),
                    },
                }
            } else {
                Ok((SpecColumnName::Direct { name: first }, q1))
            }
        },
    }
}

/// One selected column with its optional alias.
pub open spec fn spec_aliased_column(s: Seq<char>, q: int) -> Result<
    (SpecAliasedColumnName, int),
    StatementParseError,
> {
    match spec_column_name(s, q) {
        Err(e) => Err(e),
        Ok((column_name, q1)) => match spec_alias(s, q1) {
            Err(e) => Err(e),
            Ok((alias, q2)) => Ok((SpecAliasedColumnName { column_name, alias }, q2)),
        },
    }
}

/// The selected columns after the first one: `, column` repeated.
pub open spec fn spec_columns_rest(s: Seq<char>, q: int, acc: Seq<SpecAliasedColumnName>) -> Result<
    (Seq<SpecAliasedColumnName>, int),
    StatementParseError,
>
    decreases s.len() - q,
{
    if spec_tok(s, q).kind == TokenKind::Comma {
        match spec_step(s, q) {
            Err(e) => Err(e),
            Ok(q1) => match spec_aliased_column(s, q1) {
                Err(e) => Err(e),
                Ok((col, q2)) => if q < q2 <= s.len() {
                    spec_columns_rest(s, q2, acc.push(col))
                } else {
                    Err(spec_stuck())
                },
            },
        }
    } else {
        Ok((acc, q))
    }
}

/// The result columns: a lone `*`, or a non-empty column list.
pub open spec fn spec_result_columns(s: Seq<char>, q: int) -> Result<
    (SpecResultColumns, int),
    StatementParseError,
> {
    if spec_tok(s, q).kind == TokenKind::Asterisk {
        match spec_step(s, q) {
            Err(e) => Err(e),
            Ok(q1) => Ok((SpecResultColumns::All, q1)),
        }
    } else {
        match spec_aliased_column(s, q) {
            Err(e) => Err(e),
            Ok((col, q1)) => match spec_columns_rest(s, q1, seq![col]) {
                Err(e) => Err(e),
                Ok((cols, q2)) => Ok((SpecResultColumns::Specific(cols), q2)),
            },
        }
    }
}

/// The forward scan over an unparsed condition body: consumes up to the
/// next stop token, tracking the end of the last consumed token.
pub open spec fn spec_scan(s: Seq<char>, q: int, end_acc: int) -> Result<
    (int, int),
    StatementParseError,
>
    decreases s.len() - q,
{
    let st = spec_tok(s, q);
    if is_scan_stop(st.kind) {
        Ok((end_acc, q))
    } else {
        match spec_step(s, q) {
            Err(e) => Err(e),
            Ok(q1) => if q < q1 <= s.len() {
                spec_scan(s, q1, st.end)
            } else {
                Err(spec_stuck())
            },
        }
    }
}

/// A clause that is the given keyword followed by a scanned condition body:
/// whether it was present, and the position after it.
pub open spec fn spec_opt_scan_clause(s: Seq<char>, q: int, kw: Keyword) -> Result<
    (bool, int),
    StatementParseError,
> {
    if spec_tok(s, q).kind == TokenKind::Keyword(kw) {
        match spec_step(s, q) {
            Err(e) => Err(e),
            Ok(q1) => match spec_scan(s, q1, spec_tok(s, q1).start) {
                Err(e) => Err(e),
                Ok((_end, q2)) => Ok((true, q2)),
            },
        }
    } else {
        Ok((false, q))
    }
}

/// The column references after the first one of a `GROUP BY` list.
pub open spec fn spec_group_rest(s: Seq<char>, q: int, acc: Seq<SpecColumnName>) -> Result<
    (Seq<SpecColumnName>, int),
    StatementParseError,
>
    decreases s.len() - q,
{
    if spec_tok(s, q).kind == TokenKind::Comma {
        match spec_step(s, q) {
            Err(e) => Err(e),
            Ok(q1) => match spec_column_name(s, q1) {
                Err(e) => Err(e),
                Ok((col, q2)) => if q < q2 <= s.len() {
                    spec_group_rest(s, q2, acc.push(col))
                } else {
                    Err(spec_stuck())
                },
            },
        }
    } else {
        Ok((acc, q))
    }
}

/// A non-empty comma-separated list of column references.
pub open spec fn spec_column_list(s: Seq<char>, q: int) -> Result<
    (Seq<SpecColumnName>, int),
    StatementParseError,
> {
    match spec_column_name(s, q) {
        Err(e) => Err(e),
        Ok((col, q1)) => spec_group_rest(s, q1, seq![col]),
    }
}

/// One `ORDER BY` item: a column reference with an optional direction.
pub open spec fn spec_order_item(s: Seq<char>, q: int) -> Result<
    (SpecOrderByItem, int),
    StatementParseError,
> {
    match spec_column_name(s, q) {
        Err(e) => Err(e),
        Ok((column_name, q1)) => {
            let st1 = spec_tok(s, q1);
            if st1.kind == TokenKind::Keyword(Keyword::Asc) {
                match spec_step(s, q1) {
                    Err(e) => Err(e),
                    Ok(q2) => Ok(
                        (
                            SpecOrderByItem {
                                column_name,
                                ordering: Some(Ordering::Ascending),
                            },
                            q2,
                        ),
                    ),
                }
            } else if st1.kind == TokenKind::Keyword(Keyword::Dec) {
                match spec_step(s, q1) {
                    Err(e) => Err(e),
                    Ok(q2) => Ok(
                        (
                            SpecOrderByItem {
                                column_name,
                                ordering: Some(Ordering::Descending),
                            },
                            q2,
                        ),
                    ),
                }
            } else {
                Ok((SpecOrderByItem { column_name, ordering: None }, q1))
            }
        },
    }
}

/// The `ORDER BY` items after the first one.
pub open spec fn spec_order_rest(s: Seq<char>, q: int, acc: Seq<SpecOrderByItem>) -> Result<
    (Seq<SpecOrderByItem>, int),
    StatementParseError,
>
    decreases s.len() - q,
{
    if spec_tok(s, q).kind == TokenKind::Comma {
        match spec_step(s, q) {
            Err(e) => Err(e),
            Ok(q1) => match spec_order_item(s, q1) {
                Err(e) => Err(e),
                Ok((item, q2)) => if q < q2 <= s.len() {
                    spec_order_rest(s, q2, acc.push(item))
                } else {
                    Err(spec_stuck())
                },
            },
        }
    } else {
        Ok((acc, q))
    }
}

/// A non-empty list of `ORDER BY` items.
pub open spec fn spec_order_list(s: Seq<char>, q: int) -> Result<
    (Seq<SpecOrderByItem>, int),
    StatementParseError,
> {
    match spec_order_item(s, q) {
        Err(e) => Err(e),
        Ok((item, q1)) => spec_order_rest(s, q1, seq![item]),
    }
}

/// The `USING` column names after the first one.
pub open spec fn spec_using_rest(s: Seq<char>, q: int, acc: Seq<Seq<char>>) -> Result<
    (Seq<Seq<char>>, int),
    StatementParseError,
>
    decreases s.len() - q,
{
    if spec_tok(s, q).kind == TokenKind::Comma {
        match spec_step(s, q) {
            Err(e) => Err(e),
            Ok(q1) => match spec_identifier(s, q1) {
                Err(e) => Err(e),
                Ok((name, q2)) => if q < q2 <= s.len() {
                    spec_using_rest(s, q2, acc.push(name))
                } else {
                    Err(spec_stuck())
                },
            },
        }
    } else {
        Ok((acc, q))
    }
}

/// The `[OUTER] JOIN` tail of an outer-join spelling.
pub open spec fn spec_outer_join_suffix(s: Seq<char>, q: int) -> Result<
    int,
    StatementParseError,
> {
    if spec_tok(s, q).kind == TokenKind::Keyword(Keyword::Outer) {
        match spec_step(s, q) {
            Err(e) => Err(e),
            Ok(q1) => spec_expect_kw(s, q1, Keyword::Join),
        }
    } else {
        spec_expect_kw(s, q, Keyword::Join)
    }
}

/// A join specification's type keywords, up to and including `JOIN`.
pub open spec fn spec_join_type(s: Seq<char>, q: int) -> Result<
    (JoinType, int),
    StatementParseError,
> {
    let st = spec_tok(s, q);
    if st.kind == TokenKind::Keyword(Keyword::Join) {
        match spec_step(s, q) {
            Err(e) => Err(e),
            Ok(q1) => Ok((JoinType::Inner, q1)),
        }
    } else if st.kind == TokenKind::Keyword(Keyword::Inner) {
        match spec_step(s, q) {
            Err(e) => Err(e),
            Ok(q1) => match spec_expect_kw(s, q1, Keyword::Join) {
                Err(e) => Err(e),
                Ok(q2) => Ok((JoinType::Inner, q2)),
            },
        }
    } else if st.kind == TokenKind::Keyword(Keyword::Left) {
        match spec_step(s, q) {
            Err(e) => Err(e),
            Ok(q1) => match spec_outer_join_suffix(s, q1) {
                Err(e) => Err(e),
                Ok(q2) => Ok((JoinType::LeftOuter, q2)),
            },
        }
    } else if st.kind == TokenKind::Keyword(Keyword::Right) {
        match spec_step(s, q) {
            Err(e) => Err(e),
            Ok(q1) => match spec_outer_join_suffix(s, q1) {
                Err(e) => Err(e),
                Ok(q2) => Ok((JoinType::RightOuter, q2)),
            },
        }
    } else if st.kind == TokenKind::Keyword(Keyword::Full) {
        match spec_step(s, q) {
            Err(e) => Err(e),
            Ok(q1) => match spec_outer_join_suffix(s, q1) {
                Err(e) => Err(e),
                Ok(q2) => Ok((JoinType::FullOuter, q2)),
            },
        }
    } else {
        Err(
            StatementParseError::UnexpectedToken {
                expected: Expectation::Keyword(Keyword::Join),
                span: tok_span(st),
            },
        )
    }
}

/// A join condition: `ON <condition>` or `USING (<column list>)`.
pub open spec fn spec_join_condition(s: Seq<char>, q: int) -> Result<
    (SpecJoinCondition, int),
    StatementParseError,
> {
    let st = spec_tok(s, q);
    if st.kind == TokenKind::Keyword(Keyword::On) {
        match spec_step(s, q) {
            Err(e) => Err(e),
            Ok(q1) => {
                let st1 = spec_tok(s, q1);
                if is_scan_stop(st1.kind) {
                    Err(
                        StatementParseError::UnexpectedToken {
                            expected: Expectation::ConditionExpression,
                            span: tok_span(st1),
                        },
                    )
                } else {
                    match spec_scan(s, q1, st1.start) {
                        Err(e) => Err(e),
                        Ok((end, q2)) => Ok(
                            (
                                SpecJoinCondition::On(
                                    Expr::Opaque {
                                        span: Span {
                                            start: st1.start as usize,
                                            end: (if end < st1.start {
                                                st1.start
                                            } else {
                                                end
                                            }) as usize,
                                        },
                                    },
                                ),
                                q2,
                            ),
                        ),
                    }
                }
            },
        }
    } else if st.kind == TokenKind::Keyword(Keyword::Using) {
        match spec_step(s, q) {
            Err(e) => Err(e),
            Ok(q1) => match spec_expect_punct(s, q1, TokenKind::OpeningParen) {
                Err(e) => Err(e),
                Ok(q2) => match spec_identifier(s, q2) {
                    Err(e) => Err(e),
                    Ok((first, q3)) => match spec_using_rest(s, q3, seq![first]) {
                        Err(e) => Err(e),
                        Ok((names, q4)) => match spec_expect_punct(
                            s,
                            q4,
                            TokenKind::ClosingParen,
                        ) {
                            Err(e) => Err(e),
                            Ok(q5) => Ok((SpecJoinCondition::Using(names), q5)),
                        },
                    },
                },
            },
        }
    } else {
        Err(
            StatementParseError::UnexpectedToken {
                expected: Expectation::JoinConditionStart,
                span: tok_span(st),
            },
        )
    }
}

/// The integer argument of `OFFSET` or `LIMIT`.
pub open spec fn spec_u64_argument(s: Seq<char>, q: int) -> Result<
    (u64, int),
    StatementParseError,
> {
    let st = spec_tok(s, q);
    if st.kind == TokenKind::IntegerLiteral {
        let v = digits_value(s.subrange(st.start, st.end));
        if v > u64::MAX {
            Err(StatementParseError::IntegerOutOfRange { span: tok_span(st) })
        } else {
            match spec_step(s, q) {
                Err(e) => Err(e),
                Ok(q1) => Ok((v as u64, q1)),
            }
        }
    } else {
        Err(
            StatementParseError::UnexpectedToken {
                expected: Expectation::IntegerLiteral,
                span: tok_span(st),
            },
        )
    }
}

/// A clause that is the given keyword followed by an integer argument.
pub open spec fn spec_opt_u64_clause(s: Seq<char>, q: int, kw: Keyword) -> Result<
    (Option<u64>, int),
    StatementParseError,
> {
    if spec_tok(s, q).kind == TokenKind::Keyword(kw) {
        match spec_step(s, q) {
            Err(e) => Err(e),
            Ok(q1) => match spec_u64_argument(s, q1) {
                Err(e) => Err(e),
                Ok((v, q2)) => Ok((Some(v), q2)),
            },
        }
    } else {
        Ok((None, q))
    }
}

/// An optional `GROUP BY` clause.
pub open spec fn spec_opt_group_by(s: Seq<char>, q: int) -> Result<
    (Option<Seq<SpecColumnName>>, int),
    StatementParseError,
> {
    if spec_tok(s, q).kind == TokenKind::Keyword(Keyword::Group) {
        match spec_step(s, q) {
            Err(e) => Err(e),
            Ok(q1) => match spec_expect_kw(s, q1, Keyword::By) {
                Err(e) => Err(e),
                Ok(q2) => match spec_column_list(s, q2) {
                    Err(e) => Err(e),
                    Ok((cols, q3)) => Ok((Some(cols), q3)),
                },
            },
        }
    } else {
        Ok((None, q))
    }
}

/// An optional `ORDER BY` clause.
pub open spec fn spec_opt_order_by(s: Seq<char>, q: int) -> Result<
    (Option<Seq<SpecOrderByItem>>, int),
    StatementParseError,
> {
    if spec_tok(s, q).kind == TokenKind::Keyword(Keyword::Order) {
        match spec_step(s, q) {
            Err(e) => Err(e),
            Ok(q1) => match spec_expect_kw(s, q1, Keyword::By) {
                Err(e) => Err(e),
                Ok(q2) => match spec_order_list(s, q2) {
                    Err(e) => Err(e),
                    Ok((items, q3)) => Ok((Some(items), q3)),
                },
            },
        }
    } else {
        Ok((None, q))
    }
}

/// The statement-tail check: a statement must end at `;`, `)` or
/// end-of-input; a clause keyword there is out of the fixed order or a
/// duplicate; anything else is a trailing token.
pub open spec fn spec_select_tail(s: Seq<char>, q: int) -> Option<StatementParseError> {
    let st = spec_tok(s, q);
    if st.kind == TokenKind::Semicolon || st.kind == TokenKind::Eof || st.kind
        == TokenKind::ClosingParen {
        None
    } else {
        match st.kind {
            TokenKind::Keyword(kw) => if is_clause_kw(kw) {
                Some(StatementParseError::ClauseOutOfOrder { keyword: kw, span: tok_span(st) })
            } else {
                Some(
                    StatementParseError::UnexpectedToken {
                        expected: Expectation::StatementTerminator,
                        span: tok_span(st),
                    },
                )
            },
            _ => Some(
                StatementParseError::UnexpectedToken {
                    expected: Expectation::StatementTerminator,
                    span: tok_span(st),
                },
            ),
        }
    }
}


/// One table reference with its optional alias: a parenthesized sub-query
/// or a bare table name.
pub open spec fn spec_aliased_from_table(s: Seq<char>, q: int, d: int) -> Result<
    (SpecAliasedFromTable, int),
    StatementParseError,
>
    decreases d, s.len() - q, 0int,
{
    let st = spec_tok(s, q);
    if st.kind == TokenKind::OpeningParen {
        match spec_step(s, q) {
            Err(e) => Err(e),
            Ok(q1) => {
                let st1 = spec_tok(s, q1);
                if st1.kind != TokenKind::Keyword(Keyword::Select) {
                    Err(
                        StatementParseError::UnexpectedToken {
                            expected: Expectation::Keyword(Keyword::Select),
                            span: tok_span(st1),
                        },
                    )
                } else if d <= 1 {
                    Err(StatementParseError::NestingTooDeep { span: tok_span(st1) })
                } else {
                    match spec_select(s, q1, d - 1) {
                        Err(e) => Err(e),
                        Ok((sel, q2)) => match spec_expect_punct(s, q2, TokenKind::ClosingParen) {
                            Err(e) => Err(e),
                            Ok(q3) => match spec_alias(s, q3) {
                                Err(e) => Err(e),
                                Ok((alias, q4)) => Ok(
                                    (
                                        SpecAliasedFromTable {
                                            table: SpecFromTable::DerivedTable {
                                                query: Box::new(sel),
                                            },
                                            alias,
                                        },
                                        q4,
                                    ),
                                ),
                            },
                        },
                    }
                }
            },
        }
    } else if st.kind == TokenKind::Identifier {
        match spec_identifier(s, q) {
            Err(e) => Err(e),
            Ok((name, q1)) => match spec_alias(s, q1) {
                Err(e) => Err(e),
                Ok((alias, q2)) => Ok(
                    (
                        SpecAliasedFromTable { table: SpecFromTable::TableName { name }, alias },
                        q2,
                    ),
                ),
            },
        }
    } else {
        Err(
            StatementParseError::UnexpectedToken {
                expected: Expectation::TableReference,
                span: tok_span(st),
            },
        )
    }
}

/// The join chain after the first table reference: each join wraps the
/// clause built so far as its left side.
pub open spec fn spec_joins(s: Seq<char>, q: int, d: int, acc: SpecFromClause) -> Result<
    (SpecFromClause, int),
    StatementParseError,
>
    decreases d, s.len() - q, 1int,
{
    let st = spec_tok(s, q);
    let is_join = match st.kind {
        TokenKind::Keyword(k) => is_join_start_kw(k),
        _ => false,
    };
    if !is_join {
        Ok((acc, q))
    } else {
        match spec_join_type(s, q) {
            Err(e) => Err(e),
            Ok((join_type, q1)) => if q <= q1 <= s.len() {
                match spec_aliased_from_table(s, q1, d) {
                    Err(e) => Err(e),
                    Ok((right, q2)) => match spec_join_condition(s, q2) {
                        Err(e) => Err(e),
                        Ok((join_condition, q3)) => if q < q3 <= s.len() {
                            spec_joins(
                                s,
                                q3,
                                d,
                                SpecFromClause::Join {
                                    left: Box::new(acc),
                                    right: Box::new(right),
                                    join_type,
                                    join_condition,
                                },
                            )
                        } else {
                            Err(spec_stuck())
                        },
                    },
                }
            } else {
                Err(spec_stuck())
            },
        }
    }
}

/// The body of a `FROM` clause: one table reference, then any number of
/// join specifications.
pub open spec fn spec_from_clause(s: Seq<char>, q: int, d: int) -> Result<
    (SpecFromClause, int),
    StatementParseError,
>
    decreases d, s.len() - q, 2int,
{
    match spec_aliased_from_table(s, q, d) {
        Err(e) => Err(e),
        Ok((table, q1)) => if q <= q1 <= s.len() {
            spec_joins(s, q1, d, SpecFromClause::Direct { table })
        } else {
            Err(spec_stuck())
        },
    }
}

/// One `SELECT` statement, from its `SELECT` keyword to its end at `;`,
/// `)` or end-of-input, with its clauses in the fixed order.
pub open spec fn spec_select(s: Seq<char>, q: int, d: int) -> Result<
    (SpecSelect, int),
    StatementParseError,
>
    decreases d, s.len() - q, 3int,
{
    match spec_expect_kw(s, q, Keyword::Select) {
        Err(e) => Err(e),
        Ok(q1) => match spec_result_columns(s, q1) {
            Err(e) => Err(e),
            Ok((columns, q2)) => match spec_expect_kw(s, q2, Keyword::From) {
                Err(e) => Err(e),
                Ok(q3) => if q <= q3 <= s.len() {
                    match spec_from_clause(s, q3, d) {
                        Err(e) => Err(e),
                        Ok((from_clause, q4)) => match spec_opt_scan_clause(
                            s,
                            q4,
                            Keyword::Where,
                        ) {
                            Err(e) => Err(e),
                            Ok((where_present, q5)) => match spec_opt_group_by(s, q5) {
                                Err(e) => Err(e),
                                Ok((group_by, q6)) => match spec_opt_scan_clause(
                                    s,
                                    q6,
                                    Keyword::Having,
                                ) {
                                    Err(e) => Err(e),
                                    Ok((having_present, q7)) => match spec_opt_order_by(s, q7) {
                                        Err(e) => Err(e),
                                        Ok((order_by, q8)) => match spec_opt_u64_clause(
                                            s,
                                            q8,
                                            Keyword::Offset,
                                        ) {
                                            Err(e) => Err(e),
                                            Ok((offset, q9)) => match spec_opt_u64_clause(
                                                s,
                                                q9,
                                                Keyword::Limit,
                                            ) {
                                                Err(e) => Err(e),
                                                Ok((limit, q10)) => match spec_select_tail(
                                                    s,
                                                    q10,
                                                ) {
                                                    Some(e) => Err(e),
                                                    None => Ok(
                                                        (
                                                            SpecSelect {
                                                                columns,
                                                                from_clause,
                                                                where_present,
                                                                group_by,
                                                                having_present,
                                                                order_by,
                                                                offset,
                                                                limit,
                                                            },
                                                            q10,
                                                        ),
                                                    ),
                                                },
                                            },
                                        },
                                    },
                                },
                            },
                        },
                    }
                } else {
                    Err(spec_stuck())
                },
            },
        },
    }
}

/// The statement list: one `SELECT` statement after another, each ended by
/// `;` (optional before end-of-input).
pub open spec fn spec_statements_rest(
    s: Seq<char>,
    q: int,
    d: int,
    acc: Seq<SpecStatement>,
) -> Result<(Seq<SpecStatement>, int), StatementParseError>
    decreases s.len() - q,
{
    let st = spec_tok(s, q);
    if st.kind != TokenKind::Keyword(Keyword::Select) {
        Err(StatementParseError::ExpectedStatement { span: tok_span(st) })
    } else {
        match spec_select(s, q, d) {
            Err(e) => Err(e),
            Ok((sel, q1)) => {
                let acc2 = acc.push(SpecStatement::Select(sel));
                let st1 = spec_tok(s, q1);
                if st1.kind == TokenKind::Semicolon {
                    match spec_step(s, q1) {
                        Err(e) => Err(e),
                        Ok(q2) => if spec_tok(s, q2).kind == TokenKind::Eof {
                            Ok((acc2, q2))
                        } else if q < q2 <= s.len() {
                            spec_statements_rest(s, q2, d, acc2)
                        } else {
                            Err(spec_stuck())
                        },
                    }
                } else if st1.kind == TokenKind::Eof {
                    Ok((acc2, q1))
                } else {
                    Err(StatementParseError::TrailingTokens { span: tok_span(st1) })
                }
            },
        }
    }
}

/// The semicolon-separated statement list making up the whole input. An
/// input holding no token at all fails with `ExpectedStatement` at the
/// zero-width start-of-input span.
pub open spec fn spec_statements(s: Seq<char>, q: int, d: int) -> Result<
    Seq<SpecStatement>,
    StatementParseError,
> {
    if spec_tok(s, q).kind == TokenKind::Eof {
        Err(StatementParseError::ExpectedStatement { span: Span { start: 0, end: 0 } })
    } else {
        match spec_statements_rest(s, q, d, Seq::empty()) {
            Err(e) => Err(e),
            Ok((statements, _q)) => Ok(statements),
        }
    }
}

/// What parsing the source text means: the ghost image of the statement
/// list a parse returns, or the first lexical or syntactic error. This is
/// the specification `StatementParser::parse` is proved against.
pub open spec fn spec_parse(s: Seq<char>, max_depth: int) -> Result<
    Seq<SpecStatement>,
    StatementParseError,
> {
    match spec_next_token(s, 0) {
        Err(e) => Err(StatementParseError::LexerError(e)),
        Ok(_) => spec_statements(s, 0, max_depth),
    }
}

/// The internal parser state: the lexer, and one token of lookahead, with
/// the ghost position the lookahead was read from.
struct Parser<'a> {
    lexer: Lexer<'a>,
    current: Token<'a>,
    read_from: Ghost<int>,
}

impl<'a> Parser<'a> {
    /// The parser state is sound: the cursor sits inside the source text,
    /// the lookahead token carries the characters its kind promises, and
    /// the lexical run so far is the run from the start.
    spec fn wf(&self) -> bool {
        &&& self.lexer.wf()
        &&& token_ok(self.current)
        &&& (self.current.kind == TokenKind::Eof ==> self.lexer.spec_pos()
            == self.lexer.spec_input().len())
        &&& forall|j: int|
            0 <= j < self.lexer.spec_pos() ==> is_ascii_char(
                #[trigger] self.lexer.spec_input()[j],
            )
        &&& spec_lex_error(self.lexer.spec_input(), 0) == spec_lex_error(
            self.lexer.spec_input(),
            self.lexer.spec_pos(),
        )
    }

    /// The lookahead agrees with the specification lexer: the current token
    /// is the one read at `read_from`, and the cursor sits at its end. This
    /// is what ties the executable parser to the specification parser; it
    /// holds between calls and is given up only when a lexical error has
    /// already ended the parse.
    spec fn synced(&self) -> bool {
        &&& 0 <= self.read_from@ <= self.src().len()
        &&& match spec_next_token(self.src(), self.read_from@) {
            Ok(st) => {
                &&& self.current.kind == st.kind
                &&& self.current.span == tok_span(st)
                &&& self.current.literal@ == self.src().subrange(st.start, st.end)
                &&& self.lexer.spec_pos() == st.end
            },
            Err(_) => false,
        }
    }

    /// The source text being parsed.
    spec fn src(&self) -> Seq<char> {
        self.lexer.spec_input()
    }

    /// How much input is left to consume: the measure every recursion of
    /// the parser decreases.
    spec fn measure(&self) -> int {
        self.lexer.spec_input().len() - self.lexer.spec_pos() + if self.current.kind
            == TokenKind::Eof {
            0int
        } else {
            1int
        }
    }

    /// Starts a parse: points the lexer at the source text and pulls the
    /// first lookahead token.
    fn new(input: &'a str) -> (r: Result<Parser<'a>, StatementParseError>)
        ensures
            match r {
                Ok(p) => {
                    &&& p.wf()
                    &&& p.synced()
                    &&& p.src() == input@
                    &&& p.read_from@ == 0
                    &&& spec_next_token(input@, 0) is Ok
                },
                Err(e) => match spec_next_token(input@, 0) {
                    Ok(_) => false,
                    Err(le) => e == StatementParseError::LexerError(le),
                },
            },
    {
        let mut lexer = Lexer::new(input);
        proof {
            lemma_spec_next_token_props(input@, 0);
        }
        match lexer.next_token() {
            Ok(t) => Ok(Parser { lexer, current: t, read_from: Ghost(0) }),
            Err(e) => Err(StatementParseError::LexerError(e)),
        }
    }

    /// Replaces the lookahead token with the next one from the lexer.
    fn advance(&mut self) -> (r: Result<(), StatementParseError>)
        requires
            old(self).wf(),
            old(self).synced(),
        ensures
            final(self).wf(),
            final(self).src() == old(self).src(),
            final(self).measure() <= old(self).measure(),
            final(self).read_from@ >= old(self).read_from@,
            r matches Ok(_) ==> final(self).synced(),
            r matches Err(StatementParseError::LexerError(le)) ==> spec_lex_error(
                old(self).src(),
                0,
            ) == Some(le),
            r matches Ok(_) && old(self).current.kind != TokenKind::Eof ==> final(self).measure()
                < old(self).measure() && final(self).read_from@ > old(self).read_from@,
            ({
                let sp = spec_step(old(self).src(), old(self).read_from@);
                match r {
                    Ok(_) => sp matches Ok(q2) && final(self).read_from@ == q2,
                    Err(e) => sp == Err::<int, StatementParseError>(e),
                }
            }),
    {
        let ghost s = self.lexer.spec_input();
        let ghost q = self.read_from@;
        let ghost pos = self.lexer.spec_pos();
        proof {
            lemma_spec_next_token_props(s, q);
            lemma_spec_next_token_props(s, pos);
            lemma_lex_error_step(s, pos);
            crate::lexer::lemma_ws_end(s, pos);
            assert forall|j: int| pos <= j < crate::lexer::ws_end(s, pos) implies is_ascii_char(
                s[j],
            ) by {
                assert(crate::lexer::is_ws_char(s[j]));
            }
        }
        self.read_from = Ghost(pos);
        match self.lexer.next_token() {
            Ok(t) => {
                self.current = t;
                proof {
                    lemma_lex_error_step(s, self.lexer.spec_pos());
                }
                Ok(())
            },
            Err(e) => {
                proof {
                    crate::lexer::lemma_ws_end(s, crate::lexer::ws_end(s, pos));
                    assert(crate::lexer::ws_end(s, crate::lexer::ws_end(s, pos))
                        == crate::lexer::ws_end(s, pos));
                    lemma_lex_error_step(s, self.lexer.spec_pos());
                }
                self.read_from = Ghost(q);
                Err(StatementParseError::LexerError(e))
            },
        }
    }

    /// Whether the lookahead token is the given keyword.
    fn at_kw(&self, k: Keyword) -> (r: bool)
        ensures
            r == (self.current.kind == TokenKind::Keyword(k)),
    {
        match self.current.kind {
            TokenKind::Keyword(kk) => kk == k,
            _ => false,
        }
    }

    /// Consumes the given keyword, or fails naming it.
    fn expect_kw(&mut self, k: Keyword) -> (r: Result<(), StatementParseError>)
        requires
            old(self).wf(),
            old(self).synced(),
        ensures
            final(self).wf(),
            final(self).src() == old(self).src(),
            final(self).measure() <= old(self).measure(),
            final(self).read_from@ >= old(self).read_from@,
            r matches Ok(_) ==> final(self).synced() && final(self).measure() < old(self).measure()
                && final(self).read_from@ > old(self).read_from@,
            r matches Err(StatementParseError::LexerError(le)) ==> spec_lex_error(
                old(self).src(),
                0,
            ) == Some(le),
            ({
                let sp = spec_expect_kw(old(self).src(), old(self).read_from@, k);
                match r {
                    Ok(_) => sp matches Ok(q2) && final(self).read_from@ == q2,
                    Err(e) => sp == Err::<int, StatementParseError>(e),
                }
            }),
    {
        if self.at_kw(k) {
            self.advance()
        } else {
            Err(
                StatementParseError::UnexpectedToken {
                    expected: Expectation::Keyword(k),
                    span: self.current.span,
                },
            )
        }
    }

    /// Consumes the given punctuation token, or fails naming it.
    fn expect_punct(&mut self, kind: TokenKind) -> (r: Result<(), StatementParseError>)
        requires
            old(self).wf(),
            old(self).synced(),
            kind != TokenKind::Eof,
        ensures
            final(self).wf(),
            final(self).src() == old(self).src(),
            final(self).measure() <= old(self).measure(),
            final(self).read_from@ >= old(self).read_from@,
            r matches Ok(_) ==> final(self).synced() && final(self).measure() < old(self).measure()
                && final(self).read_from@ > old(self).read_from@,
            r matches Err(StatementParseError::LexerError(le)) ==> spec_lex_error(
                old(self).src(),
                0,
            ) == Some(le),
            ({
                let sp = spec_expect_punct(old(self).src(), old(self).read_from@, kind);
                match r {
                    Ok(_) => sp matches Ok(q2) && final(self).read_from@ == q2,
                    Err(e) => sp == Err::<int, StatementParseError>(e),
                }
            }),
    {
        if self.current.kind == kind {
            self.advance()
        } else {
            Err(
                StatementParseError::UnexpectedToken {
                    expected: Expectation::Punctuation(kind),
                    span: self.current.span,
                },
            )
        }
    }

    /// Consumes an identifier and hands back its owned spelling.
    fn expect_identifier(&mut self) -> (r: Result<String, StatementParseError>)
        requires
            old(self).wf(),
            old(self).synced(),
        ensures
            final(self).wf(),
            final(self).src() == old(self).src(),
            final(self).measure() <= old(self).measure(),
            final(self).read_from@ >= old(self).read_from@,
            r matches Ok(name) ==> name@.len() > 0 && final(self).synced() && final(self).measure()
                < old(self).measure() && final(self).read_from@ > old(self).read_from@,
            r matches Err(StatementParseError::LexerError(le)) ==> spec_lex_error(
                old(self).src(),
                0,
            ) == Some(le),
            ({
                let sp = spec_identifier(old(self).src(), old(self).read_from@);
                match r {
                    Ok(name) => sp matches Ok(p) && name@ == p.0 && final(self).read_from@ == p.1,
                    Err(e) => sp == Err::<(Seq<char>, int), StatementParseError>(e),
                }
            }),
    {
        if self.current.kind == TokenKind::Identifier {
            let name = self.current.literal.to_owned();
            self.advance()?;
            Ok(name)
        } else {
            Err(
                StatementParseError::UnexpectedToken {
                    expected: Expectation::Identifier,
                    span: self.current.span,
                },
            )
        }
    }

    /// Parses an optional alias: the contextual keyword `AS` — an ordinary
    /// identifier spelled `as`, recognized only in alias position — followed
    /// by the alias identifier.
    fn parse_alias(&mut self) -> (r: Result<Option<String>, StatementParseError>)
        requires
            old(self).wf(),
            old(self).synced(),
        ensures
            final(self).wf(),
            final(self).src() == old(self).src(),
            final(self).measure() <= old(self).measure(),
            final(self).read_from@ >= old(self).read_from@,
            r matches Ok(a) ==> (a matches Some(name) ==> name@.len() > 0) && final(self).synced(),
            r matches Err(StatementParseError::LexerError(le)) ==> spec_lex_error(
                old(self).src(),
                0,
            ) == Some(le),
            ({
                let sp = spec_alias(old(self).src(), old(self).read_from@);
                match r {
                    Ok(a) => sp matches Ok(p) && view_alias(a) == p.0 && final(self).read_from@
                        == p.1,
                    Err(e) => sp == Err::<(Option<Seq<char>>, int), StatementParseError>(e),
                }
            }),
    {
        if self.current.kind == TokenKind::Identifier && eq_ignore_ascii_case(
            self.current.literal,
            "as",
        ) {
            self.advance()?;
            let name = self.expect_identifier()?;
            Ok(Some(name))
        } else {
            Ok(None)
        }
    }

    /// Parses a column reference: an identifier, optionally qualified by one
    /// `.`-separated table name.
    fn parse_column_name(&mut self) -> (r: Result<ColumnName, StatementParseError>)
        requires
            old(self).wf(),
            old(self).synced(),
        ensures
            final(self).wf(),
            final(self).src() == old(self).src(),
            final(self).measure() <= old(self).measure(),
            final(self).read_from@ >= old(self).read_from@,
            r matches Ok(c) ==> wf_column_name(c) && final(self).synced() && final(self).measure()
                < old(self).measure() && final(self).read_from@ > old(self).read_from@,
            r matches Err(StatementParseError::LexerError(le)) ==> spec_lex_error(
                old(self).src(),
                0,
            ) == Some(le),
            ({
                let sp = spec_column_name(old(self).src(), old(self).read_from@);
                match r {
                    Ok(c) => sp matches Ok(p) && view_column_name(c) == p.0 && final(self).read_from@ == p.1,
                    Err(e) => sp == Err::<(SpecColumnName, int), StatementParseError>(e),
                }
            }),
    {
        let first = self.expect_identifier()?;
        if self.current.kind == TokenKind::Period {
            self.advance()?;
            let second = self.expect_identifier()?;
            Ok(ColumnName::Qualified { table_name: first, column_name: second })
        } else {
            Ok(ColumnName::Direct { name: first })
        }
    }

    /// Parses one selected column: a column reference with its optional
    /// alias.
    fn parse_aliased_column(&mut self) -> (r: Result<AliasedColumnName, StatementParseError>)
        requires
            old(self).wf(),
            old(self).synced(),
        ensures
            final(self).wf(),
            final(self).src() == old(self).src(),
            final(self).measure() <= old(self).measure(),
            final(self).read_from@ >= old(self).read_from@,
            r matches Ok(c) ==> wf_aliased_column(c) && final(self).synced() && final(self).measure() < old(self).measure() && final(self).read_from@ > old(self).read_from@,
            r matches Err(StatementParseError::LexerError(le)) ==> spec_lex_error(
                old(self).src(),
                0,
            ) == Some(le),
            ({
                let sp = spec_aliased_column(old(self).src(), old(self).read_from@);
                match r {
                    Ok(c) => sp matches Ok(p) && view_aliased_column(c) == p.0 && final(self).read_from@ == p.1,
                    Err(e) => sp == Err::<(SpecAliasedColumnName, int), StatementParseError>(e),
                }
            }),
    {
        let column_name = self.parse_column_name()?;
        let alias = self.parse_alias()?;
        Ok(AliasedColumnName { column_name, alias })
    }

    /// Parses the selected columns after the first one: `, column` repeated.
    fn parse_columns_rest(&mut self, cols: Vec<AliasedColumnName>) -> (r: Result<
        Vec<AliasedColumnName>,
        StatementParseError,
    >)
        requires
            old(self).wf(),
            old(self).synced(),
            cols@.len() > 0,
            forall|i: int| 0 <= i < cols@.len() ==> wf_aliased_column(#[trigger] cols@[i]),
        ensures
            final(self).wf(),
            final(self).src() == old(self).src(),
            final(self).measure() <= old(self).measure(),
            final(self).read_from@ >= old(self).read_from@,
            r matches Ok(out) ==> out@.len() > 0 && (forall|i: int|
                0 <= i < out@.len() ==> wf_aliased_column(#[trigger] out@[i])) && final(self).synced(),
            r matches Err(StatementParseError::LexerError(le)) ==> spec_lex_error(
                old(self).src(),
                0,
            ) == Some(le),
            ({
                let sp = spec_columns_rest(
                    old(self).src(),
                    old(self).read_from@,
                    cols@.map_values(|c: AliasedColumnName| view_aliased_column(c)),
                );
                match r {
                    Ok(out) => sp matches Ok(p) && out@.map_values(
                        |c: AliasedColumnName| view_aliased_column(c),
                    ) == p.0 && final(self).read_from@ == p.1,
                    Err(e) => sp == Err::<
                        (Seq<SpecAliasedColumnName>, int),
                        StatementParseError,
                    >(e),
                }
            }),
        decreases old(self).measure(),
    {
        let mut cols = cols;
        let ghost m0 = cols@.map_values(|c: AliasedColumnName| view_aliased_column(c));
        if self.current.kind != TokenKind::Comma {
            return Ok(cols);
        }
        self.advance()?;
        let col = self.parse_aliased_column()?;
        cols.push(col);
        proof {
            assert(cols@.map_values(|c: AliasedColumnName| view_aliased_column(c)) =~= m0.push(
                view_aliased_column(col),
            ));
        }
        self.parse_columns_rest(cols)
    }

    /// Parses the result columns: a lone `*`, or a non-empty comma-separated
    /// list of selected columns.
    fn parse_result_columns(&mut self) -> (r: Result<ResultColumns, StatementParseError>)
        requires
            old(self).wf(),
            old(self).synced(),
        ensures
            final(self).wf(),
            final(self).src() == old(self).src(),
            final(self).measure() <= old(self).measure(),
            final(self).read_from@ >= old(self).read_from@,
            r matches Ok(c) ==> wf_result_columns(c) && final(self).synced() && final(self).measure() < old(self).measure() && final(self).read_from@ > old(self).read_from@,
            r matches Err(StatementParseError::LexerError(le)) ==> spec_lex_error(
                old(self).src(),
                0,
            ) == Some(le),
            ({
                let sp = spec_result_columns(old(self).src(), old(self).read_from@);
                match r {
                    Ok(c) => sp matches Ok(p) && view_result_columns(c) == p.0 && final(self).read_from@ == p.1,
                    Err(e) => sp == Err::<(SpecResultColumns, int), StatementParseError>(e),
                }
            }),
    {
        if self.current.kind == TokenKind::Asterisk {
            self.advance()?;
            return Ok(ResultColumns::All);
        }
        let first = self.parse_aliased_column()?;
        let mut cols: Vec<AliasedColumnName> = Vec::new();
        cols.push(first);
        proof {
            assert(cols@.map_values(|c: AliasedColumnName| view_aliased_column(c)) =~= seq![
                view_aliased_column(first),
            ]);
        }
        let cols = self.parse_columns_rest(cols)?;
        Ok(ResultColumns::Specific(cols))
    }

    /// Scans forward over an unparsed condition body, consuming every token
    /// up to the next clause keyword, join keyword, `;`, `)` or end-of-input,
    /// tracking the end of the last consumed token.
    fn scan_rest(&mut self, end: usize) -> (r: Result<usize, StatementParseError>)
        requires
            old(self).wf(),
            old(self).synced(),
        ensures
            final(self).wf(),
            final(self).src() == old(self).src(),
            final(self).measure() <= old(self).measure(),
            final(self).read_from@ >= old(self).read_from@,
            r matches Ok(_) ==> final(self).synced(),
            r matches Err(StatementParseError::LexerError(le)) ==> spec_lex_error(
                old(self).src(),
                0,
            ) == Some(le),
            ({
                let sp = spec_scan(old(self).src(), old(self).read_from@, end as int);
                match r {
                    Ok(e2) => sp matches Ok(p) && e2 as int == p.0 && final(self).read_from@
                        == p.1,
                    Err(e) => sp == Err::<(int, int), StatementParseError>(e),
                }
            }),
        decreases old(self).measure(),
    {
        let ghost s = self.src();
        let ghost q = self.read_from@;
        if is_scan_stop_exec(self.current.kind) {
            return Ok(end);
        }
        let next_end = self.current.span.end;
        proof {
            assert(next_end as int == spec_tok(s, q).end);
        }
        self.advance()?;
        proof {
            assert(q < self.read_from@ <= s.len());
            assert(spec_scan(s, q, end as int) == spec_scan(s, self.read_from@, next_end as int));
        }
        self.scan_rest(next_end)
    }

    /// Scans an unparsed condition body and hands back the span the scan
    /// covered (zero-width at the current position when nothing was
    /// consumed).
    fn scan_condition(&mut self) -> (r: Result<Span, StatementParseError>)
        requires
            old(self).wf(),
            old(self).synced(),
        ensures
            final(self).wf(),
            final(self).src() == old(self).src(),
            final(self).measure() <= old(self).measure(),
            final(self).read_from@ >= old(self).read_from@,
            r matches Ok(_) ==> final(self).synced(),
            r matches Err(StatementParseError::LexerError(le)) ==> spec_lex_error(
                old(self).src(),
                0,
            ) == Some(le),
            ({
                let s = old(self).src();
                let q = old(self).read_from@;
                let st = spec_tok(s, q);
                let sp = spec_scan(s, q, st.start);
                match r {
                    Ok(span) => sp matches Ok(p) && span == (Span {
                        start: st.start as usize,
                        end: (if p.0 < st.start {
                            st.start
                        } else {
                            p.0
                        }) as usize,
                    }) && final(self).read_from@ == p.1,
                    Err(e) => sp == Err::<(int, int), StatementParseError>(e),
                }
            }),
    {
        let ghost s = self.src();
        let ghost q = self.read_from@;
        proof {
            lemma_spec_next_token_props(s, q);
        }
        let start = self.current.span.start;
        let end = self.scan_rest(start)?;
        Ok(Span::new(start, if end < start {
            start
        } else {
            end
        }))
    }

    /// Parses a join specification's type keywords, up to and including the
    /// `JOIN` keyword itself: `JOIN`, or `INNER/LEFT/RIGHT/FULL [OUTER] JOIN`.
    fn parse_join_type(&mut self) -> (r: Result<JoinType, StatementParseError>)
        requires
            old(self).wf(),
            old(self).synced(),
        ensures
            final(self).wf(),
            final(self).src() == old(self).src(),
            final(self).measure() <= old(self).measure(),
            final(self).read_from@ >= old(self).read_from@,
            r matches Ok(_) ==> final(self).synced() && final(self).measure() < old(self).measure()
                && final(self).read_from@ > old(self).read_from@,
            r matches Err(StatementParseError::LexerError(le)) ==> spec_lex_error(
                old(self).src(),
                0,
            ) == Some(le),
            ({
                let sp = spec_join_type(old(self).src(), old(self).read_from@);
                match r {
                    Ok(jt) => sp matches Ok(p) && jt == p.0 && final(self).read_from@ == p.1,
                    Err(e) => sp == Err::<(JoinType, int), StatementParseError>(e),
                }
            }),
    {
        if self.at_kw(Keyword::Join) {
            self.advance()?;
            Ok(JoinType::Inner)
        } else if self.at_kw(Keyword::Inner) {
            self.advance()?;
            self.expect_kw(Keyword::Join)?;
            Ok(JoinType::Inner)
        } else if self.at_kw(Keyword::Left) {
            self.advance()?;
            self.outer_join_suffix()?;
            Ok(JoinType::LeftOuter)
        } else if self.at_kw(Keyword::Right) {
            self.advance()?;
            self.outer_join_suffix()?;
            Ok(JoinType::RightOuter)
        } else if self.at_kw(Keyword::Full) {
            self.advance()?;
            self.outer_join_suffix()?;
            Ok(JoinType::FullOuter)
        } else {
            Err(
                StatementParseError::UnexpectedToken {
                    expected: Expectation::Keyword(Keyword::Join),
                    span: self.current.span,
                },
            )
        }
    }

    /// Consumes the `[OUTER] JOIN` tail of an outer-join spelling.
    fn outer_join_suffix(&mut self) -> (r: Result<(), StatementParseError>)
        requires
            old(self).wf(),
            old(self).synced(),
        ensures
            final(self).wf(),
            final(self).src() == old(self).src(),
            final(self).measure() <= old(self).measure(),
            final(self).read_from@ >= old(self).read_from@,
            r matches Ok(_) ==> final(self).synced() && final(self).measure() < old(self).measure()
                && final(self).read_from@ > old(self).read_from@,
            r matches Err(StatementParseError::LexerError(le)) ==> spec_lex_error(
                old(self).src(),
                0,
            ) == Some(le),
            ({
                let sp = spec_outer_join_suffix(old(self).src(), old(self).read_from@);
                match r {
                    Ok(_) => sp matches Ok(q2) && final(self).read_from@ == q2,
                    Err(e) => sp == Err::<int, StatementParseError>(e),
                }
            }),
    {
        if self.at_kw(Keyword::Outer) {
            self.advance()?;
        }
        self.expect_kw(Keyword::Join)
    }

    /// Parses the `USING` column names after the first one.
    fn parse_using_rest(&mut self, names: Vec<String>) -> (r: Result<
        Vec<String>,
        StatementParseError,
    >)
        requires
            old(self).wf(),
            old(self).synced(),
            names@.len() > 0,
            forall|i: int| 0 <= i < names@.len() ==> (#[trigger] names@[i])@.len() > 0,
        ensures
            final(self).wf(),
            final(self).src() == old(self).src(),
            final(self).measure() <= old(self).measure(),
            final(self).read_from@ >= old(self).read_from@,
            r matches Ok(out) ==> out@.len() > 0 && (forall|i: int|
                0 <= i < out@.len() ==> (#[trigger] out@[i])@.len() > 0) && final(self).synced(),
            r matches Err(StatementParseError::LexerError(le)) ==> spec_lex_error(
                old(self).src(),
                0,
            ) == Some(le),
            ({
                let sp = spec_using_rest(
                    old(self).src(),
                    old(self).read_from@,
                    names@.map_values(|n: String| n@),
                );
                match r {
                    Ok(out) => sp matches Ok(p) && out@.map_values(|n: String| n@) == p.0 && final(self).read_from@ == p.1,
                    Err(e) => sp == Err::<(Seq<Seq<char>>, int), StatementParseError>(e),
                }
            }),
        decreases old(self).measure(),
    {
        let mut names = names;
        let ghost m0 = names@.map_values(|n: String| n@);
        if self.current.kind != TokenKind::Comma {
            return Ok(names);
        }
        self.advance()?;
        let name = self.expect_identifier()?;
        names.push(name);
        proof {
            assert(names@.map_values(|n: String| n@) =~= m0.push(name@));
        }
        self.parse_using_rest(names)
    }

    /// Parses a join condition: `ON <condition>` (at least one token,
    /// scanned as an opaque expression) or `USING (<non-empty column list>)`.
    fn parse_join_condition(&mut self) -> (r: Result<JoinCondition, StatementParseError>)
        requires
            old(self).wf(),
            old(self).synced(),
        ensures
            final(self).wf(),
            final(self).src() == old(self).src(),
            final(self).measure() <= old(self).measure(),
            final(self).read_from@ >= old(self).read_from@,
            r matches Ok(c) ==> wf_join_condition(c) && final(self).synced(),
            r matches Err(StatementParseError::LexerError(le)) ==> spec_lex_error(
                old(self).src(),
                0,
            ) == Some(le),
            ({
                let sp = spec_join_condition(old(self).src(), old(self).read_from@);
                match r {
                    Ok(c) => sp matches Ok(p) && view_join_condition(c) == p.0 && final(self).read_from@ == p.1,
                    Err(e) => sp == Err::<(SpecJoinCondition, int), StatementParseError>(e),
                }
            }),
    {
        if self.at_kw(Keyword::On) {
            self.advance()?;
            if is_scan_stop_exec(self.current.kind) {
                return Err(
                    StatementParseError::UnexpectedToken {
                        expected: Expectation::ConditionExpression,
                        span: self.current.span,
                    },
                );
            }
            let span = self.scan_condition()?;
            Ok(JoinCondition::On(Expr::Opaque { span }))
        } else if self.at_kw(Keyword::Using) {
            self.advance()?;
            self.expect_punct(TokenKind::OpeningParen)?;
            let first = self.expect_identifier()?;
            let mut names: Vec<String> = Vec::new();
            names.push(first);
            proof {
                assert(names@.map_values(|n: String| n@) =~= seq![first@]);
            }
            let names = self.parse_using_rest(names)?;
            self.expect_punct(TokenKind::ClosingParen)?;
            Ok(JoinCondition::Using(names))
        } else {
            Err(
                StatementParseError::UnexpectedToken {
                    expected: Expectation::JoinConditionStart,
                    span: self.current.span,
                },
            )
        }
    }

    /// Parses one table reference with its optional alias: a parenthesized
    /// sub-query — recognized by `(` immediately followed by `SELECT`; any
    /// other parenthesized content is a syntax error — or a bare table name.
    fn parse_aliased_from_table(&mut self, depth_left: u64) -> (r: Result<
        AliasedFromTable,
        StatementParseError,
    >)
        requires
            old(self).wf(),
            old(self).synced(),
            depth_left >= 1,
        ensures
            final(self).wf(),
            final(self).src() == old(self).src(),
            final(self).measure() <= old(self).measure(),
            final(self).read_from@ >= old(self).read_from@,
            r matches Ok(t) ==> wf_aliased_from_table(t) && from_table_depth(t.table) < depth_left
                && final(self).synced() && final(self).measure() < old(self).measure() && final(self).read_from@ > old(self).read_from@,
            r matches Err(StatementParseError::LexerError(le)) ==> spec_lex_error(
                old(self).src(),
                0,
            ) == Some(le),
            ({
                let sp = spec_aliased_from_table(
                    old(self).src(),
                    old(self).read_from@,
                    depth_left as int,
                );
                match r {
                    Ok(t) => sp matches Ok(p) && view_aliased_from_table(t) == p.0 && final(self).read_from@ == p.1,
                    Err(e) => sp == Err::<(SpecAliasedFromTable, int), StatementParseError>(e),
                }
            }),
        decreases depth_left, old(self).measure(), 0int,
    {
        let table: FromTable;
        if self.current.kind == TokenKind::OpeningParen {
            self.advance()?;
            if !self.at_kw(Keyword::Select) {
                return Err(
                    StatementParseError::UnexpectedToken {
                        expected: Expectation::Keyword(Keyword::Select),
                        span: self.current.span,
                    },
                );
            }
            if depth_left <= 1 {
                return Err(StatementParseError::NestingTooDeep { span: self.current.span });
            }
            let query = self.parse_select((depth_left - 1) as u64)?;
            self.expect_punct(TokenKind::ClosingParen)?;
            table = FromTable::DerivedTable { query: Box::new(query) };
        } else if self.current.kind == TokenKind::Identifier {
            let name = self.expect_identifier()?;
            table = FromTable::TableName { name };
        } else {
            return Err(
                StatementParseError::UnexpectedToken {
                    expected: Expectation::TableReference,
                    span: self.current.span,
                },
            );
        }
        let alias = self.parse_alias()?;
        Ok(AliasedFromTable { table, alias })
    }

    /// Parses the join chain after the first table reference: each join
    /// wraps the clause built so far as its left side.
    fn parse_joins_rest(&mut self, clause: FromClause, depth_left: u64) -> (r: Result<
        FromClause,
        StatementParseError,
    >)
        requires
            old(self).wf(),
            old(self).synced(),
            depth_left >= 1,
            wf_from_clause(clause),
            from_clause_depth(clause) < depth_left,
        ensures
            final(self).wf(),
            final(self).src() == old(self).src(),
            final(self).measure() <= old(self).measure(),
            final(self).read_from@ >= old(self).read_from@,
            r matches Ok(f) ==> wf_from_clause(f) && from_clause_depth(f) < depth_left && final(self).synced(),
            r matches Err(StatementParseError::LexerError(le)) ==> spec_lex_error(
                old(self).src(),
                0,
            ) == Some(le),
            ({
                let sp = spec_joins(
                    old(self).src(),
                    old(self).read_from@,
                    depth_left as int,
                    view_from_clause(clause),
                );
                match r {
                    Ok(f) => sp matches Ok(p) && view_from_clause(f) == p.0 && final(self).read_from@ == p.1,
                    Err(e) => sp == Err::<(SpecFromClause, int), StatementParseError>(e),
                }
            }),
        decreases depth_left, old(self).measure(), 1int,
    {
        let is_join = match self.current.kind {
            TokenKind::Keyword(k) => is_join_start_kw_exec(k),
            _ => false,
        };
        if !is_join {
            return Ok(clause);
        }
        let join_type = self.parse_join_type()?;
        let right = self.parse_aliased_from_table(depth_left)?;
        let join_condition = self.parse_join_condition()?;
        let next = FromClause::Join {
            left: Box::new(clause),
            right: Box::new(right),
            join_type,
            join_condition,
        };
        self.parse_joins_rest(next, depth_left)
    }

    /// Parses the body of a `FROM` clause: one table reference, then any
    /// number of join specifications, chained left-associatively.
    fn parse_from_clause(&mut self, depth_left: u64) -> (r: Result<
        FromClause,
        StatementParseError,
    >)
        requires
            old(self).wf(),
            old(self).synced(),
            depth_left >= 1,
        ensures
            final(self).wf(),
            final(self).src() == old(self).src(),
            final(self).measure() <= old(self).measure(),
            final(self).read_from@ >= old(self).read_from@,
            r matches Ok(f) ==> wf_from_clause(f) && from_clause_depth(f) < depth_left && final(self).synced() && final(self).measure() < old(self).measure() && final(self).read_from@
                > old(self).read_from@,
            r matches Err(StatementParseError::LexerError(le)) ==> spec_lex_error(
                old(self).src(),
                0,
            ) == Some(le),
            ({
                let sp = spec_from_clause(old(self).src(), old(self).read_from@, depth_left as int);
                match r {
                    Ok(f) => sp matches Ok(p) && view_from_clause(f) == p.0 && final(self).read_from@ == p.1,
                    Err(e) => sp == Err::<(SpecFromClause, int), StatementParseError>(e),
                }
            }),
        decreases depth_left, old(self).measure(), 2int,
    {
        let first = self.parse_aliased_from_table(depth_left)?;
        self.parse_joins_rest(FromClause::Direct { table: first }, depth_left)
    }

    /// Parses the column references after the first one of a `GROUP BY`
    /// list.
    fn parse_group_rest(&mut self, cols: Vec<ColumnName>) -> (r: Result<
        Vec<ColumnName>,
        StatementParseError,
    >)
        requires
            old(self).wf(),
            old(self).synced(),
            cols@.len() > 0,
            forall|i: int| 0 <= i < cols@.len() ==> wf_column_name(#[trigger] cols@[i]),
        ensures
            final(self).wf(),
            final(self).src() == old(self).src(),
            final(self).measure() <= old(self).measure(),
            final(self).read_from@ >= old(self).read_from@,
            r matches Ok(out) ==> out@.len() > 0 && (forall|i: int|
                0 <= i < out@.len() ==> wf_column_name(#[trigger] out@[i])) && final(self).synced(),
            r matches Err(StatementParseError::LexerError(le)) ==> spec_lex_error(
                old(self).src(),
                0,
            ) == Some(le),
            ({
                let sp = spec_group_rest(
                    old(self).src(),
                    old(self).read_from@,
                    cols@.map_values(|c: ColumnName| view_column_name(c)),
                );
                match r {
                    Ok(out) => sp matches Ok(p) && out@.map_values(
                        |c: ColumnName| view_column_name(c),
                    ) == p.0 && final(self).read_from@ == p.1,
                    Err(e) => sp == Err::<(Seq<SpecColumnName>, int), StatementParseError>(e),
                }
            }),
        decreases old(self).measure(),
    {
        let mut cols = cols;
        let ghost m0 = cols@.map_values(|c: ColumnName| view_column_name(c));
        if self.current.kind != TokenKind::Comma {
            return Ok(cols);
        }
        self.advance()?;
        let col = self.parse_column_name()?;
        cols.push(col);
        proof {
            assert(cols@.map_values(|c: ColumnName| view_column_name(c)) =~= m0.push(
                view_column_name(col),
            ));
        }
        self.parse_group_rest(cols)
    }

    /// Parses a non-empty comma-separated list of column references, as in
    /// `GROUP BY`.
    fn parse_column_list(&mut self) -> (r: Result<Vec<ColumnName>, StatementParseError>)
        requires
            old(self).wf(),
            old(self).synced(),
        ensures
            final(self).wf(),
            final(self).src() == old(self).src(),
            final(self).measure() <= old(self).measure(),
            final(self).read_from@ >= old(self).read_from@,
            r matches Ok(cols) ==> cols@.len() > 0 && (forall|i: int|
                0 <= i < cols@.len() ==> wf_column_name(#[trigger] cols@[i])) && final(self).synced(),
            r matches Err(StatementParseError::LexerError(le)) ==> spec_lex_error(
                old(self).src(),
                0,
            ) == Some(le),
            ({
                let sp = spec_column_list(old(self).src(), old(self).read_from@);
                match r {
                    Ok(cols) => sp matches Ok(p) && cols@.map_values(
                        |c: ColumnName| view_column_name(c),
                    ) == p.0 && final(self).read_from@ == p.1,
                    Err(e) => sp == Err::<(Seq<SpecColumnName>, int), StatementParseError>(e),
                }
            }),
    {
        let first = self.parse_column_name()?;
        let mut cols: Vec<ColumnName> = Vec::new();
        cols.push(first);
        proof {
            assert(cols@.map_values(|c: ColumnName| view_column_name(c)) =~= seq![
                view_column_name(first),
            ]);
        }
        self.parse_group_rest(cols)
    }

    /// Parses one `ORDER BY` item.
    fn parse_order_item(&mut self) -> (r: Result<OrderByItem, StatementParseError>)
        requires
            old(self).wf(),
            old(self).synced(),
        ensures
            final(self).wf(),
            final(self).src() == old(self).src(),
            final(self).measure() <= old(self).measure(),
            final(self).read_from@ >= old(self).read_from@,
            r matches Ok(item) ==> wf_column_name(item.column_name) && final(self).synced()
                && final(self).measure() < old(self).measure() && final(self).read_from@ > old(self).read_from@,
            r matches Err(StatementParseError::LexerError(le)) ==> spec_lex_error(
                old(self).src(),
                0,
            ) == Some(le),
            ({
                let sp = spec_order_item(old(self).src(), old(self).read_from@);
                match r {
                    Ok(item) => sp matches Ok(p) && view_order_item(item) == p.0 && final(self).read_from@ == p.1,
                    Err(e) => sp == Err::<(SpecOrderByItem, int), StatementParseError>(e),
                }
            }),
    {
        let column_name = self.parse_column_name()?;
        let mut ordering: Option<Ordering> = None;
        if self.at_kw(Keyword::Asc) {
            self.advance()?;
            ordering = Some(Ordering::Ascending);
        } else if self.at_kw(Keyword::Dec) {
            self.advance()?;
            ordering = Some(Ordering::Descending);
        }
        Ok(OrderByItem { column_name, ordering })
    }

    /// Parses the `ORDER BY` items after the first one.
    fn parse_order_rest(&mut self, items: Vec<OrderByItem>) -> (r: Result<
        Vec<OrderByItem>,
        StatementParseError,
    >)
        requires
            old(self).wf(),
            old(self).synced(),
            items@.len() > 0,
            forall|i: int| 0 <= i < items@.len() ==> wf_column_name(
                (#[trigger] items@[i]).column_name,
            ),
        ensures
            final(self).wf(),
            final(self).src() == old(self).src(),
            final(self).measure() <= old(self).measure(),
            final(self).read_from@ >= old(self).read_from@,
            r matches Ok(out) ==> out@.len() > 0 && (forall|i: int|
                0 <= i < out@.len() ==> wf_column_name((#[trigger] out@[i]).column_name)) && final(self).synced(),
            r matches Err(StatementParseError::LexerError(le)) ==> spec_lex_error(
                old(self).src(),
                0,
            ) == Some(le),
            ({
                let sp = spec_order_rest(
                    old(self).src(),
                    old(self).read_from@,
                    items@.map_values(|i: OrderByItem| view_order_item(i)),
                );
                match r {
                    Ok(out) => sp matches Ok(p) && out@.map_values(
                        |i: OrderByItem| view_order_item(i),
                    ) == p.0 && final(self).read_from@ == p.1,
                    Err(e) => sp == Err::<(Seq<SpecOrderByItem>, int), StatementParseError>(e),
                }
            }),
        decreases old(self).measure(),
    {
        let mut items = items;
        let ghost m0 = items@.map_values(|i: OrderByItem| view_order_item(i));
        if self.current.kind != TokenKind::Comma {
            return Ok(items);
        }
        self.advance()?;
        let item = self.parse_order_item()?;
        items.push(item);
        proof {
            assert(items@.map_values(|i: OrderByItem| view_order_item(i)) =~= m0.push(
                view_order_item(item),
            ));
        }
        self.parse_order_rest(items)
    }

    /// Parses the non-empty list of `ORDER BY` items, each a column
    /// reference with an optional `ASC`/`DEC` direction (ascending when
    /// absent).
    fn parse_order_items(&mut self) -> (r: Result<Vec<OrderByItem>, StatementParseError>)
        requires
            old(self).wf(),
            old(self).synced(),
        ensures
            final(self).wf(),
            final(self).src() == old(self).src(),
            final(self).measure() <= old(self).measure(),
            final(self).read_from@ >= old(self).read_from@,
            r matches Ok(items) ==> items@.len() > 0 && (forall|i: int|
                0 <= i < items@.len() ==> wf_column_name((#[trigger] items@[i]).column_name))
                && final(self).synced(),
            r matches Err(StatementParseError::LexerError(le)) ==> spec_lex_error(
                old(self).src(),
                0,
            ) == Some(le),
            ({
                let sp = spec_order_list(old(self).src(), old(self).read_from@);
                match r {
                    Ok(items) => sp matches Ok(p) && items@.map_values(
                        |i: OrderByItem| view_order_item(i),
                    ) == p.0 && final(self).read_from@ == p.1,
                    Err(e) => sp == Err::<(Seq<SpecOrderByItem>, int), StatementParseError>(e),
                }
            }),
    {
        let first = self.parse_order_item()?;
        let mut items: Vec<OrderByItem> = Vec::new();
        items.push(first);
        proof {
            assert(items@.map_values(|i: OrderByItem| view_order_item(i)) =~= seq![
                view_order_item(first),
            ]);
        }
        self.parse_order_rest(items)
    }

    /// Parses the integer argument of `OFFSET` or `LIMIT`: a single integer
    /// literal that fits in 64 unsigned bits. A float literal, or any other
    /// token, fails; an overflowing literal fails with its own error.
    fn parse_u64_argument(&mut self) -> (r: Result<u64, StatementParseError>)
        requires
            old(self).wf(),
            old(self).synced(),
        ensures
            final(self).wf(),
            final(self).src() == old(self).src(),
            final(self).measure() <= old(self).measure(),
            final(self).read_from@ >= old(self).read_from@,
            r matches Ok(_) ==> final(self).synced() && final(self).measure() < old(self).measure()
                && final(self).read_from@ > old(self).read_from@,
            r matches Err(StatementParseError::LexerError(le)) ==> spec_lex_error(
                old(self).src(),
                0,
            ) == Some(le),
            ({
                let sp = spec_u64_argument(old(self).src(), old(self).read_from@);
                match r {
                    Ok(v) => sp matches Ok(p) && v == p.0 && final(self).read_from@ == p.1,
                    Err(e) => sp == Err::<(u64, int), StatementParseError>(e),
                }
            }),
    {
        if self.current.kind == TokenKind::IntegerLiteral {
            match parse_u64_from_digits(self.current.literal) {
                Some(v) => {
                    self.advance()?;
                    Ok(v)
                },
                None => Err(StatementParseError::IntegerOutOfRange { span: self.current.span }),
            }
        } else {
            Err(
                StatementParseError::UnexpectedToken {
                    expected: Expectation::IntegerLiteral,
                    span: self.current.span,
                },
            )
        }
    }

    /// Parses an optional clause made of the given keyword and a scanned
    /// condition body, as `WHERE` and `HAVING` are.
    fn parse_opt_scan_clause(&mut self, kw: Keyword) -> (r: Result<bool, StatementParseError>)
        requires
            old(self).wf(),
            old(self).synced(),
        ensures
            final(self).wf(),
            final(self).src() == old(self).src(),
            final(self).measure() <= old(self).measure(),
            final(self).read_from@ >= old(self).read_from@,
            r matches Ok(_) ==> final(self).synced(),
            r matches Err(StatementParseError::LexerError(le)) ==> spec_lex_error(
                old(self).src(),
                0,
            ) == Some(le),
            ({
                let sp = spec_opt_scan_clause(old(self).src(), old(self).read_from@, kw);
                match r {
                    Ok(b) => sp matches Ok(p) && b == p.0 && final(self).read_from@ == p.1,
                    Err(e) => sp == Err::<(bool, int), StatementParseError>(e),
                }
            }),
    {
        if self.at_kw(kw) {
            self.advance()?;
            self.scan_condition()?;
            Ok(true)
        } else {
            Ok(false)
        }
    }

    /// Parses an optional `GROUP BY` clause.
    fn parse_opt_group_by(&mut self) -> (r: Result<Option<GroupByClause>, StatementParseError>)
        requires
            old(self).wf(),
            old(self).synced(),
        ensures
            final(self).wf(),
            final(self).src() == old(self).src(),
            final(self).measure() <= old(self).measure(),
            final(self).read_from@ >= old(self).read_from@,
            r matches Ok(og) ==> final(self).synced() && (og matches Some(g) ==> g.groupings@.len()
                > 0 && forall|i: int|
                0 <= i < g.groupings@.len() ==> wf_column_name(#[trigger] g.groupings@[i])),
            r matches Err(StatementParseError::LexerError(le)) ==> spec_lex_error(
                old(self).src(),
                0,
            ) == Some(le),
            ({
                let sp = spec_opt_group_by(old(self).src(), old(self).read_from@);
                match r {
                    Ok(og) => sp matches Ok(p) && final(self).read_from@ == p.1 && (match og {
                        Some(g) => p.0 == Some(
                            g.groupings@.map_values(|c: ColumnName| view_column_name(c)),
                        ),
                        None => p.0 == None::<Seq<SpecColumnName>>,
                    }),
                    Err(e) => sp == Err::<
                        (Option<Seq<SpecColumnName>>, int),
                        StatementParseError,
                    >(e),
                }
            }),
    {
        if self.at_kw(Keyword::Group) {
            self.advance()?;
            self.expect_kw(Keyword::By)?;
            let groupings = self.parse_column_list()?;
            Ok(Some(GroupByClause { groupings }))
        } else {
            Ok(None)
        }
    }

    /// Parses an optional `ORDER BY` clause.
    fn parse_opt_order_by(&mut self) -> (r: Result<Option<OrderByClause>, StatementParseError>)
        requires
            old(self).wf(),
            old(self).synced(),
        ensures
            final(self).wf(),
            final(self).src() == old(self).src(),
            final(self).measure() <= old(self).measure(),
            final(self).read_from@ >= old(self).read_from@,
            r matches Ok(oo) ==> final(self).synced() && (oo matches Some(o) ==> o.orderings@.len()
                > 0 && forall|i: int|
                0 <= i < o.orderings@.len() ==> wf_column_name(
                    (#[trigger] o.orderings@[i]).column_name,
                )),
            r matches Err(StatementParseError::LexerError(le)) ==> spec_lex_error(
                old(self).src(),
                0,
            ) == Some(le),
            ({
                let sp = spec_opt_order_by(old(self).src(), old(self).read_from@);
                match r {
                    Ok(oo) => sp matches Ok(p) && final(self).read_from@ == p.1 && (match oo {
                        Some(o) => p.0 == Some(
                            o.orderings@.map_values(|i: OrderByItem| view_order_item(i)),
                        ),
                        None => p.0 == None::<Seq<SpecOrderByItem>>,
                    }),
                    Err(e) => sp == Err::<
                        (Option<Seq<SpecOrderByItem>>, int),
                        StatementParseError,
                    >(e),
                }
            }),
    {
        if self.at_kw(Keyword::Order) {
            self.advance()?;
            self.expect_kw(Keyword::By)?;
            let orderings = self.parse_order_items()?;
            Ok(Some(OrderByClause { orderings }))
        } else {
            Ok(None)
        }
    }

    /// Parses an optional clause made of the given keyword and an integer
    /// argument, as `OFFSET` and `LIMIT` are.
    fn parse_opt_u64_clause(&mut self, kw: Keyword) -> (r: Result<
        Option<u64>,
        StatementParseError,
    >)
        requires
            old(self).wf(),
            old(self).synced(),
        ensures
            final(self).wf(),
            final(self).src() == old(self).src(),
            final(self).measure() <= old(self).measure(),
            final(self).read_from@ >= old(self).read_from@,
            r matches Ok(_) ==> final(self).synced(),
            r matches Err(StatementParseError::LexerError(le)) ==> spec_lex_error(
                old(self).src(),
                0,
            ) == Some(le),
            ({
                let sp = spec_opt_u64_clause(old(self).src(), old(self).read_from@, kw);
                match r {
                    Ok(ov) => sp matches Ok(p) && ov == p.0 && final(self).read_from@ == p.1,
                    Err(e) => sp == Err::<(Option<u64>, int), StatementParseError>(e),
                }
            }),
    {
        if self.at_kw(kw) {
            self.advance()?;
            let v = self.parse_u64_argument()?;
            Ok(Some(v))
        } else {
            Ok(None)
        }
    }

    /// Parses one `SELECT` statement, starting at its `SELECT` keyword and
    /// stopping at `;`, `)` or end-of-input. Clauses are attempted once
    /// each, in the fixed order; a clause keyword found after its place in
    /// the order fails with a clause-order error.
    #[verifier::rlimit(100)]
    fn parse_select(&mut self, depth_left: u64) -> (r: Result<
        SelectStatement,
        StatementParseError,
    >)
        requires
            old(self).wf(),
            old(self).synced(),
            depth_left >= 1,
        ensures
            final(self).wf(),
            final(self).src() == old(self).src(),
            final(self).measure() <= old(self).measure(),
            final(self).read_from@ >= old(self).read_from@,
            r matches Ok(sel) ==> wf_select(sel) && select_depth(sel) <= depth_left && final(self).synced() && final(self).measure() < old(self).measure() && final(self).read_from@
                > old(self).read_from@,
            r matches Err(StatementParseError::LexerError(le)) ==> spec_lex_error(
                old(self).src(),
                0,
            ) == Some(le),
            ({
                let sp = spec_select(old(self).src(), old(self).read_from@, depth_left as int);
                match r {
                    Ok(sel) => sp matches Ok(p) && view_select(sel) == p.0 && final(self).read_from@ == p.1,
                    Err(e) => sp == Err::<(SpecSelect, int), StatementParseError>(e),
                }
            }),
        decreases depth_left, old(self).measure(), 3int,
    {
        self.expect_kw(Keyword::Select)?;
        let columns = self.parse_result_columns()?;
        self.expect_kw(Keyword::From)?;
        let from_clause = self.parse_from_clause(depth_left)?;

        let where_present = self.parse_opt_scan_clause(Keyword::Where)?;
        let where_clause: Option<WhereClause> = if where_present {
            Some(WhereClause)
        } else {
            None
        };
        let group_by_clause = self.parse_opt_group_by()?;
        let having_present = self.parse_opt_scan_clause(Keyword::Having)?;
        let having_clause: Option<HavingClause> = if having_present {
            Some(HavingClause)
        } else {
            None
        };
        let order_by_clause = self.parse_opt_order_by()?;
        let offset_value = self.parse_opt_u64_clause(Keyword::Offset)?;
        let offset: Option<OffsetClause> = match offset_value {
            Some(v) => Some(OffsetClause { offset: v }),
            None => None,
        };
        let limit_value = self.parse_opt_u64_clause(Keyword::Limit)?;
        let limit: Option<LimitClause> = match limit_value {
            Some(v) => Some(LimitClause { limit: v }),
            None => None,
        };

        // The statement must end here; a clause keyword at this point is
        // out of the fixed order or a duplicate.
        let k = self.current.kind;
        if k == TokenKind::Semicolon || k == TokenKind::Eof || k == TokenKind::ClosingParen {
            Ok(
                SelectStatement {
                    columns,
                    from_clause,
                    where_clause,
                    group_by_clause,
                    having_clause,
                    order_by_clause,
                    offset,
                    limit,
                },
            )
        } else {
            match k {
                TokenKind::Keyword(kw) => {
                    if is_clause_kw_exec(kw) {
                        Err(
                            StatementParseError::ClauseOutOfOrder {
                                keyword: kw,
                                span: self.current.span,
                            },
                        )
                    } else {
                        Err(
                            StatementParseError::UnexpectedToken {
                                expected: Expectation::StatementTerminator,
                                span: self.current.span,
                            },
                        )
                    }
                },
                _ => Err(
                    StatementParseError::UnexpectedToken {
                        expected: Expectation::StatementTerminator,
                        span: self.current.span,
                    },
                ),
            }
        }
    }

    /// Parses the statements after those already parsed: one `SELECT`
    /// statement after another, each ended by `;` (optional before
    /// end-of-input).
    fn parse_statements_rest(&mut self, statements: Vec<Statement>, max_depth: u64) -> (r: Result<
        Vec<Statement>,
        StatementParseError,
    >)
        requires
            old(self).wf(),
            old(self).synced(),
            max_depth >= 1,
            forall|i: int| 0 <= i < statements@.len() ==> wf_statement(#[trigger] statements@[i])
                && statement_depth(statements@[i]) <= max_depth,
        ensures
            final(self).wf(),
            final(self).src() == old(self).src(),
            r matches Err(StatementParseError::LexerError(le)) ==> spec_lex_error(
                old(self).src(),
                0,
            ) == Some(le),
            r matches Ok(out) ==> out@.len() > statements@.len() && (forall|i: int|
                0 <= i < out@.len() ==> wf_statement(#[trigger] out@[i]) && statement_depth(
                    out@[i],
                ) <= max_depth) && final(self).synced() && final(self).current.kind
                == TokenKind::Eof,
            ({
                let sp = spec_statements_rest(
                    old(self).src(),
                    old(self).read_from@,
                    max_depth as int,
                    statements@.map_values(|st: Statement| view_statement(st)),
                );
                match r {
                    Ok(out) => sp matches Ok(p) && out@.map_values(
                        |st: Statement| view_statement(st),
                    ) == p.0 && final(self).read_from@ == p.1,
                    Err(e) => sp == Err::<(Seq<SpecStatement>, int), StatementParseError>(e),
                }
            }),
        decreases old(self).measure(),
    {
        let mut statements = statements;
        let ghost m0 = statements@.map_values(|st: Statement| view_statement(st));
        if !self.at_kw(Keyword::Select) {
            return Err(StatementParseError::ExpectedStatement { span: self.current.span });
        }
        let sel = self.parse_select(max_depth)?;
        statements.push(Statement::Select(sel));
        proof {
            assert(statements@.map_values(|st: Statement| view_statement(st)) =~= m0.push(
                view_statement(Statement::Select(sel)),
            ));
        }
        let k = self.current.kind;
        if k == TokenKind::Semicolon {
            self.advance()?;
            if self.current.kind == TokenKind::Eof {
                return Ok(statements);
            }
            self.parse_statements_rest(statements, max_depth)
        } else if k == TokenKind::Eof {
            Ok(statements)
        } else {
            Err(StatementParseError::TrailingTokens { span: self.current.span })
        }
    }

    /// Parses the semicolon-separated statement list making up the input.
    /// An input holding no token at all fails with an `ExpectedStatement`
    /// error at the zero-width start-of-input span.
    #[verifier::rlimit(60)]
    fn parse_statements(&mut self, max_depth: u64) -> (r: Result<
        Vec<Statement>,
        StatementParseError,
    >)
        requires
            old(self).wf(),
            old(self).synced(),
            max_depth >= 1,
        ensures
            final(self).wf(),
            final(self).src() == old(self).src(),
            r matches Err(StatementParseError::LexerError(le)) ==> spec_lex_error(
                old(self).src(),
                0,
            ) == Some(le),
            old(self).current.kind == TokenKind::Eof ==> r == Err::<
                Vec<Statement>,
                StatementParseError,
            >(StatementParseError::ExpectedStatement { span: Span { start: 0, end: 0 } }),
            r matches Ok(stmts) ==> stmts@.len() > 0 && (forall|i: int|
                0 <= i < stmts@.len() ==> wf_statement(#[trigger] stmts@[i]) && statement_depth(
                    stmts@[i],
                ) <= max_depth) && final(self).current.kind == TokenKind::Eof && final(self).synced(),
            ({
                let sp = spec_statements(old(self).src(), old(self).read_from@, max_depth as int);
                match r {
                    Ok(stmts) => sp matches Ok(sts) && stmts@.map_values(
                        |st: Statement| view_statement(st),
                    ) == sts,
                    Err(e) => sp == Err::<Seq<SpecStatement>, StatementParseError>(e),
                }
            }),
    {
        if self.current.kind == TokenKind::Eof {
            return Err(StatementParseError::ExpectedStatement { span: Span::empty() });
        }
        let statements: Vec<Statement> = Vec::new();
        proof {
            assert(statements@.map_values(|st: Statement| view_statement(st))
                =~= Seq::<SpecStatement>::empty());
        }
        self.parse_statements_rest(statements, max_depth)
    }
}

/// The parser's public face: one pure operation from statement text to a
/// list of statements or the first diagnostic.
pub struct StatementParser;

impl StatementParser {
    /// Parses semicolon-separated statement text with the default maximum
    /// sub-query nesting depth.
    ///
    /// The same contract as `parse_with_max_depth` holds, with the default
    /// depth bound.
    pub fn parse(statement: &str) -> (r: Result<Vec<Statement>, StatementParseError>)
        ensures
            ({
                let sp = spec_parse(statement@, DEFAULT_MAX_DEPTH as int);
                match r {
                    Ok(stmts) => sp matches Ok(sts) && stmts@.map_values(
                        |st: Statement| view_statement(st),
                    ) == sts,
                    Err(e) => sp == Err::<Seq<SpecStatement>, StatementParseError>(e),
                }
            }),
            (forall|j: int| 0 <= j < statement@.len() ==> is_ws_char(#[trigger] statement@[j]))
                ==> r == Err::<Vec<Statement>, StatementParseError>(
                StatementParseError::ExpectedStatement { span: Span { start: 0, end: 0 } },
            ),
            r matches Ok(stmts) ==> stmts@.len() > 0 && forall|i: int|
                0 <= i < stmts@.len() ==> wf_statement(#[trigger] stmts@[i]) && statement_depth(
                    stmts@[i],
                ) <= DEFAULT_MAX_DEPTH,
            r matches Ok(_) ==> forall|j: int|
                0 <= j < statement@.len() ==> is_ascii_char(#[trigger] statement@[j]),
            r matches Err(StatementParseError::LexerError(le)) ==> spec_lex_error(statement@, 0)
                == Some(le),
    {
        Self::parse_with_max_depth(statement, DEFAULT_MAX_DEPTH)
    }

    /// Parses semicolon-separated statement text.
    ///
    /// The result is exactly what `spec_parse` names for this text and this
    /// depth bound, at the level of the syntax tree's ghost image: the same
    /// acceptance, the same statements, the same first error. In addition:
    /// on success at least one statement comes back, every statement is
    /// well-formed, no statement nests sub-queries deeper than `max_depth`,
    /// and the input was pure 7-bit ASCII; an input of whitespace alone
    /// (or empty) fails with an `ExpectedStatement` error at the zero-width
    /// start-of-input span; and a returned lexical error is the first
    /// lexical error of the text.
    pub fn parse_with_max_depth(statement: &str, max_depth: u64) -> (r: Result<
        Vec<Statement>,
        StatementParseError,
    >)
        requires
            max_depth >= 1,
        ensures
            ({
                let sp = spec_parse(statement@, max_depth as int);
                match r {
                    Ok(stmts) => sp matches Ok(sts) && stmts@.map_values(
                        |st: Statement| view_statement(st),
                    ) == sts,
                    Err(e) => sp == Err::<Seq<SpecStatement>, StatementParseError>(e),
                }
            }),
            (forall|j: int| 0 <= j < statement@.len() ==> is_ws_char(#[trigger] statement@[j]))
                ==> r == Err::<Vec<Statement>, StatementParseError>(
                StatementParseError::ExpectedStatement { span: Span { start: 0, end: 0 } },
            ),
            r matches Ok(stmts) ==> stmts@.len() > 0 && forall|i: int|
                0 <= i < stmts@.len() ==> wf_statement(#[trigger] stmts@[i]) && statement_depth(
                    stmts@[i],
                ) <= max_depth,
            r matches Ok(_) ==> forall|j: int|
                0 <= j < statement@.len() ==> is_ascii_char(#[trigger] statement@[j]),
            r matches Err(StatementParseError::LexerError(le)) ==> spec_lex_error(statement@, 0)
                == Some(le),
    {
        proof {
            lemma_lex_error_step(statement@, 0);
            if forall|j: int| 0 <= j < statement@.len() ==> is_ws_char(#[trigger] statement@[j]) {
                lemma_ws_end_all_ws(statement@, 0);
            }
        }
        let mut parser = match Parser::new(statement) {
            Ok(p) => p,
            Err(e) => {
                return Err(e);
            },
        };
        parser.parse_statements(max_depth)
    }
}

} // verus!

