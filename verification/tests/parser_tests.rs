use drown::keyword::Keyword;
use drown::lexer::LexerError;
use drown::parser::Expectation;
use drown::parser::StatementParseError;
use drown::parser::StatementParser;
use drown::statement::ColumnName;
use drown::statement::FromClause;
use drown::statement::FromTable;
use drown::statement::JoinCondition;
use drown::statement::JoinType;
use drown::statement::Ordering;
use drown::statement::ResultColumns;
use drown::statement::SelectStatement;
use drown::statement::Statement;
use drown::token::Span;

fn parse_one(input: &str) -> SelectStatement {
    let mut statements = StatementParser::parse(input).unwrap();
    assert_eq!(statements.len(), 1);
    let Statement::Select(sel) = statements.pop().unwrap();
    sel
}

#[test]
fn whitespace_only_input_is_expected_statement_at_start() {
    for input in ["", " ", "   \t\r\n  "] {
        let err = StatementParser::parse(input).unwrap_err();
        assert_eq!(
            err,
            StatementParseError::ExpectedStatement {
                span: Span::new(0, 0)
            }
        );
    }
}

#[test]
fn select_star_from_table() {
    let sel = parse_one("SELECT * FROM t;");
    assert!(matches!(sel.columns, ResultColumns::All));
    match &sel.from_clause {
        FromClause::Direct { table } => {
            assert!(matches!(&table.table, FromTable::TableName { name } if name == "t"));
            assert!(table.alias.is_none());
        }
        _ => panic!("expected a direct from clause"),
    }
    assert!(sel.where_clause.is_none());
    assert!(sel.group_by_clause.is_none());
    assert!(sel.having_clause.is_none());
    assert!(sel.order_by_clause.is_none());
    assert!(sel.offset.is_none());
    assert!(sel.limit.is_none());
}

#[test]
fn select_star_spelling_variants() {
    for input in ["select * from t;", "SELECT  *  FROM  t", "SeLeCt * FrOm t ;"] {
        let sel = parse_one(input);
        assert!(matches!(sel.columns, ResultColumns::All));
        assert!(matches!(
            &sel.from_clause,
            FromClause::Direct { table } if matches!(&table.table, FromTable::TableName { name } if name == "t")
        ));
    }
}

#[test]
fn columns_aliases_and_inner_join() {
    let sel = parse_one("SELECT a, b AS c FROM t1 JOIN t2 ON a.x = b.y;");
    match &sel.columns {
        ResultColumns::Specific(cols) => {
            assert_eq!(cols.len(), 2);
            assert!(matches!(&cols[0].column_name, ColumnName::Direct { name } if name == "a"));
            assert!(cols[0].alias.is_none());
            assert!(matches!(&cols[1].column_name, ColumnName::Direct { name } if name == "b"));
            assert_eq!(cols[1].alias.as_deref(), Some("c"));
        }
        _ => panic!("expected specific columns"),
    }
    match &sel.from_clause {
        FromClause::Join {
            left,
            right,
            join_type,
            join_condition,
        } => {
            assert!(matches!(
                left.as_ref(),
                FromClause::Direct { table } if matches!(&table.table, FromTable::TableName { name } if name == "t1")
            ));
            assert!(matches!(&right.table, FromTable::TableName { name } if name == "t2"));
            assert!(matches!(join_type, JoinType::Inner));
            assert!(matches!(join_condition, JoinCondition::On(_)));
        }
        _ => panic!("expected a join"),
    }
}

#[test]
fn qualified_column_names() {
    let sel = parse_one("SELECT t.a AS x, b FROM t;");
    match &sel.columns {
        ResultColumns::Specific(cols) => {
            assert!(matches!(
                &cols[0].column_name,
                ColumnName::Qualified { table_name, column_name }
                    if table_name == "t" && column_name == "a"
            ));
            assert_eq!(cols[0].alias.as_deref(), Some("x"));
        }
        _ => panic!("expected specific columns"),
    }
}

#[test]
fn join_type_spellings() {
    let cases = [
        ("JOIN", JoinType::Inner),
        ("INNER JOIN", JoinType::Inner),
        ("LEFT JOIN", JoinType::LeftOuter),
        ("LEFT OUTER JOIN", JoinType::LeftOuter),
        ("RIGHT JOIN", JoinType::RightOuter),
        ("RIGHT OUTER JOIN", JoinType::RightOuter),
        ("FULL JOIN", JoinType::FullOuter),
        ("FULL OUTER JOIN", JoinType::FullOuter),
    ];
    for (spelling, expected) in cases {
        let input = format!("SELECT * FROM t1 {} t2 USING (a, b);", spelling);
        let sel = parse_one(&input);
        match &sel.from_clause {
            FromClause::Join {
                join_type,
                join_condition,
                ..
            } => {
                assert_eq!(
                    std::mem::discriminant(join_type),
                    std::mem::discriminant(&expected)
                );
                assert!(matches!(
                    join_condition,
                    JoinCondition::Using(names) if names == &vec!["a".to_string(), "b".to_string()]
                ));
            }
            _ => panic!("expected a join"),
        }
    }
}

#[test]
fn chained_joins_nest_left() {
    let sel = parse_one("SELECT * FROM t1 JOIN t2 ON a = b JOIN t3 USING (k);");
    match &sel.from_clause {
        FromClause::Join { left, right, .. } => {
            assert!(matches!(&right.table, FromTable::TableName { name } if name == "t3"));
            assert!(matches!(left.as_ref(), FromClause::Join { .. }));
        }
        _ => panic!("expected a join"),
    }
}

#[test]
fn derived_table_with_alias() {
    let sel = parse_one("SELECT * FROM (SELECT a FROM t) AS sub;");
    match &sel.from_clause {
        FromClause::Direct { table } => {
            assert!(matches!(&table.table, FromTable::DerivedTable { .. }));
            assert_eq!(table.alias.as_deref(), Some("sub"));
        }
        _ => panic!("expected a direct from clause"),
    }
}

#[test]
fn parenthesized_non_select_is_rejected() {
    let err = StatementParser::parse("SELECT * FROM (a);").unwrap_err();
    assert!(matches!(
        err,
        StatementParseError::UnexpectedToken {
            expected: Expectation::Keyword(Keyword::Select),
            ..
        }
    ));
}

#[test]
fn full_clause_chain() {
    let sel = parse_one(
        "SELECT a FROM t WHERE a = 1 GROUP BY a, b HAVING a GROUP_STUFF \
         ORDER BY a ASC, b DEC, c OFFSET 10 LIMIT 5;",
    );
    assert!(sel.where_clause.is_some());
    let group_by = sel.group_by_clause.unwrap();
    assert_eq!(group_by.groupings.len(), 2);
    assert!(sel.having_clause.is_some());
    let order_by = sel.order_by_clause.unwrap();
    assert_eq!(order_by.orderings.len(), 3);
    assert_eq!(order_by.orderings[0].ordering, Some(Ordering::Ascending));
    assert_eq!(order_by.orderings[1].ordering, Some(Ordering::Descending));
    assert_eq!(order_by.orderings[2].ordering, None);
    assert_eq!(sel.offset.unwrap().offset, 10);
    assert_eq!(sel.limit.unwrap().limit, 5);
}

#[test]
fn limit_before_offset_is_a_clause_order_error() {
    let err = StatementParser::parse("SELECT * FROM t LIMIT 1 OFFSET 2;").unwrap_err();
    assert!(matches!(
        err,
        StatementParseError::ClauseOutOfOrder {
            keyword: Keyword::Offset,
            ..
        }
    ));

    let sel = parse_one("SELECT * FROM t OFFSET 2 LIMIT 1;");
    assert_eq!(sel.offset.unwrap().offset, 2);
    assert_eq!(sel.limit.unwrap().limit, 1);
}

#[test]
fn duplicate_clause_is_a_clause_order_error() {
    let err = StatementParser::parse("SELECT * FROM t LIMIT 1 LIMIT 2;").unwrap_err();
    assert!(matches!(
        err,
        StatementParseError::ClauseOutOfOrder {
            keyword: Keyword::Limit,
            ..
        }
    ));
}

#[test]
fn limit_argument_validation() {
    let sel = parse_one("SELECT * FROM t LIMIT 18446744073709551615;");
    assert_eq!(sel.limit.unwrap().limit, u64::MAX);

    let err = StatementParser::parse("SELECT * FROM t LIMIT 18446744073709551616;").unwrap_err();
    assert!(matches!(err, StatementParseError::IntegerOutOfRange { .. }));

    let err = StatementParser::parse("SELECT * FROM t LIMIT 1.5;").unwrap_err();
    assert!(matches!(
        err,
        StatementParseError::UnexpectedToken {
            expected: Expectation::IntegerLiteral,
            ..
        }
    ));
}

fn nested_select(depth: usize) -> String {
    // depth 1: SELECT * FROM t
    let mut q = String::from("SELECT * FROM t");
    for _ in 1..depth {
        q = format!("SELECT * FROM ({})", q);
    }
    q
}

#[test]
fn nesting_guard_with_configured_bound() {
    assert!(StatementParser::parse_with_max_depth(&nested_select(3), 3).is_ok());
    let err = StatementParser::parse_with_max_depth(&nested_select(4), 3).unwrap_err();
    assert!(matches!(err, StatementParseError::NestingTooDeep { .. }));
    let err = StatementParser::parse_with_max_depth(&nested_select(6), 3).unwrap_err();
    assert!(matches!(err, StatementParseError::NestingTooDeep { .. }));
}

#[test]
fn nesting_guard_with_default_bound() {
    assert!(StatementParser::parse(&nested_select(64)).is_ok());
    let err = StatementParser::parse(&nested_select(65)).unwrap_err();
    assert!(matches!(err, StatementParseError::NestingTooDeep { .. }));
}

#[test]
fn multiple_statements() {
    let statements = StatementParser::parse("SELECT * FROM a; SELECT * FROM b;").unwrap();
    assert_eq!(statements.len(), 2);
    let statements = StatementParser::parse("SELECT * FROM a; SELECT * FROM b").unwrap();
    assert_eq!(statements.len(), 2);
}

#[test]
fn non_select_leading_token_is_expected_statement() {
    let err = StatementParser::parse("WITH x;").unwrap_err();
    assert_eq!(
        err,
        StatementParseError::ExpectedStatement {
            span: Span::new(0, 4)
        }
    );
    let err = StatementParser::parse(";").unwrap_err();
    assert_eq!(
        err,
        StatementParseError::ExpectedStatement {
            span: Span::new(0, 1)
        }
    );
}

#[test]
fn missing_from_is_rejected() {
    let err = StatementParser::parse("SELECT a;").unwrap_err();
    assert!(matches!(
        err,
        StatementParseError::UnexpectedToken {
            expected: Expectation::Keyword(Keyword::From),
            ..
        }
    ));
}

#[test]
fn empty_column_list_is_rejected() {
    let err = StatementParser::parse("SELECT FROM t;").unwrap_err();
    assert!(matches!(
        err,
        StatementParseError::UnexpectedToken {
            expected: Expectation::Identifier,
            ..
        }
    ));
}

#[test]
fn trailing_tokens_are_rejected() {
    let err = StatementParser::parse("SELECT * FROM t) ;").unwrap_err();
    assert!(matches!(err, StatementParseError::TrailingTokens { .. }));
}

#[test]
fn unterminated_subquery_is_rejected() {
    let err = StatementParser::parse("SELECT * FROM (SELECT * FROM t;").unwrap_err();
    assert!(matches!(
        err,
        StatementParseError::UnexpectedToken {
            expected: Expectation::Punctuation(drown::token::TokenKind::ClosingParen),
            ..
        }
    ));
}

#[test]
fn join_without_condition_is_rejected() {
    let err = StatementParser::parse("SELECT * FROM a JOIN b;").unwrap_err();
    assert!(matches!(
        err,
        StatementParseError::UnexpectedToken {
            expected: Expectation::JoinConditionStart,
            ..
        }
    ));
    let err = StatementParser::parse("SELECT * FROM a JOIN b ON;").unwrap_err();
    assert!(matches!(
        err,
        StatementParseError::UnexpectedToken {
            expected: Expectation::ConditionExpression,
            ..
        }
    ));
}

#[test]
fn lexical_errors_propagate_through_parse() {
    let err = StatementParser::parse("SELECT * FROM caf\u{e9};").unwrap_err();
    assert_eq!(
        err,
        StatementParseError::LexerError(LexerError::NonAsciiCharacter {
            ch: '\u{e9}',
            span: Span::new(17, 18)
        })
    );
}

#[test]
fn lexical_error_is_raised_lazily() {
    // The offending character sits after a syntax error: the parser stops
    // at the syntax error and the lexical one is never reached.
    let err = StatementParser::parse("SELECT a b \u{e9}").unwrap_err();
    assert!(matches!(
        err,
        StatementParseError::UnexpectedToken { .. } | StatementParseError::ClauseOutOfOrder { .. }
    ));
}

#[test]
fn keyword_is_never_an_identifier() {
    // An identifier position holding a keyword is a syntax error: there is
    // no quoting mechanism.
    let err = StatementParser::parse("SELECT select FROM t;").unwrap_err();
    assert!(matches!(
        err,
        StatementParseError::UnexpectedToken {
            expected: Expectation::Identifier,
            ..
        }
    ));
}

#[test]
fn contextual_as_may_name_a_column() {
    // `as` outside alias position is an ordinary identifier.
    let sel = parse_one("SELECT as FROM t;");
    match &sel.columns {
        ResultColumns::Specific(cols) => {
            assert!(matches!(&cols[0].column_name, ColumnName::Direct { name } if name == "as"));
        }
        _ => panic!("expected specific columns"),
    }
}

#[test]
fn where_scan_stops_at_next_clause() {
    let sel = parse_one("SELECT a FROM t WHERE x = 1 + y.z LIMIT 3;");
    assert!(sel.where_clause.is_some());
    assert_eq!(sel.limit.unwrap().limit, 3);
}

#[test]
fn clause_order_error_carries_the_offending_span() {
    let input = "SELECT * FROM t LIMIT 1 OFFSET 2;";
    let err = StatementParser::parse(input).unwrap_err();
    let offset_at = input.find("OFFSET").unwrap();
    assert_eq!(
        err,
        StatementParseError::ClauseOutOfOrder {
            keyword: Keyword::Offset,
            span: Span::new(offset_at, offset_at + 6),
        }
    );
}

#[test]
fn comma_separated_tables_are_not_supported() {
    let err = StatementParser::parse("SELECT * FROM t1, t2;").unwrap_err();
    assert!(matches!(
        err,
        StatementParseError::UnexpectedToken {
            expected: Expectation::StatementTerminator,
            ..
        }
    ));
}

#[test]
fn group_and_order_require_by() {
    let err = StatementParser::parse("SELECT * FROM t GROUP a;").unwrap_err();
    assert!(matches!(
        err,
        StatementParseError::UnexpectedToken {
            expected: Expectation::Keyword(Keyword::By),
            ..
        }
    ));
    let err = StatementParser::parse("SELECT * FROM t ORDER a;").unwrap_err();
    assert!(matches!(
        err,
        StatementParseError::UnexpectedToken {
            expected: Expectation::Keyword(Keyword::By),
            ..
        }
    ));
}

#[test]
fn empty_using_list_is_rejected() {
    let err = StatementParser::parse("SELECT * FROM a JOIN b USING ();").unwrap_err();
    assert!(matches!(
        err,
        StatementParseError::UnexpectedToken {
            expected: Expectation::Identifier,
            ..
        }
    ));
}

#[test]
fn alias_keyword_needs_an_alias_name() {
    let err = StatementParser::parse("SELECT * FROM t AS;").unwrap_err();
    assert!(matches!(
        err,
        StatementParseError::UnexpectedToken {
            expected: Expectation::Identifier,
            ..
        }
    ));
}

#[test]
fn error_in_a_later_statement_aborts_the_parse() {
    let err = StatementParser::parse("SELECT * FROM a; SELECT FROM b;").unwrap_err();
    assert!(matches!(
        err,
        StatementParseError::UnexpectedToken {
            expected: Expectation::Identifier,
            ..
        }
    ));
}

#[test]
fn derived_table_may_be_joined() {
    let sel = parse_one("SELECT * FROM (SELECT a FROM t) AS sub JOIN u ON sub.a = u.a;");
    match &sel.from_clause {
        FromClause::Join { left, right, .. } => {
            assert!(matches!(
                left.as_ref(),
                FromClause::Direct { table } if matches!(&table.table, FromTable::DerivedTable { .. })
            ));
            assert!(matches!(&right.table, FromTable::TableName { name } if name == "u"));
        }
        _ => panic!("expected a join"),
    }
}
