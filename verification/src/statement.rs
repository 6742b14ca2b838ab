//! The typed syntax tree of a `SELECT` statement and its clauses, together
//! with the well-formedness predicate the parser guarantees and the nesting
//! depth measure the parser bounds.

use vstd::prelude::*;

use crate::token::Span;

verus! {

/// A parsed statement. The grammar currently recognizes `SELECT` only.
#[derive(Debug)]
pub enum Statement {
    Select(SelectStatement),
}

/// A `SELECT` statement. Clauses, when present, were recognized in the
/// fixed textual order: result columns, `FROM`, `WHERE`, `GROUP BY`,
/// `HAVING`, `ORDER BY`, `OFFSET`, `LIMIT`.
#[derive(Debug)]
pub struct SelectStatement {
    pub columns: ResultColumns,
    pub from_clause: FromClause,
    pub where_clause: Option<WhereClause>,
    pub group_by_clause: Option<GroupByClause>,
    pub having_clause: Option<HavingClause>,
    pub order_by_clause: Option<OrderByClause>,
    pub offset: Option<OffsetClause>,
    pub limit: Option<LimitClause>,
}

/// `SELECT *`, or a non-empty list of selected columns.
#[derive(Debug, Clone, PartialEq)]
pub enum ResultColumns {
    /// SELECT *
    All,
    /// SELECT a, b, c
    /// or
    /// SELECT a AS b, c AS d
    Specific(Vec<AliasedColumnName>),
}

/// A selected column with its optional `AS` alias.
#[derive(Debug, Clone, PartialEq)]
pub struct AliasedColumnName {
    pub column_name: ColumnName,
    pub alias: Option<String>,
}

/// A column reference: bare, or qualified by exactly one table name.
#[derive(Debug, Clone, PartialEq)]
pub enum ColumnName {
    /// a
    Direct { name: String },
    /// a.b
    Qualified { table_name: String, column_name: String },
}

/// The `FROM` clause: one table reference, or a binary join. Chains of
/// joins are represented left-associatively, by nesting the join parsed so
/// far as the `left` of the next one.
#[derive(Debug)]
pub enum FromClause {
    /// FROM a
    /// FROM a AS b
    /// FROM (SELECT ...)
    /// FROM (SELECT ...) AS a
    Direct { table: AliasedFromTable },
    /// FROM a JOIN b ON ...
    Join {
        left: Box<FromClause>,
        right: Box<AliasedFromTable>,
        join_type: JoinType,
        join_condition: JoinCondition,
    },
}

/// (SELECT ...) [AS a]
/// a [AS b]
#[derive(Debug)]
pub struct AliasedFromTable {
    pub table: FromTable,
    pub alias: Option<String>,
}

/// A table reference: a parenthesized sub-query, or a bare table name.
#[derive(Debug)]
pub enum FromTable {
    /// (SELECT ...)
    DerivedTable { query: Box<SelectStatement> },
    /// a
    TableName { name: String },
}

/// The flavor of a binary join.
#[derive(Debug, Clone, Copy, PartialEq, Eq, Structural)]
pub enum JoinType {
    Inner,
    LeftOuter,
    RightOuter,
    FullOuter,
}

/// `ON <condition>` or `USING (<non-empty column list>)`.
#[derive(Debug, Clone, PartialEq)]
pub enum JoinCondition {
    On(Expr),
    Using(Vec<String>),
}

/// A condition expression. A concrete expression grammar is an open
/// extension point: today the parser records only the span of the source
/// text the condition covered.
#[derive(Debug, Clone, PartialEq)]
pub enum Expr {
    Opaque { span: Span },
}

/// Presence of a `WHERE` clause; its condition grammar is an open
/// extension point.
#[derive(Debug, Clone, PartialEq)]
pub struct WhereClause;

/// `GROUP BY`, with its non-empty list of grouping columns.
#[derive(Debug, Clone, PartialEq)]
pub struct GroupByClause {
    pub groupings: Vec<ColumnName>,
}

/// Presence of a `HAVING` clause; its condition grammar is an open
/// extension point.
#[derive(Debug, Clone, PartialEq)]
pub struct HavingClause;

/// `ORDER BY`, with its non-empty list of orderings.
#[derive(Debug, Clone, PartialEq)]
pub struct OrderByClause {
    pub orderings: Vec<OrderByItem>,
}

/// One `ORDER BY` item; an absent ordering means ascending.
#[derive(Debug, Clone, PartialEq)]
pub struct OrderByItem {
    pub column_name: ColumnName,
    pub ordering: Option<Ordering>,
}

/// The direction of one `ORDER BY` item.
#[derive(Debug, Clone, Copy, PartialEq, Eq, Structural)]
pub enum Ordering {
    Ascending,
    Descending,
}

/// `OFFSET`, with its literal non-negative row count.
#[derive(Debug, Clone, Copy, PartialEq, Eq, Structural)]
pub struct OffsetClause {
    pub offset: u64,
}

/// `LIMIT`, with its literal non-negative row count.
#[derive(Debug, Clone, Copy, PartialEq, Eq, Structural)]
pub struct LimitClause {
    pub limit: u64,
}

/// Well-formedness of a column reference: its names are non-empty.
pub open spec fn wf_column_name(c: ColumnName) -> bool {
    match c {
        ColumnName::Direct { name } => name@.len() > 0,
        ColumnName::Qualified { table_name, column_name } => table_name@.len() > 0
            && column_name@.len() > 0,
    }
}

/// Well-formedness of a selected column: a well-formed column reference
/// and, where an alias is present, a non-empty alias.
pub open spec fn wf_aliased_column(c: AliasedColumnName) -> bool {
    wf_column_name(c.column_name) && match c.alias {
        Some(a) => a@.len() > 0,
        None => true,
    }
}

/// Well-formedness of the result columns: `All`, or a non-empty list of
/// well-formed selected columns.
pub open spec fn wf_result_columns(c: ResultColumns) -> bool {
    match c {
        ResultColumns::All => true,
        ResultColumns::Specific(cols) => cols@.len() > 0 && forall|i: int|
            0 <= i < cols@.len() ==> wf_aliased_column(#[trigger] cols@[i]),
    }
}

/// Well-formedness of a join condition: `USING` lists are non-empty lists
/// of non-empty names.
pub open spec fn wf_join_condition(c: JoinCondition) -> bool {
    match c {
        JoinCondition::On(_) => true,
        JoinCondition::Using(names) => names@.len() > 0 && forall|i: int|
            0 <= i < names@.len() ==> (#[trigger] names@[i])@.len() > 0,
    }
}

/// Well-formedness of a table reference.
pub open spec fn wf_from_table(t: FromTable) -> bool
    decreases t,
{
    match t {
        FromTable::DerivedTable { query } => wf_select(*query),
        FromTable::TableName { name } => name@.len() > 0,
    }
}

/// Well-formedness of an aliased table reference.
pub open spec fn wf_aliased_from_table(t: AliasedFromTable) -> bool
    decreases t,
{
    wf_from_table(t.table) && match t.alias {
        Some(a) => a@.len() > 0,
        None => true,
    }
}

/// Well-formedness of a `FROM` clause.
pub open spec fn wf_from_clause(f: FromClause) -> bool
    decreases f,
{
    match f {
        FromClause::Direct { table } => wf_aliased_from_table(table),
        FromClause::Join { left, right, join_type, join_condition } => wf_from_clause(*left)
            && wf_aliased_from_table(*right) && wf_join_condition(join_condition),
    }
}

/// Well-formedness of a `SELECT` statement: every list the data model
/// requires to be non-empty is non-empty, every name is non-empty, and the
/// same holds inside every nested sub-query.
pub open spec fn wf_select(s: SelectStatement) -> bool
    decreases s,
{
    wf_result_columns(s.columns) && wf_from_clause(s.from_clause) && match s.group_by_clause {
        Some(g) => g.groupings@.len() > 0 && forall|i: int|
            0 <= i < g.groupings@.len() ==> wf_column_name(#[trigger] g.groupings@[i]),
        None => true,
    } && match s.order_by_clause {
        Some(o) => o.orderings@.len() > 0 && forall|i: int|
            0 <= i < o.orderings@.len() ==> wf_column_name((#[trigger] o.orderings@[i]).column_name),
        None => true,
    }
}

/// Well-formedness of a statement.
pub open spec fn wf_statement(s: Statement) -> bool {
    match s {
        Statement::Select(sel) => wf_select(sel),
    }
}

/// The nesting depth of a table reference: how many `SELECT` levels it
/// contains.
pub open spec fn from_table_depth(t: FromTable) -> nat
    decreases t,
{
    match t {
        FromTable::DerivedTable { query } => select_depth(*query),
        FromTable::TableName { name } => 0,
    }
}

/// The nesting depth of a `FROM` clause: the deepest of its table
/// references.
pub open spec fn from_clause_depth(f: FromClause) -> nat
    decreases f,
{
    match f {
        FromClause::Direct { table } => from_table_depth(table.table),
        FromClause::Join { left, right, join_type, join_condition } => {
            let l = from_clause_depth(*left);
            let r = from_table_depth(right.table);
            if l >= r {
                l
            } else {
                r
            }
        },
    }
}

/// The nesting depth of a `SELECT` statement: 1 for the statement itself,
/// plus the deepest sub-query below it.
pub open spec fn select_depth(s: SelectStatement) -> nat
    decreases s,
{
    1 + from_clause_depth(s.from_clause)
}

/// The nesting depth of a statement.
pub open spec fn statement_depth(s: Statement) -> nat {
    match s {
        Statement::Select(sel) => select_depth(sel),
    }
}

} // verus!


verus! {

/// The ghost image of a statement: the same tree with every owned string
/// replaced by its character sequence. The parser's contract fixes the
/// parsed tree at this level, where values can be written down in
/// specifications.
pub ghost enum SpecStatement {
    Select(SpecSelect),
}

/// The ghost image of a `SELECT` statement.
pub ghost struct SpecSelect {
    pub columns: SpecResultColumns,
    pub from_clause: SpecFromClause,
    pub where_present: bool,
    pub group_by: Option<Seq<SpecColumnName>>,
    pub having_present: bool,
    pub order_by: Option<Seq<SpecOrderByItem>>,
    pub offset: Option<u64>,
    pub limit: Option<u64>,
}

/// The ghost image of the result columns.
pub ghost enum SpecResultColumns {
    All,
    Specific(Seq<SpecAliasedColumnName>),
}

/// The ghost image of a selected column.
pub ghost struct SpecAliasedColumnName {
    pub column_name: SpecColumnName,
    pub alias: Option<Seq<char>>,
}

/// The ghost image of a column reference.
pub ghost enum SpecColumnName {
    Direct { name: Seq<char> },
    Qualified { table_name: Seq<char>, column_name: Seq<char> },
}

/// The ghost image of a `FROM` clause.
pub ghost enum SpecFromClause {
    Direct { table: SpecAliasedFromTable },
    Join {
        left: Box<SpecFromClause>,
        right: Box<SpecAliasedFromTable>,
        join_type: JoinType,
        join_condition: SpecJoinCondition,
    },
}

/// The ghost image of an aliased table reference.
pub ghost struct SpecAliasedFromTable {
    pub table: SpecFromTable,
    pub alias: Option<Seq<char>>,
}

/// The ghost image of a table reference.
pub ghost enum SpecFromTable {
    DerivedTable { query: Box<SpecSelect> },
    TableName { name: Seq<char> },
}

/// The ghost image of a join condition.
pub ghost enum SpecJoinCondition {
    On(Expr),
    Using(Seq<Seq<char>>),
}

/// The ghost image of one `ORDER BY` item.
pub ghost struct SpecOrderByItem {
    pub column_name: SpecColumnName,
    pub ordering: Option<Ordering>,
}

/// The ghost image of a column reference.
pub open spec fn view_column_name(c: ColumnName) -> SpecColumnName {
    match c {
        ColumnName::Direct { name } => SpecColumnName::Direct { name: name@ },
        ColumnName::Qualified { table_name, column_name } => SpecColumnName::Qualified {
            table_name: table_name@,
            column_name: column_name@,
        },
    }
}

/// The ghost image of an optional alias.
pub open spec fn view_alias(a: Option<String>) -> Option<Seq<char>> {
    match a {
        Some(s) => Some(s@),
        None => None,
    }
}

/// The ghost image of a selected column.
pub open spec fn view_aliased_column(c: AliasedColumnName) -> SpecAliasedColumnName {
    SpecAliasedColumnName { column_name: view_column_name(c.column_name), alias: view_alias(c.alias) }
}

/// The ghost image of the result columns.
pub open spec fn view_result_columns(c: ResultColumns) -> SpecResultColumns {
    match c {
        ResultColumns::All => SpecResultColumns::All,
        ResultColumns::Specific(cols) => SpecResultColumns::Specific(
            cols@.map_values(|col: AliasedColumnName| view_aliased_column(col)),
        ),
    }
}

/// The ghost image of a join condition.
pub open spec fn view_join_condition(c: JoinCondition) -> SpecJoinCondition {
    match c {
        JoinCondition::On(e) => SpecJoinCondition::On(e),
        JoinCondition::Using(names) => SpecJoinCondition::Using(
            names@.map_values(|n: String| n@),
        ),
    }
}

/// The ghost image of a table reference.
pub open spec fn view_from_table(t: FromTable) -> SpecFromTable
    decreases t,
{
    match t {
        FromTable::DerivedTable { query } => SpecFromTable::DerivedTable {
            query: Box::new(view_select(*query)),
        },
        FromTable::TableName { name } => SpecFromTable::TableName { name: name@ },
    }
}

/// The ghost image of an aliased table reference.
pub open spec fn view_aliased_from_table(t: AliasedFromTable) -> SpecAliasedFromTable
    decreases t,
{
    SpecAliasedFromTable { table: view_from_table(t.table), alias: view_alias(t.alias) }
}

/// The ghost image of a `FROM` clause.
pub open spec fn view_from_clause(f: FromClause) -> SpecFromClause
    decreases f,
{
    match f {
        FromClause::Direct { table } => SpecFromClause::Direct {
            table: view_aliased_from_table(table),
        },
        FromClause::Join { left, right, join_type, join_condition } => SpecFromClause::Join {
            left: Box::new(view_from_clause(*left)),
            right: Box::new(view_aliased_from_table(*right)),
            join_type,
            join_condition: view_join_condition(join_condition),
        },
    }
}

/// The ghost image of one `ORDER BY` item.
pub open spec fn view_order_item(i: OrderByItem) -> SpecOrderByItem {
    SpecOrderByItem { column_name: view_column_name(i.column_name), ordering: i.ordering }
}

/// The ghost image of a `SELECT` statement.
pub open spec fn view_select(s: SelectStatement) -> SpecSelect
    decreases s,
{
    SpecSelect {
        columns: view_result_columns(s.columns),
        from_clause: view_from_clause(s.from_clause),
        where_present: s.where_clause is Some,
        group_by: match s.group_by_clause {
            Some(g) => Some(g.groupings@.map_values(|c: ColumnName| view_column_name(c))),
            None => None,
        },
        having_present: s.having_clause is Some,
        order_by: match s.order_by_clause {
            Some(o) => Some(o.orderings@.map_values(|i: OrderByItem| view_order_item(i))),
            None => None,
        },
        offset: match s.offset {
            Some(o) => Some(o.offset),
            None => None,
        },
        limit: match s.limit {
            Some(l) => Some(l.limit),
            None => None,
        },
    }
}

/// The ghost image of a statement.
pub open spec fn view_statement(s: Statement) -> SpecStatement {
    match s {
        Statement::Select(sel) => SpecStatement::Select(view_select(sel)),
    }
}

} // verus!
