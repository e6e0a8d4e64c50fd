//! From the text of a statement to its syntax tree.
//!
//! The grammar is that of `sqlparser` with its ClickHouse dialect. What the functions here do with
//! its tree is to copy it, node for node, into the tree of this library; a node of a form that
//! planning does not read is kept as its text.
use sqlparser::ast::{
    Statement as ParsedStatement, Ident as ParsedIdent, ObjectName as ParsedObjectName, Value as ParsedValue, BinaryOperator as ParsedBinaryOperator, UnaryOperator as ParsedUnaryOperator, Function as ParsedFunction, FunctionArguments as ParsedFunctionArguments, FunctionArg as ParsedFunctionArg, Expr as ParsedExpr, DataType as ParsedDataType, ColumnOption as ParsedColumnOption, ColumnDef as ParsedColumnDef, SqlOption as ParsedSqlOption, CreateTableOptions as ParsedCreateTableOptions, CreateTable as ParsedCreateTable, Insert as ParsedInsert, SelectItem as ParsedSelectItem, TableFactor as ParsedTableFactor, GroupByExpr as ParsedGroupByExpr, OrderBy as ParsedOrderBy, LimitClause as ParsedLimitClause, Select as ParsedSelect, SetExpr as ParsedSetExpr, Query as ParsedQuery, ObjectNamePart as ParsedObjectNamePart, FunctionArgExpr as ParsedFunctionArgExpr, TableObject as ParsedTableObject, OrderByKind as ParsedOrderByKind, ObjectType as ParsedObjectType,
};
use vstd::prelude::*;
use vstd::string::*;

use crate::error::{Error, ErrorView, Outcome};
use crate::error;
use crate::runtime_config::{Catalog, CatalogEntry};
use crate::sql::ast::{
    BinaryOperator, ColumnDecl, ColumnOption, ColumnOptionDef, CreateTable, CreateTableOptions, DataType,
    Expr, Function, FunctionArg, FunctionArguments, GroupByExpr, Ident, Insert, LimitClause, Literal,
    ObjectName, ObjectNamePart, ObjectType, OrderBy, Query, Select, SelectItem, SetExpr, SqlOption,
    SqlValue, Statement, TableFactor, TableObject, TableWithJoins, UnaryOperator,
};
use crate::sql::logical_plan::create_database;
use crate::sql::logical_plan::create_table;
use crate::sql::logical_plan::drop;
use crate::sql::logical_plan::insert;
use crate::sql::logical_plan::plan::{LogicalPlan, PlanView};
use crate::sql::logical_plan::select;
use crate::storage::numbers::{NumberReading, Numbers};

verus! {

/// `sqlparser::ast::Statement`, which is carried through unread.
#[verifier::external_type_specification]
#[verifier::external_body]
pub struct ExSqlStatement(ParsedStatement);

/// `sqlparser::ast::Ident`, which is carried through unread.
#[verifier::external_type_specification]
#[verifier::external_body]
pub struct ExSqlIdent(ParsedIdent);

/// `sqlparser::ast::ObjectName`, which is carried through unread.
#[verifier::external_type_specification]
#[verifier::external_body]
pub struct ExSqlObjectName(ParsedObjectName);

/// `sqlparser::ast::Value`, which is carried through unread.
#[verifier::external_type_specification]
#[verifier::external_body]
pub struct ExSqlValue(ParsedValue);

/// `sqlparser::ast::BinaryOperator`, which is carried through unread.
#[verifier::external_type_specification]
#[verifier::external_body]
pub struct ExSqlBinaryOperator(ParsedBinaryOperator);

/// `sqlparser::ast::UnaryOperator`, which is carried through unread.
#[verifier::external_type_specification]
#[verifier::external_body]
pub struct ExSqlUnaryOperator(ParsedUnaryOperator);

/// `sqlparser::ast::Function`, which is carried through unread.
#[verifier::external_type_specification]
#[verifier::external_body]
pub struct ExSqlFunction(ParsedFunction);

/// `sqlparser::ast::FunctionArguments`, which is carried through unread.
#[verifier::external_type_specification]
#[verifier::external_body]
pub struct ExSqlFunctionArguments(ParsedFunctionArguments);

/// `sqlparser::ast::FunctionArg`, which is carried through unread.
#[verifier::external_type_specification]
#[verifier::external_body]
pub struct ExSqlFunctionArg(ParsedFunctionArg);

/// `sqlparser::ast::Expr`, which is carried through unread.
#[verifier::external_type_specification]
#[verifier::external_body]
pub struct ExSqlExpr(ParsedExpr);

/// `sqlparser::ast::DataType`, which is carried through unread.
#[verifier::external_type_specification]
#[verifier::external_body]
pub struct ExSqlDataType(ParsedDataType);

/// `sqlparser::ast::ColumnOption`, which is carried through unread.
#[verifier::external_type_specification]
#[verifier::external_body]
pub struct ExSqlColumnOption(ParsedColumnOption);

/// `sqlparser::ast::ColumnDef`, which is carried through unread.
#[verifier::external_type_specification]
#[verifier::external_body]
pub struct ExSqlColumnDef(ParsedColumnDef);

/// `sqlparser::ast::SqlOption`, which is carried through unread.
#[verifier::external_type_specification]
#[verifier::external_body]
pub struct ExSqlSqlOption(ParsedSqlOption);

/// `sqlparser::ast::CreateTableOptions`, which is carried through unread.
#[verifier::external_type_specification]
#[verifier::external_body]
pub struct ExSqlCreateTableOptions(ParsedCreateTableOptions);

/// `sqlparser::ast::CreateTable`, which is carried through unread.
#[verifier::external_type_specification]
#[verifier::external_body]
pub struct ExSqlCreateTable(ParsedCreateTable);

/// `sqlparser::ast::Insert`, which is carried through unread.
#[verifier::external_type_specification]
#[verifier::external_body]
pub struct ExSqlInsert(ParsedInsert);

/// `sqlparser::ast::SelectItem`, which is carried through unread.
#[verifier::external_type_specification]
#[verifier::external_body]
pub struct ExSqlSelectItem(ParsedSelectItem);

/// `sqlparser::ast::TableFactor`, which is carried through unread.
#[verifier::external_type_specification]
#[verifier::external_body]
pub struct ExSqlTableFactor(ParsedTableFactor);

/// `sqlparser::ast::GroupByExpr`, which is carried through unread.
#[verifier::external_type_specification]
#[verifier::external_body]
pub struct ExSqlGroupByExpr(ParsedGroupByExpr);

/// `sqlparser::ast::OrderBy`, which is carried through unread.
#[verifier::external_type_specification]
#[verifier::external_body]
pub struct ExSqlOrderBy(ParsedOrderBy);

/// `sqlparser::ast::LimitClause`, which is carried through unread.
#[verifier::external_type_specification]
#[verifier::external_body]
pub struct ExSqlLimitClause(ParsedLimitClause);

/// `sqlparser::ast::Select`, which is carried through unread.
#[verifier::external_type_specification]
#[verifier::external_body]
pub struct ExSqlSelect(ParsedSelect);

/// `sqlparser::ast::SetExpr`, which is carried through unread.
#[verifier::external_type_specification]
#[verifier::external_body]
pub struct ExSqlSetExpr(ParsedSetExpr);

/// `sqlparser::ast::Query`, which is carried through unread.
#[verifier::external_type_specification]
#[verifier::external_body]
pub struct ExSqlQuery(ParsedQuery);

/// Copies a `sqlparser::ast::Ident`: its name, its text with the quotes it was written with, and its
/// debug text.
#[verifier::external_body]
fn copy_ident(i: &ParsedIdent) -> Ident {
    Ident { value: i.value.clone(), rendered: i.to_string(), debug: format!("{i:?}") }
}

/// Copies a `sqlparser::ast::ObjectName` part by part.
#[verifier::external_body]
fn copy_name(n: &ParsedObjectName) -> ObjectName {
    let parts = n.0.iter().map(|p| match p {
        ParsedObjectNamePart::Identifier(i) => ObjectNamePart::Identifier(copy_ident(i)),
        other => ObjectNamePart::Function(other.to_string(), format!("{other:?}")),
    });
    ObjectName(parts.collect())
}

/// Copies a `sqlparser::ast::Value`.
#[verifier::external_body]
fn copy_value(v: &ParsedValue) -> SqlValue {
    match v {
        ParsedValue::Null => SqlValue::Null,
        ParsedValue::SingleQuotedString(s) => SqlValue::SingleQuotedString(s.clone()),
        ParsedValue::TripleSingleQuotedString(s) => SqlValue::TripleSingleQuotedString(s.clone()),
        ParsedValue::TripleDoubleQuotedString(s) => SqlValue::TripleDoubleQuotedString(s.clone()),
        ParsedValue::Number(n, long) => SqlValue::Number(n.clone(), *long),
        ParsedValue::Boolean(b) => SqlValue::Boolean(*b),
        ParsedValue::Placeholder(s) => SqlValue::Placeholder(s.clone()),
        _ => SqlValue::Other,
    }
}

/// Copies a `sqlparser::ast::Value` with its text and its debug text.
#[verifier::external_body]
fn copy_literal(v: &ParsedValue) -> Literal {
    Literal { value: copy_value(v), rendered: v.to_string(), debug: format!("{v:?}") }
}

/// Copies a `sqlparser::ast::BinaryOperator`.
#[verifier::external_body]
fn copy_binary(op: &ParsedBinaryOperator) -> BinaryOperator {
    match op {
        ParsedBinaryOperator::And => BinaryOperator::And,
        ParsedBinaryOperator::Or => BinaryOperator::Or,
        ParsedBinaryOperator::Gt => BinaryOperator::Gt,
        ParsedBinaryOperator::Lt => BinaryOperator::Lt,
        ParsedBinaryOperator::GtEq => BinaryOperator::GtEq,
        ParsedBinaryOperator::LtEq => BinaryOperator::LtEq,
        ParsedBinaryOperator::Eq => BinaryOperator::Eq,
        ParsedBinaryOperator::NotEq => BinaryOperator::NotEq,
        other => BinaryOperator::Other(other.to_string()),
    }
}

/// Copies a `sqlparser::ast::UnaryOperator`, with the side on which its text is written.
#[verifier::external_body]
fn copy_unary(op: &ParsedUnaryOperator) -> UnaryOperator {
    match op {
        ParsedUnaryOperator::Plus => UnaryOperator::Plus,
        ParsedUnaryOperator::Minus => UnaryOperator::Minus,
        ParsedUnaryOperator::Not => UnaryOperator::Not,
        ParsedUnaryOperator::PGPostfixFactorial => UnaryOperator::Postfix(op.to_string()),
        other => copy_text_operator(other),
    }
}

/// Copies a `sqlparser::ast::UnaryOperator` that is written before its operand, by its text.
#[verifier::external_body]
fn copy_text_operator(op: &ParsedUnaryOperator) -> UnaryOperator {
    match op {
        ParsedUnaryOperator::Hash => UnaryOperator::Word(op.to_string()),
        ParsedUnaryOperator::AtDashAt => UnaryOperator::Word(op.to_string()),
        ParsedUnaryOperator::DoubleAt => UnaryOperator::Word(op.to_string()),
        ParsedUnaryOperator::QuestionDash => UnaryOperator::Word(op.to_string()),
        ParsedUnaryOperator::QuestionPipe => UnaryOperator::Word(op.to_string()),
        other => UnaryOperator::Prefix(other.to_string()),
    }
}

/// Copies a `sqlparser::ast::FunctionArg`.
#[verifier::external_body]
fn copy_arg(arg: &ParsedFunctionArg) -> FunctionArg {
    match arg {
        ParsedFunctionArg::Unnamed(arg) => match arg {
            ParsedFunctionArgExpr::Expr(e) => FunctionArg::Expr(copy_expr(e)),
            ParsedFunctionArgExpr::Wildcard => FunctionArg::Wildcard,
            ParsedFunctionArgExpr::QualifiedWildcard(n) => FunctionArg::QualifiedWildcard(n.to_string()),
        },
        ParsedFunctionArg::Named { .. } => FunctionArg::Named,
        ParsedFunctionArg::ExprNamed { .. } => FunctionArg::Named,
    }
}

/// Copies a `sqlparser::ast::FunctionArguments`.
#[verifier::external_body]
fn copy_arguments(args: &ParsedFunctionArguments) -> FunctionArguments {
    match args {
        ParsedFunctionArguments::None => FunctionArguments::Absent,
        ParsedFunctionArguments::Subquery(q) => FunctionArguments::Subquery(q.to_string()),
        ParsedFunctionArguments::List(list) => FunctionArguments::List {
            args: list.args.iter().map(copy_arg).collect(),
            duplicate_treatment: list.duplicate_treatment.as_ref().map(|d| format!("{d:?}")),
            clauses: list.clauses.iter().map(|c| format!("{c:?}")).collect(),
        },
    }
}

/// Copies a `sqlparser::ast::Function` with its text.
#[verifier::external_body]
fn copy_function(f: &ParsedFunction) -> Function {
    Function {
        name: copy_name(&f.name),
        parameters: match &f.parameters {
            ParsedFunctionArguments::None => None,
            other => Some(other.to_string()),
        },
        args: copy_arguments(&f.args),
        rendered: f.to_string(),
    }
}

/// Copies a `sqlparser::ast::Expr` into a box.
#[verifier::external_body]
fn copy_boxed(e: &ParsedExpr) -> Box<Expr> {
    Box::new(copy_expr(e))
}

/// Copies a `sqlparser::ast::Expr`.
#[verifier::external_body]
fn copy_expr(e: &ParsedExpr) -> Expr {
    match e {
        ParsedExpr::Identifier(i) => Expr::Identifier(copy_ident(i)),
        ParsedExpr::Value(v) => Expr::Value(copy_literal(&v.value)),
        ParsedExpr::BinaryOp { left, op, right } => {
            Expr::BinaryOp { left: copy_boxed(left), op: copy_binary(op), right: copy_boxed(right) }
        },
        ParsedExpr::UnaryOp { op, expr } => Expr::UnaryOp { op: copy_unary(op), expr: copy_boxed(expr) },
        ParsedExpr::Nested(inner) => Expr::Nested(copy_boxed(inner)),
        ParsedExpr::Tuple(list) => Expr::Tuple(list.iter().map(copy_expr).collect()),
        ParsedExpr::Function(f) => Expr::Function(Box::new(copy_function(f))),
        other => Expr::Other(other.to_string()),
    }
}

/// Copies the integer types among `sqlparser::ast::DataType`, and any other type as its text.
#[verifier::external_body]
fn copy_integer_type(t: &ParsedDataType) -> DataType {
    match t {
        ParsedDataType::Int8(_) => DataType::Int8,
        ParsedDataType::Int16 => DataType::Int16,
        ParsedDataType::Int32 => DataType::Int32,
        ParsedDataType::Int64 => DataType::Int64,
        ParsedDataType::UInt8 => DataType::UInt8,
        ParsedDataType::UInt16 => DataType::UInt16,
        ParsedDataType::UInt32 => DataType::UInt32,
        ParsedDataType::UInt64 => DataType::UInt64,
        other => DataType::Other(other.to_string()),
    }
}

/// Copies a `sqlparser::ast::DataType`.
#[verifier::external_body]
fn copy_type(t: &ParsedDataType) -> DataType {
    match t {
        ParsedDataType::String(_) => DataType::String,
        ParsedDataType::Uuid => DataType::Uuid,
        ParsedDataType::Bool => DataType::Bool,
        ParsedDataType::Float32 => DataType::Float32,
        ParsedDataType::Float64 => DataType::Float64,
        other => copy_integer_type(other),
    }
}

/// Copies a `sqlparser::ast::ColumnOption`.
#[verifier::external_body]
fn copy_column_option(o: &ParsedColumnOption) -> ColumnOption {
    match o {
        ParsedColumnOption::Null => ColumnOption::Null,
        ParsedColumnOption::NotNull => ColumnOption::NotNull,
        ParsedColumnOption::Default(e) => ColumnOption::Default(copy_expr(e)),
        other => ColumnOption::Other(other.to_string()),
    }
}

/// Copies a `sqlparser::ast::ColumnDef`.
#[verifier::external_body]
fn copy_column(c: &ParsedColumnDef) -> ColumnDecl {
    let options = c.options.iter().map(|o| ColumnOptionDef {
        name: o.name.as_ref().map(copy_ident),
        option: copy_column_option(&o.option),
    });
    ColumnDecl { name: copy_ident(&c.name), data_type: copy_type(&c.data_type), options: options.collect() }
}

/// Copies a `sqlparser::ast::SqlOption`.
#[verifier::external_body]
fn copy_option(o: &ParsedSqlOption) -> SqlOption {
    match o {
        ParsedSqlOption::NamedParenthesizedList(l) => SqlOption::NamedParenthesizedList {
            key: copy_ident(&l.key),
            name: l.name.as_ref().map(copy_ident),
        },
        _ => SqlOption::Other,
    }
}

/// Copies a `sqlparser::ast::CreateTableOptions`.
#[verifier::external_body]
fn copy_table_options(o: &ParsedCreateTableOptions) -> CreateTableOptions {
    match o {
        ParsedCreateTableOptions::None => CreateTableOptions::Absent,
        ParsedCreateTableOptions::Plain(l) => {
            CreateTableOptions::Plain(l.iter().map(copy_option).collect())
        },
        _ => CreateTableOptions::Other,
    }
}

/// Copies a `sqlparser::ast::CreateTable`.
#[verifier::external_body]
fn copy_create_table(c: &ParsedCreateTable) -> CreateTable {
    CreateTable {
        name: copy_name(&c.name),
        if_not_exists: c.if_not_exists,
        columns: c.columns.iter().map(copy_column).collect(),
        table_options: copy_table_options(&c.table_options),
        order_by: c.order_by.as_ref().map(|o| o.iter().map(copy_expr).collect()),
        primary_key: c.primary_key.as_ref().map(|k| copy_expr(k)),
    }
}

/// Copies a `sqlparser::ast::Insert`.
#[verifier::external_body]
fn copy_insert(i: &ParsedInsert) -> Insert {
    Insert {
        table: match &i.table {
            ParsedTableObject::TableName(n) => TableObject::TableName(copy_name(n)),
            _ => TableObject::Other,
        },
        columns: i.columns.iter().map(copy_ident).collect(),
        source: i.source.as_ref().map(|q| copy_query(q)),
    }
}

/// Copies a `sqlparser::ast::SelectItem`.
#[verifier::external_body]
fn copy_item(item: &ParsedSelectItem) -> SelectItem {
    match item {
        ParsedSelectItem::Wildcard(_) => SelectItem::Wildcard,
        ParsedSelectItem::QualifiedWildcard(..) => SelectItem::QualifiedWildcard,
        ParsedSelectItem::UnnamedExpr(e) => SelectItem::UnnamedExpr(copy_expr(e)),
        ParsedSelectItem::ExprWithAlias { expr, alias } => {
            SelectItem::ExprWithAlias { expr: copy_expr(expr), alias: copy_ident(alias) }
        },
    }
}

/// Copies a `sqlparser::ast::TableFactor`.
#[verifier::external_body]
fn copy_factor(t: &ParsedTableFactor) -> TableFactor {
    match t {
        ParsedTableFactor::Table { name, .. } => TableFactor::Table { name: copy_name(name) },
        ParsedTableFactor::Derived { subquery, .. } => {
            TableFactor::Derived { subquery: Box::new(copy_query(subquery)) }
        },
        _ => TableFactor::Other,
    }
}

/// Copies a `sqlparser::ast::GroupByExpr`, each modifier as its debug text.
#[verifier::external_body]
fn copy_group_by(g: &ParsedGroupByExpr) -> GroupByExpr {
    match g {
        ParsedGroupByExpr::All(m) => GroupByExpr::All(m.iter().map(|m| format!("{m:?}")).collect()),
        ParsedGroupByExpr::Expressions(list, m) => GroupByExpr::Expressions(
            list.iter().map(copy_expr).collect(),
            m.iter().map(|m| format!("{m:?}")).collect(),
        ),
    }
}

/// Copies a `sqlparser::ast::OrderBy`.
#[verifier::external_body]
fn copy_order_by(o: &ParsedOrderBy) -> OrderBy {
    match &o.kind {
        ParsedOrderByKind::All(_) => OrderBy::All,
        ParsedOrderByKind::Expressions(list) => {
            OrderBy::Expressions(list.iter().map(|o| copy_expr(&o.expr)).collect())
        },
    }
}

/// Copies a `sqlparser::ast::LimitClause`.
#[verifier::external_body]
fn copy_limit(l: &ParsedLimitClause) -> LimitClause {
    match l {
        ParsedLimitClause::LimitOffset { limit, offset, .. } => LimitClause::LimitOffset {
            limit: limit.as_ref().map(copy_expr),
            offset: offset.as_ref().map(|o| copy_expr(&o.value)),
        },
        _ => LimitClause::Other,
    }
}

/// Copies a `sqlparser::ast::Select`.
#[verifier::external_body]
fn copy_select(s: &ParsedSelect) -> Select {
    let from = s.from.iter().map(|t| TableWithJoins {
        relation: copy_factor(&t.relation),
        joins: t.joins.len(),
    });
    Select {
        projection: s.projection.iter().map(copy_item).collect(),
        from: from.collect(),
        selection: s.selection.as_ref().map(copy_expr),
        group_by: copy_group_by(&s.group_by),
        having: s.having.as_ref().map(copy_expr),
    }
}

/// Copies a `sqlparser::ast::SetExpr`.
#[verifier::external_body]
fn copy_body(b: &ParsedSetExpr) -> SetExpr {
    match b {
        ParsedSetExpr::Select(s) => SetExpr::Select(Box::new(copy_select(s))),
        ParsedSetExpr::Values(v) => {
            SetExpr::Values(v.rows.iter().map(|r| r.iter().map(copy_expr).collect()).collect())
        },
        _ => SetExpr::Other,
    }
}

/// Copies a `sqlparser::ast::Query`.
#[verifier::external_body]
fn copy_query(q: &ParsedQuery) -> Query {
    Query {
        body: copy_body(&q.body),
        order_by: q.order_by.as_ref().map(copy_order_by),
        limit_clause: q.limit_clause.as_ref().map(copy_limit),
    }
}

/// Copies a `sqlparser::ast::Statement`.
#[verifier::external_body]
fn copy_statement(s: &ParsedStatement) -> Statement {
    match s {
        ParsedStatement::CreateDatabase { db_name, if_not_exists, .. } => {
            Statement::CreateDatabase { db_name: copy_name(db_name), if_not_exists: *if_not_exists }
        },
        ParsedStatement::CreateTable(c) => Statement::CreateTable(copy_create_table(c)),
        ParsedStatement::Insert(i) => Statement::Insert(copy_insert(i)),
        ParsedStatement::Query(q) => Statement::Query(copy_query(q)),
        ParsedStatement::Drop { .. } => copy_drop(s),
        other => Statement::Other(other.to_string()),
    }
}

/// Copies the `Drop` form of a `sqlparser::ast::Statement`.
#[verifier::external_body]
fn copy_drop(s: &ParsedStatement) -> Statement {
    match s {
        ParsedStatement::Drop { object_type, if_exists, names, .. } => Statement::Drop {
            object_type: match object_type {
                ParsedObjectType::Table => ObjectType::Table,
                ParsedObjectType::Database => ObjectType::Database,
                _ => ObjectType::Other,
            },
            if_exists: *if_exists,
            names: names.iter().map(copy_name).collect(),
        },
        other => Statement::Other(other.to_string()),
    }
}

/// What `sqlparser::parser::Parser::parse_sql` with the ClickHouse dialect makes of a text: its
/// statements, each copied into the tree of this library, or the text of its error.
pub uninterp spec fn parsed_statements(sql: Seq<char>) -> Result<Seq<Statement>, Seq<char>>;

/// A list of statements in a result, as a sequence.
pub open spec fn statements_view(r: Result<Vec<Statement>, String>) -> Result<Seq<Statement>, Seq<char>> {
    match r {
        Ok(v) => Ok(v@),
        Err(e) => Err(e@),
    }
}

/// Calls `sqlparser::parser::Parser::parse_sql` with `sqlparser::dialect::ClickHouseDialect` and
/// copies the statements. The result is a function of the text alone, which `parsed_statements`
/// names: the statements, or the text of the error.
#[verifier::external_body]
fn parse_sql(sql: &str) -> (r: Result<Vec<Statement>, String>)
    ensures
        statements_view(r) == parsed_statements(sql@),
{
    let dialect = sqlparser::dialect::ClickHouseDialect {};
    match sqlparser::parser::Parser::parse_sql(&dialect, sql) {
        Ok(statements) => Ok(statements.iter().map(copy_statement).collect()),
        Err(error) => Err(error.to_string()),
    }
}

/// The plan of a statement.
pub open spec fn statement_plan(
    s: Statement,
    entries: Seq<CatalogEntry>,
    readings: Seq<NumberReading>,
) -> Result<PlanView, ErrorView> {
    match s {
        Statement::CreateDatabase { db_name, if_not_exists } => create_database::create_database_plan(
            db_name.0@,
            if_not_exists,
        ),
        Statement::CreateTable(c) => create_table::create_table_plan(c, readings),
        Statement::Insert(i) => insert::insert_plan(i, entries, readings),
        Statement::Query(q) => select::query_plan(q, entries, readings),
        Statement::Drop { object_type, if_exists, names } => drop::drop_plan(
            object_type,
            if_exists,
            names@,
        ),
        Statement::Other(text) => Err(ErrorView::UnsupportedCommand(text@)),
    }
}

/// The plan of what parsing gave: of exactly one statement.
pub open spec fn statements_plan(
    parsed: Result<Seq<Statement>, Seq<char>>,
    entries: Seq<CatalogEntry>,
    readings: Seq<NumberReading>,
) -> Result<PlanView, ErrorView> {
    match parsed {
        Err(text) => Err(ErrorView::SqlToAstConversion(text)),
        Ok(statements) => if statements.len() != 1 {
            Err(
                ErrorView::SqlToAstConversion("Currently support only statement per request"@),
            )
        } else {
            statement_plan(statements[0], entries, readings)
        },
    }
}

impl LogicalPlan {
    /// Tries to convert SQL to `LogicalPlan`.
    ///
    /// Returns:
    ///   * Ok: the plan of the one statement that the text holds.
    ///   * Error when:
    ///     1. The text is not SQL, or not exactly one statement: `SqlToAstConversion`.
    ///     2. The statement is of an unsupported form: `UnsupportedCommand`.
    ///     3. The statement cannot be planned: the error of its form.
    pub fn try_from(sql: &str, catalog: &Catalog, numbers: &Numbers) -> (r: Outcome<Self>)
        ensures
            error::outcome_view(r) == statements_plan(
                parsed_statements(sql@),
                catalog.entries@,
                numbers.readings@,
            ),
    {
        Self::from_parsed(parse_sql(sql), catalog, numbers)
    }

    /// The plan of what parsing gave.
    pub fn from_parsed(parsed: Result<Vec<Statement>, String>, catalog: &Catalog, numbers: &Numbers) -> (r: Outcome<
        Self,
    >)
        ensures
            error::outcome_view(r) == statements_plan(
                statements_view(parsed),
                catalog.entries@,
                numbers.readings@,
            ),
    {
        let mut statements = match parsed {
            Ok(s) => s,
            Err(text) => return Err(Error::SqlToAstConversion(text)),
        };
        if statements.len() != 1 {
            return Err(
                Error::SqlToAstConversion(
                    "Currently support only statement per request".to_owned(),
                ),
            );
        }
        Self::from_statement(statements.remove(0), catalog, numbers)
    }

    /// The plan of a statement.
    pub fn from_statement(statement: Statement, catalog: &Catalog, numbers: &Numbers) -> (r: Outcome<Self>)
        ensures
            error::outcome_view(r) == statement_plan(
                statement,
                catalog.entries@,
                numbers.readings@,
            ),
    {
        match statement {
            Statement::CreateDatabase { db_name, if_not_exists } => Self::from_create_database(
                &db_name,
                if_not_exists,
            ),
            Statement::CreateTable(create_table) => Self::from_create_table(&create_table, numbers),
            Statement::Insert(insert) => Self::from_insert(&insert, catalog, numbers),
            Statement::Query(query) => Self::from_query(query, catalog, numbers),
            Statement::Drop { object_type, if_exists, names } => Self::from_drop(
                object_type,
                if_exists,
                &names,
            ),
            Statement::Other(text) => Err(Error::UnsupportedCommand(text)),
        }
    }
}

} // verus!
