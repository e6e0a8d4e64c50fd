//! SELECT.
use vstd::prelude::*;
use vstd::string::*;

use crate::error::{Error, ErrorView, Outcome};
use crate::error;
use crate::integer_text;
use crate::integer_text::parse_integer;
use crate::runtime_config;
use crate::runtime_config::{Catalog, CatalogEntry};
use crate::search;
use crate::sql::ast;
use crate::sql::ast::{
    Expr, GroupByExpr, LimitClause, OrderBy, Query, Select, SelectItem, SetExpr, SqlValue, TableFactor,
};
use crate::sql::logical_plan::plan;
use crate::sql::logical_plan::plan::{AggregateProjection, LogicalPlan, PlanView, ScanSource};
use crate::sql::projection;
use crate::sql::projection::{Projection, ProjectionValue};
use crate::sql::sql_parser;
use crate::sql::sql_parser::RawProjection;
use crate::storage::numbers::{NumberReading, Numbers};
use crate::storage::table_def;
use crate::storage::table_def::TableDef;
use crate::text::{concat2, concat3};

verus! {

/// The columns that can be read from a plan.
pub open spec fn readable(p: PlanView, entries: Seq<CatalogEntry>) -> Result<Seq<Projection>, ErrorView>
    decreases p,
{
    match p {
        PlanView::Projection { columns, plan } => Ok(columns),
        PlanView::Filter { expr, plan } => readable(*plan, entries),
        PlanView::OrderBy { projs, plan } => readable(*plan, entries),
        PlanView::Limit { limit, offset, plan } => readable(*plan, entries),
        PlanView::ScanTable { table } => match runtime_config::schema_of(entries, table) {
            Some(schema) => Ok(projection::column_projections(schema.columns)),
            None => Err(ErrorView::TableNotFound),
        },
        PlanView::ScanSubquery { plan } => readable(*plan, entries),
        _ => Err(
            ErrorView::UnsupportedCommand("Cannot extract columns from this plan type"@),
        ),
    }
}

/// The projection of an item of a SELECT, with its alias where it has one.
pub open spec fn item_projection(
    expr: Expr,
    alias: Option<String>,
    available: Seq<Projection>,
    readings: Seq<NumberReading>,
) -> Result<RawProjection, ErrorView> {
    match sql_parser::raw_projection(expr, available, readings) {
        Err(e) => Err(e),
        Ok(raw) => match alias {
            Some(a) => Ok(sql_parser::aliased(raw, a)),
            None => Ok(raw),
        },
    }
}

/// Whether a projection takes a column, under its alias, that has been taken already.
pub open spec fn is_repeated(p: Projection, read: Seq<Projection>) -> bool {
    p.source is ColumnDef && search::position(read, projection::equal_to(p)) is Some
}

/// The columns and the aggregates with one more behind them.
pub open spec fn with_item(
    raw: RawProjection,
    read: Seq<Projection>,
    aggregates: Seq<AggregateProjection>,
    readings: Seq<NumberReading>,
) -> Result<(Seq<Projection>, Seq<AggregateProjection>), ErrorView> {
    match raw {
        RawProjection::Projection(p) => if is_repeated(p, read) {
            Err(ErrorView::DuplicateColumn(sql_parser::projection_text(p, readings)))
        } else {
            Ok((read.push(p), aggregates))
        },
        RawProjection::AggregateProjection(a) => Ok((read, aggregates.push(a))),
    }
}

/// The columns and the aggregates that the items from position `i` on take, behind those before, and
/// the position of a wildcard.
pub open spec fn items_from(
    items: Seq<SelectItem>,
    i: int,
    wildcard: Option<int>,
    read: Seq<Projection>,
    aggregates: Seq<AggregateProjection>,
    available: Seq<Projection>,
    readings: Seq<NumberReading>,
) -> Result<(Option<int>, Seq<Projection>, Seq<AggregateProjection>), ErrorView>
    decreases items.len() - i,
{
    if i >= items.len() {
        Ok((wildcard, read, aggregates))
    } else {
        match items[i] {
            SelectItem::Wildcard => if wildcard is Some {
                Err(ErrorView::UnsupportedCommand("Multiple wildcards are not supported"@))
            } else {
                items_from(items, i + 1, Some(i), read, aggregates, available, readings)
            },
            SelectItem::QualifiedWildcard => Err(
                ErrorView::UnsupportedCommand(
                    "Only simple column projections and wildcards are supported"@,
                ),
            ),
            SelectItem::UnnamedExpr(expr) => if wildcard is Some {
                Err(ErrorView::UnsupportedCommand("Columns after wildcard are not supported"@))
            } else {
                match item_projection(expr, None, available, readings) {
                    Err(e) => Err(e),
                    Ok(raw) => match with_item(raw, read, aggregates, readings) {
                        Err(e) => Err(e),
                        Ok((read, aggregates)) => items_from(
                            items,
                            i + 1,
                            wildcard,
                            read,
                            aggregates,
                            available,
                            readings,
                        ),
                    },
                }
            },
            SelectItem::ExprWithAlias { expr, alias } => if wildcard is Some {
                Err(ErrorView::UnsupportedCommand("Columns after wildcard are not supported"@))
            } else {
                match item_projection(expr, Some(alias.value), available, readings) {
                    Err(e) => Err(e),
                    Ok(raw) => match with_item(raw, read, aggregates, readings) {
                        Err(e) => Err(e),
                        Ok((read, aggregates)) => items_from(
                            items,
                            i + 1,
                            wildcard,
                            read,
                            aggregates,
                            available,
                            readings,
                        ),
                    },
                }
            },
        }
    }
}

/// The columns with the available ones from position `i` on that are not among them.
pub open spec fn missing_added(read: Seq<Projection>, available: Seq<Projection>, i: int) -> Seq<Projection>
    decreases available.len() - i,
{
    if i >= available.len() {
        read
    } else if search::position(read, projection::equal_to(available[i])) is Some {
        missing_added(read, available, i + 1)
    } else {
        missing_added(read.push(available[i]), available, i + 1)
    }
}

/// The columns after a wildcard has been expanded. One that stands first takes all columns; one
/// behind others takes those that are not taken yet.
pub open spec fn expanded(wildcard: Option<int>, read: Seq<Projection>, available: Seq<Projection>) -> Seq<
    Projection,
> {
    match wildcard {
        None => read,
        Some(i) => if i == 0 {
            available
        } else {
            missing_added(read, available, 0)
        },
    }
}

/// The columns and the aggregates that the items of a SELECT take.
pub open spec fn selected(
    items: Seq<SelectItem>,
    available: Seq<Projection>,
    readings: Seq<NumberReading>,
) -> Result<(Seq<Projection>, Seq<AggregateProjection>), ErrorView> {
    if items.len() == 0 {
        Err(ErrorView::UnsupportedCommand("No projection specified."@))
    } else {
        match items_from(items, 0, None, seq![], seq![], available, readings) {
            Err(e) => Err(e),
            Ok((wildcard, read, aggregates)) => Ok(
                (expanded(wildcard, read, available), aggregates),
            ),
        }
    }
}

/// The plain projections that the expressions from position `i` on stand for, behind those before.
pub open spec fn plain_from(
    exprs: Seq<Expr>,
    i: int,
    acc: Seq<Projection>,
    clause: Seq<char>,
    available: Seq<Projection>,
    readings: Seq<NumberReading>,
) -> Result<Seq<Projection>, ErrorView>
    decreases exprs.len() - i,
{
    if i >= exprs.len() {
        Ok(acc)
    } else {
        match sql_parser::raw_projection(exprs[i], available, readings) {
            Err(e) => Err(e),
            Ok(RawProjection::AggregateProjection(a)) => Err(
                sql_parser::unexpected_aggregate(clause, a, readings),
            ),
            Ok(RawProjection::Projection(p)) => plain_from(
                exprs,
                i + 1,
                acc.push(p),
                clause,
                available,
                readings,
            ),
        }
    }
}

/// The property of not being among given projections.
pub open spec fn not_among(group_by: Seq<Projection>) -> spec_fn(Projection) -> bool {
    |p: Projection| search::position(group_by, projection::equal_to(p)) is None
}

/// The error for modifiers of a GROUP BY.
pub open spec fn modifiers_error(modifiers: Seq<String>) -> ErrorView {
    ErrorView::UnsupportedCommand(
        "Modifiers ("@ + ("["@ + ast::joined(modifiers, modifiers.len()) + "]"@) + ") are not supported in GROUP BY clause"@,
    )
}

/// A plan with its rows grouped.
pub open spec fn grouped(
    p: PlanView,
    group_by: GroupByExpr,
    read: Seq<Projection>,
    aggregates: Seq<AggregateProjection>,
    available: Seq<Projection>,
    readings: Seq<NumberReading>,
) -> Result<PlanView, ErrorView> {
    match group_by {
        GroupByExpr::All(modifiers) => if modifiers@.len() > 0 {
            Err(modifiers_error(modifiers@))
        } else {
            Ok(PlanView::Aggregate { aggr_proj: aggregates, group_by: read, plan: Box::new(p) })
        },
        GroupByExpr::Expressions(exprs, modifiers) => if modifiers@.len() > 0 {
            Err(modifiers_error(modifiers@))
        } else {
            if exprs@.len() == 0 && aggregates.len() == 0 {
                Ok(p)
            } else {
                match plain_from(exprs@, 0, seq![], "GROUP BY"@, available, readings) {
                    Err(e) => Err(e),
                    Ok(keys) => match search::position(read, not_among(keys)) {
                        Some(k) => Err(
                            ErrorView::ColumnNotInGroupBy(
                                sql_parser::projection_text(read[k], readings),
                            ),
                        ),
                        None => Ok(
                            PlanView::Aggregate {
                                aggr_proj: aggregates,
                                group_by: keys,
                                plan: Box::new(p),
                            },
                        ),
                    },
                }
            }
        },
    }
}

/// A list of the one projection that an identifier names.
pub open spec fn single_order(ident: ast::Ident, available: Seq<Projection>) -> Result<
    Seq<Projection>,
    ErrorView,
> {
    match sql_parser::projection_named(ident, available) {
        Ok(p) => Ok(seq![p]),
        Err(e) => Err(e),
    }
}

/// The projections that the items of a tuple from position `i` on name, behind those before.
pub open spec fn tuple_from(
    items: Seq<Expr>,
    i: int,
    acc: Seq<Projection>,
    available: Seq<Projection>,
) -> Result<Seq<Projection>, ErrorView>
    decreases items.len() - i,
{
    if i >= items.len() {
        Ok(acc)
    } else {
        match items[i] {
            Expr::Identifier(ident) => match sql_parser::projection_named(ident, available) {
                Ok(p) => if search::position(acc, projection::equal_to(p)) is Some {
                    Err(ErrorView::InvalidOrderBy("Duplicate column: "@ + ident.value@))
                } else {
                    tuple_from(items, i + 1, acc.push(p), available)
                },
                Err(e) => Err(e),
            },
            _ => Err(ErrorView::InvalidOrderBy("Invalid specifier: "@ + ast::expr_text(items[i]))),
        }
    }
}

/// The projections that an item of an ORDER BY names.
pub open spec fn order_item(expr: Expr, available: Seq<Projection>) -> Result<Seq<Projection>, ErrorView> {
    match expr {
        Expr::Identifier(ident) => single_order(ident, available),
        Expr::Tuple(items) => if items@.len() == 0 {
            Err(ErrorView::InvalidOrderBy("No ORDER BY columns found"@))
        } else {
            tuple_from(items@, 0, seq![], available)
        },
        Expr::Nested(inner) => match *inner {
            Expr::Identifier(ident) => single_order(ident, available),
            _ => Err(ErrorView::InvalidOrderBy("Nested primary keys are unsupported"@)),
        },
        _ => Err(ErrorView::InvalidOrderBy(ast::expr_text(expr))),
    }
}

/// The projections that the items of an ORDER BY from position `i` on name, behind those before.
pub open spec fn orders_from(
    exprs: Seq<Expr>,
    i: int,
    acc: Seq<Seq<Projection>>,
    available: Seq<Projection>,
) -> Result<Seq<Seq<Projection>>, ErrorView>
    decreases exprs.len() - i,
{
    if i >= exprs.len() {
        Ok(acc)
    } else {
        match order_item(exprs[i], available) {
            Ok(o) => orders_from(exprs, i + 1, acc.push(o), available),
            Err(e) => Err(e),
        }
    }
}

/// A plan with its rows ordered.
pub open spec fn sorted(
    p: PlanView,
    order_by: Option<OrderBy>,
    read: Seq<Projection>,
    available: Seq<Projection>,
) -> Result<PlanView, ErrorView> {
    match order_by {
        None => Ok(p),
        Some(OrderBy::All) => Ok(PlanView::OrderBy { projs: seq![read], plan: Box::new(p) }),
        Some(OrderBy::Expressions(exprs)) => match orders_from(exprs@, 0, seq![], available) {
            Ok(projs) => Ok(PlanView::OrderBy { projs, plan: Box::new(p) }),
            Err(e) => Err(e),
        },
    }
}

/// The number that a LIMIT or an OFFSET stands for.
pub open spec fn count_of(
    expr: Expr,
    not_literal: Seq<char>,
    not_number: Seq<char>,
) -> Result<usize, ErrorView> {
    match expr {
        Expr::Value(lit) => match lit.value {
            SqlValue::Number(n, _) => match integer_text::integer_of(n@, 0, usize::MAX as int) {
                Ok(v) => Ok(v as usize),
                Err(_) => Err(ErrorView::InvalidLimitValue(n@)),
            },
            _ => Err(ErrorView::InvalidLimitValue(not_number)),
        },
        _ => Err(ErrorView::InvalidLimitValue(not_literal)),
    }
}

/// The limit that an optional LIMIT stands for.
pub open spec fn limit_of(expr: Option<Expr>) -> Result<Option<usize>, ErrorView> {
    match expr {
        None => Ok(None),
        Some(e) => match count_of(e, "LIMIT must be a literal value"@, "LIMIT must be a number"@) {
            Ok(n) => Ok(Some(n)),
            Err(e) => Err(e),
        },
    }
}

/// The number of rows that an optional OFFSET skips.
pub open spec fn offset_of(expr: Option<Expr>) -> Result<usize, ErrorView> {
    match expr {
        None => Ok(0),
        Some(e) => count_of(e, "OFFSET must be a literal value"@, "OFFSET must be a number"@),
    }
}

/// A plan with its rows cut off.
pub open spec fn cut(p: PlanView, clause: Option<LimitClause>) -> Result<PlanView, ErrorView> {
    match clause {
        None => Ok(p),
        Some(LimitClause::Other) => Err(
            ErrorView::InvalidLimitValue("Only LIMIT OFFSET clause is supported"@),
        ),
        Some(LimitClause::LimitOffset { limit, offset }) => match limit_of(limit) {
            Err(e) => Err(e),
            Ok(l) => match offset_of(offset) {
                Err(e) => Err(e),
                Ok(o) => Ok(PlanView::Limit { limit: l, offset: o, plan: Box::new(p) }),
            },
        },
    }
}

/// A plan with its rows filtered.
pub open spec fn narrowed(p: PlanView, selection: Option<Expr>) -> PlanView {
    match selection {
        Some(expr) => PlanView::Filter { expr, plan: Box::new(p) },
        None => p,
    }
}

/// A plan with its groups filtered.
pub open spec fn having_applied(p: PlanView, having: Option<Expr>) -> PlanView {
    match having {
        Some(expr) => PlanView::Having { expr, plan: Box::new(p) },
        None => p,
    }
}

/// The plan of a SELECT over a scan: filter, projection, groups, filter on groups, order, limit.
pub open spec fn select_over(
    select: Select,
    order_by: Option<OrderBy>,
    limit_clause: Option<LimitClause>,
    scan: PlanView,
    entries: Seq<CatalogEntry>,
    readings: Seq<NumberReading>,
) -> Result<PlanView, ErrorView> {
    match readable(scan, entries) {
        Err(e) => Err(e),
        Ok(available) => match selected(select.projection@, available, readings) {
            Err(e) => Err(e),
            Ok((read, aggregates)) => {
                let taken = PlanView::Projection {
                    columns: read,
                    plan: Box::new(narrowed(scan, select.selection)),
                };
                match grouped(taken, select.group_by, read, aggregates, available, readings) {
                    Err(e) => Err(e),
                    Ok(p) => match sorted(having_applied(p, select.having), order_by, read, available) {
                        Err(e) => Err(e),
                        Ok(p) => cut(p, limit_clause),
                    },
                }
            },
        },
    }
}

/// The plan of a query.
pub open spec fn query_plan(
    q: Query,
    entries: Seq<CatalogEntry>,
    readings: Seq<NumberReading>,
) -> Result<PlanView, ErrorView>
    decreases q,
{
    match q.body {
        SetExpr::Select(select) => if select.from@.len() != 1 {
            Err(
                ErrorView::UnsupportedCommand("Currently do not support multiple table selects"@),
            )
        } else if select.from@[0].joins != 0 {
            Err(ErrorView::UnsupportedCommand("JOIN clauses are not currently supported"@))
        } else {
            match select.from@[0].relation {
                TableFactor::Table { name } => match table_def::table_named(name.0@) {
                    Err(e) => Err(e),
                    Ok(table) => select_over(
                        *select,
                        q.order_by,
                        q.limit_clause,
                        PlanView::ScanTable { table },
                        entries,
                        readings,
                    ),
                },
                TableFactor::Derived { subquery } => match query_plan(*subquery, entries, readings) {
                    Err(e) => Err(e),
                    Ok(inner) => select_over(
                        *select,
                        q.order_by,
                        q.limit_clause,
                        PlanView::ScanSubquery { plan: Box::new(inner) },
                        entries,
                        readings,
                    ),
                },
                TableFactor::Other => Err(
                    ErrorView::UnsupportedCommand(
                        "Only simple table references and subqueries are supported"@,
                    ),
                ),
            }
        },
        _ => Err(ErrorView::UnsupportedCommand("Only SELECT queries are supported"@)),
    }
}

/// A list of projections in a result, as a sequence.
pub open spec fn projections_outcome(r: Outcome<Vec<Projection>>) -> Result<Seq<Projection>, ErrorView> {
    match r {
        Ok(v) => Ok(v@),
        Err(e) => Err(e@),
    }
}

/// The columns and the aggregates in a result, as sequences.
pub open spec fn selected_outcome(r: Outcome<(Vec<Projection>, Vec<AggregateProjection>)>) -> Result<
    (Seq<Projection>, Seq<AggregateProjection>),
    ErrorView,
> {
    match r {
        Ok((a, b)) => Ok((a@, b@)),
        Err(e) => Err(e@),
    }
}

/// A position as an integer.
pub open spec fn position_view(p: Option<usize>) -> Option<int> {
    match p {
        Some(i) => Some(i as int),
        None => None,
    }
}

fn parse_count(expr: &Expr, not_literal: &str, not_number: &str) -> (r: Outcome<usize>)
    ensures
        error::outcome(r) == count_of(*expr, not_literal@, not_number@),
{
    match expr {
        Expr::Value(lit) => match &lit.value {
            SqlValue::Number(n, _) => match parse_integer(n.as_str(), 0, usize::MAX as i128) {
                Ok(v) => Ok(v as usize),
                Err(_) => Err(Error::InvalidLimitValue(n.clone())),
            },
            _ => Err(Error::InvalidLimitValue(not_number.to_owned())),
        },
        _ => Err(Error::InvalidLimitValue(not_literal.to_owned())),
    }
}

fn parse_single_order(ident: &ast::Ident, projections: &Vec<Projection>) -> (r: Outcome<Vec<Projection>>)
    ensures
        projections_outcome(r) == single_order(*ident, projections@),
{
    match Projection::try_from_ident(ident, projections) {
        Ok(p) => {
            let mut v: Vec<Projection> = Vec::new();
            v.push(p);
            assert(v@ =~= seq![p]);
            Ok(v)
        },
        Err(e) => Err(e),
    }
}

impl LogicalPlan {
    /// Parses SELECT query into a logical plan tree.
    ///
    /// Builds a tree of `LogicalPlan` nodes: Scan -> Filter -> Projection -> Aggregate -> Having -> `OrderBy` -> Limit.
    ///
    /// Returns:
    ///   * Ok when:
    ///     1. Query has single FROM table/subquery, valid projections, optional WHERE/ORDER BY/LIMIT: `LogicalPlan` tree
    ///   * Error when:
    ///     1. Query is not a SELECT statement: `UnsupportedCommand`.
    ///     2. Multiple tables in FROM clause: `UnsupportedCommand`.
    ///     3. JOIN clause present: `UnsupportedCommand`.
    ///     4. Empty projection: `UnsupportedCommand`.
    ///     5. Multiple wildcards or columns after wildcard: `UnsupportedCommand`.
    ///     6. Non-identifier expressions in projection: `UnsupportedCommand`.
    ///     7. Duplicate column in projection: `DuplicateColumn`.
    ///     8. Column not found in table: `ColumnNotFound`.
    ///     9. Invalid LIMIT/OFFSET value: `InvalidLimitValue`.
    pub fn from_query(query: Query, catalog: &Catalog, numbers: &Numbers) -> (r: Outcome<Self>)
        ensures
            error::outcome_view(r) == query_plan(query, catalog.entries@, numbers.readings@),
        decreases query,
    {
        let ghost whole = query;
        let Query { body, order_by, limit_clause } = query;
        let mut select = match body {
            SetExpr::Select(select) => *select,
            _ => return Err(
                Error::UnsupportedCommand("Only SELECT queries are supported".to_owned()),
            ),
        };
        let ghost whole_select = select;
        if select.from.len() != 1 {
            return Err(
                Error::UnsupportedCommand(
                    "Currently do not support multiple table selects".to_owned(),
                ),
            );
        }
        assert(decreases_to!(whole => whole.body));
        assert(decreases_to!(whole.body => whole.body->Select_0));
        assert(decreases_to!(*whole.body->Select_0 => whole.body->Select_0.from));
        assert(decreases_to!(whole.body->Select_0.from => whole.body->Select_0.from@));
        assert(decreases_to!(whole.body->Select_0.from@ => whole.body->Select_0.from@[0]));
        let table = select.from.remove(0);
        if table.joins != 0 {
            return Err(
                Error::UnsupportedCommand("JOIN clauses are not currently supported".to_owned()),
            );
        }
        let scan = match table.relation {
            TableFactor::Table { name } => match TableDef::try_from(&name) {
                Ok(table_def) => LogicalPlan::Scan { source: ScanSource::Table(table_def) },
                Err(e) => return Err(e),
            },
            TableFactor::Derived { subquery } => match Self::from_query(*subquery, catalog, numbers) {
                Ok(inner) => LogicalPlan::Scan { source: ScanSource::Subquery(Box::new(inner)) },
                Err(e) => return Err(e),
            },
            TableFactor::Other => return Err(
                Error::UnsupportedCommand(
                    "Only simple table references and subqueries are supported".to_owned(),
                ),
            ),
        };
        let ghost entries = catalog.entries@;
        let ghost readings = numbers.readings@;
        assert(query_plan(whole, entries, readings) == select_over(
            whole_select,
            order_by,
            limit_clause,
            scan@,
            entries,
            readings,
        ));
        let available = match Self::extract_columns_from_plan(&scan, catalog) {
            Ok(a) => a,
            Err(e) => return Err(e),
        };
        let (read_columns, aggregates) = match Self::parse_projections(
            &select.projection,
            &available,
            numbers,
        ) {
            Ok(s) => s,
            Err(e) => return Err(e),
        };
        let plan = Self::apply_filter(scan, select.selection);
        let plan = LogicalPlan::Projection {
            columns: projection::clone_projections(&read_columns),
            plan: Box::new(plan),
        };
        let plan = match Self::apply_group_by(
            plan,
            &select.group_by,
            &read_columns,
            aggregates,
            &available,
            numbers,
        ) {
            Ok(p) => p,
            Err(e) => return Err(e),
        };
        let plan = Self::apply_having(plan, select.having);
        let plan = match Self::apply_order_by(plan, &order_by, &read_columns, &available) {
            Ok(p) => p,
            Err(e) => return Err(e),
        };
        Self::apply_limit(plan, &limit_clause)
    }

    /// The columns and the aggregates that the items of a SELECT take.
    pub fn parse_projections(
        projection_items: &Vec<SelectItem>,
        available_projections: &Vec<Projection>,
        numbers: &Numbers,
    ) -> (r: Outcome<(Vec<Projection>, Vec<AggregateProjection>)>)
        ensures
            selected_outcome(r) == selected(
                projection_items@,
                available_projections@,
                numbers.readings@,
            ),
    {
        if projection_items.len() == 0 {
            return Err(Error::UnsupportedCommand("No projection specified.".to_owned()));
        }
        let ghost items = projection_items@;
        let ghost available = available_projections@;
        let ghost readings = numbers.readings@;
        let mut read_columns: Vec<Projection> = Vec::new();
        let mut aggregates: Vec<AggregateProjection> = Vec::new();
        let mut wildcard: Option<usize> = None;
        let mut i: usize = 0;
        while i < projection_items.len()
            invariant
                i <= projection_items@.len(),
                items == projection_items@,
                items.len() > 0,
                available == available_projections@,
                readings == numbers.readings@,
                items_from(items, 0, None, seq![], seq![], available, readings) == items_from(
                    items,
                    i as int,
                    position_view(wildcard),
                    read_columns@,
                    aggregates@,
                    available,
                    readings,
                ),
            decreases projection_items@.len() - i,
        {
            match &projection_items[i] {
                SelectItem::Wildcard => {
                    if wildcard.is_some() {
                        return Err(
                            Error::UnsupportedCommand(
                                "Multiple wildcards are not supported".to_owned(),
                            ),
                        );
                    }
                    wildcard = Some(i);
                },
                SelectItem::QualifiedWildcard => return Err(
                    Error::UnsupportedCommand(
                        "Only simple column projections and wildcards are supported".to_owned(),
                    ),
                ),
                SelectItem::UnnamedExpr(expr) => {
                    if wildcard.is_some() {
                        return Err(
                            Error::UnsupportedCommand(
                                "Columns after wildcard are not supported".to_owned(),
                            ),
                        );
                    }
                    match RawProjection::try_from(expr, available_projections, numbers) {
                        Err(e) => return Err(e),
                        Ok(raw) => match Self::add_projection(
                            raw,
                            &mut read_columns,
                            &mut aggregates,
                            numbers,
                        ) {
                            Ok(()) => {},
                            Err(e) => return Err(e),
                        },
                    }
                },
                SelectItem::ExprWithAlias { expr, alias } => {
                    if wildcard.is_some() {
                        return Err(
                            Error::UnsupportedCommand(
                                "Columns after wildcard are not supported".to_owned(),
                            ),
                        );
                    }
                    match RawProjection::try_from(expr, available_projections, numbers) {
                        Err(e) => return Err(e),
                        Ok(raw) => {
                            let mut raw = raw;
                            raw.set_alias(alias.value.clone());
                            match Self::add_projection(
                                raw,
                                &mut read_columns,
                                &mut aggregates,
                                numbers,
                            ) {
                                Ok(()) => {},
                                Err(e) => return Err(e),
                            }
                        },
                    }
                },
            }
            i += 1;
        }
        let read_columns = Self::expand_wildcard(wildcard, read_columns, available_projections);
        Ok((read_columns, aggregates))
    }

    fn add_projection(
        raw: RawProjection,
        read_columns: &mut Vec<Projection>,
        aggregates: &mut Vec<AggregateProjection>,
        numbers: &Numbers,
    ) -> (r: Outcome<()>)
        ensures
            match r {
                Ok(()) => with_item(raw, old(read_columns)@, old(aggregates)@, numbers.readings@) == Ok::<
                    (Seq<Projection>, Seq<AggregateProjection>),
                    ErrorView,
                >((final(read_columns)@, final(aggregates)@)),
                Err(e) => with_item(raw, old(read_columns)@, old(aggregates)@, numbers.readings@) == Err::<
                    (Seq<Projection>, Seq<AggregateProjection>),
                    ErrorView,
                >(e@) && final(read_columns)@ == old(read_columns)@ && final(aggregates)@ == old(
                    aggregates,
                )@,
            },
    {
        match raw {
            RawProjection::Projection(p) => {
                let is_column = match &p.source {
                    ProjectionValue::ColumnDef(_) => true,
                    ProjectionValue::Value(_) => false,
                };
                if is_column && projection::contains_projection(read_columns, &p) {
                    return Err(Error::DuplicateColumn(p.to_text(numbers)));
                }
                read_columns.push(p);
            },
            RawProjection::AggregateProjection(a) => aggregates.push(a),
        }
        Ok(())
    }

    fn expand_wildcard(
        wildcard: Option<usize>,
        read_columns: Vec<Projection>,
        available_projections: &Vec<Projection>,
    ) -> (r: Vec<Projection>)
        ensures
            r@ == expanded(position_view(wildcard), read_columns@, available_projections@),
    {
        let idx: usize = match wildcard {
            None => return read_columns,
            Some(idx) => idx,
        };
        if idx == 0 {
            return projection::clone_projections(available_projections);
        }
        let ghost start = read_columns@;
        let mut read_columns = read_columns;
        let mut i: usize = 0;
        while i < available_projections.len()
            invariant
                i <= available_projections@.len(),
                missing_added(start, available_projections@, 0) == missing_added(
                    read_columns@,
                    available_projections@,
                    i as int,
                ),
            decreases available_projections@.len() - i,
        {
            if !projection::contains_projection(&read_columns, &available_projections[i]) {
                read_columns.push(available_projections[i].clone());
            }
            i += 1;
        }
        read_columns
    }

    fn apply_filter(plan: LogicalPlan, selection: Option<Expr>) -> (r: LogicalPlan)
        ensures
            r@ == narrowed(plan@, selection),
    {
        match selection {
            Some(expr) => LogicalPlan::Filter { expr: Box::new(expr), plan: Box::new(plan) },
            None => plan,
        }
    }

    fn apply_having(plan: LogicalPlan, having: Option<Expr>) -> (r: LogicalPlan)
        ensures
            r@ == having_applied(plan@, having),
    {
        match having {
            Some(expr) => LogicalPlan::Having { expr: Box::new(expr), plan: Box::new(plan) },
            None => plan,
        }
    }

    fn apply_group_by(
        plan: LogicalPlan,
        group_by: &GroupByExpr,
        read_columns: &Vec<Projection>,
        aggregates: Vec<AggregateProjection>,
        available_projections: &Vec<Projection>,
        numbers: &Numbers,
    ) -> (r: Outcome<LogicalPlan>)
        ensures
            error::outcome_view(r) == grouped(
                plan@,
                *group_by,
                read_columns@,
                aggregates@,
                available_projections@,
                numbers.readings@,
            ),
    {
        match group_by {
            GroupByExpr::All(modifiers) => if modifiers.len() > 0 {
                Err(Self::modifiers_fault(modifiers))
            } else {
                Ok(
                    LogicalPlan::Aggregate {
                        aggr_proj: aggregates,
                        group_by: projection::clone_projections(read_columns),
                        plan: Box::new(plan),
                    },
                )
            },
            GroupByExpr::Expressions(exprs, modifiers) => {
                if modifiers.len() > 0 {
                    return Err(Self::modifiers_fault(modifiers));
                }
                if exprs.len() == 0 && aggregates.len() == 0 {
                    return Ok(plan);
                }
                let keys = match Self::parse_group_by_expressions(
                    exprs,
                    available_projections,
                    numbers,
                ) {
                    Ok(k) => k,
                    Err(e) => return Err(e),
                };
                let mut i: usize = 0;
                while i < read_columns.len()
                    invariant
                        i <= read_columns@.len(),
                        *group_by == GroupByExpr::Expressions(*exprs, *modifiers),
                        modifiers@.len() == 0,
                        !(exprs@.len() == 0 && aggregates@.len() == 0),
                        plain_from(
                            exprs@,
                            0,
                            seq![],
                            "GROUP BY"@,
                            available_projections@,
                            numbers.readings@,
                        ) == Ok::<Seq<Projection>, ErrorView>(keys@),
                        search::position(read_columns@, not_among(keys@)) == search::position_from(
                            read_columns@,
                            not_among(keys@),
                            i as int,
                        ),
                    decreases read_columns@.len() - i,
                {
                    if !projection::contains_projection(&keys, &read_columns[i]) {
                        return Err(Error::ColumnNotInGroupBy(read_columns[i].to_text(numbers)));
                    }
                    i += 1;
                }
                Ok(
                    LogicalPlan::Aggregate {
                        aggr_proj: aggregates,
                        group_by: keys,
                        plan: Box::new(plan),
                    },
                )
            },
        }
    }

    fn modifiers_fault(modifiers: &Vec<String>) -> (r: Error)
        ensures
            r@ == modifiers_error(modifiers@),
    {
        Error::UnsupportedCommand(
            concat3("Modifiers (", ast::shown_list(modifiers).as_str(), ") are not supported in GROUP BY clause"),
        )
    }

    fn parse_group_by_expressions(
        exprs: &Vec<Expr>,
        available_projections: &Vec<Projection>,
        numbers: &Numbers,
    ) -> (r: Outcome<Vec<Projection>>)
        ensures
            projections_outcome(r) == plain_from(
                exprs@,
                0,
                seq![],
                "GROUP BY"@,
                available_projections@,
                numbers.readings@,
            ),
    {
        let mut keys: Vec<Projection> = Vec::new();
        let mut i: usize = 0;
        while i < exprs.len()
            invariant
                i <= exprs@.len(),
                plain_from(
                    exprs@,
                    0,
                    seq![],
                    "GROUP BY"@,
                    available_projections@,
                    numbers.readings@,
                ) == plain_from(
                    exprs@,
                    i as int,
                    keys@,
                    "GROUP BY"@,
                    available_projections@,
                    numbers.readings@,
                ),
            decreases exprs@.len() - i,
        {
            match RawProjection::try_from(&exprs[i], available_projections, numbers) {
                Err(e) => return Err(e),
                Ok(raw) => match raw.plain("GROUP BY", numbers) {
                    Ok(p) => keys.push(p),
                    Err(e) => return Err(e),
                },
            }
            i += 1;
        }
        Ok(keys)
    }

    fn apply_order_by(
        plan: LogicalPlan,
        order_by: &Option<OrderBy>,
        read_columns: &Vec<Projection>,
        available_projections: &Vec<Projection>,
    ) -> (r: Outcome<LogicalPlan>)
        ensures
            error::outcome_view(r) == sorted(
                plan@,
                *order_by,
                read_columns@,
                available_projections@,
            ),
    {
        match order_by {
            None => Ok(plan),
            Some(order_by) => match order_by {
                OrderBy::All => {
                    let mut projs: Vec<Vec<Projection>> = Vec::new();
                    projs.push(projection::clone_projections(read_columns));
                    assert(plan::nested(projs@) =~= seq![read_columns@]);
                    Ok(LogicalPlan::OrderBy { projs, plan: Box::new(plan) })
                },
                OrderBy::Expressions(exprs) => {
                    match Self::parse_order_by_expressions(exprs, available_projections) {
                        Ok(projs) => Ok(LogicalPlan::OrderBy { projs, plan: Box::new(plan) }),
                        Err(e) => Err(e),
                    }
                },
            },
        }
    }

    fn parse_order_by_expressions(exprs: &Vec<Expr>, available_projections: &Vec<Projection>) -> (r: Outcome<
        Vec<Vec<Projection>>,
    >)
        ensures
            match r {
                Ok(v) => orders_from(exprs@, 0, seq![], available_projections@) == Ok::<
                    Seq<Seq<Projection>>,
                    ErrorView,
                >(plan::nested(v@)),
                Err(e) => orders_from(exprs@, 0, seq![], available_projections@) == Err::<
                    Seq<Seq<Projection>>,
                    ErrorView,
                >(e@),
            },
    {
        let mut projs: Vec<Vec<Projection>> = Vec::new();
        assert(plan::nested(projs@) =~= seq![]);
        let mut i: usize = 0;
        while i < exprs.len()
            invariant
                i <= exprs@.len(),
                orders_from(exprs@, 0, seq![], available_projections@) == orders_from(
                    exprs@,
                    i as int,
                    plan::nested(projs@),
                    available_projections@,
                ),
            decreases exprs@.len() - i,
        {
            match Self::parse_order_by(&exprs[i], available_projections) {
                Ok(o) => {
                    let ghost before = projs@;
                    projs.push(o);
                    assert(plan::nested(projs@) =~= plan::nested(before).push(o@));
                },
                Err(e) => return Err(e),
            }
            i += 1;
        }
        Ok(projs)
    }

    fn apply_limit(plan: LogicalPlan, limit_clause: &Option<LimitClause>) -> (r: Outcome<LogicalPlan>)
        ensures
            error::outcome_view(r) == cut(plan@, *limit_clause),
    {
        match limit_clause {
            None => Ok(plan),
            Some(clause) => match clause {
                LimitClause::Other => Err(
                    Error::InvalidLimitValue("Only LIMIT OFFSET clause is supported".to_owned()),
                ),
                LimitClause::LimitOffset { limit, offset } => {
                    let limit: Option<usize> = match limit {
                        None => None,
                        Some(expr) => match parse_count(
                            expr,
                            "LIMIT must be a literal value",
                            "LIMIT must be a number",
                        ) {
                            Ok(n) => Some(n),
                            Err(e) => return Err(e),
                        },
                    };
                    let offset: usize = match offset {
                        None => 0,
                        Some(expr) => match parse_count(
                            expr,
                            "OFFSET must be a literal value",
                            "OFFSET must be a number",
                        ) {
                            Ok(n) => n,
                            Err(e) => return Err(e),
                        },
                    };
                    Ok(LogicalPlan::Limit { limit, offset, plan: Box::new(plan) })
                },
            },
        }
    }

    /// Extracts column definitions from a logical plan.
    ///
    /// Recursively traverses the plan tree to find available columns.
    ///
    /// Returns:
    ///   * Ok when:
    ///     1. Plan is Projection: columns from projection.
    ///     2. Plan is Filter/OrderBy/Limit: columns from inner plan.
    ///     3. Plan is Scan with Table: columns from table metadata.
    ///     4. Plan is Scan with Subquery: columns from subquery plan.
    ///   * Error when:
    ///     1. Table not found in the catalog: `TableNotFound`.
    ///     2. Unsupported plan type: `UnsupportedCommand`.
    pub fn extract_columns_from_plan(plan: &LogicalPlan, catalog: &Catalog) -> (r: Outcome<Vec<Projection>>)
        ensures
            projections_outcome(r) == readable(plan@, catalog.entries@),
        decreases plan,
    {
        match plan {
            LogicalPlan::Projection { columns, .. } => Ok(projection::clone_projections(columns)),
            LogicalPlan::Filter { plan, .. } => Self::extract_columns_from_plan(plan, catalog),
            LogicalPlan::OrderBy { plan, .. } => Self::extract_columns_from_plan(plan, catalog),
            LogicalPlan::Limit { plan, .. } => Self::extract_columns_from_plan(plan, catalog),
            LogicalPlan::Scan { source } => match source {
                ScanSource::Table(table_def) => match catalog.get(table_def) {
                    None => Err(Error::TableNotFound),
                    Some(schema) => Ok(projection::projections_of(schema.columns.as_slice())),
                },
                ScanSource::Subquery(inner) => Self::extract_columns_from_plan(inner, catalog),
            },
            _ => Err(
                Error::UnsupportedCommand("Cannot extract columns from this plan type".to_owned()),
            ),
        }
    }

    /// Tries to parse ORDER BY columns.
    ///
    /// Returns
    ///   * Ok when:
    ///     1. All columns are unique, exist in the pool of ALL columns: `Vec<Projection>`
    ///   * Error when:
    ///     1. The item is not an identifier or a tuple of identifiers: `InvalidOrderBy`.
    ///     2. The tuple is empty: `InvalidOrderBy`.
    ///     3. A column is not found: `ColumnNotFound`.
    ///     4. The same column is added: `InvalidOrderBy`.
    pub fn parse_order_by(order_by: &Expr, projections: &Vec<Projection>) -> (r: Outcome<Vec<Projection>>)
        ensures
            projections_outcome(r) == order_item(*order_by, projections@),
    {
        match order_by {
            Expr::Identifier(ident) => parse_single_order(ident, projections),
            Expr::Tuple(items) => {
                if items.len() == 0 {
                    return Err(Error::InvalidOrderBy("No ORDER BY columns found".to_owned()));
                }
                let mut total: Vec<Projection> = Vec::new();
                let mut i: usize = 0;
                while i < items.len()
                    invariant
                        i <= items@.len(),
                        *order_by == Expr::Tuple(*items),
                        items@.len() > 0,
                        order_item(*order_by, projections@) == tuple_from(
                            items@,
                            i as int,
                            total@,
                            projections@,
                        ),
                    decreases items@.len() - i,
                {
                    match &items[i] {
                        Expr::Identifier(ident) => match Projection::try_from_ident(ident, projections) {
                            Ok(p) => {
                                if projection::contains_projection(&total, &p) {
                                    return Err(
                                        Error::InvalidOrderBy(
                                            concat2("Duplicate column: ", ident.value.as_str()),
                                        ),
                                    );
                                }
                                total.push(p);
                            },
                            Err(e) => return Err(e),
                        },
                        item => return Err(
                            Error::InvalidOrderBy(
                                concat2("Invalid specifier: ", item.to_text().as_str()),
                            ),
                        ),
                    }
                    i += 1;
                }
                Ok(total)
            },
            Expr::Nested(inner) => match &**inner {
                Expr::Identifier(ident) => parse_single_order(ident, projections),
                _ => Err(Error::InvalidOrderBy("Nested primary keys are unsupported".to_owned())),
            },
            _ => Err(Error::InvalidOrderBy(order_by.to_text())),
        }
    }
}

} // verus!
