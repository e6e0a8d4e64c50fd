//! What a SELECT is executed as, said of the query as it is written.
use vstd::prelude::*;

use crate::engines::sorting_laws;
use crate::error::ErrorView;
use crate::runtime_config;
use crate::runtime_config::CatalogEntry;
use crate::search;
use crate::sql::ast::{
    Expr, Function, FunctionArg, FunctionArguments, GroupByExpr, LimitClause, ObjectNamePart, OrderBy, Query, Select,
    SelectItem, SqlValue,
};
use crate::sql::command_runner;
use crate::sql::execution::select as execution;
use crate::sql::logical_plan::plan::{AggregateFunction, AggregateProjection, PlanView};
use crate::sql::logical_plan::select;
use crate::sql::physical_plan;
use crate::sql::physical_plan::{ClausesView, PhysicalView, SelectView, SourceView};
use crate::sql::plan_optimization::query_flattening;
use crate::sql::projection;
use crate::sql::projection::{Projection, ProjectionValue};
use crate::sql::sql_parser;
use crate::sql::sql_parser::RawProjection;
use crate::storage::column::{ColumnDef, OutputColumnView};
use crate::storage::literal_laws;
use crate::storage::numbers::NumberReading;
use crate::storage::table_def;
use crate::storage::table_def::TableDef;
use crate::text;

verus! {

/// Whether the table at a position of a catalog is the first with the database and the name that the two
/// parts of a dotted name give.
pub open spec fn is_entry_named(entries: Seq<CatalogEntry>, at: int, parts: Seq<ObjectNamePart>) -> bool {
    &&& 0 <= at < entries.len()
    &&& parts.len() == 2
    &&& parts[0] is Identifier
    &&& parts[1] is Identifier
    &&& entries[at].table.database@ == parts[0]->Identifier_0.value@
    &&& entries[at].table.table@ == parts[1]->Identifier_0.value@
    &&& forall|j: int|
        0 <= j < at ==> (#[trigger] entries[j]).table.database@ != parts[0]->Identifier_0.value@
            || entries[j].table.table@ != parts[1]->Identifier_0.value@
}

/// Whether a projection goes by a name: by its alias where it has one, else by the name of its column.
pub open spec fn goes_by(p: Projection, name: Seq<char>) -> bool {
    ||| p.alias is Some && p.alias->Some_0@ == name
    ||| p.alias is None && p.source is ColumnDef && p.source->ColumnDef_0.name@ == name
}

/// Whether a projection is the first of those that can be read that goes by a name.
pub open spec fn is_named(p: Projection, available: Seq<Projection>, name: Seq<char>) -> bool {
    exists|i: int|
        0 <= i < available.len() && p == #[trigger] available[i] && goes_by(available[i], name) && forall|j: int|
            0 <= j < i ==> !goes_by(#[trigger] available[j], name)
}

/// Whether a projection is what an expression stands for: the column that an identifier names, or the
/// value of a literal.
pub open spec fn stands_for(
    expr: Expr,
    available: Seq<Projection>,
    readings: Seq<NumberReading>,
    p: Projection,
) -> bool {
    match expr {
        Expr::Identifier(ident) => is_named(p, available, ident.value@),
        Expr::Value(lit) => p.alias is None && p.source is Value && literal_laws::is_plain_literal(
            lit,
            readings,
            p.source->Value_0,
        ),
        _ => false,
    }
}

/// Whether a projection is what an argument of a call stands for: that of its expression, or the first
/// column for a wildcard.
pub open spec fn is_argument(
    arg: FunctionArg,
    available: Seq<Projection>,
    readings: Seq<NumberReading>,
    p: Projection,
) -> bool {
    match arg {
        FunctionArg::Expr(e) => stands_for(e, available, readings, p),
        FunctionArg::Wildcard => available.len() > 0 && p == available[0],
        _ => false,
    }
}

/// Whether an aggregate is what a call stands for: the function with the name of the call, over what its
/// one argument stands for.
pub open spec fn is_call_of(
    f: Function,
    available: Seq<Projection>,
    readings: Seq<NumberReading>,
    source: AggregateFunction,
    p: Projection,
) -> bool {
    &&& f.name.0@.len() == 1
    &&& f.name.0@[0] is Identifier
    &&& f.args is List
    &&& f.args->List_args@.len() == 1
    &&& is_argument(f.args->List_args@[0], available, readings, p)
    &&& {
        let name = text::lowercased(f.name.0@[0]->Identifier_0.value@);
        ||| name == "min"@ && source == AggregateFunction::Min(Box::new(p))
        ||| name == "max"@ && source == AggregateFunction::Max(Box::new(p))
        ||| name == "sum"@ && source == AggregateFunction::Sum(Box::new(p))
        ||| name == "avg"@ && source == AggregateFunction::Avg(Box::new(p))
    }
}

/// The expression of an item of a SELECT.
pub open spec fn expr_of(item: SelectItem) -> Expr {
    match item {
        SelectItem::UnnamedExpr(expr) => expr,
        SelectItem::ExprWithAlias { expr, alias } => expr,
        _ => arbitrary(),
    }
}

/// How many of the items before position `k` are calls of functions.
pub open spec fn calls_before(items: Seq<SelectItem>, k: int) -> int
    decreases k,
{
    if k <= 0 {
        0
    } else if !(items[k - 1] is Wildcard) && expr_of(items[k - 1]) is Function {
        calls_before(items, k - 1) + 1
    } else {
        calls_before(items, k - 1)
    }
}

/// Whether the item at position `k` of a SELECT has its place: a call among the aggregates, anything else
/// among the columns, in the order in which they are written and under the alias that is written.
pub open spec fn is_item_taken(
    items: Seq<SelectItem>,
    k: int,
    available: Seq<Projection>,
    readings: Seq<NumberReading>,
    columns: Seq<Projection>,
    aggregates: Seq<AggregateProjection>,
) -> bool {
    let alias = match items[k] {
        SelectItem::ExprWithAlias { expr, alias } => Some(alias.value),
        _ => None,
    };
    let calls = calls_before(items, k);
    &&& items[k] is UnnamedExpr || items[k] is ExprWithAlias
    &&& match expr_of(items[k]) {
        Expr::Function(f) => {
            &&& calls < aggregates.len()
            &&& exists|p: Projection|
                #[trigger] is_call_of(*f, available, readings, aggregates[calls].source, p)
            &&& aggregates[calls].alias == alias
        },
        expr => {
            &&& k - calls < columns.len()
            &&& exists|p: Projection|
                #[trigger] stands_for(expr, available, readings, p) && columns[k - calls].source == p.source
                    && columns[k - calls].alias == (if alias is Some {
                    alias
                } else {
                    p.alias
                })
        },
    }
}

/// Whether columns are given ones and, behind them, those of `available` that are not among them, in
/// their order.
pub open spec fn fills_up(columns: Seq<Projection>, n: int, available: Seq<Projection>) -> bool {
    &&& 0 <= n <= columns.len()
    &&& exists|at: Seq<int>| #[trigger] fills_up_at(columns, n, available, at)
}

/// Whether columns behind the first `n` are those at given ascending positions of `available`, and each
/// one that is left out equals a column before.
pub open spec fn fills_up_at(columns: Seq<Projection>, n: int, available: Seq<Projection>, at: Seq<int>) -> bool {
    &&& n + at.len() == columns.len()
    &&& forall|i: int|
        0 <= i < at.len() ==> 0 <= #[trigger] at[i] < available.len() && columns[n + i] == available[at[i]]
    &&& forall|i: int, j: int| 0 <= i < j < at.len() ==> #[trigger] at[i] < #[trigger] at[j]
    &&& forall|c: int|
        0 <= c < available.len() ==> #[trigger] at.contains(c) || is_equal_to_one(available[c], columns)
}

/// Whether a projection equals one of a list.
pub open spec fn is_equal_to_one(p: Projection, columns: Seq<Projection>) -> bool {
    exists|k: int| 0 <= k < columns.len() && projection::projection_eq(#[trigger] columns[k], p)
}

/// Whether the lists of a SELECT are what its items stand for. A wildcard that stands alone takes all
/// columns; one behind other items takes those that are not taken yet.
pub open spec fn are_items_taken(
    items: Seq<SelectItem>,
    available: Seq<Projection>,
    readings: Seq<NumberReading>,
    columns: Seq<Projection>,
    aggregates: Seq<AggregateProjection>,
) -> bool {
    let n = items.len() as int;
    if n > 0 && items[n - 1] is Wildcard {
        &&& forall|k: int|
            0 <= k < n - 1 ==> is_item_taken(items, k, available, readings, columns, aggregates)
        &&& aggregates.len() == calls_before(items, n - 1)
        &&& if n == 1 {
            columns == available
        } else {
            fills_up(columns, n - 1 - calls_before(items, n - 1), available)
        }
    } else {
        &&& forall|k: int| 0 <= k < n ==> is_item_taken(items, k, available, readings, columns, aggregates)
        &&& aggregates.len() == calls_before(items, n)
        &&& columns.len() == n - calls_before(items, n)
    }
}

/// Whether an expression is an identifier that names a projection.
pub open spec fn is_identified(expr: Expr, available: Seq<Projection>, p: Projection) -> bool {
    expr is Identifier && is_named(p, available, expr->Identifier_0.value@)
}

/// Whether a list of columns is what an item of an ORDER BY names.
pub open spec fn is_order_of(expr: Expr, available: Seq<Projection>, order: Seq<Projection>) -> bool {
    match expr {
        Expr::Identifier(_) => order.len() == 1 && is_identified(expr, available, order[0]),
        Expr::Nested(inner) => order.len() == 1 && is_identified(*inner, available, order[0]),
        Expr::Tuple(items) => order.len() == items@.len() && order.len() > 0 && forall|j: int|
            0 <= j < order.len() ==> is_identified(items@[j], available, #[trigger] order[j]),
        _ => false,
    }
}

/// Whether a number is what an expression writes.
pub open spec fn is_written(expr: Expr, n: usize) -> bool {
    &&& expr is Value
    &&& expr->Value_0.value is Number
    &&& literal_laws::is_decimal(expr->Value_0.value->Number_0@, n as int)
}

/// The clauses that a level of a query has by the spec of planning.
spec fn planned(
    s: Select,
    order_by: Option<OrderBy>,
    limit_clause: Option<LimitClause>,
    available: Seq<Projection>,
    readings: Seq<NumberReading>,
    c: ClausesView,
) -> bool {
    let (read, aggregates) = select::selected(s.projection@, available, readings)->Ok_0;
    &&& select::selected(s.projection@, available, readings) is Ok
    &&& c.columns == read
    &&& c.filter == s.selection
    &&& c.having == s.having
    &&& match s.group_by {
        GroupByExpr::All(modifiers) => c.group_by == read && c.aggregate_cols == aggregates,
        GroupByExpr::Expressions(exprs, modifiers) => {
            if exprs@.len() == 0 && aggregates.len() == 0 {
                c.group_by.len() == 0 && c.aggregate_cols.len() == 0
            } else {
                &&& select::plain_from(exprs@, 0, seq![], "GROUP BY"@, available, readings) == Ok::<
                    Seq<Projection>,
                    ErrorView,
                >(c.group_by)
                &&& c.aggregate_cols == aggregates
            }
        },
    }
    &&& match order_by {
        None => c.order_by is None,
        Some(OrderBy::All) => c.order_by == Some(seq![read]),
        Some(OrderBy::Expressions(exprs)) => match select::orders_from(exprs@, 0, seq![], available) {
            Err(_) => false,
            Ok(orders) => c.order_by == Some(orders) || (orders.len() == 0 && c.order_by is None),
        },
    }
    &&& match limit_clause {
        None => c.limit is None && c.offset == 0,
        Some(LimitClause::Other) => false,
        Some(LimitClause::LimitOffset { limit, offset }) => select::limit_of(limit) == Ok::<
            Option<usize>,
            ErrorView,
        >(c.limit) && select::offset_of(offset) == Ok::<usize, ErrorView>(c.offset),
    }
}

#[verifier::rlimit(40)]
#[verifier::spinoff_prover]
proof fn lemma_executed_over_table(
    s: Select,
    order_by: Option<OrderBy>,
    limit_clause: Option<LimitClause>,
    table: TableDef,
    entries: Seq<CatalogEntry>,
    readings: Seq<NumberReading>,
    available: Seq<Projection>,
    p: PlanView,
    v: PhysicalView,
)
    requires
        select::readable(PlanView::ScanTable { table }, entries) == Ok::<Seq<Projection>, ErrorView>(available),
        select::select_over(s, order_by, limit_clause, PlanView::ScanTable { table }, entries, readings) == Ok::<
            PlanView,
            ErrorView,
        >(p),
        command_runner::executed_plan(p) == Ok::<PhysicalView, ErrorView>(v),
    ensures
        v is Select,
        v->Select_0.scan_source == SourceView::Table(table),
        planned(s, order_by, limit_clause, available, readings, v->Select_0.clauses),
{
    reveal_with_fuel(physical_plan::select_below, 8);
    reveal_with_fuel(query_flattening::is_plain_query, 8);
    reveal_with_fuel(query_flattening::all_filters, 8);
    reveal_with_fuel(query_flattening::all_orders, 8);
    reveal_with_fuel(query_flattening::outer_columns, 8);
    reveal_with_fuel(query_flattening::least_limit, 8);
    reveal_with_fuel(query_flattening::total_offset, 8);
    reveal_with_fuel(query_flattening::base_table, 8);
    let (read, aggregates) = select::selected(s.projection@, available, readings)->Ok_0;
    let scan = PlanView::ScanTable { table };
    let narrowed = select::narrowed(scan, s.selection);
    let taken = PlanView::Projection { columns: read, plan: Box::new(narrowed) };
    let groups = select::grouped(taken, s.group_by, read, aggregates, available, readings)->Ok_0;
    let kept = select::having_applied(groups, s.having);
    let ordered = select::sorted(kept, order_by, read, available)->Ok_0;
    assert(select::cut(ordered, limit_clause) == Ok::<PlanView, ErrorView>(p));
    let no_filters = Seq::<Expr>::empty();
    let no_orders = Seq::<Seq<Projection>>::empty();
    if query_flattening::is_plain_query(p) {
        assert(kept == taken);
        let filters = query_flattening::all_filters(p);
        assert(filters == query_flattening::all_filters(taken));
        match s.selection {
            Some(expr) => {
                assert(filters =~= seq![expr]);
            },
            None => {
                assert(filters =~= no_filters);
            },
        }
        match order_by {
            None => {
                assert(query_flattening::all_orders(p) =~= no_orders);
            },
            _ => {
                assert(ordered is OrderBy);
                assert(query_flattening::all_orders(taken) =~= no_orders);
                assert(query_flattening::all_orders(p) =~= ordered->OrderBy_projs);
            },
        }
    }
}

/// The columns of a table, as they can be read: each under its own name.
pub open spec fn readable_columns(columns: Seq<ColumnDef>) -> Seq<Projection> {
    Seq::new(
        columns.len(),
        |i: int| Projection { alias: None, source: ProjectionValue::ColumnDef(columns[i]) },
    )
}

/// Whether a query reads the table at a position of a catalog and is executed as given.
pub open spec fn is_executed(
    q: Query,
    entries: Seq<CatalogEntry>,
    at: int,
    readings: Seq<NumberReading>,
    v: PhysicalView,
) -> bool {
    &&& q.body is Select
    &&& q.body->Select_0.from@.len() > 0
    &&& q.body->Select_0.from@[0].relation is Table
    &&& is_entry_named(entries, at, q.body->Select_0.from@[0].relation->Table_name.0@)
    &&& select::query_plan(q, entries, readings) is Ok
    &&& command_runner::executed_plan(select::query_plan(q, entries, readings)->Ok_0) == Ok::<
        PhysicalView,
        ErrorView,
    >(v)
}

/// What can be read of a table of the catalog: its columns, in their order.
pub proof fn lemma_readable(entries: Seq<CatalogEntry>, at: int, parts: Seq<ObjectNamePart>)
    requires
        is_entry_named(entries, at, parts),
    ensures
        table_def::table_named(parts) is Ok,
        table_def::table_named(parts)->Ok_0.database@ == parts[0]->Identifier_0.value@,
        table_def::table_named(parts)->Ok_0.table@ == parts[1]->Identifier_0.value@,
        select::readable(PlanView::ScanTable { table: table_def::table_named(parts)->Ok_0 }, entries) == Ok::<
            Seq<Projection>,
            ErrorView,
        >(readable_columns(entries[at].schema.columns@)),
{
    let table = table_def::table_named(parts)->Ok_0;
    let p = runtime_config::entry_of(table);
    search::lemma_position(entries, p);
    assert(p(entries[at]));
    let k = search::position(entries, p)->Some_0;
    if k < at {
        assert(p(entries[k]));
    }
    assert(k == at);
    assert(projection::column_projections(entries[at].schema.columns@) =~= readable_columns(
        entries[at].schema.columns@,
    ));
}

proof fn lemma_planned(q: Query, entries: Seq<CatalogEntry>, at: int, readings: Seq<NumberReading>, v: PhysicalView)
    requires
        is_executed(q, entries, at, readings, v),
    ensures
        v is Select,
        v->Select_0.scan_source is Table,
        v->Select_0.scan_source->Table_0.database@ == entries[at].table.database@,
        v->Select_0.scan_source->Table_0.table@ == entries[at].table.table@,
        planned(
            *q.body->Select_0,
            q.order_by,
            q.limit_clause,
            readable_columns(entries[at].schema.columns@),
            readings,
            v->Select_0.clauses,
        ),
{
    let s = *q.body->Select_0;
    let parts = s.from@[0].relation->Table_name.0@;
    lemma_readable(entries, at, parts);
    let table = table_def::table_named(parts)->Ok_0;
    let available = readable_columns(entries[at].schema.columns@);
    let p = select::query_plan(q, entries, readings)->Ok_0;
    lemma_executed_over_table(s, q.order_by, q.limit_clause, table, entries, readings, available, p, v);
}

/// A query reads the table that it names, and filters its rows by exactly the WHERE and its groups by
/// exactly the HAVING that are written, or by none where none is.
pub proof fn lemma_query_reads_its_table_and_filters_as_written(
    q: Query,
    entries: Seq<CatalogEntry>,
    at: int,
    readings: Seq<NumberReading>,
    v: PhysicalView,
)
    requires
        is_executed(q, entries, at, readings, v),
    ensures
        v is Select,
        v->Select_0.scan_source is Table,
        v->Select_0.scan_source->Table_0.database@ == entries[at].table.database@,
        v->Select_0.scan_source->Table_0.table@ == entries[at].table.table@,
        v->Select_0.clauses.filter == q.body->Select_0.selection,
        v->Select_0.clauses.having == q.body->Select_0.having,
{
    lemma_planned(q, entries, at, readings, v);
}

/// Without a LIMIT no row is left out at the end, without an OFFSET none at the start; with them, as many
/// as their numbers say. Each counts whether or not the other is there.
pub proof fn lemma_limit_and_offset_are_those_written(
    q: Query,
    entries: Seq<CatalogEntry>,
    at: int,
    readings: Seq<NumberReading>,
    v: PhysicalView,
)
    requires
        is_executed(q, entries, at, readings, v),
    ensures
        v is Select,
        q.limit_clause is None ==> v->Select_0.clauses.limit is None && v->Select_0.clauses.offset == 0,
        q.limit_clause is Some ==> {
            let clause = q.limit_clause->Some_0;
            &&& clause is LimitOffset
            &&& match clause->limit {
                None => v->Select_0.clauses.limit is None,
                Some(expr) => v->Select_0.clauses.limit is Some && is_written(
                    expr,
                    v->Select_0.clauses.limit->Some_0,
                ),
            }
            &&& match clause->offset {
                None => v->Select_0.clauses.offset == 0,
                Some(expr) => is_written(expr, v->Select_0.clauses.offset),
            }
        },
{
    lemma_planned(q, entries, at, readings, v);
    if let Some(LimitClause::LimitOffset { limit, offset }) = q.limit_clause {
        if let Some(expr) = limit {
            lemma_count(expr, "LIMIT must be a literal value"@, "LIMIT must be a number"@);
        }
        if let Some(expr) = offset {
            lemma_count(expr, "OFFSET must be a literal value"@, "OFFSET must be a number"@);
        }
    }
}

proof fn lemma_count(expr: Expr, not_literal: Seq<char>, not_number: Seq<char>)
    ensures
        select::count_of(expr, not_literal, not_number) matches Ok(n) ==> is_written(expr, n),
{
    if let Expr::Value(lit) = expr {
        if let SqlValue::Number(n, _) = lit.value {
            literal_laws::lemma_integer_is_the_one_written(n@, 0, usize::MAX as int);
        }
    }
}

proof fn lemma_named(ident: crate::sql::ast::Ident, available: Seq<Projection>)
    ensures
        sql_parser::projection_named(ident, available) matches Ok(p) ==> is_named(p, available, ident.value@),
{
    let f = projection::answers_to(ident.value@);
    search::lemma_position(available, f);
    if let Some(i) = search::position(available, f) {
        assert(f(available[i]));
        assert forall|j: int| 0 <= j < i implies !goes_by(#[trigger] available[j], ident.value@) by {
            assert(!f(available[j]));
        }
    }
}

proof fn lemma_stands_for(expr: Expr, available: Seq<Projection>, readings: Seq<NumberReading>)
    ensures
        sql_parser::raw_projection(expr, available, readings) matches Ok(RawProjection::Projection(p))
            ==> stands_for(expr, available, readings, p),
        sql_parser::raw_projection(expr, available, readings) matches Ok(RawProjection::AggregateProjection(a))
            ==> expr is Function,
        expr is Function ==> !(sql_parser::raw_projection(expr, available, readings) matches Ok(
            RawProjection::Projection(p),
        )),
{
    if let Expr::Identifier(ident) = expr {
        lemma_named(ident, available);
    }
    if let Expr::Value(lit) = expr {
        literal_laws::lemma_plain_literal_is_what_it_stands_for(lit, readings);
    }
}

/// Every key of a GROUP BY is what the expression at its place stands for: as many keys as expressions,
/// in their order, whatever the SELECT shows. GROUP BY ALL groups by the columns that are shown. Without
/// a GROUP BY there are no keys.
pub proof fn lemma_group_keys_are_those_written(
    q: Query,
    entries: Seq<CatalogEntry>,
    at: int,
    readings: Seq<NumberReading>,
    v: PhysicalView,
)
    requires
        is_executed(q, entries, at, readings, v),
    ensures
        v is Select,
        match q.body->Select_0.group_by {
            GroupByExpr::All(_) => v->Select_0.clauses.group_by == v->Select_0.clauses.columns,
            GroupByExpr::Expressions(exprs, _) => {
                &&& v->Select_0.clauses.group_by.len() == exprs@.len()
                &&& forall|k: int|
                    0 <= k < exprs@.len() ==> stands_for(
                        exprs@[k],
                        readable_columns(entries[at].schema.columns@),
                        readings,
                        #[trigger] v->Select_0.clauses.group_by[k],
                    )
            },
        },
{
    lemma_planned(q, entries, at, readings, v);
    if let GroupByExpr::Expressions(exprs, _) = q.body->Select_0.group_by {
        lemma_plain_keys(
            exprs@,
            0,
            seq![],
            "GROUP BY"@,
            readable_columns(entries[at].schema.columns@),
            readings,
        );
    }
}

proof fn lemma_plain_keys(
    exprs: Seq<Expr>,
    i: int,
    acc: Seq<Projection>,
    clause: Seq<char>,
    available: Seq<Projection>,
    readings: Seq<NumberReading>,
)
    requires
        0 <= i == acc.len() <= exprs.len(),
        forall|k: int| 0 <= k < i ==> stands_for(exprs[k], available, readings, #[trigger] acc[k]),
    ensures
        select::plain_from(exprs, i, acc, clause, available, readings) matches Ok(keys) ==> {
            &&& keys.len() == exprs.len()
            &&& forall|k: int| 0 <= k < exprs.len() ==> stands_for(exprs[k], available, readings, #[trigger] keys[k])
        },
    decreases exprs.len() - i,
{
    if i < exprs.len() {
        lemma_stands_for(exprs[i], available, readings);
        if let Ok(RawProjection::Projection(p)) = sql_parser::raw_projection(exprs[i], available, readings) {
            lemma_plain_keys(exprs, i + 1, acc.push(p), clause, available, readings);
        }
    }
}

/// Rows are sorted by the columns that the items of the ORDER BY name, item by item and in the order in
/// which they are written; ORDER BY ALL sorts by the columns that are shown, and without an ORDER BY
/// nothing is sorted.
pub proof fn lemma_orders_are_those_written(
    q: Query,
    entries: Seq<CatalogEntry>,
    at: int,
    readings: Seq<NumberReading>,
    v: PhysicalView,
)
    requires
        is_executed(q, entries, at, readings, v),
    ensures
        v is Select,
        match q.order_by {
            None => v->Select_0.clauses.order_by is None,
            Some(OrderBy::All) => v->Select_0.clauses.order_by == Some(seq![v->Select_0.clauses.columns]),
            Some(OrderBy::Expressions(exprs)) => exprs@.len() > 0 ==> {
                &&& v->Select_0.clauses.order_by is Some
                &&& v->Select_0.clauses.order_by->Some_0.len() == exprs@.len()
                &&& forall|k: int|
                    0 <= k < exprs@.len() ==> is_order_of(
                        exprs@[k],
                        readable_columns(entries[at].schema.columns@),
                        #[trigger] v->Select_0.clauses.order_by->Some_0[k],
                    )
            },
        },
{
    lemma_planned(q, entries, at, readings, v);
    if let Some(OrderBy::Expressions(exprs)) = q.order_by {
        lemma_orders(exprs@, 0, seq![], readable_columns(entries[at].schema.columns@));
    }
}

proof fn lemma_tuple(items: Seq<Expr>, i: int, acc: Seq<Projection>, available: Seq<Projection>)
    requires
        0 <= i == acc.len() <= items.len(),
        forall|k: int| 0 <= k < i ==> is_identified(items[k], available, #[trigger] acc[k]),
    ensures
        select::tuple_from(items, i, acc, available) matches Ok(order) ==> {
            &&& order.len() == items.len()
            &&& forall|k: int| 0 <= k < items.len() ==> is_identified(items[k], available, #[trigger] order[k])
        },
    decreases items.len() - i,
{
    if i < items.len() {
        if let Expr::Identifier(ident) = items[i] {
            lemma_named(ident, available);
            if let Ok(p) = sql_parser::projection_named(ident, available) {
                assert(is_identified(items[i], available, p));
                lemma_tuple(items, i + 1, acc.push(p), available);
            }
        }
    }
}

proof fn lemma_order_item(expr: Expr, available: Seq<Projection>)
    ensures
        select::order_item(expr, available) matches Ok(order) ==> is_order_of(expr, available, order),
{
    match expr {
        Expr::Identifier(ident) => {
            lemma_named(ident, available);
            if let Ok(p) = sql_parser::projection_named(ident, available) {
                assert(is_identified(expr, available, seq![p][0]));
            }
        },
        Expr::Tuple(items) => lemma_tuple(items@, 0, seq![], available),
        Expr::Nested(inner) => {
            if let Expr::Identifier(ident) = *inner {
                lemma_named(ident, available);
            }
        },
        _ => {},
    }
}

proof fn lemma_orders(exprs: Seq<Expr>, i: int, acc: Seq<Seq<Projection>>, available: Seq<Projection>)
    requires
        0 <= i == acc.len() <= exprs.len(),
        forall|k: int| 0 <= k < i ==> is_order_of(exprs[k], available, #[trigger] acc[k]),
    ensures
        select::orders_from(exprs, i, acc, available) matches Ok(orders) ==> {
            &&& orders.len() == exprs.len()
            &&& forall|k: int| 0 <= k < exprs.len() ==> is_order_of(exprs[k], available, #[trigger] orders[k])
        },
    decreases exprs.len() - i,
{
    if i < exprs.len() {
        lemma_order_item(exprs[i], available);
        if let Ok(o) = select::order_item(exprs[i], available) {
            lemma_orders(exprs, i + 1, acc.push(o), available);
        }
    }
}

proof fn lemma_arguments(
    args: Seq<FunctionArg>,
    i: int,
    acc: Seq<Projection>,
    available: Seq<Projection>,
    readings: Seq<NumberReading>,
)
    requires
        0 <= i == acc.len() <= args.len(),
        forall|k: int| 0 <= k < i ==> is_argument(args[k], available, readings, #[trigger] acc[k]),
    ensures
        sql_parser::arguments_from(args, i, acc, available, readings) matches Ok(list) ==> {
            &&& list.len() == args.len()
            &&& forall|k: int| 0 <= k < args.len() ==> is_argument(args[k], available, readings, #[trigger] list[k])
        },
    decreases args.len() - i,
{
    if i < args.len() {
        match args[i] {
            FunctionArg::Expr(e) => {
                lemma_stands_for(e, available, readings);
                if let Ok(RawProjection::Projection(p)) = sql_parser::raw_projection(e, available, readings) {
                    lemma_arguments(args, i + 1, acc.push(p), available, readings);
                }
            },
            FunctionArg::Wildcard => {
                if available.len() > 0 {
                    lemma_arguments(args, i + 1, acc.push(available[0]), available, readings);
                }
            },
            _ => {},
        }
    }
}

proof fn lemma_call(f: Function, available: Seq<Projection>, readings: Seq<NumberReading>)
    ensures
        sql_parser::parsed_function(f, available, readings) matches Ok(source) ==> exists|p: Projection|
            #[trigger] is_call_of(f, available, readings, source, p),
{
    if let Ok(source) = sql_parser::parsed_function(f, available, readings) {
        let (name, list) = sql_parser::call_parts(f, available, readings)->Ok_0;
        match f.args {
            FunctionArguments::List { args, duplicate_treatment, clauses } => {
                lemma_arguments(args@, 0, seq![], available, readings);
                assert(list.len() == args@.len());
                assert(list.len() == 1);
                assert(list[0] == list[0]);
                assert(is_call_of(f, available, readings, source, list[0]));
            },
            _ => {
                assert(list.len() == 0);
            },
        }
    }
}

/// Whether the items before position `i` have their places, and a wildcard is the last of them.
spec fn has_taken(
    items: Seq<SelectItem>,
    i: int,
    wildcard: Option<int>,
    available: Seq<Projection>,
    readings: Seq<NumberReading>,
    read: Seq<Projection>,
    aggregates: Seq<AggregateProjection>,
) -> bool {
    let n = match wildcard {
        Some(w) => w,
        None => i,
    };
    &&& 0 <= i <= items.len()
    &&& wildcard matches Some(w) ==> w == i - 1 && w >= 0 && items[w] is Wildcard
    &&& wildcard is None && i > 0 ==> !(items[i - 1] is Wildcard)
    &&& read.len() == n - calls_before(items, n)
    &&& aggregates.len() == calls_before(items, n)
    &&& forall|k: int| 0 <= k < n ==> is_item_taken(items, k, available, readings, read, aggregates)
}

proof fn lemma_calls(items: Seq<SelectItem>, k: int, n: int)
    requires
        0 <= k <= n <= items.len(),
    ensures
        0 <= calls_before(items, k) <= calls_before(items, n),
        calls_before(items, n) - calls_before(items, k) <= n - k,
    decreases n,
{
    if k < n {
        lemma_calls(items, k, n - 1);
    } else if k > 0 {
        lemma_calls(items, k - 1, k - 1);
    }
}

/// An item keeps its place where others come behind.
proof fn lemma_place_stays(
    items: Seq<SelectItem>,
    k: int,
    available: Seq<Projection>,
    readings: Seq<NumberReading>,
    read: Seq<Projection>,
    aggregates: Seq<AggregateProjection>,
    more: Seq<Projection>,
    others: Seq<AggregateProjection>,
)
    requires
        0 <= k < items.len(),
        is_item_taken(items, k, available, readings, read, aggregates),
        read.len() <= more.len(),
        aggregates.len() <= others.len(),
        forall|i: int| 0 <= i < read.len() ==> #[trigger] more[i] == read[i],
        forall|i: int| 0 <= i < aggregates.len() ==> #[trigger] others[i] == aggregates[i],
    ensures
        is_item_taken(items, k, available, readings, more, others),
{
    lemma_calls(items, 0, k);
    let calls = calls_before(items, k);
    if let Expr::Function(f) = expr_of(items[k]) {
        assert(others[calls] == aggregates[calls]);
    } else {
        assert(more[k - calls] == read[k - calls]);
    }
}

proof fn lemma_item_taken(
    items: Seq<SelectItem>,
    i: int,
    available: Seq<Projection>,
    readings: Seq<NumberReading>,
    read: Seq<Projection>,
    aggregates: Seq<AggregateProjection>,
    expr: Expr,
    alias: Option<String>,
)
    requires
        i < items.len(),
        has_taken(items, i, None, available, readings, read, aggregates),
        match items[i] {
            SelectItem::UnnamedExpr(e) => e == expr && alias is None,
            SelectItem::ExprWithAlias { expr: e, alias: a } => e == expr && alias == Some(a.value),
            _ => false,
        },
        select::item_projection(expr, alias, available, readings) is Ok,
        select::with_item(
            select::item_projection(expr, alias, available, readings)->Ok_0,
            read,
            aggregates,
            readings,
        ) is Ok,
    ensures
        ({
            let (r, a) = select::with_item(
                select::item_projection(expr, alias, available, readings)->Ok_0,
                read,
                aggregates,
                readings,
            )->Ok_0;
            has_taken(items, i + 1, None, available, readings, r, a)
        }),
{
    let raw = select::item_projection(expr, alias, available, readings)->Ok_0;
    let (r, a) = select::with_item(raw, read, aggregates, readings)->Ok_0;
    let base = sql_parser::raw_projection(expr, available, readings)->Ok_0;
    lemma_stands_for(expr, available, readings);
    lemma_calls(items, 0, i);
    if let Expr::Function(f) = expr {
        lemma_call(*f, available, readings);
        assert(a[aggregates.len() as int].source == base->AggregateProjection_0.source);
    } else {
        assert(base is Projection);
        let p = base->Projection_0;
        assert(stands_for(expr, available, readings, p));
        assert(r[read.len() as int].source == p.source);
    }
    assert(is_item_taken(items, i, available, readings, r, a));
    assert forall|k: int| 0 <= k < i + 1 implies is_item_taken(items, k, available, readings, r, a) by {
        if k < i {
            lemma_place_stays(items, k, available, readings, read, aggregates, r, a);
        }
    }
}

proof fn lemma_items(
    items: Seq<SelectItem>,
    i: int,
    wildcard: Option<int>,
    available: Seq<Projection>,
    readings: Seq<NumberReading>,
    read: Seq<Projection>,
    aggregates: Seq<AggregateProjection>,
)
    requires
        has_taken(items, i, wildcard, available, readings, read, aggregates),
    ensures
        select::items_from(items, i, wildcard, read, aggregates, available, readings) matches Ok((w, r, a))
            ==> has_taken(items, items.len() as int, w, available, readings, r, a),
    decreases items.len() - i,
{
    if i < items.len() && wildcard is None {
        match items[i] {
            SelectItem::Wildcard => {
                lemma_items(items, i + 1, Some(i), available, readings, read, aggregates);
            },
            SelectItem::UnnamedExpr(expr) => {
                if let Ok(raw) = select::item_projection(expr, None, available, readings) {
                    if let Ok((r, a)) = select::with_item(raw, read, aggregates, readings) {
                        lemma_item_taken(items, i, available, readings, read, aggregates, expr, None);
                        lemma_items(items, i + 1, None, available, readings, r, a);
                    }
                }
            },
            SelectItem::ExprWithAlias { expr, alias } => {
                if let Ok(raw) = select::item_projection(expr, Some(alias.value), available, readings) {
                    if let Ok((r, a)) = select::with_item(raw, read, aggregates, readings) {
                        lemma_item_taken(items, i, available, readings, read, aggregates, expr, Some(alias.value));
                        lemma_items(items, i + 1, None, available, readings, r, a);
                    }
                }
            },
            _ => {},
        }
    }
}

proof fn lemma_filled_up(columns: Seq<Projection>, n: int, available: Seq<Projection>, i: int, at: Seq<int>)
    requires
        0 <= i <= available.len(),
        0 <= n,
        n + at.len() == columns.len(),
        forall|k: int|
            0 <= k < at.len() ==> 0 <= #[trigger] at[k] < i && columns[n + k] == available[at[k]],
        forall|k: int, j: int| 0 <= k < j < at.len() ==> #[trigger] at[k] < #[trigger] at[j],
        forall|c: int| 0 <= c < i ==> #[trigger] at.contains(c) || is_equal_to_one(available[c], columns),
    ensures
        ({
            let all = select::missing_added(columns, available, i);
            &&& fills_up(all, n, available)
            &&& columns.len() <= all.len()
            &&& forall|k: int| 0 <= k < columns.len() ==> #[trigger] all[k] == columns[k]
        }),
    decreases available.len() - i,
{
    if i < available.len() {
        let f = projection::equal_to(available[i]);
        search::lemma_position(columns, f);
        if search::position(columns, f) is Some {
            let k = search::position(columns, f)->Some_0;
            assert(f(columns[k]));
            assert(projection::projection_eq(columns[k], available[i]));
            lemma_filled_up(columns, n, available, i + 1, at);
        } else {
            let more = columns.push(available[i]);
            let next = at.push(i);
            assert forall|c: int| 0 <= c < i + 1 implies #[trigger] next.contains(c) || is_equal_to_one(
                available[c],
                more,
            ) by {
                if c < i {
                    if at.contains(c) {
                        let j = choose|j: int| 0 <= j < at.len() && at[j] == c;
                        assert(next[j] == c);
                    } else {
                        let k = choose|k: int|
                            0 <= k < columns.len() && projection::projection_eq(
                                #[trigger] columns[k],
                                available[c],
                            );
                        assert(more[k] == columns[k]);
                    }
                } else {
                    assert(next[at.len() as int] == c);
                }
            }
            lemma_filled_up(more, n, available, i + 1, next);
            let all = select::missing_added(columns, available, i);
            assert forall|k: int| 0 <= k < columns.len() implies #[trigger] all[k] == columns[k] by {
                assert(all[k] == more[k]);
            }
        }
    } else {
        assert(fills_up_at(columns, n, available, at));
    }
}

/// The columns that a query shows and the aggregates that it computes are those that its items stand for,
/// each at its place and under its alias.
pub proof fn lemma_columns_are_the_items_written(
    q: Query,
    entries: Seq<CatalogEntry>,
    at: int,
    readings: Seq<NumberReading>,
    v: PhysicalView,
)
    requires
        is_executed(q, entries, at, readings, v),
    ensures
        v is Select,
        are_items_taken(
            q.body->Select_0.projection@,
            readable_columns(entries[at].schema.columns@),
            readings,
            v->Select_0.clauses.columns,
            v->Select_0.clauses.aggregate_cols,
        ),
{
    lemma_planned(q, entries, at, readings, v);
    let items = q.body->Select_0.projection@;
    let available = readable_columns(entries[at].schema.columns@);
    let clauses = v->Select_0.clauses;
    let (wildcard, read, aggregates) = select::items_from(
        items,
        0,
        None,
        seq![],
        seq![],
        available,
        readings,
    )->Ok_0;
    lemma_items(items, 0, None, available, readings, seq![], seq![]);
    assert(clauses.aggregate_cols =~= aggregates);
    if let Some(w) = wildcard {
        lemma_calls(items, 0, w);
        if w > 0 {
            lemma_filled_up(read, read.len() as int, available, 0, seq![]);
            assert forall|k: int| 0 <= k < w implies is_item_taken(
                items,
                k,
                available,
                readings,
                clauses.columns,
                aggregates,
            ) by {
                lemma_place_stays(items, k, available, readings, read, aggregates, clauses.columns, aggregates);
            }
        }
    }
}

/// Whether a query neither groups nor calls a function.
pub open spec fn is_plain_select(s: Select) -> bool {
    &&& s.having is None
    &&& s.group_by is Expressions
    &&& s.group_by->Expressions_0@.len() == 0
    &&& s.projection@.len() > 0
    &&& forall|k: int|
        0 <= k < s.projection@.len() ==> (#[trigger] s.projection@[k]) is Wildcard || !(expr_of(s.projection@[k]) is Function)
}

/// Whether orders are those that an ORDER BY writes.
pub open spec fn are_orders_of(
    order_by: Option<OrderBy>,
    available: Seq<Projection>,
    columns: Seq<Projection>,
    orders: Seq<Seq<Projection>>,
) -> bool {
    match order_by {
        None => orders.len() == 0,
        Some(OrderBy::All) => orders == seq![columns],
        Some(OrderBy::Expressions(exprs)) => orders.len() == exprs@.len() && forall|k: int|
            0 <= k < exprs@.len() ==> is_order_of(exprs@[k], available, #[trigger] orders[k]),
    }
}

/// Whether a limit is the one that is written, if one is.
pub open spec fn is_limit_of(clause: Option<LimitClause>, limit: Option<usize>) -> bool {
    match clause {
        None => limit is None,
        Some(LimitClause::LimitOffset { limit: written, offset }) => match written {
            None => limit is None,
            Some(expr) => limit is Some && is_written(expr, limit->Some_0),
        },
        Some(LimitClause::Other) => false,
    }
}

/// Whether an offset is the one that is written, and zero where none is.
pub open spec fn is_offset_of(clause: Option<LimitClause>, n: usize) -> bool {
    match clause {
        None => n == 0,
        Some(LimitClause::LimitOffset { limit, offset: written }) => match written {
            None => n == 0,
            Some(expr) => is_written(expr, n),
        },
        Some(LimitClause::Other) => false,
    }
}

/// One level of a query that neither groups nor calls a function: its columns, its orders, its limit and its
/// offset.
pub struct Level {
    pub columns: Seq<Projection>,
    pub orders: Seq<Seq<Projection>>,
    pub limit: Option<usize>,
    pub offset: usize,
}

/// Whether a level is what is written, over what can be read below it.
pub open spec fn is_level_of(
    s: Select,
    order_by: Option<OrderBy>,
    clause: Option<LimitClause>,
    available: Seq<Projection>,
    readings: Seq<NumberReading>,
    level: Level,
) -> bool {
    &&& are_items_taken(s.projection@, available, readings, level.columns, seq![])
    &&& are_orders_of(order_by, available, level.columns, level.orders)
    &&& is_limit_of(clause, level.limit)
    &&& is_offset_of(clause, level.offset)
}

proof fn lemma_no_calls(items: Seq<SelectItem>, k: int)
    requires
        0 <= k <= items.len(),
        forall|j: int| 0 <= j < items.len() ==> (#[trigger] items[j]) is Wildcard || !(expr_of(items[j]) is Function),
    ensures
        calls_before(items, k) == 0,
    decreases k,
{
    if k > 0 {
        lemma_no_calls(items, k - 1);
        assert(items[k - 1] is Wildcard || !(expr_of(items[k - 1]) is Function));
    }
}

proof fn lemma_taken(items: Seq<SelectItem>, available: Seq<Projection>, readings: Seq<NumberReading>)
    ensures
        select::selected(items, available, readings) matches Ok((read, aggregates)) ==> are_items_taken(
            items,
            available,
            readings,
            read,
            aggregates,
        ),
{
    if let Ok((read, aggregates)) = select::selected(items, available, readings) {
        let (wildcard, own, calls) = select::items_from(
            items,
            0,
            None,
            seq![],
            seq![],
            available,
            readings,
        )->Ok_0;
        lemma_items(items, 0, None, available, readings, seq![], seq![]);
        if let Some(w) = wildcard {
            lemma_calls(items, 0, w);
            if w > 0 {
                lemma_filled_up(own, own.len() as int, available, 0, seq![]);
                assert forall|k: int| 0 <= k < w implies is_item_taken(items, k, available, readings, read, aggregates) by {
                    lemma_place_stays(items, k, available, readings, own, calls, read, aggregates);
                }
            }
        }
    }
}

/// What a level adds to the query below it.
#[verifier::rlimit(40)]
#[verifier::spinoff_prover]
proof fn lemma_level(
    s: Select,
    order_by: Option<OrderBy>,
    clause: Option<LimitClause>,
    scan: PlanView,
    entries: Seq<CatalogEntry>,
    readings: Seq<NumberReading>,
    available: Seq<Projection>,
    p: PlanView,
) -> (level: Level)
    requires
        is_plain_select(s),
        select::readable(scan, entries) == Ok::<Seq<Projection>, ErrorView>(available),
        select::select_over(s, order_by, clause, scan, entries, readings) == Ok::<PlanView, ErrorView>(p),
    ensures
        is_level_of(s, order_by, clause, available, readings, level),
        select::readable(p, entries) == Ok::<Seq<Projection>, ErrorView>(level.columns),
        query_flattening::is_plain_query(p) == query_flattening::is_plain_query(scan),
        query_flattening::base_table(p) == query_flattening::base_table(scan),
        query_flattening::all_filters(p) == (match s.selection {
            Some(expr) => seq![expr] + query_flattening::all_filters(scan),
            None => query_flattening::all_filters(scan),
        }),
        query_flattening::outer_columns(p) == (if level.columns.len() > 0 {
            level.columns
        } else {
            query_flattening::outer_columns(scan)
        }),
        query_flattening::all_orders(p) == query_flattening::all_orders(scan) + level.orders,
        query_flattening::total_offset(p) == level.offset + query_flattening::total_offset(scan),
        is_least(query_flattening::least_limit(p), level.limit, query_flattening::least_limit(scan)),
{
    reveal_with_fuel(select::readable, 6);
    reveal_with_fuel(query_flattening::is_plain_query, 6);
    reveal_with_fuel(query_flattening::all_filters, 6);
    reveal_with_fuel(query_flattening::all_orders, 6);
    reveal_with_fuel(query_flattening::outer_columns, 6);
    reveal_with_fuel(query_flattening::least_limit, 6);
    reveal_with_fuel(query_flattening::total_offset, 6);
    reveal_with_fuel(query_flattening::base_table, 6);
    let items = s.projection@;
    let (read, aggregates) = select::selected(items, available, readings)->Ok_0;
    lemma_taken(items, available, readings);
    lemma_no_calls(items, items.len() as int);
    lemma_no_calls(items, items.len() - 1);
    assert(aggregates =~= seq![]);
    let taken = PlanView::Projection { columns: read, plan: Box::new(select::narrowed(scan, s.selection)) };
    let ordered = select::sorted(taken, order_by, read, available)->Ok_0;
    assert(select::cut(ordered, clause) == Ok::<PlanView, ErrorView>(p));
    let orders = match order_by {
        None => seq![],
        Some(OrderBy::All) => seq![read],
        Some(OrderBy::Expressions(exprs)) => select::orders_from(exprs@, 0, seq![], available)->Ok_0,
    };
    if let Some(OrderBy::Expressions(exprs)) = order_by {
        lemma_orders(exprs@, 0, seq![], available);
    }
    let (limit, offset) = match clause {
        Some(LimitClause::LimitOffset { limit, offset }) => (
            select::limit_of(limit)->Ok_0,
            select::offset_of(offset)->Ok_0,
        ),
        _ => (None, 0usize),
    };
    if let Some(LimitClause::LimitOffset { limit, offset }) = clause {
        if let Some(expr) = limit {
            lemma_count(expr, "LIMIT must be a literal value"@, "LIMIT must be a number"@);
        }
        if let Some(expr) = offset {
            lemma_count(expr, "OFFSET must be a literal value"@, "OFFSET must be a number"@);
        }
    }
    assert(query_flattening::all_orders(scan) + Seq::<Seq<Projection>>::empty() =~= query_flattening::all_orders(scan));
    Level { columns: read, orders, limit, offset }
}

/// Whether a limit is the smaller of two, where both are there, and else the one that is.
pub open spec fn is_least(limit: Option<usize>, a: Option<usize>, b: Option<usize>) -> bool {
    match (a, b) {
        (None, None) => limit is None,
        (Some(x), None) => limit == Some(x),
        (None, Some(y)) => limit == Some(y),
        (Some(x), Some(y)) => limit is Some && limit->Some_0 <= x && limit->Some_0 <= y && (limit->Some_0 == x
            || limit->Some_0 == y),
    }
}

/// Whether a filter is both of two, where both are there, and else the one that is.
pub open spec fn is_both(filter: Option<Expr>, a: Option<Expr>, b: Option<Expr>) -> bool {
    match (a, b) {
        (None, None) => filter is None,
        (Some(x), None) => filter == Some(x),
        (None, Some(y)) => filter == Some(y),
        (Some(x), Some(y)) => {
            &&& filter is Some
            &&& filter->Some_0 is BinaryOp
            &&& filter->Some_0->BinaryOp_op is And
            &&& *filter->Some_0->BinaryOp_left == x
            &&& *filter->Some_0->BinaryOp_right == y
        },
    }
}

/// Whether the clauses of a query are those of two levels: the columns of the outer one, both filters, the
/// orders of the inner one before those of the outer one, the smaller limit and the sum of the offsets.
pub open spec fn are_merged(
    c: ClausesView,
    outer: Level,
    inner: Level,
    outer_filter: Option<Expr>,
    inner_filter: Option<Expr>,
) -> bool {
    &&& c.columns == outer.columns
    &&& is_both(c.filter, outer_filter, inner_filter)
    &&& c.order_by is None <==> inner.orders.len() == 0 && outer.orders.len() == 0
    &&& c.order_by is Some ==> c.order_by->Some_0 == inner.orders + outer.orders
    &&& is_least(c.limit, outer.limit, inner.limit)
    &&& c.offset == outer.offset + inner.offset
    &&& c.aggregate_cols.len() == 0
    &&& c.group_by.len() == 0
    &&& c.having is None
}

/// The clauses that a query without aggregation has once it is merged.
#[verifier::rlimit(40)]
#[verifier::spinoff_prover]
proof fn lemma_merged_clauses(p: PlanView, v: PhysicalView)
    requires
        query_flattening::is_plain_query(p),
        query_flattening::outer_columns(p).len() > 0,
        0 <= query_flattening::total_offset(p) <= usize::MAX,
        physical_plan::physical(query_flattening::merged(p)) == Ok::<PhysicalView, ErrorView>(v),
    ensures
        v is Select,
        v->Select_0.scan_source == SourceView::Table(query_flattening::base_table(p)),
        ({
            let c = v->Select_0.clauses;
            let filters = query_flattening::all_filters(p);
            let orders = query_flattening::all_orders(p);
            &&& c.columns == query_flattening::outer_columns(p)
            &&& filters.len() == 0 ==> c.filter is None
            &&& filters.len() > 0 ==> c.filter == Some(query_flattening::conjunction(filters))
            &&& orders.len() == 0 ==> c.order_by is None
            &&& orders.len() > 0 ==> c.order_by == Some(orders)
            &&& c.limit == query_flattening::least_limit(p)
            &&& c.offset == query_flattening::total_offset(p)
            &&& c.aggregate_cols.len() == 0
            &&& c.group_by.len() == 0
            &&& c.having is None
        }),
{
    reveal_with_fuel(physical_plan::select_below, 6);
}

/// Whether a query reads a query of the table at a position of a catalog and is executed as given.
pub open spec fn is_executed_over_query(
    q: Query,
    inner: Query,
    entries: Seq<CatalogEntry>,
    at: int,
    readings: Seq<NumberReading>,
    v: PhysicalView,
) -> bool {
    &&& q.body is Select
    &&& q.body->Select_0.from@.len() > 0
    &&& q.body->Select_0.from@[0].relation is Derived
    &&& *q.body->Select_0.from@[0].relation->Derived_subquery == inner
    &&& inner.body is Select
    &&& inner.body->Select_0.from@.len() > 0
    &&& inner.body->Select_0.from@[0].relation is Table
    &&& is_entry_named(entries, at, inner.body->Select_0.from@[0].relation->Table_name.0@)
    &&& is_plain_select(*q.body->Select_0)
    &&& is_plain_select(*inner.body->Select_0)
    &&& select::query_plan(q, entries, readings) is Ok
    &&& command_runner::executed_plan(select::query_plan(q, entries, readings)->Ok_0) == Ok::<
        PhysicalView,
        ErrorView,
    >(v)
}

/// The conditions of a WHERE: one, or none where there is no WHERE.
spec fn condition(selection: Option<Expr>) -> Seq<Expr> {
    match selection {
        Some(expr) => seq![expr],
        None => seq![],
    }
}

proof fn lemma_both(filter: Option<Expr>, a: Option<Expr>, b: Option<Expr>)
    requires
        ({
            let filters = condition(a) + condition(b);
            filter == (if filters.len() == 0 {
                None
            } else {
                Some(query_flattening::conjunction(filters))
            })
        }),
    ensures
        is_both(filter, a, b),
{
    let filters = condition(a) + condition(b);
    match (a, b) {
        (Some(x), Some(y)) => {
            assert(filters =~= seq![x, y]);
            assert(filters.drop_last() =~= seq![x]);
            assert(query_flattening::conjunction(filters.drop_last()) == x);
        },
        (Some(x), None) => {
            assert(filters =~= seq![x]);
        },
        (None, Some(y)) => {
            assert(filters =~= seq![y]);
        },
        (None, None) => {
            assert(filters =~= seq![]);
        },
    }
}

/// A query over a query is executed as one query over the inner one's table: see [`are_merged`]. The outer one
/// names what the inner one shows.
#[verifier::rlimit(60)]
#[verifier::spinoff_prover]
pub proof fn lemma_nested_queries_become_one(
    q: Query,
    inner: Query,
    entries: Seq<CatalogEntry>,
    at: int,
    readings: Seq<NumberReading>,
    v: PhysicalView,
)
    requires
        is_executed_over_query(q, inner, entries, at, readings, v),
    ensures
        v is Select,
        v->Select_0.scan_source is Table,
        v->Select_0.scan_source->Table_0.database@ == entries[at].table.database@,
        v->Select_0.scan_source->Table_0.table@ == entries[at].table.table@,
        exists|a: Level, b: Level| #[trigger]
            are_merged(
                v->Select_0.clauses,
                a,
                b,
                q.body->Select_0.selection,
                inner.body->Select_0.selection,
            ) && is_level_of(
                *inner.body->Select_0,
                inner.order_by,
                inner.limit_clause,
                readable_columns(entries[at].schema.columns@),
                readings,
                b,
            ) && is_level_of(*q.body->Select_0, q.order_by, q.limit_clause, b.columns, readings, a),
{
    let s = *q.body->Select_0;
    let t = *inner.body->Select_0;
    let parts = t.from@[0].relation->Table_name.0@;
    lemma_readable(entries, at, parts);
    let table = table_def::table_named(parts)->Ok_0;
    let scan = PlanView::ScanTable { table };
    let available = readable_columns(entries[at].schema.columns@);
    reveal_with_fuel(select::query_plan, 3);
    let below = select::query_plan(inner, entries, readings)->Ok_0;
    let p = select::query_plan(q, entries, readings)->Ok_0;
    let b = lemma_level(t, inner.order_by, inner.limit_clause, scan, entries, readings, available, below);
    let over = PlanView::ScanSubquery { plan: Box::new(below) };
    assert(select::readable(over, entries) == select::readable(below, entries));
    let a = lemma_level(s, q.order_by, q.limit_clause, over, entries, readings, b.columns, p);
    assert(query_flattening::is_plain_query(scan));
    assert(query_flattening::is_plain_query(over) == query_flattening::is_plain_query(below));
    assert(query_flattening::base_table(over) == query_flattening::base_table(below));
    assert(query_flattening::all_filters(over) == query_flattening::all_filters(below));
    assert(query_flattening::outer_columns(over) == query_flattening::outer_columns(below));
    assert(query_flattening::all_orders(over) == query_flattening::all_orders(below));
    assert(query_flattening::total_offset(over) == query_flattening::total_offset(below));
    assert(query_flattening::least_limit(over) == query_flattening::least_limit(below));
    assert(query_flattening::outer_columns(scan) =~= seq![]);
    lemma_no_calls(s.projection@, s.projection@.len() as int);
    lemma_no_calls(s.projection@, s.projection@.len() - 1);
    if a.columns.len() == 0 {
        if s.projection@.len() == 1 {
            assert(a.columns == b.columns);
        }
        assert(query_flattening::outer_columns(p).len() == 0);
    }
    let filters = query_flattening::all_filters(p);
    assert(query_flattening::all_filters(scan) =~= seq![]);
    assert(filters =~= condition(s.selection) + condition(t.selection));
    assert(query_flattening::all_orders(scan) =~= seq![]);
    assert(query_flattening::all_orders(p) =~= b.orders + a.orders);
    lemma_merged_clauses(p, v);
    lemma_both(v->Select_0.clauses.filter, s.selection, t.selection);
    assert(are_merged(v->Select_0.clauses, a, b, s.selection, t.selection));
}

/// OFFSET skips exactly the first rows of what a query would answer without it, as many as are written, whether
/// or not a LIMIT is given; a LIMIT then keeps the first ones of those that are left.
pub proof fn lemma_offset_skips_the_first_rows(
    q: Query,
    entries: Seq<CatalogEntry>,
    at: int,
    readings: Seq<NumberReading>,
    v: PhysicalView,
    n: usize,
    columns: Seq<OutputColumnView>,
    i: int,
)
    requires
        is_executed(q, entries, at, readings, v),
        q.limit_clause is Some,
        q.limit_clause->Some_0 is LimitOffset,
        q.limit_clause->Some_0->offset is Some,
        is_written(q.limit_clause->Some_0->offset->Some_0, n),
        0 <= i < columns.len(),
        forall|c: int| 0 <= c < columns.len() ==> (#[trigger] columns[c]).data.len() == columns[0].data.len(),
    ensures
        ({
            let c = v->Select_0.clauses;
            let answer = execution::cut(columns, c.limit, c.offset);
            let all = columns[i].data;
            let rest = if n <= all.len() {
                all.skip(n as int)
            } else {
                seq![]
            };
            &&& answer is Ok
            &&& answer->Ok_0.len() == columns.len()
            &&& q.limit_clause->Some_0->limit is None ==> answer->Ok_0[i].data == rest
            &&& forall|l: usize|
                q.limit_clause->Some_0->limit is Some && #[trigger] is_written(
                    q.limit_clause->Some_0->limit->Some_0,
                    l,
                ) ==> answer->Ok_0[i].data == (if l <= rest.len() {
                    rest.take(l as int)
                } else {
                    rest
                })
        }),
{
    lemma_limit_and_offset_are_those_written(q, entries, at, readings, v);
    let c = v->Select_0.clauses;
    lemma_one_number(q.limit_clause->Some_0->offset->Some_0, n, c.offset);
    assert(c.offset == n);
    let all = columns[i].data;
    assert(columns[0].data.len() == all.len());
    let rest = if n <= all.len() {
        all.skip(n as int)
    } else {
        seq![]
    };
    let answer = execution::cut(columns, c.limit, c.offset);
    assert(forall|k: int| 0 <= k < columns.len() ==> (#[trigger] columns[k]).data.len() >= execution::skipped_rows(
        columns,
        c.offset,
    ));
    assert(answer is Ok);
    assert(all.skip(execution::skipped_rows(columns, c.offset) as int) =~= rest);
    assert forall|l: usize|
        q.limit_clause->Some_0->limit is Some && #[trigger] is_written(
            q.limit_clause->Some_0->limit->Some_0,
            l,
        ) implies answer->Ok_0[i].data == (if l <= rest.len() {
        rest.take(l as int)
    } else {
        rest
    }) by {
        lemma_one_number(q.limit_clause->Some_0->limit->Some_0, l, c.limit->Some_0);
        assert(rest.take(rest.len() as int) =~= rest);
        assert(answer->Ok_0[i].data =~= (if l <= rest.len() {
            rest.take(l as int)
        } else {
            rest
        }));
    }
}

/// An expression writes one number at most.
proof fn lemma_one_number(expr: Expr, n: usize, m: usize)
    requires
        is_written(expr, n),
        is_written(expr, m),
    ensures
        n == m,
{
}

/// Whether no column is taken twice under one name.
pub open spec fn are_taken_once(columns: Seq<Projection>) -> bool {
    forall|i: int, j: int|
        0 <= i < j < columns.len() && (#[trigger] columns[j]).source is ColumnDef
            ==> !sorting_laws::is_same_projection(#[trigger] columns[i], columns[j])
}

proof fn lemma_not_there(columns: Seq<Projection>, p: Projection)
    ensures
        search::position(columns, projection::equal_to(p)) is None <==> forall|i: int|
            0 <= i < columns.len() ==> !sorting_laws::is_same_projection(#[trigger] columns[i], p),
{
    let f = projection::equal_to(p);
    search::lemma_position(columns, f);
    assert forall|c: Projection| #[trigger] f(c) <==> sorting_laws::is_same_projection(c, p) by {
        sorting_laws::lemma_equal_projections_show_the_same(c, p);
    }
    match search::position(columns, f) {
        Some(k) => {
            assert(f(columns[k]));
        },
        None => {
            assert forall|i: int| 0 <= i < columns.len() implies !sorting_laws::is_same_projection(
                #[trigger] columns[i],
                p,
            ) by {
                assert(!f(columns[i]));
            }
        },
    }
}

proof fn lemma_items_once(
    items: Seq<SelectItem>,
    i: int,
    wildcard: Option<int>,
    read: Seq<Projection>,
    aggregates: Seq<AggregateProjection>,
    available: Seq<Projection>,
    readings: Seq<NumberReading>,
)
    requires
        are_taken_once(read),
    ensures
        select::items_from(items, i, wildcard, read, aggregates, available, readings) matches Ok((w, r, a))
            ==> are_taken_once(r),
    decreases items.len() - i,
{
    if i < items.len() {
        match items[i] {
            SelectItem::Wildcard => {
                lemma_items_once(items, i + 1, Some(i), read, aggregates, available, readings);
            },
            SelectItem::UnnamedExpr(expr) => {
                lemma_item_once(items, i, wildcard, read, aggregates, available, readings, expr, None);
            },
            SelectItem::ExprWithAlias { expr, alias } => {
                lemma_item_once(items, i, wildcard, read, aggregates, available, readings, expr, Some(alias.value));
            },
            _ => {},
        }
    }
}

proof fn lemma_item_once(
    items: Seq<SelectItem>,
    i: int,
    wildcard: Option<int>,
    read: Seq<Projection>,
    aggregates: Seq<AggregateProjection>,
    available: Seq<Projection>,
    readings: Seq<NumberReading>,
    expr: Expr,
    alias: Option<String>,
)
    requires
        i < items.len(),
        are_taken_once(read),
    ensures
        select::item_projection(expr, alias, available, readings) matches Ok(raw) ==> (select::with_item(
            raw,
            read,
            aggregates,
            readings,
        ) matches Ok((r, a)) ==> (select::items_from(items, i + 1, wildcard, r, a, available, readings) matches Ok(
            (w, last, calls),
        ) ==> are_taken_once(last))),
    decreases items.len() - i, 0nat,
{
    if let Ok(raw) = select::item_projection(expr, alias, available, readings) {
        if let Ok((r, a)) = select::with_item(raw, read, aggregates, readings) {
            if let RawProjection::Projection(p) = raw {
                lemma_not_there(read, p);
            }
            assert(are_taken_once(r));
            lemma_items_once(items, i + 1, wildcard, r, a, available, readings);
        }
    }
}

proof fn lemma_filled_once(columns: Seq<Projection>, available: Seq<Projection>, i: int)
    requires
        0 <= i,
        are_taken_once(columns),
    ensures
        are_taken_once(select::missing_added(columns, available, i)),
    decreases available.len() - i,
{
    if i < available.len() {
        lemma_not_there(columns, available[i]);
        if search::position(columns, projection::equal_to(available[i])) is Some {
            lemma_filled_once(columns, available, i + 1);
        } else {
            lemma_filled_once(columns.push(available[i]), available, i + 1);
        }
    }
}

/// No query shows a column twice under one name: it is refused. (A wildcard that stands alone shows the columns
/// as they are.)
pub proof fn lemma_no_column_is_shown_twice(
    q: Query,
    entries: Seq<CatalogEntry>,
    at: int,
    readings: Seq<NumberReading>,
    v: PhysicalView,
)
    requires
        is_executed(q, entries, at, readings, v),
    ensures
        v is Select,
        q.body->Select_0.projection@.len() > 1 || !(q.body->Select_0.projection@[0] is Wildcard) ==> are_taken_once(
            v->Select_0.clauses.columns,
        ),
{
    lemma_planned(q, entries, at, readings, v);
    let items = q.body->Select_0.projection@;
    let available = readable_columns(entries[at].schema.columns@);
    let (wildcard, read, aggregates) = select::items_from(items, 0, None, seq![], seq![], available, readings)->Ok_0;
    lemma_items_once(items, 0, None, seq![], seq![], available, readings);
    lemma_items(items, 0, None, available, readings, seq![], seq![]);
    lemma_filled_once(read, available, 0);
}

/// With a GROUP BY or a function, a query shows only columns that it groups by: it is refused otherwise.
pub proof fn lemma_shown_columns_are_grouped_by(
    q: Query,
    entries: Seq<CatalogEntry>,
    at: int,
    readings: Seq<NumberReading>,
    v: PhysicalView,
    i: int,
)
    requires
        is_executed(q, entries, at, readings, v),
        v->Select_0.clauses.group_by.len() > 0 || v->Select_0.clauses.aggregate_cols.len() > 0,
        q.body->Select_0.group_by is Expressions,
        0 <= i < v->Select_0.clauses.columns.len(),
    ensures
        exists|k: int|
            0 <= k < v->Select_0.clauses.group_by.len() && sorting_laws::is_same_projection(
                #[trigger] v->Select_0.clauses.group_by[k],
                v->Select_0.clauses.columns[i],
            ),
{
    lemma_planned(q, entries, at, readings, v);
    let s = *q.body->Select_0;
    let parts = s.from@[0].relation->Table_name.0@;
    lemma_readable(entries, at, parts);
    let available = readable_columns(entries[at].schema.columns@);
    let c = v->Select_0.clauses;
    let (read, aggregates) = select::selected(s.projection@, available, readings)->Ok_0;
    let keys = select::plain_from(
        s.group_by->Expressions_0@,
        0,
        seq![],
        "GROUP BY"@,
        available,
        readings,
    )->Ok_0;
    lemma_plain_keys(s.group_by->Expressions_0@, 0, seq![], "GROUP BY"@, available, readings);
    let f = select::not_among(keys);
    search::lemma_position(read, f);
    assert(search::position(read, f) is None);
    assert(!f(read[i]));
    lemma_not_there(keys, read[i]);
}

/// GROUP BY is accepted without modifiers only, and a query reads one table or query without joins.
pub proof fn lemma_unsupported_queries_are_refused(q: Query, entries: Seq<CatalogEntry>, readings: Seq<NumberReading>)
    requires
        select::query_plan(q, entries, readings) is Ok,
    ensures
        q.body is Select,
        q.body->Select_0.from@.len() == 1,
        q.body->Select_0.from@[0].joins == 0,
        q.body->Select_0.projection@.len() > 0,
        match q.body->Select_0.group_by {
            GroupByExpr::All(modifiers) => modifiers@.len() == 0,
            GroupByExpr::Expressions(_, modifiers) => modifiers@.len() == 0,
        },
{
}

/// Whether clauses are those that a level of a query writes, over what can be read below it.
pub open spec fn are_clauses_of(
    s: Select,
    order_by: Option<OrderBy>,
    clause: Option<LimitClause>,
    available: Seq<Projection>,
    readings: Seq<NumberReading>,
    c: ClausesView,
) -> bool {
    &&& are_items_taken(s.projection@, available, readings, c.columns, c.aggregate_cols)
    &&& c.filter == s.selection
    &&& c.having == s.having
    &&& match s.group_by {
        GroupByExpr::All(_) => c.group_by == c.columns,
        GroupByExpr::Expressions(exprs, _) => c.group_by.len() == exprs@.len() && forall|k: int|
            0 <= k < exprs@.len() ==> stands_for(exprs@[k], available, readings, #[trigger] c.group_by[k]),
    }
    &&& is_limit_of(clause, c.limit)
    &&& is_offset_of(clause, c.offset)
    &&& c.order_by is Some ==> are_orders_of(order_by, available, c.columns, c.order_by->Some_0)
    &&& c.order_by is None ==> are_orders_of(order_by, available, c.columns, seq![])
}

proof fn lemma_clauses_are_those_planned(
    s: Select,
    order_by: Option<OrderBy>,
    clause: Option<LimitClause>,
    available: Seq<Projection>,
    readings: Seq<NumberReading>,
    c: ClausesView,
)
    requires
        planned(s, order_by, clause, available, readings, c),
    ensures
        are_clauses_of(s, order_by, clause, available, readings, c),
{
    lemma_taken(s.projection@, available, readings);
    let (read, aggregates) = select::selected(s.projection@, available, readings)->Ok_0;
    assert(c.aggregate_cols =~= aggregates);
    if let GroupByExpr::Expressions(exprs, _) = s.group_by {
        lemma_plain_keys(exprs@, 0, seq![], "GROUP BY"@, available, readings);
    }
    if let Some(OrderBy::Expressions(exprs)) = order_by {
        lemma_orders(exprs@, 0, seq![], available);
    }
    if let Some(LimitClause::LimitOffset { limit, offset }) = clause {
        if let Some(expr) = limit {
            lemma_count(expr, "LIMIT must be a literal value"@, "LIMIT must be a number"@);
        }
        if let Some(expr) = offset {
            lemma_count(expr, "OFFSET must be a literal value"@, "OFFSET must be a number"@);
        }
    }
}

/// What a query over one table is executed as, all its clauses at once.
pub proof fn lemma_all_clauses_are_those_written(
    q: Query,
    entries: Seq<CatalogEntry>,
    at: int,
    readings: Seq<NumberReading>,
    v: PhysicalView,
)
    requires
        is_executed(q, entries, at, readings, v),
    ensures
        v is Select,
        are_clauses_of(
            *q.body->Select_0,
            q.order_by,
            q.limit_clause,
            readable_columns(entries[at].schema.columns@),
            readings,
            v->Select_0.clauses,
        ),
{
    lemma_planned(q, entries, at, readings, v);
    lemma_clauses_are_those_planned(
        *q.body->Select_0,
        q.order_by,
        q.limit_clause,
        readable_columns(entries[at].schema.columns@),
        readings,
        v->Select_0.clauses,
    );
}

/// A level over a scan as one level of the plan that is executed, where nothing is merged.
#[verifier::rlimit(40)]
#[verifier::spinoff_prover]
proof fn lemma_level_below(
    s: Select,
    order_by: Option<OrderBy>,
    clause: Option<LimitClause>,
    scan: PlanView,
    entries: Seq<CatalogEntry>,
    readings: Seq<NumberReading>,
    available: Seq<Projection>,
    p: PlanView,
    source: SourceView,
) -> (c: ClausesView)
    requires
        select::readable(scan, entries) == Ok::<Seq<Projection>, ErrorView>(available),
        select::select_over(s, order_by, clause, scan, entries, readings) == Ok::<PlanView, ErrorView>(p),
        forall|above: ClausesView| #[trigger]
            physical_plan::select_below(scan, above) == Ok::<SelectView, ErrorView>(
                SelectView { scan_source: source, clauses: above },
            ),
    ensures
        physical_plan::select_below(p, physical_plan::no_clauses()) == Ok::<SelectView, ErrorView>(
            SelectView { scan_source: source, clauses: c },
        ),
        planned(s, order_by, clause, available, readings, c),
{
    let (read, aggregates) = select::selected(s.projection@, available, readings)->Ok_0;
    let narrowed = select::narrowed(scan, s.selection);
    let taken = PlanView::Projection { columns: read, plan: Box::new(narrowed) };
    let groups = select::grouped(taken, s.group_by, read, aggregates, available, readings)->Ok_0;
    let kept = select::having_applied(groups, s.having);
    let ordered = select::sorted(kept, order_by, read, available)->Ok_0;
    let c0 = physical_plan::no_clauses();
    let c1 = if p is Limit {
        ClausesView { limit: p->Limit_limit, offset: p->Limit_offset, ..c0 }
    } else {
        c0
    };
    assert(physical_plan::select_below(p, c0) == physical_plan::select_below(ordered, c1));
    let c2 = if order_by is Some && ordered is OrderBy && ordered != kept {
        ClausesView { order_by: Some(ordered->OrderBy_projs), ..c1 }
    } else {
        c1
    };
    assert(physical_plan::select_below(ordered, c1) == physical_plan::select_below(kept, c2));
    let c3 = ClausesView { having: s.having, ..c2 };
    assert(physical_plan::select_below(kept, c2) == physical_plan::select_below(groups, c3));
    let c4 = if groups is Aggregate {
        ClausesView { aggregate_cols: groups->Aggregate_aggr_proj, group_by: groups->Aggregate_group_by, ..c3 }
    } else {
        c3
    };
    assert(physical_plan::select_below(groups, c3) == physical_plan::select_below(taken, c4));
    let c5 = ClausesView { columns: read, ..c4 };
    assert(physical_plan::select_below(taken, c4) == physical_plan::select_below(narrowed, c5));
    let c = ClausesView { filter: s.selection, ..c5 };
    assert(physical_plan::select_below(narrowed, c5) == physical_plan::select_below(scan, c));
    c
}

/// What a level over a scan shows, and that it is no scan.
proof fn lemma_level_shows(
    s: Select,
    order_by: Option<OrderBy>,
    clause: Option<LimitClause>,
    scan: PlanView,
    entries: Seq<CatalogEntry>,
    readings: Seq<NumberReading>,
    available: Seq<Projection>,
    p: PlanView,
)
    requires
        select::readable(scan, entries) == Ok::<Seq<Projection>, ErrorView>(available),
        select::select_over(s, order_by, clause, scan, entries, readings) == Ok::<PlanView, ErrorView>(p),
    ensures
        p is Limit || p is OrderBy || p is Having || p is Aggregate || p is Projection,
        !is_ungrouped(s) ==> !query_flattening::is_plain_query(p),
        is_plain_select(s) ==> select::readable(p, entries) == Ok::<Seq<Projection>, ErrorView>(
            select::selected(s.projection@, available, readings)->Ok_0.0,
        ),
{
    let items = s.projection@;
    let (read, aggregates) = select::selected(items, available, readings)->Ok_0;
    let narrowed = select::narrowed(scan, s.selection);
    let taken = PlanView::Projection { columns: read, plan: Box::new(narrowed) };
    let groups = select::grouped(taken, s.group_by, read, aggregates, available, readings)->Ok_0;
    let kept = select::having_applied(groups, s.having);
    let ordered = select::sorted(kept, order_by, read, available)->Ok_0;
    assert(groups is Aggregate || groups == taken);
    assert(!is_ungrouped(s) ==> kept is Having || kept is Aggregate);
    assert(!is_ungrouped(s) ==> !query_flattening::is_plain_query(kept));
    assert(!is_ungrouped(s) ==> !query_flattening::is_plain_query(ordered));
    assert(p == ordered || p is Limit && *p->Limit_plan == ordered);
    if is_plain_select(s) {
        lemma_taken(items, available, readings);
        lemma_no_calls(items, items.len() as int);
        assert(aggregates.len() == 0);
        assert(kept == taken);
        assert(select::readable(taken, entries) == Ok::<Seq<Projection>, ErrorView>(read));
        assert(select::readable(ordered, entries) == Ok::<Seq<Projection>, ErrorView>(read));
    }
}

/// Whether a query has neither a GROUP BY nor a HAVING.
pub open spec fn is_ungrouped(s: Select) -> bool {
    s.having is None && s.group_by is Expressions && s.group_by->Expressions_0@.len() == 0
}

/// A query that groups, over a query that does not, is executed over the answer of the inner one: each has its own
/// clauses, and the outer one names what the inner one shows.
#[verifier::rlimit(40)]
#[verifier::spinoff_prover]
pub proof fn lemma_grouping_query_reads_the_inner_one(
    q: Query,
    inner: Query,
    entries: Seq<CatalogEntry>,
    at: int,
    readings: Seq<NumberReading>,
    v: PhysicalView,
)
    requires
        q.body is Select,
        q.body->Select_0.from@.len() > 0,
        q.body->Select_0.from@[0].relation is Derived,
        *q.body->Select_0.from@[0].relation->Derived_subquery == inner,
        inner.body is Select,
        inner.body->Select_0.from@.len() > 0,
        inner.body->Select_0.from@[0].relation is Table,
        is_entry_named(entries, at, inner.body->Select_0.from@[0].relation->Table_name.0@),
        !is_ungrouped(*q.body->Select_0),
        is_plain_select(*inner.body->Select_0),
        select::query_plan(q, entries, readings) is Ok,
        command_runner::executed_plan(select::query_plan(q, entries, readings)->Ok_0) == Ok::<
            PhysicalView,
            ErrorView,
        >(v),
    ensures
        v is Select,
        v->Select_0.scan_source is Subquery,
        v->Select_0.scan_source->Subquery_0.scan_source is Table,
        v->Select_0.scan_source->Subquery_0.scan_source->Table_0.database@ == entries[at].table.database@,
        v->Select_0.scan_source->Subquery_0.scan_source->Table_0.table@ == entries[at].table.table@,
        are_clauses_of(
            *inner.body->Select_0,
            inner.order_by,
            inner.limit_clause,
            readable_columns(entries[at].schema.columns@),
            readings,
            v->Select_0.scan_source->Subquery_0.clauses,
        ),
        are_clauses_of(
            *q.body->Select_0,
            q.order_by,
            q.limit_clause,
            v->Select_0.scan_source->Subquery_0.clauses.columns,
            readings,
            v->Select_0.clauses,
        ),
{
    let s = *q.body->Select_0;
    let t = *inner.body->Select_0;
    let parts = t.from@[0].relation->Table_name.0@;
    lemma_readable(entries, at, parts);
    let table = table_def::table_named(parts)->Ok_0;
    let scan = PlanView::ScanTable { table };
    let available = readable_columns(entries[at].schema.columns@);
    reveal_with_fuel(select::query_plan, 3);
    let below = select::query_plan(inner, entries, readings)->Ok_0;
    let p = select::query_plan(q, entries, readings)->Ok_0;
    let b = lemma_level_below(
        t,
        inner.order_by,
        inner.limit_clause,
        scan,
        entries,
        readings,
        available,
        below,
        SourceView::Table(table),
    );
    lemma_level_shows(t, inner.order_by, inner.limit_clause, scan, entries, readings, available, below);
    let node = SelectView { scan_source: SourceView::Table(table), clauses: b };
    let over = PlanView::ScanSubquery { plan: Box::new(below) };
    assert(select::readable(over, entries) == select::readable(below, entries));
    let a = lemma_level_below(
        s,
        q.order_by,
        q.limit_clause,
        over,
        entries,
        readings,
        b.columns,
        p,
        SourceView::Subquery(Box::new(node)),
    );
    lemma_level_shows(s, q.order_by, q.limit_clause, over, entries, readings, b.columns, p);
    lemma_clauses_are_those_planned(t, inner.order_by, inner.limit_clause, available, readings, b);
    lemma_clauses_are_those_planned(s, q.order_by, q.limit_clause, b.columns, readings, a);
}

/// A statement that is no query is executed as it is planned: nothing of it is lost or changed.
pub proof fn lemma_other_statements_are_executed_as_planned(p: PlanView)
    ensures
        p matches PlanView::CreateDatabase { name, if_not_exists } ==> command_runner::executed_plan(p) == Ok::<
            PhysicalView,
            ErrorView,
        >(PhysicalView::CreateDatabase { name, if_not_exists }),
        p matches PlanView::CreateTable { name, if_not_exists, columns, settings, order_by, primary_key }
            ==> command_runner::executed_plan(p) == Ok::<PhysicalView, ErrorView>(
            PhysicalView::CreateTable { name, if_not_exists, columns, settings, order_by, primary_key },
        ),
        p matches PlanView::Insert { table_def, columns } ==> command_runner::executed_plan(p) == Ok::<
            PhysicalView,
            ErrorView,
        >(PhysicalView::Insert { table_def, columns }),
        p matches PlanView::DropDatabase { name, if_exists } ==> command_runner::executed_plan(p) == Ok::<
            PhysicalView,
            ErrorView,
        >(PhysicalView::DropDatabase { name, if_exists }),
        p matches PlanView::DropTable { name, if_exists } ==> command_runner::executed_plan(p) == Ok::<
            PhysicalView,
            ErrorView,
        >(PhysicalView::DropTable { name, if_exists }),
{
}

} // verus!
