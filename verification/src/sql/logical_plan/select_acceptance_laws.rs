//! Which queries are accepted, said of the query as it is written.
use vstd::prelude::*;

use crate::engines::sorting_laws;
use crate::error::ErrorView;
use crate::runtime_config::CatalogEntry;
use crate::search;
use crate::sql::ast::{
    Expr, Function, FunctionArg, GroupByExpr, Ident, LimitClause, OrderBy, Query, Select, SelectItem,
};
use crate::sql::logical_plan::plan::{AggregateProjection, PlanView};
use crate::sql::logical_plan::select;
use crate::sql::logical_plan::select_laws;
use crate::sql::projection;
use crate::sql::projection::Projection;
use crate::sql::sql_parser;
use crate::sql::sql_parser::RawProjection;
use crate::storage::literal;
use crate::storage::literal_laws;
use crate::storage::numbers::NumberReading;
use crate::storage::table_def;
use crate::storage::value::Value;
use crate::text;

verus! {

/// Whether something that can be read goes by a name.
pub open spec fn is_known(name: Seq<char>, available: Seq<Projection>) -> bool {
    exists|i: int| 0 <= i < available.len() && select_laws::goes_by(#[trigger] available[i], name)
}

/// Whether an expression is a known name or a literal that can be read.
pub open spec fn can_be_read(expr: Expr, available: Seq<Projection>, readings: Seq<NumberReading>) -> bool {
    match expr {
        Expr::Identifier(ident) => is_known(ident.value@, available),
        Expr::Value(lit) => exists|v: Value| #[trigger] literal_laws::is_plain_literal(lit, readings, v),
        _ => false,
    }
}

/// Whether a call is one of a known function with one argument, and without anything that no function takes.
pub open spec fn can_be_called(f: Function, available: Seq<Projection>, readings: Seq<NumberReading>) -> bool {
    &&& f.name.0@.len() == 1
    &&& f.name.0@[0] is Identifier
    &&& f.parameters is None
    &&& f.args is List
    &&& f.args->List_args@.len() == 1
    &&& f.args->List_clauses@.len() == 0
    &&& f.args->List_duplicate_treatment is None
    &&& match f.args->List_args@[0] {
        FunctionArg::Expr(e) => can_be_read(e, available, readings),
        FunctionArg::Wildcard => available.len() > 0,
        _ => false,
    }
    &&& {
        let name = text::lowercased(f.name.0@[0]->Identifier_0.value@);
        name == "min"@ || name == "max"@ || name == "sum"@ || name == "avg"@
    }
}

/// Whether an item of a SELECT can be shown: a known name, a literal that can be read or a call, with or without an
/// alias; a wildcard at the end.
pub open spec fn can_be_shown(
    items: Seq<SelectItem>,
    k: int,
    available: Seq<Projection>,
    readings: Seq<NumberReading>,
) -> bool {
    match items[k] {
        SelectItem::Wildcard => k == items.len() - 1,
        SelectItem::QualifiedWildcard => false,
        _ => match select_laws::expr_of(items[k]) {
            Expr::Function(f) => can_be_called(*f, available, readings),
            expr => can_be_read(expr, available, readings),
        },
    }
}

/// What an item shows of a projection: the projection, under the alias that is written where one is.
pub open spec fn under_its_alias(item: SelectItem, p: Projection) -> Projection {
    match item {
        SelectItem::ExprWithAlias { expr, alias } => Projection { alias: Some(alias.value), ..p },
        _ => p,
    }
}

/// Whether a projection is what an item that is no call and no wildcard shows.
pub open spec fn is_shown_by(item: SelectItem, available: Seq<Projection>, p: Projection) -> bool {
    &&& item is UnnamedExpr || item is ExprWithAlias
    &&& match select_laws::expr_of(item) {
        Expr::Identifier(ident) => exists|read: Projection|
            #[trigger] select_laws::is_named(read, available, ident.value@) && p == under_its_alias(item, read),
        Expr::Value(_) => !(p.source is ColumnDef),
        _ => false,
    }
}

/// Whether two items show one column under one name.
pub open spec fn show_the_same(a: SelectItem, b: SelectItem, available: Seq<Projection>) -> bool {
    exists|p: Projection, q: Projection| #[trigger]
        is_shown_by(a, available, p) && #[trigger] is_shown_by(b, available, q) && q.source is ColumnDef
            && sorting_laws::is_same_projection(p, q)
}

/// Whether all items of a SELECT can be shown, and no column twice.
pub open spec fn are_items_fine(
    items: Seq<SelectItem>,
    available: Seq<Projection>,
    readings: Seq<NumberReading>,
) -> bool {
    &&& items.len() > 0
    &&& forall|k: int| 0 <= k < items.len() ==> #[trigger] can_be_shown(items, k, available, readings)
    &&& forall|j: int, k: int|
        0 <= j < k < items.len() ==> !show_the_same(#[trigger] items[j], #[trigger] items[k], available)
}

/// Whether an item may be shown beside groups: a call, or a name without an alias that is written in the GROUP BY.
pub open spec fn is_grouped_by(item: SelectItem, exprs: Seq<Expr>) -> bool {
    &&& item is UnnamedExpr
    &&& match select_laws::expr_of(item) {
        Expr::Function(_) => true,
        Expr::Identifier(ident) => exists|g: int|
            0 <= g < exprs.len() && (#[trigger] exprs[g]) is Identifier && exprs[g]->Identifier_0.value@ == ident.value@,
        _ => false,
    }
}

/// Whether a query can be grouped as it is written: not at all, where nothing but columns is shown; by everything that is
/// shown; or by known names and literals, where nothing else is shown beside calls.
pub open spec fn is_grouping_fine(s: Select, available: Seq<Projection>, readings: Seq<NumberReading>) -> bool {
    match s.group_by {
        GroupByExpr::All(modifiers) => modifiers@.len() == 0,
        GroupByExpr::Expressions(exprs, modifiers) => {
            &&& modifiers@.len() == 0
            &&& {
                ||| exprs@.len() == 0 && forall|k: int|
                    0 <= k < s.projection@.len() ==> (#[trigger] s.projection@[k]) is Wildcard || !(select_laws::expr_of(
                        s.projection@[k],
                    ) is Function)
                ||| (forall|g: int| 0 <= g < exprs@.len() ==> can_be_read(#[trigger] exprs@[g], available, readings))
                    && forall|k: int|
                    0 <= k < s.projection@.len() ==> is_grouped_by(#[trigger] s.projection@[k], exprs@)
            }
        },
    }
}

/// Whether two names of a tuple are names of one column.
pub open spec fn name_the_same(a: Expr, b: Expr, available: Seq<Projection>) -> bool {
    exists|p: Projection, q: Projection| #[trigger]
        select_laws::is_identified(a, available, p) && #[trigger] select_laws::is_identified(b, available, q)
            && sorting_laws::is_same_projection(p, q)
}

/// Whether rows can be sorted by an item of an ORDER BY: a known name, in brackets or not, or a tuple of known names of
/// different columns.
pub open spec fn can_sort(expr: Expr, available: Seq<Projection>) -> bool {
    match expr {
        Expr::Identifier(ident) => is_known(ident.value@, available),
        Expr::Nested(inner) => *inner is Identifier && is_known((*inner)->Identifier_0.value@, available),
        Expr::Tuple(items) => {
            &&& items@.len() > 0
            &&& forall|j: int|
                0 <= j < items@.len() ==> (#[trigger] items@[j]) is Identifier && is_known(
                    items@[j]->Identifier_0.value@,
                    available,
                )
            &&& forall|j: int, k: int|
                0 <= j < k < items@.len() ==> !name_the_same(#[trigger] items@[j], #[trigger] items@[k], available)
        },
        _ => false,
    }
}

/// Whether rows can be sorted as it is written.
pub open spec fn is_order_fine(order_by: Option<OrderBy>, available: Seq<Projection>) -> bool {
    match order_by {
        Some(OrderBy::Expressions(exprs)) => forall|k: int|
            0 <= k < exprs@.len() ==> can_sort(#[trigger] exprs@[k], available),
        _ => true,
    }
}

/// Whether a number of rows is written, without a minus.
pub open spec fn is_number_of_rows(expr: Option<Expr>) -> bool {
    expr is Some ==> {
        &&& exists|n: usize| #[trigger] select_laws::is_written(expr->Some_0, n)
        &&& expr->Some_0->Value_0.value->Number_0@[0] != '-'
    }
}

/// Whether rows can be left out as it is written.
pub open spec fn is_limit_fine(clause: Option<LimitClause>) -> bool {
    match clause {
        None => true,
        Some(LimitClause::Other) => false,
        Some(LimitClause::LimitOffset { limit, offset }) => is_number_of_rows(limit) && is_number_of_rows(offset),
    }
}

proof fn lemma_known(ident: Ident, available: Seq<Projection>)
    requires
        is_known(ident.value@, available),
    ensures
        sql_parser::projection_named(ident, available) is Ok,
        select_laws::is_named(sql_parser::projection_named(ident, available)->Ok_0, available, ident.value@),
{
    let f = projection::answers_to(ident.value@);
    search::lemma_position(available, f);
    let k = choose|i: int| 0 <= i < available.len() && select_laws::goes_by(#[trigger] available[i], ident.value@);
    assert(f(available[k]));
    let i = search::position(available, f)->Some_0;
    assert(f(available[i]));
    assert forall|j: int| 0 <= j < i implies !select_laws::goes_by(#[trigger] available[j], ident.value@) by {
        assert(!f(available[j]));
    }
}

proof fn lemma_named_once(p: Projection, q: Projection, available: Seq<Projection>, name: Seq<char>)
    requires
        select_laws::is_named(p, available, name),
        select_laws::is_named(q, available, name),
    ensures
        p == q,
{
    let i = choose|i: int|
        0 <= i < available.len() && p == #[trigger] available[i] && select_laws::goes_by(available[i], name) && forall|
            j: int,
        |
            0 <= j < i ==> !select_laws::goes_by(#[trigger] available[j], name);
    let k = choose|i: int|
        0 <= i < available.len() && q == #[trigger] available[i] && select_laws::goes_by(available[i], name) && forall|
            j: int,
        |
            0 <= j < i ==> !select_laws::goes_by(#[trigger] available[j], name);
    if i < k {
        assert(!select_laws::goes_by(available[i], name));
    }
    if k < i {
        assert(!select_laws::goes_by(available[k], name));
    }
}

proof fn lemma_read(expr: Expr, available: Seq<Projection>, readings: Seq<NumberReading>)
    requires
        can_be_read(expr, available, readings),
    ensures
        sql_parser::raw_projection(expr, available, readings) matches Ok(RawProjection::Projection(p)) && match expr {
            Expr::Identifier(ident) => select_laws::is_named(p, available, ident.value@),
            _ => !(p.source is ColumnDef) && p.alias is None,
        },
{
    match expr {
        Expr::Identifier(ident) => lemma_known(ident, available),
        Expr::Value(lit) => literal_laws::lemma_plain_literal_is_what_it_stands_for(lit, readings),
        _ => {},
    }
}

proof fn lemma_called(f: Function, available: Seq<Projection>, readings: Seq<NumberReading>)
    requires
        can_be_called(f, available, readings),
    ensures
        sql_parser::parsed_function(f, available, readings) is Ok,
{
    reveal_with_fuel(sql_parser::arguments_from, 3);
    let args = f.args->List_args@;
    if let FunctionArg::Expr(e) = args[0] {
        lemma_read(e, available, readings);
    }
}

spec fn is_shown_before(items: Seq<SelectItem>, i: int, available: Seq<Projection>, p: Projection) -> bool {
    exists|j: int| 0 <= j < i && is_shown_by(#[trigger] items[j], available, p)
}

proof fn lemma_not_repeated(
    items: Seq<SelectItem>,
    i: int,
    read: Seq<Projection>,
    p: Projection,
    available: Seq<Projection>,
    readings: Seq<NumberReading>,
)
    requires
        are_items_fine(items, available, readings),
        0 <= i < items.len(),
        is_shown_by(items[i], available, p),
        forall|m: int| 0 <= m < read.len() ==> is_shown_before(items, i, available, #[trigger] read[m]),
    ensures
        !select::is_repeated(p, read),
{
    if select::is_repeated(p, read) {
        let f = projection::equal_to(p);
        search::lemma_position(read, f);
        let m = search::position(read, f)->Some_0;
        assert(f(read[m]));
        sorting_laws::lemma_equal_projections_show_the_same(read[m], p);
        assert(is_shown_before(items, i, available, read[m]));
        let j = choose|j: int| 0 <= j < i && is_shown_by(#[trigger] items[j], available, read[m]);
        assert(show_the_same(items[j], items[i], available));
    }
}

proof fn lemma_items_accepted(
    items: Seq<SelectItem>,
    i: int,
    read: Seq<Projection>,
    aggregates: Seq<AggregateProjection>,
    available: Seq<Projection>,
    readings: Seq<NumberReading>,
)
    requires
        are_items_fine(items, available, readings),
        0 <= i <= items.len(),
        forall|m: int| 0 <= m < read.len() ==> is_shown_before(items, i, available, #[trigger] read[m]),
    ensures
        select::items_from(items, i, None, read, aggregates, available, readings) matches Ok((wildcard, all, calls))
            && (wildcard is Some <==> i < items.len() && items.last() is Wildcard) && (forall|m: int|
            0 <= m < all.len() ==> is_shown_before(items, items.len() as int, available, #[trigger] all[m])) && ((forall|
            k: int,
        |
            i <= k < items.len() ==> (#[trigger] items[k]) is Wildcard || !(select_laws::expr_of(items[k]) is Function))
            ==> calls == aggregates),
    decreases items.len() - i,
{
    if i < items.len() {
        assert(can_be_shown(items, i, available, readings));
        assert forall|m: int| 0 <= m < read.len() implies is_shown_before(items, i + 1, available, #[trigger] read[m]) by {
            assert(is_shown_before(items, i, available, read[m]));
            let j = choose|j: int| 0 <= j < i && is_shown_by(#[trigger] items[j], available, read[m]);
            assert(is_shown_by(items[j], available, read[m]));
        }
        if items[i] is Wildcard {
            assert(i == items.len() - 1);
            reveal_with_fuel(select::items_from, 2);
        } else {
            let item = items[i];
            let expr = select_laws::expr_of(item);
            let alias = match item {
                SelectItem::ExprWithAlias { expr, alias } => Some(alias.value),
                _ => None,
            };
            if let Expr::Function(f) = expr {
                lemma_called(*f, available, readings);
                let raw = select::item_projection(expr, alias, available, readings)->Ok_0;
                lemma_items_accepted(
                    items,
                    i + 1,
                    read,
                    aggregates.push(raw->AggregateProjection_0),
                    available,
                    readings,
                );
            } else {
                lemma_read(expr, available, readings);
                let raw = select::item_projection(expr, alias, available, readings)->Ok_0;
                let p = raw->Projection_0;
                let named = sql_parser::raw_projection(expr, available, readings)->Ok_0->Projection_0;
                assert(p == under_its_alias(item, named));
                assert(is_shown_by(item, available, p));
                lemma_not_repeated(items, i, read, p, available, readings);
                let next = read.push(p);
                assert forall|m: int| 0 <= m < next.len() implies is_shown_before(
                    items,
                    i + 1,
                    available,
                    #[trigger] next[m],
                ) by {
                    if m == read.len() {
                        assert(is_shown_by(items[i], available, next[m]));
                    } else {
                        assert(next[m] == read[m]);
                    }
                }
                lemma_items_accepted(items, i + 1, next, aggregates, available, readings);
            }
        }
    }
}

proof fn lemma_keys_accepted(
    exprs: Seq<Expr>,
    i: int,
    acc: Seq<Projection>,
    clause: Seq<char>,
    available: Seq<Projection>,
    readings: Seq<NumberReading>,
)
    requires
        0 <= i == acc.len() <= exprs.len(),
        forall|g: int| 0 <= g < exprs.len() ==> can_be_read(#[trigger] exprs[g], available, readings),
        forall|g: int|
            0 <= g < i && (#[trigger] exprs[g]) is Identifier ==> select_laws::is_named(
                acc[g],
                available,
                exprs[g]->Identifier_0.value@,
            ),
    ensures
        select::plain_from(exprs, i, acc, clause, available, readings) matches Ok(keys) && keys.len() == exprs.len()
            && forall|g: int|
            0 <= g < exprs.len() && (#[trigger] exprs[g]) is Identifier ==> select_laws::is_named(
                keys[g],
                available,
                exprs[g]->Identifier_0.value@,
            ),
    decreases exprs.len() - i,
{
    if i < exprs.len() {
        lemma_read(exprs[i], available, readings);
        let p = sql_parser::raw_projection(exprs[i], available, readings)->Ok_0->Projection_0;
        lemma_keys_accepted(exprs, i + 1, acc.push(p), clause, available, readings);
    }
}

proof fn lemma_grouping_accepted(
    s: Select,
    taken: PlanView,
    read: Seq<Projection>,
    aggregates: Seq<AggregateProjection>,
    available: Seq<Projection>,
    readings: Seq<NumberReading>,
)
    requires
        are_items_fine(s.projection@, available, readings),
        is_grouping_fine(s, available, readings),
        forall|i: int|
            0 <= i < available.len() ==> sorting_laws::is_same_projection(#[trigger] available[i], available[i]),
        select::selected(s.projection@, available, readings) == Ok::<
            (Seq<Projection>, Seq<AggregateProjection>),
            ErrorView,
        >((read, aggregates)),
    ensures
        select::grouped(taken, s.group_by, read, aggregates, available, readings) is Ok,
{
    let items = s.projection@;
    lemma_items_accepted(items, 0, seq![], seq![], available, readings);
    if let GroupByExpr::Expressions(exprs, _) = s.group_by {
        if !(exprs@.len() == 0 && aggregates.len() == 0) {
            assert(forall|k: int| 0 <= k < items.len() ==> is_grouped_by(#[trigger] items[k], exprs@));
            lemma_keys_accepted(exprs@, 0, seq![], "GROUP BY"@, available, readings);
            let keys = select::plain_from(exprs@, 0, seq![], "GROUP BY"@, available, readings)->Ok_0;
            let f = select::not_among(keys);
            search::lemma_position(read, f);
            if let Some(m) = search::position(read, f) {
                assert(is_grouped_by(items.last(), exprs@)) by {
                    assert(is_grouped_by(items[items.len() - 1], exprs@));
                }
                assert(f(read[m]));
                assert(is_shown_before(items, items.len() as int, available, read[m]));
                let j = choose|j: int| 0 <= j < items.len() && is_shown_by(#[trigger] items[j], available, read[m]);
                assert(is_grouped_by(items[j], exprs@));
                let ident = select_laws::expr_of(items[j])->Identifier_0;
                let g = choose|g: int|
                    0 <= g < exprs@.len() && (#[trigger] exprs@[g]) is Identifier && exprs@[g]->Identifier_0.value@
                        == ident.value@;
                assert(select_laws::is_named(keys[g], available, ident.value@));
                lemma_named_once(keys[g], read[m], available, ident.value@);
                let h = projection::equal_to(read[m]);
                search::lemma_position(keys, h);
                assert(sorting_laws::is_same_projection(keys[g], read[m]));
                sorting_laws::lemma_equal_projections_show_the_same(keys[g], read[m]);
                assert(h(keys[g]));
            }
        }
    }
}

proof fn lemma_tuple_accepted(items: Seq<Expr>, i: int, acc: Seq<Projection>, available: Seq<Projection>)
    requires
        0 <= i == acc.len() <= items.len(),
        forall|j: int|
            0 <= j < items.len() ==> (#[trigger] items[j]) is Identifier && is_known(
                items[j]->Identifier_0.value@,
                available,
            ),
        forall|j: int, k: int|
            0 <= j < k < items.len() ==> !name_the_same(#[trigger] items[j], #[trigger] items[k], available),
        forall|j: int| 0 <= j < i ==> select_laws::is_identified(items[j], available, #[trigger] acc[j]),
    ensures
        select::tuple_from(items, i, acc, available) is Ok,
    decreases items.len() - i,
{
    if i < items.len() {
        assert(items[i] is Identifier);
        let ident = items[i]->Identifier_0;
        lemma_known(ident, available);
        let p = sql_parser::projection_named(ident, available)->Ok_0;
        let f = projection::equal_to(p);
        search::lemma_position(acc, f);
        assert(select_laws::is_identified(items[i], available, p));
        if let Some(j) = search::position(acc, f) {
            assert(f(acc[j]));
            sorting_laws::lemma_equal_projections_show_the_same(acc[j], p);
            assert(select_laws::is_identified(items[j], available, acc[j]));
            assert(name_the_same(items[j], items[i], available));
        }
        lemma_tuple_accepted(items, i + 1, acc.push(p), available);
    }
}

proof fn lemma_orders_accepted(exprs: Seq<Expr>, i: int, acc: Seq<Seq<Projection>>, available: Seq<Projection>)
    requires
        0 <= i <= exprs.len(),
        forall|k: int| 0 <= k < exprs.len() ==> can_sort(#[trigger] exprs[k], available),
    ensures
        select::orders_from(exprs, i, acc, available) is Ok,
    decreases exprs.len() - i,
{
    if i < exprs.len() {
        assert(can_sort(exprs[i], available));
        match exprs[i] {
            Expr::Identifier(ident) => lemma_known(ident, available),
            Expr::Nested(inner) => lemma_known((*inner)->Identifier_0, available),
            Expr::Tuple(items) => lemma_tuple_accepted(items@, 0, seq![], available),
            _ => {},
        }
        lemma_orders_accepted(exprs, i + 1, acc.push(select::order_item(exprs[i], available)->Ok_0), available);
    }
}

proof fn lemma_rows_accepted(expr: Option<Expr>, not_literal: Seq<char>, not_number: Seq<char>)
    requires
        is_number_of_rows(expr),
    ensures
        expr is Some ==> select::count_of(expr->Some_0, not_literal, not_number) is Ok,
{
    if let Some(e) = expr {
        let n = choose|n: usize| #[trigger] select_laws::is_written(e, n);
        let number = e->Value_0.value->Number_0@;
        literal_laws::lemma_integer_is_the_one_written(number, 0, usize::MAX as int);
        assert(literal_laws::is_decimal(number, n as int));
    }
}

/// Whether a level of a query can be answered from what can be read below it.
pub open spec fn is_level_fine(
    s: Select,
    order_by: Option<OrderBy>,
    clause: Option<LimitClause>,
    available: Seq<Projection>,
    readings: Seq<NumberReading>,
) -> bool {
    &&& are_items_fine(s.projection@, available, readings)
    &&& is_grouping_fine(s, available, readings)
    &&& is_order_fine(order_by, available)
    &&& is_limit_fine(clause)
}

/// A query over a table of the catalog is accepted where each of its clauses can be carried out: its items can be shown,
/// and no column twice; it groups by what it shows; it sorts by known names; and its LIMIT and its OFFSET are numbers.
/// Columns that are not even the same as themselves, because their DEFAULT is a floating-point value that is no
/// number, are left out.
pub proof fn lemma_query_is_accepted_where_it_can_be_answered(
    q: Query,
    entries: Seq<CatalogEntry>,
    at: int,
    readings: Seq<NumberReading>,
)
    requires
        q.body is Select,
        q.body->Select_0.from@.len() == 1,
        q.body->Select_0.from@[0].joins == 0,
        q.body->Select_0.from@[0].relation is Table,
        select_laws::is_entry_named(entries, at, q.body->Select_0.from@[0].relation->Table_name.0@),
        ({
            let available = select_laws::readable_columns(entries[at].schema.columns@);
            &&& is_level_fine(*q.body->Select_0, q.order_by, q.limit_clause, available, readings)
            &&& forall|i: int|
                0 <= i < available.len() ==> sorting_laws::is_same_projection(#[trigger] available[i], available[i])
        }),
    ensures
        select::query_plan(q, entries, readings) is Ok,
{
    let s = *q.body->Select_0;
    let available = select_laws::readable_columns(entries[at].schema.columns@);
    let parts = s.from@[0].relation->Table_name.0@;
    select_laws::lemma_readable(entries, at, parts);
    let table = table_def::table_named(parts)->Ok_0;
    let scan = PlanView::ScanTable { table };
    lemma_items_accepted(s.projection@, 0, seq![], seq![], available, readings);
    let (read, aggregates) = select::selected(s.projection@, available, readings)->Ok_0;
    let taken = PlanView::Projection { columns: read, plan: Box::new(select::narrowed(scan, s.selection)) };
    lemma_grouping_accepted(s, taken, read, aggregates, available, readings);
    if let Some(OrderBy::Expressions(exprs)) = q.order_by {
        lemma_orders_accepted(exprs@, 0, seq![], available);
    }
    if let Some(LimitClause::LimitOffset { limit, offset }) = q.limit_clause {
        lemma_rows_accepted(limit, "LIMIT must be a literal value"@, "LIMIT must be a number"@);
        lemma_rows_accepted(offset, "OFFSET must be a literal value"@, "OFFSET must be a number"@);
    }
}

} // verus!
