//! Which granules a query reads and what its filter sees of them, said of the parts and their columns.
use vstd::prelude::*;

use crate::engines::sorting_laws;
use crate::error::ErrorView;
use crate::search;
use crate::sql::ast::Expr;
use crate::sql::compiled_filter;
use crate::sql::compiled_filter::CompiledFilter;
use crate::sql::execution::read_laws;
use crate::sql::execution::select::filter;
use crate::sql::execution::select::filter::{
    FilterPart, GranuleView, MarkedGranule, PartOutline, PreparedFilterView,
};
use crate::sql::execution::select::scan;
use crate::sql::execution::select::scan::GranulePlace;
use crate::sql::execution::table_scan;
use crate::sql::projection::Projection;
use crate::storage::column;
use crate::storage::column::ColumnDef;
use crate::storage::numbers::NumberReading;
use crate::storage::table_metadata::TableSchemaView;
use crate::storage::value::Value;

verus! {

/// Without a filter every granule of a part is read, in its order and with all its rows: as many as a granule
/// holds and, of the last, as many as there are.
pub proof fn lemma_whole_parts_are_read(granules: nat, granularity: nat, last_rows: nat, g: int)
    requires
        0 <= g < granules <= usize::MAX,
    ensures
        ({
            let all = filter::whole_part(granules, granularity, last_rows);
            &&& all.len() == granules
            &&& all[g].granule_idx == g
            &&& all[g].mask.len() == (if g + 1 < granules {
                granularity
            } else {
                last_rows
            })
            &&& forall|r: int| 0 <= r < all[g].mask.len() ==> #[trigger] all[g].mask[r]
        }),
{
}

/// Whether granules are all granules of a part with all their rows.
spec fn is_whole(part: PartOutline, granularity: nat, granules: Seq<GranuleView>) -> bool {
    part.last_granule_rows is Ok && granules == filter::whole_part(
        part.granule_count as nat,
        granularity,
        part.last_granule_rows->Ok_0 as nat,
    )
}

proof fn lemma_parts_whole(parts: Seq<PartOutline>, granularity: nat, p: int, before: Seq<Seq<GranuleView>>)
    requires
        0 <= p == before.len() <= parts.len(),
        forall|k: int| 0 <= k < p ==> is_whole(parts[k], granularity, #[trigger] before[k]),
    ensures
        filter::whole_parts(parts, granularity, p, before) matches Ok(out) ==> out.len() == parts.len() && forall|k: int|
            0 <= k < parts.len() ==> is_whole(parts[k], granularity, #[trigger] out[k]),
        filter::whole_parts(parts, granularity, p, before) is Ok <==> forall|k: int|
            p <= k < parts.len() ==> (#[trigger] parts[k]).column_count > 0 && parts[k].last_granule_rows is Ok,
    decreases parts.len() - p,
{
    if p < parts.len() && parts[p].column_count > 0 {
        if let Ok(rows) = parts[p].last_granule_rows {
            let whole = filter::whole_part(parts[p].granule_count as nat, granularity, rows as nat);
            assert(is_whole(parts[p], granularity, whole));
            lemma_parts_whole(parts, granularity, p + 1, before.push(whole));
        }
    }
}

/// Without a filter all parts are read whole, in their order; only a part without columns, or one whose last
/// granule could not be counted, is refused.
pub proof fn lemma_all_parts_are_read(
    schema: TableSchemaView,
    parts: Seq<FilterPart>,
    index_granularity: usize,
    needed: usize,
    readings: Seq<NumberReading>,
    r: Result<Seq<(usize, Seq<GranuleView>)>, ErrorView>,
)
    requires
        parts.len() <= usize::MAX,
        filter::are_marks(schema, None, parts, index_granularity, needed, readings, r),
    ensures
        r is Ok <==> forall|p: int|
            0 <= p < parts.len() ==> (#[trigger] parts[p]).outline.column_count > 0
                && parts[p].outline.last_granule_rows is Ok,
        r matches Ok(marks) ==> marks.len() == parts.len() && forall|p: int|
            0 <= p < parts.len() ==> (#[trigger] marks[p]).0 == p && marks[p].1 == filter::whole_part(
                parts[p].outline.granule_count as nat,
                index_granularity as nat,
                parts[p].outline.last_granule_rows->Ok_0 as nat,
            ),
{
    let outlines = filter::part_outlines(parts);
    lemma_parts_whole(outlines, index_granularity as nat, 0, seq![]);
    assert forall|p: int| 0 <= p < parts.len() implies #[trigger] outlines[p] == parts[p].outline by {}
    if let Ok(granules) = filter::whole_parts(outlines, index_granularity as nat, 0, seq![]) {
        assert forall|p: int| 0 <= p < parts.len() implies granules[p] == filter::whole_part(
            (#[trigger] parts[p]).outline.granule_count as nat,
            index_granularity as nat,
            parts[p].outline.last_granule_rows->Ok_0 as nat,
        ) by {
            assert(is_whole(outlines[p], index_granularity as nat, granules[p]));
        }
        assert forall|p: int| 0 <= p < parts.len() implies (#[trigger] parts[p]).outline.column_count > 0
            && parts[p].outline.last_granule_rows is Ok by {
            assert(outlines[p].column_count > 0 && outlines[p].last_granule_rows is Ok);
        }
    }
}

proof fn lemma_parts_masked(
    f: PreparedFilterView,
    parts: Seq<FilterPart>,
    order: Seq<usize>,
    index_granularity: usize,
    needed: usize,
    p: int,
    before: Seq<(usize, Seq<GranuleView>)>,
    accepted: usize,
)
    requires
        0 <= p == before.len() <= order.len(),
        forall|k: int| 0 <= k < p ==> (#[trigger] before[k]).0 == order[k],
    ensures
        filter::masked_parts(f, parts, order, index_granularity, needed, p, before, accepted) matches Ok(out)
            ==> out.len() == order.len() && forall|k: int| 0 <= k < order.len() ==> (#[trigger] out[k]).0 == order[k],
    decreases order.len() - p,
{
    if p < order.len() {
        if let Ok(granules) = parts[order[p] as int].granules {
            if let Ok(read) = filter::masked_from(f, granules@, index_granularity, needed, 0, seq![], accepted) {
                lemma_parts_masked(
                    f,
                    parts,
                    order,
                    index_granularity,
                    needed,
                    p + 1,
                    before.push((order[p], read.0)),
                    read.1,
                );
            }
        }
    }
}

/// With a filter every part is gone through once, a part with more rows before one with fewer.
pub proof fn lemma_larger_parts_come_first(
    schema: TableSchemaView,
    expr: crate::sql::ast::Expr,
    parts: Seq<FilterPart>,
    index_granularity: usize,
    needed: usize,
    readings: Seq<NumberReading>,
    marks: Seq<(usize, Seq<GranuleView>)>,
)
    requires
        filter::are_marks(schema, Some(expr), parts, index_granularity, needed, readings, Ok(marks)),
    ensures
        marks.len() == parts.len(),
        forall|i: int| 0 <= i < marks.len() ==> (#[trigger] marks[i]).0 < parts.len(),
        forall|i: int, j: int|
            0 <= i < j < marks.len() ==> (#[trigger] marks[i]).0 != (#[trigger] marks[j]).0
                && parts[marks[i].0 as int].row_count >= parts[marks[j].0 as int].row_count,
{
    let f = filter::prepared(expr, schema, readings)->Ok_0;
    let rows = filter::part_rows(parts);
    let r = Ok::<Seq<(usize, Seq<GranuleView>)>, ErrorView>(marks);
    let order = choose|order: Seq<usize>|
        filter::is_largest_first(rows, order) && r == #[trigger] filter::masked_parts(
            f,
            parts,
            order,
            index_granularity,
            needed,
            0,
            seq![],
            0,
        );
    lemma_parts_masked(f, parts, order, index_granularity, needed, 0, seq![], 0);
    assert forall|i: int, j: int| 0 <= i < j < marks.len() implies (#[trigger] marks[i]).0 != (#[trigger] marks[j]).0
        && parts[marks[i].0 as int].row_count >= parts[marks[j].0 as int].row_count by {
        assert(marks[i].0 == order[i]);
        assert(marks[j].0 == order[j]);
        assert(rows[order[i] as int] >= rows[order[j] as int]);
        assert(order[i] != order[j]);
    }
    assert forall|i: int| 0 <= i < marks.len() implies (#[trigger] marks[i]).0 < parts.len() by {
        assert(order[i] < rows.len());
    }
}

/// Whether a column is read by a filter.
pub open spec fn is_read_by(f: CompiledFilter, i: int) -> bool
    decreases f,
{
    match f {
        CompiledFilter::Compare { col_idx, op, value } => i == col_idx,
        CompiledFilter::CompareColumns { left_idx, op, right_idx } => i == left_idx || i == right_idx,
        CompiledFilter::And(l, r) => is_read_by(*l, i) || is_read_by(*r, i),
        CompiledFilter::Or(l, r) => is_read_by(*l, i) || is_read_by(*r, i),
        CompiledFilter::Not(g) => is_read_by(*g, i),
        CompiledFilter::Column(c) => i == c,
        CompiledFilter::Const(_) => false,
    }
}

/// The columns that are read for a filter are exactly those that it compares.
pub proof fn lemma_filter_columns_are_those_compared(f: CompiledFilter, i: usize)
    ensures
        filter::columns_read(f).contains(i) <==> is_read_by(f, i as int),
    decreases f,
{
    match f {
        CompiledFilter::And(l, r) => {
            lemma_filter_columns_are_those_compared(*l, i);
            lemma_filter_columns_are_those_compared(*r, i);
            lemma_joined(filter::columns_read(*l), filter::columns_read(*r), i);
        },
        CompiledFilter::Or(l, r) => {
            lemma_filter_columns_are_those_compared(*l, i);
            lemma_filter_columns_are_those_compared(*r, i);
            lemma_joined(filter::columns_read(*l), filter::columns_read(*r), i);
        },
        CompiledFilter::Not(g) => lemma_filter_columns_are_those_compared(*g, i),
        CompiledFilter::Compare { col_idx, op, value } => {
            assert(filter::columns_read(f)[0] == col_idx);
        },
        CompiledFilter::CompareColumns { left_idx, op, right_idx } => {
            assert(filter::columns_read(f)[0] == left_idx);
            assert(filter::columns_read(f)[1] == right_idx);
        },
        CompiledFilter::Column(c) => {
            assert(filter::columns_read(f)[0] == c);
        },
        CompiledFilter::Const(_) => {},
    }
}

proof fn lemma_joined(a: Seq<usize>, b: Seq<usize>, i: usize)
    ensures
        (a + b).contains(i) <==> a.contains(i) || b.contains(i),
{
    let both = a + b;
    if a.contains(i) {
        let k = choose|k: int| 0 <= k < a.len() && a[k] == i;
        assert(both[k] == i);
    }
    if b.contains(i) {
        let k = choose|k: int| 0 <= k < b.len() && b[k] == i;
        assert(both[a.len() + k] == i);
    }
    if both.contains(i) {
        let k = choose|k: int| 0 <= k < both.len() && both[k] == i;
        if k < a.len() {
            assert(a[k] == i);
        } else {
            assert(b[k - a.len()] == i);
        }
    }
}

/// Whether a mapping tells, for each of the first `n` columns of a filter, the place of a column of the table that
/// is declared alike, and for each column of the table a column of the filter that is.
spec fn is_mapping(
    filter_columns: Seq<ColumnDef>,
    table_columns: Seq<ColumnDef>,
    n: int,
    mapping: Seq<Option<usize>>,
) -> bool {
    &&& mapping.len() == table_columns.len()
    &&& forall|k: int|
        0 <= k < mapping.len() && (#[trigger] mapping[k]) is Some ==> mapping[k]->Some_0 < n
            && sorting_laws::is_same_column(table_columns[k], filter_columns[mapping[k]->Some_0 as int])
    &&& forall|i: int| 0 <= i < n ==> is_mapped(#[trigger] filter_columns[i], table_columns, mapping)
}

/// Whether a mapping tells the place of the first column of the table that is declared like a given one.
pub open spec fn is_mapped(d: ColumnDef, table_columns: Seq<ColumnDef>, mapping: Seq<Option<usize>>) -> bool {
    exists|k: int| #[trigger] read_laws::is_column_like(table_columns, k, d) && mapping[k] is Some
}

proof fn lemma_mapping(
    filter_columns: Seq<ColumnDef>,
    table_columns: Seq<ColumnDef>,
    readings: Seq<NumberReading>,
    i: int,
    mapping: Seq<Option<usize>>,
)
    requires
        0 <= i <= filter_columns.len() <= usize::MAX,
        is_mapping(filter_columns, table_columns, i, mapping),
    ensures
        filter::mapping_from(filter_columns, table_columns, readings, i, mapping) matches Ok(out) ==> is_mapping(
            filter_columns,
            table_columns,
            filter_columns.len() as int,
            out,
        ),
    decreases filter_columns.len() - i,
{
    if i < filter_columns.len() {
        let d = filter_columns[i];
        let f = column::equal_to(d);
        search::lemma_position(table_columns, f);
        assert forall|c: ColumnDef| #[trigger] f(c) <==> sorting_laws::is_same_column(c, d) by {
            sorting_laws::lemma_equal_columns_are_declared_alike(c, d);
        }
        if let Some(k) = search::position(table_columns, f) {
            assert(f(table_columns[k]));
            assert forall|j: int| 0 <= j < k implies !sorting_laws::is_same_column(#[trigger] table_columns[j], d) by {
                assert(!f(table_columns[j]));
            }
            let next = mapping.update(k, Some(i as usize));
            assert(read_laws::is_column_like(table_columns, k, d) && next[k] is Some);
            assert forall|j: int| 0 <= j < i + 1 implies is_mapped(#[trigger] filter_columns[j], table_columns, next) by {
                if j < i {
                    assert(is_mapped(filter_columns[j], table_columns, mapping));
                    let m = choose|m: int| #[trigger]
                        read_laws::is_column_like(table_columns, m, filter_columns[j]) && mapping[m] is Some;
                    assert(read_laws::is_column_like(table_columns, m, filter_columns[j]) && next[m] is Some);
                }
            }
            lemma_mapping(filter_columns, table_columns, readings, i + 1, next);
        }
    }
}

/// For each column of a table that a filter reads, the filter sees the values that were read for a column that is
/// declared alike, or NULL in every row where the part does not have it.
pub proof fn lemma_filter_sees_what_was_read(
    filter_columns: Seq<ColumnDef>,
    table_columns: Seq<ColumnDef>,
    readings: Seq<NumberReading>,
    mapping: Seq<Option<usize>>,
    columns: Seq<Option<Vec<Value>>>,
    rows: nat,
    i: int,
)
    requires
        filter_columns.len() <= usize::MAX,
        columns.len() == filter_columns.len(),
        filter::mapping_from(
            filter_columns,
            table_columns,
            readings,
            0,
            filter::no_mapping(table_columns.len()),
        ) == Ok::<Seq<Option<usize>>, ErrorView>(mapping),
        0 <= i < filter_columns.len(),
    ensures
        exists|k: int, j: int| #[trigger]
            read_laws::is_column_like(table_columns, k, filter_columns[i]) && 0 <= j < filter_columns.len()
                && sorting_laws::is_same_column(table_columns[k], #[trigger] filter_columns[j]) && filter::table_values(
                mapping,
                columns,
                rows,
            )[k] == (match columns[j] {
                Some(values) => values@,
                None => Seq::new(rows, |r: int| Value::Null),
            }),
{
    lemma_mapping(filter_columns, table_columns, readings, 0, filter::no_mapping(table_columns.len()));
    assert(is_mapped(filter_columns[i], table_columns, mapping));
    let k = choose|k: int| #[trigger]
        read_laws::is_column_like(table_columns, k, filter_columns[i]) && mapping[k] is Some;
    let j = mapping[k]->Some_0 as int;
    let seen = filter::table_values(mapping, columns, rows)[k];
    assert(sorting_laws::is_same_column(table_columns[k], filter_columns[j]));
    match columns[j] {
        Some(values) => {
            assert(seen == values@);
        },
        None => {
            assert(seen =~= Seq::new(rows, |r: int| Value::Null));
        },
    }
}

/// Whether a column is one of a primary key.
pub open spec fn is_in_key(c: ColumnDef, primary_key: Seq<ColumnDef>) -> bool {
    exists|k: int| 0 <= k < primary_key.len() && #[trigger] sorting_laws::is_same_column(primary_key[k], c)
}

proof fn lemma_in_key(c: ColumnDef, primary_key: Seq<ColumnDef>)
    ensures
        search::position(primary_key, column::equal_to(c)) is Some <==> is_in_key(c, primary_key),
{
    let f = column::equal_to(c);
    search::lemma_position(primary_key, f);
    match search::position(primary_key, f) {
        Some(k) => {
            assert(f(primary_key[k]));
            sorting_laws::lemma_equal_columns_are_declared_alike(primary_key[k], c);
        },
        None => {
            assert forall|k: int| 0 <= k < primary_key.len() implies !#[trigger] sorting_laws::is_same_column(
                primary_key[k],
                c,
            ) by {
                assert(!f(primary_key[k]));
                sorting_laws::lemma_equal_columns_are_declared_alike(primary_key[k], c);
            }
        },
    }
}

proof fn lemma_all_in_key(f: CompiledFilter, columns: Seq<ColumnDef>, primary_key: Seq<ColumnDef>)
    ensures
        filter::all_in_key(filter::columns_at(columns, filter::columns_read(f)), primary_key) <==> forall|i: usize|
            #[trigger] is_read_by(f, i as int) ==> is_in_key(columns[i as int], primary_key),
{
    let read = filter::columns_read(f);
    let at = filter::columns_at(columns, read);
    assert forall|c: ColumnDef| search::position(primary_key, #[trigger] column::equal_to(c)) is Some == is_in_key(
        c,
        primary_key,
    ) by {
        lemma_in_key(c, primary_key);
    }
    if filter::all_in_key(at, primary_key) {
        assert forall|i: usize| #[trigger] is_read_by(f, i as int) implies is_in_key(columns[i as int], primary_key) by {
            lemma_filter_columns_are_those_compared(f, i);
            let k = choose|k: int| 0 <= k < read.len() && read[k] == i;
            assert(at[k] == columns[i as int]);
        }
    }
    if forall|i: usize| #[trigger] is_read_by(f, i as int) ==> is_in_key(columns[i as int], primary_key) {
        assert forall|k: int| 0 <= k < at.len() implies search::position(
            primary_key,
            column::equal_to(#[trigger] at[k]),
        ) is Some by {
            assert(read.contains(read[k]));
            lemma_filter_columns_are_those_compared(f, read[k]);
            assert(is_read_by(f, read[k] as int));
        }
    }
}

/// The marks of a part, which know only its primary key, choose its granules exactly where all columns that a filter
/// compares are in that key.
pub proof fn lemma_marks_serve_filters_on_the_key(expr: Expr, schema: TableSchemaView, readings: Seq<NumberReading>)
    ensures
        filter::prepared(expr, schema, readings) matches Ok(p) ==> (p.use_optimization <==> forall|i: usize|
            #[trigger] is_read_by(p.filter, i as int) ==> is_in_key(schema.columns[i as int], schema.primary_key)),
{
    if let Ok(p) = filter::prepared(expr, schema, readings) {
        lemma_all_in_key(p.filter, schema.columns, schema.primary_key);
    }
}

/// The same of a query over the parts of a table; one without a filter reads them whole.
pub proof fn lemma_marks_serve_queries_on_the_key(
    columns: Seq<Projection>,
    expr: Option<Box<Expr>>,
    orders: Option<Seq<Seq<Projection>>>,
    schema: TableSchemaView,
    readings: Seq<NumberReading>,
)
    ensures
        table_scan::table_query(columns, expr, orders, schema, readings) matches Ok(q) ==> {
            &&& q.filter is Some <==> expr is Some
            &&& q.use_filter_optimization <==> q.filter is Some && forall|i: usize|
                #[trigger] is_read_by(q.filter->Some_0, i as int) ==> is_in_key(
                    schema.columns[i as int],
                    schema.primary_key,
                )
        },
{
    if let Ok(q) = table_scan::table_query(columns, expr, orders, schema, readings) {
        if let Some(f) = q.filter {
            lemma_all_in_key(f, schema.columns, schema.primary_key);
        }
    }
}

/// Whether a granule is told of with the rows that its filter lets pass: a row for each of the granule, seen in the
/// columns of the table.
pub open spec fn is_masked(f: PreparedFilterView, g: MarkedGranule, granularity: usize, out: GranuleView) -> bool {
    &&& g.columns is Ok
    &&& out.granule_idx == g.mark_idx
    &&& exists|rows: usize| #[trigger]
        has_rows(g, granularity, rows) && out.mask == compiled_filter::mask_of(
            f.filter,
            filter::table_values(f.mapping, g.columns->Ok_0@, rows as nat),
        )
}

/// Whether a granule has so many rows: those of the first column that was read; where none was, a full granule's in the
/// middle of a part, and as many as were counted at its end.
pub open spec fn has_rows(g: MarkedGranule, granularity: usize, rows: usize) -> bool {
    let columns = g.columns->Ok_0@;
    ||| exists|i: int| #[trigger] is_first_read(columns, i) && rows == columns[i]->Some_0@.len() as usize
    ||| (forall|i: int| 0 <= i < columns.len() ==> (#[trigger] columns[i]) is None) && rows == (match g.place {
        GranulePlace::Last(Ok(counted)) => counted,
        _ => granularity,
    })
}

/// Whether a column of a granule is the first that was read.
pub open spec fn is_first_read(columns: Seq<Option<Vec<Value>>>, i: int) -> bool {
    &&& 0 <= i < columns.len()
    &&& columns[i] is Some
    &&& forall|j: int| 0 <= j < i ==> (#[trigger] columns[j]) is None
}

proof fn lemma_first_read(columns: Seq<Option<Vec<Value>>>, i: int)
    requires
        0 <= i <= columns.len(),
        forall|j: int| 0 <= j < i ==> (#[trigger] columns[j]) is None,
    ensures
        match scan::granule_rows(scan::option_views(columns), i) {
            Some(n) => exists|k: int| #[trigger] is_first_read(columns, k) && columns[k]->Some_0@.len() == n,
            None => forall|j: int| 0 <= j < columns.len() ==> (#[trigger] columns[j]) is None,
        },
    decreases columns.len() - i,
{
    if i < columns.len() {
        assert(scan::option_views(columns)[i] == scan::option_view(columns[i]));
        match columns[i] {
            Some(_) => {
                assert(is_first_read(columns, i));
            },
            None => lemma_first_read(columns, i + 1),
        }
    }
}

/// The granules of a part are filtered one after the other until there are as many rows as are needed, and no further.
pub proof fn lemma_granules_are_filtered_until_there_is_enough(
    f: PreparedFilterView,
    granules: Seq<MarkedGranule>,
    granularity: usize,
    needed: usize,
    accepted: usize,
)
    ensures
        filter::masked_from(f, granules, granularity, needed, 0, seq![], accepted) matches Ok((found, rows)) ==> {
            &&& found.len() <= granules.len()
            &&& forall|k: int|
                0 <= k < found.len() ==> is_masked(f, granules[k], granularity, #[trigger] found[k])
            &&& found.len() < granules.len() ==> rows >= needed
            &&& rows >= accepted
            &&& accepted >= needed ==> found.len() == 0 && rows == accepted
        },
{
    lemma_masked(f, granules, granularity, needed, 0, seq![], accepted);
}

proof fn lemma_masked(
    f: PreparedFilterView,
    granules: Seq<MarkedGranule>,
    granularity: usize,
    needed: usize,
    i: int,
    found: Seq<GranuleView>,
    accepted: usize,
)
    requires
        0 <= i == found.len() <= granules.len(),
        forall|k: int| 0 <= k < i ==> is_masked(f, granules[k], granularity, #[trigger] found[k]),
    ensures
        filter::masked_from(f, granules, granularity, needed, i, found, accepted) matches Ok((all, rows)) ==> {
            &&& i <= all.len() <= granules.len()
            &&& forall|k: int| 0 <= k < all.len() ==> is_masked(f, granules[k], granularity, #[trigger] all[k])
            &&& all.len() < granules.len() ==> rows >= needed
            &&& rows >= accepted
            &&& accepted >= needed ==> all == found && rows == accepted
        },
    decreases granules.len() - i,
{
    if i < granules.len() && accepted < needed {
        let g = granules[i];
        if let Ok(columns) = g.columns {
            let read = scan::granule_rows(scan::option_views(columns@), 0);
            lemma_first_read(columns@, 0);
            if let Ok(rows) = scan::rows_in(read, g.place, granularity) {
                assert(has_rows(g, granularity, rows));
                let out = GranuleView {
                    granule_idx: g.mark_idx,
                    mask: compiled_filter::mask_of(
                        f.filter,
                        filter::table_values(f.mapping, columns@, rows as nat),
                    ),
                };
                assert(is_masked(f, g, granularity, out));
                lemma_masked(
                    f,
                    granules,
                    granularity,
                    needed,
                    i + 1,
                    found.push(out),
                    scan::accepted_after(accepted, rows),
                );
            }
        }
    }
}

/// Of a column that a filter does not read, or that a part does not have, its filter sees a NULL in every row; of any
/// other, the values that were read for it.
pub proof fn lemma_filter_sees_null_for_what_is_not_there(
    mapping: Seq<Option<usize>>,
    columns: Seq<Option<Vec<Value>>>,
    rows: nat,
    c: int,
)
    requires
        0 <= c < mapping.len(),
    ensures
        ({
            let seen = filter::table_values(mapping, columns, rows);
            let is_there = mapping[c] is Some && mapping[c]->Some_0 < columns.len()
                && columns[mapping[c]->Some_0 as int] is Some;
            &&& seen.len() == mapping.len()
            &&& is_there ==> seen[c] == columns[mapping[c]->Some_0 as int]->Some_0@
            &&& !is_there ==> seen[c].len() == rows && forall|r: int| 0 <= r < rows ==> #[trigger] seen[c][r] == Value::Null
        }),
{
}

} // verus!
