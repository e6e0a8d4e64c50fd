//! What the functions and the groups of a query answer, said of the rows that it reads.
use vstd::prelude::*;

use crate::engines::sorting_laws;
use crate::error::ErrorView;
use crate::search;
use crate::sql::execution::select;
use crate::sql::execution::select::aggregator;
use crate::sql::execution::select::aggregator::{
    AggregatorFormat, FoldKind, FormatView, GroupView, RawColumnView, RawData, RawDataView,
};
use crate::sql::execution::select::ScanView;
use crate::sql::logical_plan::plan::{AggregateFunction, AggregateProjection};
use crate::sql::physical_plan::ClausesView;
use crate::sql::projection::Projection;
use crate::storage::column::{ColumnDef, OutputColumnView};
use crate::storage::numbers::NumberReading;
use crate::storage::value;
use crate::storage::value::Value;
use crate::storage::value_laws;

verus! {

/// Whether a value is a number.
pub open spec fn is_number(v: Value) -> bool {
    ||| v is Int8
    ||| v is Int16
    ||| v is Int32
    ||| v is Int64
    ||| v is UInt8
    ||| v is UInt16
    ||| v is UInt32
    ||| v is UInt64
    ||| v is F32
    ||| v is F64
}

/// Whether a way to make one number of many is that of a function.
pub open spec fn is_kind_of(f: AggregateFunction, kind: FoldKind) -> bool {
    match kind {
        FoldKind::Sum => f is Sum,
        FoldKind::Min => f is Min,
        FoldKind::Max => f is Max,
        FoldKind::Avg => f is Avg,
    }
}

/// Whether a cell is what a function makes of a list of values: their number for a count, else what the
/// function makes of all of them, in their order, or NULL where there are none.
pub open spec fn is_applied<F: Fn(FoldKind, &Vec<Value>) -> u64>(
    fold: F,
    f: AggregateFunction,
    values: Seq<Value>,
    cell: Value,
) -> bool {
    if f is Count {
        cell is UInt64 && cell->UInt64_0 == values.len()
    } else if values.len() == 0 {
        cell is Null
    } else {
        cell is F64 && exists|kind: FoldKind, list: Vec<Value>|
            is_kind_of(f, kind) && list@ == values && #[trigger] call_ensures(fold, (kind, &list), cell->F64_0)
    }
}

/// Whether a function can be applied to a list of values: a count to any, the others to numbers alone.
pub open spec fn can_be_applied(f: AggregateFunction, values: Seq<Value>) -> bool {
    f is Count || forall|i: int| 0 <= i < values.len() ==> is_number(#[trigger] values[i])
}

/// Whether what was collected are given values, for a function.
spec fn is_collected(f: AggregateFunction, data: RawDataView, values: Seq<Value>) -> bool {
    match data {
        RawDataView::Fold(kind, held) => is_kind_of(f, kind) && held == values,
        RawDataView::Count(count) => f is Count && count == values.len(),
        RawDataView::Values(_) => false,
    }
}

proof fn lemma_collects(f: AggregateFunction, data: RawDataView, held: Seq<Value>, v: Value)
    requires
        is_collected(f, data, held),
        held.len() < usize::MAX,
    ensures
        aggregator::value_added(data, v) matches Ok(next) ==> is_collected(f, next, held.push(v)),
        aggregator::value_added(data, v) is Ok <==> f is Count || is_number(v),
{
}

proof fn lemma_collects_all(f: AggregateFunction, data: RawDataView, held: Seq<Value>, values: Seq<Value>, i: int)
    requires
        0 <= i <= values.len(),
        is_collected(f, data, held),
        held.len() + values.len() - i <= usize::MAX,
    ensures
        aggregator::values_added(data, values, i) matches Ok(next) ==> is_collected(f, next, held + values.skip(i)),
        aggregator::values_added(data, values, i) is Ok <==> f is Count || (forall|k: int|
            i <= k < values.len() ==> is_number(#[trigger] values[k])),
    decreases values.len() - i,
{
    if i < values.len() {
        lemma_collects(f, data, held, values[i]);
        if let Ok(next) = aggregator::value_added(data, values[i]) {
            lemma_collects_all(f, next, held.push(values[i]), values, i + 1);
            assert(held.push(values[i]) + values.skip(i + 1) =~= held + values.skip(i));
        }
    } else {
        assert(held + values.skip(i) =~= held);
    }
}

proof fn lemma_columns_collect(
    aggregates: Seq<AggregateProjection>,
    columns: Seq<RawColumnView>,
    chunk: Seq<Seq<Value>>,
    c: int,
    n: nat,
)
    requires
        columns.len() == aggregates.len(),
        chunk.len() == aggregates.len(),
        0 <= c <= columns.len(),
        n <= usize::MAX,
        forall|k: int| 0 <= k < chunk.len() ==> (#[trigger] chunk[k]).len() == n,
        forall|k: int|
            0 <= k < columns.len() ==> is_collected(
                aggregates[k].source,
                (#[trigger] columns[k]).data,
                if k < c {
                    chunk[k]
                } else {
                    seq![]
                },
            ) && columns[k].alias == aggregates[k].alias,
    ensures
        aggregator::columns_appended(columns, chunk, c) matches Ok(out) ==> out.len() == columns.len() && forall|k: int|
            0 <= k < out.len() ==> is_collected(aggregates[k].source, (#[trigger] out[k]).data, chunk[k])
                && out[k].alias == aggregates[k].alias,
        aggregator::columns_appended(columns, chunk, c) is Ok <==> forall|k: int|
            c <= k < chunk.len() ==> can_be_applied(aggregates[k].source, #[trigger] chunk[k]),
    decreases columns.len() - c,
{
    if c < columns.len() {
        let f = aggregates[c].source;
        assert(is_collected(f, columns[c].data, seq![]));
        lemma_collects_all(f, columns[c].data, seq![], chunk[c], 0);
        assert(Seq::<Value>::empty() + chunk[c].skip(0) =~= chunk[c]);
        if let Ok(data) = aggregator::values_added(columns[c].data, chunk[c], 0) {
            assert(can_be_applied(f, chunk[c]));
            let next = columns.update(
                c,
                RawColumnView { alias: columns[c].alias, proj: columns[c].proj, data },
            );
            assert forall|k: int| 0 <= k < next.len() implies is_collected(
                aggregates[k].source,
                (#[trigger] next[k]).data,
                if k < c + 1 {
                    chunk[k]
                } else {
                    seq![]
                },
            ) && next[k].alias == aggregates[k].alias by {
                if k != c {
                    assert(next[k] == columns[k]);
                }
            }
            lemma_columns_collect(aggregates, next, chunk, c + 1, n);
        } else {
            assert(!can_be_applied(aggregates[c].source, chunk[c]));
        }
    }
}

proof fn lemma_cell<F: Fn(FoldKind, &Vec<Value>) -> u64>(
    fold: F,
    f: AggregateFunction,
    data: RawData,
    values: Seq<Value>,
    cell: Value,
)
    requires
        is_collected(f, data@, values),
        aggregator::is_cell(fold, data, cell),
    ensures
        is_applied(fold, f, values, cell),
{
    if let RawData::Fold(kind, list) = data {
        if list@.len() > 0 {
            assert(call_ensures(fold, (kind, &list), cell->F64_0));
        }
    }
}

/// Without groups each function is applied to all rows: the query answers one row, with a cell for each
/// function under its alias, made of all values that its column has, in their order. It is refused exactly
/// where a function other than a count meets a value that is no number.
pub proof fn lemma_functions_are_applied_to_all_rows<F: Fn(FoldKind, &Vec<Value>) -> u64>(
    fold: F,
    aggregates: Seq<AggregateProjection>,
    chunk: Seq<Seq<Value>>,
    n: nat,
    format: AggregatorFormat,
    readings: Seq<NumberReading>,
    out: Seq<OutputColumnView>,
)
    requires
        0 < n <= usize::MAX,
        aggregates.len() > 0,
        chunk.len() == aggregates.len(),
        forall|k: int| 0 <= k < chunk.len() ==> (#[trigger] chunk[k]).len() == n,
    ensures
        aggregator::chunk_appended(aggregator::empty_format(seq![], aggregates, seq![]), chunk) is Ok <==> forall|k: int|
            0 <= k < chunk.len() ==> can_be_applied(aggregates[k].source, #[trigger] chunk[k]),
        aggregator::chunk_appended(aggregator::empty_format(seq![], aggregates, seq![]), chunk) == Ok::<
            FormatView,
            ErrorView,
        >(format@) && aggregator::is_result(fold, format, readings, out) ==> out.len() == aggregates.len() && forall|
            k: int,
        |
            0 <= k < out.len() ==> {
                &&& (#[trigger] out[k]).data.len() == 1
                &&& is_applied(fold, aggregates[k].source, chunk[k], out[k].data[0])
                &&& out[k].proj.alias == aggregates[k].alias
            },
{
    let columns = aggregates.map_values(|p: AggregateProjection| aggregator::function_column(p));
    lemma_columns_collect(aggregates, columns, chunk, 0, n);
    if aggregator::chunk_appended(aggregator::empty_format(seq![], aggregates, seq![]), chunk) == Ok::<
        FormatView,
        ErrorView,
    >(format@) && aggregator::is_result(fold, format, readings, out) {
        let raw = format->Simple_0@;
        let got = aggregator::columns_appended(columns, chunk, 0)->Ok_0;
        assert(aggregator::raw_views(raw) == got);
        assert forall|k: int| 0 <= k < out.len() implies {
            &&& (#[trigger] out[k]).data.len() == 1
            &&& is_applied(fold, aggregates[k].source, chunk[k], out[k].data[0])
            &&& out[k].proj.alias == aggregates[k].alias
        } by {
            assert(aggregator::raw_views(raw)[k] == raw[k]@);
            assert(got[k] == raw[k]@);
            assert(aggregator::is_finished(fold, raw[k], readings, out[k]));
            lemma_cell(fold, aggregates[k].source, raw[k].data, chunk[k], out[k].data[0]);
        }
    }
}

/// A query that only shows columns collects the values of each of them as they come.
pub proof fn lemma_shown_columns_are_collected<F: Fn(FoldKind, &Vec<Value>) -> u64>(
    fold: F,
    projections: Seq<Projection>,
    aggregates: Seq<AggregateProjection>,
    chunk: Seq<Seq<Value>>,
    n: nat,
    format: AggregatorFormat,
    readings: Seq<NumberReading>,
    out: Seq<OutputColumnView>,
)
    requires
        n > 0,
        projections.len() > 0,
        chunk.len() == projections.len(),
        forall|k: int| 0 <= k < chunk.len() ==> (#[trigger] chunk[k]).len() == n,
        aggregator::chunk_appended(aggregator::empty_format(projections, aggregates, seq![]), chunk) == Ok::<
            FormatView,
            ErrorView,
        >(format@),
        aggregator::is_result(fold, format, readings, out),
    ensures
        out.len() == projections.len(),
        forall|k: int|
            0 <= k < out.len() ==> (#[trigger] out[k]).data == chunk[k] && out[k].proj.source == projections[k].source,
{
    let columns = projections.map_values(|p: Projection| aggregator::values_column(p));
    lemma_values_collect(projections, columns, chunk, 0);
    let raw = format->Simple_0@;
    let got = aggregator::columns_appended(columns, chunk, 0)->Ok_0;
    assert(aggregator::raw_views(raw) == got);
    assert forall|k: int| 0 <= k < out.len() implies (#[trigger] out[k]).data == chunk[k] && out[k].proj.source
        == projections[k].source by {
        assert(aggregator::raw_views(raw)[k] == raw[k]@);
        assert(got[k] == raw[k]@);
        assert(aggregator::is_finished(fold, raw[k], readings, out[k]));
    }
}

proof fn lemma_values_collect(
    projections: Seq<Projection>,
    columns: Seq<RawColumnView>,
    chunk: Seq<Seq<Value>>,
    c: int,
)
    requires
        columns.len() == projections.len(),
        chunk.len() == projections.len(),
        0 <= c <= columns.len(),
        forall|k: int|
            0 <= k < columns.len() ==> (#[trigger] columns[k]).proj == projections[k] && columns[k].data
                == RawDataView::Values(
                if k < c {
                    chunk[k]
                } else {
                    seq![]
                },
            ),
    ensures
        aggregator::columns_appended(columns, chunk, c) matches Ok(out) ==> out.len() == columns.len() && forall|k: int|
            0 <= k < out.len() ==> (#[trigger] out[k]).proj == projections[k] && out[k].data == RawDataView::Values(
                chunk[k],
            ),
    decreases columns.len() - c,
{
    if c < columns.len() {
        aggregator::lemma_values_are_collected(seq![], chunk[c], 0);
        assert(Seq::<Value>::empty() + chunk[c].skip(0) =~= chunk[c]);
        assert(columns[c].data == RawDataView::Values(seq![]));
        let data = RawDataView::Values(chunk[c]);
        let next = columns.update(c, RawColumnView { alias: columns[c].alias, proj: columns[c].proj, data });
        assert forall|k: int| 0 <= k < next.len() implies (#[trigger] next[k]).proj == projections[k]
            && next[k].data == RawDataView::Values(
            if k < c + 1 {
                chunk[k]
            } else {
                seq![]
            },
        ) by {
            if k != c {
                assert(next[k] == columns[k]);
            }
        }
        lemma_values_collect(projections, next, chunk, c + 1);
    }
}

/// Whether two keys hold the same, value by value.
pub open spec fn are_same(a: Seq<Value>, b: Seq<Value>) -> bool {
    a.len() == b.len() && forall|i: int| 0 <= i < a.len() ==> value_laws::is_same(#[trigger] a[i], b[i])
}

/// The values that a row has in the first columns of a chunk.
pub open spec fn key_at(chunk: Seq<Seq<Value>>, keys: nat, row: int) -> Seq<Value> {
    Seq::new(keys, |k: int| chunk[k][row])
}

/// Of the first `n` rows, the values that a column has in those with a key, in their order.
pub open spec fn values_with_key(
    chunk: Seq<Seq<Value>>,
    keys: nat,
    column: int,
    key: Seq<Value>,
    n: int,
) -> Seq<Value>
    decreases n,
{
    if n <= 0 {
        seq![]
    } else if are_same(key, key_at(chunk, keys, n - 1)) {
        values_with_key(chunk, keys, column, key, n - 1).push(chunk[column][n - 1])
    } else {
        values_with_key(chunk, keys, column, key, n - 1)
    }
}

/// Whether rows are the first ones of the groups of the first `n` rows: they come in order, no two of them
/// have one key, and every row has the key of one of them that does not stand behind it.
pub open spec fn are_first_rows(chunk: Seq<Seq<Value>>, keys: nat, n: int, first: Seq<int>) -> bool {
    &&& forall|g: int| 0 <= g < first.len() ==> 0 <= #[trigger] first[g] < n
    &&& forall|g: int, h: int|
        0 <= g < h < first.len() ==> #[trigger] first[g] < #[trigger] first[h] && !are_same(
            key_at(chunk, keys, first[g]),
            key_at(chunk, keys, first[h]),
        )
    &&& forall|row: int| 0 <= row < n ==> #[trigger] has_first_row(chunk, keys, first, row)
}

/// Whether a row has the key of one of the given rows that does not stand behind it.
pub open spec fn has_first_row(chunk: Seq<Seq<Value>>, keys: nat, first: Seq<int>, row: int) -> bool {
    exists|g: int|
        0 <= g < first.len() && #[trigger] first[g] <= row && are_same(
            key_at(chunk, keys, first[g]),
            key_at(chunk, keys, row),
        )
}

proof fn lemma_same_keys(a: Seq<Value>, b: Seq<Value>)
    ensures
        aggregator::keys_eq(a, b) <==> are_same(a, b),
{
    assert forall|i: int| 0 <= i < a.len() implies (value::value_eq(#[trigger] a[i], b[i]) <==> value_laws::is_same(
        a[i],
        b[i],
    )) by {
        value_laws::lemma_values_are_ordered_by_what_they_hold(a[i], b[i]);
    }
}

proof fn lemma_same_is_shared(a: Seq<Value>, b: Seq<Value>, c: Seq<Value>)
    requires
        are_same(a, b),
    ensures
        are_same(b, a),
        are_same(b, c) ==> are_same(a, c),
{
    assert forall|i: int| 0 <= i < b.len() implies value_laws::is_same(#[trigger] b[i], a[i]) by {
        assert(value_laws::is_same(a[i], b[i]));
    }
    if are_same(b, c) {
        assert forall|i: int| 0 <= i < a.len() implies value_laws::is_same(#[trigger] a[i], c[i]) by {
            assert(value_laws::is_same(b[i], c[i]));
        }
    }
}

/// Whether groups are those of the first `n` rows.
spec fn are_groups(
    groups: Seq<GroupView>,
    aggregates: Seq<AggregateProjection>,
    chunk: Seq<Seq<Value>>,
    keys: nat,
    n: int,
    first: Seq<int>,
) -> bool {
    &&& groups.len() == first.len()
    &&& are_first_rows(chunk, keys, n, first)
    &&& forall|g: int|
        0 <= g < groups.len() ==> (#[trigger] groups[g]).key == key_at(chunk, keys, first[g])
            && groups[g].data.len() == aggregates.len()
    &&& forall|g: int, a: int|
        0 <= g < groups.len() && 0 <= a < aggregates.len() ==> is_collected(
            aggregates[a].source,
            #[trigger] groups[g].data[a],
            values_with_key(chunk, keys, keys + a, groups[g].key, n),
        )
}

/// Whether groups are those of the first `n` rows, by some list of first rows.
spec fn are_some_groups(
    groups: Seq<GroupView>,
    aggregates: Seq<AggregateProjection>,
    chunk: Seq<Seq<Value>>,
    keys: nat,
    n: int,
) -> bool {
    exists|first: Seq<int>| #[trigger] are_groups(groups, aggregates, chunk, keys, n, first)
}

proof fn lemma_row_collects(
    aggregates: Seq<AggregateProjection>,
    data: Seq<RawDataView>,
    held: Seq<Seq<Value>>,
    chunk: Seq<Seq<Value>>,
    keys: nat,
    row: int,
    a: int,
)
    requires
        0 <= a <= data.len(),
        data.len() == aggregates.len(),
        held.len() == aggregates.len(),
        forall|k: int| 0 <= k < held.len() ==> (#[trigger] held[k]).len() < usize::MAX,
        forall|k: int|
            0 <= k < data.len() ==> is_collected(
                aggregates[k].source,
                #[trigger] data[k],
                if k < a {
                    held[k].push(chunk[keys + k][row])
                } else {
                    held[k]
                },
            ),
    ensures
        aggregator::row_added(data, chunk, keys, row, a) matches Ok(out) ==> out.len() == data.len() && forall|k: int|
            0 <= k < out.len() ==> is_collected(
                aggregates[k].source,
                #[trigger] out[k],
                held[k].push(chunk[keys + k][row]),
            ),
    decreases data.len() - a,
{
    if a < data.len() {
        assert(is_collected(aggregates[a].source, data[a], held[a]));
        lemma_collects(aggregates[a].source, data[a], held[a], chunk[keys + a][row]);
        if let Ok(d) = aggregator::value_added(data[a], chunk[keys + a][row]) {
            let next = data.update(a, d);
            assert forall|k: int| 0 <= k < next.len() implies is_collected(
                aggregates[k].source,
                #[trigger] next[k],
                if k < a + 1 {
                    held[k].push(chunk[keys + k][row])
                } else {
                    held[k]
                },
            ) by {
                if k != a {
                    assert(next[k] == data[k]);
                }
            }
            lemma_row_collects(aggregates, next, held, chunk, keys, row, a + 1);
        }
    }
}

proof fn lemma_no_more_than_rows(chunk: Seq<Seq<Value>>, keys: nat, column: int, key: Seq<Value>, n: int)
    requires
        0 <= n,
    ensures
        values_with_key(chunk, keys, column, key, n).len() <= n,
    decreases n,
{
    if n > 0 {
        lemma_no_more_than_rows(chunk, keys, column, key, n - 1);
    }
}

proof fn lemma_no_values(chunk: Seq<Seq<Value>>, keys: nat, column: int, key: Seq<Value>, n: int)
    requires
        forall|row: int| 0 <= row < n ==> !are_same(key, #[trigger] key_at(chunk, keys, row)),
    ensures
        values_with_key(chunk, keys, column, key, n) == Seq::<Value>::empty(),
    decreases n,
{
    if n > 0 {
        assert(!are_same(key, key_at(chunk, keys, n - 1)));
        lemma_no_values(chunk, keys, column, key, n - 1);
    }
}

/// The groups with one for a key.
proof fn lemma_group_found(
    groups: Seq<GroupView>,
    aggregates: Seq<AggregateProjection>,
    columns: Seq<RawColumnView>,
    chunk: Seq<Seq<Value>>,
    keys: nat,
    row: int,
    first: Seq<int>,
) -> (r: Seq<int>)
    requires
        0 <= row < usize::MAX,
        columns.len() == aggregates.len(),
        forall|k: int|
            0 <= k < columns.len() ==> is_collected(aggregates[k].source, (#[trigger] columns[k]).data, seq![]),
        are_groups(groups, aggregates, chunk, keys, row, first),
        are_same(key_at(chunk, keys, row), key_at(chunk, keys, row)),
    ensures
        ({
            let key = aggregator::row_key(chunk, keys, row);
            let all = aggregator::with_group(groups, key, columns);
            let at = aggregator::group_position(groups, key);
            &&& 0 <= at < all.len()
            &&& all.len() == r.len()
            &&& are_first_rows(chunk, keys, row + 1, r)
            &&& are_same(all[at].key, key)
            &&& forall|g: int|
                0 <= g < all.len() ==> (#[trigger] all[g]).key == key_at(chunk, keys, r[g])
                    && all[g].data.len() == aggregates.len()
            &&& forall|g: int, a: int|
                0 <= g < all.len() && 0 <= a < aggregates.len() ==> is_collected(
                    aggregates[a].source,
                    #[trigger] all[g].data[a],
                    values_with_key(chunk, keys, keys + a, all[g].key, row),
                )
            &&& forall|g: int| 0 <= g < all.len() && g != at ==> !are_same((#[trigger] all[g]).key, key)
        }),
{
    let key = aggregator::row_key(chunk, keys, row);
    assert(key =~= key_at(chunk, keys, row));
    let f = aggregator::has_key(key);
    search::lemma_position(groups, f);
    match search::position(groups, f) {
        Some(i) => {
            assert(f(groups[i]));
            lemma_same_keys(groups[i].key, key);
            assert forall|g: int| 0 <= g < groups.len() && g != i implies !are_same((#[trigger] groups[g]).key, key) by {
                if are_same(groups[g].key, key) {
                    lemma_same_is_shared(groups[i].key, key, groups[g].key);
                    lemma_same_is_shared(groups[g].key, key, groups[i].key);
                    assert(first[i] < first[g] || first[g] < first[i]);
                    if i < g {
                        assert(!are_same(key_at(chunk, keys, first[i]), key_at(chunk, keys, first[g])));
                    } else {
                        assert(!are_same(key_at(chunk, keys, first[g]), key_at(chunk, keys, first[i])));
                    }
                }
            }
            assert forall|r: int| 0 <= r < row + 1 implies #[trigger] has_first_row(chunk, keys, first, r) by {
                if r == row {
                    assert(first[i] <= row);
                }
            }
            first
        },
        None => {
            let all = aggregator::with_group(groups, key, columns);
            let new = groups.len() as int;
            let more = first.push(row);
            assert forall|g: int| 0 <= g < groups.len() implies !are_same((#[trigger] groups[g]).key, key) by {
                assert(!f(groups[g]));
                lemma_same_keys(groups[g].key, key);
            }
            assert forall|r: int| 0 <= r < row implies !are_same(key, #[trigger] key_at(chunk, keys, r)) by {
                if are_same(key, key_at(chunk, keys, r)) {
                    assert(has_first_row(chunk, keys, first, r));
                    let g = choose|g: int|
                        0 <= g < first.len() && #[trigger] first[g] <= r && are_same(
                            key_at(chunk, keys, first[g]),
                            key_at(chunk, keys, r),
                        );
                    lemma_same_is_shared(key, key_at(chunk, keys, r), key);
                    lemma_same_is_shared(key_at(chunk, keys, first[g]), key_at(chunk, keys, r), key);
                    assert(!are_same(groups[g].key, key));
                }
            }
            assert forall|g: int, h: int| 0 <= g < h < more.len() implies #[trigger] more[g] < #[trigger] more[h]
                && !are_same(key_at(chunk, keys, more[g]), key_at(chunk, keys, more[h])) by {
                assert(more[g] == first[g]);
                if h < new {
                    assert(more[h] == first[h]);
                } else {
                    assert(!are_same(groups[g].key, key));
                }
            }
            assert forall|r: int| 0 <= r < row + 1 implies #[trigger] has_first_row(chunk, keys, more, r) by {
                if r < row {
                    assert(has_first_row(chunk, keys, first, r));
                    let g = choose|g: int|
                        0 <= g < first.len() && #[trigger] first[g] <= r && are_same(
                            key_at(chunk, keys, first[g]),
                            key_at(chunk, keys, r),
                        );
                    assert(more[g] == first[g]);
                } else {
                    assert(more[new] == row);
                }
            }
            assert forall|g: int| 0 <= g < more.len() implies 0 <= #[trigger] more[g] < row + 1 by {
                if g < new {
                    assert(more[g] == first[g]);
                }
            }
            assert forall|g: int| 0 <= g < all.len() implies (#[trigger] all[g]).key == key_at(chunk, keys, more[g])
                && all[g].data.len() == aggregates.len() by {
                if g < new {
                    assert(all[g] == groups[g]);
                }
            }
            assert forall|g: int, a: int| 0 <= g < all.len() && 0 <= a < aggregates.len() implies is_collected(
                aggregates[a].source,
                #[trigger] all[g].data[a],
                values_with_key(chunk, keys, keys + a, all[g].key, row),
            ) by {
                if g < new {
                    assert(all[g] == groups[g]);
                    assert(is_collected(
                        aggregates[a].source,
                        groups[g].data[a],
                        values_with_key(chunk, keys, keys + a, groups[g].key, row),
                    ));
                } else {
                    lemma_no_values(chunk, keys, keys + a, key, row);
                    assert(is_collected(aggregates[a].source, columns[a].data, seq![]));
                }
            }
            more
        },
    }
}

#[verifier::rlimit(30)]
proof fn lemma_rows_are_grouped(
    groups: Seq<GroupView>,
    aggregates: Seq<AggregateProjection>,
    columns: Seq<RawColumnView>,
    chunk: Seq<Seq<Value>>,
    keys: nat,
    row: int,
    first: Seq<int>,
)
    requires
        0 <= row <= aggregator::chunk_rows(chunk) <= usize::MAX,
        columns.len() == aggregates.len(),
        forall|k: int|
            0 <= k < columns.len() ==> is_collected(aggregates[k].source, (#[trigger] columns[k]).data, seq![]),
        are_groups(groups, aggregates, chunk, keys, row, first),
        forall|r: int|
            0 <= r < aggregator::chunk_rows(chunk) ==> are_same(
                #[trigger] key_at(chunk, keys, r),
                key_at(chunk, keys, r),
            ),
    ensures
        aggregator::rows_added(groups, columns, chunk, keys, row) matches Ok(out) ==> are_some_groups(
            out,
            aggregates,
            chunk,
            keys,
            aggregator::chunk_rows(chunk) as int,
        ),
    decreases aggregator::chunk_rows(chunk) - row,
{
    if row < aggregator::chunk_rows(chunk) {
        let key = aggregator::row_key(chunk, keys, row);
        let all = aggregator::with_group(groups, key, columns);
        let at = aggregator::group_position(groups, key);
        assert(are_same(key_at(chunk, keys, row), key_at(chunk, keys, row)));
        assert(key =~= key_at(chunk, keys, row));
        let more = lemma_group_found(groups, aggregates, columns, chunk, keys, row, first);
        let held = Seq::new(
            aggregates.len(),
            |a: int| values_with_key(chunk, keys, keys + a, all[at].key, row),
        );
        assert forall|k: int| 0 <= k < held.len() implies (#[trigger] held[k]).len() < usize::MAX by {
            lemma_no_more_than_rows(chunk, keys, keys + k, all[at].key, row);
        }
        assert forall|k: int| 0 <= k < all[at].data.len() implies is_collected(
            aggregates[k].source,
            #[trigger] all[at].data[k],
            held[k],
        ) by {}
        lemma_row_collects(aggregates, all[at].data, held, chunk, keys, row, 0);
        if let Ok(data) = aggregator::row_added(all[at].data, chunk, keys, row, 0) {
            let next = all.update(at, GroupView { key: all[at].key, data });
            assert forall|g: int, a: int| 0 <= g < next.len() && 0 <= a < aggregates.len() implies is_collected(
                aggregates[a].source,
                #[trigger] next[g].data[a],
                values_with_key(chunk, keys, keys + a, next[g].key, row + 1),
            ) by {
                if g == at {
                    assert(is_collected(aggregates[a].source, data[a], held[a].push(chunk[keys + a][row])));
                } else {
                    assert(next[g] == all[g]);
                    assert(!are_same(all[g].key, key));
                    assert(is_collected(
                        aggregates[a].source,
                        all[g].data[a],
                        values_with_key(chunk, keys, keys + a, all[g].key, row),
                    ));
                }
            }
            assert forall|g: int| 0 <= g < next.len() implies (#[trigger] next[g]).key == key_at(
                chunk,
                keys,
                more[g],
            ) && next[g].data.len() == aggregates.len() by {
                assert(all[g].key == key_at(chunk, keys, more[g]));
            }
            assert(are_groups(next, aggregates, chunk, keys, row + 1, more));
            lemma_rows_are_grouped(next, aggregates, columns, chunk, keys, row + 1, more);
            assert(aggregator::rows_added(groups, columns, chunk, keys, row) == aggregator::rows_added(
                next,
                columns,
                chunk,
                keys,
                row + 1,
            ));
        }
    } else {
        assert(are_groups(groups, aggregates, chunk, keys, aggregator::chunk_rows(chunk) as int, first));
    }
}

/// Whether a result has one row for each group of rows: the values that its rows share in the columns that are
/// grouped by, and of each function what it makes of the values of those rows, in their order.
pub open spec fn is_grouped_result<F: Fn(FoldKind, &Vec<Value>) -> u64>(
    fold: F,
    aggregates: Seq<AggregateProjection>,
    chunk: Seq<Seq<Value>>,
    keys: nat,
    n: int,
    first: Seq<int>,
    out: Seq<OutputColumnView>,
) -> bool {
    &&& are_first_rows(chunk, keys, n, first)
    &&& out.len() == keys + aggregates.len()
    &&& forall|i: int| 0 <= i < out.len() ==> (#[trigger] out[i]).data.len() == first.len()
    &&& forall|i: int, g: int|
        0 <= i < keys && 0 <= g < first.len() ==> #[trigger] out[i].data[g] == chunk[i][first[g]]
    &&& forall|a: int, g: int|
        0 <= a < aggregates.len() && 0 <= g < first.len() ==> is_applied(
            fold,
            aggregates[a].source,
            values_with_key(chunk, keys, keys + a, key_at(chunk, keys, first[g]), n),
            #[trigger] out[keys + a].data[g],
        )
}

/// A query with a GROUP BY answers one row for each different key, in the order of their first rows: see
/// [`is_grouped_result`]. Keys with a floating-point value that is no number are left out: such a key is not
/// even the same as itself.
pub proof fn lemma_groups_are_answered<F: Fn(FoldKind, &Vec<Value>) -> u64>(
    fold: F,
    projections: Seq<Projection>,
    aggregates: Seq<AggregateProjection>,
    group_by: Seq<Projection>,
    chunk: Seq<Seq<Value>>,
    n: nat,
    format: AggregatorFormat,
    readings: Seq<NumberReading>,
    out: Seq<OutputColumnView>,
)
    requires
        0 < n <= usize::MAX,
        group_by.len() > 0,
        chunk.len() == group_by.len() + aggregates.len(),
        forall|k: int| 0 <= k < chunk.len() ==> (#[trigger] chunk[k]).len() == n,
        forall|r: int|
            0 <= r < n ==> are_same(#[trigger] key_at(chunk, group_by.len(), r), key_at(chunk, group_by.len(), r)),
        aggregator::chunk_appended(aggregator::empty_format(projections, aggregates, group_by), chunk) == Ok::<
            FormatView,
            ErrorView,
        >(format@),
        aggregator::is_result(fold, format, readings, out),
    ensures
        exists|first: Seq<int>| #[trigger]
            is_grouped_result(fold, aggregates, chunk, group_by.len(), n as int, first, out),
{
    let keys = group_by.len();
    let columns = aggregates.map_values(|p: AggregateProjection| aggregator::function_column(p));
    assert(are_groups(seq![], aggregates, chunk, keys, 0, seq![]));
    lemma_rows_are_grouped(seq![], aggregates, columns, chunk, keys, 0, seq![]);
    let groups = aggregator::rows_added(seq![], columns, chunk, keys, 0)->Ok_0;
    let first = choose|first: Seq<int>| #[trigger] are_groups(groups, aggregates, chunk, keys, n as int, first);
    let raw = format->groups@;
    assert(aggregator::group_views(raw) == groups);
    assert(aggregator::raw_views(format->group_by_cols@).len() == keys);
    assert(aggregator::raw_views(format->aggregate_cols@).len() == aggregates.len());
    assert forall|g: int| 0 <= g < raw.len() implies #[trigger] raw[g]@ == groups[g] by {
        assert(aggregator::group_views(raw)[g] == raw[g]@);
    }
    assert(has_first_row(chunk, keys, first, 0));
    assert(first.len() > 0);
    assert forall|i: int, g: int| 0 <= i < keys && 0 <= g < first.len() implies #[trigger] out[i].data[g]
        == chunk[i][first[g]] by {
        assert(raw[g]@ == groups[g]);
        assert(groups[g].key == key_at(chunk, keys, first[g]));
    }
    assert forall|a: int, g: int| 0 <= a < aggregates.len() && 0 <= g < first.len() implies is_applied(
        fold,
        aggregates[a].source,
        values_with_key(chunk, keys, keys + a, key_at(chunk, keys, first[g]), n as int),
        #[trigger] out[keys + a].data[g],
    ) by {
        let i = keys + a;
        assert(aggregator::is_grouped(fold, format->aggregate_cols@[i - keys], raw, i - keys, readings, out[i]));
        assert(raw[g]@ == groups[g]);
        assert(aggregator::data_views(raw[g].data@)[a] == raw[g].data@[a]@);
        assert(groups[g].data[a] == raw[g].data@[a]@);
        assert(aggregator::is_cell(fold, raw[g].data@[a], out[i].data[g]));
        lemma_cell(
            fold,
            aggregates[a].source,
            raw[g].data@[a],
            values_with_key(chunk, keys, keys + a, groups[g].key, n as int),
            out[i].data[g],
        );
    }
    assert forall|i: int| 0 <= i < out.len() implies (#[trigger] out[i]).data.len() == first.len() by {
        if i >= keys {
            assert(aggregator::is_grouped(fold, format->aggregate_cols@[i - keys], raw, i - keys, readings, out[i]));
        }
    }
    assert(is_grouped_result(fold, aggregates, chunk, keys, n as int, first, out));
}

/// What a function is applied to.
pub open spec fn argument_of(f: AggregateFunction) -> Projection {
    match f {
        AggregateFunction::Min(p) => *p,
        AggregateFunction::Max(p) => *p,
        AggregateFunction::Sum(p) => *p,
        AggregateFunction::Avg(p) => *p,
        AggregateFunction::Count(p) => *p,
    }
}

/// A query with groups reads what it groups by and behind it what its functions are applied to; one without reads
/// what it shows or, where it shows nothing, what its functions are applied to.
pub proof fn lemma_what_is_needed_is_read(
    projections: Seq<Projection>,
    aggregates: Seq<AggregateProjection>,
    group_by: Seq<Projection>,
)
    ensures
        ({
            let read = aggregator::projs_to_read(aggregator::empty_format(projections, aggregates, group_by));
            let keys = group_by.len();
            &&& keys > 0 ==> read.len() == keys + aggregates.len() && (forall|k: int|
                0 <= k < keys ==> #[trigger] read[k] == group_by[k]) && (forall|a: int|
                0 <= a < aggregates.len() ==> read[keys + a] == argument_of((#[trigger] aggregates[a]).source))
            &&& keys == 0 && projections.len() > 0 ==> read == projections
            &&& keys == 0 && projections.len() == 0 ==> read.len() == aggregates.len() && forall|a: int|
                0 <= a < aggregates.len() ==> #[trigger] read[a] == argument_of(aggregates[a].source)
        }),
{
    let read = aggregator::projs_to_read(aggregator::empty_format(projections, aggregates, group_by));
    if group_by.len() == 0 && projections.len() > 0 {
        assert(read =~= projections);
    }
}

/// The name of a function as it is written.
pub open spec fn is_function_name(f: AggregateFunction, name: Seq<char>) -> bool {
    match f {
        AggregateFunction::Min(_) => name == "min"@,
        AggregateFunction::Max(_) => name == "max"@,
        AggregateFunction::Sum(_) => name == "sum"@,
        AggregateFunction::Avg(_) => name == "avg"@,
        AggregateFunction::Count(_) => name == "count"@,
    }
}

/// Whether a column of a result is named after a call: the name of the function and, in brackets, the name of the
/// column that it is applied to.
pub open spec fn is_named_after(proj: Projection, f: AggregateFunction) -> bool {
    &&& proj.source is Value
    &&& proj.source->Value_0 is String
    &&& argument_of(f).alias is None && argument_of(f).source is ColumnDef ==> exists|name: Seq<char>| #[trigger]
        is_function_name(f, name) && proj.source->Value_0->String_0@ == name + "("@
            + argument_of(f).source->ColumnDef_0.name@ + ")"@
}

/// Without groups the columns of functions are named after their calls, with the alias of what a function is applied to
/// where it has one.
pub proof fn lemma_functions_are_named_after_their_calls<F: Fn(FoldKind, &Vec<Value>) -> u64>(
    fold: F,
    aggregates: Seq<AggregateProjection>,
    format: AggregatorFormat,
    readings: Seq<NumberReading>,
    out: Seq<OutputColumnView>,
    k: int,
)
    requires
        aggregator::empty_format(seq![], aggregates, seq![]) == format@,
        aggregator::is_result(fold, format, readings, out),
        0 <= k < aggregates.len(),
    ensures
        out.len() == aggregates.len(),
        is_named_after(out[k].proj, aggregates[k].source),
        out[k].proj.alias == aggregates[k].alias,
        argument_of(aggregates[k].source).alias is Some ==> exists|name: Seq<char>| #[trigger]
            is_function_name(aggregates[k].source, name) && out[k].proj.source->Value_0->String_0@ == name + "("@
                + argument_of(aggregates[k].source).alias->Some_0@ + ")"@,
{
    let columns = aggregates.map_values(|p: AggregateProjection| aggregator::function_column(p));
    let raw = format->Simple_0@;
    assert(aggregator::raw_views(raw) == columns);
    assert(aggregator::raw_views(raw)[k] == raw[k]@);
    assert(columns[k] == aggregator::function_column(aggregates[k]));
    assert(aggregator::is_finished(fold, raw[k], readings, out[k]));
    let f = aggregates[k].source;
    assert(is_function_name(f, aggregator::function_name(raw[k]@.data)));
}

/// A query starts with nothing read and with its own filter, orders, limit and offset. One that groups or sorts needs
/// every row before it can leave any out; any other needs as many as its limit and its offset ask for, or all.
pub proof fn lemma_query_reads_the_rows_it_needs(
    clauses: ClausesView,
    columns: Seq<ColumnDef>,
    total_rows: usize,
    readings: Seq<NumberReading>,
)
    requires
        columns.len() <= usize::MAX,
    ensures
        select::started(clauses, columns, total_rows, readings) matches Ok(scan) ==> {
            let needed = scan.strategy.lines_to_read;
            &&& scan.strategy.lines_read == 0
            &&& scan.filter is Some <==> clauses.filter is Some
            &&& scan.order_by == clauses.order_by
            &&& scan.limit == clauses.limit
            &&& scan.offset == clauses.offset
            &&& clauses.order_by is Some || clauses.group_by.len() > 0 || clauses.limit is None ==> needed == total_rows
            &&& clauses.limit is Some ==> needed >= total_rows || needed >= clauses.limit->Some_0 + clauses.offset
        },
{
}

/// Rows are sorted before any is left out: what a query answers are, of its rows in the order that it asks for, those
/// from the OFFSET on, no more than the LIMIT.
pub proof fn lemma_rows_are_sorted_before_they_are_cut<F: Fn(FoldKind, &Vec<Value>) -> u64>(
    fold: F,
    format: AggregatorFormat,
    readings: Seq<NumberReading>,
    scan: ScanView,
    out: Seq<OutputColumnView>,
)
    requires
        select::finish_owes(fold, format, readings, scan, Ok(out)),
    ensures
        exists|all: Seq<OutputColumnView>, sorted: Seq<OutputColumnView>| #[trigger]
            aggregator::is_result(fold, format, readings, all) && #[trigger] is_ordered(all, scan.order_by, sorted)
                && is_cut(sorted, scan.limit, scan.offset as int, out),
{
    let result = Ok::<Seq<OutputColumnView>, ErrorView>(out);
    let (all, sorted) = choose|all: Seq<OutputColumnView>, sorted: Result<Seq<OutputColumnView>, ErrorView>|
        aggregator::is_result(fold, format, readings, all) && #[trigger] select::ordering_owes(
            all,
            scan.order_by,
            sorted,
        ) && result == (match sorted {
            Ok(cols) => select::cut(cols, scan.limit, scan.offset),
            Err(e) => Err(e),
        });
    let cols = sorted->Ok_0;
    assert(sorted == Ok::<Seq<OutputColumnView>, ErrorView>(cols));
    sorting_laws::lemma_single_order_sorts(all, scan.order_by, cols);
    assert(is_ordered(all, scan.order_by, cols));
    lemma_cut(cols, scan.limit, scan.offset, out);
}

/// Whether columns are others in the order that is asked for: as they stand where none is, sorted by it where it has
/// one item.
pub open spec fn is_ordered(
    all: Seq<OutputColumnView>,
    order_by: Option<Seq<Seq<Projection>>>,
    sorted: Seq<OutputColumnView>,
) -> bool {
    &&& order_by is None ==> sorted == all
    &&& order_by is Some && order_by->Some_0.len() == 1 ==> sorting_laws::is_sorted_by(all, order_by->Some_0[0], sorted)
}

/// Whether columns of one length are others without the first rows, as many as an offset says, and with no more than a
/// limit says of the rest.
pub open spec fn is_cut(
    all: Seq<OutputColumnView>,
    limit: Option<usize>,
    offset: int,
    out: Seq<OutputColumnView>,
) -> bool {
    &&& out.len() == all.len()
    &&& forall|c: int| 0 <= c < all.len() ==> (#[trigger] out[c]).proj == all[c].proj
    &&& (forall|c: int| 0 <= c < all.len() ==> (#[trigger] all[c]).data.len() == all[0].data.len()) ==> forall|c: int|
        0 <= c < all.len() ==> is_window(all[c].data, limit, offset, (#[trigger] out[c]).data)
}

/// Whether values are a window of others.
pub open spec fn is_window(all: Seq<Value>, limit: Option<usize>, offset: int, out: Seq<Value>) -> bool {
    let rest = if offset <= all.len() {
        all.len() - offset
    } else {
        0
    };
    &&& out.len() == (if limit is Some && limit->Some_0 < rest {
        limit->Some_0 as int
    } else {
        rest
    })
    &&& forall|i: int| 0 <= i < out.len() ==> #[trigger] out[i] == all[offset + i]
}

proof fn lemma_cut(all: Seq<OutputColumnView>, limit: Option<usize>, offset: usize, out: Seq<OutputColumnView>)
    requires
        select::cut(all, limit, offset) == Ok::<Seq<OutputColumnView>, ErrorView>(out),
    ensures
        is_cut(all, limit, offset as int, out),
{
    if forall|c: int| 0 <= c < all.len() ==> (#[trigger] all[c]).data.len() == all[0].data.len() {
        assert forall|c: int| 0 <= c < all.len() implies is_window(
            all[c].data,
            limit,
            offset as int,
            (#[trigger] out[c]).data,
        ) by {
            assert(all[c].data.len() == all[0].data.len());
        }
    }
}

/// With groups the columns show first what is grouped by, without any alias, and behind it the functions, named after
/// their calls.
pub proof fn lemma_grouped_columns_are_named<F: Fn(FoldKind, &Vec<Value>) -> u64>(
    fold: F,
    projections: Seq<Projection>,
    aggregates: Seq<AggregateProjection>,
    group_by: Seq<Projection>,
    chunk: Seq<Seq<Value>>,
    format: AggregatorFormat,
    readings: Seq<NumberReading>,
    out: Seq<OutputColumnView>,
)
    requires
        group_by.len() > 0,
        aggregator::chunk_appended(aggregator::empty_format(projections, aggregates, group_by), chunk) == Ok::<
            FormatView,
            ErrorView,
        >(format@),
        aggregator::is_result(fold, format, readings, out),
    ensures
        out.len() == group_by.len() + aggregates.len(),
        forall|k: int|
            0 <= k < group_by.len() ==> (#[trigger] out[k]).proj.source == group_by[k].source && out[k].proj.alias is None,
        forall|a: int|
            0 <= a < aggregates.len() ==> (#[trigger] out[group_by.len() + a]).proj.alias == aggregates[a].alias && (
            out[group_by.len() + a].data.len() > 0 ==> is_named_after(
                out[group_by.len() + a].proj,
                aggregates[a].source,
            )),
{
    let keys = group_by.len();
    let shown = format->group_by_cols@;
    let functions = format->aggregate_cols@;
    assert(aggregator::raw_views(shown).len() == keys);
    assert(aggregator::raw_views(functions).len() == aggregates.len());
    assert forall|k: int| 0 <= k < keys implies (#[trigger] out[k]).proj.source == group_by[k].source
        && out[k].proj.alias is None by {
        assert(aggregator::raw_views(shown)[k] == shown[k]@);
        assert(shown[k]@ == aggregator::values_column(group_by[k]));
    }
    assert forall|a: int| 0 <= a < aggregates.len() implies (#[trigger] out[keys + a]).proj.alias
        == aggregates[a].alias && (out[keys + a].data.len() > 0 ==> is_named_after(
        out[keys + a].proj,
        aggregates[a].source,
    )) by {
        let i = keys + a;
        assert(aggregator::raw_views(functions)[a] == functions[a]@);
        assert(functions[a]@ == aggregator::function_column(aggregates[a]));
        assert(format->groups@.len() > 0 ==> aggregator::is_grouped(
            fold,
            functions[i - keys],
            format->groups@,
            i - keys,
            readings,
            out[i],
        ));
        assert(is_function_name(aggregates[a].source, aggregator::function_name(functions[a]@.data)));
    }
}

/// Every function but count needs numbers: text, UUIDs, booleans and NULL are refused, and numbers of every size are not.
/// Counting takes anything.
pub proof fn lemma_functions_other_than_count_need_numbers(p: AggregateProjection, v: Value)
    ensures
        ({
            let taken = aggregator::value_added(aggregator::function_column(p).data, v);
            &&& p.source is Count ==> taken is Ok
            &&& !(p.source is Count) ==> match v {
                Value::String(_) | Value::Uuid(_) | Value::Bool(_) | Value::Null => taken == Err::<
                    RawDataView,
                    ErrorView,
                >(ErrorView::InvalidColumnsSpecified),
                Value::Int8(_) | Value::Int16(_) | Value::Int32(_) | Value::Int64(_) => taken is Ok,
                Value::UInt8(_) | Value::UInt16(_) | Value::UInt32(_) | Value::UInt64(_) => taken is Ok,
                Value::F32(_) | Value::F64(_) => taken is Ok,
            }
        }),
{
}

} // verus!
