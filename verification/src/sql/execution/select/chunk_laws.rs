//! Rows may come in one chunk or in many: what is collected of them is the same.
use vstd::prelude::*;

use crate::error::ErrorView;
use crate::search;
use crate::sql::execution::select::aggregator;
use crate::sql::execution::select::aggregator::{
    AggregatorFormat, FoldKind, FormatView, GroupView, RawColumnView, RawData, RawDataView,
};
use crate::storage::column::OutputColumnView;
use crate::storage::numbers::NumberReading;
use crate::storage::value::Value;

verus! {

/// Two chunks, the rows of the second behind those of the first.
pub open spec fn chunks_joined(x: Seq<Seq<Value>>, y: Seq<Seq<Value>>) -> Seq<Seq<Value>> {
    Seq::new(x.len(), |c: int| x[c] + y[c])
}

/// Whether a chunk has a given number of columns, all of them with a value for each row.
pub open spec fn is_even_chunk(chunk: Seq<Seq<Value>>, columns: nat) -> bool {
    &&& chunk.len() == columns
    &&& forall|c: int| 0 <= c < chunk.len() ==> (#[trigger] chunk[c]).len() == aggregator::chunk_rows(chunk)
}

/// Taking in values one run after the other is taking them in at once.
proof fn lemma_values_joined(data: RawDataView, a: Seq<Value>, b: Seq<Value>, i: int)
    requires
        0 <= i <= a.len(),
    ensures
        aggregator::values_added(data, a + b, i) == (match aggregator::values_added(data, a, i) {
            Ok(mid) => aggregator::values_added(mid, b, 0),
            Err(e) => Err(e),
        }),
    decreases a.len() - i,
{
    if i < a.len() {
        assert((a + b)[i] == a[i]);
        if let Ok(next) = aggregator::value_added(data, a[i]) {
            lemma_values_joined(next, a, b, i + 1);
        }
    } else {
        lemma_values_behind(data, a, b, 0);
    }
}

/// The values behind others are taken in like those of their own run.
proof fn lemma_values_behind(data: RawDataView, a: Seq<Value>, b: Seq<Value>, i: int)
    requires
        0 <= i <= b.len(),
    ensures
        aggregator::values_added(data, a + b, a.len() + i) == aggregator::values_added(data, b, i),
    decreases b.len() - i,
{
    if i < b.len() {
        assert((a + b)[a.len() + i] == b[i]);
        if let Ok(next) = aggregator::value_added(data, b[i]) {
            lemma_values_behind(next, a, b, i + 1);
        }
    }
}

/// Whether a column has become another by taking in values.
pub open spec fn column_took(before: RawColumnView, values: Seq<Value>, after: RawColumnView) -> bool {
    &&& aggregator::values_added(before.data, values, 0) == Ok::<RawDataView, ErrorView>(after.data)
    &&& after.alias == before.alias
    &&& after.proj == before.proj
}

/// Every column has taken in its values of a chunk.
pub proof fn lemma_columns_took(columns: Seq<RawColumnView>, chunk: Seq<Seq<Value>>, c: int)
    requires
        0 <= c <= columns.len(),
        chunk.len() == columns.len(),
    ensures
        aggregator::columns_appended(columns, chunk, c) matches Ok(out) ==> {
            &&& out.len() == columns.len()
            &&& forall|k: int| 0 <= k < c ==> #[trigger] out[k] == columns[k]
            &&& forall|k: int| c <= k < columns.len() ==> column_took(columns[k], chunk[k], #[trigger] out[k])
        },
    decreases columns.len() - c,
{
    if c < columns.len() {
        if let Ok(data) = aggregator::values_added(columns[c].data, chunk[c], 0) {
            let next = columns.update(
                c,
                RawColumnView { alias: columns[c].alias, proj: columns[c].proj, data },
            );
            lemma_columns_took(next, chunk, c + 1);
            if let Ok(out) = aggregator::columns_appended(columns, chunk, c) {
                assert(out[c] == next[c]);
                assert forall|k: int| 0 <= k < c implies #[trigger] out[k] == columns[k] by {
                    assert(out[k] == next[k]);
                }
                assert forall|k: int| c <= k < columns.len() implies column_took(
                    columns[k],
                    chunk[k],
                    #[trigger] out[k],
                ) by {
                    if k > c {
                        assert(next[k] == columns[k]);
                    }
                }
            }
        }
    }
}

/// Where every column takes in its values, a chunk is taken in.
proof fn lemma_took_columns(
    columns: Seq<RawColumnView>,
    chunk: Seq<Seq<Value>>,
    c: int,
    out: Seq<RawColumnView>,
)
    requires
        0 <= c <= columns.len(),
        chunk.len() == columns.len(),
        out.len() == columns.len(),
        forall|k: int| 0 <= k < c ==> #[trigger] out[k] == columns[k],
        forall|k: int| c <= k < columns.len() ==> column_took(columns[k], chunk[k], #[trigger] out[k]),
    ensures
        aggregator::columns_appended(columns, chunk, c) == Ok::<Seq<RawColumnView>, ErrorView>(out),
    decreases columns.len() - c,
{
    if c < columns.len() {
        assert(column_took(columns[c], chunk[c], out[c]));
        let next = columns.update(
            c,
            RawColumnView { alias: columns[c].alias, proj: columns[c].proj, data: out[c].data },
        );
        assert(next[c] == out[c]);
        assert forall|k: int| 0 <= k < c + 1 implies #[trigger] out[k] == next[k] by {
            if k < c {
                assert(out[k] == columns[k]);
            }
        }
        assert forall|k: int| c + 1 <= k < next.len() implies column_took(next[k], chunk[k], #[trigger] out[k]) by {
            assert(next[k] == columns[k]);
        }
        lemma_took_columns(next, chunk, c + 1, out);
    } else {
        assert(columns =~= out);
    }
}

/// A row is taken in by what it holds, wherever it stands.
proof fn lemma_row_moves(
    data: Seq<RawDataView>,
    a: Seq<Seq<Value>>,
    row_a: int,
    b: Seq<Seq<Value>>,
    row_b: int,
    keys: nat,
    i: int,
)
    requires
        0 <= i <= data.len(),
        keys + data.len() <= a.len(),
        a.len() == b.len(),
        forall|c: int| 0 <= c < a.len() ==> (#[trigger] a[c])[row_a] == b[c][row_b],
    ensures
        aggregator::row_added(data, a, keys, row_a, i) == aggregator::row_added(data, b, keys, row_b, i),
        aggregator::row_added(data, a, keys, row_a, i) matches Ok(out) ==> out.len() == data.len(),
    decreases data.len() - i,
{
    if i < data.len() {
        assert(a[keys + i][row_a] == b[keys + i][row_b]);
        if let Ok(d) = aggregator::value_added(data[i], a[keys + i][row_a]) {
            lemma_row_moves(data.update(i, d), a, row_a, b, row_b, keys, i + 1);
        }
    }
}

/// Whether every group collects for a given number of functions.
spec fn have_functions(groups: Seq<GroupView>, n: nat) -> bool {
    forall|i: int| 0 <= i < groups.len() ==> (#[trigger] groups[i]).data.len() == n
}

/// The groups after one row.
spec fn one_row(
    groups: Seq<GroupView>,
    columns: Seq<RawColumnView>,
    chunk: Seq<Seq<Value>>,
    keys: nat,
    row: int,
) -> Result<Seq<GroupView>, ErrorView> {
    let key = aggregator::row_key(chunk, keys, row);
    let all = aggregator::with_group(groups, key, columns);
    let at = aggregator::group_position(groups, key);
    match aggregator::row_added(all[at].data, chunk, keys, row, 0) {
        Err(e) => Err(e),
        Ok(data) => Ok(all.update(at, GroupView { key: all[at].key, data })),
    }
}

/// A row goes to its group by what it holds, wherever it stands.
proof fn lemma_one_row_moves(
    groups: Seq<GroupView>,
    columns: Seq<RawColumnView>,
    a: Seq<Seq<Value>>,
    row_a: int,
    b: Seq<Seq<Value>>,
    row_b: int,
    keys: nat,
)
    requires
        keys + columns.len() == a.len(),
        a.len() == b.len(),
        have_functions(groups, columns.len()),
        forall|c: int| 0 <= c < a.len() ==> (#[trigger] a[c])[row_a] == b[c][row_b],
    ensures
        one_row(groups, columns, a, keys, row_a) == one_row(groups, columns, b, keys, row_b),
        one_row(groups, columns, a, keys, row_a) matches Ok(next) ==> have_functions(next, columns.len()),
{
    let key = aggregator::row_key(a, keys, row_a);
    assert(key =~= aggregator::row_key(b, keys, row_b)) by {
        assert forall|k: int| 0 <= k < keys implies a[k][row_a] == b[k][row_b] by {}
    }
    let all = aggregator::with_group(groups, key, columns);
    let at = aggregator::group_position(groups, key);
    search::lemma_position(groups, aggregator::has_key(key));
    assert(0 <= at < all.len());
    assert(all[at].data.len() == columns.len());
    lemma_row_moves(all[at].data, a, row_a, b, row_b, keys, 0);
}

/// The rows behind others are taken in like those of their own chunk.
proof fn lemma_rows_behind(
    groups: Seq<GroupView>,
    columns: Seq<RawColumnView>,
    x: Seq<Seq<Value>>,
    y: Seq<Seq<Value>>,
    keys: nat,
    row: int,
)
    requires
        is_even_chunk(x, keys + columns.len()),
        is_even_chunk(y, keys + columns.len()),
        keys + columns.len() > 0,
        have_functions(groups, columns.len()),
        0 <= row <= aggregator::chunk_rows(y),
    ensures
        aggregator::rows_added(
            groups,
            columns,
            chunks_joined(x, y),
            keys,
            aggregator::chunk_rows(x) + row,
        ) == aggregator::rows_added(groups, columns, y, keys, row),
    decreases aggregator::chunk_rows(y) - row,
{
    let all = chunks_joined(x, y);
    let n = aggregator::chunk_rows(x);
    assert(all[0] == x[0] + y[0]);
    if row < aggregator::chunk_rows(y) {
        assert forall|c: int| 0 <= c < all.len() implies (#[trigger] all[c])[n + row] == y[c][row] by {
            assert(x[c].len() == n);
            assert(y[c].len() == aggregator::chunk_rows(y));
        }
        lemma_one_row_moves(groups, columns, all, n + row, y, row, keys);
        if let Ok(next) = one_row(groups, columns, y, keys, row) {
            lemma_rows_behind(next, columns, x, y, keys, row + 1);
        }
    }
}

/// Taking in the rows of one chunk after those of another is taking them in at once.
proof fn lemma_rows_joined(
    groups: Seq<GroupView>,
    columns: Seq<RawColumnView>,
    x: Seq<Seq<Value>>,
    y: Seq<Seq<Value>>,
    keys: nat,
    row: int,
)
    requires
        is_even_chunk(x, keys + columns.len()),
        is_even_chunk(y, keys + columns.len()),
        keys + columns.len() > 0,
        have_functions(groups, columns.len()),
        0 <= row <= aggregator::chunk_rows(x),
    ensures
        aggregator::rows_added(groups, columns, chunks_joined(x, y), keys, row) == (
        match aggregator::rows_added(groups, columns, x, keys, row) {
            Ok(mid) => aggregator::rows_added(mid, columns, y, keys, 0),
            Err(e) => Err(e),
        }),
    decreases aggregator::chunk_rows(x) - row,
{
    let all = chunks_joined(x, y);
    assert(all[0] == x[0] + y[0]);
    if row < aggregator::chunk_rows(x) {
        assert forall|c: int| 0 <= c < all.len() implies (#[trigger] all[c])[row] == x[c][row] by {
            assert(x[c].len() == aggregator::chunk_rows(x));
        }
        lemma_one_row_moves(groups, columns, all, row, x, row, keys);
        if let Ok(next) = one_row(groups, columns, x, keys, row) {
            lemma_rows_joined(next, columns, x, y, keys, row + 1);
        }
    } else {
        lemma_rows_behind(groups, columns, x, y, keys, 0);
    }
}

/// A chunk without rows changes nothing.
pub proof fn lemma_empty_chunk_changes_nothing(format: FormatView, chunk: Seq<Seq<Value>>)
    requires
        aggregator::chunk_rows(chunk) == 0,
    ensures
        aggregator::chunk_appended(format, chunk) == Ok::<FormatView, ErrorView>(format),
{
}

/// It does not matter how rows are cut into chunks: where two chunks are taken in one after the other,
/// taking in the chunk of their rows at once collects the same.
pub proof fn lemma_chunks_join(format: FormatView, x: Seq<Seq<Value>>, y: Seq<Seq<Value>>)
    requires
        aggregator::is_complete(format),
        is_even_chunk(x, aggregator::projs_to_read(format).len()),
        is_even_chunk(y, aggregator::projs_to_read(format).len()),
        aggregator::chunk_appended(format, x) is Ok,
        aggregator::chunk_appended(aggregator::chunk_appended(format, x)->Ok_0, y) is Ok,
    ensures
        aggregator::chunk_appended(format, chunks_joined(x, y)) == aggregator::chunk_appended(
            aggregator::chunk_appended(format, x)->Ok_0,
            y,
        ),
        aggregator::chunk_rows(chunks_joined(x, y)) == aggregator::chunk_rows(x) + aggregator::chunk_rows(y),
{
    let all = chunks_joined(x, y);
    if x.len() > 0 {
        assert(all[0] == x[0] + y[0]);
    }
    if aggregator::chunk_rows(x) == 0 {
        assert forall|c: int| 0 <= c < x.len() implies #[trigger] all[c] == y[c] by {
            assert(x[c].len() == 0);
            assert(x[c] + y[c] =~= y[c]);
        }
        assert(all =~= y);
    } else if aggregator::chunk_rows(y) == 0 {
        assert forall|c: int| 0 <= c < x.len() implies #[trigger] all[c] == x[c] by {
            assert(y[c].len() == 0);
            assert(x[c] + y[c] =~= x[c]);
        }
        assert(all =~= x);
    } else {
        match format {
            FormatView::Simple(columns) => {
                let mid = aggregator::columns_appended(columns, x, 0)->Ok_0;
                let end = aggregator::columns_appended(mid, y, 0)->Ok_0;
                lemma_columns_took(columns, x, 0);
                lemma_columns_took(mid, y, 0);
                assert forall|k: int| 0 <= k < columns.len() implies column_took(
                    columns[k],
                    all[k],
                    #[trigger] end[k],
                ) by {
                    assert(column_took(columns[k], x[k], mid[k]));
                    assert(column_took(mid[k], y[k], end[k]));
                    lemma_values_joined(columns[k].data, x[k], y[k], 0);
                }
                lemma_took_columns(columns, all, 0, end);
            },
            FormatView::Aggregate { group_by_cols, aggregate_cols, groups } => {
                lemma_rows_joined(groups, aggregate_cols, x, y, group_by_cols.len(), 0);
            },
        }
    }
}

/// Whether what a function over numbers gives depends on the numbers alone.
pub open spec fn goes_by_values<F: Fn(FoldKind, &Vec<Value>) -> u64>(fold: F) -> bool {
    forall|kind: FoldKind, v: Vec<Value>, w: Vec<Value>, x: u64, y: u64|
        #![trigger call_ensures(fold, (kind, &v), x), call_ensures(fold, (kind, &w), y)]
        v@ == w@ && call_ensures(fold, (kind, &v), x) && call_ensures(fold, (kind, &w), y) ==> x == y
}

/// The same numbers give the same value.
proof fn lemma_cells_agree<F: Fn(FoldKind, &Vec<Value>) -> u64>(fold: F, a: RawData, b: RawData, x: Value, y: Value)
    requires
        goes_by_values(fold),
        a@ == b@,
        aggregator::is_cell(fold, a, x),
        aggregator::is_cell(fold, b, y),
    ensures
        x == y,
{
    match (a, b) {
        (RawData::Fold(kind, v), RawData::Fold(_, w)) => {
            if v@.len() > 0 {
                assert(call_ensures(fold, (kind, &v), x->F64_0));
                assert(call_ensures(fold, (kind, &w), y->F64_0));
            }
        },
        _ => {},
    }
}

/// What was collected decides the rows of the result: equal collections, such as those of rows that were
/// cut into chunks in two ways, give as many columns with the same values.
pub proof fn lemma_equal_collections_finish_alike<F: Fn(FoldKind, &Vec<Value>) -> u64>(
    fold: F,
    a: AggregatorFormat,
    b: AggregatorFormat,
    readings: Seq<NumberReading>,
    x: Seq<OutputColumnView>,
    y: Seq<OutputColumnView>,
)
    requires
        goes_by_values(fold),
        a@ == b@,
        aggregator::is_complete(a@),
        aggregator::is_result(fold, a, readings, x),
        aggregator::is_result(fold, b, readings, y),
    ensures
        x.len() == y.len(),
        forall|i: int| 0 <= i < x.len() ==> (#[trigger] x[i]).data == y[i].data,
{
    match (a, b) {
        (AggregatorFormat::Simple(c), AggregatorFormat::Simple(d)) => {
            assert(aggregator::raw_views(c@) == aggregator::raw_views(d@));
            assert(aggregator::raw_views(c@).len() == aggregator::raw_views(d@).len());
            assert forall|i: int| 0 <= i < x.len() implies (#[trigger] x[i]).data == y[i].data by {
                assert(aggregator::raw_views(c@)[i] == aggregator::raw_views(d@)[i]);
                assert(c@[i]@ == d@[i]@);
                assert(aggregator::is_finished(fold, c@[i], readings, x[i]));
                assert(aggregator::is_finished(fold, d@[i], readings, y[i]));
                if !(c@[i].data is Values) {
                    lemma_cells_agree(fold, c@[i].data, d@[i].data, x[i].data[0], y[i].data[0]);
                    assert(x[i].data =~= y[i].data);
                }
            }
        },
        (
            AggregatorFormat::Aggregate { group_by_cols: k, aggregate_cols: c, groups: g },
            AggregatorFormat::Aggregate { group_by_cols: l, aggregate_cols: d, groups: h },
        ) => {
            let keys = k@.len();
            assert(aggregator::raw_views(k@).len() == aggregator::raw_views(l@).len());
            assert(aggregator::raw_views(c@).len() == aggregator::raw_views(d@).len());
            assert(aggregator::group_views(g@).len() == aggregator::group_views(h@).len());
            assert forall|n: int| 0 <= n < g@.len() implies (#[trigger] g@[n])@ == h@[n]@ by {
                assert(aggregator::group_views(g@)[n] == aggregator::group_views(h@)[n]);
            }
            assert forall|i: int| 0 <= i < x.len() implies (#[trigger] x[i]).data == y[i].data by {
                if i < keys {
                    assert forall|n: int| 0 <= n < g@.len() implies #[trigger] x[i].data[n] == y[i].data[n] by {
                        assert(g@[n]@ == h@[n]@);
                    }
                    assert(y[i].data.len() == h@.len());
                } else if g@.len() > 0 {
                    assert(aggregator::is_grouped(fold, c@[i - keys], g@, i - keys, readings, x[i]));
                    assert(aggregator::is_grouped(fold, d@[i - keys], h@, i - keys, readings, y[i]));
                    assert forall|n: int| 0 <= n < g@.len() implies #[trigger] x[i].data[n] == y[i].data[n] by {
                        assert(g@[n]@ == h@[n]@);
                        assert(aggregator::group_views(g@)[n] == g@[n]@);
                        assert(aggregator::data_views(g@[n].data@)[i - keys] == aggregator::data_views(
                            h@[n].data@,
                        )[i - keys]);
                        lemma_cells_agree(
                            fold,
                            g@[n].data@[i - keys],
                            h@[n].data@[i - keys],
                            x[i].data[n],
                            y[i].data[n],
                        );
                    }
                } else {
                    assert(y[i].data.len() == 0);
                }
                assert(x[i].data =~= y[i].data);
            }
        },
        _ => {},
    }
}

} // verus!
