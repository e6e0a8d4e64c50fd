//! What the answer to a query over the chunks of a table is, said of the rows of the table.
use vstd::prelude::*;

use crate::error::ErrorView;
use crate::sql::compiled_filter;
use crate::sql::compiled_filter::CompiledFilter;
use crate::sql::execution::select;
use crate::sql::execution::select::aggregator;
use crate::sql::execution::select::aggregator::{AggregatorFormat, FoldKind, FormatView, RawColumnView, RawDataView};
use crate::sql::execution::select::chunk_laws;
use crate::sql::execution::select::laws;
use crate::sql::execution::select::ScanView;
use crate::sql::physical_plan::ClausesView;
use crate::sql::projection::Projection;
use crate::storage::column::{ColumnDef, OutputColumnView};
use crate::storage::numbers::NumberReading;
use crate::storage::table_part;
use crate::storage::tables::StorageRead;
use crate::storage::value::Value;

verus! {

/// The values of a column in the first `n` chunks, one behind the other.
pub open spec fn column_joined(chunks: Seq<Seq<Seq<Value>>>, k: int, n: int) -> Seq<Value>
    decreases n,
{
    if n <= 0 {
        seq![]
    } else {
        column_joined(chunks, k, n - 1) + chunks[n - 1][k]
    }
}

/// The values of a column in all chunks.
pub open spec fn whole_column(chunks: Seq<Seq<Seq<Value>>>, k: int) -> Seq<Value> {
    column_joined(chunks, k, chunks.len() as int)
}

/// The values of columns in all chunks.
pub open spec fn whole_columns(chunks: Seq<Seq<Seq<Value>>>, columns: nat) -> Seq<Seq<Value>> {
    Seq::new(columns, |k: int| whole_column(chunks, k))
}

/// How many rows the first `n` chunks have.
pub open spec fn rows_joined(chunks: Seq<Seq<Seq<Value>>>, n: int) -> nat
    decreases n,
{
    if n <= 0 {
        0
    } else {
        rows_joined(chunks, n - 1) + aggregator::chunk_rows(chunks[n - 1])
    }
}

/// Whether chunks hold the rows of a table: each has a value for each of its rows in every column that
/// is read, and in every column of the schema.
pub open spec fn hold_rows(
    chunks: Seq<Seq<Seq<Value>>>,
    schema_chunks: Seq<Seq<Seq<Value>>>,
    read: nat,
    schema: nat,
) -> bool {
    &&& schema_chunks.len() == chunks.len()
    &&& forall|i: int| 0 <= i < chunks.len() ==> chunk_laws::is_even_chunk(#[trigger] chunks[i], read)
    &&& forall|i: int|
        0 <= i < chunks.len() ==> chunk_laws::is_even_chunk(#[trigger] schema_chunks[i], schema)
            && aggregator::chunk_rows(schema_chunks[i]) == aggregator::chunk_rows(chunks[i])
}

/// For each row of a table whether it satisfies a filter; without one, every row does.
pub open spec fn rows_that_hold(
    filter: Option<CompiledFilter>,
    schema_chunks: Seq<Seq<Seq<Value>>>,
    schema: nat,
) -> Seq<bool> {
    Seq::new(
        rows_joined(schema_chunks, schema_chunks.len() as int),
        |r: int|
            match filter {
                Some(f) => compiled_filter::holds(f, whole_columns(schema_chunks, schema), r),
                None => true,
            },
    )
}

/// The filter of a query, compiled for the columns of a table.
pub open spec fn filter_of(
    clauses: ClausesView,
    defs: Seq<ColumnDef>,
    readings: Seq<NumberReading>,
) -> Option<CompiledFilter> {
    match clauses.filter {
        Some(expr) => Some(compiled_filter::compiled(expr, defs, readings)->Ok_0),
        None => None,
    }
}

/// As many rows stand before a chunk as every column has values there.
pub proof fn lemma_joined_length(chunks: Seq<Seq<Seq<Value>>>, columns: nat, k: int, n: int)
    requires
        0 <= k < columns,
        0 <= n <= chunks.len(),
        forall|i: int| 0 <= i < chunks.len() ==> chunk_laws::is_even_chunk(#[trigger] chunks[i], columns),
    ensures
        column_joined(chunks, k, n).len() == rows_joined(chunks, n),
    decreases n,
{
    if n > 0 {
        lemma_joined_length(chunks, columns, k, n - 1);
        assert(chunk_laws::is_even_chunk(chunks[n - 1], columns));
        assert(chunks[n - 1][k].len() == aggregator::chunk_rows(chunks[n - 1]));
    }
}

/// Two lists of chunks with as many rows in each have as many rows.
pub proof fn lemma_rows_agree(a: Seq<Seq<Seq<Value>>>, b: Seq<Seq<Seq<Value>>>, n: int)
    requires
        0 <= n <= a.len(),
        a.len() == b.len(),
        forall|i: int|
            0 <= i < a.len() ==> aggregator::chunk_rows(#[trigger] b[i]) == aggregator::chunk_rows(a[i]),
    ensures
        rows_joined(a, n) == rows_joined(b, n),
    decreases n,
{
    if n > 0 {
        lemma_rows_agree(a, b, n - 1);
        assert(aggregator::chunk_rows(b[n - 1]) == aggregator::chunk_rows(a[n - 1]));
    }
}

/// What the first chunks give is the start of what more of them give.
pub proof fn lemma_joined_starts(chunks: Seq<Seq<Seq<Value>>>, k: int, n: int, m: int)
    requires
        0 <= n <= m <= chunks.len(),
    ensures
        column_joined(chunks, k, n).is_prefix_of(column_joined(chunks, k, m)),
        rows_joined(chunks, n) <= rows_joined(chunks, m),
    decreases m - n,
{
    if n < m {
        lemma_joined_starts(chunks, k, n, m - 1);
        let before = column_joined(chunks, k, m - 1);
        assert(column_joined(chunks, k, m) == before + chunks[m - 1][k]);
        assert(column_joined(chunks, k, m).take(column_joined(chunks, k, n).len() as int)
            =~= before.take(column_joined(chunks, k, n).len() as int));
    } else {
        assert(column_joined(chunks, k, n).take(column_joined(chunks, k, n).len() as int)
            =~= column_joined(chunks, k, n));
    }
}

/// A row of a chunk is a row of the table.
proof fn lemma_row_of_chunk(chunks: Seq<Seq<Seq<Value>>>, columns: nat, k: int, i: int, r: int)
    requires
        0 <= k < columns,
        0 <= i < chunks.len(),
        forall|i: int| 0 <= i < chunks.len() ==> chunk_laws::is_even_chunk(#[trigger] chunks[i], columns),
        0 <= r < aggregator::chunk_rows(chunks[i]),
    ensures
        whole_column(chunks, k)[rows_joined(chunks, i) + r] == chunks[i][k][r],
        rows_joined(chunks, i) + r < whole_column(chunks, k).len(),
{
    let n = chunks.len() as int;
    lemma_joined_starts(chunks, k, i + 1, n);
    lemma_joined_length(chunks, columns, k, i);
    lemma_joined_length(chunks, columns, k, i + 1);
    lemma_joined_length(chunks, columns, k, n);
    let some = column_joined(chunks, k, i + 1);
    let at = rows_joined(chunks, i) + r;
    assert(chunk_laws::is_even_chunk(chunks[i], columns));
    assert(chunks[i][k].len() == aggregator::chunk_rows(chunks[i]));
    assert(some == column_joined(chunks, k, i) + chunks[i][k]);
    assert(some[at] == chunks[i][k][r]);
    assert(whole_column(chunks, k).take(some.len() as int)[at] == whole_column(chunks, k)[at]);
}

/// The rows of a chunk that pass the filter, for one column.
pub open spec fn chunk_shown(filter: Option<CompiledFilter>, schema_chunk: Seq<Seq<Value>>, values: Seq<Value>) -> Seq<Value> {
    match filter {
        Some(f) => compiled_filter::retained(values, compiled_filter::mask_of(f, schema_chunk)),
        None => values,
    }
}

/// The rows of the first chunks that satisfy the filter, with those of the next behind them.
pub proof fn lemma_chunk_shown(
    filter: Option<CompiledFilter>,
    chunks: Seq<Seq<Seq<Value>>>,
    schema_chunks: Seq<Seq<Seq<Value>>>,
    read: nat,
    schema: nat,
    k: int,
    i: int,
)
    requires
        hold_rows(chunks, schema_chunks, read, schema),
        schema > 0,
        filter matches Some(f) ==> compiled_filter::reads_within(f, schema),
        0 <= k < read,
        0 <= i < chunks.len(),
    ensures
        ({
            let mask = rows_that_hold(filter, schema_chunks, schema);
            compiled_filter::retained(column_joined(chunks, k, i + 1), mask) == compiled_filter::retained(
                column_joined(chunks, k, i),
                mask,
            ) + chunk_shown(filter, schema_chunks[i], chunks[i][k])
        }),
        filter matches Some(f) ==> compiled_filter::mask_of(f, schema_chunks[i]).len()
            == aggregator::chunk_rows(chunks[i]),
        chunks[i][k].len() == aggregator::chunk_rows(chunks[i]),
{
    let n = chunks.len() as int;
    let mask = rows_that_hold(filter, schema_chunks, schema);
    let a = column_joined(chunks, k, i);
    let b = chunks[i][k];
    let part = schema_chunks[i];
    let rows = aggregator::chunk_rows(chunks[i]);
    lemma_joined_length(chunks, read, k, i);
    lemma_joined_length(chunks, read, k, i + 1);
    lemma_rows_agree(chunks, schema_chunks, i);
    lemma_rows_agree(chunks, schema_chunks, n);
    lemma_joined_starts(chunks, k, i + 1, n);
    assert(chunk_laws::is_even_chunk(chunks[i], read));
    assert(chunk_laws::is_even_chunk(part, schema));
    assert(b.len() == rows);
    match filter {
        Some(f) => {
            assert forall|c: int| 0 <= c < part.len() implies (#[trigger] part[c]).len() == rows by {}
            compiled_filter::lemma_mask_tells_which_rows_hold(f, part, rows);
            let own = compiled_filter::mask_of(f, part);
            let all = whole_columns(schema_chunks, schema);
            assert forall|r: int| 0 <= r < b.len() implies #[trigger] own[r] == mask[a.len() + r] by {
                assert forall|c: int| 0 <= c < part.len() implies (#[trigger] part[c])[r] == all[c][a.len() + r] by {
                    lemma_row_of_chunk(schema_chunks, schema, c, i, r);
                }
                laws::lemma_holds_moves(f, part, r, all, a.len() + r);
            }
            laws::lemma_retained_joins(a, b, mask, own);
        },
        None => {
            let own = Seq::new(rows, |r: int| true);
            laws::lemma_retained_joins(a, b, mask, own);
            laws::lemma_retained_all(b, own);
        },
    }
}

/// What is collected of the first `n` chunks.
spec fn collected_of(
    filter: Option<CompiledFilter>,
    chunks: Seq<Seq<Seq<Value>>>,
    schema_chunks: Seq<Seq<Seq<Value>>>,
    schema: nat,
    shown: Seq<Projection>,
    n: int,
) -> Seq<RawColumnView> {
    Seq::new(
        shown.len(),
        |k: int|
            RawColumnView {
                alias: None,
                proj: shown[k],
                data: RawDataView::Values(
                    compiled_filter::retained(
                        column_joined(chunks, k, n),
                        rows_that_hold(filter, schema_chunks, schema),
                    ),
                ),
            },
    )
}

/// A query after a chunk: what its rows that satisfy the filter give was collected.
proof fn lemma_chunk_fed(
    scan: ScanView,
    chunks: Seq<Seq<Seq<Value>>>,
    schema_chunks: Seq<Seq<Seq<Value>>>,
    schema: nat,
    shown: Seq<Projection>,
    i: int,
)
    requires
        hold_rows(chunks, schema_chunks, shown.len(), schema),
        schema > 0,
        shown.len() > 0,
        scan.column_count == schema,
        scan.filter matches Some(f) ==> compiled_filter::reads_within(f, schema),
        scan.format == FormatView::Simple(collected_of(scan.filter, chunks, schema_chunks, schema, shown, i)),
        0 <= i < chunks.len(),
        rows_joined(chunks, chunks.len() as int) <= usize::MAX,
    ensures
        ({
            let next = select::fed(scan, chunks[i], schema_chunks[i]);
            &&& next is Ok
            &&& next->Ok_0.format == FormatView::Simple(
                collected_of(scan.filter, chunks, schema_chunks, schema, shown, i + 1),
            )
            &&& next->Ok_0.strategy.lines_to_read == scan.strategy.lines_to_read
            &&& next->Ok_0.strategy.lines_read == chunk_shown(
                scan.filter,
                schema_chunks[i],
                chunks[i][0],
            ).len()
            &&& next->Ok_0.filter == scan.filter
            &&& next->Ok_0.column_count == scan.column_count
            &&& next->Ok_0.order_by == scan.order_by
            &&& next->Ok_0.limit == scan.limit
            &&& next->Ok_0.offset == scan.offset
        }),
{
    let read = chunks[i];
    let part = schema_chunks[i];
    let held = collected_of(scan.filter, chunks, schema_chunks, schema, shown, i);
    let out = collected_of(scan.filter, chunks, schema_chunks, schema, shown, i + 1);
    let chunk = Seq::new(shown.len(), |k: int| chunk_shown(scan.filter, part, read[k]));
    assert(chunk_laws::is_even_chunk(read, shown.len()));
    assert(chunk_laws::is_even_chunk(part, schema));
    assert forall|k: int| 0 <= k < shown.len() implies #[trigger] out[k] == (RawColumnView {
        alias: held[k].alias,
        proj: held[k].proj,
        data: RawDataView::Values(held[k].data->Values_0 + chunk[k]),
    }) by {
        lemma_chunk_shown(scan.filter, chunks, schema_chunks, shown.len(), schema, k, i);
    }
    lemma_chunk_shown(scan.filter, chunks, schema_chunks, shown.len(), schema, 0, i);
    lemma_joined_starts(chunks, 0, i + 1, chunks.len() as int);
    assert(rows_joined(chunks, i + 1) == rows_joined(chunks, i) + aggregator::chunk_rows(read));
    match scan.filter {
        Some(f) => {
            let mask = compiled_filter::mask_of(f, part);
            assert forall|k: int| 0 <= k < read.len() implies (#[trigger] read[k]).len() <= mask.len() by {}
            assert(select::passing(read, mask) =~= chunk);
            assert forall|k: int| 0 <= k < chunk.len() implies (#[trigger] chunk[k]).len() == chunk[0].len() by {
                assert(read[k].len() == read[0].len());
                compiled_filter::lemma_retained_lengths_agree(read[k], read[0], mask);
            }
            laws::lemma_retained_shorter(read[0], mask);
        },
        None => {
            assert(read =~= chunk);
        },
    }
    if aggregator::chunk_rows(chunk) == 0 {
        assert forall|k: int| 0 <= k < shown.len() implies #[trigger] out[k] == held[k] by {
            assert(chunk[k].len() == 0);
            assert(held[k].data->Values_0 + chunk[k] =~= held[k].data->Values_0);
        }
        assert(out =~= held);
    } else {
        laws::lemma_columns_appended(held, chunk, out, 0);
    }
}

/// Where a query has stopped: all chunks were read, or enough rows of those before satisfy the filter.
spec fn has_stopped(
    scan: ScanView,
    chunks: Seq<Seq<Seq<Value>>>,
    schema_chunks: Seq<Seq<Seq<Value>>>,
    schema: nat,
    shown: Seq<Projection>,
    m: int,
) -> bool {
    &&& 0 <= m <= chunks.len()
    &&& scan.format == FormatView::Simple(collected_of(scan.filter, chunks, schema_chunks, schema, shown, m))
    &&& m == chunks.len() || scan.strategy.lines_to_read <= compiled_filter::retained(
        column_joined(chunks, 0, m),
        rows_that_hold(scan.filter, schema_chunks, schema),
    ).len()
}

/// A query that has read the first chunks reads on to where it stops.
proof fn lemma_all_fed(
    scan: ScanView,
    chunks: Seq<Seq<Seq<Value>>>,
    schema_chunks: Seq<Seq<Seq<Value>>>,
    schema: nat,
    shown: Seq<Projection>,
    i: int,
)
    requires
        hold_rows(chunks, schema_chunks, shown.len(), schema),
        schema > 0,
        shown.len() > 0,
        scan.column_count == schema,
        scan.filter matches Some(f) ==> compiled_filter::reads_within(f, schema),
        scan.format == FormatView::Simple(collected_of(scan.filter, chunks, schema_chunks, schema, shown, i)),
        0 <= i <= chunks.len(),
        scan.strategy.lines_read <= compiled_filter::retained(
            column_joined(chunks, 0, i),
            rows_that_hold(scan.filter, schema_chunks, schema),
        ).len(),
        rows_joined(chunks, chunks.len() as int) <= usize::MAX,
    ensures
        ({
            let end = select::fed_all(scan, chunks, schema_chunks, i);
            &&& end is Ok
            &&& exists|m: int| #[trigger] has_stopped(end->Ok_0, chunks, schema_chunks, schema, shown, m)
            &&& end->Ok_0.filter == scan.filter
            &&& end->Ok_0.strategy.lines_to_read == scan.strategy.lines_to_read
            &&& end->Ok_0.order_by == scan.order_by
            &&& end->Ok_0.limit == scan.limit
            &&& end->Ok_0.offset == scan.offset
        }),
    decreases chunks.len() - i,
{
    if scan.strategy.lines_to_read <= scan.strategy.lines_read || i >= chunks.len() {
        assert(has_stopped(scan, chunks, schema_chunks, schema, shown, i));
    } else {
        lemma_chunk_fed(scan, chunks, schema_chunks, schema, shown, i);
        lemma_chunk_shown(scan.filter, chunks, schema_chunks, shown.len(), schema, 0, i);
        let next = select::fed(scan, chunks[i], schema_chunks[i])->Ok_0;
        lemma_all_fed(next, chunks, schema_chunks, schema, shown, i + 1);
    }
}

/// What a query owes that was fed chunks until it had enough rows or there was no other.
pub open spec fn chunks_owe<F: Fn(FoldKind, &Vec<Value>) -> u64>(
    fold: F,
    chunks: Seq<Seq<Seq<Value>>>,
    schema_chunks: Seq<Seq<Seq<Value>>>,
    defs: Seq<ColumnDef>,
    clauses: ClausesView,
    total_rows: usize,
    readings: Seq<NumberReading>,
    result: Result<Seq<OutputColumnView>, ErrorView>,
) -> bool {
    match select::started(clauses, defs, total_rows, readings) {
        Err(e) => result == Err::<Seq<OutputColumnView>, ErrorView>(e),
        Ok(scan) => match select::fed_all(scan, chunks, schema_chunks, 0) {
            Err(e) => result == Err::<Seq<OutputColumnView>, ErrorView>(e),
            Ok(end) => exists|format: AggregatorFormat|
                format@ == end.format && #[trigger] select::finish_owes(fold, format, readings, end, result),
        },
    }
}

/// A query over a table that neither groups nor sorts answers with the rows of the table that satisfy
/// its WHERE, in the order in which they stand, from the OFFSET on and no more than the LIMIT: of each
/// column that it shows the values of those rows. It fails only where its filter cannot be compiled or
/// its counts are too large.
pub proof fn lemma_query_over_chunks_answers_rows_that_hold<F: Fn(FoldKind, &Vec<Value>) -> u64>(
    fold: F,
    chunks: Seq<Seq<Seq<Value>>>,
    schema_chunks: Seq<Seq<Seq<Value>>>,
    defs: Seq<ColumnDef>,
    clauses: ClausesView,
    total_rows: usize,
    readings: Seq<NumberReading>,
    result: Result<Seq<OutputColumnView>, ErrorView>,
)
    requires
        laws::is_plain(clauses),
        0 < defs.len() <= usize::MAX,
        hold_rows(chunks, schema_chunks, clauses.columns.len(), defs.len()),
        total_rows == rows_joined(chunks, chunks.len() as int),
        select::started(clauses, defs, total_rows, readings) is Ok,
        chunks_owe(fold, chunks, schema_chunks, defs, clauses, total_rows, readings, result),
    ensures
        result is Ok,
        result->Ok_0.len() == clauses.columns.len(),
        forall|k: int|
            0 <= k < clauses.columns.len() ==> (#[trigger] result->Ok_0[k]).data == laws::limited(
                compiled_filter::retained(
                    whole_column(chunks, k),
                    rows_that_hold(filter_of(clauses, defs, readings), schema_chunks, defs.len()),
                ),
                clauses.limit,
                clauses.offset,
            ),
{
    let n = chunks.len() as int;
    let shown = clauses.columns;
    let schema = defs.len();
    let scan = select::started(clauses, defs, total_rows, readings)->Ok_0;
    let mask = rows_that_hold(scan.filter, schema_chunks, schema);
    if let Some(expr) = clauses.filter {
        compiled_filter::lemma_compiled_reads_columns(expr, defs, readings);
    }
    lemma_rows_agree(chunks, schema_chunks, n);
    let none = collected_of(scan.filter, chunks, schema_chunks, schema, shown, 0);
    assert(shown.map_values(|p: Projection| aggregator::values_column(p)) =~= none) by {
        assert forall|k: int| 0 <= k < shown.len() implies #[trigger] none[k] == aggregator::values_column(
            shown[k],
        ) by {
            assert(compiled_filter::retained(column_joined(chunks, k, 0), mask) =~= Seq::<Value>::empty());
        }
    }
    lemma_all_fed(scan, chunks, schema_chunks, schema, shown, 0);
    let end = select::fed_all(scan, chunks, schema_chunks, 0)->Ok_0;
    let m = choose|m: int| #[trigger] has_stopped(end, chunks, schema_chunks, schema, shown, m);
    let format = choose|format: AggregatorFormat|
        format@ == end.format && #[trigger] select::finish_owes(fold, format, readings, end, result);
    let (read, sorted) = choose|
        read: Seq<OutputColumnView>,
        sorted: Result<Seq<OutputColumnView>, ErrorView>,
    |
        aggregator::is_result(fold, format, readings, read) && #[trigger] select::ordering_owes(
            read,
            end.order_by,
            sorted,
        ) && result == (match sorted {
            Ok(cols) => select::cut(cols, end.limit, end.offset),
            Err(e) => Err(e),
        });
    let got = collected_of(scan.filter, chunks, schema_chunks, schema, shown, m);
    assert(format is Simple);
    let raw = format->Simple_0@;
    assert(aggregator::raw_views(raw) == got);
    assert(raw.len() == shown.len());
    assert forall|k: int| 0 <= k < read.len() implies (#[trigger] read[k]).data == compiled_filter::retained(
        column_joined(chunks, k, m),
        mask,
    ) by {
        assert(aggregator::raw_views(raw)[k] == raw[k]@);
        assert(got[k] == raw[k]@);
        assert(aggregator::is_finished(fold, raw[k], readings, read[k]));
    }
    let first = compiled_filter::retained(column_joined(chunks, 0, m), mask);
    assert(select::row_count(read) == first.len());
    assert forall|k: int| 0 <= k < read.len() implies (#[trigger] read[k]).data.len() == first.len() by {
        lemma_joined_length(chunks, shown.len(), k, m);
        lemma_joined_length(chunks, shown.len(), 0, m);
        lemma_joined_starts(chunks, k, m, n);
        compiled_filter::lemma_retained_lengths_agree(
            column_joined(chunks, k, m),
            column_joined(chunks, 0, m),
            mask,
        );
    }
    lemma_joined_length(chunks, shown.len(), 0, m);
    lemma_joined_starts(chunks, 0, m, n);
    laws::lemma_retained_shorter(column_joined(chunks, 0, m), mask);
    assert forall|k: int| 0 <= k < shown.len() implies (#[trigger] result->Ok_0[k]).data == laws::limited(
        compiled_filter::retained(whole_column(chunks, k), mask),
        clauses.limit,
        clauses.offset,
    ) by {
        select::lemma_cut_is_a_window(read, end.limit, end.offset, k);
        let some = read[k].data;
        let all = compiled_filter::retained(whole_column(chunks, k), mask);
        lemma_joined_length(chunks, shown.len(), k, m);
        lemma_joined_length(chunks, shown.len(), k, n);
        lemma_joined_starts(chunks, k, m, n);
        laws::lemma_retained_starts(whole_column(chunks, k), rows_joined(chunks, m) as int, mask);
        assert(whole_column(chunks, k).take(rows_joined(chunks, m) as int) =~= column_joined(chunks, k, m));
        assert(some.is_prefix_of(all));
        assert(some.len() == first.len());
        laws::lemma_retained_shorter(whole_column(chunks, k), mask);
        if some.len() == all.len() {
            assert(some =~= all);
        } else {
            assert(m < n);
            let limit = clauses.limit->Some_0;
            assert(some.len() >= limit + clauses.offset);
            assert forall|r: int| 0 <= r < some.len() implies some[r] == all[r] by {
                assert(all.take(some.len() as int)[r] == all[r]);
            }
        }
        assert(laws::limited(some, clauses.limit, clauses.offset) =~= laws::limited(
            all,
            clauses.limit,
            clauses.offset,
        ));
    }
    select::lemma_cut_is_a_window(read, end.limit, end.offset, 0);
}

/// What a loaded chunk has for the projections that are read.
pub open spec fn loaded<S: StorageRead>(
    storage: S,
    shown: Seq<Projection>,
    readings: Seq<NumberReading>,
) -> Seq<Seq<Value>> {
    Seq::new(shown.len(), |k: int| storage.chunk_column(shown[k], readings)->Ok_0)
}

/// What a loaded chunk has for the columns of the schema.
pub open spec fn loaded_schema<S: StorageRead>(storage: S, readings: Seq<NumberReading>) -> Seq<Seq<Value>> {
    Seq::new(storage.schema_view().columns.len(), |k: int| storage.schema_column(k, readings)->Ok_0)
}

/// Whether a loaded chunk has the columns that are read and those of the schema.
pub open spec fn is_loaded<S: StorageRead>(storage: S, shown: Seq<Projection>, readings: Seq<NumberReading>) -> bool {
    &&& forall|k: int| 0 <= k < shown.len() ==> storage.chunk_column(#[trigger] shown[k], readings) is Ok
    &&& forall|k: int|
        0 <= k < storage.schema_view().columns.len() ==> (#[trigger] storage.schema_column(k, readings)) is Ok
}

/// The chunks that are loaded one after the other.
pub open spec fn chunks_of<S: StorageRead>(
    loads: Seq<S>,
    shown: Seq<Projection>,
    readings: Seq<NumberReading>,
) -> Seq<Seq<Seq<Value>>> {
    loads.map_values(|s: S| loaded(s, shown, readings))
}

/// The columns of the schema in the chunks that are loaded one after the other.
pub open spec fn schema_chunks_of<S: StorageRead>(loads: Seq<S>, readings: Seq<NumberReading>) -> Seq<
    Seq<Seq<Value>>,
> {
    loads.map_values(|s: S| loaded_schema(s, readings))
}

proof fn lemma_projections_loaded<S: StorageRead>(
    storage: S,
    shown: Seq<Projection>,
    readings: Seq<NumberReading>,
    k: int,
)
    requires
        is_loaded(storage, shown, readings),
        0 <= k <= shown.len(),
    ensures
        select::projections_read(storage, shown, readings, k, loaded(storage, shown, readings).take(k)) == Ok::<
            Seq<Seq<Value>>,
            ErrorView,
        >(loaded(storage, shown, readings)),
    decreases shown.len() - k,
{
    let all = loaded(storage, shown, readings);
    if k < shown.len() {
        assert(storage.chunk_column(shown[k], readings) is Ok);
        assert(all.take(k + 1) =~= all.take(k).push(all[k]));
        lemma_projections_loaded(storage, shown, readings, k + 1);
    } else {
        assert(all.take(k) =~= all);
    }
}

proof fn lemma_schema_loaded<S: StorageRead>(
    storage: S,
    shown: Seq<Projection>,
    readings: Seq<NumberReading>,
    k: int,
)
    requires
        is_loaded(storage, shown, readings),
        0 <= k <= storage.schema_view().columns.len(),
    ensures
        select::schema_read(storage, readings, k, loaded_schema(storage, readings).take(k)) == Ok::<
            Seq<Seq<Value>>,
            ErrorView,
        >(loaded_schema(storage, readings)),
    decreases storage.schema_view().columns.len() - k,
{
    let all = loaded_schema(storage, readings);
    if k < storage.schema_view().columns.len() {
        assert(storage.schema_column(k, readings) is Ok);
        assert(all.take(k + 1) =~= all.take(k).push(all[k]));
        lemma_schema_loaded(storage, shown, readings, k + 1);
    } else {
        assert(all.take(k) =~= all);
    }
}

/// Taking in the loaded chunk of a storage is taking in what the chunk has.
proof fn lemma_load_is_fed<S: StorageRead>(scan: ScanView, storage: S, readings: Seq<NumberReading>)
    requires
        is_loaded(storage, aggregator::projs_to_read(scan.format), readings),
    ensures
        select::fed_from(scan, storage, readings) == select::fed(
            scan,
            loaded(storage, aggregator::projs_to_read(scan.format), readings),
            loaded_schema(storage, readings),
        ),
{
    let shown = aggregator::projs_to_read(scan.format);
    lemma_projections_loaded(storage, shown, readings, 0);
    lemma_schema_loaded(storage, shown, readings, 0);
    assert(loaded(storage, shown, readings).take(0) =~= Seq::<Seq<Value>>::empty());
    assert(loaded_schema(storage, readings).take(0) =~= Seq::<Seq<Value>>::empty());
}

/// A query without groups reads the same columns after every chunk.
proof fn lemma_reads_the_same(scan: ScanView, chunk: Seq<Seq<Value>>, schema_chunk: Seq<Seq<Value>>)
    requires
        scan.format is Simple,
        chunk.len() == aggregator::projs_to_read(scan.format).len(),
    ensures
        select::fed(scan, chunk, schema_chunk) matches Ok(next) ==> next.format is Simple
            && aggregator::projs_to_read(next.format) == aggregator::projs_to_read(scan.format),
{
    let columns = scan.format->Simple_0;
    chunk_laws::lemma_columns_took(columns, chunk, 0);
    if let Some(f) = scan.filter {
        let kept = select::passing(chunk, compiled_filter::mask_of(f, schema_chunk));
        chunk_laws::lemma_columns_took(columns, kept, 0);
    }
    if let Ok(next) = select::fed(scan, chunk, schema_chunk) {
        assert(aggregator::projs_to_read(next.format) =~= aggregator::projs_to_read(scan.format));
    }
}

/// Reading a storage is taking in its chunks.
proof fn lemma_loads_are_fed<S: StorageRead>(
    scan: ScanView,
    loads: Seq<S>,
    shown: Seq<Projection>,
    readings: Seq<NumberReading>,
    i: int,
)
    requires
        scan.format is Simple,
        aggregator::projs_to_read(scan.format) == shown,
        forall|k: int| 0 <= k < loads.len() ==> is_loaded(#[trigger] loads[k], shown, readings),
        0 <= i <= loads.len(),
    ensures
        select::fed_loads(scan, loads, readings, i) == select::fed_all(
            scan,
            chunks_of(loads, shown, readings),
            schema_chunks_of(loads, readings),
            i,
        ),
    decreases loads.len() - i,
{
    if i < loads.len() {
        assert(is_loaded(loads[i], shown, readings));
        lemma_load_is_fed(scan, loads[i], readings);
        let chunk = loaded(loads[i], shown, readings);
        let schema_chunk = loaded_schema(loads[i], readings);
        lemma_reads_the_same(scan, chunk, schema_chunk);
        if let Ok(next) = select::fed(scan, chunk, schema_chunk) {
            lemma_loads_are_fed(next, loads, shown, readings, i + 1);
        }
    }
}

/// What a query owes that read a storage until it had enough rows or there was no other chunk.
pub open spec fn loads_owe<S: StorageRead, F: Fn(FoldKind, &Vec<Value>) -> u64>(
    fold: F,
    loads: Seq<S>,
    defs: Seq<ColumnDef>,
    clauses: ClausesView,
    total_rows: usize,
    readings: Seq<NumberReading>,
    result: Result<Seq<OutputColumnView>, ErrorView>,
) -> bool {
    match select::started(clauses, defs, total_rows, readings) {
        Err(e) => result == Err::<Seq<OutputColumnView>, ErrorView>(e),
        Ok(scan) => match select::fed_loads(scan, loads, readings, 0) {
            Err(e) => result == Err::<Seq<OutputColumnView>, ErrorView>(e),
            Ok(end) => exists|format: AggregatorFormat|
                format@ == end.format && #[trigger] select::finish_owes(fold, format, readings, end, result),
        },
    }
}

/// A query over a table that neither groups nor sorts, and that read the storage of the table chunk by
/// chunk until it had enough rows or there was no other chunk, answers with the rows of the table that
/// satisfy its WHERE, in the order in which they stand, from the OFFSET on and no more than the LIMIT.
/// Every chunk has the columns that are read and those of the schema.
pub proof fn lemma_table_query_answers_rows_that_hold<S: StorageRead, F: Fn(FoldKind, &Vec<Value>) -> u64>(
    fold: F,
    loads: Seq<S>,
    defs: Seq<ColumnDef>,
    clauses: ClausesView,
    total_rows: usize,
    readings: Seq<NumberReading>,
    result: Result<Seq<OutputColumnView>, ErrorView>,
)
    requires
        laws::is_plain(clauses),
        0 < defs.len() <= usize::MAX,
        forall|i: int| 0 <= i < loads.len() ==> is_loaded(#[trigger] loads[i], clauses.columns, readings),
        hold_rows(
            chunks_of(loads, clauses.columns, readings),
            schema_chunks_of(loads, readings),
            clauses.columns.len(),
            defs.len(),
        ),
        total_rows == rows_joined(chunks_of(loads, clauses.columns, readings), loads.len() as int),
        select::started(clauses, defs, total_rows, readings) is Ok,
        loads_owe(fold, loads, defs, clauses, total_rows, readings, result),
    ensures
        result is Ok,
        result->Ok_0.len() == clauses.columns.len(),
        forall|k: int|
            0 <= k < clauses.columns.len() ==> (#[trigger] result->Ok_0[k]).data == laws::limited(
                compiled_filter::retained(
                    whole_column(chunks_of(loads, clauses.columns, readings), k),
                    rows_that_hold(
                        filter_of(clauses, defs, readings),
                        schema_chunks_of(loads, readings),
                        defs.len(),
                    ),
                ),
                clauses.limit,
                clauses.offset,
            ),
{
    let shown = clauses.columns;
    let chunks = chunks_of(loads, shown, readings);
    let schema_chunks = schema_chunks_of(loads, readings);
    let scan = select::started(clauses, defs, total_rows, readings)->Ok_0;
    assert(aggregator::projs_to_read(scan.format) =~= shown);
    lemma_loads_are_fed(scan, loads, shown, readings, 0);
    assert(chunks_owe(fold, chunks, schema_chunks, defs, clauses, total_rows, readings, result));
    lemma_query_over_chunks_answers_rows_that_hold(
        fold,
        chunks,
        schema_chunks,
        defs,
        clauses,
        total_rows,
        readings,
        result,
    );
}

/// The granules of a part, each with the values of every column.
pub open spec fn part_chunks(columns: Seq<Seq<Value>>, granularity: nat) -> Seq<Seq<Seq<Value>>> {
    Seq::new(
        table_part::granule_count(aggregator::chunk_rows(columns), granularity) as nat,
        |i: int|
            Seq::new(columns.len(), |k: int| table_part::granules_of(columns[k], granularity)[i]),
    )
}

/// The granules of the first `n` parts, one part behind the other.
pub open spec fn table_chunks(parts: Seq<Seq<Seq<Value>>>, granularity: nat, n: int) -> Seq<Seq<Seq<Value>>>
    decreases n,
{
    if n <= 0 {
        seq![]
    } else {
        table_chunks(parts, granularity, n - 1) + part_chunks(parts[n - 1], granularity)
    }
}

/// What the first granules of a part hold of a column.
proof fn lemma_part_joined(columns: Seq<Seq<Value>>, granularity: nat, k: int, i: int)
    requires
        granularity > 0,
        chunk_laws::is_even_chunk(columns, columns.len()),
        0 <= k < columns.len(),
        0 <= i <= part_chunks(columns, granularity).len(),
    ensures
        column_joined(part_chunks(columns, granularity), k, i) == columns[k].take(
            table_part::smaller(i * granularity, columns[k].len() as int),
        ),
        0 <= i * granularity,
    decreases i,
{
    let data = columns[k];
    let chunks = part_chunks(columns, granularity);
    let n = data.len() as int;
    assert(data.len() == aggregator::chunk_rows(columns));
    if i <= 0 {
        assert(0 * granularity == 0);
        assert(data.take(0) =~= Seq::<Value>::empty());
    } else {
        lemma_part_joined(columns, granularity, k, i - 1);
        assert(i * granularity == (i - 1) * granularity + granularity) by (nonlinear_arith);
        assert((i - 1) * granularity < n) by {
            assert(i - 1 <= (n - 1) / granularity as int);
            assert((i - 1) * granularity <= n - 1) by (nonlinear_arith)
                requires
                    granularity > 0,
                    i - 1 <= (n - 1) / granularity as int,
            ;
        }
        assert(chunks[i - 1][k] == table_part::granules_of(data, granularity)[i - 1]);
        assert(column_joined(chunks, k, i) =~= data.take(table_part::smaller(i * granularity, n)));
    }
}

/// The granules of a part, one behind the other, are its columns.
proof fn lemma_part_is_its_granules(columns: Seq<Seq<Value>>, granularity: nat, k: int)
    requires
        granularity > 0,
        chunk_laws::is_even_chunk(columns, columns.len()),
        0 <= k < columns.len(),
    ensures
        whole_column(part_chunks(columns, granularity), k) == columns[k],
{
    let n = columns[k].len() as int;
    let count = part_chunks(columns, granularity).len() as int;
    assert(columns[k].len() == aggregator::chunk_rows(columns));
    lemma_part_joined(columns, granularity, k, count);
    assert(count * granularity >= n) by {
        if n > 0 {
            assert(count == (n - 1) / granularity as int + 1);
            assert(count * granularity >= n) by (nonlinear_arith)
                requires
                    granularity > 0,
                    count == (n - 1) / granularity as int + 1,
            ;
        }
    }
    assert(columns[k].take(n) =~= columns[k]);
}

/// Chunks behind others are joined behind them.
proof fn lemma_joined_behind(a: Seq<Seq<Seq<Value>>>, b: Seq<Seq<Seq<Value>>>, k: int, n: int)
    requires
        0 <= n <= b.len(),
    ensures
        column_joined(a + b, k, a.len() + n) == whole_column(a, k) + column_joined(b, k, n),
    decreases n,
{
    if n > 0 {
        lemma_joined_behind(a, b, k, n - 1);
        assert((a + b)[a.len() + n - 1] == b[n - 1]);
        assert(column_joined(a + b, k, a.len() + n) =~= whole_column(a, k) + column_joined(b, k, n));
    } else {
        lemma_joined_alike(a, a + b, k, a.len() as int);
        assert(whole_column(a, k) + column_joined(b, k, 0) =~= whole_column(a, k));
    }
}

/// Equal chunks are joined to equal columns.
proof fn lemma_joined_alike(a: Seq<Seq<Seq<Value>>>, b: Seq<Seq<Seq<Value>>>, k: int, n: int)
    requires
        0 <= n <= a.len(),
        n <= b.len(),
        forall|i: int| 0 <= i < n ==> #[trigger] a[i] == b[i],
    ensures
        column_joined(a, k, n) == column_joined(b, k, n),
    decreases n,
{
    if n > 0 {
        lemma_joined_alike(a, b, k, n - 1);
        assert(a[n - 1] == b[n - 1]);
    }
}

/// Every granule has a value for each of its rows in every column.
proof fn lemma_chunks_are_even(parts: Seq<Seq<Seq<Value>>>, columns: nat, granularity: nat, n: int)
    requires
        granularity > 0,
        0 <= n <= parts.len(),
        forall|p: int| 0 <= p < parts.len() ==> chunk_laws::is_even_chunk(#[trigger] parts[p], columns),
    ensures
        forall|i: int|
            0 <= i < table_chunks(parts, granularity, n).len() ==> chunk_laws::is_even_chunk(
                #[trigger] table_chunks(parts, granularity, n)[i],
                columns,
            ),
    decreases n,
{
    if n > 0 {
        lemma_chunks_are_even(parts, columns, granularity, n - 1);
        let before = table_chunks(parts, granularity, n - 1);
        let own = part_chunks(parts[n - 1], granularity);
        let all = table_chunks(parts, granularity, n);
        assert(chunk_laws::is_even_chunk(parts[n - 1], columns));
        assert forall|i: int| 0 <= i < all.len() implies chunk_laws::is_even_chunk(#[trigger] all[i], columns) by {
            if i < before.len() {
                assert(all[i] == before[i]);
            } else {
                let g = i - before.len();
                assert(all[i] == own[g]);
                assert forall|c: int| 0 <= c < columns implies (#[trigger] own[g][c]).len() == own[g][0].len() by {
                    assert(parts[n - 1][c].len() == aggregator::chunk_rows(parts[n - 1]));
                    assert(parts[n - 1][0].len() == aggregator::chunk_rows(parts[n - 1]));
                    lemma_granule_length(parts[n - 1][c], parts[n - 1][0], granularity, g);
                }
            }
        }
    }
}

/// The granules of two columns of one length have one length.
proof fn lemma_granule_length(a: Seq<Value>, b: Seq<Value>, granularity: nat, g: int)
    requires
        granularity > 0,
        a.len() == b.len(),
        0 <= g < table_part::granule_count(a.len(), granularity),
    ensures
        table_part::granules_of(a, granularity)[g].len() == table_part::granules_of(b, granularity)[g].len(),
{
    let n = a.len() as int;
    assert(0 <= g * granularity < n && g * granularity <= (g + 1) * granularity) by (nonlinear_arith)
        requires
            granularity > 0,
            n > 0,
            0 <= g <= (n - 1) / granularity as int,
    ;
}

/// It does not matter how the rows of parts are cut into granules: joined, the granules of all parts
/// are the rows of all parts, none lost and none twice.
pub proof fn lemma_granules_hold_the_rows_of_parts(
    parts: Seq<Seq<Seq<Value>>>,
    columns: nat,
    granularity: nat,
    k: int,
    n: int,
)
    requires
        granularity > 0,
        0 <= k < columns,
        0 <= n <= parts.len(),
        forall|p: int| 0 <= p < parts.len() ==> chunk_laws::is_even_chunk(#[trigger] parts[p], columns),
    ensures
        whole_column(table_chunks(parts, granularity, n), k) == column_joined(parts, k, n),
    decreases n,
{
    if n > 0 {
        lemma_granules_hold_the_rows_of_parts(parts, columns, granularity, k, n - 1);
        let before = table_chunks(parts, granularity, n - 1);
        let own = part_chunks(parts[n - 1], granularity);
        assert(chunk_laws::is_even_chunk(parts[n - 1], columns));
        lemma_joined_behind(before, own, k, own.len() as int);
        lemma_part_is_its_granules(parts[n - 1], granularity, k);
    }
}

/// As many rows as the parts have, their granules have.
proof fn lemma_granules_have_the_rows(parts: Seq<Seq<Seq<Value>>>, columns: nat, granularity: nat)
    requires
        granularity > 0,
        columns > 0,
        forall|p: int| 0 <= p < parts.len() ==> chunk_laws::is_even_chunk(#[trigger] parts[p], columns),
    ensures
        ({
            let chunks = table_chunks(parts, granularity, parts.len() as int);
            rows_joined(chunks, chunks.len() as int) == rows_joined(parts, parts.len() as int)
        }),
{
    let n = parts.len() as int;
    let chunks = table_chunks(parts, granularity, n);
    lemma_chunks_are_even(parts, columns, granularity, n);
    lemma_granules_hold_the_rows_of_parts(parts, columns, granularity, 0, n);
    lemma_joined_length(parts, columns, 0, n);
    lemma_joined_length(chunks, columns, 0, chunks.len() as int);
}

/// What was inserted is what is selected. Each INSERT adds a part, and a part is read granule by
/// granule: a query that neither groups nor sorts answers with the rows of all parts that satisfy its
/// WHERE, those of earlier parts first, from the OFFSET on and no more than the LIMIT. `shown` holds of
/// each part the columns that the query shows, `parts` those of the schema.
pub proof fn lemma_inserted_rows_are_selected<F: Fn(FoldKind, &Vec<Value>) -> u64>(
    fold: F,
    shown: Seq<Seq<Seq<Value>>>,
    parts: Seq<Seq<Seq<Value>>>,
    granularity: nat,
    defs: Seq<ColumnDef>,
    clauses: ClausesView,
    total_rows: usize,
    readings: Seq<NumberReading>,
    result: Result<Seq<OutputColumnView>, ErrorView>,
)
    requires
        granularity > 0,
        laws::is_plain(clauses),
        0 < defs.len() <= usize::MAX,
        hold_rows(shown, parts, clauses.columns.len(), defs.len()),
        total_rows == rows_joined(parts, parts.len() as int),
        select::started(clauses, defs, total_rows, readings) is Ok,
        chunks_owe(
            fold,
            table_chunks(shown, granularity, shown.len() as int),
            table_chunks(parts, granularity, parts.len() as int),
            defs,
            clauses,
            total_rows,
            readings,
            result,
        ),
    ensures
        result is Ok,
        result->Ok_0.len() == clauses.columns.len(),
        forall|k: int|
            0 <= k < clauses.columns.len() ==> (#[trigger] result->Ok_0[k]).data == laws::limited(
                compiled_filter::retained(
                    whole_column(shown, k),
                    rows_that_hold(filter_of(clauses, defs, readings), parts, defs.len()),
                ),
                clauses.limit,
                clauses.offset,
            ),
{
    let n = parts.len() as int;
    let chunks = table_chunks(shown, granularity, n);
    let schema_chunks = table_chunks(parts, granularity, n);
    let filter = filter_of(clauses, defs, readings);
    lemma_chunks_are_even(shown, clauses.columns.len(), granularity, n);
    lemma_chunks_are_even(parts, defs.len(), granularity, n);
    lemma_granules_have_the_rows(shown, clauses.columns.len(), granularity);
    lemma_granules_have_the_rows(parts, defs.len(), granularity);
    lemma_rows_agree(shown, parts, n);
    lemma_chunks_agree(shown, parts, clauses.columns.len(), defs.len(), granularity, n);
    assert forall|k: int| 0 <= k < clauses.columns.len() implies #[trigger] whole_column(chunks, k) == whole_column(
        shown,
        k,
    ) by {
        lemma_granules_hold_the_rows_of_parts(shown, clauses.columns.len(), granularity, k, n);
    }
    assert(whole_columns(schema_chunks, defs.len()) =~= whole_columns(parts, defs.len())) by {
        assert forall|k: int| 0 <= k < defs.len() implies #[trigger] whole_column(schema_chunks, k) == whole_column(
            parts,
            k,
        ) by {
            lemma_granules_hold_the_rows_of_parts(parts, defs.len(), granularity, k, n);
        }
    }
    assert(rows_that_hold(filter, schema_chunks, defs.len()) =~= rows_that_hold(filter, parts, defs.len()));
    lemma_query_over_chunks_answers_rows_that_hold(
        fold,
        chunks,
        schema_chunks,
        defs,
        clauses,
        total_rows,
        readings,
        result,
    );
    assert forall|k: int| 0 <= k < clauses.columns.len() implies (#[trigger] result->Ok_0[k]).data == laws::limited(
        compiled_filter::retained(
            whole_column(shown, k),
            rows_that_hold(filter, parts, defs.len()),
        ),
        clauses.limit,
        clauses.offset,
    ) by {
        assert(whole_column(chunks, k) == whole_column(shown, k));
    }
}

/// The granules of two lists of parts with as many rows in each have as many rows in each.
proof fn lemma_chunks_agree(
    a: Seq<Seq<Seq<Value>>>,
    b: Seq<Seq<Seq<Value>>>,
    columns_a: nat,
    columns_b: nat,
    granularity: nat,
    n: int,
)
    requires
        granularity > 0,
        columns_a > 0,
        columns_b > 0,
        hold_rows(a, b, columns_a, columns_b),
        0 <= n <= a.len(),
    ensures
        table_chunks(a, granularity, n).len() == table_chunks(b, granularity, n).len(),
        forall|i: int|
            0 <= i < table_chunks(a, granularity, n).len() ==> aggregator::chunk_rows(
                #[trigger] table_chunks(b, granularity, n)[i],
            ) == aggregator::chunk_rows(table_chunks(a, granularity, n)[i]),
    decreases n,
{
    if n > 0 {
        lemma_chunks_agree(a, b, columns_a, columns_b, granularity, n - 1);
        let pa = part_chunks(a[n - 1], granularity);
        let pb = part_chunks(b[n - 1], granularity);
        let before = table_chunks(a, granularity, n - 1);
        let all_a = table_chunks(a, granularity, n);
        let all_b = table_chunks(b, granularity, n);
        assert(chunk_laws::is_even_chunk(a[n - 1], columns_a));
        assert(chunk_laws::is_even_chunk(b[n - 1], columns_b));
        assert(pa.len() == pb.len());
        assert forall|i: int| 0 <= i < all_a.len() implies aggregator::chunk_rows(#[trigger] all_b[i])
            == aggregator::chunk_rows(all_a[i]) by {
            if i >= before.len() {
                let g = i - before.len();
                assert(all_a[i] == pa[g]);
                assert(all_b[i] == pb[g]);
                lemma_granule_length(a[n - 1][0], b[n - 1][0], granularity, g);
            } else {
                assert(all_a[i] == before[i]);
                assert(all_b[i] == table_chunks(b, granularity, n - 1)[i]);
            }
        }
    }
}

} // verus!
