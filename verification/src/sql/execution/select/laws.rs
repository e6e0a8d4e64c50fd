//! What the answer to a query over rows is, said of the rows themselves.
use vstd::prelude::*;

use crate::engines::merge_tree;
use crate::error::ErrorView;
use crate::search;
use crate::sql::compiled_filter;
use crate::sql::compiled_filter::CompiledFilter;
use crate::sql::execution::select;
use crate::sql::execution::select::aggregator;
use crate::sql::execution::select::aggregator::{AggregatorFormat, FoldKind, FormatView, RawColumnView, RawDataView};
use crate::sql::execution::select::ScanView;
use crate::sql::physical_plan::ClausesView;
use crate::sql::projection::Projection;
use crate::storage::column::{ColumnDef, OutputColumnView};
use crate::storage::numbers::NumberReading;
use crate::storage::table_part;
use crate::storage::tables::virtual_storage;
use crate::storage::value::Value;

verus! {

/// The data of columns.
pub open spec fn data_of(columns: Seq<OutputColumnView>) -> Seq<Seq<Value>> {
    columns.map_values(|c: OutputColumnView| c.data)
}

/// For each row whether it satisfies a filter; without one, every row does.
pub open spec fn rows_that_hold(filter: Option<CompiledFilter>, columns: Seq<OutputColumnView>) -> Seq<bool> {
    Seq::new(
        select::row_count(columns),
        |r: int|
            match filter {
                Some(f) => compiled_filter::holds(f, data_of(columns), r),
                None => true,
            },
    )
}

/// The data of the column that a projection reads.
pub open spec fn data_read(columns: Seq<OutputColumnView>, proj: Projection) -> Seq<Value> {
    columns[search::position(columns, merge_tree::column_of(proj))->Some_0].data
}

/// Of a column that a query shows the values whose rows satisfy the filter.
pub open spec fn values_shown(
    filter: Option<CompiledFilter>,
    columns: Seq<OutputColumnView>,
    proj: Projection,
) -> Seq<Value> {
    compiled_filter::retained(data_read(columns, proj), rows_that_hold(filter, columns))
}

/// The values from an offset on, no more than a limit.
pub open spec fn window_of(values: Seq<Value>, limit: Option<int>, offset: int) -> Seq<Value> {
    let start = table_part::smaller(offset, values.len() as int);
    let end = match limit {
        Some(l) => table_part::smaller(start + l, values.len() as int),
        None => values.len() as int,
    };
    values.subrange(start, end)
}

/// The values from an OFFSET on, no more than a LIMIT.
pub open spec fn limited(values: Seq<Value>, limit: Option<usize>, offset: usize) -> Seq<Value> {
    window_of(
        values,
        match limit {
            Some(l) => Some(l as int),
            None => None,
        },
        offset as int,
    )
}

/// Whether a query only shows columns: it neither groups nor sorts.
pub open spec fn is_plain(clauses: ClausesView) -> bool {
    clauses.columns.len() > 0 && clauses.group_by.len() == 0 && clauses.order_by is None
}

/// Whether columns have one length, and a query finds among them every column that it shows.
pub open spec fn has_columns(columns: Seq<OutputColumnView>, shown: Seq<Projection>) -> bool {
    &&& columns.len() > 0
    &&& forall|i: int| 0 <= i < columns.len() ==> (#[trigger] columns[i]).data.len() == select::row_count(columns)
    &&& forall|i: int|
        0 <= i < shown.len() ==> search::position(columns, merge_tree::column_of(#[trigger] shown[i])) is Some
}

/// What is collected of the first `m` rows.
pub open spec fn collected_of(
    filter: Option<CompiledFilter>,
    columns: Seq<OutputColumnView>,
    shown: Seq<Projection>,
    m: int,
) -> Seq<RawColumnView> {
    Seq::new(
        shown.len(),
        |i: int|
            RawColumnView {
                alias: None,
                proj: shown[i],
                data: RawDataView::Values(
                    compiled_filter::retained(
                        data_read(columns, shown[i]).take(m),
                        rows_that_hold(filter, columns),
                    ),
                ),
            },
    )
}

/// How many rows stand before a granule.
pub open spec fn rows_before(columns: Seq<OutputColumnView>, granule: int) -> int {
    table_part::smaller(granule * 8192, select::row_count(columns) as int)
}

/// Retaining one run of values behind another.
pub proof fn lemma_retained_joins(a: Seq<Value>, b: Seq<Value>, mask: Seq<bool>, rest: Seq<bool>)
    requires
        a.len() + b.len() <= mask.len(),
        b.len() <= rest.len(),
        forall|i: int| 0 <= i < b.len() ==> #[trigger] rest[i] == mask[a.len() + i],
    ensures
        compiled_filter::retained(a + b, mask) == compiled_filter::retained(a, mask) + compiled_filter::retained(
            b,
            rest,
        ),
    decreases b.len(),
{
    if b.len() == 0 {
        assert(a + b =~= a);
        assert(compiled_filter::retained(a, mask) + compiled_filter::retained(b, rest)
            =~= compiled_filter::retained(a, mask));
    } else {
        assert((a + b).drop_last() =~= a + b.drop_last());
        lemma_retained_joins(a, b.drop_last(), mask, rest);
        assert(rest[b.len() - 1] == mask[a.len() + (b.len() - 1)]);
        if rest[b.len() - 1] {
            assert(compiled_filter::retained(a + b, mask) =~= compiled_filter::retained(a, mask)
                + compiled_filter::retained(b, rest));
        }
    }
}

/// Retaining with a mask that lets every row pass changes nothing.
pub proof fn lemma_retained_all(a: Seq<Value>, mask: Seq<bool>)
    requires
        a.len() <= mask.len(),
        forall|i: int| 0 <= i < a.len() ==> #[trigger] mask[i],
    ensures
        compiled_filter::retained(a, mask) == a,
    decreases a.len(),
{
    if a.len() > 0 {
        lemma_retained_all(a.drop_last(), mask);
        assert(mask[a.len() - 1]);
        assert(a.drop_last().push(a.last()) =~= a);
    }
}

/// A filter says the same of a row wherever the row stands.
pub proof fn lemma_holds_moves(
    f: CompiledFilter,
    a: Seq<Seq<Value>>,
    row_a: int,
    b: Seq<Seq<Value>>,
    row_b: int,
)
    requires
        a.len() == b.len(),
        compiled_filter::reads_within(f, a.len()),
        forall|i: int| 0 <= i < a.len() ==> (#[trigger] a[i])[row_a] == b[i][row_b],
    ensures
        compiled_filter::holds(f, a, row_a) == compiled_filter::holds(f, b, row_b),
    decreases f,
{
    match f {
        CompiledFilter::And(l, r) => {
            lemma_holds_moves(*l, a, row_a, b, row_b);
            lemma_holds_moves(*r, a, row_a, b, row_b);
        },
        CompiledFilter::Or(l, r) => {
            lemma_holds_moves(*l, a, row_a, b, row_b);
            lemma_holds_moves(*r, a, row_a, b, row_b);
        },
        CompiledFilter::Not(g) => lemma_holds_moves(*g, a, row_a, b, row_b),
        CompiledFilter::Column(i) => {
            assert(a[i as int][row_a] == b[i as int][row_b]);
        },
        CompiledFilter::Compare { col_idx, op, value } => {
            assert(a[col_idx as int][row_a] == b[col_idx as int][row_b]);
        },
        CompiledFilter::CompareColumns { left_idx, op, right_idx } => {
            assert(a[left_idx as int][row_a] == b[left_idx as int][row_b]);
            assert(a[right_idx as int][row_a] == b[right_idx as int][row_b]);
        },
        CompiledFilter::Const(_) => {},
    }
}

/// A granule is the rows that stand between two granules.
proof fn lemma_granule_rows(columns: Seq<OutputColumnView>, data: Seq<Value>, granule: int)
    requires
        data.len() == select::row_count(columns),
        0 <= granule < table_part::granule_count(data.len(), 8192),
    ensures
        0 <= rows_before(columns, granule) < rows_before(columns, granule + 1) <= data.len(),
        virtual_storage::granule_values(data, granule) == data.subrange(
            rows_before(columns, granule),
            rows_before(columns, granule + 1),
        ),
{
    let n = data.len() as int;
    assert(granule * 8192 < n) by {
        assert((n - 1) / 8192 + 1 > granule);
    }
}

/// What a granule holds for the columns that a query shows.
proof fn lemma_result_read(
    columns: Seq<OutputColumnView>,
    granule: int,
    shown: Seq<Projection>,
    readings: Seq<NumberReading>,
    i: int,
)
    requires
        has_columns(columns, shown),
        0 <= i <= shown.len(),
    ensures
        ({
            let all = Seq::new(
                shown.len(),
                |k: int| virtual_storage::granule_values(data_read(columns, shown[k]), granule),
            );
            select::result_read(columns, granule, shown, readings, i, all.take(i)) == Ok::<
                Seq<Seq<Value>>,
                ErrorView,
            >(all)
        }),
    decreases shown.len() - i,
{
    let all = Seq::new(
        shown.len(),
        |k: int| virtual_storage::granule_values(data_read(columns, shown[k]), granule),
    );
    if i < shown.len() {
        assert(search::position(columns, merge_tree::column_of(shown[i])) is Some);
        assert(all.take(i + 1) =~= all.take(i).push(all[i]));
        lemma_result_read(columns, granule, shown, readings, i + 1);
    } else {
        assert(all.take(i) =~= all);
    }
}

/// Values are appended to every column.
pub proof fn lemma_columns_appended(columns: Seq<RawColumnView>, chunk: Seq<Seq<Value>>, out: Seq<RawColumnView>, c: int)
    requires
        0 <= c <= columns.len(),
        chunk.len() == columns.len(),
        out.len() == columns.len(),
        forall|k: int| 0 <= k < c ==> #[trigger] columns[k] == out[k],
        forall|k: int| c <= k < columns.len() ==> (#[trigger] columns[k]).data is Values,
        forall|k: int|
            c <= k < columns.len() ==> #[trigger] out[k] == (RawColumnView {
                alias: columns[k].alias,
                proj: columns[k].proj,
                data: RawDataView::Values(columns[k].data->Values_0 + chunk[k]),
            }),
    ensures
        aggregator::columns_appended(columns, chunk, c) == Ok::<Seq<RawColumnView>, ErrorView>(out),
    decreases columns.len() - c,
{
    if c < columns.len() {
        let held = columns[c].data->Values_0;
        aggregator::lemma_values_are_collected(held, chunk[c], 0);
        assert(chunk[c].skip(0) =~= chunk[c]);
        assert(columns[c].data == RawDataView::Values(held));
        let next = columns.update(
            c,
            RawColumnView {
                alias: columns[c].alias,
                proj: columns[c].proj,
                data: RawDataView::Values(held + chunk[c]),
            },
        );
        assert(out[c] == next[c]);
        assert forall|k: int| c + 1 <= k < next.len() implies #[trigger] next[k] == columns[k] by {}
        assert forall|k: int| 0 <= k < c + 1 implies #[trigger] next[k] == out[k] by {
            if k < c {
                assert(next[k] == columns[k]);
            }
        }
        assert forall|k: int| c + 1 <= k < next.len() implies #[trigger] out[k] == (RawColumnView {
            alias: next[k].alias,
            proj: next[k].proj,
            data: RawDataView::Values(next[k].data->Values_0 + chunk[k]),
        }) by {
            assert(next[k] == columns[k]);
        }
        lemma_columns_appended(next, chunk, out, c + 1);
    } else {
        assert(columns =~= out);
    }
}

/// The rows of a granule that satisfy the filter, for one column.
pub open spec fn granule_shown(
    filter: Option<CompiledFilter>,
    columns: Seq<OutputColumnView>,
    data: Seq<Value>,
    granule: int,
) -> Seq<Value> {
    match filter {
        Some(f) => compiled_filter::retained(
            virtual_storage::granule_values(data, granule),
            compiled_filter::mask_of(f, select::result_granule(columns, granule)),
        ),
        None => virtual_storage::granule_values(data, granule),
    }
}

/// The rows before the next granule that satisfy the filter are those before this granule and those
/// of this granule.
proof fn lemma_granule_shown(
    filter: Option<CompiledFilter>,
    columns: Seq<OutputColumnView>,
    data: Seq<Value>,
    granule: int,
)
    requires
        columns.len() > 0,
        forall|i: int| 0 <= i < columns.len() ==> (#[trigger] columns[i]).data.len() == select::row_count(columns),
        filter matches Some(f) ==> compiled_filter::reads_within(f, columns.len()),
        data.len() == select::row_count(columns),
        0 <= granule < table_part::granule_count(data.len(), 8192),
    ensures
        ({
            let mask = rows_that_hold(filter, columns);
            compiled_filter::retained(data.take(rows_before(columns, granule + 1)), mask)
                == compiled_filter::retained(data.take(rows_before(columns, granule)), mask) + granule_shown(
                filter,
                columns,
                data,
                granule,
            )
        }),
        filter matches Some(f) ==> compiled_filter::mask_of(f, select::result_granule(columns, granule)).len()
            == rows_before(columns, granule + 1) - rows_before(columns, granule),
{
    let mask = rows_that_hold(filter, columns);
    let from = rows_before(columns, granule);
    let to = rows_before(columns, granule + 1);
    lemma_granule_rows(columns, data, granule);
    let rows = virtual_storage::granule_values(data, granule);
    let all = data_of(columns);
    let part = select::result_granule(columns, granule);
    assert(data.take(to) =~= data.take(from) + rows);
    match filter {
        Some(f) => {
            assert forall|i: int| 0 <= i < part.len() implies (#[trigger] part[i]).len() == to - from by {
                lemma_granule_rows(columns, columns[i].data, granule);
            }
            compiled_filter::lemma_mask_tells_which_rows_hold(f, part, (to - from) as nat);
            let own = compiled_filter::mask_of(f, part);
            assert forall|r: int| 0 <= r < rows.len() implies #[trigger] own[r] == mask[data.take(from).len() + r] by {
                assert forall|i: int| 0 <= i < part.len() implies (#[trigger] part[i])[r] == all[i][from + r] by {
                    lemma_granule_rows(columns, columns[i].data, granule);
                }
                lemma_holds_moves(f, part, r, all, from + r);
            }
            lemma_retained_joins(data.take(from), rows, mask, own);
        },
        None => {
            lemma_retained_joins(data.take(from), rows, mask, mask.subrange(from, to));
            lemma_retained_all(rows, mask.subrange(from, to));
        },
    }
}

/// A query after a granule: what its rows that satisfy the filter give was collected.
proof fn lemma_granule_fed(
    scan: ScanView,
    columns: Seq<OutputColumnView>,
    shown: Seq<Projection>,
    granule: int,
    readings: Seq<NumberReading>,
)
    requires
        has_columns(columns, shown),
        shown.len() > 0,
        scan.column_count == columns.len(),
        scan.filter matches Some(f) ==> compiled_filter::reads_within(f, columns.len()),
        scan.format == FormatView::Simple(collected_of(scan.filter, columns, shown, rows_before(columns, granule))),
        0 <= granule < table_part::granule_count(select::row_count(columns), 8192),
        select::row_count(columns) <= usize::MAX,
    ensures
        ({
            let next = select::fed_granule(scan, columns, granule, readings);
            let added = granule_shown(scan.filter, columns, data_read(columns, shown[0]), granule);
            &&& next is Ok
            &&& next->Ok_0.format == FormatView::Simple(
                collected_of(scan.filter, columns, shown, rows_before(columns, granule + 1)),
            )
            &&& next->Ok_0.strategy.lines_to_read == scan.strategy.lines_to_read
            &&& next->Ok_0.strategy.lines_read == added.len()
            &&& next->Ok_0.filter == scan.filter
            &&& next->Ok_0.column_count == scan.column_count
            &&& next->Ok_0.order_by == scan.order_by
            &&& next->Ok_0.limit == scan.limit
            &&& next->Ok_0.offset == scan.offset
        }),
{
    let held = collected_of(scan.filter, columns, shown, rows_before(columns, granule));
    let read = Seq::new(
        shown.len(),
        |k: int| virtual_storage::granule_values(data_read(columns, shown[k]), granule),
    );
    assert(aggregator::projs_of(held) =~= shown);
    lemma_result_read(columns, granule, shown, readings, 0);
    assert(read.take(0) =~= Seq::<Seq<Value>>::empty());
    let part = select::result_granule(columns, granule);
    let chunk = Seq::new(
        shown.len(),
        |k: int| granule_shown(scan.filter, columns, data_read(columns, shown[k]), granule),
    );
    let from = rows_before(columns, granule);
    let to = rows_before(columns, granule + 1);
    assert forall|k: int| 0 <= k < shown.len() implies (#[trigger] data_read(columns, shown[k])).len()
        == select::row_count(columns) by {
        search::lemma_position(columns, merge_tree::column_of(shown[k]));
    }
    let out = collected_of(scan.filter, columns, shown, to);
    assert forall|k: int| 0 <= k < shown.len() implies #[trigger] out[k] == (RawColumnView {
        alias: held[k].alias,
        proj: held[k].proj,
        data: RawDataView::Values(held[k].data->Values_0 + chunk[k]),
    }) by {
        assert(data_read(columns, shown[k]).len() == select::row_count(columns));
        lemma_granule_shown(scan.filter, columns, data_read(columns, shown[k]), granule);
    }
    assert(data_read(columns, shown[0]).len() == select::row_count(columns));
    lemma_granule_shown(scan.filter, columns, data_read(columns, shown[0]), granule);
    lemma_granule_rows(columns, data_read(columns, shown[0]), granule);
    match scan.filter {
        Some(f) => {
            let mask = compiled_filter::mask_of(f, part);
            assert forall|k: int| 0 <= k < read.len() implies (#[trigger] read[k]).len() <= mask.len() by {
                assert(data_read(columns, shown[k]).len() == select::row_count(columns));
                lemma_granule_rows(columns, data_read(columns, shown[k]), granule);
            }
            assert(select::passing(read, mask) =~= chunk);
            assert forall|k: int| 0 <= k < chunk.len() implies (#[trigger] chunk[k]).len() == chunk[0].len() by {
                assert(data_read(columns, shown[k]).len() == select::row_count(columns));
                lemma_granule_rows(columns, data_read(columns, shown[k]), granule);
                compiled_filter::lemma_retained_lengths_agree(read[k], read[0], mask);
            }
            lemma_retained_shorter(read[0], mask);
        },
        None => {
            assert(read =~= chunk);
        },
    }
    if aggregator::chunk_rows(chunk) == 0 {
        assert forall|k: int| 0 <= k < shown.len() implies #[trigger] out[k] == held[k] by {
            assert(chunk[k].len() == 0);
            assert(held[k].data->Values_0 + chunk[k] =~= held[k].data->Values_0);
        }
        assert(out =~= held);
    } else {
        lemma_columns_appended(held, chunk, out, 0);
    }
}

/// Retaining keeps no more values than there are.
pub proof fn lemma_retained_shorter(a: Seq<Value>, mask: Seq<bool>)
    ensures
        compiled_filter::retained(a, mask).len() <= a.len(),
    decreases a.len(),
{
    if a.len() > 0 {
        lemma_retained_shorter(a.drop_last(), mask);
    }
}

/// What a first run of rows gives is the start of what all rows give.
pub proof fn lemma_retained_starts(data: Seq<Value>, m: int, mask: Seq<bool>)
    requires
        0 <= m <= data.len(),
        data.len() <= mask.len(),
    ensures
        compiled_filter::retained(data.take(m), mask).is_prefix_of(compiled_filter::retained(data, mask)),
{
    let rest = data.skip(m);
    assert(data.take(m) + rest =~= data);
    lemma_retained_joins(data.take(m), rest, mask, mask.skip(m));
}

/// Where a query has stopped: all rows were read, or enough of those before satisfy the filter.
pub open spec fn has_stopped(
    scan: ScanView,
    columns: Seq<OutputColumnView>,
    shown: Seq<Projection>,
    m: int,
) -> bool {
    &&& 0 <= m <= select::row_count(columns)
    &&& scan.format == FormatView::Simple(collected_of(scan.filter, columns, shown, m))
    &&& m == select::row_count(columns) || scan.strategy.lines_to_read <= compiled_filter::retained(
        data_read(columns, shown[0]).take(m),
        rows_that_hold(scan.filter, columns),
    ).len()
}

/// A query that has read the rows before a granule reads on to where it stops.
proof fn lemma_scanned(
    scan: ScanView,
    columns: Seq<OutputColumnView>,
    shown: Seq<Projection>,
    granule: int,
    readings: Seq<NumberReading>,
)
    requires
        has_columns(columns, shown),
        shown.len() > 0,
        scan.column_count == columns.len(),
        scan.filter matches Some(f) ==> compiled_filter::reads_within(f, columns.len()),
        scan.format == FormatView::Simple(collected_of(scan.filter, columns, shown, rows_before(columns, granule))),
        0 <= granule <= table_part::granule_count(select::row_count(columns), 8192),
        scan.strategy.lines_read <= compiled_filter::retained(
            data_read(columns, shown[0]).take(rows_before(columns, granule)),
            rows_that_hold(scan.filter, columns),
        ).len(),
        select::row_count(columns) <= usize::MAX,
    ensures
        ({
            let end = select::scanned(scan, columns, granule, readings);
            &&& end is Ok
            &&& exists|m: int| #[trigger] has_stopped(end->Ok_0, columns, shown, m)
            &&& end->Ok_0.filter == scan.filter
            &&& end->Ok_0.strategy.lines_to_read == scan.strategy.lines_to_read
            &&& end->Ok_0.order_by == scan.order_by
            &&& end->Ok_0.limit == scan.limit
            &&& end->Ok_0.offset == scan.offset
        }),
    decreases table_part::granule_count(select::row_count(columns), 8192) - granule,
{
    let n = select::row_count(columns);
    let data = data_read(columns, shown[0]);
    search::lemma_position(columns, merge_tree::column_of(shown[0]));
    assert(search::position(columns, merge_tree::column_of(shown[0])) is Some);
    assert(data.len() == n);
    let here = rows_before(columns, granule);
    if scan.strategy.lines_to_read <= scan.strategy.lines_read {
        assert(0 <= here <= n);
        assert(has_stopped(scan, columns, shown, here));
    } else if granule >= table_part::granule_count(n, 8192) {
        assert(granule * 8192 >= n) by {
            if n > 0 {
                assert(granule == (n - 1) / 8192 + 1);
            }
        }
        assert(here == n);
        assert(has_stopped(scan, columns, shown, here));
    } else {
        lemma_granule_fed(scan, columns, shown, granule, readings);
        lemma_granule_shown(scan.filter, columns, data, granule);
        let next = select::fed_granule(scan, columns, granule, readings)->Ok_0;
        lemma_scanned(next, columns, shown, granule + 1, readings);
    }
}

/// A query that neither groups nor sorts answers with the rows that satisfy its WHERE, in the order in
/// which they stand, from the OFFSET on and no more than the LIMIT. It fails only where its filter
/// cannot be compiled or its counts are too large.
pub proof fn lemma_plain_query_answers_rows_that_hold<F: Fn(FoldKind, &Vec<Value>) -> u64>(
    fold: F,
    columns: Seq<OutputColumnView>,
    defs: Seq<ColumnDef>,
    clauses: ClausesView,
    readings: Seq<NumberReading>,
    result: Result<Seq<OutputColumnView>, ErrorView>,
)
    requires
        is_plain(clauses),
        has_columns(columns, clauses.columns),
        defs.len() == columns.len(),
        columns.len() <= usize::MAX,
        select::row_count(columns) <= usize::MAX,
        select::started(clauses, defs, select::row_count(columns) as usize, readings) is Ok,
        select::result_scan_owes(fold, columns, defs, clauses, readings, result),
    ensures
        ({
            let filter = match clauses.filter {
                Some(expr) => Some(compiled_filter::compiled(expr, defs, readings)->Ok_0),
                None => None,
            };
            &&& result is Ok
            &&& result->Ok_0.len() == clauses.columns.len()
            &&& forall|i: int|
                0 <= i < clauses.columns.len() ==> (#[trigger] result->Ok_0[i]).data == limited(
                    values_shown(filter, columns, clauses.columns[i]),
                    clauses.limit,
                    clauses.offset,
                )
        }),
{
    let n = select::row_count(columns);
    let shown = clauses.columns;
    let scan = select::started(clauses, defs, n as usize, readings)->Ok_0;
    let mask = rows_that_hold(scan.filter, columns);
    if let Some(expr) = clauses.filter {
        compiled_filter::lemma_compiled_reads_columns(expr, defs, readings);
    }
    assert forall|k: int| 0 <= k < shown.len() implies (#[trigger] data_read(columns, shown[k])).len() == n by {
        assert(search::position(columns, merge_tree::column_of(shown[k])) is Some);
        search::lemma_position(columns, merge_tree::column_of(shown[k]));
    }
    let none = collected_of(scan.filter, columns, shown, rows_before(columns, 0));
    assert(shown.map_values(|p: Projection| aggregator::values_column(p)) =~= none) by {
        assert forall|k: int| 0 <= k < shown.len() implies #[trigger] none[k] == aggregator::values_column(
            shown[k],
        ) by {
            assert(data_read(columns, shown[k]).take(0) =~= Seq::<Value>::empty());
        }
    }
    lemma_scanned(scan, columns, shown, 0, readings);
    let end = select::scanned(scan, columns, 0, readings)->Ok_0;
    let m = choose|m: int| #[trigger] has_stopped(end, columns, shown, m);
    let format = choose|format: AggregatorFormat|
        format@ == end.format && #[trigger] select::finish_owes(fold, format, readings, end, result);
    let (read, sorted) = choose|
        read: Seq<OutputColumnView>,
        sorted: Result<Seq<OutputColumnView>, ErrorView>,
    |
        aggregator::is_result(fold, format, readings, read) && #[trigger] select::ordering_owes(
            read,
            end.order_by,
            sorted,
        ) && result == (match sorted {
            Ok(cols) => select::cut(cols, end.limit, end.offset),
            Err(e) => Err(e),
        });
    let got = collected_of(scan.filter, columns, shown, m);
    assert(format is Simple);
    let raw = format->Simple_0@;
    assert(aggregator::raw_views(raw) == got);
    assert(raw.len() == shown.len());
    assert forall|k: int| 0 <= k < read.len() implies (#[trigger] read[k]).data == compiled_filter::retained(
        data_read(columns, shown[k]).take(m),
        mask,
    ) by {
        assert(aggregator::raw_views(raw)[k] == raw[k]@);
        assert(got[k] == raw[k]@);
        assert(aggregator::is_finished(fold, raw[k], readings, read[k]));
    }
    let first = compiled_filter::retained(data_read(columns, shown[0]).take(m), mask);
    assert(select::row_count(read) == first.len());
    assert forall|k: int| 0 <= k < read.len() implies (#[trigger] read[k]).data.len() == first.len() by {
        assert(data_read(columns, shown[k]).len() == n);
        assert(data_read(columns, shown[0]).len() == n);
        compiled_filter::lemma_retained_lengths_agree(
            data_read(columns, shown[k]).take(m),
            data_read(columns, shown[0]).take(m),
            mask,
        );
    }
    assert(data_read(columns, shown[0]).len() == n);
    lemma_retained_shorter(data_read(columns, shown[0]).take(m), mask);
    assert forall|k: int| 0 <= k < shown.len() implies (#[trigger] result->Ok_0[k]).data == limited(
        values_shown(scan.filter, columns, shown[k]),
        clauses.limit,
        clauses.offset,
    ) by {
        select::lemma_cut_is_a_window(read, end.limit, end.offset, k);
        assert(data_read(columns, shown[k]).len() == n);
        let some = read[k].data;
        let all = values_shown(scan.filter, columns, shown[k]);
        lemma_retained_starts(data_read(columns, shown[k]), m, mask);
        if m == n {
            assert(data_read(columns, shown[k]).take(m) =~= data_read(columns, shown[k]));
        }
        assert(some.is_prefix_of(all));
        assert(some.len() == first.len());
        assert(limited(some, clauses.limit, clauses.offset) =~= limited(all, clauses.limit, clauses.offset));
    }
    select::lemma_cut_is_a_window(read, end.limit, end.offset, 0);
}

} // verus!
