//! What is left of the rows of an INSERT in the part that it makes, and in the answers of later queries.
use vstd::prelude::*;

use crate::engines::merge_tree;
use crate::engines::order;
use crate::engines::EngineName;
use crate::error::ErrorView;
use crate::search;
use crate::sql::compiled_filter;
use crate::sql::execution::insert;
use crate::sql::execution::select;
use crate::sql::execution::select::aggregator;
use crate::sql::execution::select::aggregator::FoldKind;
use crate::sql::execution::select::chunk_laws;
use crate::sql::execution::select::laws;
use crate::sql::execution::select::table_laws;
use crate::sql::physical_plan::ClausesView;
use crate::sql::projection;
use crate::sql::projection::Projection;
use crate::sql::sql_parser;
use crate::storage::column;
use crate::storage::column::{ColumnDef, OutputColumnView, PhysicalColumnView};
use crate::storage::numbers::NumberReading;
use crate::storage::table_metadata::TableMetadataView;
use crate::storage::table_part;
use crate::storage::table_part::TablePartView;
use crate::storage::value::Value;

verus! {

/// Whether a list holds each of the first `n` rows once.
pub open spec fn is_reordering(idx: Seq<int>, n: nat) -> bool {
    &&& idx.len() == n
    &&& forall|i: int| 0 <= i < n ==> 0 <= #[trigger] idx[i] < n
    &&& idx.no_duplicates()
}

/// Columns whose rows stand in another order, which is the same for all of them.
pub open spec fn reordered(columns: Seq<PhysicalColumnView>, idx: Seq<int>) -> Seq<PhysicalColumnView> {
    columns.map_values(
        |c: PhysicalColumnView|
            PhysicalColumnView { column_def: c.column_def, data: order::gather_data(c.data, idx) },
    )
}

/// Whether a `MergeTree` table takes in columns: they have rows, one value of each column for every row,
/// and the columns that the table is sorted by are among them, with values that can be compared.
pub open spec fn takes_in(metadata: TableMetadataView, columns: Seq<PhysicalColumnView>) -> bool {
    &&& metadata.settings.engine == EngineName::MergeTree
    &&& metadata.settings.index_granularity > 0
    &&& metadata.schema.order_by.len() > 0
    &&& columns.len() > 0
    &&& columns[0].data.len() > 0
    &&& table_part::physical_lengths(columns, columns[0].data.len())
    &&& table_part::can_be_sorted(metadata, columns)
    &&& merge_tree::resolve(
        projection::column_projections(metadata.schema.order_by),
        column::outputs_of(columns),
    ) is Some
}

/// The part that an INSERT into a `MergeTree` table makes holds each row that was inserted once, and no
/// other: its columns are the inserted ones, their rows in another order.
pub proof fn lemma_inserted_part_holds_each_row_once(
    metadata: TableMetadataView,
    columns: Seq<PhysicalColumnView>,
    result: Result<TablePartView, ErrorView>,
) -> (idx: Seq<int>)
    requires
        takes_in(metadata, columns),
        insert::inserted_part_owes(metadata, columns, result),
    ensures
        is_reordering(idx, columns[0].data.len()),
        result matches Ok(part) && part.data == reordered(columns, idx),
{
    let order_by = projection::column_projections(metadata.schema.order_by);
    let cols = column::outputs_of(columns);
    let name = choose|name: String|
        table_part::is_chosen(None, name) && #[trigger] table_part::part_owes(metadata, columns, name, result);
    let ordered = choose|ordered: Result<Seq<OutputColumnView>, ErrorView>|
        #[trigger] table_part::ordered_part_owes(metadata, columns, name, result, ordered);
    assert(table_part::ordered_part_owes(metadata, columns, name, result, ordered));
    assert(merge_tree::same_lengths(cols)) by {
        assert forall|i: int| 0 <= i < cols.len() implies (#[trigger] cols[i]).data.len() == cols[0].data.len() by {
            assert(columns[i].data.len() == columns[0].data.len());
        }
    }
    let ord = merge_tree::resolve(order_by, cols)->Some_0;
    let out = ordered->Ok_0;
    let idx = choose|idx: Seq<int>|
        #[trigger] order::is_stable_order(cols, ord, cols[0].data.len(), idx) && out == order::gather(cols, idx);
    assert(order::is_stable_order(cols, ord, cols[0].data.len(), idx));
    assert(table_part::physical_of(out) =~= reordered(columns, idx));
    idx
}

/// The values of the column with a given name.
pub open spec fn values_named(columns: Seq<PhysicalColumnView>, name: Seq<char>) -> Seq<Value> {
    columns[search::position(table_part::defs_of(columns), column::named(name))->Some_0].data
}

/// What columns have for the projections of a query.
pub open spec fn shown_of(
    columns: Seq<PhysicalColumnView>,
    projections: Seq<Projection>,
    readings: Seq<NumberReading>,
) -> Seq<Seq<Value>> {
    Seq::new(
        projections.len(),
        |k: int| values_named(columns, sql_parser::source_text(projections[k].source, readings)),
    )
}

/// What columns have for those of a schema.
pub open spec fn stored_of(columns: Seq<PhysicalColumnView>, defs: Seq<ColumnDef>) -> Seq<Seq<Value>> {
    Seq::new(defs.len(), |c: int| values_named(columns, defs[c].name@))
}

/// What parts have for the projections of a query.
pub open spec fn all_shown(
    parts: Seq<Seq<PhysicalColumnView>>,
    projections: Seq<Projection>,
    readings: Seq<NumberReading>,
) -> Seq<Seq<Seq<Value>>> {
    parts.map_values(|p: Seq<PhysicalColumnView>| shown_of(p, projections, readings))
}

/// What parts have for the columns of a schema.
pub open spec fn all_stored(parts: Seq<Seq<PhysicalColumnView>>, defs: Seq<ColumnDef>) -> Seq<Seq<Seq<Value>>> {
    parts.map_values(|p: Seq<PhysicalColumnView>| stored_of(p, defs))
}

/// Whether every projection of a query and every column of a schema is among columns.
pub open spec fn all_named(
    columns: Seq<PhysicalColumnView>,
    projections: Seq<Projection>,
    defs: Seq<ColumnDef>,
    readings: Seq<NumberReading>,
) -> bool {
    &&& forall|k: int|
        0 <= k < projections.len() ==> search::position(
            table_part::defs_of(columns),
            column::named(sql_parser::source_text((#[trigger] projections[k]).source, readings)),
        ) is Some
    &&& forall|c: int|
        0 <= c < defs.len() ==> search::position(
            table_part::defs_of(columns),
            column::named((#[trigger] defs[c]).name@),
        ) is Some
}

/// A column of reordered ones has the values of the column that it was.
proof fn lemma_named_reordered(columns: Seq<PhysicalColumnView>, idx: Seq<int>, name: Seq<char>)
    requires
        search::position(table_part::defs_of(columns), column::named(name)) is Some,
    ensures
        values_named(reordered(columns, idx), name) == order::gather_data(values_named(columns, name), idx),
{
    assert(table_part::defs_of(reordered(columns, idx)) =~= table_part::defs_of(columns));
    search::lemma_position(table_part::defs_of(columns), column::named(name));
}

/// A column of even ones has as many values as the others.
proof fn lemma_named_length(columns: Seq<PhysicalColumnView>, rows: nat, name: Seq<char>)
    requires
        table_part::physical_lengths(columns, rows),
        search::position(table_part::defs_of(columns), column::named(name)) is Some,
    ensures
        values_named(columns, name).len() == rows,
{
    search::lemma_position(table_part::defs_of(columns), column::named(name));
}

/// What was inserted is what is selected, together with what was there before. After an INSERT into a
/// `MergeTree` table a query that neither groups nor sorts answers as over a table in which the inserted
/// rows, in some order, stand behind the rows of the parts that were there: with those that satisfy its
/// WHERE, from the OFFSET on and no more than the LIMIT. Every part has the columns that are read and
/// those of the schema, and is read granule by granule.
pub proof fn lemma_insert_then_select<F: Fn(FoldKind, &Vec<Value>) -> u64>(
    fold: F,
    metadata: TableMetadataView,
    before: Seq<Seq<PhysicalColumnView>>,
    columns: Seq<PhysicalColumnView>,
    part: TablePartView,
    clauses: ClausesView,
    total_rows: usize,
    readings: Seq<NumberReading>,
    result: Result<Seq<OutputColumnView>, ErrorView>,
) -> (idx: Seq<int>)
    requires
        takes_in(metadata, columns),
        insert::inserted_part_owes(metadata, columns, Ok(part)),
        all_named(columns, clauses.columns, metadata.schema.columns, readings),
        laws::is_plain(clauses),
        0 < metadata.schema.columns.len() <= usize::MAX,
        table_laws::hold_rows(
            all_shown(before, clauses.columns, readings),
            all_stored(before, metadata.schema.columns),
            clauses.columns.len(),
            metadata.schema.columns.len(),
        ),
        total_rows == table_laws::rows_joined(
            all_stored(before, metadata.schema.columns),
            before.len() as int,
        ) + columns[0].data.len(),
        select::started(clauses, metadata.schema.columns, total_rows, readings) is Ok,
        table_laws::chunks_owe(
            fold,
            table_laws::table_chunks(
                all_shown(before.push(part.data), clauses.columns, readings),
                metadata.settings.index_granularity as nat,
                before.len() as int + 1,
            ),
            table_laws::table_chunks(
                all_stored(before.push(part.data), metadata.schema.columns),
                metadata.settings.index_granularity as nat,
                before.len() as int + 1,
            ),
            metadata.schema.columns,
            clauses,
            total_rows,
            readings,
            result,
        ),
    ensures
        is_reordering(idx, columns[0].data.len()),
        result is Ok,
        result->Ok_0.len() == clauses.columns.len(),
        forall|k: int|
            0 <= k < clauses.columns.len() ==> (#[trigger] result->Ok_0[k]).data == laws::limited(
                compiled_filter::retained(
                    table_laws::whole_column(all_shown(before, clauses.columns, readings), k)
                        + order::gather_data(shown_of(columns, clauses.columns, readings)[k], idx),
                    table_laws::rows_that_hold(
                        table_laws::filter_of(clauses, metadata.schema.columns, readings),
                        all_stored(before.push(reordered(columns, idx)), metadata.schema.columns),
                        metadata.schema.columns.len(),
                    ),
                ),
                clauses.limit,
                clauses.offset,
            ),
{
    let idx = lemma_inserted_part_holds_each_row_once(metadata, columns, Ok(part));
    let defs = metadata.schema.columns;
    let projections = clauses.columns;
    let rows = columns[0].data.len();
    let n = before.len() as int;
    let parts = before.push(part.data);
    let shown = all_shown(parts, projections, readings);
    let stored = all_stored(parts, defs);
    let shown_before = all_shown(before, projections, readings);
    let stored_before = all_stored(before, defs);
    assert(shown =~= shown_before.push(shown_of(part.data, projections, readings)));
    assert(stored =~= stored_before.push(stored_of(part.data, defs)));
    assert forall|k: int| 0 <= k < projections.len() implies (#[trigger] shown[n][k]).len() == rows && shown[n][k]
        == order::gather_data(shown_of(columns, projections, readings)[k], idx) by {
        let name = sql_parser::source_text(projections[k].source, readings);
        lemma_named_reordered(columns, idx, name);
    }
    assert forall|c: int| 0 <= c < defs.len() implies (#[trigger] stored[n][c]).len() == rows by {
        assert(search::position(table_part::defs_of(columns), column::named(defs[c].name@)) is Some);
        lemma_named_reordered(columns, idx, defs[c].name@);
        lemma_named_length(columns, rows, defs[c].name@);
    }
    assert(stored[n].len() == defs.len());
    assert(stored[n][0].len() == rows);
    assert(aggregator::chunk_rows(stored[n]) == rows);
    assert forall|i: int| 0 <= i < shown.len() implies chunk_laws::is_even_chunk(
        #[trigger] shown[i],
        projections.len(),
    ) by {
        if i < n {
            assert(shown[i] == shown_before[i]);
        } else {
            assert(shown[n].len() == projections.len());
        }
    }
    assert forall|i: int| 0 <= i < shown.len() implies chunk_laws::is_even_chunk(#[trigger] stored[i], defs.len())
        && aggregator::chunk_rows(stored[i]) == aggregator::chunk_rows(shown[i]) by {
        if i < n {
            assert(stored[i] == stored_before[i]);
            assert(shown[i] == shown_before[i]);
        } else {
            assert(shown[n][0].len() == rows);
        }
    }
    lemma_rows_start(stored, stored_before, n);
    table_laws::lemma_inserted_rows_are_selected(
        fold,
        shown,
        stored,
        metadata.settings.index_granularity as nat,
        defs,
        clauses,
        total_rows,
        readings,
        result,
    );
    assert forall|k: int| 0 <= k < projections.len() implies #[trigger] table_laws::whole_column(shown, k)
        == table_laws::whole_column(shown_before, k) + order::gather_data(
        shown_of(columns, projections, readings)[k],
        idx,
    ) by {
        lemma_column_starts(shown, shown_before, k, n);
        assert(shown[n][k] == order::gather_data(shown_of(columns, projections, readings)[k], idx));
    }
    idx
}

/// As many rows as the first chunks of a list have, the list has there.
proof fn lemma_rows_start(all: Seq<Seq<Seq<Value>>>, first: Seq<Seq<Seq<Value>>>, n: int)
    requires
        0 <= n <= first.len() <= all.len(),
        forall|i: int| 0 <= i < n ==> #[trigger] all[i] == first[i],
    ensures
        table_laws::rows_joined(all, n) == table_laws::rows_joined(first, n),
    decreases n,
{
    if n > 0 {
        lemma_rows_start(all, first, n - 1);
        assert(all[n - 1] == first[n - 1]);
    }
}

/// The values that the first chunks of a list have for a column, the list has there.
proof fn lemma_column_starts(all: Seq<Seq<Seq<Value>>>, first: Seq<Seq<Seq<Value>>>, k: int, n: int)
    requires
        0 <= n <= first.len() <= all.len(),
        forall|i: int| 0 <= i < n ==> #[trigger] all[i] == first[i],
    ensures
        table_laws::column_joined(all, k, n) == table_laws::column_joined(first, k, n),
    decreases n,
{
    if n > 0 {
        lemma_column_starts(all, first, k, n - 1);
        assert(all[n - 1] == first[n - 1]);
    }
}

} // verus!
