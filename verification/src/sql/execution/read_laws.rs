//! What is read of the parts of a table for a query, said of the columns that parts hold.
use vstd::prelude::*;

use crate::engines::sorting_laws;
use crate::engines::EngineName;
use crate::error::ErrorView;
use crate::search;
use crate::sql::compiled_filter;
use crate::sql::execution::select;
use crate::sql::execution::select::scan;
use crate::sql::execution::table_scan;
use crate::sql::projection;
use crate::sql::projection::{Projection, ProjectionValue};
use crate::storage::column;
use crate::storage::column::{ColumnDef, OutputColumnView};
use crate::storage::numbers::NumberReading;
use crate::storage::table_part::TablePartInfo;
use crate::storage::tables::native;
use crate::storage::tables::native::NativeStorage;
use crate::storage::tables::{SealedMode, StorageRead};
use crate::storage::value::Value;

verus! {

/// Whether a column of a part is the first that is declared like one that is wanted.
pub open spec fn is_column_like(defs: Seq<ColumnDef>, k: int, wanted: ColumnDef) -> bool {
    &&& 0 <= k < defs.len()
    &&& sorting_laws::is_same_column(defs[k], wanted)
    &&& forall|j: int| 0 <= j < k ==> !sorting_laws::is_same_column(#[trigger] defs[j], wanted)
}

proof fn lemma_column_like(defs: Seq<ColumnDef>, wanted: ColumnDef)
    ensures
        match search::position(defs, column::equal_to(wanted)) {
            Some(k) => is_column_like(defs, k, wanted),
            None => forall|k: int| 0 <= k < defs.len() ==> !sorting_laws::is_same_column(#[trigger] defs[k], wanted),
        },
{
    let f = column::equal_to(wanted);
    search::lemma_position(defs, f);
    assert forall|c: ColumnDef| #[trigger] f(c) <==> sorting_laws::is_same_column(c, wanted) by {
        sorting_laws::lemma_equal_columns_are_declared_alike(c, wanted);
    }
    match search::position(defs, f) {
        Some(k) => {
            assert(f(defs[k]));
            assert forall|j: int| 0 <= j < k implies !sorting_laws::is_same_column(#[trigger] defs[j], wanted) by {
                assert(!f(defs[j]));
            }
        },
        None => {
            assert forall|k: int| 0 <= k < defs.len() implies !sorting_laws::is_same_column(
                #[trigger] defs[k],
                wanted,
            ) by {
                assert(!f(defs[k]));
            }
        },
    }
}

/// What a granule has for a projection are the values of the column that it reads, if its part has it; a
/// column that the part does not have, and a value, are not read.
pub proof fn lemma_the_asked_for_column_is_read(
    defs: Seq<ColumnDef>,
    values: Seq<Seq<Value>>,
    p: Projection,
)
    ensures
        table_scan::read_values(defs, values, p) matches Some(v) ==> p.source is ColumnDef && exists|k: int| #[trigger]
            is_column_like(defs, k, p.source->ColumnDef_0) && v == values[k],
        table_scan::read_values(defs, values, p) is None ==> p.source is Value || forall|k: int|
            0 <= k < defs.len() ==> !sorting_laws::is_same_column(#[trigger] defs[k], p.source->ColumnDef_0),
{
    if let ProjectionValue::ColumnDef(c) = p.source {
        lemma_column_like(defs, c);
        if let Some(k) = search::position(defs, column::equal_to(c)) {
            assert(is_column_like(defs, k, c));
        }
    }
}

/// A filter sees for each column of the table the values that the part has for it, and NULL in every row where
/// the part does not have it.
pub proof fn lemma_filter_sees_the_columns_of_the_table(
    schema: Seq<ColumnDef>,
    defs: Seq<ColumnDef>,
    values: Seq<Seq<Value>>,
    rows: nat,
    i: int,
)
    requires
        0 <= i < schema.len(),
    ensures
        ({
            let seen = table_scan::schema_values(schema, defs, values, rows);
            &&& seen.len() == schema.len()
            &&& (exists|k: int| #[trigger] is_column_like(defs, k, schema[i]) && seen[i] == values[k]) || ((forall|k: int|
                0 <= k < defs.len() ==> !sorting_laws::is_same_column(#[trigger] defs[k], schema[i])) && seen[i].len()
                == rows && forall|r: int| 0 <= r < rows ==> #[trigger] seen[i][r] == Value::Null)
        }),
{
    lemma_column_like(defs, schema[i]);
    if let Some(k) = search::position(defs, column::equal_to(schema[i])) {
        assert(is_column_like(defs, k, schema[i]));
    }
}

/// A granule adds to a column that its part does not have a NULL for each row that passes, so that all columns
/// grow alike.
pub proof fn lemma_columns_grow_alike(values: Seq<Value>, mask: Seq<bool>)
    requires
        values.len() == mask.len(),
    ensures
        table_scan::granule_adds(Some(values), mask).len() == table_scan::granule_adds(None, mask).len(),
        table_scan::granule_adds(Some(values), mask) == compiled_filter::retained(values, mask),
        forall|i: int|
            0 <= i < table_scan::granule_adds(None, mask).len() ==> #[trigger] table_scan::granule_adds(None, mask)[i]
                == Value::Null,
{
    lemma_passing(values, mask);
}

proof fn lemma_passing(values: Seq<Value>, mask: Seq<bool>)
    requires
        values.len() <= mask.len(),
    ensures
        compiled_filter::retained(values, mask).len() == table_scan::passing_rows(mask, values.len() as int),
    decreases values.len(),
{
    if values.len() > 0 {
        lemma_passing(values.drop_last(), mask);
    }
}

/// Whether a column is among those that are read.
pub open spec fn is_among_read(read: Seq<Projection>, c: ColumnDef) -> bool {
    exists|i: int| 0 <= i < read.len() && reads_column(#[trigger] read[i], c)
}

/// Whether a projection reads a column.
pub open spec fn reads_column(p: Projection, c: ColumnDef) -> bool {
    p.source is ColumnDef && sorting_laws::is_same_column(p.source->ColumnDef_0, c)
}

/// Whether every column that projections read is among those that are read.
pub open spec fn are_among_read(read: Seq<Projection>, asked: Seq<Projection>) -> bool {
    forall|k: int|
        0 <= k < asked.len() && (#[trigger] asked[k]).source is ColumnDef && has_plain_default(
            asked[k].source->ColumnDef_0,
        ) ==> is_among_read(read, asked[k].source->ColumnDef_0)
}

/// Whether a column equals itself: its default is not a floating-point value that is no number.
pub open spec fn has_plain_default(c: ColumnDef) -> bool {
    sorting_laws::is_same_column(c, c)
}

/// Whether no column is read twice, and every projection that is read reads a column.
pub open spec fn are_read_once(read: Seq<Projection>) -> bool {
    &&& forall|i: int| 0 <= i < read.len() ==> (#[trigger] read[i]).source is ColumnDef
    &&& forall|i: int, j: int|
        0 <= i < j < read.len() ==> !reads_column(#[trigger] read[i], (#[trigger] read[j]).source->ColumnDef_0)
}

proof fn lemma_one_added(read: Seq<Projection>, p: Projection)
    requires
        are_read_once(read),
    ensures
        ({
            let more = table_scan::projection_added(read, p);
            &&& are_read_once(more)
            &&& forall|c: ColumnDef| #[trigger] is_among_read(read, c) ==> is_among_read(more, c)
            &&& p.source is ColumnDef && has_plain_default(p.source->ColumnDef_0) ==> is_among_read(
                more,
                p.source->ColumnDef_0,
            )
        }),
{
    if let ProjectionValue::ColumnDef(c) = p.source {
        let f = table_scan::reads(c);
        search::lemma_position(read, f);
        assert forall|q: Projection| #[trigger] f(q) <==> reads_column(q, c) by {
            if let ProjectionValue::ColumnDef(d) = q.source {
                sorting_laws::lemma_equal_columns_are_declared_alike(d, c);
            }
        }
        match search::position(read, f) {
            Some(k) => {
                assert(f(read[k]));
                assert(reads_column(read[k], c));
            },
            None => {
                let more = read.push(p);
                assert forall|i: int| 0 <= i < read.len() implies !reads_column(#[trigger] read[i], c) by {
                    assert(!f(read[i]));
                }
                assert(more[read.len() as int] == p);
                assert forall|d: ColumnDef| #[trigger] is_among_read(read, d) implies is_among_read(more, d) by {
                    let i = choose|i: int| 0 <= i < read.len() && reads_column(#[trigger] read[i], d);
                    assert(more[i] == read[i]);
                }
            },
        }
    }
}

proof fn lemma_all_added(read: Seq<Projection>, asked: Seq<Projection>, n: int)
    requires
        are_read_once(read),
        0 <= n <= asked.len(),
    ensures
        ({
            let more = table_scan::projections_added(read, asked, n);
            &&& are_read_once(more)
            &&& forall|c: ColumnDef| #[trigger] is_among_read(read, c) ==> is_among_read(more, c)
            &&& forall|k: int|
                0 <= k < n && (#[trigger] asked[k]).source is ColumnDef && has_plain_default(
                    asked[k].source->ColumnDef_0,
                ) ==> is_among_read(more, asked[k].source->ColumnDef_0)
        }),
    decreases n,
{
    if n > 0 {
        lemma_all_added(read, asked, n - 1);
        lemma_one_added(table_scan::projections_added(read, asked, n - 1), asked[n - 1]);
    }
}

proof fn lemma_orders_added(read: Seq<Projection>, orders: Seq<Seq<Projection>>, n: int)
    requires
        are_read_once(read),
        0 <= n <= orders.len(),
    ensures
        ({
            let more = table_scan::orders_added(read, orders, n);
            &&& are_read_once(more)
            &&& forall|c: ColumnDef| #[trigger] is_among_read(read, c) ==> is_among_read(more, c)
            &&& forall|k: int| 0 <= k < n ==> are_among_read(more, #[trigger] orders[k])
        }),
    decreases n,
{
    if n > 0 {
        lemma_orders_added(read, orders, n - 1);
        let before = table_scan::orders_added(read, orders, n - 1);
        lemma_all_added(before, orders[n - 1], orders[n - 1].len() as int);
    }
}

proof fn lemma_from_disk(columns: Seq<Projection>, n: int)
    requires
        0 <= n <= columns.len(),
    ensures
        exists|at: Seq<int>| #[trigger] are_disk_columns(columns, n, at, table_scan::from_disk(columns, n)),
    decreases n,
{
    let p = disk_columns_among(columns);
    let out = table_scan::from_disk(columns, n);
    if n <= 0 {
        let none = Seq::<int>::empty();
        assert(are_disk_columns(columns, n, none, out));
    } else {
        lemma_from_disk(columns, n - 1);
        let below = table_scan::from_disk(columns, n - 1);
        let at = choose|at: Seq<int>| #[trigger] are_disk_columns(columns, n - 1, at, below);
        search::lemma_one_more_selected(at, n - 1, p);
        if p(n - 1) {
            let more = at.push(n - 1);
            assert forall|k: int| 0 <= k < more.len() implies #[trigger] out[k] == columns[more[k]] by {
                if k < at.len() {
                    assert(out[k] == below[k]);
                    assert(more[k] == at[k]);
                }
            }
            assert(are_disk_columns(columns, n, more, out));
        } else {
            assert(are_disk_columns(columns, n, at, out));
        }
    }
}

/// The property of being the position of a projection that reads a column.
pub open spec fn disk_columns_among(columns: Seq<Projection>) -> spec_fn(int) -> bool {
    |i: int| columns[i].source is ColumnDef
}

/// Whether projections are those of the first `n` that read a column, in their order.
pub open spec fn are_disk_columns(columns: Seq<Projection>, n: int, at: Seq<int>, out: Seq<Projection>) -> bool {
    &&& search::are_selected(at, n, disk_columns_among(columns))
    &&& out.len() == at.len()
    &&& forall|k: int| 0 <= k < at.len() ==> #[trigger] out[k] == columns[at[k]]
}

/// A query reads every column that it shows, filters by or sorts by, and reads none twice.
pub proof fn lemma_all_columns_needed_are_read(
    columns: Seq<Projection>,
    filtered_by: Seq<ColumnDef>,
    orders: Option<Seq<Seq<Projection>>>,
)
    ensures
        ({
            let read = table_scan::columns_to_read(columns, filtered_by, orders);
            &&& are_read_once(read)
            &&& are_among_read(read, columns)
            &&& forall|k: int|
                0 <= k < filtered_by.len() && has_plain_default(#[trigger] filtered_by[k]) ==> is_among_read(
                    read,
                    filtered_by[k],
                )
            &&& orders is Some ==> forall|k: int|
                0 <= k < orders->Some_0.len() ==> are_among_read(read, #[trigger] orders->Some_0[k])
        }),
{
    let disk = table_scan::from_disk(columns, columns.len() as int);
    lemma_from_disk(columns, columns.len() as int);
    let at = choose|at: Seq<int>| #[trigger] are_disk_columns(columns, columns.len() as int, at, disk);
    let shown = table_scan::projections_added(seq![], disk, disk.len() as int);
    lemma_all_added(seq![], disk, disk.len() as int);
    let wanted = projection::column_projections(filtered_by);
    let filtered = table_scan::projections_added(shown, wanted, filtered_by.len() as int);
    lemma_all_added(shown, wanted, filtered_by.len() as int);
    let read = table_scan::columns_to_read(columns, filtered_by, orders);
    if let Some(list) = orders {
        lemma_orders_added(filtered, list, list.len() as int);
    }
    assert forall|k: int|
        0 <= k < columns.len() && (#[trigger] columns[k]).source is ColumnDef && has_plain_default(
            columns[k].source->ColumnDef_0,
        ) implies is_among_read(read, columns[k].source->ColumnDef_0) by {
        assert(disk_columns_among(columns)(k));
        assert(at.contains(k));
        let j = choose|j: int| 0 <= j < at.len() && at[j] == k;
        assert(disk[j] == columns[k]);
        let c = columns[k].source->ColumnDef_0;
        assert(is_among_read(shown, c));
        assert(is_among_read(filtered, c));
    }
    assert forall|k: int| 0 <= k < filtered_by.len() && has_plain_default(#[trigger] filtered_by[k]) implies is_among_read(
        read,
        filtered_by[k],
    ) by {
        assert(wanted[k].source == ProjectionValue::ColumnDef(filtered_by[k]));
        assert(is_among_read(filtered, filtered_by[k]));
    }
}

/// A granule has as many rows as the first column that was read of it.
pub proof fn lemma_rows_are_those_of_the_first_column(columns: Seq<Option<Seq<Value>>>, i: int)
    requires
        0 <= i <= columns.len(),
    ensures
        match scan::granule_rows(columns, i) {
            Some(n) => exists|k: int|
                i <= k < columns.len() && (#[trigger] columns[k]) is Some && columns[k]->Some_0.len() == n && forall|j: int|
                    i <= j < k ==> (#[trigger] columns[j]) is None,
            None => forall|k: int| i <= k < columns.len() ==> (#[trigger] columns[k]) is None,
        },
    decreases columns.len() - i,
{
    if i < columns.len() && columns[i] is None {
        lemma_rows_are_those_of_the_first_column(columns, i + 1);
        if scan::granule_rows(columns, i) is Some {
            let n = scan::granule_rows(columns, i)->Some_0;
            let k = choose|k: int|
                i + 1 <= k < columns.len() && (#[trigger] columns[k]) is Some && columns[k]->Some_0.len() == n && forall|
                    j: int,
                |
                    i + 1 <= j < k ==> (#[trigger] columns[j]) is None;
            assert(columns[k] is Some);
        }
    }
}

/// The rows of a table are sorted by the ORDER BY of a query, and stay as they were read without one.
pub proof fn lemma_table_rows_are_sorted(
    primary_key: Seq<ColumnDef>,
    columns: Seq<OutputColumnView>,
    order_by: Option<Seq<Seq<Projection>>>,
    sorted: Seq<OutputColumnView>,
)
    requires
        table_scan::sorted_for(EngineName::MergeTree, primary_key, columns, order_by, Ok(sorted)),
    ensures
        order_by is None ==> sorted == columns,
        order_by is Some && order_by->Some_0.len() == 1 ==> sorting_laws::is_sorted_by(
            columns,
            order_by->Some_0[0],
            sorted,
        ),
{
    if let Some(orders) = order_by {
        if orders.len() == 1 {
            reveal_with_fuel(select::sorting_owes, 3);
            let result = Ok::<Seq<OutputColumnView>, ErrorView>(sorted);
            let before = choose|before: Result<Seq<OutputColumnView>, ErrorView>|
                select::sorting_owes(EngineName::MergeTree, primary_key, columns, orders, 0, before) && #[trigger]
                    select::order_owes(EngineName::MergeTree, primary_key, before, orders[0], result);
            assert(before == Ok::<Seq<OutputColumnView>, ErrorView>(columns));
            sorting_laws::lemma_sorted_rows_ascend(orders[0], columns, result);
        }
    }
}

/// Whether a column of a part is the first with a name.
pub open spec fn is_first_named(defs: Seq<ColumnDef>, i: int, name: Seq<char>) -> bool {
    &&& 0 <= i < defs.len()
    &&& defs[i].name@ == name
    &&& forall|j: int| 0 <= j < i ==> (#[trigger] defs[j]).name@ != name
}

/// The loaded granule of a table has for a column the values that its part has under the name of the column, and NULL
/// for as many rows as a full granule has where the part has none.
pub proof fn lemma_loaded_granule_has_the_named_column<Mode: SealedMode>(
    storage: NativeStorage<Mode>,
    c: ColumnDef,
    readings: Seq<NumberReading>,
)
    requires
        storage.position is Some,
    ensures
        ({
            let defs = storage.config.infos@[storage.position->Some_0.part_idx as int].column_defs@;
            let p = Projection { alias: None, source: ProjectionValue::ColumnDef(c) };
            let values = storage.chunk_column(p, readings);
            &&& values is Ok
            &&& (exists|i: int| #[trigger] is_first_named(defs, i, c.name@) && values->Ok_0 == storage.chunk@[i]@) || ((forall|
                i: int,
            |
                0 <= i < defs.len() ==> (#[trigger] defs[i]).name@ != c.name@) && values->Ok_0.len() == 8192 && forall|r: int|
                0 <= r < 8192 ==> #[trigger] values->Ok_0[r] == Value::Null)
        }),
{
    let defs = storage.config.infos@[storage.position->Some_0.part_idx as int].column_defs@;
    let f = column::named(c.name@);
    search::lemma_position(defs, f);
    match search::position(defs, f) {
        Some(k) => {
            assert(f(defs[k]));
            assert forall|j: int| 0 <= j < k implies (#[trigger] defs[j]).name@ != c.name@ by {
                assert(!f(defs[j]));
            }
            assert(is_first_named(defs, k, c.name@));
        },
        None => {
            assert forall|i: int| 0 <= i < defs.len() implies (#[trigger] defs[i]).name@ != c.name@ by {
                assert(!f(defs[i]));
            }
        },
    }
}

/// The rows of a table are those of its parts added up.
pub proof fn lemma_table_has_the_rows_of_its_parts<Mode: SealedMode>(storage: NativeStorage<Mode>)
    ensures
        storage.total_rows() == storage.config.infos@.map_values(|i: TablePartInfo| i.row_count as nat).fold_left(
            0nat,
            |sum: nat, rows: nat| sum + rows,
        ),
{
    lemma_rows_add_up(storage.config.infos@, storage.config.infos@.len() as int);
    let infos = storage.config.infos@;
    assert(infos.take(infos.len() as int) =~= infos);
}

proof fn lemma_rows_add_up(infos: Seq<TablePartInfo>, n: int)
    requires
        0 <= n <= infos.len(),
    ensures
        native::rows_in(infos, n) == infos.take(n).map_values(|i: TablePartInfo| i.row_count as nat).fold_left(
            0nat,
            |sum: nat, rows: nat| sum + rows,
        ),
    decreases n,
{
    if n > 0 {
        lemma_rows_add_up(infos, n - 1);
        let counts = infos.take(n).map_values(|i: TablePartInfo| i.row_count as nat);
        assert(counts.drop_last() =~= infos.take(n - 1).map_values(|i: TablePartInfo| i.row_count as nat));
    }
}

} // verus!
