//! What the answer to a query over the parts of a table is, said of the rows of the parts.
use vstd::prelude::*;

use crate::engines::EngineName;
use crate::error::{ErrorView, Outcome};
use crate::search;
use crate::sql::ast::Expr;
use crate::sql::compiled_filter;
use crate::sql::execution::select::aggregator;
use crate::sql::execution::select::chunk_laws;
use crate::sql::execution::select::filter;
use crate::sql::execution::select::laws;
use crate::sql::execution::select::scan;
use crate::sql::execution::select::table_laws;
use crate::sql::execution::table_scan;
use crate::sql::execution::table_scan::{ScanGoal, Scanned, ScannedPart};
use crate::sql::logical_plan::insert;
use crate::sql::projection;
use crate::sql::projection::{Projection, ProjectionValue};
use crate::storage::column;
use crate::storage::column::{ColumnDef, OutputColumnView};
use crate::storage::numbers::NumberReading;
use crate::storage::table_metadata::TableSchemaView;
use crate::storage::value::Value;

verus! {

/// A granule: the columns of its part, and the values of each of them.
pub struct PartGranule {
    pub defs: Seq<ColumnDef>,
    pub values: Seq<Seq<Value>>,
}

/// The granules of a part.
pub open spec fn granules_of(part: ScannedPart) -> Seq<PartGranule> {
    part.granules->Ok_0@.map_values(
        |g: Outcome<Vec<Vec<Value>>>|
            PartGranule { defs: part.column_defs@, values: aggregator::chunk_view(g->Ok_0@) },
    )
}

/// The granules of the parts from `p` on, one part behind the other.
pub open spec fn granules_from(parts: Seq<ScannedPart>, p: int) -> Seq<PartGranule>
    decreases parts.len() - p,
{
    if p >= parts.len() {
        seq![]
    } else {
        granules_of(parts[p]) + granules_from(parts, p + 1)
    }
}

/// Whether a part holds columns: it was opened, each of its granules was read and is even, and it has
/// every column that is read.
pub open spec fn part_holds(part: ScannedPart, read: Seq<Projection>) -> bool {
    &&& part.granules is Ok
    &&& forall|g: int|
        0 <= g < part.granules->Ok_0@.len() ==> (#[trigger] part.granules->Ok_0@[g]) is Ok
            && table_scan::granule_is_even(
            aggregator::chunk_view(part.granules->Ok_0@[g]->Ok_0@),
            part.column_defs@.len(),
        )
    &&& forall|k: int| 0 <= k < read.len() ==> has_column(part.column_defs@, #[trigger] read[k])
}

/// Whether a projection reads one of given columns.
pub open spec fn has_column(defs: Seq<ColumnDef>, proj: Projection) -> bool {
    match proj.source {
        ProjectionValue::ColumnDef(c) => search::position(defs, column::equal_to(c)) is Some,
        ProjectionValue::Value(_) => false,
    }
}

/// Whether a granule is even and has every column that is read.
pub open spec fn granule_holds(granule: PartGranule, read: Seq<Projection>) -> bool {
    &&& table_scan::granule_is_even(granule.values, granule.defs.len())
    &&& forall|k: int| 0 <= k < read.len() ==> has_column(granule.defs, #[trigger] read[k])
}

/// What a granule has for the columns that are read.
pub open spec fn chunk_of(granule: PartGranule, read: Seq<Projection>) -> Seq<Seq<Value>> {
    Seq::new(read.len(), |k: int| table_scan::read_values(granule.defs, granule.values, read[k])->Some_0)
}

/// How many rows a granule has.
pub open spec fn granule_rows(granule: PartGranule, read: Seq<Projection>) -> nat {
    aggregator::chunk_rows(chunk_of(granule, read))
}

/// What a granule has for the columns of the schema.
pub open spec fn schema_chunk_of(granule: PartGranule, read: Seq<Projection>, schema: Seq<ColumnDef>) -> Seq<
    Seq<Value>,
> {
    table_scan::schema_values(schema, granule.defs, granule.values, granule_rows(granule, read))
}

/// What granules have for the columns that are read.
pub open spec fn chunks_of(granules: Seq<PartGranule>, read: Seq<Projection>) -> Seq<Seq<Seq<Value>>> {
    granules.map_values(|g: PartGranule| chunk_of(g, read))
}

/// What granules have for the columns of the schema.
pub open spec fn schema_chunks_of(granules: Seq<PartGranule>, read: Seq<Projection>, schema: Seq<ColumnDef>) -> Seq<
    Seq<Seq<Value>>,
> {
    granules.map_values(|g: PartGranule| schema_chunk_of(g, read, schema))
}

/// What was read after the granules of a list from `i` on. Reading stops once there is enough.
pub open spec fn walked(goal: ScanGoal, granules: Seq<PartGranule>, i: int, before: Scanned) -> Scanned
    decreases granules.len() - i,
{
    if i >= granules.len() || before.is_enough {
        before
    } else {
        walked(
            goal,
            granules,
            i + 1,
            table_scan::with_granule(goal, granules[i].defs, granules[i].values, before),
        )
    }
}

/// Reading the granules of a part is going through them.
proof fn lemma_part_walked(goal: ScanGoal, part: ScannedPart, i: int, before: Scanned)
    requires
        part_holds(part, goal.read),
        0 <= i,
    ensures
        table_scan::granules_from(goal, part.column_defs@, part.granules->Ok_0@, i, before) == Ok::<
            Scanned,
            ErrorView,
        >(walked(goal, granules_of(part), i, before)),
    decreases part.granules->Ok_0@.len() - i,
{
    let granules = part.granules->Ok_0@;
    if i < granules.len() && !before.is_enough {
        assert(granules[i] is Ok);
        let next = table_scan::with_granule(
            goal,
            part.column_defs@,
            aggregator::chunk_view(granules[i]->Ok_0@),
            before,
        );
        lemma_part_walked(goal, part, i + 1, next);
    }
}

/// Going through one list of granules and then another is going through both.
proof fn lemma_walked_on(goal: ScanGoal, a: Seq<PartGranule>, b: Seq<PartGranule>, i: int, before: Scanned)
    requires
        0 <= i <= a.len(),
    ensures
        walked(goal, a + b, i, before) == walked(goal, b, 0, walked(goal, a, i, before)),
    decreases a.len() - i,
{
    if i < a.len() {
        if !before.is_enough {
            assert((a + b)[i] == a[i]);
            let next = table_scan::with_granule(goal, a[i].defs, a[i].values, before);
            lemma_walked_on(goal, a, b, i + 1, next);
        }
    } else {
        lemma_walked_behind(goal, a, b, 0, before);
    }
}

/// Going through granules behind others is going through them.
proof fn lemma_walked_behind(goal: ScanGoal, a: Seq<PartGranule>, b: Seq<PartGranule>, i: int, before: Scanned)
    requires
        0 <= i <= b.len(),
    ensures
        walked(goal, a + b, a.len() + i, before) == walked(goal, b, i, before),
    decreases b.len() - i,
{
    if i < b.len() && !before.is_enough {
        assert((a + b)[a.len() + i] == b[i]);
        let next = table_scan::with_granule(goal, b[i].defs, b[i].values, before);
        lemma_walked_behind(goal, a, b, i + 1, next);
    }
}

/// Reading the parts of a table is going through all their granules.
proof fn lemma_parts_walked(goal: ScanGoal, parts: Seq<ScannedPart>, p: int, before: Scanned)
    requires
        forall|p: int| 0 <= p < parts.len() ==> part_holds(#[trigger] parts[p], goal.read),
        0 <= p <= parts.len(),
    ensures
        table_scan::parts_from(goal, parts, p, before) == Ok::<Scanned, ErrorView>(
            walked(goal, granules_from(parts, p), 0, before),
        ),
    decreases parts.len() - p,
{
    if p < parts.len() {
        assert(part_holds(parts[p], goal.read));
        let own = granules_of(parts[p]);
        let rest = granules_from(parts, p + 1);
        lemma_walked_on(goal, own, rest, 0, before);
        if !before.is_enough {
            lemma_part_walked(goal, parts[p], 0, before);
            lemma_parts_walked(goal, parts, p + 1, walked(goal, own, 0, before));
        }
    }
}

/// The granules of parts that hold columns hold them.
proof fn lemma_granules_hold(parts: Seq<ScannedPart>, read: Seq<Projection>, p: int)
    requires
        forall|p: int| 0 <= p < parts.len() ==> part_holds(#[trigger] parts[p], read),
        0 <= p <= parts.len(),
    ensures
        forall|i: int|
            0 <= i < granules_from(parts, p).len() ==> granule_holds(#[trigger] granules_from(parts, p)[i], read),
    decreases parts.len() - p,
{
    if p < parts.len() {
        lemma_granules_hold(parts, read, p + 1);
        assert(part_holds(parts[p], read));
        let own = granules_of(parts[p]);
        let rest = granules_from(parts, p + 1);
        let all = granules_from(parts, p);
        assert forall|i: int| 0 <= i < all.len() implies granule_holds(#[trigger] all[i], read) by {
            if i < own.len() {
                assert(all[i] == own[i]);
                assert(parts[p].granules->Ok_0@[i] is Ok);
            } else {
                assert(all[i] == rest[i - own.len()]);
            }
        }
    }
}

/// How many rows a granule has, and that each of its columns has as many.
proof fn lemma_granule_is_even(granule: PartGranule, read: Seq<Projection>, schema: Seq<ColumnDef>)
    requires
        granule_holds(granule, read),
        read.len() > 0,
        schema.len() > 0,
    ensures
        chunk_laws::is_even_chunk(chunk_of(granule, read), read.len()),
        chunk_laws::is_even_chunk(schema_chunk_of(granule, read, schema), schema.len()),
        aggregator::chunk_rows(schema_chunk_of(granule, read, schema)) == granule_rows(granule, read),
        scan::granule_rows(table_scan::columns_read(read, granule.defs, granule.values), 0) == Some(
            granule_rows(granule, read),
        ),
        forall|k: int|
            0 <= k < read.len() ==> #[trigger] table_scan::columns_read(read, granule.defs, granule.values)[k] == Some(
                chunk_of(granule, read)[k],
            ),
{
    let chunk = chunk_of(granule, read);
    let part = schema_chunk_of(granule, read, schema);
    let rows = granule_rows(granule, read);
    assert forall|k: int| 0 <= k < read.len() implies (#[trigger] chunk[k]).len() == chunk[0].len()
        && table_scan::columns_read(read, granule.defs, granule.values)[k] == Some(chunk[k]) by {
        assert(has_column(granule.defs, read[k]));
        assert(has_column(granule.defs, read[0]));
        if let ProjectionValue::ColumnDef(c) = read[k].source {
            search::lemma_position(granule.defs, column::equal_to(c));
        }
        if let ProjectionValue::ColumnDef(c) = read[0].source {
            search::lemma_position(granule.defs, column::equal_to(c));
        }
    }
    assert(table_scan::columns_read(read, granule.defs, granule.values)[0] == Some(chunk[0]));
    assert(has_column(granule.defs, read[0]));
    if let ProjectionValue::ColumnDef(c0) = read[0].source {
        search::lemma_position(granule.defs, column::equal_to(c0));
        assert forall|c: int| 0 <= c < schema.len() implies (#[trigger] part[c]).len() == rows by {
            search::lemma_position(granule.defs, column::equal_to(schema[c]));
        }
    }
}

/// The chunks of granules that hold columns hold rows.
proof fn lemma_chunks_hold_rows(granules: Seq<PartGranule>, read: Seq<Projection>, schema: Seq<ColumnDef>)
    requires
        forall|i: int| 0 <= i < granules.len() ==> granule_holds(#[trigger] granules[i], read),
        read.len() > 0,
        schema.len() > 0,
    ensures
        table_laws::hold_rows(
            chunks_of(granules, read),
            schema_chunks_of(granules, read, schema),
            read.len(),
            schema.len(),
        ),
{
    let chunks = chunks_of(granules, read);
    let schema_chunks = schema_chunks_of(granules, read, schema);
    assert forall|i: int| 0 <= i < chunks.len() implies chunk_laws::is_even_chunk(#[trigger] chunks[i], read.len()) by {
        assert(granule_holds(granules[i], read));
        lemma_granule_is_even(granules[i], read, schema);
    }
    assert forall|i: int| 0 <= i < chunks.len() implies chunk_laws::is_even_chunk(
        #[trigger] schema_chunks[i],
        schema.len(),
    ) && aggregator::chunk_rows(schema_chunks[i]) == aggregator::chunk_rows(chunks[i]) by {
        assert(granule_holds(granules[i], read));
        lemma_granule_is_even(granules[i], read, schema);
    }
}

/// As many rows pass as values are retained.
proof fn lemma_passing_are_retained(values: Seq<Value>, mask: Seq<bool>)
    ensures
        table_scan::passing_rows(mask, values.len() as int) == compiled_filter::retained(values, mask).len(),
    decreases values.len(),
{
    if values.len() > 0 {
        lemma_passing_are_retained(values.drop_last(), mask);
    }
}

/// Whether what was read is what the rows of the first `m` chunks that satisfy the filter give.
spec fn has_read(goal: ScanGoal, granules: Seq<PartGranule>, scanned: Scanned, m: int) -> bool {
    let chunks = chunks_of(granules, goal.read);
    let schema_chunks = schema_chunks_of(granules, goal.read, goal.schema);
    let mask = table_laws::rows_that_hold(goal.filter, schema_chunks, goal.schema.len());
    &&& 0 <= m <= granules.len()
    &&& scanned.values.len() == goal.read.len()
    &&& forall|k: int|
        0 <= k < goal.read.len() ==> #[trigger] scanned.values[k] == compiled_filter::retained(
            table_laws::column_joined(chunks, k, m),
            mask,
        )
    &&& scanned.rows == compiled_filter::retained(table_laws::column_joined(chunks, 0, m), mask).len()
    &&& scanned.is_enough ==> table_scan::has_enough(scanned.rows, goal.limit, goal.offset)
}

/// What was read after one more granule.
proof fn lemma_granule_read(goal: ScanGoal, granules: Seq<PartGranule>, before: Scanned, i: int)
    requires
        table_scan::can_scan(goal),
        goal.read.len() > 0,
        forall|i: int| 0 <= i < granules.len() ==> granule_holds(#[trigger] granules[i], goal.read),
        table_laws::rows_joined(chunks_of(granules, goal.read), granules.len() as int) <= usize::MAX,
        0 <= i < granules.len(),
        has_read(goal, granules, before, i),
    ensures
        has_read(
            goal,
            granules,
            table_scan::with_granule(goal, granules[i].defs, granules[i].values, before),
            i + 1,
        ),
{
    let read = goal.read;
    let chunks = chunks_of(granules, read);
    let schema_chunks = schema_chunks_of(granules, read, goal.schema);
    let schema = goal.schema.len();
    let mask = table_laws::rows_that_hold(goal.filter, schema_chunks, schema);
    let granule = granules[i];
    let rows = granule_rows(granule, read);
    let columns = table_scan::columns_read(read, granule.defs, granule.values);
    let next = table_scan::with_granule(goal, granule.defs, granule.values, before);
    lemma_chunks_hold_rows(granules, read, goal.schema);
    assert(granule_holds(granule, read));
    lemma_granule_is_even(granule, read, goal.schema);
    assert(chunks[i] == chunk_of(granule, read));
    assert(schema_chunks[i] == schema_chunk_of(granule, read, goal.schema));
    let own = table_scan::granule_mask(goal.filter, schema_chunks[i], rows);
    table_laws::lemma_chunk_shown(goal.filter, chunks, schema_chunks, read.len(), schema, 0, i);
    assert(own.len() == rows);
    assert forall|k: int| 0 <= k < read.len() implies #[trigger] next.values[k] == compiled_filter::retained(
        table_laws::column_joined(chunks, k, i + 1),
        mask,
    ) by {
        table_laws::lemma_chunk_shown(goal.filter, chunks, schema_chunks, read.len(), schema, k, i);
        assert(columns[k] == Some(chunks[i][k]));
        if goal.filter is None {
            laws::lemma_retained_all(chunks[i][k], own);
        }
        assert(before.values[k] == compiled_filter::retained(table_laws::column_joined(chunks, k, i), mask));
    }
    lemma_passing_are_retained(chunks[i][0], own);
    if goal.filter is None {
        laws::lemma_retained_all(chunks[i][0], own);
    }
    let all = table_laws::column_joined(chunks, 0, i + 1);
    table_laws::lemma_joined_length(chunks, read.len(), 0, i + 1);
    table_laws::lemma_joined_starts(chunks, 0, i + 1, granules.len() as int);
    laws::lemma_retained_shorter(all, mask);
}

/// Going through the granules ends where there is enough, or behind the last.
proof fn lemma_walked_to_its_end(goal: ScanGoal, granules: Seq<PartGranule>, before: Scanned, i: int) -> (m: int)
    requires
        table_scan::can_scan(goal),
        goal.read.len() > 0,
        forall|i: int| 0 <= i < granules.len() ==> granule_holds(#[trigger] granules[i], goal.read),
        table_laws::rows_joined(chunks_of(granules, goal.read), granules.len() as int) <= usize::MAX,
        0 <= i <= granules.len(),
        has_read(goal, granules, before, i),
    ensures
        has_read(goal, granules, walked(goal, granules, i, before), m),
        m == granules.len() || table_scan::has_enough(
            walked(goal, granules, i, before).rows,
            goal.limit,
            goal.offset,
        ),
    decreases granules.len() - i,
{
    if i >= granules.len() || before.is_enough {
        i
    } else {
        lemma_granule_read(goal, granules, before, i);
        let next = table_scan::with_granule(goal, granules[i].defs, granules[i].values, before);
        lemma_walked_to_its_end(goal, granules, next, i + 1)
    }
}

/// Whether no column is shown twice: each column that projections read equals itself and no other.
pub open spec fn shown_once(columns: Seq<Projection>) -> bool {
    forall|i: int, j: int|
        #![trigger columns[i], columns[j]]
        0 <= i < columns.len() && 0 <= j < columns.len() && columns[i].source is ColumnDef
            && columns[j].source is ColumnDef ==> (column::column_def_eq(
            columns[i].source->ColumnDef_0,
            columns[j].source->ColumnDef_0,
        ) <==> i == j)
}

/// The columns that are read from disk: where each comes from, and that none comes twice.
proof fn lemma_from_disk(columns: Seq<Projection>, n: int)
    requires
        shown_once(columns),
        0 <= n <= columns.len(),
    ensures
        shown_once(table_scan::from_disk(columns, n)),
        forall|k: int|
            0 <= k < table_scan::from_disk(columns, n).len() ==> {
                &&& (#[trigger] table_scan::from_disk(columns, n)[k]).source is ColumnDef
                &&& exists|i: int| 0 <= i < n && table_scan::from_disk(columns, n)[k] == #[trigger] columns[i]
            },
    decreases n,
{
    if n > 0 {
        lemma_from_disk(columns, n - 1);
        let before = table_scan::from_disk(columns, n - 1);
        let all = table_scan::from_disk(columns, n);
        assert forall|k: int| 0 <= k < all.len() implies {
            &&& (#[trigger] all[k]).source is ColumnDef
            &&& exists|i: int| 0 <= i < n && all[k] == #[trigger] columns[i]
        } by {
            if k < before.len() {
                assert(all[k] == before[k]);
                let i = choose|i: int| 0 <= i < n - 1 && before[k] == #[trigger] columns[i];
                assert(all[k] == columns[i]);
            } else {
                assert(all[k] == columns[n - 1]);
            }
        }
        assert forall|i: int, j: int|
            #![trigger all[i], all[j]]
            0 <= i < all.len() && 0 <= j < all.len() && all[i].source is ColumnDef && all[j].source is ColumnDef implies (
        column::column_def_eq(all[i].source->ColumnDef_0, all[j].source->ColumnDef_0) <==> i == j) by {
            if i < before.len() && j < before.len() {
                assert(all[i] == before[i] && all[j] == before[j]);
            } else if i < before.len() {
                assert(all[i] == before[i]);
                let a = choose|a: int| 0 <= a < n - 1 && before[i] == #[trigger] columns[a];
                assert(all[j] == columns[n - 1]);
                assert(!column::column_def_eq(
                    columns[a].source->ColumnDef_0,
                    columns[n - 1].source->ColumnDef_0,
                ));
            } else if j < before.len() {
                assert(all[j] == before[j]);
                let a = choose|a: int| 0 <= a < n - 1 && before[j] == #[trigger] columns[a];
                assert(all[i] == columns[n - 1]);
                assert(!column::column_def_eq(
                    columns[n - 1].source->ColumnDef_0,
                    columns[a].source->ColumnDef_0,
                ));
            } else {
                assert(all[i] == columns[n - 1]);
            }
        }
    }
}

/// Of columns none of which comes twice all are read.
proof fn lemma_all_are_added(disk: Seq<Projection>, n: int)
    requires
        shown_once(disk),
        forall|k: int| 0 <= k < disk.len() ==> (#[trigger] disk[k]).source is ColumnDef,
        0 <= n <= disk.len(),
    ensures
        table_scan::projections_added(seq![], disk, n) == disk.take(n),
    decreases n,
{
    if n > 0 {
        lemma_all_are_added(disk, n - 1);
        let before = disk.take(n - 1);
        let c = disk[n - 1].source->ColumnDef_0;
        search::lemma_position(before, table_scan::reads(c));
        if let Some(k) = search::position(before, table_scan::reads(c)) {
            assert(before[k] == disk[k]);
            assert(column::column_def_eq(disk[k].source->ColumnDef_0, c));
            assert(false);
        }
        assert(disk.take(n) =~= before.push(disk[n - 1]));
    } else {
        assert(disk.take(0) =~= Seq::<Projection>::empty());
    }
}

/// Columns that are added stand behind those that were there, and read none of them.
proof fn lemma_added_behind(first: Seq<Projection>, more: Seq<Projection>, n: int)
    requires
        forall|k: int| 0 <= k < first.len() ==> (#[trigger] first[k]).source is ColumnDef,
        0 <= n <= more.len(),
    ensures
        first.is_prefix_of(table_scan::projections_added(first, more, n)),
        forall|k: int|
            0 <= k < table_scan::projections_added(first, more, n).len() ==> (
            #[trigger] table_scan::projections_added(first, more, n)[k]).source is ColumnDef,
        forall|k: int|
            first.len() <= k < table_scan::projections_added(first, more, n).len() ==> !table_scan::is_shown(
                #[trigger] table_scan::projections_added(first, more, n)[k],
                first,
            ),
    decreases n,
{
    if n > 0 {
        lemma_added_behind(first, more, n - 1);
        let before = table_scan::projections_added(first, more, n - 1);
        let all = table_scan::projections_added(first, more, n);
        assert(before.take(first.len() as int) == first);
        if all != before {
            assert(all == before.push(more[n - 1]));
            let c = more[n - 1].source->ColumnDef_0;
            search::lemma_position(before, table_scan::reads(c));
            search::lemma_position(first, table_scan::reads(c));
            if let Some(k) = search::position(first, table_scan::reads(c)) {
                assert(before.take(first.len() as int)[k] == before[k]);
                assert(table_scan::reads(c)(before[k]));
                assert(false);
            }
            assert(all.take(first.len() as int) =~= first);
            assert forall|k: int| 0 <= k < all.len() implies (#[trigger] all[k]).source is ColumnDef by {
                if k < before.len() {
                    assert(all[k] == before[k]);
                }
            }
            assert forall|k: int| first.len() <= k < all.len() implies !table_scan::is_shown(
                #[trigger] all[k],
                first,
            ) by {
                if k < before.len() {
                    assert(all[k] == before[k]);
                }
            }
        }
    } else {
        assert(first.take(first.len() as int) =~= first);
    }
}

/// Of the columns that were read those that are shown stand first, and are left.
proof fn lemma_first_are_shown(columns: Seq<OutputColumnView>, disk: Seq<Projection>)
    requires
        shown_once(disk),
        forall|k: int| 0 <= k < disk.len() ==> (#[trigger] disk[k]).source is ColumnDef,
        forall|k: int| 0 <= k < columns.len() && k < disk.len() ==> (#[trigger] columns[k]).proj == disk[k],
        forall|k: int|
            disk.len() <= k < columns.len() ==> !table_scan::is_shown((#[trigger] columns[k]).proj, disk),
    ensures
        table_scan::shown(columns, disk) == (if columns.len() <= disk.len() {
            columns
        } else {
            columns.take(disk.len() as int)
        }),
    decreases columns.len(),
{
    if columns.len() > 0 {
        let rest = columns.drop_last();
        let k = columns.len() - 1;
        assert forall|i: int| 0 <= i < rest.len() && i < disk.len() implies (#[trigger] rest[i]).proj == disk[i] by {
            assert(rest[i] == columns[i]);
        }
        assert forall|i: int| disk.len() <= i < rest.len() implies !table_scan::is_shown(
            (#[trigger] rest[i]).proj,
            disk,
        ) by {
            assert(rest[i] == columns[i]);
        }
        lemma_first_are_shown(rest, disk);
        if k < disk.len() {
            assert(columns[k].proj == disk[k]);
            let c = disk[k].source->ColumnDef_0;
            search::lemma_position(disk, table_scan::reads(c));
            assert(column::column_def_eq(disk[k].source->ColumnDef_0, c));
            assert(table_scan::reads(c)(disk[k]));
            assert(table_scan::is_shown(columns.last().proj, disk));
            assert(rest.push(columns.last()) =~= columns);
        } else {
            assert(!table_scan::is_shown(columns[k].proj, disk));
            if rest.len() > disk.len() {
                assert(rest.take(disk.len() as int) =~= columns.take(disk.len() as int));
            } else {
                assert(rest =~= columns.take(disk.len() as int));
            }
        }
    } else {
        assert(table_scan::shown(columns, disk) =~= columns);
    }
}

/// The columns of an answer: those that were read and the scalar ones, each where it was asked for.
pub open spec fn laid_out(
    columns: Seq<Projection>,
    data: Seq<OutputColumnView>,
    rows: nat,
) -> Seq<OutputColumnView> {
    Seq::new(
        columns.len(),
        |i: int|
            match columns[i].source {
                ProjectionValue::ColumnDef(_) => data[table_scan::from_disk(columns, i).len() as int],
                ProjectionValue::Value(v) => OutputColumnView {
                    proj: columns[i],
                    data: insert::repeated(v, rows),
                },
            },
    )
}

/// The columns of an answer before position `p`, and behind them those that were read and are not among
/// them.
spec fn laid_out_before(
    columns: Seq<Projection>,
    data: Seq<OutputColumnView>,
    rows: nat,
    p: int,
) -> Seq<OutputColumnView> {
    laid_out(columns, data, rows).take(p) + data.skip(table_scan::from_disk(columns, p).len() as int)
}

/// What stands before a position is part of what stands before a later one.
proof fn lemma_counts(columns: Seq<Projection>, p: int, n: int)
    requires
        0 <= p <= n <= columns.len(),
    ensures
        table_scan::from_disk(columns, p).len() + table_scan::scalars_among(columns, p).len() == p,
        table_scan::from_disk(columns, p).is_prefix_of(table_scan::from_disk(columns, n)),
        table_scan::scalars_among(columns, p).is_prefix_of(table_scan::scalars_among(columns, n)),
    decreases n, p,
{
    if p < n {
        lemma_counts(columns, p, n - 1);
        let d = table_scan::from_disk(columns, p).len() as int;
        let s = table_scan::scalars_among(columns, p).len() as int;
        assert(table_scan::from_disk(columns, n).take(d) =~= table_scan::from_disk(columns, n - 1).take(d));
        assert(table_scan::scalars_among(columns, n).take(s) =~= table_scan::scalars_among(columns, n - 1).take(s));
    } else {
        if p > 0 {
            lemma_counts(columns, p - 1, p - 1);
        }
        assert(table_scan::from_disk(columns, p).take(table_scan::from_disk(columns, p).len() as int)
            =~= table_scan::from_disk(columns, p));
        assert(table_scan::scalars_among(columns, p).take(table_scan::scalars_among(columns, p).len() as int)
            =~= table_scan::scalars_among(columns, p));
    }
}

/// Putting the scalar columns at their positions lays out the answer.
proof fn lemma_scalars_laid_out(columns: Seq<Projection>, data: Seq<OutputColumnView>, rows: nat, p: int)
    requires
        0 <= p <= columns.len() <= usize::MAX,
        data.len() == table_scan::from_disk(columns, columns.len() as int).len(),
    ensures
        table_scan::with_scalars(
            laid_out_before(columns, data, rows, p),
            table_scan::scalars_among(columns, columns.len() as int),
            rows,
            table_scan::scalars_among(columns, p).len() as int,
        ) == Ok::<Seq<OutputColumnView>, ErrorView>(laid_out(columns, data, rows)),
    decreases columns.len() - p,
{
    let n = columns.len() as int;
    let all = laid_out(columns, data, rows);
    let here = laid_out_before(columns, data, rows, p);
    let scalars = table_scan::scalars_among(columns, n);
    let s = table_scan::scalars_among(columns, p).len() as int;
    let d = table_scan::from_disk(columns, p).len() as int;
    lemma_counts(columns, p, n);
    if p >= n {
        assert(here =~= all);
    } else {
        lemma_counts(columns, p + 1, n);
        lemma_scalars_laid_out(columns, data, rows, p + 1);
        let next = laid_out_before(columns, data, rows, p + 1);
        assert(d <= data.len());
        match columns[p].source {
            ProjectionValue::ColumnDef(_) => {
                assert(table_scan::from_disk(columns, p + 1).len() == d + 1);
                assert(all[p] == data[d]);
                assert(here =~= next);
            },
            ProjectionValue::Value(v) => {
                let own = table_scan::scalars_among(columns, p + 1);
                assert(own[s] == (p as usize, columns[p]));
                assert(scalars.take(own.len() as int)[s] == scalars[s]);
                assert(scalars[s] == (p as usize, columns[p]));
                assert(here.insert(p, all[p]) =~= next);
            },
        }
    }
}

/// A limit or an offset as an integer.
pub open spec fn count_of(limit: Option<u64>) -> Option<int> {
    match limit {
        Some(l) => Some(l as int),
        None => None,
    }
}

/// The granules of all parts.
pub open spec fn all_granules(parts: Seq<ScannedPart>) -> Seq<PartGranule> {
    granules_from(parts, 0)
}

/// What a query reads of a table, in which the columns that it shows stand first.
proof fn lemma_shown_stand_first(
    columns: Seq<Projection>,
    expr: Option<Box<Expr>>,
    schema: TableSchemaView,
    readings: Seq<NumberReading>,
)
    requires
        shown_once(columns),
        table_scan::table_query(columns, expr, None, schema, readings) is Ok,
    ensures
        ({
            let query = table_scan::table_query(columns, expr, None, schema, readings)->Ok_0;
            let disk = query.disk_columns;
            &&& disk == table_scan::from_disk(columns, columns.len() as int)
            &&& shown_once(disk)
            &&& disk.is_prefix_of(query.read)
            &&& forall|k: int| 0 <= k < query.read.len() ==> (#[trigger] query.read[k]).source is ColumnDef
            &&& forall|k: int|
                disk.len() <= k < query.read.len() ==> !table_scan::is_shown(#[trigger] query.read[k], disk)
        }),
{
    let disk = table_scan::from_disk(columns, columns.len() as int);
    lemma_from_disk(columns, columns.len() as int);
    lemma_all_are_added(disk, disk.len() as int);
    assert(disk.take(disk.len() as int) =~= disk);
    let filtered_by = match expr {
        Some(e) => filter::columns_at(
            schema.columns,
            filter::columns_read(compiled_filter::compiled(*e, schema.columns, readings)->Ok_0),
        ),
        None => seq![],
    };
    let more = projection::column_projections(filtered_by);
    lemma_added_behind(disk, more, filtered_by.len() as int);
}

/// A query over the parts of a table without an ORDER BY answers with the rows of all parts that satisfy
/// its WHERE, in the order in which they stand, from the OFFSET on and no more than the LIMIT: in each
/// column that it shows the values of those rows, and in each scalar column its value as often. Every
/// part has the columns that are read, and no column is shown twice.
pub proof fn lemma_table_answers_rows_that_hold(
    columns: Seq<Projection>,
    expr: Option<Box<Expr>>,
    engine: EngineName,
    schema: TableSchemaView,
    readings: Seq<NumberReading>,
    parts: Seq<ScannedPart>,
    limit: Option<u64>,
    offset: u64,
    result: Result<Seq<OutputColumnView>, ErrorView>,
)
    requires
        0 < schema.columns.len() <= usize::MAX,
        columns.len() <= usize::MAX,
        shown_once(columns),
        table_scan::table_query(columns, expr, None, schema, readings) is Ok,
        ({
            let query = table_scan::table_query(columns, expr, None, schema, readings)->Ok_0;
            &&& query.read.len() > 0
            &&& forall|p: int| 0 <= p < parts.len() ==> part_holds(#[trigger] parts[p], query.read)
            &&& table_laws::rows_joined(
                chunks_of(all_granules(parts), query.read),
                all_granules(parts).len() as int,
            ) <= usize::MAX
            &&& table_scan::answer_owes(query, engine, schema, None, parts, limit, offset, result)
        }),
    ensures
        ({
            let query = table_scan::table_query(columns, expr, None, schema, readings)->Ok_0;
            let chunks = chunks_of(all_granules(parts), query.read);
            let mask = table_laws::rows_that_hold(
                query.filter,
                schema_chunks_of(all_granules(parts), query.read, schema.columns),
                schema.columns.len(),
            );
            let answer = |k: int|
                laws::window_of(
                    compiled_filter::retained(table_laws::whole_column(chunks, k), mask),
                    count_of(limit),
                    offset as int,
                );
            &&& result is Ok
            &&& result->Ok_0.len() == columns.len()
            &&& forall|i: int|
                0 <= i < columns.len() ==> (#[trigger] result->Ok_0[i]).proj == columns[i] && result->Ok_0[i].data == (
                match columns[i].source {
                    ProjectionValue::ColumnDef(_) => answer(
                        table_scan::from_disk(columns, i).len() as int,
                    ),
                    ProjectionValue::Value(v) => insert::repeated(v, answer(0).len()),
                })
        }),
{
    let query = table_scan::table_query(columns, expr, None, schema, readings)->Ok_0;
    let read = query.read;
    let disk = query.disk_columns;
    let d = disk.len() as int;
    let goal = ScanGoal { read, schema: schema.columns, filter: query.filter, limit, offset };
    let granules = all_granules(parts);
    let n = granules.len() as int;
    let chunks = chunks_of(granules, read);
    let schema_chunks = schema_chunks_of(granules, read, schema.columns);
    let mask = table_laws::rows_that_hold(query.filter, schema_chunks, schema.columns.len());
    let start = table_scan::nothing_read(read.len());
    lemma_shown_stand_first(columns, expr, schema, readings);
    if let Some(e) = expr {
        compiled_filter::lemma_compiled_reads_columns(*e, schema.columns, readings);
    }
    lemma_granules_hold(parts, read, 0);
    lemma_parts_walked(goal, parts, 0, start);
    lemma_chunks_hold_rows(granules, read, schema.columns);
    assert(has_read(goal, granules, start, 0)) by {
        assert forall|k: int| 0 <= k < read.len() implies #[trigger] start.values[k] == compiled_filter::retained(
            table_laws::column_joined(chunks, k, 0),
            mask,
        ) by {
            assert(compiled_filter::retained(table_laws::column_joined(chunks, k, 0), mask)
                =~= Seq::<Value>::empty());
        }
    }
    let m = lemma_walked_to_its_end(goal, granules, start, 0);
    let scanned = walked(goal, granules, 0, start);
    let given = table_scan::read_columns(read, scanned.values);
    assert forall|k: int| 0 <= k < given.len() && k < disk.len() implies (#[trigger] given[k]).proj == disk[k] by {
        assert(read.take(d)[k] == read[k]);
    }
    assert(read.take(d) == disk);
    lemma_first_are_shown(given, disk);
    let left = table_scan::shown(given, disk);
    assert(left =~= given.take(d));
    let total = scanned.rows;
    table_laws::lemma_rows_agree(chunks, schema_chunks, n);
    table_laws::lemma_rows_agree(chunks, schema_chunks, m);
    assert forall|k: int| 0 <= k < read.len() implies (#[trigger] scanned.values[k]).len() == total by {
        table_laws::lemma_joined_length(chunks, read.len(), k, m);
        table_laws::lemma_joined_length(chunks, read.len(), 0, m);
        table_laws::lemma_joined_starts(chunks, k, m, n);
        compiled_filter::lemma_retained_lengths_agree(
            table_laws::column_joined(chunks, k, m),
            table_laws::column_joined(chunks, 0, m),
            mask,
        );
    }
    assert forall|k: int| 0 <= k < left.len() implies (#[trigger] left[k]).data.len() == total by {
        assert(left[k] == given[k]);
        assert(scanned.values[k].len() == total);
    }
    let windowed = table_scan::window(left, total, limit, offset);
    assert(windowed is Ok);
    let data = windowed->Ok_0;
    let rows = table_scan::rows_left(total, limit, offset);
    assert forall|k: int| 0 <= k < read.len() implies laws::window_of(
        #[trigger] scanned.values[k],
        count_of(limit),
        offset as int,
    ) == laws::window_of(
        compiled_filter::retained(table_laws::whole_column(chunks, k), mask),
        count_of(limit),
        offset as int,
    ) && laws::window_of(scanned.values[k], count_of(limit), offset as int).len() == rows by {
        let some = scanned.values[k];
        let all = compiled_filter::retained(table_laws::whole_column(chunks, k), mask);
        assert(some.len() == total);
        table_laws::lemma_joined_length(chunks, read.len(), k, m);
        table_laws::lemma_joined_length(chunks, read.len(), k, n);
        table_laws::lemma_joined_starts(chunks, k, m, n);
        laws::lemma_retained_starts(
            table_laws::whole_column(chunks, k),
            table_laws::rows_joined(chunks, m) as int,
            mask,
        );
        assert(table_laws::whole_column(chunks, k).take(table_laws::rows_joined(chunks, m) as int)
            =~= table_laws::column_joined(chunks, k, m));
        assert(some.is_prefix_of(all));
        if some.len() == all.len() {
            assert(some =~= all);
        } else {
            assert(m < n);
            laws::lemma_retained_shorter(table_laws::whole_column(chunks, k), mask);
            assert(table_scan::has_enough(total, limit, offset));
            assert forall|r: int| 0 <= r < some.len() implies some[r] == all[r] by {
                assert(all.take(some.len() as int)[r] == all[r]);
            }
            assert(laws::window_of(some, count_of(limit), offset as int) =~= laws::window_of(
                all,
                count_of(limit),
                offset as int,
            ));
        }
    }
    assert(data.len() == d);
    assert forall|k: int| 0 <= k < d implies (#[trigger] data[k]).proj == disk[k] && data[k].data == laws::window_of(
        scanned.values[k],
        count_of(limit),
        offset as int,
    ) by {
        assert(left[k] == given[k]);
        assert(read.take(d)[k] == read[k]);
        assert(scanned.values[k].len() == total);
        assert(data[k].data =~= laws::window_of(scanned.values[k], count_of(limit), offset as int));
    }
    lemma_scalars_laid_out(columns, data, rows, 0);
    assert(laid_out_before(columns, data, rows, 0) =~= data);
    let answer = laid_out(columns, data, rows);
    assert(result == Ok::<Seq<OutputColumnView>, ErrorView>(answer));
    assert(scanned.values[0].len() == total);
    assert forall|i: int| 0 <= i < columns.len() implies (#[trigger] answer[i]).proj == columns[i] && answer[i].data == (
    match columns[i].source {
        ProjectionValue::ColumnDef(_) => laws::window_of(
            compiled_filter::retained(
                table_laws::whole_column(chunks, table_scan::from_disk(columns, i).len() as int),
                mask,
            ),
            count_of(limit),
            offset as int,
        ),
        ProjectionValue::Value(v) => insert::repeated(
            v,
            laws::window_of(
                compiled_filter::retained(table_laws::whole_column(chunks, 0), mask),
                count_of(limit),
                offset as int,
            ).len(),
        ),
    }) by {
        let at = table_scan::from_disk(columns, i).len() as int;
        if columns[i].source is ColumnDef {
            lemma_counts(columns, i + 1, columns.len() as int);
            let own = table_scan::from_disk(columns, i + 1);
            assert(own[at] == columns[i]);
            assert(disk.take(own.len() as int)[at] == disk[at]);
            assert(answer[i] == data[at]);
            assert(scanned.values[at].len() == total);
        }
    }
}

} // verus!
