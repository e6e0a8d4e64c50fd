//! The engine that keeps the newest row of each primary key.
use vstd::prelude::*;

use crate::engines::{Engine, EngineConfig};
use crate::engines::merge_tree;
use crate::engines::order;
use crate::error::{Error, ErrorView, Outcome};
use crate::search;
use crate::sql::projection::{Projection, ProjectionValue};
use crate::storage::column::{ColumnDef, OutputColumn, OutputColumnView};
use crate::storage::column;
use crate::storage::value;
use crate::storage::value::Value;

verus! {

/// Engine for editing rows. Sorts values in ASC order.
///
/// When it finds rows with the same PK values, it replaces with the newest row values.
///
/// # Example
///
/// ```text
/// PK indexes: [0, 1]
///
/// Row0: [1, 2, 3, 4] <- same PK values (1, 2)
/// Row1: [4, 2, 3, 4]
/// Row2: [1, 2, 33, 42] <- same PK values (1, 2)
///
/// Replaces row [1, 2, 3, 4] with new row: [1, 2, 33, 42]
///
/// Returns:
/// Row0: [1, 2, 33, 42]
/// Row1: [4, 2, 3, 4]
/// ```
pub struct ReplacingMergeTreeEngine<'a> {
    pub config: EngineConfig<'a>,
}

impl<'a> ReplacingMergeTreeEngine<'a> {
    /// Creates a new `ReplacingMergeTree` engine with the given configuration.
    pub fn new(config: EngineConfig<'a>) -> (r: Self)
        ensures
            r.config == config,
    {
        ReplacingMergeTreeEngine { config }
    }
}

/// The positions of the columns of those projections that have one.
pub open spec fn order_positions(order_by: Seq<Projection>, cols: Seq<OutputColumnView>) -> Seq<int>
    decreases order_by.len(),
{
    if order_by.len() == 0 {
        seq![]
    } else {
        let rest = order_positions(order_by.drop_last(), cols);
        match search::position(cols, merge_tree::column_of(order_by.last())) {
            Some(k) => rest.push(k),
            None => rest,
        }
    }
}

/// The property of reading a given column of a table.
pub open spec fn reads(d: ColumnDef) -> spec_fn(OutputColumnView) -> bool {
    |c: OutputColumnView|
        c.proj.source matches ProjectionValue::ColumnDef(col) && column::column_def_eq(d, col)
}

/// The positions of those columns of the primary key that are there.
pub open spec fn key_positions(primary_key: Seq<ColumnDef>, cols: Seq<OutputColumnView>) -> Seq<int>
    decreases primary_key.len(),
{
    if primary_key.len() == 0 {
        seq![]
    } else {
        let rest = key_positions(primary_key.drop_last(), cols);
        match search::position(cols, reads(primary_key.last())) {
            Some(k) => rest.push(k),
            None => rest,
        }
    }
}

/// Whether two rows have equal values in every column of the primary key.
pub open spec fn same_key(cols: Seq<OutputColumnView>, pk: Seq<int>, a: int, b: int) -> bool {
    forall|k: int|
        0 <= k < pk.len() ==> value::value_eq(
            cols[#[trigger] pk[k]].data[a],
            cols[pk[k]].data[b],
        )
}

/// The rows that remain of a sorted list of rows: going from the last to the first, a row is left
/// out where it has the key of the row that was kept most recently.
pub open spec fn newest(cols: Seq<OutputColumnView>, pk: Seq<int>, idx: Seq<int>) -> Seq<int>
    decreases idx.len(),
{
    if idx.len() == 0 {
        seq![]
    } else {
        let rest = newest(cols, pk, idx.drop_first());
        if rest.len() > 0 && same_key(cols, pk, idx[0], rest[0]) {
            rest
        } else {
            seq![idx[0]] + rest
        }
    }
}

/// What the engine owes: of the sorted rows the newest of each key, or an error where there are no
/// columns.
pub open spec fn replacing_owes(
    order_by: Seq<Projection>,
    primary_key: Seq<ColumnDef>,
    cols: Seq<OutputColumnView>,
    result: Result<Seq<OutputColumnView>, ErrorView>,
) -> bool {
    if cols.len() == 0 {
        result == Err::<Seq<OutputColumnView>, ErrorView>(ErrorView::NoColumnsSpecified)
    } else {
        let ord = order_positions(order_by, cols);
        let pk = key_positions(primary_key, cols);
        result matches Ok(out) && exists|idx: Seq<int>|
            #[trigger] order::is_stable_order(cols, ord, cols[0].data.len(), idx) && out
                == order::gather(cols, newest(cols, pk, idx))
    }
}

/// Whether the columns have one length and the values of those that are sorted by can be compared.
pub open spec fn replacing_orderable(order_by: Seq<Projection>, cols: Seq<OutputColumnView>) -> bool {
    cols.len() > 0 ==> merge_tree::same_lengths(cols) && order::rows_comparable(
        cols,
        order_positions(order_by, cols),
    )
}

/// The positions to sort by are those of columns.
pub proof fn lemma_order_positions(order_by: Seq<Projection>, cols: Seq<OutputColumnView>)
    ensures
        order::positions_of(order_positions(order_by, cols), cols),
    decreases order_by.len(),
{
    if order_by.len() > 0 {
        lemma_order_positions(order_by.drop_last(), cols);
        search::lemma_position(cols, merge_tree::column_of(order_by.last()));
    }
}

/// The positions of the primary key are those of columns.
pub proof fn lemma_key_positions(primary_key: Seq<ColumnDef>, cols: Seq<OutputColumnView>)
    ensures
        order::positions_of(key_positions(primary_key, cols), cols),
    decreases primary_key.len(),
{
    if primary_key.len() > 0 {
        lemma_key_positions(primary_key.drop_last(), cols);
        search::lemma_position(cols, reads(primary_key.last()));
    }
}

/// The positions of the columns of those projections that have one.
fn find_positions(order_by: &[Projection], columns: &Vec<OutputColumn>) -> (r: Vec<usize>)
    ensures
        order::ints(r@) == order_positions(order_by@, column::output_views(columns@)),
{
    let ghost cols = column::output_views(columns@);
    let mut positions: Vec<usize> = Vec::new();
    assert(order::ints(positions@) =~= order_positions(order_by@.take(0), cols));
    let mut k: usize = 0;
    while k < order_by.len()
        invariant
            k <= order_by@.len(),
            cols == column::output_views(columns@),
            order::ints(positions@) == order_positions(order_by@.take(k as int), cols),
        decreases order_by@.len() - k,
    {
        let ghost before = positions@;
        assert(order_by@.take(k + 1).drop_last() =~= order_by@.take(k as int));
        assert(order_by@.take(k + 1).last() == order_by@[k as int]);
        if let Some(position) = merge_tree::position_of_projection(columns, &order_by[k]) {
            positions.push(position);
            assert(order::ints(positions@) =~= order::ints(before).push(position as int));
        }
        k += 1;
    }
    assert(order_by@.take(k as int) =~= order_by@);
    positions
}

impl<'a> ReplacingMergeTreeEngine<'a> {
    /// Whether the columns have one length and the values that they are sorted by can be compared.
    pub fn can_order(&self, columns: &Vec<OutputColumn>) -> (r: bool)
        ensures
            r == replacing_orderable(self.config.order_by@, column::output_views(columns@)),
    {
        if columns.len() == 0 {
            return true;
        }
        if !merge_tree::have_one_length(columns) {
            return false;
        }
        proof {
            lemma_order_positions(self.config.order_by@, column::output_views(columns@));
        }
        let ord = find_positions(self.config.order_by, columns);
        order::can_compare_rows(columns, &ord)
    }
}

/// The position of the first column that reads a given column of a table.
fn position_reading(columns: &Vec<OutputColumn>, def: &ColumnDef) -> (r: Option<usize>)
    ensures
        match r {
            Some(i) => i < columns@.len() && search::position(
                column::output_views(columns@),
                reads(*def),
            ) == Some(i as int),
            None => search::position(column::output_views(columns@), reads(*def)) is None,
        },
{
    let ghost cols = column::output_views(columns@);
    let mut i: usize = 0;
    while i < columns.len()
        invariant
            i <= columns@.len(),
            cols == column::output_views(columns@),
            search::position(cols, reads(*def)) == search::position_from(cols, reads(*def), i as int),
        decreases columns@.len() - i,
    {
        assert(cols[i as int] == columns@[i as int]@);
        let found = match &columns[i].proj.source {
            ProjectionValue::ColumnDef(col) => *def == *col,
            ProjectionValue::Value(_) => false,
        };
        if found {
            return Some(i);
        }
        i += 1;
    }
    None
}

/// Whether two rows have equal values in every column of the primary key.
fn rows_share_key(columns: &Vec<OutputColumn>, pk: &Vec<usize>, a: usize, b: usize) -> (r: bool)
    requires
        order::positions_of(order::ints(pk@), column::output_views(columns@)),
        forall|i: int| 0 <= i < columns@.len() ==> a < (#[trigger] columns@[i]).data@.len() && b < columns@[i].data@.len(),
    ensures
        r == same_key(column::output_views(columns@), order::ints(pk@), a as int, b as int),
{
    let ghost cols = column::output_views(columns@);
    let ghost p = order::ints(pk@);
    let mut k: usize = 0;
    while k < pk.len()
        invariant
            k <= pk@.len(),
            cols == column::output_views(columns@),
            p == order::ints(pk@),
            order::positions_of(p, cols),
            forall|i: int| 0 <= i < columns@.len() ==> a < (#[trigger] columns@[i]).data@.len() && b < columns@[i].data@.len(),
            forall|m: int|
                0 <= m < k ==> value::value_eq(cols[#[trigger] p[m]].data[a as int], cols[p[m]].data[b as int]),
        decreases pk@.len() - k,
    {
        let c: usize = pk[k];
        assert(p[k as int] == c);
        assert(cols[c as int] == columns@[c as int]@);
        if !(columns[c].data[a] == columns[c].data[b]) {
            return false;
        }
        k += 1;
    }
    true
}

/// The kept rows of a suffix of the sorted rows, from the last to the first.
fn keep_newest(columns: &Vec<OutputColumn>, pk: &Vec<usize>, indices: &Vec<usize>, n: usize) -> (r: Vec<usize>)
    requires
        order::positions_of(order::ints(pk@), column::output_views(columns@)),
        order::all_lengths(column::output_views(columns@), n as nat),
        forall|i: int| 0 <= i < indices@.len() ==> (#[trigger] indices@[i]) < n,
    ensures
        order::ints(r@).reverse() == newest(column::output_views(columns@), order::ints(pk@), order::ints(indices@)),
        forall|i: int| 0 <= i < r@.len() ==> (#[trigger] r@[i]) < n,
{
    let ghost cols = column::output_views(columns@);
    let ghost p = order::ints(pk@);
    let ghost idx = order::ints(indices@);
    proof {
        assert forall|i: int| 0 <= i < columns@.len() implies (#[trigger] columns@[i]).data@.len() == n by {
            assert(cols[i] == columns@[i]@);
        }
    }
    let mut r: Vec<usize> = Vec::new();
    let mut m: usize = indices.len();
    assert(idx.skip(idx.len() as int) =~= Seq::<int>::empty());
    assert(order::ints(r@).reverse() =~= Seq::<int>::empty());
    while m > 0
        invariant
            m <= indices@.len(),
            cols == column::output_views(columns@),
            p == order::ints(pk@),
            idx == order::ints(indices@),
            order::positions_of(p, cols),
            forall|i: int| 0 <= i < columns@.len() ==> (#[trigger] columns@[i]).data@.len() == n,
            forall|i: int| 0 <= i < indices@.len() ==> (#[trigger] indices@[i]) < n,
            forall|i: int| 0 <= i < r@.len() ==> (#[trigger] r@[i]) < n,
            order::ints(r@).reverse() == newest(cols, p, idx.skip(m as int)),
        decreases m,
    {
        m -= 1;
        let row: usize = indices[m];
        let ghost before = r@;
        assert(idx.skip(m as int).drop_first() =~= idx.skip(m + 1));
        assert(idx.skip(m as int)[0] == row);
        let skip = if r.len() > 0 {
            assert(order::ints(before).reverse()[0] == before[before.len() - 1]);
            rows_share_key(columns, pk, row, r[r.len() - 1])
        } else {
            false
        };
        if !skip {
            r.push(row);
            assert(order::ints(r@).reverse() =~= seq![row as int] + order::ints(before).reverse());
        }
    }
    assert(idx.skip(0) =~= idx);
    r
}

impl<'a> Engine for ReplacingMergeTreeEngine<'a> {
    open spec fn orderable(&self, columns: Seq<OutputColumnView>) -> bool {
        replacing_orderable(self.config.order_by@, columns)
    }

    open spec fn owes(
        &self,
        columns: Seq<OutputColumnView>,
        result: Result<Seq<OutputColumnView>, ErrorView>,
    ) -> bool {
        replacing_owes(self.config.order_by@, self.config.primary_key@, columns, result)
    }

    /// Orders columns and deduplicates rows by PRIMARY KEY, keeping the latest row.
    ///
    /// Sorts rows in ascending order by ORDER BY columns, then removes duplicates
    /// based on PRIMARY KEY, keeping the row that appears last (newest).
    ///
    /// Returns:
    ///   * Ok: `Vec<OutputColumn>` with sorted and deduplicated rows.
    ///   * Error: `NoColumnsSpecified` if columns is empty.
    fn order_columns(&self, columns: Vec<OutputColumn>) -> (r: Outcome<Vec<OutputColumn>>) {
        let ghost cols = column::output_views(columns@);
        let order_by = self.config.order_by;
        let primary_key = self.config.primary_key;
        if columns.len() == 0 {
            return Err(Error::NoColumnsSpecified);
        }
        assert(cols[0] == columns@[0]@);
        let total_rows: usize = columns[0].data.len();
        let order_by_indexes = find_positions(order_by, &columns);
        let mut pk_indexes: Vec<usize> = Vec::new();
        assert(order::ints(pk_indexes@) =~= key_positions(primary_key@.take(0), cols));
        let mut k: usize = 0;
        while k < primary_key.len()
            invariant
                k <= primary_key@.len(),
                cols == column::output_views(columns@),
                order::ints(pk_indexes@) == key_positions(primary_key@.take(k as int), cols),
            decreases primary_key@.len() - k,
        {
            let ghost before = pk_indexes@;
            assert(primary_key@.take(k + 1).drop_last() =~= primary_key@.take(k as int));
            assert(primary_key@.take(k + 1).last() == primary_key@[k as int]);
            if let Some(position) = position_reading(&columns, &primary_key[k]) {
                pk_indexes.push(position);
                assert(order::ints(pk_indexes@) =~= order::ints(before).push(position as int));
            }
            k += 1;
        }
        assert(primary_key@.take(k as int) =~= primary_key@);
        proof {
            lemma_order_positions(order_by@, cols);
            lemma_key_positions(primary_key@, cols);
        }
        let indices = order::sort_rows(&columns, &order_by_indexes, total_rows);
        let ghost idx = order::ints(indices@);
        proof {
            assert forall|i: int| 0 <= i < indices@.len() implies (#[trigger] indices@[i]) < total_rows by {
                assert(0 <= idx[i] < total_rows);
            }
        }
        let kept = keep_newest(&columns, &pk_indexes, &indices, total_rows);
        let ghost sel = newest(cols, order::ints(pk_indexes@), idx);
        let mut out: Vec<OutputColumn> = Vec::new();
        let mut c: usize = 0;
        while c < columns.len()
            invariant
                c <= columns@.len(),
                cols == column::output_views(columns@),
                order::all_lengths(cols, total_rows as nat),
                forall|i: int| 0 <= i < kept@.len() ==> (#[trigger] kept@[i]) < total_rows,
                order::ints(kept@).reverse() == sel,
                out@.len() == c,
                forall|i: int| 0 <= i < c ==> (#[trigger] out@[i])@ == order::gather(cols, sel)[i],
            decreases columns@.len() - c,
        {
            assert(cols[c as int] == columns@[c as int]@);
            let data = gather_reversed(&columns[c].data, &kept);
            let col = OutputColumn { proj: columns[c].proj.clone(), data };
            assert(col@ == order::gather(cols, sel)[c as int]);
            out.push(col);
            c += 1;
        }
        assert(column::output_views(out@) =~= order::gather(cols, sel));
        Ok(out)
    }
}

/// The values at the given rows, the last row first.
fn gather_reversed(data: &Vec<Value>, rows: &Vec<usize>) -> (r: Vec<Value>)
    requires
        forall|i: int| 0 <= i < rows@.len() ==> (#[trigger] rows@[i]) < data@.len(),
    ensures
        r@ == order::gather_data(data@, order::ints(rows@).reverse()),
{
    let ghost sel = order::ints(rows@).reverse();
    let mut r: Vec<Value> = Vec::new();
    let mut k: usize = rows.len();
    while k > 0
        invariant
            k <= rows@.len(),
            sel == order::ints(rows@).reverse(),
            forall|i: int| 0 <= i < rows@.len() ==> (#[trigger] rows@[i]) < data@.len(),
            r@.len() == rows@.len() - k,
            forall|i: int| 0 <= i < r@.len() ==> #[trigger] r@[i] == data@[sel[i]],
        decreases k,
    {
        k -= 1;
        assert(sel[r@.len() as int] == rows@[k as int]);
        r.push(data[rows[k]].clone());
    }
    assert(r@ =~= order::gather_data(data@, sel));
    r
}

} // verus!
