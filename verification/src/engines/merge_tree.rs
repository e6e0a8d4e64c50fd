//! The engine that keeps every row and sorts them.
use vstd::prelude::*;

use crate::engines::{Engine, EngineConfig};
use crate::engines::order;
use crate::error::{Error, ErrorView, Outcome};
use crate::search;
use crate::sql::projection;
use crate::sql::projection::Projection;
use crate::storage::column::{OutputColumn, OutputColumnView};
use crate::storage::column;
use crate::storage::value::Value;

verus! {

/// Standard engine for most needs.
/// Does not perform any changes to data. Just keeps it sorted in ASC by ORDER BY
/// If two rows have the same ORDER BY values, the one that came first stays first.
pub struct MergeTreeEngine<'a> {
    pub config: EngineConfig<'a>,
}

impl<'a> MergeTreeEngine<'a> {
    /// Creates a new `MergeTree` engine with the given configuration.
    pub fn new(config: EngineConfig<'a>) -> (r: Self)
        ensures
            r.config == config,
    {
        MergeTreeEngine { config }
    }
}

/// The property of being the column of a given projection.
pub open spec fn column_of(p: Projection) -> spec_fn(OutputColumnView) -> bool {
    |c: OutputColumnView| projection::projection_eq(p, c.proj)
}

/// The positions of the columns of the given projections, where each has one.
pub open spec fn resolve(
    order_by: Seq<Projection>,
    cols: Seq<OutputColumnView>,
) -> Option<Seq<int>>
    decreases order_by.len(),
{
    if order_by.len() == 0 {
        Some(seq![])
    } else {
        match (resolve(order_by.drop_last(), cols), search::position(cols, column_of(order_by.last()))) {
            (Some(ord), Some(k)) => Some(ord.push(k)),
            _ => None,
        }
    }
}

/// Whether every column has as many values as the first.
pub open spec fn same_lengths(cols: Seq<OutputColumnView>) -> bool {
    order::all_lengths(cols, cols[0].data.len())
}

/// What sorting the columns owes: the rows in the order of a stable sort, or an error.
pub open spec fn merge_tree_owes(
    order_by: Seq<Projection>,
    cols: Seq<OutputColumnView>,
    result: Result<Seq<OutputColumnView>, ErrorView>,
) -> bool {
    if order_by.len() == 0 || cols.len() == 0 {
        result == Err::<Seq<OutputColumnView>, ErrorView>(ErrorView::NoColumnsSpecified)
    } else if !same_lengths(cols) {
        result == Err::<Seq<OutputColumnView>, ErrorView>(ErrorView::InvalidColumnsSpecified)
    } else {
        match resolve(order_by, cols) {
            None => result == Err::<Seq<OutputColumnView>, ErrorView>(
                ErrorView::InvalidColumnsSpecified,
            ),
            Some(ord) => result matches Ok(out) && exists|idx: Seq<int>|
                #[trigger] order::is_stable_order(cols, ord, cols[0].data.len(), idx) && out
                    == order::gather(cols, idx),
        }
    }
}

/// Whether the values of the columns that are sorted by can be compared.
pub open spec fn merge_tree_orderable(order_by: Seq<Projection>, cols: Seq<OutputColumnView>) -> bool {
    order_by.len() > 0 && cols.len() > 0 && same_lengths(cols) ==> match resolve(order_by, cols) {
        Some(ord) => order::rows_comparable(cols, ord),
        None => true,
    }
}

/// The position of the first column with a given projection.
pub fn position_of_projection(columns: &Vec<OutputColumn>, proj: &Projection) -> (r: Option<usize>)
    ensures
        match r {
            Some(i) => i < columns@.len() && search::position(
                column::output_views(columns@),
                column_of(*proj),
            ) == Some(i as int),
            None => search::position(column::output_views(columns@), column_of(*proj)) is None,
        },
{
    let ghost cols = column::output_views(columns@);
    let mut i: usize = 0;
    while i < columns.len()
        invariant
            i <= columns@.len(),
            cols == column::output_views(columns@),
            search::position(cols, column_of(*proj)) == search::position_from(cols, column_of(*proj), i as int),
        decreases columns@.len() - i,
    {
        assert(cols[i as int] == columns@[i as int]@);
        if *proj == columns[i].proj {
            return Some(i);
        }
        i += 1;
    }
    None
}

/// Positions that were resolved are those of columns, one for each projection.
pub proof fn lemma_resolved_positions(order_by: Seq<Projection>, cols: Seq<OutputColumnView>)
    ensures
        resolve(order_by, cols) matches Some(ord) ==> order::positions_of(ord, cols) && ord.len()
            == order_by.len(),
    decreases order_by.len(),
{
    if order_by.len() > 0 {
        lemma_resolved_positions(order_by.drop_last(), cols);
        search::lemma_position(cols, column_of(order_by.last()));
    }
}

/// Where one projection of a list has no column, the list has no positions.
proof fn lemma_unresolved(order_by: Seq<Projection>, cols: Seq<OutputColumnView>, k: int)
    requires
        0 <= k <= order_by.len(),
        resolve(order_by.take(k), cols) is None,
    ensures
        resolve(order_by, cols) is None,
    decreases order_by.len() - k,
{
    if k == order_by.len() {
        assert(order_by.take(k) =~= order_by);
    } else {
        assert(order_by.take(k + 1).drop_last() =~= order_by.take(k));
        lemma_unresolved(order_by, cols, k + 1);
    }
}

/// Whether every column has as many values as the first.
pub fn have_one_length(columns: &Vec<OutputColumn>) -> (r: bool)
    requires
        columns@.len() > 0,
    ensures
        r == same_lengths(column::output_views(columns@)),
{
    let ghost cols = column::output_views(columns@);
    assert(cols[0] == columns@[0]@);
    let row_count: usize = columns[0].data.len();
    let mut c: usize = 0;
    while c < columns.len()
        invariant
            c <= columns@.len(),
            cols == column::output_views(columns@),
            row_count == cols[0].data.len(),
            forall|i: int| 0 <= i < c ==> (#[trigger] cols[i]).data.len() == row_count,
        decreases columns@.len() - c,
    {
        assert(cols[c as int] == columns@[c as int]@);
        if columns[c].data.len() != row_count {
            return false;
        }
        c += 1;
    }
    true
}

/// The positions of the columns of the given projections, where each has one.
pub fn resolve_positions(order_by: &[Projection], columns: &Vec<OutputColumn>) -> (r: Option<Vec<usize>>)
    ensures
        match r {
            Some(ord) => resolve(order_by@, column::output_views(columns@)) == Some(order::ints(ord@)),
            None => resolve(order_by@, column::output_views(columns@)) is None,
        },
{
    let ghost cols = column::output_views(columns@);
    let mut positions: Vec<usize> = Vec::new();
    assert(order::ints(positions@) =~= Seq::<int>::empty());
    let mut k: usize = 0;
    while k < order_by.len()
        invariant
            k <= order_by@.len(),
            cols == column::output_views(columns@),
            resolve(order_by@.take(k as int), cols) == Some(order::ints(positions@)),
        decreases order_by@.len() - k,
    {
        let ghost before = positions@;
        assert(order_by@.take(k + 1).drop_last() =~= order_by@.take(k as int));
        assert(order_by@.take(k + 1).last() == order_by@[k as int]);
        match position_of_projection(columns, &order_by[k]) {
            Some(idx) => {
                positions.push(idx);
                assert(order::ints(positions@) =~= order::ints(before).push(idx as int));
            },
            None => {
                proof {
                    lemma_unresolved(order_by@, cols, k + 1);
                }
                return None;
            },
        }
        k += 1;
    }
    assert(order_by@.take(k as int) =~= order_by@);
    Some(positions)
}

impl<'a> MergeTreeEngine<'a> {
    /// Whether the values that the columns are sorted by can be compared.
    pub fn can_order(&self, columns: &Vec<OutputColumn>) -> (r: bool)
        ensures
            r == merge_tree_orderable(self.config.order_by@, column::output_views(columns@)),
    {
        let order_by = self.config.order_by;
        if order_by.len() == 0 || columns.len() == 0 || !have_one_length(columns) {
            return true;
        }
        proof {
            lemma_resolved_positions(order_by@, column::output_views(columns@));
        }
        match resolve_positions(order_by, columns) {
            Some(ord) => order::can_compare_rows(columns, &ord),
            None => true,
        }
    }
}

/// How many entries are not set.
spec fn unset(s: Seq<bool>) -> nat
    decreases s.len(),
{
    if s.len() == 0 {
        0
    } else {
        unset(s.drop_last()) + if s.last() {
            0nat
        } else {
            1nat
        }
    }
}

proof fn lemma_unset_update(s: Seq<bool>, i: int)
    requires
        0 <= i < s.len(),
        !s[i],
    ensures
        unset(s.update(i, true)) + 1 == unset(s),
    decreases s.len(),
{
    if i == s.len() - 1 {
        assert(s.update(i, true).drop_last() =~= s.drop_last());
    } else {
        assert(s.update(i, true).drop_last() =~= s.drop_last().update(i, true));
        lemma_unset_update(s.drop_last(), i);
    }
}

/// Exchanges two values.
fn swap_values(data: &mut Vec<Value>, a: usize, b: usize)
    requires
        a < old(data)@.len(),
        b < old(data)@.len(),
    ensures
        final(data)@ == old(data)@.update(a as int, old(data)@[b as int]).update(b as int, old(data)@[a as int]),
{
    if a != b {
        let mut held = Value::Null;
        core::mem::swap(&mut held, &mut data[a]);
        core::mem::swap(&mut held, &mut data[b]);
        core::mem::swap(&mut held, &mut data[a]);
    }
    assert(data@ =~= old(data)@.update(a as int, old(data)@[b as int]).update(b as int, old(data)@[a as int]));
}

/// Puts the value at `indices[i]` to position `i`, for every `i`, by following the cycles of the
/// permutation.
pub fn apply_permutation_in_place(data: &mut Vec<Value>, indices: &Vec<usize>)
    requires
        indices@.len() == old(data)@.len(),
        forall|i: int| 0 <= i < indices@.len() ==> (#[trigger] indices@[i]) < indices@.len(),
        indices@.no_duplicates(),
    ensures
        final(data)@ == order::gather_data(old(data)@, order::ints(indices@)),
{
    let ghost orig = data@;
    let n: usize = data.len();
    let mut visited: Vec<bool> = Vec::new();
    let mut k: usize = 0;
    while k < n
        invariant
            k <= n,
            visited@.len() == k,
            forall|i: int| 0 <= i < k ==> !#[trigger] visited@[i],
        decreases n - k,
    {
        visited.push(false);
        k += 1;
    }
    let mut cycle_start: usize = 0;
    while cycle_start < n
        invariant
            cycle_start <= n,
            n == orig.len(),
            indices@.len() == n,
            data@.len() == n,
            visited@.len() == n,
            forall|i: int| 0 <= i < n ==> (#[trigger] indices@[i]) < n,
            indices@.no_duplicates(),
            forall|i: int| 0 <= i < cycle_start ==> #[trigger] visited@[i],
            forall|i: int|
                0 <= i < n ==> #[trigger] data@[i] == (if visited@[i] {
                    orig[indices@[i] as int]
                } else {
                    orig[i]
                }),
            forall|v: int| 0 <= v < n && #[trigger] visited@[v] ==> has_visited_source(visited@, indices@, v),
        decreases n - cycle_start,
    {
        if !visited[cycle_start] {
            let mut current: usize = cycle_start;
            let mut next: usize = indices[current];
            let ghost c = cycle_start as int;
            while next != cycle_start
                invariant
                    cycle_start < n,
                    c == cycle_start,
                    n == orig.len(),
                    indices@.len() == n,
                    data@.len() == n,
                    visited@.len() == n,
                    current < n,
                    next == indices@[current as int],
                    !visited@[current as int],
                    forall|i: int| 0 <= i < n ==> (#[trigger] indices@[i]) < n,
                    indices@.no_duplicates(),
                    forall|i: int| 0 <= i < cycle_start ==> #[trigger] visited@[i],
                    data@[current as int] == orig[c],
                    forall|i: int|
                        0 <= i < n && i != current ==> #[trigger] data@[i] == (if visited@[i] {
                            orig[indices@[i] as int]
                        } else {
                            orig[i]
                        }),
                    forall|v: int|
                        0 <= v < n && v != c && #[trigger] visited@[v] ==> has_visited_source(visited@, indices@, v),
                    current != c ==> visited@[c],
                    current != c ==> has_visited_source(visited@, indices@, current as int),
                decreases unset(visited@),
            {
                proof {
                    if visited@[next as int] {
                        assert(has_visited_source(visited@, indices@, next as int));
                        let w = choose|w: int| 0 <= w < n && visited@[w] && #[trigger] indices@[w] == next;
                        assert(w != current);
                        assert(indices@[w] == indices@[current as int]);
                        assert(false);
                    }
                    if next == current {
                        if current != c {
                            let w = choose|w: int| 0 <= w < n && visited@[w] && #[trigger] indices@[w] == current;
                            assert(indices@[w] == indices@[current as int]);
                            assert(false);
                        }
                    }
                    lemma_unset_update(visited@, current as int);
                }
                let ghost was = visited@;
                visited.set(current, true);
                swap_values(data, current, next);
                proof {
                    assert forall|v: int| 0 <= v < n && v != c && #[trigger] visited@[v] implies has_visited_source(visited@, indices@, v) by {
                        assert(has_visited_source(was, indices@, v));
                        let w = choose|w: int| 0 <= w < n && was[w] && #[trigger] indices@[w] == v;
                        assert(visited@[w] && indices@[w] == v);
                    }
                    assert(visited@[current as int] && indices@[current as int] == next);
                    assert(has_visited_source(visited@, indices@, next as int));
                }
                current = next;
                next = indices[current];
            }
            let ghost was = visited@;
            visited.set(current, true);
            proof {
                assert(visited@[current as int] && indices@[current as int] == c);
                assert forall|v: int| 0 <= v < n && #[trigger] visited@[v] implies has_visited_source(visited@, indices@, v) by {
                    if v != c {
                        assert(has_visited_source(was, indices@, v));
                        let w = choose|w: int| 0 <= w < n && was[w] && #[trigger] indices@[w] == v;
                        assert(visited@[w] && indices@[w] == v);
                    }
                }
            }
        }
        cycle_start += 1;
    }
    assert(data@ =~= order::gather_data(orig, order::ints(indices@)));
}

/// Whether some visited position is sent to `v`.
spec fn has_visited_source(visited: Seq<bool>, indices: Seq<usize>, v: int) -> bool {
    exists|w: int| 0 <= w < indices.len() && visited[w] && #[trigger] indices[w] == v
}

impl<'a> Engine for MergeTreeEngine<'a> {
    open spec fn orderable(&self, columns: Seq<OutputColumnView>) -> bool {
        merge_tree_orderable(self.config.order_by@, columns)
    }

    open spec fn owes(
        &self,
        columns: Seq<OutputColumnView>,
        result: Result<Seq<OutputColumnView>, ErrorView>,
    ) -> bool {
        merge_tree_owes(self.config.order_by@, columns, result)
    }

    /// Orders columns by sorting rows according to ORDER BY column definitions.
    ///
    /// Returns:
    ///   * Ok: `Vec<OutputColumn>` with rows sorted in ascending order by `ORDER BY` columns.
    ///   * Error when:
    ///     1. ORDER BY is empty or columns is empty: `NoColumnsSpecified`.
    ///     2. Column lengths mismatch: `InvalidColumnsSpecified`.
    ///     3. ORDER BY column not found: `InvalidColumnsSpecified`.
    fn order_columns(&self, mut columns: Vec<OutputColumn>) -> (r: Outcome<Vec<OutputColumn>>) {
        let ghost cols = column::output_views(columns@);
        let order_by = self.config.order_by;
        if order_by.len() == 0 || columns.len() == 0 {
            return Err(Error::NoColumnsSpecified);
        }
        assert(cols[0] == columns@[0]@);
        let row_count: usize = columns[0].data.len();
        if !have_one_length(&columns) {
            return Err(Error::InvalidColumnsSpecified);
        }
        let order_by_indices = match resolve_positions(order_by, &columns) {
            Some(indices) => indices,
            None => return Err(Error::InvalidColumnsSpecified),
        };
        let ghost ord = order::ints(order_by_indices@);
        proof {
            lemma_resolved_positions(order_by@, cols);
        }
        let indices = order::sort_rows(&columns, &order_by_indices, row_count);
        let ghost idx = order::ints(indices@);
        proof {
            assert forall|i: int| 0 <= i < indices@.len() implies (#[trigger] indices@[i]) < indices@.len() by {
                assert(0 <= idx[i] < row_count);
            }
            assert forall|i: int, j: int| 0 <= i < indices@.len() && 0 <= j < indices@.len() && i != j implies indices@[i] != indices@[j] by {
                assert(idx[i] != idx[j]);
            }
        }
        let mut c: usize = 0;
        while c < columns.len()
            invariant
                c <= columns@.len(),
                columns@.len() == cols.len(),
                idx == order::ints(indices@),
                indices@.len() == row_count,
                forall|i: int| 0 <= i < indices@.len() ==> (#[trigger] indices@[i]) < indices@.len(),
                indices@.no_duplicates(),
                order::all_lengths(cols, row_count as nat),
                forall|i: int| 0 <= i < c ==> (#[trigger] columns@[i])@ == order::gather(cols, idx)[i],
                forall|i: int| c <= i < cols.len() ==> (#[trigger] columns@[i])@ == cols[i],
            decreases columns@.len() - c,
        {
            let ghost before = columns@;
            assert(before[c as int]@ == cols[c as int]);
            apply_permutation_in_place(&mut columns[c].data, &indices);
            assert(columns@[c as int]@ == order::gather(cols, idx)[c as int]);
            c += 1;
        }
        assert(column::output_views(columns@) =~= order::gather(cols, idx));
        Ok(columns)
    }
}

} // verus!
