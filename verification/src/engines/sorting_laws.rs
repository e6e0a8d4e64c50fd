//! In which order an engine gives rows back, said of the values that the rows hold.
use vstd::prelude::*;

use crate::engines;
use crate::engines::laws;
use crate::engines::merge_tree;
use crate::engines::order;
use crate::engines::replacing_merge_tree;
use crate::engines::EngineName;
use crate::error::ErrorView;
use crate::search;
use crate::sql::execution::select;
use crate::sql::projection;
use crate::sql::projection::{Projection, ProjectionValue};
use crate::storage::column;
use crate::storage::column::{ColumnDef, OutputColumnView};
use crate::storage::value;
use crate::storage::value::Value;
use crate::storage::value_laws;

verus! {

/// Whether two columns of a table are declared alike: the same name, type and constraints.
pub open spec fn is_same_column(a: ColumnDef, b: ColumnDef) -> bool {
    &&& a.name@ == b.name@
    &&& a.field_type == b.field_type
    &&& a.constraints.nullable == b.constraints.nullable
    &&& a.constraints.compression_type == b.constraints.compression_type
    &&& match (a.constraints.default, b.constraints.default) {
        (Some(x), Some(y)) => value_laws::is_same(x, y),
        (None, None) => true,
        _ => false,
    }
}

/// Whether two projections show the same under the same name.
pub open spec fn is_same_projection(a: Projection, b: Projection) -> bool {
    &&& match (a.alias, b.alias) {
        (Some(x), Some(y)) => x@ == y@,
        (None, None) => true,
        _ => false,
    }
    &&& match (a.source, b.source) {
        (ProjectionValue::Value(x), ProjectionValue::Value(y)) => value_laws::is_same(x, y),
        (ProjectionValue::ColumnDef(x), ProjectionValue::ColumnDef(y)) => is_same_column(x, y),
        _ => false,
    }
}

/// Columns are equal when they are declared alike.
pub proof fn lemma_equal_columns_are_declared_alike(a: ColumnDef, b: ColumnDef)
    ensures
        column::column_def_eq(a, b) <==> is_same_column(a, b),
{
    if let (Some(x), Some(y)) = (a.constraints.default, b.constraints.default) {
        value_laws::lemma_values_are_ordered_by_what_they_hold(x, y);
    }
}

/// Projections are equal when they show the same under the same name.
pub proof fn lemma_equal_projections_show_the_same(a: Projection, b: Projection)
    ensures
        projection::projection_eq(a, b) <==> is_same_projection(a, b),
{
    match (a.source, b.source) {
        (ProjectionValue::Value(x), ProjectionValue::Value(y)) => {
            value_laws::lemma_values_are_ordered_by_what_they_hold(x, y);
        },
        (ProjectionValue::ColumnDef(x), ProjectionValue::ColumnDef(y)) => {
            lemma_equal_columns_are_declared_alike(x, y);
        },
        _ => {},
    }
}

/// Whether a column is the first that shows what a projection asks for.
pub open spec fn is_column_for(cols: Seq<OutputColumnView>, i: int, p: Projection) -> bool {
    &&& 0 <= i < cols.len()
    &&& is_same_projection(p, cols[i].proj)
    &&& forall|j: int| 0 <= j < i ==> !is_same_projection(p, (#[trigger] cols[j]).proj)
}

/// Whether a row comes before another at the first of the columns at given positions in which they differ.
pub open spec fn comes_first(cols: Seq<OutputColumnView>, ord: Seq<int>, a: int, b: int) -> bool {
    exists|k: int| #[trigger] differs_at(cols, ord, a, b, k)
}

/// Whether a row agrees with another in the columns before a position, and comes before it there.
pub open spec fn differs_at(cols: Seq<OutputColumnView>, ord: Seq<int>, a: int, b: int, k: int) -> bool {
    &&& 0 <= k < ord.len()
    &&& forall|j: int|
        0 <= j < k ==> value_laws::is_same(cols[#[trigger] ord[j]].data[a], cols[ord[j]].data[b])
    &&& value_laws::comes_before(cols[ord[k]].data[a], cols[ord[k]].data[b])
}

/// Whether two rows hold the same in all columns at given positions.
pub open spec fn agree(cols: Seq<OutputColumnView>, ord: Seq<int>, a: int, b: int) -> bool {
    forall|k: int| 0 <= k < ord.len() ==> value_laws::is_same(cols[#[trigger] ord[k]].data[a], cols[ord[k]].data[b])
}

/// Whether a row has to stand before another: it comes first, or they agree and it was there first.
pub open spec fn stands_before(cols: Seq<OutputColumnView>, ord: Seq<int>, a: int, b: int) -> bool {
    comes_first(cols, ord, a, b) || (agree(cols, ord, a, b) && a < b)
}

/// Whether rows are all rows, each once, each standing before the next ones.
pub open spec fn is_sorting(cols: Seq<OutputColumnView>, ord: Seq<int>, n: nat, rows: Seq<int>) -> bool {
    &&& rows.len() == n
    &&& forall|i: int| 0 <= i < n ==> 0 <= #[trigger] rows[i] < n
    &&& forall|i: int, j: int|
        0 <= i < j < n ==> #[trigger] rows[i] != #[trigger] rows[j] && stands_before(cols, ord, rows[i], rows[j])
}

/// Whether columns are others with given rows, in the order in which they are given.
pub open spec fn holds_rows(cols: Seq<OutputColumnView>, rows: Seq<int>, out: Seq<OutputColumnView>) -> bool {
    &&& out.len() == cols.len()
    &&& forall|c: int|
        0 <= c < cols.len() ==> (#[trigger] out[c]).proj == cols[c].proj && out[c].data.len() == rows.len()
    &&& forall|c: int, i: int|
        0 <= c < cols.len() && 0 <= i < rows.len() ==> #[trigger] out[c].data[i] == cols[c].data[rows[i]]
}

proof fn lemma_found(cols: Seq<OutputColumnView>, p: Projection)
    ensures
        search::position(cols, merge_tree::column_of(p)) matches Some(i) ==> is_column_for(cols, i, p),
        forall|i: int| #[trigger]
            is_column_for(cols, i, p) ==> search::position(cols, merge_tree::column_of(p)) == Some(i),
{
    let f = merge_tree::column_of(p);
    search::lemma_position(cols, f);
    assert forall|c: OutputColumnView| #[trigger] f(c) <==> is_same_projection(p, c.proj) by {
        lemma_equal_projections_show_the_same(p, c.proj);
    }
    match search::position(cols, f) {
        Some(k) => {
            assert(f(cols[k]));
            assert forall|j: int| 0 <= j < k implies !is_same_projection(p, (#[trigger] cols[j]).proj) by {
                assert(!f(cols[j]));
            }
            assert forall|i: int| #[trigger] is_column_for(cols, i, p) implies i == k by {
                assert(f(cols[i]));
                if k < i {
                    assert(!is_same_projection(p, cols[k].proj));
                }
            }
        },
        None => {
            assert forall|i: int| !#[trigger] is_column_for(cols, i, p) by {
                if is_column_for(cols, i, p) {
                    assert(!f(cols[i]));
                }
            }
        },
    }
}

proof fn lemma_compared(a: Value, b: Value)
    ensures
        value::comparable(a, b) ==> (value::value_lt(a, b) <==> value_laws::comes_before(a, b)),
        value::comparable(a, b) ==> (value::value_lt(b, a) <==> value_laws::comes_before(b, a)),
        value::comparable(a, b) ==> (!value::value_lt(a, b) && !value::value_lt(b, a) <==> value_laws::is_same(a, b)),
        value::comparable(a, b) ==> !(value_laws::comes_before(a, b) && value_laws::is_same(a, b)),
        value::comparable(a, b) ==> !(value_laws::comes_before(b, a) && value_laws::is_same(a, b)),
        value_laws::is_same(a, b) <==> value_laws::is_same(b, a),
{
    value_laws::lemma_values_are_ordered_by_what_they_hold(a, b);
    value_laws::lemma_values_are_ordered_by_what_they_hold(b, a);
    if value::comparable(a, b) {
        value::lemma_value_trichotomy(a, b);
    }
}

proof fn lemma_row_less(cols: Seq<OutputColumnView>, ord: Seq<int>, n: nat, a: int, b: int, k: int)
    requires
        order::all_lengths(cols, n),
        order::positions_of(ord, cols),
        order::rows_comparable(cols, ord),
        0 <= a < n,
        0 <= b < n,
        0 <= k <= ord.len(),
        forall|j: int|
            0 <= j < k ==> value_laws::is_same(cols[#[trigger] ord[j]].data[a], cols[ord[j]].data[b]),
    ensures
        order::row_less(cols, ord, a, b, k) <==> comes_first(cols, ord, a, b),
        order::row_less(cols, ord, b, a, k) <==> comes_first(cols, ord, b, a),
        !order::row_less(cols, ord, a, b, k) && !order::row_less(cols, ord, b, a, k) <==> agree(cols, ord, a, b),
    decreases ord.len() - k,
{
    if k < ord.len() {
        let x = cols[ord[k]].data[a];
        let y = cols[ord[k]].data[b];
        assert(cols[ord[k]].data.len() == n);
        assert(value::comparable(x, y));
        lemma_compared(x, y);
        if !value_laws::is_same(x, y) {
            if value_laws::comes_before(x, y) {
                value::lemma_value_trichotomy(x, y);
                assert(differs_at(cols, ord, a, b, k));
                assert forall|j: int| !#[trigger] differs_at(cols, ord, b, a, j) by {
                    lemma_no_difference(cols, ord, a, b, k, j);
                }
            } else {
                value::lemma_value_trichotomy(x, y);
                assert forall|j: int|
                    0 <= j < k implies value_laws::is_same(cols[#[trigger] ord[j]].data[b], cols[ord[j]].data[a]) by {
                    lemma_compared(cols[ord[j]].data[a], cols[ord[j]].data[b]);
                }
                assert(differs_at(cols, ord, b, a, k));
                assert forall|j: int| !#[trigger] differs_at(cols, ord, a, b, j) by {
                    lemma_no_difference(cols, ord, b, a, k, j);
                }
            }
        } else {
            lemma_row_less(cols, ord, n, a, b, k + 1);
        }
    } else {
        assert forall|j: int| !#[trigger] differs_at(cols, ord, a, b, j) && !differs_at(cols, ord, b, a, j) by {
            if 0 <= j < ord.len() {
                let x = cols[ord[j]].data[a];
                let y = cols[ord[j]].data[b];
                assert(cols[ord[j]].data.len() == n);
                assert(value::comparable(x, y));
                lemma_compared(x, y);
                assert(value_laws::is_same(x, y));
            }
        }
        assert forall|j: int| !#[trigger] differs_at(cols, ord, b, a, j) by {
            assert(!differs_at(cols, ord, a, b, j) && !differs_at(cols, ord, b, a, j));
        }
    }
}

/// Where rows agree up to a position and one comes first there, the other comes first nowhere.
proof fn lemma_no_difference(cols: Seq<OutputColumnView>, ord: Seq<int>, a: int, b: int, k: int, j: int)
    requires
        differs_at(cols, ord, a, b, k),
    ensures
        !differs_at(cols, ord, b, a, j),
{
    if differs_at(cols, ord, b, a, j) {
        let x = cols[ord[k]].data[a];
        let y = cols[ord[k]].data[b];
        let u = cols[ord[j]].data[a];
        let v = cols[ord[j]].data[b];
        value_laws::lemma_values_are_ordered_by_what_they_hold(x, y);
        value_laws::lemma_values_are_ordered_by_what_they_hold(y, x);
        value_laws::lemma_values_are_ordered_by_what_they_hold(u, v);
        value_laws::lemma_values_are_ordered_by_what_they_hold(v, u);
        lemma_compared(x, y);
        lemma_compared(u, v);
        if j < k {
            assert(value_laws::is_same(cols[ord[j]].data[a], cols[ord[j]].data[b]));
        } else if k < j {
            assert(value_laws::is_same(cols[ord[k]].data[b], cols[ord[k]].data[a]));
        } else {
            value::lemma_value_lt_transitive(x, y, x);
            value::lemma_value_lt_irreflexive(x);
        }
    }
}

proof fn lemma_sorting(cols: Seq<OutputColumnView>, ord: Seq<int>, n: nat, rows: Seq<int>)
    requires
        order::all_lengths(cols, n),
        order::positions_of(ord, cols),
        order::rows_comparable(cols, ord),
        order::is_stable_order(cols, ord, n, rows),
    ensures
        is_sorting(cols, ord, n, rows),
{
    assert forall|i: int, j: int| 0 <= i < j < n implies #[trigger] rows[i] != #[trigger] rows[j] && stands_before(
        cols,
        ord,
        rows[i],
        rows[j],
    ) by {
        assert(order::before(cols, ord, rows[i], rows[j]));
        lemma_row_less(cols, ord, n, rows[i], rows[j], 0);
    }
}

/// Whether positions are those of the columns that projections ask for, one by one.
pub open spec fn are_columns_for(cols: Seq<OutputColumnView>, ord: Seq<int>, order_by: Seq<Projection>) -> bool {
    &&& ord.len() == order_by.len()
    &&& forall|k: int| 0 <= k < ord.len() ==> is_column_for(cols, #[trigger] ord[k], order_by[k])
}

proof fn lemma_resolved(order_by: Seq<Projection>, cols: Seq<OutputColumnView>)
    ensures
        merge_tree::resolve(order_by, cols) matches Some(ord) ==> are_columns_for(cols, ord, order_by),
        merge_tree::resolve(order_by, cols) is None ==> exists|k: int| #[trigger] has_no_column(cols, order_by, k),
    decreases order_by.len(),
{
    if order_by.len() > 0 {
        let rest = order_by.drop_last();
        lemma_resolved(rest, cols);
        lemma_found(cols, order_by.last());
        if merge_tree::resolve(rest, cols) is None {
            let k = choose|k: int| #[trigger] has_no_column(cols, rest, k);
            assert(rest[k] == order_by[k]);
            assert(has_no_column(cols, order_by, k));
        } else if search::position(cols, merge_tree::column_of(order_by.last())) is None {
            assert(has_no_column(cols, order_by, order_by.len() - 1));
        }
    }
}

/// Whether no column shows what a projection of a list asks for.
pub open spec fn has_no_column(cols: Seq<OutputColumnView>, order_by: Seq<Projection>, k: int) -> bool {
    0 <= k < order_by.len() && forall|i: int| !#[trigger] is_column_for(cols, i, order_by[k])
}

/// Whether columns are others with their rows sorted by what projections ask for.
pub open spec fn is_sorted_by(cols: Seq<OutputColumnView>, order_by: Seq<Projection>, out: Seq<OutputColumnView>) -> bool {
    exists|ord: Seq<int>, rows: Seq<int>| #[trigger]
        are_columns_for(cols, ord, order_by) && #[trigger] is_sorting(cols, ord, cols[0].data.len(), rows)
            && holds_rows(cols, rows, out)
}

/// Sorting gives back every row once, in ascending order of the first of the asked-for columns in which two
/// rows differ; rows that agree in all of them stay as they stood. It is refused exactly where there is
/// nothing to sort or to sort by, where the columns differ in length, or where a column is missing.
pub proof fn lemma_sorted_rows_ascend(
    order_by: Seq<Projection>,
    cols: Seq<OutputColumnView>,
    result: Result<Seq<OutputColumnView>, ErrorView>,
)
    requires
        engines::engine_orderable(EngineName::MergeTree, order_by, cols),
        engines::engine_owes(EngineName::MergeTree, order_by, seq![], cols, result),
    ensures
        result matches Ok(out) ==> cols.len() > 0 && is_sorted_by(cols, order_by, out),
        result is Err ==> {
            ||| order_by.len() == 0
            ||| cols.len() == 0
            ||| exists|c: int| 0 <= c < cols.len() && (#[trigger] cols[c]).data.len() != cols[0].data.len()
            ||| exists|k: int| #[trigger] has_no_column(cols, order_by, k)
        },
{
    lemma_resolved(order_by, cols);
    if let Ok(out) = result {
        let ord = merge_tree::resolve(order_by, cols)->Some_0;
        let n = cols[0].data.len();
        let rows = choose|idx: Seq<int>| #[trigger] order::is_stable_order(cols, ord, n, idx) && out == order::gather(cols, idx);
        merge_tree::lemma_resolved_positions(order_by, cols);
        lemma_sorting(cols, ord, n, rows);
        assert(holds_rows(cols, rows, out));
        assert(are_columns_for(cols, ord, order_by) && is_sorting(cols, ord, n, rows));
    }
}

/// An ORDER BY sorts by its items one after the other: by each what the items before it gave.
pub proof fn lemma_orders_are_applied_in_turn(
    columns: Seq<OutputColumnView>,
    orders: Seq<Seq<Projection>>,
    n: int,
    out: Seq<OutputColumnView>,
)
    requires
        0 < n <= orders.len(),
        select::sorting_owes(EngineName::MergeTree, seq![], columns, orders, n, Ok(out)),
    ensures
        exists|before: Seq<OutputColumnView>| #[trigger]
            select::sorting_owes(EngineName::MergeTree, seq![], columns, orders, n - 1, Ok(before)) && is_sorted_by(
                before,
                orders[n - 1],
                out,
            ),
{
    let result = Ok::<Seq<OutputColumnView>, ErrorView>(out);
    let before = choose|before: Result<Seq<OutputColumnView>, ErrorView>|
        select::sorting_owes(EngineName::MergeTree, seq![], columns, orders, n - 1, before) && #[trigger]
            select::order_owes(EngineName::MergeTree, seq![], before, orders[n - 1], result);
    let cols = before->Ok_0;
    assert(before == Ok::<Seq<OutputColumnView>, ErrorView>(cols));
    lemma_sorted_rows_ascend(orders[n - 1], cols, result);
}

/// Without an ORDER BY the rows stay as they are, and with one of a single item they are sorted by it.
pub proof fn lemma_single_order_sorts(
    columns: Seq<OutputColumnView>,
    order_by: Option<Seq<Seq<Projection>>>,
    out: Seq<OutputColumnView>,
)
    requires
        select::ordering_owes(columns, order_by, Ok(out)),
    ensures
        order_by is None ==> out == columns,
        order_by is Some && order_by->Some_0.len() == 1 ==> is_sorted_by(columns, order_by->Some_0[0], out),
{
    if let Some(orders) = order_by {
        if orders.len() == 1 {
            lemma_orders_are_applied_in_turn(columns, orders, 1, out);
            let before = choose|before: Seq<OutputColumnView>| #[trigger]
                select::sorting_owes(EngineName::MergeTree, seq![], columns, orders, 0, Ok(before)) && is_sorted_by(
                    before,
                    orders[0],
                    out,
                );
            assert(before == columns);
        }
    }
}

/// Whether rows of columns are the newest ones of their keys: no two of them agree in the columns of the key,
/// every row agrees with one of them, and every other row that agrees with one stands before it.
pub open spec fn are_newest(cols: Seq<OutputColumnView>, ord: Seq<int>, pk: Seq<int>, n: nat, kept: Seq<int>) -> bool {
    &&& forall|i: int| 0 <= i < kept.len() ==> 0 <= #[trigger] kept[i] < n
    &&& forall|i: int, j: int|
        0 <= i < j < kept.len() ==> stands_before(cols, ord, #[trigger] kept[i], #[trigger] kept[j]) && !agree(
            cols,
            pk,
            kept[i],
            kept[j],
        )
    &&& forall|row: int| 0 <= row < n ==> #[trigger] has_newest(cols, pk, kept, row)
    &&& forall|row: int, i: int|
        0 <= row < n && 0 <= i < kept.len() && row != kept[i] && #[trigger] agree(cols, pk, row, #[trigger] kept[i])
            ==> stands_before(cols, ord, row, kept[i])
}

/// Whether a row agrees with one of the kept rows in the columns of the key.
pub open spec fn has_newest(cols: Seq<OutputColumnView>, pk: Seq<int>, kept: Seq<int>, row: int) -> bool {
    exists|i: int| 0 <= i < kept.len() && agree(cols, pk, row, #[trigger] kept[i])
}

proof fn lemma_same_key(cols: Seq<OutputColumnView>, pk: Seq<int>, a: int, b: int)
    ensures
        replacing_merge_tree::same_key(cols, pk, a, b) <==> agree(cols, pk, a, b),
{
    assert forall|k: int| 0 <= k < pk.len() implies (value::value_eq(
        cols[#[trigger] pk[k]].data[a],
        cols[pk[k]].data[b],
    ) <==> value_laws::is_same(cols[pk[k]].data[a], cols[pk[k]].data[b])) by {
        value_laws::lemma_values_are_ordered_by_what_they_hold(cols[pk[k]].data[a], cols[pk[k]].data[b]);
    }
}

/// A replacing engine gives back, in ascending order, the newest row of each key and no other: of the rows
/// that agree in the columns of the primary key the one that sorting puts last. The columns of the key are the
/// first ones of those that are sorted by, and all of them are there.
pub proof fn lemma_replacing_keeps_the_newest_rows(
    order_by: Seq<Projection>,
    primary_key: Seq<ColumnDef>,
    cols: Seq<OutputColumnView>,
    out: Seq<OutputColumnView>,
)
    requires
        cols.len() > 0,
        engines::engine_orderable(EngineName::ReplacingMergeTree, order_by, cols),
        engines::engine_owes(EngineName::ReplacingMergeTree, order_by, primary_key, cols, Ok(out)),
        laws::key_is_prefix(
            replacing_merge_tree::key_positions(primary_key, cols),
            replacing_merge_tree::order_positions(order_by, cols),
        ),
    ensures
        exists|kept: Seq<int>| #[trigger]
            are_newest(
                cols,
                replacing_merge_tree::order_positions(order_by, cols),
                replacing_merge_tree::key_positions(primary_key, cols),
                cols[0].data.len(),
                kept,
            ) && holds_rows(cols, kept, out),
{
    let ord = replacing_merge_tree::order_positions(order_by, cols);
    let pk = replacing_merge_tree::key_positions(primary_key, cols);
    let n = cols[0].data.len();
    let idx = choose|idx: Seq<int>| #[trigger]
        order::is_stable_order(cols, ord, n, idx) && out == order::gather(
            cols,
            replacing_merge_tree::newest(cols, pk, idx),
        );
    replacing_merge_tree::lemma_order_positions(order_by, cols);
    replacing_merge_tree::lemma_key_positions(primary_key, cols);
    let kept = replacing_merge_tree::newest(cols, pk, idx);
    laws::lemma_replacing_keeps_newest_row_of_each_key(cols, ord, pk, n, idx);
    laws::lemma_kept_rows_are_rows(cols, pk, idx);
    assert forall|i: int| 0 <= i < kept.len() implies 0 <= #[trigger] kept[i] < n by {
        assert(kept.contains(kept[i]));
        assert(idx.contains(kept[i]));
    }
    assert forall|row: int| 0 <= row < n implies #[trigger] has_newest(cols, pk, kept, row) by {
        assert(laws::key_is_kept(cols, pk, idx, row));
        let k = choose|k: int|
            #![trigger replacing_merge_tree::same_key(cols, pk, row, k)]
            kept.contains(k) && replacing_merge_tree::same_key(cols, pk, row, k);
        lemma_same_key(cols, pk, row, k);
        let i = choose|i: int| 0 <= i < kept.len() && kept[i] == k;
        assert(agree(cols, pk, row, kept[i]));
    }
    assert forall|row: int, i: int|
        0 <= row < n && 0 <= i < kept.len() && row != kept[i] && #[trigger] agree(
            cols,
            pk,
            row,
            #[trigger] kept[i],
        ) implies stands_before(cols, ord, row, kept[i]) by {
        lemma_same_key(cols, pk, row, kept[i]);
        assert(kept.contains(kept[i]));
        assert(order::before(cols, ord, row, kept[i]));
        lemma_row_less(cols, ord, n, row, kept[i], 0);
    }
    lemma_kept_in_order(cols, pk, idx);
    assert forall|i: int, j: int| 0 <= i < j < kept.len() implies stands_before(
        cols,
        ord,
        #[trigger] kept[i],
        #[trigger] kept[j],
    ) && !agree(cols, pk, kept[i], kept[j]) by {
        lemma_same_key(cols, pk, kept[i], kept[j]);
        assert(comes_earlier(idx, kept[i], kept[j]));
        let a = choose|a: int, b: int| 0 <= a < b < idx.len() && #[trigger] idx[a] == kept[i] && #[trigger] idx[b] == kept[j];
        assert(order::before(cols, ord, idx[a.0], idx[a.1]));
        lemma_row_less(cols, ord, n, kept[i], kept[j], 0);
    }
    assert(holds_rows(cols, kept, out));
    assert(are_newest(cols, ord, pk, n, kept));
}

/// Whether a row stands before another in a list.
spec fn comes_earlier(idx: Seq<int>, x: int, y: int) -> bool {
    exists|a: int, b: int| 0 <= a < b < idx.len() && #[trigger] idx[a] == x && #[trigger] idx[b] == y
}

/// The rows that are kept are in the order of the list.
proof fn lemma_kept_in_order(cols: Seq<OutputColumnView>, pk: Seq<int>, idx: Seq<int>)
    ensures
        ({
            let kept = replacing_merge_tree::newest(cols, pk, idx);
            &&& forall|i: int| 0 <= i < kept.len() ==> idx.contains(#[trigger] kept[i])
            &&& forall|i: int, j: int| 0 <= i < j < kept.len() ==> comes_earlier(idx, #[trigger] kept[i], #[trigger] kept[j])
        }),
    decreases idx.len(),
{
    if idx.len() > 0 {
        let rest = idx.drop_first();
        lemma_kept_in_order(cols, pk, rest);
        let below = replacing_merge_tree::newest(cols, pk, rest);
        let kept = replacing_merge_tree::newest(cols, pk, idx);
        let shift = kept.len() - below.len();
        assert(forall|k: int| 0 <= k < rest.len() ==> #[trigger] rest[k] == idx[k + 1]);
        assert forall|i: int| 0 <= i < kept.len() implies idx.contains(#[trigger] kept[i]) by {
            if i >= shift {
                assert(kept[i] == below[i - shift]);
                assert(rest.contains(below[i - shift]));
                let k = choose|k: int| 0 <= k < rest.len() && rest[k] == below[i - shift];
                assert(idx[k + 1] == kept[i]);
            } else {
                assert(kept[i] == idx[0]);
            }
        }
        assert forall|i: int, j: int| 0 <= i < j < kept.len() implies comes_earlier(
            idx,
            #[trigger] kept[i],
            #[trigger] kept[j],
        ) by {
            assert(kept[j] == below[j - shift]);
            if i >= shift {
                assert(kept[i] == below[i - shift]);
                assert(comes_earlier(rest, below[i - shift], below[j - shift]));
                let (a, b) = choose|a: int, b: int|
                    0 <= a < b < rest.len() && #[trigger] rest[a] == kept[i] && #[trigger] rest[b] == kept[j];
                assert(idx[a + 1] == kept[i] && idx[b + 1] == kept[j]);
            } else {
                assert(rest.contains(below[j - shift]));
                let k = choose|k: int| 0 <= k < rest.len() && rest[k] == below[j - shift];
                assert(idx[0] == kept[i] && idx[k + 1] == kept[j]);
            }
        }
    }
}

/// Whether a column is the first that reads a column of a table.
pub open spec fn is_key_column(cols: Seq<OutputColumnView>, i: int, d: ColumnDef) -> bool {
    &&& 0 <= i < cols.len()
    &&& reads_column(cols[i], d)
    &&& forall|j: int| 0 <= j < i ==> !reads_column(#[trigger] cols[j], d)
}

/// Whether a column reads a column of a table, under whatever name.
pub open spec fn reads_column(c: OutputColumnView, d: ColumnDef) -> bool {
    c.proj.source is ColumnDef && is_same_column(d, c.proj.source->ColumnDef_0)
}

/// Where every column that is sorted by and every column of the key is there, a replacing engine sorts by the
/// former and tells rows apart by the latter, in their order.
pub proof fn lemma_replacing_goes_by_its_columns(
    order_by: Seq<Projection>,
    primary_key: Seq<ColumnDef>,
    cols: Seq<OutputColumnView>,
)
    ensures
        (forall|k: int| 0 <= k < order_by.len() ==> !#[trigger] has_no_column(cols, order_by, k)) ==> are_columns_for(
            cols,
            replacing_merge_tree::order_positions(order_by, cols),
            order_by,
        ),
        (forall|k: int| 0 <= k < primary_key.len() ==> #[trigger] has_key_column(cols, primary_key[k])) ==> {
            let pk = replacing_merge_tree::key_positions(primary_key, cols);
            pk.len() == primary_key.len() && forall|k: int|
                0 <= k < pk.len() ==> is_key_column(cols, #[trigger] pk[k], primary_key[k])
        },
{
    if forall|k: int| 0 <= k < order_by.len() ==> !#[trigger] has_no_column(cols, order_by, k) {
        lemma_order_columns(order_by, cols);
    }
    if forall|k: int| 0 <= k < primary_key.len() ==> #[trigger] has_key_column(cols, primary_key[k]) {
        lemma_key_columns(primary_key, cols);
    }
}

/// Whether some column reads a column of a table.
pub open spec fn has_key_column(cols: Seq<OutputColumnView>, d: ColumnDef) -> bool {
    exists|i: int| 0 <= i < cols.len() && reads_column(#[trigger] cols[i], d)
}

proof fn lemma_order_columns(order_by: Seq<Projection>, cols: Seq<OutputColumnView>)
    requires
        forall|k: int| 0 <= k < order_by.len() ==> !#[trigger] has_no_column(cols, order_by, k),
    ensures
        are_columns_for(cols, replacing_merge_tree::order_positions(order_by, cols), order_by),
    decreases order_by.len(),
{
    if order_by.len() > 0 {
        let rest = order_by.drop_last();
        assert forall|k: int| 0 <= k < rest.len() implies !#[trigger] has_no_column(cols, rest, k) by {
            assert(rest[k] == order_by[k]);
            assert(!has_no_column(cols, order_by, k));
        }
        lemma_order_columns(rest, cols);
        lemma_found(cols, order_by.last());
        assert(!has_no_column(cols, order_by, order_by.len() - 1));
    }
}

proof fn lemma_key_columns(primary_key: Seq<ColumnDef>, cols: Seq<OutputColumnView>)
    requires
        forall|k: int| 0 <= k < primary_key.len() ==> #[trigger] has_key_column(cols, primary_key[k]),
    ensures
        ({
            let pk = replacing_merge_tree::key_positions(primary_key, cols);
            pk.len() == primary_key.len() && forall|k: int|
                0 <= k < pk.len() ==> is_key_column(cols, #[trigger] pk[k], primary_key[k])
        }),
    decreases primary_key.len(),
{
    if primary_key.len() > 0 {
        let rest = primary_key.drop_last();
        let d = primary_key.last();
        assert forall|k: int| 0 <= k < rest.len() implies #[trigger] has_key_column(cols, rest[k]) by {
            assert(has_key_column(cols, primary_key[k]));
        }
        lemma_key_columns(rest, cols);
        let f = replacing_merge_tree::reads(d);
        search::lemma_position(cols, f);
        assert forall|c: OutputColumnView| #[trigger] f(c) <==> reads_column(c, d) by {
            if let ProjectionValue::ColumnDef(col) = c.proj.source {
                lemma_equal_columns_are_declared_alike(d, col);
            }
        }
        assert(has_key_column(cols, primary_key[primary_key.len() - 1]));
        let i = choose|i: int| 0 <= i < cols.len() && reads_column(#[trigger] cols[i], d);
        assert(f(cols[i]));
        let k = search::position(cols, f)->Some_0;
        assert(f(cols[k]));
        assert forall|j: int| 0 <= j < k implies !reads_column(#[trigger] cols[j], d) by {
            assert(!f(cols[j]));
        }
    }
}

} // verus!
