//! The order of the rows of a set of columns, and a stable sort by it.
use vstd::prelude::*;

use crate::storage::column::{OutputColumn, OutputColumnView};
use crate::storage::column;
use crate::storage::value;
use crate::storage::value::Value;

verus! {

/// Whether row `a` comes strictly before row `b` when the columns at the positions `ord[k..]` are
/// compared one after the other.
pub open spec fn row_less(cols: Seq<OutputColumnView>, ord: Seq<int>, a: int, b: int, k: int) -> bool
    decreases ord.len() - k,
{
    if k >= ord.len() {
        false
    } else if value::value_lt(cols[ord[k]].data[a], cols[ord[k]].data[b]) {
        true
    } else if value::value_lt(cols[ord[k]].data[b], cols[ord[k]].data[a]) {
        false
    } else {
        row_less(cols, ord, a, b, k + 1)
    }
}

/// Whether row `a` stands before row `b` in a stable sort: it is less, or it is not greater and was
/// there first.
pub open spec fn before(cols: Seq<OutputColumnView>, ord: Seq<int>, a: int, b: int) -> bool {
    row_less(cols, ord, a, b, 0) || (!row_less(cols, ord, b, a, 0) && a < b)
}

/// Whether every column has `n` values.
pub open spec fn all_lengths(cols: Seq<OutputColumnView>, n: nat) -> bool {
    forall|i: int| 0 <= i < cols.len() ==> (#[trigger] cols[i]).data.len() == n
}

/// Whether every position of a list is that of a column.
pub open spec fn positions_of(ord: Seq<int>, cols: Seq<OutputColumnView>) -> bool {
    forall|k: int| 0 <= k < ord.len() ==> 0 <= #[trigger] ord[k] < cols.len()
}

/// Whether the values of each column that is sorted by can be compared with each other.
pub open spec fn rows_comparable(cols: Seq<OutputColumnView>, ord: Seq<int>) -> bool {
    forall|k: int, a: int, b: int|
        #![trigger cols[ord[k]].data[a], cols[ord[k]].data[b]]
        0 <= k < ord.len() && 0 <= a < cols[ord[k]].data.len() && 0 <= b < cols[ord[k]].data.len()
            ==> value::comparable(cols[ord[k]].data[a], cols[ord[k]].data[b])
}

/// Whether `idx` lists `n` different rows among the first `n`, each standing before the next ones
/// in a stable sort.
pub open spec fn is_stable_order(
    cols: Seq<OutputColumnView>,
    ord: Seq<int>,
    n: nat,
    idx: Seq<int>,
) -> bool {
    &&& idx.len() == n
    &&& forall|i: int| 0 <= i < n ==> 0 <= #[trigger] idx[i] < n
    &&& idx.no_duplicates()
    &&& forall|i: int, j: int|
        #![trigger idx[i], idx[j]]
        0 <= i < j < n ==> before(cols, ord, idx[i], idx[j])
}

/// The values at the given rows, in the order in which the rows are given.
pub open spec fn gather_data(data: Seq<Value>, idx: Seq<int>) -> Seq<Value> {
    Seq::new(idx.len(), |i: int| data[idx[i]])
}

/// The columns with the given rows, in the order in which the rows are given.
pub open spec fn gather(cols: Seq<OutputColumnView>, idx: Seq<int>) -> Seq<OutputColumnView> {
    Seq::new(
        cols.len(),
        |i: int| OutputColumnView { proj: cols[i].proj, data: gather_data(cols[i].data, idx) },
    )
}

/// No row comes before itself.
pub proof fn lemma_row_less_irreflexive(cols: Seq<OutputColumnView>, ord: Seq<int>, a: int, k: int)
    ensures
        !row_less(cols, ord, a, a, k),
    decreases ord.len() - k,
{
    if k < ord.len() {
        value::lemma_value_lt_irreflexive(cols[ord[k]].data[a]);
        lemma_row_less_irreflexive(cols, ord, a, k + 1);
    }
}

/// Whether three rows lie in columns whose values can be compared.
pub open spec fn three_rows(cols: Seq<OutputColumnView>, ord: Seq<int>, n: nat, a: int, b: int, c: int) -> bool {
    &&& all_lengths(cols, n)
    &&& positions_of(ord, cols)
    &&& rows_comparable(cols, ord)
    &&& 0 <= a < n
    &&& 0 <= b < n
    &&& 0 <= c < n
}

/// The order of rows is transitive, and a row that is not after another keeps its side of a third.
pub proof fn lemma_row_less_transitive(
    cols: Seq<OutputColumnView>,
    ord: Seq<int>,
    n: nat,
    a: int,
    b: int,
    c: int,
    k: int,
)
    requires
        three_rows(cols, ord, n, a, b, c),
        0 <= k,
    ensures
        row_less(cols, ord, a, b, k) && row_less(cols, ord, b, c, k) ==> row_less(cols, ord, a, c, k),
        !row_less(cols, ord, b, a, k) && !row_less(cols, ord, c, b, k) ==> !row_less(cols, ord, c, a, k),
        row_less(cols, ord, a, b, k) ==> !row_less(cols, ord, b, a, k),
    decreases ord.len() - k,
{
    if k < ord.len() {
        let x = cols[ord[k]].data[a];
        let y = cols[ord[k]].data[b];
        let z = cols[ord[k]].data[c];
        assert(value::comparable(x, y));
        assert(value::comparable(y, z));
        assert(value::comparable(x, z));
        lemma_row_less_transitive(cols, ord, n, a, b, c, k + 1);
        value::lemma_value_trichotomy(x, y);
        value::lemma_value_trichotomy(y, z);
        value::lemma_value_trichotomy(x, z);
        lemma_three_values(x, y, z);
        lemma_three_values(z, y, x);
    }
}

/// What the order of two neighbouring pairs says of the outer pair.
proof fn lemma_three_values(x: Value, y: Value, z: Value)
    requires
        value::comparable(x, y),
        value::comparable(y, z),
        value::comparable(x, z),
    ensures
        value::value_lt(x, y) && value::value_lt(y, z) ==> value::value_lt(x, z),
        value::value_eq(x, y) ==> (value::value_lt(x, z) == value::value_lt(y, z)),
        value::value_eq(x, y) ==> (value::value_lt(z, x) == value::value_lt(z, y)),
        value::value_eq(y, z) ==> (value::value_lt(x, y) == value::value_lt(x, z)),
        value::value_eq(y, z) ==> (value::value_lt(y, x) == value::value_lt(z, x)),
{
    if value::value_lt(x, y) && value::value_lt(y, z) {
        value::lemma_value_lt_transitive(x, y, z);
    }
}

/// Standing before is transitive.
pub proof fn lemma_before_transitive(
    cols: Seq<OutputColumnView>,
    ord: Seq<int>,
    n: nat,
    a: int,
    b: int,
    c: int,
)
    requires
        three_rows(cols, ord, n, a, b, c),
        before(cols, ord, a, b),
        before(cols, ord, b, c),
    ensures
        before(cols, ord, a, c),
{
    lemma_row_less_transitive(cols, ord, n, a, b, c, 0);
    lemma_row_less_transitive(cols, ord, n, c, b, a, 0);
    lemma_row_less_transitive(cols, ord, n, a, c, b, 0);
    lemma_row_less_transitive(cols, ord, n, b, c, a, 0);
    lemma_row_less_transitive(cols, ord, n, b, a, c, 0);
    lemma_row_less_transitive(cols, ord, n, c, a, b, 0);
}

/// No row stands before itself.
pub proof fn lemma_before_irreflexive(cols: Seq<OutputColumnView>, ord: Seq<int>, a: int)
    ensures
        !before(cols, ord, a, a),
{
    lemma_row_less_irreflexive(cols, ord, a, 0);
}

/// The positions of a list of `usize`, as integers.
pub open spec fn ints(s: Seq<usize>) -> Seq<int> {
    s.map_values(|x: usize| x as int)
}

/// Whether row `a` comes strictly before row `b`.
fn row_before(columns: &Vec<OutputColumn>, ord: &Vec<usize>, a: usize, b: usize) -> (r: bool)
    requires
        positions_of(ints(ord@), column::output_views(columns@)),
        forall|i: int| 0 <= i < columns@.len() ==> a < (#[trigger] columns@[i]).data@.len() && b < columns@[i].data@.len(),
        rows_comparable(column::output_views(columns@), ints(ord@)),
    ensures
        r == row_less(column::output_views(columns@), ints(ord@), a as int, b as int, 0),
{
    let ghost cols = column::output_views(columns@);
    let ghost o = ints(ord@);
    let mut k: usize = 0;
    while k < ord.len()
        invariant
            k <= ord@.len(),
            cols == column::output_views(columns@),
            o == ints(ord@),
            positions_of(o, cols),
            rows_comparable(cols, o),
            forall|i: int| 0 <= i < columns@.len() ==> a < (#[trigger] columns@[i]).data@.len() && b < columns@[i].data@.len(),
            row_less(cols, o, a as int, b as int, 0) == row_less(cols, o, a as int, b as int, k as int),
        decreases ord@.len() - k,
    {
        assert(o[k as int] == ord@[k as int]);
        let c: usize = ord[k];
        assert(0 <= o[k as int] < cols.len());
        assert(cols[c as int] == columns@[c as int]@);
        let left = &columns[c].data[a];
        let right = &columns[c].data[b];
        assert(value::comparable(cols[o[k as int]].data[a as int], cols[o[k as int]].data[b as int]));
        if less(left, right) {
            return true;
        }
        if less(right, left) {
            return false;
        }
        k += 1;
    }
    false
}

/// Whether a value comes strictly before another: by the text order, else by position.
fn less(a: &Value, b: &Value) -> (r: bool)
    requires
        value::comparable(*a, *b),
    ensures
        r == value::value_lt(*a, *b),
{
    proof {
        value::lemma_value_trichotomy(*a, *b);
    }
    *a < *b
}

/// Whether the values of a list can be compared with each other.
fn all_comparable(values: &Vec<Value>) -> (r: bool)
    ensures
        r == (forall|a: int, b: int|
            #![trigger values@[a], values@[b]]
            0 <= a < values@.len() && 0 <= b < values@.len() ==> value::comparable(values@[a], values@[b])),
{
    let mut i: usize = 0;
    while i < values.len()
        invariant
            i <= values@.len(),
            forall|k: int| 0 <= k < i ==> value::comparable(#[trigger] values@[k], values@[0]),
        decreases values@.len() - i,
    {
        if values[i].get_type() != values[0].get_type() || values[i].is_not_a_number() {
            assert(!value::comparable(values@[i as int], values@[0]));
            return false;
        }
        i += 1;
    }
    true
}

/// Whether the values of each column that is sorted by can be compared with each other.
pub fn can_compare_rows(columns: &Vec<OutputColumn>, ord: &Vec<usize>) -> (r: bool)
    requires
        positions_of(ints(ord@), column::output_views(columns@)),
    ensures
        r == rows_comparable(column::output_views(columns@), ints(ord@)),
{
    let ghost cols = column::output_views(columns@);
    let ghost o = ints(ord@);
    let mut k: usize = 0;
    while k < ord.len()
        invariant
            k <= ord@.len(),
            cols == column::output_views(columns@),
            o == ints(ord@),
            positions_of(o, cols),
            forall|m: int, a: int, b: int|
                #![trigger cols[o[m]].data[a], cols[o[m]].data[b]]
                0 <= m < k && 0 <= a < cols[o[m]].data.len() && 0 <= b < cols[o[m]].data.len()
                    ==> value::comparable(cols[o[m]].data[a], cols[o[m]].data[b]),
        decreases ord@.len() - k,
    {
        let c: usize = ord[k];
        assert(0 <= o[k as int] < cols.len());
        assert(o[k as int] == c);
        assert(cols[c as int] == columns@[c as int]@);
        if !all_comparable(&columns[c].data) {
            assert(!rows_comparable(cols, o)) by {
                let data = columns@[c as int].data@;
                let (a, b) = choose|a: int, b: int|
                    #![trigger data[a], data[b]]
                    0 <= a < data.len() && 0 <= b < data.len() && !value::comparable(data[a], data[b]);
                assert(!value::comparable(cols[o[k as int]].data[a], cols[o[k as int]].data[b]));
            }
            return false;
        }
        k += 1;
    }
    true
}

/// Whether `idx` lists the rows from `lo` to `hi`, each standing before the next ones.
spec fn is_run(
    cols: Seq<OutputColumnView>,
    ord: Seq<int>,
    lo: int,
    hi: int,
    idx: Seq<usize>,
) -> bool {
    &&& idx.len() == hi - lo
    &&& forall|i: int| 0 <= i < idx.len() ==> lo <= #[trigger] idx[i] < hi
    &&& forall|i: int, j: int|
        #![trigger idx[i], idx[j]]
        0 <= i < j < idx.len() ==> before(cols, ord, idx[i] as int, idx[j] as int)
}

/// Merges two neighbouring runs.
fn merge_runs(
    columns: &Vec<OutputColumn>,
    ord: &Vec<usize>,
    n: usize,
    lo: usize,
    mid: usize,
    hi: usize,
    left: Vec<usize>,
    right: Vec<usize>,
) -> (r: Vec<usize>)
    requires
        lo <= mid <= hi <= n,
        all_lengths(column::output_views(columns@), n as nat),
        positions_of(ints(ord@), column::output_views(columns@)),
        rows_comparable(column::output_views(columns@), ints(ord@)),
        is_run(column::output_views(columns@), ints(ord@), lo as int, mid as int, left@),
        is_run(column::output_views(columns@), ints(ord@), mid as int, hi as int, right@),
    ensures
        is_run(column::output_views(columns@), ints(ord@), lo as int, hi as int, r@),
{
    let ghost cols = column::output_views(columns@);
    let ghost o = ints(ord@);
    proof {
        assert forall|i: int| 0 <= i < columns@.len() implies (#[trigger] columns@[i]).data@.len() == n by {
            assert(cols[i] == columns@[i]@);
        }
    }
    let mut r: Vec<usize> = Vec::new();
    let mut i: usize = 0;
    let mut j: usize = 0;
    while i < left.len() || j < right.len()
        invariant
            cols == column::output_views(columns@),
            o == ints(ord@),
            lo <= mid <= hi <= n,
            all_lengths(cols, n as nat),
            positions_of(o, cols),
            rows_comparable(cols, o),
            is_run(cols, o, lo as int, mid as int, left@),
            is_run(cols, o, mid as int, hi as int, right@),
            forall|c: int| 0 <= c < columns@.len() ==> (#[trigger] columns@[c]).data@.len() == n,
            i <= left@.len(),
            j <= right@.len(),
            r@.len() == i + j,
            forall|k: int| 0 <= k < r@.len() ==> lo <= #[trigger] r@[k] < hi,
            forall|k: int, m: int|
                #![trigger r@[k], r@[m]]
                0 <= k < m < r@.len() ==> before(cols, o, r@[k] as int, r@[m] as int),
            forall|k: int, m: int|
                #![trigger r@[k], left@[m]]
                0 <= k < r@.len() && i <= m < left@.len() ==> before(cols, o, r@[k] as int, left@[m] as int),
            forall|k: int, m: int|
                #![trigger r@[k], right@[m]]
                0 <= k < r@.len() && j <= m < right@.len() ==> before(cols, o, r@[k] as int, right@[m] as int),
        decreases left@.len() - i + right@.len() - j,
    {
        let take_left = if i >= left.len() {
            false
        } else if j >= right.len() {
            true
        } else {
            assert(lo <= left@[i as int] < mid);
            assert(mid <= right@[j as int] < hi);
            !row_before(columns, ord, right[j], left[i])
        };
        if take_left {
            let ghost old_r = r@;
            let x: usize = left[i];
            r.push(x);
            i += 1;
            proof {
                assert forall|m: int| j <= m < right@.len() implies before(cols, o, x as int, #[trigger] right@[m] as int) by {
                    assert(lo <= left@[i - 1] < mid);
                    assert(mid <= right@[j as int] < hi);
                    assert(before(cols, o, x as int, right@[j as int] as int));
                    if m > j {
                        lemma_before_transitive(cols, o, n as nat, x as int, right@[j as int] as int, right@[m] as int);
                    }
                }
                assert forall|k: int, m: int|
                    #![trigger r@[k], r@[m]]
                    0 <= k < m < r@.len() implies before(cols, o, r@[k] as int, r@[m] as int) by {
                    if m == old_r.len() {
                        assert(r@[k] == old_r[k]);
                        assert(before(cols, o, old_r[k] as int, left@[i - 1] as int));
                    }
                }
            }
        } else {
            let ghost old_r = r@;
            let x: usize = right[j];
            r.push(x);
            j += 1;
            proof {
                assert forall|m: int| i <= m < left@.len() implies before(cols, o, x as int, #[trigger] left@[m] as int) by {
                    assert(lo <= left@[i as int] < mid);
                    assert(mid <= right@[j - 1] < hi);
                    assert(before(cols, o, x as int, left@[i as int] as int));
                    if m > i {
                        lemma_before_transitive(cols, o, n as nat, x as int, left@[i as int] as int, left@[m] as int);
                    }
                }
                assert forall|k: int, m: int|
                    #![trigger r@[k], r@[m]]
                    0 <= k < m < r@.len() implies before(cols, o, r@[k] as int, r@[m] as int) by {
                    if m == old_r.len() {
                        assert(r@[k] == old_r[k]);
                        assert(before(cols, o, old_r[k] as int, right@[j - 1] as int));
                    }
                }
            }
        }
    }
    r
}

/// Sorts the rows from `lo` to `hi`.
fn sort_range(columns: &Vec<OutputColumn>, ord: &Vec<usize>, n: usize, lo: usize, hi: usize) -> (r: Vec<usize>)
    requires
        lo <= hi <= n,
        all_lengths(column::output_views(columns@), n as nat),
        positions_of(ints(ord@), column::output_views(columns@)),
        rows_comparable(column::output_views(columns@), ints(ord@)),
    ensures
        is_run(column::output_views(columns@), ints(ord@), lo as int, hi as int, r@),
    decreases hi - lo,
{
    if hi - lo <= 1 {
        let mut r: Vec<usize> = Vec::new();
        if lo < hi {
            r.push(lo);
        }
        r
    } else {
        let mid: usize = lo + (hi - lo) / 2;
        let left = sort_range(columns, ord, n, lo, mid);
        let right = sort_range(columns, ord, n, mid, hi);
        merge_runs(columns, ord, n, lo, mid, hi, left, right)
    }
}

/// The rows in the order of a stable sort by the columns at the positions `ord`.
pub fn sort_rows(columns: &Vec<OutputColumn>, ord: &Vec<usize>, n: usize) -> (r: Vec<usize>)
    requires
        all_lengths(column::output_views(columns@), n as nat),
        positions_of(ints(ord@), column::output_views(columns@)),
        rows_comparable(column::output_views(columns@), ints(ord@)),
    ensures
        is_stable_order(column::output_views(columns@), ints(ord@), n as nat, ints(r@)),
{
    let r = sort_range(columns, ord, n, 0, n);
    proof {
        let cols = column::output_views(columns@);
        let o = ints(ord@);
        let idx = ints(r@);
        assert forall|i: int, j: int|
            #![trigger idx[i], idx[j]]
            0 <= i < j < idx.len() implies before(cols, o, idx[i], idx[j]) by {
            assert(before(cols, o, r@[i] as int, r@[j] as int));
        }
        assert forall|i: int, j: int| 0 <= i < idx.len() && 0 <= j < idx.len() && i != j implies idx[i] != idx[j] by {
            if i < j {
                assert(before(cols, o, idx[i], idx[j]));
                lemma_before_irreflexive(cols, o, idx[i]);
            } else {
                assert(before(cols, o, idx[j], idx[i]));
                lemma_before_irreflexive(cols, o, idx[i]);
            }
        }
    }
    r
}

} // verus!
