//! What the engines promise of the rows they order, whatever the rows are.
use vstd::prelude::*;

use crate::engines::merge_tree;
use crate::engines::order;
use crate::engines::replacing_merge_tree;
use crate::error::ErrorView;
use crate::search;
use crate::sql::projection::Projection;
use crate::storage::column::{ColumnDef, OutputColumnView};
use crate::storage::value;
use crate::storage::value::Value;

verus! {

/// The rows in the order in which they stand.
pub open spec fn all_rows(n: nat) -> Seq<int> {
    Seq::new(n, |i: int| i)
}

/// A list of `n` different rows among the first `n` holds each of them.
pub proof fn lemma_permutation_covers(idx: Seq<int>, n: nat, row: int)
    requires
        idx.len() == n,
        forall|i: int| 0 <= i < n ==> 0 <= #[trigger] idx[i] < n,
        idx.no_duplicates(),
        0 <= row < n,
    ensures
        idx.contains(row),
{
    let range = vstd::set_lib::set_int_range(0, n as int);
    vstd::set_lib::lemma_int_range(0, n as int);
    idx.unique_seq_to_set();
    assert(idx.to_set().subset_of(range));
    vstd::set_lib::lemma_subset_equality(idx.to_set(), range);
    assert(range.contains(row));
    assert(idx.to_set().contains(row));
}

/// Two lists of the same rows, each in the order of a stable sort, are one list.
proof fn lemma_sorted_lists_equal(
    cols: Seq<OutputColumnView>,
    ord: Seq<int>,
    n: nat,
    s: Seq<int>,
    t: Seq<int>,
)
    requires
        order::all_lengths(cols, n),
        order::positions_of(ord, cols),
        order::rows_comparable(cols, ord),
        s.len() == t.len(),
        forall|x: int| s.contains(x) <==> t.contains(x),
        forall|i: int| 0 <= i < s.len() ==> 0 <= #[trigger] s[i] < n,
        forall|i: int| 0 <= i < t.len() ==> 0 <= #[trigger] t[i] < n,
        forall|i: int, j: int|
            #![trigger s[i], s[j]]
            0 <= i < j < s.len() ==> order::before(cols, ord, s[i], s[j]),
        forall|i: int, j: int|
            #![trigger t[i], t[j]]
            0 <= i < j < t.len() ==> order::before(cols, ord, t[i], t[j]),
    ensures
        s == t,
    decreases s.len(),
{
    if s.len() == 0 {
        assert(s =~= t);
    } else {
        let last = s.len() - 1;
        assert(s.contains(s[last]));
        assert(t.contains(t[last]));
        let j = choose|j: int| 0 <= j < t.len() && t[j] == s[last];
        let i = choose|i: int| 0 <= i < s.len() && s[i] == t[last];
        if s[last] != t[last] {
            assert(order::before(cols, ord, t[j], t[last]));
            assert(order::before(cols, ord, s[i], s[last]));
            order::lemma_before_transitive(cols, ord, n, s[last], t[last], s[last]);
            order::lemma_before_irreflexive(cols, ord, s[last]);
        }
        let s2 = s.drop_last();
        let t2 = t.drop_last();
        assert forall|x: int| s2.contains(x) <==> t2.contains(x) by {
            if s2.contains(x) {
                let k = choose|k: int| 0 <= k < s2.len() && s2[k] == x;
                assert(s[k] == x);
                assert(order::before(cols, ord, s[k], s[last]));
                order::lemma_before_irreflexive(cols, ord, x);
                assert(s.contains(x));
                let m = choose|m: int| 0 <= m < t.len() && t[m] == x;
                assert(t2[m] == x);
            }
            if t2.contains(x) {
                let k = choose|k: int| 0 <= k < t2.len() && t2[k] == x;
                assert(t[k] == x);
                assert(order::before(cols, ord, t[k], t[last]));
                order::lemma_before_irreflexive(cols, ord, x);
                assert(t.contains(x));
                let m = choose|m: int| 0 <= m < s.len() && s[m] == x;
                assert(s2[m] == x);
            }
        }
        lemma_sorted_lists_equal(cols, ord, n, s2, t2);
        assert(s =~= s2.push(s[last]));
        assert(t =~= t2.push(t[last]));
    }
}

/// There is one order in which an engine can give the rows back: two lists that are in the order of
/// a stable sort are the same.
pub proof fn lemma_order_is_unique(
    cols: Seq<OutputColumnView>,
    ord: Seq<int>,
    n: nat,
    s: Seq<int>,
    t: Seq<int>,
)
    requires
        order::all_lengths(cols, n),
        order::positions_of(ord, cols),
        order::rows_comparable(cols, ord),
        order::is_stable_order(cols, ord, n, s),
        order::is_stable_order(cols, ord, n, t),
    ensures
        s == t,
{
    assert forall|x: int| s.contains(x) <==> t.contains(x) by {
        if s.contains(x) {
            lemma_permutation_covers(t, n, x);
        }
        if t.contains(x) {
            lemma_permutation_covers(s, n, x);
        }
    }
    lemma_sorted_lists_equal(cols, ord, n, s, t);
}

/// Rows of a result compare as the rows they came from.
pub proof fn lemma_gathered_rows_compare(
    cols: Seq<OutputColumnView>,
    ord: Seq<int>,
    idx: Seq<int>,
    a: int,
    b: int,
    k: int,
)
    requires
        order::positions_of(ord, cols),
        0 <= a < idx.len(),
        0 <= b < idx.len(),
        0 <= k,
    ensures
        order::row_less(order::gather(cols, idx), ord, a, b, k) == order::row_less(
            cols,
            ord,
            idx[a],
            idx[b],
            k,
        ),
    decreases ord.len() - k,
{
    if k < ord.len() {
        assert(0 <= ord[k] < cols.len());
        lemma_gathered_rows_compare(cols, ord, idx, a, b, k + 1);
    }
}

/// The rows that `MergeTree` gives back are in ascending order of the ORDER BY columns.
pub proof fn lemma_merge_tree_sorts(
    cols: Seq<OutputColumnView>,
    ord: Seq<int>,
    n: nat,
    idx: Seq<int>,
    i: int,
    j: int,
)
    requires
        order::all_lengths(cols, n),
        order::positions_of(ord, cols),
        order::rows_comparable(cols, ord),
        order::is_stable_order(cols, ord, n, idx),
        0 <= i < j < n,
    ensures
        !order::row_less(order::gather(cols, idx), ord, j, i, 0),
{
    lemma_gathered_rows_compare(cols, ord, idx, j, i, 0);
    assert(order::before(cols, ord, idx[i], idx[j]));
    order::lemma_row_less_transitive(cols, ord, n, idx[i], idx[j], idx[i], 0);
}

/// A reordering of the rows keeps the values of every column, each as often as it occurs.
pub proof fn lemma_reordering_keeps_values(data: Seq<Value>, idx: Seq<int>)
    requires
        idx.len() == data.len(),
        forall|i: int| 0 <= i < idx.len() ==> 0 <= #[trigger] idx[i] < idx.len(),
        idx.no_duplicates(),
    ensures
        order::gather_data(data, idx).to_multiset() == data.to_multiset(),
    decreases data.len(),
{
    broadcast use vstd::seq_lib::group_to_multiset_ensures;

    if data.len() == 0 {
        assert(order::gather_data(data, idx) =~= data);
    } else {
        let last = data.len() - 1;
        lemma_permutation_covers(idx, data.len(), last);
        let p = choose|p: int| 0 <= p < idx.len() && idx[p] == last;
        let rest = idx.remove(p);
        assert forall|i: int| 0 <= i < rest.len() implies 0 <= #[trigger] rest[i] < rest.len() by {
            let q = if i < p {
                i
            } else {
                i + 1
            };
            assert(rest[i] == idx[q]);
            assert(idx[q] != idx[p]);
        }
        assert(rest.no_duplicates());
        lemma_reordering_keeps_values(data.drop_last(), rest);
        let g = order::gather_data(data, idx);
        assert(g.remove(p) =~= order::gather_data(data.drop_last(), rest));
        assert(g[p] == data[last]);
        assert(data =~= data.drop_last().push(data[last]));
        assert(g.to_multiset() =~= g.remove(p).to_multiset().insert(data[last]));
    }
}

/// Sorting rows that `MergeTree` has sorted changes nothing.
pub proof fn lemma_sorting_twice_changes_nothing(
    cols: Seq<OutputColumnView>,
    ord: Seq<int>,
    n: nat,
    idx: Seq<int>,
    again: Seq<int>,
)
    requires
        order::all_lengths(cols, n),
        order::positions_of(ord, cols),
        order::rows_comparable(cols, ord),
        order::is_stable_order(cols, ord, n, idx),
        order::is_stable_order(order::gather(cols, idx), ord, n, again),
    ensures
        order::gather(order::gather(cols, idx), again) == order::gather(cols, idx),
{
    let out = order::gather(cols, idx);
    let same = all_rows(n);
    assert(order::all_lengths(out, n));
    assert(order::rows_comparable(out, ord)) by {
        assert forall|k: int, a: int, b: int|
            #![trigger out[ord[k]].data[a], out[ord[k]].data[b]]
            0 <= k < ord.len() && 0 <= a < out[ord[k]].data.len() && 0 <= b < out[ord[k]].data.len() implies value::comparable(
            out[ord[k]].data[a],
            out[ord[k]].data[b],
        ) by {
            assert(0 <= ord[k] < cols.len());
            assert(0 <= idx[a] < n && 0 <= idx[b] < n);
            assert(value::comparable(cols[ord[k]].data[idx[a]], cols[ord[k]].data[idx[b]]));
        }
    }
    assert forall|i: int, j: int|
        #![trigger same[i], same[j]]
        0 <= i < j < n implies order::before(out, ord, same[i], same[j]) by {
        lemma_merge_tree_sorts(cols, ord, n, idx, i, j);
    }
    assert(order::is_stable_order(out, ord, n, same));
    lemma_order_is_unique(out, ord, n, same, again);
    assert(order::gather(out, again) =~= out) by {
        assert forall|c: int| 0 <= c < out.len() implies order::gather(out, again)[c] == #[trigger] out[c] by {
            assert(order::gather_data(out[c].data, again) =~= out[c].data);
        }
    }
}

/// The rows that are kept are rows that were there, in the same order.
pub proof fn lemma_kept_rows_are_rows(cols: Seq<OutputColumnView>, pk: Seq<int>, idx: Seq<int>)
    ensures
        forall|r: int| #[trigger] replacing_merge_tree::newest(cols, pk, idx).contains(r) ==> idx.contains(r),
        idx.len() > 0 ==> replacing_merge_tree::newest(cols, pk, idx).len() > 0,
        idx.len() > 0 ==> replacing_merge_tree::newest(cols, pk, idx).last() == idx.last(),
    decreases idx.len(),
{
    if idx.len() > 0 {
        let rest = replacing_merge_tree::newest(cols, pk, idx.drop_first());
        let all = replacing_merge_tree::newest(cols, pk, idx);
        lemma_kept_rows_are_rows(cols, pk, idx.drop_first());
        assert forall|r: int| #[trigger] all.contains(r) implies idx.contains(r) by {
            if rest.contains(r) {
                assert(idx.drop_first().contains(r));
                let k = choose|k: int| 0 <= k < idx.drop_first().len() && idx.drop_first()[k] == r;
                assert(idx[k + 1] == r);
            } else {
                let k = choose|k: int| 0 <= k < all.len() && all[k] == r;
                if k > 0 || all == rest {
                    let m = if all == rest {
                        k
                    } else {
                        k - 1
                    };
                    assert(rest[m] == r);
                    assert(rest.contains(r));
                }
                assert(idx[0] == r);
            }
        }
        if idx.len() == 1 {
            assert(idx.drop_first().len() == 0);
            assert(rest.len() == 0);
        }
    }
}

/// Whether the columns of the primary key are the first ones of those that are sorted by.
pub open spec fn key_is_prefix(pk: Seq<int>, ord: Seq<int>) -> bool {
    pk.len() <= ord.len() && ord.take(pk.len() as int) == pk
}

/// Whether a list of rows is sorted and lies in columns whose values can be compared.
pub open spec fn sorted_rows(cols: Seq<OutputColumnView>, ord: Seq<int>, n: nat, idx: Seq<int>) -> bool {
    &&& order::all_lengths(cols, n)
    &&& order::positions_of(ord, cols)
    &&& order::rows_comparable(cols, ord)
    &&& forall|i: int| 0 <= i < idx.len() ==> 0 <= #[trigger] idx[i] < n
    &&& forall|i: int, j: int|
        #![trigger idx[i], idx[j]]
        0 <= i < j < idx.len() ==> order::before(cols, ord, idx[i], idx[j])
}

/// A row between two rows that agree on some leading columns agrees with them there.
proof fn lemma_between_agrees(
    cols: Seq<OutputColumnView>,
    ord: Seq<int>,
    n: nat,
    a: int,
    b: int,
    c: int,
    k: int,
    end: int,
)
    requires
        order::three_rows(cols, ord, n, a, b, c),
        0 <= k <= end <= ord.len(),
        !order::row_less(cols, ord, b, a, k),
        !order::row_less(cols, ord, c, b, k),
        forall|m: int|
            k <= m < end ==> value::value_eq(cols[#[trigger] ord[m]].data[a], cols[ord[m]].data[c]),
    ensures
        forall|m: int|
            k <= m < end ==> value::value_eq(cols[#[trigger] ord[m]].data[a], cols[ord[m]].data[b]),
    decreases end - k,
{
    if k < end {
        let x = cols[ord[k]].data[a];
        let y = cols[ord[k]].data[b];
        let z = cols[ord[k]].data[c];
        assert(value::comparable(x, y));
        assert(value::comparable(y, z));
        assert(value::comparable(x, z));
        value::lemma_value_trichotomy(x, y);
        value::lemma_value_trichotomy(y, z);
        value::lemma_value_trichotomy(x, z);
        if value::value_lt(x, y) {
            if value::value_lt(y, z) {
                value::lemma_value_lt_transitive(x, y, z);
            }
            assert(value::value_eq(y, z));
            assert(false);
        }
        lemma_between_agrees(cols, ord, n, a, b, c, k + 1, end);
    }
}

/// A row between two rows with one key has that key.
proof fn lemma_between_has_key(
    cols: Seq<OutputColumnView>,
    ord: Seq<int>,
    pk: Seq<int>,
    n: nat,
    a: int,
    b: int,
    c: int,
)
    requires
        order::three_rows(cols, ord, n, a, b, c),
        key_is_prefix(pk, ord),
        order::before(cols, ord, a, b),
        order::before(cols, ord, b, c),
        replacing_merge_tree::same_key(cols, pk, a, c),
    ensures
        replacing_merge_tree::same_key(cols, pk, a, b),
{
    order::lemma_row_less_transitive(cols, ord, n, a, b, c, 0);
    order::lemma_row_less_transitive(cols, ord, n, b, c, a, 0);
    assert forall|m: int| 0 <= m < pk.len() implies value::value_eq(
        cols[#[trigger] ord[m]].data[a],
        cols[ord[m]].data[c],
    ) by {
        assert(pk[m] == ord[m]);
    }
    lemma_between_agrees(cols, ord, n, a, b, c, 0, pk.len() as int);
    assert forall|m: int| 0 <= m < pk.len() implies value::value_eq(
        cols[#[trigger] pk[m]].data[a],
        cols[pk[m]].data[b],
    ) by {
        assert(pk[m] == ord[m]);
    }
}

/// A row shares its key with itself; sharing a key is symmetric and transitive.
proof fn lemma_same_key_is_equivalence(
    cols: Seq<OutputColumnView>,
    ord: Seq<int>,
    pk: Seq<int>,
    n: nat,
    a: int,
    b: int,
    c: int,
)
    requires
        order::three_rows(cols, ord, n, a, b, c),
        key_is_prefix(pk, ord),
    ensures
        replacing_merge_tree::same_key(cols, pk, a, a),
        replacing_merge_tree::same_key(cols, pk, a, b) ==> replacing_merge_tree::same_key(cols, pk, b, a),
        replacing_merge_tree::same_key(cols, pk, a, b) && replacing_merge_tree::same_key(cols, pk, b, c)
            ==> replacing_merge_tree::same_key(cols, pk, a, c),
{
    assert forall|m: int| 0 <= m < pk.len() implies value::value_eq(
        cols[#[trigger] pk[m]].data[a],
        cols[pk[m]].data[a],
    ) by {
        assert(pk[m] == ord[m]);
        assert(value::comparable(cols[ord[m]].data[a], cols[ord[m]].data[a]));
    }
}

/// The kept rows are sorted rows, and no two of them share a key.
proof fn lemma_kept_rows_sorted_and_distinct(
    cols: Seq<OutputColumnView>,
    ord: Seq<int>,
    pk: Seq<int>,
    n: nat,
    idx: Seq<int>,
)
    requires
        sorted_rows(cols, ord, n, idx),
        key_is_prefix(pk, ord),
    ensures
        sorted_rows(cols, ord, n, replacing_merge_tree::newest(cols, pk, idx)),
        forall|i: int, j: int|
            #![trigger replacing_merge_tree::newest(cols, pk, idx)[i], replacing_merge_tree::newest(cols, pk, idx)[j]]
            0 <= i < j < replacing_merge_tree::newest(cols, pk, idx).len()
                ==> !replacing_merge_tree::same_key(
                cols,
                pk,
                replacing_merge_tree::newest(cols, pk, idx)[i],
                replacing_merge_tree::newest(cols, pk, idx)[j],
            ),
    decreases idx.len(),
{
    if idx.len() > 0 {
        let tail = idx.drop_first();
        let rest = replacing_merge_tree::newest(cols, pk, tail);
        let all = replacing_merge_tree::newest(cols, pk, idx);
        lemma_kept_rows_sorted_and_distinct(cols, ord, pk, n, tail);
        lemma_kept_rows_are_rows(cols, pk, tail);
        if all != rest {
            assert(all == seq![idx[0]] + rest);
            assert forall|j: int| 0 <= j < rest.len() implies order::before(cols, ord, idx[0], #[trigger] rest[j]) by {
                assert(rest.contains(rest[j]));
                let k = choose|k: int| 0 <= k < tail.len() && tail[k] == rest[j];
                assert(idx[k + 1] == rest[j]);
            }
            assert forall|i: int, j: int|
                #![trigger all[i], all[j]]
                0 <= i < j < all.len() implies order::before(cols, ord, all[i], all[j])
                && !replacing_merge_tree::same_key(cols, pk, all[i], all[j]) by {
                assert(all[j] == rest[j - 1]);
                if i > 0 {
                    assert(all[i] == rest[i - 1]);
                } else if j > 1 {
                    assert(order::before(cols, ord, rest[0], rest[j - 1]));
                    if replacing_merge_tree::same_key(cols, pk, idx[0], rest[j - 1]) {
                        lemma_between_has_key(cols, ord, pk, n, idx[0], rest[0], rest[j - 1]);
                    }
                }
            }
            assert forall|i: int| 0 <= i < all.len() implies 0 <= #[trigger] all[i] < n by {
                if i > 0 {
                    assert(all[i] == rest[i - 1]);
                }
            }
        }
    }
}

/// Every row has its key among the kept rows, and the kept row is itself or a later one.
proof fn lemma_every_key_is_kept(
    cols: Seq<OutputColumnView>,
    ord: Seq<int>,
    pk: Seq<int>,
    n: nat,
    idx: Seq<int>,
    row: int,
) -> (kept: int)
    requires
        sorted_rows(cols, ord, n, idx),
        key_is_prefix(pk, ord),
        idx.contains(row),
    ensures
        replacing_merge_tree::newest(cols, pk, idx).contains(kept),
        replacing_merge_tree::same_key(cols, pk, row, kept),
        kept == row || order::before(cols, ord, row, kept),
    decreases idx.len(),
{
    let tail = idx.drop_first();
    let rest = replacing_merge_tree::newest(cols, pk, tail);
    let all = replacing_merge_tree::newest(cols, pk, idx);
    lemma_kept_rows_are_rows(cols, pk, tail);
    if tail.contains(row) {
        let kept = lemma_every_key_is_kept(cols, ord, pk, n, tail, row);
        let k = choose|k: int| 0 <= k < rest.len() && rest[k] == kept;
        if all != rest {
            assert(all[k + 1] == kept);
        }
        kept
    } else {
        let p = choose|p: int| 0 <= p < idx.len() && idx[p] == row;
        if p > 0 {
            assert(tail[p - 1] == row);
        }
        assert(row == idx[0]);
        lemma_same_key_is_equivalence(cols, ord, pk, n, row, row, row);
        if all != rest {
            assert(all[0] == row);
            row
        } else {
            let kept = rest[0];
            assert(rest.len() > 0);
            assert(rest.contains(kept));
            let k = choose|k: int| 0 <= k < tail.len() && tail[k] == kept;
            assert(idx[k + 1] == kept);
            kept
        }
    }
}

/// Whether the key of a row is that of a kept row.
pub open spec fn key_is_kept(
    cols: Seq<OutputColumnView>,
    pk: Seq<int>,
    idx: Seq<int>,
    row: int,
) -> bool {
    exists|kept: int|
        #![trigger replacing_merge_tree::same_key(cols, pk, row, kept)]
        replacing_merge_tree::newest(cols, pk, idx).contains(kept)
            && replacing_merge_tree::same_key(cols, pk, row, kept)
}

/// `ReplacingMergeTree` keeps one row of each primary key: no two kept rows share a key, every row
/// has its key among the kept ones, and each kept row is the newest of its key, so that every other
/// row with that key stands before it.
pub proof fn lemma_replacing_keeps_newest_row_of_each_key(
    cols: Seq<OutputColumnView>,
    ord: Seq<int>,
    pk: Seq<int>,
    n: nat,
    idx: Seq<int>,
)
    requires
        order::all_lengths(cols, n),
        order::positions_of(ord, cols),
        order::rows_comparable(cols, ord),
        order::is_stable_order(cols, ord, n, idx),
        key_is_prefix(pk, ord),
    ensures
        forall|i: int, j: int|
            #![trigger replacing_merge_tree::newest(cols, pk, idx)[i], replacing_merge_tree::newest(cols, pk, idx)[j]]
            0 <= i < j < replacing_merge_tree::newest(cols, pk, idx).len()
                ==> !replacing_merge_tree::same_key(
                cols,
                pk,
                replacing_merge_tree::newest(cols, pk, idx)[i],
                replacing_merge_tree::newest(cols, pk, idx)[j],
            ),
        forall|row: int| 0 <= row < n ==> #[trigger] key_is_kept(cols, pk, idx, row),
        forall|row: int, kept: int|
            0 <= row < n && row != kept && #[trigger] replacing_merge_tree::newest(cols, pk, idx).contains(kept)
                && #[trigger] replacing_merge_tree::same_key(cols, pk, row, kept) ==> order::before(
                cols,
                ord,
                row,
                kept,
            ),
{
    let kept_rows = replacing_merge_tree::newest(cols, pk, idx);
    assert(sorted_rows(cols, ord, n, idx));
    lemma_kept_rows_sorted_and_distinct(cols, ord, pk, n, idx);
    lemma_kept_rows_are_rows(cols, pk, idx);
    assert forall|row: int| 0 <= row < n implies #[trigger] key_is_kept(cols, pk, idx, row) by {
        lemma_permutation_covers(idx, n, row);
        let kept = lemma_every_key_is_kept(cols, ord, pk, n, idx, row);
        assert(kept_rows.contains(kept) && replacing_merge_tree::same_key(cols, pk, row, kept));
    }
    assert forall|row: int, kept: int|
        0 <= row < n && row != kept && #[trigger] kept_rows.contains(kept)
            && #[trigger] replacing_merge_tree::same_key(cols, pk, row, kept) implies order::before(
        cols,
        ord,
        row,
        kept,
    ) by {
        lemma_permutation_covers(idx, n, row);
        let other = lemma_every_key_is_kept(cols, ord, pk, n, idx, row);
        let i = choose|i: int| 0 <= i < kept_rows.len() && kept_rows[i] == kept;
        let j = choose|j: int| 0 <= j < kept_rows.len() && kept_rows[j] == other;
        lemma_same_key_is_equivalence(cols, ord, pk, n, row, kept, other);
        lemma_same_key_is_equivalence(cols, ord, pk, n, kept, row, other);
        lemma_same_key_is_equivalence(cols, ord, pk, n, row, other, kept);
        lemma_same_key_is_equivalence(cols, ord, pk, n, other, row, kept);
        if i < j {
            assert(!replacing_merge_tree::same_key(cols, pk, kept_rows[i], kept_rows[j]));
        } else if j < i {
            assert(!replacing_merge_tree::same_key(cols, pk, kept_rows[j], kept_rows[i]));
        }
        assert(other == kept);
    }
}

/// Where no row has the key of the next, all rows are kept.
pub proof fn lemma_rows_unlike_the_next_are_kept(cols: Seq<OutputColumnView>, pk: Seq<int>, rows: Seq<int>)
    requires
        forall|i: int, j: int|
            #![trigger rows[i], rows[j]]
            0 <= i && j == i + 1 && j < rows.len() ==> !replacing_merge_tree::same_key(cols, pk, rows[i], rows[j]),
    ensures
        replacing_merge_tree::newest(cols, pk, rows) == rows,
    decreases rows.len(),
{
    if rows.len() > 0 {
        let tail = rows.drop_first();
        assert forall|i: int, j: int|
            #![trigger tail[i], tail[j]]
            0 <= i && j == i + 1 && j < tail.len() implies !replacing_merge_tree::same_key(
            cols,
            pk,
            tail[i],
            tail[j],
        ) by {
            assert(tail[i] == rows[i + 1] && tail[j] == rows[j + 1]);
        }
        lemma_rows_unlike_the_next_are_kept(cols, pk, tail);
        if tail.len() > 0 {
            assert(!replacing_merge_tree::same_key(cols, pk, rows[0], rows[1]));
            assert(tail[0] == rows[1]);
        }
        assert(seq![rows[0]] + tail =~= rows);
    } else {
        assert(replacing_merge_tree::newest(cols, pk, rows) =~= rows);
    }
}

/// The kept rows are sorted rows, and none of them has the key of the next.
proof fn lemma_kept_rows_sorted(
    cols: Seq<OutputColumnView>,
    ord: Seq<int>,
    pk: Seq<int>,
    n: nat,
    idx: Seq<int>,
)
    requires
        sorted_rows(cols, ord, n, idx),
    ensures
        sorted_rows(cols, ord, n, replacing_merge_tree::newest(cols, pk, idx)),
        forall|i: int, j: int|
            #![trigger replacing_merge_tree::newest(cols, pk, idx)[i], replacing_merge_tree::newest(cols, pk, idx)[j]]
            0 <= i && j == i + 1 && j < replacing_merge_tree::newest(cols, pk, idx).len()
                ==> !replacing_merge_tree::same_key(
                cols,
                pk,
                replacing_merge_tree::newest(cols, pk, idx)[i],
                replacing_merge_tree::newest(cols, pk, idx)[j],
            ),
    decreases idx.len(),
{
    if idx.len() > 0 {
        let tail = idx.drop_first();
        let rest = replacing_merge_tree::newest(cols, pk, tail);
        let all = replacing_merge_tree::newest(cols, pk, idx);
        lemma_kept_rows_sorted(cols, ord, pk, n, tail);
        lemma_kept_rows_are_rows(cols, pk, tail);
        if all != rest {
            assert(all == seq![idx[0]] + rest);
            assert forall|j: int| 0 <= j < rest.len() implies order::before(cols, ord, idx[0], #[trigger] rest[j]) by {
                assert(rest.contains(rest[j]));
                let k = choose|k: int| 0 <= k < tail.len() && tail[k] == rest[j];
                assert(idx[k + 1] == rest[j]);
            }
            assert forall|i: int, j: int|
                #![trigger all[i], all[j]]
                0 <= i < j < all.len() implies order::before(cols, ord, all[i], all[j]) by {
                assert(all[j] == rest[j - 1]);
                if i > 0 {
                    assert(all[i] == rest[i - 1]);
                }
            }
            assert forall|i: int, j: int|
                #![trigger all[i], all[j]]
                0 <= i && j == i + 1 && j < all.len() implies !replacing_merge_tree::same_key(
                cols,
                pk,
                all[i],
                all[j],
            ) by {
                assert(all[j] == rest[j - 1]);
                if i > 0 {
                    assert(all[i] == rest[i - 1]);
                }
            }
            assert forall|i: int| 0 <= i < all.len() implies 0 <= #[trigger] all[i] < n by {
                if i > 0 {
                    assert(all[i] == rest[i - 1]);
                }
            }
        }
    }
}

/// A column is found by its projection, whatever rows are left of it.
proof fn lemma_gathered_positions(
    cols: Seq<OutputColumnView>,
    idx: Seq<int>,
    p: spec_fn(OutputColumnView) -> bool,
    i: int,
)
    requires
        0 <= i,
        forall|a: OutputColumnView, b: OutputColumnView| a.proj == b.proj ==> #[trigger] p(a) == #[trigger] p(b),
    ensures
        search::position_from(order::gather(cols, idx), p, i) == search::position_from(cols, p, i),
    decreases cols.len() - i,
{
    if i < cols.len() {
        assert(p(order::gather(cols, idx)[i]) == p(cols[i]));
        lemma_gathered_positions(cols, idx, p, i + 1);
    }
}

/// The columns that are sorted by are found where they were, whatever rows are left.
proof fn lemma_gathered_order_positions(order_by: Seq<Projection>, cols: Seq<OutputColumnView>, idx: Seq<int>)
    ensures
        replacing_merge_tree::order_positions(order_by, order::gather(cols, idx))
            == replacing_merge_tree::order_positions(order_by, cols),
    decreases order_by.len(),
{
    if order_by.len() > 0 {
        lemma_gathered_order_positions(order_by.drop_last(), cols, idx);
        lemma_gathered_positions(cols, idx, merge_tree::column_of(order_by.last()), 0);
    }
}

/// The columns of the key are found where they were, whatever rows are left.
proof fn lemma_gathered_key_positions(primary_key: Seq<ColumnDef>, cols: Seq<OutputColumnView>, idx: Seq<int>)
    ensures
        replacing_merge_tree::key_positions(primary_key, order::gather(cols, idx))
            == replacing_merge_tree::key_positions(primary_key, cols),
    decreases primary_key.len(),
{
    if primary_key.len() > 0 {
        lemma_gathered_key_positions(primary_key.drop_last(), cols, idx);
        lemma_gathered_positions(cols, idx, replacing_merge_tree::reads(primary_key.last()), 0);
    }
}

/// What `ReplacingMergeTree` gives back, it gives back again unchanged: it can sort it, and neither moves
/// nor drops a row.
pub proof fn lemma_replacing_twice_changes_nothing(
    order_by: Seq<Projection>,
    primary_key: Seq<ColumnDef>,
    cols: Seq<OutputColumnView>,
    once: Seq<OutputColumnView>,
    twice: Result<Seq<OutputColumnView>, ErrorView>,
)
    requires
        cols.len() > 0,
        replacing_merge_tree::replacing_orderable(order_by, cols),
        replacing_merge_tree::replacing_owes(order_by, primary_key, cols, Ok(once)),
        replacing_merge_tree::replacing_owes(order_by, primary_key, once, twice),
    ensures
        replacing_merge_tree::replacing_orderable(order_by, once),
        twice == Ok::<Seq<OutputColumnView>, ErrorView>(once),
{
    let ord = replacing_merge_tree::order_positions(order_by, cols);
    let pk = replacing_merge_tree::key_positions(primary_key, cols);
    let n = cols[0].data.len();
    let idx = choose|idx: Seq<int>|
        #[trigger] order::is_stable_order(cols, ord, n, idx) && once == order::gather(
            cols,
            replacing_merge_tree::newest(cols, pk, idx),
        );
    let kept = replacing_merge_tree::newest(cols, pk, idx);
    let m = kept.len();
    replacing_merge_tree::lemma_order_positions(order_by, cols);
    replacing_merge_tree::lemma_key_positions(primary_key, cols);
    lemma_gathered_order_positions(order_by, cols, kept);
    lemma_gathered_key_positions(primary_key, cols, kept);
    assert(sorted_rows(cols, ord, n, idx));
    lemma_kept_rows_sorted(cols, ord, pk, n, idx);
    assert(order::all_lengths(once, m));
    assert(once[0].data.len() == m);
    assert(order::rows_comparable(once, ord)) by {
        assert forall|k: int, a: int, b: int|
            #![trigger once[ord[k]].data[a], once[ord[k]].data[b]]
            0 <= k < ord.len() && 0 <= a < once[ord[k]].data.len() && 0 <= b < once[ord[k]].data.len() implies value::comparable(
            once[ord[k]].data[a],
            once[ord[k]].data[b],
        ) by {
            assert(0 <= ord[k] < cols.len());
            assert(0 <= kept[a] < n && 0 <= kept[b] < n);
            assert(value::comparable(cols[ord[k]].data[kept[a]], cols[ord[k]].data[kept[b]]));
        }
    }
    let same = all_rows(m);
    assert forall|i: int, j: int|
        #![trigger same[i], same[j]]
        0 <= i < j < m implies order::before(once, ord, same[i], same[j]) by {
        lemma_gathered_rows_compare(cols, ord, kept, j, i, 0);
        assert(order::before(cols, ord, kept[i], kept[j]));
        order::lemma_row_less_transitive(cols, ord, n, kept[i], kept[j], kept[i], 0);
    }
    assert(order::is_stable_order(once, ord, m, same));
    let again = choose|again: Seq<int>|
        #[trigger] order::is_stable_order(once, ord, m, again) && twice->Ok_0 == order::gather(
            once,
            replacing_merge_tree::newest(once, pk, again),
        );
    lemma_order_is_unique(once, ord, m, same, again);
    assert forall|i: int, j: int|
        #![trigger same[i], same[j]]
        0 <= i && j == i + 1 && j < m implies !replacing_merge_tree::same_key(once, pk, same[i], same[j]) by {
        assert(!replacing_merge_tree::same_key(cols, pk, kept[i], kept[j]));
        let k = choose|k: int|
            0 <= k < pk.len() && !value::value_eq(
                cols[#[trigger] pk[k]].data[kept[i]],
                cols[pk[k]].data[kept[j]],
            );
        assert(!value::value_eq(once[pk[k]].data[i], once[pk[k]].data[j]));
    }
    lemma_rows_unlike_the_next_are_kept(once, pk, same);
    assert(order::gather(once, same) =~= once) by {
        assert forall|c: int| 0 <= c < once.len() implies order::gather(once, same)[c] == #[trigger] once[c] by {
            assert(order::gather_data(once[c].data, same) =~= once[c].data);
        }
    }
}

} // verus!
