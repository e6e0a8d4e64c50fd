//! What reading the granules of a part puts together.
use vstd::prelude::*;

use crate::error::{ErrorView, Outcome};
use crate::sql::compiled_filter;
use crate::sql::execution::select::accumulate_function;
use crate::sql::execution::select::accumulate_function::{CollectFn, ReadColumn};
use crate::sql::execution::select::scan;
use crate::sql::execution::select::scan::{GranulePlace, ReadGranule};
use crate::sql::projection::Projection;
use crate::storage::value::Value;

verus! {

/// Whether a column of a granule is the first that was read.
pub open spec fn is_first_read(columns: Seq<ReadColumn>, i: int) -> bool {
    &&& 0 <= i < columns.len()
    &&& columns[i] is Some
    &&& forall|j: int| 0 <= j < i ==> (#[trigger] columns[j]) is None
}

/// Whether a granule has so many rows: those of the first column that was read; where none was, a full granule's in the
/// middle of a part, and as many as were counted at its end.
pub open spec fn has_rows(g: ReadGranule, granularity: usize, rows: int) -> bool {
    &&& g.place is Inner || (g.place is Last && g.place->Last_0 is Ok)
    &&& (exists|i: int| #[trigger] is_first_read(g.columns@, i) && rows == g.columns@[i]->Some_0.0@.len()) || ((forall|
        i: int,
    |
        0 <= i < g.columns@.len() ==> (#[trigger] g.columns@[i]) is None) && rows == (match g.place {
        GranulePlace::Last(Ok(counted)) => counted as int,
        _ => granularity as int,
    }))
}

/// How many rows the first granules have.
pub open spec fn rows_before(rows: Seq<int>, m: int) -> int
    decreases m,
{
    if m <= 0 {
        0
    } else {
        rows_before(rows, m - 1) + rows[m - 1]
    }
}

/// What a granule has for a column: its values in the rows that pass or, where its part has no such column, NULL in
/// every row.
pub open spec fn granule_column(g: ReadGranule, c: int, rows: int) -> Seq<Value> {
    match g.columns@[c] {
        Some(read) => compiled_filter::retained(read.0@, read.1@),
        None => Seq::new(rows as nat, |r: int| Value::Null),
    }
}

/// What the first granules have for a column, one behind the other.
pub open spec fn joined(granules: Seq<Outcome<ReadGranule>>, rows: Seq<int>, c: int, m: int) -> Seq<Value>
    decreases m,
{
    if m <= 0 {
        seq![]
    } else {
        joined(granules, rows, c, m - 1) + granule_column(granules[m - 1]->Ok_0, c, rows[m - 1])
    }
}

spec fn lists(granules: Seq<Outcome<ReadGranule>>, rows: Seq<int>, n: nat, m: int) -> Option<Seq<Seq<Value>>> {
    if m <= 0 {
        None
    } else {
        Some(Seq::new(n, |c: int| joined(granules, rows, c, m)))
    }
}

/// Whether the granules of a part were read, with so many columns and rows that the machine can count.
pub open spec fn are_read(granules: Seq<Outcome<ReadGranule>>, granularity: usize, n: nat, rows: Seq<int>) -> bool {
    &&& rows.len() == granules.len()
    &&& forall|i: int| 0 <= i < granules.len() ==> is_read(#[trigger] granules[i], granularity, n, rows[i])
    &&& forall|m: int| 0 <= m <= rows.len() ==> 0 <= #[trigger] rows_before(rows, m) <= usize::MAX
}

/// Whether a granule was read.
pub open spec fn is_read(g: Outcome<ReadGranule>, granularity: usize, n: nat, rows: int) -> bool {
    g is Ok && g->Ok_0.columns@.len() == n && has_rows(g->Ok_0, granularity, rows)
}

proof fn lemma_first_read(columns: Seq<ReadColumn>, i: int)
    requires
        0 <= i <= columns.len(),
        forall|j: int| 0 <= j < i ==> (#[trigger] columns[j]) is None,
    ensures
        match scan::first_read(columns, i) {
            Some(n) => exists|k: int| #[trigger] is_first_read(columns, k) && columns[k]->Some_0.0@.len() == n,
            None => forall|j: int| 0 <= j < columns.len() ==> (#[trigger] columns[j]) is None,
        },
    decreases columns.len() - i,
{
    if i < columns.len() {
        match columns[i] {
            Some(_) => {
                assert(is_first_read(columns, i));
            },
            None => lemma_first_read(columns, i + 1),
        }
    }
}

proof fn lemma_rows(g: ReadGranule, granularity: usize, rows: int)
    requires
        has_rows(g, granularity, rows),
    ensures
        0 <= rows <= usize::MAX ==> scan::rows_in(scan::first_read(g.columns@, 0), g.place, granularity) == Ok::<
            usize,
            ErrorView,
        >(rows as usize),
{
    lemma_first_read(g.columns@, 0);
    if let Some(n) = scan::first_read(g.columns@, 0) {
        let k = choose|k: int| #[trigger] is_first_read(g.columns@, k) && g.columns@[k]->Some_0.0@.len() == n;
        assert forall|i: int| #[trigger] is_first_read(g.columns@, i) implies i == k by {
            if i < k {
                assert(g.columns@[i] is None);
            }
            if k < i {
                assert(g.columns@[k] is None);
            }
        }
    } else {
        assert(forall|i: int| !#[trigger] is_first_read(g.columns@, i));
    }
}

proof fn lemma_rest_is_left(
    acc: Seq<Seq<Value>>,
    granules: Seq<Outcome<ReadGranule>>,
    granularity: usize,
    needed: usize,
    i: int,
    so_far: Option<Seq<Seq<Value>>>,
    accepted: usize,
)
    requires
        0 <= i <= granules.len(),
        accepted >= needed,
    ensures
        scan::part_from(CollectFn, acc, granules, granularity, needed, i, so_far, accepted) == Ok::<
            (Option<Seq<Seq<Value>>>, usize),
            ErrorView,
        >((so_far, accepted)),
    decreases granules.len() - i,
{
    if i < granules.len() {
        lemma_rest_is_left(acc, granules, granularity, needed, i + 1, so_far, accepted);
    }
}

/// Whether reading stops behind so many granules: there are no more, or they have as many rows as are needed and without
/// the last they would not.
pub open spec fn is_enough(rows: Seq<int>, needed: usize, m: int) -> bool {
    &&& 0 <= m <= rows.len()
    &&& m == rows.len() || rows_before(rows, m) >= needed
    &&& m > 0 ==> rows_before(rows, m - 1) < needed
}

proof fn lemma_part_read(
    acc: Seq<Seq<Value>>,
    granules: Seq<Outcome<ReadGranule>>,
    granularity: usize,
    needed: usize,
    rows: Seq<int>,
    i: int,
) -> (m: int)
    requires
        are_read(granules, granularity, acc.len(), rows),
        forall|c: int| 0 <= c < acc.len() ==> (#[trigger] acc[c]).len() == 0,
        0 <= i <= granules.len(),
        i > 0 ==> rows_before(rows, i - 1) < needed,
    ensures
        is_enough(rows, needed, m),
        scan::part_from(
            CollectFn,
            acc,
            granules,
            granularity,
            needed,
            i,
            lists(granules, rows, acc.len(), i),
            rows_before(rows, i) as usize,
        ) == Ok::<(Option<Seq<Seq<Value>>>, usize), ErrorView>(
            (lists(granules, rows, acc.len(), m), rows_before(rows, m) as usize),
        ),
    decreases granules.len() - i,
{
    let n = acc.len();
    let so_far = lists(granules, rows, n, i);
    let accepted = rows_before(rows, i) as usize;
    assert(0 <= rows_before(rows, i) <= usize::MAX);
    if i == granules.len() {
        i
    } else if accepted >= needed {
        lemma_rest_is_left(acc, granules, granularity, needed, i, so_far, accepted);
        i
    } else {
        assert(is_read(granules[i], granularity, n, rows[i]));
        let g = granules[i]->Ok_0;
        assert(rows_before(rows, i + 1) == rows_before(rows, i) + rows[i]);
        assert(0 <= rows_before(rows, i + 1) <= usize::MAX);
        lemma_rows(g, granularity, rows[i]);
        assert(rows[i] >= 0);
        let read = accumulate_function::appended(acc, accumulate_function::all_collected(g.columns@, rows[i] as nat));
        let all = match so_far {
            Some(before) => accumulate_function::appended(before, read),
            None => read,
        };
        let next = lists(granules, rows, n, i + 1)->Some_0;
        assert forall|c: int| 0 <= c < n implies #[trigger] all[c] == next[c] by {
            assert(acc[c] =~= seq![]);
            assert(accumulate_function::collected_values(g.columns@[c], rows[i] as nat) =~= granule_column(
                g,
                c,
                rows[i],
            ));
            assert(read[c] =~= granule_column(g, c, rows[i]));
            if i == 0 {
                assert(joined(granules, rows, c, 0) =~= seq![]);
            }
            assert(next[c] == joined(granules, rows, c, i) + granule_column(g, c, rows[i]));
        }
        assert(all =~= next);
        lemma_part_read(acc, granules, granularity, needed, rows, i + 1)
    }
}

/// One part is read granule by granule until there are as many rows as are needed, and no further: each column of the
/// result has the values of those granules one behind the other, in the rows that pass. Nothing is answered only where
/// no granule is read.
pub proof fn lemma_part_is_read_until_there_is_enough(
    projections: Seq<Projection>,
    acc: Seq<Seq<Value>>,
    granules: Vec<Outcome<ReadGranule>>,
    granularity: usize,
    needed: usize,
    rows: Seq<int>,
) -> (m: int)
    requires
        projections.len() == acc.len(),
        forall|c: int| 0 <= c < acc.len() ==> (#[trigger] acc[c]).len() == 0,
        are_read(granules@, granularity, acc.len(), rows),
    ensures
        is_enough(rows, needed, m),
        match scan::parts_from(CollectFn, acc, seq![Ok(granules)], granularity, needed, 0, 0) {
            Ok(values) => {
                let out = scan::with_values(projections, values);
                &&& m > 0
                &&& out.len() == projections.len()
                &&& forall|c: int|
                    0 <= c < out.len() ==> (#[trigger] out[c]).proj == projections[c] && out[c].data == joined(
                        granules@,
                        rows,
                        c,
                        m,
                    )
            },
            Err(e) => m == 0 && e == ErrorView::EmptySource,
        },
{
    reveal_with_fuel(scan::parts_from, 3);
    let parts: Seq<Outcome<Vec<Outcome<ReadGranule>>>> = seq![Ok(granules)];
    assert(parts[0] == Ok::<Vec<Outcome<ReadGranule>>, crate::error::Error>(granules));
    lemma_part_read(acc, granules@, granularity, needed, rows, 0)
}

} // verus!
