//! How the values of granules are put together.
use vstd::prelude::*;

use crate::background_merge::append_values;
use crate::sql::compiled_filter;
use crate::sql::compiled_filter::retain_column;
use crate::sql::execution::select::aggregator;
use crate::sql::logical_plan::insert;
use crate::storage::column;
use crate::storage::value::Value;

verus! {

/// The values of a granule for one projection and which of its rows pass, or nothing where the part
/// has no such column.
pub type ReadColumn = Option<(Vec<Value>, Vec<bool>)>;

/// What the values of granules are put together to.
pub trait AccumulateFn: Sized {
    /// What was put together after one more granule.
    spec fn with_raw(&self, acc: Seq<Seq<Value>>, columns: Seq<ReadColumn>, row_count: nat) -> Seq<Seq<Value>>;

    /// What was put together of two runs of granules.
    spec fn with_values(&self, acc: Seq<Seq<Value>>, values: Seq<Seq<Value>>) -> Seq<Seq<Value>>;

    /// The function.
    fn new() -> Self;

    /// Takes in one more granule.
    fn accumulate_raw(&self, acc: Vec<Vec<Value>>, columns: &Vec<ReadColumn>, row_count: usize) -> (r: Vec<Vec<Value>>)
        requires
            columns@.len() <= acc@.len(),
            forall|i: int|
                0 <= i < columns@.len() ==> mask_is_long_enough(#[trigger] columns@[i]),
        ensures
            aggregator::chunk_view(r@) == self.with_raw(aggregator::chunk_view(acc@), columns@, row_count as nat),
            r@.len() == acc@.len(),
    ;

    /// Puts together two runs of granules.
    fn accumulate_values(&self, acc: Vec<Vec<Value>>, values: &Vec<Vec<Value>>) -> (r: Vec<Vec<Value>>)
        requires
            values@.len() <= acc@.len(),
        ensures
            aggregator::chunk_view(r@) == self.with_values(
                aggregator::chunk_view(acc@),
                aggregator::chunk_view(values@),
            ),
            r@.len() == acc@.len(),
    ;
}

/// Whether a mask says something of every row.
pub open spec fn mask_is_long_enough(column: ReadColumn) -> bool {
    column matches Some(c) ==> c.0@.len() <= c.1@.len()
}

/// Puts values one behind the other.
pub struct CollectFn;

/// The values that a granule adds for one projection.
pub open spec fn collected_values(column: ReadColumn, row_count: nat) -> Seq<Value> {
    match column {
        Some(c) => compiled_filter::retained(c.0@, c.1@),
        None => insert::repeated(Value::Null, row_count),
    }
}

/// Lists of values with more values behind each of them.
pub open spec fn appended(acc: Seq<Seq<Value>>, values: Seq<Seq<Value>>) -> Seq<Seq<Value>> {
    Seq::new(
        acc.len(),
        |i: int|
            if i < values.len() {
                acc[i] + values[i]
            } else {
                acc[i]
            },
    )
}

/// What the columns of a granule add.
pub open spec fn all_collected(columns: Seq<ReadColumn>, row_count: nat) -> Seq<Seq<Value>> {
    columns.map_values(|c: ReadColumn| collected_values(c, row_count))
}

impl AccumulateFn for CollectFn {
    open spec fn with_raw(&self, acc: Seq<Seq<Value>>, columns: Seq<ReadColumn>, row_count: nat) -> Seq<Seq<Value>> {
        appended(acc, all_collected(columns, row_count))
    }

    open spec fn with_values(&self, acc: Seq<Seq<Value>>, values: Seq<Seq<Value>>) -> Seq<Seq<Value>> {
        appended(acc, values)
    }

    fn new() -> Self {
        CollectFn
    }

    fn accumulate_raw(&self, acc: Vec<Vec<Value>>, columns: &Vec<ReadColumn>, row_count: usize) -> (r: Vec<Vec<Value>>) {
        let ghost before = aggregator::chunk_view(acc@);
        let ghost added = all_collected(columns@, row_count as nat);
        let mut acc = acc;
        let mut i: usize = 0;
        while i < columns.len()
            invariant
                i <= columns@.len() <= acc@.len(),
                acc@.len() == before.len(),
                added == all_collected(columns@, row_count as nat),
                forall|k: int| 0 <= k < columns@.len() ==> mask_is_long_enough(#[trigger] columns@[k]),
                forall|k: int| 0 <= k < i ==> (#[trigger] acc@[k])@ == before[k] + added[k],
                forall|k: int| i <= k < acc@.len() ==> (#[trigger] acc@[k])@ == before[k],
            decreases columns@.len() - i,
        {
            assert(mask_is_long_enough(columns@[i as int]));
            match &columns[i] {
                Some(column) => {
                    let mut values = column::clone_values(column.0.as_slice());
                    retain_column(&mut values, &column.1);
                    append_values(&mut acc[i], &values);
                },
                None => {
                    let nulls = insert::repeat_value(&Value::Null, row_count);
                    append_values(&mut acc[i], &nulls);
                },
            }
            assert(acc@[i as int]@ == before[i as int] + added[i as int]);
            i += 1;
        }
        assert(aggregator::chunk_view(acc@) =~= appended(before, added));
        acc
    }

    fn accumulate_values(&self, acc: Vec<Vec<Value>>, values: &Vec<Vec<Value>>) -> (r: Vec<Vec<Value>>) {
        let ghost before = aggregator::chunk_view(acc@);
        let ghost added = aggregator::chunk_view(values@);
        let mut acc = acc;
        let mut i: usize = 0;
        while i < values.len()
            invariant
                i <= values@.len() <= acc@.len(),
                acc@.len() == before.len(),
                added == aggregator::chunk_view(values@),
                forall|k: int| 0 <= k < i ==> (#[trigger] acc@[k])@ == before[k] + added[k],
                forall|k: int| i <= k < acc@.len() ==> (#[trigger] acc@[k])@ == before[k],
            decreases values@.len() - i,
        {
            append_values(&mut acc[i], &values[i]);
            i += 1;
        }
        assert(aggregator::chunk_view(acc@) =~= appended(before, added));
        acc
    }
}

} // verus!
