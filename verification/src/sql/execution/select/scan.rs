//! Reading the granules of parts into the columns of a result.
use vstd::prelude::*;

use crate::error;
use crate::error::{Error, ErrorView, Outcome};
use crate::sql::execution::select::accumulate_function;
use crate::sql::execution::select::accumulate_function::{AccumulateFn, ReadColumn};
use crate::sql::execution::select::aggregator;
use crate::sql::execution::select::strategy::Strategy;
use crate::sql::projection::Projection;
use crate::storage::column;
use crate::storage::column::{OutputColumn, OutputColumnView};
use crate::storage::value::Value;

verus! {

/// Reads the granules of parts.
pub struct ScanLogic;

/// Where a granule stands in its part.
pub enum GranulePlace {
    /// Before the last granule: it is full.
    Inner,
    /// It is the last, with as many rows as were counted, or why they could not be counted.
    Last(Outcome<usize>),
    /// In a part that has no granules.
    Unknown,
}

/// How many rows a granule has: those of the first of its columns that was read and, where none was,
/// those that its place tells.
pub open spec fn rows_in(
    read: Option<nat>,
    place: GranulePlace,
    index_granularity: usize,
) -> Result<usize, ErrorView> {
    match place {
        GranulePlace::Unknown => Err(ErrorView::NoColumnsSpecified),
        GranulePlace::Last(Err(e)) => Err(e@),
        GranulePlace::Last(Ok(rows)) => Ok(
            match read {
                Some(n) => n as usize,
                None => rows,
            },
        ),
        GranulePlace::Inner => Ok(
            match read {
                Some(n) => n as usize,
                None => index_granularity,
            },
        ),
    }
}

/// How many rows a granule has, where `read` is how many the first of its columns that was read has.
///
/// Returns: the number of rows, why the rows of the last granule could not be counted, or
/// `NoColumnsSpecified` for a part without granules.
pub fn count_rows(read: Option<usize>, place: &GranulePlace, index_granularity: usize) -> (r: Outcome<usize>)
    ensures
        error::outcome(r) == rows_in(
            match read {
                Some(n) => Some(n as nat),
                None => None,
            },
            *place,
            index_granularity,
        ),
{
    let fallback: usize = match place {
        GranulePlace::Unknown => return Err(Error::NoColumnsSpecified),
        GranulePlace::Last(counted) => match counted {
            Ok(rows) => *rows,
            Err(e) => return Err(e.clone()),
        },
        GranulePlace::Inner => index_granularity,
    };
    match read {
        Some(n) => Ok(n),
        None => Ok(fallback),
    }
}

/// The values of a column, where there are any.
pub open spec fn option_view(column: Option<Vec<Value>>) -> Option<Seq<Value>> {
    match column {
        Some(values) => Some(values@),
        None => None,
    }
}

/// The values of columns, where there are any.
pub open spec fn option_views(columns: Seq<Option<Vec<Value>>>) -> Seq<Option<Seq<Value>>> {
    columns.map_values(|c: Option<Vec<Value>>| option_view(c))
}

/// How many rows a granule has: those of the first column from position `i` on that it has.
pub open spec fn granule_rows(columns: Seq<Option<Seq<Value>>>, i: int) -> Option<nat>
    decreases columns.len() - i,
{
    if i >= columns.len() {
        None
    } else {
        match columns[i] {
            Some(values) => Some(values.len()),
            None => granule_rows(columns, i + 1),
        }
    }
}

/// How many rows a granule has, where it has one of the columns.
pub fn rows_in_granule(columns: &Vec<Option<Vec<Value>>>) -> (r: Option<usize>)
    ensures
        match r {
            Some(n) => granule_rows(option_views(columns@), 0) == Some(n as nat),
            None => granule_rows(option_views(columns@), 0) is None,
        },
{
    let mut i: usize = 0;
    while i < columns.len()
        invariant
            i <= columns@.len(),
            granule_rows(option_views(columns@), 0) == granule_rows(option_views(columns@), i as int),
        decreases columns@.len() - i,
    {
        if let Some(values) = &columns[i] {
            return Some(values.len());
        }
        i += 1;
    }
    None
}

/// A granule of a part: for each projection the values and which rows pass, and where it stands.
pub struct ReadGranule {
    pub columns: Vec<ReadColumn>,
    pub place: GranulePlace,
}

/// How many rows the first column from position `i` on that was read has.
pub open spec fn first_read(columns: Seq<ReadColumn>, i: int) -> Option<nat>
    decreases columns.len() - i,
{
    if i >= columns.len() {
        None
    } else {
        match columns[i] {
            Some(c) => Some(c.0@.len()),
            None => first_read(columns, i + 1),
        }
    }
}

fn rows_of_first_read(columns: &Vec<ReadColumn>) -> (r: Option<usize>)
    ensures
        match r {
            Some(n) => first_read(columns@, 0) == Some(n as nat),
            None => first_read(columns@, 0) is None,
        },
{
    let mut i: usize = 0;
    while i < columns.len()
        invariant
            i <= columns@.len(),
            first_read(columns@, 0) == first_read(columns@, i as int),
        decreases columns@.len() - i,
    {
        if let Some(column) = &columns[i] {
            return Some(column.0.len());
        }
        i += 1;
    }
    None
}

/// Whether a granule has values for as many projections as there are, and its masks say something of
/// every row.
pub open spec fn granule_fits(granule: ReadGranule, projections: nat) -> bool {
    &&& granule.columns@.len() <= projections
    &&& forall|i: int|
        0 <= i < granule.columns@.len() ==> accumulate_function::mask_is_long_enough(
            #[trigger] granule.columns@[i],
        )
}

/// Whether the granules that were read fit.
pub open spec fn granules_fit(granules: Seq<Outcome<ReadGranule>>, projections: nat) -> bool {
    forall|i: int|
        0 <= i < granules.len() ==> ((#[trigger] granules[i]) matches Ok(g) ==> granule_fits(g, projections))
}

/// How many rows were accepted after one more granule; no more than can be counted.
pub open spec fn accepted_after(accepted: usize, row_count: usize) -> usize {
    if accepted + row_count > usize::MAX {
        usize::MAX
    } else {
        (accepted + row_count) as usize
    }
}

/// What was put together of a part after the granules from `i` on, and how many rows were accepted.
/// A granule is left out once enough rows were accepted.
pub open spec fn part_from<A: AccumulateFn>(
    accumulate: A,
    acc: Seq<Seq<Value>>,
    granules: Seq<Outcome<ReadGranule>>,
    index_granularity: usize,
    needed: usize,
    i: int,
    so_far: Option<Seq<Seq<Value>>>,
    accepted: usize,
) -> Result<(Option<Seq<Seq<Value>>>, usize), ErrorView>
    decreases granules.len() - i,
{
    if i >= granules.len() {
        Ok((so_far, accepted))
    } else if accepted >= needed {
        part_from(accumulate, acc, granules, index_granularity, needed, i + 1, so_far, accepted)
    } else {
        match granules[i] {
            Err(e) => Err(e@),
            Ok(g) => match rows_in(first_read(g.columns@, 0), g.place, index_granularity) {
                Err(e) => Err(e),
                Ok(rows) => {
                    let read = accumulate.with_raw(acc, g.columns@, rows as nat);
                    let all = match so_far {
                        Some(before) => accumulate.with_values(before, read),
                        None => read,
                    };
                    part_from(
                        accumulate,
                        acc,
                        granules,
                        index_granularity,
                        needed,
                        i + 1,
                        Some(all),
                        accepted_after(accepted, rows),
                    )
                },
            },
        }
    }
}

/// What was put together after the parts from `p` on. A part that could not be opened is an error,
/// and so is one that adds nothing.
pub open spec fn parts_from<A: AccumulateFn>(
    accumulate: A,
    acc: Seq<Seq<Value>>,
    parts: Seq<Outcome<Vec<Outcome<ReadGranule>>>>,
    index_granularity: usize,
    needed: usize,
    p: int,
    accepted: usize,
) -> Result<Seq<Seq<Value>>, ErrorView>
    decreases parts.len() - p,
{
    if p >= parts.len() {
        Ok(acc)
    } else {
        match parts[p] {
            Err(e) => Err(e@),
            Ok(granules) => match part_from(
                accumulate,
                acc,
                granules@,
                index_granularity,
                needed,
                0,
                None,
                accepted,
            ) {
                Err(e) => Err(e),
                Ok(read) => match read.0 {
                    None => Err(ErrorView::EmptySource),
                    Some(all) => parts_from(
                        accumulate,
                        all,
                        parts,
                        index_granularity,
                        needed,
                        p + 1,
                        read.1,
                    ),
                },
            },
        }
    }
}

/// The columns of a result with the values that were put together.
pub open spec fn with_values(projections: Seq<Projection>, values: Seq<Seq<Value>>) -> Seq<OutputColumnView> {
    Seq::new(
        projections.len(),
        |i: int|
            OutputColumnView {
                proj: projections[i],
                data: if i < values.len() {
                    values[i]
                } else {
                    seq![]
                },
            },
    )
}

/// A copy of lists of values.
pub fn clone_lists(lists: &Vec<Vec<Value>>) -> (r: Vec<Vec<Value>>)
    ensures
        aggregator::chunk_view(r@) == aggregator::chunk_view(lists@),
        r@.len() == lists@.len(),
{
    let mut r: Vec<Vec<Value>> = Vec::new();
    let mut i: usize = 0;
    while i < lists.len()
        invariant
            i <= lists@.len(),
            r@.len() == i,
            forall|k: int| 0 <= k < i ==> (#[trigger] r@[k])@ == lists@[k]@,
        decreases lists@.len() - i,
    {
        r.push(column::clone_values(lists[i].as_slice()));
        i += 1;
    }
    assert(aggregator::chunk_view(r@) =~= aggregator::chunk_view(lists@));
    r
}

/// What was put together, as sequences.
pub open spec fn lists_view(lists: Option<Vec<Vec<Value>>>) -> Option<Seq<Seq<Value>>> {
    match lists {
        Some(l) => Some(aggregator::chunk_view(l@)),
        None => None,
    }
}

impl ScanLogic {
    /// Puts together the granules of one part.
    fn read_part<A: AccumulateFn>(
        accumulate: &A,
        acc: &Vec<Vec<Value>>,
        granules: &Vec<Outcome<ReadGranule>>,
        index_granularity: usize,
        needed: usize,
        accepted: usize,
    ) -> (r: Outcome<(Option<Vec<Vec<Value>>>, usize)>)
        requires
            granules_fit(granules@, acc@.len()),
        ensures
            match r {
                Ok(read) => part_from(
                    *accumulate,
                    aggregator::chunk_view(acc@),
                    granules@,
                    index_granularity,
                    needed,
                    0,
                    None,
                    accepted,
                ) == Ok::<(Option<Seq<Seq<Value>>>, usize), ErrorView>((lists_view(read.0), read.1)) && (
                read.0 matches Some(l) ==> l@.len() == acc@.len()),
                Err(e) => part_from(
                    *accumulate,
                    aggregator::chunk_view(acc@),
                    granules@,
                    index_granularity,
                    needed,
                    0,
                    None,
                    accepted,
                ) == Err::<(Option<Seq<Seq<Value>>>, usize), ErrorView>(e@),
            },
    {
        let ghost av = aggregator::chunk_view(acc@);
        let mut so_far: Option<Vec<Vec<Value>>> = None;
        let mut count: usize = accepted;
        let mut i: usize = 0;
        while i < granules.len()
            invariant
                i <= granules@.len(),
                av == aggregator::chunk_view(acc@),
                granules_fit(granules@, acc@.len()),
                so_far matches Some(l) ==> l@.len() == acc@.len(),
                part_from(*accumulate, av, granules@, index_granularity, needed, 0, None, accepted) == part_from(
                    *accumulate,
                    av,
                    granules@,
                    index_granularity,
                    needed,
                    i as int,
                    lists_view(so_far),
                    count,
                ),
            decreases granules@.len() - i,
        {
            if count < needed {
                match &granules[i] {
                    Err(e) => return Err(e.clone()),
                    Ok(granule) => {
                        assert(granule_fits(*granule, acc@.len()));
                        let rows: usize = match count_rows(
                            rows_of_first_read(&granule.columns),
                            &granule.place,
                            index_granularity,
                        ) {
                            Ok(rows) => rows,
                            Err(e) => return Err(e),
                        };
                        let read = accumulate.accumulate_raw(clone_lists(acc), &granule.columns, rows);
                        so_far = match so_far {
                            Some(before) => Some(accumulate.accumulate_values(before, &read)),
                            None => Some(read),
                        };
                        count = if count > usize::MAX - rows {
                            usize::MAX
                        } else {
                            count + rows
                        };
                    },
                }
            }
            i += 1;
        }
        Ok((so_far, count))
    }

    /// Reads the granules of parts into the columns of a result.
    ///
    /// Returns:
    ///   * Ok: a column for each projection.
    ///   * Error: the error of a part that could not be opened or of a granule that could not be read,
    ///     or `EmptySource` for a part of which no granule was read.
    pub fn get_out_cols<A: AccumulateFn>(
        parts_granules: &Vec<Outcome<Vec<Outcome<ReadGranule>>>>,
        projections: &Vec<Projection>,
        accumulator: Vec<Vec<Value>>,
        accumulate: &A,
        index_granularity: usize,
        strategy: &Strategy,
    ) -> (r: Outcome<Vec<OutputColumn>>)
        requires
            accumulator@.len() <= projections@.len(),
            forall|p: int|
                0 <= p < parts_granules@.len() ==> ((#[trigger] parts_granules@[p]) matches Ok(granules)
                    ==> granules_fit(granules@, accumulator@.len())),
        ensures
            column::output_outcome(r) == (match parts_from(
                *accumulate,
                aggregator::chunk_view(accumulator@),
                parts_granules@,
                index_granularity,
                strategy.lines_to_read,
                0,
                0,
            ) {
                Ok(values) => Ok(with_values(projections@, values)),
                Err(e) => Err(e),
            }),
    {
        let ghost start = aggregator::chunk_view(accumulator@);
        let needed: usize = strategy.lines_to_read;
        let ghost n = accumulator@.len();
        let mut acc = accumulator;
        let mut accepted: usize = 0;
        let mut p: usize = 0;
        while p < parts_granules.len()
            invariant
                p <= parts_granules@.len(),
                start == aggregator::chunk_view(accumulator@),
                needed == strategy.lines_to_read,
                acc@.len() == n,
                n == accumulator@.len(),
                forall|p: int|
                    0 <= p < parts_granules@.len() ==> ((#[trigger] parts_granules@[p]) matches Ok(granules)
                        ==> granules_fit(granules@, n)),
                parts_from(*accumulate, start, parts_granules@, index_granularity, needed, 0, 0) == parts_from(
                    *accumulate,
                    aggregator::chunk_view(acc@),
                    parts_granules@,
                    index_granularity,
                    needed,
                    p as int,
                    accepted,
                ),
            decreases parts_granules@.len() - p,
        {
            let granules = match &parts_granules[p] {
                Ok(granules) => granules,
                Err(e) => return Err(e.clone()),
            };
            match Self::read_part(accumulate, &acc, granules, index_granularity, needed, accepted) {
                Ok(read) => {
                    match read.0 {
                        Some(all) => {
                            acc = all;
                        },
                        None => return Err(Error::EmptySource),
                    }
                    accepted = read.1;
                },
                Err(e) => return Err(e),
            }
            p += 1;
        }
        let mut out: Vec<OutputColumn> = Vec::new();
        let mut i: usize = 0;
        while i < projections.len()
            invariant
                i <= projections@.len(),
                out@.len() == i,
                forall|k: int|
                    0 <= k < i ==> (#[trigger] out@[k])@ == with_values(
                        projections@,
                        aggregator::chunk_view(acc@),
                    )[k],
            decreases projections@.len() - i,
        {
            let data = if i < acc.len() {
                column::clone_values(acc[i].as_slice())
            } else {
                Vec::new()
            };
            let col = OutputColumn { proj: projections[i].clone(), data };
            assert(col@ == with_values(projections@, aggregator::chunk_view(acc@))[i as int]);
            out.push(col);
            i += 1;
        }
        assert(column::output_views(out@) =~= with_values(projections@, aggregator::chunk_view(acc@)));
        Ok(out)
    }
}

} // verus!
