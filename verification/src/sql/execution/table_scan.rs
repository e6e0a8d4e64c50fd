//! Reading the parts of a table, from their granules to the columns that a query shows.
use vstd::prelude::*;
use vstd::string::*;

use crate::background_merge::append_values;
use crate::engines::EngineName;
use crate::error;
use crate::error::{Error, ErrorView, Outcome};
use crate::runtime_config::TableConfig;
use crate::search;
use crate::sql::compiled_filter;
use crate::sql::ast::Expr;
use crate::sql::command_runner::CommandRunner;
use crate::sql::compiled_filter::{retain_column, CompiledFilter};
use crate::sql::execution::select;
use crate::sql::execution::select::aggregator;
use crate::sql::execution::select::filter;
use crate::sql::execution::select::filter::FilterLogic;
use crate::sql::execution::select::scan;
use crate::sql::execution::select::unanswerable_error;
use crate::sql::logical_plan::insert;
use crate::sql::logical_plan::plan;
use crate::sql::physical_plan;
use crate::sql::physical_plan::SelectSource;
use crate::sql::projection;
use crate::sql::projection::{Projection, ProjectionValue};
use crate::storage::column;
use crate::storage::column::{ColumnDef, OutputColumn, OutputColumnView};
use crate::storage::numbers::{NumberReading, Numbers};
use crate::storage::table_metadata::TableSchemaView;
use crate::storage::value::Value;

verus! {

/// The property of reading a given column of a table.
pub open spec fn reads(d: ColumnDef) -> spec_fn(Projection) -> bool {
    |p: Projection| p.source matches ProjectionValue::ColumnDef(c) && column::column_def_eq(c, d)
}

/// Projections with one more behind them, unless it reads a column that is read already or none at
/// all.
pub open spec fn projection_added(read: Seq<Projection>, p: Projection) -> Seq<Projection> {
    match p.source {
        ProjectionValue::ColumnDef(c) => if search::position(read, reads(c)) is Some {
            read
        } else {
            read.push(p)
        },
        ProjectionValue::Value(_) => read,
    }
}

/// Projections with the first `n` of others behind them.
pub open spec fn projections_added(read: Seq<Projection>, more: Seq<Projection>, n: int) -> Seq<Projection>
    decreases n,
{
    if n <= 0 {
        read
    } else {
        projection_added(projections_added(read, more, n - 1), more[n - 1])
    }
}

impl CommandRunner {
    /// Adds the columns that projections read; scalar values are not read from disk.
    pub fn add_projections(read: &mut Vec<Projection>, projections: &Vec<Projection>)
        ensures
            final(read)@ == projections_added(old(read)@, projections@, projections@.len() as int),
    {
        let ghost before = read@;
        let mut i: usize = 0;
        while i < projections.len()
            invariant
                i <= projections@.len(),
                read@ == projections_added(before, projections@, i as int),
            decreases projections@.len() - i,
        {
            let found = match &projections[i].source {
                ProjectionValue::ColumnDef(c) => is_read(read, c),
                ProjectionValue::Value(_) => true,
            };
            if !found {
                read.push(projections[i].clone());
            }
            i += 1;
        }
    }

    /// Adds columns that are not read yet.
    pub fn add_column_defs(read: &mut Vec<Projection>, column_defs: &Vec<ColumnDef>)
        ensures
            final(read)@ == projections_added(
                old(read)@,
                projection::column_projections(column_defs@),
                column_defs@.len() as int,
            ),
    {
        let projections = projection::projections_of(column_defs.as_slice());
        Self::add_projections(read, &projections);
    }
}

fn is_read(read: &Vec<Projection>, def: &ColumnDef) -> (r: bool)
    ensures
        r == search::position(read@, reads(*def)) is Some,
{
    let mut i: usize = 0;
    while i < read.len()
        invariant
            i <= read@.len(),
            search::position(read@, reads(*def)) == search::position_from(read@, reads(*def), i as int),
        decreases read@.len() - i,
    {
        let found = match &read[i].source {
            ProjectionValue::ColumnDef(c) => *c == *def,
            ProjectionValue::Value(_) => false,
        };
        if found {
            return true;
        }
        i += 1;
    }
    false
}

/// A part of a table: its columns, and for each granule that is read the values of each of them. A
/// part may be one that could not be opened, and a granule one that could not be read.
pub struct ScannedPart {
    pub column_defs: Vec<ColumnDef>,
    pub granules: Outcome<Vec<Outcome<Vec<Vec<Value>>>>>,
}

/// Whether a granule has values for each column of its part, all of them equally many.
pub open spec fn granule_is_even(values: Seq<Seq<Value>>, columns: nat) -> bool {
    &&& values.len() == columns
    &&& forall|i: int, j: int|
        #![trigger values[i], values[j]]
        0 <= i < values.len() && 0 <= j < values.len() ==> values[i].len() == values[j].len()
}

/// Whether the granules of a part that were read are even.
pub open spec fn part_is_even(part: ScannedPart) -> bool {
    part.granules matches Ok(granules) ==> forall|i: int|
        0 <= i < granules@.len() ==> ((#[trigger] granules@[i]) matches Ok(values) ==> granule_is_even(
            aggregator::chunk_view(values@),
            part.column_defs@.len(),
        ))
}

/// The values of a column in a granule, where the part has the column.
pub open spec fn column_values(defs: Seq<ColumnDef>, values: Seq<Seq<Value>>, wanted: ColumnDef) -> Option<
    Seq<Value>,
> {
    match search::position(defs, column::equal_to(wanted)) {
        Some(k) => Some(values[k]),
        None => None,
    }
}

/// The values of a projection in a granule, where the part has its column.
pub open spec fn read_values(defs: Seq<ColumnDef>, values: Seq<Seq<Value>>, proj: Projection) -> Option<
    Seq<Value>,
> {
    match proj.source {
        ProjectionValue::ColumnDef(c) => column_values(defs, values, c),
        ProjectionValue::Value(_) => None,
    }
}

/// The values of the columns that are read in a granule.
pub open spec fn columns_read(read: Seq<Projection>, defs: Seq<ColumnDef>, values: Seq<Seq<Value>>) -> Seq<
    Option<Seq<Value>>,
> {
    read.map_values(|p: Projection| read_values(defs, values, p))
}

/// The values of the columns of a schema in a granule; empty values for those that the part does not
/// have.
pub open spec fn schema_values(
    schema: Seq<ColumnDef>,
    defs: Seq<ColumnDef>,
    values: Seq<Seq<Value>>,
    rows: nat,
) -> Seq<Seq<Value>> {
    schema.map_values(
        |c: ColumnDef|
            match column_values(defs, values, c) {
                Some(v) => v,
                None => insert::repeated(Value::Null, rows),
            },
    )
}

/// How many rows pass.
pub open spec fn passing_rows(mask: Seq<bool>, n: int) -> nat
    decreases n,
{
    if n <= 0 {
        0
    } else {
        passing_rows(mask, n - 1) + if mask[n - 1] {
            1nat
        } else {
            0nat
        }
    }
}

/// Which rows of a granule pass: all of them without a filter.
pub open spec fn granule_mask(filter: Option<CompiledFilter>, columns: Seq<Seq<Value>>, rows: nat) -> Seq<bool> {
    match filter {
        Some(f) => compiled_filter::mask_of(f, columns),
        None => Seq::new(rows, |i: int| true),
    }
}

/// What a granule adds to a column that is read: its values whose rows pass or, where the part does
/// not have the column, as many empty values as rows pass.
pub open spec fn granule_adds(column: Option<Seq<Value>>, mask: Seq<bool>) -> Seq<Value> {
    match column {
        Some(values) => compiled_filter::retained(values, mask),
        None => insert::repeated(Value::Null, passing_rows(mask, mask.len() as int)),
    }
}

/// Columns with what a granule adds to them.
pub open spec fn granule_added(acc: Seq<Seq<Value>>, columns: Seq<Option<Seq<Value>>>, mask: Seq<bool>) -> Seq<
    Seq<Value>,
> {
    Seq::new(acc.len(), |c: int| acc[c] + granule_adds(columns[c], mask))
}

/// Whether enough rows were found for a limit and an offset.
pub open spec fn has_enough(found: usize, limit: Option<u64>, offset: u64) -> bool {
    limit matches Some(l) && found >= (if l + offset > u64::MAX {
        u64::MAX as int
    } else {
        l + offset
    })
}

/// What was read of a table: the values of each column, how many rows there are, and whether that is
/// enough.
#[verifier::ext_equal]
pub struct Scanned {
    pub values: Seq<Seq<Value>>,
    pub rows: usize,
    pub is_enough: bool,
}

/// What a scan reads, and how much of it.
pub struct ScanGoal {
    pub read: Seq<Projection>,
    pub schema: Seq<ColumnDef>,
    pub filter: Option<CompiledFilter>,
    pub limit: Option<u64>,
    pub offset: u64,
}

/// What was read after one more granule. A granule none of whose columns is read adds nothing.
pub open spec fn with_granule(
    goal: ScanGoal,
    defs: Seq<ColumnDef>,
    values: Seq<Seq<Value>>,
    before: Scanned,
) -> Scanned {
    let columns = columns_read(goal.read, defs, values);
    match scan::granule_rows(columns, 0) {
        None => before,
        Some(rows) => {
            let mask = granule_mask(goal.filter, schema_values(goal.schema, defs, values, rows), rows);
            let found = scan::accepted_after(
                before.rows,
                passing_rows(mask, mask.len() as int) as usize,
            );
            Scanned {
                values: granule_added(before.values, columns, mask),
                rows: found,
                is_enough: has_enough(found, goal.limit, goal.offset),
            }
        },
    }
}

/// What was read after the granules of a part from `i` on. Reading stops once there is enough.
pub open spec fn granules_from(
    goal: ScanGoal,
    defs: Seq<ColumnDef>,
    granules: Seq<Outcome<Vec<Vec<Value>>>>,
    i: int,
    before: Scanned,
) -> Result<Scanned, ErrorView>
    decreases granules.len() - i,
{
    if i >= granules.len() || before.is_enough {
        Ok(before)
    } else {
        match granules[i] {
            Err(e) => Err(e@),
            Ok(values) => granules_from(
                goal,
                defs,
                granules,
                i + 1,
                with_granule(goal, defs, aggregator::chunk_view(values@), before),
            ),
        }
    }
}

/// What was read after the parts from `p` on. Reading stops once there is enough.
pub open spec fn parts_from(goal: ScanGoal, parts: Seq<ScannedPart>, p: int, before: Scanned) -> Result<
    Scanned,
    ErrorView,
>
    decreases parts.len() - p,
{
    if p >= parts.len() || before.is_enough {
        Ok(before)
    } else {
        match parts[p].granules {
            Err(e) => Err(e@),
            Ok(granules) => match granules_from(goal, parts[p].column_defs@, granules@, 0, before) {
                Err(e) => Err(e),
                Ok(after) => parts_from(goal, parts, p + 1, after),
            },
        }
    }
}

/// Before anything was read.
pub open spec fn nothing_read(columns: nat) -> Scanned {
    Scanned {
        values: Seq::new(columns, |c: int| Seq::<Value>::empty()),
        rows: 0,
        is_enough: false,
    }
}

fn count_passing(mask: &Vec<bool>) -> (r: usize)
    ensures
        r == passing_rows(mask@, mask@.len() as int),
{
    let mut count: usize = 0;
    let mut i: usize = 0;
    while i < mask.len()
        invariant
            i <= mask@.len(),
            count <= i,
            count == passing_rows(mask@, i as int),
        decreases mask@.len() - i,
    {
        if mask[i] {
            count += 1;
        }
        i += 1;
    }
    count
}

fn mask_for(filter: &Option<CompiledFilter>, columns: &Vec<Vec<Value>>, rows: usize) -> (r: Vec<bool>)
    requires
        *filter matches Some(f) ==> compiled_filter::reads_within(f, columns@.len()),
    ensures
        r@ == granule_mask(*filter, compiled_filter::granule_view(columns@), rows as nat),
{
    match filter {
        Some(f) => f.get_granule_mask(columns),
        None => {
            let mut mask: Vec<bool> = Vec::new();
            let mut i: usize = 0;
            while i < rows
                invariant
                    i <= rows,
                    mask@.len() == i,
                    forall|k: int| 0 <= k < i ==> #[trigger] mask@[k],
                decreases rows - i,
            {
                mask.push(true);
                i += 1;
            }
            assert(mask@ =~= Seq::new(rows as nat, |i: int| true));
            mask
        },
    }
}

/// Whether enough rows were found for a limit and an offset.
fn found_enough(found: usize, limit: Option<u64>, offset: u64) -> (r: bool)
    ensures
        r == has_enough(found, limit, offset),
{
    match limit {
        Some(limit) => {
            let needed: u64 = if limit > u64::MAX - offset {
                u64::MAX
            } else {
                limit + offset
            };
            found as u64 >= needed
        },
        None => false,
    }
}

/// The values of the columns that are read in a granule.
fn read_columns_of(read: &Vec<Projection>, defs: &Vec<ColumnDef>, values: &Vec<Vec<Value>>) -> (r: Vec<
    Option<Vec<Value>>,
>)
    requires
        values@.len() == defs@.len(),
    ensures
        scan::option_views(r@) == columns_read(read@, defs@, aggregator::chunk_view(values@)),
        r@.len() == read@.len(),
{
    let ghost wanted = columns_read(read@, defs@, aggregator::chunk_view(values@));
    let mut r: Vec<Option<Vec<Value>>> = Vec::new();
    assert(scan::option_views(r@) =~= wanted.take(0));
    let mut i: usize = 0;
    while i < read.len()
        invariant
            i <= read@.len(),
            values@.len() == defs@.len(),
            wanted == columns_read(read@, defs@, aggregator::chunk_view(values@)),
            r@.len() == i,
            scan::option_views(r@) == wanted.take(i as int),
        decreases read@.len() - i,
    {
        let ghost before = scan::option_views(r@);
        let column = match &read[i].source {
            ProjectionValue::ColumnDef(c) => match column::position_equal(defs.as_slice(), c) {
                Some(k) => {
                    proof {
                        search::lemma_position(defs@, column::equal_to(*c));
                    }
                    Some(column::clone_values(values[k].as_slice()))
                },
                None => None,
            },
            ProjectionValue::Value(_) => None,
        };
        assert(scan::option_view(column) == wanted[i as int]);
        r.push(column);
        assert(scan::option_views(r@) =~= before.push(scan::option_view(column)));
        assert(wanted.take(i + 1) =~= wanted.take(i as int).push(wanted[i as int]));
        i += 1;
    }
    assert(wanted.take(i as int) =~= wanted);
    r
}

/// The values of the columns of a schema in a granule.
fn schema_columns_of(schema: &Vec<ColumnDef>, defs: &Vec<ColumnDef>, values: &Vec<Vec<Value>>, rows: usize) -> (r:
    Vec<Vec<Value>>)
    requires
        values@.len() == defs@.len(),
    ensures
        compiled_filter::granule_view(r@) == schema_values(
            schema@,
            defs@,
            aggregator::chunk_view(values@),
            rows as nat,
        ),
        r@.len() == schema@.len(),
{
    let ghost wanted = schema_values(schema@, defs@, aggregator::chunk_view(values@), rows as nat);
    let mut r: Vec<Vec<Value>> = Vec::new();
    let mut i: usize = 0;
    while i < schema.len()
        invariant
            i <= schema@.len(),
            values@.len() == defs@.len(),
            wanted == schema_values(schema@, defs@, aggregator::chunk_view(values@), rows as nat),
            r@.len() == i,
            forall|k: int| 0 <= k < i ==> (#[trigger] r@[k])@ == wanted[k],
        decreases schema@.len() - i,
    {
        let column = match column::position_equal(defs.as_slice(), &schema[i]) {
            Some(k) => {
                proof {
                    search::lemma_position(defs@, column::equal_to(schema@[i as int]));
                }
                column::clone_values(values[k].as_slice())
            },
            None => insert::repeat_value(&Value::Null, rows),
        };
        assert(column@ == wanted[i as int]);
        r.push(column);
        i += 1;
    }
    assert(compiled_filter::granule_view(r@) =~= wanted);
    r
}

/// The rows of a granule of which a column is read are those of each of its columns.
proof fn lemma_granule_rows(read: Seq<Projection>, defs: Seq<ColumnDef>, values: Seq<Seq<Value>>, i: int)
    requires
        granule_is_even(values, defs.len()),
        0 <= i,
    ensures
        scan::granule_rows(columns_read(read, defs, values), i) matches Some(rows) ==> forall|k: int|
            0 <= k < values.len() ==> (#[trigger] values[k]).len() == rows,
    decreases read.len() - i,
{
    if i < read.len() {
        assert(columns_read(read, defs, values)[i] == read_values(defs, values, read[i]));
        if let ProjectionValue::ColumnDef(c) = read[i].source {
            search::lemma_position(defs, column::equal_to(c));
        }
        lemma_granule_rows(read, defs, values, i + 1);
    }
}

/// Every column of a granule has as many values as its mask.
proof fn lemma_mask_fits(goal: ScanGoal, defs: Seq<ColumnDef>, values: Seq<Seq<Value>>, rows: nat)
    requires
        granule_is_even(values, defs.len()),
        goal.schema.len() > 0,
        goal.filter matches Some(f) ==> compiled_filter::reads_within(f, goal.schema.len()),
        scan::granule_rows(columns_read(goal.read, defs, values), 0) == Some(rows),
    ensures
        granule_mask(goal.filter, schema_values(goal.schema, defs, values, rows), rows).len() == rows,
        forall|c: int|
            0 <= c < goal.read.len() ==> ((#[trigger] columns_read(goal.read, defs, values)[c]) matches Some(
                v,
            ) ==> v.len() == rows),
{
    lemma_granule_rows(goal.read, defs, values, 0);
    let columns = schema_values(goal.schema, defs, values, rows);
    assert forall|i: int| 0 <= i < columns.len() implies (#[trigger] columns[i]).len() == rows by {
        search::lemma_position(defs, column::equal_to(goal.schema[i]));
    }
    if let Some(f) = goal.filter {
        compiled_filter::lemma_mask_tells_which_rows_hold(f, columns, rows);
    }
    assert forall|c: int| 0 <= c < goal.read.len() implies ((#[trigger] columns_read(
        goal.read,
        defs,
        values,
    )[c]) matches Some(v) ==> v.len() == rows) by {
        if let ProjectionValue::ColumnDef(d) = goal.read[c].source {
            search::lemma_position(defs, column::equal_to(d));
        }
    }
}

/// What a scan reads of a table, and how much of it.
pub struct ScanConfig<'a> {
    pub read: &'a Vec<Projection>,
    pub table_col_defs: &'a Vec<ColumnDef>,
    pub filter: &'a Option<CompiledFilter>,
    pub limit: Option<u64>,
    pub offset: u64,
}

impl<'a> View for ScanConfig<'a> {
    type V = ScanGoal;

    open spec fn view(&self) -> ScanGoal {
        ScanGoal {
            read: self.read@,
            schema: self.table_col_defs@,
            filter: *self.filter,
            limit: self.limit,
            offset: self.offset,
        }
    }
}

/// Whether the table has a column, and the filter reads none that it does not have.
pub open spec fn can_scan(goal: ScanGoal) -> bool {
    &&& goal.schema.len() > 0
    &&& goal.filter matches Some(f) ==> compiled_filter::reads_within(f, goal.schema.len())
}

impl CommandRunner {
    /// Adds what a granule has.
    fn scan_granule(
        config: &ScanConfig,
        defs: &Vec<ColumnDef>,
        values: &Vec<Vec<Value>>,
        acc: &mut Vec<Vec<Value>>,
        found: usize,
        is_enough: bool,
    ) -> (r: (usize, bool))
        requires
            can_scan(config@),
            granule_is_even(aggregator::chunk_view(values@), defs@.len()),
            old(acc)@.len() == config.read@.len(),
        ensures
            (Scanned { values: aggregator::chunk_view(final(acc)@), rows: r.0, is_enough: r.1 }) == with_granule(
                config@,
                defs@,
                aggregator::chunk_view(values@),
                Scanned { values: aggregator::chunk_view(old(acc)@), rows: found, is_enough },
            ),
            final(acc)@.len() == old(acc)@.len(),
    {
        let ghost goal = config@;
        let ghost vs = aggregator::chunk_view(values@);
        let columns = read_columns_of(config.read, defs, values);
        let rows: usize = match scan::rows_in_granule(&columns) {
            Some(rows) => rows,
            None => return (found, is_enough),
        };
        let schema_columns = schema_columns_of(config.table_col_defs, defs, values, rows);
        let mask = mask_for(config.filter, &schema_columns, rows);
        proof {
            lemma_mask_fits(goal, defs@, vs, rows as nat);
        }
        let allowed: usize = count_passing(&mask);
        let ghost before = aggregator::chunk_view(acc@);
        let ghost cols = columns_read(goal.read, defs@, vs);
        let mut c: usize = 0;
        while c < columns.len()
            invariant
                c <= columns@.len(),
                acc@.len() == columns@.len(),
                before.len() == columns@.len(),
                cols == scan::option_views(columns@),
                allowed == passing_rows(mask@, mask@.len() as int),
                forall|k: int| 0 <= k < cols.len() ==> ((#[trigger] cols[k]) matches Some(v) ==> v.len() == mask@.len()),
                forall|k: int| 0 <= k < c ==> (#[trigger] acc@[k])@ == before[k] + granule_adds(cols[k], mask@),
                forall|k: int| c <= k < acc@.len() ==> (#[trigger] acc@[k])@ == before[k],
            decreases columns@.len() - c,
        {
            assert(cols[c as int] == scan::option_view(columns@[c as int]));
            let added = match &columns[c] {
                Some(values) => {
                    let mut kept = column::clone_values(values.as_slice());
                    retain_column(&mut kept, &mask);
                    kept
                },
                None => insert::repeat_value(&Value::Null, allowed),
            };
            append_values(&mut acc[c], &added);
            c += 1;
        }
        assert(aggregator::chunk_view(acc@) =~= granule_added(before, cols, mask@));
        let total: usize = if found > usize::MAX - allowed {
            usize::MAX
        } else {
            found + allowed
        };
        (total, found_enough(total, config.limit, config.offset))
    }

    /// Reads the parts of a table: for each column that is read its values whose rows pass the filter,
    /// and how many rows there are. Stops once the limit and the offset have enough rows.
    ///
    /// Returns:
    ///   * Ok: the values of each column, and how many rows there are.
    ///   * Error: why a part could not be opened or a granule could not be read.
    pub fn scan_table_parts(config: &ScanConfig, parts: &Vec<ScannedPart>) -> (r: Outcome<(Vec<Vec<Value>>, usize)>)
        requires
            can_scan(config@),
            forall|p: int| 0 <= p < parts@.len() ==> part_is_even(#[trigger] parts@[p]),
        ensures
            match r {
                Ok(read) => parts_from(config@, parts@, 0, nothing_read(config.read@.len())) matches Ok(scanned)
                    && scanned.values == aggregator::chunk_view(read.0@) && scanned.rows == read.1 && read.0@.len()
                    == config.read@.len(),
                Err(e) => parts_from(config@, parts@, 0, nothing_read(config.read@.len())) == Err::<
                    Scanned,
                    ErrorView,
                >(e@),
            },
    {
        let ghost goal = config@;
        let ghost wanted = parts_from(goal, parts@, 0, nothing_read(goal.read.len()));
        let mut acc: Vec<Vec<Value>> = Vec::new();
        let mut c: usize = 0;
        while c < config.read.len()
            invariant
                c <= config.read@.len(),
                acc@.len() == c,
                forall|k: int| 0 <= k < c ==> (#[trigger] acc@[k])@ == Seq::<Value>::empty(),
            decreases config.read@.len() - c,
        {
            acc.push(Vec::new());
            c += 1;
        }
        assert(aggregator::chunk_view(acc@) =~= nothing_read(goal.read.len()).values);
        let mut found: usize = 0;
        let mut is_enough = false;
        let mut p: usize = 0;
        while p < parts.len() && !is_enough
            invariant
                p <= parts@.len(),
                goal == config@,
                can_scan(goal),
                forall|p: int| 0 <= p < parts@.len() ==> part_is_even(#[trigger] parts@[p]),
                acc@.len() == goal.read.len(),
                wanted == parts_from(goal, parts@, 0, nothing_read(goal.read.len())),
                wanted == parts_from(
                    goal,
                    parts@,
                    p as int,
                    Scanned { values: aggregator::chunk_view(acc@), rows: found, is_enough },
                ),
            decreases parts@.len() - p,
        {
            let part = &parts[p];
            assert(part_is_even(parts@[p as int]));
            let granules = match &part.granules {
                Ok(granules) => granules,
                Err(e) => return Err(e.clone()),
            };
            let ghost start = Scanned { values: aggregator::chunk_view(acc@), rows: found, is_enough };
            let ghost of_part = granules_from(goal, part.column_defs@, granules@, 0, start);
            let mut i: usize = 0;
            while i < granules.len() && !is_enough
                invariant
                    i <= granules@.len(),
                    p < parts@.len(),
                    goal == config@,
                    can_scan(goal),
                    *part == parts@[p as int],
                    part_is_even(*part),
                    part.granules == Ok::<Vec<Outcome<Vec<Vec<Value>>>>, Error>(*granules),
                    acc@.len() == goal.read.len(),
                    !start.is_enough,
                    wanted == parts_from(goal, parts@, 0, nothing_read(goal.read.len())),
                    wanted == parts_from(goal, parts@, p as int, start),
                    of_part == granules_from(goal, part.column_defs@, granules@, 0, start),
                    of_part == granules_from(
                        goal,
                        part.column_defs@,
                        granules@,
                        i as int,
                        Scanned { values: aggregator::chunk_view(acc@), rows: found, is_enough },
                    ),
                decreases granules@.len() - i,
            {
                let values = match &granules[i] {
                    Ok(values) => values,
                    Err(e) => return Err(e.clone()),
                };
                assert(granules@[i as int] == Ok::<Vec<Vec<Value>>, Error>(*values));
                let (rows, enough) = Self::scan_granule(
                    config,
                    &part.column_defs,
                    values,
                    &mut acc,
                    found,
                    is_enough,
                );
                found = rows;
                is_enough = enough;
                i += 1;
            }
            p += 1;
        }
        Ok((acc, found))
    }
}

/// The columns that a query shows: those that read a column that one of the projections reads.
pub open spec fn shown(columns: Seq<OutputColumnView>, projections: Seq<Projection>) -> Seq<OutputColumnView>
    decreases columns.len(),
{
    if columns.len() == 0 {
        seq![]
    } else {
        let rest = shown(columns.drop_last(), projections);
        if is_shown(columns.last().proj, projections) {
            rest.push(columns.last())
        } else {
            rest
        }
    }
}

/// Whether a projection reads a column that one of the projections of a list reads.
pub open spec fn is_shown(proj: Projection, projections: Seq<Projection>) -> bool {
    match proj.source {
        ProjectionValue::ColumnDef(c) => search::position(projections, reads(c)) is Some,
        ProjectionValue::Value(_) => false,
    }
}

/// How many rows are left of a number of rows after an offset and a limit.
pub open spec fn rows_left(total: usize, limit: Option<u64>, offset: u64) -> nat {
    let rest: nat = if total <= offset {
        0
    } else {
        (total - offset) as nat
    };
    match limit {
        Some(l) => if rest <= l {
            rest
        } else {
            l as nat
        },
        None => rest,
    }
}

/// The rows from an offset on, as many as are left.
pub open spec fn window(columns: Seq<OutputColumnView>, total: usize, limit: Option<u64>, offset: u64) -> Result<
    Seq<OutputColumnView>,
    ErrorView,
> {
    let skipped: nat = if total <= offset {
        total as nat
    } else {
        offset as nat
    };
    if exists|i: int| 0 <= i < columns.len() && (#[trigger] columns[i]).data.len() < skipped {
        Err(select::unanswerable())
    } else {
        Ok(
            columns.map_values(
                |c: OutputColumnView|
                    OutputColumnView {
                        proj: c.proj,
                        data: select::cut_values(
                            c.data,
                            skipped,
                            match limit {
                                Some(_) => Some(rows_left(total, limit, offset)),
                                None => None,
                            },
                        ),
                    },
            ),
        )
    }
}

/// Columns with the scalar columns from `i` on at their positions.
pub open spec fn with_scalars(
    columns: Seq<OutputColumnView>,
    scalars: Seq<(usize, Projection)>,
    rows: nat,
    i: int,
) -> Result<Seq<OutputColumnView>, ErrorView>
    decreases scalars.len() - i,
{
    if i >= scalars.len() {
        Ok(columns)
    } else {
        match scalars[i].1.source {
            ProjectionValue::ColumnDef(_) => with_scalars(columns, scalars, rows, i + 1),
            ProjectionValue::Value(v) => if scalars[i].0 > columns.len() {
                Err(select::unanswerable())
            } else {
                with_scalars(
                    columns.insert(
                        scalars[i].0 as int,
                        OutputColumnView { proj: scalars[i].1, data: insert::repeated(v, rows) },
                    ),
                    scalars,
                    rows,
                    i + 1,
                )
            },
        }
    }
}

/// What a query owes for the columns that were read and sorted.
pub open spec fn finished(
    sorted: Result<Seq<OutputColumnView>, ErrorView>,
    disk_columns: Seq<Projection>,
    scalars: Seq<(usize, Projection)>,
    limit: Option<u64>,
    offset: u64,
    total: usize,
) -> Result<Seq<OutputColumnView>, ErrorView> {
    match sorted {
        Err(e) => Err(e),
        Ok(columns) => match window(shown(columns, disk_columns), total, limit, offset) {
            Err(e) => Err(e),
            Ok(columns) => with_scalars(columns, scalars, rows_left(total, limit, offset), 0),
        },
    }
}

/// What sorting owes, where there is an ORDER BY.
pub open spec fn sorted_for(
    engine: EngineName,
    primary_key: Seq<ColumnDef>,
    columns: Seq<OutputColumnView>,
    order_by: Option<Seq<Seq<Projection>>>,
    sorted: Result<Seq<OutputColumnView>, ErrorView>,
) -> bool {
    match order_by {
        None => sorted == Ok::<Seq<OutputColumnView>, ErrorView>(columns),
        Some(orders) => select::sorting_owes(
            engine,
            primary_key,
            columns,
            orders,
            orders.len() as int,
            sorted,
        ),
    }
}

/// Leaves out the columns that were read only to filter or to sort.
fn keep_shown(columns: Vec<OutputColumn>, projections: &Vec<Projection>) -> (r: Vec<OutputColumn>)
    ensures
        column::output_views(r@) == shown(column::output_views(columns@), projections@),
{
    let ghost cols = column::output_views(columns@);
    let mut held = columns;
    let mut r: Vec<OutputColumn> = Vec::new();
    assert(cols.take(0) =~= Seq::<OutputColumnView>::empty());
    assert(column::output_views(r@) =~= Seq::<OutputColumnView>::empty());
    let mut i: usize = 0;
    while i < held.len()
        invariant
            i <= held@.len(),
            held@.len() == cols.len(),
            forall|k: int| i <= k < cols.len() ==> (#[trigger] held@[k])@ == cols[k],
            column::output_views(r@) == shown(cols.take(i as int), projections@),
        decreases held@.len() - i,
    {
        let ghost before = column::output_views(r@);
        assert(held@[i as int]@ == cols[i as int]);
        assert(cols.take(i + 1).drop_last() =~= cols.take(i as int));
        let keep = match &held[i].proj.source {
            ProjectionValue::ColumnDef(c) => is_read(projections, c),
            ProjectionValue::Value(_) => false,
        };
        if keep {
            let mut data: Vec<Value> = Vec::new();
            core::mem::swap(&mut data, &mut held[i].data);
            let kept = OutputColumn { proj: held[i].proj.clone(), data };
            assert(kept@ == cols[i as int]);
            r.push(kept);
            assert(column::output_views(r@) =~= before.push(cols[i as int]));
        }
        i += 1;
    }
    assert(cols.take(i as int) =~= cols);
    r
}

/// Leaves the rows from an offset on, as many as a limit says.
fn keep_window(columns: Vec<OutputColumn>, total: usize, limit: Option<u64>, offset: u64) -> (r: Outcome<
    Vec<OutputColumn>,
>)
    ensures
        column::output_outcome(r) == window(column::output_views(columns@), total, limit, offset),
{
    let ghost cols = column::output_views(columns@);
    let ghost orig = columns@;
    let mut held = columns;
    let skipped: usize = if total as u64 <= offset {
        total
    } else {
        offset as usize
    };
    let left: Option<usize> = match limit {
        Some(limit) => Some(
            if (total - skipped) as u64 <= limit {
                total - skipped
            } else {
                limit as usize
            },
        ),
        None => None,
    };
    let mut i: usize = 0;
    while i < held.len()
        invariant
            i <= held@.len(),
            held@ == orig,
            orig == columns@,
            cols == column::output_views(orig),
            skipped == (if total <= offset {
                total as nat
            } else {
                offset as nat
            }),
            forall|k: int| 0 <= k < i ==> (#[trigger] cols[k]).data.len() >= skipped,
        decreases held@.len() - i,
    {
        assert(cols[i as int] == held@[i as int]@);
        if held[i].data.len() < skipped {
            assert(cols[i as int].data.len() < skipped);
            return Err(unanswerable_error());
        }
        i += 1;
    }
    let ghost left_nat: Option<nat> = match limit {
        Some(_) => Some(rows_left(total, limit, offset)),
        None => None,
    };
    let mut i: usize = 0;
    while i < held.len()
        invariant
            i <= held@.len(),
            held@.len() == orig.len(),
            cols == column::output_views(orig),
            match left {
                Some(n) => left_nat == Some(n as nat),
                None => left_nat is None,
            },
            forall|k: int| 0 <= k < cols.len() ==> (#[trigger] cols[k]).data.len() >= skipped,
            forall|k: int| i <= k < orig.len() ==> #[trigger] held@[k] == orig[k],
            forall|k: int|
                0 <= k < i ==> (#[trigger] held@[k])@ == (OutputColumnView {
                    proj: cols[k].proj,
                    data: select::cut_values(cols[k].data, skipped as nat, left_nat),
                }),
        decreases held@.len() - i,
    {
        assert(cols[i as int] == held@[i as int]@);
        let mut rest = held[i].data.split_off(skipped);
        assert(rest@ =~= cols[i as int].data.skip(skipped as int));
        if let Some(left) = left {
            rest.truncate(left);
        }
        assert(rest@ =~= select::cut_values(cols[i as int].data, skipped as nat, left_nat));
        held[i].data = rest;
        i += 1;
    }
    assert(column::output_views(held@) =~= window(cols, total, limit, offset)->Ok_0);
    Ok(held)
}

impl CommandRunner {
    /// Sorts the columns that were read, leaves those that the query shows and of them the rows that it
    /// asks for, and adds scalar columns at their positions.
    ///
    /// Returns:
    ///   * Ok: the columns of the result.
    ///   * Error: the error of the engine that sorts, or `Internal` where values cannot be compared or
    ///     columns do not fit together.
    pub fn apply_post_processing(
        result: Vec<OutputColumn>,
        order_by: &Option<Vec<Vec<Projection>>>,
        engine_name: EngineName,
        pk_col_defs: &Vec<ColumnDef>,
        disk_columns: &Vec<Projection>,
        scalar_projections: &Vec<(usize, Projection)>,
        limit: Option<u64>,
        offset: u64,
        total_size: usize,
    ) -> (r: Outcome<Vec<OutputColumn>>)
        ensures
            exists|sorted: Result<Seq<OutputColumnView>, ErrorView>|
                #[trigger] sorted_for(
                    engine_name,
                    pk_col_defs@,
                    column::output_views(result@),
                    physical_plan::orders_view(*order_by),
                    sorted,
                ) && column::output_outcome(r) == finished(
                    sorted,
                    disk_columns@,
                    scalar_projections@,
                    limit,
                    offset,
                    total_size,
                ),
    {
        let ghost given = column::output_views(result@);
        let sorted = match order_by {
            None => Ok(result),
            Some(orders) => select::sort_by_orders(engine_name, pk_col_defs, result, orders),
        };
        let ghost sorted_view = column::output_outcome(sorted);
        assert(sorted_for(
            engine_name,
            pk_col_defs@,
            given,
            physical_plan::orders_view(*order_by),
            sorted_view,
        ));
        let columns = match sorted {
            Ok(columns) => columns,
            Err(e) => return Err(e),
        };
        let columns = match keep_window(keep_shown(columns, disk_columns), total_size, limit, offset) {
            Ok(columns) => columns,
            Err(e) => return Err(e),
        };
        let rest: usize = if total_size as u64 <= offset {
            0
        } else {
            (total_size as u64 - offset) as usize
        };
        let rows: usize = match limit {
            Some(limit) => if rest as u64 <= limit {
                rest
            } else {
                limit as usize
            },
            None => rest,
        };
        assert(rows == rows_left(total_size, limit, offset));
        let ghost windowed = column::output_views(columns@);
        let mut columns = columns;
        let mut i: usize = 0;
        while i < scalar_projections.len()
            invariant
                i <= scalar_projections@.len(),
                sorted_for(
                    engine_name,
                    pk_col_defs@,
                    given,
                    physical_plan::orders_view(*order_by),
                    sorted_view,
                ),
                given == column::output_views(result@),
                finished(sorted_view, disk_columns@, scalar_projections@, limit, offset, total_size)
                    == with_scalars(windowed, scalar_projections@, rows as nat, 0),
                with_scalars(windowed, scalar_projections@, rows as nat, 0) == with_scalars(
                    column::output_views(columns@),
                    scalar_projections@,
                    rows as nat,
                    i as int,
                ),
            decreases scalar_projections@.len() - i,
        {
            let ghost before = column::output_views(columns@);
            let position: usize = scalar_projections[i].0;
            if let ProjectionValue::Value(value) = &scalar_projections[i].1.source {
                if position > columns.len() {
                    return Err(unanswerable_error());
                }
                let scalar = OutputColumn {
                    proj: scalar_projections[i].1.clone(),
                    data: insert::repeat_value(value, rows),
                };
                columns.insert(position, scalar);
                assert(column::output_views(columns@) =~= before.insert(position as int, scalar@));
            }
            i += 1;
        }
        Ok(columns)
    }
}

/// Of the first `n` projections those that read a column.
pub open spec fn from_disk(columns: Seq<Projection>, n: int) -> Seq<Projection>
    decreases n,
{
    if n <= 0 {
        seq![]
    } else if columns[n - 1].source is ColumnDef {
        from_disk(columns, n - 1).push(columns[n - 1])
    } else {
        from_disk(columns, n - 1)
    }
}

/// Of the first `n` projections those that are a value, each with its position.
pub open spec fn scalars_among(columns: Seq<Projection>, n: int) -> Seq<(usize, Projection)>
    decreases n,
{
    if n <= 0 {
        seq![]
    } else if columns[n - 1].source is Value {
        scalars_among(columns, n - 1).push(((n - 1) as usize, columns[n - 1]))
    } else {
        scalars_among(columns, n - 1)
    }
}

/// Projections with those that the first `n` orders sort by behind them.
pub open spec fn orders_added(read: Seq<Projection>, orders: Seq<Seq<Projection>>, n: int) -> Seq<Projection>
    decreases n,
{
    if n <= 0 {
        read
    } else {
        projections_added(orders_added(read, orders, n - 1), orders[n - 1], orders[n - 1].len() as int)
    }
}

/// What a query over one table reads and shows.
pub struct TableQuery {
    /// The columns that are shown.
    pub disk_columns: Vec<Projection>,
    /// The values that are shown, each with the position at which it stands.
    pub scalar_projections: Vec<(usize, Projection)>,
    /// The columns that are read: those that are shown, filtered by and sorted by.
    pub read: Vec<Projection>,
    pub filter: Option<CompiledFilter>,
    /// Whether the primary key alone tells which granules can be left out.
    pub use_filter_optimization: bool,
}

/// What a query over one table reads and shows, with its lists as sequences.
#[verifier::ext_equal]
pub struct TableQueryView {
    pub disk_columns: Seq<Projection>,
    pub scalar_projections: Seq<(usize, Projection)>,
    pub read: Seq<Projection>,
    pub filter: Option<CompiledFilter>,
    pub use_filter_optimization: bool,
}

impl View for TableQuery {
    type V = TableQueryView;

    open spec fn view(&self) -> TableQueryView {
        TableQueryView {
            disk_columns: self.disk_columns@,
            scalar_projections: self.scalar_projections@,
            read: self.read@,
            filter: self.filter,
            use_filter_optimization: self.use_filter_optimization,
        }
    }
}

/// The columns that are read to be shown and to be sorted by, with those that a filter reads between
/// them.
pub open spec fn columns_to_read(
    columns: Seq<Projection>,
    filtered_by: Seq<ColumnDef>,
    orders: Option<Seq<Seq<Projection>>>,
) -> Seq<Projection> {
    let disk = from_disk(columns, columns.len() as int);
    let shown = projections_added(seq![], disk, disk.len() as int);
    let filtered = projections_added(
        shown,
        projection::column_projections(filtered_by),
        filtered_by.len() as int,
    );
    match orders {
        Some(orders) => orders_added(filtered, orders, orders.len() as int),
        None => filtered,
    }
}

/// What a query over a table with a given schema reads and shows.
pub open spec fn table_query(
    columns: Seq<Projection>,
    expr: Option<Box<Expr>>,
    orders: Option<Seq<Seq<Projection>>>,
    schema: TableSchemaView,
    readings: Seq<NumberReading>,
) -> Result<TableQueryView, ErrorView> {
    let disk_columns = from_disk(columns, columns.len() as int);
    let scalar_projections = scalars_among(columns, columns.len() as int);
    match expr {
        None => Ok(
            TableQueryView {
                disk_columns,
                scalar_projections,
                read: columns_to_read(columns, seq![], orders),
                filter: None,
                use_filter_optimization: false,
            },
        ),
        Some(expr) => match compiled_filter::compiled(*expr, schema.columns, readings) {
            Err(e) => Err(e),
            Ok(f) => {
                let filtered_by = filter::columns_at(schema.columns, filter::columns_read(f));
                Ok(
                    TableQueryView {
                        disk_columns,
                        scalar_projections,
                        read: columns_to_read(columns, filtered_by, orders),
                        filter: Some(f),
                        use_filter_optimization: filter::all_in_key(filtered_by, schema.primary_key),
                    },
                )
            },
        },
    }
}

/// Columns that were read, as columns of a result.
pub open spec fn read_columns(read: Seq<Projection>, data: Seq<Seq<Value>>) -> Seq<OutputColumnView> {
    Seq::new(read.len(), |i: int| OutputColumnView { proj: read[i], data: data[i] })
}

/// What the parts of a table give for a query.
pub open spec fn parts_read(
    query: TableQueryView,
    schema: Seq<ColumnDef>,
    parts: Seq<ScannedPart>,
    limit: Option<u64>,
    offset: u64,
) -> Result<Scanned, ErrorView> {
    parts_from(
        ScanGoal { read: query.read, schema, filter: query.filter, limit, offset },
        parts,
        0,
        nothing_read(query.read.len()),
    )
}

/// What a query over one table owes for the parts of the table: what was read of them, sorted where there
/// is an ORDER BY, and finished.
pub open spec fn answer_owes(
    query: TableQueryView,
    engine: EngineName,
    schema: TableSchemaView,
    orders: Option<Seq<Seq<Projection>>>,
    parts: Seq<ScannedPart>,
    limit: Option<u64>,
    offset: u64,
    result: Result<Seq<OutputColumnView>, ErrorView>,
) -> bool {
    match parts_read(query, schema.columns, parts, limit, offset) {
        Err(e) => result == Err::<Seq<OutputColumnView>, ErrorView>(e),
        Ok(scanned) => exists|sorted: Result<Seq<OutputColumnView>, ErrorView>|
            #[trigger] sorted_for(
                engine,
                schema.primary_key,
                read_columns(query.read, scanned.values),
                orders,
                sorted,
            ) && result == finished(
                sorted,
                query.disk_columns,
                query.scalar_projections,
                limit,
                offset,
                scanned.rows,
            ),
    }
}

impl CommandRunner {
    /// Starts a SELECT over one table: which columns are read, and which are shown.
    ///
    /// Returns:
    ///   * Ok: what is read and shown
    ///   * Error: `Internal` for a subquery, `TableNotFound`, or the error of the filter
    pub fn start_select(
        source: &SelectSource,
        columns_to_read: &Vec<Projection>,
        filter: Option<Box<Expr>>,
        order_by: &Option<Vec<Vec<Projection>>>,
        table_config: Option<&TableConfig>,
        numbers: &Numbers,
    ) -> (r: Outcome<TableQuery>)
        ensures
            error::outcome_view(r) == (match *source {
                SelectSource::Subquery(_) => Err(
                    ErrorView::Internal(
                        "Subqueries should've been removed during optimization. Cannot proceed"@,
                    ),
                ),
                SelectSource::Table(_) => match table_config {
                    None => Err(ErrorView::TableNotFound),
                    Some(config) => table_query(
                        columns_to_read@,
                        filter,
                        physical_plan::orders_view(*order_by),
                        config.metadata.schema@,
                        numbers.readings@,
                    ),
                },
            }),
            r matches Ok(query) ==> (query.filter matches Some(f) ==> compiled_filter::reads_within(
                f,
                table_config->0.metadata.schema.columns@.len(),
            )),
    {
        if let SelectSource::Subquery(_) = source {
            return Err(
                Error::Internal(
                    "Subqueries should've been removed during optimization. Cannot proceed".to_owned(),
                ),
            );
        }
        let schema = match table_config {
            Some(config) => &config.metadata.schema,
            None => return Err(Error::TableNotFound),
        };
        let mut disk_columns: Vec<Projection> = Vec::new();
        let mut scalar_projections: Vec<(usize, Projection)> = Vec::new();
        let mut i: usize = 0;
        while i < columns_to_read.len()
            invariant
                i <= columns_to_read@.len(),
                disk_columns@ == from_disk(columns_to_read@, i as int),
                scalar_projections@ == scalars_among(columns_to_read@, i as int),
            decreases columns_to_read@.len() - i,
        {
            match &columns_to_read[i].source {
                ProjectionValue::ColumnDef(_) => disk_columns.push(columns_to_read[i].clone()),
                ProjectionValue::Value(_) => scalar_projections.push((i, columns_to_read[i].clone())),
            }
            i += 1;
        }
        let mut read: Vec<Projection> = Vec::new();
        Self::add_projections(&mut read, &disk_columns);
        let mut use_filter_optimization = false;
        let compiled = match filter {
            Some(expr) => {
                let f = match CompiledFilter::compile(*expr, schema.columns.as_slice(), numbers) {
                    Ok(f) => f,
                    Err(e) => return Err(e),
                };
                let filtered_by = f.get_col_defs_inside(&schema.columns);
                use_filter_optimization = FilterLogic::should_use_compiler_optimization(
                    &filtered_by,
                    &schema.primary_key,
                );
                Self::add_column_defs(&mut read, &filtered_by);
                Some(f)
            },
            None => None,
        };
        if let Some(orders) = order_by {
            Self::add_orders(&mut read, orders);
        }
        Ok(
            TableQuery {
                disk_columns,
                scalar_projections,
                read,
                filter: compiled,
                use_filter_optimization,
            },
        )
    }

    fn add_orders(read: &mut Vec<Projection>, orders: &Vec<Vec<Projection>>)
        ensures
            final(read)@ == orders_added(old(read)@, plan::nested(orders@), orders@.len() as int),
    {
        let ghost start = read@;
        let mut i: usize = 0;
        while i < orders.len()
            invariant
                i <= orders@.len(),
                read@ == orders_added(start, plan::nested(orders@), i as int),
            decreases orders@.len() - i,
        {
            Self::add_projections(read, &orders[i]);
            i += 1;
        }
    }

    /// Ends a SELECT over one table whose granules were read.
    ///
    /// Returns:
    ///   * Ok: the columns of the result
    ///   * Error: why a part could not be read, the error of sorting, or `Internal` where columns do not
    ///     fit together
    pub fn finish_select(
        query: &TableQuery,
        parts: &Vec<ScannedPart>,
        order_by: &Option<Vec<Vec<Projection>>>,
        table_config: &TableConfig,
        limit: Option<u64>,
        offset: u64,
    ) -> (r: Outcome<Vec<OutputColumn>>)
        requires
            table_config.metadata.schema.columns@.len() > 0,
            query.filter matches Some(f) ==> compiled_filter::reads_within(
                f,
                table_config.metadata.schema.columns@.len(),
            ),
            forall|p: int| 0 <= p < parts@.len() ==> part_is_even(#[trigger] parts@[p]),
        ensures
            answer_owes(
                query@,
                table_config.metadata.settings.engine,
                table_config.metadata.schema@,
                physical_plan::orders_view(*order_by),
                parts@,
                limit,
                offset,
                column::output_outcome(r),
            ),
    {
        let config = ScanConfig {
            read: &query.read,
            table_col_defs: &table_config.metadata.schema.columns,
            filter: &query.filter,
            limit,
            offset,
        };
        let ghost given = parts_read(query@, table_config.metadata.schema.columns@, parts@, limit, offset);
        let (data, total_size) = match Self::scan_table_parts(&config, parts) {
            Ok(read) => read,
            Err(e) => return Err(e),
        };
        let ghost scanned = given->Ok_0;
        assert(scanned.values == aggregator::chunk_view(data@));
        let mut held = data;
        let mut result: Vec<OutputColumn> = Vec::new();
        let mut i: usize = 0;
        while i < query.read.len()
            invariant
                i <= query.read@.len(),
                scanned.values.len() == query.read@.len(),
                held@.len() == query.read@.len(),
                forall|k: int| i <= k < held@.len() ==> (#[trigger] held@[k])@ == scanned.values[k],
                result@.len() == i,
                forall|k: int|
                    0 <= k < i ==> (#[trigger] result@[k])@ == read_columns(query.read@, scanned.values)[k],
            decreases query.read@.len() - i,
        {
            let mut values: Vec<Value> = Vec::new();
            core::mem::swap(&mut values, &mut held[i]);
            result.push(OutputColumn { proj: query.read[i].clone(), data: values });
            i += 1;
        }
        assert(column::output_views(result@) =~= read_columns(query.read@, scanned.values));
        let answer = Self::apply_post_processing(
            result,
            order_by,
            table_config.metadata.settings.engine,
            &table_config.metadata.schema.primary_key,
            &query.disk_columns,
            &query.scalar_projections,
            limit,
            offset,
            total_size,
        );
        proof {
            let schema = table_config.metadata.schema@;
            let orders = physical_plan::orders_view(*order_by);
            let columns = read_columns(query@.read, scanned.values);
            let engine = table_config.metadata.settings.engine;
            let sorted = choose|sorted: Result<Seq<OutputColumnView>, ErrorView>|
                #[trigger] sorted_for(engine, schema.primary_key, columns, orders, sorted)
                    && column::output_outcome(answer) == finished(
                    sorted,
                    query.disk_columns@,
                    query.scalar_projections@,
                    limit,
                    offset,
                    total_size,
                );
            assert(sorted_for(engine, schema.primary_key, columns, orders, sorted));
        }
        answer
    }
}

} // verus!
