//! Merging of table parts in the background.
use vstd::prelude::*;
use vstd::string::*;

use crate::error;
use crate::error::Outcome;
use crate::search;
use crate::sql::logical_plan::insert;
use crate::startup;
use crate::startup::{NamedTable, NamedTableView};
use crate::storage::column;
use crate::storage::column::{ColumnDef, PhysicalColumn, PhysicalColumnView};
use crate::storage::part_name;
use crate::storage::part_name::time_of_part;
use crate::storage::table_def::TableDef;
use crate::storage::table_metadata::{TableMetadata, TableMetadataView};
use crate::storage::table_part;
use crate::storage::table_part::{TablePart, TablePartInfo, TablePartInfoView};
use crate::storage::value::Value;
use crate::text::{concat2, same_text};

verus! {

/// Background merge service that combines table parts to optimize storage and queries.
pub struct BackgroundMerge;

/// Two parts of a table that are to become one.
pub struct PartsToMerge {
    pub table_def: TableDef,
    pub table_metadata: TableMetadata,
    pub part_1_info: TablePartInfo,
    pub part_2_info: TablePartInfo,
}

/// Two parts of a table that are to become one, with their lists as sequences.
#[verifier::ext_equal]
pub struct PartsToMergeView {
    pub table_def: TableDef,
    pub table_metadata: TableMetadataView,
    pub part_1_info: TablePartInfoView,
    pub part_2_info: TablePartInfoView,
}

impl View for PartsToMerge {
    type V = PartsToMergeView;

    open spec fn view(&self) -> PartsToMergeView {
        PartsToMergeView {
            table_def: self.table_def,
            table_metadata: self.table_metadata@,
            part_1_info: self.part_1_info@,
            part_2_info: self.part_2_info@,
        }
    }
}

/// Whether a part with one time comes before a part with another. A part whose name tells no time
/// comes first.
pub open spec fn is_older(a: Option<(u64, u32)>, b: Option<(u64, u32)>) -> bool {
    match (a, b) {
        (Some(x), Some(y)) => part_name::is_later(y, x),
        (None, Some(_)) => true,
        _ => false,
    }
}

/// Whether a part is the oldest of those that are not skipped, and the first of the oldest.
pub open spec fn is_oldest(times: Seq<Option<(u64, u32)>>, skipped: int, i: int) -> bool {
    &&& 0 <= i < times.len()
    &&& i != skipped
    &&& forall|k: int| 0 <= k < times.len() && k != skipped ==> !is_older(#[trigger] times[k], times[i])
    &&& forall|k: int| 0 <= k < i && k != skipped ==> is_older(times[i], #[trigger] times[k])
}

/// The times at which parts were made.
pub open spec fn times_of(infos: Seq<TablePartInfoView>) -> Seq<Option<(u64, u32)>> {
    infos.map_values(|i: TablePartInfoView| part_name::part_time(i.name@))
}

/// The property of having more than one part.
pub open spec fn has_parts_to_merge() -> spec_fn(NamedTableView) -> bool {
    |t: NamedTableView| t.config.infos.len() > 1
}

/// The property of having a given name.
pub open spec fn part_named(name: Seq<char>) -> spec_fn(TablePartInfoView) -> bool {
    |i: TablePartInfoView| i.name@ == name
}

/// Whether a part is the first with the name of the part at a position.
pub open spec fn is_part_at(infos: Seq<TablePartInfoView>, i: int, part: TablePartInfoView) -> bool {
    match search::position(infos, part_named(infos[i].name@)) {
        Some(k) => part == infos[k],
        None => false,
    }
}

/// Whether two parts are the oldest of a table, the older first.
pub open spec fn are_oldest(table: NamedTableView, parts: PartsToMergeView, i: int, j: int) -> bool {
    let times = times_of(table.config.infos);
    &&& is_oldest(times, -1, i)
    &&& is_oldest(times, i, j)
    &&& parts.table_def == table.table
    &&& parts.table_metadata == table.config.metadata
    &&& is_part_at(table.config.infos, i, parts.part_1_info)
    &&& is_part_at(table.config.infos, j, parts.part_2_info)
}

/// Whether parts are the two oldest of the first table that has more than one, if there is one.
pub open spec fn are_parts_to_merge(tables: Seq<NamedTableView>, parts: Option<PartsToMergeView>) -> bool {
    match (search::position(tables, has_parts_to_merge()), parts) {
        (None, None) => true,
        (Some(k), Some(p)) => exists|i: int, j: int| #[trigger] are_oldest(tables[k], p, i, j),
        _ => false,
    }
}

/// Whether a time comes before another. A missing time comes first.
fn comes_before(a: &Option<(u64, u32)>, b: &Option<(u64, u32)>) -> (r: bool)
    ensures
        r == is_older(*a, *b),
{
    match (a, b) {
        (Some(x), Some(y)) => (y.0 > x.0) || (y.0 == x.0 && y.1 > x.1),
        (None, Some(_)) => true,
        _ => false,
    }
}

/// The first of the oldest parts that are not skipped.
fn oldest_part(times: &Vec<Option<(u64, u32)>>, skipped: Option<usize>) -> (r: usize)
    requires
        times@.len() > 1,
    ensures
        is_oldest(
            times@,
            match skipped {
                Some(s) => s as int,
                None => -1,
            },
            r as int,
        ),
{
    let ghost s: int = match skipped {
        Some(s) => s as int,
        None => -1,
    };
    let mut best: usize = 0;
    let mut i: usize = 1;
    if let Some(0) = skipped {
        best = 1;
        i = 2;
    }
    while i < times.len()
        invariant
            best < i <= times@.len(),
            s == (match skipped {
                Some(x) => x as int,
                None => -1int,
            }),
            best != s,
            forall|k: int| 0 <= k < i && k != s ==> !is_older(#[trigger] times@[k], times@[best as int]),
            forall|k: int| 0 <= k < best && k != s ==> is_older(times@[best as int], #[trigger] times@[k]),
        decreases times@.len() - i,
    {
        let is_skipped = match skipped {
            Some(x) => x == i,
            None => false,
        };
        if !is_skipped && comes_before(&times[i], &times[best]) {
            best = i;
        }
        i += 1;
    }
    best
}

/// The first part with the name of the part at a position.
fn part_at(infos: &Vec<TablePartInfo>, at: usize) -> (r: TablePartInfo)
    requires
        at < infos@.len(),
    ensures
        is_part_at(table_part::info_views(infos@), at as int, r@),
{
    let ghost views = table_part::info_views(infos@);
    let ghost p = part_named(views[at as int].name@);
    assert(views[at as int] == infos@[at as int]@);
    let mut i: usize = 0;
    while i < at
        invariant
            i <= at < infos@.len(),
            views == table_part::info_views(infos@),
            p == part_named(views[at as int].name@),
            search::position(views, p) == search::position_from(views, p, i as int),
        decreases at - i,
    {
        assert(views[i as int] == infos@[i as int]@);
        assert(views[at as int] == infos@[at as int]@);
        if same_text(infos[i].name.as_str(), infos[at].name.as_str()) {
            return infos[i].clone();
        }
        i += 1;
    }
    infos[at].clone()
}

/// The definition of a column is a given one.
pub open spec fn defined_as(d: ColumnDef) -> spec_fn(PhysicalColumnView) -> bool {
    |c: PhysicalColumnView| column::column_def_eq(c.column_def, d)
}

/// The value that stands in the rows that a column has no values for.
pub open spec fn default_of(d: ColumnDef) -> Value {
    match d.constraints.default {
        Some(v) => v,
        None => Value::Null,
    }
}

/// Columns with one more column added: its values behind those of the column with the same
/// definition or, where there is none, behind as many default values as there were rows before.
pub open spec fn column_added(columns: Seq<PhysicalColumnView>, rows: nat, c: PhysicalColumnView) -> Seq<
    PhysicalColumnView,
> {
    match search::position(columns, defined_as(c.column_def)) {
        Some(p) => columns.update(
            p,
            PhysicalColumnView { column_def: columns[p].column_def, data: columns[p].data + c.data },
        ),
        None => columns.push(
            PhysicalColumnView {
                column_def: c.column_def,
                data: insert::repeated(default_of(c.column_def), rows) + c.data,
            },
        ),
    }
}

/// Columns with the first `n` of other columns added.
pub open spec fn combined(cols1: Seq<PhysicalColumnView>, cols2: Seq<PhysicalColumnView>, n: int) -> Seq<
    PhysicalColumnView,
>
    decreases n,
{
    if n <= 0 {
        cols1
    } else {
        column_added(combined(cols1, cols2, n - 1), cols1[0].data.len(), cols2[n - 1])
    }
}

/// Whether two lists of columns have the same definitions, none of which occurs twice.
pub open spec fn same_columns(cols1: Seq<PhysicalColumnView>, cols2: Seq<PhysicalColumnView>) -> bool {
    &&& cols1.len() == cols2.len()
    &&& forall|i: int, j: int|
        #![trigger cols1[i], cols2[j]]
        0 <= i < cols1.len() && 0 <= j < cols2.len() ==> column::column_def_eq(
            cols1[i].column_def,
            cols2[j].column_def,
        ) == (i == j)
}

/// Merging parts with the same columns loses no value: every column holds its values of the first
/// part and, behind them, those of the second.
pub proof fn lemma_combining_appends(cols1: Seq<PhysicalColumnView>, cols2: Seq<PhysicalColumnView>, n: int)
    requires
        same_columns(cols1, cols2),
        0 <= n <= cols2.len(),
    ensures
        combined(cols1, cols2, n).len() == cols1.len(),
        forall|i: int|
            0 <= i < cols1.len() ==> (#[trigger] combined(cols1, cols2, n)[i]) == (PhysicalColumnView {
                column_def: cols1[i].column_def,
                data: if i < n {
                    cols1[i].data + cols2[i].data
                } else {
                    cols1[i].data
                },
            }),
    decreases n,
{
    if n > 0 {
        lemma_combining_appends(cols1, cols2, n - 1);
        let before = combined(cols1, cols2, n - 1);
        let c = cols2[n - 1];
        search::lemma_position(before, defined_as(c.column_def));
        assert(before[n - 1].column_def == cols1[n - 1].column_def);
        assert(column::column_def_eq(cols1[n - 1].column_def, c.column_def));
        assert(defined_as(c.column_def)(before[n - 1]));
        let p = search::position(before, defined_as(c.column_def))->Some_0;
        assert(before[p].column_def == cols1[p].column_def);
        assert(column::column_def_eq(cols1[p].column_def, cols2[n - 1].column_def));
        assert(p == n - 1);
    }
}

/// A merged column has its definition from one of the parts.
proof fn lemma_combined_definitions(cols1: Seq<PhysicalColumnView>, cols2: Seq<PhysicalColumnView>, n: int, p: int)
    requires
        0 <= n <= cols2.len(),
        0 <= p < combined(cols1, cols2, n).len(),
    ensures
        (exists|i: int|
            0 <= i < cols1.len() && combined(cols1, cols2, n)[p].column_def == (#[trigger] cols1[i]).column_def) || (
        exists|k: int| 0 <= k < n && combined(cols1, cols2, n)[p].column_def == (#[trigger] cols2[k]).column_def),
    decreases n,
{
    if n > 0 {
        let before = combined(cols1, cols2, n - 1);
        let c = cols2[n - 1];
        search::lemma_position(before, defined_as(c.column_def));
        if p < before.len() {
            lemma_combined_definitions(cols1, cols2, n - 1, p);
            assert(combined(cols1, cols2, n)[p].column_def == before[p].column_def);
        } else {
            assert(combined(cols1, cols2, n)[p].column_def == cols2[n - 1].column_def);
        }
    } else {
        assert(combined(cols1, cols2, n)[p].column_def == cols1[p].column_def);
    }
}

/// A column that only the second part has holds the default value for every row of the first part and,
/// behind them, its own values, wherever it stands in the second part.
pub proof fn lemma_new_column_starts_with_defaults(
    cols1: Seq<PhysicalColumnView>,
    cols2: Seq<PhysicalColumnView>,
    j: int,
    n: int,
) -> (p: int)
    requires
        cols1.len() > 0,
        0 <= j < n <= cols2.len(),
        forall|i: int|
            0 <= i < cols1.len() ==> !column::column_def_eq(
                (#[trigger] cols1[i]).column_def,
                cols2[j].column_def,
            ),
        forall|a: int, b: int|
            #![trigger cols2[a], cols2[b]]
            0 <= a < cols2.len() && 0 <= b < cols2.len() && a != b ==> !column::column_def_eq(
                cols2[a].column_def,
                cols2[b].column_def,
            ),
    ensures
        0 <= p < combined(cols1, cols2, n).len(),
        combined(cols1, cols2, n)[p] == (PhysicalColumnView {
            column_def: cols2[j].column_def,
            data: insert::repeated(default_of(cols2[j].column_def), cols1[0].data.len()) + cols2[j].data,
        }),
    decreases n,
{
    let before = combined(cols1, cols2, n - 1);
    let p = defined_as(cols2[n - 1].column_def);
    search::lemma_position(before, p);
    if j < n - 1 {
        let at = lemma_new_column_starts_with_defaults(cols1, cols2, j, n - 1);
        assert(!column::column_def_eq(cols2[j].column_def, cols2[n - 1].column_def));
        assert(!p(before[at]));
        at
    } else {
        if let Some(at) = search::position(before, p) {
            lemma_combined_definitions(cols1, cols2, n - 1, at);
            assert(p(before[at]));
            assert(false);
        }
        before.len() as int
    }
}

/// The values that chunks hold for one column, one chunk behind the other.
pub open spec fn chunk_values(chunks: Seq<Vec<Vec<Value>>>, c: int) -> Seq<Value> {
    chunks.map_values(|chunk: Vec<Vec<Value>>| chunk@[c]@).flatten()
}

/// A column that was split into granules is loaded as it was.
pub proof fn lemma_split_column_loads_back(data: Seq<Value>, granularity: nat, chunks: Seq<Vec<Vec<Value>>>, c: int)
    requires
        granularity > 0,
        chunks.map_values(|chunk: Vec<Vec<Value>>| chunk@[c]@) == table_part::granules_of(data, granularity),
    ensures
        chunk_values(chunks, c) == data,
{
    table_part::lemma_granules_give_back_data(data, granularity);
}

/// Appends copies of values.
pub fn append_values(data: &mut Vec<Value>, values: &Vec<Value>)
    ensures
        final(data)@ == old(data)@ + values@,
{
    let ghost before = data@;
    let mut i: usize = 0;
    assert(before + values@.take(0) =~= before);
    while i < values.len()
        invariant
            i <= values@.len(),
            data@ == before + values@.take(i as int),
        decreases values@.len() - i,
    {
        data.push(values[i].clone());
        i += 1;
        assert(before + values@.take(i as int) =~= (before + values@.take(i - 1)).push(values@[i - 1]));
    }
    assert(values@.take(i as int) =~= values@);
}

/// How a round of the background merge ended.
#[derive(Debug, Clone, Copy, PartialEq, Eq, Structural)]
pub enum MergeOutcome {
    /// Too busy with selects to allocate resources and lock for background merges.
    Busy,
    NothingToMerge,
    PartNotLoaded,
    PartNotMade,
    PartNotSaved,
    PartNotMoved,
    Merged,
}

impl BackgroundMerge {
    /// Whether the load of the database leaves room for a merge.
    pub fn is_available(database_load: usize, available_under: usize) -> (r: bool)
        ensures
            r == (database_load < available_under),
    {
        !(database_load >= available_under)
    }

    /// How many seconds to wait before the next round.
    pub fn pause_after(outcome: MergeOutcome) -> (r: u64)
        ensures
            r == (match outcome {
                MergeOutcome::Busy | MergeOutcome::NothingToMerge | MergeOutcome::PartNotLoaded => 5u64,
                MergeOutcome::PartNotMade | MergeOutcome::PartNotSaved | MergeOutcome::Merged => 0u64,
                MergeOutcome::PartNotMoved => 1u64,
            }),
    {
        match outcome {
            MergeOutcome::Busy | MergeOutcome::NothingToMerge | MergeOutcome::PartNotLoaded => 5,
            MergeOutcome::PartNotMade | MergeOutcome::PartNotSaved | MergeOutcome::Merged => 0,
            MergeOutcome::PartNotMoved => 1,
        }
    }

    /// The two oldest parts of the first table that has more than one.
    pub fn find_parts_to_merge(tables: &Vec<NamedTable>) -> (r: Option<PartsToMerge>)
        ensures
            are_parts_to_merge(
                startup::table_views(tables@),
                match r {
                    Some(parts) => Some(parts@),
                    None => None,
                },
            ),
    {
        let ghost views = startup::table_views(tables@);
        let mut k: usize = 0;
        while k < tables.len()
            invariant
                k <= tables@.len(),
                views == startup::table_views(tables@),
                search::position(views, has_parts_to_merge()) == search::position_from(
                    views,
                    has_parts_to_merge(),
                    k as int,
                ),
            decreases tables@.len() - k,
        {
            assert(views[k as int] == tables@[k as int]@);
            if tables[k].config.infos.len() > 1 {
                let parts = Self::oldest_parts(&tables[k]);
                proof {
                    let found = search::position(views, has_parts_to_merge());
                    assert(found == Some(k as int));
                    let (i, j) = choose|i: int, j: int| are_oldest(tables@[k as int]@, parts@, i, j);
                    assert(are_oldest(views[found->Some_0], parts@, i, j));
                }
                return Some(parts);
            }
            k += 1;
        }
        None
    }

    fn oldest_parts(table: &NamedTable) -> (r: PartsToMerge)
        requires
            table.config.infos@.len() > 1,
        ensures
            exists|i: int, j: int| #[trigger] are_oldest(table@, r@, i, j),
    {
        let ghost infos = table@.config.infos;
        let mut times: Vec<Option<(u64, u32)>> = Vec::new();
        let mut i: usize = 0;
        while i < table.config.infos.len()
            invariant
                i <= table.config.infos@.len(),
                infos == table_part::info_views(table.config.infos@),
                times@.len() == i,
                forall|k: int| 0 <= k < i ==> #[trigger] times@[k] == times_of(infos)[k],
            decreases table.config.infos@.len() - i,
        {
            assert(infos[i as int] == table.config.infos@[i as int]@);
            times.push(time_of_part(table.config.infos[i].name.as_str()));
            i += 1;
        }
        assert(times@ =~= times_of(infos));
        let first: usize = oldest_part(&times, None);
        let second: usize = oldest_part(&times, Some(first));
        let parts = PartsToMerge {
            table_def: table.table.clone(),
            table_metadata: table.config.metadata.clone(),
            part_1_info: part_at(&table.config.infos, first),
            part_2_info: part_at(&table.config.infos, second),
        };
        assert(are_oldest(table@, parts@, first as int, second as int));
        parts
    }

    /// The columns of a part, for the chunks that were read from it.
    pub fn load_part_cols(part_info: &TablePartInfo, chunks: &Vec<Vec<Vec<Value>>>) -> (r: Vec<PhysicalColumn>)
        requires
            forall|k: int|
                0 <= k < chunks@.len() ==> (#[trigger] chunks@[k])@.len() >= part_info.column_defs@.len(),
        ensures
            r@.len() == part_info.column_defs@.len(),
            forall|c: int|
                0 <= c < r@.len() ==> (#[trigger] r@[c])@ == (PhysicalColumnView {
                    column_def: part_info.column_defs@[c],
                    data: chunk_values(chunks@, c),
                }),
    {
        let mut columns: Vec<PhysicalColumn> = Vec::new();
        let mut c: usize = 0;
        while c < part_info.column_defs.len()
            invariant
                c <= part_info.column_defs@.len(),
                forall|k: int|
                    0 <= k < chunks@.len() ==> (#[trigger] chunks@[k])@.len() >= part_info.column_defs@.len(),
                columns@.len() == c,
                forall|m: int|
                    0 <= m < c ==> (#[trigger] columns@[m])@ == (PhysicalColumnView {
                        column_def: part_info.column_defs@[m],
                        data: chunk_values(chunks@, m),
                    }),
            decreases part_info.column_defs@.len() - c,
        {
            let mut column = PhysicalColumn::from_def(part_info.column_defs[c].clone());
            let ghost of_column = chunks@.map_values(|chunk: Vec<Vec<Value>>| chunk@[c as int]@);
            let mut k: usize = 0;
            assert(of_column.take(0) =~= Seq::<Seq<Value>>::empty());
            while k < chunks.len()
                invariant
                    k <= chunks@.len(),
                    c < part_info.column_defs@.len(),
                    forall|k: int|
                        0 <= k < chunks@.len() ==> (#[trigger] chunks@[k])@.len() >= part_info.column_defs@.len(),
                    of_column == chunks@.map_values(|chunk: Vec<Vec<Value>>| chunk@[c as int]@),
                    column.column_def == part_info.column_defs@[c as int],
                    column.data@ == of_column.take(k as int).flatten(),
                decreases chunks@.len() - k,
            {
                append_values(&mut column.data, &chunks[k][c]);
                proof {
                    assert(of_column.take(k + 1) =~= of_column.take(k as int).push(of_column[k as int]));
                    of_column.take(k as int).lemma_flatten_push(of_column[k as int]);
                }
                k += 1;
            }
            assert(of_column.take(k as int) =~= of_column);
            columns.push(column);
            c += 1;
        }
        columns
    }

    /// The columns of two parts as the columns of one.
    pub fn combine_cols(cols1: Vec<PhysicalColumn>, cols2: &Vec<PhysicalColumn>) -> (r: Vec<PhysicalColumn>)
        requires
            cols1@.len() > 0,
        ensures
            column::physical_views(r@) == combined(
                column::physical_views(cols1@),
                column::physical_views(cols2@),
                cols2@.len() as int,
            ),
    {
        let ghost first = column::physical_views(cols1@);
        let ghost second = column::physical_views(cols2@);
        assert(first[0] == cols1@[0]@);
        let rows: usize = cols1[0].data.len();
        let mut cols = cols1;
        let mut i: usize = 0;
        while i < cols2.len()
            invariant
                i <= cols2@.len(),
                second == column::physical_views(cols2@),
                rows == first[0].data.len(),
                column::physical_views(cols@) == combined(first, second, i as int),
            decreases cols2@.len() - i,
        {
            let ghost before = column::physical_views(cols@);
            assert(second[i as int] == cols2@[i as int]@);
            Self::add_column(&mut cols, rows, &cols2[i]);
            assert(column::physical_views(cols@) == column_added(before, rows as nat, second[i as int]));
            i += 1;
        }
        cols
    }

    fn add_column(cols: &mut Vec<PhysicalColumn>, rows: usize, column: &PhysicalColumn)
        ensures
            column::physical_views(final(cols)@) == column_added(
                column::physical_views(old(cols)@),
                rows as nat,
                column@,
            ),
    {
        let ghost views = column::physical_views(cols@);
        let ghost p = defined_as(column.column_def);
        let mut i: usize = 0;
        while i < cols.len()
            invariant
                i <= cols@.len(),
                cols@ == old(cols)@,
                views == column::physical_views(cols@),
                p == defined_as(column.column_def),
                search::position(views, p) == search::position_from(views, p, i as int),
            decreases cols@.len() - i,
        {
            assert(views[i as int] == cols@[i as int]@);
            if cols[i].column_def == column.column_def {
                append_values(&mut cols[i].data, &column.data);
                assert(column::physical_views(cols@) =~= column_added(views, rows as nat, column@));
                return ;
            }
            i += 1;
        }
        let default_value = match &column.column_def.constraints.default {
            Some(v) => v.clone(),
            None => Value::default(),
        };
        let mut data = insert::repeat_value(&default_value, rows);
        append_values(&mut data, &column.data);
        cols.push(PhysicalColumn { column_def: column.column_def.clone(), data });
        assert(column::physical_views(cols@) =~= column_added(views, rows as nat, column@));
    }

    /// The part that two parts become. It has the name of the later of the two, so that it takes its
    /// place among the others. Where the rows cannot be compared there is none.
    pub fn merge(parts: &PartsToMerge, cols1: Vec<PhysicalColumn>, cols2: &Vec<PhysicalColumn>) -> (r: Option<
        Outcome<TablePart>,
    >)
        requires
            cols1@.len() > 0,
            parts.table_metadata.settings.index_granularity > 0,
        ensures
            ({
                let all = combined(
                    column::physical_views(cols1@),
                    column::physical_views(cols2@),
                    cols2@.len() as int,
                );
                match r {
                    None => !table_part::can_be_sorted(parts.table_metadata@, all),
                    Some(part) => table_part::can_be_sorted(parts.table_metadata@, all)
                        && table_part::part_owes(
                        parts.table_metadata@,
                        all,
                        parts.part_2_info.name,
                        error::outcome_view(part),
                    ),
                }
            }),
    {
        let all = Self::combine_cols(cols1, cols2);
        if !TablePart::can_sort(&parts.table_metadata, &all) {
            return None;
        }
        Some(TablePart::with_name(&parts.table_metadata, all, parts.part_2_info.name.clone()))
    }
}

/// A step of replacing two parts by the part that they became.
#[derive(Debug, Clone, Copy, PartialEq, Eq, Structural)]
pub enum MoveStep {
    /// Rename the first part to its name and `.old`.
    SetFirstAside,
    /// Rename the second part to its name and `.old`.
    SetSecondAside,
    /// The second part could not be renamed: give the first its name back.
    PutFirstBack,
    /// Move the new part to where parts are read from.
    MoveNew,
    /// The new part could not be moved: give the first part its name back.
    RestoreFirst,
    /// The new part could not be moved: give the second part its name back.
    RestoreSecond,
    /// Remove the first part.
    RemoveFirst,
    /// Remove the second part.
    RemoveSecond,
    /// The parts were replaced.
    Replaced,
    /// The parts were not replaced.
    Abandoned,
}

/// The step that follows a step that succeeded or failed.
pub open spec fn step_after(step: MoveStep, succeeded: bool) -> MoveStep {
    match step {
        MoveStep::SetFirstAside => if succeeded {
            MoveStep::SetSecondAside
        } else {
            MoveStep::Abandoned
        },
        MoveStep::SetSecondAside => if succeeded {
            MoveStep::MoveNew
        } else {
            MoveStep::PutFirstBack
        },
        MoveStep::PutFirstBack => MoveStep::Abandoned,
        MoveStep::MoveNew => if succeeded {
            MoveStep::RemoveFirst
        } else {
            MoveStep::RestoreFirst
        },
        MoveStep::RestoreFirst => MoveStep::RestoreSecond,
        MoveStep::RestoreSecond => MoveStep::Abandoned,
        MoveStep::RemoveFirst => MoveStep::RemoveSecond,
        MoveStep::RemoveSecond => MoveStep::Replaced,
        MoveStep::Replaced => MoveStep::Replaced,
        MoveStep::Abandoned => MoveStep::Abandoned,
    }
}

/// The parts of a list without those that have one of two names.
pub open spec fn without_parts(infos: Seq<TablePartInfoView>, a: Seq<char>, b: Seq<char>) -> Seq<TablePartInfoView>
    decreases infos.len(),
{
    if infos.len() == 0 {
        seq![]
    } else {
        let rest = without_parts(infos.drop_last(), a, b);
        if infos.last().name@ != a && infos.last().name@ != b {
            rest.push(infos.last())
        } else {
            rest
        }
    }
}

/// The replacing of two parts by the part that they became.
pub struct PartMove {
    pub part_1_info: TablePartInfo,
    pub part_2_info: TablePartInfo,
    pub new_info: TablePartInfo,
    pub step: MoveStep,
}

/// The parts of the table after a step that succeeded or failed.
pub open spec fn infos_after(
    part_1: TablePartInfoView,
    part_2: TablePartInfoView,
    new: TablePartInfoView,
    step: MoveStep,
    succeeded: bool,
    infos: Seq<TablePartInfoView>,
) -> Seq<TablePartInfoView> {
    match step {
        MoveStep::SetSecondAside => if succeeded {
            without_parts(infos, part_1.name@, part_2.name@).push(new)
        } else {
            infos
        },
        MoveStep::MoveNew => table_part::settled(infos, new.name@, succeeded),
        MoveStep::RestoreFirst => if succeeded {
            infos.push(part_1)
        } else {
            infos
        },
        MoveStep::RestoreSecond => if succeeded {
            infos.push(part_2)
        } else {
            infos
        },
        _ => infos,
    }
}

/// Removes the parts that have one of two names.
fn remove_parts(infos: &mut Vec<TablePartInfo>, a: &str, b: &str)
    ensures
        table_part::info_views(final(infos)@) == without_parts(table_part::info_views(old(infos)@), a@, b@),
{
    let ghost views = table_part::info_views(infos@);
    let mut kept: Vec<TablePartInfo> = Vec::new();
    let mut i: usize = 0;
    assert(views.take(0) =~= Seq::<TablePartInfoView>::empty());
    assert(table_part::info_views(kept@) =~= Seq::<TablePartInfoView>::empty());
    while i < infos.len()
        invariant
            i <= infos@.len(),
            views == table_part::info_views(infos@),
            table_part::info_views(kept@) == without_parts(views.take(i as int), a@, b@),
        decreases infos@.len() - i,
    {
        let ghost before = table_part::info_views(kept@);
        assert(views[i as int] == infos@[i as int]@);
        assert(views.take(i + 1).drop_last() =~= views.take(i as int));
        if !same_text(infos[i].name.as_str(), a) && !same_text(infos[i].name.as_str(), b) {
            kept.push(infos[i].clone());
            assert(table_part::info_views(kept@) =~= before.push(views[i as int]));
        }
        i += 1;
    }
    assert(views.take(i as int) =~= views);
    *infos = kept;
}

impl PartMove {
    /// The replacing of two parts, before its first step.
    pub fn new(parts: &PartsToMerge, new_part: &TablePart) -> (r: Self)
        ensures
            r.part_1_info@ == parts.part_1_info@,
            r.part_2_info@ == parts.part_2_info@,
            r.new_info@ == new_part.info@,
            r.step == MoveStep::SetFirstAside,
    {
        PartMove {
            part_1_info: parts.part_1_info.clone(),
            part_2_info: parts.part_2_info.clone(),
            new_info: new_part.info.clone(),
            step: MoveStep::SetFirstAside,
        }
    }

    /// The name under which a part is set aside.
    pub fn old_name(name: &str) -> (r: String)
        ensures
            r@ == name@ + ".old"@,
    {
        concat2(name, ".old")
    }

    /// Goes on after a step that succeeded or failed.
    ///
    /// Renames old parts to `.old` suffix, updates in-memory index, moves new part,
    /// and cleans up old directories. Rolls back on failure.
    pub fn advance(&mut self, infos: &mut Vec<TablePartInfo>, succeeded: bool)
        ensures
            final(self).step == step_after(old(self).step, succeeded),
            final(self).part_1_info == old(self).part_1_info,
            final(self).part_2_info == old(self).part_2_info,
            final(self).new_info == old(self).new_info,
            table_part::info_views(final(infos)@) == infos_after(
                old(self).part_1_info@,
                old(self).part_2_info@,
                old(self).new_info@,
                old(self).step,
                succeeded,
                table_part::info_views(old(infos)@),
            ),
    {
        let ghost views = table_part::info_views(infos@);
        let step = self.step;
        self.step = match step {
            MoveStep::SetFirstAside => if succeeded {
                MoveStep::SetSecondAside
            } else {
                MoveStep::Abandoned
            },
            MoveStep::SetSecondAside => if succeeded {
                remove_parts(infos, self.part_1_info.name.as_str(), self.part_2_info.name.as_str());
                let ghost before = table_part::info_views(infos@);
                infos.push(self.new_info.clone());
                assert(table_part::info_views(infos@) =~= before.push(self.new_info@));
                MoveStep::MoveNew
            } else {
                MoveStep::PutFirstBack
            },
            MoveStep::PutFirstBack => MoveStep::Abandoned,
            MoveStep::MoveNew => {
                let renamed: Result<(), String> = if succeeded {
                    Ok(())
                } else {
                    Err("".to_owned())
                };
                let _ = table_part::finish_move(infos, self.new_info.name.as_str(), renamed);
                if succeeded {
                    MoveStep::RemoveFirst
                } else {
                    MoveStep::RestoreFirst
                }
            },
            MoveStep::RestoreFirst => {
                if succeeded {
                    infos.push(self.part_1_info.clone());
                    assert(table_part::info_views(infos@) =~= views.push(self.part_1_info@));
                }
                MoveStep::RestoreSecond
            },
            MoveStep::RestoreSecond => {
                if succeeded {
                    infos.push(self.part_2_info.clone());
                    assert(table_part::info_views(infos@) =~= views.push(self.part_2_info@));
                }
                MoveStep::Abandoned
            },
            MoveStep::RemoveFirst => MoveStep::RemoveSecond,
            MoveStep::RemoveSecond => MoveStep::Replaced,
            MoveStep::Replaced => MoveStep::Replaced,
            MoveStep::Abandoned => MoveStep::Abandoned,
        };
    }
}

/// The step and the parts of the table after steps with given outcomes.
pub open spec fn run_move(
    part_1: TablePartInfoView,
    part_2: TablePartInfoView,
    new: TablePartInfoView,
    step: MoveStep,
    infos: Seq<TablePartInfoView>,
    outcomes: Seq<bool>,
) -> (MoveStep, Seq<TablePartInfoView>)
    decreases outcomes.len(),
{
    if outcomes.len() == 0 {
        (step, infos)
    } else {
        run_move(
            part_1,
            part_2,
            new,
            step_after(step, outcomes[0]),
            infos_after(part_1, part_2, new, step, outcomes[0], infos),
            outcomes.drop_first(),
        )
    }
}

/// Where every step succeeds, the table has its other parts and, behind them, the new part in place
/// of the two, whether or not the directories that were set aside could be removed.
pub proof fn lemma_move_replaces_parts(
    part_1: TablePartInfoView,
    part_2: TablePartInfoView,
    new: TablePartInfoView,
    infos: Seq<TablePartInfoView>,
    removed_1: bool,
    removed_2: bool,
)
    ensures
        run_move(
            part_1,
            part_2,
            new,
            MoveStep::SetFirstAside,
            infos,
            seq![true, true, true, removed_1, removed_2],
        ) == (MoveStep::Replaced, without_parts(infos, part_1.name@, part_2.name@).push(new)),
{
    let o = seq![true, true, true, removed_1, removed_2];
    assert(o.drop_first() =~= seq![true, true, removed_1, removed_2]);
    assert(o.drop_first().drop_first() =~= seq![true, removed_1, removed_2]);
    assert(o.drop_first().drop_first().drop_first() =~= seq![removed_1, removed_2]);
    assert(o.drop_first().drop_first().drop_first().drop_first() =~= seq![removed_2]);
    assert(seq![removed_2].drop_first() =~= Seq::<bool>::empty());
    reveal_with_fuel(run_move, 6);
}

/// Where one of the two parts cannot be set aside, the table has the parts that it had.
pub proof fn lemma_part_not_set_aside_changes_nothing(
    part_1: TablePartInfoView,
    part_2: TablePartInfoView,
    new: TablePartInfoView,
    infos: Seq<TablePartInfoView>,
    put_back: bool,
)
    ensures
        run_move(part_1, part_2, new, MoveStep::SetFirstAside, infos, seq![false]) == (
            MoveStep::Abandoned,
            infos,
        ),
        run_move(part_1, part_2, new, MoveStep::SetFirstAside, infos, seq![true, false, put_back]) == (
            MoveStep::Abandoned,
            infos,
        ),
{
    assert(seq![false].drop_first() =~= Seq::<bool>::empty());
    let o = seq![true, false, put_back];
    assert(o.drop_first() =~= seq![false, put_back]);
    assert(o.drop_first().drop_first() =~= seq![put_back]);
    assert(seq![put_back].drop_first() =~= Seq::<bool>::empty());
    reveal_with_fuel(run_move, 4);
}

/// Where the new part cannot be moved, the table has its other parts and those of the two parts that
/// could be put back; the new part is not among them.
pub proof fn lemma_failed_move_puts_parts_back(
    part_1: TablePartInfoView,
    part_2: TablePartInfoView,
    new: TablePartInfoView,
    infos: Seq<TablePartInfoView>,
)
    ensures
        run_move(
            part_1,
            part_2,
            new,
            MoveStep::SetFirstAside,
            infos,
            seq![true, true, false, true, true],
        ) == (
            MoveStep::Abandoned,
            without_parts(infos, part_1.name@, part_2.name@).push(part_1).push(part_2),
        ),
{
    let o = seq![true, true, false, true, true];
    assert(o.drop_first() =~= seq![true, false, true, true]);
    assert(o.drop_first().drop_first() =~= seq![false, true, true]);
    assert(o.drop_first().drop_first().drop_first() =~= seq![true, true]);
    assert(o.drop_first().drop_first().drop_first().drop_first() =~= seq![true]);
    assert(seq![true].drop_first() =~= Seq::<bool>::empty());
    reveal_with_fuel(run_move, 6);
    let others = without_parts(infos, part_1.name@, part_2.name@);
    table_part::lemma_failed_move_changes_nothing(others, new);
}

} // verus!
