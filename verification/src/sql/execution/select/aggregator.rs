//! Collecting the rows of a query, by group where it has groups.
use vstd::prelude::*;
use vstd::string::*;

use crate::error::{Error, ErrorView, Outcome};
use crate::search;
use crate::sql::logical_plan::plan::{AggregateFunction, AggregateProjection};
use crate::sql::projection;
use crate::sql::projection::{Projection, ProjectionValue};
use crate::sql::sql_parser;
use crate::storage::column;
use crate::storage::column::{OutputColumn, OutputColumnView};
use crate::storage::numbers::{NumberReading, Numbers};
use crate::storage::value;
use crate::storage::value::Value;
use crate::text::concat4;

verus! {

/// A function that makes one number of many.
#[derive(Debug, Clone, Copy, PartialEq, Eq, Structural)]
pub enum FoldKind {
    Sum,
    Min,
    Max,
    Avg,
}

/// What was collected for a column: the numbers that a function is applied to, in the order of their
/// rows, a count, or the values themselves.
#[derive(Debug)]
pub enum RawData {
    Fold(FoldKind, Vec<Value>),
    Count(usize),
    Values(Vec<Value>),
}

/// What was collected for a column, with its list as a sequence.
#[verifier::ext_equal]
pub enum RawDataView {
    Fold(FoldKind, Seq<Value>),
    Count(usize),
    Values(Seq<Value>),
}

impl View for RawData {
    type V = RawDataView;

    open spec fn view(&self) -> RawDataView {
        match *self {
            RawData::Fold(kind, values) => RawDataView::Fold(kind, values@),
            RawData::Count(count) => RawDataView::Count(count),
            RawData::Values(values) => RawDataView::Values(values@),
        }
    }
}

impl Clone for RawData {
    fn clone(&self) -> (r: Self)
        ensures
            r@ == self@,
    {
        match self {
            RawData::Fold(kind, values) => RawData::Fold(*kind, column::clone_values(values.as_slice())),
            RawData::Count(count) => RawData::Count(*count),
            RawData::Values(values) => RawData::Values(column::clone_values(values.as_slice())),
        }
    }
}

/// What was collected after one more value. A count stays where it is once it cannot grow.
pub open spec fn value_added(data: RawDataView, v: Value) -> Result<RawDataView, ErrorView> {
    match data {
        RawDataView::Fold(kind, values) => if value::is_numeric(v) {
            Ok(RawDataView::Fold(kind, values.push(v)))
        } else {
            Err(ErrorView::InvalidColumnsSpecified)
        },
        RawDataView::Count(count) => Ok(
            RawDataView::Count(
                if count < usize::MAX {
                    (count + 1) as usize
                } else {
                    count
                },
            ),
        ),
        RawDataView::Values(values) => Ok(RawDataView::Values(values.push(v))),
    }
}

/// What was collected after the values from `i` on.
pub open spec fn values_added(data: RawDataView, values: Seq<Value>, i: int) -> Result<RawDataView, ErrorView>
    decreases values.len() - i,
{
    if i >= values.len() {
        Ok(data)
    } else {
        match value_added(data, values[i]) {
            Ok(data) => values_added(data, values, i + 1),
            Err(e) => Err(e),
        }
    }
}

impl RawData {
    /// Collects one more value.
    ///
    /// Returns: Ok or `InvalidColumnsSpecified` for a function of numbers and a value that is none.
    pub fn add_value(&mut self, val: &Value) -> (r: Outcome<()>)
        ensures
            match value_added(old(self)@, *val) {
                Ok(data) => r is Ok && final(self)@ == data,
                Err(e) => r is Err && r->Err_0@ == e && final(self)@ == old(self)@,
            },
    {
        match self {
            RawData::Fold(_, values) => {
                if !val.has_number() {
                    return Err(Error::InvalidColumnsSpecified);
                }
                values.push(val.clone());
            },
            RawData::Count(count) => {
                if *count < usize::MAX {
                    *count = *count + 1;
                }
            },
            RawData::Values(values) => {
                values.push(val.clone());
            },
        }
        Ok(())
    }
}

/// A column of the result while its rows are collected.
#[derive(Debug)]
pub struct RawColumn {
    pub alias: Option<String>,
    pub proj: Projection,
    pub data: RawData,
}

/// A column of the result while its rows are collected, with its list as a sequence.
#[verifier::ext_equal]
pub struct RawColumnView {
    pub alias: Option<String>,
    pub proj: Projection,
    pub data: RawDataView,
}

impl View for RawColumn {
    type V = RawColumnView;

    open spec fn view(&self) -> RawColumnView {
        RawColumnView { alias: self.alias, proj: self.proj, data: self.data@ }
    }
}

/// The columns of a list, with their lists as sequences.
pub open spec fn raw_views(columns: Seq<RawColumn>) -> Seq<RawColumnView> {
    columns.map_values(|c: RawColumn| c@)
}

/// The rows of a group: the values that they share and what was collected of them.
#[derive(Debug)]
pub struct Group {
    pub key: Vec<Value>,
    pub data: Vec<RawData>,
}

/// The rows of a group, with their lists as sequences.
#[verifier::ext_equal]
pub struct GroupView {
    pub key: Seq<Value>,
    pub data: Seq<RawDataView>,
}

/// What was collected for the columns of a list.
pub open spec fn data_views(data: Seq<RawData>) -> Seq<RawDataView> {
    data.map_values(|d: RawData| d@)
}

impl View for Group {
    type V = GroupView;

    open spec fn view(&self) -> GroupView {
        GroupView { key: self.key@, data: data_views(self.data@) }
    }
}

/// The groups of a list, with their lists as sequences.
pub open spec fn group_views(groups: Seq<Group>) -> Seq<GroupView> {
    groups.map_values(|g: Group| g@)
}

/// How the rows are collected.
#[allow(inconsistent_fields)]
#[derive(Debug)]
pub enum AggregatorFormat {
    Simple(Vec<RawColumn>),
    Aggregate {
        group_by_cols: Vec<RawColumn>,
        aggregate_cols: Vec<RawColumn>,
        /// In the order in which their first rows came.
        groups: Vec<Group>,
    },
}

/// How the rows are collected, with the lists as sequences.
#[allow(inconsistent_fields)]
#[verifier::ext_equal]
pub enum FormatView {
    Simple(Seq<RawColumnView>),
    Aggregate {
        group_by_cols: Seq<RawColumnView>,
        aggregate_cols: Seq<RawColumnView>,
        groups: Seq<GroupView>,
    },
}

impl View for AggregatorFormat {
    type V = FormatView;

    open spec fn view(&self) -> FormatView {
        match *self {
            AggregatorFormat::Simple(columns) => FormatView::Simple(raw_views(columns@)),
            AggregatorFormat::Aggregate { group_by_cols, aggregate_cols, groups } => FormatView::Aggregate {
                group_by_cols: raw_views(group_by_cols@),
                aggregate_cols: raw_views(aggregate_cols@),
                groups: group_views(groups@),
            },
        }
    }
}

/// Collects the rows of a query.
#[derive(Debug)]
pub struct Aggregator {
    pub format: AggregatorFormat,
}

impl View for Aggregator {
    type V = FormatView;

    open spec fn view(&self) -> FormatView {
        self.format@
    }
}

/// A column that collects the values of a projection.
pub open spec fn values_column(proj: Projection) -> RawColumnView {
    RawColumnView { alias: None, proj, data: RawDataView::Values(seq![]) }
}

/// A column that collects what a function is applied to.
pub open spec fn function_column(p: AggregateProjection) -> RawColumnView {
    match p.source {
        AggregateFunction::Sum(proj) => RawColumnView {
            alias: p.alias,
            proj: *proj,
            data: RawDataView::Fold(FoldKind::Sum, seq![]),
        },
        AggregateFunction::Min(proj) => RawColumnView {
            alias: p.alias,
            proj: *proj,
            data: RawDataView::Fold(FoldKind::Min, seq![]),
        },
        AggregateFunction::Max(proj) => RawColumnView {
            alias: p.alias,
            proj: *proj,
            data: RawDataView::Fold(FoldKind::Max, seq![]),
        },
        AggregateFunction::Count(proj) => RawColumnView {
            alias: p.alias,
            proj: *proj,
            data: RawDataView::Count(0),
        },
        AggregateFunction::Avg(proj) => RawColumnView {
            alias: p.alias,
            proj: *proj,
            data: RawDataView::Fold(FoldKind::Avg, seq![]),
        },
    }
}

/// The collection before the first row: by group where there are columns to group by, else of the
/// projections or, without any, of the functions.
pub open spec fn empty_format(
    projections: Seq<Projection>,
    aggregate_cols: Seq<AggregateProjection>,
    group_by: Seq<Projection>,
) -> FormatView {
    if group_by.len() == 0 {
        if projections.len() == 0 {
            FormatView::Simple(aggregate_cols.map_values(|p: AggregateProjection| function_column(p)))
        } else {
            FormatView::Simple(projections.map_values(|p: Projection| values_column(p)))
        }
    } else {
        FormatView::Aggregate {
            group_by_cols: group_by.map_values(|p: Projection| values_column(p)),
            aggregate_cols: aggregate_cols.map_values(|p: AggregateProjection| function_column(p)),
            groups: seq![],
        }
    }
}

/// The projections of columns.
pub open spec fn projs_of(columns: Seq<RawColumnView>) -> Seq<Projection> {
    columns.map_values(|c: RawColumnView| c.proj)
}

/// What has to be read for a collection.
pub open spec fn projs_to_read(format: FormatView) -> Seq<Projection> {
    match format {
        FormatView::Simple(columns) => projs_of(columns),
        FormatView::Aggregate { group_by_cols, aggregate_cols, groups } => projs_of(group_by_cols) + projs_of(
            aggregate_cols,
        ),
    }
}

/// The columns of a chunk, each as a sequence.
pub open spec fn chunk_view(chunk: Seq<Vec<Value>>) -> Seq<Seq<Value>> {
    chunk.map_values(|c: Vec<Value>| c@)
}

/// How many rows a chunk has: those of its first column.
pub open spec fn chunk_rows(chunk: Seq<Seq<Value>>) -> nat {
    if chunk.len() == 0 {
        0
    } else {
        chunk[0].len()
    }
}

/// The columns after those from `c` on have taken in their values of a chunk.
pub open spec fn columns_appended(columns: Seq<RawColumnView>, chunk: Seq<Seq<Value>>, c: int) -> Result<
    Seq<RawColumnView>,
    ErrorView,
>
    decreases columns.len() - c,
{
    if c < 0 || c >= columns.len() || c >= chunk.len() {
        Ok(columns)
    } else {
        match values_added(columns[c].data, chunk[c], 0) {
            Err(e) => Err(e),
            Ok(data) => columns_appended(
                columns.update(c, RawColumnView { alias: columns[c].alias, proj: columns[c].proj, data }),
                chunk,
                c + 1,
            ),
        }
    }
}

/// Whether two lists of values are equal, one by one.
pub open spec fn keys_eq(a: Seq<Value>, b: Seq<Value>) -> bool {
    a.len() == b.len() && forall|i: int| 0 <= i < a.len() ==> value::value_eq(#[trigger] a[i], b[i])
}

/// The property of having a given key.
pub open spec fn has_key(key: Seq<Value>) -> spec_fn(GroupView) -> bool {
    |g: GroupView| keys_eq(g.key, key)
}

/// The key of a row: its values in the columns that are grouped by.
pub open spec fn row_key(chunk: Seq<Seq<Value>>, keys: nat, row: int) -> Seq<Value> {
    Seq::new(keys, |k: int| chunk[k][row])
}

/// What was collected of a group after the functions from `a` on have taken in a row.
pub open spec fn row_added(
    data: Seq<RawDataView>,
    chunk: Seq<Seq<Value>>,
    keys: nat,
    row: int,
    a: int,
) -> Result<Seq<RawDataView>, ErrorView>
    decreases data.len() - a,
{
    if a < 0 || a >= data.len() {
        Ok(data)
    } else {
        match value_added(data[a], chunk[keys + a][row]) {
            Err(e) => Err(e),
            Ok(d) => row_added(data.update(a, d), chunk, keys, row, a + 1),
        }
    }
}

/// The groups with a group for a given key: a new one behind the others where none has it.
pub open spec fn with_group(groups: Seq<GroupView>, key: Seq<Value>, columns: Seq<RawColumnView>) -> Seq<GroupView> {
    match search::position(groups, has_key(key)) {
        Some(_) => groups,
        None => groups.push(GroupView { key, data: columns.map_values(|c: RawColumnView| c.data) }),
    }
}

/// Where the group for a given key stands among the groups with it.
pub open spec fn group_position(groups: Seq<GroupView>, key: Seq<Value>) -> int {
    match search::position(groups, has_key(key)) {
        Some(i) => i,
        None => groups.len() as int,
    }
}

/// The groups after the rows from `row` on.
pub open spec fn rows_added(
    groups: Seq<GroupView>,
    columns: Seq<RawColumnView>,
    chunk: Seq<Seq<Value>>,
    keys: nat,
    row: int,
) -> Result<Seq<GroupView>, ErrorView>
    decreases chunk_rows(chunk) - row,
{
    if row >= chunk_rows(chunk) {
        Ok(groups)
    } else {
        let key = row_key(chunk, keys, row);
        let all = with_group(groups, key, columns);
        let at = group_position(groups, key);
        match row_added(all[at].data, chunk, keys, row, 0) {
            Err(e) => Err(e),
            Ok(data) => rows_added(
                all.update(at, GroupView { key: all[at].key, data }),
                columns,
                chunk,
                keys,
                row + 1,
            ),
        }
    }
}

/// The collection after a chunk.
pub open spec fn chunk_appended(format: FormatView, chunk: Seq<Seq<Value>>) -> Result<FormatView, ErrorView> {
    if chunk_rows(chunk) == 0 {
        Ok(format)
    } else {
        match format {
            FormatView::Simple(columns) => match columns_appended(columns, chunk, 0) {
                Ok(columns) => Ok(FormatView::Simple(columns)),
                Err(e) => Err(e),
            },
            FormatView::Aggregate { group_by_cols, aggregate_cols, groups } => match rows_added(
                groups,
                aggregate_cols,
                chunk,
                group_by_cols.len(),
                0,
            ) {
                Ok(groups) => Ok(FormatView::Aggregate { group_by_cols, aggregate_cols, groups }),
                Err(e) => Err(e),
            },
        }
    }
}

/// Whether every group collects for every function.
pub open spec fn is_complete(format: FormatView) -> bool {
    match format {
        FormatView::Simple(_) => true,
        FormatView::Aggregate { group_by_cols, aggregate_cols, groups } => {
            &&& forall|i: int|
                0 <= i < groups.len() ==> (#[trigger] groups[i]).data.len() == aggregate_cols.len()
            &&& forall|i: int|
                0 <= i < groups.len() ==> (#[trigger] groups[i]).key.len() == group_by_cols.len()
            &&& forall|c: int| 0 <= c < group_by_cols.len() ==> (#[trigger] group_by_cols[c]).data is Values
            &&& forall|c: int| 0 <= c < aggregate_cols.len() ==> !((#[trigger] aggregate_cols[c]).data is Values)
            &&& forall|i: int, a: int|
                #![trigger groups[i].data[a]]
                0 <= i < groups.len() && 0 <= a < aggregate_cols.len() ==> !(groups[i].data[a] is Values)
        },
    }
}

/// Whether a chunk has the values that a collection takes in: where there are groups, a column for
/// each projection with a value for each row.
pub open spec fn chunk_fits(format: FormatView, chunk: Seq<Seq<Value>>) -> bool {
    match format {
        FormatView::Simple(_) => true,
        FormatView::Aggregate { group_by_cols, aggregate_cols, groups } => chunk_rows(chunk) == 0 || (chunk.len()
            == group_by_cols.len() + aggregate_cols.len() && forall|c: int|
            0 <= c < chunk.len() ==> (#[trigger] chunk[c]).len() >= chunk_rows(chunk)),
    }
}

fn create_aggregate_column(p: &AggregateProjection) -> (r: RawColumn)
    ensures
        r@ == function_column(*p),
{
    let alias = projection::clone_alias(&p.alias);
    match &p.source {
        AggregateFunction::Sum(proj) => RawColumn {
            alias,
            proj: (**proj).clone(),
            data: RawData::Fold(FoldKind::Sum, Vec::new()),
        },
        AggregateFunction::Min(proj) => RawColumn {
            alias,
            proj: (**proj).clone(),
            data: RawData::Fold(FoldKind::Min, Vec::new()),
        },
        AggregateFunction::Max(proj) => RawColumn {
            alias,
            proj: (**proj).clone(),
            data: RawData::Fold(FoldKind::Max, Vec::new()),
        },
        AggregateFunction::Count(proj) => RawColumn {
            alias,
            proj: (**proj).clone(),
            data: RawData::Count(0),
        },
        AggregateFunction::Avg(proj) => RawColumn {
            alias,
            proj: (**proj).clone(),
            data: RawData::Fold(FoldKind::Avg, Vec::new()),
        },
    }
}

fn value_columns(projections: &Vec<Projection>) -> (r: Vec<RawColumn>)
    ensures
        raw_views(r@) == projections@.map_values(|p: Projection| values_column(p)),
{
    let mut r: Vec<RawColumn> = Vec::new();
    let mut i: usize = 0;
    while i < projections.len()
        invariant
            i <= projections@.len(),
            r@.len() == i,
            forall|k: int| 0 <= k < i ==> (#[trigger] r@[k])@ == values_column(projections@[k]),
        decreases projections@.len() - i,
    {
        r.push(
            RawColumn {
                alias: None,
                proj: projections[i].clone(),
                data: RawData::Values(Vec::new()),
            },
        );
        i += 1;
    }
    assert(raw_views(r@) =~= projections@.map_values(|p: Projection| values_column(p)));
    r
}

fn function_columns(aggregates: &Vec<AggregateProjection>) -> (r: Vec<RawColumn>)
    ensures
        raw_views(r@) == aggregates@.map_values(|p: AggregateProjection| function_column(p)),
{
    let mut r: Vec<RawColumn> = Vec::new();
    let mut i: usize = 0;
    while i < aggregates.len()
        invariant
            i <= aggregates@.len(),
            r@.len() == i,
            forall|k: int| 0 <= k < i ==> (#[trigger] r@[k])@ == function_column(aggregates@[k]),
        decreases aggregates@.len() - i,
    {
        r.push(create_aggregate_column(&aggregates[i]));
        i += 1;
    }
    assert(raw_views(r@) =~= aggregates@.map_values(|p: AggregateProjection| function_column(p)));
    r
}

/// Appends the projections of columns.
fn push_projections(projections: &mut Vec<Projection>, columns: &Vec<RawColumn>)
    ensures
        final(projections)@ == old(projections)@ + projs_of(raw_views(columns@)),
{
    let ghost before = projections@;
    let ghost all = projs_of(raw_views(columns@));
    let mut i: usize = 0;
    assert(before + all.take(0) =~= before);
    while i < columns.len()
        invariant
            i <= columns@.len(),
            all == projs_of(raw_views(columns@)),
            projections@ == before + all.take(i as int),
        decreases columns@.len() - i,
    {
        projections.push(columns[i].proj.clone());
        i += 1;
        assert(before + all.take(i as int) =~= (before + all.take(i - 1)).push(all[i - 1]));
    }
    assert(all.take(i as int) =~= all);
}

/// Whether two lists of values are equal, one by one.
fn same_key(a: &Vec<Value>, b: &Vec<Value>) -> (r: bool)
    ensures
        r == keys_eq(a@, b@),
{
    if a.len() != b.len() {
        return false;
    }
    let mut i: usize = 0;
    while i < a.len()
        invariant
            i <= a@.len(),
            a@.len() == b@.len(),
            forall|k: int| 0 <= k < i ==> value::value_eq(#[trigger] a@[k], b@[k]),
        decreases a@.len() - i,
    {
        if !(a[i] == b[i]) {
            return false;
        }
        i += 1;
    }
    true
}

/// Takes in the values of one column.
fn append_column(data: &mut RawData, values: &Vec<Value>) -> (r: Outcome<()>)
    ensures
        match values_added(old(data)@, values@, 0) {
            Ok(d) => r is Ok && final(data)@ == d,
            Err(e) => r is Err && r->Err_0@ == e,
        },
{
    let mut i: usize = 0;
    while i < values.len()
        invariant
            i <= values@.len(),
            values_added(old(data)@, values@, 0) == values_added(data@, values@, i as int),
        decreases values@.len() - i,
    {
        match data.add_value(&values[i]) {
            Ok(_) => {},
            Err(e) => return Err(e),
        }
        i += 1;
    }
    Ok(())
}

/// Takes in the values of a chunk, column by column.
fn append_columns(columns: &mut Vec<RawColumn>, chunk: &Vec<Vec<Value>>) -> (r: Outcome<()>)
    ensures
        match columns_appended(raw_views(old(columns)@), chunk_view(chunk@), 0) {
            Ok(c) => r is Ok && raw_views(final(columns)@) == c,
            Err(e) => r is Err && r->Err_0@ == e,
        },
{
    let ghost start = raw_views(columns@);
    let ghost cv = chunk_view(chunk@);
    let mut c: usize = 0;
    while c < columns.len() && c < chunk.len()
        invariant
            start == raw_views(old(columns)@),
            cv == chunk_view(chunk@),
            c <= columns@.len(),
            columns_appended(start, cv, 0) == columns_appended(raw_views(columns@), cv, c as int),
        decreases columns@.len() - c,
    {
        let ghost before = raw_views(columns@);
        let ghost held = columns@;
        assert(before[c as int] == columns@[c as int]@);
        assert(cv[c as int] == chunk@[c as int]@);
        match append_column(&mut columns[c].data, &chunk[c]) {
            Ok(_) => {
                assert(raw_views(columns@) =~= before.update(
                    c as int,
                    RawColumnView {
                        alias: before[c as int].alias,
                        proj: before[c as int].proj,
                        data: columns@[c as int].data@,
                    },
                ));
            },
            Err(e) => return Err(e),
        }
        c += 1;
    }
    Ok(())
}

/// The key of a row.
fn key_of_row(chunk: &Vec<Vec<Value>>, keys: usize, row: usize) -> (r: Vec<Value>)
    requires
        keys <= chunk@.len(),
        forall|c: int| 0 <= c < keys ==> row < (#[trigger] chunk@[c])@.len(),
    ensures
        r@ == row_key(chunk_view(chunk@), keys as nat, row as int),
{
    let mut key: Vec<Value> = Vec::new();
    let mut k: usize = 0;
    while k < keys
        invariant
            k <= keys <= chunk@.len(),
            forall|c: int| 0 <= c < keys ==> row < (#[trigger] chunk@[c])@.len(),
            key@.len() == k,
            forall|m: int| 0 <= m < k ==> #[trigger] key@[m] == chunk@[m]@[row as int],
        decreases keys - k,
    {
        key.push(chunk[k][row].clone());
        k += 1;
    }
    assert(key@ =~= row_key(chunk_view(chunk@), keys as nat, row as int));
    key
}

/// The position of the group with a key; adds the group where there is none.
fn find_group(groups: &mut Vec<Group>, key: Vec<Value>, columns: &Vec<RawColumn>) -> (r: usize)
    ensures
        group_views(final(groups)@) == with_group(group_views(old(groups)@), key@, raw_views(columns@)),
        r == group_position(group_views(old(groups)@), key@),
        r < final(groups)@.len(),
{
    let ghost views = group_views(groups@);
    let mut i: usize = 0;
    while i < groups.len()
        invariant
            i <= groups@.len(),
            groups@ == old(groups)@,
            views == group_views(groups@),
            search::position(views, has_key(key@)) == search::position_from(views, has_key(key@), i as int),
        decreases groups@.len() - i,
    {
        assert(views[i as int] == groups@[i as int]@);
        if same_key(&groups[i].key, &key) {
            return i;
        }
        i += 1;
    }
    let mut data: Vec<RawData> = Vec::new();
    let mut c: usize = 0;
    while c < columns.len()
        invariant
            c <= columns@.len(),
            data@.len() == c,
            forall|k: int| 0 <= k < c ==> (#[trigger] data@[k])@ == columns@[k].data@,
        decreases columns@.len() - c,
    {
        data.push(columns[c].data.clone());
        c += 1;
    }
    let group = Group { key, data };
    proof {
        assert(data_views(data@) =~= raw_views(columns@).map_values(|c: RawColumnView| c.data));
    }
    groups.push(group);
    assert(group_views(groups@) =~= views.push(group@));
    i
}

/// Takes in a row of a group.
fn append_row(data: &mut Vec<RawData>, chunk: &Vec<Vec<Value>>, keys: usize, row: usize) -> (r: Outcome<()>)
    requires
        keys + old(data)@.len() <= chunk@.len(),
        forall|c: int| 0 <= c < chunk@.len() ==> row < (#[trigger] chunk@[c])@.len(),
    ensures
        match row_added(data_views(old(data)@), chunk_view(chunk@), keys as nat, row as int, 0) {
            Ok(d) => r is Ok && data_views(final(data)@) == d,
            Err(e) => r is Err && r->Err_0@ == e,
        },
{
    let ghost start = data_views(data@);
    let ghost cv = chunk_view(chunk@);
    let ghost n = data@.len();
    let mut a: usize = 0;
    while a < data.len()
        invariant
            start == data_views(old(data)@),
            cv == chunk_view(chunk@),
            a <= data@.len(),
            data@.len() == n,
            keys + n <= chunk@.len(),
            forall|c: int| 0 <= c < chunk@.len() ==> row < (#[trigger] chunk@[c])@.len(),
            row_added(start, cv, keys as nat, row as int, 0) == row_added(
                data_views(data@),
                cv,
                keys as nat,
                row as int,
                a as int,
            ),
        decreases data@.len() - a,
    {
        let ghost before = data_views(data@);
        assert(before[a as int] == data@[a as int]@);
        let column_count: usize = chunk.len();
        assert(keys + a < column_count);
        assert(cv[keys + a] == chunk@[keys + a]@);
        match data[a].add_value(&chunk[keys + a][row]) {
            Ok(_) => {
                assert(data_views(data@) =~= before.update(a as int, data@[a as int]@));
            },
            Err(e) => return Err(e),
        }
        a += 1;
    }
    Ok(())
}

/// Adding a row keeps how many functions a group collects for, and that none of them collects values.
proof fn lemma_row_added_shape(data: Seq<RawDataView>, chunk: Seq<Seq<Value>>, keys: nat, row: int, a: int)
    requires
        0 <= a,
    ensures
        row_added(data, chunk, keys, row, a) matches Ok(d) ==> d.len() == data.len() && ((forall|k: int|
            0 <= k < data.len() ==> !(#[trigger] data[k] is Values)) ==> (forall|k: int|
            0 <= k < d.len() ==> !(#[trigger] d[k] is Values))),
    decreases data.len() - a,
{
    if a < data.len() {
        if let Ok(d) = value_added(data[a], chunk[keys + a][row]) {
            lemma_row_added_shape(data.update(a, d), chunk, keys, row, a + 1);
        }
    }
}

/// Takes in the rows of a chunk, group by group.
#[verifier::rlimit(40)]
fn append_rows(groups: &mut Vec<Group>, columns: &Vec<RawColumn>, chunk: &Vec<Vec<Value>>, keys: usize) -> (r: Outcome<
    (),
>)
    requires
        chunk@.len() == keys + columns@.len(),
        chunk@.len() > 0,
        forall|c: int| 0 <= c < chunk@.len() ==> (#[trigger] chunk@[c])@.len() >= chunk_rows(chunk_view(chunk@)),
        forall|i: int| 0 <= i < old(groups)@.len() ==> (#[trigger] old(groups)@[i]).data@.len() == columns@.len(),
    ensures
        match rows_added(
            group_views(old(groups)@),
            raw_views(columns@),
            chunk_view(chunk@),
            keys as nat,
            0,
        ) {
            Ok(g) => r is Ok && group_views(final(groups)@) == g,
            Err(e) => r is Err && r->Err_0@ == e,
        },
{
    let ghost start = group_views(groups@);
    let ghost cv = chunk_view(chunk@);
    let ghost cols = raw_views(columns@);
    assert(cv[0] == chunk@[0]@);
    let num_rows: usize = chunk[0].len();
    let mut row: usize = 0;
    while row < num_rows
        invariant
            row <= num_rows,
            num_rows == chunk_rows(cv),
            start == group_views(old(groups)@),
            cv == chunk_view(chunk@),
            cols == raw_views(columns@),
            chunk@.len() == keys + columns@.len(),
            forall|c: int| 0 <= c < chunk@.len() ==> (#[trigger] chunk@[c])@.len() >= num_rows,
            forall|i: int| 0 <= i < groups@.len() ==> (#[trigger] groups@[i]).data@.len() == columns@.len(),
            rows_added(start, cols, cv, keys as nat, 0) == rows_added(
                group_views(groups@),
                cols,
                cv,
                keys as nat,
                row as int,
            ),
        decreases num_rows - row,
    {
        let ghost before = group_views(groups@);
        let ghost was = groups@;
        let key = key_of_row(chunk, keys, row);
        let ghost k = key@;
        let at: usize = find_group(groups, key, columns);
        let ghost all = group_views(groups@);
        proof {
            assert forall|i: int| 0 <= i < groups@.len() implies (#[trigger] groups@[i]).data@.len() == columns@.len() by {
                assert(all[i] == groups@[i]@);
                if i < was.len() {
                    assert(before[i] == was[i]@);
                    assert(all[i] == before[i]);
                    assert(data_views(groups@[i].data@).len() == data_views(was[i].data@).len());
                } else {
                    assert(search::position(before, has_key(k)) is None);
                    assert(all[i] == all.last());
                    assert(all.last().data == cols.map_values(|c: RawColumnView| c.data));
                    assert(data_views(groups@[i].data@).len() == cols.len());
                }
            }
            assert(all[at as int] == groups@[at as int]@);
        }
        let ghost held = groups@;
        match append_row(&mut groups[at].data, chunk, keys, row) {
            Ok(_) => {
                proof {
                    lemma_row_added_shape(data_views(held[at as int].data@), cv, keys as nat, row as int, 0);
                    assert(data_views(groups@[at as int].data@).len() == data_views(held[at as int].data@).len());
                    assert(group_views(groups@) =~= all.update(
                        at as int,
                        GroupView { key: all[at as int].key, data: data_views(groups@[at as int].data@) },
                    ));
                }
            },
            Err(e) => return Err(e),
        }
        row += 1;
    }
    Ok(())
}

impl Aggregator {
    /// The collection before the first row.
    pub fn new(
        projections: &Vec<Projection>,
        aggregate_cols: &Vec<AggregateProjection>,
        group_by: &Vec<Projection>,
    ) -> (r: Self)
        ensures
            r@ == empty_format(projections@, aggregate_cols@, group_by@),
            is_complete(r@),
    {
        if group_by.len() == 0 {
            let columns = if projections.len() == 0 {
                function_columns(aggregate_cols)
            } else {
                value_columns(projections)
            };
            Aggregator { format: AggregatorFormat::Simple(columns) }
        } else {
            let groups: Vec<Group> = Vec::new();
            assert(group_views(groups@) =~= Seq::<GroupView>::empty());
            Aggregator {
                format: AggregatorFormat::Aggregate {
                    group_by_cols: value_columns(group_by),
                    aggregate_cols: function_columns(aggregate_cols),
                    groups,
                },
            }
        }
    }

    /// What has to be read.
    pub fn get_projs_to_read(&self) -> (r: Vec<Projection>)
        ensures
            r@ == projs_to_read(self@),
    {
        let mut r: Vec<Projection> = Vec::new();
        match &self.format {
            AggregatorFormat::Simple(columns) => {
                push_projections(&mut r, columns);
                assert(r@ =~= projs_to_read(self@));
            },
            AggregatorFormat::Aggregate { group_by_cols, aggregate_cols, groups: _ } => {
                push_projections(&mut r, group_by_cols);
                push_projections(&mut r, aggregate_cols);
                assert(r@ =~= projs_to_read(self@));
            },
        }
        r
    }

    /// Whether a chunk has the values that are taken in.
    pub fn can_append(&self, chunk: &Vec<Vec<Value>>) -> (r: bool)
        ensures
            r == chunk_fits(self@, chunk_view(chunk@)),
    {
        let ghost cv = chunk_view(chunk@);
        match &self.format {
            AggregatorFormat::Simple(_) => true,
            AggregatorFormat::Aggregate { group_by_cols, aggregate_cols, groups: _ } => {
                if chunk.len() == 0 {
                    return true;
                }
                assert(cv[0] == chunk@[0]@);
                let num_rows: usize = chunk[0].len();
                if num_rows == 0 {
                    return true;
                }
                if chunk.len() < group_by_cols.len() || chunk.len() - group_by_cols.len() != aggregate_cols.len() {
                    return false;
                }
                let mut c: usize = 0;
                while c < chunk.len()
                    invariant
                        c <= chunk@.len(),
                        cv == chunk_view(chunk@),
                        num_rows == chunk_rows(cv),
                        num_rows > 0,
                        self@ matches FormatView::Aggregate { .. },
                        forall|k: int| 0 <= k < c ==> (#[trigger] cv[k]).len() >= num_rows,
                    decreases chunk@.len() - c,
                {
                    assert(cv[c as int] == chunk@[c as int]@);
                    if chunk[c].len() < num_rows {
                        return false;
                    }
                    c += 1;
                }
                true
            },
        }
    }

    /// Takes in a chunk.
    ///
    /// Returns: how many rows it has, or `InvalidColumnsSpecified` where a function of numbers met a
    /// value that is none.
    pub fn append_chunk(&mut self, chunk: &Vec<Vec<Value>>) -> (r: Outcome<usize>)
        requires
            is_complete(old(self)@),
            chunk_fits(old(self)@, chunk_view(chunk@)),
        ensures
            match chunk_appended(old(self)@, chunk_view(chunk@)) {
                Ok(format) => r is Ok && r->Ok_0 == chunk_rows(chunk_view(chunk@)) && final(self)@ == format
                    && is_complete(final(self)@),
                Err(e) => r is Err && r->Err_0@ == e,
            },
    {
        let ghost cv = chunk_view(chunk@);
        if chunk.len() == 0 {
            return Ok(0);
        }
        assert(cv[0] == chunk@[0]@);
        let num_rows: usize = chunk[0].len();
        if num_rows == 0 {
            return Ok(0);
        }
        match &mut self.format {
            AggregatorFormat::Simple(columns) => match append_columns(columns, chunk) {
                Ok(_) => {},
                Err(e) => return Err(e),
            },
            AggregatorFormat::Aggregate { group_by_cols, aggregate_cols, groups } => {
                proof {
                    lemma_rows_added_shape(
                        group_views(groups@),
                        raw_views(aggregate_cols@),
                        cv,
                        group_by_cols@.len(),
                        0,
                    );
                    assert forall|i: int| 0 <= i < groups@.len() implies (#[trigger] groups@[i]).data@.len()
                        == aggregate_cols@.len() by {
                        assert(group_views(groups@)[i] == groups@[i]@);
                    }
                    assert forall|c: int| 0 <= c < chunk@.len() implies (#[trigger] chunk@[c])@.len()
                        >= chunk_rows(cv) by {
                        assert(cv[c] == chunk@[c]@);
                    }
                }
                match append_rows(groups, aggregate_cols, chunk, group_by_cols.len()) {
                    Ok(_) => {},
                    Err(e) => return Err(e),
                }
            },
        }
        Ok(num_rows)
    }
}

/// Whether groups collect for every function and none of them collects values.
pub open spec fn groups_shape(groups: Seq<GroupView>, columns: nat, keys: nat) -> bool {
    &&& forall|i: int| 0 <= i < groups.len() ==> (#[trigger] groups[i]).data.len() == columns
    &&& forall|i: int| 0 <= i < groups.len() ==> (#[trigger] groups[i]).key.len() == keys
    &&& forall|i: int, a: int|
        #![trigger groups[i].data[a]]
        0 <= i < groups.len() && 0 <= a < columns ==> !(groups[i].data[a] is Values)
}

/// Taking in rows keeps the shape of the groups.
proof fn lemma_rows_added_shape(
    groups: Seq<GroupView>,
    columns: Seq<RawColumnView>,
    chunk: Seq<Seq<Value>>,
    keys: nat,
    row: int,
)
    requires
        groups_shape(groups, columns.len(), keys),
        forall|c: int| 0 <= c < columns.len() ==> !((#[trigger] columns[c]).data is Values),
        0 <= row,
    ensures
        rows_added(groups, columns, chunk, keys, row) matches Ok(g) ==> groups_shape(g, columns.len(), keys),
    decreases chunk_rows(chunk) - row,
{
    if row < chunk_rows(chunk) {
        let key = row_key(chunk, keys, row);
        let all = with_group(groups, key, columns);
        let at = group_position(groups, key);
        search::lemma_position(groups, has_key(key));
        assert(groups_shape(all, columns.len(), keys));
        lemma_row_added_shape(all[at].data, chunk, keys, row, 0);
        if let Ok(data) = row_added(all[at].data, chunk, keys, row, 0) {
            let next = all.update(at, GroupView { key: all[at].key, data });
            assert forall|k: int| 0 <= k < all[at].data.len() implies !(#[trigger] all[at].data[k] is Values) by {}
            assert(groups_shape(next, columns.len(), keys));
            lemma_rows_added_shape(next, columns, chunk, keys, row + 1);
        }
    }
}

/// The name of the function that a column collects for, where it collects for one.
pub open spec fn function_name(data: RawDataView) -> Seq<char> {
    match data {
        RawDataView::Fold(FoldKind::Sum, _) => "sum"@,
        RawDataView::Fold(FoldKind::Min, _) => "min"@,
        RawDataView::Fold(FoldKind::Max, _) => "max"@,
        RawDataView::Fold(FoldKind::Avg, _) => "avg"@,
        RawDataView::Count(_) => "count"@,
        RawDataView::Values(_) => ""@,
    }
}

/// The value that is shown for what was collected for a function: a count, or what the function
/// makes of the numbers, or nothing where there are none.
pub open spec fn is_cell<F: Fn(FoldKind, &Vec<Value>) -> u64>(fold: F, data: RawData, cell: Value) -> bool {
    match data {
        RawData::Fold(kind, values) => if values@.len() == 0 {
            cell == Value::Null
        } else {
            cell is F64 && call_ensures(fold, (kind, &values), cell->F64_0)
        },
        RawData::Count(count) => cell == Value::UInt64(count as u64),
        RawData::Values(_) => false,
    }
}

/// The projection of a column whose name is a text.
pub open spec fn is_labelled(proj: Projection, alias: Option<String>, label: Seq<char>) -> bool {
    &&& proj.alias == alias
    &&& proj.source matches ProjectionValue::Value(Value::String(s))
    &&& s@ == label
}

/// The projection of a column that is read, under the name that the column has in the result.
pub open spec fn renamed(column: RawColumnView) -> Projection {
    Projection { alias: column.alias, source: column.proj.source }
}

/// Whether a column of the result is what was collected for it.
pub open spec fn is_finished<F: Fn(FoldKind, &Vec<Value>) -> u64>(
    fold: F,
    column: RawColumn,
    readings: Seq<NumberReading>,
    out: OutputColumnView,
) -> bool {
    match column.data {
        RawData::Values(values) => out == (OutputColumnView { proj: renamed(column@), data: values@ }),
        _ => {
            &&& is_labelled(
                out.proj,
                column.alias,
                function_name(column.data@) + "("@ + sql_parser::projection_text(column.proj, readings) + ")"@,
            )
            &&& out.data.len() == 1
            &&& is_cell(fold, column.data, out.data[0])
        },
    }
}

/// Whether a column of the result is the column of a function over groups.
pub open spec fn is_grouped<F: Fn(FoldKind, &Vec<Value>) -> u64>(
    fold: F,
    column: RawColumn,
    groups: Seq<Group>,
    a: int,
    readings: Seq<NumberReading>,
    out: OutputColumnView,
) -> bool {
    &&& is_labelled(
        out.proj,
        column.alias,
        function_name(column.data@) + "("@ + sql_parser::source_text(column.proj.source, readings) + ")"@,
    )
    &&& out.data.len() == groups.len()
    &&& forall|g: int| 0 <= g < groups.len() ==> is_cell(fold, groups[g].data@[a], #[trigger] out.data[g])
}

/// Whether columns are the result of a collection.
pub open spec fn is_result<F: Fn(FoldKind, &Vec<Value>) -> u64>(
    fold: F,
    format: AggregatorFormat,
    readings: Seq<NumberReading>,
    out: Seq<OutputColumnView>,
) -> bool {
    match format {
        AggregatorFormat::Simple(columns) => {
            &&& out.len() == columns@.len()
            &&& forall|i: int| 0 <= i < out.len() ==> is_finished(fold, columns@[i], readings, #[trigger] out[i])
        },
        AggregatorFormat::Aggregate { group_by_cols, aggregate_cols, groups } => {
            let keys = group_by_cols@.len();
            &&& out.len() == keys + aggregate_cols@.len()
            &&& forall|i: int|
                0 <= i < keys ==> #[trigger] out[i] == (OutputColumnView {
                    proj: renamed(group_by_cols@[i]@),
                    data: Seq::new(groups@.len(), |g: int| groups@[g].key@[i]),
                })
            &&& forall|i: int|
                keys <= i < out.len() ==> if groups@.len() == 0 {
                    #[trigger] out[i] == (OutputColumnView {
                        proj: renamed(aggregate_cols@[i - keys]@),
                        data: seq![],
                    })
                } else {
                    is_grouped(fold, aggregate_cols@[i - keys], groups@, i - keys, readings, out[i])
                }
        },
    }
}

impl RawData {
    /// The name of the function that is collected for.
    pub fn get_fn_name(&self) -> (r: &'static str)
        ensures
            r@ == function_name(self@),
    {
        match self {
            RawData::Fold(kind, _) => match kind {
                FoldKind::Sum => "sum",
                FoldKind::Min => "min",
                FoldKind::Max => "max",
                FoldKind::Avg => "avg",
            },
            RawData::Count(_) => "count",
            RawData::Values(_) => "",
        }
    }

    /// The value that is shown for what was collected for a function.
    fn cell<F: Fn(FoldKind, &Vec<Value>) -> u64>(&self, fold: &F) -> (r: Value)
        requires
            !(self is Values),
            forall|kind: FoldKind, values: &Vec<Value>| #[trigger] call_requires(*fold, (kind, values)),
        ensures
            is_cell(*fold, *self, r),
    {
        match self {
            RawData::Fold(kind, values) => if values.len() == 0 {
                Value::Null
            } else {
                Value::F64(fold(*kind, values))
            },
            RawData::Count(count) => Value::UInt64(*count as u64),
            RawData::Values(_) => Value::Null,
        }
    }
}

impl RawColumn {
    /// The column of the result.
    fn finalize<F: Fn(FoldKind, &Vec<Value>) -> u64>(&self, fold: &F, numbers: &Numbers) -> (r: OutputColumn)
        requires
            forall|kind: FoldKind, values: &Vec<Value>| #[trigger] call_requires(*fold, (kind, values)),
        ensures
            is_finished(*fold, *self, numbers.readings@, r@),
    {
        match &self.data {
            RawData::Values(values) => OutputColumn {
                proj: self.renamed_projection(),
                data: column::clone_values(values.as_slice()),
            },
            _ => {
                let label = concat4(
                    self.data.get_fn_name(),
                    "(",
                    self.proj.to_text(numbers).as_str(),
                    ")",
                );
                let mut data: Vec<Value> = Vec::new();
                data.push(self.data.cell(fold));
                OutputColumn {
                    proj: Projection {
                        alias: projection::clone_alias(&self.alias),
                        source: ProjectionValue::Value(Value::String(label)),
                    },
                    data,
                }
            },
        }
    }

    fn renamed_projection(&self) -> (r: Projection)
        ensures
            r == renamed(self@),
    {
        Projection { alias: projection::clone_alias(&self.alias), source: self.proj.source.clone() }
    }
}

/// The values of one key of the groups.
fn key_values(groups: &Vec<Group>, k: usize) -> (r: Vec<Value>)
    requires
        forall|g: int| 0 <= g < groups@.len() ==> k < (#[trigger] groups@[g]).key@.len(),
    ensures
        r@ == Seq::new(groups@.len(), |g: int| groups@[g].key@[k as int]),
{
    let mut r: Vec<Value> = Vec::new();
    let mut g: usize = 0;
    while g < groups.len()
        invariant
            g <= groups@.len(),
            forall|g: int| 0 <= g < groups@.len() ==> k < (#[trigger] groups@[g]).key@.len(),
            r@.len() == g,
            forall|m: int| 0 <= m < g ==> #[trigger] r@[m] == groups@[m].key@[k as int],
        decreases groups@.len() - g,
    {
        r.push(groups[g].key[k].clone());
        g += 1;
    }
    assert(r@ =~= Seq::new(groups@.len(), |g: int| groups@[g].key@[k as int]));
    r
}

/// What is shown of the groups for one function.
fn function_values<F: Fn(FoldKind, &Vec<Value>) -> u64>(groups: &Vec<Group>, a: usize, fold: &F) -> (r: Vec<Value>)
    requires
        forall|g: int| 0 <= g < groups@.len() ==> a < (#[trigger] groups@[g]).data@.len(),
        forall|g: int| 0 <= g < groups@.len() ==> !((#[trigger] groups@[g]).data@[a as int] is Values),
        forall|kind: FoldKind, values: &Vec<Value>| #[trigger] call_requires(*fold, (kind, values)),
    ensures
        r@.len() == groups@.len(),
        forall|g: int| 0 <= g < groups@.len() ==> is_cell(*fold, groups@[g].data@[a as int], #[trigger] r@[g]),
{
    let mut r: Vec<Value> = Vec::new();
    let mut g: usize = 0;
    while g < groups.len()
        invariant
            g <= groups@.len(),
            forall|g: int| 0 <= g < groups@.len() ==> a < (#[trigger] groups@[g]).data@.len(),
            forall|g: int| 0 <= g < groups@.len() ==> !((#[trigger] groups@[g]).data@[a as int] is Values),
            forall|kind: FoldKind, values: &Vec<Value>| #[trigger] call_requires(*fold, (kind, values)),
            r@.len() == g,
            forall|m: int| 0 <= m < g ==> is_cell(*fold, groups@[m].data@[a as int], #[trigger] r@[m]),
        decreases groups@.len() - g,
    {
        r.push(groups[g].data[a].cell(fold));
        g += 1;
    }
    r
}

impl Aggregator {
    /// The columns of the result, where `fold` says which double-precision number, by its bits, a
    /// function makes of numbers.
    pub fn finalize<F: Fn(FoldKind, &Vec<Value>) -> u64>(self, fold: &F, numbers: &Numbers) -> (r: Vec<OutputColumn>)
        requires
            is_complete(self@),
            forall|kind: FoldKind, values: &Vec<Value>| #[trigger] call_requires(*fold, (kind, values)),
        ensures
            is_result(*fold, self.format, numbers.readings@, column::output_views(r@)),
    {
        let mut out: Vec<OutputColumn> = Vec::new();
        match &self.format {
            AggregatorFormat::Simple(columns) => {
                let mut i: usize = 0;
                while i < columns.len()
                    invariant
                        i <= columns@.len(),
                        forall|kind: FoldKind, values: &Vec<Value>|
                            #[trigger] call_requires(*fold, (kind, values)),
                        out@.len() == i,
                        forall|k: int|
                            0 <= k < i ==> is_finished(*fold, columns@[k], numbers.readings@, (#[trigger] out@[k])@),
                    decreases columns@.len() - i,
                {
                    out.push(columns[i].finalize(fold, numbers));
                    i += 1;
                }
            },
            AggregatorFormat::Aggregate { group_by_cols, aggregate_cols, groups } => {
                proof {
                    let gv = group_views(groups@);
                    assert forall|g: int| 0 <= g < groups@.len() implies (#[trigger] groups@[g]).key@.len()
                        == group_by_cols@.len() && groups@[g].data@.len() == aggregate_cols@.len() by {
                        assert(gv[g] == groups@[g]@);
                    }
                    assert forall|g: int, a: int| 0 <= g < groups@.len() && 0 <= a < aggregate_cols@.len()
                        implies !(#[trigger] groups@[g].data@[a] is Values) by {
                        assert(gv[g] == groups@[g]@);
                        assert(gv[g].data[a] == groups@[g].data@[a]@);
                    }
                }
                let keys: usize = group_by_cols.len();
                let mut i: usize = 0;
                while i < keys
                    invariant
                        i <= keys,
                        keys == group_by_cols@.len(),
                        forall|g: int| 0 <= g < groups@.len() ==> (#[trigger] groups@[g]).key@.len() == keys,
                        out@.len() == i,
                        forall|k: int|
                            0 <= k < i ==> (#[trigger] out@[k])@ == (OutputColumnView {
                                proj: renamed(group_by_cols@[k]@),
                                data: Seq::new(groups@.len(), |g: int| groups@[g].key@[k]),
                            }),
                    decreases keys - i,
                {
                    out.push(
                        OutputColumn {
                            proj: group_by_cols[i].renamed_projection(),
                            data: key_values(groups, i),
                        },
                    );
                    i += 1;
                }
                let mut a: usize = 0;
                while a < aggregate_cols.len()
                    invariant
                        a <= aggregate_cols@.len(),
                        keys == group_by_cols@.len(),
                        forall|kind: FoldKind, values: &Vec<Value>|
                            #[trigger] call_requires(*fold, (kind, values)),
                        forall|g: int|
                            0 <= g < groups@.len() ==> (#[trigger] groups@[g]).data@.len() == aggregate_cols@.len(),
                        forall|g: int, a: int|
                            0 <= g < groups@.len() && 0 <= a < aggregate_cols@.len()
                                ==> !(#[trigger] groups@[g].data@[a] is Values),
                        out@.len() == keys + a,
                        forall|k: int|
                            0 <= k < keys ==> (#[trigger] out@[k])@ == (OutputColumnView {
                                proj: renamed(group_by_cols@[k]@),
                                data: Seq::new(groups@.len(), |g: int| groups@[g].key@[k]),
                            }),
                        forall|k: int|
                            keys <= k < out@.len() ==> if groups@.len() == 0 {
                                (#[trigger] out@[k])@ == (OutputColumnView {
                                    proj: renamed(aggregate_cols@[k - keys]@),
                                    data: seq![],
                                })
                            } else {
                                is_grouped(
                                    *fold,
                                    aggregate_cols@[k - keys],
                                    groups@,
                                    k - keys,
                                    numbers.readings@,
                                    out@[k]@,
                                )
                            },
                    decreases aggregate_cols@.len() - a,
                {
                    if groups.len() == 0 {
                        let empty: Vec<Value> = Vec::new();
                        let col = OutputColumn { proj: aggregate_cols[a].renamed_projection(), data: empty };
                        assert(col@ == (OutputColumnView {
                            proj: renamed(aggregate_cols@[a as int]@),
                            data: seq![],
                        }));
                        out.push(col);
                    } else {
                        let label = concat4(
                            aggregate_cols[a].data.get_fn_name(),
                            "(",
                            aggregate_cols[a].proj.source.to_text(numbers).as_str(),
                            ")",
                        );
                        let col = OutputColumn {
                            proj: Projection {
                                alias: projection::clone_alias(&aggregate_cols[a].alias),
                                source: ProjectionValue::Value(Value::String(label)),
                            },
                            data: function_values(groups, a, fold),
                        };
                        assert(is_grouped(
                            *fold,
                            aggregate_cols@[a as int],
                            groups@,
                            a as int,
                            numbers.readings@,
                            col@,
                        ));
                        out.push(col);
                    }
                    a += 1;
                }
            },
        }
        proof {
            let ov = column::output_views(out@);
            assert forall|i: int| 0 <= i < ov.len() implies #[trigger] ov[i] == out@[i]@ by {}
        }
        out
    }
}

/// Whether no two groups have the same key.
pub open spec fn distinct_keys(groups: Seq<GroupView>) -> bool {
    forall|i: int, j: int|
        #![trigger groups[i], groups[j]]
        0 <= i < j < groups.len() ==> !keys_eq(groups[i].key, groups[j].key)
}

/// Rows with one key are collected in one group: whatever rows are taken in, no two groups have the
/// same key.
pub proof fn lemma_groups_are_distinct(
    groups: Seq<GroupView>,
    columns: Seq<RawColumnView>,
    chunk: Seq<Seq<Value>>,
    keys: nat,
    row: int,
)
    requires
        distinct_keys(groups),
        0 <= row,
    ensures
        rows_added(groups, columns, chunk, keys, row) matches Ok(g) ==> distinct_keys(g),
    decreases chunk_rows(chunk) - row,
{
    if row < chunk_rows(chunk) {
        let key = row_key(chunk, keys, row);
        let all = with_group(groups, key, columns);
        let at = group_position(groups, key);
        search::lemma_position(groups, has_key(key));
        assert(distinct_keys(all)) by {
            assert forall|i: int, j: int|
                #![trigger all[i], all[j]]
                0 <= i < j < all.len() implies !keys_eq(all[i].key, all[j].key) by {
                if j == groups.len() {
                    assert(all[i] == groups[i]);
                    assert(!has_key(key)(groups[i]));
                } else {
                    assert(all[i] == groups[i] && all[j] == groups[j]);
                }
            }
        }
        if let Ok(data) = row_added(all[at].data, chunk, keys, row, 0) {
            let next = all.update(at, GroupView { key: all[at].key, data });
            assert forall|i: int, j: int|
                #![trigger next[i], next[j]]
                0 <= i < j < next.len() implies !keys_eq(next[i].key, next[j].key) by {
                assert(next[i].key == all[i].key && next[j].key == all[j].key);
            }
            lemma_groups_are_distinct(next, columns, chunk, keys, row + 1);
        }
    }
}

/// Without functions, the values of a column are collected as they come: none is lost or changed.
pub proof fn lemma_values_are_collected(held: Seq<Value>, values: Seq<Value>, i: int)
    requires
        0 <= i <= values.len(),
    ensures
        values_added(RawDataView::Values(held), values, i) == Ok::<RawDataView, ErrorView>(
            RawDataView::Values(held + values.skip(i)),
        ),
    decreases values.len() - i,
{
    if i < values.len() {
        lemma_values_are_collected(held.push(values[i]), values, i + 1);
        assert(held.push(values[i]) + values.skip(i + 1) =~= held + values.skip(i));
    } else {
        assert(held + values.skip(i) =~= held);
    }
}

/// The values that a column of a chunk has in those of its first `n` rows that have a given key.
pub open spec fn picked(chunk: Seq<Seq<Value>>, keys: nat, c: int, key: Seq<Value>, n: int) -> Seq<Value>
    decreases n,
{
    if n <= 0 {
        seq![]
    } else if keys_eq(key, row_key(chunk, keys, n - 1)) {
        picked(chunk, keys, c, key, n - 1).push(chunk[c][n - 1])
    } else {
        picked(chunk, keys, c, key, n - 1)
    }
}

/// Whether a key is equal to itself: none of its values is a floating-point value that is no number.
pub open spec fn is_proper_key(key: Seq<Value>) -> bool {
    keys_eq(key, key)
}

/// What was collected for a function of a group before the rows of a chunk came.
pub open spec fn collected_before(
    groups: Seq<GroupView>,
    columns: Seq<RawColumnView>,
    g: int,
    a: int,
) -> RawDataView {
    if g < groups.len() {
        groups[g].data[a]
    } else {
        columns[a].data
    }
}

/// Whether groups hold what was collected before and what the first `n` rows of a chunk give: every
/// row is in the one group with its key, and a group holds the values of its rows in their order.
pub open spec fn groups_hold(
    before: Seq<GroupView>,
    columns: Seq<RawColumnView>,
    chunk: Seq<Seq<Value>>,
    keys: nat,
    n: int,
    groups: Seq<GroupView>,
) -> bool {
    &&& before.len() <= groups.len()
    &&& distinct_keys(groups)
    &&& forall|g: int|
        0 <= g < groups.len() ==> (#[trigger] groups[g]).data.len() == columns.len() && is_proper_key(groups[g].key)
    &&& forall|g: int| 0 <= g < before.len() ==> (#[trigger] groups[g]).key == before[g].key
    &&& forall|row: int| 0 <= row < n ==> has_group(groups, #[trigger] row_key(chunk, keys, row))
    &&& forall|g: int, a: int|
        0 <= g < groups.len() && 0 <= a < columns.len() ==> values_added(
            collected_before(before, columns, g, a),
            picked(chunk, keys, keys + a, groups[g].key, n),
            0,
        ) == Ok::<RawDataView, ErrorView>(#[trigger] groups[g].data[a])
}

/// Whether one of the groups has a given key.
pub open spec fn has_group(groups: Seq<GroupView>, key: Seq<Value>) -> bool {
    exists|g: int| 0 <= g < groups.len() && keys_eq((#[trigger] groups[g]).key, key)
}

proof fn lemma_keys_eq(a: Seq<Value>, b: Seq<Value>, c: Seq<Value>)
    ensures
        keys_eq(a, b) ==> keys_eq(b, a),
        keys_eq(a, b) && keys_eq(b, c) ==> keys_eq(a, c),
{
    if keys_eq(a, b) {
        assert forall|i: int| 0 <= i < b.len() implies value::value_eq(#[trigger] b[i], a[i]) by {
            assert(value::value_eq(a[i], b[i]));
        }
        if keys_eq(b, c) {
            assert forall|i: int| 0 <= i < a.len() implies value::value_eq(#[trigger] a[i], c[i]) by {
                assert(value::value_eq(b[i], c[i]));
            }
        }
    }
}

proof fn lemma_one_more_value(data: RawDataView, values: Seq<Value>, v: Value, i: int)
    requires
        0 <= i <= values.len(),
    ensures
        values_added(data, values.push(v), i) == (match values_added(data, values, i) {
            Ok(d) => value_added(d, v),
            Err(e) => Err(e),
        }),
    decreases values.len() - i,
{
    let more = values.push(v);
    if i < values.len() {
        assert(more[i] == values[i]);
        if let Ok(d) = value_added(data, values[i]) {
            lemma_one_more_value(d, values, v, i + 1);
        }
    } else {
        assert(more[i] == v);
        if let Ok(d) = value_added(data, v) {
            assert(values_added(d, more, i + 1) == Ok::<RawDataView, ErrorView>(d));
        }
    }
}

proof fn lemma_row_added(data: Seq<RawDataView>, chunk: Seq<Seq<Value>>, keys: nat, row: int, a: int)
    requires
        0 <= a <= data.len(),
    ensures
        row_added(data, chunk, keys, row, a) matches Ok(out) ==> {
            &&& out.len() == data.len()
            &&& forall|k: int| 0 <= k < a ==> #[trigger] out[k] == data[k]
            &&& forall|k: int|
                a <= k < data.len() ==> value_added(data[k], chunk[keys + k][row]) == Ok::<RawDataView, ErrorView>(
                    #[trigger] out[k],
                )
        },
    decreases data.len() - a,
{
    if a < data.len() {
        if let Ok(d) = value_added(data[a], chunk[keys + a][row]) {
            lemma_row_added(data.update(a, d), chunk, keys, row, a + 1);
            if let Ok(out) = row_added(data, chunk, keys, row, a) {
                assert(out[a] == data.update(a, d)[a]);
                assert forall|k: int| a <= k < data.len() implies value_added(data[k], chunk[keys + k][row]) == Ok::<
                    RawDataView,
                    ErrorView,
                >(#[trigger] out[k]) by {
                    if k > a {
                        assert(data.update(a, d)[k] == data[k]);
                    }
                }
            }
        }
    }
}

/// A key that no row has picks nothing.
proof fn lemma_nothing_picked(chunk: Seq<Seq<Value>>, keys: nat, c: int, key: Seq<Value>, n: int)
    requires
        forall|row: int| 0 <= row < n ==> !keys_eq(key, #[trigger] row_key(chunk, keys, row)),
    ensures
        picked(chunk, keys, c, key, n) == Seq::<Value>::empty(),
    decreases n,
{
    if n > 0 {
        lemma_nothing_picked(chunk, keys, c, key, n - 1);
    }
}

proof fn lemma_group_for_row(
    before: Seq<GroupView>,
    columns: Seq<RawColumnView>,
    chunk: Seq<Seq<Value>>,
    keys: nat,
    row: int,
    groups: Seq<GroupView>,
)
    requires
        0 <= row < chunk_rows(chunk),
        groups_hold(before, columns, chunk, keys, row, groups),
        is_proper_key(row_key(chunk, keys, row)),
    ensures
        ({
            let key = row_key(chunk, keys, row);
            let all = with_group(groups, key, columns);
            let at = group_position(groups, key);
            &&& groups_hold(before, columns, chunk, keys, row, all)
            &&& 0 <= at < all.len()
            &&& keys_eq(all[at].key, key)
            &&& forall|g: int| 0 <= g < all.len() && g != at ==> !keys_eq((#[trigger] all[g]).key, key)
        }),
{
    let key = row_key(chunk, keys, row);
    let all = with_group(groups, key, columns);
    let at = group_position(groups, key);
    search::lemma_position(groups, has_key(key));
    if search::position(groups, has_key(key)) is Some {
        assert(has_key(key)(groups[at]));
        assert forall|g: int| 0 <= g < all.len() && g != at implies !keys_eq((#[trigger] all[g]).key, key) by {
            if keys_eq(all[g].key, key) {
                lemma_keys_eq(all[at].key, key, all[g].key);
                lemma_keys_eq(all[g].key, key, all[at].key);
                lemma_keys_eq(key, all[g].key, all[g].key);
                lemma_keys_eq(key, all[at].key, all[at].key);
                if g < at {
                    assert(keys_eq(groups[g].key, groups[at].key));
                } else {
                    assert(keys_eq(groups[at].key, groups[g].key));
                }
            }
        }
    } else {
        let new = GroupView { key, data: columns.map_values(|c: RawColumnView| c.data) };
        assert(all == groups.push(new));
        assert forall|g: int| 0 <= g < groups.len() implies !keys_eq((#[trigger] all[g]).key, key) by {
            assert(!has_key(key)(groups[g]));
        }
        assert forall|r: int| 0 <= r < row implies !keys_eq(key, #[trigger] row_key(chunk, keys, r)) by {
            let earlier = row_key(chunk, keys, r);
            assert(has_group(groups, earlier));
            let g = choose|g: int| 0 <= g < groups.len() && keys_eq((#[trigger] groups[g]).key, earlier);
            assert(all[g] == groups[g]);
            if keys_eq(key, earlier) {
                lemma_keys_eq(key, earlier, key);
                lemma_keys_eq(groups[g].key, earlier, key);
            }
        }
        assert forall|r: int| 0 <= r < row implies has_group(all, #[trigger] row_key(chunk, keys, r)) by {
            let earlier = row_key(chunk, keys, r);
            assert(has_group(groups, earlier));
            let g = choose|g: int| 0 <= g < groups.len() && keys_eq((#[trigger] groups[g]).key, earlier);
            assert(all[g] == groups[g]);
        }
        assert(distinct_keys(all)) by {
            assert forall|i: int, j: int|
                #![trigger all[i], all[j]]
                0 <= i < j < all.len() implies !keys_eq(all[i].key, all[j].key) by {
                if j < groups.len() {
                    assert(all[i] == groups[i] && all[j] == groups[j]);
                }
            }
        }
        assert forall|g: int, a: int| 0 <= g < all.len() && 0 <= a < columns.len() implies values_added(
            collected_before(before, columns, g, a),
            picked(chunk, keys, keys + a, all[g].key, row),
            0,
        ) == Ok::<RawDataView, ErrorView>(#[trigger] all[g].data[a]) by {
            if g < groups.len() {
                assert(all[g] == groups[g]);
                assert(groups[g].data[a] == all[g].data[a]);
            } else {
                lemma_nothing_picked(chunk, keys, keys + a, key, row);
                assert(new.data[a] == columns[a].data);
            }
        }
        assert forall|g: int| 0 <= g < all.len() implies (#[trigger] all[g]).data.len() == columns.len()
            && is_proper_key(all[g].key) by {
            if g < groups.len() {
                assert(all[g] == groups[g]);
            }
        }
    }
}

proof fn lemma_rows_held(
    before: Seq<GroupView>,
    columns: Seq<RawColumnView>,
    chunk: Seq<Seq<Value>>,
    keys: nat,
    row: int,
    groups: Seq<GroupView>,
)
    requires
        0 <= row <= chunk_rows(chunk),
        forall|r: int| 0 <= r < chunk_rows(chunk) ==> is_proper_key(#[trigger] row_key(chunk, keys, r)),
        groups_hold(before, columns, chunk, keys, row, groups),
    ensures
        rows_added(groups, columns, chunk, keys, row) matches Ok(out) ==> groups_hold(
            before,
            columns,
            chunk,
            keys,
            chunk_rows(chunk) as int,
            out,
        ),
    decreases chunk_rows(chunk) - row,
{
    if row < chunk_rows(chunk) {
        let key = row_key(chunk, keys, row);
        let all = with_group(groups, key, columns);
        let at = group_position(groups, key);
        lemma_group_for_row(before, columns, chunk, keys, row, groups);
        if let Ok(data) = row_added(all[at].data, chunk, keys, row, 0) {
            lemma_row_added(all[at].data, chunk, keys, row, 0);
            let next = all.update(at, GroupView { key: all[at].key, data });
            assert(groups_hold(before, columns, chunk, keys, row + 1, next)) by {
                assert forall|g: int, a: int| 0 <= g < next.len() && 0 <= a < columns.len() implies values_added(
                    collected_before(before, columns, g, a),
                    picked(chunk, keys, keys + a, next[g].key, row + 1),
                    0,
                ) == Ok::<RawDataView, ErrorView>(#[trigger] next[g].data[a]) by {
                    assert(next[g].key == all[g].key);
                    let so_far = picked(chunk, keys, keys + a, all[g].key, row);
                    assert(values_added(collected_before(before, columns, g, a), so_far, 0) == Ok::<
                        RawDataView,
                        ErrorView,
                    >(all[g].data[a]));
                    if g == at {
                        lemma_one_more_value(
                            collected_before(before, columns, g, a),
                            so_far,
                            chunk[keys + a][row],
                            0,
                        );
                    } else {
                        assert(next[g] == all[g]);
                        assert(!keys_eq(all[g].key, key));
                    }
                }
                assert forall|r: int| 0 <= r < row + 1 implies has_group(next, #[trigger] row_key(chunk, keys, r)) by {
                    if r < row {
                        assert(has_group(all, row_key(chunk, keys, r)));
                        let g = choose|g: int|
                            0 <= g < all.len() && keys_eq((#[trigger] all[g]).key, row_key(chunk, keys, r));
                        assert(next[g].key == all[g].key);
                    } else {
                        assert(next[at].key == all[at].key);
                    }
                }
                assert forall|i: int, j: int|
                    #![trigger next[i], next[j]]
                    0 <= i < j < next.len() implies !keys_eq(next[i].key, next[j].key) by {
                    assert(next[i].key == all[i].key && next[j].key == all[j].key);
                }
                assert forall|g: int| 0 <= g < next.len() implies (#[trigger] next[g]).data.len() == columns.len()
                    && is_proper_key(next[g].key) by {
                    assert(next[g].key == all[g].key);
                    assert(all[g].data.len() == columns.len());
                }
                assert forall|g: int| 0 <= g < before.len() implies (#[trigger] next[g]).key == before[g].key by {
                    assert(next[g].key == all[g].key);
                }
            }
            lemma_rows_held(before, columns, chunk, keys, row + 1, next);
        }
    }
}

/// Whatever chunk is taken in, every row is in the one group with its key, and a group holds what it
/// held before and the values of its rows, in their order. Keys that hold a floating-point value that
/// is no number are left out: such a row makes a group of its own.
pub proof fn lemma_groups_hold_their_rows(
    before: Seq<GroupView>,
    columns: Seq<RawColumnView>,
    chunk: Seq<Seq<Value>>,
    keys: nat,
)
    requires
        distinct_keys(before),
        forall|g: int|
            0 <= g < before.len() ==> (#[trigger] before[g]).data.len() == columns.len() && is_proper_key(
                before[g].key,
            ),
        forall|r: int| 0 <= r < chunk_rows(chunk) ==> is_proper_key(#[trigger] row_key(chunk, keys, r)),
    ensures
        rows_added(before, columns, chunk, keys, 0) matches Ok(groups) ==> groups_hold(
            before,
            columns,
            chunk,
            keys,
            chunk_rows(chunk) as int,
            groups,
        ),
{
    assert(groups_hold(before, columns, chunk, keys, 0, before)) by {
        assert forall|g: int, a: int| 0 <= g < before.len() && 0 <= a < columns.len() implies values_added(
            collected_before(before, columns, g, a),
            picked(chunk, keys, keys + a, before[g].key, 0),
            0,
        ) == Ok::<RawDataView, ErrorView>(#[trigger] before[g].data[a]) by {
            assert(picked(chunk, keys, keys + a, before[g].key, 0) == Seq::<Value>::empty());
        }
    }
    lemma_rows_held(before, columns, chunk, keys, 0, before);
}

} // verus!
