//! Which rows of which granules a query reads.
use vstd::prelude::*;
use vstd::string::*;

use crate::error;
use crate::error::{Error, ErrorView, Outcome};
use crate::search;
use crate::sql::ast::Expr;
use crate::sql::compiled_filter;
use crate::sql::compiled_filter::CompiledFilter;
use crate::sql::debug_text;
use crate::sql::execution::select::scan;
use crate::sql::execution::select::scan::GranulePlace;
use crate::sql::execution::select::strategy::Strategy;
use crate::sql::logical_plan::insert;
use crate::storage::column;
use crate::storage::column::ColumnDef;
use crate::storage::numbers::{NumberReading, Numbers};
use crate::storage::table_metadata::{TableSchema, TableSchemaView};
use crate::storage::value::Value;

verus! {

/// Finds out which rows of which granules a query reads.
pub struct FilterLogic;

/// A granule of a part and which of its rows pass.
#[derive(Debug, PartialEq)]
pub struct Granule {
    pub granule_idx: usize,
    pub mask: Vec<bool>,
}

/// A granule of a part and which of its rows pass, as a sequence.
#[verifier::ext_equal]
pub struct GranuleView {
    pub granule_idx: usize,
    pub mask: Seq<bool>,
}

impl View for Granule {
    type V = GranuleView;

    open spec fn view(&self) -> GranuleView {
        GranuleView { granule_idx: self.granule_idx, mask: self.mask@ }
    }
}

/// The granules of a list, with their masks as sequences.
pub open spec fn granule_views(granules: Seq<Granule>) -> Seq<GranuleView> {
    granules.map_values(|g: Granule| g@)
}

/// The granules of parts, with their masks as sequences.
pub open spec fn parts_view(parts: Seq<Vec<Granule>>) -> Seq<Seq<GranuleView>> {
    parts.map_values(|p: Vec<Granule>| granule_views(p@))
}

/// A mask that lets every row pass.
pub open spec fn all_pass(rows: nat) -> Seq<bool> {
    Seq::new(rows, |i: int| true)
}

fn full_mask(rows: usize) -> (r: Vec<bool>)
    ensures
        r@ == all_pass(rows as nat),
{
    let mut r: Vec<bool> = Vec::new();
    let mut i: usize = 0;
    while i < rows
        invariant
            i <= rows,
            r@.len() == i,
            forall|k: int| 0 <= k < i ==> #[trigger] r@[k],
        decreases rows - i,
    {
        r.push(true);
        i += 1;
    }
    assert(r@ =~= all_pass(rows as nat));
    r
}

/// What is known of a part before its rows are read: its name, how many columns and granules it has,
/// and how many rows its last granule has.
pub struct PartOutline {
    pub name: String,
    pub column_count: usize,
    pub granule_count: usize,
    pub last_granule_rows: Outcome<usize>,
}

impl Clone for PartOutline {
    fn clone(&self) -> (r: Self)
        ensures
            r == *self,
    {
        PartOutline {
            name: self.name.clone(),
            column_count: self.column_count,
            granule_count: self.granule_count,
            last_granule_rows: match &self.last_granule_rows {
                Ok(rows) => Ok(*rows),
                Err(e) => Err(e.clone()),
            },
        }
    }
}

/// Whether every part has a granule.
pub open spec fn have_granules(parts: Seq<PartOutline>) -> bool {
    forall|p: int| 0 <= p < parts.len() ==> (#[trigger] parts[p]).granule_count > 0
}

/// Every granule of a part with all its rows: each but the last is full.
pub open spec fn whole_part(granules: nat, granularity: nat, last_rows: nat) -> Seq<GranuleView> {
    Seq::new(
        granules,
        |i: int|
            GranuleView {
                granule_idx: i as usize,
                mask: all_pass(
                    if i == granules - 1 {
                        last_rows
                    } else {
                        granularity
                    },
                ),
            },
    )
}

/// Every granule of the parts from `p` on, behind those before.
pub open spec fn whole_parts(
    parts: Seq<PartOutline>,
    granularity: nat,
    p: int,
    before: Seq<Seq<GranuleView>>,
) -> Result<Seq<Seq<GranuleView>>, ErrorView>
    decreases parts.len() - p,
{
    if p >= parts.len() {
        Ok(before)
    } else if parts[p].column_count == 0 {
        Err(ErrorView::PartDoesNotHaveColumns(parts[p].name@))
    } else {
        match parts[p].last_granule_rows {
            Err(e) => Err(e@),
            Ok(rows) => whole_parts(
                parts,
                granularity,
                p + 1,
                before.push(whole_part(parts[p].granule_count as nat, granularity, rows as nat)),
            ),
        }
    }
}

/// A granule that is to be read: which it is, the values of each column that the filter reads and the
/// part has, or why they could not be read, and where it stands in its part.
pub struct MarkedGranule {
    pub mark_idx: usize,
    pub columns: Outcome<Vec<Option<Vec<Value>>>>,
    pub place: GranulePlace,
}

/// A part of a table: what is known of it, how many rows it has, and the granules that a filter leaves
/// to be read, or why it could not be opened.
pub struct FilterPart {
    pub outline: PartOutline,
    pub row_count: u64,
    pub granules: Outcome<Vec<MarkedGranule>>,
}

/// How many rows each part has.
pub open spec fn part_rows(parts: Seq<FilterPart>) -> Seq<u64> {
    parts.map_values(|p: FilterPart| p.row_count)
}

/// What is known of each part.
pub open spec fn part_outlines(parts: Seq<FilterPart>) -> Seq<PartOutline> {
    parts.map_values(|p: FilterPart| p.outline)
}

/// The values of a column that a filter reads; empty values where the part does not have it.
pub open spec fn values_read(columns: Seq<Option<Vec<Value>>>, i: int, rows: nat) -> Seq<Value> {
    if 0 <= i < columns.len() && columns[i] is Some {
        columns[i]->0@
    } else {
        insert::repeated(Value::Null, rows)
    }
}

/// The values of the columns of a table in a granule; empty values for those that a filter does not
/// read.
pub open spec fn table_values(
    mapping: Seq<Option<usize>>,
    columns: Seq<Option<Vec<Value>>>,
    rows: nat,
) -> Seq<Seq<Value>> {
    mapping.map_values(
        |m: Option<usize>|
            match m {
                Some(i) => values_read(columns, i as int, rows),
                None => insert::repeated(Value::Null, rows),
            },
    )
}

/// The granules of a part after those from `i` on, and how many rows were accepted. Reading stops
/// once enough rows were accepted.
pub open spec fn masked_from(
    filter: PreparedFilterView,
    granules: Seq<MarkedGranule>,
    index_granularity: usize,
    needed: usize,
    i: int,
    found: Seq<GranuleView>,
    accepted: usize,
) -> Result<(Seq<GranuleView>, usize), ErrorView>
    decreases granules.len() - i,
{
    if i >= granules.len() || accepted >= needed {
        Ok((found, accepted))
    } else {
        let g = granules[i];
        match g.columns {
            Err(e) => Err(e@),
            Ok(columns) => match scan::rows_in(
                scan::granule_rows(scan::option_views(columns@), 0),
                g.place,
                index_granularity,
            ) {
                Err(e) => Err(e),
                Ok(rows) => masked_from(
                    filter,
                    granules,
                    index_granularity,
                    needed,
                    i + 1,
                    found.push(
                        GranuleView {
                            granule_idx: g.mark_idx,
                            mask: compiled_filter::mask_of(
                                filter.filter,
                                table_values(filter.mapping, columns@, rows as nat),
                            ),
                        },
                    ),
                    scan::accepted_after(accepted, rows),
                ),
            },
        }
    }
}

/// The granules of the parts from `p` on in a given order, behind those before.
pub open spec fn masked_parts(
    filter: PreparedFilterView,
    parts: Seq<FilterPart>,
    order: Seq<usize>,
    index_granularity: usize,
    needed: usize,
    p: int,
    before: Seq<(usize, Seq<GranuleView>)>,
    accepted: usize,
) -> Result<Seq<(usize, Seq<GranuleView>)>, ErrorView>
    decreases order.len() - p,
{
    if p >= order.len() {
        Ok(before)
    } else {
        match parts[order[p] as int].granules {
            Err(e) => Err(e@),
            Ok(granules) => match masked_from(
                filter,
                granules@,
                index_granularity,
                needed,
                0,
                seq![],
                accepted,
            ) {
                Err(e) => Err(e),
                Ok(read) => masked_parts(
                    filter,
                    parts,
                    order,
                    index_granularity,
                    needed,
                    p + 1,
                    before.push((order[p], read.0)),
                    read.1,
                ),
            },
        }
    }
}

/// The granules of parts by the position of the part, with their masks as sequences.
pub open spec fn marks_view(marks: Seq<(usize, Vec<Granule>)>) -> Seq<(usize, Seq<GranuleView>)> {
    marks.map_values(|m: (usize, Vec<Granule>)| (m.0, granule_views(m.1@)))
}

/// The granules in a result, as sequences.
pub open spec fn marks_outcome(r: Outcome<Vec<(usize, Vec<Granule>)>>) -> Result<
    Seq<(usize, Seq<GranuleView>)>,
    ErrorView,
> {
    match r {
        Ok(marks) => Ok(marks_view(marks@)),
        Err(e) => Err(e@),
    }
}

/// The parts with their positions.
pub open spec fn numbered(parts: Seq<Seq<GranuleView>>) -> Seq<(usize, Seq<GranuleView>)> {
    parts.map(|i: int, p: Seq<GranuleView>| (i as usize, p))
}

/// Whether a result holds the granules that a query reads. Without a filter these are all granules of
/// all parts; with one, those of the parts with most rows first, until there are enough rows.
pub open spec fn are_marks(
    schema: TableSchemaView,
    filter_expr: Option<Expr>,
    parts: Seq<FilterPart>,
    index_granularity: usize,
    needed: usize,
    readings: Seq<NumberReading>,
    r: Result<Seq<(usize, Seq<GranuleView>)>, ErrorView>,
) -> bool {
    match filter_expr {
        None => r == (match whole_parts(part_outlines(parts), index_granularity as nat, 0, seq![]) {
            Ok(granules) => Ok(numbered(granules)),
            Err(e) => Err(e),
        }),
        Some(expr) => match prepared(expr, schema, readings) {
            Err(e) => r == Err::<Seq<(usize, Seq<GranuleView>)>, ErrorView>(e),
            Ok(filter) => exists|order: Seq<usize>|
                is_largest_first(part_rows(parts), order) && r == #[trigger] masked_parts(
                    filter,
                    parts,
                    order,
                    index_granularity,
                    needed,
                    0,
                    seq![],
                    0,
                ),
        },
    }
}

/// Where each column of a table stands among the columns of a filter, after those from `i` on.
pub open spec fn mapping_from(
    filter_columns: Seq<ColumnDef>,
    table_columns: Seq<ColumnDef>,
    readings: Seq<NumberReading>,
    i: int,
    mapping: Seq<Option<usize>>,
) -> Result<Seq<Option<usize>>, ErrorView>
    decreases filter_columns.len() - i,
{
    if i >= filter_columns.len() {
        Ok(mapping)
    } else {
        match search::position(table_columns, column::equal_to(filter_columns[i])) {
            None => Err(
                ErrorView::ColumnNotFound(debug_text::column_def_debug(filter_columns[i], readings)),
            ),
            Some(k) => mapping_from(
                filter_columns,
                table_columns,
                readings,
                i + 1,
                mapping.update(k, Some(i as usize)),
            ),
        }
    }
}

/// No column of a table among the columns of a filter.
pub open spec fn no_mapping(n: nat) -> Seq<Option<usize>> {
    Seq::new(n, |i: int| None)
}

/// Whether positions are those of all parts, one after the other by their number of rows, the
/// largest first.
pub open spec fn is_largest_first(rows: Seq<u64>, positions: Seq<usize>) -> bool {
    &&& positions.len() == rows.len()
    &&& positions.no_duplicates()
    &&& forall|i: int| 0 <= i < positions.len() ==> (#[trigger] positions[i]) < rows.len()
    &&& forall|i: int, j: int|
        #![trigger positions[i], positions[j]]
        0 <= i < j < positions.len() ==> rows[positions[i] as int] >= rows[positions[j] as int]
}

/// The positions of the columns that a filter reads, in the order in which they occur in it.
pub open spec fn columns_read(filter: CompiledFilter) -> Seq<usize>
    decreases filter,
{
    match filter {
        CompiledFilter::Compare { col_idx, op, value } => seq![col_idx],
        CompiledFilter::CompareColumns { left_idx, op, right_idx } => seq![left_idx, right_idx],
        CompiledFilter::And(l, r) => columns_read(*l) + columns_read(*r),
        CompiledFilter::Or(l, r) => columns_read(*l) + columns_read(*r),
        CompiledFilter::Not(f) => columns_read(*f),
        CompiledFilter::Column(i) => seq![i],
        CompiledFilter::Const(_) => seq![],
    }
}

proof fn lemma_all_below(a: Seq<usize>, b: Seq<usize>, n: nat)
    requires
        forall|i: int| 0 <= i < a.len() ==> (#[trigger] a[i]) < n,
        forall|i: int| 0 <= i < b.len() ==> (#[trigger] b[i]) < n,
    ensures
        forall|i: int| 0 <= i < (a + b).len() ==> (#[trigger] (a + b)[i]) < n,
{
    assert forall|i: int| 0 <= i < (a + b).len() implies (#[trigger] (a + b)[i]) < n by {
        if i < a.len() {
            assert(a[i] < n);
        } else {
            assert(b[i - a.len()] < n);
        }
    }
}

/// A filter that reads columns of a table reads them at positions of the table.
proof fn lemma_columns_read(filter: CompiledFilter, n: nat)
    requires
        compiled_filter::reads_within(filter, n),
    ensures
        forall|i: int| 0 <= i < columns_read(filter).len() ==> (#[trigger] columns_read(filter)[i]) < n,
    decreases filter,
{
    match filter {
        CompiledFilter::And(l, r) => {
            lemma_columns_read(*l, n);
            lemma_columns_read(*r, n);
            lemma_all_below(columns_read(*l), columns_read(*r), n);
            assert(columns_read(filter) == columns_read(*l) + columns_read(*r));
        },
        CompiledFilter::Or(l, r) => {
            lemma_columns_read(*l, n);
            lemma_columns_read(*r, n);
            lemma_all_below(columns_read(*l), columns_read(*r), n);
            assert(columns_read(filter) == columns_read(*l) + columns_read(*r));
        },
        CompiledFilter::Not(f) => {
            lemma_columns_read(*f, n);
            assert(columns_read(filter) == columns_read(*f));
        },
        CompiledFilter::Compare { col_idx, op, value } => {
            assert(columns_read(filter) == seq![col_idx]);
        },
        CompiledFilter::CompareColumns { left_idx, op, right_idx } => {
            assert(columns_read(filter) == seq![left_idx, right_idx]);
        },
        CompiledFilter::Column(i) => {
            assert(columns_read(filter) == seq![i]);
        },
        CompiledFilter::Const(_) => {},
    }
}

/// The columns at positions.
pub open spec fn columns_at(columns: Seq<ColumnDef>, positions: Seq<usize>) -> Seq<ColumnDef> {
    positions.map_values(|i: usize| columns[i as int])
}

/// Whether every column of a list is part of the primary key.
pub open spec fn all_in_key(columns: Seq<ColumnDef>, primary_key: Seq<ColumnDef>) -> bool {
    forall|i: int|
        0 <= i < columns.len() ==> search::position(
            primary_key,
            column::equal_to(#[trigger] columns[i]),
        ) is Some
}

impl CompiledFilter {
    /// Appends the positions of the columns that the filter reads.
    pub fn get_column_positions(&self, positions: &mut Vec<usize>)
        ensures
            final(positions)@ == old(positions)@ + columns_read(*self),
        decreases self,
    {
        let ghost before = positions@;
        match self {
            CompiledFilter::Compare { col_idx, op: _, value: _ } => positions.push(*col_idx),
            CompiledFilter::CompareColumns { left_idx, op: _, right_idx } => {
                positions.push(*left_idx);
                positions.push(*right_idx);
            },
            CompiledFilter::And(l, r) => {
                l.get_column_positions(positions);
                r.get_column_positions(positions);
            },
            CompiledFilter::Or(l, r) => {
                l.get_column_positions(positions);
                r.get_column_positions(positions);
            },
            CompiledFilter::Not(f) => f.get_column_positions(positions),
            CompiledFilter::Column(i) => positions.push(*i),
            CompiledFilter::Const(_) => {},
        }
        assert(positions@ =~= before + columns_read(*self));
    }

    /// The columns that the filter reads, in the order in which they occur in it.
    pub fn get_col_defs_inside(&self, table_column_defs: &Vec<ColumnDef>) -> (r: Vec<ColumnDef>)
        requires
            compiled_filter::reads_within(*self, table_column_defs@.len()),
        ensures
            r@ == columns_at(table_column_defs@, columns_read(*self)),
    {
        let mut positions: Vec<usize> = Vec::new();
        self.get_column_positions(&mut positions);
        assert(positions@ =~= columns_read(*self));
        proof {
            lemma_columns_read(*self, table_column_defs@.len());
        }
        let mut r: Vec<ColumnDef> = Vec::new();
        let mut i: usize = 0;
        while i < positions.len()
            invariant
                i <= positions@.len(),
                forall|k: int| 0 <= k < positions@.len() ==> (#[trigger] positions@[k]) < table_column_defs@.len(),
                r@.len() == i,
                forall|k: int| 0 <= k < i ==> #[trigger] r@[k] == table_column_defs@[positions@[k] as int],
            decreases positions@.len() - i,
        {
            r.push(table_column_defs[positions[i]].clone());
            i += 1;
        }
        assert(r@ =~= columns_at(table_column_defs@, positions@));
        r
    }
}

/// A filter that was made ready for the columns of a table.
pub struct PreparedFilter {
    pub filter: CompiledFilter,
    pub columns: Vec<ColumnDef>,
    /// Where each column of the table stands among the columns of the filter.
    pub mapping: Vec<Option<usize>>,
    /// Whether the primary key alone tells which granules can be left out.
    pub use_optimization: bool,
}

/// A filter that was made ready for the columns of a table, with its lists as sequences.
#[verifier::ext_equal]
pub struct PreparedFilterView {
    pub filter: CompiledFilter,
    pub columns: Seq<ColumnDef>,
    pub mapping: Seq<Option<usize>>,
    pub use_optimization: bool,
}

impl View for PreparedFilter {
    type V = PreparedFilterView;

    open spec fn view(&self) -> PreparedFilterView {
        PreparedFilterView {
            filter: self.filter,
            columns: self.columns@,
            mapping: self.mapping@,
            use_optimization: self.use_optimization,
        }
    }
}

/// A filter, made ready for the columns of a table.
pub open spec fn prepared(expr: Expr, schema: TableSchemaView, readings: Seq<NumberReading>) -> Result<
    PreparedFilterView,
    ErrorView,
> {
    match compiled_filter::compiled(expr, schema.columns, readings) {
        Err(e) => Err(e),
        Ok(filter) => {
            let columns = columns_at(schema.columns, columns_read(filter));
            match mapping_from(columns, schema.columns, readings, 0, no_mapping(schema.columns.len())) {
                Err(e) => Err(e),
                Ok(mapping) => Ok(
                    PreparedFilterView {
                        filter,
                        columns,
                        mapping,
                        use_optimization: all_in_key(columns, schema.primary_key),
                    },
                ),
            }
        },
    }
}

impl FilterLogic {
    /// Makes a filter ready for the columns of a table.
    ///
    /// Returns: the filter, the error of compiling it, or `ColumnNotFound`.
    pub fn prepare(filter: Expr, schema: &TableSchema, numbers: &Numbers) -> (r: Outcome<PreparedFilter>)
        ensures
            error::outcome_view(r) == prepared(filter, schema@, numbers.readings@),
            r matches Ok(p) ==> {
                &&& compiled_filter::reads_within(p.filter, schema.columns@.len())
                &&& p.mapping@.len() == schema.columns@.len()
            },
    {
        let filter = match CompiledFilter::compile(filter, schema.columns.as_slice(), numbers) {
            Ok(filter) => filter,
            Err(e) => return Err(e),
        };
        let columns = filter.get_col_defs_inside(&schema.columns);
        let mapping = match Self::create_filter_cols_table_cols_mapping(&columns, &schema.columns, numbers) {
            Ok(mapping) => mapping,
            Err(e) => return Err(e),
        };
        let use_optimization = Self::should_use_compiler_optimization(&columns, &schema.primary_key);
        Ok(PreparedFilter { filter, columns, mapping, use_optimization })
    }

    /// The order in which parts are read: parts with more rows first.
    pub fn order_parts(rows: &Vec<u64>) -> (r: Vec<usize>)
        ensures
            is_largest_first(rows@, r@),
    {
        let mut r: Vec<usize> = Vec::new();
        let mut n: usize = 0;
        while n < rows.len()
            invariant
                n <= rows@.len(),
                r@.len() == n,
                r@.no_duplicates(),
                forall|i: int| 0 <= i < r@.len() ==> (#[trigger] r@[i]) < n,
                forall|i: int, j: int|
                    #![trigger r@[i], r@[j]]
                    0 <= i < j < r@.len() ==> rows@[r@[i] as int] >= rows@[r@[j] as int],
            decreases rows@.len() - n,
        {
            let mut at: usize = 0;
            while at < r.len() && rows[r[at]] >= rows[n]
                invariant
                    at <= r@.len(),
                    n < rows@.len(),
                    r@.len() == n,
                    forall|i: int| 0 <= i < r@.len() ==> (#[trigger] r@[i]) < n,
                    forall|i: int| 0 <= i < at ==> rows@[#[trigger] r@[i] as int] >= rows@[n as int],
                decreases r@.len() - at,
            {
                at += 1;
            }
            let ghost before = r@;
            r.insert(at, n);
            proof {
                assert forall|i: int, j: int|
                    #![trigger r@[i], r@[j]]
                    0 <= i < j < r@.len() implies rows@[r@[i] as int] >= rows@[r@[j] as int] by {
                    let i0 = if i < at {
                        i
                    } else {
                        i - 1
                    };
                    let j0 = if j < at {
                        j
                    } else {
                        j - 1
                    };
                    if i == at {
                        assert(rows@[before[at as int] as int] < rows@[n as int]);
                        assert(rows@[before[at as int] as int] >= rows@[before[j0] as int]);
                    } else if j == at {
                        assert(rows@[before[i0] as int] >= rows@[n as int]);
                    } else {
                        assert(rows@[before[i0] as int] >= rows@[before[j0] as int]);
                    }
                }
                assert forall|i: int, j: int| 0 <= i < r@.len() && 0 <= j < r@.len() && i != j implies r@[i]
                    != r@[j] by {
                    let i0 = if i < at {
                        i
                    } else {
                        i - 1
                    };
                    let j0 = if j < at {
                        j
                    } else {
                        j - 1
                    };
                    if i != at && j != at {
                        assert(before[i0] != before[j0]);
                    } else if i == at {
                        assert(before[j0] < n);
                    } else {
                        assert(before[i0] < n);
                    }
                }
            }
            n += 1;
        }
        r
    }

    /// The values of the columns of a table in a granule.
    fn fill_table_values(
        mapping: &Vec<Option<usize>>,
        columns: &Vec<Option<Vec<Value>>>,
        rows: usize,
    ) -> (r: Vec<Vec<Value>>)
        ensures
            compiled_filter::granule_view(r@) == table_values(mapping@, columns@, rows as nat),
            r@.len() == mapping@.len(),
    {
        let ghost wanted = table_values(mapping@, columns@, rows as nat);
        let mut r: Vec<Vec<Value>> = Vec::new();
        let mut i: usize = 0;
        while i < mapping.len()
            invariant
                i <= mapping@.len(),
                wanted == table_values(mapping@, columns@, rows as nat),
                r@.len() == i,
                forall|k: int| 0 <= k < i ==> (#[trigger] r@[k])@ == wanted[k],
            decreases mapping@.len() - i,
        {
            let values = match mapping[i] {
                Some(at) => if at < columns.len() {
                    match &columns[at] {
                        Some(values) => column::clone_values(values.as_slice()),
                        None => insert::repeat_value(&Value::Null, rows),
                    }
                } else {
                    insert::repeat_value(&Value::Null, rows)
                },
                None => insert::repeat_value(&Value::Null, rows),
            };
            assert(values@ == wanted[i as int]);
            r.push(values);
            i += 1;
        }
        assert(compiled_filter::granule_view(r@) =~= wanted);
        r
    }

    /// Which rows pass of the granules of one part.
    fn mask_part(
        filter: &PreparedFilter,
        granules: &Vec<MarkedGranule>,
        index_granularity: usize,
        needed: usize,
        start: usize,
    ) -> (r: Outcome<(Vec<Granule>, usize)>)
        requires
            compiled_filter::reads_within(filter.filter, filter.mapping@.len()),
        ensures
            match r {
                Ok(read) => masked_from(filter@, granules@, index_granularity, needed, 0, seq![], start) == Ok::<
                    (Seq<GranuleView>, usize),
                    ErrorView,
                >((granule_views(read.0@), read.1)),
                Err(e) => masked_from(filter@, granules@, index_granularity, needed, 0, seq![], start) == Err::<
                    (Seq<GranuleView>, usize),
                    ErrorView,
                >(e@),
            },
    {
        let mut accepted: usize = start;
        let mut found: Vec<Granule> = Vec::new();
        assert(granule_views(found@) =~= Seq::<GranuleView>::empty());
        let mut i: usize = 0;
        while i < granules.len() && accepted < needed
            invariant
                i <= granules@.len(),
                compiled_filter::reads_within(filter.filter, filter.mapping@.len()),
                masked_from(filter@, granules@, index_granularity, needed, 0, seq![], start) == masked_from(
                    filter@,
                    granules@,
                    index_granularity,
                    needed,
                    i as int,
                    granule_views(found@),
                    accepted,
                ),
            decreases granules@.len() - i,
        {
            let ghost had = granule_views(found@);
            let columns = match &granules[i].columns {
                Ok(columns) => columns,
                Err(e) => return Err(e.clone()),
            };
            let rows: usize = match scan::count_rows(
                scan::rows_in_granule(columns),
                &granules[i].place,
                index_granularity,
            ) {
                Ok(rows) => rows,
                Err(e) => return Err(e),
            };
            let values = Self::fill_table_values(&filter.mapping, columns, rows);
            let mask = filter.filter.get_granule_mask(&values);
            let granule = Granule { granule_idx: granules[i].mark_idx, mask };
            found.push(granule);
            assert(granule_views(found@) =~= had.push(granule@));
            accepted = if accepted > usize::MAX - rows {
                usize::MAX
            } else {
                accepted + rows
            };
            i += 1;
        }
        Ok((found, accepted))
    }

    /// The granules that a query reads, and which of their rows pass: for each part its position and
    /// its granules. Without a filter these are all rows; with one, parts with more rows come first,
    /// and no more granules are read once enough rows were accepted.
    ///
    /// Returns:
    ///   * Ok: the granules of each part.
    ///   * Error when:
    ///     1. The filter could not be made ready for the table.
    ///     2. A part could not be opened, or a granule could not be read.
    ///     3. A part without columns is read without a filter: `PartDoesNotHaveColumns`.
    pub fn filter_marks(
        schema: &TableSchema,
        filter_expr: Option<Expr>,
        parts: &Vec<FilterPart>,
        index_granularity: usize,
        strategy: &Strategy,
        numbers: &Numbers,
    ) -> (r: Outcome<Vec<(usize, Vec<Granule>)>>)
        requires
            filter_expr is None ==> have_granules(part_outlines(parts@)),
        ensures
            are_marks(
                schema@,
                filter_expr,
                parts@,
                index_granularity,
                strategy.lines_to_read,
                numbers.readings@,
                marks_outcome(r),
            ),
    {
        match filter_expr {
            None => Self::all_marks(parts, index_granularity),
            Some(expr) => match Self::prepare(expr, schema, numbers) {
                Err(e) => Err(e),
                Ok(filter) => Self::masked_marks(&filter, parts, index_granularity, strategy.lines_to_read),
            },
        }
    }

    /// All granules of all parts.
    fn all_marks(parts: &Vec<FilterPart>, index_granularity: usize) -> (r: Outcome<Vec<(usize, Vec<Granule>)>>)
        requires
            have_granules(part_outlines(parts@)),
        ensures
            marks_outcome(r) == (match whole_parts(
                part_outlines(parts@),
                index_granularity as nat,
                0,
                seq![],
            ) {
                Ok(granules) => Ok(numbered(granules)),
                Err(e) => Err(e),
            }),
    {
        let mut outlines: Vec<PartOutline> = Vec::new();
        let mut i: usize = 0;
        while i < parts.len()
            invariant
                i <= parts@.len(),
                outlines@.len() == i,
                forall|k: int| 0 <= k < i ==> #[trigger] outlines@[k] == parts@[k].outline,
            decreases parts@.len() - i,
        {
            outlines.push(parts[i].outline.clone());
            i += 1;
        }
        assert(outlines@ =~= part_outlines(parts@));
        match Self::no_filter_fallback(&outlines, index_granularity) {
            Err(e) => Err(e),
            Ok(granules) => {
                let ghost views = parts_view(granules@);
                let total: usize = granules.len();
                let mut rest = granules;
                let mut r: Vec<(usize, Vec<Granule>)> = Vec::new();
                while rest.len() > 0
                    invariant
                        r@.len() + rest@.len() == views.len(),
                        views.len() == total,
                        forall|k: int| 0 <= k < rest@.len() ==> granule_views((#[trigger] rest@[k])@) == views[r@.len() + k],
                        forall|k: int|
                            0 <= k < r@.len() ==> (#[trigger] r@[k]).0 == k && granule_views(r@[k].1@) == views[k],
                    decreases rest@.len(),
                {
                    let ghost had = rest@;
                    let at: usize = r.len();
                    let first = rest.remove(0);
                    assert(granule_views(first@) == views[at as int]) by {
                        assert(had[0] == first);
                    }
                    r.push((at, first));
                    assert forall|k: int| 0 <= k < rest@.len() implies granule_views((#[trigger] rest@[k])@)
                        == views[r@.len() + k] by {
                        assert(rest@[k] == had[k + 1]);
                    }
                }
                assert(marks_view(r@) =~= numbered(views));
                Ok(r)
            },
        }
    }

    /// The granules of the parts, those with most rows first, with the rows that pass a filter.
    fn masked_marks(
        filter: &PreparedFilter,
        parts: &Vec<FilterPart>,
        index_granularity: usize,
        needed: usize,
    ) -> (r: Outcome<Vec<(usize, Vec<Granule>)>>)
        requires
            compiled_filter::reads_within(filter.filter, filter.mapping@.len()),
        ensures
            exists|order: Seq<usize>|
                is_largest_first(part_rows(parts@), order) && marks_outcome(r) == #[trigger] masked_parts(
                    filter@,
                    parts@,
                    order,
                    index_granularity,
                    needed,
                    0,
                    seq![],
                    0,
                ),
    {
        let mut rows: Vec<u64> = Vec::new();
        let mut i: usize = 0;
        while i < parts.len()
            invariant
                i <= parts@.len(),
                rows@.len() == i,
                forall|k: int| 0 <= k < i ==> #[trigger] rows@[k] == parts@[k].row_count,
            decreases parts@.len() - i,
        {
            rows.push(parts[i].row_count);
            i += 1;
        }
        assert(rows@ =~= part_rows(parts@));
        let order = Self::order_parts(&rows);
        let ghost wanted = masked_parts(filter@, parts@, order@, index_granularity, needed, 0, seq![], 0);
        let mut r: Vec<(usize, Vec<Granule>)> = Vec::new();
        assert(marks_view(r@) =~= Seq::<(usize, Seq<GranuleView>)>::empty());
        let mut accepted: usize = 0;
        let mut p: usize = 0;
        while p < order.len()
            invariant
                p <= order@.len(),
                is_largest_first(part_rows(parts@), order@),
                compiled_filter::reads_within(filter.filter, filter.mapping@.len()),
                wanted == masked_parts(filter@, parts@, order@, index_granularity, needed, 0, seq![], 0),
                wanted == masked_parts(
                    filter@,
                    parts@,
                    order@,
                    index_granularity,
                    needed,
                    p as int,
                    marks_view(r@),
                    accepted,
                ),
            decreases order@.len() - p,
        {
            let ghost before = marks_view(r@);
            assert(order@[p as int] < part_rows(parts@).len());
            let granules = match &parts[order[p]].granules {
                Ok(granules) => granules,
                Err(e) => {
                    let fault = e.clone();
                    assert(wanted == Err::<Seq<(usize, Seq<GranuleView>)>, ErrorView>(fault@));
                    return Err(fault);
                },
            };
            match Self::mask_part(filter, granules, index_granularity, needed, accepted) {
                Ok(read) => {
                    accepted = read.1;
                    r.push((order[p], read.0));
                    assert(marks_view(r@) =~= before.push((order@[p as int], granule_views(read.0@))));
                },
                Err(e) => {
                    assert(wanted == Err::<Seq<(usize, Seq<GranuleView>)>, ErrorView>(e@));
                    return Err(e);
                },
            }
            p += 1;
        }
        Ok(r)
    }

    /// The granules that a query without a filter reads: all, with all their rows.
    ///
    /// Returns:
    ///   * Ok: the granules of each part.
    ///   * Error: `PartDoesNotHaveColumns` for a part without columns, or why its last granule could
    ///     not be read.
    pub fn no_filter_fallback(parts: &Vec<PartOutline>, index_granularity: usize) -> (r: Outcome<Vec<Vec<Granule>>>)
        requires
            have_granules(parts@),
        ensures
            match r {
                Ok(g) => whole_parts(parts@, index_granularity as nat, 0, seq![]) == Ok::<
                    Seq<Seq<GranuleView>>,
                    ErrorView,
                >(parts_view(g@)),
                Err(e) => whole_parts(parts@, index_granularity as nat, 0, seq![]) == Err::<
                    Seq<Seq<GranuleView>>,
                    ErrorView,
                >(e@),
            },
    {
        let ghost g = index_granularity as nat;
        let mut r: Vec<Vec<Granule>> = Vec::new();
        assert(parts_view(r@) =~= Seq::<Seq<GranuleView>>::empty());
        let mut p: usize = 0;
        while p < parts.len()
            invariant
                p <= parts@.len(),
                g == index_granularity,
                whole_parts(parts@, g, 0, seq![]) == whole_parts(parts@, g, p as int, parts_view(r@)),
            decreases parts@.len() - p,
        {
            let ghost before = parts_view(r@);
            if parts[p].column_count == 0 {
                return Err(Error::PartDoesNotHaveColumns(parts[p].name.clone()));
            }
            let last_rows: usize = match &parts[p].last_granule_rows {
                Ok(rows) => *rows,
                Err(e) => return Err(e.clone()),
            };
            let count: usize = parts[p].granule_count;
            let mut granules: Vec<Granule> = Vec::new();
            let mut i: usize = 0;
            while i < count
                invariant
                    i <= count,
                    g == index_granularity,
                    granules@.len() == i,
                    forall|k: int|
                        0 <= k < i ==> (#[trigger] granules@[k])@ == whole_part(count as nat, g, last_rows as nat)[k],
                decreases count - i,
            {
                let rows: usize = if i == count - 1 {
                    last_rows
                } else {
                    index_granularity
                };
                granules.push(Granule { granule_idx: i, mask: full_mask(rows) });
                i += 1;
            }
            assert(granule_views(granules@) =~= whole_part(count as nat, g, last_rows as nat));
            r.push(granules);
            assert(parts_view(r@) =~= before.push(granule_views(granules@)));
            p += 1;
        }
        Ok(r)
    }

    /// Whether every column that is filtered by is part of the primary key.
    pub fn should_use_compiler_optimization(columns_to_filter: &Vec<ColumnDef>, pk_col_defs: &Vec<ColumnDef>) -> (r: bool)
        ensures
            r == all_in_key(columns_to_filter@, pk_col_defs@),
    {
        let mut i: usize = 0;
        while i < columns_to_filter.len()
            invariant
                i <= columns_to_filter@.len(),
                forall|k: int|
                    0 <= k < i ==> search::position(
                        pk_col_defs@,
                        column::equal_to(#[trigger] columns_to_filter@[k]),
                    ) is Some,
            decreases columns_to_filter@.len() - i,
        {
            if column::position_equal(pk_col_defs.as_slice(), &columns_to_filter[i]).is_none() {
                return false;
            }
            i += 1;
        }
        true
    }

    /// Where each column of a table stands among the columns of a filter.
    ///
    /// Returns: the positions, or `ColumnNotFound` for a column that the table does not have.
    pub fn create_filter_cols_table_cols_mapping(
        filter_col_defs: &Vec<ColumnDef>,
        table_col_defs: &Vec<ColumnDef>,
        numbers: &Numbers,
    ) -> (r: Outcome<Vec<Option<usize>>>)
        ensures
            match r {
                Ok(m) => mapping_from(
                    filter_col_defs@,
                    table_col_defs@,
                    numbers.readings@,
                    0,
                    no_mapping(table_col_defs@.len()),
                ) == Ok::<Seq<Option<usize>>, ErrorView>(m@) && m@.len() == table_col_defs@.len(),
                Err(e) => mapping_from(
                    filter_col_defs@,
                    table_col_defs@,
                    numbers.readings@,
                    0,
                    no_mapping(table_col_defs@.len()),
                ) == Err::<Seq<Option<usize>>, ErrorView>(e@),
            },
    {
        let ghost none = no_mapping(table_col_defs@.len());
        let mut mapping: Vec<Option<usize>> = Vec::new();
        let mut i: usize = 0;
        while i < table_col_defs.len()
            invariant
                i <= table_col_defs@.len(),
                mapping@.len() == i,
                forall|k: int| 0 <= k < i ==> #[trigger] mapping@[k] is None,
            decreases table_col_defs@.len() - i,
        {
            mapping.push(None);
            i += 1;
        }
        assert(mapping@ =~= none);
        let mut i: usize = 0;
        while i < filter_col_defs.len()
            invariant
                i <= filter_col_defs@.len(),
                none == no_mapping(table_col_defs@.len()),
                mapping@.len() == table_col_defs@.len(),
                mapping_from(filter_col_defs@, table_col_defs@, numbers.readings@, 0, none) == mapping_from(
                    filter_col_defs@,
                    table_col_defs@,
                    numbers.readings@,
                    i as int,
                    mapping@,
                ),
            decreases filter_col_defs@.len() - i,
        {
            match column::position_equal(table_col_defs.as_slice(), &filter_col_defs[i]) {
                Some(position) => {
                    mapping.set(position, Some(i));
                },
                None => return Err(Error::ColumnNotFound(filter_col_defs[i].debug_text(numbers))),
            }
            i += 1;
        }
        Ok(mapping)
    }
}

} // verus!
