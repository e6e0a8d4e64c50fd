//! Execution of SELECT.
pub mod accumulate_function;
pub mod aggregate_laws;
pub mod aggregator;
pub mod chunk_laws;
pub mod filter;
pub mod laws;
pub mod mark_laws;
pub mod scan;
pub mod scan_laws;
pub mod strategy;
pub mod table_laws;

use vstd::prelude::*;
use vstd::string::*;

use crate::engines;
use crate::engines::{Engine, EngineConfig, EngineName};
use crate::error;
use crate::error::{Error, ErrorView, Outcome};
use crate::sql::ast::Expr;
use crate::sql::compiled_filter;
use crate::sql::compiled_filter::CompiledFilter;
use crate::sql::physical_plan;
use crate::sql::logical_plan::plan;
use crate::sql::logical_plan::plan::AggregateProjection;
use crate::sql::physical_plan::{ClausesView, SelectNode, SelectSource};
use crate::sql::projection::Projection;
use crate::storage::column;
use crate::storage::column::{ColumnDef, OutputColumn, OutputColumnView};
use crate::storage::numbers::{NumberReading, Numbers};
use crate::storage::table_metadata::TableSchema;
use crate::storage::tables::{Immutable, StorageRead};
use crate::storage::tables::virtual_storage;
use crate::storage::tables::virtual_storage::VirtualStorage;
use crate::storage::table_part;
use crate::storage::value::Value;

use self::aggregator::{Aggregator, AggregatorFormat, FoldKind, FormatView};
use self::strategy::Strategy;

verus! {

/// The error that answers a query that cannot be executed: its counts are too large, its values
/// cannot be compared, or its columns do not fit together.
pub open spec fn unanswerable() -> ErrorView {
    ErrorView::Internal("Internal error during query execution"@)
}

/// The error that answers a query that cannot be executed.
pub fn unanswerable_error() -> (r: Error)
    ensures
        r@ == unanswerable(),
{
    Error::Internal("Internal error during query execution".to_owned())
}

/// What a query does with the rows that it reads.
pub struct QueryParams {
    pub projections: Vec<Projection>,
    pub filter: Option<Box<Expr>>,
    pub aggregate_cols: Vec<AggregateProjection>,
    pub group_by: Vec<Projection>,
    pub having: Option<Box<Expr>>,
    pub order_by: Option<Vec<Vec<Projection>>>,
    pub limit: Option<usize>,
    pub offset: usize,
}

impl View for QueryParams {
    type V = ClausesView;

    open spec fn view(&self) -> ClausesView {
        ClausesView {
            columns: self.projections@,
            filter: physical_plan::unboxed(self.filter),
            aggregate_cols: self.aggregate_cols@,
            group_by: self.group_by@,
            having: physical_plan::unboxed(self.having),
            order_by: physical_plan::orders_view(self.order_by),
            limit: self.limit,
            offset: self.offset,
        }
    }
}

impl SelectNode {
    /// Where a query reads, and what it does with the rows.
    pub fn into_parts(self) -> (r: (SelectSource, QueryParams))
        ensures
            r.0 == self.scan_source,
            r.1@ == self@.clauses,
    {
        let SelectNode {
            scan_source,
            columns,
            filter,
            aggregate_cols,
            group_by,
            having,
            order_by,
            limit,
            offset,
        } = self;
        (
            scan_source,
            QueryParams {
                projections: columns,
                filter,
                aggregate_cols,
                group_by,
                having,
                order_by,
                limit,
                offset,
            },
        )
    }
}

/// A query while its rows are read.
pub struct Scan {
    pub strategy: Strategy,
    pub filter: Option<CompiledFilter>,
    /// How many columns the schema has that the filter was compiled against.
    pub column_count: usize,
    pub aggregator: Aggregator,
    pub order_by: Option<Vec<Vec<Projection>>>,
    pub limit: Option<usize>,
    pub offset: usize,
}

/// A query while its rows are read, with its lists as sequences.
#[verifier::ext_equal]
pub struct ScanView {
    pub strategy: Strategy,
    pub filter: Option<CompiledFilter>,
    pub column_count: usize,
    pub format: FormatView,
    pub order_by: Option<Seq<Seq<Projection>>>,
    pub limit: Option<usize>,
    pub offset: usize,
}

impl View for Scan {
    type V = ScanView;

    open spec fn view(&self) -> ScanView {
        ScanView {
            strategy: self.strategy,
            filter: self.filter,
            column_count: self.column_count,
            format: self.aggregator@,
            order_by: physical_plan::orders_view(self.order_by),
            limit: self.limit,
            offset: self.offset,
        }
    }
}

/// Whether a query collects for every function, and its filter reads columns of the schema.
pub open spec fn is_ready(scan: ScanView) -> bool {
    &&& aggregator::is_complete(scan.format)
    &&& scan.filter matches Some(f) ==> compiled_filter::reads_within(f, scan.column_count as nat)
}

/// Whether a query needs all rows before it can leave any out.
pub open spec fn needs_all_rows(clauses: ClausesView) -> bool {
    clauses.order_by is Some || clauses.group_by.len() > 0
}

/// A query before its first row.
pub open spec fn started(
    clauses: ClausesView,
    columns: Seq<ColumnDef>,
    total_rows: usize,
    readings: Seq<NumberReading>,
) -> Result<ScanView, ErrorView> {
    let lines = strategy::lines_needed(clauses.limit, clauses.offset, total_rows, needs_all_rows(clauses));
    let format = aggregator::empty_format(clauses.columns, clauses.aggregate_cols, clauses.group_by);
    if lines > usize::MAX {
        Err(unanswerable())
    } else {
        let strategy = Strategy { lines_to_read: lines as usize, lines_read: 0 };
        let unfiltered = ScanView {
            strategy,
            filter: None,
            column_count: columns.len() as usize,
            format,
            order_by: clauses.order_by,
            limit: clauses.limit,
            offset: clauses.offset,
        };
        match clauses.filter {
            None => Ok(unfiltered),
            Some(expr) => match compiled_filter::compiled(expr, columns, readings) {
                Err(e) => Err(e),
                Ok(f) => Ok(ScanView { filter: Some(f), ..unfiltered }),
            },
        }
    }
}

/// Whether a mask says something of every row of every column.
pub open spec fn mask_covers(mask: Seq<bool>, chunk: Seq<Seq<Value>>) -> bool {
    forall|i: int| 0 <= i < chunk.len() ==> (#[trigger] chunk[i]).len() <= mask.len()
}

/// The rows of a chunk that pass a filter.
pub open spec fn passing(chunk: Seq<Seq<Value>>, mask: Seq<bool>) -> Seq<Seq<Value>> {
    chunk.map_values(|c: Seq<Value>| compiled_filter::retained(c, mask))
}

/// A query after the rows of a chunk that pass the filter were collected.
pub open spec fn collected(scan: ScanView, chunk: Seq<Seq<Value>>) -> Result<ScanView, ErrorView> {
    if !aggregator::chunk_fits(scan.format, chunk) {
        Err(unanswerable())
    } else {
        match aggregator::chunk_appended(scan.format, chunk) {
            Err(e) => Err(e),
            Ok(format) => Ok(
                ScanView {
                    strategy: Strategy {
                        lines_to_read: scan.strategy.lines_to_read,
                        lines_read: aggregator::chunk_rows(chunk) as usize,
                    },
                    format,
                    ..scan
                },
            ),
        }
    }
}

/// A query after a chunk: its values for what the query reads, and for the columns of the schema.
pub open spec fn fed(scan: ScanView, chunk: Seq<Seq<Value>>, schema_chunk: Seq<Seq<Value>>) -> Result<
    ScanView,
    ErrorView,
> {
    match scan.filter {
        None => collected(scan, chunk),
        Some(f) => {
            let mask = compiled_filter::mask_of(f, schema_chunk);
            if schema_chunk.len() != scan.column_count || !mask_covers(mask, chunk) {
                Err(unanswerable())
            } else {
                collected(scan, passing(chunk, mask))
            }
        },
    }
}

/// What a storage has for projections from `i` on, behind what was read before.
pub open spec fn projections_read<S: StorageRead>(
    storage: S,
    projections: Seq<Projection>,
    readings: Seq<NumberReading>,
    i: int,
    read: Seq<Seq<Value>>,
) -> Result<Seq<Seq<Value>>, ErrorView>
    decreases projections.len() - i,
{
    if i >= projections.len() {
        Ok(read)
    } else {
        match storage.chunk_column(projections[i], readings) {
            Err(e) => Err(e),
            Ok(values) => projections_read(storage, projections, readings, i + 1, read.push(values)),
        }
    }
}

/// What a storage has for the columns of its schema from `i` on, behind what was read before.
pub open spec fn schema_read<S: StorageRead>(
    storage: S,
    readings: Seq<NumberReading>,
    i: int,
    read: Seq<Seq<Value>>,
) -> Result<Seq<Seq<Value>>, ErrorView>
    decreases storage.schema_view().columns.len() - i,
{
    if i >= storage.schema_view().columns.len() {
        Ok(read)
    } else {
        match storage.schema_column(i, readings) {
            Err(e) => Err(e),
            Ok(values) => schema_read(storage, readings, i + 1, read.push(values)),
        }
    }
}

/// A query after the loaded chunk of a storage.
pub open spec fn fed_from<S: StorageRead>(scan: ScanView, storage: S, readings: Seq<NumberReading>) -> Result<
    ScanView,
    ErrorView,
> {
    match projections_read(storage, aggregator::projs_to_read(scan.format), readings, 0, seq![]) {
        Err(e) => Err(e),
        Ok(chunk) => match scan.filter {
            None => fed(scan, chunk, seq![]),
            Some(_) => match schema_read(storage, readings, 0, seq![]) {
                Err(e) => Err(e),
                Ok(schema_chunk) => fed(scan, chunk, schema_chunk),
            },
        },
    }
}

/// A query after the chunks of a list from `i` on, as many as it has to read: for each its values for
/// what the query reads, and for the columns of the schema.
pub open spec fn fed_all(
    scan: ScanView,
    chunks: Seq<Seq<Seq<Value>>>,
    schema_chunks: Seq<Seq<Seq<Value>>>,
    i: int,
) -> Result<ScanView, ErrorView>
    decreases chunks.len() - i,
{
    if scan.strategy.lines_to_read <= scan.strategy.lines_read || i >= chunks.len() {
        Ok(scan)
    } else {
        match fed(scan, chunks[i], schema_chunks[i]) {
            Err(e) => Err(e),
            Ok(next) => fed_all(next, chunks, schema_chunks, i + 1),
        }
    }
}

/// A query after a storage was read from its `i`-th chunk on, as far as it has to be: `loads` is the
/// storage with each of its chunks loaded.
pub open spec fn fed_loads<S: StorageRead>(scan: ScanView, loads: Seq<S>, readings: Seq<NumberReading>, i: int) -> Result<
    ScanView,
    ErrorView,
>
    decreases loads.len() - i,
{
    if scan.strategy.lines_to_read <= scan.strategy.lines_read || i >= loads.len() {
        Ok(scan)
    } else {
        match fed_from(scan, loads[i], readings) {
            Err(e) => Err(e),
            Ok(next) => fed_loads(next, loads, readings, i + 1),
        }
    }
}

impl Scan {
    /// A query before its first row, for the schema and the number of rows of what it reads.
    ///
    /// Returns: Self, or the error of the filter, or `Internal` where the counts are too large.
    pub fn new(params: QueryParams, schema: &TableSchema, total_rows: usize, numbers: &Numbers) -> (r: Outcome<Self>)
        ensures
            error::outcome_view(r) == started(params@, schema.columns@, total_rows, numbers.readings@),
            r matches Ok(scan) ==> is_ready(scan@),
    {
        let QueryParams {
            projections,
            filter,
            aggregate_cols,
            group_by,
            having: _,
            order_by,
            limit,
            offset,
        } = params;
        let reads_all = order_by.is_some() || group_by.len() > 0;
        let count_overflows = match limit {
            Some(limit) => {
                let lines: usize = if total_rows <= limit {
                    total_rows
                } else {
                    limit
                };
                !reads_all && offset > usize::MAX - lines
            },
            None => false,
        };
        if count_overflows {
            return Err(unanswerable_error());
        }
        let strategy = Strategy::new(limit, offset, total_rows, reads_all);
        let column_count: usize = schema.columns.len();
        let filter = match filter {
            None => None,
            Some(expr) => match CompiledFilter::compile(*expr, schema.columns.as_slice(), numbers) {
                Ok(f) => Some(f),
                Err(e) => return Err(e),
            },
        };
        let aggregator = Aggregator::new(&projections, &aggregate_cols, &group_by);
        Ok(Scan { strategy, filter, column_count, aggregator, order_by, limit, offset })
    }

    /// Whether another chunk has to be read.
    pub fn should_read_next_chunk(&self) -> (r: bool)
        ensures
            r == (self.strategy.lines_to_read > self.strategy.lines_read),
    {
        self.strategy.should_read_next_chunk()
    }

    fn collect(&mut self, chunk: &Vec<Vec<Value>>) -> (r: Outcome<()>)
        requires
            is_ready(old(self)@),
        ensures
            match collected(old(self)@, aggregator::chunk_view(chunk@)) {
                Ok(scan) => r is Ok && final(self)@ == scan && is_ready(final(self)@),
                Err(e) => r is Err && r->Err_0@ == e,
            },
    {
        if !self.aggregator.can_append(chunk) {
            return Err(unanswerable_error());
        }
        match self.aggregator.append_chunk(chunk) {
            Ok(rows) => {
                self.strategy.set_lines_read(rows);
                Ok(())
            },
            Err(e) => Err(e),
        }
    }

    /// Takes in a chunk: its values for what the query reads, and for the columns of the schema, which
    /// only a filter needs.
    pub fn feed_values(&mut self, chunk: Vec<Vec<Value>>, schema_chunk: &Vec<Vec<Value>>) -> (r: Outcome<()>)
        requires
            is_ready(old(self)@),
        ensures
            match fed(old(self)@, aggregator::chunk_view(chunk@), aggregator::chunk_view(schema_chunk@)) {
                Ok(scan) => r is Ok && final(self)@ == scan && is_ready(final(self)@),
                Err(e) => r is Err && r->Err_0@ == e,
            },
    {
        let ghost cv = aggregator::chunk_view(chunk@);
        let mut held = chunk;
        let mask = match &self.filter {
            None => return self.collect(&held),
            Some(filter) => {
                if schema_chunk.len() != self.column_count {
                    return Err(unanswerable_error());
                }
                filter.get_granule_mask(schema_chunk)
            },
        };
        assert(compiled_filter::granule_view(schema_chunk@) =~= aggregator::chunk_view(schema_chunk@));
        let mut i: usize = 0;
        while i < held.len()
            invariant
                i <= held@.len(),
                cv == aggregator::chunk_view(chunk@),
                cv == aggregator::chunk_view(held@),
                *self == *old(self),
                self.filter is Some,
                schema_chunk@.len() == self.column_count,
                mask@ == compiled_filter::mask_of(
                    self.filter->Some_0,
                    aggregator::chunk_view(schema_chunk@),
                ),
                forall|k: int| 0 <= k < i ==> (#[trigger] cv[k]).len() <= mask@.len(),
            decreases held@.len() - i,
        {
            assert(cv[i as int] == held@[i as int]@);
            if held[i].len() > mask.len() {
                assert(!mask_covers(mask@, cv));
                return Err(unanswerable_error());
            }
            i += 1;
        }
        proof {
            assert forall|k: int| 0 <= k < held@.len() implies (#[trigger] held@[k])@.len() <= mask@.len() by {
                assert(cv[k] == held@[k]@);
            }
        }
        compiled_filter::apply_mask(&mut held, &mask);
        assert(aggregator::chunk_view(held@) =~= passing(cv, mask@));
        self.collect(&held)
    }

    /// Takes in the loaded chunk of a storage.
    pub fn feed<S: StorageRead>(&mut self, storage: &S, numbers: &Numbers) -> (r: Outcome<()>)
        requires
            is_ready(old(self)@),
            storage.well_formed(),
        ensures
            match fed_from(old(self)@, *storage, numbers.readings@) {
                Ok(scan) => r is Ok && final(self)@ == scan && is_ready(final(self)@),
                Err(e) => r is Err && r->Err_0@ == e,
            },
    {
        let projections = self.aggregator.get_projs_to_read();
        let mut chunk: Vec<Vec<Value>> = Vec::new();
        assert(aggregator::chunk_view(chunk@) =~= Seq::<Seq<Value>>::empty());
        let mut i: usize = 0;
        while i < projections.len()
            invariant
                i <= projections@.len(),
                *self == *old(self),
                storage.well_formed(),
                projections@ == aggregator::projs_to_read(self@.format),
                projections_read(*storage, projections@, numbers.readings@, 0, seq![]) == projections_read(
                    *storage,
                    projections@,
                    numbers.readings@,
                    i as int,
                    aggregator::chunk_view(chunk@),
                ),
            decreases projections@.len() - i,
        {
            let ghost before = aggregator::chunk_view(chunk@);
            match storage.access_chunk_column(&projections[i], numbers) {
                Ok(values) => {
                    chunk.push(values);
                    assert(aggregator::chunk_view(chunk@) =~= before.push(values@));
                },
                Err(e) => return Err(e),
            }
            i += 1;
        }
        let mut schema_chunk: Vec<Vec<Value>> = Vec::new();
        assert(aggregator::chunk_view(schema_chunk@) =~= Seq::<Seq<Value>>::empty());
        if self.filter.is_some() {
            let count: usize = storage.get_schema().columns.len();
            let mut i: usize = 0;
            while i < count
                invariant
                    i <= count,
                    count == storage.schema_view().columns.len(),
                    *self == *old(self),
                    self.filter is Some,
                    storage.well_formed(),
                    projections_read(
                        *storage,
                        aggregator::projs_to_read(self@.format),
                        numbers.readings@,
                        0,
                        seq![],
                    ) == Ok::<Seq<Seq<Value>>, ErrorView>(aggregator::chunk_view(chunk@)),
                    schema_read(*storage, numbers.readings@, 0, seq![]) == schema_read(
                        *storage,
                        numbers.readings@,
                        i as int,
                        aggregator::chunk_view(schema_chunk@),
                    ),
                decreases count - i,
            {
                let ghost before = aggregator::chunk_view(schema_chunk@);
                match storage.access_schema_column(i, numbers) {
                    Ok(values) => {
                        schema_chunk.push(values);
                        assert(aggregator::chunk_view(schema_chunk@) =~= before.push(values@));
                    },
                    Err(e) => return Err(e),
                }
                i += 1;
            }
        }
        self.feed_values(chunk, &schema_chunk)
    }
}

/// What sorting by the first `n` of a list of orders owes, one after the other.
pub open spec fn sorting_owes(
    engine: EngineName,
    primary_key: Seq<ColumnDef>,
    columns: Seq<OutputColumnView>,
    orders: Seq<Seq<Projection>>,
    n: int,
    result: Result<Seq<OutputColumnView>, ErrorView>,
) -> bool
    decreases n,
{
    if n <= 0 {
        result == Ok::<Seq<OutputColumnView>, ErrorView>(columns)
    } else {
        exists|before: Result<Seq<OutputColumnView>, ErrorView>|
            sorting_owes(engine, primary_key, columns, orders, n - 1, before) && #[trigger] order_owes(
                engine,
                primary_key,
                before,
                orders[n - 1],
                result,
            )
    }
}

/// What sorting by one order owes, after what sorting by those before it gave.
pub open spec fn order_owes(
    engine: EngineName,
    primary_key: Seq<ColumnDef>,
    before: Result<Seq<OutputColumnView>, ErrorView>,
    order: Seq<Projection>,
    result: Result<Seq<OutputColumnView>, ErrorView>,
) -> bool {
    match before {
        Err(e) => result == Err::<Seq<OutputColumnView>, ErrorView>(e),
        Ok(cols) => if engines::engine_orderable(engine, order, cols) {
            engines::engine_owes(engine, order, primary_key, cols, result)
        } else {
            result == Err::<Seq<OutputColumnView>, ErrorView>(unanswerable())
        },
    }
}

/// What sorting by an ORDER BY owes, where there is one.
pub open spec fn ordering_owes(
    columns: Seq<OutputColumnView>,
    order_by: Option<Seq<Seq<Projection>>>,
    result: Result<Seq<OutputColumnView>, ErrorView>,
) -> bool {
    match order_by {
        None => result == Ok::<Seq<OutputColumnView>, ErrorView>(columns),
        Some(orders) => sorting_owes(
            EngineName::MergeTree,
            seq![],
            columns,
            orders,
            orders.len() as int,
            result,
        ),
    }
}

/// The values of a column from a row on, and at most as many as a limit says.
pub open spec fn cut_values(data: Seq<Value>, skipped: nat, limit: Option<nat>) -> Seq<Value> {
    let rest = data.skip(skipped as int);
    match limit {
        Some(limit) => if limit < rest.len() {
            rest.take(limit as int)
        } else {
            rest
        },
        None => rest,
    }
}

/// The rows of the first column.
pub open spec fn row_count(columns: Seq<OutputColumnView>) -> nat {
    if columns.len() == 0 {
        0
    } else {
        columns[0].data.len()
    }
}

/// How many rows an offset skips: no more than there are.
pub open spec fn skipped_rows(columns: Seq<OutputColumnView>, offset: usize) -> nat {
    if row_count(columns) <= offset {
        row_count(columns)
    } else {
        offset as nat
    }
}

/// How many rows a limit leaves: no more than there are.
pub open spec fn left_rows(columns: Seq<OutputColumnView>, limit: Option<usize>, offset: usize) -> Option<nat> {
    let rest = (row_count(columns) - skipped_rows(columns, offset)) as nat;
    match limit {
        Some(limit) => Some(
            if rest <= limit {
                rest
            } else {
                limit as nat
            },
        ),
        None => None,
    }
}

/// The columns without the rows that the offset skips and those beyond the limit.
pub open spec fn cut(columns: Seq<OutputColumnView>, limit: Option<usize>, offset: usize) -> Result<
    Seq<OutputColumnView>,
    ErrorView,
> {
    let skipped = skipped_rows(columns, offset);
    if exists|i: int| 0 <= i < columns.len() && (#[trigger] columns[i]).data.len() < skipped {
        Err(unanswerable())
    } else {
        Ok(
            columns.map_values(
                |c: OutputColumnView|
                    OutputColumnView {
                        proj: c.proj,
                        data: cut_values(c.data, skipped, left_rows(columns, limit, offset)),
                    },
            ),
        )
    }
}

/// What a query owes once all its rows were read: what was collected, sorted, and cut.
pub open spec fn finish_owes<F: Fn(FoldKind, &Vec<Value>) -> u64>(
    fold: F,
    format: AggregatorFormat,
    readings: Seq<NumberReading>,
    scan: ScanView,
    result: Result<Seq<OutputColumnView>, ErrorView>,
) -> bool {
    exists|columns: Seq<OutputColumnView>, sorted: Result<Seq<OutputColumnView>, ErrorView>|
        aggregator::is_result(fold, format, readings, columns) && #[trigger] ordering_owes(
            columns,
            scan.order_by,
            sorted,
        ) && result == (match sorted {
            Ok(cols) => cut(cols, scan.limit, scan.offset),
            Err(e) => Err(e),
        })
}

/// Sorts by the orders of a list, one after the other.
pub fn sort_by_orders(
    engine_name: EngineName,
    primary_key: &Vec<ColumnDef>,
    columns: Vec<OutputColumn>,
    orders: &Vec<Vec<Projection>>,
) -> (r: Outcome<Vec<OutputColumn>>)
    ensures
        sorting_owes(
            engine_name,
            primary_key@,
            column::output_views(columns@),
            plan::nested(orders@),
            orders@.len() as int,
            column::output_outcome(r),
        ),
{
    let ghost cols = column::output_views(columns@);
    let ghost all = plan::nested(orders@);
    let ghost pk = primary_key@;
    let mut held = columns;
    let mut i: usize = 0;
    while i < orders.len()
        invariant
            i <= orders@.len(),
            cols == column::output_views(columns@),
            all == plan::nested(orders@),
            pk == primary_key@,
            sorting_owes(engine_name, pk, cols, all, i as int, Ok(column::output_views(held@))),
        decreases orders@.len() - i,
    {
        let ghost before = Ok::<Seq<OutputColumnView>, ErrorView>(column::output_views(held@));
        assert(all[i + 1 - 1] == orders@[i as int]@);
        let engine = engine_name.get_engine(
            EngineConfig::new(orders[i].as_slice(), primary_key.as_slice()),
        );
        if !engine.can_order(&held) {
            let ghost failed = Err::<Seq<OutputColumnView>, ErrorView>(unanswerable());
            assert(order_owes(engine_name, pk, before, all[i + 1 - 1], failed));
            assert(sorting_owes(engine_name, pk, cols, all, i + 1, failed));
            proof {
                lemma_error_stays(engine_name, pk, cols, all, i + 1, orders@.len() as int, unanswerable());
            }
            return Err(unanswerable_error());
        }
        match engine.order_columns(held) {
            Ok(sorted) => {
                assert(order_owes(engine_name, pk, before, all[i + 1 - 1], Ok(column::output_views(sorted@))));
                assert(sorting_owes(engine_name, pk, cols, all, i + 1, Ok(column::output_views(sorted@))));
                held = sorted;
            },
            Err(e) => {
                assert(order_owes(engine_name, pk, before, all[i + 1 - 1], Err(e@)));
                assert(sorting_owes(engine_name, pk, cols, all, i + 1, Err(e@)));
                proof {
                    lemma_error_stays(engine_name, pk, cols, all, i + 1, orders@.len() as int, e@);
                }
                return Err(e);
            },
        }
        i += 1;
    }
    Ok(held)
}

/// Once sorting has failed, it has failed.
proof fn lemma_error_stays(
    engine: EngineName,
    primary_key: Seq<ColumnDef>,
    columns: Seq<OutputColumnView>,
    orders: Seq<Seq<Projection>>,
    i: int,
    n: int,
    e: ErrorView,
)
    requires
        0 <= i <= n,
        sorting_owes(engine, primary_key, columns, orders, i, Err(e)),
    ensures
        sorting_owes(engine, primary_key, columns, orders, n, Err(e)),
    decreases n - i,
{
    if i < n {
        assert(order_owes(engine, primary_key, Err(e), orders[i + 1 - 1], Err(e)));
        assert(sorting_owes(engine, primary_key, columns, orders, i + 1, Err(e)));
        lemma_error_stays(engine, primary_key, columns, orders, i + 1, n, e);
    }
}

/// Leaves out the rows that the offset skips and those beyond the limit.
fn cut_columns(columns: Vec<OutputColumn>, limit: Option<usize>, offset: usize) -> (r: Outcome<Vec<OutputColumn>>)
    ensures
        column::output_outcome(r) == cut(column::output_views(columns@), limit, offset),
{
    let ghost cols = column::output_views(columns@);
    let ghost orig = columns@;
    let mut held = columns;
    if held.len() == 0 {
        assert(column::output_views(held@) =~= cut(cols, limit, offset)->Ok_0);
        return Ok(held);
    }
    assert(cols[0] == held@[0]@);
    let length: usize = held[0].data.len();
    let skipped: usize = if length <= offset {
        length
    } else {
        offset
    };
    let left: Option<usize> = match limit {
        Some(limit) => Some(
            if length - skipped <= limit {
                length - skipped
            } else {
                limit
            },
        ),
        None => None,
    };
    let mut i: usize = 0;
    while i < held.len()
        invariant
            i <= held@.len(),
            held@ == orig,
            orig == columns@,
            cols == column::output_views(orig),
            skipped == skipped_rows(cols, offset),
            forall|k: int| 0 <= k < i ==> (#[trigger] cols[k]).data.len() >= skipped,
        decreases held@.len() - i,
    {
        assert(cols[i as int] == held@[i as int]@);
        if held[i].data.len() < skipped {
            assert(cols[i as int].data.len() < skipped_rows(cols, offset));
            return Err(unanswerable_error());
        }
        i += 1;
    }
    let ghost left_nat: Option<nat> = left_rows(cols, limit, offset);
    let mut i: usize = 0;
    while i < held.len()
        invariant
            i <= held@.len(),
            held@.len() == orig.len(),
            cols == column::output_views(orig),
            skipped == skipped_rows(cols, offset),
            left_nat == left_rows(cols, limit, offset),
            match left {
                Some(n) => left_nat == Some(n as nat),
                None => left_nat is None,
            },
            forall|k: int| 0 <= k < cols.len() ==> (#[trigger] cols[k]).data.len() >= skipped,
            forall|k: int| i <= k < orig.len() ==> #[trigger] held@[k] == orig[k],
            forall|k: int|
                0 <= k < i ==> (#[trigger] held@[k])@ == (OutputColumnView {
                    proj: cols[k].proj,
                    data: cut_values(cols[k].data, skipped as nat, left_nat),
                }),
        decreases held@.len() - i,
    {
        assert(cols[i as int] == held@[i as int]@);
        let mut rest = held[i].data.split_off(skipped);
        assert(rest@ =~= cols[i as int].data.skip(skipped as int));
        if let Some(left) = left {
            rest.truncate(left);
        }
        assert(rest@ =~= cut_values(cols[i as int].data, skipped as nat, left_nat));
        held[i].data = rest;
        i += 1;
    }
    assert(column::output_views(held@) =~= cut(cols, limit, offset)->Ok_0);
    Ok(held)
}

impl Scan {
    /// The result of the query, once all its rows were read. `fold` says which double-precision
    /// number, by its bits, a function makes of numbers.
    ///
    /// Returns:
    ///   * Ok: the columns, sorted by ORDER BY, without the rows that OFFSET skips and those beyond
    ///     LIMIT.
    ///   * Error: the error of the engine that sorts, or `Internal` where values cannot be compared or
    ///     columns do not fit together.
    pub fn finish<F: Fn(FoldKind, &Vec<Value>) -> u64>(self, fold: &F, numbers: &Numbers) -> (r: Outcome<
        Vec<OutputColumn>,
    >)
        requires
            is_ready(self@),
            forall|kind: FoldKind, values: &Vec<Value>| #[trigger] call_requires(*fold, (kind, values)),
        ensures
            finish_owes(
                *fold,
                self.aggregator.format,
                numbers.readings@,
                self@,
                column::output_outcome(r),
            ),
    {
        let ghost this = self@;
        let Scan { strategy: _, filter: _, column_count: _, aggregator, order_by, limit, offset } = self;
        let ghost format = aggregator.format;
        let columns = aggregator.finalize(fold, numbers);
        let ghost cols = column::output_views(columns@);
        let no_key: Vec<ColumnDef> = Vec::new();
        assert(no_key@ =~= Seq::<ColumnDef>::empty());
        let sorted = match &order_by {
            None => Ok(columns),
            Some(orders) => sort_by_orders(EngineName::default(), &no_key, columns, orders),
        };
        let ghost sorted_view = column::output_outcome(sorted);
        assert(ordering_owes(cols, this.order_by, sorted_view));
        match sorted {
            Ok(columns) => cut_columns(columns, limit, offset),
            Err(e) => Err(e),
        }
    }
}

/// What a granule of the result of another query has for projections from `i` on, behind what was
/// read before.
pub open spec fn result_read(
    columns: Seq<OutputColumnView>,
    granule: int,
    projections: Seq<Projection>,
    readings: Seq<NumberReading>,
    i: int,
    read: Seq<Seq<Value>>,
) -> Result<Seq<Seq<Value>>, ErrorView>
    decreases projections.len() - i,
{
    if i >= projections.len() {
        Ok(read)
    } else {
        match virtual_storage::column_in(columns, granule, projections[i], readings) {
            Err(e) => Err(e),
            Ok(values) => result_read(columns, granule, projections, readings, i + 1, read.push(values)),
        }
    }
}

/// A granule of the result of another query.
pub open spec fn result_granule(columns: Seq<OutputColumnView>, granule: int) -> Seq<Seq<Value>> {
    columns.map_values(|c: OutputColumnView| virtual_storage::granule_values(c.data, granule))
}

/// A query after a granule of the result of another query.
pub open spec fn fed_granule(
    scan: ScanView,
    columns: Seq<OutputColumnView>,
    granule: int,
    readings: Seq<NumberReading>,
) -> Result<ScanView, ErrorView> {
    match result_read(columns, granule, aggregator::projs_to_read(scan.format), readings, 0, seq![]) {
        Err(e) => Err(e),
        Ok(chunk) => fed(scan, chunk, result_granule(columns, granule)),
    }
}

/// A query after the granules from one on of the result of another query, as many as it has to read.
pub open spec fn scanned(
    scan: ScanView,
    columns: Seq<OutputColumnView>,
    granule: int,
    readings: Seq<NumberReading>,
) -> Result<ScanView, ErrorView>
    decreases table_part::granule_count(row_count(columns), 8192) - granule,
{
    if scan.strategy.lines_to_read <= scan.strategy.lines_read || granule >= table_part::granule_count(
        row_count(columns),
        8192,
    ) {
        Ok(scan)
    } else {
        match fed_granule(scan, columns, granule, readings) {
            Err(e) => Err(e),
            Ok(next) => scanned(next, columns, granule + 1, readings),
        }
    }
}

/// What a query over the result of another query owes.
pub open spec fn result_scan_owes<F: Fn(FoldKind, &Vec<Value>) -> u64>(
    fold: F,
    columns: Seq<OutputColumnView>,
    defs: Seq<ColumnDef>,
    clauses: ClausesView,
    readings: Seq<NumberReading>,
    result: Result<Seq<OutputColumnView>, ErrorView>,
) -> bool {
    match started(clauses, defs, row_count(columns) as usize, readings) {
        Err(e) => result == Err::<Seq<OutputColumnView>, ErrorView>(e),
        Ok(scan) => match scanned(scan, columns, 0, readings) {
            Err(e) => result == Err::<Seq<OutputColumnView>, ErrorView>(e),
            Ok(end) => exists|format: AggregatorFormat|
                format@ == end.format && #[trigger] finish_owes(fold, format, readings, end, result),
        },
    }
}

/// Whether definitions are those of the columns of a result, for a query that reads the result.
pub open spec fn are_defs_of(
    defs: Seq<ColumnDef>,
    columns: Seq<OutputColumnView>,
    readings: Seq<NumberReading>,
) -> bool {
    &&& defs.len() == columns.len()
    &&& forall|i: int|
        0 <= i < columns.len() ==> virtual_storage::is_def_of(#[trigger] defs[i], columns[i].proj, readings)
}

proof fn lemma_projections_read(
    storage: VirtualStorage<Immutable>,
    granule: usize,
    projections: Seq<Projection>,
    readings: Seq<NumberReading>,
    i: int,
    read: Seq<Seq<Value>>,
)
    requires
        storage.granule_idx == Some(granule),
    ensures
        projections_read(storage, projections, readings, i, read) == result_read(
            column::output_views(storage.columns@),
            granule as int,
            projections,
            readings,
            i,
            read,
        ),
    decreases projections.len() - i,
{
    if i < projections.len() {
        if let Ok(values) = storage.chunk_column(projections[i], readings) {
            lemma_projections_read(storage, granule, projections, readings, i + 1, read.push(values));
        }
    }
}

proof fn lemma_schema_read(
    storage: VirtualStorage<Immutable>,
    granule: usize,
    readings: Seq<NumberReading>,
    i: int,
)
    requires
        storage.granule_idx == Some(granule),
        storage.schema.columns@.len() == storage.columns@.len(),
        0 <= i <= storage.columns@.len(),
    ensures
        schema_read(
            storage,
            readings,
            i,
            result_granule(column::output_views(storage.columns@), granule as int).take(i),
        ) == Ok::<Seq<Seq<Value>>, ErrorView>(
            result_granule(column::output_views(storage.columns@), granule as int),
        ),
    decreases storage.columns@.len() - i,
{
    let all = result_granule(column::output_views(storage.columns@), granule as int);
    if i < storage.columns@.len() {
        assert(storage.schema_column(i, readings) == Ok::<Seq<Value>, ErrorView>(all[i]));
        assert(all.take(i + 1) =~= all.take(i).push(all[i]));
        lemma_schema_read(storage, granule, readings, i + 1);
    } else {
        assert(all.take(i) =~= all);
    }
}

/// Taking in the loaded granule of a storage is taking in the granule of its columns.
proof fn lemma_fed_granule(
    scan: ScanView,
    storage: VirtualStorage<Immutable>,
    granule: usize,
    readings: Seq<NumberReading>,
)
    requires
        storage.granule_idx == Some(granule),
        storage.schema.columns@.len() == storage.columns@.len(),
    ensures
        fed_from(scan, storage, readings) == fed_granule(
            scan,
            column::output_views(storage.columns@),
            granule as int,
            readings,
        ),
{
    lemma_projections_read(
        storage,
        granule,
        aggregator::projs_to_read(scan.format),
        readings,
        0,
        seq![],
    );
    lemma_schema_read(storage, granule, readings, 0);
    let all = result_granule(column::output_views(storage.columns@), granule as int);
    assert(all.take(0) =~= Seq::<Seq<Value>>::empty());
}

/// Executes a query over the result of another query.
pub fn select_from_result<F: Fn(FoldKind, &Vec<Value>) -> u64>(
    columns: Vec<OutputColumn>,
    params: QueryParams,
    fold: &F,
    numbers: &Numbers,
) -> (r: Outcome<Vec<OutputColumn>>)
    requires
        forall|kind: FoldKind, values: &Vec<Value>| #[trigger] call_requires(*fold, (kind, values)),
    ensures
        exists|defs: Seq<ColumnDef>|
            are_defs_of(defs, column::output_views(columns@), numbers.readings@) && #[trigger] result_scan_owes(
                *fold,
                column::output_views(columns@),
                defs,
                params@,
                numbers.readings@,
                column::output_outcome(r),
            ),
{
    let ghost cols = column::output_views(columns@);
    let ghost readings = numbers.readings@;
    let ghost clauses = params@;
    let rows: usize = if columns.len() == 0 {
        0
    } else {
        assert(cols[0] == columns@[0]@);
        columns[0].data.len()
    };
    let ghost count = table_part::granule_count(rows as nat, 8192);
    let mut storage = VirtualStorage::from(columns, numbers);
    let ghost defs = storage.schema.columns@;
    let mut scan = match Scan::new(params, storage.get_schema(), rows, numbers) {
        Ok(scan) => scan,
        Err(e) => {
            assert(result_scan_owes(*fold, cols, defs, clauses, readings, Err(e@)));
            return Err(e);
        },
    };
    let ghost first = scan@;
    let ghost mut next: int = 0;
    loop
        invariant
            cols == column::output_views(columns@),
            are_defs_of(defs, cols, readings),
            readings == numbers.readings@,
            clauses == params@,
            storage.columns == columns,
            storage.schema.columns@ == defs,
            storage.well_formed(),
            rows == row_count(cols),
            rows == virtual_storage::rows_of(cols),
            count == table_part::granule_count(rows as nat, 8192),
            next == (match storage.granule_idx {
                Some(g) => g + 1,
                None => 0,
            }),
            0 <= next <= count,
            is_ready(scan@),
            started(clauses, defs, rows, readings) == Ok::<ScanView, ErrorView>(first),
            scanned(first, cols, 0, readings) == scanned(scan@, cols, next, readings),
        ensures
            scanned(first, cols, 0, readings) == Ok::<ScanView, ErrorView>(scan@),
            is_ready(scan@),
        decreases count - next,
    {
        if !scan.should_read_next_chunk() {
            break;
        }
        if !storage.load_next_chunk() {
            break;
        }
        proof {
            lemma_fed_granule(scan@, storage, storage.granule_idx->Some_0, readings);
        }
        match scan.feed(&storage, numbers) {
            Ok(_) => {},
            Err(e) => {
                assert(result_scan_owes(*fold, cols, defs, clauses, readings, Err(e@)));
                return Err(e);
            },
        }
        proof {
            next = next + 1;
        }
    }
    let ghost end = scan@;
    let ghost format = scan.aggregator.format;
    let r = scan.finish(fold, numbers);
    assert(finish_owes(*fold, format, readings, end, column::output_outcome(r)));
    assert(result_scan_owes(*fold, cols, defs, clauses, readings, column::output_outcome(r)));
    r
}

/// Of columns with as many rows as the first, the same window is left of each: the rows from the
/// offset on, and no more than the limit.
pub proof fn lemma_cut_is_a_window(columns: Seq<OutputColumnView>, limit: Option<usize>, offset: usize, i: int)
    requires
        0 <= i < columns.len(),
        forall|k: int| 0 <= k < columns.len() ==> (#[trigger] columns[k]).data.len() == row_count(columns),
    ensures
        cut(columns, limit, offset) is Ok,
        ({
            let n = row_count(columns) as int;
            let start = table_part::smaller(offset as int, n);
            let end = match limit {
                Some(l) => table_part::smaller(start + l, n),
                None => n,
            };
            cut(columns, limit, offset)->Ok_0[i] == (OutputColumnView {
                proj: columns[i].proj,
                data: columns[i].data.subrange(start, end),
            })
        }),
{
    let n = row_count(columns) as int;
    let start = table_part::smaller(offset as int, n);
    let end = match limit {
        Some(l) => table_part::smaller(start + l, n),
        None => n,
    };
    assert(columns[i].data.len() == n);
    assert(cut_values(
        columns[i].data,
        skipped_rows(columns, offset),
        left_rows(columns, limit, offset),
    ) =~= columns[i].data.subrange(start, end));
}

} // verus!
