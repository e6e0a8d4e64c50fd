//! Rows that are read from the parts of a table.
use core::marker::PhantomData;

use vstd::prelude::*;
use vstd::string::*;

use crate::error::{Error, ErrorView, Outcome};
use crate::runtime_config::TableConfig;
use crate::search;
use crate::sql::logical_plan::insert;
use crate::sql::projection;
use crate::sql::projection::Projection;
use crate::sql::sql_parser;
use crate::storage::column;
use crate::storage::compression;
use crate::storage::numbers::{NumberReading, Numbers};
use crate::storage::table_def::TableDef;
use crate::storage::table_metadata::{TableSchema, TableSchemaView, STANDARD_GRANULARITY};
use crate::storage::table_part;
use crate::storage::table_part::TablePartInfo;
use crate::storage::tables::{SealedMode, StorageRead};
use crate::storage::value::Value;
use crate::text::concat2;

verus! {

/// Which granule of which part of a table.
#[derive(Debug, Clone, Copy, PartialEq, Eq, Structural)]
pub struct ChunkPosition {
    pub part_idx: usize,
    pub granule_idx: usize,
}

/// The parts of a table, read granule by granule.
pub struct NativeStorage<'a, Mode: SealedMode> {
    pub table_def: &'a TableDef,
    pub config: &'a TableConfig,
    pub position: Option<ChunkPosition>,
    /// The values of the loaded granule, one list for each column of its part.
    pub chunk: Vec<Vec<Value>>,
    pub marker: PhantomData<Mode>,
}

/// The rows of the first `n` parts.
pub open spec fn rows_in(infos: Seq<TablePartInfo>, n: int) -> nat
    decreases n,
{
    if n <= 0 {
        0
    } else {
        rows_in(infos, n - 1) + infos[n - 1].row_count as nat
    }
}

proof fn lemma_rows_grow(infos: Seq<TablePartInfo>, i: int, n: int)
    requires
        0 <= i <= n,
    ensures
        rows_in(infos, i) <= rows_in(infos, n),
    decreases n - i,
{
    if i < n {
        lemma_rows_grow(infos, i, n - 1);
    }
}

/// The granule that is read after another: the next of its part, or the first of the next part.
pub open spec fn position_after(infos: Seq<TablePartInfo>, at: Option<ChunkPosition>) -> Option<ChunkPosition> {
    match at {
        None => if infos.len() > 0 {
            Some(ChunkPosition { part_idx: 0, granule_idx: 0 })
        } else {
            None
        },
        Some(p) => if p.granule_idx + 1 == infos[p.part_idx as int].marks@.len() {
            if p.part_idx + 1 < infos.len() {
                Some(ChunkPosition { part_idx: (p.part_idx + 1) as usize, granule_idx: 0 })
            } else {
                None
            }
        } else {
            Some(ChunkPosition { part_idx: p.part_idx, granule_idx: (p.granule_idx + 1) as usize })
        },
    }
}

/// Whether every part has a granule.
pub open spec fn have_granules(infos: Seq<TablePartInfo>) -> bool {
    forall|i: int| 0 <= i < infos.len() ==> (#[trigger] infos[i]).marks@.len() > 0
}

/// Whether a position is that of a granule.
pub open spec fn is_granule(infos: Seq<TablePartInfo>, p: ChunkPosition) -> bool {
    p.part_idx < infos.len() && p.granule_idx < infos[p.part_idx as int].marks@.len()
}

/// How many granules the first `n` parts have.
pub open spec fn granules_in(infos: Seq<TablePartInfo>, n: int) -> nat
    decreases n,
{
    if n <= 0 {
        0
    } else {
        granules_in(infos, n - 1) + infos[n - 1].marks@.len()
    }
}

/// How many granules come before a position.
pub open spec fn granules_before(infos: Seq<TablePartInfo>, at: Option<ChunkPosition>) -> int {
    match at {
        None => -1,
        Some(p) => granules_in(infos, p.part_idx as int) + p.granule_idx,
    }
}

/// Every granule of every part is read once, in order: each step goes one granule further, and none
/// is left when there is no further step.
pub proof fn lemma_every_granule_is_read_once(infos: Seq<TablePartInfo>, at: Option<ChunkPosition>)
    requires
        have_granules(infos),
        infos.len() <= usize::MAX,
        at matches Some(p) ==> is_granule(infos, p),
    ensures
        match position_after(infos, at) {
            Some(next) => is_granule(infos, next) && granules_before(infos, Some(next)) == granules_before(
                infos,
                at,
            ) + 1,
            None => granules_before(infos, at) + 1 == granules_in(infos, infos.len() as int),
        },
{
    if let Some(p) = at {
        assert(granules_in(infos, p.part_idx + 1) == granules_in(infos, p.part_idx as int)
            + infos[p.part_idx as int].marks@.len());
        assert(infos[p.part_idx as int].marks.len() == infos[p.part_idx as int].marks@.len());
    }
}

impl<'a, Mode: SealedMode> NativeStorage<'a, Mode> {
    /// The storage of a table, where the database knows the table.
    ///
    /// Returns: Self or `TableNotFound`
    pub fn try_from(table_def: &'a TableDef, config: Option<&'a TableConfig>) -> (r: Outcome<Self>)
        ensures
            match config {
                Some(c) => r matches Ok(s) && s.table_def == table_def && s.config == c && s.position is None
                    && s.chunk@.len() == 0,
                None => r matches Err(e) && e == Error::TableNotFound,
            },
    {
        match config {
            Some(config) => Ok(
                NativeStorage { table_def, config, position: None, chunk: Vec::new(), marker: PhantomData },
            ),
            None => Err(Error::TableNotFound),
        }
    }

    /// Whether every part has a granule.
    pub fn has_granules(&self) -> (r: bool)
        ensures
            r == have_granules(self.config.infos@),
    {
        let mut i: usize = 0;
        while i < self.config.infos.len()
            invariant
                i <= self.config.infos@.len(),
                forall|k: int| 0 <= k < i ==> (#[trigger] self.config.infos@[k]).marks@.len() > 0,
            decreases self.config.infos@.len() - i,
        {
            if self.config.infos[i].marks.len() == 0 {
                return false;
            }
            i += 1;
        }
        true
    }

    /// Goes on to the granule that follows.
    ///
    /// Returns: which it is, where there is one.
    pub fn advance_chunk_metadata(&mut self) -> (r: Option<ChunkPosition>)
        requires
            have_granules(old(self).config.infos@),
            old(self).position matches Some(p) ==> is_granule(old(self).config.infos@, p),
        ensures
            r == position_after(old(self).config.infos@, old(self).position),
            final(self).table_def == old(self).table_def,
            final(self).config == old(self).config,
            final(self).chunk == old(self).chunk,
            final(self).position == (if r is Some {
                r
            } else {
                old(self).position
            }),
            final(self).position matches Some(p) ==> is_granule(final(self).config.infos@, p),
    {
        let next = match self.position {
            None => if self.config.infos.len() > 0 {
                Some(ChunkPosition { part_idx: 0, granule_idx: 0 })
            } else {
                None
            },
            Some(p) => {
                let granules: usize = self.config.infos[p.part_idx].marks.len();
                if p.granule_idx + 1 == granules {
                    let parts: usize = self.config.infos.len();
                    if p.part_idx + 1 < parts {
                        Some(ChunkPosition { part_idx: p.part_idx + 1, granule_idx: 0 })
                    } else {
                        None
                    }
                } else {
                    Some(ChunkPosition { part_idx: p.part_idx, granule_idx: p.granule_idx + 1 })
                }
            },
        };
        if next.is_some() {
            self.position = next;
        }
        next
    }

    /// Takes the values of the granule at the position, one list for each column of its part.
    pub fn accept_chunk(&mut self, chunk: Vec<Vec<Value>>)
        requires
            old(self).position matches Some(p) ==> is_granule(old(self).config.infos@, p)
                && old(self).config.infos@[p.part_idx as int].column_defs@.len() <= chunk@.len(),
        ensures
            final(self).well_formed(),
            final(self).chunk == chunk,
            final(self).position == old(self).position,
            final(self).table_def == old(self).table_def,
            final(self).config == old(self).config,
    {
        self.chunk = chunk;
    }
}

/// The bytes of a granule of one column of a part.
pub open spec fn column_bytes(
    files: Seq<&[u8]>,
    info: TablePartInfo,
    granule: int,
    c: int,
) -> Result<Seq<u8>, ErrorView> {
    table_part::granule_in(
        files[c]@,
        info.marks@[granule].info@[c],
        info.column_defs@[c].constraints.compression_type,
    )
}

/// Whether a granule of one column lies within the file of the column.
pub open spec fn lies_in_file(files: Seq<&[u8]>, info: TablePartInfo, granule: int, c: int) -> bool {
    info.marks@[granule].info@[c].start <= info.marks@[granule].info@[c].end <= files[c]@.len()
}

/// Whether an error says that a granule of one column could not be read: the error that its bytes give
/// or, where there is something to decompress, that there was no memory for it.
pub open spec fn is_column_error(files: Seq<&[u8]>, info: TablePartInfo, granule: int, c: int, e: ErrorView) -> bool {
    ||| column_bytes(files, info, granule, c) == Err::<Seq<u8>, ErrorView>(e)
    ||| info.column_defs@[c].constraints.compression_type is LZ4 && lies_in_file(files, info, granule, c)
        && compression::is_no_decoder(e)
}

/// The columns of a chunk, where all of them could be read, in their order.
///
/// Returns: the bytes of each column, or the error of the first column that could not be read.
pub fn collect_columns(columns: Vec<Outcome<Vec<u8>>>) -> (r: Outcome<Vec<Vec<u8>>>)
    ensures
        match r {
            Ok(chunk) => chunk@.len() == columns@.len() && forall|c: int|
                0 <= c < columns@.len() ==> compression::bytes_outcome(#[trigger] columns@[c]) == Ok::<
                    Seq<u8>,
                    ErrorView,
                >(chunk@[c]@),
            Err(e) => exists|c: int|
                0 <= c < columns@.len() && compression::bytes_outcome(#[trigger] columns@[c]) == Err::<
                    Seq<u8>,
                    ErrorView,
                >(e@) && forall|k: int| 0 <= k < c ==> (#[trigger] columns@[k]) is Ok,
        },
{
    let mut held = columns;
    let mut chunk: Vec<Vec<u8>> = Vec::new();
    let mut c: usize = 0;
    while c < held.len()
        invariant
            c <= held@.len(),
            held@.len() == columns@.len(),
            forall|k: int| c <= k < columns@.len() ==> #[trigger] held@[k] == columns@[k],
            chunk@.len() == c,
            forall|k: int|
                0 <= k < c ==> compression::bytes_outcome(#[trigger] columns@[k]) == Ok::<Seq<u8>, ErrorView>(
                    chunk@[k]@,
                ),
        decreases held@.len() - c,
    {
        assert(held@[c as int] == columns@[c as int]);
        let mut column: Outcome<Vec<u8>> = Ok(Vec::new());
        core::mem::swap(&mut column, &mut held[c]);
        match column {
            Ok(bytes) => chunk.push(bytes),
            Err(e) => {
                assert(compression::bytes_outcome(columns@[c as int]) == Err::<Seq<u8>, ErrorView>(e@));
                return Err(e);
            },
        }
        c += 1;
    }
    Ok(chunk)
}

/// Reads and decompresses a granule of every column of a part.
///
/// Returns: the bytes of each column, or the error of the first column that could not be read.
pub fn decompress_chunk(files: &Vec<&[u8]>, info: &TablePartInfo, granule_idx: usize) -> (r: Outcome<Vec<Vec<u8>>>)
    requires
        granule_idx < info.marks@.len(),
        info.marks@[granule_idx as int].info@.len() >= info.column_defs@.len(),
        files@.len() >= info.column_defs@.len(),
    ensures
        match r {
            Ok(chunk) => chunk@.len() == info.column_defs@.len() && forall|c: int|
                0 <= c < chunk@.len() ==> column_bytes(files@, *info, granule_idx as int, c) == Ok::<
                    Seq<u8>,
                    ErrorView,
                >((#[trigger] chunk@[c])@),
            Err(e) => exists|c: int|
                0 <= c < info.column_defs@.len() && #[trigger] is_column_error(
                    files@,
                    *info,
                    granule_idx as int,
                    c,
                    e@,
                ) && forall|k: int| 0 <= k < c ==> (#[trigger] column_bytes(
                    files@,
                    *info,
                    granule_idx as int,
                    k,
                )) is Ok,
        },
        (forall|c: int|
            0 <= c < info.column_defs@.len() ==> (
            #[trigger] info.column_defs@[c]).constraints.compression_type is Uncompressed && lies_in_file(
                files@,
                *info,
                granule_idx as int,
                c,
            )) ==> r is Ok,
{
    let mut columns: Vec<Outcome<Vec<u8>>> = Vec::new();
    let mut has_failed = false;
    let mut c: usize = 0;
    while c < info.column_defs.len() && !has_failed
        invariant
            c <= info.column_defs@.len(),
            granule_idx < info.marks@.len(),
            info.marks@[granule_idx as int].info@.len() >= info.column_defs@.len(),
            files@.len() >= info.column_defs@.len(),
            columns@.len() == c,
            has_failed ==> c > 0 && columns@[c - 1] is Err,
            forall|k: int|
                0 <= k < c ==> match #[trigger] columns@[k] {
                    Ok(bytes) => column_bytes(files@, *info, granule_idx as int, k) == Ok::<Seq<u8>, ErrorView>(
                        bytes@,
                    ),
                    Err(e) => is_column_error(files@, *info, granule_idx as int, k, e@),
                },
        decreases info.column_defs@.len() - c,
    {
        let column = TablePartInfo::get_granule_bytes_decompressed(
            files[c],
            &info.marks[granule_idx].info[c],
            &info.column_defs[c].constraints.compression_type,
        );
        has_failed = column.is_err();
        columns.push(column);
        c += 1;
    }
    let ghost read = columns@;
    let r = collect_columns(columns);
    proof {
        match &r {
            Ok(chunk) => {
                if has_failed {
                    assert(compression::bytes_outcome(read[c - 1]) is Ok);
                }
                assert forall|k: int| 0 <= k < chunk@.len() implies column_bytes(
                    files@,
                    *info,
                    granule_idx as int,
                    k,
                ) == Ok::<Seq<u8>, ErrorView>((#[trigger] chunk@[k])@) by {
                    assert(compression::bytes_outcome(read[k]) is Ok);
                }
            },
            Err(e) => {
                let at = choose|at: int|
                    0 <= at < read.len() && compression::bytes_outcome(#[trigger] read[at]) == Err::<
                        Seq<u8>,
                        ErrorView,
                    >(e@) && forall|k: int| 0 <= k < at ==> (#[trigger] read[k]) is Ok;
                assert(is_column_error(files@, *info, granule_idx as int, at, e@));
                assert forall|k: int| 0 <= k < at implies (#[trigger] column_bytes(
                    files@,
                    *info,
                    granule_idx as int,
                    k,
                )) is Ok by {
                    assert(read[k] is Ok);
                }
                assert(0 <= at < info.column_defs@.len());
            },
        }
    }
    r
}

impl<'a, Mode: SealedMode> StorageRead for NativeStorage<'a, Mode> {
    open spec fn well_formed(&self) -> bool {
        self.position matches Some(p) ==> is_granule(self.config.infos@, p)
            && self.config.infos@[p.part_idx as int].column_defs@.len() <= self.chunk@.len()
    }

    open spec fn total_rows(&self) -> nat {
        rows_in(self.config.infos@, self.config.infos@.len() as int)
    }

    open spec fn schema_view(&self) -> TableSchemaView {
        self.config.metadata.schema@
    }

    open spec fn chunk_column(&self, proj: Projection, readings: Seq<NumberReading>) -> Result<Seq<Value>, ErrorView> {
        match self.position {
            None => Err(
                ErrorView::Internal(
                    "Tried to acces chunk data in `NativeStorage::access_chunk_column` while no data was loaded for table: "@
                        + (self.table_def.database@ + "."@ + self.table_def.table@),
                ),
            ),
            Some(p) => match search::position(
                self.config.infos@[p.part_idx as int].column_defs@,
                column::named(sql_parser::source_text(proj.source, readings)),
            ) {
                None => Ok(insert::repeated(Value::Null, 8192)),
                Some(i) => Ok(self.chunk@[i]@),
            },
        }
    }

    open spec fn schema_column(&self, i: int, readings: Seq<NumberReading>) -> Result<Seq<Value>, ErrorView> {
        self.chunk_column(projection::column_projection(self.config.metadata.schema.columns@[i]), readings)
    }

    fn get_total_rows(&self) -> (r: usize) {
        let infos = &self.config.infos;
        let mut total: usize = 0;
        let mut i: usize = 0;
        while i < infos.len()
            invariant
                i <= infos@.len(),
                infos == self.config.infos,
                total == rows_in(infos@, i as int),
                rows_in(infos@, infos@.len() as int) <= usize::MAX,
            decreases infos@.len() - i,
        {
            proof {
                lemma_rows_grow(infos@, i + 1, infos@.len() as int);
            }
            total = total + infos[i].row_count as usize;
            i += 1;
        }
        total
    }

    fn get_schema(&self) -> (r: &TableSchema) {
        &self.config.metadata.schema
    }

    fn access_chunk_column(&self, proj: &Projection, numbers: &Numbers) -> (r: Outcome<Vec<Value>>) {
        let p = match self.position {
            Some(p) => p,
            None => return Err(
                Error::Internal(
                    concat2(
                        "Tried to acces chunk data in `NativeStorage::access_chunk_column` while no data was loaded for table: ",
                        self.table_def.to_text().as_str(),
                    ),
                ),
            ),
        };
        let name = proj.source.to_text(numbers);
        match column::position_named(self.config.infos[p.part_idx].column_defs.as_slice(), name.as_str()) {
            None => Ok(insert::repeat_value(&Value::Null, STANDARD_GRANULARITY as usize)),
            Some(i) => Ok(column::clone_values(self.chunk[i].as_slice())),
        }
    }

    fn access_schema_column(&self, i: usize, numbers: &Numbers) -> (r: Outcome<Vec<Value>>) {
        let proj = Projection::from_column(self.config.metadata.schema.columns[i].clone());
        self.access_chunk_column(&proj, numbers)
    }
}

} // verus!
