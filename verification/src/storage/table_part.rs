//! Table parts: the immutable pieces that the data of a table consists of.
use vstd::prelude::*;
use vstd::string::*;

use crate::engines;
use crate::engines::{Engine, EngineConfig};
use crate::error::{Error, ErrorView, Outcome};
use crate::error;
use crate::search;
use crate::sql::projection;
use crate::sql::projection::ProjectionValue;
use crate::storage::column;
use crate::storage::column::{ColumnDef, OutputColumn, OutputColumnView, PhysicalColumn, PhysicalColumnView};
use crate::storage::compression;
use crate::storage::compression::{compress_bytes, decompress_bytes, CompressionType};
use crate::storage::frame;
use crate::storage::frame::FrameFault;
use crate::storage::literal;
use crate::storage::part_name;
use crate::storage::table_def::TableDef;
use crate::storage::table_metadata::{TableMetadata, TableMetadataView};
use crate::storage::value::Value;
use crate::text;
use crate::text::{concat2, concat3, concat5, decimal_text, same_text};

verus! {

/// The name of the file in the directory of a part that holds its information.
pub const PART_INFO_FILENAME: &'static str = "part.inf";

/// The bytes at the start of a column file: `THDATA`.
pub open spec fn column_magic() -> Seq<u8> {
    seq![84u8, 72, 68, 65, 84, 65]
}

/// The bytes at the start of a column file: `THDATA`.
pub fn column_magic_bytes() -> (r: Vec<u8>)
    ensures
        r@ == column_magic(),
{
    let r: Vec<u8> = vec![84u8, 72, 68, 65, 84, 65];
    assert(r@ =~= column_magic());
    r
}

/// The bytes at the start of a part information file: `THINDX`.
pub open spec fn info_magic() -> Seq<u8> {
    seq![84u8, 72, 73, 78, 68, 88]
}

/// The bytes at the start of a part information file: `THINDX`.
pub fn info_magic_bytes() -> (r: Vec<u8>)
    ensures
        r@ == info_magic(),
{
    let r: Vec<u8> = vec![84u8, 72, 73, 78, 68, 88];
    assert(r@ =~= info_magic());
    r
}

/// Represents a start byte position and end byte position of the
/// compressed granule.
#[derive(Debug, Clone, Copy, PartialEq, Eq, Structural)]
pub struct MarkInfo {
    pub start: u64,
    pub end: u64,
}

/// Represents a first row of each granule and start-end bytes info for each granule.
#[derive(Debug, PartialEq)]
pub struct Mark {
    pub index: Vec<Value>,
    pub info: Vec<MarkInfo>,
}

/// A mark with its lists as sequences.
#[verifier::ext_equal]
pub struct MarkView {
    pub index: Seq<Value>,
    pub info: Seq<MarkInfo>,
}

impl View for Mark {
    type V = MarkView;

    open spec fn view(&self) -> MarkView {
        MarkView { index: self.index@, info: self.info@ }
    }
}

impl Clone for Mark {
    fn clone(&self) -> (r: Self)
        ensures
            r@ == self@,
    {
        let mut info: Vec<MarkInfo> = Vec::new();
        info.extend_from_slice(self.info.as_slice());
        assert(info@ =~= self.info@);
        Mark { index: column::clone_values(self.index.as_slice()), info }
    }
}

/// Immutable table part information.
#[derive(Debug, PartialEq)]
pub struct TablePartInfo {
    pub name: String,
    pub row_count: u64,
    pub marks: Vec<Mark>,
    pub column_defs: Vec<ColumnDef>,
}

/// Part information with its lists as sequences.
#[verifier::ext_equal]
pub struct TablePartInfoView {
    pub name: String,
    pub row_count: u64,
    pub marks: Seq<MarkView>,
    pub column_defs: Seq<ColumnDef>,
}

/// The marks of a list, each with its lists as sequences.
pub open spec fn mark_views(marks: Seq<Mark>) -> Seq<MarkView> {
    marks.map_values(|m: Mark| m@)
}

/// The part information of a list, with its lists as sequences.
pub open spec fn info_views(infos: Seq<TablePartInfo>) -> Seq<TablePartInfoView> {
    infos.map_values(|i: TablePartInfo| i@)
}

impl View for TablePartInfo {
    type V = TablePartInfoView;

    open spec fn view(&self) -> TablePartInfoView {
        TablePartInfoView {
            name: self.name,
            row_count: self.row_count,
            marks: mark_views(self.marks@),
            column_defs: self.column_defs@,
        }
    }
}

impl Clone for TablePartInfo {
    fn clone(&self) -> (r: Self)
        ensures
            r@ == self@,
    {
        let mut marks: Vec<Mark> = Vec::new();
        let mut i: usize = 0;
        while i < self.marks.len()
            invariant
                i <= self.marks@.len(),
                marks@.len() == i,
                forall|k: int| 0 <= k < i ==> (#[trigger] marks@[k])@ == self.marks@[k]@,
            decreases self.marks@.len() - i,
        {
            marks.push(self.marks[i].clone());
            i += 1;
        }
        assert(mark_views(marks@) =~= mark_views(self.marks@));
        TablePartInfo {
            name: self.name.clone(),
            row_count: self.row_count,
            marks,
            column_defs: column::clone_columns(self.column_defs.as_slice()),
        }
    }
}

/// What a granule of a column file is decompressed to.
pub open spec fn granule_in(file: Seq<u8>, mark: MarkInfo, t: CompressionType) -> Result<Seq<u8>, ErrorView> {
    if mark.end < mark.start {
        Err(
            ErrorView::CouldNotReadData(
                "Invalid mark bounds: end ("@ + text::decimal(mark.end as nat) + ") < start ("@
                    + text::decimal(mark.start as nat) + ")"@,
            ),
        )
    } else if mark.end > file.len() {
        Err(
            ErrorView::CouldNotReadData(
                "Mark end ("@ + text::decimal(mark.end as nat) + ") exceeds file size ("@
                    + text::decimal(file.len()) + ")"@,
            ),
        )
    } else {
        compression::decompressed(file.subrange(mark.start as int, mark.end as int), t)
    }
}

/// The error for a part information file with a fault.
pub open spec fn info_fault(fault: FrameFault) -> ErrorView {
    match fault {
        FrameFault::TooSmall => ErrorView::CouldNotReadData("Part info file is too small"@),
        FrameFault::InvalidMagic => ErrorView::CouldNotReadData(
            "Invalid magic bytes in part info file"@,
        ),
        FrameFault::CrcMismatch => ErrorView::CouldNotReadData("CRC mismatch in part info file"@),
    }
}

/// The serialized information that a file holds.
pub open spec fn info_in(file: Seq<u8>) -> Result<Seq<u8>, ErrorView> {
    match frame::unframed(info_magic(), file) {
        Ok(data) => Ok(data),
        Err(fault) => Err(info_fault(fault)),
    }
}

/// The information that was written to a file is read back from it.
pub proof fn lemma_info_reads_back(data: Seq<u8>)
    requires
        data.len() > 0,
    ensures
        info_in(frame::framed(info_magic(), data)) == Ok::<Seq<u8>, ErrorView>(data),
{
    frame::lemma_file_gives_back_its_data(info_magic(), data);
}

/// The error for a column file with a fault.
pub open spec fn column_fault(fault: FrameFault, name: Seq<char>) -> ErrorView {
    match fault {
        FrameFault::TooSmall => ErrorView::CouldNotReadData("Column file ("@ + name + ") too small"@),
        FrameFault::InvalidMagic => ErrorView::CouldNotReadData(
            "Invalid magic bytes in column file ("@ + name + ")"@,
        ),
        FrameFault::CrcMismatch => ErrorView::CouldNotReadData(
            "CRC mismatch in column file ("@ + name + ")"@,
        ),
    }
}

impl PhysicalColumn {
    /// Checks the magic bytes and the checksum of a column file.
    ///
    /// Returns:
    ///   * Ok: the file holds what was written.
    ///   * Error: `CouldNotReadData` on a file that is too small, has invalid magic bytes, or a CRC
    ///     mismatch.
    pub fn validate_mmap(file: &[u8], col_name: &str) -> (r: Outcome<()>)
        ensures
            error::outcome(r) == (match frame::unframed(column_magic(), file@) {
                Ok(_) => Ok(()),
                Err(fault) => Err(column_fault(fault, col_name@)),
            }),
    {
        match frame::check_frame(column_magic_bytes().as_slice(), file) {
            Ok(_) => Ok(()),
            Err(fault) => Err(
                Error::CouldNotReadData(
                    match fault {
                        FrameFault::TooSmall => concat3("Column file (", col_name, ") too small"),
                        FrameFault::InvalidMagic => concat3(
                            "Invalid magic bytes in column file (",
                            col_name,
                            ")",
                        ),
                        FrameFault::CrcMismatch => concat3(
                            "CRC mismatch in column file (",
                            col_name,
                            ")",
                        ),
                    },
                ),
            ),
        }
    }
}

impl TablePartInfo {
    /// Returns the path of a column's data file within this part, from the storage directory on: one
    /// name for each step.
    pub fn get_column_path(&self, table_def: &TableDef, column_def: &ColumnDef) -> (r: Vec<String>)
        ensures
            r@.len() == 4,
            r@[0] == table_def.database,
            r@[1] == table_def.table,
            r@[2] == self.name,
            r@[3]@ == column_def.name@ + ".bin"@,
    {
        let mut path = table_def.get_path();
        path.push(self.name.clone());
        path.push(concat2(column_def.name.as_str(), ".bin"));
        path
    }

    /// Reads and decompresses a granule of a column file.
    ///
    /// Args:
    ///   * `bytes`: Column file.
    ///   * `mark_info`: `MarkInfo` of granule
    ///   * `compression_type`: Compression type for the granule
    ///
    /// Returns: Vec with data from specified granule or `CouldNotReadData` on failure
    pub fn get_granule_bytes_decompressed(
        bytes: &[u8],
        mark_info: &MarkInfo,
        compression_type: &CompressionType,
    ) -> (r: Outcome<Vec<u8>>)
        ensures
            compression::bytes_outcome(r) == granule_in(bytes@, *mark_info, *compression_type) || (
            mark_info.start <= mark_info.end <= bytes@.len() && compression::decompresses_to(
                bytes@.subrange(mark_info.start as int, mark_info.end as int),
                *compression_type,
                compression::bytes_outcome(r),
            )),
    {
        if mark_info.end < mark_info.start {
            return Err(
                Error::CouldNotReadData(
                    concat5(
                        "Invalid mark bounds: end (",
                        decimal_text(mark_info.end).as_str(),
                        ") < start (",
                        decimal_text(mark_info.start).as_str(),
                        ")",
                    ),
                ),
            );
        }
        if mark_info.end > bytes.len() as u64 {
            return Err(
                Error::CouldNotReadData(
                    concat5(
                        "Mark end (",
                        decimal_text(mark_info.end).as_str(),
                        ") exceeds file size (",
                        decimal_text(bytes.len() as u64).as_str(),
                        ")",
                    ),
                ),
            );
        }
        let compressed = vstd::slice::slice_subrange(
            bytes,
            mark_info.start as usize,
            mark_info.end as usize,
        );
        decompress_bytes(compressed, compression_type)
    }

    /// The file for serialized information, with magic bytes and CRC32 checksum.
    pub fn encode_file(data: &[u8]) -> (r: Vec<u8>)
        ensures
            r@ == frame::framed(info_magic(), data@),
    {
        frame::frame(info_magic_bytes().as_slice(), data)
    }

    /// The serialized information that a file holds, verifying magic bytes and CRC32 checksum.
    ///
    /// Returns:
    ///   * Ok: the serialized information.
    ///   * Error: `CouldNotReadData` on a file that is too small, has invalid magic bytes, or a CRC
    ///     mismatch.
    pub fn decode_file(file: &[u8]) -> (r: Outcome<Vec<u8>>)
        ensures
            compression::bytes_outcome(r) == info_in(file@),
    {
        match frame::unframe(info_magic_bytes().as_slice(), file) {
            Ok(data) => Ok(data),
            Err(fault) => Err(
                Error::CouldNotReadData(
                    match fault {
                        FrameFault::TooSmall => "Part info file is too small".to_owned(),
                        FrameFault::InvalidMagic => "Invalid magic bytes in part info file".to_owned(),
                        FrameFault::CrcMismatch => "CRC mismatch in part info file".to_owned(),
                    },
                ),
            ),
        }
    }
}

/// A part of a table: its information and its data.
#[derive(Debug, PartialEq)]
pub struct TablePart {
    pub info: TablePartInfo,
    pub data: Vec<PhysicalColumn>,
}

/// A part with its lists as sequences.
#[verifier::ext_equal]
pub struct TablePartView {
    pub info: TablePartInfoView,
    pub data: Seq<PhysicalColumnView>,
}

impl View for TablePart {
    type V = TablePartView;

    open spec fn view(&self) -> TablePartView {
        TablePartView { info: self.info@, data: column::physical_views(self.data@) }
    }
}

/// How many granules a number of rows takes, where each holds `granularity` rows.
pub open spec fn granule_count(rows: nat, granularity: nat) -> nat {
    if rows == 0 {
        0
    } else {
        ((rows - 1) / granularity as int + 1) as nat
    }
}

/// The columns of a list that are columns of the primary key, in the order of the list.
pub open spec fn key_columns(columns: Seq<PhysicalColumnView>, primary_key: Seq<ColumnDef>) -> Seq<PhysicalColumnView>
    decreases columns.len(),
{
    if columns.len() == 0 {
        seq![]
    } else {
        let rest = key_columns(columns.drop_last(), primary_key);
        if search::position(primary_key, column::equal_to(columns.last().column_def)) is Some {
            rest.push(columns.last())
        } else {
            rest
        }
    }
}

/// The number of rows of the first of a list of columns.
pub open spec fn first_length(columns: Seq<PhysicalColumnView>) -> nat {
    if columns.len() == 0 {
        0
    } else {
        columns[0].data.len()
    }
}

/// The values of one row.
pub open spec fn row_values(columns: Seq<PhysicalColumnView>, row: int) -> Seq<Value> {
    Seq::new(columns.len(), |k: int| columns[k].data[row])
}

/// The marks of columns: for each granule the first row of the key columns, and no bytes yet.
pub open spec fn first_rows(keys: Seq<PhysicalColumnView>, granularity: nat) -> Seq<MarkView> {
    Seq::new(
        granule_count(first_length(keys), granularity),
        |i: int| MarkView { index: row_values(keys, i * granularity), info: seq![] },
    )
}

/// Whether every column has `n` values.
pub open spec fn physical_lengths(columns: Seq<PhysicalColumnView>, n: nat) -> bool {
    forall|i: int| 0 <= i < columns.len() ==> (#[trigger] columns[i]).data.len() == n
}

proof fn lemma_key_columns_lengths(columns: Seq<PhysicalColumnView>, primary_key: Seq<ColumnDef>, n: nat)
    requires
        physical_lengths(columns, n),
    ensures
        physical_lengths(key_columns(columns, primary_key), n),
    decreases columns.len(),
{
    if columns.len() > 0 {
        lemma_key_columns_lengths(columns.drop_last(), primary_key, n);
    }
}

/// The first row of a granule is a row.
proof fn lemma_granule_starts_at_row(rows: nat, granularity: nat, i: int)
    by (nonlinear_arith)
    requires
        granularity > 0,
        rows > 0,
        0 <= i <= (rows - 1) / granularity as int,
    ensures
        0 <= i * granularity < rows,
{
}

/// Every row lies in exactly one granule, and no granule is empty.
pub proof fn lemma_granules_cover_rows(rows: nat, granularity: nat, row: int)
    requires
        granularity > 0,
        0 <= row < rows,
    ensures
        0 <= row / granularity as int,
        row / (granularity as int) < granule_count(rows, granularity),
        (row / granularity as int) * granularity <= row < (row / granularity as int + 1) * granularity,
{
    assert(row / granularity as int <= (rows - 1) / granularity as int) by (nonlinear_arith)
        requires
            granularity > 0,
            0 <= row < rows,
    ;
    assert((row / granularity as int) * granularity <= row < (row / granularity as int + 1) * granularity)
        by (nonlinear_arith)
        requires
            granularity > 0,
            0 <= row,
    ;
}

/// The marks of columns: the first row of each granule.
pub fn generate_indexes(columns: &Vec<PhysicalColumn>, order_by: &[ColumnDef], index_granularity: u32) -> (r: Vec<
    Mark,
>)
    requires
        index_granularity > 0,
        physical_lengths(
            key_columns(column::physical_views(columns@), order_by@),
            first_length(key_columns(column::physical_views(columns@), order_by@)),
        ),
    ensures
        mark_views(r@) == first_rows(
            key_columns(column::physical_views(columns@), order_by@),
            index_granularity as nat,
        ),
{
    let ghost cols = column::physical_views(columns@);
    let ghost keys = key_columns(cols, order_by@);
    let mut positions: Vec<usize> = Vec::new();
    let mut i: usize = 0;
    assert(cols.take(0) =~= Seq::<PhysicalColumnView>::empty());
    while i < columns.len()
        invariant
            i <= columns@.len(),
            cols == column::physical_views(columns@),
            forall|k: int| 0 <= k < positions@.len() ==> (#[trigger] positions@[k]) < columns@.len(),
            key_columns(cols.take(i as int), order_by@).len() == positions@.len(),
            forall|k: int|
                0 <= k < positions@.len() ==> key_columns(cols.take(i as int), order_by@)[k]
                    == cols[#[trigger] positions@[k] as int],
        decreases columns@.len() - i,
    {
        assert(cols.take(i + 1).drop_last() =~= cols.take(i as int));
        assert(cols.take(i + 1).last() == columns@[i as int]@);
        if column::position_equal(order_by, &columns[i].column_def).is_some() {
            positions.push(i);
        }
        i += 1;
    }
    assert(cols.take(i as int) =~= cols);
    let granularity: usize = index_granularity as usize;
    let mut marks: Vec<Mark> = Vec::new();
    if positions.len() > 0 {
        assert(keys[0] == cols[positions@[0] as int]);
        let total_rows: usize = columns[positions[0]].data.len();
        if total_rows > 0 {
            assert((total_rows - 1) / granularity as int <= total_rows - 1) by (nonlinear_arith)
                requires
                    total_rows > 0,
                    granularity > 0,
            ;
            let num_granules: usize = (total_rows - 1) / granularity + 1;
            let mut g: usize = 0;
            while g < num_granules
                invariant
                    cols == column::physical_views(columns@),
                    keys == key_columns(cols, order_by@),
                    keys.len() == positions@.len(),
                    forall|k: int| 0 <= k < positions@.len() ==> (#[trigger] positions@[k]) < columns@.len(),
                    forall|k: int| 0 <= k < positions@.len() ==> keys[k] == cols[#[trigger] positions@[k] as int],
                    physical_lengths(keys, total_rows as nat),
                    total_rows > 0,
                    granularity == index_granularity,
                    granularity > 0,
                    num_granules == (total_rows - 1) / granularity as int + 1,
                    g <= num_granules,
                    marks@.len() == g,
                    forall|m: int|
                        0 <= m < marks@.len() ==> (#[trigger] marks@[m])@.index == row_values(keys, m * granularity)
                            && marks@[m]@.info == Seq::<MarkInfo>::empty(),
                decreases num_granules - g,
            {
                proof {
                    lemma_granule_starts_at_row(total_rows as nat, granularity as nat, g as int);
                }
                let row_idx: usize = g * granularity;
                let index = row_at(columns, &positions, row_idx);
                assert(index@ =~= row_values(keys, g * granularity));
                marks.push(Mark { index, info: Vec::new() });
                g += 1;
            }
        }
    }
    assert(mark_views(marks@) =~= first_rows(keys, granularity as nat));
    marks
}

/// The values that the columns at given positions have in one row.
fn row_at(columns: &Vec<PhysicalColumn>, positions: &Vec<usize>, row: usize) -> (r: Vec<Value>)
    requires
        forall|k: int|
            0 <= k < positions@.len() ==> (#[trigger] positions@[k]) < columns@.len() && row
                < columns@[positions@[k] as int].data@.len(),
    ensures
        r@.len() == positions@.len(),
        forall|k: int|
            0 <= k < positions@.len() ==> #[trigger] r@[k] == columns@[positions@[k] as int].data@[row as int],
{
    let mut r: Vec<Value> = Vec::new();
    let mut k: usize = 0;
    while k < positions.len()
        invariant
            k <= positions@.len(),
            forall|m: int|
                0 <= m < positions@.len() ==> (#[trigger] positions@[m]) < columns@.len() && row
                    < columns@[positions@[m] as int].data@.len(),
            r@.len() == k,
            forall|m: int| 0 <= m < k ==> #[trigger] r@[m] == columns@[positions@[m] as int].data@[row as int],
        decreases positions@.len() - k,
    {
        assert(positions@[k as int] < columns@.len());
        r.push(columns[positions[k]].data[row].clone());
        k += 1;
    }
    r
}

/// Columns of a result as columns of a table.
pub open spec fn physical_of(out: Seq<OutputColumnView>) -> Seq<PhysicalColumnView> {
    out.map_values(
        |c: OutputColumnView|
            PhysicalColumnView { column_def: c.proj.source->ColumnDef_0, data: c.data },
    )
}

/// The definitions of columns.
pub open spec fn defs_of(columns: Seq<PhysicalColumnView>) -> Seq<ColumnDef> {
    columns.map_values(|c: PhysicalColumnView| c.column_def)
}

/// The part with given columns, which are in order.
pub open spec fn part_of(name: String, data: Seq<PhysicalColumnView>, metadata: TableMetadataView) -> TablePartView {
    TablePartView {
        info: TablePartInfoView {
            name,
            row_count: data[0].data.len() as u64,
            marks: first_rows(
                key_columns(data, metadata.schema.primary_key),
                metadata.settings.index_granularity as nat,
            ),
            column_defs: defs_of(data),
        },
        data,
    }
}

/// Whether the engine of a table can put the columns in order.
pub open spec fn can_be_sorted(metadata: TableMetadataView, columns: Seq<PhysicalColumnView>) -> bool {
    engines::engine_orderable(
        metadata.settings.engine,
        projection::column_projections(metadata.schema.order_by),
        column::outputs_of(columns),
    )
}

/// What putting columns in order owes for a part: the columns as the engine orders them, or its
/// error.
pub open spec fn ordered_part_owes(
    metadata: TableMetadataView,
    columns: Seq<PhysicalColumnView>,
    name: String,
    result: Result<TablePartView, ErrorView>,
    ordered: Result<Seq<OutputColumnView>, ErrorView>,
) -> bool {
    &&& engines::engine_owes(
        metadata.settings.engine,
        projection::column_projections(metadata.schema.order_by),
        metadata.schema.primary_key,
        column::outputs_of(columns),
        ordered,
    )
    &&& result == (match ordered {
        Ok(out) => Ok(part_of(name, physical_of(out), metadata)),
        Err(e) => Err(e),
    })
}

/// What making a part of columns owes.
pub open spec fn part_owes(
    metadata: TableMetadataView,
    columns: Seq<PhysicalColumnView>,
    name: String,
    result: Result<TablePartView, ErrorView>,
) -> bool {
    if columns.len() == 0 {
        result == Err::<TablePartView, ErrorView>(ErrorView::InvalidSource("No columns provided"@))
    } else if columns[0].data.len() == 0 {
        result == Err::<TablePartView, ErrorView>(ErrorView::InvalidSource("No data provided"@))
    } else {
        exists|ordered: Result<Seq<OutputColumnView>, ErrorView>|
            #[trigger] ordered_part_owes(metadata, columns, name, result, ordered)
    }
}

/// Whether a name is the one that was asked for or, where none was, a new one that tells the time.
pub open spec fn is_chosen(asked: Option<String>, name: String) -> bool {
    match asked {
        Some(n) => name == n,
        None => part_name::is_time_ordered(literal::parsed_uuid(name@)),
    }
}

impl TablePart {
    /// Whether the engine of a table can put the columns in order.
    pub fn can_sort(metadata: &TableMetadata, columns: &Vec<PhysicalColumn>) -> (r: bool)
        ensures
            r == can_be_sorted(metadata@, column::physical_views(columns@)),
    {
        let mut copies: Vec<PhysicalColumn> = Vec::new();
        let mut i: usize = 0;
        while i < columns.len()
            invariant
                i <= columns@.len(),
                copies@.len() == i,
                forall|k: int| 0 <= k < i ==> (#[trigger] copies@[k])@ == columns@[k]@,
            decreases columns@.len() - i,
        {
            copies.push(columns[i].clone());
            i += 1;
        }
        assert(column::physical_views(copies@) =~= column::physical_views(columns@));
        let order_by = projection::projections_of(metadata.schema.order_by.as_slice());
        let engine = metadata.settings.engine.get_engine(
            EngineConfig::new(order_by.as_slice(), metadata.schema.primary_key.as_slice()),
        );
        engine.can_order(&column::into_output_columns(copies))
    }

    /// Creates a new table part with the given name and indexes.
    ///
    /// Orders columns according to engine requirements and generates primary indexes
    /// for PRIMARY KEY columns.
    ///
    /// Returns: Self or engine error
    pub fn with_name(metadata: &TableMetadata, columns: Vec<PhysicalColumn>, name: String) -> (r: Outcome<Self>)
        requires
            metadata.settings.index_granularity > 0,
            can_be_sorted(metadata@, column::physical_views(columns@)),
        ensures
            part_owes(metadata@, column::physical_views(columns@), name, error::outcome_view(r)),
    {
        let ghost given = column::physical_views(columns@);
        if columns.len() == 0 {
            return Err(Error::InvalidSource("No columns provided".to_owned()));
        }
        assert(given[0] == columns@[0]@);
        if columns[0].data.len() == 0 {
            return Err(Error::InvalidSource("No data provided".to_owned()));
        }
        let order_by = projection::projections_of(metadata.schema.order_by.as_slice());
        let engine = metadata.settings.engine.get_engine(
            EngineConfig::new(order_by.as_slice(), metadata.schema.primary_key.as_slice()),
        );
        let ghost cols = column::outputs_of(given);
        let ordered = engine.order_columns(column::into_output_columns(columns));
        let ghost owed = column::output_outcome(ordered);
        let out = match ordered {
            Ok(out) => out,
            Err(e) => {
                assert(ordered_part_owes(metadata@, given, name, Err(e@), owed));
                return Err(e);
            },
        };
        let ghost sorted = column::output_views(out@);
        proof {
            engines::lemma_engine_keeps_columns(
                metadata.settings.engine,
                order_by@,
                metadata.schema.primary_key@,
                cols,
                sorted,
            );
            assert forall|i: int| 0 <= i < out@.len() implies (#[trigger] out@[i]).proj.source is ColumnDef by {
                assert(sorted[i] == out@[i]@);
                assert(sorted[i].proj == cols[i].proj);
            }
        }
        let data = into_physical_columns(out);
        let ghost phys = column::physical_views(data@);
        proof {
            assert(physical_lengths(phys, phys[0].data.len())) by {
                assert forall|i: int| 0 <= i < phys.len() implies (#[trigger] phys[i]).data.len()
                    == phys[0].data.len() by {
                    assert(sorted[i].data.len() == sorted[0].data.len());
                }
            }
            lemma_key_columns_lengths(phys, metadata.schema.primary_key@, phys[0].data.len());
        }
        let marks = generate_indexes(
            &data,
            metadata.schema.primary_key.as_slice(),
            metadata.settings.index_granularity,
        );
        assert(phys[0] == data@[0]@);
        let row_count: u64 = data[0].data.len() as u64;
        let mut column_defs: Vec<ColumnDef> = Vec::new();
        let mut i: usize = 0;
        while i < data.len()
            invariant
                i <= data@.len(),
                column_defs@.len() == i,
                forall|k: int| 0 <= k < i ==> #[trigger] column_defs@[k] == data@[k].column_def,
            decreases data@.len() - i,
        {
            column_defs.push(data[i].column_def.clone());
            i += 1;
        }
        assert(column_defs@ =~= defs_of(phys));
        let part = TablePart { info: TablePartInfo { name, row_count, marks, column_defs }, data };
        assert(ordered_part_owes(metadata@, given, name, Ok(part@), owed));
        Ok(part)
    }

    /// Creates a new table part, with generated UUID name where none is given, and indexes.
    ///
    /// Orders columns according to engine requirements and generates primary indexes
    /// for PRIMARY KEY columns.
    ///
    /// Returns: Self or engine error
    pub fn try_new(metadata: &TableMetadata, columns: Vec<PhysicalColumn>, name: Option<String>) -> (r: Outcome<
        Self,
    >)
        requires
            metadata.settings.index_granularity > 0,
            can_be_sorted(metadata@, column::physical_views(columns@)),
        ensures
            exists|chosen: String|
                is_chosen(name, chosen) && #[trigger] part_owes(
                    metadata@,
                    column::physical_views(columns@),
                    chosen,
                    error::outcome_view(r),
                ),
    {
        let chosen = match name {
            Some(name) => name,
            None => part_name::new_part_name(),
        };
        Self::with_name(metadata, columns, chosen)
    }
}

/// Columns of a result, all of which stand for columns of a table, as columns of the table.
fn into_physical_columns(out: Vec<OutputColumn>) -> (r: Vec<PhysicalColumn>)
    requires
        forall|i: int| 0 <= i < out@.len() ==> (#[trigger] out@[i]).proj.source is ColumnDef,
    ensures
        column::physical_views(r@) == physical_of(column::output_views(out@)),
{
    let ghost before = out@;
    let mut out = out;
    let mut r: Vec<PhysicalColumn> = Vec::new();
    let mut i: usize = 0;
    while i < out.len()
        invariant
            i <= out@.len(),
            out@.len() == before.len(),
            forall|k: int| 0 <= k < before.len() ==> (#[trigger] before[k]).proj.source is ColumnDef,
            forall|k: int| i <= k < before.len() ==> #[trigger] out@[k] == before[k],
            r@.len() == i,
            forall|k: int|
                0 <= k < i ==> (#[trigger] r@[k])@ == physical_of(column::output_views(before))[k],
        decreases out@.len() - i,
    {
        assert(out@[i as int] == before[i as int]);
        let mut data: Vec<Value> = Vec::new();
        core::mem::swap(&mut data, &mut out[i].data);
        if let ProjectionValue::ColumnDef(column_def) = &out[i].proj.source {
            r.push(PhysicalColumn { column_def: column_def.clone(), data });
        }
        i += 1;
    }
    assert(column::physical_views(r@) =~= physical_of(column::output_views(before)));
    r
}

/// The smaller of two numbers.
pub open spec fn smaller(a: int, b: int) -> int {
    if a <= b {
        a
    } else {
        b
    }
}

/// The granules of a column: runs of `granularity` values, the last of which may be shorter.
pub open spec fn granules_of(data: Seq<Value>, granularity: nat) -> Seq<Seq<Value>> {
    Seq::new(
        granule_count(data.len(), granularity),
        |i: int| data.subrange(i * granularity, smaller((i + 1) * granularity, data.len() as int)),
    )
}

/// The granules of a column without its first granule are its other granules.
proof fn lemma_granules_step(data: Seq<Value>, granularity: nat)
    requires
        granularity > 0,
        data.len() > granularity,
    ensures
        granules_of(data, granularity).drop_first() == granules_of(data.skip(granularity as int), granularity),
        granules_of(data, granularity).len() > 0,
        granules_of(data, granularity)[0] == data.take(granularity as int),
{
    let rest = data.skip(granularity as int);
    let n = data.len();
    assert((n - 1) / granularity as int == (n - granularity - 1) / granularity as int + 1) by (nonlinear_arith)
        requires
            granularity > 0,
            n > granularity,
    ;
    let a = granules_of(data, granularity).drop_first();
    let b = granules_of(rest, granularity);
    assert(a.len() == b.len());
    assert forall|i: int| 0 <= i < a.len() implies a[i] == b[i] by {
        lemma_granule_starts_at_row(rest.len(), granularity, i);
        assert((i + 1) * granularity == i * granularity + granularity) by (nonlinear_arith);
        assert((i + 2) * granularity == (i + 1) * granularity + granularity) by (nonlinear_arith);
        assert(a[i] =~= b[i]);
    }
    assert(a =~= b);
    assert(0 * granularity == 0 && (0 + 1) * granularity == granularity) by (nonlinear_arith);
    assert(granules_of(data, granularity)[0] =~= data.take(granularity as int));
}

/// The granules of a column, one behind the other, are its data: none is lost and none occurs twice.
pub proof fn lemma_granules_give_back_data(data: Seq<Value>, granularity: nat)
    requires
        granularity > 0,
    ensures
        granules_of(data, granularity).flatten() == data,
    decreases data.len(),
{
    let granules = granules_of(data, granularity);
    if data.len() == 0 {
        assert(granules =~= Seq::<Seq<Value>>::empty());
        assert(granules.flatten() =~= data);
    } else if data.len() <= granularity {
        let n = data.len();
        assert((n - 1) / granularity as int == 0) by (nonlinear_arith)
            requires
                0 < n <= granularity,
        ;
        assert(0 * granularity == 0 && (0 + 1) * granularity == granularity) by (nonlinear_arith);
        assert(granules[0] =~= data);
        assert(granules =~= seq![data]);
        assert(granules.drop_first() =~= Seq::<Seq<Value>>::empty());
        assert(granules.drop_first().flatten() =~= Seq::<Value>::empty());
        assert(granules.flatten() =~= data);
    } else {
        lemma_granules_step(data, granularity);
        lemma_granules_give_back_data(data.skip(granularity as int), granularity);
        assert(granules.flatten() == granules[0] + granules.drop_first().flatten());
        assert(data.take(granularity as int) + data.skip(granularity as int) =~= data);
    }
}

/// The granules of a column.
pub fn split_granules(data: &Vec<Value>, index_granularity: u32) -> (r: Vec<Vec<Value>>)
    requires
        index_granularity > 0,
    ensures
        r@.map_values(|g: Vec<Value>| g@) == granules_of(data@, index_granularity as nat),
{
    let granularity: usize = index_granularity as usize;
    let total_rows: usize = data.len();
    let mut r: Vec<Vec<Value>> = Vec::new();
    if total_rows > 0 {
        assert((total_rows - 1) / granularity as int <= total_rows - 1) by (nonlinear_arith)
            requires
                total_rows > 0,
                granularity > 0,
        ;
        let num_granules: usize = (total_rows - 1) / granularity + 1;
        let mut g: usize = 0;
        while g < num_granules
            invariant
                total_rows == data@.len(),
                total_rows > 0,
                granularity == index_granularity,
                granularity > 0,
                num_granules == (total_rows - 1) / granularity as int + 1,
                g <= num_granules,
                r@.len() == g,
                forall|m: int|
                    0 <= m < g ==> (#[trigger] r@[m])@ == granules_of(data@, granularity as nat)[m],
            decreases num_granules - g,
        {
            proof {
                lemma_granule_starts_at_row(total_rows as nat, granularity as nat, g as int);
                assert((g + 1) * granularity == g * granularity + granularity) by (nonlinear_arith);
            }
            let chunk_start: usize = g * granularity;
            let chunk_end: usize = if total_rows - chunk_start < granularity {
                total_rows
            } else {
                chunk_start + granularity
            };
            r.push(column::clone_values(vstd::slice::slice_subrange(data.as_slice(), chunk_start, chunk_end)));
            g += 1;
        }
    }
    assert(r@.map_values(|g: Vec<Value>| g@) =~= granules_of(data@, granularity as nat));
    r
}

/// What serializing a granule gave: its bytes, or the text of an error.
pub open spec fn serialized(granules: Seq<Result<Vec<u8>, String>>, i: int) -> Seq<u8> {
    granules[i]->Ok_0@
}

/// Whether a granule was serialized, and given bytes are what it was compressed to.
pub open spec fn is_packed(granule: Result<Vec<u8>, String>, packed: Seq<u8>) -> bool {
    granule matches Ok(bytes) && compression::compresses_to(bytes@, CompressionType::LZ4(3), packed)
}

/// Whether the first `n` granules were serialized, and given bytes are what they were compressed to.
pub open spec fn packs(granules: Seq<Result<Vec<u8>, String>>, packed: Seq<Seq<u8>>, n: int) -> bool {
    forall|i: int| 0 <= i < n ==> is_packed(granules[i], #[trigger] packed[i])
}

/// The first `n` compressed granules, one behind the other.
pub open spec fn joined(packed: Seq<Seq<u8>>, n: int) -> Seq<u8>
    decreases n,
{
    if n <= 0 {
        seq![]
    } else {
        joined(packed, n - 1) + packed[n - 1]
    }
}

/// Where a compressed granule lies in the file of its column.
pub open spec fn mark_of(packed: Seq<Seq<u8>>, i: int) -> MarkInfo {
    MarkInfo {
        start: (column_magic().len() + joined(packed, i).len()) as u64,
        end: (column_magic().len() + joined(packed, i + 1).len()) as u64,
    }
}

/// The marks after the first `n` granules of a column have been written.
pub open spec fn marks_written(marks: Seq<MarkView>, packed: Seq<Seq<u8>>, n: int) -> Seq<MarkView> {
    Seq::new(
        marks.len(),
        |i: int|
            if i < n {
                MarkView { index: marks[i].index, info: marks[i].info.push(mark_of(packed, i)) }
            } else {
                marks[i]
            },
    )
}

/// The error for a granule that could not be serialized.
pub open spec fn serialize_error(text: Seq<char>) -> ErrorView {
    ErrorView::CouldNotInsertData("Could not serialize data: "@ + text)
}

/// The error for a column with more granules than its part has marks.
pub open spec fn too_many_granules() -> ErrorView {
    ErrorView::CouldNotInsertData("Invalid number of granules. Most probably different column sizes"@)
}

/// The compressed granules of a list.
pub open spec fn frames_of(packed: Seq<Outcome<Vec<u8>>>) -> Seq<Seq<u8>> {
    packed.map_values(|p: Outcome<Vec<u8>>| p->Ok_0@)
}

/// The first granule from `i` on that cannot be appended, and why: it was not compressed, or there is no
/// mark for it.
pub open spec fn append_fault(packed: Seq<Outcome<Vec<u8>>>, marks: nat, i: int) -> Option<(int, ErrorView)>
    decreases packed.len() - i,
{
    if i >= packed.len() {
        None
    } else {
        match packed[i] {
            Err(e) => Some((i, e@)),
            Ok(_) => if i >= marks {
                Some((i, too_many_granules()))
            } else {
                append_fault(packed, marks, i + 1)
            },
        }
    }
}

/// Granules that can be appended have no fault.
proof fn lemma_no_append_fault(packed: Seq<Outcome<Vec<u8>>>, marks: nat, i: int, n: int)
    requires
        0 <= i <= n <= packed.len(),
        n <= marks,
        forall|k: int| i <= k < n ==> (#[trigger] packed[k]) is Ok,
    ensures
        append_fault(packed, marks, i) == append_fault(packed, marks, n),
    decreases n - i,
{
    if i < n {
        assert(packed[i] is Ok);
        lemma_no_append_fault(packed, marks, i + 1, n);
    }
}

/// Compressed granules stay what they are where another stands behind them.
proof fn lemma_packs_another(
    granules: Seq<Result<Vec<u8>, String>>,
    packed: Seq<Outcome<Vec<u8>>>,
    next: Outcome<Vec<u8>>,
)
    requires
        packs(granules, frames_of(packed), packed.len() as int),
    ensures
        packs(granules, frames_of(packed.push(next)), packed.len() as int),
        is_packed(granules[packed.len() as int], next->Ok_0@) ==> packs(
            granules,
            frames_of(packed.push(next)),
            packed.len() as int + 1,
        ),
{
    let frames = frames_of(packed.push(next));
    assert forall|k: int| 0 <= k < packed.len() implies is_packed(granules[k], #[trigger] frames[k]) by {
        assert(frames[k] == frames_of(packed)[k]);
    }
}

/// Whether a file is that of a column with given granules, and marks are those after it was written.
pub open spec fn is_column_written(
    granules: Seq<Result<Vec<u8>, String>>,
    before: Seq<MarkView>,
    packed: Seq<Seq<u8>>,
    file: Seq<u8>,
    after: Seq<MarkView>,
) -> bool {
    &&& packed.len() == granules.len() <= before.len()
    &&& packs(granules, packed, granules.len() as int)
    &&& file == frame::framed(column_magic(), joined(packed, granules.len() as int))
    &&& after == marks_written(before, packed, granules.len() as int)
}

/// Whether writing a column ended at granule `n` with a given error, and marks are those of the granules
/// before: it could not be serialized, could not be compressed, or has no mark.
pub open spec fn is_write_fault(
    granules: Seq<Result<Vec<u8>, String>>,
    before: Seq<MarkView>,
    packed: Seq<Seq<u8>>,
    n: int,
    e: ErrorView,
    after: Seq<MarkView>,
) -> bool {
    &&& 0 <= n < granules.len()
    &&& n <= before.len()
    &&& packs(granules, packed, n)
    &&& after == marks_written(before, packed, n)
    &&& match granules[n] {
        Err(text) => e == serialize_error(text@),
        Ok(_) => e == compression::compress_error() || (n == before.len() && e == too_many_granules()),
    }
}

impl TablePart {
    /// Makes the file of a single column of its compressed granules and populates `MarkInfo`.
    ///
    /// Returns:
    ///   * Ok: magic bytes, the compressed granules, and the checksum.
    ///   * Error: that of the first granule that was not compressed, or `CouldNotInsertData` where there
    ///     are more granules than marks.
    pub fn append_granules(&mut self, packed: &Vec<Outcome<Vec<u8>>>) -> (r: Outcome<Vec<u8>>)
        ensures
            final(self).data == old(self).data,
            final(self).info.name == old(self).info.name,
            final(self).info.row_count == old(self).info.row_count,
            final(self).info.column_defs == old(self).info.column_defs,
            match append_fault(packed@, old(self).info.marks@.len(), 0) {
                None => {
                    &&& compression::bytes_outcome(r) == Ok::<Seq<u8>, ErrorView>(
                        frame::framed(column_magic(), joined(frames_of(packed@), packed@.len() as int)),
                    )
                    &&& mark_views(final(self).info.marks@) == marks_written(
                        mark_views(old(self).info.marks@),
                        frames_of(packed@),
                        packed@.len() as int,
                    )
                },
                Some((n, e)) => {
                    &&& compression::bytes_outcome(r) == Err::<Seq<u8>, ErrorView>(e)
                    &&& mark_views(final(self).info.marks@) == marks_written(
                        mark_views(old(self).info.marks@),
                        frames_of(packed@),
                        n,
                    )
                },
            },
    {
        let ghost before = mark_views(self.info.marks@);
        let ghost out = frames_of(packed@);
        let ghost start = *self;
        let mut file_bytes = column_magic_bytes();
        let magic_length: usize = file_bytes.len();
        let mut i: usize = 0;
        assert(marks_written(before, out, 0) =~= before);
        assert(file_bytes@ =~= column_magic() + joined(out, 0));
        while i < packed.len()
            invariant
                i <= packed@.len(),
                out == frames_of(packed@),
                before == mark_views(start.info.marks@),
                before.len() == start.info.marks@.len(),
                start == *old(self),
                self.data == start.data,
                self.info.name == start.info.name,
                self.info.row_count == start.info.row_count,
                self.info.column_defs == start.info.column_defs,
                magic_length == column_magic().len(),
                file_bytes@ == column_magic() + joined(out, i as int),
                mark_views(self.info.marks@) == marks_written(before, out, i as int),
                append_fault(packed@, before.len(), 0) == append_fault(packed@, before.len(), i as int),
            decreases packed@.len() - i,
        {
            let start_pos: u64 = file_bytes.len() as u64;
            let granule_bytes = match &packed[i] {
                Ok(granule_bytes) => granule_bytes,
                Err(e) => return Err(e.clone()),
            };
            assert(granule_bytes@ == out[i as int]);
            file_bytes.extend_from_slice(granule_bytes.as_slice());
            assert(file_bytes@ =~= column_magic() + joined(out, i + 1));
            let end_pos: u64 = file_bytes.len() as u64;
            assert(mark_views(self.info.marks@).len() == self.info.marks@.len());
            if i >= self.info.marks.len() {
                return Err(
                    Error::CouldNotInsertData(
                        "Invalid number of granules. Most probably different column sizes".to_owned(),
                    ),
                );
            }
            let ghost held = self.info.marks@;
            assert(mark_views(held)[i as int] == held[i as int]@);
            self.info.marks[i].info.push(MarkInfo { start: start_pos, end: end_pos });
            proof {
                let now = mark_views(self.info.marks@);
                let want = marks_written(before, out, i + 1);
                assert forall|k: int| 0 <= k < now.len() implies now[k] == want[k] by {
                    assert(mark_views(held)[k] == held[k]@);
                    assert(mark_views(held)[k] == marks_written(before, out, i as int)[k]);
                    if k != i {
                        assert(self.info.marks@[k] == held[k]);
                    } else {
                        assert(now[k].info =~= want[k].info);
                    }
                }
                assert(now =~= want);
            }
            i += 1;
        }
        frame::seal(&mut file_bytes, magic_length);
        proof {
            let body = column_magic() + joined(out, i as int);
            assert(body.take(magic_length as int) =~= column_magic());
            assert(body.skip(magic_length as int) =~= joined(out, i as int));
        }
        Ok(file_bytes)
    }

    /// Makes the file of a single column of its serialized granules and populates `MarkInfo`.
    ///
    /// Returns:
    ///   * Ok: magic bytes, the compressed granules, and the checksum.
    ///   * Error: `CouldNotInsertData` where a granule could not be serialized or compressed, or
    ///     there are more granules than marks.
    pub fn write_column_with_marks(&mut self, granules: &Vec<Result<Vec<u8>, String>>) -> (r: Outcome<Vec<u8>>)
        ensures
            final(self).data == old(self).data,
            final(self).info.name == old(self).info.name,
            final(self).info.row_count == old(self).info.row_count,
            final(self).info.column_defs == old(self).info.column_defs,
            match r {
                Ok(file) => exists|packed: Seq<Seq<u8>>|
                    #[trigger] is_column_written(
                        granules@,
                        mark_views(old(self).info.marks@),
                        packed,
                        file@,
                        mark_views(final(self).info.marks@),
                    ),
                Err(e) => exists|packed: Seq<Seq<u8>>, n: int|
                    #[trigger] is_write_fault(
                        granules@,
                        mark_views(old(self).info.marks@),
                        packed,
                        n,
                        e@,
                        mark_views(final(self).info.marks@),
                    ),
            },
    {
        let ghost before = mark_views(self.info.marks@);
        let ghost marks = self.info.marks@.len();
        let mut packed: Vec<Outcome<Vec<u8>>> = Vec::new();
        let mut has_failed = false;
        let mut i: usize = 0;
        while i < granules.len() && !has_failed
            invariant
                i <= granules@.len(),
                *self == *old(self),
                marks == self.info.marks@.len(),
                packed@.len() == i,
                !has_failed ==> i <= marks && packs(granules@, frames_of(packed@), i as int) && forall|k: int|
                    0 <= k < i ==> (#[trigger] packed@[k]) is Ok,
                has_failed ==> {
                    &&& 0 < i <= marks + 1
                    &&& packs(granules@, frames_of(packed@), i - 1)
                    &&& forall|k: int| 0 <= k < i - 1 ==> (#[trigger] packed@[k]) is Ok
                    &&& match packed@[i - 1] {
                        Ok(_) => i - 1 == marks && granules@[i - 1] is Ok,
                        Err(e) => match granules@[i - 1] {
                            Err(text) => e@ == serialize_error(text@),
                            Ok(_) => e@ == compression::compress_error(),
                        },
                    }
                },
            decreases granules@.len() - i,
        {
            let ghost earlier = packed@;
            let granule = match &granules[i] {
                Ok(bytes) => compress_bytes(bytes.as_slice(), &CompressionType::LZ4(3)),
                Err(text) => Err(
                    Error::CouldNotInsertData(concat2("Could not serialize data: ", text.as_str())),
                ),
            };
            has_failed = granule.is_err() || i >= self.info.marks.len();
            packed.push(granule);
            proof {
                lemma_packs_another(granules@, earlier, packed@[i as int]);
                assert(packed@ =~= earlier.push(packed@[i as int]));
            }
            i += 1;
        }
        let r = self.append_granules(&packed);
        proof {
            let frames = frames_of(packed@);
            let after = mark_views(self.info.marks@);
            if has_failed {
                lemma_no_append_fault(packed@, marks, 0, i - 1);
                assert(is_write_fault(granules@, before, frames, i - 1, r->Err_0@, after));
            } else {
                lemma_no_append_fault(packed@, marks, 0, i as int);
                assert(is_column_written(granules@, before, frames, r->Ok_0@, after));
            }
        }
        r
    }
}

/// Joining more granules keeps those that were joined before.
proof fn lemma_joined_grows(packed: Seq<Seq<u8>>, i: int, n: int)
    requires
        0 <= i <= n <= packed.len(),
    ensures
        joined(packed, i).len() <= joined(packed, n).len(),
        joined(packed, n).take(joined(packed, i).len() as int) == joined(packed, i),
    decreases n - i,
{
    if i < n {
        lemma_joined_grows(packed, i, n - 1);
        assert(joined(packed, n).take(joined(packed, i).len() as int) =~= joined(packed, n - 1).take(
            joined(packed, i).len() as int,
        ));
    } else {
        assert(joined(packed, n).take(joined(packed, i).len() as int) =~= joined(packed, i));
    }
}

/// What was written of a column is read back: the mark of a granule finds in the file exactly the
/// bytes that were serialized for it.
pub proof fn lemma_granule_reads_back(
    granules: Seq<Result<Vec<u8>, String>>,
    packed: Seq<Seq<u8>>,
    i: int,
    t: CompressionType,
)
    requires
        packed.len() == granules.len(),
        packs(granules, packed, granules.len() as int),
        0 <= i < granules.len(),
        t is LZ4,
        frame::framed(column_magic(), joined(packed, granules.len() as int)).len() <= u64::MAX,
    ensures
        granule_in(
            frame::framed(column_magic(), joined(packed, granules.len() as int)),
            mark_of(packed, i),
            t,
        ) == Ok::<Seq<u8>, ErrorView>(serialized(granules, i)),
{
    let out = packed;
    let n = granules.len() as int;
    let whole = joined(out, n);
    let file = frame::framed(column_magic(), whole);
    let mark = mark_of(out, i);
    lemma_joined_grows(out, i, i + 1);
    lemma_joined_grows(out, i + 1, n);
    let start = column_magic().len() + joined(out, i).len();
    let end = column_magic().len() + joined(out, i + 1).len();
    assert(file.len() >= column_magic().len() + whole.len());
    assert(mark.start == start && mark.end == end);
    let prefix = joined(out, i + 1);
    assert(prefix == joined(out, i) + out[i]);
    assert(file.subrange(start as int, end as int) =~= out[i]) by {
        assert forall|k: int| 0 <= k < out[i].len() implies file.subrange(start as int, end as int)[k] == out[i][k] by {
            assert(whole.take(prefix.len() as int)[joined(out, i).len() + k] == prefix[joined(out, i).len() + k]);
        }
    }
    assert(compression::compresses_to(serialized(granules, i), CompressionType::LZ4(3), out[i]));
}

/// The parts after a part has been moved to where it is read from, or was left where it is.
pub open spec fn settled(infos: Seq<TablePartInfoView>, part_name: Seq<char>, moved: bool) -> Seq<TablePartInfoView> {
    if !moved && infos.len() > 0 && infos.last().name@ == part_name {
        infos.drop_last()
    } else {
        infos
    }
}

impl TablePart {
    /// The directory that the part is written to, from the storage directory on: one name for each
    /// step.
    pub fn get_raw_dir(&self, table_def: &TableDef) -> (r: Vec<String>)
        ensures
            r@.len() == 4,
            r@[0] == table_def.database,
            r@[1] == table_def.table,
            r@[2]@ == "raw"@,
            r@[3] == self.info.name,
    {
        let mut path = table_def.get_path();
        path.push("raw".to_owned());
        path.push(self.info.name.clone());
        path
    }

    /// The directory that the part is read from, from the storage directory on: one name for each
    /// step.
    pub fn get_normal_dir(&self, table_def: &TableDef) -> (r: Vec<String>)
        ensures
            r@ == seq![table_def.database, table_def.table, self.info.name],
    {
        let mut path = table_def.get_path();
        path.push(self.info.name.clone());
        assert(path@ =~= seq![table_def.database, table_def.table, self.info.name]);
        path
    }

    /// Updates the in-memory index before the directory of the part is moved from raw to normal.
    ///
    /// Returns: the name of the part, for [`finish_move`] once the directory was moved or was not.
    pub fn move_to_normal(self, infos: &mut Vec<TablePartInfo>) -> (r: String)
        ensures
            info_views(final(infos)@) == info_views(old(infos)@).push(self.info@),
            r == self.info.name,
    {
        let part_name = self.info.name.clone();
        infos.push(self.info);
        assert(info_views(infos@) =~= info_views(old(infos)@).push(self.info@));
        part_name
    }
}

/// Ends the move of a part whose information was put into the in-memory index: where the directory
/// could not be moved, rolls back the in-memory change.
///
/// Returns: Ok or `CouldNotInsertData` with rollback on failure
pub fn finish_move(infos: &mut Vec<TablePartInfo>, part_name: &str, renamed: Result<(), String>) -> (r: Outcome<()>)
    ensures
        info_views(final(infos)@) == settled(info_views(old(infos)@), part_name@, renamed is Ok),
        error::outcome(r) == (match renamed {
            Ok(_) => Ok(()),
            Err(text) => Err(
                ErrorView::CouldNotInsertData("Failed to move part directory: "@ + text@),
            ),
        }),
{
    let ghost before = info_views(infos@);
    match renamed {
        Ok(_) => Ok(()),
        Err(text) => {
            let n: usize = infos.len();
            if n > 0 {
                assert(before.last() == infos@[n - 1]@);
                if same_text(infos[n - 1].name.as_str(), part_name) {
                    let _ = infos.pop();
                    assert(info_views(infos@) =~= before.drop_last());
                }
            }
            Err(
                Error::CouldNotInsertData(
                    concat2("Failed to move part directory: ", text.as_str()),
                ),
            )
        },
    }
}

/// A part whose directory could not be moved leaves the in-memory index as it was.
pub proof fn lemma_failed_move_changes_nothing(infos: Seq<TablePartInfoView>, part: TablePartInfoView)
    ensures
        settled(infos.push(part), part.name@, false) == infos,
{
    assert(infos.push(part).drop_last() =~= infos);
}

} // verus!
