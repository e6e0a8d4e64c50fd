//! The metadata of a table.
use vstd::prelude::*;
use vstd::string::*;

use crate::engines::EngineName;
use crate::error::{Error, ErrorView, Outcome};
use crate::error;
use crate::storage::column::ColumnDef;
use crate::storage::column;
use crate::storage::compression;
use crate::storage::frame;
use crate::storage::frame::FrameFault;

verus! {

/// How many rows a granule holds.
pub const STANDARD_GRANULARITY: u32 = 8192;

/// The name of the file in the directory of a table that holds its metadata.
pub const TABLE_METADATA_FILENAME: &'static str = ".metadata";

/// The version of the format of the metadata.
pub const VERSION: u16 = 1;

/// No flag.
pub const FLAGS_NONE: u32 = 0x0000_0000;

/// The bytes at the start of a metadata file: `THMETA`.
pub open spec fn metadata_magic() -> Seq<u8> {
    seq![84u8, 72, 77, 69, 84, 65]
}

/// The bytes at the start of a metadata file: `THMETA`.
pub fn metadata_magic_bytes() -> (r: Vec<u8>)
    ensures
        r@ == metadata_magic(),
{
    let r: Vec<u8> = vec![84u8, 72, 77, 69, 84, 65];
    assert(r@ =~= metadata_magic());
    r
}

/// The columns of a table, those it is sorted by, and those of its primary key.
#[derive(Debug, PartialEq)]
pub struct TableSchema {
    pub columns: Vec<ColumnDef>,
    pub order_by: Vec<ColumnDef>,
    pub primary_key: Vec<ColumnDef>,
}

/// A schema with its lists as sequences.
#[verifier::ext_equal]
pub struct TableSchemaView {
    pub columns: Seq<ColumnDef>,
    pub order_by: Seq<ColumnDef>,
    pub primary_key: Seq<ColumnDef>,
}

impl View for TableSchema {
    type V = TableSchemaView;

    open spec fn view(&self) -> TableSchemaView {
        TableSchemaView {
            columns: self.columns@,
            order_by: self.order_by@,
            primary_key: self.primary_key@,
        }
    }
}

impl Clone for TableSchema {
    fn clone(&self) -> (r: Self)
        ensures
            r@ == self@,
    {
        TableSchema {
            columns: column::clone_columns(&self.columns),
            order_by: column::clone_columns(&self.order_by),
            primary_key: column::clone_columns(&self.primary_key),
        }
    }
}

/// Table settings parsed from options received in CREATE command.
#[derive(Debug, PartialEq, Eq, Clone, Copy, Structural)]
pub struct TableSettings {
    pub index_granularity: u32,
    pub engine: EngineName,
}

/// The settings of a table declared without options.
pub open spec fn default_settings() -> TableSettings {
    TableSettings { index_granularity: 8192, engine: EngineName::MergeTree }
}

impl Default for TableSettings {
    fn default() -> (r: Self)
        ensures
            r == default_settings(),
    {
        TableSettings { index_granularity: STANDARD_GRANULARITY, engine: EngineName::MergeTree }
    }
}

/// Single immutable table metadata, stored as file (`TABLE_METADATA_FILENAME`)
/// Used to get global table configuration
#[derive(Debug, PartialEq)]
pub struct TableMetadata {
    pub version: u16,
    pub flags: u32,
    pub created_at: u64,
    pub settings: TableSettings,
    pub schema: TableSchema,
}

/// Metadata with the lists of its schema as sequences.
#[verifier::ext_equal]
pub struct TableMetadataView {
    pub version: u16,
    pub flags: u32,
    pub created_at: u64,
    pub settings: TableSettings,
    pub schema: TableSchemaView,
}

impl View for TableMetadata {
    type V = TableMetadataView;

    open spec fn view(&self) -> TableMetadataView {
        TableMetadataView {
            version: self.version,
            flags: self.flags,
            created_at: self.created_at,
            settings: self.settings,
            schema: self.schema@,
        }
    }
}

impl Clone for TableMetadata {
    fn clone(&self) -> (r: Self)
        ensures
            r@ == self@,
    {
        TableMetadata {
            version: self.version,
            flags: self.flags,
            created_at: self.created_at,
            settings: self.settings,
            schema: self.schema.clone(),
        }
    }
}

/// The time in milliseconds, where the clock is behind the epoch and the number fits.
pub open spec fn unix_time(since_epoch: Option<u128>) -> Result<u64, ErrorView> {
    match since_epoch {
        Some(millis) => if millis <= u64::MAX {
            Ok(millis as u64)
        } else {
            Err(ErrorView::SystemTimeWentBackword)
        },
        None => Err(ErrorView::SystemTimeWentBackword),
    }
}

/// Returns current Unix timestamp in milliseconds, given how many have passed since the epoch.
///
/// Returns: u64 timestamp or `SystemTimeWentBackword` error where the clock is before the epoch or
/// the number does not fit.
pub fn get_unix_time(since_epoch: Option<u128>) -> (r: Outcome<u64>)
    ensures
        error::outcome(r) == unix_time(since_epoch),
{
    match since_epoch {
        Some(millis) => if millis <= 0xffff_ffff_ffff_ffff {
            Ok(millis as u64)
        } else {
            Err(Error::SystemTimeWentBackword)
        },
        None => Err(Error::SystemTimeWentBackword),
    }
}

/// The error for a metadata file with a fault.
pub open spec fn metadata_fault(fault: FrameFault) -> ErrorView {
    match fault {
        FrameFault::TooSmall => ErrorView::CouldNotReadData("Table metadata file too small"@),
        FrameFault::InvalidMagic => ErrorView::CouldNotReadData(
            "Invalid magic bytes in table metadata"@,
        ),
        FrameFault::CrcMismatch => ErrorView::CouldNotReadData("CRC mismatch in table metadata"@),
    }
}

/// The serialized metadata that a file holds.
pub open spec fn metadata_in(file: Seq<u8>) -> Result<Seq<u8>, ErrorView> {
    match frame::unframed(metadata_magic(), file) {
        Ok(data) => Ok(data),
        Err(fault) => Err(metadata_fault(fault)),
    }
}

/// The metadata that was written to a file is read back from it.
pub proof fn lemma_metadata_reads_back(data: Seq<u8>)
    requires
        data.len() > 0,
    ensures
        metadata_in(frame::framed(metadata_magic(), data)) == Ok::<Seq<u8>, ErrorView>(data),
{
    frame::lemma_file_gives_back_its_data(metadata_magic(), data);
}

/// A file that is too short, does not start with the magic bytes or does not end in the checksum of
/// what stands between is refused with `CouldNotReadData`, and no other file is.
pub proof fn lemma_damaged_metadata_is_refused(file: Seq<u8>)
    ensures
        metadata_in(file) is Err <==> (file.len() <= 10 || file.take(6) != metadata_magic()
            || vstd::bytes::spec_u32_from_le_bytes(file.skip(file.len() - 4)) != frame::crc32(
            file.subrange(6, file.len() - 4),
        )),
        metadata_in(file) is Err ==> metadata_in(file)->Err_0 is CouldNotReadData,
{
}

impl TableMetadata {
    /// Creates new table metadata with current timestamp and default flags, given how many
    /// milliseconds have passed since the epoch.
    ///
    /// Returns: `TableMetadata` or error from `get_unix_time()`
    pub fn try_new(schema: TableSchema, settings: TableSettings, since_epoch: Option<u128>) -> (r: Outcome<Self>)
        ensures
            error::outcome_view(r) == (match unix_time(since_epoch) {
                Ok(created_at) => Ok(
                    TableMetadataView { version: 1, flags: 0, created_at, settings, schema: schema@ },
                ),
                Err(e) => Err(e),
            }),
    {
        match get_unix_time(since_epoch) {
            Ok(created_at) => Ok(
                TableMetadata { version: VERSION, flags: FLAGS_NONE, created_at, settings, schema },
            ),
            Err(e) => Err(e),
        }
    }

    /// The file for serialized metadata, with magic bytes and CRC32 checksum.
    pub fn encode_file(data: &[u8]) -> (r: Vec<u8>)
        ensures
            r@ == frame::framed(metadata_magic(), data@),
    {
        frame::frame(metadata_magic_bytes().as_slice(), data)
    }

    /// The serialized metadata that a file holds, verifying magic bytes and CRC32 checksum.
    ///
    /// Returns:
    ///   * Ok: the serialized metadata.
    ///   * Error: `CouldNotReadData` on a file that is too small, has invalid magic bytes, or a CRC
    ///     mismatch.
    pub fn decode_file(file: &[u8]) -> (r: Outcome<Vec<u8>>)
        ensures
            compression::bytes_outcome(r) == metadata_in(file@),
    {
        match frame::unframe(metadata_magic_bytes().as_slice(), file) {
            Ok(data) => Ok(data),
            Err(fault) => Err(
                Error::CouldNotReadData(
                    match fault {
                        FrameFault::TooSmall => "Table metadata file too small".to_owned(),
                        FrameFault::InvalidMagic => "Invalid magic bytes in table metadata".to_owned(),
                        FrameFault::CrcMismatch => "CRC mismatch in table metadata".to_owned(),
                    },
                ),
            ),
        }
    }
}

} // verus!
