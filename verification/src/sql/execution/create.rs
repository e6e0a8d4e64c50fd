//! Execution of CREATE.
use vstd::prelude::*;
use vstd::string::*;

use crate::error;
use crate::error::{Error, ErrorView, Outcome};
use crate::runtime_config::{TableConfig, TableConfigView};
use crate::sql;
use crate::sql::command_runner::CommandRunner;
use crate::sql::validate_name;
use crate::storage::column::{ColumnDef, OutputColumn};
use crate::storage::table_metadata;
use crate::storage::table_metadata::{TableMetadata, TableMetadataView, TableSchema, TableSchemaView, TableSettings};
use crate::storage::table_part;
use crate::storage::table_part::TablePartInfo;
use crate::text::concat2;

verus! {

/// Why a directory could not be made or removed.
#[derive(Debug, Clone, Copy, PartialEq, Eq, Structural)]
pub enum DirectoryFault {
    AlreadyExists,
    PermissionDenied,
    NotFound,
    Other,
}

/// The error for a database whose directory could not be made; one that is there already is none
/// where that was asked for.
pub open spec fn database_made(if_not_exists: bool, made: Result<(), DirectoryFault>) -> Result<(), ErrorView> {
    match made {
        Ok(_) => Ok(()),
        Err(DirectoryFault::AlreadyExists) => if if_not_exists {
            Ok(())
        } else {
            Err(ErrorView::DatabaseAlreadyExists)
        },
        Err(DirectoryFault::PermissionDenied) => Err(ErrorView::PermissionDenied),
        Err(_) => Err(ErrorView::InvalidDatabaseName),
    }
}

/// A result that holds only that all went well.
pub open spec fn is_ok_columns(columns: Seq<OutputColumn>) -> bool {
    &&& columns.len() == 1
    &&& columns[0].proj.alias is None
    &&& columns[0].proj.source matches sql::projection::ProjectionValue::Value(
        crate::storage::value::Value::String(s),
    )
    &&& s@ == "OK"@
    &&& columns[0].data@.len() == 1
    &&& columns[0].data@[0] matches crate::storage::value::Value::String(t)
    &&& t@ == "OK"@
}

/// Whether an answer says that all went well or gives an error.
pub open spec fn answers(expected: Result<(), ErrorView>, r: Outcome<Vec<OutputColumn>>) -> bool {
    match expected {
        Ok(_) => r matches Ok(columns) && is_ok_columns(columns@),
        Err(e) => r matches Err(f) && f@ == e,
    }
}

/// What to do before a table is made.
pub enum CreateTableStart {
    /// Nothing: this is the answer.
    Answer(Outcome<Vec<OutputColumn>>),
    /// Make the directory of the table and write the metadata.
    Make(TableMetadata),
}

/// What to do after the directory of a table was made and its metadata was written, or not.
pub struct CreateTableEnd {
    pub answer: Outcome<Vec<OutputColumn>>,
    /// What the database knows of the new table.
    pub config: Option<TableConfig>,
    /// Whether to remove the directory again.
    pub remove_directory: bool,
}

/// The metadata of a new table.
pub open spec fn new_metadata(
    columns: Seq<ColumnDef>,
    order_by: Seq<ColumnDef>,
    primary_key: Seq<ColumnDef>,
    settings: TableSettings,
    created_at: u64,
) -> TableMetadataView {
    TableMetadataView {
        version: 1,
        flags: 0,
        created_at,
        settings,
        schema: TableSchemaView { columns, order_by, primary_key },
    }
}

impl CommandRunner {
    /// Checks the name of a new database.
    ///
    /// Returns: Ok or `InvalidDatabaseName`
    pub fn check_database_name(name: &str) -> (r: Outcome<()>)
        ensures
            error::outcome(r) == (if sql::is_name(name@) {
                Ok(())
            } else {
                Err(ErrorView::InvalidDatabaseName)
            }),
    {
        if validate_name(name) {
            Ok(())
        } else {
            Err(Error::InvalidDatabaseName)
        }
    }

    /// Creates a database, whose directory was made or was not.
    ///
    /// Returns:
    ///   * Ok: columns with success status
    ///   * Error: `DatabaseAlreadyExists`, `PermissionDenied` or `InvalidDatabaseName` if directory
    ///     creation fails
    pub fn create_database(name: &str, if_not_exists: bool, made: Result<(), DirectoryFault>) -> (r: Outcome<
        Vec<OutputColumn>,
    >)
        ensures
            answers(
                if sql::is_name(name@) {
                    database_made(if_not_exists, made)
                } else {
                    Err(ErrorView::InvalidDatabaseName)
                },
                r,
            ),
    {
        if let Err(e) = Self::check_database_name(name) {
            return Err(e);
        }
        match made {
            Ok(_) => Ok(OutputColumn::build_ok_vec()),
            Err(fault) => match fault {
                DirectoryFault::AlreadyExists => if if_not_exists {
                    Ok(OutputColumn::build_ok_vec())
                } else {
                    Err(Error::DatabaseAlreadyExists)
                },
                DirectoryFault::PermissionDenied => Err(Error::PermissionDenied),
                _ => Err(Error::InvalidDatabaseName),
            },
        }
    }

    /// Starts to create a table, which the database knows already or does not.
    ///
    /// Returns: the metadata to write or, where the table is known or the clock is wrong, the answer.
    pub fn create_table(
        exists: bool,
        if_not_exists: bool,
        columns: Vec<ColumnDef>,
        settings: TableSettings,
        order_by: Vec<ColumnDef>,
        primary_key: Vec<ColumnDef>,
        since_epoch: Option<u128>,
    ) -> (r: CreateTableStart)
        ensures
            match table_metadata::unix_time(since_epoch) {
                Err(e) => r matches CreateTableStart::Answer(a) && answers(Err(e), a),
                Ok(created_at) => if exists {
                    r matches CreateTableStart::Answer(a) && answers(
                        if if_not_exists {
                            Ok(())
                        } else {
                            Err(ErrorView::TableAlreadyExists)
                        },
                        a,
                    )
                } else {
                    r matches CreateTableStart::Make(m) && m@ == new_metadata(
                        columns@,
                        order_by@,
                        primary_key@,
                        settings,
                        created_at,
                    )
                },
            },
    {
        let schema = TableSchema { columns, order_by, primary_key };
        match TableMetadata::try_new(schema, settings, since_epoch) {
            Err(e) => CreateTableStart::Answer(Err(e)),
            Ok(metadata) => if exists {
                if if_not_exists {
                    CreateTableStart::Answer(Ok(OutputColumn::build_ok_vec()))
                } else {
                    CreateTableStart::Answer(Err(Error::TableAlreadyExists))
                }
            } else {
                CreateTableStart::Make(metadata)
            },
        }
    }

    /// Ends to create a table: its directory was made or was not, and its metadata was written or
    /// was not.
    ///
    /// Returns:
    ///   * Ok: columns with success status, and what the database knows of the table
    ///   * Error: `CouldNotCreateTable` without a directory, or the error of writing the metadata, with
    ///     which the directory is removed again
    pub fn finish_table(metadata: TableMetadata, made: Result<(), String>, written: Outcome<()>) -> (r: CreateTableEnd)
        ensures
            match made {
                Err(text) => answers(
                    Err(ErrorView::CouldNotCreateTable("Failed to create table dir: "@ + text@)),
                    r.answer,
                ) && r.config is None && !r.remove_directory,
                Ok(_) => match written {
                    Err(e) => answers(Err(e@), r.answer) && r.config is None && r.remove_directory,
                    Ok(_) => answers(Ok(()), r.answer) && !r.remove_directory && (r.config matches Some(c)
                        && c@ == (TableConfigView { metadata: metadata@, infos: seq![] })),
                },
            },
    {
        match made {
            Err(text) => CreateTableEnd {
                answer: Err(
                    Error::CouldNotCreateTable(concat2("Failed to create table dir: ", text.as_str())),
                ),
                config: None,
                remove_directory: false,
            },
            Ok(_) => match written {
                Err(e) => CreateTableEnd { answer: Err(e), config: None, remove_directory: true },
                Ok(_) => {
                    let infos: Vec<TablePartInfo> = Vec::new();
                    assert(table_part::info_views(infos@) =~= Seq::empty());
                    CreateTableEnd {
                        answer: Ok(OutputColumn::build_ok_vec()),
                        config: Some(TableConfig { metadata, infos }),
                        remove_directory: false,
                    }
                },
            },
        }
    }
}

} // verus!
