//! Execution of DROP.
use vstd::prelude::*;
use vstd::string::*;

use crate::error::{Error, ErrorView, Outcome};
use crate::sql::command_runner::CommandRunner;
use crate::sql::execution::create;
use crate::storage::column::OutputColumn;
use crate::storage::table_def::TableDef;
use crate::text::{concat5, same_text};

verus! {

/// Why a directory could not be removed.
pub enum RemoveFault {
    NotFound,
    /// The text of the error, and the path as it is shown.
    Other(String, String),
}

/// What removing the directory of something gave.
pub open spec fn removed(
    outcome: Result<(), RemoveFault>,
    if_exists: bool,
    missing: ErrorView,
    what: Seq<char>,
) -> Result<(), ErrorView> {
    match outcome {
        Ok(_) => Ok(()),
        Err(RemoveFault::NotFound) => if if_exists {
            Ok(())
        } else {
            Err(missing)
        },
        Err(RemoveFault::Other(text, path)) => Err(
            ErrorView::Internal(
                what + text@ + ". Stop database, remove "@ + path@
                    + " folder, and restart the database."@,
            ),
        ),
    }
}

impl CommandRunner {
    fn remove_answer(outcome: Result<(), RemoveFault>, if_exists: bool, missing: Error, what: &str) -> (r: Outcome<
        Vec<OutputColumn>,
    >)
        ensures
            create::answers(removed(outcome, if_exists, missing@, what@), r),
    {
        match outcome {
            Ok(_) => Ok(OutputColumn::build_ok_vec()),
            Err(fault) => match fault {
                RemoveFault::NotFound => if if_exists {
                    Ok(OutputColumn::build_ok_vec())
                } else {
                    Err(missing)
                },
                RemoveFault::Other(text, path) => Err(
                    Error::Internal(
                        concat5(
                            what,
                            text.as_str(),
                            ". Stop database, remove ",
                            path.as_str(),
                            " folder, and restart the database.",
                        ),
                    ),
                ),
            },
        }
    }

    /// The answer to dropping a table that the database does not know.
    ///
    /// Returns: Ok where that was asked for, else `TableNotFound`
    pub fn drop_unknown_table(if_exists: bool) -> (r: Outcome<Vec<OutputColumn>>)
        ensures
            create::answers(
                if if_exists {
                    Ok(())
                } else {
                    Err(ErrorView::TableNotFound)
                },
                r,
            ),
    {
        if if_exists {
            Ok(OutputColumn::build_ok_vec())
        } else {
            Err(Error::TableNotFound)
        }
    }

    /// Drops a table, whose directory was removed or was not.
    ///
    /// Returns:
    ///   * Ok: columns with success status
    ///   * Error: `TableNotFound` or `Internal` on failure
    pub fn drop_table(outcome: Result<(), RemoveFault>, if_exists: bool) -> (r: Outcome<Vec<OutputColumn>>)
        ensures
            create::answers(
                removed(
                    outcome,
                    if_exists,
                    ErrorView::TableNotFound,
                    "Could not remove table entry from disk: "@,
                ),
                r,
            ),
    {
        Self::remove_answer(
            outcome,
            if_exists,
            Error::TableNotFound,
            "Could not remove table entry from disk: ",
        )
    }

    /// Whether a table stays when a database is dropped.
    pub fn outlives(table_def: &TableDef, name: &str) -> (r: bool)
        ensures
            r == (table_def.database@ != name@),
    {
        !same_text(table_def.database.as_str(), name)
    }

    /// Drops a database, whose directory was removed or was not.
    ///
    /// Returns:
    ///   * Ok: columns with success status
    ///   * Error: `DatabaseNotFound` or `Internal` on failure
    pub fn drop_database(outcome: Result<(), RemoveFault>, if_exists: bool) -> (r: Outcome<Vec<OutputColumn>>)
        ensures
            create::answers(
                removed(
                    outcome,
                    if_exists,
                    ErrorView::DatabaseNotFound,
                    "Could not remove database entry from disk: "@,
                ),
                r,
            ),
    {
        Self::remove_answer(
            outcome,
            if_exists,
            Error::DatabaseNotFound,
            "Could not remove database entry from disk: ",
        )
    }
}

} // verus!
