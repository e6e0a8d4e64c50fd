//! Execution of INSERT.
use vstd::prelude::*;

use crate::error;
use crate::error::{Error, ErrorView, Outcome};
use crate::runtime_config::TableConfig;
use crate::sql::command_runner::CommandRunner;
use crate::sql::execution::create;
use crate::sql::execution::select;
use crate::sql::execution::select::unanswerable_error;
use crate::storage::column;
use crate::storage::column::{OutputColumn, PhysicalColumn, PhysicalColumnView};
use crate::storage::table_metadata::TableMetadataView;
use crate::storage::table_part;
use crate::storage::table_part::{TablePart, TablePartView};

verus! {

/// What making the part for inserted columns owes: the part, or its error, or the error of a query
/// that cannot be executed where the rows cannot be compared.
pub open spec fn inserted_part_owes(
    metadata: TableMetadataView,
    columns: Seq<PhysicalColumnView>,
    result: Result<TablePartView, ErrorView>,
) -> bool {
    if metadata.settings.index_granularity == 0 || !table_part::can_be_sorted(metadata, columns) {
        result == Err::<TablePartView, ErrorView>(select::unanswerable())
    } else {
        exists|name: String|
            table_part::is_chosen(None, name) && #[trigger] table_part::part_owes(metadata, columns, name, result)
    }
}

impl CommandRunner {
    /// Makes the part for an INSERT operation, with a new name.
    ///
    /// Returns:
    ///   * Ok: the part, to be saved and moved
    ///   * Error: `TableNotFound`, or the error of making the part
    pub fn insert(table_config: Option<&TableConfig>, columns: Vec<PhysicalColumn>) -> (r: Outcome<TablePart>)
        ensures
            match table_config {
                None => r matches Err(e) && e@ == ErrorView::TableNotFound,
                Some(config) => inserted_part_owes(
                    config.metadata@,
                    column::physical_views(columns@),
                    error::outcome_view(r),
                ),
            },
    {
        let metadata = match table_config {
            Some(config) => &config.metadata,
            None => return Err(Error::TableNotFound),
        };
        if metadata.settings.index_granularity == 0 || !TablePart::can_sort(metadata, &columns) {
            return Err(unanswerable_error());
        }
        TablePart::try_new(metadata, columns, None)
    }

    /// The answer to an INSERT operation, once the part was moved or was not.
    pub fn insert_answer(moved: Outcome<()>) -> (r: Outcome<Vec<OutputColumn>>)
        ensures
            create::answers(
                match moved {
                    Ok(_) => Ok(()),
                    Err(e) => Err(e@),
                },
                r,
            ),
    {
        match moved {
            Ok(_) => Ok(OutputColumn::build_ok_vec()),
            Err(e) => Err(e),
        }
    }
}

} // verus!
