//! The answer to a command.
use vstd::prelude::*;

use crate::sql::execution::create;
use crate::storage::column::OutputColumn;

verus! {

/// The columns of an answer, and how long the command took.
#[derive(Debug)]
pub struct OutputTable {
    pub columns: Vec<OutputColumn>,
    pub execution_seconds: u64,
    pub execution_nanos: u32,
}

impl OutputTable {
    /// Creates new `OutputTable` with provided columns.
    pub fn new(columns: Vec<OutputColumn>, execution_seconds: u64, execution_nanos: u32) -> (r: Self)
        ensures
            r.columns == columns,
            r.execution_seconds == execution_seconds,
            r.execution_nanos == execution_nanos,
    {
        OutputTable { columns, execution_seconds, execution_nanos }
    }

    /// Builds a simple OK response table.
    pub fn build_ok() -> (r: Self)
        ensures
            create::is_ok_columns(r.columns@),
            r.execution_seconds == 0,
            r.execution_nanos == 0,
    {
        OutputTable { columns: OutputColumn::build_ok_vec(), execution_seconds: 0, execution_nanos: 0 }
    }
}

} // verus!
