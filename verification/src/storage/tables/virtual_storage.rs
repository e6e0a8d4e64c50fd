//! Rows that are the result of a query.
use core::marker::PhantomData;

use vstd::prelude::*;
use vstd::string::*;

use crate::engines::merge_tree;
use crate::error::{Error, ErrorView, Outcome};
use crate::search;
use crate::sql::projection;
use crate::sql::projection::Projection;
use crate::sql::debug_text;
use crate::sql::sql_parser;
use crate::storage::column;
use crate::storage::column::{ColumnDef, Constraints, OutputColumn, OutputColumnView};
use crate::storage::numbers::{NumberReading, Numbers};
use crate::storage::table_metadata::{TableSchema, TableSchemaView, STANDARD_GRANULARITY};
use crate::storage::table_part;
use crate::storage::tables::{Immutable, SealedMode, StorageRead};
use crate::storage::value::Value;
use crate::text::concat3;

verus! {

/// Represents virtual format/storage. Scans from `Vec<OutputColumn>`.
pub struct VirtualStorage<Mode: SealedMode> {
    pub columns: Vec<OutputColumn>,
    pub granule_idx: Option<usize>,
    pub schema: TableSchema,
    pub marker: PhantomData<Mode>,
}

/// The column that a column of a result is, for a query that reads the result.
pub open spec fn is_def_of(d: ColumnDef, proj: Projection, readings: Seq<NumberReading>) -> bool {
    &&& d.name@ == sql_parser::projection_text(proj, readings)
    &&& d.field_type == projection::field_type_of(proj.source)
    &&& d.constraints == column::default_constraints()
}

/// Whether a schema is that of the columns of a result: every column is part of the order and of the
/// key.
pub open spec fn is_schema_of(
    schema: TableSchemaView,
    columns: Seq<OutputColumnView>,
    readings: Seq<NumberReading>,
) -> bool {
    &&& schema.columns.len() == columns.len()
    &&& forall|i: int|
        0 <= i < columns.len() ==> is_def_of(#[trigger] schema.columns[i], columns[i].proj, readings)
    &&& schema.order_by == schema.columns
    &&& schema.primary_key == schema.columns
}

/// The rows of the first column.
pub open spec fn rows_of(columns: Seq<OutputColumnView>) -> nat {
    if columns.len() == 0 {
        0
    } else {
        columns[0].data.len()
    }
}

/// The granule that follows, where one does.
pub open spec fn granule_after(granule: Option<usize>, count: nat) -> Option<int> {
    let next: int = match granule {
        Some(g) => g + 1,
        None => 0,
    };
    if next < count {
        Some(next)
    } else {
        None
    }
}

/// The values of a granule of a column: a run of the granule's size, or what is left of one.
pub open spec fn granule_values(data: Seq<Value>, granule: int) -> Seq<Value> {
    if granule * 8192 >= data.len() {
        seq![]
    } else {
        data.subrange(granule * 8192, table_part::smaller((granule + 1) * 8192, data.len() as int))
    }
}

/// The values that a granule of the columns of a result has for a projection.
pub open spec fn column_in(
    columns: Seq<OutputColumnView>,
    granule: int,
    proj: Projection,
    readings: Seq<NumberReading>,
) -> Result<Seq<Value>, ErrorView> {
    match search::position(columns, merge_tree::column_of(proj)) {
        None => Err(
            ErrorView::Internal(
                "Tried to access column with proj: "@ + debug_text::projection_debug(proj, readings)
                    + ", but this column is not found."@,
            ),
        ),
        Some(i) => Ok(granule_values(columns[i].data, granule)),
    }
}

fn proj_to_col_def(proj: &Projection, numbers: &Numbers) -> (r: ColumnDef)
    ensures
        is_def_of(r, *proj, numbers.readings@),
{
    ColumnDef {
        name: proj.to_text(numbers),
        field_type: proj.source.get_field_type(),
        constraints: Constraints::default(),
    }
}

impl VirtualStorage<Immutable> {
    /// The storage that reads the columns of a result.
    pub fn from(columns: Vec<OutputColumn>, numbers: &Numbers) -> (r: Self)
        ensures
            r.columns == columns,
            r.granule_idx is None,
            is_schema_of(r.schema@, column::output_views(columns@), numbers.readings@),
    {
        let mut col_defs: Vec<ColumnDef> = Vec::new();
        let mut i: usize = 0;
        while i < columns.len()
            invariant
                i <= columns@.len(),
                col_defs@.len() == i,
                forall|k: int|
                    0 <= k < i ==> is_def_of(#[trigger] col_defs@[k], columns@[k].proj, numbers.readings@),
            decreases columns@.len() - i,
        {
            col_defs.push(proj_to_col_def(&columns[i].proj, numbers));
            i += 1;
        }
        VirtualStorage {
            columns,
            granule_idx: None,
            schema: TableSchema {
                columns: column::clone_columns(col_defs.as_slice()),
                order_by: column::clone_columns(col_defs.as_slice()),
                primary_key: col_defs,
            },
            marker: PhantomData,
        }
    }
}

impl<Mode: SealedMode> VirtualStorage<Mode> {
    /// Loads the granule that follows.
    ///
    /// Returns: whether there was one.
    pub fn load_next_chunk(&mut self) -> (r: bool)
        ensures
            final(self).columns == old(self).columns,
            final(self).schema == old(self).schema,
            final(self).marker == old(self).marker,
            match granule_after(
                old(self).granule_idx,
                table_part::granule_count(rows_of(column::output_views(old(self).columns@)), 8192),
            ) {
                Some(g) => r && final(self).granule_idx == Some(g as usize) && g <= usize::MAX,
                None => !r && final(self).granule_idx == old(self).granule_idx,
            },
    {
        let rows: usize = if self.columns.len() == 0 {
            0
        } else {
            self.columns[0].data.len()
        };
        let granularity: usize = STANDARD_GRANULARITY as usize;
        let granule_count: usize = if rows == 0 {
            0
        } else {
            (rows - 1) / granularity + 1
        };
        assert(granule_count == table_part::granule_count(
            rows_of(column::output_views(self.columns@)),
            8192,
        ));
        match self.granule_idx {
            Some(granule_idx) => if granule_count > 0 && granule_idx < granule_count - 1 {
                self.granule_idx = Some(granule_idx + 1);
                true
            } else {
                false
            },
            None => if granule_count != 0 {
                self.granule_idx = Some(0);
                true
            } else {
                false
            },
        }
    }
}

impl<Mode: SealedMode> StorageRead for VirtualStorage<Mode> {
    open spec fn well_formed(&self) -> bool {
        self.schema.columns@.len() == self.columns@.len()
    }

    open spec fn total_rows(&self) -> nat {
        rows_of(column::output_views(self.columns@))
    }

    open spec fn schema_view(&self) -> TableSchemaView {
        self.schema@
    }

    open spec fn chunk_column(&self, proj: Projection, readings: Seq<NumberReading>) -> Result<Seq<Value>, ErrorView> {
        match self.granule_idx {
            None => Err(
                ErrorView::Internal(
                    "Tried to acces chunk data in `VirtualStorage::access_chunk_column` while no data was loaded."@,
                ),
            ),
            Some(g) => column_in(column::output_views(self.columns@), g as int, proj, readings),
        }
    }

    open spec fn schema_column(&self, i: int, readings: Seq<NumberReading>) -> Result<Seq<Value>, ErrorView> {
        match self.granule_idx {
            None => Err(
                ErrorView::Internal(
                    "Tried to acces chunk data in `VirtualStorage::access_chunk_column` while no data was loaded."@,
                ),
            ),
            Some(g) => Ok(granule_values(column::output_views(self.columns@)[i].data, g as int)),
        }
    }

    fn get_total_rows(&self) -> (r: usize) {
        if self.columns.len() == 0 {
            0
        } else {
            assert(column::output_views(self.columns@)[0] == self.columns@[0]@);
            self.columns[0].data.len()
        }
    }

    fn get_schema(&self) -> (r: &TableSchema) {
        &self.schema
    }

    fn access_chunk_column(&self, proj: &Projection, numbers: &Numbers) -> (r: Outcome<Vec<Value>>) {
        let granule_idx: usize = match self.granule_idx {
            Some(g) => g,
            None => return Err(
                Error::Internal(
                    "Tried to acces chunk data in `VirtualStorage::access_chunk_column` while no data was loaded.".to_owned(),
                ),
            ),
        };
        let col_idx: usize = match merge_tree::position_of_projection(&self.columns, proj) {
            Some(i) => i,
            None => return Err(
                Error::Internal(
                    concat3(
                        "Tried to access column with proj: ",
                        proj.debug_text(numbers).as_str(),
                        ", but this column is not found.",
                    ),
                ),
            ),
        };
        proof {
            search::lemma_position(column::output_views(self.columns@), merge_tree::column_of(*proj));
        }
        Ok(granule_of(&self.columns[col_idx].data, granule_idx))
    }

    fn access_schema_column(&self, i: usize, numbers: &Numbers) -> (r: Outcome<Vec<Value>>) {
        match self.granule_idx {
            Some(g) => Ok(granule_of(&self.columns[i].data, g)),
            None => Err(
                Error::Internal(
                    "Tried to acces chunk data in `VirtualStorage::access_chunk_column` while no data was loaded.".to_owned(),
                ),
            ),
        }
    }
}

/// The values of a granule of a column.
fn granule_of(data: &Vec<Value>, granule_idx: usize) -> (r: Vec<Value>)
    ensures
        r@ == granule_values(data@, granule_idx as int),
{
    let granularity: usize = STANDARD_GRANULARITY as usize;
    let rows: usize = data.len();
    if granule_idx > rows / granularity {
        assert(granule_idx * granularity >= rows) by (nonlinear_arith)
            requires
                granularity > 0,
                granule_idx > rows / granularity,
        ;
        return Vec::new();
    }
    assert(granule_idx * granularity <= rows) by (nonlinear_arith)
        requires
            granularity > 0,
            granule_idx <= rows / granularity,
    ;
    if granule_idx * granularity == rows {
        return Vec::new();
    }
    let start: usize = granule_idx * granularity;
    let end: usize = if rows - start < granularity {
        rows
    } else {
        start + granularity
    };
    column::clone_values(vstd::slice::slice_subrange(data.as_slice(), start, end))
}

/// The granules of a column, read one after the other, are its granules of the standard size.
pub proof fn lemma_virtual_granules_are_granules(data: Seq<Value>, granule: int)
    requires
        0 <= granule < table_part::granule_count(data.len(), 8192),
    ensures
        granule_values(data, granule) == table_part::granules_of(data, 8192)[granule],
{
    assert(granule_values(data, granule) =~= table_part::granules_of(data, 8192)[granule]);
}

} // verus!
