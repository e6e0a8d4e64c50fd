//! Where the rows of a query come from.
pub mod native;
pub mod virtual_storage;

use vstd::prelude::*;

use crate::error::{ErrorView, Outcome};
use crate::sql::projection::Projection;
use crate::storage::numbers::{NumberReading, Numbers};
use crate::storage::table_metadata::{TableSchema, TableSchemaView};
use crate::storage::value::Value;

verus! {

/// A storage that is only read.
pub struct Immutable;

/// A storage that is read and written.
pub struct Mutable;

/// How a storage may be used.
pub trait SealedMode {

}

impl SealedMode for Immutable {

}

impl SealedMode for Mutable {

}

/// The values of a column in a result, as a sequence.
pub open spec fn values_outcome(r: Outcome<Vec<Value>>) -> Result<Seq<Value>, ErrorView> {
    match r {
        Ok(values) => Ok(values@),
        Err(e) => Err(e@),
    }
}

/// A storage that is read chunk by chunk.
pub trait StorageRead {
    /// Whether the loaded chunk is one of the storage.
    spec fn well_formed(&self) -> bool;

    /// How many rows the storage has.
    spec fn total_rows(&self) -> nat;

    /// The schema of the storage.
    spec fn schema_view(&self) -> TableSchemaView;

    /// The values that the loaded chunk has for a projection.
    spec fn chunk_column(&self, proj: Projection, readings: Seq<NumberReading>) -> Result<Seq<Value>, ErrorView>;

    /// The values that the loaded chunk has for a column of the schema.
    spec fn schema_column(&self, i: int, readings: Seq<NumberReading>) -> Result<Seq<Value>, ErrorView>;

    /// How many rows the storage has.
    fn get_total_rows(&self) -> (r: usize)
        requires
            self.total_rows() <= usize::MAX,
        ensures
            r == self.total_rows(),
    ;

    /// The schema of the storage.
    fn get_schema(&self) -> (r: &TableSchema)
        ensures
            r@ == self.schema_view(),
    ;

    /// The values that the loaded chunk has for a projection.
    fn access_chunk_column(&self, proj: &Projection, numbers: &Numbers) -> (r: Outcome<Vec<Value>>)
        requires
            self.well_formed(),
        ensures
            values_outcome(r) == self.chunk_column(*proj, numbers.readings@),
    ;

    /// The values that the loaded chunk has for a column of the schema.
    fn access_schema_column(&self, i: usize, numbers: &Numbers) -> (r: Outcome<Vec<Value>>)
        requires
            self.well_formed(),
            i < self.schema_view().columns.len(),
        ensures
            values_outcome(r) == self.schema_column(i as int, numbers.readings@),
    ;
}

} // verus!
