//! CREATE DATABASE.
use vstd::prelude::*;

use crate::error::{Error, ErrorView, Outcome};
use crate::error;
use crate::sql;
use crate::sql::ast::{ObjectName, ObjectNamePart};
use crate::sql::logical_plan::plan::{LogicalPlan, PlanView};

verus! {

/// The plan for the creation of a database.
pub open spec fn create_database_plan(parts: Seq<ObjectNamePart>, if_not_exists: bool) -> Result<
    PlanView,
    ErrorView,
> {
    if parts.len() != 1 {
        Err(ErrorView::InvalidDatabaseName)
    } else {
        match parts[0] {
            ObjectNamePart::Identifier(ident) if sql::is_name(ident.value@) => Ok(
                PlanView::CreateDatabase { name: ident.value, if_not_exists },
            ),
            _ => Err(ErrorView::InvalidDatabaseName),
        }
    }
}

impl LogicalPlan {
    /// Creates a database as directory.
    ///
    /// Returns
    ///   * Ok: the plan, where the name has one part that is a valid name.
    ///   * Error when:
    ///     1. Table name was specified also (e.g., `db_name.TABLE_NAME`): `InvalidDatabaseName`.
    ///     2. Function passed instead of name: `InvalidDatabaseName`.
    ///     3. Name has invalid characters: `InvalidDatabaseName`.
    pub fn from_create_database(db_name: &ObjectName, if_not_exists: bool) -> (r: Outcome<Self>)
        ensures
            error::outcome_view(r) == create_database_plan(db_name.0@, if_not_exists),
    {
        if db_name.0.len() != 1 {
            return Err(Error::InvalidDatabaseName);
        }
        match &db_name.0[0] {
            ObjectNamePart::Identifier(ident) => if sql::validate_name(ident.value.as_str()) {
                Ok(LogicalPlan::CreateDatabase { name: ident.value.clone(), if_not_exists })
            } else {
                Err(Error::InvalidDatabaseName)
            },
            ObjectNamePart::Function(_, _) => Err(Error::InvalidDatabaseName),
        }
    }
}

} // verus!
