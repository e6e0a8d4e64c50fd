//! DROP.
use vstd::prelude::*;
use vstd::string::*;

use crate::error::{Error, ErrorView, Outcome};
use crate::error;
use crate::sql::ast;
use crate::sql::ast::{ObjectName, ObjectNamePart, ObjectType};
use crate::sql::logical_plan::plan::{LogicalPlan, PlanView};
use crate::storage::table_def;
use crate::storage::table_def::TableDef;
use crate::text::{concat2, decimal_text};
use crate::text;

verus! {

/// The plan for a DROP.
pub open spec fn drop_plan(object_type: ObjectType, if_exists: bool, names: Seq<ObjectName>) -> Result<
    PlanView,
    ErrorView,
> {
    match object_type {
        ObjectType::Table => if names.len() != 1 {
            Err(ErrorView::InvalidDatabaseName)
        } else {
            match table_def::table_named(names[0].0@) {
                Ok(name) => Ok(PlanView::DropTable { name, if_exists }),
                Err(e) => Err(e),
            }
        },
        ObjectType::Database => if names.len() != 1 {
            Err(
                ErrorView::InvalidNumberOfParamsSpecified(
                    "expected only one database name, got "@ + text::decimal(names.len()),
                ),
            )
        } else if names[0].0@.len() != 1 {
            Err(
                ErrorView::InvalidNumberOfParamsSpecified(
                    "expected only database name, got "@ + ast::name_debug(names[0].0@),
                ),
            )
        } else {
            match names[0].0@[0] {
                ObjectNamePart::Identifier(ident) => Ok(
                    PlanView::DropDatabase { name: ident.value, if_exists },
                ),
                ObjectNamePart::Function(_, _) => Err(ErrorView::InvalidDatabaseName),
            }
        },
        ObjectType::Other => Err(
            ErrorView::UnsupportedCommand("Currently can drop databases and tables"@),
        ),
    }
}

impl LogicalPlan {
    /// Parses DROP statement into a logical plan.
    ///
    /// Supports dropping tables and databases.
    ///
    /// Returns:
    ///   * Ok when:
    ///     1. Object type is Table and valid table name provided: `LogicalPlan::DropTable`.
    ///     2. Object type is Database and valid database name provided: `LogicalPlan::DropDatabase`.
    ///   * Error when:
    ///     1. Multiple names provided for table: `InvalidDatabaseName`.
    ///     2. Multiple names provided for database: `InvalidNumberOfParamsSpecified`.
    ///     3. Database name has multiple parts: `InvalidNumberOfParamsSpecified`.
    ///     4. Database name is not an identifier: `InvalidDatabaseName`.
    ///     5. Unsupported object type: `UnsupportedCommand`.
    pub fn from_drop(object_type: ObjectType, if_exists: bool, names: &Vec<ObjectName>) -> (r: Outcome<Self>)
        ensures
            error::outcome_view(r) == drop_plan(object_type, if_exists, names@),
    {
        match object_type {
            ObjectType::Table => {
                if names.len() != 1 {
                    return Err(Error::InvalidDatabaseName);
                }
                match TableDef::try_from(&names[0]) {
                    Ok(name) => Ok(LogicalPlan::DropTable { name, if_exists }),
                    Err(e) => Err(e),
                }
            },
            ObjectType::Database => {
                if names.len() != 1 {
                    return Err(
                        Error::InvalidNumberOfParamsSpecified(
                            concat2(
                                "expected only one database name, got ",
                                decimal_text(names.len() as u64).as_str(),
                            ),
                        ),
                    );
                }
                let name = &names[0];
                if name.0.len() != 1 {
                    return Err(
                        Error::InvalidNumberOfParamsSpecified(
                            concat2("expected only database name, got ", name.debug_text().as_str()),
                        ),
                    );
                }
                match &name.0[0] {
                    ObjectNamePart::Identifier(ident) => Ok(
                        LogicalPlan::DropDatabase { name: ident.value.clone(), if_exists },
                    ),
                    ObjectNamePart::Function(_, _) => Err(Error::InvalidDatabaseName),
                }
            },
            ObjectType::Other => Err(
                Error::UnsupportedCommand("Currently can drop databases and tables".to_owned()),
            ),
        }
    }
}

} // verus!
