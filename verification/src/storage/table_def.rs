//! The name of a table and where it lies.
use vstd::prelude::*;
use vstd::string::*;

use crate::error::{Error, ErrorView, Outcome};
use crate::error;
use crate::sql::ast::{ObjectName, ObjectNamePart};
use crate::text::concat3;

verus! {

/// The full name of a table.
#[derive(Debug, Eq, Hash)]
pub struct TableDef {
    pub table: String,
    pub database: String,
}

/// Equality of table names.
pub open spec fn table_def_eq(a: TableDef, b: TableDef) -> bool {
    a.table@ == b.table@ && a.database@ == b.database@
}

impl Clone for TableDef {
    fn clone(&self) -> (r: Self)
        ensures
            r == *self,
    {
        TableDef { table: self.table.clone(), database: self.database.clone() }
    }
}

impl PartialEq for TableDef {
    fn eq(&self, other: &Self) -> (r: bool) {
        self.table == other.table && self.database == other.database
    }
}

impl vstd::std_specs::cmp::PartialEqSpecImpl for TableDef {
    open spec fn obeys_eq_spec() -> bool {
        true
    }

    open spec fn eq_spec(&self, other: &Self) -> bool {
        table_def_eq(*self, *other)
    }
}

/// The table that a dotted name stands for: its two parts are the database and the table.
pub open spec fn table_named(parts: Seq<ObjectNamePart>) -> Result<TableDef, ErrorView> {
    if parts.len() != 2 {
        Err(
            ErrorView::UnsupportedCommand(
                "You should provide table name in form `database_name.table_name`"@,
            ),
        )
    } else {
        match (parts[0], parts[1]) {
            (ObjectNamePart::Identifier(database), ObjectNamePart::Identifier(table)) => Ok(
                TableDef { table: table.value, database: database.value },
            ),
            _ => Err(ErrorView::UnsupportedCommand("Currently unimplemented."@)),
        }
    }
}

impl TableDef {
    /// The full name as it is written.
    pub fn to_text(&self) -> (r: String)
        ensures
            r@ == self.database@ + "."@ + self.table@,
    {
        concat3(self.database.as_str(), ".", self.table.as_str())
    }

    /// Returns the path of this table's directory, from the storage directory on: one name for each
    /// step.
    pub fn get_path(&self) -> (r: Vec<String>)
        ensures
            r@ == seq![self.database, self.table],
    {
        let mut r: Vec<String> = Vec::new();
        r.push(self.database.clone());
        r.push(self.table.clone());
        assert(r@ =~= seq![self.database, self.table]);
        r
    }

    /// Checks if table exists, given whether its database directory and its metadata file do.
    ///
    /// Returns: Ok or DatabaseNotFound/TableNotFound error
    pub fn exists_or_err(&self, database_exists: bool, metadata_exists: bool) -> (r: Outcome<()>)
        ensures
            error::outcome(r) == (if !database_exists {
                Err(ErrorView::DatabaseNotFound)
            } else if !metadata_exists {
                Err(ErrorView::TableNotFound)
            } else {
                Ok(())
            }),
    {
        if !database_exists {
            return Err(Error::DatabaseNotFound);
        }
        if !metadata_exists {
            return Err(Error::TableNotFound);
        }
        Ok(())
    }

    /// The table that a dotted name stands for.
    ///
    /// Returns:
    ///   * Ok: the table, where the name has two parts that are identifiers.
    ///   * Error: `UnsupportedCommand` for any other name.
    pub fn try_from(object_name: &ObjectName) -> (r: Outcome<Self>)
        ensures
            error::outcome(r) == table_named(object_name.0@),
    {
        let names = &object_name.0;
        if names.len() != 2 {
            return Err(
                Error::UnsupportedCommand(
                    "You should provide table name in form `database_name.table_name`".to_owned(),
                ),
            );
        }
        let database = match &names[0] {
            ObjectNamePart::Identifier(ident) => ident.value.clone(),
            ObjectNamePart::Function(_, _) => return Err(
                Error::UnsupportedCommand("Currently unimplemented.".to_owned()),
            ),
        };
        let table = match &names[1] {
            ObjectNamePart::Identifier(ident) => ident.value.clone(),
            ObjectNamePart::Function(_, _) => return Err(
                Error::UnsupportedCommand("Currently unimplemented.".to_owned()),
            ),
        };
        Ok(TableDef { table, database })
    }
}

} // verus!
