//! What is found on disk when the database starts.
use vstd::prelude::*;
use vstd::string::*;

use crate::error;
use crate::error::{Error, ErrorView, Outcome};
use crate::runtime_config::{TableConfig, TableConfigView};
use crate::storage::table_def::TableDef;
use crate::storage::table_metadata::TableMetadata;
use crate::storage::table_part;
use crate::storage::table_part::{TablePartInfo, TablePartInfoView};
use crate::text;
use crate::text::{concat2, concat4, quote, same_text};

verus! {

/// What to do with an entry of the directory of a table.
#[derive(Debug, Clone, Copy, PartialEq, Eq, Structural)]
pub enum PartAction {
    /// Not a part.
    Skip,
    /// The directory of parts that were being written: remove it.
    RemoveRaw,
    /// A part that was replaced and not removed: report it.
    ReportOld,
    /// A part: read its information.
    Load,
}

/// Whether a name ends in `.old`, in whatever case.
pub open spec fn has_old_extension(name: Seq<char>) -> bool {
    let n = name.len() as int;
    &&& n >= 4
    &&& name[n - 4] == '.'
    &&& name[n - 3] == 'o' || name[n - 3] == 'O'
    &&& name[n - 2] == 'l' || name[n - 2] == 'L'
    &&& name[n - 1] == 'd' || name[n - 1] == 'D'
}

/// What to do with an entry of the directory of a table.
pub open spec fn action_for(name: Seq<char>, is_dir: bool) -> PartAction {
    if !is_dir || (name.len() > 0 && name[0] == '.') {
        PartAction::Skip
    } else if name == "raw"@ {
        PartAction::RemoveRaw
    } else if has_old_extension(name) {
        PartAction::ReportOld
    } else {
        PartAction::Load
    }
}

fn ends_in_old(name: &str) -> (r: bool)
    ensures
        r == has_old_extension(name@),
{
    let n: usize = name.unicode_len();
    if n < 4 {
        return false;
    }
    let o = name.get_char(n - 3);
    let l = name.get_char(n - 2);
    let d = name.get_char(n - 1);
    name.get_char(n - 4) == '.' && (o == 'o' || o == 'O') && (l == 'l' || l == 'L') && (d == 'd' || d == 'D')
}

/// What to do with an entry of the directory of a table.
pub fn part_action(part_name: &str, is_dir: bool) -> (r: PartAction)
    ensures
        r == action_for(part_name@, is_dir),
{
    if !is_dir || (part_name.unicode_len() > 0 && part_name.get_char(0) == '.') {
        PartAction::Skip
    } else if same_text(part_name, "raw") {
        PartAction::RemoveRaw
    } else if ends_in_old(part_name) {
        PartAction::ReportOld
    } else {
        PartAction::Load
    }
}

/// A part that was set aside under its name and `.old` is never read again.
pub proof fn lemma_replaced_parts_are_not_loaded(name: Seq<char>, is_dir: bool)
    ensures
        action_for(name + ".old"@, is_dir) != PartAction::Load,
        is_dir && name.len() > 0 && name[0] != '.' ==> action_for(name + ".old"@, is_dir)
            == PartAction::ReportOld,
{
    reveal_strlit(".old");
    reveal_strlit("raw");
    let full = name + ".old"@;
    let n = full.len() as int;
    assert(full[n - 4] == '.' && full[n - 3] == 'o' && full[n - 2] == 'l' && full[n - 1] == 'd');
}

/// An entry of the directory of a table, with what reading it gave where it was to be read.
pub struct PartEntry {
    pub name: String,
    pub is_dir: bool,
    pub read: Option<Outcome<TablePartInfo>>,
}

/// An entry of the directory of a database. Where it is a directory: what reading the metadata and
/// the directory gave, up to the first entry that could not be read.
pub struct TableEntry {
    pub name: String,
    pub is_dir: bool,
    pub metadata: Outcome<TableMetadata>,
    pub parts: Result<Vec<Result<PartEntry, String>>, String>,
}

/// An entry of the storage directory. Where it is a directory: what reading it gave, up to the first
/// entry that could not be read.
pub struct DatabaseEntry {
    pub name: String,
    pub is_dir: bool,
    pub tables: Result<Vec<Result<TableEntry, String>>, String>,
}

/// What stops the start of the database.
pub enum StartupFault {
    Databases(String),
    DatabaseEntry(String),
    Tables(String, String),
    TableEntry(String),
    Metadata(TableDef, Error),
    Parts(TableDef, String),
    PartEntry(TableDef, String),
}

/// What stops the start of the database, with the error taken by its view.
pub enum StartupFaultView {
    Databases(Seq<char>),
    DatabaseEntry(Seq<char>),
    Tables(Seq<char>, Seq<char>),
    TableEntry(Seq<char>),
    Metadata(TableDef, ErrorView),
    Parts(TableDef, Seq<char>),
    PartEntry(TableDef, Seq<char>),
}

impl View for StartupFault {
    type V = StartupFaultView;

    open spec fn view(&self) -> StartupFaultView {
        match *self {
            StartupFault::Databases(e) => StartupFaultView::Databases(e@),
            StartupFault::DatabaseEntry(e) => StartupFaultView::DatabaseEntry(e@),
            StartupFault::Tables(d, e) => StartupFaultView::Tables(d@, e@),
            StartupFault::TableEntry(e) => StartupFaultView::TableEntry(e@),
            StartupFault::Metadata(t, e) => StartupFaultView::Metadata(t, e@),
            StartupFault::Parts(t, e) => StartupFaultView::Parts(t, e@),
            StartupFault::PartEntry(t, e) => StartupFaultView::PartEntry(t, e@),
        }
    }
}

/// A table that was found, and what the database knows of it.
pub struct NamedTable {
    pub table: TableDef,
    pub config: TableConfig,
}

/// A table that was found, with its lists as sequences.
#[verifier::ext_equal]
pub struct NamedTableView {
    pub table: TableDef,
    pub config: TableConfigView,
}

impl View for NamedTable {
    type V = NamedTableView;

    open spec fn view(&self) -> NamedTableView {
        NamedTableView { table: self.table, config: self.config@ }
    }
}

/// The tables of a list, with their lists as sequences.
pub open spec fn table_views(tables: Seq<NamedTable>) -> Seq<NamedTableView> {
    tables.map_values(|t: NamedTable| t@)
}

/// The parts of a table, from entry `i` of its directory on, behind those found before. A part whose
/// information could not be read is left out.
pub open spec fn parts_from(
    table: TableDef,
    entries: Seq<Result<PartEntry, String>>,
    i: int,
    found: Seq<TablePartInfoView>,
) -> Result<Seq<TablePartInfoView>, StartupFaultView>
    decreases entries.len() - i,
{
    if i >= entries.len() {
        Ok(found)
    } else {
        match entries[i] {
            Err(e) => Err(StartupFaultView::PartEntry(table, e@)),
            Ok(entry) => if action_for(entry.name@, entry.is_dir) == PartAction::Load {
                match entry.read {
                    Some(Ok(info)) => parts_from(table, entries, i + 1, found.push(info@)),
                    _ => parts_from(table, entries, i + 1, found),
                }
            } else {
                parts_from(table, entries, i + 1, found)
            },
        }
    }
}

/// What an entry of the directory of a database stands for.
pub open spec fn table_found(database: String, entry: TableEntry) -> Result<NamedTableView, StartupFaultView> {
    let table = TableDef { database, table: entry.name };
    match entry.metadata {
        Err(e) => Err(StartupFaultView::Metadata(table, e@)),
        Ok(metadata) => match entry.parts {
            Err(e) => Err(StartupFaultView::Parts(table, e@)),
            Ok(parts) => match parts_from(table, parts@, 0, seq![]) {
                Err(e) => Err(e),
                Ok(infos) => Ok(
                    NamedTableView {
                        table,
                        config: TableConfigView { metadata: metadata@, infos },
                    },
                ),
            },
        },
    }
}

/// The tables of a database, from entry `i` of its directory on, behind those found before.
pub open spec fn tables_from(
    database: String,
    entries: Seq<Result<TableEntry, String>>,
    i: int,
    found: Seq<NamedTableView>,
) -> Result<Seq<NamedTableView>, StartupFaultView>
    decreases entries.len() - i,
{
    if i >= entries.len() {
        Ok(found)
    } else {
        match entries[i] {
            Err(e) => Err(StartupFaultView::TableEntry(e@)),
            Ok(entry) => if entry.is_dir {
                match table_found(database, entry) {
                    Err(e) => Err(e),
                    Ok(table) => tables_from(database, entries, i + 1, found.push(table)),
                }
            } else {
                tables_from(database, entries, i + 1, found)
            },
        }
    }
}

/// The tables of all databases, from entry `i` of the storage directory on, behind those found
/// before.
pub open spec fn databases_from(
    entries: Seq<Result<DatabaseEntry, String>>,
    i: int,
    found: Seq<NamedTableView>,
) -> Result<Seq<NamedTableView>, StartupFaultView>
    decreases entries.len() - i,
{
    if i >= entries.len() {
        Ok(found)
    } else {
        match entries[i] {
            Err(e) => Err(StartupFaultView::DatabaseEntry(e@)),
            Ok(entry) => if entry.is_dir {
                match entry.tables {
                    Err(e) => Err(StartupFaultView::Tables(entry.name@, e@)),
                    Ok(tables) => match tables_from(entry.name, tables@, 0, found) {
                        Err(e) => Err(e),
                        Ok(found) => databases_from(entries, i + 1, found),
                    },
                }
            } else {
                databases_from(entries, i + 1, found)
            },
        }
    }
}

/// The tables that the storage directory holds.
pub open spec fn tables_in(listing: Result<Vec<Result<DatabaseEntry, String>>, String>) -> Result<
    Seq<NamedTableView>,
    StartupFaultView,
> {
    match listing {
        Err(e) => Err(StartupFaultView::Databases(e@)),
        Ok(entries) => databases_from(entries@, 0, seq![]),
    }
}

fn read_parts(table: &TableDef, entries: &Vec<Result<PartEntry, String>>) -> (r: Result<
    Vec<TablePartInfo>,
    StartupFault,
>)
    ensures
        match r {
            Ok(infos) => parts_from(*table, entries@, 0, seq![]) == Ok::<
                Seq<TablePartInfoView>,
                StartupFaultView,
            >(table_part::info_views(infos@)),
            Err(e) => parts_from(*table, entries@, 0, seq![]) == Err::<
                Seq<TablePartInfoView>,
                StartupFaultView,
            >(e@),
        },
{
    let mut infos: Vec<TablePartInfo> = Vec::new();
    assert(table_part::info_views(infos@) =~= Seq::<TablePartInfoView>::empty());
    let mut i: usize = 0;
    while i < entries.len()
        invariant
            i <= entries@.len(),
            parts_from(*table, entries@, 0, seq![]) == parts_from(
                *table,
                entries@,
                i as int,
                table_part::info_views(infos@),
            ),
        decreases entries@.len() - i,
    {
        let ghost before = table_part::info_views(infos@);
        match &entries[i] {
            Err(e) => return Err(StartupFault::PartEntry(table.clone(), e.clone())),
            Ok(entry) => match part_action(entry.name.as_str(), entry.is_dir) {
                PartAction::Load => match &entry.read {
                    Some(read) => match read {
                        Ok(info) => {
                            infos.push(info.clone());
                            assert(table_part::info_views(infos@) =~= before.push(info@));
                        },
                        Err(_) => {},
                    },
                    None => {},
                },
                _ => {},
            },
        }
        i += 1;
    }
    Ok(infos)
}

fn read_table(database: &String, entry: &TableEntry) -> (r: Result<NamedTable, StartupFault>)
    ensures
        match r {
            Ok(table) => table_found(*database, *entry) == Ok::<NamedTableView, StartupFaultView>(table@),
            Err(e) => table_found(*database, *entry) == Err::<NamedTableView, StartupFaultView>(e@),
        },
{
    let table = TableDef { database: database.clone(), table: entry.name.clone() };
    let metadata = match &entry.metadata {
        Ok(metadata) => metadata.clone(),
        Err(e) => return Err(StartupFault::Metadata(table, e.clone())),
    };
    let parts = match &entry.parts {
        Ok(parts) => parts,
        Err(e) => return Err(StartupFault::Parts(table, e.clone())),
    };
    match read_parts(&table, parts) {
        Ok(infos) => Ok(NamedTable { table, config: TableConfig { metadata, infos } }),
        Err(e) => Err(e),
    }
}

fn read_tables(database: &String, entries: &Vec<Result<TableEntry, String>>, found: &mut Vec<NamedTable>) -> (r: Result<
    (),
    StartupFault,
>)
    ensures
        match r {
            Ok(_) => tables_from(*database, entries@, 0, table_views(old(found)@)) == Ok::<
                Seq<NamedTableView>,
                StartupFaultView,
            >(table_views(final(found)@)),
            Err(e) => tables_from(*database, entries@, 0, table_views(old(found)@)) == Err::<
                Seq<NamedTableView>,
                StartupFaultView,
            >(e@),
        },
{
    let ghost start = table_views(found@);
    let mut i: usize = 0;
    while i < entries.len()
        invariant
            i <= entries@.len(),
            start == table_views(old(found)@),
            tables_from(*database, entries@, 0, start) == tables_from(
                *database,
                entries@,
                i as int,
                table_views(found@),
            ),
        decreases entries@.len() - i,
    {
        let ghost before = table_views(found@);
        match &entries[i] {
            Err(e) => return Err(StartupFault::TableEntry(e.clone())),
            Ok(entry) => if entry.is_dir {
                match read_table(database, entry) {
                    Ok(table) => {
                        found.push(table);
                        assert(table_views(found@) =~= before.push(table@));
                    },
                    Err(e) => return Err(e),
                }
            },
        }
        i += 1;
    }
    Ok(())
}

/// The tables that the storage directory holds.
pub fn read_listing(listing: &Result<Vec<Result<DatabaseEntry, String>>, String>) -> (r: Result<
    Vec<NamedTable>,
    StartupFault,
>)
    ensures
        match r {
            Ok(tables) => tables_in(*listing) == Ok::<Seq<NamedTableView>, StartupFaultView>(
                table_views(tables@),
            ),
            Err(e) => tables_in(*listing) == Err::<Seq<NamedTableView>, StartupFaultView>(e@),
        },
{
    let entries = match listing {
        Ok(entries) => entries,
        Err(e) => return Err(StartupFault::Databases(e.clone())),
    };
    let mut found: Vec<NamedTable> = Vec::new();
    assert(table_views(found@) =~= Seq::<NamedTableView>::empty());
    let mut i: usize = 0;
    while i < entries.len()
        invariant
            i <= entries@.len(),
            tables_in(*listing) == databases_from(entries@, 0, seq![]),
            databases_from(entries@, 0, seq![]) == databases_from(entries@, i as int, table_views(found@)),
        decreases entries@.len() - i,
    {
        match &entries[i] {
            Err(e) => return Err(StartupFault::DatabaseEntry(e.clone())),
            Ok(entry) => if entry.is_dir {
                match &entry.tables {
                    Err(e) => return Err(StartupFault::Tables(entry.name.clone(), e.clone())),
                    Ok(tables) => match read_tables(&entry.name, tables, &mut found) {
                        Ok(_) => {},
                        Err(e) => return Err(e),
                    },
                }
            },
        }
        i += 1;
    }
    Ok(found)
}

/// The text of the full name of a table.
pub open spec fn table_text(t: TableDef) -> Seq<char> {
    t.database@ + "."@ + t.table@
}

/// The message for what stops the start of the database.
pub open spec fn fault_text(fault: StartupFaultView, db_dir: Seq<char>) -> Seq<char> {
    match fault {
        StartupFaultView::Databases(e) => "Failed to read database directory ("@ + db_dir + "): "@ + e,
        StartupFaultView::DatabaseEntry(e) => "Failed to read database entry: "@ + e,
        StartupFaultView::Tables(d, e) => "Failed to read tables in database "@ + text::quoted(d) + ": "@
            + e,
        StartupFaultView::TableEntry(e) => "Failed to read table entry: "@ + e,
        StartupFaultView::Metadata(t, e) => "Could not read table metadata from table definition ("@
            + table_text(t) + "): "@ + error::error_text(e),
        StartupFaultView::Parts(t, e) => "Failed to read parts from table definition ("@ + table_text(t)
            + "): "@ + e,
        StartupFaultView::PartEntry(t, e) => "Failed to read part entry for table definition ("@
            + table_text(t) + "): "@ + e,
    }
}

/// The error for what stops the loading of parts.
pub open spec fn fault_error(fault: StartupFaultView) -> ErrorView {
    match fault {
        StartupFaultView::Databases(e) => ErrorView::CouldNotInsertData(
            "Failed to read database directory: "@ + e,
        ),
        StartupFaultView::DatabaseEntry(e) => ErrorView::CouldNotInsertData(
            "Failed to read database entry: "@ + e,
        ),
        StartupFaultView::Tables(d, e) => ErrorView::CouldNotInsertData(
            "Failed to read tables in database "@ + d + ": "@ + e,
        ),
        StartupFaultView::TableEntry(e) => ErrorView::CouldNotInsertData(
            "Failed to read table entry: "@ + e,
        ),
        StartupFaultView::Metadata(_, e) => e,
        StartupFaultView::Parts(t, e) => ErrorView::CouldNotInsertData(
            "Failed to read parts in table "@ + table_text(t) + ": "@ + e,
        ),
        StartupFaultView::PartEntry(_, e) => ErrorView::CouldNotInsertData(
            "Failed to read part entry: "@ + e,
        ),
    }
}

impl StartupFault {
    /// The message for what stops the start of the database.
    pub fn to_text(&self, db_dir: &str) -> (r: String)
        ensures
            r@ == fault_text(self@, db_dir@),
    {
        match self {
            StartupFault::Databases(e) => concat4(
                "Failed to read database directory (",
                db_dir,
                "): ",
                e.as_str(),
            ),
            StartupFault::DatabaseEntry(e) => concat2("Failed to read database entry: ", e.as_str()),
            StartupFault::Tables(d, e) => concat4(
                "Failed to read tables in database ",
                quote(d.as_str()).as_str(),
                ": ",
                e.as_str(),
            ),
            StartupFault::TableEntry(e) => concat2("Failed to read table entry: ", e.as_str()),
            StartupFault::Metadata(t, e) => concat4(
                "Could not read table metadata from table definition (",
                t.to_text().as_str(),
                "): ",
                e.to_text().as_str(),
            ),
            StartupFault::Parts(t, e) => concat4(
                "Failed to read parts from table definition (",
                t.to_text().as_str(),
                "): ",
                e.as_str(),
            ),
            StartupFault::PartEntry(t, e) => concat4(
                "Failed to read part entry for table definition (",
                t.to_text().as_str(),
                "): ",
                e.as_str(),
            ),
        }
    }

    /// The error for what stops the loading of parts.
    pub fn into_error(self) -> (r: Error)
        ensures
            r@ == fault_error(self@),
    {
        match self {
            StartupFault::Databases(e) => Error::CouldNotInsertData(
                concat2("Failed to read database directory: ", e.as_str()),
            ),
            StartupFault::DatabaseEntry(e) => Error::CouldNotInsertData(
                concat2("Failed to read database entry: ", e.as_str()),
            ),
            StartupFault::Tables(d, e) => Error::CouldNotInsertData(
                concat4("Failed to read tables in database ", d.as_str(), ": ", e.as_str()),
            ),
            StartupFault::TableEntry(e) => Error::CouldNotInsertData(
                concat2("Failed to read table entry: ", e.as_str()),
            ),
            StartupFault::Metadata(_, e) => e,
            StartupFault::Parts(t, e) => Error::CouldNotInsertData(
                concat4("Failed to read parts in table ", t.to_text().as_str(), ": ", e.as_str()),
            ),
            StartupFault::PartEntry(_, e) => Error::CouldNotInsertData(
                concat2("Failed to read part entry: ", e.as_str()),
            ),
        }
    }
}

/// The tables that the database starts with, for what was found in the storage directory.
///
/// Returns: the tables or `String` on critical failure
pub fn load_existing_parts(
    db_dir: &str,
    exists: bool,
    listing: &Result<Vec<Result<DatabaseEntry, String>>, String>,
) -> (r: Result<Vec<NamedTable>, String>)
    ensures
        match r {
            Ok(tables) => exists && tables_in(*listing) == Ok::<Seq<NamedTableView>, StartupFaultView>(
                table_views(tables@),
            ),
            Err(text) => if !exists {
                text@ == "Database directory does not exist: "@ + db_dir@
            } else {
                tables_in(*listing) is Err && text@ == fault_text(tables_in(*listing)->Err_0, db_dir@)
            },
        },
{
    if !exists {
        return Err(concat2("Database directory does not exist: ", db_dir));
    }
    match read_listing(listing) {
        Ok(tables) => Ok(tables),
        Err(fault) => Err(fault.to_text(db_dir)),
    }
}

/// The tables whose parts are loaded, for what was found in the storage directory. Without the
/// directory there are none.
///
/// Returns: the tables or `CouldNotInsertData` on critical failure
pub fn load_all_parts_on_startup(
    exists: bool,
    listing: &Result<Vec<Result<DatabaseEntry, String>>, String>,
) -> (r: Outcome<Vec<NamedTable>>)
    ensures
        match r {
            Ok(tables) => if exists {
                tables_in(*listing) == Ok::<Seq<NamedTableView>, StartupFaultView>(table_views(tables@))
            } else {
                tables@.len() == 0
            },
            Err(e) => exists && tables_in(*listing) is Err && e@ == fault_error(
                tables_in(*listing)->Err_0,
            ),
        },
{
    if !exists {
        return Ok(Vec::new());
    }
    match read_listing(listing) {
        Ok(tables) => Ok(tables),
        Err(fault) => Err(fault.into_error()),
    }
}

} // verus!
