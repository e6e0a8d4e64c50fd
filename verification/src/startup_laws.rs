//! Which tables and parts are found when the database starts, said of what its directories hold.
use vstd::prelude::*;
use vstd::string::*;

use crate::search;
use crate::startup;
use crate::startup::{DatabaseEntry, NamedTableView, PartAction, PartEntry, StartupFaultView, TableEntry};
use crate::storage::table_def::TableDef;
use crate::storage::table_part::TablePartInfoView;

verus! {

/// Whether a name ends in a dot and `old`, in whatever case.
pub open spec fn ends_in_old(name: Seq<char>) -> bool {
    name.len() >= 4 && {
        let end = name.skip(name.len() - 4);
        &&& end[0] == '.'
        &&& end[1] == 'o' || end[1] == 'O'
        &&& end[2] == 'l' || end[2] == 'L'
        &&& end[3] == 'd' || end[3] == 'D'
    }
}

/// Whether the name of a directory is that of a part: it is not hidden, not that of parts being written, and
/// not that of a part that was replaced.
pub open spec fn is_part_name(name: Seq<char>) -> bool {
    !(name.len() > 0 && name[0] == '.') && name != "raw"@ && !ends_in_old(name)
}

/// Whether an entry of the directory of a table is a part whose information was read.
pub open spec fn is_part(entry: Result<PartEntry, String>) -> bool {
    &&& entry is Ok
    &&& entry->Ok_0.is_dir
    &&& is_part_name(entry->Ok_0.name@)
    &&& entry->Ok_0.read is Some
    &&& entry->Ok_0.read->Some_0 is Ok
}

/// What is done with an entry of the directory of a table goes by its kind and its name alone: a directory
/// with the name of a part is loaded, that of parts being written is removed, that of a replaced part is
/// reported, and everything else is skipped.
pub proof fn lemma_entries_are_told_apart(name: Seq<char>, is_dir: bool)
    ensures
        startup::action_for(name, is_dir) == PartAction::Load <==> is_dir && is_part_name(name),
        startup::action_for(name, is_dir) == PartAction::RemoveRaw <==> is_dir && name == "raw"@,
        startup::action_for(name, is_dir) == PartAction::ReportOld <==> is_dir && ends_in_old(name) && name[0] != '.',
{
    reveal_strlit("raw");
}

/// The property of being the position of a part among the entries of a directory.
pub open spec fn parts_among(entries: Seq<Result<PartEntry, String>>) -> spec_fn(int) -> bool {
    |i: int| is_part(entries[i])
}

/// The property of being the position of a directory among the entries of a directory.
pub open spec fn directories_among(entries: Seq<Result<TableEntry, String>>) -> spec_fn(int) -> bool {
    |i: int| entries[i] is Ok && entries[i]->Ok_0.is_dir
}

/// Whether parts are those that the entries of a directory give: of exactly the entries that are parts, in
/// their order, the information that was read.
pub open spec fn are_parts_of(entries: Seq<Result<PartEntry, String>>, at: Seq<int>, infos: Seq<TablePartInfoView>) -> bool {
    &&& search::are_selected(at, entries.len() as int, parts_among(entries))
    &&& infos.len() == at.len()
    &&& forall|k: int|
        0 <= k < at.len() ==> #[trigger] infos[k] == entries[at[k]]->Ok_0.read->Some_0->Ok_0@
}

/// Whether parts are those that the entries of a directory give, at some positions.
pub open spec fn are_parts_there(entries: Seq<Result<PartEntry, String>>, infos: Seq<TablePartInfoView>) -> bool {
    exists|at: Seq<int>| #[trigger] are_parts_of(entries, at, infos)
}

/// Whether what stops the reading of a directory is its first entry from a position on that could not be read.
pub open spec fn is_stopped_by(
    table: TableDef,
    entries: Seq<Result<PartEntry, String>>,
    from: int,
    e: StartupFaultView,
) -> bool {
    exists|k: int| #[trigger]
        is_first_fault(entries, from, k) && e == StartupFaultView::PartEntry(table, entries[k]->Err_0@)
}

proof fn lemma_parts(table: TableDef, entries: Seq<Result<PartEntry, String>>, i: int, found: Seq<TablePartInfoView>, at: Seq<int>)
    requires
        0 <= i <= entries.len(),
        search::are_selected(at, i, parts_among(entries)),
        found.len() == at.len(),
        forall|k: int| 0 <= k < at.len() ==> #[trigger] found[k] == entries[at[k]]->Ok_0.read->Some_0->Ok_0@,
    ensures
        match startup::parts_from(table, entries, i, found) {
            Ok(infos) => are_parts_there(entries, infos) && forall|k: int|
                i <= k < entries.len() ==> (#[trigger] entries[k]) is Ok,
            Err(e) => is_stopped_by(table, entries, i, e),
        },
    decreases entries.len() - i,
{
    let p = parts_among(entries);
    if i < entries.len() {
        match entries[i] {
            Err(e) => {
                assert(is_first_fault(entries, i, i));
            },
            Ok(entry) => {
                lemma_entries_are_told_apart(entry.name@, entry.is_dir);
                search::lemma_one_more_selected(at, i, p);
                assert(p(i) == is_part(entries[i]));
                if is_part(entries[i]) {
                    let info = entry.read->Some_0->Ok_0@;
                    let more = at.push(i);
                    let next = found.push(info);
                    assert forall|k: int| 0 <= k < more.len() implies #[trigger] next[k]
                        == entries[more[k]]->Ok_0.read->Some_0->Ok_0@ by {
                        if k < at.len() {
                            assert(next[k] == found[k]);
                        }
                    }
                    lemma_parts(table, entries, i + 1, next, more);
                } else {
                    lemma_parts(table, entries, i + 1, found, at);
                }
                if let Err(e) = startup::parts_from(table, entries, i, found) {
                    assert(is_stopped_by(table, entries, i + 1, e));
                    let k = choose|k: int| #[trigger]
                        is_first_fault(entries, i + 1, k) && e == StartupFaultView::PartEntry(
                            table,
                            entries[k]->Err_0@,
                        );
                    assert(is_first_fault(entries, i, k));
                }
            },
        }
    } else {
        assert(are_parts_of(entries, at, found));
    }
}

/// Whether an entry is the first from a position on that could not be read.
pub open spec fn is_first_fault<T>(entries: Seq<Result<T, String>>, from: int, k: int) -> bool {
    from <= k < entries.len() && entries[k] is Err && forall|j: int| from <= j < k ==> (#[trigger] entries[j]) is Ok
}

/// The parts of a table are those that its directory holds: see [`are_parts_of`]. Reading them fails exactly
/// where an entry of the directory could not be read.
pub proof fn lemma_parts_found_are_those_there(table: TableDef, entries: Seq<Result<PartEntry, String>>)
    ensures
        match startup::parts_from(table, entries, 0, seq![]) {
            Ok(infos) => are_parts_there(entries, infos) && forall|k: int|
                0 <= k < entries.len() ==> (#[trigger] entries[k]) is Ok,
            Err(e) => is_stopped_by(table, entries, 0, e),
        },
{
    lemma_parts(table, entries, 0, seq![], seq![]);
}

/// Whether a table is what an entry of the directory of a database stands for: the name of the directory, the
/// metadata that was read, and the parts that are there.
pub open spec fn is_table_of(database: Seq<char>, entry: TableEntry, t: NamedTableView) -> bool {
    &&& entry.is_dir
    &&& t.table.database@ == database
    &&& t.table.table@ == entry.name@
    &&& entry.metadata is Ok
    &&& t.config.metadata == entry.metadata->Ok_0@
    &&& entry.parts is Ok
    &&& are_parts_there(entry.parts->Ok_0@, t.config.infos)
}

/// Whether tables behind the first `m` are those of the directories among the first `n` entries, in their
/// order.
pub open spec fn are_tables_of(
    database: Seq<char>,
    entries: Seq<Result<TableEntry, String>>,
    n: int,
    m: int,
    at: Seq<int>,
    tables: Seq<NamedTableView>,
) -> bool {
    &&& search::are_selected(at, n, directories_among(entries))
    &&& tables.len() == m + at.len()
    &&& forall|k: int| 0 <= k < at.len() ==> is_table_of(database, entries[#[trigger] at[k]]->Ok_0, tables[m + k])
}

proof fn lemma_tables(
    database: String,
    entries: Seq<Result<TableEntry, String>>,
    i: int,
    found: Seq<NamedTableView>,
    m: int,
    at: Seq<int>,
)
    requires
        0 <= i <= entries.len(),
        0 <= m,
        are_tables_of(database@, entries, i, m, at, found),
    ensures
        startup::tables_from(database, entries, i, found) matches Ok(out) ==> {
            &&& found.len() <= out.len()
            &&& forall|k: int| 0 <= k < found.len() ==> #[trigger] out[k] == found[k]
            &&& exists|all: Seq<int>| #[trigger]
                are_tables_of(database@, entries, entries.len() as int, m, all, out)
            &&& forall|k: int| i <= k < entries.len() ==> (#[trigger] entries[k]) is Ok
        },
    decreases entries.len() - i,
{
    let p = directories_among(entries);
    if i < entries.len() {
        if let Ok(entry) = entries[i] {
            search::lemma_one_more_selected(at, i, p);
            assert(p(i) == entry.is_dir);
            if entry.is_dir {
                if let Ok(table) = startup::table_found(database, entry) {
                    let t = TableDef { database, table: entry.name };
                    lemma_parts_found_are_those_there(t, entry.parts->Ok_0@);
                    assert(is_table_of(database@, entry, table));
                    let next = found.push(table);
                    let more = at.push(i);
                    assert forall|k: int| 0 <= k < more.len() implies is_table_of(
                        database@,
                        entries[#[trigger] more[k]]->Ok_0,
                        next[m + k],
                    ) by {
                        if k < at.len() {
                            assert(more[k] == at[k]);
                            assert(next[m + k] == found[m + k]);
                        }
                    }
                    lemma_tables(database, entries, i + 1, next, m, more);
                    if let Ok(out) = startup::tables_from(database, entries, i, found) {
                        assert forall|k: int| 0 <= k < found.len() implies #[trigger] out[k] == found[k] by {
                            assert(out[k] == next[k]);
                        }
                    }
                }
            } else {
                lemma_tables(database, entries, i + 1, found, m, at);
            }
        }
    } else {
        assert(are_tables_of(database@, entries, entries.len() as int, m, at, found));
    }
}

/// The tables of a database are the directories that its directory holds, in their order, each under its own
/// name and with its own parts; they come behind the tables that were found before.
pub proof fn lemma_tables_found_are_those_there(
    database: String,
    entries: Seq<Result<TableEntry, String>>,
    found: Seq<NamedTableView>,
)
    ensures
        startup::tables_from(database, entries, 0, found) matches Ok(out) ==> {
            &&& found.len() <= out.len()
            &&& forall|k: int| 0 <= k < found.len() ==> #[trigger] out[k] == found[k]
            &&& exists|at: Seq<int>| #[trigger]
                are_tables_of(database@, entries, entries.len() as int, found.len() as int, at, out)
            &&& forall|k: int| 0 <= k < entries.len() ==> (#[trigger] entries[k]) is Ok
        },
{
    lemma_tables(database, entries, 0, found, found.len() as int, seq![]);
}

/// Whether a table is what an entry of the directory of a database in the storage directory stands for.
pub open spec fn is_table_at(entries: Seq<Result<DatabaseEntry, String>>, d: int, k: int, t: NamedTableView) -> bool {
    &&& 0 <= d < entries.len()
    &&& entries[d] is Ok
    &&& entries[d]->Ok_0.is_dir
    &&& entries[d]->Ok_0.tables is Ok
    &&& 0 <= k < entries[d]->Ok_0.tables->Ok_0@.len()
    &&& entries[d]->Ok_0.tables->Ok_0@[k] is Ok
    &&& is_table_of(entries[d]->Ok_0.name@, entries[d]->Ok_0.tables->Ok_0@[k]->Ok_0, t)
}

/// Whether a table was found in one of the first `n` databases.
pub open spec fn is_found(entries: Seq<Result<DatabaseEntry, String>>, n: int, t: NamedTableView) -> bool {
    exists|d: int, k: int| d < n && #[trigger] is_table_at(entries, d, k, t)
}

/// Whether the table that an entry stands for is among those found.
pub open spec fn has_table(entries: Seq<Result<DatabaseEntry, String>>, d: int, k: int, out: Seq<NamedTableView>) -> bool {
    exists|x: int| 0 <= x < out.len() && is_table_at(entries, d, k, #[trigger] out[x])
}

/// Whether an entry of the directory of a database is a directory.
pub open spec fn is_table_directory(entries: Seq<Result<DatabaseEntry, String>>, d: int, k: int) -> bool {
    &&& 0 <= d < entries.len()
    &&& entries[d] is Ok
    &&& entries[d]->Ok_0.is_dir
    &&& entries[d]->Ok_0.tables is Ok
    &&& 0 <= k < entries[d]->Ok_0.tables->Ok_0@.len()
    &&& entries[d]->Ok_0.tables->Ok_0@[k] is Ok
    &&& entries[d]->Ok_0.tables->Ok_0@[k]->Ok_0.is_dir
}

proof fn lemma_databases(entries: Seq<Result<DatabaseEntry, String>>, i: int, found: Seq<NamedTableView>)
    requires
        0 <= i <= entries.len(),
        forall|x: int| 0 <= x < found.len() ==> is_found(entries, i, #[trigger] found[x]),
        forall|d: int, k: int| d < i && #[trigger] is_table_directory(entries, d, k) ==> has_table(entries, d, k, found),
    ensures
        startup::databases_from(entries, i, found) matches Ok(out) ==> {
            &&& forall|x: int| 0 <= x < out.len() ==> is_found(entries, entries.len() as int, #[trigger] out[x])
            &&& forall|d: int, k: int| #[trigger] is_table_directory(entries, d, k) ==> has_table(entries, d, k, out)
        },
    decreases entries.len() - i,
{
    if i < entries.len() {
        if let Ok(entry) = entries[i] {
            if entry.is_dir {
                if let Ok(tables) = entry.tables {
                    if let Ok(next) = startup::tables_from(entry.name, tables@, 0, found) {
                        lemma_tables_found_are_those_there(entry.name, tables@, found);
                        let m = found.len() as int;
                        let at = choose|at: Seq<int>| #[trigger]
                            are_tables_of(entry.name@, tables@, tables@.len() as int, m, at, next);
                        assert forall|x: int| 0 <= x < next.len() implies is_found(entries, i + 1, #[trigger] next[x]) by {
                            if x < m {
                                assert(next[x] == found[x]);
                                let (d, k) = choose|d: int, k: int| d < i && #[trigger] is_table_at(entries, d, k, found[x]);
                                assert(d < i + 1 && is_table_at(entries, d, k, next[x]));
                            } else {
                                let k = at[x - m];
                                assert(at.contains(k));
                                assert(directories_among(tables@)(k));
                                assert(is_table_at(entries, i, k, next[x]));
                            }
                        }
                        assert forall|d: int, k: int|
                            d < i + 1 && #[trigger] is_table_directory(entries, d, k) implies has_table(
                            entries,
                            d,
                            k,
                            next,
                        ) by {
                            if d < i {
                                let x = choose|x: int| 0 <= x < found.len() && is_table_at(entries, d, k, #[trigger] found[x]);
                                assert(next[x] == found[x]);
                            } else {
                                assert(directories_among(tables@)(k));
                                assert(at.contains(k));
                                let y = choose|y: int| 0 <= y < at.len() && at[y] == k;
                                assert(is_table_at(entries, d, k, next[m + y]));
                            }
                        }
                        lemma_databases(entries, i + 1, next);
                    }
                }
            } else {
                assert forall|x: int| 0 <= x < found.len() implies is_found(entries, i + 1, #[trigger] found[x]) by {
                    let (d, k) = choose|d: int, k: int| d < i && #[trigger] is_table_at(entries, d, k, found[x]);
                    assert(d < i + 1 && is_table_at(entries, d, k, found[x]));
                }
                lemma_databases(entries, i + 1, found);
            }
        }
    }
}

/// The tables that are found are the directories in the directories of the storage directory: each of them is
/// found, under the names of both, and nothing else is.
pub proof fn lemma_tables_found_are_those_on_disk(entries: Seq<Result<DatabaseEntry, String>>)
    ensures
        startup::databases_from(entries, 0, seq![]) matches Ok(out) ==> {
            &&& forall|x: int| 0 <= x < out.len() ==> is_found(entries, entries.len() as int, #[trigger] out[x])
            &&& forall|d: int, k: int| #[trigger] is_table_directory(entries, d, k) ==> has_table(entries, d, k, out)
        },
{
    lemma_databases(entries, 0, seq![]);
}

} // verus!
