//! What the database knows of its tables while it runs, and the load it is under.
use vstd::prelude::*;

use crate::search;
use crate::storage::table_def;
use crate::storage::table_def::TableDef;
use crate::storage::table_metadata::{TableMetadata, TableMetadataView, TableSchema, TableSchemaView};
use crate::storage::table_part;
use crate::storage::table_part::{TablePartInfo, TablePartInfoView};

verus! {

/// A table and its schema.
pub struct CatalogEntry {
    pub table: TableDef,
    pub schema: TableSchema,
}

/// The tables of the database and their schemas.
pub struct Catalog {
    pub entries: Vec<CatalogEntry>,
}

/// The property of being the entry of a table.
pub open spec fn entry_of(table: TableDef) -> spec_fn(CatalogEntry) -> bool {
    |e: CatalogEntry| table_def::table_def_eq(e.table, table)
}

/// The schema of a table, where the catalog has it.
pub open spec fn schema_of(entries: Seq<CatalogEntry>, table: TableDef) -> Option<TableSchemaView> {
    match search::position(entries, entry_of(table)) {
        Some(i) => Some(entries[i].schema@),
        None => None,
    }
}

impl Catalog {
    /// The schema of a table, where the catalog has it.
    pub fn get(&self, table: &TableDef) -> (r: Option<&TableSchema>)
        ensures
            match r {
                Some(schema) => schema_of(self.entries@, *table) == Some(schema@),
                None => schema_of(self.entries@, *table) is None,
            },
    {
        let mut i: usize = 0;
        while i < self.entries.len()
            invariant
                i <= self.entries@.len(),
                search::position(self.entries@, entry_of(*table)) == search::position_from(
                    self.entries@,
                    entry_of(*table),
                    i as int,
                ),
            decreases self.entries@.len() - i,
        {
            if self.entries[i].table == *table {
                return Some(&self.entries[i].schema);
            }
            i += 1;
        }
        None
    }
}

/// What the database knows of a table: its metadata and its parts.
#[derive(Debug)]
pub struct TableConfig {
    pub metadata: TableMetadata,
    pub infos: Vec<TablePartInfo>,
}

/// What the database knows of a table, with its lists as sequences.
#[verifier::ext_equal]
pub struct TableConfigView {
    pub metadata: TableMetadataView,
    pub infos: Seq<TablePartInfoView>,
}

impl View for TableConfig {
    type V = TableConfigView;

    open spec fn view(&self) -> TableConfigView {
        TableConfigView { metadata: self.metadata@, infos: table_part::info_views(self.infos@) }
    }
}

impl Clone for TableConfig {
    fn clone(&self) -> (r: Self)
        ensures
            r@ == self@,
    {
        let mut infos: Vec<TablePartInfo> = Vec::new();
        let mut i: usize = 0;
        while i < self.infos.len()
            invariant
                i <= self.infos@.len(),
                infos@.len() == i,
                forall|k: int| 0 <= k < i ==> (#[trigger] infos@[k])@ == self.infos@[k]@,
            decreases self.infos@.len() - i,
        {
            infos.push(self.infos[i].clone());
            i += 1;
        }
        assert(table_part::info_views(infos@) =~= table_part::info_views(self.infos@));
        TableConfig { metadata: self.metadata.clone(), infos }
    }
}

/// The share that a running query has in the load of the database.
///
/// Used to track query complexity: the load grows by it when the query starts and shrinks by it when
/// the query completes.
pub struct ComplexityGuard {
    pub complexity: usize,
}

/// The load after a query with a given complexity has started. The counter wraps around.
pub open spec fn load_with(load: usize, complexity: usize) -> usize {
    if load + complexity > usize::MAX {
        (load + complexity - usize::MAX - 1) as usize
    } else {
        (load + complexity) as usize
    }
}

/// The load after a query with a given complexity has completed. The counter wraps around.
pub open spec fn load_without(load: usize, complexity: usize) -> usize {
    if load < complexity {
        (load - complexity + usize::MAX + 1) as usize
    } else {
        (load - complexity) as usize
    }
}

impl ComplexityGuard {
    /// Creates a new complexity guard with the given complexity value.
    pub fn new(complexity: usize) -> (r: Self)
        ensures
            r.complexity == complexity,
    {
        ComplexityGuard { complexity }
    }

    /// The load after the query has started.
    pub fn acquire(&self, load: usize) -> (r: usize)
        ensures
            r == load_with(load, self.complexity),
    {
        load.wrapping_add(self.complexity)
    }

    /// The load after the query has completed.
    pub fn release(&self, load: usize) -> (r: usize)
        ensures
            r == load_without(load, self.complexity),
    {
        load.wrapping_sub(self.complexity)
    }
}

/// A query that has completed leaves the load as it was before it started, whatever else started
/// or completed in between.
pub proof fn lemma_guard_gives_back_its_share(load: usize, complexity: usize)
    ensures
        load_without(load_with(load, complexity), complexity) == load,
{
}

} // verus!
