//! Table engines: how the rows of a part are ordered and which of them are kept.
pub mod laws;
pub mod merge_tree;
pub mod order;
pub mod replacing_merge_tree;
pub mod sorting_laws;

use vstd::prelude::*;

use crate::error::{Error, ErrorView, Outcome};
use crate::error;
use crate::sql::projection::Projection;
use crate::storage::column::{ColumnDef, OutputColumn, OutputColumnView};
use crate::storage::column;

use self::merge_tree::MergeTreeEngine;
use self::replacing_merge_tree::ReplacingMergeTreeEngine;

verus! {

/// Interface for every engine to follow.
pub trait Engine {
    /// Whether the engine can order the columns: the values that it compares can be compared.
    spec fn orderable(&self, columns: Seq<OutputColumnView>) -> bool;

    /// Whether an outcome is the one that the engine owes for the columns.
    spec fn owes(
        &self,
        columns: Seq<OutputColumnView>,
        result: Result<Seq<OutputColumnView>, ErrorView>,
    ) -> bool;

    /// Orders columns for insert by `order_by`.
    fn order_columns(&self, columns: Vec<OutputColumn>) -> (r: Outcome<Vec<OutputColumn>>)
        requires
            self.orderable(column::output_views(columns@)),
        ensures
            self.owes(column::output_views(columns@), column::output_outcome(r)),
    ;
}

/// Used for storing engine name in metadata.
#[derive(Debug, Eq, Hash, PartialEq, Clone, Copy, Structural)]
pub enum EngineName {
    MergeTree,
    ReplacingMergeTree,
}

impl Default for EngineName {
    fn default() -> (r: Self)
        ensures
            r == EngineName::MergeTree,
    {
        EngineName::MergeTree
    }
}

/// The engine that a name stands for.
pub open spec fn engine_named(name: Seq<char>) -> Result<EngineName, ErrorView> {
    if name == "MergeTree"@ {
        Ok(EngineName::MergeTree)
    } else if name == "ReplacingMergeTree"@ {
        Ok(EngineName::ReplacingMergeTree)
    } else {
        Err(ErrorView::InvalidEngineName)
    }
}

impl EngineName {
    /// Returns:
    ///   * Ok: the engine with this exact name.
    ///   * Error: `InvalidEngineName` for every other name.
    pub fn try_from(value: &str) -> (r: Outcome<Self>)
        ensures
            error::outcome(r) == engine_named(value@),
    {
        if crate::text::same_text(value, "MergeTree") {
            Ok(EngineName::MergeTree)
        } else if crate::text::same_text(value, "ReplacingMergeTree") {
            Ok(EngineName::ReplacingMergeTree)
        } else {
            Err(Error::InvalidEngineName)
        }
    }

    /// Returns engine implementation for the given engine name.
    pub fn get_engine<'a>(&self, config: EngineConfig<'a>) -> (r: AnyEngine<'a>)
        ensures
            match *self {
                EngineName::MergeTree => r matches AnyEngine::MergeTree(e) && e.config == config,
                EngineName::ReplacingMergeTree => r matches AnyEngine::ReplacingMergeTree(e)
                    && e.config == config,
            },
    {
        match self {
            EngineName::MergeTree => AnyEngine::MergeTree(MergeTreeEngine::new(config)),
            EngineName::ReplacingMergeTree => AnyEngine::ReplacingMergeTree(
                ReplacingMergeTreeEngine::new(config),
            ),
        }
    }
}

/// Whether an engine can order the columns.
pub open spec fn engine_orderable(engine: EngineName, order_by: Seq<Projection>, cols: Seq<OutputColumnView>) -> bool {
    match engine {
        EngineName::MergeTree => merge_tree::merge_tree_orderable(order_by, cols),
        EngineName::ReplacingMergeTree => replacing_merge_tree::replacing_orderable(order_by, cols),
    }
}

/// Whether an outcome is the one that an engine owes for the columns.
pub open spec fn engine_owes(
    engine: EngineName,
    order_by: Seq<Projection>,
    primary_key: Seq<ColumnDef>,
    cols: Seq<OutputColumnView>,
    result: Result<Seq<OutputColumnView>, ErrorView>,
) -> bool {
    match engine {
        EngineName::MergeTree => merge_tree::merge_tree_owes(order_by, cols, result),
        EngineName::ReplacingMergeTree => replacing_merge_tree::replacing_owes(
            order_by,
            primary_key,
            cols,
            result,
        ),
    }
}

/// What an engine gives back are the columns it was given, each with as many values as the others.
pub proof fn lemma_engine_keeps_columns(
    engine: EngineName,
    order_by: Seq<Projection>,
    primary_key: Seq<ColumnDef>,
    cols: Seq<OutputColumnView>,
    out: Seq<OutputColumnView>,
)
    requires
        engine_owes(engine, order_by, primary_key, cols, Ok(out)),
    ensures
        out.len() == cols.len(),
        out.len() > 0,
        merge_tree::same_lengths(out),
        forall|i: int| 0 <= i < out.len() ==> (#[trigger] out[i]).proj == cols[i].proj,
{
}

/// Engine configuration. Used to configure engine before running.
pub struct EngineConfig<'a> {
    pub order_by: &'a [Projection],
    pub primary_key: &'a [ColumnDef],
}

impl<'a> EngineConfig<'a> {
    /// A configuration with the columns to sort by and the primary key.
    pub fn new(order_by: &'a [Projection], primary_key: &'a [ColumnDef]) -> (r: Self)
        ensures
            r.order_by == order_by,
            r.primary_key == primary_key,
    {
        EngineConfig { order_by, primary_key }
    }
}

/// One of the engines.
pub enum AnyEngine<'a> {
    MergeTree(MergeTreeEngine<'a>),
    ReplacingMergeTree(ReplacingMergeTreeEngine<'a>),
}

impl<'a> AnyEngine<'a> {
    /// Whether the engine can order the columns.
    pub fn can_order(&self, columns: &Vec<OutputColumn>) -> (r: bool)
        ensures
            r == self.orderable(column::output_views(columns@)),
    {
        match self {
            AnyEngine::MergeTree(e) => e.can_order(columns),
            AnyEngine::ReplacingMergeTree(e) => e.can_order(columns),
        }
    }
}

impl<'a> Engine for AnyEngine<'a> {
    open spec fn orderable(&self, columns: Seq<OutputColumnView>) -> bool {
        match self {
            AnyEngine::MergeTree(e) => e.orderable(columns),
            AnyEngine::ReplacingMergeTree(e) => e.orderable(columns),
        }
    }

    open spec fn owes(
        &self,
        columns: Seq<OutputColumnView>,
        result: Result<Seq<OutputColumnView>, ErrorView>,
    ) -> bool {
        match self {
            AnyEngine::MergeTree(e) => e.owes(columns, result),
            AnyEngine::ReplacingMergeTree(e) => e.owes(columns, result),
        }
    }

    fn order_columns(&self, columns: Vec<OutputColumn>) -> (r: Outcome<Vec<OutputColumn>>) {
        match self {
            AnyEngine::MergeTree(e) => e.order_columns(columns),
            AnyEngine::ReplacingMergeTree(e) => e.order_columns(columns),
        }
    }
}

} // verus!
