//! Rewriting logical plans before they are run.
pub mod query_flattening;

use vstd::prelude::*;

use crate::sql::logical_plan::plan::LogicalPlan;

verus! {

impl LogicalPlan {
    /// Optimizes a logical plan by flattening nested structures.
    ///
    /// Merges subqueries, filters, projections, order by, and limit clauses.
    ///
    /// Returns: Optimized `LogicalPlan`.
    pub fn optimize(self) -> (r: LogicalPlan)
        requires
            query_flattening::flattenable(self@),
        ensures
            r@ == query_flattening::flattened(self@),
    {
        self.flatten()
    }
}

} // verus!
