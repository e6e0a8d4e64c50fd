//! From a command to the plan that is executed.
use vstd::prelude::*;
use vstd::string::*;

use crate::error;
use crate::error::{ErrorView, Outcome};
use crate::runtime_config::Catalog;
use crate::sql::execution::select;
use crate::sql::execution::select::unanswerable_error;
use crate::sql::logical_plan::plan::{LogicalPlan, PlanView};
use crate::sql::physical_plan;
use crate::sql::physical_plan::{PhysicalPlan, PhysicalView};
use crate::sql::plan_optimization::query_flattening;
use crate::sql::sql_text;
use crate::storage::numbers::Numbers;

verus! {

/// Main runner struct which executes received command.
#[derive(Debug)]
pub struct CommandRunner;

/// The plan that is executed for a logical plan: it is optimized and converted. Where its offsets do
/// not add up to a number that fits, it cannot be executed.
pub open spec fn executed_plan(p: PlanView) -> Result<PhysicalView, ErrorView> {
    if query_flattening::flattenable(p) {
        physical_plan::physical(query_flattening::flattened(p))
    } else {
        Err(select::unanswerable())
    }
}

impl CommandRunner {
    /// Plans a command.
    ///
    /// Parses SQL, optimizes logical plan, converts to physical plan.
    ///
    /// Returns:
    ///   * Ok: `PhysicalPlan` to execute.
    ///   * Error: Any error from parsing or planning stages.
    pub fn plan_command(command: &str, catalog: &Catalog, numbers: &Numbers) -> (r: Outcome<PhysicalPlan>)
        ensures
            error::outcome_view(r) == (match sql_text::statements_plan(
                sql_text::parsed_statements(command@),
                catalog.entries@,
                numbers.readings@,
            ) {
                Ok(p) => executed_plan(p),
                Err(e) => Err(e),
            }),
    {
        match LogicalPlan::try_from(command, catalog, numbers) {
            Ok(plan) => Self::plan_statement(plan),
            Err(e) => Err(e),
        }
    }

    /// The plan that is executed for a logical plan.
    pub fn plan_statement(plan: LogicalPlan) -> (r: Outcome<PhysicalPlan>)
        ensures
            error::outcome_view(r) == executed_plan(plan@),
    {
        if !plan.is_flattenable() {
            return Err(unanswerable_error());
        }
        PhysicalPlan::try_from(plan.optimize())
    }
}

} // verus!
