//! High level representation of a statement.
use vstd::prelude::*;
use vstd::string::*;

use crate::sql::ast::Expr;
use crate::sql::projection::Projection;
use crate::storage::column::{ColumnDef, PhysicalColumn, PhysicalColumnView};
use crate::storage::column;
use crate::storage::table_def::TableDef;
use crate::storage::table_metadata::TableSettings;

verus! {

/// Source for a Scan operation
#[derive(Debug, PartialEq)]
pub enum ScanSource<T> {
    Table(TableDef),
    Subquery(Box<T>),
}

/// A function over the values of a group.
#[derive(Debug, PartialEq)]
pub enum AggregateFunction {
    Min(Box<Projection>),
    Max(Box<Projection>),
    Sum(Box<Projection>),
    Avg(Box<Projection>),
    Count(Box<Projection>),
}

impl Clone for AggregateFunction {
    fn clone(&self) -> (r: Self)
        ensures
            r == *self,
    {
        match self {
            AggregateFunction::Min(p) => AggregateFunction::Min(Box::new((**p).clone())),
            AggregateFunction::Max(p) => AggregateFunction::Max(Box::new((**p).clone())),
            AggregateFunction::Sum(p) => AggregateFunction::Sum(Box::new((**p).clone())),
            AggregateFunction::Avg(p) => AggregateFunction::Avg(Box::new((**p).clone())),
            AggregateFunction::Count(p) => AggregateFunction::Count(Box::new((**p).clone())),
        }
    }
}

/// A column of a result that holds one value for each group.
#[derive(Debug, PartialEq)]
pub struct AggregateProjection {
    pub alias: Option<String>,
    pub source: AggregateFunction,
}

/// High level representation of the SQL query.
#[allow(inconsistent_fields)]
#[derive(Debug, PartialEq)]
pub enum LogicalPlan {
    /// No tasks need to be done. Skip.
    Skip,
    /// Create a database.
    CreateDatabase { name: String, if_not_exists: bool },
    /// Create a table.
    CreateTable {
        name: TableDef,
        if_not_exists: bool,
        columns: Vec<ColumnDef>,
        settings: TableSettings,
        order_by: Vec<ColumnDef>,
        primary_key: Vec<ColumnDef>,
    },
    /// Insert values.
    Insert { table_def: TableDef, columns: Vec<PhysicalColumn> },
    DropDatabase { name: String, if_exists: bool },
    DropTable { name: TableDef, if_exists: bool },
    Scan { source: ScanSource<LogicalPlan> },
    Projection { columns: Vec<Projection>, plan: Box<LogicalPlan> },
    Filter { expr: Box<Expr>, plan: Box<LogicalPlan> },
    OrderBy { projs: Vec<Vec<Projection>>, plan: Box<LogicalPlan> },
    Limit { limit: Option<usize>, offset: usize, plan: Box<LogicalPlan> },
    Aggregate {
        aggr_proj: Vec<AggregateProjection>,
        group_by: Vec<Projection>,
        plan: Box<LogicalPlan>,
    },
    Having { expr: Box<Expr>, plan: Box<LogicalPlan> },
}

/// A logical plan with its lists as sequences.
#[allow(inconsistent_fields)]
#[verifier::ext_equal]
pub enum PlanView {
    Skip,
    CreateDatabase { name: String, if_not_exists: bool },
    CreateTable {
        name: TableDef,
        if_not_exists: bool,
        columns: Seq<ColumnDef>,
        settings: TableSettings,
        order_by: Seq<ColumnDef>,
        primary_key: Seq<ColumnDef>,
    },
    Insert { table_def: TableDef, columns: Seq<PhysicalColumnView> },
    DropDatabase { name: String, if_exists: bool },
    DropTable { name: TableDef, if_exists: bool },
    ScanTable { table: TableDef },
    ScanSubquery { plan: Box<PlanView> },
    Projection { columns: Seq<Projection>, plan: Box<PlanView> },
    Filter { expr: Expr, plan: Box<PlanView> },
    OrderBy { projs: Seq<Seq<Projection>>, plan: Box<PlanView> },
    Limit { limit: Option<usize>, offset: usize, plan: Box<PlanView> },
    Aggregate { aggr_proj: Seq<AggregateProjection>, group_by: Seq<Projection>, plan: Box<PlanView> },
    Having { expr: Expr, plan: Box<PlanView> },
}

/// The lists of a list, each as a sequence.
pub open spec fn nested<T>(lists: Seq<Vec<T>>) -> Seq<Seq<T>> {
    lists.map_values(|l: Vec<T>| l@)
}

impl View for LogicalPlan {
    type V = PlanView;

    open spec fn view(&self) -> PlanView
        decreases self,
    {
        match *self {
            LogicalPlan::Skip => PlanView::Skip,
            LogicalPlan::CreateDatabase { name, if_not_exists } => PlanView::CreateDatabase {
                name,
                if_not_exists,
            },
            LogicalPlan::CreateTable {
                name,
                if_not_exists,
                columns,
                settings,
                order_by,
                primary_key,
            } => PlanView::CreateTable {
                name,
                if_not_exists,
                columns: columns@,
                settings,
                order_by: order_by@,
                primary_key: primary_key@,
            },
            LogicalPlan::Insert { table_def, columns } => PlanView::Insert {
                table_def,
                columns: column::physical_views(columns@),
            },
            LogicalPlan::DropDatabase { name, if_exists } => PlanView::DropDatabase {
                name,
                if_exists,
            },
            LogicalPlan::DropTable { name, if_exists } => PlanView::DropTable { name, if_exists },
            LogicalPlan::Scan { source } => match source {
                ScanSource::Table(table) => PlanView::ScanTable { table },
                ScanSource::Subquery(plan) => PlanView::ScanSubquery { plan: Box::new((*plan).view()) },
            },
            LogicalPlan::Projection { columns, plan } => PlanView::Projection {
                columns: columns@,
                plan: Box::new((*plan).view()),
            },
            LogicalPlan::Filter { expr, plan } => PlanView::Filter {
                expr: *expr,
                plan: Box::new((*plan).view()),
            },
            LogicalPlan::OrderBy { projs, plan } => PlanView::OrderBy {
                projs: nested(projs@),
                plan: Box::new((*plan).view()),
            },
            LogicalPlan::Limit { limit, offset, plan } => PlanView::Limit {
                limit,
                offset,
                plan: Box::new((*plan).view()),
            },
            LogicalPlan::Aggregate { aggr_proj, group_by, plan } => PlanView::Aggregate {
                aggr_proj: aggr_proj@,
                group_by: group_by@,
                plan: Box::new((*plan).view()),
            },
            LogicalPlan::Having { expr, plan } => PlanView::Having {
                expr: *expr,
                plan: Box::new((*plan).view()),
            },
        }
    }
}

} // verus!
