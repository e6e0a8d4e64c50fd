//! Lower level representation of a statement.
use vstd::prelude::*;
use vstd::string::*;

use crate::error::{Error, ErrorView, Outcome};
use crate::error;
use crate::sql::ast::{BinaryOperator, Expr};
use crate::sql::logical_plan::plan;
use crate::sql::logical_plan::plan::{AggregateProjection, LogicalPlan, PlanView, ScanSource};
use crate::sql::projection::Projection;
use crate::storage::column::{ColumnDef, PhysicalColumn, PhysicalColumnView};
use crate::storage::column;
use crate::storage::table_def::TableDef;
use crate::storage::table_metadata::TableSettings;

verus! {

/// Where one level of a query reads.
#[derive(Debug, PartialEq)]
pub enum SelectSource {
    Table(TableDef),
    Subquery(Box<SelectNode>),
}

/// One level of a query: where it reads and what it does with the rows.
#[derive(Debug, PartialEq)]
pub struct SelectNode {
    pub scan_source: SelectSource,
    pub columns: Vec<Projection>,
    pub filter: Option<Box<Expr>>,
    pub aggregate_cols: Vec<AggregateProjection>,
    pub group_by: Vec<Projection>,
    pub having: Option<Box<Expr>>,
    pub order_by: Option<Vec<Vec<Projection>>>,
    pub limit: Option<usize>,
    pub offset: usize,
}

/// Where a level of a query reads.
#[verifier::ext_equal]
pub enum SourceView {
    Table(TableDef),
    Subquery(Box<SelectView>),
}

/// What a level of a query does with the rows it reads.
#[verifier::ext_equal]
pub struct ClausesView {
    pub columns: Seq<Projection>,
    pub filter: Option<Expr>,
    pub aggregate_cols: Seq<AggregateProjection>,
    pub group_by: Seq<Projection>,
    pub having: Option<Expr>,
    pub order_by: Option<Seq<Seq<Projection>>>,
    pub limit: Option<usize>,
    pub offset: usize,
}

/// One level of a query with its lists as sequences.
#[verifier::ext_equal]
pub struct SelectView {
    pub scan_source: SourceView,
    pub clauses: ClausesView,
}

/// An optional boxed expression without its box.
pub open spec fn unboxed(e: Option<Box<Expr>>) -> Option<Expr> {
    match e {
        Some(b) => Some(*b),
        None => None,
    }
}

/// An optional list of lists as sequences.
pub open spec fn orders_view(o: Option<Vec<Vec<Projection>>>) -> Option<Seq<Seq<Projection>>> {
    match o {
        Some(v) => Some(plan::nested(v@)),
        None => None,
    }
}

impl View for SelectNode {
    type V = SelectView;

    open spec fn view(&self) -> SelectView
        decreases self,
    {
        SelectView {
            scan_source: match self.scan_source {
                SelectSource::Table(table) => SourceView::Table(table),
                SelectSource::Subquery(node) => SourceView::Subquery(Box::new((*node).view())),
            },
            clauses: ClausesView {
                columns: self.columns@,
                filter: unboxed(self.filter),
                aggregate_cols: self.aggregate_cols@,
                group_by: self.group_by@,
                having: unboxed(self.having),
                order_by: orders_view(self.order_by),
                limit: self.limit,
                offset: self.offset,
            },
        }
    }
}

/// Lower level representation of the Logical Plan.
#[allow(inconsistent_fields)]
#[derive(Debug, PartialEq)]
pub enum PhysicalPlan {
    /// No tasks need to be done. Skip.
    Skip,
    /// Create a database.
    CreateDatabase { name: String, if_not_exists: bool },
    /// Create a table.
    CreateTable {
        name: TableDef,
        if_not_exists: bool,
        columns: Vec<ColumnDef>,
        settings: TableSettings,
        order_by: Vec<ColumnDef>,
        primary_key: Vec<ColumnDef>,
    },
    /// Insert values.
    Insert { table_def: TableDef, columns: Vec<PhysicalColumn> },
    DropDatabase { name: String, if_exists: bool },
    DropTable { name: TableDef, if_exists: bool },
    /// Select columns from table.
    Select(SelectNode),
}

/// A physical plan with its lists as sequences.
#[allow(inconsistent_fields)]
#[verifier::ext_equal]
pub enum PhysicalView {
    Skip,
    CreateDatabase { name: String, if_not_exists: bool },
    CreateTable {
        name: TableDef,
        if_not_exists: bool,
        columns: Seq<ColumnDef>,
        settings: TableSettings,
        order_by: Seq<ColumnDef>,
        primary_key: Seq<ColumnDef>,
    },
    Insert { table_def: TableDef, columns: Seq<PhysicalColumnView> },
    DropDatabase { name: String, if_exists: bool },
    DropTable { name: TableDef, if_exists: bool },
    Select(SelectView),
}

impl View for PhysicalPlan {
    type V = PhysicalView;

    open spec fn view(&self) -> PhysicalView {
        match *self {
            PhysicalPlan::Skip => PhysicalView::Skip,
            PhysicalPlan::CreateDatabase { name, if_not_exists } => PhysicalView::CreateDatabase {
                name,
                if_not_exists,
            },
            PhysicalPlan::CreateTable {
                name,
                if_not_exists,
                columns,
                settings,
                order_by,
                primary_key,
            } => PhysicalView::CreateTable {
                name,
                if_not_exists,
                columns: columns@,
                settings,
                order_by: order_by@,
                primary_key: primary_key@,
            },
            PhysicalPlan::Insert { table_def, columns } => PhysicalView::Insert {
                table_def,
                columns: column::physical_views(columns@),
            },
            PhysicalPlan::DropDatabase { name, if_exists } => PhysicalView::DropDatabase {
                name,
                if_exists,
            },
            PhysicalPlan::DropTable { name, if_exists } => PhysicalView::DropTable {
                name,
                if_exists,
            },
            PhysicalPlan::Select(node) => PhysicalView::Select(node@),
        }
    }
}

/// The clauses of a query that has none.
pub open spec fn no_clauses() -> ClausesView {
    ClausesView {
        columns: seq![],
        filter: None,
        aggregate_cols: seq![],
        group_by: seq![],
        having: None,
        order_by: None,
        limit: None,
        offset: 0,
    }
}

/// A filter behind the one that was found above it.
pub open spec fn both(above: Option<Expr>, expr: Expr) -> Expr {
    match above {
        None => expr,
        Some(value) => Expr::BinaryOp {
            left: Box::new(value),
            op: BinaryOperator::And,
            right: Box::new(expr),
        },
    }
}

/// One level of a query, read from the top of a plan down to its scan, behind the clauses that were
/// found above. Of a clause that occurs twice the lower one counts, and filters are joined.
pub open spec fn select_below(p: PlanView, above: ClausesView) -> Result<SelectView, ErrorView>
    decreases p,
{
    match p {
        PlanView::Limit { limit, offset, plan } => select_below(
            *plan,
            ClausesView { limit, offset, ..above },
        ),
        PlanView::OrderBy { projs, plan } => select_below(
            *plan,
            ClausesView { order_by: Some(projs), ..above },
        ),
        PlanView::Having { expr, plan } => select_below(
            *plan,
            ClausesView { having: Some(expr), ..above },
        ),
        PlanView::Aggregate { aggr_proj, group_by, plan } => select_below(
            *plan,
            ClausesView { aggregate_cols: aggr_proj, group_by, ..above },
        ),
        PlanView::Projection { columns, plan } => select_below(
            *plan,
            ClausesView { columns, ..above },
        ),
        PlanView::Filter { expr, plan } => select_below(
            *plan,
            ClausesView { filter: Some(both(above.filter, expr)), ..above },
        ),
        PlanView::ScanTable { table } => Ok(
            SelectView { scan_source: SourceView::Table(table), clauses: above },
        ),
        PlanView::ScanSubquery { plan } => match select_below(*plan, no_clauses()) {
            Ok(inner) => Ok(
                SelectView { scan_source: SourceView::Subquery(Box::new(inner)), clauses: above },
            ),
            Err(e) => Err(e),
        },
        _ => Err(ErrorView::UnsupportedCommand("Unexpected plan node in query"@)),
    }
}

/// The physical plan for a logical one.
pub open spec fn physical(p: PlanView) -> Result<PhysicalView, ErrorView> {
    match p {
        PlanView::Skip => Ok(PhysicalView::Skip),
        PlanView::CreateDatabase { name, if_not_exists } => Ok(
            PhysicalView::CreateDatabase { name, if_not_exists },
        ),
        PlanView::CreateTable { name, if_not_exists, columns, settings, order_by, primary_key } => Ok(
            PhysicalView::CreateTable { name, if_not_exists, columns, settings, order_by, primary_key },
        ),
        PlanView::Insert { table_def, columns } => Ok(PhysicalView::Insert { table_def, columns }),
        PlanView::DropDatabase { name, if_exists } => Ok(
            PhysicalView::DropDatabase { name, if_exists },
        ),
        PlanView::DropTable { name, if_exists } => Ok(PhysicalView::DropTable { name, if_exists }),
        _ => match select_below(p, no_clauses()) {
            Ok(node) => Ok(PhysicalView::Select(node)),
            Err(e) => Err(e),
        },
    }
}

/// The clauses of a level of a query while it is read.
struct Clauses {
    columns: Vec<Projection>,
    filter: Option<Box<Expr>>,
    aggregate_cols: Vec<AggregateProjection>,
    group_by: Vec<Projection>,
    having: Option<Box<Expr>>,
    order_by: Option<Vec<Vec<Projection>>>,
    limit: Option<usize>,
    offset: usize,
}

impl Clauses {
    closed spec fn clauses(self) -> ClausesView {
        ClausesView {
            columns: self.columns@,
            filter: unboxed(self.filter),
            aggregate_cols: self.aggregate_cols@,
            group_by: self.group_by@,
            having: unboxed(self.having),
            order_by: orders_view(self.order_by),
            limit: self.limit,
            offset: self.offset,
        }
    }

    fn none() -> (r: Clauses)
        ensures
            r.clauses() == no_clauses(),
    {
        let r = Clauses {
            columns: Vec::new(),
            filter: None,
            aggregate_cols: Vec::new(),
            group_by: Vec::new(),
            having: None,
            order_by: None,
            limit: None,
            offset: 0,
        };
        assert(r.clauses() =~= no_clauses());
        r
    }

    fn into_node(self, scan_source: SelectSource) -> (r: SelectNode)
        ensures
            r.scan_source == scan_source,
            r@.clauses == self.clauses(),
    {
        SelectNode {
            scan_source,
            columns: self.columns,
            filter: self.filter,
            aggregate_cols: self.aggregate_cols,
            group_by: self.group_by,
            having: self.having,
            order_by: self.order_by,
            limit: self.limit,
            offset: self.offset,
        }
    }
}

/// Reads one level of a query, behind the clauses that were found above.
fn read_select(current: LogicalPlan, above: Clauses) -> (r: Outcome<SelectNode>)
    ensures
        error::outcome_view(r) == select_below(current@, above.clauses()),
    decreases current,
{
    let mut above = above;
    match current {
        LogicalPlan::Limit { limit, offset, plan } => {
            above.limit = limit;
            above.offset = offset;
            read_select(*plan, above)
        },
        LogicalPlan::OrderBy { projs, plan } => {
            above.order_by = Some(projs);
            read_select(*plan, above)
        },
        LogicalPlan::Having { expr, plan } => {
            above.having = Some(expr);
            read_select(*plan, above)
        },
        LogicalPlan::Aggregate { aggr_proj, group_by, plan } => {
            above.aggregate_cols = aggr_proj;
            above.group_by = group_by;
            read_select(*plan, above)
        },
        LogicalPlan::Projection { columns, plan } => {
            above.columns = columns;
            read_select(*plan, above)
        },
        LogicalPlan::Filter { expr, plan } => {
            let filter = above.filter.take();
            above.filter =
            match filter {
                None => Some(expr),
                Some(value) => Some(
                    Box::new(
                        Expr::BinaryOp { left: value, op: BinaryOperator::And, right: expr },
                    ),
                ),
            };
            read_select(*plan, above)
        },
        LogicalPlan::Scan { source } => match source {
            ScanSource::Table(table) => Ok(above.into_node(SelectSource::Table(table))),
            ScanSource::Subquery(plan) => match read_select(*plan, Clauses::none()) {
                Ok(inner) => Ok(above.into_node(SelectSource::Subquery(Box::new(inner)))),
                Err(e) => Err(e),
            },
        },
        _ => Err(Error::UnsupportedCommand("Unexpected plan node in query".to_owned())),
    }
}

impl PhysicalPlan {
    /// Converts a logical plan.
    ///
    /// Returns:
    ///   * Ok: the physical plan.
    ///   * Error: `UnsupportedCommand` where a query reads from something that is not a query.
    pub fn try_from(plan: LogicalPlan) -> (r: Outcome<Self>)
        ensures
            error::outcome_view(r) == physical(plan@),
    {
        match plan {
            LogicalPlan::Skip => Ok(PhysicalPlan::Skip),
            LogicalPlan::CreateDatabase { name, if_not_exists } => Ok(
                PhysicalPlan::CreateDatabase { name, if_not_exists },
            ),
            LogicalPlan::CreateTable {
                name,
                if_not_exists,
                columns,
                settings,
                order_by,
                primary_key,
            } => Ok(
                PhysicalPlan::CreateTable {
                    name,
                    if_not_exists,
                    columns,
                    settings,
                    order_by,
                    primary_key,
                },
            ),
            LogicalPlan::Insert { table_def, columns } => Ok(
                PhysicalPlan::Insert { table_def, columns },
            ),
            LogicalPlan::DropDatabase { name, if_exists } => Ok(
                PhysicalPlan::DropDatabase { name, if_exists },
            ),
            LogicalPlan::DropTable { name, if_exists } => Ok(
                PhysicalPlan::DropTable { name, if_exists },
            ),
            other => match read_select(other, Clauses::none()) {
                Ok(node) => Ok(PhysicalPlan::Select(node)),
                Err(e) => Err(e),
            },
        }
    }

    /// How much load the plan puts on the database while it runs.
    pub fn get_complexity(&self) -> (r: usize)
        ensures
            r == complexity(self@),
    {
        match self {
            PhysicalPlan::Skip => 0,
            PhysicalPlan::CreateDatabase { .. } => 1,
            PhysicalPlan::CreateTable { .. } => 1,
            PhysicalPlan::DropDatabase { .. } => 1,
            PhysicalPlan::DropTable { .. } => 1,
            PhysicalPlan::Insert { .. } => 2,
            PhysicalPlan::Select(_) => 4,
        }
    }
}

/// How much load a plan puts on the database: reading counts more than writing, and writing rows
/// more than changing what there is.
pub open spec fn complexity(p: PhysicalView) -> usize {
    match p {
        PhysicalView::Skip => 0,
        PhysicalView::Insert { table_def, columns } => 2,
        PhysicalView::Select(_) => 4,
        _ => 1,
    }
}

} // verus!
