//! Merging nested queries into one.
use vstd::prelude::*;

use crate::sql::ast::{BinaryOperator, Expr};
use crate::sql::execution::select;
use crate::sql::logical_plan::plan;
use crate::sql::logical_plan::plan::{LogicalPlan, PlanView, ScanSource};
use crate::sql::projection::Projection;
use crate::storage::table_def::TableDef;
use crate::storage::table_part;
use crate::storage::value::Value;

verus! {

/// Whether a plan is a query without aggregation, down to the tables of its subqueries.
pub open spec fn is_plain_query(p: PlanView) -> bool
    decreases p,
{
    match p {
        PlanView::ScanTable { table } => true,
        PlanView::ScanSubquery { plan } => is_plain_query(*plan),
        PlanView::Projection { columns, plan } => is_plain_query(*plan),
        PlanView::Filter { expr, plan } => is_plain_query(*plan),
        PlanView::OrderBy { projs, plan } => is_plain_query(*plan),
        PlanView::Limit { limit, offset, plan } => is_plain_query(*plan),
        _ => false,
    }
}

/// The filters of a query, the outermost first.
pub open spec fn all_filters(p: PlanView) -> Seq<Expr>
    decreases p,
{
    match p {
        PlanView::ScanSubquery { plan } => all_filters(*plan),
        PlanView::Projection { columns, plan } => all_filters(*plan),
        PlanView::Filter { expr, plan } => seq![expr] + all_filters(*plan),
        PlanView::OrderBy { projs, plan } => all_filters(*plan),
        PlanView::Limit { limit, offset, plan } => all_filters(*plan),
        _ => seq![],
    }
}

/// The columns of the outermost projection that has some.
pub open spec fn outer_columns(p: PlanView) -> Seq<Projection>
    decreases p,
{
    match p {
        PlanView::ScanSubquery { plan } => outer_columns(*plan),
        PlanView::Projection { columns, plan } => if columns.len() > 0 {
            columns
        } else {
            outer_columns(*plan)
        },
        PlanView::Filter { expr, plan } => outer_columns(*plan),
        PlanView::OrderBy { projs, plan } => outer_columns(*plan),
        PlanView::Limit { limit, offset, plan } => outer_columns(*plan),
        _ => seq![],
    }
}

/// The orders of a query, those of the innermost first.
pub open spec fn all_orders(p: PlanView) -> Seq<Seq<Projection>>
    decreases p,
{
    match p {
        PlanView::ScanSubquery { plan } => all_orders(*plan),
        PlanView::Projection { columns, plan } => all_orders(*plan),
        PlanView::Filter { expr, plan } => all_orders(*plan),
        PlanView::OrderBy { projs, plan } => all_orders(*plan) + projs,
        PlanView::Limit { limit, offset, plan } => all_orders(*plan),
        _ => seq![],
    }
}

/// The smaller of two limits.
pub open spec fn smaller_limit(a: Option<usize>, b: Option<usize>) -> Option<usize> {
    match (a, b) {
        (Some(x), Some(y)) => Some(
            if x <= y {
                x
            } else {
                y
            },
        ),
        (Some(x), None) => Some(x),
        (None, y) => y,
    }
}

/// The smallest limit of a query.
pub open spec fn least_limit(p: PlanView) -> Option<usize>
    decreases p,
{
    match p {
        PlanView::ScanSubquery { plan } => least_limit(*plan),
        PlanView::Projection { columns, plan } => least_limit(*plan),
        PlanView::Filter { expr, plan } => least_limit(*plan),
        PlanView::OrderBy { projs, plan } => least_limit(*plan),
        PlanView::Limit { limit, offset, plan } => smaller_limit(limit, least_limit(*plan)),
        _ => None,
    }
}

/// The sum of the offsets of a query.
pub open spec fn total_offset(p: PlanView) -> int
    decreases p,
{
    match p {
        PlanView::ScanSubquery { plan } => total_offset(*plan),
        PlanView::Projection { columns, plan } => total_offset(*plan),
        PlanView::Filter { expr, plan } => total_offset(*plan),
        PlanView::OrderBy { projs, plan } => total_offset(*plan),
        PlanView::Limit { limit, offset, plan } => offset + total_offset(*plan),
        _ => 0,
    }
}

/// The table at the bottom of a query.
pub open spec fn base_table(p: PlanView) -> TableDef
    decreases p,
{
    match p {
        PlanView::ScanTable { table } => table,
        PlanView::ScanSubquery { plan } => base_table(*plan),
        PlanView::Projection { columns, plan } => base_table(*plan),
        PlanView::Filter { expr, plan } => base_table(*plan),
        PlanView::OrderBy { projs, plan } => base_table(*plan),
        PlanView::Limit { limit, offset, plan } => base_table(*plan),
        _ => arbitrary(),
    }
}

/// The conjunction of the first `n` expressions, built from the left.
pub open spec fn conjunction(filters: Seq<Expr>) -> Expr
    decreases filters.len(),
{
    if filters.len() <= 1 {
        filters[0]
    } else {
        Expr::BinaryOp {
            left: Box::new(conjunction(filters.drop_last())),
            op: BinaryOperator::And,
            right: Box::new(filters.last()),
        }
    }
}

/// A filter over a plan, where there is something to filter by.
pub open spec fn filtered(filters: Seq<Expr>, p: PlanView) -> PlanView {
    if filters.len() == 0 {
        p
    } else {
        PlanView::Filter { expr: conjunction(filters), plan: Box::new(p) }
    }
}

/// A projection over a plan, where there are columns to take.
pub open spec fn projected(columns: Seq<Projection>, p: PlanView) -> PlanView {
    if columns.len() == 0 {
        p
    } else {
        PlanView::Projection { columns, plan: Box::new(p) }
    }
}

/// An order over a plan, where there is something to order by.
pub open spec fn ordered(orders: Seq<Seq<Projection>>, p: PlanView) -> PlanView {
    if orders.len() == 0 {
        p
    } else {
        PlanView::OrderBy { projs: orders, plan: Box::new(p) }
    }
}

/// A limit over a plan, where it cuts something off.
pub open spec fn limited(limit: Option<usize>, offset: int, p: PlanView) -> PlanView {
    if limit is None && offset == 0 {
        p
    } else {
        PlanView::Limit { limit, offset: offset as usize, plan: Box::new(p) }
    }
}

/// The query that nested queries merge into: all their filters over the table, the columns of the
/// outermost, all their orders, their smallest limit and the sum of their offsets.
pub open spec fn merged(p: PlanView) -> PlanView {
    limited(
        least_limit(p),
        total_offset(p),
        ordered(
            all_orders(p),
            projected(
                outer_columns(p),
                filtered(all_filters(p), PlanView::ScanTable { table: base_table(p) }),
            ),
        ),
    )
}

/// What a plan is flattened to. Only a query without aggregation is merged; every other plan stays
/// as it is.
pub open spec fn flattened(p: PlanView) -> PlanView {
    if is_plain_query(p) {
        merged(p)
    } else {
        p
    }
}

/// Whether a plan can be flattened: a query without aggregation takes some column, and its offsets
/// add up to a number that fits.
pub open spec fn flattenable(p: PlanView) -> bool {
    is_plain_query(p) ==> outer_columns(p).len() > 0 && total_offset(p) <= usize::MAX
}

/// A plan with its subqueries in place.
pub open spec fn scans_merged(p: PlanView) -> PlanView
    decreases p,
{
    match p {
        PlanView::ScanSubquery { plan } => scans_merged(*plan),
        PlanView::Projection { columns, plan } => PlanView::Projection {
            columns,
            plan: Box::new(scans_merged(*plan)),
        },
        PlanView::Filter { expr, plan } => PlanView::Filter {
            expr,
            plan: Box::new(scans_merged(*plan)),
        },
        PlanView::OrderBy { projs, plan } => PlanView::OrderBy {
            projs,
            plan: Box::new(scans_merged(*plan)),
        },
        PlanView::Limit { limit, offset, plan } => PlanView::Limit {
            limit,
            offset,
            plan: Box::new(scans_merged(*plan)),
        },
        _ => p,
    }
}

/// Whether a plan is a query without aggregation, down to its first scan.
pub open spec fn is_chain(p: PlanView) -> bool
    decreases p,
{
    match p {
        PlanView::ScanTable { table } => true,
        PlanView::ScanSubquery { plan } => true,
        PlanView::Projection { columns, plan } => is_chain(*plan),
        PlanView::Filter { expr, plan } => is_chain(*plan),
        PlanView::OrderBy { projs, plan } => is_chain(*plan),
        PlanView::Limit { limit, offset, plan } => is_chain(*plan),
        _ => false,
    }
}

/// A plan with its filters, behind the given ones, joined over its scan.
pub open spec fn filters_merged(p: PlanView, filters: Seq<Expr>) -> PlanView
    decreases p,
{
    match p {
        PlanView::Filter { expr, plan } => filters_merged(*plan, filters.push(expr)),
        PlanView::Projection { columns, plan } => PlanView::Projection {
            columns,
            plan: Box::new(filters_merged(*plan, filters)),
        },
        PlanView::OrderBy { projs, plan } => PlanView::OrderBy {
            projs,
            plan: Box::new(filters_merged(*plan, filters)),
        },
        PlanView::Limit { limit, offset, plan } => PlanView::Limit {
            limit,
            offset,
            plan: Box::new(filters_merged(*plan, filters)),
        },
        _ => filtered(filters, p),
    }
}

/// A plan with one projection over its filter or its scan: the given columns, or those of its
/// outermost projection that has some.
pub open spec fn projections_merged(p: PlanView, columns: Seq<Projection>) -> PlanView
    decreases p,
{
    match p {
        PlanView::Projection { columns: own, plan } => projections_merged(
            *plan,
            if columns.len() == 0 {
                own
            } else {
                columns
            },
        ),
        PlanView::OrderBy { projs, plan } => PlanView::OrderBy {
            projs,
            plan: Box::new(projections_merged(*plan, columns)),
        },
        PlanView::Limit { limit, offset, plan } => PlanView::Limit {
            limit,
            offset,
            plan: Box::new(projections_merged(*plan, columns)),
        },
        _ => projected(columns, p),
    }
}

/// Whether nothing but orders and limits stands above a projection.
pub open spec fn reaches_projection(p: PlanView) -> bool
    decreases p,
{
    match p {
        PlanView::Projection { columns, plan } => true,
        PlanView::OrderBy { projs, plan } => reaches_projection(*plan),
        PlanView::Limit { limit, offset, plan } => reaches_projection(*plan),
        _ => false,
    }
}

/// A plan with its orders, before the given ones, joined over its projection.
pub open spec fn orders_merged(p: PlanView, orders: Seq<Seq<Projection>>) -> PlanView
    decreases p,
{
    match p {
        PlanView::OrderBy { projs, plan } => orders_merged(*plan, projs + orders),
        PlanView::Limit { limit, offset, plan } => PlanView::Limit {
            limit,
            offset,
            plan: Box::new(orders_merged(*plan, orders)),
        },
        _ => ordered(orders, p),
    }
}

/// Whether nothing but limits stands above an order or a projection.
pub open spec fn reaches_order(p: PlanView) -> bool
    decreases p,
{
    match p {
        PlanView::Projection { columns, plan } => true,
        PlanView::OrderBy { projs, plan } => true,
        PlanView::Limit { limit, offset, plan } => reaches_order(*plan),
        _ => false,
    }
}

/// The sum of the offsets of the limits at the top of a plan.
pub open spec fn leading_offset(p: PlanView) -> int
    decreases p,
{
    match p {
        PlanView::Limit { limit, offset, plan } => offset + leading_offset(*plan),
        _ => 0,
    }
}

/// A plan with the limits at its top, and the given one, joined into one.
pub open spec fn limits_merged(p: PlanView, limit: Option<usize>, offset: int) -> PlanView
    decreases p,
{
    match p {
        PlanView::Limit { limit: own, offset: own_offset, plan } => limits_merged(
            *plan,
            smaller_limit(limit, own),
            offset + own_offset,
        ),
        _ => limited(limit, offset, p),
    }
}

/// Joins filters by AND.
pub fn combine_filters(filters: Vec<Expr>) -> (r: Expr)
    requires
        filters@.len() > 0,
    ensures
        r == conjunction(filters@),
    decreases filters@.len(),
{
    let mut filters = filters;
    let ghost all = filters@;
    match filters.pop() {
        Some(last) => {
            assert(filters@ =~= all.drop_last());
            if filters.len() == 0 {
                last
            } else {
                let left = combine_filters(filters);
                Expr::BinaryOp {
                    left: Box::new(left),
                    op: BinaryOperator::And,
                    right: Box::new(last),
                }
            }
        },
        None => Expr::Tuple(Vec::new()),
    }
}

impl LogicalPlan {
    /// Whether the plan can be flattened.
    pub fn is_flattenable(&self) -> (r: bool)
        ensures
            r == flattenable(self@),
    {
        if !self.is_plain_query() {
            return true;
        }
        self.takes_columns() && self.offset_within(usize::MAX).is_some()
    }

    /// Whether the plan is a query without aggregation, down to the tables of its subqueries.
    pub fn is_plain_query(&self) -> (r: bool)
        ensures
            r == is_plain_query(self@),
        decreases self,
    {
        match self {
            LogicalPlan::Scan { source } => match source {
                ScanSource::Table(_) => true,
                ScanSource::Subquery(plan) => plan.is_plain_query(),
            },
            LogicalPlan::Projection { plan, .. } => plan.is_plain_query(),
            LogicalPlan::Filter { plan, .. } => plan.is_plain_query(),
            LogicalPlan::OrderBy { plan, .. } => plan.is_plain_query(),
            LogicalPlan::Limit { plan, .. } => plan.is_plain_query(),
            _ => false,
        }
    }

    fn takes_columns(&self) -> (r: bool)
        ensures
            r == (outer_columns(self@).len() > 0),
        decreases self,
    {
        match self {
            LogicalPlan::Scan { source } => match source {
                ScanSource::Table(_) => false,
                ScanSource::Subquery(plan) => plan.takes_columns(),
            },
            LogicalPlan::Projection { columns, plan } => columns.len() > 0 || plan.takes_columns(),
            LogicalPlan::Filter { plan, .. } => plan.takes_columns(),
            LogicalPlan::OrderBy { plan, .. } => plan.takes_columns(),
            LogicalPlan::Limit { plan, .. } => plan.takes_columns(),
            _ => false,
        }
    }

    /// The sum of the offsets of the query, where it is at most `bound`.
    fn offset_within(&self, bound: usize) -> (r: Option<usize>)
        ensures
            match r {
                Some(n) => n == total_offset(self@) && n <= bound,
                None => total_offset(self@) > bound,
            },
        decreases self,
    {
        match self {
            LogicalPlan::Scan { source } => match source {
                ScanSource::Table(_) => Some(0),
                ScanSource::Subquery(plan) => plan.offset_within(bound),
            },
            LogicalPlan::Projection { plan, .. } => plan.offset_within(bound),
            LogicalPlan::Filter { plan, .. } => plan.offset_within(bound),
            LogicalPlan::OrderBy { plan, .. } => plan.offset_within(bound),
            LogicalPlan::Limit { offset, plan, .. } => match plan.offset_within(bound) {
                Some(n) => if *offset <= bound - n {
                    Some(*offset + n)
                } else {
                    None
                },
                None => None,
            },
            _ => Some(0),
        }
    }

    /// Flattens a logical plan by merging nested query structures.
    ///
    /// Applies optimizations: merge scans, filters, projections, order by, and limits.
    /// Non-query plans (Skip, `CreateDatabase`, `CreateTable`, `Insert`, `Drop`) and queries that
    /// aggregate are returned unchanged.
    ///
    /// Returns: Flattened `LogicalPlan`.
    pub fn flatten(self) -> (r: Self)
        requires
            flattenable(self@),
        ensures
            r@ == flattened(self@),
    {
        if !self.is_plain_query() {
            return self;
        }
        let ghost p = self@;
        proof {
            lemma_merging_steps(p);
        }
        let filters: Vec<Expr> = Vec::new();
        let columns: Vec<Projection> = Vec::new();
        let orders: Vec<Vec<Projection>> = Vec::new();
        assert(filters@ =~= Seq::<Expr>::empty());
        assert(columns@ =~= Seq::<Projection>::empty());
        assert(plan::nested(orders@) =~= Seq::<Seq<Projection>>::empty());
        self.merge_scans().merge_filters(filters).merge_projections(columns).merge_order_by(
            orders,
        ).merge_offset_and_limit(None, 0)
    }

    /// Puts the plan of every subquery in the place of its scan.
    pub fn merge_scans(self) -> (r: Self)
        requires
            is_plain_query(self@),
        ensures
            r@ == scans_merged(self@),
        decreases self,
    {
        match self {
            LogicalPlan::Scan { source } => match source {
                ScanSource::Subquery(plan) => (*plan).merge_scans(),
                ScanSource::Table(table) => LogicalPlan::Scan { source: ScanSource::Table(table) },
            },
            LogicalPlan::Projection { columns, plan } => LogicalPlan::Projection {
                columns,
                plan: Box::new((*plan).merge_scans()),
            },
            LogicalPlan::Filter { expr, plan } => LogicalPlan::Filter {
                expr,
                plan: Box::new((*plan).merge_scans()),
            },
            LogicalPlan::OrderBy { projs, plan } => LogicalPlan::OrderBy {
                projs,
                plan: Box::new((*plan).merge_scans()),
            },
            LogicalPlan::Limit { limit, offset, plan } => LogicalPlan::Limit {
                limit,
                offset,
                plan: Box::new((*plan).merge_scans()),
            },
            other => other,
        }
    }

    /// Joins all filters over the scan.
    pub fn merge_filters(self, filters: Vec<Expr>) -> (r: Self)
        requires
            is_chain(self@),
        ensures
            r@ == filters_merged(self@, filters@),
        decreases self,
    {
        let mut filters = filters;
        match self {
            LogicalPlan::Filter { expr, plan } => {
                filters.push(*expr);
                (*plan).merge_filters(filters)
            },
            LogicalPlan::Projection { columns, plan } => LogicalPlan::Projection {
                columns,
                plan: Box::new((*plan).merge_filters(filters)),
            },
            LogicalPlan::OrderBy { projs, plan } => LogicalPlan::OrderBy {
                projs,
                plan: Box::new((*plan).merge_filters(filters)),
            },
            LogicalPlan::Limit { limit, offset, plan } => LogicalPlan::Limit {
                limit,
                offset,
                plan: Box::new((*plan).merge_filters(filters)),
            },
            other => if filters.len() == 0 {
                other
            } else {
                LogicalPlan::Filter {
                    expr: Box::new(combine_filters(filters)),
                    plan: Box::new(other),
                }
            },
        }
    }

    /// Leaves the outermost projection, over the filter or the scan.
    pub fn merge_projections(self, columns: Vec<Projection>) -> (r: Self)
        requires
            is_chain(self@),
        ensures
            r@ == projections_merged(self@, columns@),
        decreases self,
    {
        match self {
            LogicalPlan::Projection { columns: own, plan } => {
                let columns = if columns.len() == 0 {
                    own
                } else {
                    columns
                };
                (*plan).merge_projections(columns)
            },
            LogicalPlan::OrderBy { projs, plan } => LogicalPlan::OrderBy {
                projs,
                plan: Box::new((*plan).merge_projections(columns)),
            },
            LogicalPlan::Limit { limit, offset, plan } => LogicalPlan::Limit {
                limit,
                offset,
                plan: Box::new((*plan).merge_projections(columns)),
            },
            other => if columns.len() == 0 {
                other
            } else {
                LogicalPlan::Projection { columns, plan: Box::new(other) }
            },
        }
    }

    /// Joins all orders over the projection, the innermost first.
    pub fn merge_order_by(self, order_by: Vec<Vec<Projection>>) -> (r: Self)
        requires
            reaches_projection(self@),
        ensures
            r@ == orders_merged(self@, plan::nested(order_by@)),
        decreases self,
    {
        match self {
            LogicalPlan::OrderBy { projs, plan } => {
                let mut joined = projs;
                let mut order_by = order_by;
                let ghost a = joined@;
                let ghost b = order_by@;
                joined.append(&mut order_by);
                assert(plan::nested(joined@) =~= plan::nested(a) + plan::nested(b));
                (*plan).merge_order_by(joined)
            },
            LogicalPlan::Limit { limit, offset, plan } => LogicalPlan::Limit {
                limit,
                offset,
                plan: Box::new((*plan).merge_order_by(order_by)),
            },
            other => if order_by.len() == 0 {
                other
            } else {
                LogicalPlan::OrderBy { projs: order_by, plan: Box::new(other) }
            },
        }
    }

    /// Joins the limits at the top: the smallest limit and the sum of the offsets.
    pub fn merge_offset_and_limit(self, limit: Option<usize>, offset: usize) -> (r: Self)
        requires
            reaches_order(self@),
            offset + leading_offset(self@) <= usize::MAX,
        ensures
            r@ == limits_merged(self@, limit, offset as int),
        decreases self,
    {
        proof {
            lemma_leading_offset_not_negative(self@);
        }
        match self {
            LogicalPlan::Limit { limit: own, offset: own_offset, plan } => {
                let limit = match (limit, own) {
                    (Some(outer), Some(inner)) => if outer <= inner {
                        Some(outer)
                    } else {
                        Some(inner)
                    },
                    (Some(val), None) => Some(val),
                    (None, val) => val,
                };
                proof {
                    lemma_leading_offset_not_negative((*plan)@);
                }
                (*plan).merge_offset_and_limit(limit, offset + own_offset)
            },
            other => if limit.is_none() && offset == 0 {
                other
            } else {
                LogicalPlan::Limit { limit, offset, plan: Box::new(other) }
            },
        }
    }
}

proof fn lemma_leading_offset_not_negative(p: PlanView)
    ensures
        leading_offset(p) >= 0,
    decreases p,
{
    if let PlanView::Limit { limit, offset, plan } = p {
        lemma_leading_offset_not_negative(*plan);
    }
}

/// Putting subqueries in place keeps what a query consists of.
proof fn lemma_scans_merged(p: PlanView)
    requires
        is_plain_query(p),
    ensures
        is_plain_query(scans_merged(p)),
        is_chain(scans_merged(p)),
        no_subquery(scans_merged(p)),
        all_filters(scans_merged(p)) == all_filters(p),
        outer_columns(scans_merged(p)) == outer_columns(p),
        all_orders(scans_merged(p)) == all_orders(p),
        least_limit(scans_merged(p)) == least_limit(p),
        total_offset(scans_merged(p)) == total_offset(p),
        base_table(scans_merged(p)) == base_table(p),
    decreases p,
{
    match p {
        PlanView::ScanSubquery { plan } => lemma_scans_merged(*plan),
        PlanView::Projection { columns, plan } => lemma_scans_merged(*plan),
        PlanView::Filter { expr, plan } => lemma_scans_merged(*plan),
        PlanView::OrderBy { projs, plan } => lemma_scans_merged(*plan),
        PlanView::Limit { limit, offset, plan } => lemma_scans_merged(*plan),
        _ => {},
    }
}

/// Whether a query has no subquery.
spec fn no_subquery(p: PlanView) -> bool
    decreases p,
{
    match p {
        PlanView::ScanTable { table } => true,
        PlanView::Projection { columns, plan } => no_subquery(*plan),
        PlanView::Filter { expr, plan } => no_subquery(*plan),
        PlanView::OrderBy { projs, plan } => no_subquery(*plan),
        PlanView::Limit { limit, offset, plan } => no_subquery(*plan),
        _ => false,
    }
}

/// The bottom of a query whose filters are merged.
spec fn bottom(p: PlanView, filters: Seq<Expr>) -> PlanView {
    filtered(filters + all_filters(p), PlanView::ScanTable { table: base_table(p) })
}

/// A query without filters and projections of its own over a given plan.
spec fn shell_filters(p: PlanView, below: PlanView) -> PlanView
    decreases p,
{
    match p {
        PlanView::Projection { columns, plan } => PlanView::Projection {
            columns,
            plan: Box::new(shell_filters(*plan, below)),
        },
        PlanView::Filter { expr, plan } => shell_filters(*plan, below),
        PlanView::OrderBy { projs, plan } => PlanView::OrderBy {
            projs,
            plan: Box::new(shell_filters(*plan, below)),
        },
        PlanView::Limit { limit, offset, plan } => PlanView::Limit {
            limit,
            offset,
            plan: Box::new(shell_filters(*plan, below)),
        },
        _ => below,
    }
}

/// A query without filters and projections of its own over a given plan.
spec fn shell(p: PlanView, below: PlanView) -> PlanView
    decreases p,
{
    match p {
        PlanView::Projection { columns, plan } => shell(*plan, below),
        PlanView::Filter { expr, plan } => shell(*plan, below),
        PlanView::OrderBy { projs, plan } => PlanView::OrderBy {
            projs,
            plan: Box::new(shell(*plan, below)),
        },
        PlanView::Limit { limit, offset, plan } => PlanView::Limit {
            limit,
            offset,
            plan: Box::new(shell(*plan, below)),
        },
        _ => below,
    }
}

/// The limits of a query over a given plan.
spec fn limit_shell(p: PlanView, below: PlanView) -> PlanView
    decreases p,
{
    match p {
        PlanView::Projection { columns, plan } => limit_shell(*plan, below),
        PlanView::Filter { expr, plan } => limit_shell(*plan, below),
        PlanView::OrderBy { projs, plan } => limit_shell(*plan, below),
        PlanView::Limit { limit, offset, plan } => PlanView::Limit {
            limit,
            offset,
            plan: Box::new(limit_shell(*plan, below)),
        },
        _ => below,
    }
}

proof fn lemma_filters_step(p: PlanView, filters: Seq<Expr>)
    requires
        no_subquery(p),
    ensures
        filters_merged(p, filters) == shell_filters(p, bottom(p, filters)),
    decreases p,
{
    match p {
        PlanView::Projection { columns, plan } => lemma_filters_step(*plan, filters),
        PlanView::Filter { expr, plan } => {
            lemma_filters_step(*plan, filters.push(expr));
            assert(filters.push(expr) + all_filters(*plan) =~= filters + all_filters(p));
        },
        PlanView::OrderBy { projs, plan } => lemma_filters_step(*plan, filters),
        PlanView::Limit { limit, offset, plan } => lemma_filters_step(*plan, filters),
        _ => {
            assert(filters + all_filters(p) =~= filters);
        },
    }
}

/// The given columns, or those of the outermost projection.
spec fn columns_or(columns: Seq<Projection>, p: PlanView) -> Seq<Projection> {
    if columns.len() == 0 {
        outer_columns(p)
    } else {
        columns
    }
}

proof fn lemma_projections_step(p: PlanView, below: PlanView, columns: Seq<Projection>)
    requires
        no_subquery(p),
        below is Filter || below is ScanTable,
    ensures
        projections_merged(shell_filters(p, below), columns) == shell(
            p,
            projected(columns_or(columns, p), below),
        ),
        is_chain(shell_filters(p, below)) == is_chain(below),
    decreases p,
{
    match p {
        PlanView::Projection { columns: own, plan } => {
            let next = if columns.len() == 0 {
                own
            } else {
                columns
            };
            lemma_projections_step(*plan, below, next);
        },
        PlanView::Filter { expr, plan } => lemma_projections_step(*plan, below, columns),
        PlanView::OrderBy { projs, plan } => lemma_projections_step(*plan, below, columns),
        PlanView::Limit { limit, offset, plan } => lemma_projections_step(*plan, below, columns),
        _ => {
            assert(columns_or(columns, p) =~= columns);
        },
    }
}

proof fn lemma_orders_step(p: PlanView, below: PlanView, orders: Seq<Seq<Projection>>)
    requires
        no_subquery(p),
        below is Projection,
    ensures
        orders_merged(shell(p, below), orders) == limit_shell(p, ordered(all_orders(p) + orders, below)),
        reaches_projection(shell(p, below)),
    decreases p,
{
    match p {
        PlanView::Projection { columns, plan } => lemma_orders_step(*plan, below, orders),
        PlanView::Filter { expr, plan } => lemma_orders_step(*plan, below, orders),
        PlanView::OrderBy { projs, plan } => {
            lemma_orders_step(*plan, below, projs + orders);
            assert(all_orders(*plan) + (projs + orders) =~= all_orders(p) + orders);
        },
        PlanView::Limit { limit, offset, plan } => lemma_orders_step(*plan, below, orders),
        _ => {
            assert(all_orders(p) + orders =~= orders);
        },
    }
}

proof fn lemma_limits_step(p: PlanView, below: PlanView, limit: Option<usize>, offset: int)
    requires
        no_subquery(p),
        below is Projection || below is OrderBy,
    ensures
        limits_merged(limit_shell(p, below), limit, offset) == limited(
            smaller_limit(limit, least_limit(p)),
            offset + total_offset(p),
            below,
        ),
        reaches_order(limit_shell(p, below)),
        leading_offset(limit_shell(p, below)) == total_offset(p),
    decreases p,
{
    match p {
        PlanView::Projection { columns, plan } => lemma_limits_step(*plan, below, limit, offset),
        PlanView::Filter { expr, plan } => lemma_limits_step(*plan, below, limit, offset),
        PlanView::OrderBy { projs, plan } => lemma_limits_step(*plan, below, limit, offset),
        PlanView::Limit { limit: own, offset: own_offset, plan } => {
            lemma_limits_step(*plan, below, smaller_limit(limit, own), offset + own_offset);
        },
        _ => {},
    }
}

/// The five steps, one after the other, give the merged query, and each meets what the next asks.
pub proof fn lemma_merging_steps(p: PlanView)
    requires
        is_plain_query(p),
        outer_columns(p).len() > 0,
    ensures
        ({
            let a = scans_merged(p);
            let b = filters_merged(a, seq![]);
            let c = projections_merged(b, seq![]);
            let d = orders_merged(c, seq![]);
            &&& is_chain(a)
            &&& is_chain(b)
            &&& reaches_projection(c)
            &&& reaches_order(d)
            &&& leading_offset(d) == total_offset(p)
            &&& limits_merged(d, None, 0) == merged(p)
        }),
{
    let a = scans_merged(p);
    lemma_scans_merged(p);
    let no_filters = Seq::<Expr>::empty();
    let no_columns = Seq::<Projection>::empty();
    let no_orders = Seq::<Seq<Projection>>::empty();
    lemma_filters_step(a, no_filters);
    assert(no_filters + all_filters(a) =~= all_filters(a));
    let below = bottom(a, no_filters);
    assert(is_chain(PlanView::ScanTable { table: base_table(a) }));
    assert(is_chain(below));
    lemma_projections_step(a, below, no_columns);
    let table = projected(outer_columns(a), below);
    lemma_orders_step(a, table, no_orders);
    assert(all_orders(a) + no_orders =~= all_orders(a));
    let sorted = ordered(all_orders(a), table);
    lemma_limits_step(a, sorted, None, 0);
}

/// Flattening a flattened plan changes nothing.
pub proof fn lemma_flattening_twice_changes_nothing(p: PlanView)
    requires
        flattenable(p),
    ensures
        flattenable(flattened(p)),
        flattened(flattened(p)) == flattened(p),
{
    if is_plain_query(p) {
        lemma_offset_not_negative(p);
        lemma_merged_consists_of_the_same(p);
        let q = merged(p);
        assert(all_filters(q).len() <= 1);
        if all_filters(p).len() > 0 {
            assert(conjunction(all_filters(q)) == all_filters(q)[0]);
        }
        assert(filtered(all_filters(q), PlanView::ScanTable { table: base_table(q) }) == filtered(
            all_filters(p),
            PlanView::ScanTable { table: base_table(p) },
        ));
    }
}

proof fn lemma_offset_not_negative(p: PlanView)
    ensures
        total_offset(p) >= 0,
    decreases p,
{
    match p {
        PlanView::ScanSubquery { plan } => lemma_offset_not_negative(*plan),
        PlanView::Projection { columns, plan } => lemma_offset_not_negative(*plan),
        PlanView::Filter { expr, plan } => lemma_offset_not_negative(*plan),
        PlanView::OrderBy { projs, plan } => lemma_offset_not_negative(*plan),
        PlanView::Limit { limit, offset, plan } => lemma_offset_not_negative(*plan),
        _ => {},
    }
}

/// A merged query reads the same table, takes the same columns, is ordered and limited as the
/// queries it was merged from, and has one filter: their conjunction.
pub proof fn lemma_merged_consists_of_the_same(p: PlanView)
    requires
        is_plain_query(p),
        outer_columns(p).len() > 0,
        0 <= total_offset(p) <= usize::MAX,
    ensures
        is_plain_query(merged(p)),
        base_table(merged(p)) == base_table(p),
        outer_columns(merged(p)) == outer_columns(p),
        all_orders(merged(p)) == all_orders(p),
        least_limit(merged(p)) == least_limit(p),
        total_offset(merged(p)) == total_offset(p),
        all_filters(merged(p)) == (if all_filters(p).len() == 0 {
            seq![]
        } else {
            seq![conjunction(all_filters(p))]
        }),
{
    let scan = PlanView::ScanTable { table: base_table(p) };
    let a = filtered(all_filters(p), scan);
    let b = projected(outer_columns(p), a);
    let c = ordered(all_orders(p), b);
    let d = limited(least_limit(p), total_offset(p), c);
    assert(all_filters(scan) =~= seq![]);
    assert(all_filters(a) =~= (if all_filters(p).len() == 0 {
        seq![]
    } else {
        seq![conjunction(all_filters(p))]
    }));
    assert(all_orders(scan) =~= seq![]);
    assert(all_orders(a) =~= seq![]);
    assert(all_orders(b) =~= seq![]);
    assert(all_orders(c) =~= all_orders(p));
    assert(least_limit(scan) is None);
    assert(least_limit(a) is None);
    assert(least_limit(b) is None);
    assert(least_limit(c) is None);
    assert(total_offset(scan) == 0);
    assert(total_offset(a) == 0);
    assert(total_offset(b) == 0);
    assert(total_offset(c) == 0);
    assert(is_plain_query(scan));
    assert(is_plain_query(a));
    assert(is_plain_query(b));
    assert(is_plain_query(c));
    assert(base_table(scan) == base_table(p));
    assert(base_table(a) == base_table(p));
    assert(base_table(b) == base_table(p));
    assert(base_table(c) == base_table(p));
    assert(outer_columns(b) == outer_columns(p));
    assert(outer_columns(c) == outer_columns(p));
    assert(all_filters(b) == all_filters(a));
    assert(all_filters(c) == all_filters(a));
}

/// The values that a limit and an offset leave of a column: no more than the limit, from the offset
/// on.
pub open spec fn window(data: Seq<Value>, limit: Option<usize>, offset: int) -> Seq<Value> {
    select::cut_values(
        data,
        table_part::smaller(offset, data.len() as int) as nat,
        match limit {
            Some(l) => Some(l as nat),
            None => None,
        },
    )
}

/// Whether, of `n` rows, the inner limit cuts off rows that the outer limit and offset ask for.
pub open spec fn inner_limit_cuts(
    n: nat,
    inner_limit: Option<usize>,
    inner_offset: usize,
    limit: Option<usize>,
    offset: usize,
) -> bool {
    match inner_limit {
        None => false,
        Some(inner) => {
            &&& offset > 0
            &&& inner > 0
            &&& n > inner_offset + inner
            &&& n > inner_offset + offset
            &&& match limit {
                Some(l) => l > 0 && l + offset > inner,
                None => true,
            }
        },
    }
}

/// Taking some rows of the rows that an inner query takes is taking rows once, with the smaller limit
/// and the offsets added up, unless the inner limit cuts off rows that the outer query asks for.
pub proof fn lemma_window_of_a_window(
    rows: Seq<Value>,
    inner_limit: Option<usize>,
    inner_offset: usize,
    limit: Option<usize>,
    offset: usize,
)
    requires
        !inner_limit_cuts(rows.len(), inner_limit, inner_offset, limit, offset),
    ensures
        window(window(rows, inner_limit, inner_offset as int), limit, offset as int) == window(
            rows,
            smaller_limit(limit, inner_limit),
            offset + inner_offset,
        ),
{
    let inner = window(rows, inner_limit, inner_offset as int);
    let left = window(inner, limit, offset as int);
    let right = window(rows, smaller_limit(limit, inner_limit), offset + inner_offset);
    assert(left =~= right);
}

} // verus!
