//! Tests of the flattening of nested queries.
use touchhouse::sql::ast::{BinaryOperator, Expr, Ident};
use touchhouse::sql::logical_plan::plan::{LogicalPlan, ScanSource};
use touchhouse::sql::plan_optimization::query_flattening::combine_filters;
use touchhouse::sql::projection::{Projection, ProjectionValue};
use touchhouse::storage::column::{ColumnDef, Constraints};
use touchhouse::storage::table_def::TableDef;
use touchhouse::storage::value::ValueType;

fn str_column(name: String) -> ColumnDef {
    ColumnDef { name, field_type: ValueType::String, constraints: Constraints::default() }
}

fn projs(names: &[&str]) -> Vec<Projection> {
    names
        .iter()
        .map(|name| Projection {
            alias: None,
            source: ProjectionValue::ColumnDef(str_column(name.to_string())),
        })
        .collect()
}

fn projection(columns: Vec<Projection>, plan: LogicalPlan) -> LogicalPlan {
    LogicalPlan::Projection { columns, plan: Box::new(plan) }
}

fn filter(expr: Expr, plan: LogicalPlan) -> LogicalPlan {
    LogicalPlan::Filter { expr: Box::new(expr), plan: Box::new(plan) }
}

fn identifier(name: String) -> Expr {
    Expr::Identifier(Ident::new(name))
}

fn table_def() -> TableDef {
    TableDef { table: "table_name".to_string(), database: "database_name".to_string() }
}

fn scan(source: ScanSource<LogicalPlan>) -> LogicalPlan {
    LogicalPlan::Scan { source }
}

fn order_by(projs: Vec<Vec<Projection>>, plan: LogicalPlan) -> LogicalPlan {
    LogicalPlan::OrderBy { projs, plan: Box::new(plan) }
}

fn limit(limit: usize, offset: usize, plan: LogicalPlan) -> LogicalPlan {
    LogicalPlan::Limit { limit: Some(limit), offset, plan: Box::new(plan) }
}

fn filters() -> Expr {
    combine_filters(vec![
        identifier("filter3".to_string()),
        identifier("filter2".to_string()),
        identifier("filter1".to_string()),
    ])
}

fn get_start_stage() -> LogicalPlan {
    // `SELECT age, name FROM (SELECT age, name, id FROM (SELECT age, name, id FROM table WHERE filter1 ORDER BY age, id LIMIT 4 OFFSET 6) WHERE filter2) WHERE filter3 ORDER BY age, name LIMIT 2 OFFSET 2`
    limit(
        2,
        2,
        order_by(
            vec![projs(&["age", "name"])],
            projection(
                projs(&["age", "name"]),
                filter(
                    identifier("filter3".to_string()),
                    scan(ScanSource::Subquery(Box::new(projection(
                        projs(&["age", "name", "id"]),
                        filter(
                            identifier("filter2".to_string()),
                            scan(ScanSource::Subquery(Box::new(limit(
                                4,
                                6,
                                order_by(
                                    vec![projs(&["age", "id"])],
                                    projection(
                                        projs(&["age", "name", "id"]),
                                        filter(
                                            identifier("filter1".to_string()),
                                            scan(ScanSource::Table(table_def())),
                                        ),
                                    ),
                                ),
                            )))),
                        ),
                    )))),
                ),
            ),
        ),
    )
}

#[test]
fn test_merge_scans_mini() {
    // Scan: sub_query
    //  Scan: sub_query
    //      Scan: table
    //
    // INTO
    //
    // Scan: table
    let plan = scan(ScanSource::Subquery(Box::new(scan(ScanSource::Subquery(Box::new(scan(
        ScanSource::Table(table_def()),
    )))))));
    let merged = scan(ScanSource::Table(table_def()));

    assert_eq!(plan.merge_scans(), merged);
}

#[test]
fn test_merge_scans_2() {
    // start plan
    //
    // INTO
    //
    // Limit: 2 Offset: 2
    //      Order by: [age, name]
    //          Projection: age, name
    //              Filter: filter3
    //                  Projection: age, name, id
    //                      Filter: filter2
    //                          Limit: 4 Offset 6
    //                              Order by: [age, id]
    //                                  Projection: age, name, id
    //                                      Filter: filter1
    //                                          Scan: table
    let plan = get_start_stage();

    let merged = limit(
        2,
        2,
        order_by(
            vec![projs(&["age", "name"])],
            projection(
                projs(&["age", "name"]),
                filter(
                    identifier("filter3".to_string()),
                    projection(
                        projs(&["age", "name", "id"]),
                        filter(
                            identifier("filter2".to_string()),
                            limit(
                                4,
                                6,
                                order_by(
                                    vec![projs(&["age", "id"])],
                                    projection(
                                        projs(&["age", "name", "id"]),
                                        filter(
                                            identifier("filter1".to_string()),
                                            scan(ScanSource::Table(table_def())),
                                        ),
                                    ),
                                ),
                            ),
                        ),
                    ),
                ),
            ),
        ),
    );

    assert_eq!(plan.merge_scans(), merged);
}

#[test]
fn test_merge_filters() {
    // Limit: 2 Offset: 2
    //      Order by: [age, name]
    //          Projection: age, name
    //              Projection: age, name, id
    //                  Limit: 4 Offset 6
    //                      Order by: [age, id]
    //                          Projection: age, name, id
    //                              Filter: filter3 + filter2 + filter1
    //                                  Scan: table
    let plan = get_start_stage().merge_scans();

    let merged = limit(
        2,
        2,
        order_by(
            vec![projs(&["age", "name"])],
            projection(
                projs(&["age", "name"]),
                projection(
                    projs(&["age", "name", "id"]),
                    limit(
                        4,
                        6,
                        order_by(
                            vec![projs(&["age", "id"])],
                            projection(
                                projs(&["age", "name", "id"]),
                                filter(filters(), scan(ScanSource::Table(table_def()))),
                            ),
                        ),
                    ),
                ),
            ),
        ),
    );

    assert_eq!(plan.merge_filters(Vec::new()), merged);
}

#[test]
fn test_merge_projections() {
    // Limit: 2 Offset: 2
    //      Order by: [age, name]
    //          Limit: 4 Offset 6
    //              Order by: [age, id]
    //                  Projection: age, name
    //                      Filter: filter3 + filter2 + filter1
    //                          Scan: table
    let plan = get_start_stage().merge_scans().merge_filters(Vec::new());

    let merged = limit(
        2,
        2,
        order_by(
            vec![projs(&["age", "name"])],
            limit(
                4,
                6,
                order_by(
                    vec![projs(&["age", "id"])],
                    projection(
                        projs(&["age", "name"]),
                        filter(filters(), scan(ScanSource::Table(table_def()))),
                    ),
                ),
            ),
        ),
    );

    assert_eq!(plan.merge_projections(Vec::new()), merged);
}

#[test]
fn test_merge_order() {
    // Limit: 2 Offset: 2
    //      Limit: 4 Offset 6
    //          Order by: [age, id], [age, name]
    //              Projection: age, name
    //                  Filter: filter3 + filter2 + filter1
    //                      Scan: table
    let plan = get_start_stage()
        .merge_scans()
        .merge_filters(Vec::new())
        .merge_projections(Vec::new());

    let merged = limit(
        2,
        2,
        limit(
            4,
            6,
            order_by(
                vec![projs(&["age", "id"]), projs(&["age", "name"])],
                projection(
                    projs(&["age", "name"]),
                    filter(filters(), scan(ScanSource::Table(table_def()))),
                ),
            ),
        ),
    );

    assert_eq!(plan.merge_order_by(Vec::new()), merged);
}

#[test]
fn test_merge_limit_and_offset() {
    // Limit: 2 Offset: 8
    //          Order by: [age, id], [age, name]
    //              Projection: age, name
    //                  Filter: filter3 + filter2 + filter1
    //                      Scan: table
    let plan = get_start_stage()
        .merge_scans()
        .merge_filters(Vec::new())
        .merge_projections(Vec::new())
        .merge_order_by(Vec::new());

    let merged = limit(
        2,
        8,
        order_by(
            vec![projs(&["age", "id"]), projs(&["age", "name"])],
            projection(
                projs(&["age", "name"]),
                filter(filters(), scan(ScanSource::Table(table_def()))),
            ),
        ),
    );

    assert_eq!(plan.merge_offset_and_limit(None, 0), merged);
}

#[test]
fn debug() {
    // SELECT name FROM (SELECT name, age FROM default.users WHERE id > 1) LIMIT 2
    let plan = limit(
        2,
        0,
        projection(
            projs(&["name"]),
            scan(ScanSource::Subquery(Box::new(projection(
                projs(&["name", "age"]),
                filter(
                    identifier("filter1".to_string()),
                    scan(ScanSource::Table(table_def())),
                ),
            )))),
        ),
    );

    let merged = limit(
        2,
        0,
        projection(
            projs(&["name"]),
            filter(
                identifier("filter1".to_string()),
                scan(ScanSource::Table(table_def())),
            ),
        ),
    );

    assert_eq!(plan.flatten(), merged);
}

#[test]
fn filters_are_joined_from_the_outside_in() {
    let joined = combine_filters(vec![identifier("a".to_string()), identifier("b".to_string())]);
    assert_eq!(
        joined,
        Expr::BinaryOp {
            left: Box::new(identifier("a".to_string())),
            op: BinaryOperator::And,
            right: Box::new(identifier("b".to_string())),
        }
    );
}

#[test]
fn a_flat_plan_stays_as_it_is() {
    let plan = || {
        limit(
            3,
            1,
            order_by(
                vec![projs(&["age"])],
                projection(
                    projs(&["age", "name"]),
                    filter(
                        identifier("filter1".to_string()),
                        scan(ScanSource::Table(table_def())),
                    ),
                ),
            ),
        )
    };
    assert_eq!(plan().flatten(), plan());
    assert_eq!(plan().flatten().flatten(), plan());
}
