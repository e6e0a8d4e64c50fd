//! Tests of statements, from their text to their answer.
use touchhouse::engines::EngineName;
use touchhouse::error::{Error, Outcome};
use touchhouse::runtime_config::{Catalog, CatalogEntry};
use touchhouse::sql::command_runner::CommandRunner;
use touchhouse::sql::compiled_filter::{BinOp, CompiledFilter};
use touchhouse::sql::execution::select::aggregator::FoldKind;
use touchhouse::sql::execution::select::select_from_result;
use touchhouse::sql::logical_plan::plan::{LogicalPlan, ScanSource};
use touchhouse::sql::physical_plan::{PhysicalPlan, SelectNode, SelectSource};
use touchhouse::sql::projection::{projections_of, ProjectionValue};
use touchhouse::storage::column::{ColumnDef, Constraints, OutputColumn, PhysicalColumn};
use touchhouse::storage::compression::CompressionType;
use touchhouse::storage::numbers::{NumberReading, Numbers};
use touchhouse::storage::table_def::TableDef;
use touchhouse::storage::table_metadata::{TableSchema, TableSettings};
use touchhouse::storage::value::{Value, ValueType};

fn reading(text: &str) -> NumberReading {
    NumberReading {
        text: text.to_string(),
        single: text.parse::<f32>().map(f32::to_bits).map_err(|e| e.to_string()),
        double: text.parse::<f64>().map(f64::to_bits).map_err(|e| e.to_string()),
        single_label: text.parse::<f32>().map(|v| format!("{v:?}")).unwrap_or_default(),
        label: text.parse::<f64>().map(|v| format!("{v:?}")).unwrap_or_default(),
    }
}

fn numbers(texts: &[&str]) -> Numbers {
    Numbers { readings: texts.iter().map(|t| reading(t)).collect() }
}

fn def(name: &str, field_type: ValueType) -> ColumnDef {
    ColumnDef { name: name.to_string(), field_type, constraints: Constraints::default() }
}

fn given(name: &str, field_type: ValueType) -> ColumnDef {
    ColumnDef {
        name: name.to_string(),
        field_type,
        constraints: Constraints {
            nullable: false,
            default: None,
            compression_type: CompressionType::LZ4(3),
        },
    }
}

fn users() -> TableDef {
    TableDef { table: "users".to_string(), database: "my_db".to_string() }
}

fn schema() -> TableSchema {
    TableSchema {
        columns: vec![
            given("id", ValueType::UInt32),
            given("name", ValueType::String),
            def("age", ValueType::UInt8),
        ],
        order_by: vec![given("id", ValueType::UInt32)],
        primary_key: vec![given("id", ValueType::UInt32)],
    }
}

fn catalog() -> Catalog {
    Catalog { entries: vec![CatalogEntry { table: users(), schema: schema() }] }
}

fn text(s: &str) -> Value {
    Value::String(s.to_string())
}

fn table() -> Vec<OutputColumn> {
    let mut projections = projections_of(&schema().columns).into_iter();
    let mut column = |data: Vec<Value>| OutputColumn { proj: projections.next().unwrap(), data };
    vec![
        column(vec![Value::UInt32(1), Value::UInt32(2), Value::UInt32(3), Value::UInt32(4)]),
        column(vec![text("Alice"), text("Bob"), text("Carol"), text("Bob")]),
        column(vec![Value::UInt8(30), Value::UInt8(25), Value::Null, Value::UInt8(41)]),
    ]
}

fn fold(kind: FoldKind, values: &Vec<Value>) -> u64 {
    let read = |v: &Value| match v {
        Value::UInt8(n) => f64::from(*n),
        Value::UInt32(n) => f64::from(*n),
        _ => 0.0,
    };
    let all: Vec<f64> = values.iter().map(read).collect();
    let sum: f64 = all.iter().sum();
    let folded = match kind {
        FoldKind::Sum => sum,
        FoldKind::Avg => sum / all.len() as f64,
        FoldKind::Min => all.iter().copied().fold(f64::INFINITY, f64::min),
        FoldKind::Max => all.iter().copied().fold(f64::NEG_INFINITY, f64::max),
    };
    folded.to_bits()
}

fn plan(sql: &str, n: &Numbers) -> Outcome<PhysicalPlan> {
    CommandRunner::plan_command(sql, &catalog(), n)
}

fn answer(node: SelectNode, n: &Numbers) -> Outcome<Vec<OutputColumn>> {
    let (source, params) = node.into_parts();
    let columns = match source {
        SelectSource::Table(table_def) => {
            assert_eq!(table_def, users());
            table()
        }
        SelectSource::Subquery(inner) => answer(*inner, n)?,
    };
    select_from_result(columns, params, &fold, n)
}

fn select(sql: &str, n: &Numbers) -> Outcome<Vec<OutputColumn>> {
    match plan(sql, n)? {
        PhysicalPlan::Select(node) => answer(node, n),
        other => panic!("not a query: {other:?}"),
    }
}

fn data(sql: &str, texts: &[&str]) -> Vec<Vec<Value>> {
    match select(sql, &numbers(texts)) {
        Ok(columns) => columns.into_iter().map(|c| c.data).collect(),
        Err(e) => panic!("{}", e.to_text()),
    }
}

fn fault(sql: &str) -> Error {
    match plan(sql, &numbers(&["1", "2"])) {
        Err(e) => e,
        Ok(p) => panic!("accepted: {p:?}"),
    }
}

#[test]
fn all_columns_are_selected() {
    let columns = select("SELECT * FROM my_db.users", &numbers(&[])).unwrap();
    assert_eq!(columns, table());
}

#[test]
fn rows_are_filtered_and_limited() {
    let rows = data("SELECT * FROM my_db.users WHERE name = 'Bob' LIMIT 1", &["1"]);
    assert_eq!(
        rows,
        vec![vec![Value::UInt32(2)], vec![text("Bob")], vec![Value::UInt8(25)]]
    );
    let rows = data("SELECT id FROM my_db.users LIMIT 2 OFFSET 1", &["2", "1"]);
    assert_eq!(rows, vec![vec![Value::UInt32(2), Value::UInt32(3)]]);
    let rows = data("SELECT id FROM my_db.users LIMIT 2 OFFSET 9", &["2", "9"]);
    assert_eq!(rows, vec![Vec::<Value>::new()]);
}

#[test]
fn filters_are_combined() {
    let rows = data(
        "SELECT id FROM my_db.users WHERE name = 'Bob' AND id > 2 OR NOT id >= 2",
        &["2"],
    );
    assert_eq!(rows, vec![vec![Value::UInt32(1), Value::UInt32(4)]]);
    let rows = data("SELECT id FROM my_db.users WHERE 2 < id", &["2"]);
    assert_eq!(rows, vec![vec![Value::UInt32(3), Value::UInt32(4)]]);
    let rows = data("SELECT id FROM my_db.users WHERE false", &[]);
    assert_eq!(rows, vec![Vec::<Value>::new()]);
}

#[test]
fn rows_are_ordered() {
    let rows = data("SELECT name, id FROM my_db.users ORDER BY (name, id)", &[]);
    assert_eq!(
        rows,
        vec![
            vec![text("Alice"), text("Bob"), text("Bob"), text("Carol")],
            vec![Value::UInt32(1), Value::UInt32(2), Value::UInt32(4), Value::UInt32(3)],
        ]
    );
}

#[test]
fn nested_queries_are_answered() {
    let rows = data(
        "SELECT name FROM (SELECT name, id FROM my_db.users WHERE id > 1) LIMIT 2",
        &["1", "2"],
    );
    assert_eq!(rows, vec![vec![text("Bob"), text("Carol")]]);
}

#[test]
fn nested_queries_are_merged() {
    let n = numbers(&["1", "2"]);
    let sql = "SELECT name FROM (SELECT name, id FROM my_db.users WHERE id > 1) LIMIT 2";
    match plan(sql, &n) {
        Ok(PhysicalPlan::Select(node)) => {
            assert_eq!(node.scan_source, SelectSource::Table(users()));
            assert_eq!(node.columns.len(), 1);
            assert!(node.filter.is_some());
            assert_eq!(node.limit, Some(2));
            assert_eq!(node.offset, 0);
        }
        other => panic!("{other:?}"),
    }
}

#[test]
fn groups_are_folded() {
    let columns = select(
        "SELECT name, sum(id), max(id), avg(id) FROM my_db.users GROUP BY name ORDER BY name",
        &numbers(&[]),
    )
    .unwrap();
    let rows: Vec<Vec<Value>> = columns.into_iter().map(|c| c.data).collect();
    let double = |v: f64| Value::F64(v.to_bits());
    assert_eq!(
        rows,
        vec![
            vec![text("Alice"), text("Bob"), text("Carol")],
            vec![double(1.0), double(6.0), double(3.0)],
            vec![double(1.0), double(4.0), double(3.0)],
            vec![double(1.0), double(3.0), double(3.0)],
        ]
    );
}

#[test]
fn a_table_is_folded_as_one_group() {
    let rows = data("SELECT min(id), max(id) FROM my_db.users", &[]);
    assert_eq!(
        rows,
        vec![vec![Value::F64(1.0f64.to_bits())], vec![Value::F64(4.0f64.to_bits())]]
    );
}

#[test]
fn columns_outside_the_groups_are_refused() {
    assert!(matches!(
        fault("SELECT id, sum(id) FROM my_db.users GROUP BY name"),
        Error::ColumnNotInGroupBy(_)
    ));
    assert!(matches!(
        fault("SELECT median(id) FROM my_db.users"),
        Error::UnknownFunction(_)
    ));
}

#[test]
fn what_is_no_number_is_not_folded() {
    let sql = "SELECT sum(age) FROM my_db.users";
    assert_eq!(select(sql, &numbers(&[])), Err(Error::InvalidColumnsSpecified));
    let sql = "SELECT max(name) FROM my_db.users";
    assert_eq!(select(sql, &numbers(&[])), Err(Error::InvalidColumnsSpecified));
}

#[test]
fn a_column_gets_its_alias() {
    match plan("SELECT id AS key FROM my_db.users", &numbers(&[])) {
        Ok(PhysicalPlan::Select(node)) => {
            assert_eq!(node.columns[0].alias, Some("key".to_string()));
            assert!(
                matches!(&node.columns[0].source, ProjectionValue::ColumnDef(d) if d.name == "id")
            );
        }
        other => panic!("{other:?}"),
    }
}

#[test]
fn databases_and_tables_are_created() {
    let n = numbers(&[]);
    assert_eq!(
        plan("CREATE DATABASE IF NOT EXISTS mydb", &n),
        Ok(PhysicalPlan::CreateDatabase { name: "mydb".to_string(), if_not_exists: true })
    );
    let sql = "CREATE TABLE my_db.people (id UUID, name String, age UInt8) \
               ENGINE=MergeTree ORDER BY (name, age)";
    match plan(sql, &n) {
        Ok(PhysicalPlan::CreateTable { name, columns, settings, order_by, primary_key, .. }) => {
            assert_eq!(name.to_text(), "my_db.people");
            let names: Vec<&str> = columns.iter().map(|c| c.name.as_str()).collect();
            assert_eq!(names, ["id", "name", "age"]);
            assert_eq!(columns[0].field_type, ValueType::Uuid);
            assert_eq!(
                settings,
                TableSettings { index_granularity: 8192, engine: EngineName::MergeTree }
            );
            let names: Vec<&str> = order_by.iter().map(|c| c.name.as_str()).collect();
            assert_eq!(names, ["name", "age"]);
            assert_eq!(order_by, primary_key);
        }
        other => panic!("{other:?}"),
    }
}

#[test]
fn the_primary_key_starts_the_order() {
    let table = |rest: &str| format!("CREATE TABLE d.t (a UInt8, b UInt8) ENGINE=MergeTree {rest}");
    assert!(plan(&table("PRIMARY KEY (a) ORDER BY (a, b)"), &numbers(&[])).is_ok());
    assert_eq!(
        fault(&table("PRIMARY KEY (b) ORDER BY (a, b)")),
        Error::InvalidOrderByPrimaryKeyPair
    );
    assert_eq!(
        fault("CREATE TABLE d.t (a UInt8) ENGINE=Oracle ORDER BY a"),
        Error::InvalidEngineName
    );
    assert!(matches!(
        fault("CREATE TABLE d.t (a UInt8, a UInt8) ENGINE=MergeTree ORDER BY a"),
        Error::InvalidColumnName(_)
    ));
    assert!(matches!(
        fault("CREATE TABLE d.t (a JSON) ENGINE=MergeTree ORDER BY a"),
        Error::UnsupportedColumnType(_)
    ));
}

#[test]
fn no_column_is_selected_twice() {
    assert_eq!(
        fault("SELECT id, name, id FROM my_db.users"),
        Error::DuplicateColumn("id".to_string())
    );
    assert_eq!(
        fault("SELECT id AS a, id AS a FROM my_db.users"),
        Error::DuplicateColumn("a".to_string())
    );
    let n = numbers(&["1"]);
    assert!(plan("SELECT id AS a, id AS b FROM my_db.users", &n).is_ok());
    assert!(plan("SELECT 1, 1 FROM my_db.users", &n).is_ok());
    assert!(plan("SELECT id, * FROM my_db.users", &n).is_ok());
}

#[test]
fn rows_are_inserted() {
    let sql = "INSERT INTO my_db.users (name, id) VALUES ('Dave', 5), ('Eve', +6)";
    match plan(sql, &numbers(&["5", "6"])) {
        Ok(PhysicalPlan::Insert { table_def, columns }) => {
            assert_eq!(table_def, users());
            let mut defs = schema().columns;
            let age = defs.pop().unwrap();
            let name = defs.pop().unwrap();
            let id = defs.pop().unwrap();
            assert_eq!(
                columns,
                vec![
                    PhysicalColumn { column_def: name, data: vec![text("Dave"), text("Eve")] },
                    PhysicalColumn {
                        column_def: id,
                        data: vec![Value::UInt32(5), Value::UInt32(6)]
                    },
                    PhysicalColumn { column_def: age, data: vec![Value::Null, Value::Null] },
                ]
            );
        }
        other => panic!("{other:?}"),
    }
}

#[test]
fn bad_rows_are_refused() {
    let insert = |rest: &str| fault(&format!("INSERT INTO my_db.users {rest}"));
    assert!(matches!(insert("(id, id) VALUES (1, 2)"), Error::InvalidColumnName(_)));
    assert!(matches!(insert("(key) VALUES (1)"), Error::InvalidColumnName(_)));
    assert!(matches!(insert("(id) VALUES (1)"), Error::InvalidSource(_)));
    assert_eq!(
        insert("(id, name) VALUES (1)"),
        Error::InvalidSource(
            "Invalid number of values specified. Expected: 2, got: 1".to_string()
        )
    );
    assert!(matches!(insert("(id, name) VALUES (NULL, 'a')"), Error::CouldNotInsertData(_)));
    assert!(matches!(insert("(id, name) VALUES (-1, 'a')"), Error::InvalidSource(_)));
    assert!(matches!(insert("(id, name) VALUES ('x', 'a')"), Error::InvalidSource(_)));
    assert_eq!(fault("INSERT INTO my_db.nobody (id) VALUES (1)"), Error::TableNotFound);
    assert_eq!(fault("INSERT INTO my_db.users VALUES (1)"), Error::NoColumnsSpecified);
}

#[test]
fn tables_and_databases_are_dropped() {
    let n = numbers(&[]);
    assert_eq!(
        plan("DROP TABLE IF EXISTS my_db.users", &n),
        Ok(PhysicalPlan::DropTable { name: users(), if_exists: true })
    );
    assert_eq!(
        plan("DROP DATABASE my_db", &n),
        Ok(PhysicalPlan::DropDatabase { name: "my_db".to_string(), if_exists: false })
    );
    assert_eq!(
        fault("DROP DATABASE a.`b`"),
        Error::InvalidNumberOfParamsSpecified(
            "expected only database name, got [\
             Identifier(Ident { value: \"a\", quote_style: None, \
             span: Span(Location(1,15)..Location(1,16)) }), \
             Identifier(Ident { value: \"b\", quote_style: Some('`'), \
             span: Span(Location(1,17)..Location(1,20)) })]"
                .to_string()
        )
    );
}

#[test]
fn what_is_not_one_statement_is_refused() {
    assert!(matches!(fault("SELEC 1"), Error::SqlToAstConversion(_)));
    assert_eq!(
        fault("DROP TABLE a.b; DROP TABLE a.c"),
        Error::SqlToAstConversion("Currently support only statement per request".to_string())
    );
    assert!(matches!(fault("START TRANSACTION"), Error::UnsupportedCommand(_)));
    assert_eq!(fault("SELECT * FROM my_db.nobody"), Error::TableNotFound);
    assert!(matches!(fault("SELECT nobody FROM my_db.users"), Error::ColumnNotFound(_)));
    assert!(matches!(fault("SELECT id FROM my_db.users LIMIT -1"), Error::InvalidLimitValue(_)));
}

#[test]
fn literals_are_read_by_the_type_of_their_column() {
    let columns = vec![
        def("u", ValueType::Uuid),
        def("b", ValueType::Bool),
        def("f", ValueType::F32),
        def("d", ValueType::F64),
        def("i", ValueType::Int8),
    ];
    let catalog = Catalog {
        entries: vec![CatalogEntry {
            table: users(),
            schema: TableSchema {
                order_by: vec![columns[0].clone()],
                primary_key: vec![columns[0].clone()],
                columns,
            },
        }],
    };
    let sql = "INSERT INTO my_db.users (u, b, f, d, i) VALUES \
               ('123e4567-e89b-12d3-a456-426614174000', true, 1.5, -2.25, -128)";
    let n = numbers(&["1.5", "2.25", "-2.25", "128", "-128"]);
    match CommandRunner::plan_command(sql, &catalog, &n) {
        Ok(PhysicalPlan::Insert { columns, .. }) => {
            let row: Vec<Value> = columns.into_iter().map(|mut c| c.data.remove(0)).collect();
            assert_eq!(
                row,
                vec![
                    Value::Uuid(0x123e4567_e89b_12d3_a456_426614174000),
                    Value::Bool(true),
                    Value::F32(1.5f32.to_bits()),
                    Value::F64((-2.25f64).to_bits()),
                    Value::Int8(-128),
                ]
            );
        }
        other => panic!("{other:?}"),
    }
    let sql = "INSERT INTO my_db.users (u, b, f, d, i) VALUES ('no uuid', true, 1.5, 2.25, 1)";
    assert!(matches!(
        CommandRunner::plan_command(sql, &catalog, &numbers(&["1.5", "2.25", "1"])),
        Err(Error::InvalidSource(text)) if text.starts_with("Could not parse uuid: ")
    ));
}

#[test]
fn filters_are_compiled_and_keep_their_meaning() {
    let n = numbers(&["2"]);
    let filter = match LogicalPlan::try_from(
        "SELECT id FROM my_db.users WHERE 2 < id AND name <> 'Bob'",
        &catalog(),
        &n,
    ) {
        Ok(LogicalPlan::Projection { plan, .. }) => match *plan {
            LogicalPlan::Filter { expr, plan } => {
                assert!(matches!(
                    *plan,
                    LogicalPlan::Scan { source: ScanSource::Table(_) }
                ));
                *expr
            }
            other => panic!("{other:?}"),
        },
        other => panic!("{other:?}"),
    };
    let compiled = CompiledFilter::compile(filter, &schema().columns, &n).unwrap();
    assert_eq!(
        compiled,
        CompiledFilter::And(
            Box::new(CompiledFilter::Compare {
                col_idx: 0,
                op: BinOp::Gt,
                value: Value::UInt32(2)
            }),
            Box::new(CompiledFilter::Compare {
                col_idx: 1,
                op: BinOp::NotEq,
                value: text("Bob")
            }),
        )
    );
    let rows: Vec<Vec<Value>> = table().into_iter().map(|c| c.data).collect();
    assert_eq!(compiled.get_granule_mask(&rows), [false, false, true, false]);
    let mut kept = rows;
    compiled.filter_granule(&mut kept);
    assert_eq!(kept[0], vec![Value::UInt32(3)]);
    assert_eq!(kept[1], vec![text("Carol")]);
    assert_eq!(kept[2], vec![Value::Null]);
}

#[test]
fn unsupported_filters_are_refused() {
    let n = numbers(&["1"]);
    let sql = "SELECT id FROM my_db.users WHERE id LIKE 'a'";
    assert!(matches!(select(sql, &n), Err(Error::UnsupportedFilter(_))));
    let sql = "SELECT id FROM my_db.users WHERE nobody = 1";
    assert!(select(sql, &n).is_err());
}

#[test]
fn messages_show_what_was_found() {
    let id = "Projection { alias: None, source: ColumnDef(ColumnDef { name: \"id\", \
              field_type: UInt32, constraints: Constraints { nullable: false, default: None, \
              compression_type: LZ4(3) } }) }";
    assert_eq!(
        fault("SELECT id FROM my_db.users GROUP BY sum(id)"),
        Error::InvalidSource(format!(
            "Expected projection in GROUP BY, got (AggregateProjection {{ alias: None, \
             source: Sum({id}) }}) instead."
        ))
    );
    let uuid = ProjectionValue::Value(Value::Uuid(0x123e4567_e89b_12d3_a456_426614174000));
    assert_eq!(uuid.to_text(&numbers(&[])), "Uuid(123e4567-e89b-12d3-a456-426614174000)");
    let uuid = ProjectionValue::Value(Value::Uuid(10));
    assert_eq!(uuid.to_text(&numbers(&[])), "Uuid(00000000-0000-0000-0000-00000000000a)");
    let n = numbers(&["1.5", "-2"]);
    let single = |v: f32| ProjectionValue::Value(Value::F32(v.to_bits())).to_text(&n);
    assert_eq!(single(1.5), "F32(1.5)");
    assert_eq!(single(-2.0), "F32(-2.0)");
    assert_eq!(single(0.25), "F32(bits 1048576000)");
    let double = |v: f64| ProjectionValue::Value(Value::F64(v.to_bits())).to_text(&n);
    assert_eq!(double(1.5), "F64(1.5)");
}
