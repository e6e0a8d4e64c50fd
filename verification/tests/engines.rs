//! Tests of the table engines.
use touchhouse::engines::merge_tree::MergeTreeEngine;
use touchhouse::engines::replacing_merge_tree::ReplacingMergeTreeEngine;
use touchhouse::engines::{Engine, EngineConfig, EngineName};
use touchhouse::error::Error;
use touchhouse::sql::projection::{Projection, ProjectionValue};
use touchhouse::storage::column::{ColumnDef, Constraints, OutputColumn};
use touchhouse::storage::value::{Value, ValueType};

fn strings(values: &[&str]) -> Vec<Value> {
    values.iter().map(|x| Value::String(x.to_string())).collect()
}

fn ints(values: &[i32]) -> Vec<Value> {
    values.iter().map(|x| Value::Int32(*x)).collect()
}

fn str_col_def() -> ColumnDef {
    ColumnDef {
        name: "test_str".to_string(),
        field_type: ValueType::String,
        constraints: Default::default(),
    }
}

fn int_col_def() -> ColumnDef {
    ColumnDef {
        name: "test_int".to_string(),
        field_type: ValueType::Int32,
        constraints: Default::default(),
    }
}

fn by(column_def: ColumnDef) -> Projection {
    Projection { alias: None, source: ProjectionValue::ColumnDef(column_def) }
}

fn column(column_def: ColumnDef, data: Vec<Value>) -> OutputColumn {
    OutputColumn { proj: by(column_def), data }
}

#[test]
fn test_empty() {
    let engine = MergeTreeEngine::new(EngineConfig::new(&[], &[]));
    let columns = Vec::new();

    assert_eq!(engine.order_columns(columns).unwrap_err(), Error::NoColumnsSpecified);
}

#[test]
fn test_single_row_single_column() {
    let order_by = [by(str_col_def())];
    let primary_key = [str_col_def()];

    let engine = MergeTreeEngine::new(EngineConfig::new(&order_by, &primary_key));
    let columns = vec![column(str_col_def(), strings(&["1"]))];

    assert_eq!(engine.order_columns(columns.clone()).unwrap(), columns);
}

#[test]
fn test_multiple_row_single_column() {
    let order_by = [by(int_col_def())];
    let primary_key = [int_col_def()];
    let engine = MergeTreeEngine::new(EngineConfig::new(&order_by, &primary_key));
    let columns = vec![column(int_col_def(), ints(&[1, 2, 4, 3, 2]))];

    assert_eq!(
        engine.order_columns(columns.clone()).unwrap(),
        vec![column(int_col_def(), ints(&[1, 2, 2, 3, 4]))]
    );
}

#[test]
fn test_single_row_multiple_column() {
    let order_by = [by(int_col_def())];
    let primary_key = [int_col_def()];
    let engine = MergeTreeEngine::new(EngineConfig::new(&order_by, &primary_key));
    let columns = vec![
        column(int_col_def(), ints(&[1])),
        column(str_col_def(), strings(&["1"])),
    ];

    assert_eq!(engine.order_columns(columns.clone()).unwrap(), columns);
}

#[test]
fn test_multiple_row_multiple_column_eq() {
    let order_by = [by(int_col_def())];
    let primary_key = [int_col_def()];
    let engine = MergeTreeEngine::new(EngineConfig::new(&order_by, &primary_key));
    let columns = vec![
        column(int_col_def(), ints(&[1, 5, 3, 2, 4])),
        column(str_col_def(), strings(&["1", "5", "3", "2", "4"])),
    ];

    assert_eq!(
        engine.order_columns(columns.clone()).unwrap(),
        vec![
            column(int_col_def(), ints(&[1, 2, 3, 4, 5])),
            column(str_col_def(), strings(&["1", "2", "3", "4", "5"])),
        ]
    )
}

#[test]
fn test_multiple_row_multiple_column_not_eq() {
    let order_by = [by(int_col_def()), by(str_col_def())];
    let primary_key = [int_col_def(), str_col_def()];
    let engine = MergeTreeEngine::new(EngineConfig::new(&order_by, &primary_key));
    let columns = vec![
        column(int_col_def(), ints(&[1, 2, 3, 2, 4])),
        column(str_col_def(), strings(&["1", "5", "3", "2", "4"])),
    ];

    assert_eq!(
        engine.order_columns(columns.clone()).unwrap(),
        vec![
            column(int_col_def(), ints(&[1, 2, 2, 3, 4])),
            column(str_col_def(), strings(&["1", "2", "5", "3", "4"])),
        ]
    )
}

fn string_column(name: String, data: Vec<&str>) -> OutputColumn {
    OutputColumn {
        proj: Projection {
            alias: None,
            source: ProjectionValue::ColumnDef(ColumnDef {
                name,
                field_type: ValueType::String,
                constraints: Constraints::default(),
            }),
        },
        data: data.iter().map(|x| Value::String(x.to_string())).collect(),
    }
}

#[test]
fn test_1() {
    let col_1 = string_column("col_1".to_string(), vec!["a", "b", "b", "c", "a", "d", "b"]);
    let col_2 = string_column("col_2".to_string(), vec!["q", "w", "e", "d", "q", "w", "w"]);
    let col_3 = string_column("col_3".to_string(), vec!["1", "2", "3", "4", "5", "6", "7"]);
    let order_by = vec![
        Projection { alias: None, source: col_1.proj.source.clone() },
        Projection { alias: None, source: col_2.proj.source.clone() },
        Projection { alias: None, source: col_3.proj.source.clone() },
    ];

    let ProjectionValue::ColumnDef(col_1_col_def) = col_1.proj.source.clone() else {
        unreachable!()
    };
    let ProjectionValue::ColumnDef(col_2_col_def) = col_2.proj.source.clone() else {
        unreachable!()
    };

    let primary_key = vec![col_1_col_def, col_2_col_def];

    let merged = vec![
        string_column("col_1".to_string(), vec!["a", "b", "b", "c", "d"]),
        string_column("col_2".to_string(), vec!["q", "e", "w", "d", "w"]),
        string_column("col_3".to_string(), vec!["5", "3", "7", "4", "6"]),
    ];

    let engine = ReplacingMergeTreeEngine::new(EngineConfig::new(&order_by, &primary_key));
    assert_eq!(engine.order_columns(vec![col_1, col_2, col_3]).unwrap(), merged);
}

#[test]
fn test_2() {
    let col_1 = string_column("id".to_string(), vec!["1", "1", "2", "2", "3", "1"]);
    let col_2 = string_column("version".to_string(), vec!["v1", "v2", "v1", "v3", "v1", "v3"]);
    let col_3 = string_column(
        "data".to_string(),
        vec!["old", "mid", "old", "new", "only", "newest"],
    );

    let order_by = vec![
        Projection { alias: None, source: col_1.proj.source.clone() },
        Projection { alias: None, source: col_2.proj.source.clone() },
    ];
    let ProjectionValue::ColumnDef(col_1_col_def) = col_1.proj.source.clone() else {
        unreachable!()
    };

    let primary_key = vec![col_1_col_def];

    let merged = vec![
        string_column("id".to_string(), vec!["1", "2", "3"]),
        string_column("version".to_string(), vec!["v3", "v3", "v1"]),
        string_column("data".to_string(), vec!["newest", "new", "only"]),
    ];

    let engine = ReplacingMergeTreeEngine::new(EngineConfig::new(&order_by, &primary_key));
    assert_eq!(engine.order_columns(vec![col_1, col_2, col_3]).unwrap(), merged);
}

#[test]
fn columns_of_different_lengths_are_refused() {
    let order_by = [by(int_col_def())];
    let engine = MergeTreeEngine::new(EngineConfig::new(&order_by, &[]));
    let columns = vec![
        column(int_col_def(), ints(&[1, 2])),
        column(str_col_def(), strings(&["1"])),
    ];
    assert_eq!(engine.order_columns(columns).unwrap_err(), Error::InvalidColumnsSpecified);
}

#[test]
fn missing_order_by_columns_are_reported() {
    let order_by = [by(str_col_def())];
    let engine = MergeTreeEngine::new(EngineConfig::new(&order_by, &[]));
    let columns = vec![column(int_col_def(), ints(&[1, 2]))];
    assert_eq!(engine.order_columns(columns).unwrap_err(), Error::InvalidColumnsSpecified);
}

#[test]
fn the_last_of_equal_rows_stays() {
    let order_by = [by(int_col_def())];
    let primary_key = [int_col_def()];
    let engine = ReplacingMergeTreeEngine::new(EngineConfig::new(&order_by, &primary_key));
    let columns = vec![
        column(int_col_def(), ints(&[2, 1, 2, 1])),
        column(str_col_def(), strings(&["a", "b", "c", "d"])),
    ];
    assert_eq!(
        engine.order_columns(columns).unwrap(),
        vec![
            column(int_col_def(), ints(&[1, 2])),
            column(str_col_def(), strings(&["d", "c"])),
        ]
    );
}

#[test]
fn ordering_twice_changes_nothing_more() {
    let order_by = [by(int_col_def())];
    let primary_key = [int_col_def()];
    for name in [EngineName::MergeTree, EngineName::ReplacingMergeTree] {
        let engine = name.get_engine(EngineConfig::new(&order_by, &primary_key));
        let once = engine
            .order_columns(vec![
                column(int_col_def(), ints(&[3, 1, 3, 2])),
                column(str_col_def(), strings(&["a", "b", "c", "d"])),
            ])
            .unwrap();
        let twice = engine.order_columns(once.clone()).unwrap();
        assert_eq!(once, twice);
    }
}

#[test]
fn engines_are_found_by_their_exact_names() {
    assert_eq!(EngineName::try_from("MergeTree"), Ok(EngineName::MergeTree));
    assert_eq!(EngineName::try_from("ReplacingMergeTree"), Ok(EngineName::ReplacingMergeTree));
    assert_eq!(EngineName::try_from("mergetree"), Err(Error::InvalidEngineName));
    assert_eq!(EngineName::default(), EngineName::MergeTree);
}

#[test]
fn uncomparable_values_cannot_be_ordered() {
    let def = ColumnDef {
        name: "f".to_string(),
        field_type: ValueType::F64,
        constraints: Default::default(),
    };
    let order_by = [by(def.clone())];
    let engine = EngineName::MergeTree.get_engine(EngineConfig::new(&order_by, &[]));
    let numbers = vec![Value::F64(f64::NAN.to_bits()), Value::F64(1.5f64.to_bits())];
    assert!(!engine.can_order(&vec![column(def.clone(), numbers)]));
    let numbers = vec![Value::F64(2.5f64.to_bits()), Value::F64((-1.5f64).to_bits())];
    let columns = vec![column(def.clone(), numbers)];
    assert!(engine.can_order(&columns));
    assert_eq!(
        engine.order_columns(columns).unwrap(),
        vec![column(def, vec![Value::F64((-1.5f64).to_bits()), Value::F64(2.5f64.to_bits())])]
    );
}

#[test]
fn replacing_twice_changes_nothing_more() {
    let col_1 = string_column("id".to_string(), vec!["2", "1", "2", "1", "3"]);
    let col_2 = string_column("version".to_string(), vec!["v2", "v1", "v1", "v3", "v1"]);
    let order_by = [col_1.proj.clone(), col_2.proj.clone()];
    let ProjectionValue::ColumnDef(id) = col_1.proj.source.clone() else { unreachable!() };
    let primary_key = [id];
    let engine = ReplacingMergeTreeEngine::new(EngineConfig::new(&order_by, &primary_key));
    let once = engine.order_columns(vec![col_1, col_2]).unwrap();
    assert_eq!(once[0].data, strings(&["1", "2", "3"]));
    assert_eq!(once[1].data, strings(&["v3", "v2", "v1"]));
    assert_eq!(engine.order_columns(once.clone()).unwrap(), once);
}

#[test]
fn replacing_twice_goes_by_any_key() {
    let order_by = [by(int_col_def())];
    let primary_key = [str_col_def()];
    let engine = ReplacingMergeTreeEngine::new(EngineConfig::new(&order_by, &primary_key));
    let columns = vec![
        column(int_col_def(), ints(&[4, 1, 3, 2])),
        column(str_col_def(), strings(&["a", "a", "b", "a"])),
    ];
    let once = engine.order_columns(columns).unwrap();
    assert_eq!(once[0].data, ints(&[2, 3, 4]));
    assert_eq!(once[1].data, strings(&["a", "b", "a"]));
    assert_eq!(engine.order_columns(once.clone()).unwrap(), once);
}
