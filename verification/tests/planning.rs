//! Tests of the planning of statements.
use touchhouse::engines::EngineName;
use touchhouse::error::Error;
use touchhouse::sql::ast::{
    ColumnOption, ColumnOptionDef, CreateTableOptions, Expr, Ident, ObjectName, ObjectNamePart,
    SqlOption,
};
use touchhouse::sql::logical_plan::plan::LogicalPlan;
use touchhouse::sql::projection::projections_of;
use touchhouse::sql::validate_name;
use touchhouse::storage::column::{ColumnDef, Constraints};
use touchhouse::storage::numbers::Numbers;
use touchhouse::storage::value::ValueType;

fn no_numbers() -> Numbers {
    Numbers { readings: Vec::new() }
}

fn build_from_string_one(name: &str) -> ObjectName {
    ObjectName(vec![ObjectNamePart::Identifier(Ident::new(name.to_string()))])
}

fn build_from_string_two(name: &str) -> ObjectName {
    ObjectName(vec![
        ObjectNamePart::Identifier(Ident::new(name.to_string())),
        ObjectNamePart::Identifier(Ident::new(name.to_string())),
    ])
}

#[test]
fn test_invalid_names() {
    assert!(!validate_name("*"));
    assert!(!validate_name("csji="));
    assert!(!validate_name("csji122yrd01/"));
    assert!(!validate_name(""));
}

#[test]
fn test_valid_names() {
    assert!(validate_name("coffee_shop"));
    assert!(validate_name("amsterdam"));
    assert!(validate_name("John_Data"));
}

#[test]
fn test_create_database_invalid() {
    let mut invalid = build_from_string_one("invalid*");
    assert!(LogicalPlan::from_create_database(&invalid, false).is_err());
    assert!(LogicalPlan::from_create_database(&invalid, true).is_err());
    invalid = build_from_string_two("invalid`");
    assert!(LogicalPlan::from_create_database(&invalid, false).is_err());
    assert!(LogicalPlan::from_create_database(&invalid, true).is_err());
}

#[test]
fn test_create_database_valid() {
    let mut valid = build_from_string_one("amsterdam_places");
    assert_eq!(
        LogicalPlan::from_create_database(&valid, false),
        Ok(LogicalPlan::CreateDatabase {
            name: "amsterdam_places".to_string(),
            if_not_exists: false
        })
    );

    valid = build_from_string_one("_all_Data144");

    assert_eq!(
        LogicalPlan::from_create_database(&valid, false),
        Ok(LogicalPlan::CreateDatabase {
            name: "_all_Data144".to_string(),
            if_not_exists: false
        })
    );
}

#[test]
fn test_parse_column_constraints_valid() {
    let not_null_option = ColumnOptionDef { name: None, option: ColumnOption::NotNull };
    let null_option = ColumnOptionDef { name: None, option: ColumnOption::Null };

    let result = LogicalPlan::parse_column_constraints(
        &[not_null_option],
        &ValueType::String,
        &no_numbers(),
    );
    assert_eq!(
        result.unwrap(),
        Constraints {
            nullable: false,
            default: None,
            compression_type: ValueType::String.get_optimal_compression(),
        }
    );

    let result =
        LogicalPlan::parse_column_constraints(&[null_option], &ValueType::String, &no_numbers());
    assert_eq!(
        result.unwrap(),
        Constraints {
            nullable: true,
            default: None,
            compression_type: ValueType::String.get_optimal_compression(),
        }
    );

    let result = LogicalPlan::parse_column_constraints(&[], &ValueType::String, &no_numbers());
    assert_eq!(result.unwrap(), Constraints::default());
}

#[test]
fn test_parse_column_constraints_invalid() {
    let not_null_option = ColumnOptionDef { name: None, option: ColumnOption::NotNull };
    let null_option = ColumnOptionDef { name: None, option: ColumnOption::Null };

    let result = LogicalPlan::parse_column_constraints(
        &[not_null_option, null_option],
        &ValueType::String,
        &no_numbers(),
    );
    assert!(result.is_err());

    let unique_option =
        ColumnOptionDef { name: None, option: ColumnOption::Other("UNIQUE".to_string()) };
    let result =
        LogicalPlan::parse_column_constraints(&[unique_option], &ValueType::String, &no_numbers());
    assert!(result.is_err());
}

fn id_and_name() -> Vec<ColumnDef> {
    let col1 = ColumnDef {
        name: "id".to_string(),
        field_type: ValueType::UInt32,
        constraints: Constraints::default(),
    };
    let col2 = ColumnDef {
        name: "name".to_string(),
        field_type: ValueType::String,
        constraints: Constraints::default(),
    };
    vec![col1, col2]
}

fn identifiers(names: &[&str]) -> Vec<Expr> {
    names.iter().map(|name| Expr::Identifier(Ident::new(name.to_string()))).collect()
}

#[test]
fn test_parse_order_by_invalid() {
    let columns = id_and_name();

    let empty_order_by = identifiers(&[]);
    let result = LogicalPlan::create_parse_order_by(&empty_order_by, &columns);
    assert!(result.is_err());

    let invalid_column = identifiers(&["nonexistent"]);
    let result = LogicalPlan::create_parse_order_by(&invalid_column, &columns);
    assert!(result.is_err());

    let duplicate = identifiers(&["id", "id"]);
    let result = LogicalPlan::create_parse_order_by(&duplicate, &columns);
    assert!(result.is_err());
}

#[test]
fn test_parse_order_by_valid() {
    let columns = id_and_name();

    let order_by = identifiers(&["id"]);
    let result = LogicalPlan::create_parse_order_by(&order_by, &columns);
    assert!(result.is_ok());
    assert_eq!(result.unwrap().len(), 1);

    let order_by = identifiers(&["id", "name"]);
    let result = LogicalPlan::create_parse_order_by(&order_by, &columns);
    assert!(result.is_ok());
    assert_eq!(result.unwrap().len(), 2);
}

#[test]
fn test_parse_table_options_default() {
    let result = LogicalPlan::parse_table_options(&CreateTableOptions::Absent);
    assert!(result.is_ok());
    assert_eq!(result.unwrap().engine, EngineName::MergeTree);
}

#[test]
fn a_database_with_a_bad_name_is_refused() {
    let name = build_from_string_one("invalid*");
    assert_eq!(
        LogicalPlan::from_create_database(&name, false),
        Err(Error::InvalidDatabaseName)
    );
}

fn option(key: &str, name: &str) -> SqlOption {
    SqlOption::NamedParenthesizedList {
        key: Ident::new(key.to_string()),
        name: Some(Ident::new(name.to_string())),
    }
}

#[test]
fn a_table_has_one_option_and_it_is_the_engine() {
    let engine = |options: Vec<SqlOption>| {
        LogicalPlan::parse_table_options(&CreateTableOptions::Plain(options)).map(|s| s.engine)
    };
    assert_eq!(engine(vec![]), Ok(EngineName::MergeTree));
    assert_eq!(
        engine(vec![option("Engine", "ReplacingMergeTree")]),
        Ok(EngineName::ReplacingMergeTree)
    );
    assert_eq!(engine(vec![option("codec", "MergeTree")]), Err(Error::InvalidEngineName));
    assert_eq!(
        engine(vec![option("ENGINE", "MergeTree"), option("ENGINE", "MergeTree")]),
        Err(Error::InvalidEngineName)
    );
    assert_eq!(engine(vec![SqlOption::Other]), Err(Error::InvalidEngineName));
}

#[test]
fn no_column_is_sorted_by_twice() {
    let columns = id_and_name();
    assert_eq!(
        LogicalPlan::create_parse_order_by(&identifiers(&[]), &columns),
        Err(Error::InvalidOrderBy("No ORDER BY columns found".to_string()))
    );
    let key = |names: &[&str]| {
        LogicalPlan::parse_primary_key(&Expr::Tuple(identifiers(names)), &columns)
    };
    assert_eq!(key(&["name", "id"]), Ok(vec![columns[1].clone(), columns[0].clone()]));
    assert_eq!(
        key(&["id", "name", "id"]),
        Err(Error::InvalidOrderBy("Duplicate column: id".to_string()))
    );
    assert_eq!(key(&[]), Err(Error::InvalidOrderBy("No PRIMARY KEY columns found".to_string())));
    assert_eq!(
        key(&["id", "none"]),
        Err(Error::ColumnNotFound("Column specified (none) was not found".to_string()))
    );
    let available = projections_of(&columns);
    let order = |names: &[&str]| {
        LogicalPlan::parse_order_by(&Expr::Tuple(identifiers(names)), &available)
    };
    assert_eq!(order(&["name", "id"]), Ok(vec![available[1].clone(), available[0].clone()]));
    assert_eq!(
        order(&["id", "id"]),
        Err(Error::InvalidOrderBy("Duplicate column: id".to_string()))
    );
    assert_eq!(order(&[]), Err(Error::InvalidOrderBy("No ORDER BY columns found".to_string())));
}

#[test]
fn a_key_is_made_of_names() {
    let columns = id_and_name();
    let nested = |inner: Expr| Expr::Nested(Box::new(inner));
    let id = || identifiers(&["id"]).remove(0);
    let key = |expr: Expr| LogicalPlan::parse_primary_key(&expr, &columns);
    assert_eq!(key(id()), Ok(vec![columns[0].clone()]));
    assert_eq!(key(nested(id())), Ok(vec![columns[0].clone()]));
    assert!(matches!(
        key(Expr::Tuple(vec![id(), nested(id())])),
        Err(Error::InvalidOrderBy(text)) if text.starts_with("Invalid specifier: ")
    ));
    assert_eq!(
        key(nested(nested(id()))),
        Err(Error::InvalidOrderBy("Nested primary keys are unsupported".to_string()))
    );
}
