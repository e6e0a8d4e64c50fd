//! Tests of how granules are chosen, read and put together.
use touchhouse::engines::EngineName;
use touchhouse::error::Error;
use touchhouse::runtime_config::TableConfig;
use touchhouse::sql::ast::{BinaryOperator, Expr, Ident, Literal, SqlValue};
use touchhouse::sql::command_runner::CommandRunner;
use touchhouse::sql::compiled_filter::{BinOp, CompiledFilter};
use touchhouse::sql::execution::select::accumulate_function::{AccumulateFn, CollectFn};
use touchhouse::sql::execution::select::aggregator::{Aggregator, FoldKind};
use touchhouse::sql::execution::select::filter::{
    FilterLogic, FilterPart, Granule, MarkedGranule, PartOutline,
};
use touchhouse::sql::execution::select::scan::{GranulePlace, ReadGranule, ScanLogic};
use touchhouse::sql::execution::select::strategy::Strategy;
use touchhouse::sql::execution::select::{QueryParams, Scan};
use touchhouse::sql::execution::table_scan::{ScanConfig, ScannedPart};
use touchhouse::sql::logical_plan::plan::{AggregateFunction, AggregateProjection};
use touchhouse::sql::physical_plan::SelectSource;
use touchhouse::sql::projection::{Projection, ProjectionValue};
use touchhouse::storage::column::{ColumnDef, Constraints, OutputColumn, PhysicalColumn};
use touchhouse::storage::numbers::Numbers;
use touchhouse::storage::table_def::TableDef;
use touchhouse::storage::table_metadata::{TableMetadata, TableSchema, TableSettings};
use touchhouse::storage::table_part::split_granules;
use touchhouse::storage::value::{Value, ValueType};

fn def(name: &str) -> ColumnDef {
    ColumnDef {
        name: name.to_string(),
        field_type: ValueType::UInt32,
        constraints: Constraints::default(),
    }
}

fn proj(name: &str) -> Projection {
    Projection::from_column(def(name))
}

fn scalar(text: &str) -> Projection {
    Projection { alias: None, source: ProjectionValue::Value(Value::String(text.to_string())) }
}

fn ints(values: &[u32]) -> Vec<Value> {
    values.iter().map(|v| Value::UInt32(*v)).collect()
}

fn no_numbers() -> Numbers {
    Numbers { readings: Vec::new() }
}

fn above(col_idx: usize, value: u32) -> CompiledFilter {
    CompiledFilter::Compare { col_idx, op: BinOp::Gt, value: Value::UInt32(value) }
}

fn schema() -> TableSchema {
    TableSchema {
        columns: vec![def("a"), def("b")],
        order_by: vec![def("a")],
        primary_key: vec![def("a")],
    }
}

fn b_above(number: &str) -> Expr {
    Expr::BinaryOp {
        left: Box::new(Expr::Identifier(Ident::new("b".to_string()))),
        op: BinaryOperator::Gt,
        right: Box::new(Expr::Value(Literal {
            value: SqlValue::Number(number.to_string(), false),
            rendered: number.to_string(),
            debug: number.to_string(),
        })),
    }
}

#[test]
fn a_filter_is_made_ready_for_its_table() {
    let prepared = match FilterLogic::prepare(b_above("5"), &schema(), &no_numbers()) {
        Ok(prepared) => prepared,
        Err(e) => panic!("{}", e.to_text()),
    };
    assert_eq!(prepared.filter, above(1, 5));
    assert_eq!(prepared.columns, vec![def("b")]);
    assert_eq!(prepared.mapping, [None, Some(0)]);
    assert!(!prepared.use_optimization);
    assert_eq!(
        FilterLogic::create_filter_cols_table_cols_mapping(
            &vec![def("c")],
            &schema().columns,
            &no_numbers()
        ),
        Err(Error::ColumnNotFound(
            "ColumnDef { name: \"c\", field_type: UInt32, constraints: Constraints { nullable: true, \
             default: None, compression_type: LZ4(3) } }"
                .to_string()
        ))
    );
    assert!(FilterLogic::should_use_compiler_optimization(&vec![def("a")], &vec![def("a")]));
}

#[test]
fn larger_parts_are_read_first() {
    assert_eq!(FilterLogic::order_parts(&vec![3, 9, 5]), [1, 2, 0]);
    assert!(FilterLogic::order_parts(&Vec::new()).is_empty());
}

fn outline(columns: usize, last: Result<usize, Error>) -> PartOutline {
    PartOutline {
        name: "p".to_string(),
        column_count: columns,
        granule_count: 2,
        last_granule_rows: last,
    }
}

fn marked(mark_idx: usize, values: &[u32]) -> MarkedGranule {
    MarkedGranule {
        mark_idx,
        columns: Ok(vec![Some(ints(values))]),
        place: GranulePlace::Inner,
    }
}

fn part(row_count: u64, granules: Result<Vec<MarkedGranule>, Error>) -> FilterPart {
    FilterPart { outline: outline(1, Ok(1)), row_count, granules }
}

fn marks(
    filter: Option<Expr>,
    parts: Vec<FilterPart>,
    strategy: &Strategy,
) -> Result<Vec<(usize, Vec<Granule>)>, Error> {
    FilterLogic::filter_marks(&schema(), filter, &parts, 3, strategy, &no_numbers())
}

#[test]
fn granules_are_masked_until_there_are_enough_rows() {
    let parts = || {
        vec![
            part(2, Ok(vec![marked(0, &[6, 2])])),
            part(4, Ok(vec![marked(0, &[1, 7]), marked(2, &[8, 9])])),
        ]
    };
    let all = marks(Some(b_above("5")), parts(), &Strategy::new(None, 0, 99, true));
    assert_eq!(
        all,
        Ok(vec![
            (
                1,
                vec![
                    Granule { granule_idx: 0, mask: vec![false, true] },
                    Granule { granule_idx: 2, mask: vec![true, true] },
                ]
            ),
            (0, vec![Granule { granule_idx: 0, mask: vec![true, false] }]),
        ])
    );
    let few = marks(Some(b_above("5")), parts(), &Strategy::new(Some(2), 0, 99, false)).unwrap();
    assert_eq!(few[0].1.len(), 1);
    assert!(few[1].1.is_empty());
}

#[test]
fn rows_are_counted_without_their_columns() {
    let all = Strategy::new(None, 0, 99, true);
    let missing = |mark_idx: usize, place: GranulePlace| MarkedGranule {
        mark_idx,
        columns: Ok(vec![None]),
        place,
    };
    let one = |granule: MarkedGranule| {
        marks(Some(b_above("5")), vec![part(9, Ok(vec![granule]))], &all)
    };
    assert_eq!(
        one(missing(0, GranulePlace::Inner)),
        Ok(vec![(0, vec![Granule { granule_idx: 0, mask: vec![false; 3] }])])
    );
    assert_eq!(
        one(missing(1, GranulePlace::Last(Ok(2)))),
        Ok(vec![(0, vec![Granule { granule_idx: 1, mask: vec![false; 2] }])])
    );
    assert_eq!(
        one(missing(1, GranulePlace::Last(Err(Error::EmptySource)))),
        Err(Error::EmptySource)
    );
    assert_eq!(one(missing(0, GranulePlace::Unknown)), Err(Error::NoColumnsSpecified));
    let broken = Error::CouldNotReadData("damaged".to_string());
    assert_eq!(
        marks(Some(b_above("5")), vec![part(1, Err(broken.clone()))], &all),
        Err(broken)
    );
    let unknown = Expr::Identifier(Ident::new("z".to_string()));
    assert!(matches!(marks(Some(unknown), Vec::new(), &all), Err(Error::ColumnNotFound(_))));
    assert_eq!(
        marks(None, vec![part(4, Ok(Vec::new()))], &all),
        Ok(vec![(
            0,
            vec![
                Granule { granule_idx: 0, mask: vec![true; 3] },
                Granule { granule_idx: 1, mask: vec![true] },
            ]
        )])
    );
}

#[test]
fn without_a_filter_all_rows_pass() {
    assert_eq!(
        FilterLogic::no_filter_fallback(&vec![outline(1, Ok(1))], 3),
        Ok(vec![vec![
            Granule { granule_idx: 0, mask: vec![true; 3] },
            Granule { granule_idx: 1, mask: vec![true] },
        ]])
    );
    assert_eq!(
        FilterLogic::no_filter_fallback(&vec![outline(0, Ok(1))], 3),
        Err(Error::PartDoesNotHaveColumns("p".to_string()))
    );
    assert_eq!(
        FilterLogic::no_filter_fallback(&vec![outline(1, Err(Error::EmptySource))], 3),
        Err(Error::EmptySource)
    );
}

#[test]
fn values_of_granules_are_collected() {
    let collect = CollectFn::new();
    let columns = vec![Some((ints(&[1, 2, 3]), vec![true, false, true])), None];
    let acc = collect.accumulate_raw(vec![ints(&[9]), Vec::new()], &columns, 2);
    assert_eq!(acc, vec![ints(&[9, 1, 3]), vec![Value::Null, Value::Null]]);
    let acc = collect.accumulate_values(acc, &vec![ints(&[4])]);
    assert_eq!(acc[0], ints(&[9, 1, 3, 4]));
}

#[test]
fn parts_are_put_together() {
    let granule = |values: &[u32]| {
        Ok(ReadGranule {
            columns: vec![Some((ints(values), vec![true; values.len()]))],
            place: GranulePlace::Inner,
        })
    };
    let strategy = Strategy::new(None, 0, 99, true);
    let read = |parts| {
        ScanLogic::get_out_cols(&parts, &vec![proj("a")], vec![Vec::new()], &CollectFn, 3, &strategy)
    };
    assert_eq!(
        read(vec![Ok(vec![granule(&[1, 2]), granule(&[3])])]),
        Ok(vec![OutputColumn { proj: proj("a"), data: ints(&[1, 2, 3]) }])
    );
    assert_eq!(read(vec![Ok(Vec::new())]), Err(Error::EmptySource));
    let broken = Error::CouldNotReadData("damaged".to_string());
    assert_eq!(read(vec![Ok(vec![Err(broken.clone())])]), Err(broken.clone()));
    assert_eq!(read(vec![Err(broken.clone())]), Err(broken));
    let missing = |place: GranulePlace| Ok(ReadGranule { columns: vec![None], place });
    assert_eq!(
        read(vec![Ok(vec![missing(GranulePlace::Inner), missing(GranulePlace::Last(Ok(1)))])]),
        Ok(vec![OutputColumn { proj: proj("a"), data: vec![Value::Null; 4] }])
    );
    assert_eq!(
        read(vec![Ok(vec![missing(GranulePlace::Unknown)])]),
        Err(Error::NoColumnsSpecified)
    );
}

fn config() -> TableConfig {
    TableConfig {
        metadata: TableMetadata {
            version: 1,
            flags: 0,
            created_at: 0,
            settings: TableSettings { index_granularity: 8192, engine: EngineName::MergeTree },
            schema: schema(),
        },
        infos: Vec::new(),
    }
}

fn table() -> SelectSource {
    SelectSource::Table(TableDef { table: "t".to_string(), database: "d".to_string() })
}

fn scanned(names: &[&str], granules: Vec<Result<Vec<Vec<Value>>, Error>>) -> ScannedPart {
    ScannedPart {
        column_defs: names.iter().map(|name| def(name)).collect(),
        granules: Ok(granules),
    }
}

fn scan(
    read: &[&str],
    filter: Option<CompiledFilter>,
    parts: Vec<ScannedPart>,
    limit: Option<u64>,
    offset: u64,
) -> Result<(Vec<Vec<Value>>, usize), Error> {
    let read: Vec<Projection> = read.iter().map(|name| proj(name)).collect();
    let table_col_defs = schema().columns;
    let config =
        ScanConfig { read: &read, table_col_defs: &table_col_defs, filter: &filter, limit, offset };
    CommandRunner::scan_table_parts(&config, &parts)
}

#[test]
fn a_table_is_scanned_for_what_is_shown() {
    let order_by = Some(vec![vec![proj("b")]]);
    let shown = vec![scalar("x"), proj("a")];
    let filter = Some(Box::new(b_above("5")));
    let query = match CommandRunner::start_select(
        &table(),
        &shown,
        filter,
        &order_by,
        Some(&config()),
        &no_numbers(),
    ) {
        Ok(query) => query,
        Err(e) => panic!("{}", e.to_text()),
    };
    assert_eq!(query.disk_columns, vec![proj("a")]);
    assert_eq!(query.scalar_projections, vec![(0, scalar("x"))]);
    assert_eq!(query.read, vec![proj("a"), proj("b")]);
    assert_eq!(query.filter, Some(above(1, 5)));
    assert!(!query.use_filter_optimization);

    let parts = vec![
        scanned(&["b", "a"], vec![Ok(vec![ints(&[9, 1]), ints(&[1, 2])])]),
        scanned(&["a", "b"], vec![Ok(vec![ints(&[3, 4]), ints(&[8, 7])])]),
    ];
    let columns =
        CommandRunner::finish_select(&query, &parts, &order_by, &config(), Some(2), 0).unwrap();
    assert_eq!(
        columns,
        vec![
            OutputColumn {
                proj: scalar("x"),
                data: vec![Value::String("x".to_string()), Value::String("x".to_string())]
            },
            OutputColumn { proj: proj("a"), data: ints(&[4, 3]) },
        ]
    );
}

#[test]
fn a_scan_needs_a_table() {
    let shown = vec![proj("a")];
    let start = |config: Option<&TableConfig>| {
        CommandRunner::start_select(&table(), &shown, None, &None, config, &no_numbers())
    };
    assert!(start(Some(&config())).is_ok());
    assert!(matches!(start(None), Err(Error::TableNotFound)));
}

#[test]
fn missing_columns_are_read_as_null() {
    let parts = || vec![scanned(&["a"], vec![Ok(vec![ints(&[1, 2, 3])])])];
    assert_eq!(
        scan(&["a", "b"], None, parts(), None, 0),
        Ok((vec![ints(&[1, 2, 3]), vec![Value::Null; 3]], 3))
    );
    assert_eq!(
        scan(&["b", "a"], Some(above(0, 1)), parts(), None, 0),
        Ok((vec![vec![Value::Null; 2], ints(&[2, 3])], 2))
    );
    assert_eq!(scan(&["b"], None, parts(), None, 0), Ok((vec![Vec::new()], 0)));
}

#[test]
fn a_scan_stops_with_enough_rows() {
    let broken = Error::CouldNotReadData("damaged".to_string());
    let granule = |values: &[u32]| Ok(vec![ints(values)]);
    let parts = || {
        vec![
            scanned(&["a"], vec![granule(&[1, 2]), granule(&[3])]),
            scanned(&["a"], vec![granule(&[4]), Err(broken.clone())]),
            ScannedPart { column_defs: vec![def("a")], granules: Err(Error::EmptySource) },
        ]
    };
    assert_eq!(scan(&["a"], None, parts(), Some(1), 1), Ok((vec![ints(&[1, 2])], 2)));
    assert_eq!(scan(&["a"], None, parts(), Some(4), 0), Ok((vec![ints(&[1, 2, 3, 4])], 4)));
    assert_eq!(scan(&["a"], None, parts(), Some(5), 0), Err(broken.clone()));
    let unopened = vec![parts().remove(2)];
    assert_eq!(scan(&["a"], None, unopened, None, 0), Err(Error::EmptySource));
}

#[test]
fn columns_are_read_once() {
    let mut read = vec![proj("a")];
    CommandRunner::add_projections(&mut read, &vec![proj("a"), scalar("x"), proj("b")]);
    CommandRunner::add_column_defs(&mut read, &vec![def("b"), def("c")]);
    assert_eq!(read, vec![proj("a"), proj("b"), proj("c")]);
}

fn first(_: FoldKind, values: &Vec<Value>) -> u64 {
    values.len() as u64
}

#[test]
fn groups_hold_the_values_of_their_rows() {
    let count = AggregateProjection {
        alias: None,
        source: AggregateFunction::Count(Box::new(proj("b"))),
    };
    let sum =
        AggregateProjection { alias: None, source: AggregateFunction::Sum(Box::new(proj("b"))) };
    let mut aggregator = Aggregator::new(&vec![proj("a")], &vec![count, sum], &vec![proj("a")]);
    assert_eq!(aggregator.get_projs_to_read(), vec![proj("a"), proj("b"), proj("b")]);
    let chunk = vec![ints(&[1, 2, 1]), ints(&[5, 6, 7]), ints(&[5, 6, 7])];
    assert!(aggregator.can_append(&chunk));
    assert_eq!(aggregator.append_chunk(&chunk), Ok(3));
    assert_eq!(aggregator.append_chunk(&chunk), Ok(3));
    let columns = aggregator.finalize(&first, &no_numbers());
    assert_eq!(columns[0], OutputColumn { proj: proj("a"), data: ints(&[1, 2]) });
    assert_eq!(columns[1].data, vec![Value::UInt64(4), Value::UInt64(2)]);
    assert_eq!(columns[2].data, vec![Value::F64(4), Value::F64(2)]);
}

#[test]
fn projections_and_columns_convert() {
    let column = PhysicalColumn { column_def: def("a"), data: ints(&[1]) };
    let output = column.clone().into_output_column();
    assert_eq!(output.proj, proj("a"));
    assert_eq!(output.proj.source.get_col_def(), Some(&def("a")));
    assert_eq!(output.proj.source.get_field_type(), ValueType::UInt32);
    assert_eq!(PhysicalColumn::try_from_output(output, &no_numbers()), Ok(column));
    let empty = OutputColumn::from_projection(scalar("x"));
    assert!(empty.data.is_empty());
    assert_eq!(
        PhysicalColumn::try_from_output(empty, &no_numbers()),
        Err(Error::InvalidSource(
            "expected to be column definition, got (Value(String(\"x\"))) instead during output to \
             physical column conversion."
                .to_string()
        ))
    );
}

#[test]
fn values_of_one_type_are_ordered() {
    assert!(Value::Int8(-1) < Value::Int8(1));
    assert!(Value::String("a".to_string()) < Value::String("b".to_string()));
    assert!(Value::String("z".to_string()) < Value::String("\u{e9}".to_string()));
    assert!(Value::Bool(false) < Value::Bool(true));
    assert_eq!(Value::Int8(1).partial_cmp(&Value::Int16(1)), None);
    let double = |v: f64| Value::F64(v.to_bits());
    assert!(double(-2.0) < double(-1.0));
    assert!(double(-1.0) < double(0.0));
    assert!(double(f64::NEG_INFINITY) < double(f64::MIN_POSITIVE));
    assert_eq!(double(0.0), double(-0.0));
    assert_eq!(double(f64::NAN).partial_cmp(&double(1.0)), None);
    assert_ne!(double(f64::NAN), double(f64::NAN));
    let single = |v: f32| Value::F32(v.to_bits());
    assert!(single(-0.5) < single(0.25));
    assert_eq!(double(0.0).hash_key(), double(-0.0).hash_key());
}

#[test]
fn comparisons_follow_the_order() {
    let one = Value::UInt32(1);
    let two = Value::UInt32(2);
    for (op, expected) in [
        (BinOp::Gt, false),
        (BinOp::GtEq, false),
        (BinOp::Lt, true),
        (BinOp::LtEq, true),
        (BinOp::Eq, false),
        (BinOp::NotEq, true),
    ] {
        assert_eq!(one.fits_op(&two, &op), expected);
        assert_eq!(two.fits_op(&one, &op.flip()), expected);
    }
    assert!(Value::Bool(true).is_true());
    assert!(!one.is_true());
}

#[test]
fn a_group_keeps_the_order_of_its_rows() {
    let avg =
        AggregateProjection { alias: None, source: AggregateFunction::Avg(Box::new(proj("b"))) };
    let mut aggregator = Aggregator::new(&vec![proj("a")], &vec![avg], &vec![proj("a")]);
    let chunk = vec![ints(&[1, 2, 1]), ints(&[5, 6, 7])];
    assert_eq!(aggregator.append_chunk(&chunk), Ok(3));
    let columns = aggregator.finalize(
        &|_: FoldKind, values: &Vec<Value>| match (&values[0], values.last()) {
            (Value::UInt32(first), Some(Value::UInt32(last))) => u64::from(first * 10 + last),
            _ => 0,
        },
        &no_numbers(),
    );
    assert_eq!(columns[0].data, ints(&[1, 2]));
    assert_eq!(columns[1].data, vec![Value::F64(57), Value::F64(66)]);
}

#[test]
fn a_row_without_a_number_as_key_is_a_group_of_its_own() {
    let key = Projection::from_column(ColumnDef {
        name: "k".to_string(),
        field_type: ValueType::F64,
        constraints: Constraints::default(),
    });
    let count = AggregateProjection {
        alias: None,
        source: AggregateFunction::Count(Box::new(proj("b"))),
    };
    let mut aggregator = Aggregator::new(&vec![key.clone()], &vec![count], &vec![key]);
    let nan = || Value::F64(f64::NAN.to_bits());
    let zero = |v: f64| Value::F64(v.to_bits());
    let chunk = vec![vec![nan(), zero(0.0), nan(), zero(-0.0)], ints(&[1, 2, 3, 4])];
    assert_eq!(aggregator.append_chunk(&chunk), Ok(4));
    let columns = aggregator.finalize(&first, &no_numbers());
    assert_eq!(columns[1].data, vec![Value::UInt64(1), Value::UInt64(2), Value::UInt64(1)]);
}

#[test]
fn chunks_join_to_one() {
    let fresh = || {
        let sum = AggregateProjection {
            alias: None,
            source: AggregateFunction::Sum(Box::new(proj("b"))),
        };
        Aggregator::new(&vec![proj("a")], &vec![sum], &vec![proj("a")])
    };
    let chunk = |a: &[u32], b: &[u32]| vec![ints(a), ints(b)];
    let mut apart = fresh();
    assert_eq!(apart.append_chunk(&chunk(&[1, 2], &[5, 6])), Ok(2));
    assert_eq!(apart.append_chunk(&chunk(&[], &[])), Ok(0));
    assert_eq!(apart.append_chunk(&chunk(&[2, 3], &[7, 8])), Ok(2));
    let mut together = fresh();
    assert_eq!(together.append_chunk(&chunk(&[1, 2, 2, 3], &[5, 6, 7, 8])), Ok(4));
    let all = |_: FoldKind, values: &Vec<Value>| {
        values.iter().fold(0, |n, v| match v {
            Value::UInt32(v) => n * 10 + u64::from(*v),
            _ => 0,
        })
    };
    let columns = together.finalize(&all, &no_numbers());
    assert_eq!(columns[0].data, ints(&[1, 2, 3]));
    assert_eq!(columns[1].data, vec![Value::F64(5), Value::F64(67), Value::F64(8)]);
    assert_eq!(apart.finalize(&all, &no_numbers()), columns);
}

fn query(
    names: &[&str],
    filter: Option<Expr>,
    limit: Option<usize>,
    offset: usize,
    chunks: &[[&[u32]; 2]],
) -> (Vec<Vec<Value>>, usize) {
    let params = QueryParams {
        projections: names.iter().map(|name| proj(name)).collect(),
        filter: filter.map(Box::new),
        aggregate_cols: Vec::new(),
        group_by: Vec::new(),
        having: None,
        order_by: None,
        limit,
        offset,
    };
    let total = chunks.iter().map(|chunk| chunk[0].len()).sum();
    let mut scan = match Scan::new(params, &schema(), total, &no_numbers()) {
        Ok(scan) => scan,
        Err(e) => panic!("{}", e.to_text()),
    };
    let mut read = 0;
    for chunk in chunks {
        if !scan.should_read_next_chunk() {
            break;
        }
        read += 1;
        let stored: Vec<Vec<Value>> = chunk.iter().map(|column| ints(column)).collect();
        let shown =
            names.iter().map(|name| stored[if *name == "a" { 0 } else { 1 }].clone()).collect();
        scan.feed_values(shown, &stored).unwrap();
    }
    let columns = scan.finish(&first, &no_numbers()).unwrap();
    (columns.into_iter().map(|column| column.data).collect(), read)
}

#[test]
fn a_query_answers_with_the_rows_of_all_chunks() {
    let chunks: [[&[u32]; 2]; 3] =
        [[&[1, 2], &[6, 5]], [&[3, 4], &[7, 8]], [&[5, 6, 7], &[1, 9, 9]]];
    assert_eq!(
        query(&["a"], None, None, 0, &chunks),
        (vec![ints(&[1, 2, 3, 4, 5, 6, 7])], 3)
    );
    assert_eq!(
        query(&["b", "a"], Some(b_above("5")), None, 0, &chunks),
        (vec![ints(&[6, 7, 8, 9, 9]), ints(&[1, 3, 4, 6, 7])], 3)
    );
    assert_eq!(
        query(&["a"], Some(b_above("5")), Some(2), 1, &chunks),
        (vec![ints(&[3, 4])], 3)
    );
    assert_eq!(query(&["a"], None, Some(1), 0, &chunks), (vec![ints(&[1])], 1));
    assert_eq!(query(&["a"], Some(b_above("9")), None, 0, &chunks), (vec![Vec::new()], 3));
    assert_eq!(query(&["a"], None, None, 9, &chunks), (vec![Vec::new()], 3));
}

#[test]
fn a_table_answers_with_the_rows_of_all_parts() {
    let parts = vec![
        scanned(
            &["b", "a"],
            vec![Ok(vec![ints(&[6, 5]), ints(&[1, 2])]), Ok(vec![ints(&[7]), ints(&[3])])],
        ),
        scanned(&["a", "b"], vec![Ok(vec![ints(&[4, 5]), ints(&[1, 9])])]),
    ];
    let answer = |filter: Option<Expr>, limit: Option<u64>, offset: u64| {
        let shown = vec![proj("a"), scalar("x")];
        let query = match CommandRunner::start_select(
            &table(),
            &shown,
            filter.map(Box::new),
            &None,
            Some(&config()),
            &no_numbers(),
        ) {
            Ok(query) => query,
            Err(e) => panic!("{}", e.to_text()),
        };
        let columns =
            CommandRunner::finish_select(&query, &parts, &None, &config(), limit, offset).unwrap();
        assert_eq!(columns[0].proj, shown[0]);
        assert_eq!(columns[1].proj, shown[1]);
        let x = Value::String("x".to_string());
        assert_eq!(columns[1].data, vec![x; columns[0].data.len()]);
        columns[0].data.clone()
    };
    assert_eq!(answer(None, None, 0), ints(&[1, 2, 3, 4, 5]));
    assert_eq!(answer(Some(b_above("5")), None, 0), ints(&[1, 3, 5]));
    assert_eq!(answer(Some(b_above("5")), Some(1), 1), ints(&[3]));
    assert_eq!(answer(None, Some(9), 3), ints(&[4, 5]));
    assert_eq!(answer(None, Some(0), 0), Vec::<Value>::new());
    assert_eq!(answer(None, None, 5), Vec::<Value>::new());
}

#[test]
fn inserted_rows_are_selected() {
    let insert = |a: &[u32], b: &[u32]| {
        let columns = vec![
            PhysicalColumn { column_def: def("a"), data: ints(a) },
            PhysicalColumn { column_def: def("b"), data: ints(b) },
        ];
        let part = match CommandRunner::insert(Some(&config()), columns) {
            Ok(part) => part,
            Err(e) => panic!("{}", e.to_text()),
        };
        let granules: Vec<Vec<Vec<Value>>> =
            part.data.iter().map(|column| split_granules(&column.data, 2)).collect();
        ScannedPart {
            column_defs: part.info.column_defs,
            granules: Ok((0..granules[0].len())
                .map(|i| Ok(granules.iter().map(|column| column[i].clone()).collect()))
                .collect()),
        }
    };
    let parts = vec![insert(&[3, 1, 2], &[30, 10, 20]), insert(&[1, 4], &[11, 40])];
    let query = match CommandRunner::start_select(
        &table(),
        &vec![proj("b"), proj("a")],
        None,
        &None,
        Some(&config()),
        &no_numbers(),
    ) {
        Ok(query) => query,
        Err(e) => panic!("{}", e.to_text()),
    };
    let columns =
        CommandRunner::finish_select(&query, &parts, &None, &config(), None, 0).unwrap();
    assert_eq!(columns[0].data, ints(&[10, 20, 30, 11, 40]));
    assert_eq!(columns[1].data, ints(&[1, 2, 3, 1, 4]));
}
