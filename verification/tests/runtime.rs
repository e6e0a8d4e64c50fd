//! Tests of the running database: its start, its merges, its commands and its connections.
use touchhouse::background_merge::{BackgroundMerge, MergeOutcome, MoveStep, PartMove};
use touchhouse::config::{log_startup_info, reject_32bit_systems, Config, LogLevel, SocketAddress};
use touchhouse::engines::EngineName;
use touchhouse::error::Error;
use touchhouse::runtime_config::{ComplexityGuard, TableConfig};
use touchhouse::sql::command_runner::CommandRunner;
use touchhouse::sql::execution::create::{CreateTableStart, DirectoryFault};
use touchhouse::sql::execution::drop::RemoveFault;
use touchhouse::startup::{
    load_all_parts_on_startup, load_existing_parts, part_action, DatabaseEntry, NamedTable,
    PartAction, PartEntry, TableEntry,
};
use touchhouse::storage::column::{ColumnDef, Constraints, OutputColumn, PhysicalColumn};
use touchhouse::storage::output_table::OutputTable;
use touchhouse::storage::table_def::TableDef;
use touchhouse::storage::table_metadata::{TableMetadata, TableSchema, TableSettings};
use touchhouse::storage::table_part::{Mark, TablePartInfo};
use touchhouse::storage::value::{Value, ValueType};
use touchhouse::tcp_io_parser::{connection_action, ConnectionAction, Parser, ProtocolError};

const FIRST: &str = "01856069-0ee7-7c1a-b2a5-b8e2d1b3b0aa";
const SECOND: &str = "01856069-0ee8-7000-8000-000000000000";

fn id() -> ColumnDef {
    ColumnDef {
        name: "id".to_string(),
        field_type: ValueType::UInt32,
        constraints: Constraints::default(),
    }
}

fn metadata(engine: EngineName) -> TableMetadata {
    TableMetadata {
        version: 1,
        flags: 0,
        created_at: 7,
        settings: TableSettings { index_granularity: 8192, engine },
        schema: TableSchema { columns: vec![id()], order_by: vec![id()], primary_key: vec![id()] },
    }
}

fn info(name: &str) -> TablePartInfo {
    TablePartInfo {
        name: name.to_string(),
        row_count: 2,
        marks: vec![Mark { index: Vec::new(), info: Vec::new() }],
        column_defs: vec![id()],
    }
}

fn table_def() -> TableDef {
    TableDef { table: "t".to_string(), database: "d".to_string() }
}

fn named(infos: Vec<TablePartInfo>, engine: EngineName) -> NamedTable {
    NamedTable { table: table_def(), config: TableConfig { metadata: metadata(engine), infos } }
}

fn ints(values: &[u32]) -> Vec<Value> {
    values.iter().map(|v| Value::UInt32(*v)).collect()
}

fn column(values: &[u32]) -> PhysicalColumn {
    PhysicalColumn { column_def: id(), data: ints(values) }
}

#[test]
fn entries_of_a_table_are_told_apart() {
    assert_eq!(part_action(FIRST, true), PartAction::Load);
    assert_eq!(part_action(FIRST, false), PartAction::Skip);
    assert_eq!(part_action(".metadata", true), PartAction::Skip);
    assert_eq!(part_action("raw", true), PartAction::RemoveRaw);
    assert_eq!(part_action(&PartMove::old_name(FIRST), true), PartAction::ReportOld);
    assert_eq!(part_action("x.OLD", true), PartAction::ReportOld);
}

fn listing(parts: Vec<Result<PartEntry, String>>) -> Result<Vec<Result<DatabaseEntry, String>>, String> {
    Ok(vec![
        Ok(DatabaseEntry { name: "file".to_string(), is_dir: false, tables: Ok(Vec::new()) }),
        Ok(DatabaseEntry {
            name: "d".to_string(),
            is_dir: true,
            tables: Ok(vec![Ok(TableEntry {
                name: "t".to_string(),
                is_dir: true,
                metadata: Ok(metadata(EngineName::MergeTree)),
                parts: Ok(parts),
            })]),
        }),
    ])
}

fn entry(name: &str, read: Option<Result<TablePartInfo, Error>>) -> Result<PartEntry, String> {
    Ok(PartEntry { name: name.to_string(), is_dir: true, read })
}

#[test]
fn parts_that_can_be_read_are_loaded() {
    let found = load_all_parts_on_startup(
        true,
        &listing(vec![
            entry(FIRST, Some(Ok(info(FIRST)))),
            entry("raw", None),
            entry(&PartMove::old_name(SECOND), None),
            entry(SECOND, Some(Err(Error::CouldNotReadData("damaged".to_string())))),
        ]),
    );
    match found {
        Ok(tables) => {
            assert_eq!(tables.len(), 1);
            assert_eq!(tables[0].table, table_def());
            assert_eq!(tables[0].config.metadata, metadata(EngineName::MergeTree));
            assert_eq!(tables[0].config.infos, vec![info(FIRST)]);
        }
        Err(e) => panic!("{}", e.to_text()),
    }
}

#[test]
fn a_storage_directory_that_cannot_be_read_stops_the_start() {
    let broken = Err("denied".to_string());
    assert!(load_all_parts_on_startup(true, &broken).is_err());
    match load_existing_parts("db_files", true, &broken) {
        Err(text) => assert!(text.contains("denied")),
        Ok(_) => panic!("started"),
    }
    match load_existing_parts("db_files", false, &Ok(Vec::new())) {
        Err(text) => assert!(text.contains("db_files")),
        Ok(tables) => assert!(tables.is_empty()),
    }
}

#[test]
fn merges_wait_while_the_database_is_busy() {
    assert!(BackgroundMerge::is_available(4, 5));
    assert!(!BackgroundMerge::is_available(5, 5));
    assert!(
        BackgroundMerge::pause_after(MergeOutcome::Merged)
            <= BackgroundMerge::pause_after(MergeOutcome::NothingToMerge)
    );
}

#[test]
fn the_two_oldest_parts_are_merged() {
    let tables = vec![named(vec![info(SECOND), info(FIRST)], EngineName::MergeTree)];
    match BackgroundMerge::find_parts_to_merge(&tables) {
        Some(parts) => {
            assert_eq!(parts.table_def, table_def());
            let mut names = [parts.part_1_info.name, parts.part_2_info.name];
            names.sort();
            assert_eq!(names, [FIRST, SECOND]);
        }
        None => panic!("nothing to merge"),
    }
    let tables = vec![named(vec![info(FIRST)], EngineName::MergeTree)];
    assert!(BackgroundMerge::find_parts_to_merge(&tables).is_none());
}

#[test]
fn merged_rows_are_those_of_both_parts() {
    let combined = BackgroundMerge::combine_cols(vec![column(&[1, 3])], &vec![column(&[2, 3])]);
    assert_eq!(combined, vec![column(&[1, 3, 2, 3])]);
    for (engine, rows) in [
        (EngineName::MergeTree, ints(&[1, 2, 3, 3])),
        (EngineName::ReplacingMergeTree, ints(&[1, 2, 3])),
    ] {
        let tables = vec![named(vec![info(FIRST), info(SECOND)], engine)];
        let parts = BackgroundMerge::find_parts_to_merge(&tables).unwrap();
        match BackgroundMerge::merge(&parts, vec![column(&[1, 3])], &vec![column(&[2, 3])]) {
            Some(Ok(part)) => {
                assert_eq!(part.data[0].data, rows);
                assert_eq!(part.info.row_count as usize, rows.len());
            }
            Some(Err(e)) => panic!("{}", e.to_text()),
            None => panic!("not merged"),
        }
    }
}

#[test]
fn a_column_of_the_later_part_starts_with_defaults() {
    let age = |data: Vec<Value>| PhysicalColumn {
        column_def: ColumnDef {
            name: "age".to_string(),
            field_type: ValueType::UInt32,
            constraints: Constraints { default: Some(Value::UInt32(7)), ..Constraints::default() },
        },
        data,
    };
    let merged = vec![column(&[1, 2, 3]), age(ints(&[7, 7, 30]))];
    let later = || vec![column(&[3]), age(ints(&[30]))];
    assert_eq!(BackgroundMerge::combine_cols(vec![column(&[1, 2])], &later()), merged);
    let later: Vec<PhysicalColumn> = later().into_iter().rev().collect();
    assert_eq!(BackgroundMerge::combine_cols(vec![column(&[1, 2])], &later), merged);
}

#[test]
fn granules_of_a_part_are_joined_again() {
    let chunks = vec![vec![ints(&[1, 2])], vec![ints(&[3])]];
    assert_eq!(BackgroundMerge::load_part_cols(&info(FIRST), &chunks), vec![column(&[1, 2, 3])]);
}

fn start_move(infos: &Vec<TablePartInfo>) -> PartMove {
    let tables = vec![named(infos.clone(), EngineName::MergeTree)];
    let parts = BackgroundMerge::find_parts_to_merge(&tables).unwrap();
    let new_part =
        match BackgroundMerge::merge(&parts, vec![column(&[1])], &vec![column(&[2])]) {
            Some(Ok(part)) => part,
            _ => panic!("not merged"),
        };
    PartMove::new(&parts, &new_part)
}

#[test]
fn a_merged_part_replaces_its_parts() {
    let mut infos = vec![info(FIRST), info(SECOND)];
    let mut moving = start_move(&infos);
    let mut steps = Vec::new();
    while !matches!(moving.step, MoveStep::Replaced | MoveStep::Abandoned) {
        steps.push(moving.step);
        moving.advance(&mut infos, true);
    }
    assert_eq!(
        steps,
        [
            MoveStep::SetFirstAside,
            MoveStep::SetSecondAside,
            MoveStep::MoveNew,
            MoveStep::RemoveFirst,
            MoveStep::RemoveSecond,
        ]
    );
    assert_eq!(moving.step, MoveStep::Replaced);
    assert_eq!(infos, vec![moving.new_info.clone()]);
}

#[test]
fn a_merge_that_fails_changes_nothing() {
    for failing in [MoveStep::SetFirstAside, MoveStep::SetSecondAside, MoveStep::MoveNew] {
        let before = vec![info(FIRST), info(SECOND)];
        let mut infos = before.clone();
        let mut moving = start_move(&infos);
        while !matches!(moving.step, MoveStep::Replaced | MoveStep::Abandoned) {
            let succeeded = moving.step != failing;
            moving.advance(&mut infos, succeeded);
        }
        assert_eq!(moving.step, MoveStep::Abandoned);
        let mut names: Vec<&str> = infos.iter().map(|i| i.name.as_str()).collect();
        names.sort();
        assert_eq!(names, [FIRST, SECOND]);
    }
}

#[test]
fn the_load_is_given_back() {
    let guard = ComplexityGuard::new(3);
    let load = guard.acquire(4);
    assert_eq!(load, 7);
    assert_eq!(guard.release(load), 4);
    assert_eq!(guard.release(guard.acquire(usize::MAX)), usize::MAX);
}

#[test]
fn databases_are_made_once() {
    let ok = OutputColumn::build_ok_vec();
    assert_eq!(CommandRunner::create_database("d", false, Ok(())), Ok(ok.clone()));
    let exists = || Err(DirectoryFault::AlreadyExists);
    assert_eq!(
        CommandRunner::create_database("d", false, exists()),
        Err(Error::DatabaseAlreadyExists)
    );
    assert_eq!(CommandRunner::create_database("d", true, exists()), Ok(ok));
    assert_eq!(
        CommandRunner::create_database("d", true, Err(DirectoryFault::PermissionDenied)),
        Err(Error::PermissionDenied)
    );
    assert_eq!(CommandRunner::check_database_name("a/b"), Err(Error::InvalidDatabaseName));
    assert_eq!(CommandRunner::check_database_name("a_b"), Ok(()));
}

#[test]
fn tables_are_made_once() {
    let start = |exists: bool, if_not_exists: bool| {
        CommandRunner::create_table(
            exists,
            if_not_exists,
            vec![id()],
            TableSettings::default(),
            vec![id()],
            vec![id()],
            Some(7),
        )
    };
    match start(false, false) {
        CreateTableStart::Make(made) => {
            assert_eq!(made, metadata(EngineName::MergeTree));
            let end = CommandRunner::finish_table(made, Ok(()), Ok(()));
            assert_eq!(end.answer, Ok(OutputColumn::build_ok_vec()));
            assert!(!end.remove_directory);
            assert!(end.config.unwrap().infos.is_empty());
        }
        CreateTableStart::Answer(_) => panic!("not made"),
    }
    match start(true, false) {
        CreateTableStart::Answer(answer) => assert_eq!(answer, Err(Error::TableAlreadyExists)),
        CreateTableStart::Make(_) => panic!("made twice"),
    }
    match start(true, true) {
        CreateTableStart::Answer(answer) => assert_eq!(answer, Ok(OutputColumn::build_ok_vec())),
        CreateTableStart::Make(_) => panic!("made twice"),
    }
    let fault = Err(Error::CouldNotInsertData("full".to_string()));
    let end = CommandRunner::finish_table(metadata(EngineName::MergeTree), Ok(()), fault);
    assert!(end.answer.is_err());
    assert!(end.config.is_none());
    assert!(end.remove_directory);
}

#[test]
fn dropping_needs_something_to_drop() {
    let ok = Ok(OutputColumn::build_ok_vec());
    assert_eq!(CommandRunner::drop_unknown_table(false), Err(Error::TableNotFound));
    assert_eq!(CommandRunner::drop_unknown_table(true), ok);
    assert_eq!(CommandRunner::drop_table(Ok(()), false), ok);
    assert_eq!(CommandRunner::drop_database(Ok(()), false), ok);
    assert_eq!(
        CommandRunner::drop_database(Err(RemoveFault::NotFound), false),
        Err(Error::DatabaseNotFound)
    );
    assert_eq!(CommandRunner::drop_database(Err(RemoveFault::NotFound), true), ok);
    assert!(CommandRunner::outlives(&table_def(), "other"));
    assert!(!CommandRunner::outlives(&table_def(), "d"));
}

#[test]
fn inserted_rows_become_a_part() {
    let config = TableConfig { metadata: metadata(EngineName::MergeTree), infos: Vec::new() };
    match CommandRunner::insert(Some(&config), vec![column(&[2, 1])]) {
        Ok(part) => assert_eq!(part.data, vec![column(&[1, 2])]),
        Err(e) => panic!("{}", e.to_text()),
    }
    assert_eq!(
        CommandRunner::insert(None, vec![column(&[2, 1])]),
        Err(Error::TableNotFound)
    );
    assert_eq!(CommandRunner::insert_answer(Ok(())), Ok(OutputColumn::build_ok_vec()));
}

#[test]
fn an_answer_of_one_word_says_that_all_went_well() {
    let table = OutputTable::build_ok();
    assert_eq!(table.columns, OutputColumn::build_ok_vec());
    assert_eq!(table.columns.len(), 1);
    assert_eq!(table.columns[0].data, vec![Value::String("OK".to_string())]);
}

#[test]
fn messages_are_framed_by_their_length() {
    let message = Parser::encode(b"SELECT 1");
    assert_eq!(message[..8], 8u64.to_le_bytes());
    assert_eq!(message[8..], *b"SELECT 1");
    match Parser::decode(&message) {
        Ok(Some((text, used))) => {
            assert_eq!(text, "SELECT 1");
            assert_eq!(used, message.len());
        }
        _ => panic!("not read"),
    }
    for n in 0..message.len() {
        assert!(matches!(Parser::decode(&message[..n]), Ok(None)));
    }
}

#[test]
fn bytes_that_are_no_text_are_replaced() {
    let message = Parser::encode(&[b'a', 0xff, b'b']);
    match Parser::decode(&message) {
        Ok(Some((text, _))) => assert_eq!(text, "a\u{fffd}b"),
        _ => panic!("not read"),
    }
}

#[test]
fn a_connection_ends_with_exit() {
    assert!(matches!(connection_action(Ok("exit".to_string())), ConnectionAction::Close));
    assert!(matches!(
        connection_action(Ok("SELECT 1".to_string())),
        ConnectionAction::Execute(command) if command == "SELECT 1"
    ));
    let broken = Err(ProtocolError::IOError("reset".to_string()));
    assert!(!matches!(connection_action(broken), ConnectionAction::Execute(_)));
}

fn config(log_level: u8) -> Config {
    Config {
        tcp_socket: SocketAddress { octets: (127, 0, 0, 1), port: 7070 },
        storage_directory: "db_files/".to_string(),
        log_level,
        max_connections: 100,
        background_merge_available_under: 5,
    }
}

#[test]
fn the_configuration_is_reported() {
    let c = config(1);
    assert_eq!(c.get_tcp_socket_addr().to_text(), "127.0.0.1:7070");
    assert_eq!(c.get_db_dir(), "db_files/");
    assert_eq!(c.get_max_connections(), 100);
    assert_eq!(c.get_background_merge_available_under(), 5);
    assert_eq!(c.get_log_level(), LogLevel::Info);
    assert_eq!(config(2).get_log_level(), LogLevel::Warn);
    assert_eq!(config(3).get_log_level(), LogLevel::Error);
    let lines = log_startup_info(&c);
    assert!(lines.iter().any(|l| l.contains("127.0.0.1:7070")));
    assert!(lines.iter().any(|l| l.contains("db_files/")));
    assert_eq!(reject_32bit_systems(), Ok(()));
}
