//! Tests of what is stored and how it is written.
use std::cmp::Ordering;

use touchhouse::engines::EngineName;
use touchhouse::error::Error;
use touchhouse::sql::execution::select::strategy::Strategy;
use touchhouse::storage::column::{ColumnDef, Constraints, OutputColumn, PhysicalColumn};
use touchhouse::storage::compression::{compress_bytes, decompress_bytes, CompressionType};
use touchhouse::storage::frame::{check_frame, frame, unframe, FrameFault};
use touchhouse::storage::numbers::Numbers;
use touchhouse::storage::part_name::{cmp_uuid_strs_asc, order_of_names, time_of_part};
use touchhouse::storage::table_def::TableDef;
use touchhouse::storage::table_metadata::{
    get_unix_time, TableMetadata, TableSchema, TableSettings,
};
use touchhouse::storage::table_part::{
    column_magic_bytes, finish_move, generate_indexes, split_granules, Mark, MarkInfo, TablePart,
    TablePartInfo,
};
use touchhouse::storage::tables::native::{
    collect_columns, decompress_chunk, ChunkPosition, NativeStorage,
};
use touchhouse::storage::tables::virtual_storage::VirtualStorage;
use touchhouse::storage::tables::{Immutable, StorageRead};
use touchhouse::runtime_config::TableConfig;
use touchhouse::storage::value::{Value, ValueType};

fn no_numbers() -> Numbers {
    Numbers { readings: Vec::new() }
}

fn def(name: &str, field_type: ValueType) -> ColumnDef {
    ColumnDef { name: name.to_string(), field_type, constraints: Constraints::default() }
}

fn ints(values: &[u32]) -> Vec<Value> {
    values.iter().map(|v| Value::UInt32(*v)).collect()
}

fn table_def() -> TableDef {
    TableDef { table: "users".to_string(), database: "my_db".to_string() }
}

fn metadata(engine: EngineName, granularity: u32) -> TableMetadata {
    TableMetadata {
        version: 1,
        flags: 0,
        created_at: 0,
        settings: TableSettings { index_granularity: granularity, engine },
        schema: TableSchema {
            columns: vec![def("id", ValueType::UInt32), def("age", ValueType::UInt32)],
            order_by: vec![def("id", ValueType::UInt32)],
            primary_key: vec![def("id", ValueType::UInt32)],
        },
    }
}

fn part_info(name: &str, row_count: u64, granules: usize) -> TablePartInfo {
    TablePartInfo {
        name: name.to_string(),
        row_count,
        marks: (0..granules).map(|_| Mark { index: Vec::new(), info: Vec::new() }).collect(),
        column_defs: vec![def("id", ValueType::UInt32), def("age", ValueType::UInt32)],
    }
}

#[test]
fn should_read_whole() {
    let strategy = Strategy::new(None, 0, 123, true);
    assert_eq!(strategy.lines_to_read, 123);
}

#[test]
fn should_read_only_part() {
    let strategy = Strategy::new(Some(30), 10, 123, false);
    assert_eq!(strategy.lines_to_read, 40);
}

#[test]
fn chunks_are_read_until_there_are_enough_rows() {
    let mut strategy = Strategy::new(Some(30), 10, 123, false);
    assert!(strategy.should_read_next_chunk());
    strategy.set_lines_read(39);
    assert!(strategy.should_read_next_chunk());
    strategy.set_lines_read(40);
    assert!(!strategy.should_read_next_chunk());
}

#[test]
fn compress_decompress() {
    let bytes = b"Hello world";
    let compression_type = CompressionType::LZ4(3);
    assert_eq!(
        decompress_bytes(
            &compress_bytes(bytes, &compression_type).unwrap(),
            &compression_type
        )
        .unwrap(),
        bytes
    );
}

#[test]
fn compression_changes_the_bytes_unless_there_is_none() {
    let bytes = vec![7u8; 4096];
    let packed = compress_bytes(&bytes, &CompressionType::LZ4(3)).unwrap();
    assert!(packed.len() < bytes.len());
    assert_eq!(packed[..4], [0x04, 0x22, 0x4d, 0x18]);
    assert_eq!(decompress_bytes(&packed, &CompressionType::LZ4(3)).unwrap(), bytes);
    let packed = compress_bytes(&[], &CompressionType::LZ4(255)).unwrap();
    assert!(decompress_bytes(&packed, &CompressionType::LZ4(0)).unwrap().is_empty());
    assert_eq!(compress_bytes(&bytes, &CompressionType::Uncompressed).unwrap(), bytes);
    assert_eq!(decompress_bytes(&bytes, &CompressionType::Uncompressed).unwrap(), bytes);
}

#[test]
fn what_is_not_compressed_is_not_decompressed() {
    let result = decompress_bytes(b"no frame of anything", &CompressionType::LZ4(3));
    assert!(matches!(result, Err(Error::CouldNotReadData(_))));
}

#[test]
fn every_type_is_compressed_the_same_way() {
    assert_eq!(ValueType::String.get_optimal_compression(), CompressionType::LZ4(3));
    assert_eq!(ValueType::F64.get_optimal_compression(), CompressionType::LZ4(3));
    assert_eq!(CompressionType::default(), CompressionType::LZ4(3));
}

#[test]
fn a_file_is_magic_bytes_data_and_checksum() {
    let file = frame(b"TH", b"123456789");
    assert_eq!(file[..2], *b"TH");
    assert_eq!(file[2..11], *b"123456789");
    assert_eq!(file[11..], 0xcbf4_3926u32.to_le_bytes());
    assert_eq!(unframe(b"TH", &file), Ok(b"123456789".to_vec()));
    assert_eq!(check_frame(b"TH", &file), Ok(()));
}

#[test]
fn damaged_files_are_refused() {
    let file = frame(b"TH", b"123456789");
    assert_eq!(unframe(b"TH", b""), Err(FrameFault::TooSmall));
    assert_eq!(unframe(b"TH", &frame(b"TH", b"")), Err(FrameFault::TooSmall));
    assert_eq!(unframe(b"HT", &file), Err(FrameFault::InvalidMagic));
    for i in 2..file.len() {
        let mut damaged = file.clone();
        damaged[i] ^= 1;
        assert_eq!(unframe(b"TH", &damaged), Err(FrameFault::CrcMismatch));
        assert_eq!(check_frame(b"TH", &damaged), Err(FrameFault::CrcMismatch));
    }
}

#[test]
fn metadata_files_are_checked() {
    let file = TableMetadata::encode_file(b"data");
    assert_eq!(file[..6], *b"THMETA");
    assert_eq!(TableMetadata::decode_file(&file), Ok(b"data".to_vec()));
    assert_eq!(
        TableMetadata::decode_file(b"THM"),
        Err(Error::CouldNotReadData("Table metadata file too small".to_string()))
    );
    assert_eq!(
        TableMetadata::decode_file(&TablePartInfo::encode_file(b"data")),
        Err(Error::CouldNotReadData("Invalid magic bytes in table metadata".to_string()))
    );
    let mut damaged = file.clone();
    damaged[7] ^= 1;
    assert_eq!(
        TableMetadata::decode_file(&damaged),
        Err(Error::CouldNotReadData("CRC mismatch in table metadata".to_string()))
    );
}

#[test]
fn part_information_files_are_checked() {
    let file = TablePartInfo::encode_file(b"data");
    assert_eq!(file[..6], *b"THINDX");
    assert_eq!(TablePartInfo::decode_file(&file), Ok(b"data".to_vec()));
    assert!(matches!(TablePartInfo::decode_file(b""), Err(Error::CouldNotReadData(_))));
    assert!(matches!(
        TablePartInfo::decode_file(&TableMetadata::encode_file(b"data")),
        Err(Error::CouldNotReadData(_))
    ));
}

#[test]
fn the_clock_gives_the_time_of_creation() {
    assert_eq!(get_unix_time(Some(1_700_000_000_123)), Ok(1_700_000_000_123));
    assert_eq!(get_unix_time(None), Err(Error::SystemTimeWentBackword));
    assert_eq!(get_unix_time(Some(u128::MAX)), Err(Error::SystemTimeWentBackword));
    let m = metadata(EngineName::MergeTree, 8192);
    let made = TableMetadata::try_new(m.schema.clone(), m.settings, Some(5)).unwrap();
    assert_eq!(made.version, 1);
    assert_eq!(made.flags, 0);
    assert_eq!(made.created_at, 5);
    assert_eq!(made.schema, m.schema);
}

#[test]
fn part_names_tell_their_time() {
    // The first 48 bits are milliseconds since the epoch.
    let early = "01856069-0ee7-7c1a-b2a5-b8e2d1b3b0aa";
    let late = "01856069-0ee8-7000-8000-000000000000";
    assert_eq!(time_of_part(early), Some((1_672_359_775, 975_000_000)));
    assert_eq!(time_of_part(late), Some((1_672_359_775, 976_000_000)));
    assert_eq!(time_of_part("123e4567-e89b-42d3-a456-426614174000"), None);
    assert_eq!(time_of_part("raw"), None);
    assert_eq!(cmp_uuid_strs_asc(early, late), Ordering::Less);
    assert_eq!(cmp_uuid_strs_asc(late, early), Ordering::Greater);
    assert_eq!(cmp_uuid_strs_asc(late, late), Ordering::Equal);
    assert_eq!(cmp_uuid_strs_asc("raw", late), Ordering::Equal);
}

#[test]
fn names_are_ordered_by_the_times_given() {
    assert_eq!(order_of_names("a", "b", Some((1, 5)), Some((1, 4))), Ordering::Greater);
    assert_eq!(order_of_names("a", "b", Some((1, 4)), Some((2, 0))), Ordering::Less);
    assert_eq!(order_of_names("a", "a", None, None), Ordering::Equal);
}

#[test]
fn a_part_is_sorted_and_marked() {
    let m = metadata(EngineName::MergeTree, 2);
    let columns = vec![
        PhysicalColumn { column_def: def("id", ValueType::UInt32), data: ints(&[3, 1, 5, 2, 4]) },
        PhysicalColumn {
            column_def: def("age", ValueType::UInt32),
            data: ints(&[30, 10, 50, 20, 40]),
        },
    ];
    let part = TablePart::with_name(&m, columns, "p".to_string()).unwrap();
    assert_eq!(part.info.name, "p");
    assert_eq!(part.info.row_count, 5);
    assert_eq!(part.data[0].data, ints(&[1, 2, 3, 4, 5]));
    assert_eq!(part.data[1].data, ints(&[10, 20, 30, 40, 50]));
    let firsts: Vec<Vec<Value>> = part.info.marks.iter().map(|m| m.index.clone()).collect();
    assert_eq!(firsts, vec![ints(&[1]), ints(&[3]), ints(&[5])]);
}

#[test]
fn a_new_part_gets_a_name_that_tells_its_time() {
    let m = metadata(EngineName::MergeTree, 8192);
    let columns = || {
        vec![PhysicalColumn { column_def: def("id", ValueType::UInt32), data: ints(&[1]) }]
    };
    let first = TablePart::try_new(&m, columns(), None).unwrap();
    let second = TablePart::try_new(&m, columns(), None).unwrap();
    assert!(time_of_part(&first.info.name).is_some());
    assert_ne!(first.info.name, second.info.name);
    let named = TablePart::try_new(&m, columns(), Some("x".to_string())).unwrap();
    assert_eq!(named.info.name, "x");
}

#[test]
fn a_part_needs_columns() {
    let m = metadata(EngineName::MergeTree, 8192);
    let result = TablePart::with_name(&m, Vec::new(), "p".to_string());
    assert_eq!(result, Err(Error::InvalidSource("No columns provided".to_string())));
}

#[test]
fn granules_are_runs_of_rows() {
    let data = ints(&[1, 2, 3, 4, 5]);
    let granules = split_granules(&data, 2);
    assert_eq!(granules, vec![ints(&[1, 2]), ints(&[3, 4]), ints(&[5])]);
    let joined: Vec<Value> = granules.into_iter().flatten().collect();
    assert_eq!(joined, data);
    assert!(split_granules(&Vec::new(), 2).is_empty());
    let columns =
        vec![PhysicalColumn { column_def: def("id", ValueType::UInt32), data: ints(&[1, 2, 3]) }];
    assert_eq!(generate_indexes(&columns, &[def("id", ValueType::UInt32)], 2).len(), 2);
}

#[test]
fn written_columns_read_back() {
    let m = metadata(EngineName::MergeTree, 2);
    let columns = vec![PhysicalColumn {
        column_def: def("id", ValueType::UInt32),
        data: ints(&[1, 2, 3]),
    }];
    let mut part = TablePart::with_name(&m, columns, "p".to_string()).unwrap();
    let granules = vec![Ok(b"first granule".to_vec()), Ok(b"second granule".to_vec())];
    let file = part.write_column_with_marks(&granules).unwrap();
    assert_eq!(file[..6], column_magic_bytes()[..]);
    assert_eq!(PhysicalColumn::validate_mmap(&file, "id"), Ok(()));
    for (i, granule) in granules.iter().enumerate() {
        let read = TablePartInfo::get_granule_bytes_decompressed(
            &file,
            &part.info.marks[i].info[0],
            &CompressionType::LZ4(3),
        );
        assert_eq!(&read, &Ok(granule.clone().unwrap()));
        assert_eq!(
            decompress_chunk(&vec![file.as_slice()], &part.info, i),
            Ok(vec![granule.clone().unwrap()])
        );
    }
}

#[test]
fn faults_of_granules_are_reported() {
    let m = metadata(EngineName::MergeTree, 2);
    let part = || {
        let columns =
            vec![PhysicalColumn { column_def: def("id", ValueType::UInt32), data: ints(&[1]) }];
        TablePart::with_name(&m, columns, "p".to_string()).unwrap()
    };
    assert_eq!(
        part().write_column_with_marks(&vec![Err("broken".to_string())]),
        Err(Error::CouldNotInsertData("Could not serialize data: broken".to_string()))
    );
    assert_eq!(
        part().write_column_with_marks(&vec![Ok(vec![1]), Ok(vec![2])]),
        Err(Error::CouldNotInsertData(
            "Invalid number of granules. Most probably different column sizes".to_string()
        ))
    );
    let outside = MarkInfo { start: 5, end: 50 };
    assert!(matches!(
        TablePartInfo::get_granule_bytes_decompressed(&[0; 10], &outside, &CompressionType::LZ4(3)),
        Err(Error::CouldNotReadData(_))
    ));
    assert!(matches!(
        PhysicalColumn::validate_mmap(b"nothing", "id"),
        Err(Error::CouldNotReadData(_))
    ));
}

#[test]
fn parts_have_their_directories() {
    let m = metadata(EngineName::MergeTree, 2);
    let columns =
        vec![PhysicalColumn { column_def: def("id", ValueType::UInt32), data: ints(&[1]) }];
    let part = TablePart::with_name(&m, columns, "p".to_string()).unwrap();
    assert_eq!(part.get_raw_dir(&table_def()), ["my_db", "users", "raw", "p"]);
    assert_eq!(part.get_normal_dir(&table_def()), ["my_db", "users", "p"]);
    assert_eq!(
        part.info.get_column_path(&table_def(), &def("id", ValueType::UInt32)),
        ["my_db", "users", "p", "id.bin"]
    );
}

#[test]
fn a_part_that_cannot_be_moved_is_forgotten() {
    let mut infos = vec![part_info("a", 1, 1)];
    let m = metadata(EngineName::MergeTree, 2);
    let columns =
        vec![PhysicalColumn { column_def: def("id", ValueType::UInt32), data: ints(&[1]) }];
    let part = TablePart::with_name(&m, columns, "b".to_string()).unwrap();
    let name = part.move_to_normal(&mut infos);
    assert_eq!(infos.len(), 2);
    assert_eq!(
        finish_move(&mut infos, &name, Err("busy".to_string())),
        Err(Error::CouldNotInsertData("Failed to move part directory: busy".to_string()))
    );
    assert_eq!(infos, vec![part_info("a", 1, 1)]);
    assert_eq!(finish_move(&mut infos, "a", Ok(())), Ok(()));
    assert_eq!(infos.len(), 1);
}

#[test]
fn tables_have_paths_and_names() {
    assert_eq!(table_def().get_path(), ["my_db", "users"]);
    assert_eq!(table_def().to_text(), "my_db.users");
    assert_eq!(table_def().exists_or_err(true, true), Ok(()));
    assert_eq!(table_def().exists_or_err(false, true), Err(Error::DatabaseNotFound));
    assert_eq!(table_def().exists_or_err(true, false), Err(Error::TableNotFound));
}

#[test]
fn every_granule_of_a_table_is_read_once() {
    let config = TableConfig {
        metadata: metadata(EngineName::MergeTree, 2),
        infos: vec![part_info("a", 3, 2), part_info("b", 2, 1)],
    };
    let table = table_def();
    let mut storage = match NativeStorage::<Immutable>::try_from(&table, Some(&config)) {
        Ok(storage) => storage,
        Err(e) => panic!("{}", e.to_text()),
    };
    assert_eq!(storage.get_total_rows(), 5);
    let mut seen = Vec::new();
    while let Some(position) = storage.advance_chunk_metadata() {
        seen.push(position);
    }
    assert_eq!(
        seen,
        vec![
            ChunkPosition { part_idx: 0, granule_idx: 0 },
            ChunkPosition { part_idx: 0, granule_idx: 1 },
            ChunkPosition { part_idx: 1, granule_idx: 0 },
        ]
    );
    assert!(matches!(
        NativeStorage::<Immutable>::try_from(&table, None),
        Err(Error::TableNotFound)
    ));
}

#[test]
fn the_result_of_a_query_is_read_in_granules() {
    let column = PhysicalColumn {
        column_def: def("id", ValueType::UInt32),
        data: (0..10_000).map(Value::UInt32).collect(),
    };
    let output: OutputColumn = column.into_output_column();
    let proj = output.proj.clone();
    let mut storage = VirtualStorage::from(vec![output], &no_numbers());
    assert_eq!(storage.get_total_rows(), 10_000);
    let mut sizes = Vec::new();
    let mut rows = Vec::new();
    while storage.load_next_chunk() {
        let chunk = storage.access_chunk_column(&proj, &no_numbers()).unwrap();
        sizes.push(chunk.len());
        rows.extend(chunk);
    }
    assert_eq!(sizes, [8192, 1808]);
    assert_eq!(rows, (0..10_000).map(Value::UInt32).collect::<Vec<_>>());
}

#[test]
fn a_column_that_the_result_lacks_is_reported() {
    let column = |name: &str| PhysicalColumn {
        column_def: def(name, ValueType::UInt32),
        data: ints(&[1]),
    };
    let mut storage = VirtualStorage::from(vec![column("id").into_output_column()], &no_numbers());
    assert!(storage.load_next_chunk());
    let other = column("age").into_output_column().proj;
    assert_eq!(
        storage.access_chunk_column(&other, &no_numbers()),
        Err(Error::Internal(
            "Tried to access column with proj: Projection { alias: None, \
             source: ColumnDef(ColumnDef { name: \"age\", field_type: UInt32, \
             constraints: Constraints { nullable: true, default: None, \
             compression_type: LZ4(3) } }) }, but this column is not found."
                .to_string()
        ))
    );
}

#[test]
fn compressed_bytes_are_given_back() {
    for bytes in [Vec::new(), vec![0u8; 1], (0..=255u8).cycle().take(10_000).collect::<Vec<u8>>()] {
        for t in [CompressionType::Uncompressed, CompressionType::LZ4(0), CompressionType::LZ4(9)] {
            let packed = compress_bytes(&bytes, &t).unwrap();
            assert_eq!(decompress_bytes(&packed, &t), Ok(bytes.clone()));
        }
    }
}

#[test]
fn compressed_granules_are_appended_until_one_fails() {
    let m = metadata(EngineName::MergeTree, 2);
    let part = || {
        let columns = vec![PhysicalColumn {
            column_def: def("id", ValueType::UInt32),
            data: ints(&[1, 2, 3]),
        }];
        TablePart::with_name(&m, columns, "p".to_string()).unwrap()
    };
    let marks = |part: &TablePart| -> Vec<Vec<(u64, u64)>> {
        let bounds = |m: &Mark| m.info.iter().map(|i| (i.start, i.end)).collect();
        part.info.marks.iter().map(bounds).collect()
    };
    let broken = Error::CouldNotInsertData("broken".to_string());
    let mut whole = part();
    let file = whole.append_granules(&vec![Ok(b"abc".to_vec()), Ok(b"de".to_vec())]);
    assert_eq!(file, Ok(frame(&column_magic_bytes(), b"abcde")));
    assert_eq!(marks(&whole), [[(6, 9)], [(9, 11)]]);
    let mut half = part();
    let granules = vec![Ok(b"abc".to_vec()), Err(broken.clone())];
    assert_eq!(half.append_granules(&granules), Err(broken.clone()));
    assert_eq!(marks(&half), [vec![(6, 9)], Vec::new()]);
    let mut none = part();
    assert_eq!(none.append_granules(&vec![Err(broken.clone())]), Err(broken));
    assert_eq!(none, part());
    let mut many = part();
    let granules = vec![Ok(Vec::new()), Ok(Vec::new()), Ok(Vec::new())];
    assert_eq!(
        many.append_granules(&granules),
        Err(Error::CouldNotInsertData(
            "Invalid number of granules. Most probably different column sizes".to_string()
        ))
    );
    assert_eq!(marks(&many), [[(6, 6)], [(6, 6)]]);
    let mut unwritten = part();
    let granules = vec![Err("no bytes".to_string()), Ok(vec![1])];
    assert_eq!(
        unwritten.write_column_with_marks(&granules),
        Err(Error::CouldNotInsertData("Could not serialize data: no bytes".to_string()))
    );
    assert_eq!(unwritten, part());
}

#[test]
fn a_chunk_needs_every_column() {
    let broken = Error::CouldNotReadData("broken".to_string());
    assert_eq!(
        collect_columns(vec![Ok(vec![1]), Ok(Vec::new())]),
        Ok(vec![vec![1], Vec::new()])
    );
    assert_eq!(
        collect_columns(vec![Ok(vec![1]), Err(broken.clone()), Err(Error::EmptySource)]),
        Err(broken)
    );
    let plain = |name: &str| ColumnDef {
        constraints: Constraints {
            compression_type: CompressionType::Uncompressed,
            ..Constraints::default()
        },
        ..def(name, ValueType::UInt32)
    };
    let info = |first: (u64, u64), second: (u64, u64)| TablePartInfo {
        name: "p".to_string(),
        row_count: 1,
        marks: vec![Mark {
            index: Vec::new(),
            info: [first, second].map(|(start, end)| MarkInfo { start, end }).to_vec(),
        }],
        column_defs: vec![plain("a"), plain("b")],
    };
    let files: Vec<&[u8]> = vec![b"abcdef", b"xyz"];
    assert_eq!(
        decompress_chunk(&files, &info((1, 3), (0, 3)), 0),
        Ok(vec![b"bc".to_vec(), b"xyz".to_vec()])
    );
    assert_eq!(
        decompress_chunk(&files, &info((3, 1), (0, 9)), 0),
        Err(Error::CouldNotReadData("Invalid mark bounds: end (1) < start (3)".to_string()))
    );
    assert_eq!(
        decompress_chunk(&files, &info((1, 3), (0, 9)), 0),
        Err(Error::CouldNotReadData("Mark end (9) exceeds file size (3)".to_string()))
    );
}
