//! Values, columns, tables and their encoding on disk.
pub mod column;
pub mod compression;
pub mod frame;
pub mod literal;
pub mod literal_laws;
pub mod numbers;
pub mod output_table;
pub mod part_laws;
pub mod part_name;
pub mod table_def;
pub mod table_metadata;
pub mod table_part;
pub mod tables;
pub mod value;
pub mod value_laws;
