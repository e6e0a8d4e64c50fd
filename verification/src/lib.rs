//! A column-oriented database: the verified core.
pub mod background_merge;
pub mod byte_order;
pub mod config;
pub mod engines;
pub mod error;
pub mod integer_text;
pub mod merge_laws;
pub mod runtime_config;
pub mod search;
pub mod server_laws;
pub mod sql;
pub mod startup;
pub mod startup_laws;
pub mod storage;
pub mod tcp_io_parser;
pub mod text;
pub mod text_laws;
