//! Execution of plans.
pub mod create;
pub mod definition_laws;
pub mod drop;
pub mod insert;
pub mod insert_laws;
pub mod read_laws;
pub mod select;
pub mod table_scan;
pub mod table_scan_laws;
