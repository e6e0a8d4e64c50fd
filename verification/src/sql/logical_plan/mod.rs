//! Logical plans and how they are made from statements.
pub mod create_database;
pub mod create_table;
pub mod create_table_laws;
pub mod definition_laws;
pub mod drop;
pub mod insert;
pub mod insert_laws;
pub mod plan;
pub mod select;
pub mod select_acceptance_laws;
pub mod select_laws;
