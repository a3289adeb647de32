//! Table functions in SQL text: resolving them to generated table names,
//! reading spreadsheets into typed columns, and writing result sets out as
//! `INSERT` and `UPDATE` statements.
pub mod args;
pub mod context;
pub mod date_utils;
pub mod error;
pub mod excel;
pub mod file_utils;
pub mod generator;
pub mod parse;
pub mod query;
pub mod text;
pub mod timestamp;
