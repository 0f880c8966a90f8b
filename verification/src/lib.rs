//! edix: key-based reconciliation of two sheets of cells.

pub mod config;
pub mod diff;
pub mod excel_diff;
pub mod fuzzy;
pub mod io;
pub mod laws;
pub mod loading;
pub mod report;
pub mod text;
pub mod types;
pub mod formatter;
pub mod commands;
pub mod application;
