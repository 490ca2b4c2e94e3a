//! Spreadsheet-package metadata extraction and template-preserving
//! transformation, with the small data models and helpers that surround it.

pub mod commands;
pub mod common;
pub mod models;
pub mod numeric;
pub mod text;
pub mod text_map;
