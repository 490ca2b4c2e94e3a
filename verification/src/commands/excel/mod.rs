//! Reading a workbook package's presentation facts and rewriting its first sheet.

pub mod config;
pub mod drawings;
pub mod images;
pub mod media;
pub mod merge_parser;
pub mod package;
pub mod processor;
pub mod reader;
pub mod relationships;
pub mod styles;
pub mod weights;
pub mod worksheet;
pub mod writer;
pub mod xml;
