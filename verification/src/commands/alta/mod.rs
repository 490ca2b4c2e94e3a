//! The forbidden-goods lookup.

pub mod excel;
pub mod matcher;
