//! The tariff lookup.

pub mod query;
pub mod scraper;
