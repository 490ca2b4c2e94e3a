//! Filling carrier templates.

pub mod dpd_processor;
pub mod dpd_processor_v2;
pub mod field_mappings;
pub mod template_manager;
pub mod ups_processor;
pub mod ups_processor_v2;
