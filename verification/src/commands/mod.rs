//! Operations, grouped by the feature they serve.

pub mod alta;
pub mod error;
pub mod excel;
pub mod installed_apps;
pub mod system_tools;
pub mod tax;
pub mod updater;
pub mod ups_dpd;
pub mod user_tools;
