//! Plain data carried between the operations and their callers.

pub mod alta;
pub mod excel;
pub mod system_tools;
pub mod tax;
pub mod ups_dpd;
pub mod user_tools;
