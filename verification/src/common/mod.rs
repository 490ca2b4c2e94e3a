//! Helpers that several features share.

pub mod html;
pub mod http;
