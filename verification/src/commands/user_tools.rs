//! The launcher's view of a tool, whatever its kind.

use vstd::prelude::*;

verus! {

/// A tool as the launcher shows it; `tool_type` is `system` or `custom`.
#[derive(Debug, Clone)]
pub struct DisplayTool {
    pub tool_type: String,
    pub id: String,
    pub name: String,
    pub description: String,
    pub icon: String,
    pub category: String,
    pub platform: Vec<String>,
    pub enabled: bool,
    pub command: Option<String>,
    pub executable_path: Option<String>,
    pub args: Option<Vec<String>>,
    pub arguments: Option<String>,
    pub hotkey: Option<String>,
    pub order: Option<i32>,
}

} // verus!
