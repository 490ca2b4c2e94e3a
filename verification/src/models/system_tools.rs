//! Records of the launcher for tools that ship with the operating system.

use vstd::prelude::*;

verus! {

/// A tool of the operating system that the launcher can start.
#[derive(Debug, Clone)]
pub struct SystemTool {
    pub id: String,
    pub name: String,
    pub description: String,
    /// Name of the icon to show.
    pub icon: String,
    pub category: String,
    /// The platforms on which the tool exists.
    pub platform: Vec<String>,
    pub enabled: bool,
    pub command: String,
    pub args: Option<Vec<String>>,
    pub hotkey: Option<String>,
}

/// The outcome of starting a tool.
#[derive(Debug)]
pub struct LaunchToolResult {
    pub success: bool,
    pub tool_id: String,
    pub message: String,
    pub error: Option<String>,
}

} // verus!
