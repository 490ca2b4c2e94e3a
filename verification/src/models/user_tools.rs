//! Records of the launcher for the user's own tools.

use vstd::prelude::*;

verus! {

/// A program the user added to the launcher.
#[derive(Debug, Clone)]
pub struct UserTool {
    pub id: Option<i64>,
    pub name: String,
    pub description: String,
    /// The icon, base64-encoded.
    pub icon: Option<String>,
    pub executable_path: String,
    pub arguments: Option<String>,
    pub working_directory: Option<String>,
    pub category: String,
    pub order: i32,
    pub hotkey: Option<String>,
    pub enabled: bool,
    pub platform: String,
    pub created_at: String,
    pub updated_at: String,
    pub last_launched_at: Option<String>,
    pub launch_count: i32,
}

/// A program that was started recently, with how often.
#[derive(Debug, Clone)]
pub struct RecentProgram {
    pub path: String,
    pub name: String,
    pub last_used: String,
    pub usage_count: i32,
}

/// What is needed to add a tool.
#[derive(Debug)]
pub struct CreateUserToolRequest {
    pub name: String,
    pub description: String,
    pub icon: Option<String>,
    pub executable_path: String,
    pub arguments: Option<String>,
    pub working_directory: Option<String>,
    pub category: String,
    pub hotkey: Option<String>,
}

/// What is needed to change a tool.
#[derive(Debug)]
pub struct UpdateUserToolRequest {
    pub id: i64,
    pub name: String,
    pub description: String,
    pub icon: Option<String>,
    pub executable_path: String,
    pub arguments: Option<String>,
    pub working_directory: Option<String>,
    pub category: String,
    pub hotkey: Option<String>,
    pub enabled: bool,
}

} // verus!
