//! The tools that ship with each operating system, and the decisions around
//! starting one.

use crate::commands::error::{CommandError, ErrorModel};
use crate::models::system_tools::{LaunchToolResult, SystemTool};
use crate::text::str_eq;
use crate::text::text_of;
use vstd::prelude::*;

verus! {

/// What a `SystemTool` says.
pub struct ToolModel {
    pub id: Seq<char>,
    pub name: Seq<char>,
    pub description: Seq<char>,
    pub icon: Seq<char>,
    pub category: Seq<char>,
    pub platform: Seq<Seq<char>>,
    pub enabled: bool,
    pub command: Seq<char>,
    pub args: Option<Seq<Seq<char>>>,
    pub hotkey: Option<Seq<char>>,
}

/// A list of strings, read as texts.
pub open spec fn words_of(list: Seq<String>) -> Seq<Seq<char>> {
    list.map_values(|s: String| s@)
}

/// An optional list of strings, read as texts.
pub open spec fn optional_words(list: Option<Vec<String>>) -> Option<Seq<Seq<char>>> {
    match list {
        Some(l) => Some(words_of(l@)),
        None => None,
    }
}

impl View for SystemTool {
    type V = ToolModel;

    open spec fn view(&self) -> ToolModel {
        ToolModel {
            id: self.id@,
            name: self.name@,
            description: self.description@,
            icon: self.icon@,
            category: self.category@,
            platform: words_of(self.platform@),
            enabled: self.enabled,
            command: self.command@,
            args: optional_words(self.args),
            hotkey: text_of(self.hotkey),
        }
    }
}

/// What a list of tools says.
pub open spec fn tools_model(tools: Seq<SystemTool>) -> Seq<ToolModel> {
    tools.map_values(|t: SystemTool| t@)
}

/// An enabled tool of one platform.
pub open spec fn tool_model(
    id: Seq<char>,
    name: Seq<char>,
    description: Seq<char>,
    icon: Seq<char>,
    category: Seq<char>,
    platform: Seq<char>,
    command: Seq<char>,
    args: Option<Seq<Seq<char>>>,
    hotkey: Option<Seq<char>>,
) -> ToolModel {
    ToolModel {
        id,
        name,
        description,
        icon,
        category,
        platform: seq![platform],
        enabled: true,
        command,
        args,
        hotkey,
    }
}

/// The strings that hold the given texts, of which there are at most three.
fn words(first: &str, second: Option<&str>, third: Option<&str>) -> (list: Vec<String>)
    requires
        third is Some ==> second is Some,
    ensures
        words_of(list@) == (match (second, third) {
            (Some(s), Some(t)) => seq![first@, s@, t@],
            (Some(s), None) => seq![first@, s@],
            _ => seq![first@],
        }),
{
    let mut list: Vec<String> = Vec::new();
    list.push(String::from_str(first));
    match second {
        Some(s) => {
            list.push(String::from_str(s));
        },
        None => {},
    }
    match third {
        Some(t) => {
            list.push(String::from_str(t));
        },
        None => {},
    }
    assert(words_of(list@) =~= (match (second, third) {
        (Some(s), Some(t)) => seq![first@, s@, t@],
        (Some(s), None) => seq![first@, s@],
        _ => seq![first@],
    }));
    list
}

/// An enabled tool of one platform.
fn tool(
    id: &str,
    name: &str,
    description: &str,
    icon: &str,
    category: &str,
    platform: &str,
    command: &str,
    args: Option<Vec<String>>,
    hotkey: Option<&str>,
) -> (made: SystemTool)
    ensures
        made@ == tool_model(
            id@,
            name@,
            description@,
            icon@,
            category@,
            platform@,
            command@,
            optional_words(args),
            match hotkey {
                Some(h) => Some(h@),
                None => None,
            },
        ),
{
    let mut platforms: Vec<String> = Vec::new();
    platforms.push(String::from_str(platform));
    assert(words_of(platforms@) =~= seq![platform@]);
    SystemTool {
        id: String::from_str(id),
        name: String::from_str(name),
        description: String::from_str(description),
        icon: String::from_str(icon),
        category: String::from_str(category),
        platform: platforms,
        enabled: true,
        command: String::from_str(command),
        args,
        hotkey: match hotkey {
            Some(h) => Some(String::from_str(h)),
            None => None,
        },
    }
}

/// The tools that ship with Windows.
pub open spec fn windows_tools() -> Seq<ToolModel> {
    seq![
        tool_model(
            "calculator"@,
            "计算器"@,
            "执行基本和科学计算"@,
            "calculator"@,
            "utility"@,
            "windows"@,
            "calc.exe"@,
            None,
            Some("Ctrl+Alt+C"@),
        ),
        tool_model(
            "notepad"@,
            "记事本"@,
            "文本编辑器"@,
            "notepad"@,
            "utility"@,
            "windows"@,
            "notepad.exe"@,
            None,
            Some("Ctrl+Alt+N"@),
        ),
        tool_model(
            "paint"@,
            "画图"@,
            "图像编辑和绘制"@,
            "paintbrush"@,
            "media"@,
            "windows"@,
            "mspaint.exe"@,
            None,
            None,
        ),
        tool_model(
            "taskmgr"@,
            "任务管理器"@,
            "监控和管理系统进程"@,
            "activity"@,
            "system"@,
            "windows"@,
            "taskmgr.exe"@,
            None,
            Some("Ctrl+Shift+Esc"@),
        ),
        tool_model(
            "settings"@,
            "系统设置"@,
            "Windows 设置"@,
            "settings"@,
            "system"@,
            "windows"@,
            "cmd"@,
            Some(seq!["/c"@, "start"@, "ms-settings:"@]),
            Some("Win+I"@),
        ),
        tool_model(
            "explorer"@,
            "文件资源管理器"@,
            "浏览文件和文件夹"@,
            "folder"@,
            "system"@,
            "windows"@,
            "explorer.exe"@,
            None,
            Some("Win+E"@),
        ),
    ]
}

/// The tools that ship with Windows.
pub fn get_windows_tools() -> (tools: Vec<SystemTool>)
    ensures
        tools_model(tools@) == windows_tools(),
{
    let mut tools: Vec<SystemTool> = Vec::new();
    tools.push(
        tool(
            "calculator",
            "计算器",
            "执行基本和科学计算",
            "calculator",
            "utility",
            "windows",
            "calc.exe",
            None,
            Some("Ctrl+Alt+C"),
        ),
    );
    tools.push(
        tool(
            "notepad",
            "记事本",
            "文本编辑器",
            "notepad",
            "utility",
            "windows",
            "notepad.exe",
            None,
            Some("Ctrl+Alt+N"),
        ),
    );
    tools.push(
        tool(
            "paint",
            "画图",
            "图像编辑和绘制",
            "paintbrush",
            "media",
            "windows",
            "mspaint.exe",
            None,
            None,
        ),
    );
    tools.push(
        tool(
            "taskmgr",
            "任务管理器",
            "监控和管理系统进程",
            "activity",
            "system",
            "windows",
            "taskmgr.exe",
            None,
            Some("Ctrl+Shift+Esc"),
        ),
    );
    tools.push(
        tool(
            "settings",
            "系统设置",
            "Windows 设置",
            "settings",
            "system",
            "windows",
            "cmd",
            Some(words("/c", Some("start"), Some("ms-settings:"))),
            Some("Win+I"),
        ),
    );
    tools.push(
        tool(
            "explorer",
            "文件资源管理器",
            "浏览文件和文件夹",
            "folder",
            "system",
            "windows",
            "explorer.exe",
            None,
            Some("Win+E"),
        ),
    );
    proof {
        assert(tools_model(tools@) =~= windows_tools());
    }
    tools
}

/// The tools that ship with macOS.
pub open spec fn macos_tools() -> Seq<ToolModel> {
    seq![
        tool_model(
            "calculator"@,
            "计算器"@,
            "执行基本和科学计算"@,
            "calculator"@,
            "utility"@,
            "macos"@,
            "open"@,
            Some(seq!["-a"@, "Calculator"@]),
            None,
        ),
        tool_model(
            "notes"@,
            "备忘录"@,
            "记录笔记和想法"@,
            "notepad"@,
            "utility"@,
            "macos"@,
            "open"@,
            Some(seq!["-a"@, "Notes"@]),
            None,
        ),
        tool_model(
            "system-preferences"@,
            "系统偏好设置"@,
            "macOS 设置"@,
            "settings"@,
            "system"@,
            "macos"@,
            "open"@,
            Some(seq!["System Preferences"@]),
            None,
        ),
        tool_model(
            "activity-monitor"@,
            "活动监视器"@,
            "监控系统资源使用"@,
            "activity"@,
            "system"@,
            "macos"@,
            "open"@,
            Some(seq!["-a"@, "Activity Monitor"@]),
            None,
        ),
        tool_model(
            "finder"@,
            "访达"@,
            "浏览文件和文件夹"@,
            "folder"@,
            "system"@,
            "macos"@,
            "open"@,
            Some(seq!["-a"@, "Finder"@]),
            None,
        ),
    ]
}

/// The tools that ship with macOS.
pub fn get_macos_tools() -> (tools: Vec<SystemTool>)
    ensures
        tools_model(tools@) == macos_tools(),
{
    let mut tools: Vec<SystemTool> = Vec::new();
    tools.push(
        tool(
            "calculator",
            "计算器",
            "执行基本和科学计算",
            "calculator",
            "utility",
            "macos",
            "open",
            Some(words("-a", Some("Calculator"), None)),
            None,
        ),
    );
    tools.push(
        tool(
            "notes",
            "备忘录",
            "记录笔记和想法",
            "notepad",
            "utility",
            "macos",
            "open",
            Some(words("-a", Some("Notes"), None)),
            None,
        ),
    );
    tools.push(
        tool(
            "system-preferences",
            "系统偏好设置",
            "macOS 设置",
            "settings",
            "system",
            "macos",
            "open",
            Some(words("System Preferences", None, None)),
            None,
        ),
    );
    tools.push(
        tool(
            "activity-monitor",
            "活动监视器",
            "监控系统资源使用",
            "activity",
            "system",
            "macos",
            "open",
            Some(words("-a", Some("Activity Monitor"), None)),
            None,
        ),
    );
    tools.push(
        tool(
            "finder",
            "访达",
            "浏览文件和文件夹",
            "folder",
            "system",
            "macos",
            "open",
            Some(words("-a", Some("Finder"), None)),
            None,
        ),
    );
    proof {
        assert(tools_model(tools@) =~= macos_tools());
    }
    tools
}

/// The tools that ship with Linux.
pub open spec fn linux_tools() -> Seq<ToolModel> {
    seq![
        tool_model(
            "calculator"@,
            "计算器"@,
            "执行基本计算"@,
            "calculator"@,
            "utility"@,
            "linux"@,
            "gnome-calculator"@,
            None,
            None,
        ),
        tool_model(
            "settings"@,
            "系统设置"@,
            "系统配置"@,
            "settings"@,
            "system"@,
            "linux"@,
            "gnome-control-center"@,
            None,
            None,
        ),
        tool_model(
            "file-manager"@,
            "文件管理器"@,
            "浏览文件"@,
            "folder"@,
            "system"@,
            "linux"@,
            "nautilus"@,
            None,
            None,
        ),
    ]
}

/// The tools that ship with Linux.
pub fn get_linux_tools() -> (tools: Vec<SystemTool>)
    ensures
        tools_model(tools@) == linux_tools(),
{
    let mut tools: Vec<SystemTool> = Vec::new();
    tools.push(
        tool(
            "calculator",
            "计算器",
            "执行基本计算",
            "calculator",
            "utility",
            "linux",
            "gnome-calculator",
            None,
            None,
        ),
    );
    tools.push(
        tool(
            "settings",
            "系统设置",
            "系统配置",
            "settings",
            "system",
            "linux",
            "gnome-control-center",
            None,
            None,
        ),
    );
    tools.push(
        tool(
            "file-manager",
            "文件管理器",
            "浏览文件",
            "folder",
            "system",
            "linux",
            "nautilus",
            None,
            None,
        ),
    );
    proof {
        assert(tools_model(tools@) =~= linux_tools());
    }
    tools
}

/// The index of the first tool with the id `id`, or the number of tools.
pub open spec fn tool_index(tools: Seq<SystemTool>, id: Seq<char>) -> int
    decreases tools.len(),
{
    if tools.len() == 0 {
        0
    } else if tools[0].id@ == id {
        0
    } else {
        1 + tool_index(tools.skip(1), id)
    }
}

/// Where the first tool with an id stands is where none before it has it.
pub proof fn lemma_tool_index(tools: Seq<SystemTool>, id: Seq<char>, at: int)
    requires
        0 <= at <= tools.len(),
        forall|k: int| 0 <= k < at ==> tools[k].id@ != id,
        at < tools.len() ==> tools[at].id@ == id,
    ensures
        tool_index(tools, id) == at,
    decreases tools.len(),
{
    if tools.len() > 0 && at > 0 {
        assert(tools[0].id@ != id);
        let rest = tools.skip(1);
        assert forall|k: int| 0 <= k < at - 1 implies rest[k].id@ != id by {
            assert(rest[k] == tools[k + 1]);
        }
        lemma_tool_index(rest, id, at - 1);
    }
}

/// The index of the first tool with the id `id`.
fn find_tool(tools: &Vec<SystemTool>, id: &str) -> (at: usize)
    ensures
        at == tool_index(tools@, id@),
        at <= tools@.len(),
{
    let mut at: usize = 0;
    while at < tools.len() && !str_eq(tools[at].id.as_str(), id)
        invariant
            at <= tools@.len(),
            forall|k: int| 0 <= k < at ==> tools@[k].id@ != id@,
        decreases tools@.len() - at,
    {
        at += 1;
    }
    proof {
        lemma_tool_index(tools@, id@, at as int);
    }
    at
}

/// Whether a tool with the id `tool_id` is among `tools`.
pub fn check_tool_available(tools: &Vec<SystemTool>, tool_id: &str) -> (available: bool)
    ensures
        available == (tool_index(tools@, tool_id@) < tools@.len()),
{
    find_tool(tools, tool_id) < tools.len()
}

/// The tool to start for the id `tool_id`: the first with that id. An id
/// that no tool has is a `NOT_FOUND` error, a tool that is switched off a
/// `DISABLED` one.
pub fn tool_to_launch<'a>(tools: &'a Vec<SystemTool>, tool_id: &str) -> (found: Result<
    &'a SystemTool,
    CommandError,
>)
    ensures
        match found {
            Ok(tool) => tool_index(tools@, tool_id@) < tools@.len() && *tool
                == tools@[tool_index(tools@, tool_id@)] && tool.enabled,
            Err(error) => if tool_index(tools@, tool_id@) < tools@.len() {
                !tools@[tool_index(tools@, tool_id@)].enabled && error@ == (ErrorModel {
                    message: "工具 "@ + tools@[tool_index(tools@, tool_id@)].name@ + " 未启用"@,
                    code: "DISABLED"@,
                })
            } else {
                error@ == (ErrorModel {
                    message: "工具 "@ + tool_id@ + " 未找到"@,
                    code: "NOT_FOUND"@,
                })
            },
        },
{
    let at = find_tool(tools, tool_id);
    if at >= tools.len() {
        let mut message = String::from_str("工具 ");
        message.append(tool_id);
        message.append(" 未找到");
        return Err(CommandError::new(message.as_str(), "NOT_FOUND"));
    }
    let tool = &tools[at];
    if !tool.enabled {
        let mut message = String::from_str("工具 ");
        message.append(tool.name.as_str());
        message.append(" 未启用");
        return Err(CommandError::new(message.as_str(), "DISABLED"));
    }
    Ok(tool)
}

/// What is reported after trying to start `tool`: success, or a
/// `LAUNCH_ERROR` with the reason the system gave.
pub fn launch_outcome(tool: &SystemTool, failure: Option<&str>) -> (outcome: Result<
    LaunchToolResult,
    CommandError,
>)
    ensures
        match outcome {
            Ok(result) => failure is None && result.success && result.tool_id@ == tool.id@
                && result.message@ == tool.name@ + " 启动成功"@ && result.error is None,
            Err(error) => failure is Some && error@ == (ErrorModel {
                message: "启动 "@ + tool.name@ + " 失败: "@ + failure->Some_0@,
                code: "LAUNCH_ERROR"@,
            }),
        },
{
    match failure {
        None => {
            let mut message = tool.name.clone();
            message.append(" 启动成功");
            Ok(LaunchToolResult { success: true, tool_id: tool.id.clone(), message, error: None })
        },
        Some(why) => {
            let mut message = String::from_str("启动 ");
            message.append(tool.name.as_str());
            message.append(" 失败: ");
            message.append(why);
            Err(CommandError::new(message.as_str(), "LAUNCH_ERROR"))
        },
    }
}

} // verus!
