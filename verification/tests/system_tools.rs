use liao_tools::commands::system_tools::{
    check_tool_available, get_linux_tools, get_macos_tools, get_windows_tools, launch_outcome,
    tool_to_launch,
};

#[test]
fn each_platform_has_its_tools() {
    let windows = get_windows_tools();
    let ids: Vec<&str> = windows.iter().map(|t| t.id.as_str()).collect();
    assert_eq!(ids, vec!["calculator", "notepad", "paint", "taskmgr", "settings", "explorer"]);
    assert!(windows.iter().all(|t| t.enabled && t.platform == vec!["windows".to_string()]));
    assert_eq!(windows[0].name, "计算器");
    assert_eq!(windows[0].command, "calc.exe");
    assert_eq!(windows[0].hotkey.as_deref(), Some("Ctrl+Alt+C"));
    assert_eq!(windows[2].hotkey, None);
    assert_eq!(
        windows[4].args,
        Some(vec!["/c".to_string(), "start".to_string(), "ms-settings:".to_string()])
    );
    assert_eq!(windows[5].description, "浏览文件和文件夹");

    let macos = get_macos_tools();
    let ids: Vec<&str> = macos.iter().map(|t| t.id.as_str()).collect();
    assert_eq!(ids, vec!["calculator", "notes", "system-preferences", "activity-monitor", "finder"]);
    assert!(macos.iter().all(|t| t.command == "open" && t.hotkey.is_none()));
    assert_eq!(macos[2].args, Some(vec!["System Preferences".to_string()]));
    assert_eq!(macos[3].args, Some(vec!["-a".to_string(), "Activity Monitor".to_string()]));
    assert_eq!(macos[1].category, "utility");

    let linux = get_linux_tools();
    let commands: Vec<&str> = linux.iter().map(|t| t.command.as_str()).collect();
    assert_eq!(commands, vec!["gnome-calculator", "gnome-control-center", "nautilus"]);
    assert!(linux.iter().all(|t| t.args.is_none() && t.platform == vec!["linux".to_string()]));
    assert_eq!(linux[2].icon, "folder");
}

#[test]
fn a_tool_is_started_only_if_it_is_there_and_switched_on() {
    let mut tools = get_linux_tools();
    assert!(check_tool_available(&tools, "settings"));
    assert!(!check_tool_available(&tools, "notepad"));
    assert_eq!(tool_to_launch(&tools, "settings").unwrap().command, "gnome-control-center");
    let missing = tool_to_launch(&tools, "notepad").unwrap_err();
    assert_eq!((missing.code.as_str(), missing.message.as_str()), ("NOT_FOUND", "工具 notepad 未找到"));
    tools[1].enabled = false;
    assert!(check_tool_available(&tools, "settings"));
    let off = tool_to_launch(&tools, "settings").unwrap_err();
    assert_eq!((off.code.as_str(), off.message.as_str()), ("DISABLED", "工具 系统设置 未启用"));
}

#[test]
fn the_outcome_of_a_start_is_reported() {
    let tools = get_windows_tools();
    let started = launch_outcome(&tools[1], None).unwrap();
    assert!(started.success);
    assert_eq!(started.tool_id, "notepad");
    assert_eq!(started.message, "记事本 启动成功");
    assert_eq!(started.error, None);
    let failed = launch_outcome(&tools[1], Some("no such file")).unwrap_err();
    assert_eq!(failed.code, "LAUNCH_ERROR");
    assert_eq!(failed.message, "启动 记事本 失败: no such file");
}
