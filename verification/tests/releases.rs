use liao_tools::commands::alta::matcher::HSCodeMatcher;
use liao_tools::commands::updater::{get_file_size, get_platform_download_url, GitHubAsset};
use liao_tools::common::http::HttpClientBuilder;
use std::time::Duration;

fn asset(name: &str, size: u64) -> GitHubAsset {
    GitHubAsset {
        name: name.to_string(),
        browser_download_url: format!("https://example.com/{}", name),
        size,
    }
}

fn assets() -> Vec<GitHubAsset> {
    vec![
        asset("tool_1.0.0_amd64.deb", 10),
        asset("tool_1.0.0_x64.msi", 20),
        asset("tool_1.0.0_x64_setup.exe", 30),
        asset("tool_1.0.0_universal.dmg", 40),
        asset("tool_1.0.0_amd64.AppImage", 50),
        asset("tool_1.0.0_x64_setup.exe", 60),
    ]
}

#[test]
fn test_clean_hs_code() {
    assert_eq!(HSCodeMatcher::clean_hs_code("12-34 56"), "123456");
    assert_eq!(HSCodeMatcher::clean_hs_code("ABC123"), "123");
    assert_eq!(HSCodeMatcher::clean_hs_code("  9876  "), "9876");
}

#[test]
fn the_installer_that_suits_the_platform_best_is_chosen() {
    let all = assets();
    let url = |os: &str, arch: &str| get_platform_download_url(&all, os, arch);
    assert_eq!(url("windows", "x86_64").as_deref(), Some("https://example.com/tool_1.0.0_x64_setup.exe"));
    assert_eq!(url("windows", "aarch64").as_deref(), Some("https://example.com/tool_1.0.0_x64_setup.exe"));
    assert_eq!(url("macos", "aarch64").as_deref(), Some("https://example.com/tool_1.0.0_universal.dmg"));
    assert_eq!(url("macos", "x86_64").as_deref(), Some("https://example.com/tool_1.0.0_universal.dmg"));
    assert_eq!(url("linux", "x86_64").as_deref(), Some("https://example.com/tool_1.0.0_amd64.AppImage"));
    assert_eq!(url("linux", "riscv64").as_deref(), Some("https://example.com/tool_1.0.0_amd64.AppImage"));
    assert_eq!(url("freebsd", "x86_64"), None);
    assert_eq!(get_platform_download_url(&Vec::new(), "linux", "x86_64"), None);
    let only_deb = vec![asset("tool.rpm", 1), asset("tool.deb", 2)];
    assert_eq!(
        get_platform_download_url(&only_deb, "linux", "amd64").as_deref(),
        Some("https://example.com/tool.deb")
    );
    assert_eq!(get_platform_download_url(&only_deb, "windows", "amd64"), None);
}

#[test]
fn the_size_is_that_of_the_first_asset_with_the_address() {
    let all = assets();
    assert_eq!(get_file_size(&all, "https://example.com/tool_1.0.0_x64_setup.exe"), Some(30));
    assert_eq!(get_file_size(&all, "https://example.com/tool_1.0.0_amd64.deb"), Some(10));
    assert_eq!(get_file_size(&all, "https://example.com/none"), None);
    assert_eq!(get_file_size(&Vec::new(), ""), None);
}

#[test]
fn client_settings_start_from_the_usual_ones() {
    let builder = HttpClientBuilder::new();
    assert_eq!(builder.timeout, Duration::from_secs(30));
    assert!(builder.user_agent.starts_with("Mozilla/5.0 (Windows NT 10.0; Win64; x64)"));
    assert!(builder.user_agent.ends_with("Chrome/120.0.0.0 Safari/537.36"));
    let changed = builder.timeout(Duration::from_millis(1500)).user_agent("probe/1.0");
    assert_eq!(changed.timeout, Duration::from_millis(1500));
    assert_eq!(changed.user_agent, "probe/1.0");
    let usual = HttpClientBuilder::default();
    assert_eq!(usual.timeout, Duration::from_secs(30));
}
