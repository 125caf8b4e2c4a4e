use lazymvn::utils::logger::reader::get_all_logs;
use lazymvn::ui::state::debug_report::{
    clipboard_tool_label, config_info, copied_report_output, copy_failed_output, debug_footer, debug_header,
    logs_section, system_info, tab_output_section, tab_outputs_heading, version_info,
};

#[test]
fn header_and_footer() {
    let rule = "=".repeat(80);
    assert_eq!(
        debug_header("2024-01-02 03:04:05"),
        vec![rule.clone(), "LazyMVN Debug Report".to_string(), rule.clone(),
             "Generated: 2024-01-02 03:04:05".to_string(), String::new()]
    );
    assert_eq!(debug_footer(), vec![rule.clone(), "End of Debug Report".to_string(), rule]);
}

#[test]
fn version_section_lists_known_metadata() {
    assert_eq!(
        version_info("0.4.0", None, Some("nightly-2024"), None, None, Some("main"), None),
        vec![
            "=== Version Information ===",
            "LazyMVN Version: 0.4.0",
            "Build Tag: nightly-2024",
            "Git Branch: main",
            "",
        ]
    );
}

#[test]
fn system_and_config_sections() {
    assert_eq!(system_info("linux", "x86_64"), vec!["=== System Information ===", "OS: linux", "Architecture: x86_64", ""]);
    assert_eq!(
        config_info("\"/p\"", "None", None, None),
        vec!["=== Configuration ===", "Project root: \"/p\"", "Settings file: None", "Notifications: true", ""]
    );
    assert_eq!(
        config_info("\"/p\"", "Some(\"s.xml\")", Some(false), Some(("Some(\"%p\")", 2))),
        vec![
            "=== Configuration ===",
            "Project root: \"/p\"",
            "Settings file: Some(\"s.xml\")",
            "Notifications: false",
            "Log format: Some(\"%p\")",
            "Package filters: 2 configured",
            "",
        ]
    );
}

#[test]
fn tab_section_shows_last_ten_lines() {
    assert_eq!(tab_outputs_heading(), "=== Tab Outputs ===");
    let output: Vec<String> = (1..=12).map(|i| format!("line {}", i)).collect();
    let r = tab_output_section(0, "\"/p\"", 3, &output);
    assert_eq!(r[0], "--- Tab 1 ---");
    assert_eq!(r[1], "Project: \"/p\"");
    assert_eq!(r[2], "Modules: 3");
    assert_eq!(r[3], "Output lines: 12");
    assert_eq!(r[4], "Last 10 lines:");
    assert_eq!(r[5], "  line 3");
    assert_eq!(r[14], "  line 12");
    assert_eq!(r[15], "");
    assert_eq!(r.len(), 16);
    let empty = tab_output_section(1, "\"/q\"", 0, &[]);
    assert_eq!(empty, vec!["--- Tab 2 ---", "Project: \"/q\"", "Modules: 0", "Output lines: 0", ""]);
}

#[test]
fn logs_and_copy_messages() {
    assert_eq!(
        logs_section("a\nb".to_string()),
        vec!["=== Recent Logs ===", "(Showing DEBUG, INFO, WARN, ERROR - TRACE logs excluded)", "", "a\nb", ""]
    );
    assert_eq!(
        copied_report_output("debug report", 42, "xclip"),
        vec!["✓ Copied debug report to clipboard (42 lines)", "  Tool: xclip"]
    );
    assert_eq!(copy_failed_output("no display"), vec!["❌ Failed to copy to clipboard", "Error: no display"]);
    assert_eq!(clipboard_tool_label("powershell"), "PowerShell");
    assert_eq!(clipboard_tool_label("clip"), "clip.exe");
    assert_eq!(clipboard_tool_label("wl-copy"), "wl-copy");
}

#[test]
fn all_logs_keep_last_500_lines_of_each_file() {
    let debug: Vec<String> = (0..600).map(|i| format!("debug {}", i)).collect();
    let error: Vec<String> = (0..3).map(|i| format!("error {}", i)).collect();
    let s = get_all_logs(Some(Ok(debug)), Some(Ok(error)));
    let mut expected = vec!["=== Debug Logs (last 500 lines) ===".to_string()];
    expected.extend((100..600).map(|i| format!("debug {}", i)));
    expected.push(String::new());
    expected.push("=== Error Logs (last 500 lines) ===".to_string());
    expected.extend((0..3).map(|i| format!("error {}", i)));
    assert_eq!(s, expected.join("\n"));
}

#[test]
fn all_logs_missing_empty_and_unreadable_files() {
    assert_eq!(get_all_logs(None, None), "");
    assert_eq!(
        get_all_logs(Some(Ok(Vec::new())), Some(Err("denied".to_string()))),
        "=== Debug Logs (last 500 lines) ===\n(No debug logs)\n\n=== Error Logs (last 500 lines) ===\nError reading error logs: denied"
    );
}
