use lazymvn::utils::logger::formatters::{
    build_session_marker, format_log_line, is_line_from_session, is_trace_log_line, LogLevel,
};
use lazymvn::ui::state::launcher_config::{
    add_logback_logging_args, build_jvm_args_for_launcher, log4j_config_arg, needs_log4j_config,
    path_to_file_url, spring_config_arg, spring_properties_with_log_format,
};
use lazymvn::ui::state::project_tab::{get_short_title, get_title};
use lazymvn::utils::logger::file_ops::{rotate_backups, should_delete_old_log, BackupStep};

fn pair(a: &str, b: &str) -> (String, String) {
    (a.to_string(), b.to_string())
}

#[test]
fn test_path_to_file_url_unix() {
    let url = path_to_file_url("/tmp/project/config.properties", false);
    assert_eq!(url, "file:///tmp/project/config.properties");
}

#[test]
fn test_path_to_file_url_windows() {
    let url = path_to_file_url(r"C:\Projects\App\config.properties", true);
    assert_eq!(url, "file:///C:/Projects/App/config.properties");
}

#[test]
fn logging_level_args_per_package() {
    let mut args = vec!["-Xmx1g".to_string()];
    add_logback_logging_args(&[pair("com.acme", "DEBUG"), pair("org.x", "WARN")], &mut args);
    assert_eq!(
        args,
        vec![
            "-Xmx1g",
            "-Dlogging.level.com.acme=DEBUG",
            "-Dlog4j.logger.com.acme=DEBUG",
            "-Dlogging.level.org.x=WARN",
            "-Dlog4j.logger.org.x=WARN",
        ]
    );
}

#[test]
fn spring_properties_get_log_format() {
    let props = vec![
        pair("server.port", "8081"),
        pair("logging.pattern.console", "%m"),
        pair("logging.pattern.file", "%m"),
    ];
    let (out, inserted) = spring_properties_with_log_format(props.clone(), Some("%d %p %m%n"));
    assert!(inserted);
    assert_eq!(
        out,
        vec![
            pair("server.port", "8081"),
            pair("logging.pattern.console", "%d %p %m%n"),
            pair("logging.pattern.file", "%d %p %m%n"),
        ]
    );
    let (same, inserted) = spring_properties_with_log_format(props.clone(), None);
    assert!(!inserted);
    assert_eq!(same, props);
}

#[test]
fn launcher_args_order() {
    let args = build_jvm_args_for_launcher(
        &["-javaagent:agent.jar".to_string()],
        Some(log4j_config_arg("file:///tmp/log4j.properties")),
        &[pair("com.acme", "INFO")],
        Some(spring_config_arg("file:///tmp/app.properties")),
    );
    assert_eq!(
        args,
        vec![
            "-javaagent:agent.jar",
            "-Dlog4j.ignoreTCL=true",
            "-Dlog4j.defaultInitOverride=true",
            "-Dlog4j.configuratorClass=org.apache.log4j.PropertyConfigurator",
            "-Dlog4j.configuration=file:///tmp/log4j.properties",
            "-Dlogging.level.com.acme=INFO",
            "-Dlog4j.logger.com.acme=INFO",
            "-Dspring.config.additional-location=file:///tmp/app.properties",
        ]
    );
    let plain = build_jvm_args_for_launcher(&["-javaagent:agent.jar".to_string()], None, &[], None);
    assert!(plain.is_empty());
    assert!(needs_log4j_config(1, false));
    assert!(needs_log4j_config(0, true));
    assert!(!needs_log4j_config(0, false));
}

#[test]
fn tab_titles() {
    assert_eq!(get_title(Some("shop"), Some("main")), "shop (main)");
    assert_eq!(get_title(None, None), "???");
    assert_eq!(get_short_title("shop (main)", 20), "shop (main)");
    assert_eq!(get_short_title("shop (feature/long)", 10), "shop (f...");
    assert_eq!(get_short_title("abcdef", 2), "...");
}

#[test]
fn old_log_cleanup_and_rotation() {
    assert!(should_delete_old_log(Some("debug.log.2"), 10, 20));
    assert!(!should_delete_old_log(Some("debug.log.2"), 30, 20));
    assert!(!should_delete_old_log(Some("debug.log"), 10, 20));
    assert!(!should_delete_old_log(None, 10, 20));
    assert_eq!(
        rotate_backups(),
        vec![
            BackupStep::Remove(5),
            BackupStep::Shift(4),
            BackupStep::Shift(3),
            BackupStep::Shift(2),
            BackupStep::Shift(1),
        ]
    );
}

#[test]
fn written_lines_are_recognised_by_session_and_level() {
    let id = Some("20240101-120000-123".to_string());
    let marker = build_session_marker("20240101-120000-123");
    let line = format_log_line(LogLevel::Trace, "tick", "2024-01-01 12:00:00.000", &id);
    assert_eq!(line, "[SESSION:20240101-120000-123] [2024-01-01 12:00:00.000] TRACE - tick");
    assert!(is_line_from_session(&line, &marker));
    assert!(is_trace_log_line(&line));
    let plain = format_log_line(LogLevel::Info, "hello", "ts", &None);
    assert_eq!(plain, "[ts] INFO - hello");
    assert!(!is_trace_log_line(&plain));
    assert!(!is_line_from_session(&plain, &marker));
}
