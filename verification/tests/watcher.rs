use lazymvn::utils::watcher::{
    build_glob_set, event_matches_patterns, matches_patterns, normalize_patterns,
    should_report_changes,
};
use lazymvn::watcher::matches_glob;

#[test]
fn matches_patterns_supports_nested_paths() {
    let patterns = vec!["src/**/*.java".to_string()];
    assert!(matches_patterns("src/main/java/App.java", &patterns));
    assert!(matches_patterns("app/src/main/java/App.java", &patterns));
    assert!(!matches_patterns("app/target/classes/App.class", &patterns));
}

#[test]
fn matches_patterns_handles_windows_separators() {
    let patterns = vec!["src/**/*.yaml".to_string()];
    assert!(matches_patterns("src\\main\\resources\\application.yaml", &patterns));
}

#[test]
fn test_glob_matching() {
    assert!(matches_glob("test.java", "*.java"));
    assert!(matches_glob("src/main/Test.java", "*.java"));
    assert!(!matches_glob("test.rs", "*.java"));

    assert!(matches_glob("src/main/java/Test.java", "src/**/*.java"));
    assert!(matches_glob("src/test/resources/app.properties", "src/**/*.properties"));
    assert!(!matches_glob("target/test.java", "src/**/*.java"));
}

#[test]
fn normalize_patterns_cleans_and_adds_any_directory_forms() {
    let patterns = vec![
        " ./src\\main\\*.java ".to_string(),
        "".to_string(),
        "   ".to_string(),
        "**/pom.xml".to_string(),
        "src/main/*.java".to_string(),
        "././lib/*.jar".to_string(),
    ];
    let normalized = normalize_patterns(patterns);
    assert_eq!(
        normalized,
        vec![
            "src/main/*.java".to_string(),
            "**/src/main/*.java".to_string(),
            "**/pom.xml".to_string(),
            "lib/*.jar".to_string(),
            "**/lib/*.jar".to_string(),
        ]
    );
}

#[test]
fn normalize_patterns_of_nothing_is_nothing() {
    assert!(normalize_patterns(Vec::new()).is_empty());
    assert!(normalize_patterns(vec![" \t ".to_string()]).is_empty());
}

#[test]
fn normalize_patterns_lists_nothing_twice() {
    let normalized = normalize_patterns(vec![
        "*.xml".to_string(),
        "**/*.xml".to_string(),
        "./*.xml".to_string(),
    ]);
    assert_eq!(normalized, vec!["*.xml".to_string(), "**/*.xml".to_string()]);
}

#[test]
fn build_glob_set_skips_invalid_patterns() {
    assert!(build_glob_set(&[]).is_none());
    assert!(build_glob_set(&["a[".to_string()]).is_none());
    let set = build_glob_set(&["a[".to_string(), "*.java".to_string()]).unwrap();
    assert_eq!(set.len(), 1);
    assert!(set.is_match("App.java"));
    assert!(!set.is_match("App.class"));
}

#[test]
fn matches_patterns_without_usable_pattern_matches_everything() {
    assert!(matches_patterns("anything/at/all.txt", &[]));
    assert!(matches_patterns("anything/at/all.txt", &["[".to_string()]));
}

#[test]
fn event_matches_patterns_cases() {
    let patterns = vec!["*.java".to_string()];
    assert!(event_matches_patterns(&[], &None, &["x.txt".to_string()]));
    assert!(!event_matches_patterns(&patterns, &None, &[]));
    assert!(event_matches_patterns(
        &patterns,
        &None,
        &["a.txt".to_string(), "src/B.java".to_string()]
    ));
    assert!(!event_matches_patterns(&patterns, &None, &["a.txt".to_string()]));
    let set = build_glob_set(&["pom.xml".to_string()]);
    assert!(event_matches_patterns(&patterns, &set, &["pom.xml".to_string()]));
    assert!(!event_matches_patterns(&patterns, &set, &["src/B.java".to_string()]));
}

#[test]
fn should_report_changes_respects_debounce() {
    assert!(!should_report_changes(false, None, 10));
    assert!(should_report_changes(true, None, 10));
    assert!(!should_report_changes(true, Some(9), 10));
    assert!(should_report_changes(true, Some(10), 10));
    assert!(should_report_changes(true, Some(11), 10));
}
