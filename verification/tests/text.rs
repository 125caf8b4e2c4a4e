use lazymvn::utils::text::log_parser::{clean_log_line, extract_package_from_log_line};

#[test]
fn text_strips_ansi_sequences() {
    let input = "\u{1b}[31mRed\u{1b}[0m text";
    let result = clean_log_line(input);
    assert_eq!(result, Some("Red text".to_string()));
}

#[test]
fn text_strips_carriage_returns() {
    let input = "Hello\rWorld";
    let result = clean_log_line(input);
    assert_eq!(result, Some("HelloWorld".to_string()));
}

#[test]
fn text_trims_trailing_space() {
    let input = "Test line   ";
    let result = clean_log_line(input);
    assert_eq!(result, Some("Test line".to_string()));
}

#[test]
fn test_extract_package_from_various_formats() {
    let test_cases = vec![
        // Standard format with full package names
        ("[INFO] com.example.service.UserService - User created", Some("com.example.service.UserService")),
        ("[ERROR] org.springframework.boot.SpringApplication - Failed to start", Some("org.springframework.boot.SpringApplication")),
        // Custom packages with known TLDs
        ("[WARN] test.package.Something - Warning message", None), // 'test' is not a recognized TLD
        ("[WARN] fr.laposte.disf.uid - Warning message", Some("fr.laposte.disf.uid")),
        // Test case with consecutive brackets (common format)
        ("[INFO][fr.foo.bar] Message", Some("fr.foo.bar")),
        ("[DEBUG][com.example.MyClass] Debug", Some("com.example.MyClass")),
        // Java standard packages
        ("[INFO] java.util.ArrayList - Message", Some("java.util.ArrayList")),
        ("[DEBUG] javax.servlet.http.HttpServlet - Message", Some("javax.servlet.http.HttpServlet")),
        // Spring framework
        ("[INFO] org.springframework.context.annotation.AnnotationConfigApplicationContext - Message", Some("org.springframework.context.annotation.AnnotationConfigApplicationContext")),
        // Simple class name without package (should NOT match)
        ("[DEBUG] MyClass - Debug info", None),
    ];

    let log_format = "[%p] %c - %m%n";

    for (log_line, expected_package) in test_cases {
        let result = extract_package_from_log_line(log_line, log_format);

        match expected_package {
            Some(expected) => {
                assert!(result.is_some(), "Should extract package from: {}", log_line);
                let (_start, _end, pkg) = result.unwrap();
                assert_eq!(pkg, expected, "Package mismatch for line: {}", log_line);

                // Verify that the package name doesn't start with '[' (common mistake)
                assert!(
                    !pkg.starts_with('['),
                    "Package name should not start with '[': {}",
                    pkg
                );
            }
            None => {
                assert!(result.is_none(), "Should NOT extract package from: {}", log_line);
            }
        }
    }
}

#[test]
fn test_extract_package_format_independent() {
    // Test that extraction works regardless of log format
    let test_cases = vec![
        // No brackets
        ("INFO com.example.Service message", Some("com.example.Service")),
        // Different separators
        ("2024-10-30 10:00:00 [INFO] org.apache.kafka.Consumer - Started", Some("org.apache.kafka.Consumer")),
        // Timestamp first
        ("10:00:00.123 DEBUG fr.laposte.Service Processing", Some("fr.laposte.Service")),
        // Package in middle of line
        ("Some text com.google.common.collect.ImmutableList more text", Some("com.google.common.collect.ImmutableList")),
        // Jakarta EE
        ("INFO jakarta.persistence.EntityManager transaction", Some("jakarta.persistence.EntityManager")),
    ];

    for (log_line, expected_package) in test_cases {
        let result = extract_package_from_log_line(log_line, "[%p] %c - %m%n");

        if let Some(expected) = expected_package {
            assert!(result.is_some(), "Should extract package from: {}", log_line);
            let (_start, _end, pkg) = result.unwrap();
            assert_eq!(pkg, expected, "Package mismatch for line: {}", log_line);
        }
    }
}

#[test]
fn mod_strips_ansi_sequences() {
    let input = "\u{1b}[31mRed\u{1b}[0m text";
    let result = clean_log_line(input);
    assert_eq!(result, Some("Red text".to_string()));
}

#[test]
fn mod_strips_carriage_returns() {
    let input = "Hello\rWorld";
    let result = clean_log_line(input);
    assert_eq!(result, Some("HelloWorld".to_string()));
}

#[test]
fn mod_trims_trailing_space() {
    let input = "Test line   ";
    let result = clean_log_line(input);
    assert_eq!(result, Some("Test line".to_string()));
}
