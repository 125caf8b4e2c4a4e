use lazymvn::utils::text::log_parser::{colorize_log_line, colorize_log_line_with_format};
use lazymvn::utils::text::styled::TextStyle;
use lazymvn::utils::text::xml_formatter::colorize_xml_line;
use lazymvn::ui::theme::style_for_text;

#[test]
fn text_colorize_log_line_handles_plain_text() {
    let line = colorize_log_line("Plain text");
    assert_eq!(line.len(), 1);
}

#[test]
fn text_colorize_log_line_highlights_info() {
    let line = colorize_log_line("This is [INFO] message");
    assert!(line.len() >= 2);
}

#[test]
fn text_colorize_log_line_highlights_debug() {
    let line = colorize_log_line("This is [DEBUG] message");
    assert!(line.len() >= 2);
    assert!(line.iter().any(|s| s.1 == "[DEBUG]"));
}

#[test]
fn text_colorize_log_line_highlights_warning() {
    let line = colorize_log_line("This is [WARNING] message");
    assert!(line.len() >= 2);
}

#[test]
fn text_colorize_log_line_highlights_error() {
    let line = colorize_log_line("This is [ERROR] message");
    assert!(line.len() >= 2);
}

#[test]
fn text_test_colorize_xml_declaration() {
    let line = colorize_xml_line("<?xml version=\"1.0\"?>");
    assert!(!line.is_empty());
}

#[test]
fn text_test_colorize_xml_opening_tag() {
    let line = colorize_xml_line("<project>");
    assert!(line.len() >= 3);
}

#[test]
fn text_test_colorize_xml_closing_tag() {
    let line = colorize_xml_line("</project>");
    assert!(line.len() >= 3);
}

#[test]
fn text_test_colorize_xml_with_attributes() {
    let line = colorize_xml_line("<project xmlns=\"http://maven.apache.org\">");
    assert!(line.len() >= 4);
}

#[test]
fn text_test_colorize_xml_comment() {
    let line = colorize_xml_line("<!-- This is a comment -->");
    assert_eq!(line.len(), 1);
}

#[test]
fn text_test_colorize_log_line_with_package() {
    let log_format = "[%p] %c - %m%n";
    let log_line = "[INFO] com.example.MyClass - Starting application";
    let line = colorize_log_line_with_format(log_line, Some(log_format));
    assert!(line.len() >= 3);
    let has_package = line.iter().any(|span| span.1.contains("com.example.MyClass"));
    assert!(has_package, "Package name should be present in spans");
}

#[test]
fn text_test_colorize_log_line_with_short_logger() {
    let log_format = "[%p] %c{1} - %m%n";
    let log_line = "[DEBUG] com.example.MyClass - Debug message";
    let line = colorize_log_line_with_format(log_line, Some(log_format));
    assert!(line.len() >= 3);
    let has_package = line.iter().any(|span| span.1.contains("com.example.MyClass"));
    assert!(has_package, "Package name should be present in spans");
}

#[test]
fn text_test_colorize_log_line_without_format() {
    let log_line = "[INFO] Some message";
    let line = colorize_log_line_with_format(log_line, None);
    assert!(line.len() >= 2);
}

#[test]
fn mod_colorize_log_line_handles_plain_text() {
    let line = colorize_log_line("Plain text");
    assert_eq!(line.len(), 1);
}

#[test]
fn mod_colorize_log_line_highlights_info() {
    let line = colorize_log_line("This is [INFO] message");
    assert!(line.len() >= 2);
}

#[test]
fn mod_colorize_log_line_highlights_debug() {
    let line = colorize_log_line("This is [DEBUG] message");
    assert!(line.len() >= 2);
    assert!(line.iter().any(|s| s.1 == "[DEBUG]"));
}

#[test]
fn mod_colorize_log_line_highlights_warning() {
    let line = colorize_log_line("This is [WARNING] message");
    assert!(line.len() >= 2);
}

#[test]
fn mod_colorize_log_line_highlights_error() {
    let line = colorize_log_line("This is [ERROR] message");
    assert!(line.len() >= 2);
}

#[test]
fn mod_test_colorize_xml_declaration() {
    let line = colorize_xml_line("<?xml version=\"1.0\"?>");
    assert!(!line.is_empty());
}

#[test]
fn mod_test_colorize_xml_opening_tag() {
    let line = colorize_xml_line("<project>");
    assert!(line.len() >= 3);
}

#[test]
fn mod_test_colorize_xml_closing_tag() {
    let line = colorize_xml_line("</project>");
    assert!(line.len() >= 3);
}

#[test]
fn mod_test_colorize_xml_with_attributes() {
    let line = colorize_xml_line("<project xmlns=\"http://maven.apache.org\">");
    assert!(line.len() >= 4);
}

#[test]
fn mod_test_colorize_xml_comment() {
    let line = colorize_xml_line("<!-- This is a comment -->");
    assert_eq!(line.len(), 1);
}

#[test]
fn mod_test_colorize_log_line_with_package() {
    let log_format = "[%p] %c - %m%n";
    let log_line = "[INFO] com.example.MyClass - Starting application";
    let line = colorize_log_line_with_format(log_line, Some(log_format));
    assert!(line.len() >= 3);
    let has_package = line.iter().any(|span| span.1.contains("com.example.MyClass"));
    assert!(has_package, "Package name should be present in spans");
}

#[test]
fn mod_test_colorize_log_line_with_short_logger() {
    let log_format = "[%p] %c{1} - %m%n";
    let log_line = "[DEBUG] com.example.MyClass - Debug message";
    let line = colorize_log_line_with_format(log_line, Some(log_format));
    assert!(line.len() >= 3);
    let has_package = line.iter().any(|span| span.1.contains("com.example.MyClass"));
    assert!(has_package, "Package name should be present in spans");
}

#[test]
fn mod_test_colorize_log_line_without_format() {
    let log_line = "[INFO] Some message";
    let line = colorize_log_line_with_format(log_line, None);
    assert!(line.len() >= 2);
}

#[test]
fn test_colorize_plain_text() {
    let line = colorize_xml_line("plain text");
    assert_eq!(line.len(), 1);
}

#[test]
fn test_colorize_simple_tag() {
    let line = colorize_xml_line("<tag>");
    assert!(!line.is_empty());
    assert!(line.len() >= 3);
}

#[test]
fn test_colorize_closing_tag() {
    let line = colorize_xml_line("</tag>");
    assert!(!line.is_empty());
    assert!(line.len() >= 3);
}

#[test]
fn test_colorize_tag_with_attributes() {
    let line = colorize_xml_line("<tag attr=\"value\">");
    assert!(!line.is_empty());
    assert!(line.len() >= 5);
}

#[test]
fn xml_formatter_test_colorize_xml_declaration() {
    let line = colorize_xml_line("<?xml version=\"1.0\"?>");
    assert!(!line.is_empty());
    assert_eq!(line.len(), 1);
}

#[test]
fn xml_formatter_test_colorize_xml_comment() {
    let line = colorize_xml_line("<!-- comment -->");
    assert!(!line.is_empty());
    assert_eq!(line.len(), 1);
}

#[test]
fn test_colorize_tag_with_text() {
    let line = colorize_xml_line("<tag>text content</tag>");
    assert!(!line.is_empty());
    assert!(line.len() >= 5);
}

#[test]
fn test_colorize_multiple_attributes() {
    let line = colorize_xml_line("<tag attr1=\"val1\" attr2=\"val2\">");
    assert!(!line.is_empty());
    assert!(line.len() >= 7);
}

#[test]
fn test_colorize_self_closing_tag() {
    let line = colorize_xml_line("<tag />");
    assert!(!line.is_empty());
}

#[test]
fn test_colorize_nested_quotes() {
    let line = colorize_xml_line("<tag attr=\"value with 'quotes'\">");
    assert!(!line.is_empty());
    assert!(line.len() >= 4);
}

#[test]
fn test_colorize_empty_string() {
    let line = colorize_xml_line("");
    assert_eq!(line.len(), 1);
}

#[test]
fn test_colorize_whitespace_only() {
    let line = colorize_xml_line("   ");
    assert_eq!(line.len(), 1);
}

#[test]
fn test_colorize_tag_with_single_quotes() {
    let line = colorize_xml_line("<tag attr='value'>");
    assert!(!line.is_empty());
    assert!(line.len() >= 4);
}

#[test]
fn test_colorize_incomplete_tag() {
    let line = colorize_xml_line("<tag");
    assert!(!line.is_empty());
}

#[test]
fn test_colorize_text_with_multiple_tags() {
    let line = colorize_xml_line("<a>text</a><b>more</b>");
    assert!(!line.is_empty());
    assert!(line.len() >= 8);
}

fn pieces(v: &[(TextStyle, String)]) -> Vec<(TextStyle, &str)> {
    v.iter().map(|p| (p.0, p.1.as_str())).collect()
}

#[test]
fn colorize_command_line_is_one_piece() {
    let line = colorize_log_line("$ mvn clean install [INFO]");
    assert_eq!(pieces(&line), vec![(TextStyle::Command, "$ mvn clean install [INFO]")]);
}

#[test]
fn colorize_splits_around_level_and_package() {
    let line = colorize_log_line_with_format(
        "12:00 [INFO] com.example.MyClass - Started",
        Some("%d [%p] %c - %m%n"),
    );
    assert_eq!(
        pieces(&line),
        vec![
            (TextStyle::Raw, "12:00 "),
            (TextStyle::LevelInfo, "[INFO]"),
            (TextStyle::Raw, " "),
            (TextStyle::Package, "com.example.MyClass"),
            (TextStyle::Raw, " - Started"),
        ]
    );
}

#[test]
fn colorize_without_format_keeps_package_raw() {
    let line = colorize_log_line("[INFO] com.example.MyClass - Started");
    assert_eq!(
        pieces(&line),
        vec![(TextStyle::LevelInfo, "[INFO]"), (TextStyle::Raw, " com.example.MyClass - Started")]
    );
}

#[test]
fn colorize_package_before_level_is_not_highlighted() {
    let line = colorize_log_line_with_format("com.example.Main [WARN] slow", Some("%c [%p] %m"));
    assert_eq!(
        pieces(&line),
        vec![
            (TextStyle::Raw, "com.example.Main "),
            (TextStyle::LevelWarning, "[WARN]"),
            (TextStyle::Raw, " slow"),
        ]
    );
}

#[test]
fn colorize_level_precedence_and_error_forms() {
    let line = colorize_log_line("[ERROR] then [DEBUG]");
    assert_eq!(line[1], (TextStyle::LevelDebug, "[DEBUG]".to_string()));
    let line = colorize_log_line("x [ERR]");
    assert_eq!(pieces(&line), vec![(TextStyle::Raw, "x "), (TextStyle::LevelError, "[ERR]")]);
    let line = colorize_log_line("[WARNING] a [WARN]");
    assert_eq!(line[0], (TextStyle::LevelWarning, "[WARNING]".to_string()));
}

#[test]
fn colorize_package_after_multibyte_text() {
    let line = colorize_log_line_with_format("é [INFO] org.acme.Svc ok", Some("%p %c"));
    assert_eq!(
        pieces(&line),
        vec![
            (TextStyle::Raw, "é "),
            (TextStyle::LevelInfo, "[INFO]"),
            (TextStyle::Raw, " "),
            (TextStyle::Package, "org.acme.Svc"),
            (TextStyle::Raw, " ok"),
        ]
    );
}

#[test]
fn colorize_xml_tag_with_attributes_exact() {
    let line = colorize_xml_line("  <dependency scope=\"test\" optional>x</dependency>");
    assert_eq!(
        pieces(&line),
        vec![
            (TextStyle::Raw, "  "),
            (TextStyle::XmlPunctuation, "<"),
            (TextStyle::XmlTagName, "dependency"),
            (TextStyle::Raw, " "),
            (TextStyle::XmlAttributeName, "scope"),
            (TextStyle::XmlPunctuation, "="),
            (TextStyle::XmlAttributeValue, "\"test\""),
            (TextStyle::Raw, "optional"),
            (TextStyle::XmlPunctuation, ">"),
            (TextStyle::Raw, "x"),
            (TextStyle::XmlPunctuation, "<"),
            (TextStyle::XmlClosingTagName, "/dependency"),
            (TextStyle::XmlPunctuation, ">"),
        ]
    );
}

#[test]
fn colorize_xml_quoted_bracket_stays_in_tag() {
    let line = colorize_xml_line("<a href=\"x>y\">t");
    assert_eq!(
        pieces(&line),
        vec![
            (TextStyle::XmlPunctuation, "<"),
            (TextStyle::XmlTagName, "a"),
            (TextStyle::Raw, " "),
            (TextStyle::XmlAttributeName, "href"),
            (TextStyle::XmlPunctuation, "="),
            (TextStyle::XmlAttributeValue, "\"x>y\""),
            (TextStyle::XmlPunctuation, ">"),
            (TextStyle::Raw, "t"),
        ]
    );
}

#[test]
fn colorize_xml_empty_tag_and_declaration() {
    assert_eq!(pieces(&colorize_xml_line("<>")), vec![(TextStyle::Raw, "<>")]);
    assert_eq!(
        pieces(&colorize_xml_line("<?xml version=\"1.0\"?>")),
        vec![(TextStyle::XmlDeclaration, "<?xml version=\"1.0\"?>")]
    );
    assert_eq!(
        pieces(&colorize_xml_line("<!-- c -->")),
        vec![(TextStyle::XmlComment, "<!-- c -->")]
    );
}

#[test]
fn test_colorize_exceptions() {
    // Test that exception names are highlighted
    let test_cases = vec![
        "[ERROR] com.example.Service - NullPointerException occurred",
        "[WARN] java.io.FileReader - IOException: file not found",
        "[ERROR] Failed with IllegalArgumentException and RuntimeException",
        "[DEBUG] Caught SQLException while processing",
    ];

    let log_format = "[%p] %c - %m%n";

    for log_line in test_cases {
        let line = colorize_log_line_with_format(log_line, Some(log_format));

        // Should have multiple spans (level + exception(s) + other text)
        assert!(line.len() >= 3, "Line should have multiple spans for: {}", log_line);

        // Check that at least one span is styled (for the exception)
        let has_styled_exception = line
            .iter()
            .any(|span| span.1.contains("Exception") && !style_for_text(span.0).fg.is_none());

        assert!(has_styled_exception, "Should highlight exception in: {}", log_line);
    }
}

#[test]
fn test_colorize_multiple_exceptions() {
    // Test line with multiple exceptions
    let log_line = "[ERROR] Caught IOException then RuntimeException";
    let line = colorize_log_line_with_format(log_line, Some("[%p] %m%n"));

    // Count how many exception spans we have
    let exception_spans: Vec<_> = line.iter().filter(|span| span.1.contains("Exception")).collect();

    assert_eq!(exception_spans.len(), 2, "Should find both exceptions");
}

#[test]
fn test_exception_with_package_colorization() {
    // Test that both package and exception are colored
    let log_line = "[ERROR] com.example.MyService - NullPointerException in method";
    let line = colorize_log_line_with_format(log_line, Some("[%p] %c - %m%n"));

    // Should have: level, package (cyan), exception (red), and other text
    let has_package = line.iter().any(|span| span.1.contains("com.example.MyService"));

    let has_exception = line.iter().any(|span| span.1.contains("NullPointerException"));

    assert!(has_package, "Should highlight package");
    assert!(has_exception, "Should highlight exception");
}

#[test]
fn test_colorize_stacktrace() {
    // Test basic stack trace line
    let stacktrace = "    at com.example.MyClass.myMethod(MyClass.java:42)";
    let line = colorize_log_line_with_format(stacktrace, None);

    // Should have multiple spans for different parts
    assert!(line.len() >= 5, "Should have multiple spans for stacktrace parts");

    // Check that key parts are present
    let has_at = line.iter().any(|span| span.1 == "at ");
    let has_class = line.iter().any(|span| span.1.contains("com.example.MyClass"));
    let has_method = line.iter().any(|span| span.1.contains("myMethod"));
    let has_source = line.iter().any(|span| span.1.contains("MyClass.java:42"));

    assert!(has_at, "Should contain 'at' keyword");
    assert!(has_class, "Should contain class path");
    assert!(has_method, "Should contain method name");
    assert!(has_source, "Should contain source location");
}

#[test]
fn test_colorize_stacktrace_with_generics() {
    // Test stack trace with generic method names (e.g., <init>, <clinit>)
    let stacktrace = "    at org.springframework.boot.SpringApplication.<init>(SpringApplication.java:123)";
    let line = colorize_log_line_with_format(stacktrace, None);

    assert!(line.len() >= 5, "Should handle generic method names");

    let has_init = line.iter().any(|span| span.1.contains("<init>"));
    assert!(has_init, "Should detect <init> method");
}

#[test]
fn test_colorize_stacktrace_with_inner_class() {
    // Test stack trace with inner classes (using $)
    let stacktrace = "    at com.example.OuterClass$InnerClass.method(OuterClass.java:99)";
    let line = colorize_log_line_with_format(stacktrace, None);

    assert!(line.len() >= 5, "Should handle inner class notation");

    let has_inner = line.iter().any(|span| span.1.contains("OuterClass$InnerClass"));
    assert!(has_inner, "Should detect inner class");
}

#[test]
fn test_normal_line_vs_stacktrace() {
    // Ensure normal lines starting with "at" but not stack traces aren't misidentified
    let normal_line = "[INFO] Starting application at port 8080";
    let line = colorize_log_line_with_format(normal_line, Some("[%p] %m%n"));

    // Should be colored as log level, not as stacktrace
    let has_info = line.iter().any(|span| span.1 == "[INFO]");
    assert!(has_info, "Should recognize as normal log line, not stacktrace");
}

#[test]
fn stacktrace_pieces_in_order() {
    let line = colorize_log_line_with_format("\tat com.example.A.run(A.java:7)", None);
    let pieces: Vec<(TextStyle, &str)> = line.iter().map(|(s, t)| (*s, t.as_str())).collect();
    assert_eq!(
        pieces,
        vec![
            (TextStyle::Raw, "\t"),
            (TextStyle::StackAt, "at "),
            (TextStyle::StackClass, "com.example.A"),
            (TextStyle::Raw, "."),
            (TextStyle::StackMethod, "run"),
            (TextStyle::Raw, "("),
            (TextStyle::StackSource, "A.java:7"),
            (TextStyle::Raw, ")"),
        ]
    );
    // Not frames: no indentation, no closing parenthesis, no method.
    assert_eq!(colorize_log_line("at com.example.A.run(A.java:7)").len(), 1);
    assert_eq!(colorize_log_line("    at com.example.A.run(A.java:7").len(), 1);
    assert_eq!(colorize_log_line("    ... 12 more").len(), 1);
}

#[test]
fn exception_names_get_their_own_pieces() {
    let line = colorize_log_line("Caused by: java.lang.IllegalStateException: boom, Error, OutOfMemoryError");
    let pieces: Vec<(TextStyle, &str)> = line.iter().map(|(s, t)| (*s, t.as_str())).collect();
    assert_eq!(
        pieces,
        vec![
            (TextStyle::Raw, "Caused by: java.lang."),
            (TextStyle::Exception, "IllegalStateException"),
            (TextStyle::Raw, ": boom, Error, "),
            (TextStyle::Exception, "OutOfMemoryError"),
        ]
    );
    assert_eq!(colorize_log_line("an exception in myException").len(), 1);
}
