use remove_bars::capture::{LogCapture, LogLevel};

#[test]
fn log_capture_keeps_only_the_last_lines() {
    let mut capture = LogCapture::new(3);
    for i in 0..5 {
        capture.push(LogLevel::Info, &format!("line {i}"));
    }

    let diagnostics = capture.finish();

    assert_eq!(
        diagnostics.tail,
        vec![
            "line 2".to_string(),
            "line 3".to_string(),
            "line 4".to_string()
        ]
    );
    assert!(diagnostics.errors.is_empty());
}

#[test]
fn log_capture_records_error_lines() {
    let mut capture = LogCapture::new(10);
    capture.push(LogLevel::Info, "normal line");
    capture.push(LogLevel::Fatal, "fatal line");
    capture.push(LogLevel::Error, "error line");

    let diagnostics = capture.finish();

    assert_eq!(
        diagnostics.errors,
        vec!["fatal line".to_string(), "error line".to_string()]
    );
    assert_eq!(
        diagnostics.tail,
        vec![
            "normal line".to_string(),
            "fatal line".to_string(),
            "error line".to_string(),
        ]
    );
}

#[test]
fn capture_without_capacity_keeps_errors_alone() {
    let mut capture = LogCapture::new(0);
    capture.push(LogLevel::Error, "first");
    capture.push(LogLevel::Warning, "second");

    let diagnostics = capture.finish();

    assert_eq!(diagnostics.errors, vec!["first".to_string()]);
    assert!(diagnostics.tail.is_empty());
}

#[test]
fn errors_outlast_the_tail() {
    let mut capture = LogCapture::new(1);
    capture.push(LogLevel::Error, "error");
    capture.push(LogLevel::Unknown, "last");

    let diagnostics = capture.finish();

    assert_eq!(diagnostics.errors, vec!["error".to_string()]);
    assert_eq!(diagnostics.tail, vec!["last".to_string()]);
    assert_eq!(diagnostics.lines(), &vec!["error".to_string()]);
}

#[test]
fn tail_is_shown_where_no_error_was_logged() {
    let mut capture = LogCapture::new(2);
    capture.push(LogLevel::Info, "one");
    capture.push(LogLevel::Warning, "two");
    capture.push(LogLevel::Info, "three");

    let diagnostics = capture.finish();

    assert_eq!(diagnostics.lines(), &vec!["two".to_string(), "three".to_string()]);
    assert!(LogCapture::new(3).finish().lines().is_empty());
}

#[test]
fn errors_and_fatal_errors_are_failures() {
    assert!(LogLevel::Error.is_error());
    assert!(LogLevel::Fatal.is_error());
    assert!(!LogLevel::Info.is_error());
    assert!(!LogLevel::Warning.is_error());
    assert!(!LogLevel::Unknown.is_error());
}
