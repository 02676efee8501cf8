use minikyu::logfmt::{
    format_target, format_timestamp, highlight_key_values, level_color, level_short_name,
    LogLevel, DEBUG_COLOR, ERROR_COLOR, INFO_COLOR, TRACE_COLOR, WARN_COLOR,
};

#[test]
fn test_level_colors() {
    assert_eq!(level_color(LogLevel::Error), ERROR_COLOR);
    assert_eq!(level_color(LogLevel::Warn), WARN_COLOR);
    assert_eq!(level_color(LogLevel::Info), INFO_COLOR);
    assert_eq!(level_color(LogLevel::Debug), DEBUG_COLOR);
    assert_eq!(level_color(LogLevel::Trace), TRACE_COLOR);
}

#[test]
fn test_level_short_names() {
    assert_eq!(level_short_name(LogLevel::Error), "ERR");
    assert_eq!(level_short_name(LogLevel::Warn), "WRN");
    assert_eq!(level_short_name(LogLevel::Info), "INF");
    assert_eq!(level_short_name(LogLevel::Debug), "DBG");
    assert_eq!(level_short_name(LogLevel::Trace), "TRC");
}

#[test]
fn test_format_timestamp() {
    let mut output = String::new();
    format_timestamp("2024-01-15T10:30:45.123Z", &mut output);
    assert!(output.contains("2024-01-15"));
    assert!(output.contains("10:30:45"));
    assert!(!output.contains(".123"));
}

#[test]
fn test_highlight_key_values() {
    let mut output = String::new();
    highlight_key_values("user_id=123 name=\"test\" active=true", &mut output);
    assert!(output.contains("user_id"));
    assert!(output.contains("123"));
    assert!(output.contains("test"));
}

#[test]
fn test_format_target() {
    let mut output = String::new();
    format_target("tauri_app_lib::commands::preferences", &mut output);
    assert!(output.contains("tauri_app_lib"));
    assert!(output.contains("commands"));
    assert!(output.contains("preferences"));
}

#[test]
fn test_multiline_message_formatting() {
    let mut output = String::new();
    let message = "Line 1\nLine 2\nLine 3";
    highlight_key_values(message, &mut output);
    assert!(output.contains("Line 1"));
    assert!(output.contains("Line 2"));
    assert!(output.contains("Line 3"));
}

#[test]
fn test_highlight_value_colors() {
    let mut output = String::new();
    highlight_key_values("n=-4", &mut output);
    assert!(output.contains(minikyu::logfmt::NUMBER_COLOR));
    let mut output = String::new();
    highlight_key_values("flag=false", &mut output);
    assert!(output.contains(minikyu::logfmt::BOOLEAN_COLOR));
    let mut output = String::new();
    highlight_key_values("x=null", &mut output);
    assert!(output.contains(minikyu::logfmt::NULL_COLOR));
}
