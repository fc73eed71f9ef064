use telemux::config::{GeneralConfig, LogLevel};
use telemux::logging::level_from_str;

#[test]
fn parses_level_names() {
    assert_eq!(level_from_str("info"), Some(LogLevel::Info));
    assert_eq!(level_from_str("WARN"), Some(LogLevel::Warn));
    assert_eq!(level_from_str("bogus"), None);
}

#[test]
fn parses_every_level_in_any_case() {
    assert_eq!(level_from_str("Trace"), Some(LogLevel::Trace));
    assert_eq!(level_from_str("DEBUG"), Some(LogLevel::Debug));
    assert_eq!(level_from_str("warning"), Some(LogLevel::Warn));
    assert_eq!(level_from_str("eRRoR"), Some(LogLevel::Error));
    assert_eq!(level_from_str(""), None);
    assert_eq!(level_from_str("info "), None);
}

#[test]
fn levels_have_tracing_names() {
    assert_eq!(LogLevel::Info.as_tracing_level(), "INFO");
    assert_eq!(LogLevel::Error.as_tracing_level(), "ERROR");
    assert_eq!(GeneralConfig::default().log_level, LogLevel::Info);
}
