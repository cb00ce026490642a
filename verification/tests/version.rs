use vs_placebo::log::{log_line, Log, LogLevel, LogParams};
use vs_placebo::text::{push_decimal, push_decimal_nat};
use vs_placebo::{PL_API_VER, PL_MAJOR_VER};

#[test]
fn can_read_version() {
    assert_eq!(PL_MAJOR_VER, 7);
}

#[test]
fn api_version() {
    assert_eq!(PL_API_VER, 349);
}

#[test]
fn can_create_log() {
    let log = Log::new(0x1000, LogParams::default()).unwrap();
    assert!(log.as_ptr() != 0);
    assert_eq!(log.log_level(), LogLevel::Error);
    assert!(log.as_ptr() != 0);
}

#[test]
fn null_log_is_refused() {
    assert_eq!(Log::new(0, LogParams::default()), None);
}

#[test]
fn log_passes_errors_only_by_default() {
    let log = Log::new(7, LogParams::default()).unwrap();
    assert!(log.passes(LogLevel::Fatal));
    assert!(log.passes(LogLevel::Error));
    assert!(!log.passes(LogLevel::Warn));
    assert!(!log.passes(LogLevel::Trace));
    assert!(!log.passes(LogLevel::Off));
}

#[test]
fn silent_log_passes_nothing() {
    let log = Log::new(7, LogParams { log_level: LogLevel::Off }).unwrap();
    assert!(!log.passes(LogLevel::Fatal));
    assert!(!log.passes(LogLevel::Off));
}

#[test]
fn log_line_format() {
    assert_eq!(log_line(LogLevel::Error, "device lost"), "[libplacebo] [PL_LOG_ERR] device lost");
    assert_eq!(log_line(LogLevel::Debug, ""), "[libplacebo] [PL_LOG_DEBUG] ");
}

#[test]
fn level_names_and_ranks() {
    let levels = [
        (LogLevel::Off, "PL_LOG_NONE"),
        (LogLevel::Fatal, "PL_LOG_FATAL"),
        (LogLevel::Error, "PL_LOG_ERR"),
        (LogLevel::Warn, "PL_LOG_WARN"),
        (LogLevel::Info, "PL_LOG_INFO"),
        (LogLevel::Debug, "PL_LOG_DEBUG"),
        (LogLevel::Trace, "PL_LOG_TRACE"),
    ];
    for (rank, (level, name)) in levels.iter().enumerate() {
        assert_eq!(level.name(), *name);
        assert_eq!(level.rank() as usize, rank);
    }
}

#[test]
fn decimal_numerals() {
    let mut s = String::from("x=");
    push_decimal(&mut s, 0);
    assert_eq!(s, "x=0");
    let mut s = String::new();
    push_decimal(&mut s, -7);
    push_decimal(&mut s, 1234567890);
    assert_eq!(s, "-71234567890");
    let mut s = String::new();
    push_decimal(&mut s, i64::MIN);
    assert_eq!(s, "-9223372036854775808");
    let mut s = String::new();
    push_decimal_nat(&mut s, u64::MAX);
    assert_eq!(s, "18446744073709551615");
    let mut s = String::new();
    push_decimal_nat(&mut s, 10);
    assert_eq!(s, "10");
}
