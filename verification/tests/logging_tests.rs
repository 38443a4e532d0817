use stowaway::cli::create_log_config;
use stowaway::logging::{parse_log_format, parse_log_level, Level, LogConfig, LogFormat};

#[test]
fn test_log_config_default() {
    let config = LogConfig::default();
    assert_eq!(config.level, Level::INFO);
    assert_eq!(config.format, LogFormat::Human);
    assert!(!config.show_target);
    assert!(!config.show_time);
    assert!(!config.show_thread_names);
}

#[test]
fn test_log_config_builder() {
    let config = LogConfig::new(Level::DEBUG)
        .with_format(LogFormat::Json)
        .with_target()
        .with_time()
        .with_thread_names();

    assert_eq!(config.level, Level::DEBUG);
    assert_eq!(config.format, LogFormat::Json);
    assert!(config.show_target);
    assert!(config.show_time);
    assert!(config.show_thread_names);
}

#[test]
fn test_log_config_presets() {
    let quiet = LogConfig::quiet();
    assert_eq!(quiet.level, Level::ERROR);

    let verbose = LogConfig::verbose();
    assert_eq!(verbose.level, Level::DEBUG);
    assert!(verbose.show_target);

    let trace = LogConfig::trace();
    assert_eq!(trace.level, Level::TRACE);
    assert!(trace.show_target);
    assert!(trace.show_time);
}

#[test]
fn test_parse_log_level() {
    assert_eq!(parse_log_level("error").unwrap(), Level::ERROR);
    assert_eq!(parse_log_level("ERROR").unwrap(), Level::ERROR);
    assert_eq!(parse_log_level("warn").unwrap(), Level::WARN);
    assert_eq!(parse_log_level("warning").unwrap(), Level::WARN);
    assert_eq!(parse_log_level("info").unwrap(), Level::INFO);
    assert_eq!(parse_log_level("debug").unwrap(), Level::DEBUG);
    assert_eq!(parse_log_level("trace").unwrap(), Level::TRACE);

    assert!(parse_log_level("invalid").is_err());
}

#[test]
fn test_parse_log_format() {
    assert_eq!(parse_log_format("human").unwrap(), LogFormat::Human);
    assert_eq!(parse_log_format("text").unwrap(), LogFormat::Human);
    assert_eq!(parse_log_format("json").unwrap(), LogFormat::Json);
    assert_eq!(parse_log_format("JSON").unwrap(), LogFormat::Json);

    assert!(parse_log_format("invalid").is_err());
}

#[test]
fn parse_errors_carry_the_input() {
    assert_eq!(parse_log_level("loud").unwrap_err(), "Invalid log level: loud");
    assert_eq!(parse_log_format("xml").unwrap_err(), "Invalid log format: xml");
    assert_eq!(parse_log_level("WaRnInG").unwrap(), Level::WARN);
    assert!(parse_log_level("").is_err());
}

#[test]
fn builders_change_one_field() {
    let base = LogConfig::new(Level::WARN);
    let with_format = base.with_format(LogFormat::Json);
    assert_eq!(with_format.level, Level::WARN);
    assert!(!with_format.show_target && !with_format.show_time && !with_format.show_thread_names);
    let with_threads = base.with_thread_names();
    assert_eq!(with_threads.format, LogFormat::Human);
    assert!(with_threads.show_thread_names && !with_threads.show_time);
}

#[test]
fn log_config_from_options() {
    let c = create_log_config(&None, &None, false, false).unwrap();
    assert_eq!(c.level, Level::INFO);
    assert_eq!(c.format, LogFormat::Human);

    let c = create_log_config(&Some("trace".to_string()), &Some("json".to_string()), false, false).unwrap();
    assert_eq!(c.level, Level::TRACE);
    assert_eq!(c.format, LogFormat::Json);

    // quiet wins over verbose, and both ignore the explicit level
    let c = create_log_config(&Some("nonsense".to_string()), &None, true, true).unwrap();
    assert_eq!(c.level, Level::ERROR);
    let c = create_log_config(&None, &None, true, false).unwrap();
    assert_eq!(c.level, Level::DEBUG);
    assert!(!c.show_target);

    assert_eq!(
        create_log_config(&Some("loud".to_string()), &None, false, false).unwrap_err(),
        "Invalid log level 'loud': Invalid log level: loud"
    );
    assert_eq!(
        create_log_config(&None, &Some("xml".to_string()), false, false).unwrap_err(),
        "Invalid log format 'xml': Invalid log format: xml"
    );
}
