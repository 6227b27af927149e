use service_core::config::AppConfig;
use service_core::errors::AppError;
use service_core::errors::ErrorCategory;
use service_core::errors::ErrorHandler;
use service_core::errors::ErrorLogger;
use service_core::errors::ErrorStats;
use service_core::errors::ResourceError;
use service_core::formats::check_file_extension;
use service_core::formats::validate_config_path;
use service_core::formats::ConfigError;
use service_core::formats::JsonParser;
use service_core::formats::ParserFactory;
use service_core::formats::ParserKind;
use service_core::formats::TomlParser;
use service_core::formats::YamlParser;
use service_core::logging::LogBuffer;
use service_core::logging::LogConfig;
use service_core::logging::LogEntry;
use service_core::logging::LogLevel;
use service_core::timeutil::PerformanceTimer;
use service_core::timeutil::TimeoutWrapper;
use service_core::timeutil::TimeUtils;
use service_core::timeutil::TimeWindow;
use service_core::timeutil::TimeoutError;

#[test]
fn test_default_config() {
    let config = AppConfig::default();
    assert_eq!(config.server.host, "localhost");
    assert_eq!(config.server.port, 8080);
    assert!(config.features.enable_cache);
}

#[test]
fn test_config_validation() {
    let config = AppConfig::default();
    let errors = config.validate();
    assert!(errors.is_empty());
}

#[test]
fn broken_config_names_every_violation() {
    let mut config = AppConfig::default();
    config.server.port = 0;
    config.database.url = String::new();
    config.logging.level = "loud".to_string();
    let errors = config.validate();
    assert_eq!(errors.len(), 3);
    assert_eq!(errors[0], "server port must not be zero");
    assert_eq!(errors[1], "database url must not be empty");
    assert_eq!(errors[2], "invalid log level: loud");
}

#[test]
fn test_log_level_ordering() {
    assert!(LogLevel::Trace < LogLevel::Debug);
    assert!(LogLevel::Debug < LogLevel::Info);
    assert!(LogLevel::Info < LogLevel::Warn);
    assert!(LogLevel::Warn < LogLevel::Error);
}

#[test]
fn test_log_level_display() {
    assert_eq!(LogLevel::Info.label(), "INFO");
    assert_eq!(LogLevel::Error.label(), "ERROR");
}

#[test]
fn log_buffer_filters_below_level() {
    let mut buffer = LogBuffer::new(LogConfig::default());
    let dropped = buffer.log(LogEntry {
        timestamp: "t".to_string(),
        level: LogLevel::Debug,
        target: "x".to_string(),
        message: "quiet".to_string(),
        fields: Vec::new(),
    });
    assert!(!dropped);
    let kept = buffer.log(LogEntry {
        timestamp: "t".to_string(),
        level: LogLevel::Warn,
        target: "x".to_string(),
        message: "loud".to_string(),
        fields: Vec::new(),
    });
    assert!(kept);
    assert!(!buffer.needs_flush());
    let drained = buffer.drain();
    assert_eq!(drained.len(), 1);
    assert_eq!(drained[0].message, "loud");
    assert_eq!(buffer.drain().len(), 0);
}

#[test]
fn log_entry_renderings() {
    let entry = LogEntry {
        timestamp: "2024-01-02 03:04:05".to_string(),
        level: LogLevel::Info,
        target: "core".to_string(),
        message: "started".to_string(),
        fields: vec![
            ("port".to_string(), "8080".to_string()),
            ("mode".to_string(), "quiet".to_string()),
        ],
    };
    assert_eq!(
        entry.format_text(),
        "[2024-01-02 03:04:05] INFO core: started port=8080 mode=quiet"
    );
    assert_eq!(entry.format_compact(), "2024-01-02 03:04:05 INFO core: started");
}

#[test]
fn test_current_timestamp() {
    let timestamp = TimeUtils::current_timestamp();
    assert!(timestamp > 0);
}

#[test]
fn test_format_duration() {
    let formatted = TimeUtils::format_duration(1234);
    assert!(formatted.contains("1s"));
    assert!(formatted.contains("234ms"));
}

#[test]
fn duration_renderings_by_unit() {
    assert_eq!(TimeUtils::format_duration(42), "42ms");
    assert_eq!(TimeUtils::format_duration(1234), "1s 234ms");
    assert_eq!(TimeUtils::format_duration(62_500), "1m 2s 500ms");
    assert_eq!(TimeUtils::format_duration(3_723_456), "1h 2m 3s 456ms");
}

#[test]
fn timestamp_rendering_is_calendar_text() {
    assert_eq!(TimeUtils::format_timestamp(0), "1970-01-01 00:00:00");
    assert_eq!(TimeUtils::format_timestamp(1_000_000_000), "2001-09-09 01:46:40");
}

#[test]
fn performance_timer_measures_from_start() {
    let timer = PerformanceTimer::new("probe");
    assert_eq!(timer.name, "probe");
    assert_eq!(timer.elapsed_since(timer.start_ms + 25), 25);
    assert_eq!(timer.elapsed_since(timer.start_ms), 0);
    // a clock running backwards reads as no time passed
    if timer.start_ms > 0 {
        assert_eq!(timer.elapsed_since(timer.start_ms - 1), 0);
    }
}

#[test]
fn time_window_boundaries() {
    let mut window = TimeWindow::new(100, 1000);
    assert!(window.is_within_window(1000));
    assert!(window.is_within_window(1099));
    assert!(!window.is_within_window(1100));
    assert_eq!(window.remaining_time(1040), 60);
    assert_eq!(window.remaining_time(1100), 0);
    window.reset(1100);
    assert!(window.is_within_window(1150));
}

#[test]
fn timeout_error_carries_deadline() {
    let err = TimeoutError { duration_ms: 250 };
    assert_eq!(err.message(), "operation timed out after ms: 250");
}

#[test]
fn timeout_outcome_maps_completion() {
    assert_eq!(TimeoutWrapper::outcome(Some(5u32), 100), Ok(5));
    assert_eq!(
        TimeoutWrapper::outcome::<u32>(None, 100),
        Err(TimeoutError { duration_ms: 100 })
    );
    let timer = PerformanceTimer::new("short");
    assert!(timer.elapsed().as_millis() < 600_000);
}

#[test]
fn resource_error_messages() {
    assert_eq!(ResourceError::ResourceExhausted.message(), "resource exhausted");
    assert_eq!(ResourceError::NotFound.message(), "not found");
    assert_eq!(ResourceError::Timeout.message(), "timeout");
    assert_eq!(ResourceError::Cancelled.message(), "cancelled");
}

#[test]
fn test_error_categorization() {
    let app_error = ErrorHandler::categorize_error("Network connection failed");
    match app_error {
        AppError::Network(_) => {}
        _ => panic!("expected a network error"),
    }
}

#[test]
fn categorization_by_keyword() {
    assert_eq!(
        ErrorHandler::categorize_error("the SQL query died").category(),
        ErrorCategory::Database
    );
    assert_eq!(
        ErrorHandler::categorize_error("no such FILE here").category(),
        ErrorCategory::FileSystem
    );
    assert_eq!(
        ErrorHandler::categorize_error("request timed out").category(),
        ErrorCategory::Timeout
    );
    assert_eq!(
        ErrorHandler::categorize_error("bad Config value").category(),
        ErrorCategory::Config
    );
    // the keyword scan runs in order: "configuration" itself contains
    // "io", so it lands in the file-system bucket first
    assert_eq!(
        ErrorHandler::categorize_error("bad Configuration value").category(),
        ErrorCategory::FileSystem
    );
    assert_eq!(
        ErrorHandler::categorize_error("something odd").category(),
        ErrorCategory::Unknown
    );
}

#[test]
fn recoverability_follows_category() {
    assert!(AppError::Network("n".to_string()).is_recoverable());
    assert!(AppError::Timeout("t".to_string()).is_recoverable());
    assert!(AppError::Database("d".to_string()).is_recoverable());
    assert!(!AppError::Business("b".to_string()).is_recoverable());
    assert!(!AppError::Unknown("u".to_string()).is_recoverable());
}

#[test]
fn test_error_stats() {
    let mut stats = ErrorStats::new();
    let error = AppError::Network("test".to_string());
    stats.record_error(&error);
    assert_eq!(stats.total_errors, 1);
    assert_eq!(stats.network_errors, 1);
}

#[test]
fn error_logger_lines() {
    assert_eq!(
        ErrorLogger::format_error("boom", "startup"),
        "[ERROR] startup - boom"
    );
    assert_eq!(
        ErrorLogger::format_warning("slow", "query"),
        "[WARNING] query - slow"
    );
    assert_eq!(ErrorLogger::format_info("ready", "server"), "[INFO] server - ready");
}

#[test]
fn test_generic_parser_factory() {
    let json_parser = ParserFactory::create_parser("json");
    assert!(json_parser.is_ok());

    let yaml_parser = ParserFactory::create_parser("yaml");
    assert!(yaml_parser.is_ok());

    let toml_parser = ParserFactory::create_parser("toml");
    assert!(toml_parser.is_ok());

    let unknown_parser = ParserFactory::create_parser("unknown");
    assert!(unknown_parser.is_err());
}

#[test]
fn parser_factory_details() {
    assert!(matches!(ParserFactory::create_parser("JSON"), Ok(ParserKind::Json)));
    assert!(matches!(ParserFactory::create_parser("yml"), Ok(ParserKind::Yaml)));
    assert_eq!(ParserFactory::supported_formats(), vec!["json", "yaml", "yml", "toml"]);
    assert_eq!(JsonParser.supported_format(), "json");
    assert_eq!(YamlParser.supported_format(), "yaml");
    assert_eq!(TomlParser.supported_format(), "toml");
}

#[test]
fn extension_checks() {
    assert_eq!(check_file_extension("conf/app.json").unwrap(), "json");
    assert_eq!(check_file_extension("app.TOML").unwrap(), "TOML");
    match check_file_extension("settings.ini") {
        Err(ConfigError::UnsupportedFormat { format }) => assert_eq!(format, "ini"),
        other => panic!("expected an unsupported format, got {:?}", other),
    }
    assert!(check_file_extension("no_extension").is_err());
    assert!(check_file_extension("dir.d/hidden").is_err());
    assert!(check_file_extension(".gitignore").is_err());
}

#[test]
fn path_must_be_given() {
    assert_eq!(validate_config_path(Some("a.yml")).unwrap(), "a.yml");
    assert!(validate_config_path(None).is_err());
}
