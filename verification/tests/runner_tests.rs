use gql_api_tester::config::Config;
use gql_api_tester::config_doc::ConfigSource;
use gql_api_tester::connection_report;
use gql_api_tester::strutil::{split_lines, str_eq, strip_prefix};
use gql_api_tester::test_logging::{LogElement, LogLevel, TestLogger, TestStatus};

#[test]
fn test_connection_report_on_success() {
    let mut logger = connection_report(true, "localhost:3000");

    assert_eq!(Some(TestStatus::Skipped), logger.status());
    assert_eq!(
        vec!["[INFO] Connected to server at localhost:3000".to_string()],
        logger.flush(LogLevel::Debug)
    );
}

#[test]
fn test_connection_report_on_failure() {
    let mut logger = connection_report(false, "localhost:3000");

    assert_eq!(Some(TestStatus::Failure), logger.status());
    assert_eq!(
        vec!["[ERROR] Could not connect to server at localhost:3000".to_string()],
        logger.flush(LogLevel::Debug)
    );
}

#[test]
fn test_verdict_last_write_wins() {
    let mut logger = TestLogger::new();
    assert_eq!(None, logger.status());

    logger.mark_success();
    assert_eq!(Some(TestStatus::Success), logger.status());
    logger.mark_fail();
    assert_eq!(Some(TestStatus::Failure), logger.status());
    logger.mark_skipped();
    assert_eq!(Some(TestStatus::Skipped), logger.status());
    logger.mark_status(TestStatus::Success);
    assert_eq!(Some(TestStatus::Success), logger.status());
}

#[test]
fn test_flush_leaves_verdict_alone() {
    let mut logger = TestLogger::new();
    logger.mark_fail();
    logger.error("boom");
    logger.flush(LogLevel::Debug);

    assert_eq!(Some(TestStatus::Failure), logger.status());
}

#[test]
fn test_log_element_constructors() {
    let _ = LogElement::new(LogLevel::Info, "made directly");
    let _ = LogElement::debug("granular");
    let _ = LogElement::info("general");
    let _ = LogElement::warn("attention");
    let _ = LogElement::error("fatal");
}

#[test]
fn test_load_from_missing_file() {
    let (config, warning) = Config::load(ConfigSource::Missing);

    assert_eq!(Config::default(), config);
    let text = warning.unwrap();
    assert!(text.starts_with("No config file exists in project; loading default."));
    assert!(text.contains("gql_api_tester config init"));
}

#[test]
fn test_load_from_unreadable_file() {
    let (config, warning) = Config::load(ConfigSource::Unreadable(
        "permission denied".to_string(),
    ));

    assert_eq!(Config::default(), config);
    assert_eq!(
        Some(
            "Could not read config file for reason: permission denied\nLoading default config"
                .to_string()
        ),
        warning
    );
}

#[test]
fn test_load_from_valid_contents() {
    let doc = Config::default().to_yaml();
    let (config, warning) = Config::load(ConfigSource::Contents(doc));

    assert_eq!(Config::default(), config);
    assert_eq!(None, warning);
}

#[test]
fn test_load_from_malformed_contents() {
    let (config, warning) = Config::load(ConfigSource::Contents("not: a config".to_string()));

    assert_eq!(Config::default(), config);
    assert_eq!(
        Some("Error in format of config file: the document does not have the expected shape".to_string()),
        warning
    );
}

#[test]
fn test_split_lines_basic() {
    assert_eq!(
        vec!["a".to_string(), "b".to_string()],
        split_lines("a\nb\n")
    );
    assert_eq!(vec!["a".to_string(), "b".to_string()], split_lines("a\nb"));
    assert_eq!(Vec::<String>::new(), split_lines(""));
    assert_eq!(vec!["".to_string(), "x".to_string()], split_lines("\nx"));
}

#[test]
fn test_str_eq_and_strip_prefix() {
    assert!(str_eq("same", "same"));
    assert!(!str_eq("same", "sane"));
    assert!(!str_eq("short", "shorter"));
    assert_eq!(Some("value"), strip_prefix("key: value", "key: "));
    assert_eq!(None, strip_prefix("other: value", "key: "));
    assert_eq!(None, strip_prefix("key", "key: "));
}
