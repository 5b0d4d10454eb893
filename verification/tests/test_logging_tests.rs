use gql_api_tester::test_logging::{LogLevel, TestLogger};

fn create_test_logger() -> TestLogger {
    let mut logger = TestLogger::new();

    logger.debug("a");
    logger.info("b");
    logger.warn("c");
    logger.debug("d");
    logger.error("e");

    logger
}

#[test]
fn test_logging_all_levels() {
    let mut logger = create_test_logger();

    let messages = logger.flush(LogLevel::Debug);

    assert_eq!(0, logger.message_count(), "flushing should remove all messages");
    assert_eq!(5, messages.len(), "all messages should be flushed");

    let expected_messages: Vec<String> = vec![
        "[DEBUG] a",
        "[INFO] b",
        "[WARN] c",
        "[DEBUG] d",
        "[ERROR] e",
    ]
    .into_iter()
    .map(|s| s.to_string())
    .collect();

    assert_eq!(messages, expected_messages);
}

#[test]
fn test_log_level_filtering_info() {
    let mut logger = create_test_logger();
    let messages = logger.flush(LogLevel::Info);

    assert_eq!(0, logger.message_count(), "flushing should remove all messages");
    assert_eq!(3, messages.len(), "all info or above messages should be flushed");
}

#[test]
fn test_log_level_filtering_warning() {
    let mut logger = create_test_logger();
    let messages = logger.flush(LogLevel::Warning);

    assert_eq!(0, logger.message_count(), "flushing should remove all messages");
    assert_eq!(2, messages.len(), "all info or above messages should be flushed");
}

#[test]
fn test_log_level_filtering_error() {
    let mut logger = create_test_logger();
    let messages = logger.flush(LogLevel::Error);

    assert_eq!(0, logger.message_count(), "flushing should remove all messages");
    assert_eq!(1, messages.len(), "all info or above messages should be flushed");
}

#[test]
fn test_flush_warning_exact_messages() {
    let mut logger = create_test_logger();
    let messages = logger.flush(LogLevel::Warning);

    assert_eq!(
        vec!["[WARN] c".to_string(), "[ERROR] e".to_string()],
        messages
    );
    assert_eq!(0, logger.message_count());
}

#[test]
fn test_flush_discards_entries_below_level() {
    let mut logger = create_test_logger();
    logger.flush(LogLevel::Error);

    let again = logger.flush(LogLevel::Debug);
    assert_eq!(0, again.len(), "a second flush has nothing left, whatever the level");
}

#[test]
fn test_level_names() {
    assert_eq!("DEBUG", LogLevel::Debug.name());
    assert_eq!("INFO", LogLevel::Info.name());
    assert_eq!("WARN", LogLevel::Warning.name());
    assert_eq!("ERROR", LogLevel::Error.name());
}

#[test]
fn test_log_with_explicit_level() {
    let mut logger = TestLogger::new();
    logger.log(LogLevel::Warning, "watch out");

    assert_eq!(1, logger.message_count());
    assert_eq!(
        vec!["[WARN] watch out".to_string()],
        logger.flush(LogLevel::Debug)
    );
}

#[test]
fn test_message_count_tracks_appends() {
    let mut logger = TestLogger::new();
    assert_eq!(0, logger.message_count());

    logger.debug("one");
    assert_eq!(1, logger.message_count());
    logger.error("two");
    assert_eq!(2, logger.message_count());
}
