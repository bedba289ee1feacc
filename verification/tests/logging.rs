use tt_toplike::init_logging;
use tt_toplike::logging::{
    clear_log_messages, disable_stderr, enable_stderr, get_log_message_count, get_log_messages,
    get_recent_log_messages, init_logging_with_buffer, Level, LevelFilter, MAX_LOG_MESSAGES,
};

fn now() -> String {
    "12:00:00".to_string()
}

#[test]
fn test_log_buffer() {
    let mut logger = init_logging_with_buffer(LevelFilter::Debug);
    logger.log(Level::Info, "Test message 1".to_string(), now());
    logger.log(Level::Warn, "Test message 2".to_string(), now());
    logger.log(Level::Error, "Test message 3".to_string(), now());

    let messages = get_log_messages(&logger);
    assert!(messages.len() >= 3);
    assert!(messages.iter().any(|m| m.message.contains("Test message")));
}

#[test]
fn test_buffer_limit() {
    let mut logger = init_logging(LevelFilter::Info);
    clear_log_messages(&mut logger);
    for i in 0..MAX_LOG_MESSAGES + 50 {
        logger.log(Level::Info, format!("Message {}", i), now());
    }
    let count = get_log_message_count(&logger);
    assert!(count <= MAX_LOG_MESSAGES);
    assert_eq!(count, 100);
    let kept = get_log_messages(&logger);
    assert_eq!(kept[0].message, "Message 50");
    assert_eq!(kept[99].message, "Message 149");
}

#[test]
fn test_recent_messages() {
    let mut logger = init_logging_with_buffer(LevelFilter::Debug);
    for tail in ["A", "B", "C"] {
        logger.log(Level::Info, format!("TESTRECENT-{}", tail), now());
    }
    let recent = get_recent_log_messages(&logger, 200);
    let at = |tail: &str| {
        recent.iter().rposition(|m| m.message.contains(&format!("TESTRECENT-{}", tail)))
    };
    assert!(at("A").unwrap() < at("B").unwrap() && at("B").unwrap() < at("C").unwrap());
    let last: Vec<String> =
        get_recent_log_messages(&logger, 2).iter().map(|m| m.message.clone()).collect();
    assert_eq!(last, vec!["TESTRECENT-B", "TESTRECENT-C"]);
    assert!(get_recent_log_messages(&logger, 0).is_empty());
}

#[test]
fn lines_go_to_the_error_stream_unless_it_is_disabled() {
    let mut logger = init_logging_with_buffer(LevelFilter::Warn);
    assert_eq!(
        logger.log(Level::Warn, "hot".to_string(), now()).as_deref(),
        Some("[12:00:00] WARN - hot")
    );
    assert_eq!(logger.log(Level::Info, "routine".to_string(), now()), None);
    disable_stderr(&mut logger);
    assert_eq!(logger.log(Level::Error, "quiet".to_string(), now()), None);
    enable_stderr(&mut logger);
    assert_eq!(
        logger.log(Level::Error, "loud".to_string(), now()).as_deref(),
        Some("[12:00:00] ERROR - loud")
    );
    assert_eq!(get_log_message_count(&logger), 3);
    clear_log_messages(&mut logger);
    assert_eq!(get_log_message_count(&logger), 0);
}

#[test]
fn filters_let_the_serious_through() {
    let off = init_logging_with_buffer(LevelFilter::Off);
    assert!(!off.enabled(Level::Error));
    let debug = init_logging_with_buffer(LevelFilter::Debug);
    assert!(debug.enabled(Level::Debug) && !debug.enabled(Level::Trace));
    let trace = init_logging_with_buffer(LevelFilter::Trace);
    assert!(trace.enabled(Level::Trace));
    assert_eq!(Level::Trace.name(), "TRACE");
    assert_eq!(Level::Debug.name(), "DEBUG");
    assert_eq!(Level::Info.name(), "INFO");
}
