use key_listener::clock::{ClockTime, MAX_STAMP_SECS};
use key_listener::{Logger, Signals};

#[test]
fn new_logger_is_empty() {
    let l = Logger::new();
    assert_eq!(l.next_log_id(), 0);
    assert!(l.logs().is_empty());
    assert_eq!(l.file_path(), "src/logs/list.log");
    assert_eq!(l.signal(), Signals::NoSignal.as_uint());
}

#[test]
fn record_key_writes_numbered_lines_in_order() {
    let mut l = Logger::new();
    l.record_key("[12:00:01.500]: ", "KeyA");
    l.record_key("[12:00:02.000]: ", "Space");
    assert_eq!(
        l.logs(),
        &vec!["[12:00:01.500]: 0, 'KeyA'\n".to_string(), "[12:00:02.000]: 1, 'Space'\n".to_string()]
    );
    assert_eq!(l.next_log_id(), 2);
    let saved = l.take_logs();
    assert_eq!(saved.len(), 2);
    assert_eq!(saved[1], "[12:00:02.000]: 1, 'Space'\n");
    assert!(l.logs().is_empty());
    assert!(l.take_logs().is_empty());
    l.record_key("", "KeyB");
    assert_eq!(l.logs(), &vec!["2, 'KeyB'\n".to_string()]);
}

#[test]
fn log_key_stamps_the_line_with_the_time() {
    let mut l = Logger::new();
    l.log_key(ClockTime { secs: 86400 * 3 + 3661, nanos: 5_999_999 }, "KeyZ");
    l.log_key(ClockTime { secs: 86399, nanos: 999_999_999 }, "KeyY");
    l.log_key(ClockTime { secs: 0, nanos: 0 }, "KeyX");
    l.log_key(ClockTime { secs: MAX_STAMP_SECS, nanos: 123_000_000 }, "KeyW");
    assert_eq!(
        l.logs(),
        &vec![
            "[01:01:01.005]: 0, 'KeyZ'\n".to_string(),
            "[23:59:59.999]: 1, 'KeyY'\n".to_string(),
            "[00:00:00.000]: 2, 'KeyX'\n".to_string(),
            "[23:59:59.123]: 3, 'KeyW'\n".to_string(),
        ]
    );
}

#[test]
fn logger_start_and_shutdown() {
    let mut l = Logger::new();
    assert_eq!(l.start(Ok(())), Ok("File found".to_string()));
    assert_eq!(l.signal(), Signals::NoSignal.as_uint());
    assert!(!l.stop_requested());
    assert!(l.shutdown());
    assert!(l.stop_requested());
    assert_eq!(l.signal(), Signals::StopLogger.as_uint());
    assert!(!l.is_ready_shutdown());
    l.mark_ready_shutdown();
    assert!(l.is_ready_shutdown());
    assert_eq!(l.signal(), Signals::LoggerReadyShutdown.as_uint());
}

#[test]
fn logger_that_could_not_start_counts_as_stopped() {
    let mut l = Logger::new();
    assert_eq!(l.start(Err("denied".to_string())), Err("denied".to_string()));
    assert!(l.is_ready_shutdown());
    assert!(!l.shutdown());
    assert!(l.is_ready_shutdown());
}

#[test]
fn writer_step_hands_out_lines_and_stop() {
    let mut l = Logger::new();
    l.record_key("", "KeyA");
    let (lines, stop) = l.writer_step();
    assert_eq!(lines, vec!["0, 'KeyA'\n".to_string()]);
    assert!(!stop);
    l.record_key("", "KeyB");
    assert!(l.shutdown());
    let (lines, stop) = l.writer_step();
    assert_eq!(lines, vec!["1, 'KeyB'\n".to_string()]);
    assert!(stop);
    assert!(l.logs().is_empty());
}
