use key_listener::metrics::{READY_TO_STOP, RELAXED, SHOULD_STOP};
use key_listener::text::split_lines;
use key_listener::Metrics;

const BAD: &str = "[matrics]: Incorrect data. Will be using default value";

fn read(lines: &[&str]) -> Vec<Result<String, String>> {
    lines.iter().map(|l| Ok(l.to_string())).collect()
}

#[test]
fn new_metrics_start_at_zero() {
    let m = Metrics::new();
    assert_eq!(m.total_pressed(), 0);
    assert_eq!(m.signal(), RELAXED);
    assert_eq!(m.file_path(), "src/data/stats.met");
}

#[test]
fn update_metric_counts_and_wraps() {
    let mut m = Metrics::new();
    m.update_metric("KeyA");
    m.update_metric("KeyB");
    assert_eq!(m.total_pressed(), 2);
    assert!(m.read_total_pressed("Total-pressed: 4294967295").is_ok());
    m.update_metric("KeyA");
    assert_eq!(m.total_pressed(), 0);
}

#[test]
fn read_total_pressed_results() {
    let mut m = Metrics::new();
    assert_eq!(m.read_total_pressed("Total-pressed: 17"), Ok("[matrics]: Read total pressed".to_string()));
    assert_eq!(m.total_pressed(), 17);
    assert_eq!(m.read_total_pressed("Total-pressed:"), Err(BAD.to_string()));
    assert_eq!(m.read_total_pressed("Total-pressed: x"), Err(BAD.to_string()));
    assert_eq!(m.read_total_pressed("Total-pressed: -3"), Err(BAD.to_string()));
    assert_eq!(m.total_pressed(), 17);
    assert!(m.read_total_pressed("Total-pressed:\t+5 trailing").is_ok());
    assert_eq!(m.total_pressed(), 5);
}

#[test]
fn read_data_last_metric_line_wins_and_errors_stop() {
    let mut m = Metrics::new();
    let lines = read(&["comment", "Total-pressed: 3", "Total-pressed: 9"]);
    assert_eq!(m.read_data(&lines), Ok("[matrics]: Data was correctly read".to_string()));
    assert_eq!(m.total_pressed(), 9);
    let mut m = Metrics::new();
    let lines = read(&["Total-pressed: 4", "Total-pressed: oops", "Total-pressed: 8"]);
    assert_eq!(m.read_data(&lines), Err(BAD.to_string()));
    assert_eq!(m.total_pressed(), 4);
}

#[test]
fn read_error_keeps_count_read_before_it() {
    let mut m = Metrics::new();
    let lines = vec![
        Ok("Total-pressed: 6".to_string()),
        Err("stream did not contain valid UTF-8".to_string()),
        Ok("Total-pressed: 8".to_string()),
    ];
    assert_eq!(m.read_data(&lines), Err("stream did not contain valid UTF-8".to_string()));
    assert_eq!(m.total_pressed(), 6);
    let mut m = Metrics::new();
    assert_eq!(m.start(Ok(lines)), Err("stream did not contain valid UTF-8".to_string()));
    assert_eq!(m.total_pressed(), 6);
    assert_eq!(m.signal(), READY_TO_STOP);
}

#[test]
fn start_with_open_error_stops_metric() {
    let mut m = Metrics::new();
    let r = m.start(Err("No such file or directory (os error 2)".to_string()));
    assert_eq!(r, Err("No such file or directory (os error 2)".to_string()));
    assert_eq!(m.signal(), READY_TO_STOP);
    assert!(m.is_ready_to_stop());
    assert!(!m.shutdown());
    assert_eq!(m.signal(), READY_TO_STOP);
}

#[test]
fn start_with_bad_data_stops_metric() {
    let mut m = Metrics::new();
    assert_eq!(m.start(Ok(read(&["Total-pressed: many"]))), Err(BAD.to_string()));
    assert_eq!(m.signal(), READY_TO_STOP);
    assert_eq!(m.total_pressed(), 0);
}

#[test]
fn start_with_good_data_loads_count() {
    let mut m = Metrics::new();
    assert_eq!(m.start(Ok(read(&["Total-pressed: 250"]))), Ok("[matrics]: Data was correctly read".to_string()));
    assert_eq!(m.total_pressed(), 250);
    assert_eq!(m.signal(), RELAXED);
    let mut empty = Metrics::new();
    assert!(empty.start(Ok(Vec::new())).is_ok());
    assert_eq!(empty.total_pressed(), 0);
}

#[test]
fn metric_text_reads_back() {
    for n in [0u32, 1, 77, 4294967295].iter() {
        let mut writer = Metrics::new();
        assert!(writer.read_total_pressed(&format!("Total-pressed: {}", n)).is_ok());
        let (text, stop) = writer.writer_step();
        assert!(!stop);
        assert_eq!(text, format!("Total-pressed: {}\n", n));
        assert_eq!(writer.metric_text(), text);
        let mut reader = Metrics::new();
        reader.update_metric("KeyA");
        let lines: Vec<Result<String, String>> = split_lines(&text).into_iter().map(Ok).collect();
        assert!(reader.start(Ok(lines)).is_ok());
        assert_eq!(reader.total_pressed(), *n);
    }
}

#[test]
fn shutdown_asks_writer_to_stop() {
    let mut m = Metrics::new();
    assert!(!m.writer_should_stop());
    assert!(m.shutdown());
    assert_eq!(m.signal(), SHOULD_STOP);
    assert!(m.writer_should_stop());
    assert!(m.writer_step().1);
    m.set_ready_to_stop();
    assert!(m.is_ready_to_stop());
    assert!(!m.writer_should_stop());
}
