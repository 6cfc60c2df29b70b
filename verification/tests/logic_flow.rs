use key_listener::clock::ClockTime;
use key_listener::logic::ShutdownProgress;
use key_listener::{analyze_signals, on_key_event, AnalyzerStep, EventType, KeyEvent, Logic, SafeTerm, Signals};

const NOW: ClockTime = ClockTime { secs: 1_700_000_000, nanos: 250_000_000 };

fn lines(text: &[&str]) -> Vec<Result<String, String>> {
    text.iter().map(|l| Ok(l.to_string())).collect()
}

fn press(name: &str) -> KeyEvent {
    KeyEvent { name: None, event_type: EventType::KeyPress(name.to_string()) }
}

fn release(name: &str) -> KeyEvent {
    KeyEvent { name: None, event_type: EventType::KeyRelease(name.to_string()) }
}

#[test]
fn safe_term_records_termination() {
    let mut t = SafeTerm::new();
    assert!(!t.has_stop_signal_arrived());
    t.terminate();
    assert!(t.has_stop_signal_arrived());
}

#[test]
fn escape_raises_shutdown_once() {
    let mut logic = Logic::new();
    logic.process_event(&EventType::KeyPress("Escape".to_string()));
    assert_eq!(logic.combination(), 1);
    assert_eq!(logic.get_signal_state(), Signals::Shutdown.as_uint());
    assert_eq!(logic.get_signal_state(), Signals::NoSignal.as_uint());
}

#[test]
fn other_key_held_cancels_hotkey() {
    let mut logic = Logic::new();
    logic.process_event(&EventType::KeyPress("ShiftLeft".to_string()));
    logic.process_event(&EventType::KeyPress("Escape".to_string()));
    assert_eq!(logic.combination(), 0b101);
    assert_eq!(logic.get_signal_state(), 0);
}

#[test]
fn completed_hotkey_replaces_pending_signal() {
    let mut logic = Logic::new();
    logic.process_event(&EventType::KeyPress("KeyQ".to_string()));
    logic.process_event(&EventType::KeyPress("KeyC".to_string()));
    logic.process_event(&EventType::KeyRelease("KeyQ".to_string()));
    logic.process_event(&EventType::KeyRelease("KeyC".to_string()));
    logic.process_event(&EventType::KeyPress("Escape".to_string()));
    assert_eq!(logic.get_signal_state(), Signals::Shutdown.as_uint());
}

#[test]
fn pending_signal_survives_later_presses() {
    let mut logic = Logic::new();
    logic.process_event(&EventType::KeyPress("Escape".to_string()));
    logic.process_event(&EventType::KeyPress("ShiftLeft".to_string()));
    logic.process_event(&EventType::KeyRelease("Escape".to_string()));
    assert_eq!(logic.combination(), 0b100);
    assert_eq!(logic.get_signal_state(), Signals::Shutdown.as_uint());
}

#[test]
fn release_keeps_pending_signal_and_other_keys_are_ignored() {
    let mut logic = Logic::new();
    logic.process_event(&EventType::KeyPress("KeyQ".to_string()));
    logic.process_event(&EventType::KeyPress("KeyC".to_string()));
    logic.process_event(&EventType::KeyRelease("KeyC".to_string()));
    logic.process_event(&EventType::KeyPress("KeyA".to_string()));
    logic.process_event(&EventType::Other);
    logic.process_event(&EventType::KeyPress("ShiftLeft".to_string()));
    assert_eq!(logic.combination(), 0b1100);
    assert_eq!(logic.get_signal_state(), Signals::PrintHelloWorld.as_uint());
}

#[test]
fn key_event_logs_counts_and_tracks() {
    let mut logic = Logic::new();
    on_key_event(&mut logic, &press("KeyQ"), NOW);
    on_key_event(&mut logic, &release("KeyQ"), NOW);
    on_key_event(&mut logic, &KeyEvent { name: Some("x".to_string()), event_type: EventType::Other }, NOW);
    on_key_event(&mut logic, &press("KeyX"), NOW);
    assert_eq!(logic.metrics().total_pressed(), 2);
    assert_eq!(logic.logger().logs().len(), 2);
    assert_eq!(logic.logger().logs()[0], "[22:13:20.250]: 0, 'KeyQ'\n");
    assert!(logic.logger().logs()[1].ends_with("1, 'KeyX'\n"));
    assert_eq!(logic.combination(), 0);
}

#[test]
fn log_and_metric_ignore_releases() {
    let mut logic = Logic::new();
    logic.log_key(&release("KeyA"), NOW);
    logic.update_metric(&release("KeyA"));
    assert!(logic.logger().logs().is_empty());
    assert_eq!(logic.metrics().total_pressed(), 0);
    logic.log_key(&press("KeyA"), NOW);
    logic.update_metric(&press("KeyA"));
    assert_eq!(logic.logger().logs().len(), 1);
    assert_eq!(logic.metrics().total_pressed(), 1);
}

#[test]
fn analyzer_steps() {
    let mut logic = Logic::new();
    let mut term = SafeTerm::new();
    assert_eq!(analyze_signals(&term, &mut logic), AnalyzerStep::Idle);
    logic.process_event(&EventType::KeyPress("KeyQ".to_string()));
    logic.process_event(&EventType::KeyPress("KeyC".to_string()));
    assert_eq!(analyze_signals(&term, &mut logic), AnalyzerStep::HelloWorld);
    assert_eq!(analyze_signals(&term, &mut logic), AnalyzerStep::Idle);
    logic.process_event(&EventType::KeyRelease("KeyQ".to_string()));
    logic.process_event(&EventType::KeyRelease("KeyC".to_string()));
    logic.process_event(&EventType::KeyPress("Escape".to_string()));
    term.terminate();
    assert_eq!(analyze_signals(&term, &mut logic), AnalyzerStep::Terminate);
    let mut fresh = SafeTerm::new();
    assert_eq!(analyze_signals(&fresh, &mut logic), AnalyzerStep::Shutdown);
    assert_eq!(logic.get_signal_state(), 0);
    fresh.terminate();
    assert!(fresh.has_stop_signal_arrived());
}

#[test]
fn start_failures_request_shutdown() {
    let mut logic = Logic::new();
    assert_eq!(logic.start_logger(Ok(())), None);
    assert_eq!(logic.get_signal_state(), 0);
    assert_eq!(logic.start_logger(Err("denied".to_string())), Some("denied".to_string()));
    assert_eq!(logic.get_signal_state(), Signals::Shutdown.as_uint());
    assert!(logic.logger().is_ready_shutdown());
    assert_eq!(logic.start_metrics(Ok(lines(&["Total-pressed: 5"]))), None);
    assert_eq!(logic.metrics().total_pressed(), 5);
    assert_eq!(logic.get_signal_state(), 0);
    assert_eq!(
        logic.start_metrics(Ok(lines(&["Total-pressed: five"]))),
        Some("[matrics]: Incorrect data. Will be using default value".to_string())
    );
    assert_eq!(logic.get_signal_state(), Signals::Shutdown.as_uint());
    assert!(logic.metrics().is_ready_to_stop());
}

#[test]
fn shutdown_stops_logger_before_metric() {
    let mut logic = Logic::new();
    logic.shutdown();
    assert!(logic.logger().stop_requested());
    assert!(!logic.metrics().writer_should_stop());
    assert_eq!(logic.shutdown_progress(), ShutdownProgress::WaitingForLogger);
    assert!(!logic.metrics().writer_should_stop());
    logic.logger_mut().mark_ready_shutdown();
    assert_eq!(logic.shutdown_progress(), ShutdownProgress::WaitingForMetrics);
    assert!(logic.metrics().writer_should_stop());
    assert_eq!(logic.shutdown_progress(), ShutdownProgress::WaitingForMetrics);
    logic.metrics_mut().set_ready_to_stop();
    assert_eq!(logic.shutdown_progress(), ShutdownProgress::Done);
}

#[test]
fn shutdown_without_writers_is_done_at_once() {
    let mut logic = Logic::new();
    assert!(logic.start_logger(Err("denied".to_string())).is_some());
    assert!(logic.start_metrics(Err("missing".to_string())).is_some());
    logic.shutdown();
    assert_eq!(logic.shutdown_progress(), ShutdownProgress::Done);
}
