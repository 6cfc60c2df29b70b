use vstd::prelude::*;
use crate::clock::{time_stamp_text, ClockTime};
use crate::hotkey::{hotkey_of_name, hotkey_signal, HotKey};
use crate::logger::{recorded, Logger, LoggerView};
use crate::metrics::{
    line_views, load_answer, load_from, next_count, LoadEnd, Metrics, MetricsView, READY_TO_STOP,
    SHOULD_STOP,
};
use crate::signals::Signals;

verus! {

/// What happened on the keyboard; a key is given by its name (`KeyQ`,
/// `Escape`, `Num1`, ...).
pub enum EventType {
    KeyPress(String),
    KeyRelease(String),
    /// Mouse and wheel events, which the listener ignores.
    Other,
}

/// A keyboard event: what happened, and the text that the key typed, if any.
pub struct KeyEvent {
    pub name: Option<String>,
    pub event_type: EventType,
}

/// The listener's logic: the pending signal, the held hotkey components, the
/// key log and the key-press metric.
pub struct LogicView {
    pub signal_state: u8,
    pub combination: u16,
    pub logger: LoggerView,
    pub metrics: MetricsView,
}

/// The logic after an event: a press or release of a hotkey component
/// updates the held combination; a press whose combination stands for a
/// signal then makes that signal the pending one. No key event clears a
/// pending signal: only the signal analyzer takes it.
pub open spec fn after_event(v: LogicView, event: EventType) -> LogicView {
    match event {
        EventType::KeyPress(name) => {
            let key = hotkey_of_name(name@);
            if key != HotKey::NoComponent {
                let c = v.combination | key.mask();
                LogicView {
                    combination: c,
                    signal_state: if hotkey_signal(c) != Signals::NoSignal {
                        hotkey_signal(c).code()
                    } else {
                        v.signal_state
                    },
                    ..v
                }
            } else {
                v
            }
        },
        EventType::KeyRelease(name) => {
            let key = hotkey_of_name(name@);
            if key != HotKey::NoComponent {
                LogicView { combination: v.combination & !key.mask(), ..v }
            } else {
                v
            }
        },
        EventType::Other => v,
    }
}

/// The logic after its pending signal has been read.
pub open spec fn signal_taken(v: LogicView) -> LogicView {
    LogicView { signal_state: Signals::NoSignal.code(), ..v }
}

/// How far the shutdown has come.
#[derive(Copy, Clone, Debug, PartialEq, Eq, Structural)]
pub enum ShutdownProgress {
    /// The log writer has not stopped yet.
    WaitingForLogger,
    /// The log writer has stopped; the metric writer has been asked to stop
    /// and has not yet.
    WaitingForMetrics,
    /// Both writers have stopped.
    Done,
}

/// One look at the shutdown: the metric writer is asked to stop only once
/// the log writer has stopped.
pub open spec fn shutdown_step(v: LogicView) -> (LogicView, ShutdownProgress) {
    if v.logger.signal != Signals::LoggerReadyShutdown.code() {
        (v, ShutdownProgress::WaitingForLogger)
    } else if v.metrics.signal == READY_TO_STOP {
        (v, ShutdownProgress::Done)
    } else {
        (
            LogicView { metrics: MetricsView { signal: SHOULD_STOP, ..v.metrics }, ..v },
            ShutdownProgress::WaitingForMetrics,
        )
    }
}

pub struct Logic {
    signal_state: u8,
    combination: u16,
    logger: Logger,
    metrics: Metrics,
}

impl View for Logic {
    type V = LogicView;

    closed spec fn view(&self) -> LogicView {
        LogicView {
            signal_state: self.signal_state,
            combination: self.combination,
            logger: self.logger@,
            metrics: self.metrics@,
        }
    }
}

impl Logic {
    pub fn new() -> (l: Logic)
        ensures
            l@.signal_state == Signals::NoSignal.code(),
            l@.combination == 0,
            l@.logger == Logger::new_spec(),
            l@.metrics == Metrics::new_spec(),
    {
        Logic {
            signal_state: Signals::NoSignal.as_uint(),
            combination: 0,
            logger: Logger::new(),
            metrics: Metrics::new(),
        }
    }

    pub fn logger(&self) -> (l: &Logger)
        ensures
            l@ == self@.logger,
    {
        &self.logger
    }

    pub fn metrics(&self) -> (m: &Metrics)
        ensures
            m@ == self@.metrics,
    {
        &self.metrics
    }

    /// The logger, for its writer.
    pub fn logger_mut(&mut self) -> (l: &mut Logger)
        ensures
            l@ == old(self)@.logger,
            final(self)@ == (LogicView { logger: final(l)@, ..old(self)@ }),
    {
        &mut self.logger
    }

    /// The metric, for its writer.
    pub fn metrics_mut(&mut self) -> (m: &mut Metrics)
        ensures
            m@ == old(self)@.metrics,
            final(self)@ == (LogicView { metrics: final(m)@, ..old(self)@ }),
    {
        &mut self.metrics
    }

    pub fn combination(&self) -> (c: u16)
        ensures
            c == self@.combination,
    {
        self.combination
    }

    fn set_signal_state(&mut self, signal_as_uint: u8)
        ensures
            final(self)@ == (LogicView { signal_state: signal_as_uint, ..old(self)@ }),
    {
        self.signal_state = signal_as_uint;
    }

    /// Reads the pending signal and leaves none pending.
    pub fn get_signal_state(&mut self) -> (signal: u8)
        ensures
            signal == old(self)@.signal_state,
            final(self)@ == signal_taken(old(self)@),
    {
        let signal: u8 = self.signal_state;
        self.signal_state = Signals::NoSignal.as_uint();
        signal
    }

    pub fn reset_signal(&mut self)
        ensures
            final(self)@ == signal_taken(old(self)@),
    {
        self.signal_state = Signals::NoSignal.as_uint();
    }

    /// Begins the shutdown: asks the log writer to stop. The metric writer
    /// is asked later, by `shutdown_progress`, once the log writer has stopped.
    pub fn shutdown(&mut self)
        ensures
            final(self)@ == (LogicView {
                logger: if old(self)@.logger.signal == Signals::LoggerReadyShutdown.code() {
                    old(self)@.logger
                } else {
                    LoggerView { signal: Signals::StopLogger.code(), ..old(self)@.logger }
                },
                ..old(self)@
            }),
    {
        let _must_wait: bool = self.logger.shutdown();
    }

    /// One look at the shutdown (see `shutdown_step`).
    pub fn shutdown_progress(&mut self) -> (progress: ShutdownProgress)
        ensures
            (final(self)@, progress) == shutdown_step(old(self)@),
    {
        if !self.logger.is_ready_shutdown() {
            return ShutdownProgress::WaitingForLogger;
        }
        if self.metrics.is_ready_to_stop() {
            return ShutdownProgress::Done;
        }
        let _must_wait: bool = self.metrics.shutdown();
        ShutdownProgress::WaitingForMetrics
    }

    /// Takes the answer to creating the log file. On an error the logger
    /// counts as stopped, the whole listener is to shut down, and the error
    /// is handed back to be shown.
    pub fn start_logger(&mut self, created: Result<(), String>) -> (report: Option<String>)
        ensures
            match created {
                Ok(_) => report is None && final(self)@ == old(self)@,
                Err(e) => report == Some(e) && final(self)@ == (LogicView {
                    signal_state: Signals::Shutdown.code(),
                    logger: LoggerView {
                        signal: Signals::LoggerReadyShutdown.code(),
                        ..old(self)@.logger
                    },
                    ..old(self)@
                }),
            },
    {
        match self.logger.start(created) {
            Ok(_) => None,
            Err(err) => {
                self.set_signal_state(Signals::Shutdown.as_uint());
                Some(err)
            },
        }
    }

    /// Takes the metric file's lines, or the error met opening it. Where the
    /// metric cannot start, the whole listener is to shut down, and the error
    /// is handed back to be shown.
    pub fn start_metrics(&mut self, source: Result<Vec<Result<String, String>>, String>) -> (report:
        Option<String>)
        ensures
            final(self)@.logger == old(self)@.logger,
            final(self)@.combination == old(self)@.combination,
            final(self)@.metrics.file_path == old(self)@.metrics.file_path,
            match source {
                Err(e) => {
                    &&& report == Some(e)
                    &&& final(self)@.metrics.total_pressed == old(self)@.metrics.total_pressed
                    &&& final(self)@.metrics.signal == READY_TO_STOP
                    &&& final(self)@.signal_state == Signals::Shutdown.code()
                },
                Ok(lines) => {
                    let loaded = load_from(line_views(lines@), 0, old(self)@.metrics.total_pressed);
                    &&& final(self)@.metrics.total_pressed == loaded.0
                    &&& match loaded.1 {
                        LoadEnd::Complete => {
                            &&& report is None
                            &&& final(self)@.metrics.signal == old(self)@.metrics.signal
                            &&& final(self)@.signal_state == old(self)@.signal_state
                        },
                        _ => {
                            &&& report is Some
                            &&& load_answer(loaded.1, Err(report.unwrap()))
                            &&& final(self)@.metrics.signal == READY_TO_STOP
                            &&& final(self)@.signal_state == Signals::Shutdown.code()
                        },
                    }
                },
            },
    {
        match self.metrics.start(source) {
            Ok(_) => None,
            Err(err) => {
                self.set_signal_state(Signals::Shutdown.as_uint());
                Some(err)
            },
        }
    }

    /// Records a pressed key in the log under the time read from the clock;
    /// other events are not logged.
    pub fn log_key(&mut self, event: &KeyEvent, now: ClockTime)
        requires
            event.event_type is KeyPress ==> now.in_range(),
        ensures
            match event.event_type {
                EventType::KeyPress(name) => final(self)@ == (LogicView {
                    logger: recorded(
                        old(self)@.logger,
                        time_stamp_text(now.secs as nat, now.nanos as nat),
                        name@,
                    ),
                    ..old(self)@
                }),
                _ => final(self)@ == old(self)@,
            },
    {
        match &event.event_type {
            EventType::KeyPress(name) => {
                self.logger.log_key(now, name.as_str());
            },
            _ => {},
        }
    }

    /// Counts a pressed key; other events are not counted.
    pub fn update_metric(&mut self, event: &KeyEvent)
        ensures
            final(self)@ == (match event.event_type {
                EventType::KeyPress(_) => LogicView {
                    metrics: MetricsView {
                        total_pressed: next_count(old(self)@.metrics.total_pressed),
                        ..old(self)@.metrics
                    },
                    ..old(self)@
                },
                _ => old(self)@,
            }),
    {
        match &event.event_type {
            EventType::KeyPress(name) => {
                self.metrics.update_metric(name.as_str());
            },
            _ => {},
        }
    }

    /// Follows the hotkey components as they are pressed and released, and
    /// raises the signal that a combination stands for when a key is pressed.
    pub fn process_event(&mut self, event: &EventType)
        ensures
            final(self)@ == after_event(old(self)@, *event),
    {
        match event {
            EventType::KeyPress(name) => {
                let comp: HotKey = HotKey::from_key_name(name.as_str());
                if comp != HotKey::NoComponent {
                    comp.press_key(&mut self.combination);
                    // a pending signal is reset only by the signal analyzer
                    let signal: u8 = HotKey::get_hotkey_signal(self.combination).as_uint();
                    if signal != Signals::NoSignal.as_uint() {
                        self.set_signal_state(signal);
                    }
                }
            },
            EventType::KeyRelease(name) => {
                let comp: HotKey = HotKey::from_key_name(name.as_str());
                if comp != HotKey::NoComponent {
                    comp.release_key(&mut self.combination);
                }
            },
            EventType::Other => {},
        }
    }
}

/// A pending signal is handed out once: whoever reads it next finds none.
pub proof fn lemma_signal_taken_once(v: LogicView)
    ensures
        signal_taken(v).signal_state == Signals::NoSignal.code(),
        signal_taken(signal_taken(v)) == signal_taken(v),
{
}

/// Key events touch neither the key log nor the metric.
pub proof fn lemma_event_keeps_log_and_count(v: LogicView, event: EventType)
    ensures
        after_event(v, event).logger == v.logger,
        after_event(v, event).metrics == v.metrics,
{
}

/// Keys that are no hotkey component change nothing, pressed or released,
/// and a release never raises a signal.
pub proof fn lemma_other_keys_inert(v: LogicView, name: String)
    ensures
        hotkey_of_name(name@) == HotKey::NoComponent ==> after_event(v, EventType::KeyPress(name)) == v,
        hotkey_of_name(name@) == HotKey::NoComponent ==> after_event(v, EventType::KeyRelease(name)) == v,
        after_event(v, EventType::KeyRelease(name)).signal_state == v.signal_state,
{
}

/// No key event clears a pending signal: it stays pending, or a hotkey
/// completed by a press puts its own signal in its place.
pub proof fn lemma_pending_signal_kept(v: LogicView, event: EventType)
    requires
        v.signal_state != Signals::NoSignal.code(),
    ensures
        after_event(v, event).signal_state != Signals::NoSignal.code(),
        after_event(v, event).signal_state == v.signal_state || (event is KeyPress
            && after_event(v, event).signal_state == hotkey_signal(
            after_event(v, event).combination,
        ).code()),
{
}

/// Escape pressed alone raises the shutdown signal, in place of any signal
/// still pending.
pub proof fn lemma_escape_stops(v: LogicView, name: String)
    requires
        name@ == "Escape"@,
        v.combination == 0,
    ensures
        after_event(v, EventType::KeyPress(name)).signal_state == Signals::Shutdown.code(),
{
    assert(0u16 | 1u16 == 1u16) by (bit_vector);
}

/// Escape pressed while another component is held raises no signal: the
/// other key cancels the hotkey, and the pending signal stays as it was.
pub proof fn lemma_escape_cancelled(v: LogicView, name: String)
    requires
        name@ == "Escape"@,
        v.combination & 0xfffe != 0,
    ensures
        after_event(v, EventType::KeyPress(name)).signal_state == v.signal_state,
{
    let c: u16 = v.combination;
    assert(c & 0xfffe != 0 ==> (c | 1) != 1 && (c | 1) != 24) by (bit_vector);
}

/// Q then C pressed from rest raise the greeting; releasing both brings the
/// held combination back to rest.
pub proof fn lemma_hello_world_hotkey(v: LogicView, q: String, c: String)
    requires
        q@ == "KeyQ"@,
        c@ == "KeyC"@,
        v.combination == 0,
    ensures
        ({
            let pressed = after_event(after_event(v, EventType::KeyPress(q)), EventType::KeyPress(c));
            let released = after_event(
                after_event(pressed, EventType::KeyRelease(q)),
                EventType::KeyRelease(c),
            );
            &&& pressed.signal_state == Signals::PrintHelloWorld.code()
            &&& released.combination == 0
            &&& released.signal_state == Signals::PrintHelloWorld.code()
        }),
{
    reveal_strlit("Escape");
    reveal_strlit("ControlLeft");
    reveal_strlit("ShiftLeft");
    reveal_strlit("KeyQ");
    reveal_strlit("KeyC");
    assert("KeyQ"@[0] != "Escape"@[0] && "KeyQ"@[0] != "ControlLeft"@[0] && "KeyQ"@[0]
        != "ShiftLeft"@[0]);
    assert("KeyC"@[0] != "Escape"@[0] && "KeyC"@[0] != "ControlLeft"@[0] && "KeyC"@[0]
        != "ShiftLeft"@[0]);
    assert("KeyC"@ != "KeyQ"@) by {
        assert("KeyC"@[3] != "KeyQ"@[3]);
    }
    assert(hotkey_of_name(q@) == HotKey::KeyQ);
    assert(hotkey_of_name(c@) == HotKey::KeyC);
    assert((0u16 | 8u16) | 16u16 == 24u16) by (bit_vector);
    assert((24u16 & !8u16) & !16u16 == 0u16) by (bit_vector);
    assert(0u16 | 8u16 == 8u16) by (bit_vector);
    assert(24u16 & !8u16 == 16u16) by (bit_vector);
}

/// The metric writer is never asked to stop while the log writer runs: a
/// look at the shutdown changes the metric only once the logger has stopped,
/// and then only to ask its writer to stop.
pub proof fn lemma_logger_stops_first(v: LogicView)
    ensures
        shutdown_step(v).0.metrics != v.metrics ==> v.logger.signal
            == Signals::LoggerReadyShutdown.code() && shutdown_step(v).0.metrics.signal == SHOULD_STOP,
        shutdown_step(v).0.logger == v.logger,
        shutdown_step(v).1 == ShutdownProgress::Done <==> (v.logger.signal
            == Signals::LoggerReadyShutdown.code() && v.metrics.signal == READY_TO_STOP),
{
}


/// The bit that a key name holds in the combination: Escape 0b1,
/// ControlLeft 0b10, ShiftLeft 0b100, Q 0b1000, C 0b10000, other keys none.
pub open spec fn name_bit(name: Seq<char>) -> u16 {
    if name == "Escape"@ {
        0b1
    } else if name == "ControlLeft"@ {
        0b10
    } else if name == "ShiftLeft"@ {
        0b100
    } else if name == "KeyQ"@ {
        0b1000
    } else if name == "KeyC"@ {
        0b10000
    } else {
        0
    }
}

/// A key event changes the held combination by exactly the key's own bit:
/// a press adds it, a release removes it, and a key that is no component
/// changes nothing at all. A press that leaves exactly Escape held raises
/// the shutdown signal, exactly Q and C the greeting; any other press leaves
/// the pending signal as it was. A press then a release of one key, from
/// rest, returns the combination to rest.
pub proof fn lemma_event_bits(v: LogicView, name: String)
    ensures
        after_event(v, EventType::KeyPress(name)).combination == v.combination | name_bit(name@),
        after_event(v, EventType::KeyRelease(name)).combination == v.combination & !name_bit(
            name@,
        ),
        name_bit(name@) == 0 ==> after_event(v, EventType::KeyPress(name)) == v
            && after_event(v, EventType::KeyRelease(name)) == v,
        name_bit(name@) != 0 ==> after_event(v, EventType::KeyPress(name)).signal_state == ({
            let c = v.combination | name_bit(name@);
            if c == 0b1 {
                1u8
            } else if c == 0b11000 {
                2u8
            } else {
                v.signal_state
            }
        }),
        v.combination == 0 ==> after_event(
            after_event(v, EventType::KeyPress(name)),
            EventType::KeyRelease(name),
        ).combination == 0,
{
    crate::hotkey::lemma_key_names_exact(name@);
    let key = hotkey_of_name(name@);
    crate::hotkey::lemma_component_bits(key);
    assert(key.mask() == name_bit(name@));
    let c: u16 = v.combination;
    let b: u16 = name_bit(name@);
    assert(c | 0 == c && c & !0u16 == c) by (bit_vector);
    assert(c == 0 ==> (c | b) & !b == 0) by (bit_vector);
}

} // verus!
