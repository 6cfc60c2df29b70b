use vstd::prelude::*;
use crate::clock::{time_stamp_text, ClockTime};
use crate::logger::recorded;
use crate::logic::{after_event, signal_taken, EventType, KeyEvent, Logic, LogicView};
use crate::metrics::{next_count, MetricsView};
use crate::safe_term::{SafeTerm, TERMINATING};
use crate::signals::Signals;

verus! {

/// What the signal analyzer is to do after one look at the signals.
#[derive(Copy, Clone, Debug, PartialEq, Eq, Structural)]
pub enum AnalyzerStep {
    /// The process was asked to terminate: stop at once.
    Terminate,
    /// Nothing to do: look again.
    Idle,
    /// Print the greeting, then look again.
    HelloWorld,
    /// A shutdown was signalled: report it and stop.
    Shutdown,
}

/// What a pending signal asks of the analyzer; unknown bytes are ignored.
pub open spec fn step_for_signal(signal: u8) -> AnalyzerStep {
    if signal == Signals::PrintHelloWorld.code() {
        AnalyzerStep::HelloWorld
    } else if signal == Signals::Shutdown.code() {
        AnalyzerStep::Shutdown
    } else {
        AnalyzerStep::Idle
    }
}

/// One look of the signal analyzer. A termination request comes first and
/// leaves the pending signal where it is; otherwise the pending signal is
/// taken and decides the step.
pub fn analyze_signals(safe_term: &SafeTerm, logic: &mut Logic) -> (step: AnalyzerStep)
    ensures
        safe_term@ == TERMINATING ==> step == AnalyzerStep::Terminate && final(logic)@ == old(logic)@,
        safe_term@ != TERMINATING ==> step == step_for_signal(old(logic)@.signal_state)
            && final(logic)@ == signal_taken(old(logic)@),
{
    // core signal "the program must be terminated" (highest priority)
    if safe_term.has_stop_signal_arrived() {
        return AnalyzerStep::Terminate;
    }
    let signal: u8 = logic.get_signal_state();
    if signal == Signals::NoSignal.as_uint() {
        return AnalyzerStep::Idle;
    }
    if signal == Signals::PrintHelloWorld.as_uint() {
        logic.reset_signal();
        return AnalyzerStep::HelloWorld;
    }
    if signal == Signals::Shutdown.as_uint() {
        return AnalyzerStep::Shutdown;
    }
    AnalyzerStep::Idle
}

/// What the keyboard listener does with each event: log the key under the
/// time read from the clock, follow the hotkeys, count the key.
pub fn on_key_event(logic: &mut Logic, event: &KeyEvent, now: ClockTime)
    requires
        event.event_type is KeyPress ==> now.in_range(),
    ensures
        match event.event_type {
            EventType::KeyPress(name) => final(logic)@ == ({
                let v = after_event(old(logic)@, event.event_type);
                LogicView {
                    logger: recorded(
                        old(logic)@.logger,
                        time_stamp_text(now.secs as nat, now.nanos as nat),
                        name@,
                    ),
                    metrics: MetricsView {
                        total_pressed: next_count(old(logic)@.metrics.total_pressed),
                        ..old(logic)@.metrics
                    },
                    ..v
                }
            }),
            _ => final(logic)@ == after_event(old(logic)@, event.event_type),
        },
{
    logic.log_key(event, now);
    logic.process_event(&event.event_type);
    logic.update_metric(event);
}

} // verus!
