use vstd::prelude::*;
use crate::clock::{format_time_stamp, time_stamp_text, ClockTime};
use crate::metrics::next_count;
use crate::signals::Signals;
use crate::text::{
    all_digits, decimal, digits_value, lemma_decimal, lemma_decimal_no_leading_zero, push_decimal,
    string_views,
};

verus! {

/// Where the key log is written.
pub const DEFAULT_PATH: &'static str = "src/logs/list.log";

/// What a log line holds after its time stamp: the entry's number, then the
/// key's name in single quotes, and the line's end.
pub open spec fn keyed_entry(id: u32, key_name: Seq<char>) -> Seq<char> {
    decimal(id as nat) + ", '"@ + key_name + "'\n"@
}

/// A whole log line.
pub open spec fn log_line(stamp: Seq<char>, id: u32, key_name: Seq<char>) -> Seq<char> {
    stamp + keyed_entry(id, key_name)
}

/// The key log: the lines not yet written, the next line's number and the
/// state of its writer.
pub struct LoggerView {
    pub file_path: Seq<char>,
    pub next_log_id: u32,
    pub logs: Seq<Seq<char>>,
    pub signal: u8,
}

/// The logger after it has recorded a key with the given time stamp.
pub open spec fn recorded(v: LoggerView, stamp: Seq<char>, key_name: Seq<char>) -> LoggerView {
    LoggerView {
        next_log_id: next_count(v.next_log_id),
        logs: v.logs.push(log_line(stamp, v.next_log_id, key_name)),
        ..v
    }
}

/// Keeps a line for each pressed key until its writer saves them.
pub struct Logger {
    file_path: String,
    next_log_id: u32,
    logs: Vec<String>,
    signal: u8,
}

impl View for Logger {
    type V = LoggerView;

    closed spec fn view(&self) -> LoggerView {
        LoggerView {
            file_path: self.file_path@,
            next_log_id: self.next_log_id,
            logs: string_views(self.logs@),
            signal: self.signal,
        }
    }
}

impl Logger {
    /// A new logger: nothing logged, the first line numbered 0.
    pub open spec fn new_spec() -> LoggerView {
        LoggerView {
            file_path: DEFAULT_PATH@,
            next_log_id: 0,
            logs: Seq::empty(),
            signal: Signals::NoSignal.code(),
        }
    }

    pub fn new() -> (l: Logger)
        ensures
            l@ == Logger::new_spec(),
    {
        let l = Logger {
            file_path: String::from_str(DEFAULT_PATH),
            next_log_id: 0,
            logs: Vec::new(),
            signal: Signals::NoSignal.as_uint(),
        };
        assert(string_views(l.logs@) =~= Seq::empty());
        l
    }

    pub fn file_path(&self) -> (p: &str)
        ensures
            p@ == self@.file_path,
    {
        self.file_path.as_str()
    }

    pub fn next_log_id(&self) -> (id: u32)
        ensures
            id == self@.next_log_id,
    {
        self.next_log_id
    }

    /// The lines not yet saved, oldest first.
    pub fn logs(&self) -> (logs: &Vec<String>)
        ensures
            string_views(logs@) == self@.logs,
    {
        &self.logs
    }

    pub fn signal(&self) -> (s: u8)
        ensures
            s == self@.signal,
    {
        self.signal
    }

    /// Records a pressed key under the given time stamp; the line's number
    /// is the next one, which wraps at `u32::MAX`.
    pub fn record_key(&mut self, stamp: &str, key_name: &str)
        ensures
            final(self)@ == recorded(old(self)@, stamp@, key_name@),
    {
        let mut line: String = String::from_str(stamp);
        push_decimal(&mut line, self.next_log_id);
        line.append(", '");
        line.append(key_name);
        line.append("'\n");
        assert(line@ =~= log_line(stamp@, self.next_log_id, key_name@));
        let ghost before: Seq<String> = self.logs@;
        self.logs.push(line);
        assert(string_views(self.logs@) =~= string_views(before).push(line@));
        self.next_log_id = if self.next_log_id == u32::MAX {
            0
        } else {
            self.next_log_id + 1
        };
    }

    /// Records a pressed key under the time read from the clock.
    pub fn log_key(&mut self, now: ClockTime, key_name: &str)
        requires
            now.in_range(),
        ensures
            final(self)@ == recorded(
                old(self)@,
                time_stamp_text(now.secs as nat, now.nanos as nat),
                key_name@,
            ),
    {
        match format_time_stamp(now.secs as i64, now.nanos) {
            Some(stamp) => self.record_key(stamp.as_str(), key_name),
            None => {},
        }
    }

    /// The answer to an attempt to create the log file: the writer may run
    /// once the file is there; otherwise no writer will run, the logger
    /// counts as stopped, and the attempt's error is returned.
    pub fn start(&mut self, created: Result<(), String>) -> (res: Result<String, String>)
        ensures
            match created {
                Ok(_) => res matches Ok(msg) && msg@ == "File found"@ && final(self)@ == old(self)@,
                Err(e) => res == Err::<String, String>(e) && final(self)@ == (LoggerView {
                    signal: Signals::LoggerReadyShutdown.code(),
                    ..old(self)@
                }),
            },
    {
        match created {
            Ok(_) => Ok(String::from_str("File found")),
            Err(e) => {
                self.mark_ready_shutdown();
                Err(e)
            },
        }
    }

    /// Hands out the lines not yet saved, oldest first, and forgets them.
    pub fn take_logs(&mut self) -> (saved: Vec<String>)
        ensures
            string_views(saved@) == old(self)@.logs,
            final(self)@ == (LoggerView { logs: Seq::empty(), ..old(self)@ }),
    {
        let mut saved: Vec<String> = Vec::new();
        std::mem::swap(&mut saved, &mut self.logs);
        assert(string_views(self.logs@) =~= Seq::empty());
        saved
    }

    /// Asks the writer to save what is left and stop; the answer says whether
    /// a writer must still be waited for (none must where the logger has
    /// stopped already).
    pub fn shutdown(&mut self) -> (must_wait: bool)
        ensures
            must_wait == (old(self)@.signal != Signals::LoggerReadyShutdown.code()),
            final(self)@ == (if must_wait {
                LoggerView { signal: Signals::StopLogger.code(), ..old(self)@ }
            } else {
                old(self)@
            }),
    {
        if self.signal == Signals::LoggerReadyShutdown.as_uint() {
            return false;
        }
        self.signal = Signals::StopLogger.as_uint();
        true
    }

    /// One round of the writer: the lines to save, oldest first, which the
    /// logger forgets, and whether the writer is to stop after saving them.
    pub fn writer_step(&mut self) -> (res: (Vec<String>, bool))
        ensures
            string_views(res.0@) == old(self)@.logs,
            res.1 == (old(self)@.signal == Signals::StopLogger.code()),
            final(self)@ == (LoggerView { logs: Seq::empty(), ..old(self)@ }),
    {
        let stop: bool = self.stop_requested();
        let lines: Vec<String> = self.take_logs();
        (lines, stop)
    }

    /// Whether the writer has been asked to stop.
    pub fn stop_requested(&self) -> (b: bool)
        ensures
            b == (self@.signal == Signals::StopLogger.code()),
    {
        self.signal == Signals::StopLogger.as_uint()
    }

    /// The writer has saved everything and stopped.
    pub fn mark_ready_shutdown(&mut self)
        ensures
            final(self)@ == (LoggerView { signal: Signals::LoggerReadyShutdown.code(), ..old(self)@ }),
    {
        self.signal = Signals::LoggerReadyShutdown.as_uint();
    }

    pub fn is_ready_shutdown(&self) -> (b: bool)
        ensures
            b == (self@.signal == Signals::LoggerReadyShutdown.code()),
    {
        self.signal == Signals::LoggerReadyShutdown.as_uint()
    }
}

/// Saving hands out every recorded line, in the order of the keys, each with
/// the number that follows the one before; nothing is left to save after it.
pub proof fn lemma_saved_in_order(
    v: LoggerView,
    stamp1: Seq<char>,
    key1: Seq<char>,
    stamp2: Seq<char>,
    key2: Seq<char>,
)
    ensures
        ({
            let after = recorded(recorded(v, stamp1, key1), stamp2, key2);
            &&& after.logs == v.logs + seq![
                log_line(stamp1, v.next_log_id, key1),
                log_line(stamp2, next_count(v.next_log_id), key2),
            ]
            &&& after.next_log_id == next_count(next_count(v.next_log_id))
        }),
{
    let after = recorded(recorded(v, stamp1, key1), stamp2, key2);
    assert(after.logs =~= v.logs + seq![
        log_line(stamp1, v.next_log_id, key1),
        log_line(stamp2, next_count(v.next_log_id), key2),
    ]);
}

/// A step of the key log: a key recorded under a time stamp, or a save that
/// takes every pending line.
pub enum LogStep {
    Record(Seq<char>, Seq<char>),
    Take,
}

/// Runs the steps from `v`: the logger after them, the lines handed out by
/// the saves (in the order handed out), and the lines recorded (in the order
/// recorded).
pub open spec fn run_log(v: LoggerView, steps: Seq<LogStep>) -> (LoggerView, Seq<Seq<char>>, Seq<
    Seq<char>,
>)
    decreases steps.len(),
{
    if steps.len() == 0 {
        (v, seq![], seq![])
    } else {
        let (w, saved, rec) = run_log(v, steps.drop_last());
        match steps.last() {
            LogStep::Record(stamp, key_name) => (
                recorded(w, stamp, key_name),
                saved,
                rec.push(log_line(stamp, w.next_log_id, key_name)),
            ),
            LogStep::Take => (LoggerView { logs: Seq::empty(), ..w }, saved + w.logs, rec),
        }
    }
}

/// No line is lost, doubled or reordered: over any run of records and saves,
/// the lines saved followed by those still pending are the lines pending at
/// the start followed by every line recorded, in order.
pub proof fn lemma_lines_conserved(v: LoggerView, steps: Seq<LogStep>)
    ensures
        ({
            let (w, saved, rec) = run_log(v, steps);
            saved + w.logs == v.logs + rec
        }),
    decreases steps.len(),
{
    if steps.len() > 0 {
        lemma_lines_conserved(v, steps.drop_last());
        let (w, saved, rec) = run_log(v, steps.drop_last());
        match steps.last() {
            LogStep::Record(stamp, key_name) => {
                let line = log_line(stamp, w.next_log_id, key_name);
                assert(saved + w.logs.push(line) =~= (saved + w.logs).push(line));
                assert((v.logs + rec).push(line) =~= v.logs + rec.push(line));
            },
            LogStep::Take => {
                assert(saved + w.logs + Seq::<Seq<char>>::empty() =~= saved + w.logs);
            },
        }
    }
}


/// Recording a key keeps every earlier line and adds one at the end: the
/// stamp, then the line's number written in full in decimal digits (no
/// leading zero), a comma, the key's name in single quotes and the line's
/// end. The next number is one more, modulo 2^32.
pub proof fn lemma_record_numbers_in_full(v: LoggerView, stamp: Seq<char>, key_name: Seq<char>)
    ensures
        ({
            let w = recorded(v, stamp, key_name);
            &&& w.logs.len() == v.logs.len() + 1
            &&& w.logs.take(v.logs.len() as int) == v.logs
            &&& exists|d: Seq<char>|
                {
                    &&& d.len() >= 1
                    &&& all_digits(d)
                    &&& (d[0] == '0' ==> d.len() == 1)
                    &&& #[trigger] digits_value(d) == v.next_log_id
                    &&& w.logs.last() == stamp + d + ", '"@ + key_name + "'\n"@
                }
            &&& w.next_log_id as int == (v.next_log_id as int + 1) % 0x1_0000_0000
        }),
{
    let w = recorded(v, stamp, key_name);
    let d = decimal(v.next_log_id as nat);
    lemma_decimal(v.next_log_id as nat);
    lemma_decimal_no_leading_zero(v.next_log_id as nat);
    assert(w.logs.take(v.logs.len() as int) =~= v.logs);
    assert(w.logs.last() =~= stamp + d + ", '"@ + key_name + "'\n"@);
    assert(digits_value(d) == v.next_log_id);
    crate::metrics::lemma_count_wraps(v.next_log_id);
}

} // verus!
