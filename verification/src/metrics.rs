use vstd::prelude::*;
use crate::text::{
    all_digits, is_white, lemma_decimal, lemma_line_end_run, lemma_skip_white_run,
    lemma_skip_word_run, lines_from, decimal, lines_of, parse_u32, parse_u32_spec, push_decimal, second_word, second_word_of,
    starts_with, str_starts_with,
};

verus! {

/// Where the metric is kept between runs.
pub const DEFAULT_PATH: &'static str = "src/data/stats.met";

/// The metric's state byte: the writer runs.
pub const RELAXED: u8 = 0;

/// The metric's state byte: the writer is asked to save once more and stop.
pub const SHOULD_STOP: u8 = 1;

/// The metric's state byte: the writer has stopped, or never ran.
pub const READY_TO_STOP: u8 = 2;

/// The name of the metric at the head of its line in the file.
pub open spec fn metric_name() -> Seq<char> {
    "Total-pressed"@
}

/// The line that keeps the count `n`.
pub open spec fn metric_line(n: nat) -> Seq<char> {
    "Total-pressed: "@ + decimal(n)
}

/// The whole text that the writer saves for the count `n`.
pub open spec fn metric_file(n: nat) -> Seq<char> {
    metric_line(n) + "\n"@
}

/// The count that a metric line holds: its second word, read as a `u32`.
pub open spec fn total_of_line(line: Seq<char>) -> Option<u32> {
    match second_word(line) {
        Some(w) => parse_u32_spec(w),
        None => None,
    }
}

/// How a reading of the metric file ended.
pub enum LoadEnd {
    /// Every line was read.
    Complete,
    /// Reading a line failed with this error.
    ReadFailed(Seq<char>),
    /// A line that begins with the metric's name holds no count.
    BadCount,
}

/// The lines of a file as a reader hands them out: each one, or the error
/// met reading it.
pub open spec fn line_views(lines: Seq<Result<String, String>>) -> Seq<Result<Seq<char>, Seq<char>>> {
    lines.map_values(
        |r: Result<String, String>|
            match r {
                Ok(l) => Ok(l@),
                Err(e) => Err(e@),
            },
    )
}

/// The lines of a text that was read without error.
pub open spec fn read_lines(lines: Seq<Seq<char>>) -> Seq<Result<Seq<char>, Seq<char>>> {
    lines.map_values(|l: Seq<char>| Ok(l))
}

/// Reading the lines from `i` on with the count at `total`: each line that
/// begins with the metric's name sets the count; the first line that cannot
/// be read, or the first metric line that holds no count, stops the reading.
/// The result is the count and how the reading ended.
pub open spec fn load_from(lines: Seq<Result<Seq<char>, Seq<char>>>, i: nat, total: u32) -> (u32, LoadEnd)
    decreases lines.len() - i,
{
    if i >= lines.len() {
        (total, LoadEnd::Complete)
    } else {
        match lines[i as int] {
            Err(e) => (total, LoadEnd::ReadFailed(e)),
            Ok(line) => if starts_with(line, metric_name()) {
                match total_of_line(line) {
                    Some(v) => load_from(lines, i + 1, v),
                    None => (total, LoadEnd::BadCount),
                }
            } else {
                load_from(lines, i + 1, total)
            },
        }
    }
}

/// The answer to a reading of the metric file that ended as `end`.
pub open spec fn load_answer(end: LoadEnd, res: Result<String, String>) -> bool {
    match end {
        LoadEnd::Complete => res matches Ok(msg) && msg@ == "[matrics]: Data was correctly read"@,
        LoadEnd::ReadFailed(e) => res matches Err(msg) && msg@ == e,
        LoadEnd::BadCount => res matches Err(msg) && msg@ == invalid_data_message(),
    }
}

pub open spec fn next_count(n: u32) -> u32 {
    if n == u32::MAX {
        0
    } else {
        (n + 1) as u32
    }
}

/// The key-press count, with the state of its writer.
pub struct MetricsView {
    pub file_path: Seq<char>,
    pub signal: u8,
    pub total_pressed: u32,
}

/// Counts the keys pressed and keeps the count in a file between runs.
pub struct Metrics {
    file_path: String,
    signal: u8,
    total_pressed: u32,
}

impl View for Metrics {
    type V = MetricsView;

    closed spec fn view(&self) -> MetricsView {
        MetricsView { file_path: self.file_path@, signal: self.signal, total_pressed: self.total_pressed }
    }
}

pub open spec fn invalid_data_message() -> Seq<char> {
    "[matrics]: Incorrect data. Will be using default value"@
}

fn invalid_data() -> (e: String)
    ensures
        e@ == invalid_data_message(),
{
    String::from_str("[matrics]: Incorrect data. Will be using default value")
}

impl Metrics {
    /// A new metric: the count at 0, the writer not yet asked to stop.
    pub open spec fn new_spec() -> MetricsView {
        MetricsView { file_path: DEFAULT_PATH@, signal: RELAXED, total_pressed: 0 }
    }

    pub fn new() -> (m: Metrics)
        ensures
            m@ == Metrics::new_spec(),
    {
        Metrics { file_path: String::from_str(DEFAULT_PATH), signal: RELAXED, total_pressed: 0 }
    }

    pub fn file_path(&self) -> (p: &str)
        ensures
            p@ == self@.file_path,
    {
        self.file_path.as_str()
    }

    pub fn total_pressed(&self) -> (n: u32)
        ensures
            n == self@.total_pressed,
    {
        self.total_pressed
    }

    pub fn signal(&self) -> (s: u8)
        ensures
            s == self@.signal,
    {
        self.signal
    }

    /// Counts one more pressed key; the count wraps at `u32::MAX`.
    pub fn update_metric(&mut self, _key_name: &str)
        ensures
            final(self)@ == (MetricsView { total_pressed: next_count(old(self)@.total_pressed), ..old(self)@ }),
    {
        self.total_pressed = if self.total_pressed == u32::MAX {
            0
        } else {
            self.total_pressed + 1
        };
    }

    /// Reads the count from a metric line.
    pub fn read_total_pressed(&mut self, line: &str) -> (res: Result<String, String>)
        ensures
            res is Ok <==> total_of_line(line@) is Some,
            match res {
                Ok(msg) => msg@ == "[matrics]: Read total pressed"@ && final(self)@ == (MetricsView {
                    total_pressed: total_of_line(line@).unwrap(),
                    ..old(self)@
                }),
                Err(msg) => msg@ == invalid_data_message() && final(self)@ == old(self)@,
            },
    {
        match second_word_of(line) {
            Some(word) => match parse_u32(word) {
                Some(value) => {
                    self.total_pressed = value;
                    Ok(String::from_str("[matrics]: Read total pressed"))
                },
                None => Err(invalid_data()),
            },
            None => Err(invalid_data()),
        }
    }

    /// Reads the count from the lines of the metric file, as a reader hands
    /// them out.
    pub fn read_data(&mut self, lines: &Vec<Result<String, String>>) -> (res: Result<String, String>)
        ensures
            final(self)@ == (MetricsView {
                total_pressed: load_from(line_views(lines@), 0, old(self)@.total_pressed).0,
                ..old(self)@
            }),
            load_answer(load_from(line_views(lines@), 0, old(self)@.total_pressed).1, res),
    {
        let ghost views: Seq<Result<Seq<char>, Seq<char>>> = line_views(lines@);
        let ghost start: u32 = self.total_pressed;
        let n: usize = lines.len();
        let mut i: usize = 0;
        proof {
            reveal_strlit("Total-pressed");
        }
        while i < n
            invariant
                n == lines@.len(),
                i <= n,
                views == line_views(lines@),
                start == old(self)@.total_pressed,
                self@.file_path == old(self)@.file_path,
                self@.signal == old(self)@.signal,
                load_from(views, i as nat, self@.total_pressed) == load_from(views, 0, start),
            decreases n - i,
        {
            match &lines[i] {
                Err(e) => {
                    assert(views[i as int] == Err::<Seq<char>, Seq<char>>(e@));
                    return Err(e.clone());
                },
                Ok(line) => {
                    assert(views[i as int] == Ok::<Seq<char>, Seq<char>>(line@));
                    if str_starts_with(line.as_str(), "Total-pressed") {
                        let res: Result<String, String> = self.read_total_pressed(line.as_str());
                        if res.is_err() {
                            return res;
                        }
                    }
                },
            }
            i = i + 1;
        }
        Ok(String::from_str("[matrics]: Data was correctly read"))
    }

    /// Loads the count from the metric file's lines, or takes the error met
    /// opening it; where the reading does not end well the metric stops
    /// without a writer.
    pub fn start(&mut self, source: Result<Vec<Result<String, String>>, String>) -> (res: Result<
        String,
        String,
    >)
        ensures
            match source {
                Err(e) => res == Err::<String, String>(e) && final(self)@ == (MetricsView {
                    signal: READY_TO_STOP,
                    ..old(self)@
                }),
                Ok(lines) => {
                    let loaded = load_from(line_views(lines@), 0, old(self)@.total_pressed);
                    &&& final(self)@.total_pressed == loaded.0
                    &&& final(self)@.file_path == old(self)@.file_path
                    &&& final(self)@.signal == (if loaded.1 is Complete {
                        old(self)@.signal
                    } else {
                        READY_TO_STOP
                    })
                    &&& load_answer(loaded.1, res)
                },
            },
    {
        match source {
            Err(e) => {
                self.set_ready_to_stop();
                Err(e)
            },
            Ok(lines) => {
                let res: Result<String, String> = self.read_data(&lines);
                if res.is_err() {
                    self.set_ready_to_stop();
                }
                res
            },
        }
    }

    /// The text that the writer saves: the metric's line.
    pub fn metric_text(&self) -> (text: String)
        ensures
            text@ == metric_file(self@.total_pressed as nat),
    {
        let mut text: String = String::from_str("Total-pressed: ");
        push_decimal(&mut text, self.total_pressed);
        text.append("\n");
        text
    }

    /// One round of the writer: the text to save, and whether the writer is
    /// to stop after saving it.
    pub fn writer_step(&self) -> (res: (String, bool))
        ensures
            res.0@ == metric_file(self@.total_pressed as nat),
            res.1 == (self@.signal == SHOULD_STOP),
    {
        (self.metric_text(), self.writer_should_stop())
    }

    pub fn set_ready_to_stop(&mut self)
        ensures
            final(self)@ == (MetricsView { signal: READY_TO_STOP, ..old(self)@ }),
    {
        self.signal = READY_TO_STOP;
    }

    /// Whether the writer has been asked to save once more and stop.
    pub fn writer_should_stop(&self) -> (b: bool)
        ensures
            b == (self@.signal == SHOULD_STOP),
    {
        self.signal == SHOULD_STOP
    }

    pub fn is_ready_to_stop(&self) -> (b: bool)
        ensures
            b == (self@.signal == READY_TO_STOP),
    {
        self.signal == READY_TO_STOP
    }

    /// Asks the writer to stop; the answer says whether a writer must still
    /// be waited for (none must where the metric has stopped already).
    pub fn shutdown(&mut self) -> (must_wait: bool)
        ensures
            must_wait == (old(self)@.signal != READY_TO_STOP),
            final(self)@ == (if must_wait {
                MetricsView { signal: SHOULD_STOP, ..old(self)@ }
            } else {
                old(self)@
            }),
    {
        if self.signal == READY_TO_STOP {
            return false;
        }
        self.signal = SHOULD_STOP;
        true
    }
}

/// What the writer saves reads back as the count that it saved, whatever
/// the count was before the reading, when its lines are read as
/// `BufRead::lines` hands them out (`lines_of`, which `split_lines` computes).
pub proof fn lemma_metric_round_trip(n: u32, total: u32)
    ensures
        load_from(read_lines(lines_of(metric_file(n as nat))), 0, total) == (n, LoadEnd::Complete),
{
    reveal_strlit("Total-pressed: ");
    reveal_strlit("Total-pressed");
    reveal_strlit("\n");
    lemma_decimal(n as nat);
    let d = decimal(n as nat);
    let p = "Total-pressed: "@;
    assert(p =~= seq!['T', 'o', 't', 'a', 'l', '-', 'p', 'r', 'e', 's', 's', 'e', 'd', ':', ' ']);
    assert(metric_name() =~= seq!['T', 'o', 't', 'a', 'l', '-', 'p', 'r', 'e', 's', 's', 'e', 'd']);
    assert("\n"@ =~= seq!['\n']);
    let line = metric_line(n as nat);
    let file = metric_file(n as nat);
    let len = line.len();
    assert(len == 15 + d.len());
    assert forall|k: int| 15 <= k < len implies !is_white(#[trigger] line[k]) && line[k] != '\n' && line[k] != '\r' by {
        assert(line[k] == d[k - 15]);
        assert(all_digits(d));
    }
    assert forall|k: int| 0 <= k < 14 implies !is_white(#[trigger] line[k]) && line[k] != '\n' by {
        assert(line[k] == p[k]);
    }
    assert(line[14] == ' ');
    // the file is one line
    assert forall|k: int| 0 <= k < len implies #[trigger] file[k] != '\n' by {
        assert(file[k] == line[k]);
    }
    assert(file[len as int] == '\n');
    lemma_line_end_run(file, 0, len);
    assert(file.subrange(0, len as int) =~= line);
    assert(line.last() != '\r');
    assert(lines_from(file, len + 1) =~= Seq::<Seq<char>>::empty());
    assert(lines_of(file) =~= seq![line]);
    // the line begins with the metric's name and its second word is the count
    assert(line.take(13) =~= metric_name());
    lemma_skip_white_run(line, 0, 0);
    lemma_skip_word_run(line, 0, 14);
    lemma_skip_white_run(line, 14, 15);
    lemma_skip_word_run(line, 15, len);
    assert(line.subrange(15, len as int) =~= d);
    assert(second_word(line) == Some(d));
    assert(total_of_line(line) == Some(n));
    assert(read_lines(seq![line]) =~= seq![Ok::<Seq<char>, Seq<char>>(line)]);
    assert(load_from(read_lines(seq![line]), 1, n) == (n, LoadEnd::Complete));
}


/// One press adds one to the count, modulo 2^32: the count wraps only past
/// `u32::MAX`.
pub proof fn lemma_count_wraps(n: u32)
    ensures
        next_count(n) as int == (n as int + 1) % 0x1_0000_0000,
{
}

} // verus!
