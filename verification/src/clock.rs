use vstd::prelude::*;
use crate::text::{digit_char, is_digit};

verus! {

/// The last second since the Unix epoch that the time stamp can show:
/// 262142-12-31 23:59:59 UTC, the end of chrono's calendar.
pub const MAX_STAMP_SECS: u64 = 8210266876799;

/// A reading of the system clock: whole seconds since the Unix epoch and the
/// nanoseconds into the current second.
#[derive(Copy, Clone, Debug, PartialEq, Eq, Structural)]
pub struct ClockTime {
    pub secs: u64,
    pub nanos: u32,
}

impl ClockTime {
    /// A reading that the time stamp can show: after the epoch, within the
    /// calendar, and not inside a leap second.
    pub open spec fn in_range(self) -> bool {
        self.secs <= MAX_STAMP_SECS && self.nanos < 1_000_000_000
    }
}

pub open spec fn two_digits(v: nat) -> Seq<char> {
    seq![digit_char(v / 10), digit_char(v % 10)]
}

pub open spec fn three_digits(v: nat) -> Seq<char> {
    seq![digit_char(v / 100), digit_char(v / 10 % 10), digit_char(v % 10)]
}

/// The time stamp of a log line, `[HH:MM:SS.mmm]: `, for a time given in
/// seconds since the epoch and nanoseconds into the second.
pub open spec fn time_stamp_text(secs: nat, nanos: nat) -> Seq<char> {
    let day = secs % 86400;
    seq!['['] + two_digits(day / 3600) + seq![':'] + two_digits(day / 60 % 60) + seq![':']
        + two_digits(day % 60) + seq!['.'] + three_digits(nanos / 1_000_000 % 1000) + seq![
        ']',
        ':',
        ' ',
    ]
}

/// The shape of a log line's time stamp: sixteen characters, the fields
/// written in decimal digits.
pub open spec fn is_time_stamp(s: Seq<char>) -> bool {
    &&& s.len() == 16
    &&& s[0] == '['
    &&& s[3] == ':'
    &&& s[6] == ':'
    &&& s[9] == '.'
    &&& s[13] == ']'
    &&& s[14] == ':'
    &&& s[15] == ' '
    &&& forall|i: int|
        (i == 1 || i == 2 || i == 4 || i == 5 || i == 7 || i == 8 || i == 10 || i == 11 || i == 12)
            ==> is_digit(#[trigger] s[i])
}

/// Calls `chrono::DateTime::from_timestamp(secs, nanos)` and writes the time
/// with the pattern `[%H:%M:%S.%3f]: `. chrono gives a time for every second
/// of its calendar (down to 262143 BCE and up to 262142 CE); it writes hours,
/// minutes and seconds in two zero-padded digits (a leap second as 60) and
/// the milliseconds, `nanos / 1_000_000 % 1000`, in three. For a time after
/// the epoch outside a leap second the text is stated in full; for other
/// times only its shape is.
#[verifier::external_body]
pub(crate) fn format_time_stamp(secs: i64, nanos: u32) -> (stamp: Option<String>)
    ensures
        (0 <= secs <= MAX_STAMP_SECS && nanos < 1_000_000_000) ==> (stamp is Some
            && stamp.unwrap()@ == time_stamp_text(secs as nat, nanos as nat)),
        stamp is Some ==> is_time_stamp(stamp.unwrap()@),
{
    match chrono::DateTime::from_timestamp(secs, nanos) {
        Some(time) => Some(time.format("[%H:%M:%S.%3f]: ").to_string()),
        None => None,
    }
}

/// The stamp of a time in range has the shape of a time stamp.
pub proof fn lemma_time_stamp_shape(secs: nat, nanos: nat)
    ensures
        is_time_stamp(time_stamp_text(secs, nanos)),
{
    let day = secs % 86400;
    let s = time_stamp_text(secs, nanos);
    let vs = seq![
        day / 3600 / 10, day / 3600 % 10, day / 60 % 60 / 10, day / 60 % 60 % 10, day % 60 / 10,
        day % 60 % 10, nanos / 1_000_000 % 1000 / 100, nanos / 1_000_000 % 1000 / 10 % 10,
        nanos / 1_000_000 % 1000 % 10,
    ];
    assert(day < 86400);
    assert(day / 3600 < 24);
    assert(s[1] == digit_char(vs[0]) && s[2] == digit_char(vs[1]));
    assert forall|k: int| 0 <= k < 9 implies is_digit(#[trigger] digit_char(vs[k])) && vs[k] < 10 by {
        assert(vs[k] < 10);
        assert(digit_char(vs[k]) as u32 == vs[k] + 48);
    }
}

} // verus!
