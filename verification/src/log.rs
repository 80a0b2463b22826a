//! The lines of the log and when the file starts over.

use crate::text::{padded, push_padded};
use vstd::prelude::*;

verus! {

/// Name of the log file.
pub const LOG_FILE: &'static str = "app.log";

/// Size above which the log starts over at launch.
pub const MAX_LOG_BYTES: u64 = 1_048_576;

/// First line of a run.
pub const LAUNCH_LINE: &'static str = "--- launch ---";

/// A local time.
#[derive(Clone, Copy, Debug, PartialEq, Eq, Structural)]
pub struct LocalTime {
    pub year: u16,
    pub month: u16,
    pub day: u16,
    pub hour: u16,
    pub minute: u16,
    pub second: u16,
}

/// Whether the log file is emptied at launch. The size is none where it cannot be told.
pub fn starts_over(size: Option<u64>) -> (r: bool)
    ensures
        r == (size matches Some(n) && n > MAX_LOG_BYTES),
{
    match size {
        Some(n) => n > MAX_LOG_BYTES,
        None => false,
    }
}

/// `YYYY-MM-DD hh:mm:ss`.
pub open spec fn timestamp_text(t: LocalTime) -> Seq<char> {
    padded(t.year as nat, 4) + "-"@ + padded(t.month as nat, 2) + "-"@ + padded(t.day as nat, 2)
        + " "@ + padded(t.hour as nat, 2) + ":"@ + padded(t.minute as nat, 2) + ":"@ + padded(
        t.second as nat,
        2,
    )
}

/// The time of a log line.
pub fn timestamp(t: LocalTime) -> (r: String)
    ensures
        r@ == timestamp_text(t),
{
    let mut out = String::new();
    push_padded(&mut out, t.year, 4);
    assert(out@ =~= padded(t.year as nat, 4));
    out.append("-");
    push_padded(&mut out, t.month, 2);
    out.append("-");
    push_padded(&mut out, t.day, 2);
    out.append(" ");
    push_padded(&mut out, t.hour, 2);
    out.append(":");
    push_padded(&mut out, t.minute, 2);
    out.append(":");
    push_padded(&mut out, t.second, 2);
    out
}

/// A line of the log, with its end.
pub open spec fn line_text(t: LocalTime, level: Seq<char>, msg: Seq<char>) -> Seq<char> {
    timestamp_text(t) + " ["@ + level + "] "@ + msg + "\n"@
}

/// A line of the log at the given level.
pub fn write(t: LocalTime, level: &str, msg: &str) -> (r: String)
    ensures
        r@ == line_text(t, level@, msg@),
{
    let mut out = timestamp(t);
    out.append(" [");
    out.append(level);
    out.append("] ");
    out.append(msg);
    out.append("\n");
    out
}

/// A line about something that went wrong.
pub fn error(t: LocalTime, msg: &str) -> (r: String)
    ensures
        r@ == line_text(t, "ERROR"@, msg@),
{
    write(t, "ERROR", msg)
}

/// A line about what happens.
pub fn info(t: LocalTime, msg: &str) -> (r: String)
    ensures
        r@ == line_text(t, "INFO"@, msg@),
{
    write(t, "INFO", msg)
}

// ---------------------------------------------------------------- laws

/// A time is written as year, month, day, hour, minute and second, in that order, with a dash
/// between the parts of the date, a colon between those of the time of day, and a space between
/// the two; four digits for the year and two for everything else.
pub proof fn time_is_written_part_by_part(t: LocalTime)
    requires
        t.year < 10000,
        t.month < 100,
        t.day < 100,
        t.hour < 100,
        t.minute < 100,
        t.second < 100,
    ensures
        ({
            let s = timestamp_text(t);
            let digit = |d: int| (48 + d) as char;
            &&& s.len() == 19
            &&& s[0] == digit(t.year as int / 1000) && s[1] == digit(t.year as int / 100 % 10)
            &&& s[2] == digit(t.year as int / 10 % 10) && s[3] == digit(t.year as int % 10)
            &&& s[4] == '-'
            &&& s[5] == digit(t.month as int / 10) && s[6] == digit(t.month as int % 10)
            &&& s[7] == '-'
            &&& s[8] == digit(t.day as int / 10) && s[9] == digit(t.day as int % 10)
            &&& s[10] == ' '
            &&& s[11] == digit(t.hour as int / 10) && s[12] == digit(t.hour as int % 10)
            &&& s[13] == ':'
            &&& s[14] == digit(t.minute as int / 10) && s[15] == digit(t.minute as int % 10)
            &&& s[16] == ':'
            &&& s[17] == digit(t.second as int / 10) && s[18] == digit(t.second as int % 10)
        }),
{
    reveal_strlit("-");
    reveal_strlit(" ");
    reveal_strlit(":");
    lemma_four_digits(t.year as nat);
    lemma_two_digits(t.month as nat);
    lemma_two_digits(t.day as nat);
    lemma_two_digits(t.hour as nat);
    lemma_two_digits(t.minute as nat);
    lemma_two_digits(t.second as nat);
}

/// A number below a hundred in two digits.
proof fn lemma_two_digits(n: nat)
    requires
        n < 100,
    ensures
        padded(n, 2) == seq![(48 + n as int / 10) as char, (48 + n as int % 10) as char],
{
    reveal_with_fuel(crate::text::decimal, 3);
    assert(padded(n, 2) =~= seq![(48 + n as int / 10) as char, (48 + n as int % 10) as char]);
}

/// A number below ten thousand in four digits.
proof fn lemma_four_digits(n: nat)
    requires
        n < 10000,
    ensures
        padded(n, 4) == seq![
            (48 + n as int / 1000) as char,
            (48 + n as int / 100 % 10) as char,
            (48 + n as int / 10 % 10) as char,
            (48 + n as int % 10) as char,
        ],
{
    reveal_with_fuel(crate::text::decimal, 5);
    assert(n / 10 / 10 == n / 100);
    assert(n / 10 / 10 / 10 == n / 1000);
    assert(padded(n, 4) =~= seq![
        (48 + n as int / 1000) as char,
        (48 + n as int / 100 % 10) as char,
        (48 + n as int / 10 % 10) as char,
        (48 + n as int % 10) as char,
    ]);
}

/// Parts of a time that need more digits get them.
pub proof fn time_is_never_cut(t: LocalTime)
    ensures
        timestamp_text(t) == padded(t.year as nat, 4) + seq!['-'] + padded(t.month as nat, 2)
            + seq!['-'] + padded(t.day as nat, 2) + seq![' '] + padded(t.hour as nat, 2) + seq![':']
            + padded(t.minute as nat, 2) + seq![':'] + padded(t.second as nat, 2),
{
    reveal_strlit("-");
    reveal_strlit(" ");
    reveal_strlit(":");
    assert("-"@ =~= seq!['-']);
    assert(" "@ =~= seq![' ']);
    assert(":"@ =~= seq![':']);
}

/// A line of the log is the time, the level in brackets, and the message, each after a space, and
/// one line end at the end.
pub proof fn line_is_time_level_and_message(t: LocalTime, level: Seq<char>, msg: Seq<char>)
    ensures
        line_text(t, level, msg) == timestamp_text(t) + seq![' ', '['] + level + seq![']', ' ']
            + msg + seq!['\n'],
        LOG_FILE@ == "app.log"@,
        LAUNCH_LINE@ == "--- launch ---"@,
        MAX_LOG_BYTES == 1024 * 1024,
{
    reveal_strlit(" [");
    reveal_strlit("] ");
    reveal_strlit("\n");
    assert(" ["@ =~= seq![' ', '[']);
    assert("] "@ =~= seq![']', ' ']);
    assert("\n"@ =~= seq!['\n']);
}

} // verus!
