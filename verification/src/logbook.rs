//! The operator log: time-stamped lines, trimmed to the newest ones.

use vstd::prelude::*;

verus! {

/// How many lines `LogBook::log` keeps.
pub const MAX_LOG_LINES: usize = 100;

pub open spec fn is_digit(c: char) -> bool {
    '0' <= c && c <= '9'
}

pub open spec fn digit_value(c: char) -> int {
    (c as int) - ('0' as int)
}

pub open spec fn two_digit_value(s: Seq<char>, i: int) -> int {
    10 * digit_value(s[i]) + digit_value(s[i + 1])
}

/// Wall-clock text of the form `HH:MM:SS` (hours 00-23, minutes 00-59,
/// seconds 00-60 to allow a leap second).
pub open spec fn is_clock_text(s: Seq<char>) -> bool {
    &&& s.len() == 8
    &&& s[2] == ':' && s[5] == ':'
    &&& is_digit(s[0]) && is_digit(s[1]) && is_digit(s[3]) && is_digit(s[4])
    &&& is_digit(s[6]) && is_digit(s[7])
    &&& two_digit_value(s, 0) <= 23
    &&& two_digit_value(s, 3) <= 59
    &&& two_digit_value(s, 6) <= 60
}

/// A log line: the time in square brackets, a space, then the message.
pub open spec fn stamped(ts: Seq<char>, msg: Seq<char>) -> Seq<char> {
    seq!['['] + ts + seq![']', ' '] + msg
}

/// Keeps the newest `MAX_LOG_LINES` lines when one line too many was added.
pub open spec fn capped(lines: Seq<Seq<char>>) -> Seq<Seq<char>> {
    if lines.len() > MAX_LOG_LINES { lines.drop_first() } else { lines }
}

/// Reads the local wall clock as `HH:MM:SS`, through `chrono::Local::now`
/// formatted with `"%H:%M:%S"`. The contract claims only the shape that
/// chrono documents for those three fields; which time it is depends on the
/// clock and is left open.
#[verifier::external_body]
pub(crate) fn timestamp() -> (ts: String)
    ensures
        is_clock_text(ts@),
{
    chrono::Local::now().format("%H:%M:%S").to_string()
}

/// The text of one log line for a message written at time `ts`.
pub fn stamp(ts: &str, msg: &str) -> (line: String)
    ensures
        line@ == stamped(ts@, msg@),
{
    proof {
        reveal_strlit("[");
        reveal_strlit("] ");
    }
    let mut line = String::new();
    line.append("[");
    line.append(ts);
    line.append("] ");
    line.append(msg);
    line
}

/// The operator log.
pub struct LogBook {
    lines: Vec<String>,
}

impl View for LogBook {
    type V = Seq<Seq<char>>;

    closed spec fn view(&self) -> Seq<Seq<char>> {
        self.lines@.map_values(|l: String| l@)
    }
}

impl LogBook {
    /// An empty log.
    pub fn new() -> (log: LogBook)
        ensures
            log@ == Seq::<Seq<char>>::empty(),
    {
        let log = LogBook { lines: Vec::new() };
        assert(log@ =~= Seq::<Seq<char>>::empty());
        log
    }

    /// Number of lines.
    pub fn len(&self) -> (n: usize)
        ensures
            n == self@.len(),
    {
        self.lines.len()
    }

    /// The line at `i`.
    pub fn line(&self, i: usize) -> (l: &String)
        requires
            i < self@.len(),
        ensures
            l@ == self@[i as int],
    {
        &self.lines[i]
    }

    /// Appends a line for `msg` written at time `ts`, without trimming.
    pub fn push_stamped(&mut self, ts: &str, msg: &str)
        ensures
            final(self)@ == old(self)@.push(stamped(ts@, msg@)),
    {
        let line = stamp(ts, msg);
        self.lines.push(line);
        assert(self@ =~= old(self)@.push(stamped(ts@, msg@)));
    }

    /// Appends a line for `msg` stamped with the current time, without trimming.
    pub fn push_line(&mut self, msg: &str)
        ensures
            exists|ts: Seq<char>|
                is_clock_text(ts) && final(self)@ == old(self)@.push(#[trigger] stamped(ts, msg@)),
    {
        let ts = timestamp();
        self.push_stamped(ts.as_str(), msg);
        assert(is_clock_text(ts@) && self@ == old(self)@.push(stamped(ts@, msg@)));
    }

    /// Appends a line for `msg` written at time `ts` and drops the oldest
    /// line when the log then holds more than `MAX_LOG_LINES`.
    pub fn log_stamped(&mut self, ts: &str, msg: &str)
        ensures
            final(self)@ == capped(old(self)@.push(stamped(ts@, msg@))),
    {
        self.push_stamped(ts, msg);
        if self.lines.len() > MAX_LOG_LINES {
            let ghost before = self@;
            self.lines.remove(0);
            assert(self@ =~= before.drop_first());
        }
    }

    /// Appends a line for `msg` stamped with the current time and drops the
    /// oldest line when the log then holds more than `MAX_LOG_LINES`.
    pub fn log(&mut self, msg: &str)
        ensures
            exists|ts: Seq<char>|
                is_clock_text(ts) && final(self)@ == capped(old(self)@.push(#[trigger] stamped(ts, msg@))),
    {
        let ts = timestamp();
        self.log_stamped(ts.as_str(), msg);
        assert(is_clock_text(ts@) && self@ == capped(old(self)@.push(stamped(ts@, msg@))));
    }
}

/// Logging through `log` never lets a log of at most `MAX_LOG_LINES` lines
/// grow past that size, and the newest line is always the one just written.
pub proof fn lemma_log_keeps_newest(lines: Seq<Seq<char>>, ts: Seq<char>, msg: Seq<char>)
    requires
        lines.len() <= MAX_LOG_LINES,
    ensures
        capped(lines.push(stamped(ts, msg))).len() <= MAX_LOG_LINES,
        capped(lines.push(stamped(ts, msg))).last() == stamped(ts, msg),
        lines.len() < MAX_LOG_LINES ==> capped(lines.push(stamped(ts, msg))) == lines.push(stamped(ts, msg)),
{
}

} // verus!
