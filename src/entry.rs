use vstd::prelude::*;

use crate::level::LogLevel;

verus! {

pub open spec fn is_digit(c: char) -> bool {
    '0' <= c && c <= '9'
}

pub open spec fn all_digits(s: Seq<char>) -> bool {
    forall|i: int| 0 <= i < s.len() ==> is_digit(#[trigger] s[i])
}

/// The year part of a timestamp: four digits, or a sign and at least four digits.
pub open spec fn is_year(y: Seq<char>) -> bool {
    (y.len() == 4 && all_digits(y)) || (y.len() >= 5 && (y[0] == '+' || y[0] == '-')
        && all_digits(y.skip(1)))
}

/// `s` reads `YYYY-MM-DD HH:MM:SS`, with the year as `is_year` allows.
pub open spec fn is_timestamp(s: Seq<char>) -> bool {
    let n = s.len();
    let t = s.skip(n - 15);
    &&& n >= 19
    &&& is_year(s.take(n - 15))
    &&& t[0] == '-' && is_digit(t[1]) && is_digit(t[2])
    &&& t[3] == '-' && is_digit(t[4]) && is_digit(t[5])
    &&& t[6] == ' ' && is_digit(t[7]) && is_digit(t[8])
    &&& t[9] == ':' && is_digit(t[10]) && is_digit(t[11])
    &&& t[12] == ':' && is_digit(t[13]) && is_digit(t[14])
}

/// A character that a timestamp may hold.
pub open spec fn is_timestamp_char(c: char) -> bool {
    is_digit(c) || c == '-' || c == '+' || c == ' ' || c == ':'
}

pub proof fn lemma_timestamp_chars(s: Seq<char>)
    requires
        is_timestamp(s),
    ensures
        forall|i: int| 0 <= i < s.len() ==> is_timestamp_char(#[trigger] s[i]),
{
    let n = s.len();
    let y = s.take(n - 15);
    let t = s.skip(n - 15);
    assert forall|i: int| 0 <= i < s.len() implies is_timestamp_char(#[trigger] s[i]) by {
        if i < n - 15 {
            assert(s[i] == y[i]);
            if y.len() == 4 && all_digits(y) {
                assert(is_digit(y[i]));
            } else if i > 0 {
                assert(y[i] == y.skip(1)[i - 1]);
            }
        } else {
            assert(s[i] == t[i - (n - 15)]);
        }
    }
}

/// One log event: when it happened, how severe it is, and its rendered text.
#[derive(Clone, Debug)]
pub struct LogEntry {
    pub timestamp: String,
    pub level: LogLevel,
    pub message: String,
}

/// Relies on chrono: `Local::now()` formatted with `"%Y-%m-%d %H:%M:%S"`. Its
/// `%Y` writes four digits for the years 0 to 9999 and otherwise a sign and
/// at least four digits; `%m`, `%d`, `%H`, `%M` and `%S` write two digits each.
#[verifier::external_body]
fn local_timestamp() -> (r: String)
    ensures
        is_timestamp(r@),
{
    chrono::Local::now().format("%Y-%m-%d %H:%M:%S").to_string()
}

impl LogEntry {
    /// An entry stamped with the current local time.
    pub fn new(level: LogLevel, message: &str) -> (e: LogEntry)
        ensures
            e.level == level,
            e.message@ == message@,
            is_timestamp(e.timestamp@),
    {
        LogEntry { timestamp: local_timestamp(), level, message: String::from_str(message) }
    }

    /// An entry with a timestamp given by the caller.
    pub fn with_timestamp(timestamp: &str, level: LogLevel, message: &str) -> (e: LogEntry)
        ensures
            e.timestamp@ == timestamp@,
            e.level == level,
            e.message@ == message@,
    {
        LogEntry {
            timestamp: String::from_str(timestamp),
            level,
            message: String::from_str(message),
        }
    }
}

} // verus!
