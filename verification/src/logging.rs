//! Log lines: levels, timestamps and the text of a log line.

use vstd::prelude::*;

use crate::report::colors::{BLUE, PINK, RED, RESET};
use crate::text::{push_zero_padded, zero_padded_spec};

verus! {

/// How serious a log message is.
#[derive(Debug, Clone, Copy, PartialEq, Eq, Structural)]
pub enum LogLevel {
    Info,
    Warn,
    Error,
}

/// Where a log line goes.
#[derive(Debug, Clone, Copy, PartialEq, Eq, Structural)]
pub enum Stream {
    Stdout,
    Stderr,
}

/// The name of a level.
pub open spec fn level_name(level: LogLevel) -> &'static str {
    match level {
        LogLevel::Info => "INFO",
        LogLevel::Warn => "WARN",
        LogLevel::Error => "ERROR",
    }
}

/// The color of a level: blue for information, pink for warnings, red for errors.
pub open spec fn level_color(level: LogLevel) -> &'static str {
    match level {
        LogLevel::Info => BLUE,
        LogLevel::Warn => PINK,
        LogLevel::Error => RED,
    }
}

impl LogLevel {
    /// The level's name, as log lines show it.
    pub fn label(&self) -> (r: &'static str)
        ensures
            r == level_name(*self),
    {
        match self {
            LogLevel::Info => "INFO",
            LogLevel::Warn => "WARN",
            LogLevel::Error => "ERROR",
        }
    }
}

/// The broken-down local time fields (as `struct tm` holds them: years since 1900, months from
/// 0).
#[derive(Debug, Clone, Copy, PartialEq, Eq, Structural)]
pub struct TmFields {
    pub tm_year: i32,
    pub tm_mon: i32,
    pub tm_mday: i32,
    pub tm_hour: i32,
    pub tm_min: i32,
    pub tm_sec: i32,
}

/// `YYYY-MM-DD HH:MM:SS.mmm` for a local time and the nanoseconds of its second; all zeros when
/// the local time is unknown.
pub open spec fn timestamp_text(tm: Option<TmFields>, nsec: i64) -> Seq<char> {
    match tm {
        None => "0000-00-00 00:00:00.000"@,
        Some(t) => zero_padded_spec(t.tm_year + 1900, 4) + "-"@ + zero_padded_spec(t.tm_mon + 1, 2) + "-"@
            + zero_padded_spec(t.tm_mday as int, 2) + " "@ + zero_padded_spec(t.tm_hour as int, 2) + ":"@
            + zero_padded_spec(t.tm_min as int, 2) + ":"@ + zero_padded_spec(t.tm_sec as int, 2) + "."@
            + zero_padded_spec(nsec / 1_000_000, 3),
    }
}

/// Formats the timestamp of a log line from the local time (`None` when it could not be had)
/// and the nanoseconds of the current second.
pub fn local_timestamp(tm: Option<TmFields>, nsec: i64) -> (r: String)
    requires
        0 <= nsec,
        tm matches Some(t) ==> t.tm_year <= i32::MAX - 1900 && t.tm_mon < i32::MAX,
    ensures
        r@ == timestamp_text(tm, nsec),
{
    match tm {
        None => String::from_str("0000-00-00 00:00:00.000"),
        Some(t) => {
            let mut s = String::new();
            push_zero_padded(&mut s, (t.tm_year + 1900) as i64, 4);
            s.append("-");
            push_zero_padded(&mut s, (t.tm_mon + 1) as i64, 2);
            s.append("-");
            push_zero_padded(&mut s, t.tm_mday as i64, 2);
            s.append(" ");
            push_zero_padded(&mut s, t.tm_hour as i64, 2);
            s.append(":");
            push_zero_padded(&mut s, t.tm_min as i64, 2);
            s.append(":");
            push_zero_padded(&mut s, t.tm_sec as i64, 2);
            s.append(".");
            push_zero_padded(&mut s, nsec / 1_000_000, 3);
            proof {
                assert(Seq::<char>::empty() + zero_padded_spec(t.tm_year + 1900, 4) =~= zero_padded_spec(t.tm_year + 1900, 4));
                assert(s@ =~= timestamp_text(tm, nsec));
            }
            s
        },
    }
}

/// A diagnostic log line: timestamp, level and message separated by ` - `.
pub open spec fn log_text(timestamp: Seq<char>, level: LogLevel, message: Seq<char>) -> Seq<char> {
    timestamp + " - "@ + level_name(level)@ + " - "@ + message
}

/// The text of a diagnostic log line (writing it is the caller's).
pub fn log(timestamp: &str, level: LogLevel, message: &str) -> (r: String)
    ensures
        r@ == log_text(timestamp@, level, message@),
{
    let mut s = String::from_str(timestamp);
    s.append(" - ");
    s.append(level.label());
    s.append(" - ");
    s.append(message);
    s
}

/// A colored log line: the level's color, the timestamp, the prefix in brackets if any, the
/// message, then a reset.
pub open spec fn log_message_text(level: LogLevel, prefix: Option<Seq<char>>, timestamp: Seq<char>, message: Seq<char>) -> Seq<char> {
    match prefix {
        Some(p) => level_color(level)@ + timestamp + " ["@ + p + "] "@ + message + RESET@,
        None => level_color(level)@ + timestamp + " "@ + message + RESET@,
    }
}

/// The text of a colored log line (writing it, and leaving it out while the TUI runs, are the
/// caller's).
pub fn log_message(level: LogLevel, prefix: Option<&str>, timestamp: &str, message: &str) -> (r: String)
    ensures
        r@ == log_message_text(level, match prefix {
            Some(p) => Some(p@),
            None => None,
        }, timestamp@, message@),
{
    let color = match level {
        LogLevel::Info => BLUE,
        LogLevel::Warn => PINK,
        LogLevel::Error => RED,
    };
    let mut s = String::from_str(color);
    s.append(timestamp);
    match prefix {
        Some(p) => {
            s.append(" [");
            s.append(p);
            s.append("] ");
        },
        None => {
            s.append(" ");
        },
    }
    s.append(message);
    s.append(RESET);
    s
}

} // verus!
