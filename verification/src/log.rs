//! Severity levels and the text of a log entry.

use vstd::prelude::*;
use vstd::string::*;

verus! {

/// How severe a log entry is.
#[derive(Clone, Copy, Debug, PartialEq, Eq, Structural)]
pub enum LogLevel {
    Trace,
    Debug,
    Info,
    Warn,
    Error,
    Fatal,
}

impl LogLevel {
    /// The name of the level as it is written into a log entry.
    pub open spec fn label_text(self) -> Seq<char> {
        match self {
            LogLevel::Trace => "TRACE"@,
            LogLevel::Debug => "DEBUG"@,
            LogLevel::Info => "INFO"@,
            LogLevel::Warn => "WARN"@,
            LogLevel::Error => "ERROR"@,
            LogLevel::Fatal => "FATAL"@,
        }
    }

    /// The upper-case name of the level.
    pub fn label(&self) -> (name: &'static str)
        ensures
            name@ == self.label_text(),
    {
        match self {
            LogLevel::Trace => "TRACE",
            LogLevel::Debug => "DEBUG",
            LogLevel::Info => "INFO",
            LogLevel::Warn => "WARN",
            LogLevel::Error => "ERROR",
            LogLevel::Fatal => "FATAL",
        }
    }
}

/// The text of a log entry: the time stamp, the level and the message, separated
/// by single spaces and closed by a line feed.
pub open spec fn entry_text(stamp: Seq<char>, level: LogLevel, message: Seq<char>) -> Seq<char> {
    stamp + " "@ + level.label_text() + " "@ + message + "\n"@
}

/// Formats one log entry from a time stamp that the caller supplies.
pub fn entry(level: LogLevel, stamp: &str, message: &str) -> (text: String)
    ensures
        text@ == entry_text(stamp@, level, message@),
{
    let mut text = String::from_str(stamp);
    text.append(" ");
    text.append(level.label());
    text.append(" ");
    text.append(message);
    text.append("\n");
    text
}

/// The time of the call as a text. Calls `chrono::Local::now()` and writes
/// what it returns with `DateTime::format("%+")`, the date and time of day in
/// the local time zone with its offset from UTC. Nothing is claimed of the
/// text: it depends on the clock and on the time zone of the machine. chrono
/// reads the system clock, and panics if the clock stands before 1970.
#[verifier::external_body]
fn timestamp() -> (stamp: String) {
    chrono::Local::now().format("%+").to_string()
}

/// Composes the log entry for a message: the line that `entry` formats, with
/// the time of the call as its time stamp. The caller appends it to the sink.
pub fn log(level: LogLevel, message: &str) -> (text: String)
    ensures
        exists|stamp: Seq<char>| text@ == entry_text(stamp, level, message@),
{
    let stamp = timestamp();
    entry(level, stamp.as_str(), message)
}

} // verus!
