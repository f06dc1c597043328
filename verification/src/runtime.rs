//! Decisions of the operations that the embedded JavaScript runtime calls.

use vstd::prelude::*;
use crate::text::{trim_end, trim_end_spec};

verus! {

/// A log line that JavaScript asked to write, at its level.
pub enum LogRecord<'a> {
    Debug(&'a str),
    Info(&'a str),
    Warn(&'a str),
    Error(&'a str),
    /// JavaScript named a level that does not exist; a warning says so.
    InvalidLevel,
}

/// The log line for `message` at JavaScript log `level`: levels 0 to 3 are
/// debug, info, warn and error, and the message loses its trailing white
/// space; any other level gives the invalid-level warning.
pub fn op_log<'a>(message: &'a str, level: i64) -> (r: LogRecord<'a>)
    ensures
        match r {
            LogRecord::Debug(m) => level == 0 && m@ == trim_end_spec(message@),
            LogRecord::Info(m) => level == 1 && m@ == trim_end_spec(message@),
            LogRecord::Warn(m) => level == 2 && m@ == trim_end_spec(message@),
            LogRecord::Error(m) => level == 3 && m@ == trim_end_spec(message@),
            LogRecord::InvalidLevel => level < 0 || level > 3,
        },
{
    let message = trim_end(message);
    match level {
        0 => LogRecord::Debug(message),
        1 => LogRecord::Info(message),
        2 => LogRecord::Warn(message),
        3 => LogRecord::Error(message),
        _ => LogRecord::InvalidLevel,
    }
}

} // verus!
