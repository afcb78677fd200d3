//! Retention of the server's log files, and the library's error type.
use vstd::prelude::*;

use crate::ids::{ts_before, Timestamp};
use crate::text::{concat2, has_prefix, starts_with};

verus! {

/// Seconds in a day.
pub open spec fn day_secs() -> int {
    86400
}

/// The instant before which log files are removed: `retention_days` days
/// before `now`; `None` when no log is ever removed (a retention of zero)
/// or the instant is out of range.
pub open spec fn retention_cutoff_of(now: Timestamp, retention_days: u32) -> Option<Timestamp> {
    if retention_days == 0 {
        None
    } else if now.secs - retention_days * day_secs() < i64::MIN {
        None
    } else {
        Some(Timestamp { secs: (now.secs - retention_days * day_secs()) as i64, nanos: now.nanos })
    }
}

/// Computes the retention cutoff.
pub fn retention_cutoff(now: Timestamp, retention_days: u32) -> (r: Option<Timestamp>)
    ensures
        r == retention_cutoff_of(now, retention_days),
{
    if retention_days == 0 {
        return None;
    }
    let span: i64 = (retention_days as i64) * 86400;
    match now.secs.checked_sub(span) {
        Some(secs) => Some(Timestamp { secs, nanos: now.nanos }),
        None => None,
    }
}

/// A directory entry is an expired log: a file named "containr.log..."
/// last modified before the cutoff.
pub open spec fn expired_log(
    file_name: Seq<char>,
    is_file: bool,
    modified: Timestamp,
    cutoff: Timestamp,
) -> bool {
    is_file && has_prefix(file_name, "containr.log"@) && ts_before(modified, cutoff)
}

/// Whether a directory entry is a log file to remove.
pub fn is_expired_log(file_name: &str, is_file: bool, modified: Timestamp, cutoff: Timestamp) -> (r:
    bool)
    ensures
        r == expired_log(file_name@, is_file, modified, cutoff),
{
    is_file && starts_with(file_name, "containr.log") && crate::ids::timestamp_before(
        modified,
        cutoff,
    )
}

/// The library-wide error kinds, each with its detail text.
#[derive(Debug, Clone, PartialEq, Eq)]
pub enum Error {
    Database(String),
    Serialization(String),
    NotFound(String),
    AlreadyExists(String),
    Unauthorized(String),
    Validation(String),
    Container(String),
    Proxy(String),
    Github(String),
    Acme(String),
    Internal(String),
}

impl Error {
    /// The text that `message` returns.
    pub open spec fn message_text(&self) -> Seq<char> {
        match self {
            Error::Database(m) => "database error: "@ + m@,
            Error::Serialization(m) => "serialization error: "@ + m@,
            Error::NotFound(m) => "not found: "@ + m@,
            Error::AlreadyExists(m) => "already exists: "@ + m@,
            Error::Unauthorized(m) => "unauthorized: "@ + m@,
            Error::Validation(m) => "validation error: "@ + m@,
            Error::Container(m) => "container error: "@ + m@,
            Error::Proxy(m) => "proxy error: "@ + m@,
            Error::Github(m) => "github error: "@ + m@,
            Error::Acme(m) => "acme error: "@ + m@,
            Error::Internal(m) => "internal error: "@ + m@,
        }
    }

    /// Human-readable description of the error.
    pub fn message(&self) -> (r: String)
        ensures
            r@ == self.message_text(),
    {
        match self {
            Error::Database(m) => concat2("database error: ", m.as_str()),
            Error::Serialization(m) => concat2("serialization error: ", m.as_str()),
            Error::NotFound(m) => concat2("not found: ", m.as_str()),
            Error::AlreadyExists(m) => concat2("already exists: ", m.as_str()),
            Error::Unauthorized(m) => concat2("unauthorized: ", m.as_str()),
            Error::Validation(m) => concat2("validation error: ", m.as_str()),
            Error::Container(m) => concat2("container error: ", m.as_str()),
            Error::Proxy(m) => concat2("proxy error: ", m.as_str()),
            Error::Github(m) => concat2("github error: ", m.as_str()),
            Error::Acme(m) => concat2("acme error: ", m.as_str()),
            Error::Internal(m) => concat2("internal error: ", m.as_str()),
        }
    }
}

} // verus!
