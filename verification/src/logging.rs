//! Log-level parsing and request identifiers.

use vstd::prelude::*;

use crate::strutil::{eq_ignore_ascii_case, eq_ignore_case};

verus! {

/// Log verbosity, most verbose first.
#[derive(Debug, Clone, Copy, PartialEq, Eq, Structural)]
pub enum LogLevel {
    Trace,
    Debug,
    Info,
    Warn,
    Error,
}

/// The level a verbosity string names: the level names compared without
/// regard to ASCII letter case, or the numerals `1` through `5` from
/// most severe to most verbose; anything else falls back to `Info`.
pub open spec fn spec_log_level(s: Seq<char>) -> LogLevel {
    if eq_ignore_case(s, "trace"@) || s == "5"@ {
        LogLevel::Trace
    } else if eq_ignore_case(s, "debug"@) || s == "4"@ {
        LogLevel::Debug
    } else if eq_ignore_case(s, "info"@) || s == "3"@ {
        LogLevel::Info
    } else if eq_ignore_case(s, "warn"@) || s == "2"@ {
        LogLevel::Warn
    } else if eq_ignore_case(s, "error"@) || s == "1"@ {
        LogLevel::Error
    } else {
        LogLevel::Info
    }
}

/// Parses a verbosity string, falling back to `Info`.
pub fn parse_log_level(level: &str) -> (r: LogLevel)
    ensures
        r == spec_log_level(level@),
{
    if eq_ignore_ascii_case(level, "trace") || crate::strutil::str_eq(level, "5") {
        LogLevel::Trace
    } else if eq_ignore_ascii_case(level, "debug") || crate::strutil::str_eq(level, "4") {
        LogLevel::Debug
    } else if eq_ignore_ascii_case(level, "info") || crate::strutil::str_eq(level, "3") {
        LogLevel::Info
    } else if eq_ignore_ascii_case(level, "warn") || crate::strutil::str_eq(level, "2") {
        LogLevel::Warn
    } else if eq_ignore_ascii_case(level, "error") || crate::strutil::str_eq(level, "1") {
        LogLevel::Error
    } else {
        LogLevel::Info
    }
}

/// An opaque identifier stamped on each request for log correlation.
#[derive(Debug)]
pub struct RequestId(String);

impl View for RequestId {
    type V = Seq<char>;

    closed spec fn view(&self) -> Seq<char> {
        self.0@
    }
}

impl RequestId {
    /// Relies on cuid's cuid2: a collision-resistant random identifier
    /// of lowercase letters and digits, at most twenty-four characters.
    #[verifier::external_body]
    pub fn new() -> (r: RequestId)
        ensures
            2 <= r@.len() <= 24,
    {
        RequestId(cuid::cuid2())
    }

    /// The identifier's text.
    pub fn as_str(&self) -> (r: &str)
        ensures
            r@ == self@,
    {
        self.0.as_str()
    }
}

} // verus!
