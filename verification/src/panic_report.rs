//! The panic observer's records.
//!
//! When a panic reaches the process-wide hook, the subsystem emits one
//! error-level record naming the thread, the source location and the
//! cause, and one debug-level record carrying a stack backtrace. This
//! module decides both records; the unverified hook merely installs
//! them into the log stream and lets the panic proceed unchanged.

use crate::level::Level;
use crate::text::dec_digits;
use crate::text::format_u32;
use vstd::prelude::*;
use vstd::string::StringExecFns;

verus! {

/// One formatted record, ready for a sink.
pub struct LogRecord {
    pub level: Level,
    pub message: String,
}

/// The source location a panic reports.
pub struct PanicLocation {
    pub file: String,
    pub line: u32,
    pub column: u32,
}

/// The thread name to report: the actual name, or a sentinel for an
/// unnamed thread.
pub open spec fn effective_thread(t: Option<String>) -> Seq<char> {
    match t {
        Some(s) => s@,
        None => "<unknown>"@,
    }
}

/// The file to report: the location's file, or a sentinel when the
/// location is unavailable.
pub open spec fn effective_file(l: Option<PanicLocation>) -> Seq<char> {
    match l {
        Some(loc) => loc.file@,
        None => "<unknown>"@,
    }
}

/// The line to report; zero when the location is unavailable.
pub open spec fn effective_line(l: Option<PanicLocation>) -> nat {
    match l {
        Some(loc) => loc.line as nat,
        None => 0,
    }
}

/// The column to report; zero when the location is unavailable.
pub open spec fn effective_column(l: Option<PanicLocation>) -> nat {
    match l {
        Some(loc) => loc.column as nat,
        None => 0,
    }
}

/// The cause to report: the panic payload where it was string-like, or
/// a sentinel otherwise.
pub open spec fn effective_cause(c: Option<String>) -> Seq<char> {
    match c {
        Some(s) => s@,
        None => "<unknown cause>"@,
    }
}

/// The error record's text:
/// `Thread '<name>' panicked at <file>:<line>:<column>: <cause>`.
pub open spec fn panic_message(
    thread: Seq<char>,
    file: Seq<char>,
    line: nat,
    column: nat,
    cause: Seq<char>,
) -> Seq<char> {
    "Thread '"@ + thread + "' panicked at "@ + file + ":"@ + dec_digits(line) + ":"@ + dec_digits(
        column,
    ) + ": "@ + cause
}

/// The debug record's text leads with this prefix, followed by the
/// backtrace rendering.
pub open spec fn backtrace_prefix() -> Seq<char> {
    "Panicked stack backtrace: "@
}

/// Builds exactly the two records the panic observer emits: one
/// error-level record with the panic pattern, substituting sentinels
/// for a missing thread name, location or cause, and one debug-level
/// record carrying the given backtrace text.
pub fn panic_records(
    thread_name: Option<String>,
    location: Option<PanicLocation>,
    cause: Option<String>,
    backtrace_text: String,
) -> (r: Vec<LogRecord>)
    ensures
        r@.len() == 2,
        r@[0].level == Level::Error,
        r@[0].message@ == panic_message(
            effective_thread(thread_name),
            effective_file(location),
            effective_line(location),
            effective_column(location),
            effective_cause(cause),
        ),
        r@[1].level == Level::Debug,
        r@[1].message@ == backtrace_prefix() + backtrace_text@,
{
    let mut m = "Thread '".to_owned();
    match &thread_name {
        Some(t) => m.append(t.as_str()),
        None => m.append("<unknown>"),
    }
    m.append("' panicked at ");
    match &location {
        Some(l) => m.append(l.file.as_str()),
        None => m.append("<unknown>"),
    }
    m.append(":");
    let line: u32 = match &location {
        Some(l) => l.line,
        None => 0,
    };
    let column: u32 = match &location {
        Some(l) => l.column,
        None => 0,
    };
    let line_text = format_u32(line);
    m.append(line_text.as_str());
    m.append(":");
    let column_text = format_u32(column);
    m.append(column_text.as_str());
    m.append(": ");
    match &cause {
        Some(c) => m.append(c.as_str()),
        None => m.append("<unknown cause>"),
    }
    proof {
        assert(m@ =~= panic_message(
            effective_thread(thread_name),
            effective_file(location),
            effective_line(location),
            effective_column(location),
            effective_cause(cause),
        ));
    }
    let mut b = "Panicked stack backtrace: ".to_owned();
    b.append(backtrace_text.as_str());
    let mut r: Vec<LogRecord> = Vec::new();
    r.push(LogRecord { level: Level::Error, message: m });
    r.push(LogRecord { level: Level::Debug, message: b });
    r
}

/// Builds the panic observer's two records, capturing the stack
/// backtrace as the debug record's text. The error record is exact; of
/// the debug record the backtrace itself is whatever the capture
/// returned, so only its prefix is stated.
pub fn observe_panic(
    thread_name: Option<String>,
    location: Option<PanicLocation>,
    cause: Option<String>,
) -> (r: Vec<LogRecord>)
    ensures
        r@.len() == 2,
        r@[0].level == Level::Error,
        r@[0].message@ == panic_message(
            effective_thread(thread_name),
            effective_file(location),
            effective_line(location),
            effective_column(location),
            effective_cause(cause),
        ),
        r@[1].level == Level::Debug,
        r@[1].message@.len() >= backtrace_prefix().len(),
        r@[1].message@.take(backtrace_prefix().len() as int) == backtrace_prefix(),
{
    let backtrace_text = crate::sys::capture_backtrace_text();
    let r = panic_records(thread_name, location, cause, backtrace_text);
    proof {
        assert(r@[1].message@.take(backtrace_prefix().len() as int) =~= backtrace_prefix());
    }
    r
}

} // verus!
