//! Trusted bindings to the outside crates the library leans on: the
//! local clock, the platform directory lookup, and stack backtraces.
//! Each binding is believed, not verified; its contract states no more
//! than the outside crate's own documentation promises.

use chrono::Datelike;
use chrono::Timelike;
use vstd::prelude::*;

verus! {

/// The local calendar time now, as
/// `(year, month, day, hour, minute, second)`.
///
/// Relies on chrono's `Local::now` and its `Datelike` / `Timelike`
/// accessors: month ranges over 1 to 12, day over 1 to 31, hour over 0
/// to 23, minute and second over 0 to 59. The clock decides the rest,
/// so nothing more is promised.
#[verifier::external_body]
pub(crate) fn now_parts() -> (r: (i32, u32, u32, u32, u32, u32))
    ensures
        1 <= r.1 <= 12,
        1 <= r.2 <= 31,
        r.3 <= 23,
        r.4 <= 59,
        r.5 <= 59,
{
    let now = chrono::Local::now();
    (now.year(), now.month(), now.day(), now.hour(), now.minute(), now.second())
}

/// The platform's per-application local data directory, as a path
/// string, or `None` where the platform offers no home directory.
///
/// Relies on directories' `ProjectDirs::from` and `data_local_dir`. The
/// result depends on the platform and the process environment, so
/// nothing is promised of it.
#[verifier::external_body]
pub(crate) fn data_local_dir_path(
    qualifier: &str,
    organization: &str,
    app_name: &str,
) -> (r: Option<String>) {
    directories::ProjectDirs::from(qualifier, organization, app_name).map(
        |d| d.data_local_dir().to_string_lossy().into_owned(),
    )
}

/// A textual rendering of the current thread's stack backtrace.
///
/// Relies on backtrace's `Backtrace::new` and its `Debug` rendering.
/// The result depends on the call stack and the machine, so nothing is
/// promised of it.
#[verifier::external_body]
pub(crate) fn capture_backtrace_text() -> (r: String) {
    format!("{:?}", backtrace::Backtrace::new())
}

} // verus!
