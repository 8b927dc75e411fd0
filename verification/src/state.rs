//! Process-wide state of the logging subsystem: the dynamic level
//! filter, the application identity, and the once-resolved log file paths.
//!
//! The state is an explicit value rather than a hidden global; the
//! unverified shell owns one instance per process and guards it for
//! concurrent access.

use crate::level::LevelFilter;
use vstd::prelude::*;

verus! {

/// Immutable identity of the running application, used to derive
/// directory names and the startup banner.
pub struct AppInfo {
    pub qualifier: String,
    pub organization: String,
    pub app_name: String,
    pub binary_name: String,
    pub version: String,
}

/// The logging subsystem's process-wide mutable state.
pub struct LogState {
    /// Threshold consulted for every record after the dispatcher is built.
    pub level: LevelFilter,
    /// Application identity; set once by [`init`].
    pub app: Option<AppInfo>,
    /// Memoized path of the per-process log file.
    pub process_log_file: Option<String>,
    /// Memoized path of the shared generic log directory.
    pub generic_log_dir: Option<String>,
    /// Memoized path of this run's file inside the generic log directory.
    pub generic_log_file: Option<String>,
    /// Whether a dispatcher was already built and activated.
    pub activated: bool,
}

/// The level filter a fresh state starts with: everything is emitted.
pub open spec fn default_level() -> LevelFilter {
    LevelFilter::Trace
}

impl LogState {
    /// A fresh state: default level, nothing resolved, not activated.
    pub fn new() -> (r: LogState)
        ensures
            r.level == default_level(),
            r.app is None,
            r.process_log_file is None,
            r.generic_log_dir is None,
            r.generic_log_file is None,
            !r.activated,
    {
        LogState {
            level: LevelFilter::Trace,
            app: None,
            process_log_file: None,
            generic_log_dir: None,
            generic_log_file: None,
            activated: false,
        }
    }
}

/// One-time memoization: an empty slot takes the new value; a filled
/// slot keeps the value it already holds.
pub open spec fn set_once<T>(slot: Option<T>, v: T) -> Option<T> {
    if slot is Some {
        slot
    } else {
        Some(v)
    }
}

/// The first stored value wins: once a slot is filled, storing any
/// later value leaves it unchanged, so repeated resolutions of a path
/// always return the value of the first one.
pub proof fn lemma_set_once_first_wins<T>(slot: Option<T>, a: T, b: T)
    ensures
        set_once(set_once(slot, a), b) == set_once(slot, a),
        set_once(slot, a) is Some,
{
}

/// The state after an unconditional overwrite of the level filter.
pub open spec fn spec_set_log_level(s: LogState, level: LevelFilter) -> LogState {
    LogState { level, ..s }
}

/// The level filter a read returns.
pub open spec fn spec_get_log_level(s: LogState) -> LevelFilter {
    s.level
}

/// Overwrites the dynamic level filter; there is no failure mode, and
/// nothing else of the state changes.
pub fn set_log_level(state: &mut LogState, level: LevelFilter)
    ensures
        *final(state) == spec_set_log_level(*old(state), level),
{
    state.level = level;
}

/// Reads the dynamic level filter without changing anything.
pub fn get_log_level(state: &LogState) -> (r: LevelFilter)
    ensures
        r == spec_get_log_level(*state),
{
    state.level
}

/// Setting a level and reading it back yields exactly the level that
/// was set, for every level and every prior state.
pub proof fn lemma_level_round_trip(s: LogState, level: LevelFilter)
    ensures
        spec_get_log_level(spec_set_log_level(s, level)) == level,
{
}

/// Returns the memoized per-process log file path. Calling this before
/// the path was resolved is a programming error, excluded by the
/// precondition, so the path returned is always the first one resolved.
pub fn current_log_file(state: &LogState) -> (r: &String)
    requires
        state.process_log_file is Some,
    ensures
        state.process_log_file == Some(*r),
{
    match &state.process_log_file {
        Some(p) => p,
        None => vstd::pervasive::unreached(),
    }
}

/// Records the application identity. Must be called once per process,
/// before the dispatcher is built; the identity never changes after.
pub fn init(
    state: &mut LogState,
    qualifier: &str,
    organization: &str,
    app_name: &str,
    binary_name: &str,
    version: &str,
)
    requires
        old(state).app is None,
    ensures
        final(state).app is Some,
        final(state).app.unwrap().qualifier@ == qualifier@,
        final(state).app.unwrap().organization@ == organization@,
        final(state).app.unwrap().app_name@ == app_name@,
        final(state).app.unwrap().binary_name@ == binary_name@,
        final(state).app.unwrap().version@ == version@,
        *final(state) == (LogState { app: final(state).app, ..*old(state) }),
{
    let info = AppInfo {
        qualifier: qualifier.to_owned(),
        organization: organization.to_owned(),
        app_name: app_name.to_owned(),
        binary_name: binary_name.to_owned(),
        version: version.to_owned(),
    };
    state.app = Some(info);
}

} // verus!
