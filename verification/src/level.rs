//! Log levels and the dynamic level filter.

use vstd::prelude::*;

verus! {

/// Severity of a single log record, from most to least severe.
#[derive(Clone, Copy, PartialEq, Eq, Structural, Debug)]
pub enum Level {
    Error,
    Warn,
    Info,
    Debug,
    Trace,
}

/// A filter threshold: a record is emitted iff its level is at most the
/// current threshold. `Off` suppresses every record.
#[derive(Clone, Copy, PartialEq, Eq, Structural, Debug)]
pub enum LevelFilter {
    Off,
    Error,
    Warn,
    Info,
    Debug,
    Trace,
}

/// Numeric rank of a record level; more verbose levels rank higher.
pub open spec fn level_rank(l: Level) -> nat {
    match l {
        Level::Error => 1,
        Level::Warn => 2,
        Level::Info => 3,
        Level::Debug => 4,
        Level::Trace => 5,
    }
}

/// Numeric rank of a filter threshold; `Off` ranks below every level.
pub open spec fn filter_rank(f: LevelFilter) -> nat {
    match f {
        LevelFilter::Off => 0,
        LevelFilter::Error => 1,
        LevelFilter::Warn => 2,
        LevelFilter::Info => 3,
        LevelFilter::Debug => 4,
        LevelFilter::Trace => 5,
    }
}

/// A record of level `l` passes a filter set to `f` iff `l` is at most
/// as verbose as `f`.
pub open spec fn spec_emits(l: Level, f: LevelFilter) -> bool {
    level_rank(l) <= filter_rank(f)
}

/// The fixed upper-case rendering of a level in the record format.
pub fn level_text(l: Level) -> (r: &'static str)
    ensures
        l == Level::Error ==> r@ == "ERROR"@,
        l == Level::Warn ==> r@ == "WARN"@,
        l == Level::Info ==> r@ == "INFO"@,
        l == Level::Debug ==> r@ == "DEBUG"@,
        l == Level::Trace ==> r@ == "TRACE"@,
{
    match l {
        Level::Error => "ERROR",
        Level::Warn => "WARN",
        Level::Info => "INFO",
        Level::Debug => "DEBUG",
        Level::Trace => "TRACE",
    }
}

/// Decides whether a record of level `l` is emitted under filter `f`.
pub fn should_emit(l: Level, f: LevelFilter) -> (r: bool)
    ensures
        r == spec_emits(l, f),
{
    let ln: u8 = match l {
        Level::Error => 1,
        Level::Warn => 2,
        Level::Info => 3,
        Level::Debug => 4,
        Level::Trace => 5,
    };
    let fr: u8 = match f {
        LevelFilter::Off => 0,
        LevelFilter::Error => 1,
        LevelFilter::Warn => 2,
        LevelFilter::Info => 3,
        LevelFilter::Debug => 4,
        LevelFilter::Trace => 5,
    };
    ln <= fr
}

} // verus!
