//! Verified core of an application logging subsystem.
//!
//! The crate decides everything the logging subsystem does — level
//! filtering, one-time path resolution, sink composition, panic
//! reporting, and retention of historical log files — as verified
//! functions over plain values. The thin unverified shell around it
//! performs the file, console and clock I/O that those decisions call
//! for.

pub mod builder;
pub mod level;
pub mod panic_report;
pub mod retention;
pub mod state;
mod sys;
pub mod text;

pub use builder::Builder;
pub use level::Level;
pub use level::LevelFilter;
pub use state::current_log_file;
pub use state::get_log_level;
pub use state::init;
pub use state::set_log_level;
pub use state::LogState;
