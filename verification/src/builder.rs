//! The dispatcher builder: a fluent configuration value whose terminal
//! operation decides, for the whole subsystem, which sinks exist, which
//! paths they write to, what the startup records say, and whether
//! retention runs.
//!
//! The decision is returned as a [`BuildPlan`]; the unverified shell
//! executes it — creating directories, opening files, activating the
//! dispatcher — and treats any I/O failure there as fatal, because
//! without a working log sink no later diagnostic could reach the user.

use crate::level::Level;
use crate::level::LevelFilter;
use crate::panic_report::LogRecord;
use crate::state::LogState;
use crate::text::format_timestamp;
use crate::text::timestamp_chars;
use vstd::prelude::*;
use vstd::string::StringExecFns;

verus! {

/// The per-process log file path: `<process_dir>/<binary>.log`.
pub open spec fn process_log_path(process_dir: Seq<char>, binary: Seq<char>) -> Seq<char> {
    process_dir + "/"@ + binary + ".log"@
}

/// The generic log directory under the platform data-local directory:
/// `<data_local>/log`.
pub open spec fn generic_dir_path(data_local: Seq<char>) -> Seq<char> {
    data_local + "/log"@
}

/// A generic log file path: `<dir>/<binary>_<timestamp>.log`.
pub open spec fn generic_file_path(dir: Seq<char>, binary: Seq<char>, ts: Seq<char>) -> Seq<
    char,
> {
    dir + "/"@ + binary + "_"@ + ts + ".log"@
}

/// The stable symlink path in the generic directory: `<dir>/<binary>.log`.
pub open spec fn generic_symlink_path(dir: Seq<char>, binary: Seq<char>) -> Seq<char> {
    dir + "/"@ + binary + ".log"@
}

/// Whether `ts` is a well-formed timestamp of the generic file naming
/// convention, with every calendar component in its documented range.
pub open spec fn is_timestamp(ts: Seq<char>) -> bool {
    exists|y: int, mo: nat, d: nat, h: nat, mi: nat, s: nat|
        1 <= mo <= 12 && 1 <= d <= 31 && h <= 23 && mi <= 59 && s <= 59 && ts
            == #[trigger] timestamp_chars(y, mo, d, h, mi, s)
}

/// The dispatcher's fixed text format for every record:
/// `<LEVEL> [<target>] <message>`.
pub open spec fn record_line(level: Seq<char>, target: Seq<char>, message: Seq<char>) -> Seq<
    char,
> {
    level + " ["@ + target + "] "@ + message
}

/// Renders one record in the dispatcher's fixed text format.
pub fn format_record(level: &str, target: &str, message: &str) -> (r: String)
    ensures
        r@ == record_line(level@, target@, message@),
{
    let mut s = level.to_owned();
    s.append(" [");
    s.append(target);
    s.append("] ");
    s.append(message);
    proof {
        assert(s@ =~= record_line(level@, target@, message@));
    }
    s
}

/// The startup banner text: `<app_name> <version>`.
pub open spec fn banner_message(app_name: Seq<char>, version: Seq<char>) -> Seq<char> {
    app_name + " "@ + version
}

/// The startup record naming the active log file.
pub open spec fn log_file_message(path: Seq<char>) -> Seq<char> {
    "Log is written to '"@ + path + "'"@
}

/// The sinks of the generic log directory, as paths for the shell to
/// create and maintain.
pub struct GenericDirPlan {
    /// The generic log directory itself, to be created.
    pub dir: String,
    /// This run's log file inside it.
    pub file: String,
    /// The stable symlink that is re-pointed at `file` (best effort,
    /// on platforms with symbolic links).
    pub symlink: String,
}

/// Everything `build` decided: which sinks to attach and where, what to
/// print, what to log first, and whether retention runs.
pub struct BuildPlan {
    /// The process directory, to be created.
    pub process_dir: String,
    /// The per-process log file sink inside it, overwritten every run.
    pub process_log_file: String,
    /// Per-module level overrides, in the order they were configured.
    pub overrides: Vec<(String, LevelFilter)>,
    /// Whether the console sink is attached.
    pub attach_stderr: bool,
    /// The log file path named by the console notice, absent when
    /// console output is suppressed.
    pub console_notice_file: Option<String>,
    /// The generic-directory sinks, absent when suppressed.
    pub generic: Option<GenericDirPlan>,
    /// Whether retention cleanup runs after activation.
    pub run_cleanup: bool,
    /// The records emitted right after activation.
    pub startup_records: Vec<LogRecord>,
}

/// The one recoverable failure of planning itself.
#[derive(Clone, Copy, PartialEq, Eq, Structural, Debug)]
pub enum BuildError {
    /// The platform offers no per-application data directory, so the
    /// generic log directory cannot be resolved. The shell treats this
    /// as fatal, as it treats every sink establishment failure.
    NoProjectDirs,
}

/// Fluent configuration of the dispatcher, consumed once by `build`.
pub struct Builder {
    /// Per-module level overrides, in configuration order.
    pub overrides: Vec<(String, LevelFilter)>,
    /// Suppress the console sink.
    pub without_stderr: bool,
    /// Suppress the generic-directory sink and everything that depends
    /// on it: file creation, symlink maintenance, retention.
    pub without_generic_log_dir: bool,
}

impl Builder {
    /// A builder with no overrides and nothing suppressed.
    pub fn new() -> (r: Builder)
        ensures
            r.overrides@.len() == 0,
            !r.without_stderr,
            !r.without_generic_log_dir,
    {
        Builder { overrides: Vec::new(), without_stderr: false, without_generic_log_dir: false }
    }

    /// Adds a per-module level override.
    pub fn level_for(self, module: &str, level: LevelFilter) -> (r: Builder)
        ensures
            r.overrides@.len() == self.overrides@.len() + 1,
            forall|i: int| 0 <= i < self.overrides@.len() ==> r.overrides@[i] == self.overrides@[i],
            r.overrides@.last().0@ == module@,
            r.overrides@.last().1 == level,
            r.without_stderr == self.without_stderr,
            r.without_generic_log_dir == self.without_generic_log_dir,
    {
        let mut overrides = self.overrides;
        overrides.push((module.to_owned(), level));
        Builder {
            overrides,
            without_stderr: self.without_stderr,
            without_generic_log_dir: self.without_generic_log_dir,
        }
    }

    /// Suppresses the console sink.
    pub fn without_stderr(self) -> (r: Builder)
        ensures
            r.without_stderr,
            r.without_generic_log_dir == self.without_generic_log_dir,
            r.overrides == self.overrides,
    {
        Builder { without_stderr: true, ..self }
    }

    /// Suppresses the generic log directory and all dependent behavior.
    pub fn without_generic_log_dir(self) -> (r: Builder)
        ensures
            r.without_generic_log_dir,
            r.without_stderr == self.without_stderr,
            r.overrides == self.overrides,
    {
        Builder { without_generic_log_dir: true, ..self }
    }
}

impl Default for Builder {
    /// Same as [`Builder::new`].
    fn default() -> (r: Builder)
        ensures
            r.overrides@.len() == 0,
            !r.without_stderr,
            !r.without_generic_log_dir,
    {
        Builder::new()
    }
}

impl Builder {
    /// Decides the whole build from already-resolved inputs: the
    /// process directory, the platform data-local directory (where one
    /// was looked up), and the current time. Every path is resolved at
    /// most once per state: a slot that already holds a value keeps it.
    pub fn build_resolved(
        self,
        state: &mut LogState,
        process_dir: &str,
        data_local: Option<String>,
        now: (i32, u32, u32, u32, u32, u32),
    ) -> (r: Result<BuildPlan, BuildError>)
        requires
            old(state).app is Some,
            !old(state).activated,
            1 <= now.1 <= 12,
            1 <= now.2 <= 31,
            now.3 <= 23,
            now.4 <= 59,
            now.5 <= 59,
        ensures
            final(state).app == old(state).app,
            final(state).level == old(state).level,
            final(state).process_log_file is Some,
            old(state).process_log_file is Some ==> final(state).process_log_file == old(
                state,
            ).process_log_file,
            old(state).process_log_file is None ==> final(state).process_log_file.unwrap()@
                == process_log_path(process_dir@, old(state).app.unwrap().binary_name@),
            r is Err <==> (!self.without_generic_log_dir && old(state).generic_log_dir is None
                && data_local is None),
            r is Err ==> r == Err::<BuildPlan, BuildError>(BuildError::NoProjectDirs)
                && !final(state).activated && final(state).generic_log_dir == old(
                state,
            ).generic_log_dir && final(state).generic_log_file == old(state).generic_log_file,
            r matches Ok(plan) ==> ({
                let binary = old(state).app.unwrap().binary_name@;
                &&& final(state).activated
                &&& plan.process_dir@ == process_dir@
                &&& plan.process_log_file == final(state).process_log_file.unwrap()
                &&& plan.overrides == self.overrides
                &&& plan.attach_stderr == !self.without_stderr
                &&& plan.console_notice_file is Some <==> !self.without_stderr
                &&& !self.without_stderr ==> plan.console_notice_file.unwrap()
                    == plan.process_log_file
                &&& plan.run_cleanup == !self.without_generic_log_dir
                &&& plan.generic is Some <==> !self.without_generic_log_dir
                &&& self.without_generic_log_dir ==> final(state).generic_log_dir == old(
                    state,
                ).generic_log_dir && final(state).generic_log_file == old(state).generic_log_file
                &&& plan.generic matches Some(g) ==> ({
                    &&& final(state).generic_log_dir == Some(g.dir)
                    &&& final(state).generic_log_file == Some(g.file)
                    &&& old(state).generic_log_dir is Some ==> g.dir == old(
                        state,
                    ).generic_log_dir.unwrap()
                    &&& old(state).generic_log_dir is None ==> g.dir@ == generic_dir_path(
                        data_local.unwrap()@,
                    )
                    &&& old(state).generic_log_file is Some ==> g.file == old(
                        state,
                    ).generic_log_file.unwrap()
                    &&& old(state).generic_log_file is None ==> g.file@ == generic_file_path(
                        g.dir@,
                        binary,
                        timestamp_chars(
                            now.0 as int,
                            now.1 as nat,
                            now.2 as nat,
                            now.3 as nat,
                            now.4 as nat,
                            now.5 as nat,
                        ),
                    )
                    &&& g.symlink@ == generic_symlink_path(g.dir@, binary)
                })
                &&& plan.startup_records@.len() == 2
                &&& plan.startup_records@[0].level == Level::Info
                &&& plan.startup_records@[0].message@ == banner_message(
                    old(state).app.unwrap().app_name@,
                    old(state).app.unwrap().version@,
                )
                &&& plan.startup_records@[1].level == Level::Info
                &&& plan.startup_records@[1].message@ == log_file_message(
                    plan.process_log_file@,
                )
            }),
    {
        let binary_name: String = match &state.app {
            Some(a) => a.binary_name.clone(),
            None => vstd::pervasive::unreached(),
        };

        // Resolve the per-process log file, first resolution winning.
        let process_log_file: String;
        if state.process_log_file.is_some() {
            process_log_file = match &state.process_log_file {
                Some(p) => p.clone(),
                None => vstd::pervasive::unreached(),
            };
        } else {
            let mut f = process_dir.to_owned();
            f.append("/");
            f.append(binary_name.as_str());
            f.append(".log");
            proof {
                assert(f@ =~= process_log_path(
                    process_dir@,
                    old(state).app.unwrap().binary_name@,
                ));
            }
            state.process_log_file = Some(f.clone());
            process_log_file = f;
        }

        // Resolve the generic directory sinks unless suppressed.
        let mut generic: Option<GenericDirPlan> = None;
        if !self.without_generic_log_dir {
            let dir: String;
            if state.generic_log_dir.is_some() {
                dir = match &state.generic_log_dir {
                    Some(d) => d.clone(),
                    None => vstd::pervasive::unreached(),
                };
            } else {
                match data_local {
                    Some(dl) => {
                        let mut d = dl;
                        d.append("/log");
                        state.generic_log_dir = Some(d.clone());
                        dir = d;
                    },
                    None => {
                        return Err(BuildError::NoProjectDirs);
                    },
                }
            }
            let file: String;
            if state.generic_log_file.is_some() {
                file = match &state.generic_log_file {
                    Some(f) => f.clone(),
                    None => vstd::pervasive::unreached(),
                };
            } else {
                let ts = format_timestamp(now.0, now.1, now.2, now.3, now.4, now.5);
                let mut f = dir.clone();
                f.append("/");
                f.append(binary_name.as_str());
                f.append("_");
                f.append(ts.as_str());
                f.append(".log");
                proof {
                    assert(f@ =~= generic_file_path(
                        dir@,
                        old(state).app.unwrap().binary_name@,
                        timestamp_chars(
                            now.0 as int,
                            now.1 as nat,
                            now.2 as nat,
                            now.3 as nat,
                            now.4 as nat,
                            now.5 as nat,
                        ),
                    ));
                }
                state.generic_log_file = Some(f.clone());
                file = f;
            }
            let mut symlink = dir.clone();
            symlink.append("/");
            symlink.append(binary_name.as_str());
            symlink.append(".log");
            proof {
                assert(symlink@ =~= generic_symlink_path(
                    dir@,
                    old(state).app.unwrap().binary_name@,
                ));
            }
            generic = Some(GenericDirPlan { dir, file, symlink });
        }

        // Console notice, unless suppressed.
        let console_notice_file: Option<String> = if self.without_stderr {
            None
        } else {
            Some(process_log_file.clone())
        };

        // Startup records: the banner and the active log file.
        let mut banner: String = match &state.app {
            Some(a) => a.app_name.clone(),
            None => vstd::pervasive::unreached(),
        };
        banner.append(" ");
        let version: String = match &state.app {
            Some(a) => a.version.clone(),
            None => vstd::pervasive::unreached(),
        };
        banner.append(version.as_str());
        proof {
            assert(banner@ =~= banner_message(
                old(state).app.unwrap().app_name@,
                old(state).app.unwrap().version@,
            ));
        }
        let mut file_record = "Log is written to '".to_owned();
        file_record.append(process_log_file.as_str());
        file_record.append("'");
        proof {
            assert(file_record@ =~= log_file_message(process_log_file@));
        }
        let mut startup_records: Vec<LogRecord> = Vec::new();
        startup_records.push(LogRecord { level: Level::Info, message: banner });
        startup_records.push(LogRecord { level: Level::Info, message: file_record });

        state.activated = true;
        Ok(
            BuildPlan {
                process_dir: process_dir.to_owned(),
                process_log_file,
                overrides: self.overrides,
                attach_stderr: !self.without_stderr,
                console_notice_file,
                generic,
                run_cleanup: !self.without_generic_log_dir,
                startup_records,
            },
        )
    }

    /// The terminal operation: resolves the data-local directory and
    /// the clock through their outside crates, then decides the build.
    /// Success is owed whenever the generic directory is suppressed or
    /// already resolved; otherwise the platform lookup decides, and
    /// failure to resolve it is reported as [`BuildError::NoProjectDirs`].
    pub fn build(self, state: &mut LogState, process_dir: &str) -> (r: Result<
        BuildPlan,
        BuildError,
    >)
        requires
            old(state).app is Some,
            !old(state).activated,
        ensures
            final(state).app == old(state).app,
            final(state).level == old(state).level,
            final(state).process_log_file is Some,
            old(state).process_log_file is Some ==> final(state).process_log_file == old(
                state,
            ).process_log_file,
            old(state).process_log_file is None ==> final(state).process_log_file.unwrap()@
                == process_log_path(process_dir@, old(state).app.unwrap().binary_name@),
            self.without_generic_log_dir || old(state).generic_log_dir is Some ==> r is Ok,
            r is Err ==> r == Err::<BuildPlan, BuildError>(BuildError::NoProjectDirs)
                && !self.without_generic_log_dir && old(state).generic_log_dir is None
                && !final(state).activated,
            r matches Ok(plan) ==> ({
                let binary = old(state).app.unwrap().binary_name@;
                &&& final(state).activated
                &&& plan.process_dir@ == process_dir@
                &&& plan.process_log_file == final(state).process_log_file.unwrap()
                &&& plan.overrides == self.overrides
                &&& plan.attach_stderr == !self.without_stderr
                &&& plan.console_notice_file is Some <==> !self.without_stderr
                &&& !self.without_stderr ==> plan.console_notice_file.unwrap()
                    == plan.process_log_file
                &&& plan.run_cleanup == !self.without_generic_log_dir
                &&& plan.generic is Some <==> !self.without_generic_log_dir
                &&& self.without_generic_log_dir ==> final(state).generic_log_dir == old(
                    state,
                ).generic_log_dir && final(state).generic_log_file == old(state).generic_log_file
                &&& plan.generic matches Some(g) ==> ({
                    &&& final(state).generic_log_dir == Some(g.dir)
                    &&& final(state).generic_log_file == Some(g.file)
                    &&& old(state).generic_log_dir is Some ==> g.dir == old(
                        state,
                    ).generic_log_dir.unwrap()
                    &&& old(state).generic_log_file is Some ==> g.file == old(
                        state,
                    ).generic_log_file.unwrap()
                    &&& old(state).generic_log_file is None ==> exists|ts: Seq<char>|
                        #[trigger] is_timestamp(ts) && g.file@ == generic_file_path(
                            g.dir@,
                            binary,
                            ts,
                        )
                    &&& g.symlink@ == generic_symlink_path(g.dir@, binary)
                })
                &&& plan.startup_records@.len() == 2
                &&& plan.startup_records@[0].level == Level::Info
                &&& plan.startup_records@[0].message@ == banner_message(
                    old(state).app.unwrap().app_name@,
                    old(state).app.unwrap().version@,
                )
                &&& plan.startup_records@[1].level == Level::Info
                &&& plan.startup_records@[1].message@ == log_file_message(
                    plan.process_log_file@,
                )
            }),
    {
        let data_local: Option<String> = if !self.without_generic_log_dir
            && !state.generic_log_dir.is_some() {
            let qualifier: String = match &state.app {
                Some(a) => a.qualifier.clone(),
                None => vstd::pervasive::unreached(),
            };
            let organization: String = match &state.app {
                Some(a) => a.organization.clone(),
                None => vstd::pervasive::unreached(),
            };
            let app_name: String = match &state.app {
                Some(a) => a.app_name.clone(),
                None => vstd::pervasive::unreached(),
            };
            crate::sys::data_local_dir_path(
                qualifier.as_str(),
                organization.as_str(),
                app_name.as_str(),
            )
        } else {
            None
        };
        let now = crate::sys::now_parts();
        let ghost ts = timestamp_chars(
            now.0 as int,
            now.1 as nat,
            now.2 as nat,
            now.3 as nat,
            now.4 as nat,
            now.5 as nat,
        );
        let r = self.build_resolved(state, process_dir, data_local, now);
        proof {
            assert(is_timestamp(ts));
        }
        r
    }
}

} // verus!
