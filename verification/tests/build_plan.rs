use logsetup::builder::format_record;
use logsetup::builder::BuildError;
use logsetup::level::level_text;
use logsetup::Level;
use logsetup::current_log_file;
use logsetup::init;
use logsetup::Builder;
use logsetup::LevelFilter;
use logsetup::LogState;

fn ready_state() -> LogState {
    let mut state = LogState::new();
    init(&mut state, "org", "Example", "Example App", "exampleapp", "1.2.3");
    state
}

const NOW: (i32, u32, u32, u32, u32, u32) = (2024, 1, 2, 3, 4, 5);

#[test]
fn build_resolved_full_plan() {
    let mut state = ready_state();
    let plan = Builder::new()
        .build_resolved(&mut state, "/proc/dir", Some("/home/u/.local/share/app".to_string()), NOW)
        .unwrap();
    assert_eq!(plan.process_dir, "/proc/dir");
    assert_eq!(plan.process_log_file, "/proc/dir/exampleapp.log");
    assert!(plan.attach_stderr);
    assert_eq!(plan.console_notice_file.as_deref(), Some("/proc/dir/exampleapp.log"));
    assert!(plan.run_cleanup);
    let generic = plan.generic.as_ref().unwrap();
    assert_eq!(generic.dir, "/home/u/.local/share/app/log");
    assert_eq!(
        generic.file,
        "/home/u/.local/share/app/log/exampleapp_2024-01-02_03_04_05.log"
    );
    assert_eq!(generic.symlink, "/home/u/.local/share/app/log/exampleapp.log");
    assert_eq!(plan.startup_records.len(), 2);
    assert_eq!(plan.startup_records[0].message, "Example App 1.2.3");
    assert_eq!(
        plan.startup_records[1].message,
        "Log is written to '/proc/dir/exampleapp.log'"
    );
    assert!(state.activated);
}

#[test]
fn timestamp_components_are_zero_padded() {
    let mut state = ready_state();
    let plan = Builder::new()
        .build_resolved(&mut state, "/p", Some("/d".to_string()), (999, 12, 31, 23, 59, 59))
        .unwrap();
    let generic = plan.generic.unwrap();
    assert_eq!(generic.file, "/d/log/exampleapp_0999-12-31_23_59_59.log");
}

#[test]
fn without_stderr_suppresses_console_sink_and_notice() {
    let mut state = ready_state();
    let plan = Builder::new()
        .without_stderr()
        .build_resolved(&mut state, "/p", Some("/d".to_string()), NOW)
        .unwrap();
    assert!(!plan.attach_stderr);
    assert!(plan.console_notice_file.is_none());
    // The other sinks are unaffected.
    assert!(plan.generic.is_some());
    assert!(plan.run_cleanup);
}

#[test]
fn without_generic_log_dir_suppresses_directory_and_cleanup() {
    let mut state = ready_state();
    let plan = Builder::new()
        .without_generic_log_dir()
        .build_resolved(&mut state, "/p", None, NOW)
        .unwrap();
    assert!(plan.generic.is_none());
    assert!(!plan.run_cleanup);
    // Nothing of the generic directory was resolved.
    assert!(state.generic_log_dir.is_none());
    assert!(state.generic_log_file.is_none());
    // The rest of the plan is unaffected.
    assert!(plan.attach_stderr);
    assert_eq!(plan.process_log_file, "/p/exampleapp.log");
}

#[test]
fn missing_platform_directory_is_reported() {
    let mut state = ready_state();
    let r = Builder::new().build_resolved(&mut state, "/p", None, NOW);
    match r {
        Err(e) => assert_eq!(e, BuildError::NoProjectDirs),
        Ok(_) => panic!("planning succeeded without a platform directory"),
    }
    assert!(!state.activated);
}

#[test]
fn process_log_file_memoization_first_value_wins() {
    let mut state = ready_state();
    state.process_log_file = Some("/first/run.log".to_string());
    let plan = Builder::new()
        .without_generic_log_dir()
        .build_resolved(&mut state, "/second", None, NOW)
        .unwrap();
    assert_eq!(plan.process_log_file, "/first/run.log");
    assert_eq!(
        plan.startup_records[1].message,
        "Log is written to '/first/run.log'"
    );
    let a = current_log_file(&state).clone();
    let b = current_log_file(&state).clone();
    assert_eq!(a, b);
    assert_eq!(a, "/first/run.log");
}

#[test]
fn generic_paths_memoization_first_value_wins() {
    let mut state = ready_state();
    state.generic_log_dir = Some("/memo/log".to_string());
    state.generic_log_file = Some("/memo/log/exampleapp_2000-06-07_08_09_10.log".to_string());
    let plan = Builder::new()
        .build_resolved(&mut state, "/p", Some("/ignored".to_string()), NOW)
        .unwrap();
    let generic = plan.generic.unwrap();
    assert_eq!(generic.dir, "/memo/log");
    assert_eq!(generic.file, "/memo/log/exampleapp_2000-06-07_08_09_10.log");
    assert_eq!(generic.symlink, "/memo/log/exampleapp.log");
}

#[test]
fn level_overrides_carry_into_the_plan() {
    let mut state = ready_state();
    let plan = Builder::new()
        .level_for("noisy::module", LevelFilter::Warn)
        .level_for("quiet", LevelFilter::Off)
        .build_resolved(&mut state, "/p", Some("/d".to_string()), NOW)
        .unwrap();
    assert_eq!(plan.overrides.len(), 2);
    assert_eq!(plan.overrides[0].0, "noisy::module");
    assert_eq!(plan.overrides[0].1, LevelFilter::Warn);
    assert_eq!(plan.overrides[1].0, "quiet");
    assert_eq!(plan.overrides[1].1, LevelFilter::Off);
}

#[test]
fn build_with_resolved_directory_succeeds_and_names_a_fresh_file() {
    // With the directory already resolved, `build` needs no platform
    // lookup; the file name comes from the real clock through the
    // timestamp convention.
    let mut state = ready_state();
    state.generic_log_dir = Some("/resolved/log".to_string());
    let plan = Builder::new().build(&mut state, "/p").unwrap();
    let generic = plan.generic.unwrap();
    assert_eq!(generic.dir, "/resolved/log");
    assert!(generic.file.starts_with("/resolved/log/exampleapp_"));
    assert!(generic.file.ends_with(".log"));
    // `<dir>/<binary>_YYYY-MM-DD_HH_MM_SS.log`
    assert_eq!(generic.file.len(), "/resolved/log/exampleapp_".len() + 19 + ".log".len());
    assert_eq!(generic.symlink, "/resolved/log/exampleapp.log");
    assert!(state.activated);
}

#[test]
fn record_line_fixed_format() {
    assert_eq!(level_text(Level::Error), "ERROR");
    assert_eq!(level_text(Level::Warn), "WARN");
    assert_eq!(level_text(Level::Info), "INFO");
    assert_eq!(level_text(Level::Debug), "DEBUG");
    assert_eq!(level_text(Level::Trace), "TRACE");
    assert_eq!(format_record("INFO", "my::module", "hello"), "INFO [my::module] hello");
}

#[test]
fn builder_defaults() {
    let b = Builder::new();
    assert!(!b.without_stderr);
    assert!(!b.without_generic_log_dir);
    assert!(b.overrides.is_empty());
    let d = Builder::default();
    assert!(!d.without_stderr);
    assert!(!d.without_generic_log_dir);
    assert!(d.overrides.is_empty());
}
