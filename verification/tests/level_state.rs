use logsetup::level::should_emit;
use logsetup::get_log_level;
use logsetup::init;
use logsetup::set_log_level;
use logsetup::Level;
use logsetup::LevelFilter;
use logsetup::LogState;

#[test]
fn level_round_trip_every_level() {
    let levels = [
        LevelFilter::Off,
        LevelFilter::Error,
        LevelFilter::Warn,
        LevelFilter::Info,
        LevelFilter::Debug,
        LevelFilter::Trace,
    ];
    let mut state = LogState::new();
    for level in levels {
        set_log_level(&mut state, level);
        assert_eq!(get_log_level(&state), level);
    }
}

#[test]
fn default_level_is_trace() {
    let state = LogState::new();
    assert_eq!(get_log_level(&state), LevelFilter::Trace);
}

#[test]
fn emission_respects_threshold() {
    assert!(!should_emit(Level::Error, LevelFilter::Off));
    assert!(should_emit(Level::Error, LevelFilter::Error));
    assert!(!should_emit(Level::Warn, LevelFilter::Error));
    assert!(should_emit(Level::Warn, LevelFilter::Warn));
    assert!(should_emit(Level::Info, LevelFilter::Trace));
    assert!(!should_emit(Level::Trace, LevelFilter::Debug));
    assert!(should_emit(Level::Trace, LevelFilter::Trace));
}

#[test]
fn init_records_identity() {
    let mut state = LogState::new();
    init(&mut state, "org", "Example", "Example App", "exampleapp", "1.2.3");
    let app = state.app.as_ref().unwrap();
    assert_eq!(app.qualifier, "org");
    assert_eq!(app.organization, "Example");
    assert_eq!(app.app_name, "Example App");
    assert_eq!(app.binary_name, "exampleapp");
    assert_eq!(app.version, "1.2.3");
}
