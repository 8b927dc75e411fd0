use logsetup::panic_report::observe_panic;
use logsetup::panic_report::panic_records;
use logsetup::panic_report::PanicLocation;
use logsetup::Level;

fn location(file: &str, line: u32, column: u32) -> PanicLocation {
    PanicLocation { file: file.to_string(), line, column }
}

#[test]
fn panic_record_full_pattern() {
    let records = panic_records(
        Some("main".to_string()),
        Some(location("src/lib.rs", 10, 5)),
        Some("boom".to_string()),
        "frames".to_string(),
    );
    assert_eq!(records.len(), 2);
    assert_eq!(records[0].level, Level::Error);
    assert_eq!(records[0].message, "Thread 'main' panicked at src/lib.rs:10:5: boom");
    assert_eq!(records[1].level, Level::Debug);
    assert_eq!(records[1].message, "Panicked stack backtrace: frames");
}

#[test]
fn unnamed_thread_yields_unknown() {
    let records = panic_records(
        None,
        Some(location("main.rs", 1, 2)),
        Some("oops".to_string()),
        String::new(),
    );
    assert_eq!(records[0].message, "Thread '<unknown>' panicked at main.rs:1:2: oops");
}

#[test]
fn missing_location_yields_unknown_and_zeros() {
    let records = panic_records(
        Some("worker".to_string()),
        None,
        Some("bad".to_string()),
        String::new(),
    );
    assert_eq!(records[0].message, "Thread 'worker' panicked at <unknown>:0:0: bad");
}

#[test]
fn non_string_payload_yields_unknown_cause() {
    let records = panic_records(
        Some("main".to_string()),
        Some(location("a.rs", 7, 3)),
        None,
        String::new(),
    );
    assert_eq!(records[0].message, "Thread 'main' panicked at a.rs:7:3: <unknown cause>");
}

#[test]
fn large_line_and_column_numbers() {
    let records = panic_records(
        Some("t".to_string()),
        Some(location("f", u32::MAX, 100)),
        Some("c".to_string()),
        String::new(),
    );
    assert_eq!(records[0].message, "Thread 't' panicked at f:4294967295:100: c");
}

#[test]
fn observe_panic_captures_a_backtrace() {
    let records = observe_panic(
        Some("main".to_string()),
        Some(location("x.rs", 1, 1)),
        Some("why".to_string()),
    );
    assert_eq!(records.len(), 2);
    assert_eq!(records[0].level, Level::Error);
    assert_eq!(records[0].message, "Thread 'main' panicked at x.rs:1:1: why");
    assert_eq!(records[1].level, Level::Debug);
    assert!(records[1].message.starts_with("Panicked stack backtrace: "));
}
