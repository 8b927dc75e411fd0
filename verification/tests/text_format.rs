use logsetup::text::format_timestamp;
use logsetup::text::format_u32;
use logsetup::text::str_ends_with;
use logsetup::text::str_lex_leq;
use logsetup::text::str_starts_with;

#[test]
fn decimal_formatting() {
    assert_eq!(format_u32(0), "0");
    assert_eq!(format_u32(7), "7");
    assert_eq!(format_u32(10), "10");
    assert_eq!(format_u32(305), "305");
    assert_eq!(format_u32(u32::MAX), "4294967295");
}

#[test]
fn timestamp_formatting() {
    assert_eq!(format_timestamp(2024, 1, 2, 3, 4, 5), "2024-01-02_03_04_05");
    assert_eq!(format_timestamp(999, 12, 31, 23, 59, 59), "0999-12-31_23_59_59");
    assert_eq!(format_timestamp(0, 1, 1, 0, 0, 0), "0000-01-01_00_00_00");
    assert_eq!(format_timestamp(10000, 1, 1, 0, 0, 0), "10000-01-01_00_00_00");
}

#[test]
fn timestamp_order_matches_chronology() {
    let earlier = format_timestamp(2024, 9, 30, 23, 59, 59);
    let later = format_timestamp(2024, 10, 1, 0, 0, 0);
    assert!(str_lex_leq(&earlier, &later));
    assert!(!str_lex_leq(&later, &earlier));
}

#[test]
fn lexicographic_order() {
    assert!(str_lex_leq("a", "b"));
    assert!(!str_lex_leq("b", "a"));
    assert!(str_lex_leq("a", "ab"));
    assert!(!str_lex_leq("ab", "a"));
    assert!(str_lex_leq("", "a"));
    assert!(str_lex_leq("same", "same"));
}

#[test]
fn prefix_and_suffix_tests() {
    assert!(str_starts_with("app_2024.log", "app"));
    assert!(!str_starts_with("ap", "app"));
    assert!(!str_starts_with("xapp", "app"));
    assert!(str_starts_with("anything", ""));
    assert!(str_ends_with("app_2024.log", ".log"));
    assert!(!str_ends_with("app_2024.txt", ".log"));
    assert!(!str_ends_with("og", ".log"));
    assert!(str_ends_with("anything", ""));
}
