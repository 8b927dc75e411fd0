use logsetup::retention::cleanup_files_to_remove;
use logsetup::retention::DirEntry;
use logsetup::retention::KEEP_NUMBER_OF_FILES;

fn file(name: &str) -> DirEntry {
    DirEntry { name: name.to_string(), is_file: true, is_symlink: false }
}

fn timestamp_name(i: u32) -> String {
    format!("app_2024-01-01_00_{:02}_{:02}.log", i / 60, i % 60)
}

#[test]
fn keeps_the_twenty_greatest_of_twenty_five() {
    assert_eq!(KEEP_NUMBER_OF_FILES, 20);
    let entries: Vec<DirEntry> = (1..=25).map(|i| file(&timestamp_name(i))).collect();
    let removed = cleanup_files_to_remove("app", &entries);
    let expected: Vec<String> = (1..=5).map(timestamp_name).collect();
    assert_eq!(removed, expected);
}

#[test]
fn removal_order_is_ascending_even_from_shuffled_listing() {
    let mut order: Vec<u32> = (1..=25).collect();
    order.reverse();
    order.swap(3, 17);
    order.swap(0, 9);
    let entries: Vec<DirEntry> = order.iter().map(|&i| file(&timestamp_name(i))).collect();
    let removed = cleanup_files_to_remove("app", &entries);
    let expected: Vec<String> = (1..=5).map(timestamp_name).collect();
    assert_eq!(removed, expected);
}

#[test]
fn at_most_keep_count_candidates_remove_nothing() {
    let entries: Vec<DirEntry> = (1..=20).map(|i| file(&timestamp_name(i))).collect();
    assert!(cleanup_files_to_remove("app", &entries).is_empty());
    let entries: Vec<DirEntry> = (1..=3).map(|i| file(&timestamp_name(i))).collect();
    assert!(cleanup_files_to_remove("app", &entries).is_empty());
    let none: Vec<DirEntry> = Vec::new();
    assert!(cleanup_files_to_remove("app", &none).is_empty());
}

#[test]
fn non_candidates_are_never_removed() {
    let mut entries: Vec<DirEntry> = Vec::new();
    for i in 1..=25 {
        // Name lacks the binary prefix.
        entries.push(file(&format!("other_2024-01-01_00_00_{i:02}.log")));
        // Name lacks the log suffix.
        entries.push(file(&format!("app_2024-01-01_00_00_{i:02}.txt")));
        // Entry is a directory, not a regular file.
        entries.push(DirEntry {
            name: timestamp_name(i),
            is_file: false,
            is_symlink: false,
        });
        // Entry is a symbolic link.
        entries.push(DirEntry {
            name: timestamp_name(i + 30),
            is_file: true,
            is_symlink: true,
        });
    }
    assert!(cleanup_files_to_remove("app", &entries).is_empty());
}

#[test]
fn junk_entries_do_not_shield_or_join_candidates() {
    let mut entries: Vec<DirEntry> = (1..=25).map(|i| file(&timestamp_name(i))).collect();
    entries.push(file("unrelated.log.bak"));
    entries.push(file("app.log.old"));
    entries.push(DirEntry {
        name: "app_2023-01-01_00_00_00.log".to_string(),
        is_file: true,
        is_symlink: true,
    });
    let removed = cleanup_files_to_remove("app", &entries);
    let expected: Vec<String> = (1..=5).map(timestamp_name).collect();
    assert_eq!(removed, expected);
}

#[test]
fn stable_symlink_name_is_itself_a_candidate_shape() {
    // The stable symlink carries the prefix and suffix, but retention
    // skips it because it is a symlink.
    let mut entries: Vec<DirEntry> = (1..=25).map(|i| file(&timestamp_name(i))).collect();
    entries.push(DirEntry { name: "app.log".to_string(), is_file: true, is_symlink: true });
    let removed = cleanup_files_to_remove("app", &entries);
    assert!(!removed.contains(&"app.log".to_string()));
    assert_eq!(removed.len(), 5);
}
