use kikan::backup::{
    backup_entries_newest_first, backup_slot, extract_version, format_mtime, BackupSlot, FoundBackup,
};

#[test]
fn extract_version_takes_text_after_last_marker() {
    assert_eq!(extract_version("/data/demo/mokumo.db.backup-v0.4.2"), "0.4.2");
    assert_eq!(extract_version("a.backup-v1.backup-v2"), "2");
    assert_eq!(extract_version("a.backup-v"), "");
}

#[test]
fn extract_version_without_marker_is_empty() {
    assert_eq!(extract_version("/data/demo/mokumo.db"), "");
    assert_eq!(extract_version(""), "");
    assert_eq!(extract_version(".backup-"), "");
}

#[test]
fn backups_are_listed_newest_first() {
    let found = vec![
        FoundBackup { path: "db.backup-v1".to_string(), modified: "2024-01-01T00:00:00Z".to_string() },
        FoundBackup { path: "db.backup-v2".to_string(), modified: "2024-02-01T00:00:00Z".to_string() },
        FoundBackup { path: "db.other".to_string(), modified: "2024-03-01T00:00:00Z".to_string() },
    ];
    let entries = backup_entries_newest_first(found);
    assert_eq!(entries.len(), 3);
    assert_eq!(entries[0].path, "db.other");
    assert_eq!(entries[0].version, "");
    assert_eq!(entries[0].backed_up_at, "2024-03-01T00:00:00Z");
    assert_eq!(entries[1].version, "2");
    assert_eq!(entries[2].path, "db.backup-v1");
    assert_eq!(entries[2].version, "1");
    assert_eq!(entries[2].backed_up_at, "2024-01-01T00:00:00Z");
}

#[test]
fn backup_listing_of_nothing_is_empty() {
    assert!(backup_entries_newest_first(Vec::new()).is_empty());
}

#[test]
fn backup_slots_by_directory_name() {
    assert!(matches!(backup_slot("production"), BackupSlot::Production));
    assert!(matches!(backup_slot("demo"), BackupSlot::Demo));
    assert!(matches!(backup_slot("Demo"), BackupSlot::Unlisted));
    assert!(matches!(backup_slot("staging"), BackupSlot::Unlisted));
}

#[test]
fn format_mtime_renders_rfc3339_seconds() {
    assert_eq!(format_mtime(0, 0), Some("1970-01-01T00:00:00Z".to_string()));
    assert_eq!(format_mtime(1_700_000_000, 999_999_999), Some("2023-11-14T22:13:20Z".to_string()));
    assert_eq!(format_mtime(951_868_799, 0), Some("2000-02-29T23:59:59Z".to_string()));
}

#[test]
fn format_mtime_before_epoch_and_out_of_range() {
    assert_eq!(format_mtime(-1, 0), Some("1969-12-31T23:59:59Z".to_string()));
    assert_eq!(format_mtime(i64::MAX, 0), None);
}
