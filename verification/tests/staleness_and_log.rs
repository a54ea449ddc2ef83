use photolog::config::{BlogConfig, PhotoConfig};
use photolog::log::{DirScan, PostLog, resolve_log};
use photolog::staleness::{is_modified, FileEntry};

fn blog_config() -> BlogConfig {
    BlogConfig {
        force_rerender: false,
        photo: PhotoConfig {
            source_ext: String::from(".tif"),
            output_ext: String::from(".webp"),
            outlier_seconds: 48 * 3600,
        },
    }
}

fn entry(name: &str, modified: i64) -> FileEntry {
    FileEntry { name: String::from(name), modified }
}

/// A directory with exactly the expected permitted files, one config
/// file and three photos, none newer than the threshold, is unmodified;
/// pushing one photo's modification time past the threshold flips the
/// verdict.
#[test]
fn concrete_staleness_example() {
    let t0: i64 = 1_600_000_000;
    let mut entries = vec![
        entry("config.ron", t0),
        entry("one.tif", t0),
        entry("two.tif", t0),
        entry("three.tif", t0),
    ];
    assert!(!is_modified(Some(&entries), t0 + 10, 4, &blog_config()));

    entries[2] = entry("two.tif", t0 + 20);
    assert!(is_modified(Some(&entries), t0 + 10, 4, &blog_config()));
}

/// A file whose modification time is newer than the threshold makes the
/// directory modified; once it is there, no other content brings the
/// verdict back to unmodified.
#[test]
fn newer_file_is_monotonic() {
    let t0: i64 = 1_000;
    let old = vec![entry("config.ron", t0), entry("a.tif", t0)];
    assert!(!is_modified(Some(&old), t0, 2, &blog_config()));

    let with_new = vec![entry("config.ron", t0), entry("a.tif", t0), entry("b.tif", t0 + 1)];
    assert!(is_modified(Some(&with_new), t0, 3, &blog_config()));

    // equality with the threshold does not count as modified
    let at_threshold = vec![entry("config.ron", t0), entry("a.tif", t0), entry("b.tif", t0)];
    assert!(!is_modified(Some(&at_threshold), t0, 3, &blog_config()));
}

/// Count drift: a removed file and an added file are both detected,
/// even when every modification time is old.
#[test]
fn count_drift_is_detected() {
    let t0: i64 = 1_000;
    let full = vec![
        entry("config.ron", t0),
        entry("a.tif", t0),
        entry("b.tif", t0),
    ];
    assert!(!is_modified(Some(&full), t0 + 5, 3, &blog_config()));

    let removed = vec![entry("config.ron", t0), entry("a.tif", t0)];
    assert!(is_modified(Some(&removed), t0 + 5, 3, &blog_config()));

    let added = vec![
        entry("config.ron", t0),
        entry("a.tif", t0),
        entry("b.tif", t0),
        entry("c.tif", t0),
    ];
    assert!(is_modified(Some(&added), t0 + 5, 3, &blog_config()));
}

/// Files outside the permitted set are ignored entirely.
#[test]
fn unrelated_files_are_ignored() {
    let t0: i64 = 1_000;
    let entries = vec![
        entry("config.ron", t0),
        entry("a.tif", t0),
        entry("notes.txt", t0 + 999),
        entry("thumbs.db", t0 + 999),
    ];
    assert!(!is_modified(Some(&entries), t0, 2, &blog_config()));
}

/// A missing directory counts as modified: the engine fails safe toward
/// reprocessing.
#[test]
fn missing_directory_is_modified() {
    assert!(is_modified(None, 0, 0, &blog_config()));
}

#[test]
fn resolve_log_without_snapshot_forces_full_processing() {
    let r = resolve_log(None, &DirScan::Listed(Vec::new()), &blog_config());
    assert!(r.files_have_changed);
    assert_eq!(r.as_of, 0);
    assert_eq!(r.photo_count, 0);
}

#[test]
fn resolve_log_scan_failure_discards_the_snapshot() {
    let mut log = PostLog::empty();
    log.as_of = 55;
    log.photo_count = 3;
    log.files_have_changed = false;
    let r = resolve_log(Some(log), &DirScan::Failed, &blog_config());
    assert_eq!(r.as_of, 0);
    assert_eq!(r.photo_count, 0);
    assert!(r.files_have_changed);
}

#[test]
fn resolve_log_missing_directory_keeps_cached_fields() {
    let mut log = PostLog::empty();
    log.as_of = 55;
    log.photo_count = 3;
    log.files_have_changed = false;
    let r = resolve_log(Some(log), &DirScan::Missing, &blog_config());
    assert_eq!(r.as_of, 55);
    assert_eq!(r.photo_count, 3);
    assert!(r.files_have_changed);
}

#[test]
fn resolve_log_checks_photos_plus_config_file() {
    let t0: i64 = 9_000;
    let mut log = PostLog::empty();
    log.as_of = t0 + 10;
    log.photo_count = 3;
    let entries = vec![
        entry("config.ron", t0),
        entry("one.tif", t0),
        entry("two.tif", t0),
        entry("three.tif", t0),
    ];
    let r = resolve_log(Some(log), &DirScan::Listed(entries), &blog_config());
    assert!(!r.files_have_changed);
    assert_eq!(r.photo_count, 3);
    assert_eq!(r.as_of, t0 + 10);
}
