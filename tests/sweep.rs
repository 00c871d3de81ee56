use slice_quote::sweep::{plan_cleanup, CleanupStats, SweepEntry};

const HOUR: u128 = 3_600_000_000_000;

fn file(age_hours: u128, extra: u128, size: u64) -> SweepEntry {
    SweepEntry { is_file: true, age_nanos: Some(age_hours * HOUR + extra), size }
}

#[test]
fn old_files_are_removed_and_counted() {
    let entries = vec![
        file(30, 0, 100),
        file(1, 0, 5),
        SweepEntry { is_file: false, age_nanos: Some(100 * HOUR), size: 4096 },
        file(25, 0, 11),
        SweepEntry { is_file: true, age_nanos: None, size: 9 },
    ];
    let plan = plan_cleanup(&entries, 24);
    assert_eq!(plan.remove, vec![0, 3]);
    assert_eq!(plan.stats.files_cleaned, 2);
    assert_eq!(plan.stats.bytes_freed, 111);
}

#[test]
fn cutoff_is_strict() {
    let entries = vec![file(24, 0, 1), file(24, 1, 2)];
    let plan = plan_cleanup(&entries, 24);
    assert_eq!(plan.remove, vec![1]);
    assert_eq!(plan.stats.bytes_freed, 2);
}

#[test]
fn empty_directory_and_huge_ages() {
    let plan = plan_cleanup(&Vec::new(), 1);
    assert!(plan.remove.is_empty());
    assert_eq!(plan.stats.files_cleaned, 0);
    let plan = plan_cleanup(&vec![file(1000, 0, 1)], u64::MAX);
    assert!(plan.remove.is_empty());
}

#[test]
fn freed_bytes_stop_at_the_maximum() {
    let plan = plan_cleanup(&vec![file(2, 0, u64::MAX), file(2, 0, 5)], 1);
    assert_eq!(plan.stats.bytes_freed, u64::MAX);
    assert_eq!(plan.stats.files_cleaned, 2);
}

#[test]
fn cleanup_summary() {
    let s = CleanupStats { files_cleaned: 3, bytes_freed: 1024 };
    assert_eq!(s.describe(), "CleanupStats(files=3, bytes=1024)");
}
