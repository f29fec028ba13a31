use rust_exe::cache::{BINARY_RETENTION_SECS, BUILD_RETENTION_SECS, SOURCE_RETENTION_SECS};
use rust_exe::{is_stale, stale_entries, CacheDir, EntryTimes, Staleness};

const NOW: u64 = 1_700_000_000;

#[test]
fn binary_eviction_goes_by_access_time() {
    let old_access = EntryTimes { modified: NOW, accessed: NOW - BINARY_RETENTION_SECS - 1 };
    assert!(is_stale(CacheDir::Binary, old_access, NOW));
    let recent_access = EntryTimes { modified: 0, accessed: NOW - BINARY_RETENTION_SECS };
    assert!(!is_stale(CacheDir::Binary, recent_access, NOW));
    let fresh = EntryTimes { modified: 0, accessed: NOW - 60 };
    assert!(!is_stale(CacheDir::Binary, fresh, NOW));
}

#[test]
fn source_eviction_goes_by_modification_time() {
    let t = EntryTimes { modified: NOW - SOURCE_RETENTION_SECS - 1, accessed: NOW };
    assert!(is_stale(CacheDir::Source, t, NOW));
    let t = EntryTimes { modified: NOW - 60, accessed: 0 };
    assert!(!is_stale(CacheDir::Source, t, NOW));
}

#[test]
fn policies_and_thresholds() {
    assert_eq!(CacheDir::Source.signal(), Staleness::Modified);
    assert_eq!(CacheDir::Build.signal(), Staleness::Accessed);
    assert_eq!(CacheDir::Binary.signal(), Staleness::Accessed);
    assert_eq!(CacheDir::Source.retention_secs(), 1920);
    assert_eq!(CacheDir::Build.retention_secs(), 172_800);
    assert_eq!(CacheDir::Binary.retention_secs(), 691_200);
    assert!(BUILD_RETENTION_SECS < BINARY_RETENTION_SECS);
}

#[test]
fn future_timestamps_are_fresh() {
    let t = EntryTimes { modified: u64::MAX, accessed: u64::MAX };
    assert!(!is_stale(CacheDir::Build, t, 0));
}

#[test]
fn sweep_lists_stale_positions_in_order() {
    let entries = vec![
        EntryTimes { modified: 0, accessed: NOW - BUILD_RETENTION_SECS - 5 },
        EntryTimes { modified: 0, accessed: NOW },
        EntryTimes { modified: NOW, accessed: 0 },
    ];
    assert_eq!(stale_entries(CacheDir::Build, &entries, NOW), vec![0, 2]);
    assert_eq!(stale_entries(CacheDir::Source, &entries, NOW), vec![0, 1]);
    assert_eq!(stale_entries(CacheDir::Binary, &Vec::new(), NOW), Vec::<usize>::new());
}
