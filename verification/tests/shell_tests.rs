use academy_core::clock::{now_timestamp, sync_timestamp, MAX_RFC3339_MILLIS};
use academy_core::connectivity::ConnectivityMonitor;
use academy_core::errors::PathError;
use academy_core::paths::{content_file_path, db_file_path, tmp_file_path};

#[test]
fn paths_are_derived_from_the_base_directory() {
    assert_eq!(db_file_path("/home/u/app"), "/home/u/app/school_data.db");
    assert_eq!(content_file_path("/home/u/app", "vid-3"), "/home/u/app/content/vid-3");
    assert_eq!(tmp_file_path("/home/u/app", "vid-3"), "/home/u/app/content/tmp/vid-3");
}

#[test]
fn path_resolution_is_deterministic() {
    assert_eq!(db_file_path("/base"), db_file_path("/base"));
}

#[test]
fn timestamps_format_as_rfc3339() {
    assert_eq!(sync_timestamp(0).unwrap(), "1970-01-01T00:00:00+00:00");
    assert_eq!(sync_timestamp(1000).unwrap(), "1970-01-01T00:00:01+00:00");
    assert!(sync_timestamp(-1).is_none());
    assert!(sync_timestamp(MAX_RFC3339_MILLIS + 1).is_none());
}

#[test]
fn now_timestamp_reports_the_present() {
    // this machine's clock reads after the epoch, so a moment comes back
    let (ms, s) = now_timestamp().unwrap();
    assert!((0..=MAX_RFC3339_MILLIS).contains(&ms));
    assert_eq!(s, sync_timestamp(ms).unwrap());
}

#[test]
fn connectivity_probe_results_are_cached_for_the_interval() {
    let mut m = ConnectivityMonitor::new(3000);
    assert!(m.needs_probe(100, false));
    assert_eq!(m.cached(100), None);
    m.record_probe(100, true);
    assert!(!m.needs_probe(200, false));
    assert_eq!(m.cached(200), Some(true));
    // a caller needing freshness can force a probe
    assert!(m.needs_probe(200, true));
    // the cached result ages out
    assert!(m.needs_probe(3100, false));
    assert_eq!(m.cached(3100), None);
    // a clock that moved backwards invalidates the cache
    assert!(m.needs_probe(50, false));
}

#[test]
fn path_error_names_the_failed_base_directory() {
    assert_eq!(PathError::CannotCreateBase, PathError::CannotCreateBase);
}
