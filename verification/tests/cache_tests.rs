use academy_core::cache::{AssetStatus, CacheManager, FetchDecision};
use academy_core::checksum::checksum64;
use academy_core::errors::FetchError;

fn cache() -> CacheManager {
    CacheManager::new(String::from("/data"))
}

#[test]
fn first_fetch_starts_one_download_with_derived_paths() {
    let mut c = cache();
    match c.begin_fetch(String::from("lesson-7"), String::from("https://cdn/7")) {
        FetchDecision::Download { tmp_path, final_path } => {
            assert_eq!(final_path, "/data/content/lesson-7");
            assert_eq!(tmp_path, "/data/content/tmp/lesson-7");
        }
        _ => panic!("a fresh asset must start a download"),
    }
    assert_eq!(c.assets.len(), 1);
    assert_eq!(c.assets[0].status, AssetStatus::Downloading);
    assert_eq!(c.assets[0].source_url, "https://cdn/7");
}

#[test]
fn concurrent_fetch_attaches_to_the_inflight_download() {
    let mut c = cache();
    let first = c.begin_fetch(String::from("x"), String::from("u"));
    assert!(matches!(first, FetchDecision::Download { .. }));
    // a second request for the same content id starts no second transfer
    let second = c.begin_fetch(String::from("x"), String::from("u"));
    assert!(matches!(second, FetchDecision::Attach));
    assert_eq!(c.assets.len(), 1);
}

#[test]
fn completed_fetch_answers_from_cache() {
    let mut c = cache();
    let d = c.begin_fetch(String::from("x"), String::from("u"));
    assert!(matches!(d, FetchDecision::Download { .. }));
    let path = c.finish_download(&String::from("x"), 77, 77, 1024).unwrap();
    assert_eq!(path, "/data/content/x");
    assert_eq!(c.assets[0].status, AssetStatus::Complete);
    assert_eq!(c.assets[0].checksum, 77);
    assert_eq!(c.assets[0].size_bytes, 1024);
    // a second fetch of the same id and url is a hit: identical path and
    // checksum, and no transfer starts
    match c.begin_fetch(String::from("x"), String::from("u")) {
        FetchDecision::Hit { local_path, checksum } => {
            assert_eq!(local_path, "/data/content/x");
            assert_eq!(checksum, 77);
        }
        _ => panic!("a complete asset must answer from cache"),
    }
    assert_eq!(c.assets[0].status, AssetStatus::Complete);
}

#[test]
fn interrupted_download_is_reset_to_pending_on_startup() {
    let mut c = cache();
    let d = c.begin_fetch(String::from("x"), String::from("u"));
    assert!(matches!(d, FetchDecision::Download { .. }));
    // the process dies mid-download; on restart the cleanup runs
    let discard = c.startup_cleanup();
    assert_eq!(discard, vec![String::from("/data/content/tmp/x")]);
    assert_eq!(c.assets[0].status, AssetStatus::Pending);
    // a subsequent fetch restarts cleanly and completes
    let d = c.begin_fetch(String::from("x"), String::from("u"));
    assert!(matches!(d, FetchDecision::Download { .. }));
    c.finish_download(&String::from("x"), 5, 5, 10).unwrap();
    assert_eq!(c.assets[0].status, AssetStatus::Complete);
}

#[test]
fn startup_cleanup_leaves_finished_assets_alone() {
    let mut c = cache();
    c.begin_fetch(String::from("done"), String::from("u"));
    c.finish_download(&String::from("done"), 1, 1, 1).unwrap();
    c.begin_fetch(String::from("half"), String::from("u"));
    let discard = c.startup_cleanup();
    assert_eq!(discard.len(), 1);
    assert_eq!(c.assets[0].status, AssetStatus::Complete);
    assert_eq!(c.assets[1].status, AssetStatus::Pending);
}

#[test]
fn checksum_mismatch_discards_and_stays_retryable() {
    let mut c = cache();
    c.begin_fetch(String::from("x"), String::from("u"));
    let r = c.finish_download(&String::from("x"), 1, 2, 10);
    assert_eq!(r.unwrap_err(), FetchError::ChecksumMismatch);
    assert_eq!(c.assets[0].status, AssetStatus::Failed);
    assert_eq!(c.assets[0].checksum, 0);
    // the caller may retry: the failed asset starts a fresh download
    let d = c.begin_fetch(String::from("x"), String::from("u2"));
    assert!(matches!(d, FetchDecision::Download { .. }));
    assert_eq!(c.assets[0].source_url, "u2");
}

#[test]
fn finish_without_inflight_download_is_an_io_error() {
    let mut c = cache();
    let r = c.finish_download(&String::from("nobody"), 1, 1, 1);
    assert_eq!(r.unwrap_err(), FetchError::Io);
}

#[test]
fn failed_network_transfer_is_recorded() {
    let mut c = cache();
    c.begin_fetch(String::from("x"), String::from("u"));
    assert!(c.fail_download(&String::from("x")));
    assert_eq!(c.assets[0].status, AssetStatus::Failed);
    assert!(!c.fail_download(&String::from("x")));
}

#[test]
fn checksum64_matches_known_values() {
    assert_eq!(checksum64(&Vec::new()), 14695981039346656037);
    assert_eq!(checksum64(&vec![b'a']), 12638187200555641996);
    assert_eq!(checksum64(&vec![b'a', b'b', b'c']), 16654208175385433931);
}

#[test]
fn lazy_verification_demotes_a_corrupt_complete_asset() {
    let mut c = cache();
    c.begin_fetch(String::from("x"), String::from("u"));
    c.finish_download(&String::from("x"), 42, 42, 8).unwrap();
    // the file is intact: the asset stays complete
    assert!(c.verify_complete(&String::from("x"), true, 42));
    assert_eq!(c.assets[0].status, AssetStatus::Complete);
    // after a restart the file turns out corrupt: back to pending, re-fetch
    assert!(!c.verify_complete(&String::from("x"), true, 43));
    assert_eq!(c.assets[0].status, AssetStatus::Pending);
    let d = c.begin_fetch(String::from("x"), String::from("u"));
    assert!(matches!(d, FetchDecision::Download { .. }));
}

#[test]
fn lazy_verification_demotes_a_missing_file() {
    let mut c = cache();
    c.begin_fetch(String::from("x"), String::from("u"));
    c.finish_download(&String::from("x"), 42, 42, 8).unwrap();
    assert!(!c.verify_complete(&String::from("x"), false, 42));
    assert_eq!(c.assets[0].status, AssetStatus::Pending);
    // an asset that is not complete is never addressable
    assert!(!c.verify_complete(&String::from("x"), true, 42));
    assert!(!c.verify_complete(&String::from("absent"), true, 42));
}

#[test]
fn eviction_forgets_the_asset() {
    let mut c = cache();
    c.begin_fetch(String::from("x"), String::from("u"));
    c.finish_download(&String::from("x"), 1, 1, 1).unwrap();
    c.begin_fetch(String::from("y"), String::from("u"));
    assert!(c.evict(&String::from("x")));
    assert_eq!(c.assets.len(), 1);
    assert_eq!(c.assets[0].content_id, "y");
    assert!(!c.evict(&String::from("x")));
}
