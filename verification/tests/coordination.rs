use preview_cache::jobs::{ClaimOutcome, JobTable, STALENESS_TIMEOUT_MS};
use preview_cache::manifest::manifest_is_ready;

#[test]
fn claim_then_duplicate_then_stale_reclaim() {
    let mut t = JobTable::new();
    let key: u128 = 7;
    // First claim is granted.
    assert!(matches!(t.try_claim(key, 1_000), ClaimOutcome::Claimed));
    // A second claim in quick succession is refused.
    assert!(matches!(t.try_claim(key, 1_200), ClaimOutcome::AlreadyInFlight));
    // At exactly the timeout boundary the claim still stands.
    assert!(matches!(
        t.try_claim(key, 1_000 + STALENESS_TIMEOUT_MS),
        ClaimOutcome::AlreadyInFlight
    ));
    // Once the timeout has elapsed with no release, a claim is granted again.
    assert!(matches!(
        t.try_claim(key, 1_001 + STALENESS_TIMEOUT_MS),
        ClaimOutcome::Claimed
    ));
}

#[test]
fn release_frees_the_slot() {
    let mut t = JobTable::new();
    let key: u128 = 9;
    assert!(matches!(t.try_claim(key, 10), ClaimOutcome::Claimed));
    t.release(key);
    assert!(matches!(t.try_claim(key, 11), ClaimOutcome::Claimed));
}

#[test]
fn release_is_idempotent() {
    let mut t = JobTable::new();
    let key: u128 = 3;
    assert!(matches!(t.try_claim(key, 10), ClaimOutcome::Claimed));
    t.release(key);
    t.release(key);
    t.release(0xdead);
    assert!(matches!(t.try_claim(key, 11), ClaimOutcome::Claimed));
}

#[test]
fn claims_for_different_keys_are_independent() {
    let mut t = JobTable::new();
    assert!(matches!(t.try_claim(1, 100), ClaimOutcome::Claimed));
    assert!(matches!(t.try_claim(2, 100), ClaimOutcome::Claimed));
    assert!(matches!(t.try_claim(1, 101), ClaimOutcome::AlreadyInFlight));
    t.release(1);
    assert!(matches!(t.try_claim(1, 102), ClaimOutcome::Claimed));
    assert!(matches!(t.try_claim(2, 102), ClaimOutcome::AlreadyInFlight));
}

#[test]
fn stale_reclaim_refreshes_the_record() {
    let mut t = JobTable::new();
    let key: u128 = 5;
    assert!(matches!(t.try_claim(key, 0), ClaimOutcome::Claimed));
    // Stale: reclaimed and refreshed at 40s.
    assert!(matches!(t.try_claim(key, 40_000), ClaimOutcome::Claimed));
    // The refreshed record blocks again relative to the new timestamp.
    assert!(matches!(t.try_claim(key, 50_000), ClaimOutcome::AlreadyInFlight));
}

#[test]
fn empty_manifest_is_not_ready() {
    assert!(!manifest_is_ready(b""));
}

#[test]
fn comments_and_blank_lines_are_not_ready() {
    assert!(!manifest_is_ready(b"#EXTM3U\n#EXT-X-VERSION:3\n"));
    assert!(!manifest_is_ready(b"\n\n   \n\t\r\n"));
    assert!(!manifest_is_ready(b"   # indented comment\n"));
}

#[test]
fn reference_line_is_ready() {
    assert!(manifest_is_ready(b"#EXTM3U\n#EXT-X-TARGETDURATION:4\nseg_000.ts\n"));
    assert!(manifest_is_ready(b"seg_000.ts"));
    assert!(manifest_is_ready(b"   seg_000.ts\n"));
    assert!(manifest_is_ready(b"\n\nseg_000.ts\n# trailing comment\n"));
}

#[test]
fn readiness_survives_appends() {
    // Once ready, appending whatever the writer emits next keeps it ready.
    let base = b"#EXTM3U\nseg_000.ts\n".to_vec();
    assert!(manifest_is_ready(&base));
    let mut grown = base.clone();
    grown.extend_from_slice(b"#EXTINF:4.0,\nseg_001.ts\n");
    assert!(manifest_is_ready(&grown));
    grown.extend_from_slice(b"# partial comment without newline");
    assert!(manifest_is_ready(&grown));
}

#[test]
fn comment_content_does_not_leak_into_next_line() {
    // A comment line mentioning something is still a comment to its end.
    assert!(!manifest_is_ready(b"# this line mentions seg_000.ts\n"));
    assert!(manifest_is_ready(b"# header\nactual.ts"));
}
