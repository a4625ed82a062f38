use preview_cache::jobs::{ClaimOutcome, JobTable};
use preview_cache::key::derive_key;
use preview_cache::manifest::manifest_is_ready;
use preview_cache::resolver::{
    entry_dir, hls_source, manifest_path, poll_next, resolve_direct, ResolveError, SourceKind,
    POLL_CEILING_MS, POLL_INTERVAL_MS,
};
use preview_cache::server::{route, ContentType, ScopeTable};

#[test]
fn small_input_resolves_directly() {
    // A 10MB input under a 50MB threshold bypasses the cache pipeline.
    let source = resolve_direct("/videos/small.mp4", 10_000_000, 50_000_000).unwrap();
    assert_eq!(source.kind, SourceKind::File);
    assert_eq!(source.path, "/videos/small.mp4");
}

#[test]
fn large_input_goes_through_the_cache() {
    assert!(resolve_direct("/videos/large.mp4", 200_000_000, 50_000_000).is_none());
    // The threshold itself is not "under".
    assert!(resolve_direct("/videos/edge.mp4", 50_000_000, 50_000_000).is_none());
}

#[test]
fn entry_locations() {
    let k = preview_cache::key::CacheKey { value: 0xff };
    let dir = entry_dir("/cache", &k);
    assert_eq!(dir, "/cache/000000000000000000000000000000ff");
    assert_eq!(manifest_path(&dir), "/cache/000000000000000000000000000000ff/manifest");
}

#[test]
fn hls_url_shape() {
    let k = preview_cache::key::CacheKey { value: 1 };
    let source = hls_source(8080, &k);
    assert_eq!(source.kind, SourceKind::Hls);
    assert_eq!(
        source.path,
        "http://127.0.0.1:8080/preview/00000000000000000000000000000001/manifest"
    );
}

#[test]
fn poll_schedule_has_a_ceiling() {
    assert_eq!(poll_next(0), Some(POLL_INTERVAL_MS));
    assert_eq!(poll_next(POLL_CEILING_MS - 1), Some(POLL_INTERVAL_MS));
    assert_eq!(poll_next(POLL_CEILING_MS), None);
    // The schedule reaches the ceiling in finitely many steps.
    let mut waited: u64 = 0;
    let mut steps: u32 = 0;
    while let Some(interval) = poll_next(waited) {
        waited += interval;
        steps += 1;
        assert!(steps <= 200);
    }
    assert_eq!(waited, POLL_CEILING_MS);
}

#[test]
fn kind_and_error_labels() {
    assert_eq!(SourceKind::File.label(), "file");
    assert_eq!(SourceKind::Hls.label(), "hls");
    assert_eq!(ResolveError::Io("denied".to_string()).label(), "io");
    assert_eq!(ResolveError::Process("exit 1".to_string()).label(), "process");
    assert_eq!(ResolveError::TimedOut.label(), "timeout");
}

#[test]
fn large_input_pipeline_end_to_end() {
    // A 200MB input over the 50MB threshold: not served directly.
    let input = "/videos/large.mp4";
    assert!(resolve_direct(input, 200_000_000, 50_000_000).is_none());

    // Derive the key from identity and parameters.
    let key = derive_key(input, 200_000_000, 1_700_000_000, 500, 4, None, Some(0));
    let dir = entry_dir("/cache", &key);

    // The fresh entry's manifest is empty: not ready, so the first caller
    // claims the job; a concurrent caller does not.
    assert!(!manifest_is_ready(b""));
    let mut jobs = JobTable::new();
    assert!(matches!(jobs.try_claim(key.value, 1_000), ClaimOutcome::Claimed));
    assert!(matches!(jobs.try_claim(key.value, 1_100), ClaimOutcome::AlreadyInFlight));

    // The transcoder appends a reference line: the entry becomes ready.
    assert!(manifest_is_ready(b"#EXTM3U\n#EXT-X-TARGETDURATION:4\nseg_000.ts\n"));
    jobs.release(key.value);

    // Register the entry and hand out the streaming source.
    let mut scopes = ScopeTable::new();
    scopes.register(key.id_string(), dir.clone());
    let source = hls_source(8080, &key);
    assert_eq!(source.kind, SourceKind::Hls);
    let expected_url = format!("http://127.0.0.1:8080/preview/{}/manifest", key.id_string());
    assert_eq!(source.path, expected_url);

    // A GET of that URL's path routes to the entry's manifest.
    let request_path = format!("/preview/{}/manifest", key.id_string());
    let target = route(&scopes, &request_path).unwrap();
    assert_eq!(target.file_path, format!("{}/manifest", dir));
    assert_eq!(target.content_type, ContentType::HlsPlaylist);
}
