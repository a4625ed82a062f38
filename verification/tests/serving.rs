use preview_cache::server::{
    not_found_response_head, ok_response_head, request_path, route, ContentType, ScopeTable,
};

fn scoped(id: &str, dir: &str) -> ScopeTable {
    let mut scopes = ScopeTable::new();
    scopes.register(id.to_string(), dir.to_string());
    scopes
}

#[test]
fn traversal_token_is_refused() {
    let scopes = scoped("abc", "/cache/abc");
    assert!(route(&scopes, "/preview/abc/../secret").is_none());
    assert!(route(&scopes, "/preview/abc/a/../b").is_none());
    assert!(route(&scopes, "/preview/abc/..").is_none());
}

#[test]
fn dots_within_names_are_not_traversal() {
    let scopes = scoped("abc", "/cache/abc");
    assert!(route(&scopes, "/preview/abc/a..b.ts").is_some());
    assert!(route(&scopes, "/preview/abc/...dots").is_some());
}

#[test]
fn unregistered_id_is_refused() {
    let scopes = scoped("abc", "/cache/abc");
    assert!(route(&scopes, "/preview/nope/manifest").is_none());
}

#[test]
fn malformed_paths_are_refused() {
    let scopes = scoped("abc", "/cache/abc");
    assert!(route(&scopes, "").is_none());
    assert!(route(&scopes, "manifest").is_none());
    assert!(route(&scopes, "/other/abc/manifest").is_none());
    assert!(route(&scopes, "/preview").is_none());
    assert!(route(&scopes, "/preview/abc").is_none());
    assert!(route(&scopes, "/preview/abc/").is_none());
    assert!(route(&scopes, "/preview//manifest").is_none());
}

#[test]
fn registered_id_serves_resolved_path() {
    let scopes = scoped("abc", "/cache/abc");
    let target = route(&scopes, "/preview/abc/manifest").unwrap();
    assert_eq!(target.file_path, "/cache/abc/manifest");
    assert_eq!(target.content_type, ContentType::HlsPlaylist);
    let nested = route(&scopes, "/preview/abc/sub/dir/seg_001.ts").unwrap();
    assert_eq!(nested.file_path, "/cache/abc/sub/dir/seg_001.ts");
}

#[test]
fn content_types_by_extension() {
    let scopes = scoped("abc", "/d");
    let cases = [
        ("/preview/abc/playlist.m3u8", ContentType::HlsPlaylist),
        ("/preview/abc/seg_000.ts", ContentType::MpegTransportStream),
        ("/preview/abc/seg_000.m4s", ContentType::Mp4Segment),
        ("/preview/abc/readme.txt", ContentType::Binary),
        ("/preview/abc/noextension", ContentType::Binary),
        ("/preview/abc/manifest", ContentType::HlsPlaylist),
    ];
    for (path, expected) in cases {
        let target = route(&scopes, path).unwrap();
        assert_eq!(target.content_type, expected);
    }
}

#[test]
fn mime_values() {
    assert_eq!(ContentType::HlsPlaylist.mime(), "application/vnd.apple.mpegurl");
    assert_eq!(ContentType::MpegTransportStream.mime(), "video/mp2t");
    assert_eq!(ContentType::Mp4Segment.mime(), "video/mp4");
    assert_eq!(ContentType::Binary.mime(), "application/octet-stream");
}

#[test]
fn reregistration_overwrites() {
    let mut scopes = ScopeTable::new();
    scopes.register("abc".to_string(), "/old".to_string());
    scopes.register("abc".to_string(), "/new".to_string());
    let target = route(&scopes, "/preview/abc/manifest").unwrap();
    assert_eq!(target.file_path, "/new/manifest");
}

#[test]
fn ok_head_for_segment() {
    let head = ok_response_head(ContentType::MpegTransportStream, 42);
    assert_eq!(
        head,
        "HTTP/1.1 200 OK\r\nAccess-Control-Allow-Origin: *\r\nContent-Type: video/mp2t\r\nContent-Length: 42\r\n\r\n"
    );
}

#[test]
fn ok_head_for_playlist_disables_caching() {
    let head = ok_response_head(ContentType::HlsPlaylist, 7);
    assert_eq!(
        head,
        "HTTP/1.1 200 OK\r\nAccess-Control-Allow-Origin: *\r\nContent-Type: application/vnd.apple.mpegurl\r\nCache-Control: no-store\r\nContent-Length: 7\r\n\r\n"
    );
    assert!(!ok_response_head(ContentType::Binary, 7).contains("no-store"));
}

#[test]
fn not_found_head_carries_cors() {
    let head = not_found_response_head();
    assert_eq!(
        head,
        "HTTP/1.1 404 Not Found\r\nAccess-Control-Allow-Origin: *\r\nContent-Length: 0\r\n\r\n"
    );
}

#[test]
fn request_paths_are_extracted_from_get_heads() {
    assert_eq!(
        request_path("GET /preview/abc/manifest HTTP/1.1\r\nHost: x\r\n\r\n").as_deref(),
        Some("/preview/abc/manifest")
    );
    assert_eq!(
        request_path("GET /preview/abc/manifest?x=1 HTTP/1.1\r\n").as_deref(),
        Some("/preview/abc/manifest")
    );
    assert_eq!(request_path("POST /preview/abc/manifest HTTP/1.1\r\n"), None);
    assert_eq!(request_path("GET  HTTP/1.1\r\n"), None);
    assert_eq!(request_path(""), None);
}
