//! Preview-source resolution.
//!
//! The entry point of the subsystem decides between serving a small file
//! directly and going through the cache-and-server pipeline for a large one.
//! All the decisions stand here as pure functions over plain values; the
//! caller owns the filesystem metadata read, the readiness poll's sleeping,
//! and the transcoder launch, and feeds their outcomes back in.

use vstd::prelude::*;

use crate::key::CacheKey;
use crate::server::spec_serve_prefix;
use crate::server::serve_prefix;
use crate::server::spec_route;
use crate::server::spec_route_parts;
use crate::server::spec_content_type;
use crate::server::spec_has_dotdot;
use crate::server::spec_dotdot_at;
use crate::server::ContentType;
use crate::text::spec_dec;
use crate::text::spec_hex32;
use crate::text::append_dec;
use crate::text::lemma_hex32_is_hex;
use crate::text::lemma_find_value;
use crate::text::spec_rfind;
use crate::text::lemma_rfind_props;
use crate::text::HEX_DIGITS;

verus! {

/// How often readiness is re-checked while waiting (milliseconds).
pub const POLL_INTERVAL_MS: u64 = 200;

/// How long a caller waits for readiness before giving up (milliseconds).
pub const POLL_CEILING_MS: u64 = 30000;

/// How a resolved preview source is to be opened.
#[derive(PartialEq, Eq, Structural, Clone, Copy, Debug)]
pub enum SourceKind {
    /// Open the path as a local file.
    File,
    /// Open the path as an adaptive-stream URL.
    Hls,
}

/// A resolved preview source: a kind and the path or URL to open.
pub struct PreviewSource {
    pub kind: SourceKind,
    pub path: String,
}

impl SourceKind {
    /// The kind's wire label.
    pub fn label(&self) -> (r: &'static str)
        ensures
            *self is File ==> r@ == "file"@,
            *self is Hls ==> r@ == "hls"@,
    {
        match self {
            SourceKind::File => "file",
            SourceKind::Hls => "hls",
        }
    }
}

/// Why resolution failed. I/O and external-process failures carry the
/// diagnostic text they were observed with; a readiness timeout is its own
/// case, so a caller can offer "try again" rather than "file is corrupt".
pub enum ResolveError {
    /// Metadata read, directory creation or file open failed.
    Io(String),
    /// The external transcoder could not be launched.
    Process(String),
    /// Readiness was not observed within the ceiling.
    TimedOut,
}

impl ResolveError {
    /// The error's wire label.
    pub fn label(&self) -> (r: &'static str)
        ensures
            *self is Io ==> r@ == "io"@,
            *self is Process ==> r@ == "process"@,
            *self is TimedOut ==> r@ == "timeout"@,
    {
        match self {
            ResolveError::Io(_) => "io",
            ResolveError::Process(_) => "process",
            ResolveError::TimedOut => "timeout",
        }
    }
}

/// Whether an input of `file_size` bytes bypasses the cache pipeline and is
/// served as a local file directly.
pub fn serves_directly(file_size: u64, min_size_bytes: u64) -> (r: bool)
    ensures
        r == (file_size < min_size_bytes),
{
    file_size < min_size_bytes
}

/// The direct source for a small input: the input path itself.
pub fn direct_source(input_path: &str) -> (r: PreviewSource)
    ensures
        r.kind is File,
        r.path@ == input_path@,
{
    PreviewSource { kind: SourceKind::File, path: input_path.to_owned() }
}

/// Resolves a small input immediately: an input under the size threshold is
/// served as a local file directly, with no cache, claim or server side
/// effect; a larger one yields nothing here and goes through the cache
/// pipeline.
pub fn resolve_direct(input_path: &str, file_size: u64, min_size_bytes: u64) -> (r: Option<
    PreviewSource,
>)
    ensures
        (r is Some) <==> file_size < min_size_bytes,
        match r {
            Some(src) => src.kind is File && src.path@ == input_path@,
            None => true,
        },
{
    if serves_directly(file_size, min_size_bytes) {
        Some(direct_source(input_path))
    } else {
        None
    }
}

/// The directory of the cache entry for `key`: the cache root joined with
/// the key's id.
pub open spec fn spec_entry_dir(cache_root: Seq<char>, key: u128) -> Seq<char> {
    cache_root + "/"@ + spec_hex32(key)
}

/// The directory of the cache entry for `key`.
pub fn entry_dir(cache_root: &str, key: &CacheKey) -> (r: String)
    ensures
        r@ == spec_entry_dir(cache_root@, key.value),
{
    let root = cache_root.to_owned();
    let with_sep = root.concat("/");
    let id = key.id_string();
    with_sep.concat(id.as_str())
}

/// The manifest file within a cache-entry directory.
pub fn manifest_path(dir: &str) -> (r: String)
    ensures
        r@ == dir@ + "/manifest"@,
{
    let d = dir.to_owned();
    d.concat("/manifest")
}

/// The URL under which the entry for `key` is served once registered:
/// `http://127.0.0.1:{port}/{prefix}/{id}/manifest`.
pub open spec fn spec_hls_url(port: u16, key: u128) -> Seq<char> {
    "http://127.0.0.1:"@ + spec_dec(port as nat) + "/"@ + spec_serve_prefix() + "/"@
        + spec_hex32(key) + "/manifest"@
}

/// The streaming source for `key`, served by the embedded server on `port`.
pub fn hls_source(port: u16, key: &CacheKey) -> (r: PreviewSource)
    ensures
        r.kind is Hls,
        r.path@ == spec_hls_url(port, key.value),
{
    let mut s = String::new();
    s.append("http://127.0.0.1:");
    append_dec(&mut s, port as u64);
    s.append("/");
    s.append(serve_prefix());
    s.append("/");
    let id = key.id_string();
    s.append(id.as_str());
    s.append("/manifest");
    assert(s@ =~= spec_hls_url(port, key.value));
    PreviewSource { kind: SourceKind::Hls, path: s }
}

/// Law: resolution and serving agree. The URL handed out for `key` is the
/// local origin followed by the served request path, and that request path,
/// routed against any scope in which the key's id is registered, serves
/// exactly the registered directory's `manifest` file as a playlist.
pub proof fn lemma_hls_url_routes_to_manifest(m: Map<Seq<char>, Seq<char>>, port: u16, key: u128)
    requires
        m.contains_key(spec_hex32(key)),
    ensures
        spec_hls_url(port, key) == "http://127.0.0.1:"@ + spec_dec(port as nat) + ("/"@
            + spec_serve_prefix() + "/"@ + spec_hex32(key) + "/manifest"@),
        spec_route(m, "/"@ + spec_serve_prefix() + "/"@ + spec_hex32(key) + "/manifest"@)
            == Some((m[spec_hex32(key)] + "/"@ + "manifest"@, ContentType::HlsPlaylist)),
{
    reveal_strlit("/");
    reveal_strlit("preview");
    reveal_strlit("/manifest");
    reveal_strlit("manifest");
    let id = spec_hex32(key);
    let path = "/"@ + spec_serve_prefix() + "/"@ + id + "/manifest"@;
    assert("/"@.len() == 1);
    assert(spec_serve_prefix().len() == 7);
    assert("/manifest"@.len() == 9);
    assert(id.len() == 32);
    assert(path.len() == 50);
    assert(spec_hls_url(port, key) =~= "http://127.0.0.1:"@ + spec_dec(port as nat) + path);

    assert(path[0] == '/');
    assert forall|j: int| 1 <= j < 8 implies path[j] != '/' by {
        assert(path[j] == spec_serve_prefix()[j - 1]);
    }
    assert(path[8] == '/');
    lemma_find_value(path, 1, '/', 8);
    assert(path.subrange(1, 8) =~= spec_serve_prefix());

    assert forall|i: int| 0 <= i < 32 implies id[i] != '/' && id[i] != '.' by {
        lemma_hex32_is_hex(key, i);
        assert(forall|d: int|
            0 <= d < 16 ==> HEX_DIGITS@[d] != '/' && HEX_DIGITS@[d] != '.');
    }
    assert(forall|j: int| 9 <= j < 41 ==> path[j] == id[j - 9]);
    assert(path[41] == '/');
    lemma_find_value(path, 9, '/', 41);
    assert(path.subrange(9, 41) =~= id);

    let rel = path.subrange(42, 50);
    assert(rel =~= "manifest"@);
    assert(forall|i: int| 0 <= i < rel.len() ==> rel[i] != '.' && rel[i] != '/');
    assert forall|i: int| 0 <= i && i + 2 <= rel.len() implies !spec_dotdot_at(rel, i) by {
        assert(rel[i] != '.');
    }
    assert(!spec_has_dotdot(rel));
    assert(spec_route_parts(path) == Some((id, rel)));

    lemma_rfind_props(rel, '/');
    assert(spec_rfind(rel, '/') == -1);
    let name = rel.subrange(0, 8);
    assert(name =~= rel);
    lemma_rfind_props(name, '.');
    assert(spec_rfind(name, '.') == -1);
    assert(spec_content_type(rel) == ContentType::HlsPlaylist);
    assert(spec_route(m, path) == Some(
        (m[id] + "/"@ + "manifest"@, ContentType::HlsPlaylist),
    ));
}

/// One step of the readiness poll's schedule: how long to sleep before the
/// next check after having waited `waited_ms`, or nothing once the ceiling
/// is reached and the caller must give up with a timeout.
pub fn poll_next(waited_ms: u64) -> (r: Option<u64>)
    ensures
        match r {
            Some(interval) => waited_ms < POLL_CEILING_MS && interval == POLL_INTERVAL_MS,
            None => waited_ms >= POLL_CEILING_MS,
        },
{
    if waited_ms < POLL_CEILING_MS {
        Some(POLL_INTERVAL_MS)
    } else {
        None
    }
}

} // verus!
