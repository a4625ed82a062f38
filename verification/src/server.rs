//! Embedded file-server logic: the registered serving scope, request
//! routing with path-traversal protection, and response-head assembly.
//!
//! The server exposes one route shape, `/{prefix}/{id}/{relative-path}`.
//! A request is refused (as a generic not-found, leaking no internal detail)
//! when the path does not match that shape, when the relative path carries a
//! parent-directory traversal token, or when the id is not registered.
//! Otherwise the relative path is resolved against the registered directory;
//! opening the resolved file — and turning an open failure into the same
//! not-found response — is the caller's part.

use vstd::prelude::*;

use crate::assoc::as_map;
use crate::assoc::lemma_as_map_contains;
use crate::assoc::lemma_as_map_index;
use crate::assoc::lemma_as_map_push;
use crate::assoc::lemma_as_map_update;
use crate::assoc::pairs_unique;
use crate::text::spec_dec;
use crate::text::append_dec;
use crate::text::spec_find;
use crate::text::lemma_find_props;
use crate::text::find_char;
use crate::text::spec_rfind;
use crate::text::lemma_rfind_props;
use crate::text::rfind_char;
use crate::text::str_eq;

verus! {

/// The fixed first segment of every served path.
pub open spec fn spec_serve_prefix() -> Seq<char> {
    "preview"@
}

/// The fixed first segment of every served path.
pub fn serve_prefix() -> (r: &'static str)
    ensures
        r@ == spec_serve_prefix(),
{
    "preview"
}

/// The content type a response declares, derived from the served file's
/// name. Unknown extensions fall back to an opaque binary type.
#[derive(PartialEq, Eq, Structural, Clone, Copy, Debug)]
pub enum ContentType {
    /// A streaming playlist (the manifest itself, or any `.m3u8` file).
    HlsPlaylist,
    /// A `.ts` media segment.
    MpegTransportStream,
    /// An `.m4s` media segment.
    Mp4Segment,
    /// Anything else: opaque bytes.
    Binary,
}

/// The MIME value a content type is declared as.
pub open spec fn spec_mime(ct: ContentType) -> Seq<char> {
    match ct {
        ContentType::HlsPlaylist => "application/vnd.apple.mpegurl"@,
        ContentType::MpegTransportStream => "video/mp2t"@,
        ContentType::Mp4Segment => "video/mp4"@,
        ContentType::Binary => "application/octet-stream"@,
    }
}

impl ContentType {
    /// The MIME value this content type is declared as.
    pub fn mime(&self) -> (r: &'static str)
        ensures
            r@ == spec_mime(*self),
    {
        match self {
            ContentType::HlsPlaylist => "application/vnd.apple.mpegurl",
            ContentType::MpegTransportStream => "video/mp2t",
            ContentType::Mp4Segment => "video/mp4",
            ContentType::Binary => "application/octet-stream",
        }
    }

    /// Playlists are mutated in place while a transcode is still appending
    /// segments, so only they disable transport-level caching.
    pub fn disables_caching(&self) -> (r: bool)
        ensures
            r == (*self is HlsPlaylist),
    {
        match self {
            ContentType::HlsPlaylist => true,
            _ => false,
        }
    }
}

/// A parent-directory traversal token stands at `i`: a `..` that fills a
/// whole `/`-separated segment.
pub open spec fn spec_dotdot_at(s: Seq<char>, i: int) -> bool {
    &&& s[i] == '.'
    &&& s[i + 1] == '.'
    &&& (i == 0 || s[i - 1] == '/')
    &&& (i + 2 == s.len() || s[i + 2] == '/')
}

/// Whether any segment of the path is the parent-directory traversal token.
pub open spec fn spec_has_dotdot(s: Seq<char>) -> bool {
    exists|i: int| 0 <= i && i + 2 <= s.len() && spec_dotdot_at(s, i)
}

/// Scans a relative path for a parent-directory traversal token.
pub fn has_dotdot(rel: &str) -> (r: bool)
    ensures
        r == spec_has_dotdot(rel@),
{
    let n = rel.unicode_len();
    if n < 2 {
        return false;
    }
    let mut i: usize = 0;
    while i <= n - 2
        invariant
            n == rel@.len(),
            2 <= n,
            i <= n,
            forall|j: int| 0 <= j < i && j + 2 <= n ==> !spec_dotdot_at(rel@, j),
        decreases n - i,
    {
        let c0 = rel.get_char(i);
        let c1 = rel.get_char(i + 1);
        let left_ok = i == 0 || rel.get_char(i - 1) == '/';
        let right_ok = i + 2 == n || rel.get_char(i + 2) == '/';
        if c0 == '.' && c1 == '.' && left_ok && right_ok {
            assert(spec_dotdot_at(rel@, i as int));
            return true;
        }
        assert(!spec_dotdot_at(rel@, i as int));
        i = i + 1;
    }
    assert(forall|j: int| 0 <= j && j + 2 <= n ==> !spec_dotdot_at(rel@, j));
    false
}

/// The id and relative path of a request path that matches the served route
/// shape `/{prefix}/{id}/{relative-path}` — with the prefix exact, both
/// parts non-empty, and the relative path free of traversal tokens — or
/// nothing.
pub open spec fn spec_route_parts(path: Seq<char>) -> Option<(Seq<char>, Seq<char>)> {
    if path.len() == 0 || path[0] != '/' {
        None
    } else {
        let a = spec_find(path, 1, '/');
        if a == path.len() || path.subrange(1, a) != spec_serve_prefix() {
            None
        } else {
            let b = spec_find(path, a + 1, '/');
            if b == path.len() {
                None
            } else {
                let id = path.subrange(a + 1, b);
                let rel = path.subrange(b + 1, path.len() as int);
                if id.len() == 0 || rel.len() == 0 || spec_has_dotdot(rel) {
                    None
                } else {
                    Some((id, rel))
                }
            }
        }
    }
}

/// The registered serving scope: opaque id to the absolute directory it may
/// serve. Entries accumulate for the process lifetime; registering an id
/// again overwrites the prior mapping.
pub struct ScopeTable {
    entries: Vec<(String, String)>,
}

/// The entry pairs as the character sequences they denote.
pub open spec fn spec_scope_pairs(entries: Seq<(String, String)>) -> Seq<(Seq<char>, Seq<char>)> {
    entries.map_values(|p: (String, String)| (p.0@, p.1@))
}

impl View for ScopeTable {
    type V = Map<Seq<char>, Seq<char>>;

    closed spec fn view(&self) -> Map<Seq<char>, Seq<char>> {
        as_map(spec_scope_pairs(self.entries@))
    }
}

impl ScopeTable {
    /// Internal invariant: one entry per id.
    pub closed spec fn wf(&self) -> bool {
        pairs_unique(spec_scope_pairs(self.entries@))
    }

    /// An empty scope.
    pub fn new() -> (t: ScopeTable)
        ensures
            t.wf(),
            t@ == Map::<Seq<char>, Seq<char>>::empty(),
    {
        ScopeTable { entries: Vec::new() }
    }

    /// Registers `dir` under `id`, overwriting any prior registration.
    pub fn register(&mut self, id: String, dir: String)
        requires
            old(self).wf(),
        ensures
            final(self).wf(),
            final(self)@ == old(self)@.insert(id@, dir@),
    {
        let n = self.entries.len();
        let mut i: usize = 0;
        while i < n
            invariant
                i <= n,
                n == self.entries@.len(),
                self == old(self),
                self.wf(),
                forall|j: int| 0 <= j < i ==> self.entries@[j].0@ != id@,
            decreases n - i,
        {
            if str_eq(self.entries[i].0.as_str(), id.as_str()) {
                proof {
                    assert(spec_scope_pairs(self.entries@)[i as int].0 == id@);
                    lemma_as_map_update(spec_scope_pairs(self.entries@), i as int, id@, dir@);
                }
                self.entries.set(i, (id, dir));
                proof {
                    assert(spec_scope_pairs(self.entries@) =~= spec_scope_pairs(
                        old(self).entries@,
                    ).update(i as int, (id@, dir@)));
                }
                return ;
            }
            i = i + 1;
        }
        proof {
            assert(forall|j: int|
                0 <= j < self.entries@.len() ==> spec_scope_pairs(self.entries@)[j].0
                    != id@);
            lemma_as_map_contains(spec_scope_pairs(self.entries@), id@);
            lemma_as_map_push(spec_scope_pairs(self.entries@), id@, dir@);
        }
        self.entries.push((id, dir));
        proof {
            assert(spec_scope_pairs(self.entries@) =~= spec_scope_pairs(
                old(self).entries@,
            ).push((id@, dir@)));
        }
    }

    /// Looks an id up, handing back a copy of its registered directory.
    pub fn lookup(&self, id: &str) -> (r: Option<String>)
        requires
            self.wf(),
        ensures
            match r {
                Some(dir) => self@.contains_key(id@) && dir@ == self@[id@],
                None => !self@.contains_key(id@),
            },
    {
        let n = self.entries.len();
        let mut i: usize = 0;
        while i < n
            invariant
                i <= n,
                n == self.entries@.len(),
                self.wf(),
                forall|j: int| 0 <= j < i ==> self.entries@[j].0@ != id@,
            decreases n - i,
        {
            if str_eq(self.entries[i].0.as_str(), id) {
                proof {
                    assert(spec_scope_pairs(self.entries@)[i as int].0 == id@);
                    lemma_as_map_index(spec_scope_pairs(self.entries@), i as int);
                }
                return Some(self.entries[i].1.clone());
            }
            i = i + 1;
        }
        proof {
            assert(forall|j: int|
                0 <= j < self.entries@.len() ==> spec_scope_pairs(self.entries@)[j].0
                    != id@);
            lemma_as_map_contains(spec_scope_pairs(self.entries@), id@);
        }
        None
    }
}

/// Where a request is served from and as what.
pub struct RouteTarget {
    /// The registered directory joined with the relative path. The caller
    /// opens exactly this path; any open failure becomes the same not-found
    /// response as a routing refusal.
    pub file_path: String,
    /// The content type derived from the served file's name.
    pub content_type: ContentType,
}

/// The content type a relative path is served as: by the extension of its
/// final segment (`.m3u8`, `.ts`, `.m4s`, opaque otherwise); a final segment
/// named exactly `manifest` — the cache entry's playlist, which carries no
/// extension — is a playlist too.
pub open spec fn spec_content_type(rel: Seq<char>) -> ContentType {
    let name = rel.subrange(spec_rfind(rel, '/') + 1, rel.len() as int);
    let dot = spec_rfind(name, '.');
    if dot >= 0 {
        let ext = name.subrange(dot + 1, name.len() as int);
        if ext == "m3u8"@ {
            ContentType::HlsPlaylist
        } else if ext == "ts"@ {
            ContentType::MpegTransportStream
        } else if ext == "m4s"@ {
            ContentType::Mp4Segment
        } else {
            ContentType::Binary
        }
    } else if name == "manifest"@ {
        ContentType::HlsPlaylist
    } else {
        ContentType::Binary
    }
}

/// Derives the content type of a relative path.
pub fn content_type_of(rel: &str) -> (r: ContentType)
    ensures
        r == spec_content_type(rel@),
{
    let n = rel.unicode_len();
    proof {
        lemma_rfind_props(rel@, '/');
    }
    let name = match rfind_char(rel, '/') {
        Some(ls) => rel.substring_char(ls + 1, n),
        None => {
            assert(rel@.subrange(0, n as int) =~= rel@);
            rel
        },
    };
    let nl = name.unicode_len();
    proof {
        lemma_rfind_props(name@, '.');
    }
    match rfind_char(name, '.') {
        Some(d) => {
            let ext = name.substring_char(d + 1, nl);
            if str_eq(ext, "m3u8") {
                ContentType::HlsPlaylist
            } else if str_eq(ext, "ts") {
                ContentType::MpegTransportStream
            } else if str_eq(ext, "m4s") {
                ContentType::Mp4Segment
            } else {
                ContentType::Binary
            }
        },
        None => {
            if str_eq(name, "manifest") {
                ContentType::HlsPlaylist
            } else {
                ContentType::Binary
            }
        },
    }
}

/// Where a request path is served from against a serving scope, or nothing:
/// the registered directory joined with the relative path, and the content
/// type of the file's name.
pub open spec fn spec_route(m: Map<Seq<char>, Seq<char>>, path: Seq<char>) -> Option<
    (Seq<char>, ContentType),
> {
    match spec_route_parts(path) {
        None => None,
        Some((id, rel)) => if m.contains_key(id) {
            Some((m[id] + "/"@ + rel, spec_content_type(rel)))
        } else {
            None
        },
    }
}

/// Routes one request path against the serving scope. `None` — for a path
/// off the route shape, a traversal token, or an unregistered id alike —
/// becomes a generic not-found response.
pub fn route(scopes: &ScopeTable, path: &str) -> (r: Option<RouteTarget>)
    requires
        scopes.wf(),
    ensures
        match r {
            Some(t) => spec_route(scopes@, path@) == Some((t.file_path@, t.content_type)),
            None => spec_route(scopes@, path@) is None,
        },
{
    let n = path.unicode_len();
    if n == 0 || path.get_char(0) != '/' {
        return None;
    }
    proof {
        lemma_find_props(path@, 1, '/');
    }
    let a = find_char(path, 1, '/');
    if a == n {
        return None;
    }
    let prefix_part = path.substring_char(1, a);
    if !str_eq(prefix_part, serve_prefix()) {
        return None;
    }
    proof {
        lemma_find_props(path@, a as int + 1, '/');
    }
    let b = find_char(path, a + 1, '/');
    if b == n {
        return None;
    }
    if b == a + 1 {
        return None;
    }
    if b + 1 == n {
        return None;
    }
    let id = path.substring_char(a + 1, b);
    let rel = path.substring_char(b + 1, n);
    if has_dotdot(rel) {
        return None;
    }
    match scopes.lookup(id) {
        None => None,
        Some(dir) => {
            let joined = dir.concat("/");
            let file_path = joined.concat(rel);
            let content_type = content_type_of(rel);
            Some(RouteTarget { file_path, content_type })
        },
    }
}

/// The path a request head asks for, or nothing for anything but a GET:
/// the target token after `GET `, cut at the request line's end and at any
/// query string.
pub open spec fn spec_request_path(head: Seq<char>) -> Option<Seq<char>> {
    if head.len() < 4 || head.subrange(0, 4) != "GET "@ {
        None
    } else {
        let rest = head.subrange(4, head.len() as int);
        let sp = spec_find(rest, 0, ' ');
        let cr = spec_find(rest, 0, '\r');
        let lf = spec_find(rest, 0, '\n');
        let stop = if sp <= cr && sp <= lf {
            sp
        } else if cr <= lf {
            cr
        } else {
            lf
        };
        let target = rest.subrange(0, stop);
        let q = spec_find(target, 0, '?');
        let path = target.subrange(0, q);
        if path.len() == 0 {
            None
        } else {
            Some(path)
        }
    }
}

/// Extracts the requested path from a request head.
pub fn request_path(head: &str) -> (r: Option<String>)
    ensures
        match r {
            Some(p) => spec_request_path(head@) == Some(p@),
            None => spec_request_path(head@) is None,
        },
{
    let n = head.unicode_len();
    if n < 4 {
        return None;
    }
    let method = head.substring_char(0, 4);
    if !str_eq(method, "GET ") {
        return None;
    }
    let rest = head.substring_char(4, n);
    let rn = rest.unicode_len();
    proof {
        lemma_find_props(rest@, 0, ' ');
        lemma_find_props(rest@, 0, '\r');
        lemma_find_props(rest@, 0, '\n');
    }
    let sp = find_char(rest, 0, ' ');
    let cr = find_char(rest, 0, '\r');
    let lf = find_char(rest, 0, '\n');
    let stop = if sp <= cr && sp <= lf {
        sp
    } else if cr <= lf {
        cr
    } else {
        lf
    };
    let target = rest.substring_char(0, stop);
    proof {
        lemma_find_props(target@, 0, '?');
    }
    let q = find_char(target, 0, '?');
    if q == 0 {
        return None;
    }
    let path = target.substring_char(0, q);
    Some(path.to_owned())
}

/// Law: a served file never leaves its registered scope. Whenever routing
/// serves a request, the request matched the route shape, its id was
/// registered, its relative path carried no parent-directory traversal
/// token, and the served path is exactly the registered directory joined
/// with that relative path.
pub proof fn lemma_route_serves_only_registered(m: Map<Seq<char>, Seq<char>>, path: Seq<char>)
    requires
        spec_route(m, path) is Some,
    ensures
        spec_route_parts(path) is Some,
        m.contains_key(spec_route_parts(path).unwrap().0),
        !spec_has_dotdot(spec_route_parts(path).unwrap().1),
        spec_route(m, path).unwrap().0 == m[spec_route_parts(path).unwrap().0] + "/"@
            + spec_route_parts(path).unwrap().1,
{
}

/// The head of a success response: status line, permissive cross-origin
/// header, content type, a no-store directive for playlists, and the body
/// length.
pub open spec fn spec_ok_head(ct: ContentType, content_length: u64) -> Seq<char> {
    "HTTP/1.1 200 OK\r\nAccess-Control-Allow-Origin: *\r\nContent-Type: "@ + spec_mime(ct)
        + "\r\n"@ + (if ct is HlsPlaylist {
        "Cache-Control: no-store\r\n"@
    } else {
        Seq::<char>::empty()
    }) + "Content-Length: "@ + spec_dec(content_length as nat) + "\r\n\r\n"@
}

/// The head of the generic not-found response, the one answer to every
/// resolution failure. It too carries the permissive cross-origin header.
pub open spec fn spec_not_found_head() -> Seq<char> {
    "HTTP/1.1 404 Not Found\r\nAccess-Control-Allow-Origin: *\r\nContent-Length: 0\r\n\r\n"@
}

/// Builds the head of a success response.
pub fn ok_response_head(ct: ContentType, content_length: u64) -> (r: String)
    ensures
        r@ == spec_ok_head(ct, content_length),
{
    let mut s = String::new();
    s.append("HTTP/1.1 200 OK\r\nAccess-Control-Allow-Origin: *\r\nContent-Type: ");
    s.append(ct.mime());
    s.append("\r\n");
    if ct.disables_caching() {
        s.append("Cache-Control: no-store\r\n");
    }
    s.append("Content-Length: ");
    append_dec(&mut s, content_length);
    s.append("\r\n\r\n");
    assert(s@ =~= spec_ok_head(ct, content_length));
    s
}

/// The head of the generic not-found response.
pub fn not_found_response_head() -> (r: &'static str)
    ensures
        r@ == spec_not_found_head(),
{
    "HTTP/1.1 404 Not Found\r\nAccess-Control-Allow-Origin: *\r\nContent-Length: 0\r\n\r\n"
}

/// `needle` stands in `hay` at offset `i`.
pub open spec fn spec_contains_at(hay: Seq<char>, needle: Seq<char>, i: int) -> bool {
    0 <= i && i + needle.len() <= hay.len() && hay.subrange(i, i + needle.len()) == needle
}

/// Law: every response carries the permissive cross-origin header — success
/// heads of every content type and the not-found head alike — so the serving
/// origin may differ from the user interface's origin.
pub proof fn lemma_cors_on_every_response(ct: ContentType, content_length: u64)
    ensures
        spec_contains_at(
            spec_ok_head(ct, content_length),
            "Access-Control-Allow-Origin: *"@,
            17,
        ),
        spec_contains_at(spec_not_found_head(), "Access-Control-Allow-Origin: *"@, 24),
{
    reveal_strlit("HTTP/1.1 200 OK\r\nAccess-Control-Allow-Origin: *\r\nContent-Type: ");
    reveal_strlit("Access-Control-Allow-Origin: *");
    reveal_strlit(
        "HTTP/1.1 404 Not Found\r\nAccess-Control-Allow-Origin: *\r\nContent-Length: 0\r\n\r\n",
    );
    assert(spec_ok_head(ct, content_length).subrange(17, 47)
        =~= "Access-Control-Allow-Origin: *"@);
    assert(spec_not_found_head().subrange(24, 54) =~= "Access-Control-Allow-Origin: *"@);
}

} // verus!
