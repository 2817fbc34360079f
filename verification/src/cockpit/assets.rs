//! The Cockpit's static files, served from the distribution's `share/cockpit/`.
//!
//! Read once and kept: an asset is loaded from disk the first time it is asked for and
//! answered from memory afterwards, with the digest of its bytes as its cache key. The
//! digest is in the URL the pages emit, so a changed file is a changed URL and the
//! browser's cache never has to be told anything.
//!
//! What is decided here is what may be read, what a URL says and what an answer carries;
//! the reading itself is done by the caller, which hands back what it read.

use vstd::prelude::*;

use crate::command::activate::{starts, starts_with};
use crate::digest::{sha256_hex, sha256_hex_of};
use crate::strings::{push_str, split_seq, split_text, str_eq, views};

verus! {

/// The directory inside the share directory that holds the Cockpit's files.
pub const DIR: &'static str = "cockpit";

/// The URL prefix every asset is served under.
pub const PREFIX: &'static str = "/cockpit/assets/";

/// How long a browser may keep an asset whose URL carries the right digest. A year: the
/// URL changes when the bytes change, so the entry can never be wrong.
pub const IMMUTABLE: &'static str = "public, max-age=31536000, immutable";

// ------------------------------------------------------------------ names

/// A character an asset name may hold.
pub open spec fn name_char(c: char) -> bool {
    ('a' <= c <= 'z') || ('A' <= c <= 'Z') || ('0' <= c <= '9') || c == '.' || c == '_' || c == '-' || c == '/'
}

/// A relative path safe to join onto the asset root: at most 200 characters of a
/// conservative set, and no segment empty, `.` or `..`.
pub open spec fn is_safe_name(name: Seq<char>) -> bool {
    &&& 0 < name.len() <= 200
    &&& forall|i: int| 0 <= i < name.len() ==> name_char(#[trigger] name[i])
    &&& forall|k: int|
        0 <= k < split_seq(name, '/').len() ==> {
            let s = #[trigger] split_seq(name, '/')[k];
            s.len() > 0 && s != seq!['.'] && s != seq!['.', '.']
        }
}

fn segment_fine(s: &str) -> (r: bool)
    ensures
        r == (s@.len() > 0 && s@ != seq!['.'] && s@ != seq!['.', '.']),
{
    let n = s.unicode_len();
    if n == 0 {
        return false;
    }
    if n == 1 && s.get_char(0) == '.' {
        assert(s@ =~= seq!['.']);
        return false;
    }
    if n == 2 && s.get_char(0) == '.' && s.get_char(1) == '.' {
        assert(s@ =~= seq!['.', '.']);
        return false;
    }
    proof {
        if n == 1 {
            assert(s@[0] != seq!['.'][0]);
        }
        if n == 2 {
            assert(s@[0] != '.' || s@[1] != '.');
            assert(s@ != seq!['.', '.']) by {
                if s@ == seq!['.', '.'] {
                    assert(s@[0] == '.' && s@[1] == '.');
                }
            }
        }
    }
    true
}

/// A relative path safe to join onto the asset root, or nothing: an absolute path, a
/// `..`, an empty segment or a character outside the set is refused before the
/// filesystem is touched.
pub fn safe_name(name: &str) -> (r: Option<String>)
    ensures
        is_safe_name(name@) ==> (r matches Some(s) && s@ == name@),
        !is_safe_name(name@) ==> r is None,
{
    let n = name.unicode_len();
    if n == 0 || n > 200 {
        return None;
    }
    let mut i: usize = 0;
    while i < n
        invariant
            n == name@.len(),
            i <= n,
            forall|j: int| 0 <= j < i ==> name_char(#[trigger] name@[j]),
        decreases n - i,
    {
        let c = name.get_char(i);
        if !(('a' <= c && c <= 'z') || ('A' <= c && c <= 'Z') || ('0' <= c && c <= '9') || c == '.' || c == '_' || c
            == '-' || c == '/') {
            assert(!name_char(name@[i as int]));
            return None;
        }
        i += 1;
    }
    let segments = split_text(name, '/');
    let mut k: usize = 0;
    while k < segments.len()
        invariant
            views(segments@) == split_seq(name@, '/'),
            k <= segments@.len(),
            forall|j: int|
                0 <= j < k ==> {
                    let s = #[trigger] split_seq(name@, '/')[j];
                    s.len() > 0 && s != seq!['.'] && s != seq!['.', '.']
                },
        decreases segments.len() - k,
    {
        assert(views(segments@)[k as int] == segments@[k as int]@);
        if !segment_fine(segments[k].as_str()) {
            return None;
        }
        k += 1;
    }
    Some(String::from_str(name))
}

/// The media type of an extension the Cockpit serves. The Cockpit ships text, and a
/// directory that grows a binary by accident should not become a file server.
pub open spec fn media_of(extension: Seq<char>) -> Option<Seq<char>> {
    if extension == "css"@ {
        Some("text/css; charset=utf-8"@)
    } else if extension == "js"@ || extension == "mjs"@ {
        Some("text/javascript; charset=utf-8"@)
    } else if extension == "json"@ || extension == "map"@ {
        Some("application/json"@)
    } else if extension == "svg"@ {
        Some("image/svg+xml"@)
    } else if extension == "txt"@ {
        Some("text/plain; charset=utf-8"@)
    } else {
        None
    }
}

/// The position of the last dot of a name, or nothing.
pub open spec fn last_dot(name: Seq<char>) -> Option<int>
    decreases name.len(),
{
    if name.len() == 0 {
        None
    } else if name.last() == '.' {
        Some(name.len() - 1)
    } else {
        last_dot(name.drop_last())
    }
}

/// The media type of a file name: of what follows its last dot, when it has one.
pub open spec fn media_type_of(name: Seq<char>) -> Option<Seq<char>> {
    match last_dot(name) {
        Some(d) => media_of(name.subrange(d + 1, name.len() as int)),
        None => None,
    }
}

proof fn lemma_last_dot(name: Seq<char>, d: int)
    requires
        -1 <= d < name.len(),
        d >= 0 ==> name[d] == '.',
        forall|j: int| d < j < name.len() ==> name[j] != '.',
    ensures
        last_dot(name) == (if d >= 0 { Some(d) } else { None::<int> }),
    decreases name.len(),
{
    if name.len() > 0 && d < name.len() - 1 {
        assert forall|j: int| d < j < name.drop_last().len() implies name.drop_last()[j] != '.' by {
            assert(name.drop_last()[j] == name[j]);
        }
        if d >= 0 {
            assert(name.drop_last()[d] == name[d]);
        }
        lemma_last_dot(name.drop_last(), d);
    }
}

/// The media type of a file name, when it is one the Cockpit serves.
pub fn media_type(name: &str) -> (r: Option<&'static str>)
    ensures
        match media_type_of(name@) {
            Some(t) => r matches Some(x) && x@ == t,
            None => r is None,
        },
{
    let n = name.unicode_len();
    let mut d: usize = n;
    while d > 0 && name.get_char(d - 1) != '.'
        invariant
            n == name@.len(),
            d <= n,
            forall|j: int| d <= j < n ==> name@[j] != '.',
        decreases d,
    {
        d -= 1;
    }
    if d == 0 {
        proof {
            lemma_last_dot(name@, -1);
        }
        return None;
    }
    proof {
        lemma_last_dot(name@, d - 1);
    }
    let ext = name.substring_char(d, n);
    if str_eq(ext, "css") {
        Some("text/css; charset=utf-8")
    } else if str_eq(ext, "js") || str_eq(ext, "mjs") {
        Some("text/javascript; charset=utf-8")
    } else if str_eq(ext, "json") || str_eq(ext, "map") {
        Some("application/json")
    } else if str_eq(ext, "svg") {
        Some("image/svg+xml")
    } else if str_eq(ext, "txt") {
        Some("text/plain; charset=utf-8")
    } else {
        None
    }
}

/// What may be read for a requested name: the safe relative path and its media type, or
/// nothing, decided before the filesystem is touched.
pub fn readable(name: &str) -> (r: Option<(String, &'static str)>)
    ensures
        match r {
            Some((path, t)) => is_safe_name(name@) && path@ == name@ && media_type_of(name@) == Some(t@),
            None => !is_safe_name(name@) || media_type_of(name@) is None,
        },
{
    let relative = match safe_name(name) {
        Some(r) => r,
        None => return None,
    };
    match media_type(relative.as_str()) {
        Some(t) => Some((relative, t)),
        None => None,
    }
}

// ------------------------------------------------------------------ what was read

/// One file, read: its body, its media type, and the digest of its body, which is the
/// file's identity in its URL and its `ETag`. The digest is the body's by construction.
#[derive(Debug, PartialEq, Eq)]
pub struct Loaded {
    body: String,
    media_type: &'static str,
    digest: String,
}

impl Loaded {
    /// The digest is always the body's.
    #[verifier::type_invariant]
    spec fn digest_is_the_bodys(self) -> bool {
        self.digest@ == sha256_hex_of(self.body@)
    }

    /// The body's text.
    pub closed spec fn text(self) -> Seq<char> {
        self.body@
    }

    /// The media type it is served as.
    pub closed spec fn media(self) -> Seq<char> {
        self.media_type@
    }

    /// A file's body as an asset, with its digest.
    pub fn of(body: String, media_type: &'static str) -> (r: Self)
        ensures
            r.text() == body@,
            r.media() == media_type@,
    {
        let digest = sha256_hex(body.as_str());
        Loaded { body, media_type, digest }
    }

    /// The body.
    pub fn body(&self) -> (r: &str)
        ensures
            r@ == self.text(),
    {
        self.body.as_str()
    }

    /// The media type.
    pub fn media_type(&self) -> (r: &'static str)
        ensures
            r@ == self.media(),
    {
        self.media_type
    }

    /// The hex SHA-256 of the body.
    pub fn digest(&self) -> (r: &str)
        ensures
            r@ == sha256_hex_of(self.text()),
    {
        proof {
            use_type_invariant(self);
        }
        self.digest.as_str()
    }
}

/// The Cockpit's asset directory, with what has been read from it. A file is read once:
/// the first answer for a name, found or not, is the one every later request gets. Only a
/// name that may be read is ever kept as found, and only when there is a directory.
#[derive(Debug)]
pub struct Assets {
    root: Option<String>,
    loaded: Vec<(String, Option<Loaded>)>,
}

/// Whether one entry of the cache may stand: a file kept as found has a name that may be
/// read, and the media type of that name.
pub open spec fn entry_may_stand(root: Option<String>, e: (String, Option<Loaded>)) -> bool {
    e.1 matches Some(l) ==> root is Some && is_safe_name(e.0@) && media_type_of(e.0@) == Some(l.media())
}

/// The first entry of the cache for a name, or the count.
pub open spec fn cached_at(loaded: Seq<(String, Option<Loaded>)>, name: Seq<char>) -> int
    decreases loaded.len(),
{
    if loaded.len() == 0 {
        0
    } else if loaded[0].0@ == name {
        0
    } else {
        1 + cached_at(loaded.drop_first(), name)
    }
}

proof fn lemma_cached_at(loaded: Seq<(String, Option<Loaded>)>, name: Seq<char>, k: int)
    requires
        0 <= k <= loaded.len(),
        forall|j: int| 0 <= j < k ==> (#[trigger] loaded[j]).0@ != name,
        k < loaded.len() ==> loaded[k].0@ == name,
    ensures
        cached_at(loaded, name) == k,
    decreases k,
{
    if k > 0 {
        let t = loaded.drop_first();
        assert forall|j: int| 0 <= j < k - 1 implies (#[trigger] t[j]).0@ != name by {
            assert(t[j] == loaded[j + 1]);
        }
        if k < loaded.len() {
            assert(t[k - 1] == loaded[k]);
        }
        assert(loaded[0].0@ != name);
        lemma_cached_at(t, name, k - 1);
    }
}

/// What the cache holds for a name: nothing when it was never asked for, else what the
/// first read gave.
pub open spec fn cached_of(loaded: Seq<(String, Option<Loaded>)>, name: Seq<char>) -> Option<Option<Loaded>> {
    let k = cached_at(loaded, name);
    if k < loaded.len() {
        Some(loaded[k].1)
    } else {
        None
    }
}

/// The answer to a request for an asset.
#[derive(Debug, Clone, PartialEq, Eq)]
pub enum AssetAnswer {
    /// Nothing by that name is served here.
    NotFound {
        message: String,
    },
    /// The file, with how long it may be kept and its identity.
    Found {
        media_type: &'static str,
        body: String,
        cache_control: &'static str,
        etag: String,
    },
}

impl AssetAnswer {
    /// The HTTP status of the answer.
    pub fn status(&self) -> (r: u16)
        ensures
            r == (if self is NotFound { 404u16 } else { 200u16 }),
    {
        match self {
            AssetAnswer::NotFound { .. } => 404,
            AssetAnswer::Found { .. } => 200,
        }
    }
}

/// The URL a page emits for an asset: with the first sixteen characters of its digest
/// when it was read, else its plain path, so the 404 names the file a reader looks for.
pub open spec fn url_of(name: Seq<char>, cached: Option<Option<Loaded>>) -> Seq<char> {
    match cached {
        Some(Some(a)) => {
            let d = sha256_hex_of(a.text());
            PREFIX@ + name + "?v="@ + (if d.len() <= 16 { d } else { d.take(16) })
        },
        _ => PREFIX@ + name,
    }
}

/// The answer to a request for an asset.
pub open spec fn answer_is(name: Seq<char>, version: Option<Seq<char>>, cached: Option<Option<Loaded>>, r: AssetAnswer) -> bool {
    match cached {
        Some(Some(a)) => r matches AssetAnswer::Found { media_type, body, cache_control, etag } && media_type@ == a.media()
            && body@ == a.text() && cache_control@ == (if version matches Some(v) && v.len() > 0 && starts(sha256_hex_of(a.text()), v) {
            IMMUTABLE@
        } else {
            "no-cache"@
        }) && etag@ == "\""@ + sha256_hex_of(a.text()) + "\""@,
        _ => r matches AssetAnswer::NotFound { message } && message@ == "no cockpit asset '"@ + name
            + "'; the distribution's share/cockpit/ holds the ones there are"@,
    }
}

/// The version a page's URL for an asset carries is answered for good: asked with the
/// `v` that [`url_of`] writes, a file that was read is cached for a year.
pub proof fn law_the_version_a_page_links_is_cached_for_good(
    name: Seq<char>,
    a: Loaded,
    r: AssetAnswer,
)
    requires
        sha256_hex_of(a.text()).len() > 0,
        answer_is(
            name,
            Some(
                ({
                    let d = sha256_hex_of(a.text());
                    if d.len() <= 16 {
                        d
                    } else {
                        d.take(16)
                    }
                }),
            ),
            Some(Some(a)),
            r,
        ),
    ensures
        r matches AssetAnswer::Found { cache_control, .. } && cache_control@ == IMMUTABLE@,
        url_of(name, Some(Some(a))) == PREFIX@ + name + "?v="@ + ({
            let d = sha256_hex_of(a.text());
            if d.len() <= 16 {
                d
            } else {
                d.take(16)
            }
        }),
{
    let d = sha256_hex_of(a.text());
    if d.len() > 16 {
        assert(d.subrange(0, 16) =~= d.take(16));
    } else {
        assert(d.subrange(0, d.len() as int) =~= d);
    }
}

/// Without a version, or with an empty one, or with one that is not the start of the
/// file's digest, an answer is revalidated on every request: nothing stale is kept.
pub proof fn law_an_answer_without_the_right_version_is_revalidated(
    name: Seq<char>,
    version: Option<Seq<char>>,
    a: Loaded,
    r: AssetAnswer,
)
    requires
        answer_is(name, version, Some(Some(a)), r),
        match version {
            None => true,
            Some(v) => v.len() == 0 || !starts(sha256_hex_of(a.text()), v),
        },
    ensures
        r matches AssetAnswer::Found { cache_control, .. } && cache_control@ == "no-cache"@,
{
}

impl Assets {
    /// Every file kept as found has a name that may be read.
    #[verifier::type_invariant]
    spec fn only_readable_names(self) -> bool {
        forall|k: int| 0 <= k < self.loaded@.len() ==> entry_may_stand(self.root, #[trigger] self.loaded@[k])
    }

    /// The directory, when the distribution has one.
    pub closed spec fn root_of(self) -> Option<String> {
        self.root
    }

    /// What was read, by name, in the order it was first asked for.
    pub closed spec fn cache(self) -> Seq<(String, Option<Loaded>)> {
        self.loaded@
    }

    /// The assets of a directory, when the distribution has one: a distribution without
    /// one serves no assets and every page still renders, unstyled.
    pub fn new(root: Option<String>) -> (r: Self)
        ensures
            r.root_of() == root,
            r.cache().len() == 0,
    {
        Assets { root, loaded: Vec::new() }
    }

    /// No asset directory at all.
    pub fn none() -> (r: Self)
        ensures
            r.root_of() is None,
            r.cache().len() == 0,
    {
        Assets { root: None, loaded: Vec::new() }
    }

    /// Is there an asset directory?
    pub fn present(&self) -> (r: bool)
        ensures
            r == self.root_of() is Some,
    {
        self.root.is_some()
    }

    /// The directory, when there is one.
    pub fn root(&self) -> (r: Option<&str>)
        ensures
            match self.root_of() {
                Some(d) => r matches Some(x) && x@ == d@,
                None => r is None,
            },
    {
        match &self.root {
            Some(d) => Some(d.as_str()),
            None => None,
        }
    }

    /// What the cache holds for a name.
    pub fn cached(&self, name: &str) -> (r: Option<&Option<Loaded>>)
        ensures
            match cached_of(self.cache(), name@) {
                Some(c) => r == Some(&c),
                None => r is None,
            },
            r matches Some(c) ==> entry_may_stand(self.root_of(), (self.cache()[cached_at(self.cache(), name@)].0, *c))
                && self.cache()[cached_at(self.cache(), name@)].0@ == name@,
    {
        proof {
            use_type_invariant(self);
        }
        let mut i: usize = 0;
        while i < self.loaded.len()
            invariant
                i <= self.loaded@.len(),
                forall|j: int| 0 <= j < i ==> (#[trigger] self.loaded@[j]).0@ != name@,
            decreases self.loaded.len() - i,
        {
            if str_eq(self.loaded[i].0.as_str(), name) {
                proof {
                    use_type_invariant(self);
                    lemma_cached_at(self.loaded@, name@, i as int);
                    assert(entry_may_stand(self.root, self.loaded@[i as int]));
                }
                return Some(&self.loaded[i].1);
            }
            i += 1;
        }
        proof {
            lemma_cached_at(self.loaded@, name@, self.loaded@.len() as int);
        }
        None
    }

    /// Must a name be read before it can be answered: there is a directory, and the name
    /// was never asked for.
    pub fn needs_read(&self, name: &str) -> (r: bool)
        ensures
            r == (self.root_of() is Some && cached_of(self.cache(), name@) is None),
    {
        self.present() && self.cached(name).is_none()
    }

    /// Keep what reading a name gave: the body that was read, or nothing. The first read of
    /// a name is the one kept, and a body is kept as found only where there is a directory
    /// and the name may be read; anything else is kept as not found.
    pub fn remember(&mut self, name: &str, body: Option<String>)
        ensures
            final(self).root_of() == old(self).root_of(),
            cached_of(old(self).cache(), name@) is Some ==> final(self).cache() == old(self).cache(),
            cached_of(old(self).cache(), name@) is None ==> {
                &&& final(self).cache().len() == old(self).cache().len() + 1
                &&& final(self).cache().drop_last() == old(self).cache()
                &&& final(self).cache().last().0@ == name@
                &&& match final(self).cache().last().1 {
                    Some(l) => old(self).root_of() is Some && is_safe_name(name@) && media_type_of(name@) == Some(l.media())
                        && (body matches Some(b) && l.text() == b@),
                    None => old(self).root_of() is None || body is None || !is_safe_name(name@) || media_type_of(name@) is None,
                }
            },
    {
        if self.cached(name).is_some() {
            return;
        }
        let kept = match (self.root.is_some(), body, readable(name)) {
            (true, Some(b), Some((_, t))) => Some(Loaded::of(b, t)),
            _ => None,
        };
        proof {
            use_type_invariant(&*self);
        }
        let ghost before = self.loaded@;
        let entry = (String::from_str(name), kept);
        assert(entry_may_stand(self.root, entry));
        let mut list: Vec<(String, Option<Loaded>)> = Vec::new();
        std::mem::swap(&mut list, &mut self.loaded);
        list.push(entry);
        proof {
            assert(list@.drop_last() =~= before);
            assert forall|k: int| 0 <= k < list@.len() implies entry_may_stand(self.root, #[trigger] list@[k]) by {
                if k < before.len() {
                    assert(list@[k] == before[k]);
                }
            }
        }
        self.loaded = list;
    }

    /// Is this file there and servable: read, and found readable?
    pub fn has(&self, name: &str) -> (r: bool)
        ensures
            r == (cached_of(self.cache(), name@) matches Some(Some(_))),
            r ==> self.root_of() is Some && is_safe_name(name@) && media_type_of(name@) is Some,
    {
        match self.cached(name) {
            Some(Some(_)) => true,
            _ => false,
        }
    }

    /// The URL a page emits for an asset: the path with the digest of its bytes, so the
    /// URL changes exactly when the file does.
    pub fn url(&self, name: &str) -> (r: String)
        ensures
            r@ == url_of(name@, cached_of(self.cache(), name@)),
    {
        let mut out = String::from_str(PREFIX);
        push_str(&mut out, name);
        match self.cached(name) {
            Some(Some(a)) => {
                push_str(&mut out, "?v=");
                let d = a.digest();
                let n = d.unicode_len();
                let k = if n <= 16 { n } else { 16 };
                push_str(&mut out, d.substring_char(0, k));
                assert(d@.subrange(0, k as int) =~= (if n <= 16 { d@ } else { d@.take(16) }));
            },
            _ => {},
        }
        out
    }

    /// Answer a request for an asset. A request whose `v` is a non-empty prefix of the
    /// file's digest may be kept for a year; any other, an empty `v` among them, is
    /// revalidated.
    pub fn respond(&self, name: &str, version: Option<&str>) -> (r: AssetAnswer)
        ensures
            answer_is(
                name@,
                match version {
                    Some(v) => Some(v@),
                    None => None,
                },
                cached_of(self.cache(), name@),
                r,
            ),
            r is Found ==> self.root_of() is Some && is_safe_name(name@) && media_type_of(name@) is Some,
    {
        match self.cached(name) {
            Some(Some(a)) => {
                let d = a.digest();
                let immutable = match version {
                    Some(v) => v.unicode_len() > 0 && starts_with(d, v),
                    None => false,
                };
                let mut etag = String::from_str("\"");
                push_str(&mut etag, d);
                push_str(&mut etag, "\"");
                AssetAnswer::Found {
                    media_type: a.media_type(),
                    body: String::from_str(a.body()),
                    cache_control: if immutable { IMMUTABLE } else { "no-cache" },
                    etag,
                }
            },
            _ => {
                let mut message = String::from_str("no cockpit asset '");
                push_str(&mut message, name);
                push_str(&mut message, "'; the distribution's share/cockpit/ holds the ones there are");
                AssetAnswer::NotFound { message }
            },
        }
    }
}

} // verus!
