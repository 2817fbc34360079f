//! The Cockpit: the human-facing projection of the registry, server-rendered.
//!
//! It is a projection and not an application. Every page is laid out from what a
//! capability answered; the navigation's catalogues come from the registry, the index and
//! the graph derivations. Nothing here holds a list of capabilities, routes, kinds or
//! graphs, and adding one to the registry adds it here.
//!
//! What the browser adds is an enhancement in the strict sense. The pages are complete
//! HTML; the scripts add a command palette, a runner, a graph drawing and two optional
//! visual views. With no JavaScript at all, every page still shows everything it knows.

pub mod assets;
pub mod board;
pub mod catalogue;
pub mod checkouts;
pub mod descriptor;
pub mod design;
pub mod frame;
pub mod graphs;
pub mod html;
pub mod integrity;
pub mod intents;
pub mod knowledge;
pub mod landing;
pub mod layer;
pub mod mesh;
pub mod milestones;
pub mod models;
pub mod nav;
pub mod outputs;
pub mod pages;
pub mod repertoire;
pub mod sessions;
pub mod roadmap;
pub mod runs;
pub mod search;
pub mod surfaces;
pub mod versions;
pub mod view;
pub mod wellbeing;
pub mod work;

use vstd::prelude::*;

use crate::command::activate::{starts, starts_with};
use crate::digest::{sha256_bytes, sha256_of, utf8, utf8_bytes};
use crate::strings::{push_char, push_str, str_eq};

use self::assets::{cached_of, url_of, Assets};

verus! {

/// Every Cockpit route starts here.
pub const PREFIX: &'static str = "/cockpit";

/// The stylesheet the shell links.
pub const STYLESHEET: &'static str = "cockpit.css";

/// The script modules every page loads: the shell's own behaviour, then the palette. A
/// page adds its own module to these, which is what keeps a graph library off the
/// overview.
pub fn shell_scripts() -> (r: Vec<&'static str>)
    ensures
        r@.len() == 2,
        r@[0]@ == "cockpit.js"@,
        r@[1]@ == "palette.js"@,
{
    let mut v: Vec<&'static str> = Vec::new();
    v.push("cockpit.js");
    v.push("palette.js");
    v
}

/// Does a request path belong to the Cockpit: the prefix itself, or anything under it?
pub open spec fn owned(path: Seq<char>) -> bool {
    path == PREFIX@ || starts(path, PREFIX@ + "/"@)
}

/// The Cockpit, as far as routing knows it.
pub struct Cockpit;

impl Cockpit {
    /// Does this request belong to the Cockpit?
    pub fn owns(path: &str) -> (r: bool)
        ensures
            r == owned(path@),
    {
        let mut under = String::from_str(PREFIX);
        push_char(&mut under, '/');
        proof {
            reveal_strlit("/");
            assert(under@ =~= PREFIX@ + "/"@);
        }
        str_eq(path, PREFIX) || starts_with(path, under.as_str())
    }

    /// How to answer one request under [`PREFIX`]: anything but `GET` is refused, an
    /// asset path is answered from the asset directory, and every other path is a page.
    pub fn handle(&self, method: &str, path: &str, query: &[(String, String)]) -> (r: Handling)
        ensures
            handled_as(method@, path@, query@, r),
    {
        if !str_eq(method, "GET") {
            return Handling::MethodNotAllowed;
        }
        if starts_with(path, assets::PREFIX) {
            let n = path.unicode_len();
            let m = assets::PREFIX.unicode_len();
            let name = String::from_str(path.substring_char(m, n));
            return Handling::Asset { name, version: first_param(query, "v") };
        }
        Handling::Page(route(path, query))
    }

    /// The script modules a page loads, as URLs with their digests: the shell's own, then
    /// the page's.
    pub fn script_urls(assets: &Assets, page_scripts: &Vec<&'static str>) -> (r: Vec<String>)
        ensures
            r@.len() == 2 + page_scripts@.len(),
            r@[0]@ == url_of("cockpit.js"@, cached_of(assets.cache(), "cockpit.js"@)),
            r@[1]@ == url_of("palette.js"@, cached_of(assets.cache(), "palette.js"@)),
            forall|k: int|
                0 <= k < page_scripts@.len() ==> (#[trigger] r@[k + 2])@ == url_of(
                    page_scripts@[k]@,
                    cached_of(assets.cache(), page_scripts@[k]@),
                ),
    {
        let shell = shell_scripts();
        let mut out: Vec<String> = Vec::new();
        out.push(assets.url(shell[0]));
        out.push(assets.url(shell[1]));
        for k in 0..page_scripts.len()
            invariant
                out@.len() == 2 + k,
                out@[0]@ == url_of("cockpit.js"@, cached_of(assets.cache(), "cockpit.js"@)),
                out@[1]@ == url_of("palette.js"@, cached_of(assets.cache(), "palette.js"@)),
                forall|j: int|
                    0 <= j < k ==> (#[trigger] out@[j + 2])@ == url_of(
                        page_scripts@[j]@,
                        cached_of(assets.cache(), page_scripts@[j]@),
                    ),
        {
            out.push(assets.url(page_scripts[k]));
        }
        out
    }

    /// The headers every page carries: revalidated on every request, the content-security
    /// policy around the theme statement's digest, no sniffing, no referrer.
    pub fn page_headers(bootstrap: &str) -> (r: Vec<(String, String)>)
        ensures
            r@.len() == 4,
            r@[0].0@ == "Cache-Control"@ && r@[0].1@ == "no-cache"@,
            r@[1].0@ == "Content-Security-Policy"@ && r@[1].1@ == policy_text(base64_of(sha256_of(utf8(bootstrap@)))),
            r@[2].0@ == "X-Content-Type-Options"@ && r@[2].1@ == "nosniff"@,
            r@[3].0@ == "Referrer-Policy"@ && r@[3].1@ == "no-referrer"@,
    {
        let mut out: Vec<(String, String)> = Vec::new();
        out.push((String::from_str("Cache-Control"), String::from_str("no-cache")));
        out.push((String::from_str("Content-Security-Policy"), csp(bootstrap)));
        out.push((String::from_str("X-Content-Type-Options"), String::from_str("nosniff")));
        out.push((String::from_str("Referrer-Policy"), String::from_str("no-referrer")));
        out
    }
}

/// Why a request other than `GET` is refused.
pub const GET_ONLY: &'static str = "the Cockpit's pages are read with GET; a capability that changes something is called on its own route";

/// The page a path leads to. The ids of a capability and a graph are the rest of the path,
/// still percent-encoded.
pub enum Route {
    /// The landing page.
    Overview,
    /// The capability explorer.
    Capabilities,
    /// The objects of the layer.
    Objects,
    /// One object, by its URI.
    Object { uri: String },
    /// The derived graphs.
    Graphs,
    /// The registry graph in three dimensions.
    Topology,
    /// What this checkout's lifecycle is holding.
    Continuity,
    /// The directory contracts.
    Directories,
    /// The health report.
    Health,
    /// What the generator writes.
    Artifacts,
    /// The HTTP surfaces.
    Api,
    /// Search.
    Search,
    /// What this process has done.
    Activity,
    /// One capability.
    Capability { id: String },
    /// One graph.
    Graph { id: String },
    /// Nothing is here; the path is the one looked for.
    NotFound { path: String },
}

/// How a request is answered.
pub enum Handling {
    /// 405: the pages are read with `GET`.
    MethodNotAllowed,
    /// An asset, by its name under the asset prefix, with the `v` the request carried.
    Asset { name: String, version: Option<String> },
    /// A page.
    Page(Route),
}

/// A path without its trailing slashes.
pub open spec fn trim_slashes(p: Seq<char>) -> Seq<char>
    decreases p.len(),
{
    if p.len() > 0 && p.last() == '/' {
        trim_slashes(p.drop_last())
    } else {
        p
    }
}

/// The value of the first query pair with this key, empty or not.
pub open spec fn first_value(query: Seq<(String, String)>, key: Seq<char>) -> Option<Seq<char>>
    decreases query.len(),
{
    if query.len() == 0 {
        None
    } else if query[0].0@ == key {
        Some(query[0].1@)
    } else {
        first_value(query.drop_first(), key)
    }
}

/// The capability pages live here.
pub const CAPABILITY_PAGES: &'static str = "/cockpit/capabilities/";

/// The graph pages live here.
pub const GRAPH_PAGES: &'static str = "/cockpit/graphs/";

/// The page a path leads to, with the query it carried.
pub open spec fn routes_to(path: Seq<char>, query: Seq<(String, String)>, r: Route) -> bool {
    let p = trim_slashes(path);
    if p == ""@ || p == PREFIX@ {
        r is Overview
    } else if p == "/cockpit/capabilities"@ {
        r is Capabilities
    } else if p == "/cockpit/objects"@ {
        r is Objects
    } else if p == "/cockpit/object"@ {
        match first_value(query, "uri"@) {
            Some(u) => r matches Route::Object { uri } && uri@ == u,
            None => r is Objects,
        }
    } else if p == "/cockpit/graphs"@ {
        r is Graphs
    } else if p == "/cockpit/graphs/topology"@ {
        r is Topology
    } else if p == "/cockpit/continuity"@ {
        r is Continuity
    } else if p == "/cockpit/directories"@ {
        r is Directories
    } else if p == "/cockpit/health"@ {
        r is Health
    } else if p == "/cockpit/artifacts"@ {
        r is Artifacts
    } else if p == "/cockpit/api"@ {
        r is Api
    } else if p == "/cockpit/search"@ {
        r is Search
    } else if p == "/cockpit/activity"@ {
        r is Activity
    } else if starts(p, CAPABILITY_PAGES@) {
        r matches Route::Capability { id } && id@ == p.skip(CAPABILITY_PAGES@.len() as int)
    } else if starts(p, GRAPH_PAGES@) {
        r matches Route::Graph { id } && id@ == p.skip(GRAPH_PAGES@.len() as int)
    } else {
        r matches Route::NotFound { path } && path@ == p
    }
}

/// How a request is answered, by its method, path and query.
pub open spec fn handled_as(method: Seq<char>, path: Seq<char>, query: Seq<(String, String)>, h: Handling) -> bool {
    if method != "GET"@ {
        h is MethodNotAllowed
    } else if starts(path, assets::PREFIX@) {
        h matches Handling::Asset { name, version } && name@ == path.skip(assets::PREFIX@.len() as int)
            && nav::opt_text(version) == first_value(query, "v"@)
    } else {
        h matches Handling::Page(r) && routes_to(path, query, r)
    }
}

/// A trailing slash leads where the path without it does: the same page, with the same
/// query.
pub proof fn law_a_trailing_slash_leads_to_the_same_page(path: Seq<char>, query: Seq<(String, String)>, r: Route)
    ensures
        routes_to(path.push('/'), query, r) == routes_to(path, query, r),
{
    assert(path.push('/').drop_last() =~= path);
}

/// Each fixed page path leads to its own page, whatever the query (but for the object
/// page, which needs a `uri`), so that no two of them lead to one page.
pub proof fn law_each_page_path_leads_to_its_own_page(path: Seq<char>, query: Seq<(String, String)>, r: Route)
    requires
        routes_to(path, query, r),
    ensures
        trim_slashes(path) == ""@ || trim_slashes(path) == "/cockpit"@ ==> r is Overview,
        trim_slashes(path) == "/cockpit/capabilities"@ ==> r is Capabilities,
        trim_slashes(path) == "/cockpit/objects"@ ==> r is Objects,
        trim_slashes(path) == "/cockpit/graphs"@ ==> r is Graphs,
        trim_slashes(path) == "/cockpit/graphs/topology"@ ==> r is Topology,
        trim_slashes(path) == "/cockpit/continuity"@ ==> r is Continuity,
        trim_slashes(path) == "/cockpit/directories"@ ==> r is Directories,
        trim_slashes(path) == "/cockpit/health"@ ==> r is Health,
        trim_slashes(path) == "/cockpit/artifacts"@ ==> r is Artifacts,
        trim_slashes(path) == "/cockpit/api"@ ==> r is Api,
        trim_slashes(path) == "/cockpit/search"@ ==> r is Search,
        trim_slashes(path) == "/cockpit/activity"@ ==> r is Activity,
{
    reveal_strlit("");
    reveal_strlit("/cockpit");
    reveal_strlit("/cockpit/capabilities");
    reveal_strlit("/cockpit/objects");
    reveal_strlit("/cockpit/object");
    reveal_strlit("/cockpit/graphs");
    reveal_strlit("/cockpit/graphs/topology");
    reveal_strlit("/cockpit/continuity");
    reveal_strlit("/cockpit/directories");
    reveal_strlit("/cockpit/health");
    reveal_strlit("/cockpit/artifacts");
    reveal_strlit("/cockpit/api");
    reveal_strlit("/cockpit/search");
    reveal_strlit("/cockpit/activity");
    assert(PREFIX@ == "/cockpit"@);
    assert(""@.len() == 0);
    assert("/cockpit"@.len() == 8);
    assert("/cockpit/capabilities"@.len() == 21);
    assert("/cockpit/objects"@.len() == 16);
    assert("/cockpit/object"@.len() == 15);
    assert("/cockpit/graphs"@.len() == 15);
    assert("/cockpit/graphs/topology"@.len() == 24);
    assert("/cockpit/continuity"@.len() == 19);
    assert("/cockpit/directories"@.len() == 20);
    assert("/cockpit/health"@.len() == 15);
    assert("/cockpit/artifacts"@.len() == 18);
    assert("/cockpit/api"@.len() == 12);
    assert("/cockpit/search"@.len() == 15);
    assert("/cockpit/activity"@.len() == 17);
    assert("/cockpit/capabilities"@[9] == 'c');
    assert("/cockpit/objects"@[9] == 'o');
    assert("/cockpit/object"@[9] == 'o');
    assert("/cockpit/graphs"@[9] == 'g');
    assert("/cockpit/graphs/topology"@[9] == 'g');
    assert("/cockpit/continuity"@[9] == 'c');
    assert("/cockpit/directories"@[9] == 'd');
    assert("/cockpit/health"@[9] == 'h');
    assert("/cockpit/artifacts"@[9] == 'a');
    assert("/cockpit/api"@[9] == 'a');
    assert("/cockpit/search"@[9] == 's');
    assert("/cockpit/activity"@[9] == 'a');
}

/// A page is reached only from its own path: the page a request leads to says which path
/// it asked for, so a page shows what its path names and nothing else.
pub proof fn law_a_page_is_reached_only_from_its_own_path(path: Seq<char>, query: Seq<(String, String)>, r: Route)
    requires
        routes_to(path, query, r),
    ensures
        ({
            let p = trim_slashes(path);
            match r {
                Route::Overview => p == ""@ || p == "/cockpit"@,
                Route::Capabilities => p == "/cockpit/capabilities"@,
                Route::Objects => p == "/cockpit/objects"@ || (p == "/cockpit/object"@ && first_value(query, "uri"@) is None),
                Route::Object { uri } => p == "/cockpit/object"@ && first_value(query, "uri"@) == Some(uri@),
                Route::Graphs => p == "/cockpit/graphs"@,
                Route::Topology => p == "/cockpit/graphs/topology"@,
                Route::Continuity => p == "/cockpit/continuity"@,
                Route::Directories => p == "/cockpit/directories"@,
                Route::Health => p == "/cockpit/health"@,
                Route::Artifacts => p == "/cockpit/artifacts"@,
                Route::Api => p == "/cockpit/api"@,
                Route::Search => p == "/cockpit/search"@,
                Route::Activity => p == "/cockpit/activity"@,
                Route::Capability { id } => p == "/cockpit/capabilities/"@ + id@,
                Route::Graph { id } => p == "/cockpit/graphs/"@ + id@,
                Route::NotFound { path: q } => q@ == p,
            }
        }),
{
    let p = trim_slashes(path);
    reveal_strlit("/cockpit/capabilities/");
    reveal_strlit("/cockpit/graphs/");
    match r {
        Route::Capability { id } => {
            assert(p =~= CAPABILITY_PAGES@ + p.skip(CAPABILITY_PAGES@.len() as int));
        },
        Route::Graph { id } => {
            assert(p =~= GRAPH_PAGES@ + p.skip(GRAPH_PAGES@.len() as int));
        },
        _ => {},
    }
}

fn trimmed_path(path: &str) -> (r: &str)
    ensures
        r@ == trim_slashes(path@),
{
    let mut k = path.unicode_len();
    assert(path@.take(k as int) =~= path@);
    while k > 0 && path.get_char(k - 1) == '/'
        invariant
            k <= path@.len(),
            trim_slashes(path@) == trim_slashes(path@.take(k as int)),
        decreases k,
    {
        assert(path@.take(k as int).drop_last() =~= path@.take(k - 1));
        k -= 1;
    }
    let r = path.substring_char(0, k);
    assert(r@ =~= path@.take(k as int));
    r
}

fn first_param(query: &[(String, String)], key: &str) -> (r: Option<String>)
    ensures
        nav::opt_text(r) == first_value(query@, key@),
{
    let mut i: usize = 0;
    assert(query@.skip(0) =~= query@);
    while i < query.len()
        invariant
            i <= query@.len(),
            first_value(query@, key@) == first_value(query@.skip(i as int), key@),
        decreases query.len() - i,
    {
        assert(query@.skip(i as int)[0] == query@[i as int]);
        assert(query@.skip(i as int).drop_first() =~= query@.skip(i + 1));
        if str_eq(query[i].0.as_str(), key) {
            return Some(String::from_str(query[i].1.as_str()));
        }
        i += 1;
    }
    None
}

fn rest_after(p: &str, prefix: &str) -> (r: String)
    requires
        starts(p@, prefix@),
    ensures
        r@ == p@.skip(prefix@.len() as int),
{
    let n = p.unicode_len();
    let m = prefix.unicode_len();
    let s = p.substring_char(m, n);
    assert(s@ =~= p@.skip(m as int));
    String::from_str(s)
}

/// The page a path leads to.
pub fn route(path: &str, query: &[(String, String)]) -> (r: Route)
    ensures
        routes_to(path@, query@, r),
{
    let p = trimmed_path(path);
    if str_eq(p, "") || str_eq(p, PREFIX) {
        Route::Overview
    } else if str_eq(p, "/cockpit/capabilities") {
        Route::Capabilities
    } else if str_eq(p, "/cockpit/objects") {
        Route::Objects
    } else if str_eq(p, "/cockpit/object") {
        match first_param(query, "uri") {
            Some(uri) => Route::Object { uri },
            None => Route::Objects,
        }
    } else if str_eq(p, "/cockpit/graphs") {
        Route::Graphs
    } else if str_eq(p, "/cockpit/graphs/topology") {
        Route::Topology
    } else if str_eq(p, "/cockpit/continuity") {
        Route::Continuity
    } else if str_eq(p, "/cockpit/directories") {
        Route::Directories
    } else if str_eq(p, "/cockpit/health") {
        Route::Health
    } else if str_eq(p, "/cockpit/artifacts") {
        Route::Artifacts
    } else if str_eq(p, "/cockpit/api") {
        Route::Api
    } else if str_eq(p, "/cockpit/search") {
        Route::Search
    } else if str_eq(p, "/cockpit/activity") {
        Route::Activity
    } else if starts_with(p, CAPABILITY_PAGES) {
        Route::Capability { id: rest_after(p, CAPABILITY_PAGES) }
    } else if starts_with(p, GRAPH_PAGES) {
        Route::Graph { id: rest_after(p, GRAPH_PAGES) }
    } else {
        Route::NotFound { path: String::from_str(p) }
    }
}

// ------------------------------------------------------------------ base64

/// The character of one six-bit value in the standard alphabet.
pub open spec fn b64_char(v: int) -> char {
    if v < 26 {
        (65 + v) as char
    } else if v < 52 {
        (97 + (v - 26)) as char
    } else if v < 62 {
        (48 + (v - 52)) as char
    } else if v == 62 {
        '+'
    } else {
        '/'
    }
}

/// Standard base64 of some bytes: four characters per three bytes, padded.
pub open spec fn base64_of(b: Seq<u8>) -> Seq<char>
    decreases b.len(),
{
    if b.len() == 0 {
        seq![]
    } else if b.len() == 1 {
        seq![b64_char(b[0] as int / 4), b64_char((b[0] % 4) * 16), '=', '=']
    } else if b.len() == 2 {
        seq![b64_char(b[0] as int / 4), b64_char((b[0] % 4) * 16 + b[1] / 16), b64_char((b[1] % 16) * 4), '=']
    } else {
        seq![
            b64_char(b[0] as int / 4),
            b64_char((b[0] % 4) * 16 + b[1] / 16),
            b64_char((b[1] % 16) * 4 + b[2] / 64),
            b64_char(b[2] as int % 64),
        ] + base64_of(b.skip(3))
    }
}

fn b64(v: u8) -> (r: char)
    requires
        v < 64,
    ensures
        r == b64_char(v as int),
{
    if v < 26 {
        (65 + v) as char
    } else if v < 52 {
        (97 + (v - 26)) as char
    } else if v < 62 {
        (48 + (v - 52)) as char
    } else if v == 62 {
        '+'
    } else {
        '/'
    }
}

/// Standard base64, for the one digest the policy names.
pub fn base64(bytes: &[u8]) -> (r: String)
    ensures
        r@ == base64_of(bytes@),
{
    let n = bytes.len();
    let mut out = String::new();
    let mut i: usize = 0;
    assert(bytes@.skip(0) =~= bytes@);
    while i < n
        invariant
            n == bytes@.len(),
            i <= n,
            out@ + base64_of(bytes@.skip(i as int)) == base64_of(bytes@),
        decreases n - i,
    {
        let ghost rest = bytes@.skip(i as int);
        let a = bytes[i];
        if n - i == 1 {
            push_char(&mut out, b64(a / 4));
            push_char(&mut out, b64((a % 4) * 16));
            push_char(&mut out, '=');
            push_char(&mut out, '=');
            assert(rest[0] == a);
            assert(out@ =~= base64_of(bytes@));
            i = n;
            assert(bytes@.skip(i as int) =~= seq![]);
        } else if n - i == 2 {
            let x = bytes[i + 1];
            push_char(&mut out, b64(a / 4));
            push_char(&mut out, b64((a % 4) * 16 + x / 16));
            push_char(&mut out, b64((x % 16) * 4));
            push_char(&mut out, '=');
            assert(rest[0] == a && rest[1] == x);
            assert(out@ =~= base64_of(bytes@));
            i = n;
            assert(bytes@.skip(i as int) =~= seq![]);
        } else {
            let x = bytes[i + 1];
            let y = bytes[i + 2];
            let ghost before = out@;
            push_char(&mut out, b64(a / 4));
            push_char(&mut out, b64((a % 4) * 16 + x / 16));
            push_char(&mut out, b64((x % 16) * 4 + y / 64));
            push_char(&mut out, b64(y % 64));
            assert(rest[0] == a && rest[1] == x && rest[2] == y);
            assert(rest.skip(3) =~= bytes@.skip(i + 3));
            assert(out@ =~= before + seq![
                b64_char(a as int / 4),
                b64_char((a % 4) * 16 + x / 16),
                b64_char((x % 16) * 4 + y / 64),
                b64_char(y as int % 64),
            ]);
            i += 3;
        }
    }
    assert(bytes@.skip(n as int) =~= seq![]);
    out
}

// ------------------------------------------------------------------ the policy

/// The content-security policy, around the base64 digest of the one inline script it
/// allows.
pub open spec fn policy_text(digest: Seq<char>) -> Seq<char> {
    "default-src 'none'; script-src 'self' 'sha256-"@ + digest
        + "'; style-src 'self' 'unsafe-inline'; img-src 'self' data:; connect-src 'self'; font-src 'self'; form-action 'self'; base-uri 'none'; frame-ancestors 'none'"@
}

/// The content-security policy every page carries. Scripts come from this origin and from
/// nowhere else; the one inline script — the theme bootstrap — is allowed by the digest of
/// its own bytes, so an injected inline script is refused even if one ever got through
/// the escaping. No `unsafe-eval`, no remote origin, and nothing may frame the page.
/// Styles may be inline, because a drawing library sizes its canvas with `style`
/// attributes; scripts never.
pub fn csp(bootstrap: &str) -> (r: String)
    ensures
        r@ == policy_text(base64_of(sha256_of(utf8(bootstrap@)))),
{
    let bytes = utf8_bytes(bootstrap);
    let digest = sha256_bytes(bytes.as_slice());
    let encoded = base64(digest.as_slice());
    let mut out = String::from_str("default-src 'none'; script-src 'self' 'sha256-");
    push_str(&mut out, encoded.as_str());
    push_str(
        &mut out,
        "'; style-src 'self' 'unsafe-inline'; img-src 'self' data:; connect-src 'self'; font-src 'self'; form-action 'self'; base-uri 'none'; frame-ancestors 'none'",
    );
    out
}

/// The digest a policy names is four characters for every three bytes: 44 for the 32
/// bytes of a SHA-256.
pub proof fn law_a_sha256_digest_is_forty_four_characters_of_base64(b: Seq<u8>)
    requires
        b.len() == 32,
    ensures
        base64_of(b).len() == 44,
{
    lemma_base64_len(b);
}

/// The six-bit value a character of the standard alphabet stands for.
pub open spec fn b64_value(c: char) -> int {
    if 'A' <= c && c <= 'Z' {
        (c as u32) - 65
    } else if 'a' <= c && c <= 'z' {
        (c as u32) - 71
    } else if '0' <= c && c <= '9' {
        (c as u32) + 4
    } else if c == '+' {
        62
    } else if c == '/' {
        63
    } else {
        0
    }
}

/// The bytes a standard base64 text stands for: three for every four characters, fewer
/// where the group is padded with `=`.
pub open spec fn base64_decoded(s: Seq<char>) -> Seq<u8>
    decreases s.len(),
{
    if s.len() < 4 {
        seq![]
    } else {
        let v0 = b64_value(s[0]);
        let v1 = b64_value(s[1]);
        let v2 = b64_value(s[2]);
        let v3 = b64_value(s[3]);
        if s[2] == '=' {
            seq![(v0 * 4 + v1 / 16) as u8]
        } else if s[3] == '=' {
            seq![(v0 * 4 + v1 / 16) as u8, ((v1 % 16) * 16 + v2 / 4) as u8]
        } else {
            seq![(v0 * 4 + v1 / 16) as u8, ((v1 % 16) * 16 + v2 / 4) as u8, ((v2 % 4) * 64 + v3) as u8]
                + base64_decoded(s.skip(4))
        }
    }
}

proof fn lemma_b64_char(v: int)
    requires
        0 <= v < 64,
    ensures
        b64_value(b64_char(v)) == v,
        b64_char(v) != '=',
{
    if v < 26 {
        assert(((65 + v) as char) as u32 == 65 + v);
    } else if v < 52 {
        assert(((97 + (v - 26)) as char) as u32 == 97 + (v - 26));
    } else if v < 62 {
        assert(((48 + (v - 52)) as char) as u32 == 48 + (v - 52));
    }
}

proof fn lemma_b64_group(x: u8, y: u8, z: u8)
    ensures
        (x / 4) * 4 + ((x % 4) * 16 + y / 16) / 16 == x,
        (((x % 4) * 16 + y / 16) % 16) * 16 + ((y % 16) * 4 + z / 64) / 4 == y,
        (((y % 16) * 4 + z / 64) % 4) * 64 + z % 64 == z,
        ((x % 4) * 16) / 16 == x % 4,
        ((x % 4) * 16) % 16 == 0,
        ((y % 16) * 4) / 4 == y % 16,
{
    assert((x / 4) * 4 + ((x % 4) * 16 + y / 16) / 16 == x) by (nonlinear_arith);
    assert((((x % 4) * 16 + y / 16) % 16) * 16 + ((y % 16) * 4 + z / 64) / 4 == y) by (nonlinear_arith);
    assert((((y % 16) * 4 + z / 64) % 4) * 64 + z % 64 == z) by (nonlinear_arith);
    assert(((x % 4) * 16) / 16 == x % 4) by (nonlinear_arith);
    assert(((x % 4) * 16) % 16 == 0) by (nonlinear_arith);
    assert(((y % 16) * 4) / 4 == y % 16) by (nonlinear_arith);
}

/// Base64 loses nothing: decoding the text gives back the bytes, so the digest a policy
/// names is the digest of the statement.
pub proof fn law_base64_decodes_to_its_bytes(b: Seq<u8>)
    ensures
        base64_decoded(base64_of(b)) == b,
    decreases b.len(),
{
    let e = base64_of(b);
    if b.len() == 0 {
    } else if b.len() == 1 {
        let x = b[0];
        lemma_b64_char(x as int / 4);
        lemma_b64_char((x % 4) * 16);
        lemma_b64_group(x, 0, 0);
        assert(base64_decoded(e) =~= b);
    } else if b.len() == 2 {
        let x = b[0];
        let y = b[1];
        lemma_b64_char(x as int / 4);
        lemma_b64_char((x % 4) * 16 + y / 16);
        lemma_b64_char((y % 16) * 4);
        lemma_b64_group(x, y, 0);
        assert(base64_decoded(e) =~= b);
    } else {
        let x = b[0];
        let y = b[1];
        let z = b[2];
        lemma_b64_char(x as int / 4);
        lemma_b64_char((x % 4) * 16 + y / 16);
        lemma_b64_char((y % 16) * 4 + z / 64);
        lemma_b64_char(z as int % 64);
        lemma_b64_group(x, y, z);
        law_base64_decodes_to_its_bytes(b.skip(3));
        let head = seq![
            b64_char(x as int / 4),
            b64_char((x % 4) * 16 + y / 16),
            b64_char((y % 16) * 4 + z / 64),
            b64_char(z as int % 64),
        ];
        assert(e == head + base64_of(b.skip(3)));
        assert(e.skip(4) =~= base64_of(b.skip(3)));
        assert(b =~= seq![x, y, z] + b.skip(3));
        assert(base64_decoded(e) =~= b);
    }
}

proof fn lemma_base64_len(b: Seq<u8>)
    ensures
        b.len() % 3 == 0 ==> base64_of(b).len() == b.len() / 3 * 4,
        b.len() % 3 != 0 ==> base64_of(b).len() == (b.len() / 3 + 1) * 4,
    decreases b.len(),
{
    if b.len() >= 3 {
        lemma_base64_len(b.skip(3));
    }
}

} // verus!
