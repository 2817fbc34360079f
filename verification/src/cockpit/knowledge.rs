//! The knowledge pages: the pieces every one of them is laid out from.

use vstd::prelude::*;

use crate::strings::{decimal_of, push_decimal, push_str, str_eq};
use crate::url::{percent_encode, percent_encoded};

pub use super::integrity::{integrity, integrity_capability};

use super::html::{with_attr, El};
use super::view::{badge, badge_model, chip_items, chips, chips_model, link, link_model};

verus! {

/// How current a node of the knowledge graph is against its sources.
#[derive(Debug, Clone, Copy, PartialEq, Eq, Structural)]
pub enum Freshness {
    Current,
    PossiblyStale,
    Unverified,
    Stale,
    Conflicted,
}

/// The word of a freshness.
pub open spec fn freshness_word(f: Freshness) -> Seq<char> {
    match f {
        Freshness::Current => "current"@,
        Freshness::PossiblyStale => "possibly_stale"@,
        Freshness::Unverified => "unverified"@,
        Freshness::Stale => "stale"@,
        Freshness::Conflicted => "conflicted"@,
    }
}

impl Freshness {
    /// The word of a freshness.
    pub fn as_str(self) -> (r: &'static str)
        ensures
            r@ == freshness_word(self),
    {
        match self {
            Freshness::Current => "current",
            Freshness::PossiblyStale => "possibly_stale",
            Freshness::Unverified => "unverified",
            Freshness::Stale => "stale",
            Freshness::Conflicted => "conflicted",
        }
    }
}

/// The badge word a freshness wears: one of three.
pub open spec fn freshness_status_of(f: Freshness) -> Seq<char> {
    match f {
        Freshness::Current => "ok"@,
        Freshness::PossiblyStale | Freshness::Unverified => "warn"@,
        Freshness::Stale | Freshness::Conflicted => "fail"@,
    }
}

/// The badge word a freshness wears.
pub fn freshness_status(f: Freshness) -> (r: &'static str)
    ensures
        r@ == freshness_status_of(f),
{
    match f {
        Freshness::Current => "ok",
        Freshness::PossiblyStale | Freshness::Unverified => "warn",
        Freshness::Stale | Freshness::Conflicted => "fail",
    }
}

/// A word with each underscore a space.
pub open spec fn spaced(w: Seq<char>) -> Seq<char> {
    w.map_values(|c: char| if c == '_' { ' ' } else { c })
}

fn spaced_word(w: &str) -> (r: String)
    ensures
        r@ == spaced(w@),
{
    let n = w.unicode_len();
    let mut out = String::new();
    let mut i: usize = 0;
    while i < n
        invariant
            n == w@.len(),
            i <= n,
            out@ == spaced(w@.take(i as int)),
        decreases n - i,
    {
        let c = w.get_char(i);
        crate::strings::push_char(&mut out, if c == '_' { ' ' } else { c });
        assert(spaced(w@.take(i + 1)) =~= spaced(w@.take(i as int)).push(if c == '_' { ' ' } else { c }));
        i += 1;
    }
    assert(w@.take(n as int) =~= w@);
    out
}

/// A freshness as a badge: coloured by its status, labelled with its own words.
pub fn freshness_badge(f: Freshness) -> (r: El)
    ensures
        r@ == badge_model(freshness_status_of(f), spaced(freshness_word(f))),
{
    let label = spaced_word(f.as_str());
    badge(freshness_status(f), label.as_str())
}

/// A check's verdict as a badge: `pass` is fine, anything else is not.
pub fn verdict_badge(verdict: &str) -> (r: El)
    ensures
        r@ == badge_model(if verdict@ == "pass"@ { "ok"@ } else { "fail"@ }, verdict@),
{
    badge(if str_eq(verdict, "pass") { "ok" } else { "fail" }, verdict)
}

/// Where one node of the knowledge graph is shown.
pub open spec fn node_href_of(id: Seq<char>) -> Seq<char> {
    "/cockpit/knowledge/node?id="@ + percent_encoded(id)
}

/// Where one node of the knowledge graph is shown.
pub fn node_href(id: &str) -> (r: String)
    ensures
        r@ == node_href_of(id@),
{
    let mut out = String::from_str("/cockpit/knowledge/node?id=");
    let e = percent_encode(id);
    push_str(&mut out, e.as_str());
    out
}

/// A link to one node, monospaced.
pub fn node_link(id: &str) -> (r: El)
    ensures
        r@ == with_attr(link_model(node_href_of(id@), id@), "class"@, "mj-link mj-mono"@),
{
    let href = node_href(id);
    link(href.as_str(), id).class("mj-link mj-mono")
}

/// The tallies of a report in one line: each non-zero count after its key, in key order,
/// or `none`.
pub open spec fn tallies_of(m: Seq<(Seq<char>, nat)>) -> Seq<Seq<char>>
    decreases m.len(),
{
    if m.len() == 0 {
        seq![]
    } else {
        let rest = tallies_of(m.drop_last());
        let (k, n) = m.last();
        if n > 0 {
            rest.push(k + " "@ + decimal_of(n))
        } else {
            rest
        }
    }
}

/// The tallies as one line.
pub open spec fn tallies_line_of(m: Seq<(Seq<char>, nat)>) -> Seq<char> {
    let parts = tallies_of(m);
    if parts.len() == 0 {
        "none"@
    } else {
        crate::strings::join_with_text(parts, ", "@)
    }
}

/// The counts of a report as text.
pub open spec fn count_views(m: Seq<(String, usize)>) -> Seq<(Seq<char>, nat)> {
    m.map_values(|p: (String, usize)| (p.0@, p.1 as nat))
}

/// The tallies of a report, in key order, as one line.
pub fn tallies_line(m: &[(String, usize)]) -> (r: String)
    ensures
        r@ == tallies_line_of(count_views(m@)),
{
    let ghost all = count_views(m@);
    let mut out = String::new();
    let mut any = false;
    for i in 0..m.len()
        invariant
            all == count_views(m@),
            any == (tallies_of(all.take(i as int)).len() > 0),
            any ==> out@ == crate::strings::join_with_text(tallies_of(all.take(i as int)), ", "@),
    {
        let ghost t = all.take(i + 1);
        assert(t.drop_last() =~= all.take(i as int));
        assert(t.last() == all[i as int]);
        let (k, n) = (&m[i].0, m[i].1);
        if n > 0 {
            if any {
                push_str(&mut out, ", ");
            } else {
                out = String::new();
            }
            push_str(&mut out, k.as_str());
            push_str(&mut out, " ");
            push_decimal(&mut out, n);
            proof {
                let parts = tallies_of(t);
                if parts.len() > 1 {
                    assert(parts.drop_last() == tallies_of(all.take(i as int)));
                    assert(out@ =~= crate::strings::join_with_text(parts.drop_last(), ", "@) + ", "@ + parts.last());
                } else {
                    assert(out@ =~= parts[0]);
                }
            }
            any = true;
        }
    }
    assert(all.take(m@.len() as int) =~= all);
    if any {
        out
    } else {
        String::from_str("none")
    }
}

/// The sibling pages of the knowledge area, label and address.
pub open spec fn knowledge_sections() -> Seq<(Seq<char>, Seq<char>)> {
    seq![
        ("Overview"@, "/cockpit/knowledge"@),
        ("Explore"@, "/cockpit/knowledge/nodes"@),
        ("Graph"@, "/cockpit/knowledge/graph"@),
        ("Impact"@, "/cockpit/knowledge/impact"@),
        ("Coverage"@, "/cockpit/knowledge/coverage"@),
        ("Gaps"@, "/cockpit/knowledge/gaps"@),
        ("Conflicts"@, "/cockpit/knowledge/conflicts"@),
        ("Sources"@, "/cockpit/knowledge/sources"@),
        ("Diagnostics"@, "/cockpit/knowledge/diagnostics"@),
        ("Integrity"@, "/cockpit/integrity"@),
    ]
}

/// The links every knowledge page carries to its siblings, the one being read marked.
pub fn sections(here: &str) -> (r: El)
    ensures
        r@ == chips_model(knowledge_sections().map_values(|p: (Seq<char>, Seq<char>)| (p.0, p.1, 0usize, p.1 == here@))),
{
    let items: [(&'static str, &'static str); 10] = [
        ("Overview", "/cockpit/knowledge"),
        ("Explore", "/cockpit/knowledge/nodes"),
        ("Graph", "/cockpit/knowledge/graph"),
        ("Impact", "/cockpit/knowledge/impact"),
        ("Coverage", "/cockpit/knowledge/coverage"),
        ("Gaps", "/cockpit/knowledge/gaps"),
        ("Conflicts", "/cockpit/knowledge/conflicts"),
        ("Sources", "/cockpit/knowledge/sources"),
        ("Diagnostics", "/cockpit/knowledge/diagnostics"),
        ("Integrity", "/cockpit/integrity"),
    ];
    let ghost want = knowledge_sections().map_values(|p: (Seq<char>, Seq<char>)| (p.0, p.1, 0usize, p.1 == here@));
    let mut chosen: Vec<(String, String, usize, bool)> = Vec::new();
    for i in 0..10usize
        invariant
            items@.len() == 10,
            want == knowledge_sections().map_values(|p: (Seq<char>, Seq<char>)| (p.0, p.1, 0usize, p.1 == here@)),
            forall|j: int| 0 <= j < 10 ==> (#[trigger] items@[j]).0@ == knowledge_sections()[j].0 && items@[j].1@ == knowledge_sections()[j].1,
            chip_items(chosen@) == want.take(i as int),
    {
        let (label, href) = items[i];
        let current = str_eq(href, here);
        chosen.push((String::from_str(label), String::from_str(href), 0, current));
        assert(chip_items(chosen@) =~= chip_items(chosen@.drop_last()).push((label@, href@, 0usize, current)));
        assert(want.take(i + 1) =~= want.take(i as int).push(want[i as int]));
    }
    assert(want.take(10) =~= want);
    chips(chosen)
}

} // verus!
