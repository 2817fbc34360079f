//! Search: the capabilities whose identity or title holds the text, whatever its case, and
//! what the repository's own object search found.

use vstd::prelude::*;

use crate::command::activate::{trim, trimmed};
use crate::strings::{decimal, decimal_of, lowercase, lowercase_of, push_str};
use crate::url::{percent_encode, percent_encoded};

use super::catalogue::{contains_text, has_text, CapabilityEntry};
use super::checkouts::nothing_model;
use super::frame::{classed, holding, saying};
use super::html::{bare, el, els_model, with_attr, with_children, El, ElementModel, NodeModel};
use super::nav::Area;
use super::pages::{given_trail, trail_views, Page};
use super::surfaces::{cell_of, mono_model};
use super::view::{
    badge_model, card, card_model, cell, id_cell, id_cell_model, kind_badge, mono, nothing, row, strs_model, table,
    table_model, text_cell,
};
use super::{first_param, first_value};

verus! {

broadcast use super::html::lemma_element_node;

/// One hit of the object search.
#[derive(Debug, Clone, PartialEq, Eq)]
pub struct ObjectHit {
    /// The object's URI.
    pub uri: String,
    /// Its identity, when the hit carries one.
    pub identity: Option<String>,
    /// Its kind, when the hit carries one.
    pub kind: Option<String>,
    /// Its title, when the hit carries one.
    pub title: Option<String>,
}

/// How many capabilities a search lists at most.
pub const LIMIT: usize = 50;

/// What the search field offers to look for.
pub const PLACEHOLDER: &'static str = "text in any object, or a capability";

/// What the page says before anything was asked.
pub const ASK: &'static str = "Type something. The search is the repository's own: case-insensitive, over identities, titles, descriptions and content.";

/// The search form, holding what was asked.
pub open spec fn form_model(needle: Seq<char>) -> ElementModel {
    holding(
        holding(
            with_attr(
                with_attr(with_attr(classed("form"@, "mj-filters"@), "method"@, "get"@), "action"@, "/cockpit/search"@),
                "role"@,
                "search"@,
            ),
            holding(
                holding(classed("label"@, "mj-field"@), saying(classed("span"@, "mj-field-label"@), "Search"@)),
                with_attr(
                    with_attr(
                        with_attr(
                            with_attr(with_attr(classed("input"@, "mj-input"@), "type"@, "search"@), "name"@, "q"@),
                            "autofocus"@,
                            ""@,
                        ),
                        "value"@,
                        needle,
                    ),
                    "placeholder"@,
                    PLACEHOLDER@,
                ),
            ),
        ),
        saying(with_attr(classed("button"@, "mj-button"@), "type"@, "submit"@), "Search"@),
    )
}

fn form(needle: &str) -> (r: El)
    ensures
        r@ == form_model(needle@),
{
    el("form").class("mj-filters").attr("method", "get").attr("action", "/cockpit/search").attr("role", "search").child(
        el("label").class("mj-field").child(el("span").class("mj-field-label").text("Search")).child(
            el("input").class("mj-input").attr("type", "search").attr("name", "q").attr("autofocus", "").attr(
                "value",
                needle,
            ).attr("placeholder", PLACEHOLDER),
        ),
    ).child(el("button").class("mj-button").attr("type", "submit").text("Search"))
}

/// Does a capability answer a search, whose text is already in lower case?
pub open spec fn answers(c: CapabilityEntry, lowered: Seq<char>) -> bool {
    has_text(lowercase_of(c.id@), lowered) || has_text(lowercase_of(c.title@), lowered)
}

/// Every capability that answers a search, in the registry's order.
pub open spec fn answering(cs: Seq<CapabilityEntry>, lowered: Seq<char>) -> Seq<CapabilityEntry>
    decreases cs.len(),
{
    if cs.len() == 0 {
        seq![]
    } else {
        answering(cs.drop_last(), lowered) + if answers(cs.last(), lowered) {
            seq![cs.last()]
        } else {
            seq![]
        }
    }
}

/// The first of a list, up to the limit.
pub open spec fn first_few(cs: Seq<CapabilityEntry>) -> Seq<CapabilityEntry> {
    if cs.len() <= LIMIT {
        cs
    } else {
        cs.take(LIMIT as int)
    }
}

/// The row of a capability that answers.
pub open spec fn capability_row(c: CapabilityEntry) -> NodeModel {
    NodeModel::Element(
        with_children(
            bare("tr"@),
            seq![
                NodeModel::Element(id_cell_model("/cockpit/capabilities/"@ + percent_encoded(c.id@), c.id@)),
                NodeModel::Element(saying(bare("td"@), c.title@)),
                cell_of(badge_model(c.kind@, c.kind@)),
            ],
        ),
    )
}

/// The row of an object hit.
pub open spec fn object_row(h: ObjectHit) -> NodeModel {
    NodeModel::Element(
        with_children(
            bare("tr"@),
            seq![
                NodeModel::Element(
                    id_cell_model(
                        "/cockpit/object?uri="@ + percent_encoded(h.uri@),
                        match h.identity {
                            Some(i) => i@,
                            None => h.uri@,
                        },
                    ),
                ),
                cell_of(
                    mono_model(
                        match h.kind {
                            Some(k) => k@,
                            None => ""@,
                        },
                    ),
                ),
                NodeModel::Element(
                    saying(
                        bare("td"@),
                        match h.title {
                            Some(t) => t@,
                            None => ""@,
                        },
                    ),
                ),
            ],
        ),
    )
}

/// A card of results, or what an empty one means.
pub open spec fn results(title: Seq<char>, empty: Seq<char>, headers: Seq<Seq<char>>, rows: Seq<NodeModel>) -> ElementModel {
    card_model(
        title + " ("@ + decimal_of(rows.len()) + ")"@,
        if rows.len() == 0 {
            nothing_model(empty)
        } else {
            table_model(headers, rows)
        },
    )
}

fn results_el(title: &str, empty: &str, headers: &[&str], rows: Vec<El>) -> (r: El)
    ensures
        r@ == results(title@, empty@, strs_model(headers@), els_model(rows@)),
{
    let mut t = String::from_str(title);
    push_str(&mut t, " (");
    push_str(&mut t, decimal(rows.len()).as_str());
    push_str(&mut t, ")");
    if rows.len() == 0 {
        card(t.as_str(), nothing(empty))
    } else {
        card(t.as_str(), table(headers, rows))
    }
}

/// The body of a search that asked something.
pub open spec fn results_body(needle: Seq<char>, cs: Seq<CapabilityEntry>, hits: Seq<ObjectHit>) -> ElementModel {
    holding(
        holding(
            holding(classed("div"@, "mj-grid"@), form_model(needle)),
            results(
                "Capabilities"@,
                "No capability matches."@,
                seq!["Id"@, "Title"@, "Kind"@],
                first_few(answering(cs, lowercase_of(needle))).map_values(|c: CapabilityEntry| capability_row(c)),
            ),
        ),
        results(
            "Objects"@,
            "No object matches."@,
            seq!["Identity"@, "Kind"@, "Title"@],
            hits.map_values(|h: ObjectHit| object_row(h)),
        ),
    )
}

/// The text a search asked for: the first `q`, or nothing.
pub open spec fn asked_text(query: Seq<(String, String)>) -> Seq<char> {
    match first_value(query, "q"@) {
        Some(q) => q,
        None => ""@,
    }
}

fn capability_rows(cs: &Vec<CapabilityEntry>, lowered: &str) -> (r: Vec<El>)
    ensures
        els_model(r@) == first_few(answering(cs@, lowered@)).map_values(|c: CapabilityEntry| capability_row(c)),
{
    let mut rows: Vec<El> = Vec::new();
    let ghost mut shown: Seq<CapabilityEntry> = seq![];
    for k in 0..cs.len()
        invariant
            shown == first_few(answering(cs@.take(k as int), lowered@)),
            rows@.len() == shown.len(),
            forall|j: int| 0 <= j < rows@.len() ==> NodeModel::Element((#[trigger] rows@[j])@) == capability_row(shown[j]),
    {
        let c = &cs[k];
        assert(cs@.take(k + 1).drop_last() =~= cs@.take(k as int));
        assert(cs@.take(k + 1).last() == cs@[k as int]);
        let ghost before = answering(cs@.take(k as int), lowered@);
        let id = lowercase(c.id.as_str());
        let title = lowercase(c.title.as_str());
        let hit = contains_text(id.as_str(), lowered) || contains_text(title.as_str(), lowered);
        if hit && rows.len() < LIMIT {
            let mut href = String::from_str("/cockpit/capabilities/");
            push_str(&mut href, percent_encode(c.id.as_str()).as_str());
            let mut cells: Vec<El> = Vec::new();
            cells.push(id_cell(href.as_str(), c.id.as_str()));
            cells.push(text_cell(c.title.as_str()));
            cells.push(cell(kind_badge(c.kind.as_str())));
            let r = row(cells);
            assert(els_model(cells@) =~= match capability_row(*c) {
                NodeModel::Element(x) => x.children,
                _ => seq![],
            });
            rows.push(r);
            proof {
                shown = shown.push(*c);
            }
        }
        proof {
            let after = answering(cs@.take(k + 1), lowered@);
            if hit {
                assert(after =~= before.push(*c));
                if before.len() < LIMIT {
                    assert(shown =~= first_few(after));
                } else {
                    assert(after.take(LIMIT as int) =~= before.take(LIMIT as int));
                }
            } else {
                assert(after =~= before);
            }
        }
    }
    assert(cs@.take(cs@.len() as int) =~= cs@);
    assert(els_model(rows@) =~= shown.map_values(|c: CapabilityEntry| capability_row(c)));
    rows
}

fn object_rows(hits: &Vec<ObjectHit>) -> (r: Vec<El>)
    ensures
        els_model(r@) == hits@.map_values(|h: ObjectHit| object_row(h)),
{
    let mut rows: Vec<El> = Vec::new();
    for k in 0..hits.len()
        invariant
            rows@.len() == k,
            forall|j: int| 0 <= j < k ==> NodeModel::Element((#[trigger] rows@[j])@) == object_row(hits@[j]),
    {
        let h = &hits[k];
        let mut href = String::from_str("/cockpit/object?uri=");
        push_str(&mut href, percent_encode(h.uri.as_str()).as_str());
        let identity = match &h.identity {
            Some(i) => i.as_str(),
            None => h.uri.as_str(),
        };
        let kind = match &h.kind {
            Some(k) => k.as_str(),
            None => "",
        };
        let title = match &h.title {
            Some(t) => t.as_str(),
            None => "",
        };
        let mut cells: Vec<El> = Vec::new();
        cells.push(id_cell(href.as_str(), identity));
        cells.push(cell(mono(kind)));
        cells.push(text_cell(title));
        let r = row(cells);
        assert(els_model(cells@) =~= match object_row(*h) {
            NodeModel::Element(x) => x.children,
            _ => seq![],
        });
        rows.push(r);
    }
    assert(els_model(rows@) =~= hits@.map_values(|h: ObjectHit| object_row(h)));
    rows
}

/// Search. `registry` is every capability; `hits` is what the repository's object search
/// answered for the text, at most fifty, and empty when it did not answer. A text of
/// nothing but white space asks nothing, and the page says what the search is instead.
pub fn search(query: &[(String, String)], registry: &Vec<CapabilityEntry>, hits: &Vec<ObjectHit>) -> (r: Page)
    ensures
        r.area == Area::NoArea,
        r.status == 200,
        r.subtitle is None,
        r.scripts@.len() == 0,
        trail_views(r.breadcrumbs@) == seq![("Cockpit"@, Some("/cockpit"@)), ("Search"@, None::<Seq<char>>)],
        trimmed(asked_text(query@)).len() == 0 ==> r.title@ == "Search"@ && r.main@ == holding(
            holding(bare("div"@), form_model(asked_text(query@))),
            nothing_model(ASK@),
        ),
        trimmed(asked_text(query@)).len() > 0 ==> r.title@ == "Search: "@ + asked_text(query@) && r.main@
            == results_body(asked_text(query@), registry@, hits@),
{
    let needle = match first_param(query, "q") {
        Some(q) => q,
        None => String::new(),
    };
    proof {
        reveal_strlit("");
    }
    assert(needle@ == asked_text(query@));
    let mut trail: Vec<(&str, Option<&str>)> = Vec::new();
    trail.push(("Cockpit", Some("/cockpit")));
    trail.push(("Search", None));
    assert(given_trail(trail@) =~= seq![("Cockpit"@, Some("/cockpit"@)), ("Search"@, None::<Seq<char>>)]);
    if trim(needle.as_str()).unicode_len() == 0 {
        return Page::new(Area::NoArea, "Search", el("div").child(form(needle.as_str())).child(nothing(ASK))).trail(trail);
    }
    let lowered = lowercase(needle.as_str());
    let h1 = ["Id", "Title", "Kind"];
    assert(strs_model(h1@) =~= seq!["Id"@, "Title"@, "Kind"@]);
    let h2 = ["Identity", "Kind", "Title"];
    assert(strs_model(h2@) =~= seq!["Identity"@, "Kind"@, "Title"@]);
    let body = el("div").class("mj-grid").child(form(needle.as_str())).child(
        results_el("Capabilities", "No capability matches.", &h1, capability_rows(registry, lowered.as_str())),
    ).child(results_el("Objects", "No object matches.", &h2, object_rows(hits)));
    let mut title = String::from_str("Search: ");
    push_str(&mut title, needle.as_str());
    Page::new(Area::NoArea, title.as_str(), body).trail(trail)
}

} // verus!
