//! The capability explorer: every capability of the registry that the filters in force let
//! through, a window of them at a time, with the modules of what matches as the way in.

use vstd::prelude::*;

use crate::command::activate::{starts, starts_with};
use crate::command::projection::{text_before, text_less};
use crate::strings::{chars_of, decimal, decimal_of, lowercase, lowercase_of, push_str, str_eq};
use crate::url::{percent_encode, percent_encoded};

use super::frame::{classed, holding, saying};
use super::html::{bare, el, els_model, with_attr, El, ElementModel, NodeModel};
use super::nav::{opt_text, Area};
use super::pages::{asked_page, asked_page_of, given_trail, href_with, kept_pairs, option_views, overridden, param, param_of, select, select_model, set_pairs, trail_views, Page};
use super::surfaces::{cell_of, mono_model};
use super::view::{badge, badge_model, cell, chip_items, chips, chips_model, id_cell, id_cell_model, link, link_model, mono, nothing, pages_of, paginate, pagination_of, row, strs_model, table, table_model, tag, tag_model, text_cell, PageLinks, Window, PER_PAGE};

verus! {

broadcast use super::html::lemma_element_node;

/// Where a capability was declared.
#[derive(Debug, Clone, PartialEq, Eq)]
pub enum Provenance {
    /// In the executable.
    Builtin,
    /// In a declaration file, at this path.
    Declarative { path: String },
}

/// A capability as the explorer lists it.
#[derive(Debug, Clone, PartialEq, Eq)]
pub struct CapabilityEntry {
    /// Its identity.
    pub id: String,
    /// Its kind, as its word.
    pub kind: String,
    /// What it is called.
    pub title: String,
    /// What it does.
    pub description: String,
    /// The module it belongs to.
    pub module: String,
    /// Projected as an MCP tool.
    pub mcp: bool,
    /// Projected as an HTTP route.
    pub http: bool,
    /// Projected as a command.
    pub cli: bool,
    /// Where it was declared.
    pub provenance: Provenance,
    /// Whether its cache policy keeps something.
    pub cached: bool,
}

/// Where the explorer lives.
pub const BASE: &'static str = "/cockpit/capabilities";

// ------------------------------------------------------------------ the filters

/// Whether a text holds another.
pub open spec fn has_text(hay: Seq<char>, needle: Seq<char>) -> bool {
    exists|k: int| 0 <= k && k + needle.len() <= hay.len() && #[trigger] hay.subrange(k, k + needle.len()) == needle
}

/// Does a text hold another?
pub fn contains_text(hay: &str, needle: &str) -> (r: bool)
    ensures
        r == has_text(hay@, needle@),
{
    let h = chars_of(hay);
    let n = chars_of(needle);
    if n.len() > h.len() {
        return false;
    }
    let last = h.len() - n.len();
    let mut k: usize = 0;
    loop
        invariant
            h@ == hay@,
            n@ == needle@,
            n@.len() <= h@.len(),
            last == h@.len() - n@.len(),
            k <= last,
            forall|j: int| 0 <= j < k ==> #[trigger] hay@.subrange(j, j + needle@.len()) != needle@,
        ensures
            forall|j: int| 0 <= j <= last ==> #[trigger] hay@.subrange(j, j + needle@.len()) != needle@,
        decreases last - k,
    {
        let mut i: usize = 0;
        let mut same = true;
        while same && i < n.len()
            invariant
                h@ == hay@,
                n@ == needle@,
                n@.len() <= h@.len(),
                k <= last,
                last == h@.len() - n@.len(),
                i <= n@.len(),
                forall|j: int| 0 <= j < i ==> hay@[k + j] == needle@[j],
                !same ==> i < n@.len() && hay@[k + i] != needle@[i as int],
            decreases n@.len() - i + (if same { 1int } else { 0int }),
        {
            assert(k + i < h@.len());
            assert(h@.len() == h.len());
            let at: usize = k + i;
            if h[at] != n[i] {
                same = false;
            } else {
                i += 1;
            }
        }
        if same {
            assert(hay@.subrange(k as int, k + needle@.len()) =~= needle@);
            return true;
        }
        assert(hay@.subrange(k as int, k + needle@.len())[i as int] != needle@[i as int]);
        if k == last {
            break;
        }
        k += 1;
    }
    assert forall|j: int| 0 <= j && j + needle@.len() <= hay@.len() implies #[trigger] hay@.subrange(
        j,
        j + needle@.len(),
    ) != needle@ by {
        assert(j <= last);
    }
    false
}

/// Whether a capability came from where a source filter asks.
pub open spec fn from_source(p: Provenance, source: Seq<char>) -> bool {
    match p {
        Provenance::Builtin => source == "builtin"@,
        Provenance::Declarative { .. } => source == "declarative"@,
    }
}

/// The search a query asks for, case-folded.
pub open spec fn needle_of(query: Seq<(String, String)>) -> Option<Seq<char>> {
    match param_of(query, "q"@) {
        Some(n) => Some(lowercase_of(n)),
        None => None,
    }
}

/// Whether a capability passes every filter of a query but the module.
pub open spec fn passes_others(c: CapabilityEntry, query: Seq<(String, String)>) -> bool {
    &&& (param_of(query, "kind"@) matches Some(k) ==> c.kind@ == k)
    &&& (param_of(query, "source"@) matches Some(s) ==> from_source(c.provenance, s))
    &&& (needle_of(query) matches Some(n) ==> has_text(lowercase_of(c.id@), n) || has_text(lowercase_of(c.title@), n)
        || has_text(lowercase_of(c.description@), n))
}

/// Whether a capability passes every filter of a query.
pub open spec fn passes(c: CapabilityEntry, query: Seq<(String, String)>) -> bool {
    &&& (param_of(query, "module"@) matches Some(m) ==> c.module@ == m)
    &&& passes_others(c, query)
}

/// The capabilities a query lets through, in the registry's order.
pub open spec fn matching(cs: Seq<CapabilityEntry>, query: Seq<(String, String)>) -> Seq<CapabilityEntry>
    decreases cs.len(),
{
    if cs.len() == 0 {
        seq![]
    } else {
        let before = matching(cs.drop_last(), query);
        if passes(cs.last(), query) {
            before.push(cs.last())
        } else {
            before
        }
    }
}

/// What a query asks of the filters, as the code reads it once.
struct Asked {
    module: Option<String>,
    kind: Option<String>,
    source: Option<String>,
    needle: Option<String>,
}

fn asked(query: &[(String, String)]) -> (r: Asked)
    ensures
        opt_text(r.module) == param_of(query@, "module"@),
        opt_text(r.kind) == param_of(query@, "kind"@),
        opt_text(r.source) == param_of(query@, "source"@),
        opt_text(r.needle) == needle_of(query@),
{
    let needle = match param(query, "q") {
        Some(n) => Some(lowercase(n.as_str())),
        None => None,
    };
    Asked { module: param(query, "module"), kind: param(query, "kind"), source: param(query, "source"), needle }
}

fn passes_others_exec(c: &CapabilityEntry, a: &Asked, query: &[(String, String)]) -> (r: bool)
    requires
        opt_text(a.kind) == param_of(query@, "kind"@),
        opt_text(a.source) == param_of(query@, "source"@),
        opt_text(a.needle) == needle_of(query@),
    ensures
        r == passes_others(*c, query@),
{
    let kind_ok = match &a.kind {
        Some(k) => str_eq(c.kind.as_str(), k.as_str()),
        None => true,
    };
    let source_ok = match &a.source {
        Some(s) => match &c.provenance {
            Provenance::Builtin => str_eq(s.as_str(), "builtin"),
            Provenance::Declarative { .. } => str_eq(s.as_str(), "declarative"),
        },
        None => true,
    };
    let needle_ok = match &a.needle {
        Some(n) => {
            let id = lowercase(c.id.as_str());
            let title = lowercase(c.title.as_str());
            let description = lowercase(c.description.as_str());
            contains_text(id.as_str(), n.as_str()) || contains_text(title.as_str(), n.as_str()) || contains_text(
                description.as_str(),
                n.as_str(),
            )
        },
        None => true,
    };
    kind_ok && source_ok && needle_ok
}

// ------------------------------------------------------------------ the modules of what matches

/// Where a module goes in an ordered tally: before the first key that is not less than it.
pub open spec fn slot_of(t: Seq<(Seq<char>, nat)>, m: Seq<char>) -> int
    decreases t.len(),
{
    if t.len() == 0 {
        0
    } else if !text_less(t[0].0, m) {
        0
    } else {
        1 + slot_of(t.drop_first(), m)
    }
}

/// One more capability of a module, counted in an ordered tally.
pub open spec fn bump(t: Seq<(Seq<char>, nat)>, m: Seq<char>) -> Seq<(Seq<char>, nat)> {
    let i = slot_of(t, m);
    if i < t.len() && t[i].0 == m {
        t.update(i, (m, t[i].1 + 1))
    } else {
        t.insert(i, (m, 1))
    }
}

/// The modules of the capabilities that pass every filter but the module, each with how
/// many, in the order of their names.
pub open spec fn per_module(cs: Seq<CapabilityEntry>, query: Seq<(String, String)>) -> Seq<(Seq<char>, nat)>
    decreases cs.len(),
{
    if cs.len() == 0 {
        seq![]
    } else {
        let before = per_module(cs.drop_last(), query);
        if passes_others(cs.last(), query) {
            bump(before, cs.last().module@)
        } else {
            before
        }
    }
}

/// How many capabilities pass every filter but the module.
pub open spec fn others_count(cs: Seq<CapabilityEntry>, query: Seq<(String, String)>) -> nat
    decreases cs.len(),
{
    if cs.len() == 0 {
        0
    } else {
        others_count(cs.drop_last(), query) + if passes_others(cs.last(), query) {
            1nat
        } else {
            0nat
        }
    }
}

proof fn lemma_slot(t: Seq<(Seq<char>, nat)>, m: Seq<char>, i: int)
    requires
        0 <= i <= t.len(),
        forall|j: int| 0 <= j < i ==> text_less(#[trigger] t[j].0, m),
        i < t.len() ==> !text_less(t[i].0, m),
    ensures
        slot_of(t, m) == i,
    decreases t.len(),
{
    if t.len() > 0 && i > 0 {
        assert forall|j: int| 0 <= j < i - 1 implies text_less(#[trigger] t.drop_first()[j].0, m) by {
            assert(t.drop_first()[j] == t[j + 1]);
        }
        lemma_slot(t.drop_first(), m, i - 1);
    }
}

/// The counts of a tally, as text.
pub open spec fn tally_views(t: Seq<(String, usize)>) -> Seq<(Seq<char>, nat)> {
    t.map_values(|e: (String, usize)| (e.0@, e.1 as nat))
}

fn count_module(t: &mut Vec<(String, usize)>, m: &str, limit: usize)
    requires
        limit >= 1,
        forall|k: int| 0 <= k < old(t)@.len() ==> (#[trigger] old(t)@[k]).1 < limit,
    ensures
        tally_views(final(t)@) == bump(tally_views(old(t)@), m@),
        forall|k: int| 0 <= k < final(t)@.len() ==> (#[trigger] final(t)@[k]).1 <= limit,
{
    let ghost v = tally_views(t@);
    let mut i: usize = 0;
    while i < t.len() && text_before(t[i].0.as_str(), m)
        invariant
            v == tally_views(t@),
            i <= t@.len(),
            forall|j: int| 0 <= j < i ==> text_less(#[trigger] v[j].0, m@),
        decreases t@.len() - i,
    {
        i += 1;
    }
    proof {
        lemma_slot(v, m@, i as int);
    }
    if i < t.len() && str_eq(t[i].0.as_str(), m) {
        let n = t[i].1;
        let ghost before = t@;
        t.set(i, (String::from_str(m), n + 1));
        assert(tally_views(t@) =~= v.update(i as int, (m@, v[i as int].1 + 1)));
        assert forall|k: int| 0 <= k < t@.len() implies (#[trigger] t@[k]).1 <= limit by {
            if k != i {
                assert(t@[k] == before[k]);
            }
        }
    } else {
        let ghost before = t@;
        t.insert(i, (String::from_str(m), 1));
        assert(tally_views(t@) =~= v.insert(i as int, (m@, 1)));
        assert forall|k: int| 0 <= k < t@.len() implies (#[trigger] t@[k]).1 <= limit by {
            if k < i {
                assert(t@[k] == before[k]);
            } else if k > i {
                assert(t@[k] == before[k - 1]);
            }
        }
    }
}

// ------------------------------------------------------------------ the rows

/// Which projections a capability declares, as short marks.
pub open spec fn marks_of(c: CapabilityEntry) -> ElementModel {
    let s = classed("span"@, "mj-marks"@);
    let s = if c.mcp {
        holding(s, tag_model("MCP"@))
    } else {
        s
    };
    let s = if c.http {
        holding(s, tag_model("HTTP"@))
    } else {
        s
    };
    let s = if c.cli {
        holding(s, tag_model("CLI"@))
    } else {
        s
    };
    if !c.mcp && !c.http && !c.cli {
        holding(s, tag_model("none"@))
    } else {
        s
    }
}

/// Where a capability came from: declared, or generated when its file is under the
/// directory the generator writes, and cached when its cache policy keeps something.
pub open spec fn provenance_of(c: CapabilityEntry, out_dir: Seq<char>) -> ElementModel {
    let s = classed("span"@, "mj-marks"@);
    let s = match c.provenance {
        Provenance::Builtin => holding(s, badge_model("declared"@, "declared"@)),
        Provenance::Declarative { path } => if starts(path@, out_dir) {
            holding(s, badge_model("generated"@, "generated"@))
        } else {
            holding(s, badge_model("declared"@, "declared"@))
        },
    };
    if c.cached {
        holding(s, badge_model("cached"@, "cached"@))
    } else {
        s
    }
}

/// The row of one capability.
pub open spec fn capability_row(c: CapabilityEntry, out_dir: Seq<char>) -> NodeModel {
    NodeModel::Element(
        ElementModel {
            children: seq![
                NodeModel::Element(id_cell_model("/cockpit/capabilities/"@ + percent_encoded(c.id@), c.id@)),
                cell_of(badge_model(c.kind@, c.kind@)),
                NodeModel::Element(saying(bare("td"@), c.title@)),
                cell_of(mono_model(c.module@)),
                cell_of(marks_of(c)),
                cell_of(provenance_of(c, out_dir)),
            ],
            ..bare("tr"@)
        },
    )
}

fn capability_row_el(c: &CapabilityEntry, out_dir: &str) -> (r: El)
    ensures
        NodeModel::Element(r@) == capability_row(*c, out_dir@),
{
    let mut href = String::from_str("/cockpit/capabilities/");
    push_str(&mut href, percent_encode(c.id.as_str()).as_str());
    let mut marks = el("span").class("mj-marks");
    if c.mcp {
        marks = marks.child(tag("MCP"));
    }
    if c.http {
        marks = marks.child(tag("HTTP"));
    }
    if c.cli {
        marks = marks.child(tag("CLI"));
    }
    if !c.mcp && !c.http && !c.cli {
        marks = marks.child(tag("none"));
    }
    let mut origin = el("span").class("mj-marks");
    origin = match &c.provenance {
        Provenance::Builtin => origin.child(badge("declared", "declared")),
        Provenance::Declarative { path } => if starts_with(path.as_str(), out_dir) {
            origin.child(badge("generated", "generated"))
        } else {
            origin.child(badge("declared", "declared"))
        },
    };
    if c.cached {
        origin = origin.child(badge("cached", "cached"));
    }
    let mut cells: Vec<El> = Vec::new();
    cells.push(id_cell(href.as_str(), c.id.as_str()));
    cells.push(cell(badge(c.kind.as_str(), c.kind.as_str())));
    cells.push(text_cell(c.title.as_str()));
    cells.push(cell(mono(c.module.as_str())));
    cells.push(cell(marks));
    cells.push(cell(origin));
    let r = row(cells);
    assert(els_model(cells@) =~= match capability_row(*c, out_dir@) {
        NodeModel::Element(x) => x.children,
        _ => seq![],
    });
    r
}

// ------------------------------------------------------------------ the addresses

/// The pairs of a query that a link keeps: those with a value, whose key is not among the
/// ones it sets.
pub open spec fn kept_without(query: Seq<(String, String)>, keys: Seq<Seq<char>>) -> Seq<(Seq<char>, Seq<char>)>
    decreases query.len(),
{
    if query.len() == 0 {
        seq![]
    } else {
        let rest = kept_without(query.drop_last(), keys);
        let (k, v) = query.last();
        if v@.len() > 0 && !keys.contains(k@) {
            rest.push((k@, v@))
        } else {
            rest
        }
    }
}

proof fn lemma_kept(query: Seq<(String, String)>, set: Seq<(&str, Option<&str>)>, keys: Seq<Seq<char>>)
    requires
        forall|k: Seq<char>| #[trigger] overridden(set, k) == keys.contains(k),
    ensures
        kept_pairs(query, set) == kept_without(query, keys),
    decreases query.len(),
{
    if query.len() > 0 {
        lemma_kept(query.drop_last(), set, keys);
        let _ = overridden(set, query.last().0@);
    }
}

/// The address of one page of a listing, its filters kept.
pub open spec fn page_link(query: Seq<(String, String)>, n: usize) -> Seq<char> {
    super::pages::href_text(BASE@, kept_without(query, seq!["page"@]) + seq![("page"@, decimal_of(n as nat))])
}

/// The pages of the explorer, with the filters of a query.
pub struct QueryLinks<'a> {
    /// The query in force.
    pub query: &'a [(String, String)],
}

impl<'a> PageLinks for QueryLinks<'a> {
    open spec fn link(&self, n: usize) -> Seq<char> {
        page_link(self.query@, n)
    }

    open spec fn answers(&self, n: usize) -> bool {
        true
    }

    fn href(&self, n: usize) -> (r: String) {
        let number = decimal(n);
        let set = [("page", Some(number.as_str()))];
        proof {
            assert forall|k: Seq<char>| #[trigger] overridden(set@, k) == seq!["page"@].contains(k) by {
                if overridden(set@, k) {
                    let j = choose|j: int| 0 <= j < set@.len() && set@[j].0@ == k;
                    assert(seq!["page"@][0] == k);
                }
                if seq!["page"@].contains(k) {
                    assert(set@[0].0@ == k);
                }
            }
            lemma_kept(self.query@, set@, seq!["page"@]);
            assert(set_pairs(set@.drop_last()) =~= Seq::<(Seq<char>, Seq<char>)>::empty());
            assert(set_pairs(set@) =~= seq![("page"@, decimal_of(n as nat))]);
        }
        href_with(BASE, self.query, &set)
    }
}

/// The address of the explorer with its module filter set, or dropped, and its page reset.
pub open spec fn module_link(query: Seq<(String, String)>, module: Option<Seq<char>>) -> Seq<char> {
    let kept = kept_without(query, seq!["module"@, "page"@]);
    match module {
        Some(m) => super::pages::href_text(BASE@, kept + seq![("module"@, m)]),
        None => super::pages::href_text(BASE@, kept),
    }
}

fn module_href(query: &[(String, String)], module: Option<&str>) -> (r: String)
    ensures
        r@ == module_link(
            query@,
            match module {
                Some(m) => Some(m@),
                None => None,
            },
        ),
{
    let set = [("module", module), ("page", None)];
    let ghost keys = seq!["module"@, "page"@];
    proof {
        assert forall|k: Seq<char>| #[trigger] overridden(set@, k) == keys.contains(k) by {
            if overridden(set@, k) {
                let j = choose|j: int| 0 <= j < set@.len() && set@[j].0@ == k;
                if j == 0 {
                    assert(keys[0] == k);
                } else {
                    assert(keys[1] == k);
                }
            }
            if keys.contains(k) {
                let i = choose|i: int| 0 <= i < keys.len() && keys[i] == k;
                if i == 0 {
                    assert(set@[0].0@ == k);
                } else {
                    assert(set@[1].0@ == k);
                }
            }
        }
        lemma_kept(query@, set@, keys);
        assert(set_pairs(set@.drop_last().drop_last()) =~= Seq::<(Seq<char>, Seq<char>)>::empty());
        assert(set_pairs(set@.drop_last()) == match module {
            Some(m) => seq![("module"@, m@)],
            None => Seq::<(Seq<char>, Seq<char>)>::empty(),
        }) by {
            let d = set@.drop_last();
            assert(d.drop_last() =~= set@.drop_last().drop_last());
            match module {
                Some(m) => {
                    assert(set_pairs(d) =~= set_pairs(d.drop_last()).push(("module"@, m@)));
                },
                None => {},
            }
        }
        assert(set_pairs(set@) == set_pairs(set@.drop_last()));
        match module {
            Some(m) => {
                assert(kept_without(query@, keys) + set_pairs(set@) =~= kept_without(query@, keys) + seq![("module"@, m@)]);
            },
            None => {
                assert(kept_without(query@, keys) + set_pairs(set@) =~= kept_without(query@, keys));
            },
        }
    }
    href_with(BASE, query, &set)
}

// ------------------------------------------------------------------ the page

/// The way into what matches: every module of it, with how many, and all of them.
pub open spec fn chip_entries(cs: Seq<CapabilityEntry>, query: Seq<(String, String)>) -> Seq<(Seq<char>, Seq<char>, usize, bool)> {
    let module = param_of(query, "module"@);
    seq![("All modules"@, module_link(query, None), others_count(cs, query) as usize, module is None)]
        + per_module(cs, query).map_values(
        |e: (Seq<char>, nat)| (e.0, module_link(query, Some(e.0)), e.1 as usize, module == Some(e.0)),
    )
}

/// The search field.
pub open spec fn search_field(needle: Option<Seq<char>>) -> ElementModel {
    holding(
        holding(classed("label"@, "mj-field"@), saying(classed("span"@, "mj-field-label"@), "Search"@)),
        with_attr(
            with_attr(
                with_attr(with_attr(classed("input"@, "mj-input"@), "type"@, "search"@), "name"@, "q"@),
                "value"@,
                match needle {
                    Some(n) => n,
                    None => ""@,
                },
            ),
            "placeholder"@,
            "id, title or description"@,
        ),
    )
}

/// The options of the module filter: every module of the registry.
pub open spec fn module_options(modules: Seq<String>) -> Seq<(Seq<char>, Seq<char>)> {
    modules.map_values(|m: String| (m@, m@))
}

/// The filters form.
pub open spec fn filters_model(query: Seq<(String, String)>, modules: Seq<String>) -> ElementModel {
    let f = with_attr(
        with_attr(with_attr(classed("form"@, "mj-filters"@), "method"@, "get"@), "action"@, BASE@),
        "role"@,
        "search"@,
    );
    let f = holding(f, search_field(needle_of(query)));
    let f = holding(f, select_model("module"@, "Module"@, param_of(query, "module"@), module_options(modules)));
    let f = holding(
        f,
        select_model(
            "kind"@,
            "Kind"@,
            param_of(query, "kind"@),
            seq![("query"@, "query"@), ("command"@, "command"@), ("resource"@, "resource"@)],
        ),
    );
    let f = holding(
        f,
        select_model("source"@, "Source"@, param_of(query, "source"@), seq![("builtin"@, "builtin"@), ("declarative"@, "declarative"@)]),
    );
    let f = holding(f, saying(with_attr(classed("button"@, "mj-button"@), "type"@, "submit"@), "Apply"@));
    holding(f, with_attr(link_model(BASE@, "Clear"@), "class"@, "mj-link mj-clear"@))
}

/// The window a listing of this many matches shows for the page a query asks for.
pub open spec fn window_of(total: usize, asked: int) -> Window {
    let pages = pages_of(total as int, PER_PAGE as int);
    Window {
        page: (if asked < 1 {
            1
        } else if asked > pages {
            pages
        } else {
            asked
        }) as usize,
        per_page: PER_PAGE,
        total,
    }
}

/// The listing: the rows of the window, and the way to the other pages; or that nothing
/// matches.
pub open spec fn listing_model(
    cs: Seq<CapabilityEntry>,
    query: Seq<(String, String)>,
    out_dir: Seq<char>,
) -> ElementModel {
    let m = matching(cs, query);
    let w = window_of(m.len() as usize, asked_page_of(query));
    let start = (w.page - 1) * PER_PAGE;
    let end = if start + PER_PAGE < m.len() {
        start + PER_PAGE
    } else {
        m.len() as int
    };
    let rows = m.subrange(start, end).map_values(|c: CapabilityEntry| capability_row(c, out_dir));
    if rows.len() == 0 {
        saying(classed("p"@, "mj-empty"@), "No capability matches these filters."@)
    } else {
        holding(
            holding(
                bare("div"@),
                table_model(seq!["Id"@, "Kind"@, "Title"@, "Module"@, "Projections"@, "Provenance"@], rows),
            ),
            pagination_of(w, |n: usize| page_link(query, n)),
        )
    }
}

/// The line under the heading.
pub open spec fn explorer_subtitle(shown: nat, all: nat) -> Seq<char> {
    decimal_of(shown) + " of "@ + decimal_of(all)
        + " capabilities. Every one is a canonical declaration; the projections beside it are derived from it."@
}

fn filters(query: &[(String, String)], a: &Asked, modules: &Vec<String>) -> (r: El)
    requires
        opt_text(a.module) == param_of(query@, "module"@),
        opt_text(a.kind) == param_of(query@, "kind"@),
        opt_text(a.source) == param_of(query@, "source"@),
        opt_text(a.needle) == needle_of(query@),
    ensures
        r@ == filters_model(query@, modules@),
{
    let search = el("label").class("mj-field").child(el("span").class("mj-field-label").text("Search")).child(
        el("input").class("mj-input").attr("type", "search").attr("name", "q").attr(
            "value",
            match &a.needle {
                Some(n) => n.as_str(),
                None => "",
            },
        ).attr("placeholder", "id, title or description"),
    );
    let mut options: Vec<(String, String)> = Vec::new();
    for k in 0..modules.len()
        invariant
            super::pages::option_views(options@) == module_options(modules@.take(k as int)),
    {
        let ghost before = options@;
        options.push((String::from_str(modules[k].as_str()), String::from_str(modules[k].as_str())));
        assert(modules@.take(k + 1) =~= modules@.take(k as int).push(modules@[k as int]));
        assert(super::pages::option_views(options@) =~= super::pages::option_views(before).push(
            (modules@[k as int]@, modules@[k as int]@),
        ));
        assert(super::pages::option_views(options@) =~= module_options(modules@.take(k + 1)));
    }
    assert(modules@.take(modules@.len() as int) =~= modules@);
    let mut kinds: Vec<(String, String)> = Vec::new();
    kinds.push((String::from_str("query"), String::from_str("query")));
    kinds.push((String::from_str("command"), String::from_str("command")));
    kinds.push((String::from_str("resource"), String::from_str("resource")));
    assert(super::pages::option_views(kinds@) =~= seq![("query"@, "query"@), ("command"@, "command"@), ("resource"@, "resource"@)]);
    let mut sources: Vec<(String, String)> = Vec::new();
    sources.push((String::from_str("builtin"), String::from_str("builtin")));
    sources.push((String::from_str("declarative"), String::from_str("declarative")));
    assert(super::pages::option_views(sources@) =~= seq![("builtin"@, "builtin"@), ("declarative"@, "declarative"@)]);
    let module = match &a.module {
        Some(m) => Some(m.as_str()),
        None => None,
    };
    let kind = match &a.kind {
        Some(k) => Some(k.as_str()),
        None => None,
    };
    let source = match &a.source {
        Some(x) => Some(x.as_str()),
        None => None,
    };
    el("form").class("mj-filters").attr("method", "get").attr("action", BASE).attr("role", "search").child(search).child(
        select("module", "Module", module, options),
    ).child(select("kind", "Kind", kind, kinds)).child(select("source", "Source", source, sources)).child(
        el("button").class("mj-button").attr("type", "submit").text("Apply"),
    ).child(link(BASE, "Clear").class("mj-link mj-clear"))
}

/// What a scan of the registry found: what matches, the tally of the modules, and how
/// many pass every filter but the module.
fn scan<'a>(cs: &'a Vec<CapabilityEntry>, a: &Asked, query: &[(String, String)]) -> (r: (
    Vec<&'a CapabilityEntry>,
    Vec<(String, usize)>,
    usize,
))
    requires
        opt_text(a.module) == param_of(query@, "module"@),
        opt_text(a.kind) == param_of(query@, "kind"@),
        opt_text(a.source) == param_of(query@, "source"@),
        opt_text(a.needle) == needle_of(query@),
    ensures
        r.0@.len() == matching(cs@, query@).len(),
        forall|i: int| 0 <= i < r.0@.len() ==> *#[trigger] r.0@[i] == matching(cs@, query@)[i],
        tally_views(r.1@) == per_module(cs@, query@),
        r.2 as nat == others_count(cs@, query@),
        matching(cs@, query@).len() <= cs@.len(),
{
    let mut matched: Vec<&CapabilityEntry> = Vec::new();
    let mut tally: Vec<(String, usize)> = Vec::new();
    let mut others: usize = 0;
    for k in 0..cs.len()
        invariant
            opt_text(a.module) == param_of(query@, "module"@),
            opt_text(a.kind) == param_of(query@, "kind"@),
            opt_text(a.source) == param_of(query@, "source"@),
            opt_text(a.needle) == needle_of(query@),
            matched@.len() == matching(cs@.take(k as int), query@).len(),
            forall|i: int| 0 <= i < matched@.len() ==> *#[trigger] matched@[i] == matching(cs@.take(k as int), query@)[i],
            tally_views(tally@) == per_module(cs@.take(k as int), query@),
            forall|i: int| 0 <= i < tally@.len() ==> (#[trigger] tally@[i]).1 <= k,
            others as nat == others_count(cs@.take(k as int), query@),
            others <= k,
            matching(cs@.take(k as int), query@).len() <= k,
    {
        let c = &cs[k];
        proof {
            assert(cs@.take(k + 1).drop_last() =~= cs@.take(k as int));
            assert(cs@.take(k + 1).last() == cs@[k as int]);
        }
        let pass_others = passes_others_exec(c, a, query);
        let module_ok = match &a.module {
            Some(m) => str_eq(c.module.as_str(), m.as_str()),
            None => true,
        };
        if pass_others {
            count_module(&mut tally, c.module.as_str(), k + 1);
            others += 1;
        }
        if pass_others && module_ok {
            matched.push(c);
        }
    }
    assert(cs@.take(cs@.len() as int) =~= cs@);
    (matched, tally, others)
}

fn browse(
    query: &[(String, String)],
    module: &Option<String>,
    tally: &Vec<(String, usize)>,
    others: usize,
    Ghost(cs): Ghost<Seq<CapabilityEntry>>,
) -> (r: El)
    requires
        opt_text(*module) == param_of(query@, "module"@),
        tally_views(tally@) == per_module(cs, query@),
        others as nat == others_count(cs, query@),
    ensures
        r@ == chips_model(chip_entries(cs, query@)),
{
    let mut items: Vec<(String, String, usize, bool)> = Vec::new();
    items.push((String::from_str("All modules"), module_href(query, None), others, module.is_none()));
    assert(chip_items(items@) =~= chip_entries(cs, query@).take(1));
    for k in 0..tally.len()
        invariant
            opt_text(*module) == param_of(query@, "module"@),
            items@.len() == k + 1,
            chip_items(items@) == chip_entries(cs, query@).take(k + 1),
            tally_views(tally@) == per_module(cs, query@),
    {
        let name = &tally[k].0;
        let count = tally[k].1;
        let current = match module {
            Some(x) => str_eq(x.as_str(), name.as_str()),
            None => false,
        };
        let ghost before = items@;
        items.push((String::from_str(name.as_str()), module_href(query, Some(name.as_str())), count, current));
        proof {
            let e = chip_entries(cs, query@);
            assert(per_module(cs, query@)[k as int] == tally_views(tally@)[k as int]);
            assert(e[k + 1] == (name@, module_link(query@, Some(name@)), count, current));
            assert(chip_items(items@) =~= chip_items(before).push(e[k + 1]));
            assert(e.take(k + 2) =~= e.take(k + 1).push(e[k + 1]));
        }
    }
    proof {
        assert(chip_entries(cs, query@).take(tally@.len() + 1 as int) =~= chip_entries(cs, query@));
    }
    chips(items)
}

fn listing(
    matched: &Vec<&CapabilityEntry>,
    query: &[(String, String)],
    out_dir: &str,
    Ghost(cs): Ghost<Seq<CapabilityEntry>>,
) -> (r: El)
    requires
        matched@.len() == matching(cs, query@).len(),
        forall|i: int| 0 <= i < matched@.len() ==> *#[trigger] matched@[i] == matching(cs, query@)[i],
        matched@.len() + PER_PAGE <= usize::MAX,
    ensures
        r@ == listing_model(cs, query@, out_dir@),
{
    let ghost m = matching(cs, query@);
    let w = Window::new(asked_page(query), PER_PAGE, matched.len());
    proof {
        assert(w == window_of(matched@.len() as usize, asked_page_of(query@)));
        super::view::law_window_range_is_inside_the_result_set(w.page, w.per_page, w.total);
        assert(w.page * w.per_page <= w.total + w.per_page) by (nonlinear_arith)
            requires
                (w.page - 1) * w.per_page <= w.total,
                w.per_page == 50,
        ;
    }
    let range = w.range();
    let mut rows: Vec<El> = Vec::new();
    let mut i = range.start;
    while i < range.end
        invariant
            range.start <= i <= range.end,
            range.end <= matched@.len(),
            matched@.len() == m.len(),
            forall|j: int| 0 <= j < matched@.len() ==> *#[trigger] matched@[j] == m[j],
            rows@.len() == i - range.start,
            forall|j: int|
                0 <= j < rows@.len() ==> NodeModel::Element((#[trigger] rows@[j])@) == capability_row(
                    m[range.start + j],
                    out_dir@,
                ),
        decreases range.end - i,
    {
        rows.push(capability_row_el(matched[i], out_dir));
        i += 1;
    }
    assert(els_model(rows@) =~= m.subrange(range.start as int, range.end as int).map_values(
        |c: CapabilityEntry| capability_row(c, out_dir@),
    ));
    if rows.len() == 0 {
        nothing("No capability matches these filters.")
    } else {
        let headers = ["Id", "Kind", "Title", "Module", "Projections", "Provenance"];
        proof {
            assert(strs_model(headers@) =~= seq!["Id"@, "Kind"@, "Title"@, "Module"@, "Projections"@, "Provenance"@]);
        }
        let links = QueryLinks { query };
        let pages = paginate(w, &links);
        assert((|n: usize| links.link(n)) =~= (|n: usize| page_link(query@, n)));
        el("div").child(table(&headers, rows)).child(pages)
    }
}

/// The capability explorer. `registry` is every capability, in the registry's order;
/// `modules` the registry's modules, for the module filter; `out_dir` where the generator
/// writes, which is what makes a declaration generated rather than declared.
pub fn capabilities(
    query: &[(String, String)],
    registry: &Vec<CapabilityEntry>,
    modules: &Vec<String>,
    out_dir: &str,
) -> (r: Page)
    requires
        registry@.len() + PER_PAGE <= usize::MAX,
    ensures
        r.area == Area::Capabilities,
        r.title@ == "Capabilities"@,
        r.main@ == holding(
            holding(holding(bare("div"@), filters_model(query@, modules@)), chips_model(chip_entries(registry@, query@))),
            listing_model(registry@, query@, out_dir@),
        ),
        r.subtitle matches Some(s) && s@ == explorer_subtitle(matching(registry@, query@).len(), registry@.len()),
        trail_views(r.breadcrumbs@) == seq![("Cockpit"@, Some("/cockpit"@)), ("Capabilities"@, None::<Seq<char>>)],
        r.status == 200,
        r.scripts@.len() == 0,
{
    let a = asked(query);
    let (matched, tally, others) = scan(registry, &a, query);
    let ways_in = browse(query, &a.module, &tally, others, Ghost(registry@));
    let body = listing(&matched, query, out_dir, Ghost(registry@));
    let mut subtitle = decimal(matched.len());
    push_str(&mut subtitle, " of ");
    push_str(&mut subtitle, decimal(registry.len()).as_str());
    push_str(
        &mut subtitle,
        " capabilities. Every one is a canonical declaration; the projections beside it are derived from it.",
    );
    let main = el("div").child(filters(query, &a, modules)).child(ways_in).child(body);
    let mut trail: Vec<(&str, Option<&str>)> = Vec::new();
    trail.push(("Cockpit", Some("/cockpit")));
    trail.push(("Capabilities", None));
    assert(given_trail(trail@) =~= seq![("Cockpit"@, Some("/cockpit"@)), ("Capabilities"@, None::<Seq<char>>)]);
    Page::new(Area::Capabilities, "Capabilities", main).subtitle(subtitle.as_str()).trail(trail)
}

// ------------------------------------------------------------------ laws

/// The counts of a tally, added up.
pub open spec fn sum_counts(t: Seq<(Seq<char>, nat)>) -> nat
    decreases t.len(),
{
    if t.len() == 0 {
        0
    } else {
        t[0].1 + sum_counts(t.drop_first())
    }
}

proof fn lemma_sum_update(t: Seq<(Seq<char>, nat)>, i: int, e: (Seq<char>, nat))
    requires
        0 <= i < t.len(),
    ensures
        sum_counts(t.update(i, e)) + t[i].1 == sum_counts(t) + e.1,
    decreases t.len(),
{
    if i > 0 {
        lemma_sum_update(t.drop_first(), i - 1, e);
        assert(t.update(i, e).drop_first() =~= t.drop_first().update(i - 1, e));
    } else {
        assert(t.update(i, e).drop_first() =~= t.drop_first());
    }
}

proof fn lemma_sum_insert(t: Seq<(Seq<char>, nat)>, i: int, e: (Seq<char>, nat))
    requires
        0 <= i <= t.len(),
    ensures
        sum_counts(t.insert(i, e)) == sum_counts(t) + e.1,
    decreases t.len(),
{
    if i > 0 {
        lemma_sum_insert(t.drop_first(), i - 1, e);
        assert(t.insert(i, e).drop_first() =~= t.drop_first().insert(i - 1, e));
    } else {
        assert(t.insert(i, e).drop_first() =~= t);
    }
}

proof fn lemma_slot_bounds(t: Seq<(Seq<char>, nat)>, m: Seq<char>)
    ensures
        0 <= slot_of(t, m) <= t.len(),
        forall|j: int| 0 <= j < slot_of(t, m) ==> text_less(#[trigger] t[j].0, m),
        slot_of(t, m) < t.len() ==> !text_less(t[slot_of(t, m)].0, m),
    decreases t.len(),
{
    if t.len() > 0 && text_less(t[0].0, m) {
        lemma_slot_bounds(t.drop_first(), m);
        assert forall|j: int| 0 <= j < slot_of(t, m) implies text_less(#[trigger] t[j].0, m) by {
            if j > 0 {
                assert(t[j] == t.drop_first()[j - 1]);
            }
        }
    }
}

/// The modules of what matches, counted, add up to how many capabilities match every
/// filter but the module: the count of all modules is the sum of its parts.
pub proof fn law_the_module_counts_add_up(cs: Seq<CapabilityEntry>, query: Seq<(String, String)>)
    ensures
        sum_counts(per_module(cs, query)) == others_count(cs, query),
    decreases cs.len(),
{
    if cs.len() > 0 {
        law_the_module_counts_add_up(cs.drop_last(), query);
        if passes_others(cs.last(), query) {
            let t = per_module(cs.drop_last(), query);
            let m = cs.last().module@;
            let i = slot_of(t, m);
            lemma_slot_bounds(t, m);
            if i < t.len() && t[i].0 == m {
                lemma_sum_update(t, i, (m, t[i].1 + 1));
            } else {
                lemma_sum_insert(t, i, (m, 1));
            }
        }
    }
}

/// Keys in strictly increasing order.
pub open spec fn strictly_ordered(t: Seq<(Seq<char>, nat)>) -> bool {
    forall|i: int, j: int| 0 <= i < j < t.len() ==> text_less(#[trigger] t[i].0, #[trigger] t[j].0)
}

/// The modules of what matches come each once, in the order of their names.
pub proof fn law_the_modules_come_once_in_name_order(cs: Seq<CapabilityEntry>, query: Seq<(String, String)>)
    ensures
        strictly_ordered(per_module(cs, query)),
    decreases cs.len(),
{
    if cs.len() > 0 {
        law_the_modules_come_once_in_name_order(cs.drop_last(), query);
        if passes_others(cs.last(), query) {
            let t = per_module(cs.drop_last(), query);
            let m = cs.last().module@;
            let i = slot_of(t, m);
            lemma_slot_bounds(t, m);
            if i < t.len() && t[i].0 == m {
                let u = t.update(i, (m, t[i].1 + 1));
                assert forall|a: int, b: int| 0 <= a < b < u.len() implies text_less(#[trigger] u[a].0, #[trigger] u[b].0) by {
                    assert(u[a].0 == t[a].0 && u[b].0 == t[b].0);
                }
            } else {
                let u = t.insert(i, (m, 1));
                if i < t.len() {
                    crate::command::projection::lemma_text_less_total(t[i].0, m);
                }
                assert forall|a: int, b: int| 0 <= a < b < u.len() implies text_less(#[trigger] u[a].0, #[trigger] u[b].0) by {
                    if b < i {
                        assert(u[a] == t[a] && u[b] == t[b]);
                    } else if b == i {
                        assert(u[a] == t[a] && u[b].0 == m);
                    } else if a == i {
                        assert(u[b] == t[b - 1]);
                        if b - 1 > i {
                            assert(text_less(t[i].0, t[b - 1].0));
                            crate::command::projection::lemma_text_less_transitive(m, t[i].0, t[b - 1].0);
                        }
                    } else if a < i {
                        assert(u[a] == t[a] && u[b] == t[b - 1]);
                        if a < b - 1 {
                            assert(text_less(t[a].0, t[b - 1].0));
                        }
                    } else {
                        assert(u[a] == t[a - 1] && u[b] == t[b - 1]);
                    }
                }
            }
        }
    }
}

} // verus!
