//! Navigation, derived. The sidebar's catalogues are not a list in this file: the
//! capability modules come from the registry, the object kinds from what the layer holds,
//! and the graphs from the derivations. What *is* written here is the areas, which are
//! concepts rather than entities.
//!
//! Every section is presented in the canonical order, whatever order it was built in, so
//! a section added later is ordered without being told to be.

use vstd::prelude::*;

use crate::command::projection::{is_hit, is_rearrangement};
use crate::order::{lemma_natural_rank_antisymmetric, natural_compare, natural_rank};
use crate::strings::{push_str, str_eq};
use crate::url::{percent_encode, percent_encoded};

verus! {

/// One of the Cockpit's areas. A page declares the area it belongs to and the navigation
/// marks it.
#[derive(Debug, Clone, Copy, PartialEq, Eq, Structural)]
pub enum Area {
    /// The landing page.
    Overview,
    /// The capability explorer and the runner.
    Capabilities,
    /// Every command of every program here, and where each one is projected.
    Commands,
    /// The declarative objects of the layer.
    Objects,
    /// The layer's directory contracts and their hierarchy.
    Directories,
    /// The derived graphs.
    Graphs,
    /// The executions this process is running and remembers.
    Executions,
    /// What this checkout's lifecycle is holding.
    Continuity,
    /// The branch-to-worktree topology of the repository.
    Worktrees,
    /// The discovered nodes of the mesh, and the machinery that observes them.
    Mesh,
    /// The declared model catalogue and its routing.
    Models,
    /// Token economics, measured.
    Economics,
    /// The health report.
    Health,
    /// What the crate's own public surface is held to.
    Quality,
    /// What the generator writes.
    Artifacts,
    /// What the public contract did since the last release.
    Release,
    /// The design system: what every surface of this tool is rendered with.
    Design,
    /// The HTTP and MCP surfaces.
    Api,
    /// Who else is working in this repository. Its page is reached from the sessions it
    /// lists; the sidebar lists no entry of its own.
    Board,
    /// The plan: its milestones and issues. Its pages are reached from the work they list;
    /// the sidebar lists no entry of its own.
    Plan,
    /// What must become true, and how far reality is from it. Its pages are reached from
    /// the plan and from an object's links; the sidebar lists no entry of its own.
    Intents,
    /// Whether every concept has one canonical source of truth. Its pages are reached from
    /// the knowledge pages; the sidebar lists no entry of its own.
    Integrity,
    /// Every open episode of this repository's session store. Its page is reached from the
    /// continuity page; the sidebar lists no entry of its own.
    Sessions,
    /// A page that belongs to no area (search results, an error).
    NoArea,
}

/// One of the Cockpit's areas as data: what a person sees, where it goes, and the area it
/// marks.
#[derive(Debug, Clone, Copy, PartialEq, Eq)]
pub struct AreaInfo {
    /// The id a feature names it by: the last segment of its route.
    pub id: &'static str,
    /// What the reader sees.
    pub label: &'static str,
    /// Where it goes.
    pub href: &'static str,
    /// The area it marks.
    pub area: Area,
}

/// The areas, as id, label, route and area.
pub open spec fn area_table() -> Seq<(Seq<char>, Seq<char>, Seq<char>, Area)> {
    seq![
        ("overview"@, "Overview"@, "/cockpit"@, Area::Overview),
        ("capabilities"@, "Capabilities"@, "/cockpit/capabilities"@, Area::Capabilities),
        ("commands"@, "Commands"@, "/cockpit/commands"@, Area::Commands),
        ("executions"@, "Executions"@, "/cockpit/executions"@, Area::Executions),
        ("objects"@, "Objects"@, "/cockpit/objects"@, Area::Objects),
        ("directories"@, "Directories"@, "/cockpit/directories"@, Area::Directories),
        ("graphs"@, "Graphs"@, "/cockpit/graphs"@, Area::Graphs),
        ("continuity"@, "Continuity"@, "/cockpit/continuity"@, Area::Continuity),
        ("worktrees"@, "Worktrees"@, "/cockpit/worktrees"@, Area::Worktrees),
        ("health"@, "Health"@, "/cockpit/health"@, Area::Health),
        ("quality"@, "Quality"@, "/cockpit/quality"@, Area::Quality),
        ("artifacts"@, "Artifacts"@, "/cockpit/artifacts"@, Area::Artifacts),
        ("design"@, "Design"@, "/cockpit/design"@, Area::Design),
        ("api"@, "API"@, "/cockpit/api"@, Area::Api),
    ]
}

/// The model of some area entries.
pub open spec fn area_infos(s: Seq<AreaInfo>) -> Seq<(Seq<char>, Seq<char>, Seq<char>, Area)> {
    s.map_values(|a: AreaInfo| (a.id@, a.label@, a.href@, a.area))
}

fn info(id: &'static str, label: &'static str, href: &'static str, area: Area) -> (r: AreaInfo)
    ensures
        r.id == id,
        r.label == label,
        r.href == href,
        r.area == area,
{
    AreaInfo { id, label, href, area }
}

/// The areas. Written here because they are concepts rather than entities; every catalogue
/// under them is derived. Not the order the sidebar shows them in: [`build`] puts every
/// section through the canonical order.
pub fn areas() -> (r: Vec<AreaInfo>)
    ensures
        area_infos(r@) == area_table(),
{
    let mut v: Vec<AreaInfo> = Vec::new();
    v.push(info("overview", "Overview", "/cockpit", Area::Overview));
    v.push(info("capabilities", "Capabilities", "/cockpit/capabilities", Area::Capabilities));
    v.push(info("commands", "Commands", "/cockpit/commands", Area::Commands));
    v.push(info("executions", "Executions", "/cockpit/executions", Area::Executions));
    v.push(info("objects", "Objects", "/cockpit/objects", Area::Objects));
    v.push(info("directories", "Directories", "/cockpit/directories", Area::Directories));
    v.push(info("graphs", "Graphs", "/cockpit/graphs", Area::Graphs));
    v.push(info("continuity", "Continuity", "/cockpit/continuity", Area::Continuity));
    v.push(info("worktrees", "Worktrees", "/cockpit/worktrees", Area::Worktrees));
    v.push(info("health", "Health", "/cockpit/health", Area::Health));
    v.push(info("quality", "Quality", "/cockpit/quality", Area::Quality));
    v.push(info("artifacts", "Artifacts", "/cockpit/artifacts", Area::Artifacts));
    v.push(info("design", "Design", "/cockpit/design", Area::Design));
    v.push(info("api", "API", "/cockpit/api", Area::Api));
    assert(area_infos(v@) =~= area_table());
    v
}

/// One entry.
#[derive(Debug)]
pub struct Item {
    /// What the reader sees.
    pub label: String,
    /// Where it goes.
    pub href: String,
    /// The area it belongs to.
    pub area: Area,
    /// The heading it sits under inside its section, when the section is grouped.
    pub group: Option<String>,
    /// How many things are behind it, when the number is a fact and not decoration.
    pub count: Option<usize>,
    /// Whether this is the page being shown.
    pub current: bool,
}

/// A heading and its entries.
#[derive(Debug)]
pub struct Section {
    /// The heading.
    pub title: String,
    /// The entries, in a deterministic order.
    pub items: Vec<Item>,
}

/// The whole navigation for one request.
#[derive(Debug)]
pub struct Navigation {
    sections: Vec<Section>,
}

impl Navigation {
    /// The sections the navigation holds, as the contracts see them.
    pub closed spec fn spec_sections(&self) -> Seq<Section> {
        self.sections@
    }

    /// The sections, in order.
    pub fn sections(&self) -> (r: &[Section])
        ensures
            r@ == self.spec_sections(),
    {
        self.sections.as_slice()
    }
}

// ------------------------------------------------------------------ what the catalogues hold

/// A capability module as the registry composes it.
#[derive(Debug, Clone, PartialEq, Eq)]
pub struct ModuleEntry {
    /// The module's identity.
    pub id: String,
    /// What a reader sees.
    pub title: String,
    /// How many capabilities it holds.
    pub capabilities: usize,
    /// Whether it was composed from declarations rather than built in.
    pub declarative: bool,
    /// The heading of the operational area the features that name it serve, when there
    /// is one.
    pub group: Option<String>,
}

/// What the navigation shows of the registry, the layer and the graph derivations: the
/// counts and the catalogues, each already asked for.
#[derive(Debug, Clone, PartialEq, Eq)]
pub struct Catalogue {
    /// How many capabilities the registry holds.
    pub capabilities: usize,
    /// How many HTTP routes they project.
    pub http_routes: usize,
    /// How many objects the layer holds.
    pub objects: usize,
    /// The kinds of the layer, with how many objects of each.
    pub kinds: Vec<(String, usize)>,
    /// The identities of the derived graphs.
    pub graphs: Vec<String>,
    /// The registry's modules.
    pub modules: Vec<ModuleEntry>,
}

/// An entry as the contracts see it.
pub struct ItemModel {
    /// What the reader sees.
    pub label: Seq<char>,
    /// Where it goes.
    pub href: Seq<char>,
    /// The area it belongs to.
    pub area: Area,
    /// Its heading inside its section.
    pub group: Option<Seq<char>>,
    /// How many things are behind it.
    pub count: Option<usize>,
    /// Whether this is the page being shown.
    pub current: bool,
}

/// An optional text as the contracts see it.
pub open spec fn opt_text(o: Option<String>) -> Option<Seq<char>> {
    match o {
        Some(s) => Some(s@),
        None => None,
    }
}

/// The model of an entry.
pub open spec fn item_model(i: Item) -> ItemModel {
    ItemModel {
        label: i.label@,
        href: i.href@,
        area: i.area,
        group: opt_text(i.group),
        count: i.count,
        current: i.current,
    }
}

/// How many things are behind an area's entry, when the number is a fact of this context.
pub open spec fn area_count(c: Catalogue, a: Area) -> Option<usize> {
    match a {
        Area::Capabilities => Some(c.capabilities),
        Area::Objects => Some(c.objects),
        Area::Graphs => Some(c.graphs@.len() as usize),
        Area::Api => Some(c.http_routes),
        _ => None,
    }
}

/// The entries of the areas, as written.
pub open spec fn area_items(c: Catalogue, here: Seq<char>) -> Seq<ItemModel> {
    area_table().map_values(|a: (Seq<char>, Seq<char>, Seq<char>, Area)| ItemModel {
        label: a.1,
        href: a.2,
        area: a.3,
        group: None,
        count: area_count(c, a.3),
        current: here == a.2,
    })
}

/// The entry of a module.
pub open spec fn module_item(m: ModuleEntry) -> ItemModel {
    ItemModel {
        label: m.title@,
        href: "/cockpit/capabilities?module="@ + percent_encoded(m.id@),
        area: Area::Capabilities,
        group: opt_text(m.group),
        count: Some(m.capabilities),
        current: false,
    }
}

/// The entries of the modules the executable builds in.
pub open spec fn module_items(ms: Seq<ModuleEntry>) -> Seq<ItemModel>
    decreases ms.len(),
{
    if ms.len() == 0 {
        seq![]
    } else if ms.last().declarative {
        module_items(ms.drop_last())
    } else {
        module_items(ms.drop_last()).push(module_item(ms.last()))
    }
}

/// The entries of the kinds of the layer.
pub open spec fn kind_items(ks: Seq<(String, usize)>) -> Seq<ItemModel> {
    ks.map_values(|k: (String, usize)| ItemModel {
        label: k.0@,
        href: "/cockpit/objects?kind="@ + percent_encoded(k.0@),
        area: Area::Objects,
        group: None,
        count: Some(k.1),
        current: false,
    })
}

/// The entries of the derived graphs.
pub open spec fn graph_items(gs: Seq<String>, here: Seq<char>) -> Seq<ItemModel> {
    gs.map_values(|g: String| ItemModel {
        label: g@,
        href: "/cockpit/graphs/"@ + g@,
        area: Area::Graphs,
        group: None,
        count: None,
        current: here == "/cockpit/graphs/"@ + g@,
    })
}

/// A section, kept only when it has entries.
pub open spec fn keep(
    acc: Seq<(Seq<char>, Seq<ItemModel>)>,
    title: Seq<char>,
    items: Seq<ItemModel>,
) -> Seq<(Seq<char>, Seq<ItemModel>)> {
    if items.len() > 0 {
        acc.push((title, items))
    } else {
        acc
    }
}

/// The sections of a navigation, each with its entries as derived, before ordering.
pub open spec fn wanted_sections(c: Catalogue, here: Seq<char>) -> Seq<(Seq<char>, Seq<ItemModel>)> {
    keep(
        keep(
            keep(keep(seq![], "Cockpit"@, area_items(c, here)), "Capability modules"@, module_items(c.modules@)),
            "Object kinds"@,
            kind_items(c.kinds@),
        ),
        "Graphs"@,
        graph_items(c.graphs@, here),
    )
}

// ------------------------------------------------------------------ the canonical order

/// Two entries in the canonical order: -1, 0 or 1. Grouped entries come first, by group;
/// then by label; then by where they go.
pub open spec fn item_rank(x: Item, y: Item) -> int {
    match (x.group, y.group) {
        (Some(_), None) => -1,
        (None, Some(_)) => 1,
        _ => {
            let g = match (x.group, y.group) {
                (Some(a), Some(b)) => natural_rank(a@, b@),
                _ => 0,
            };
            if g != 0 {
                g
            } else {
                let l = natural_rank(x.label@, y.label@);
                if l != 0 {
                    l
                } else {
                    crate::order::plain_rank(x.href@, y.href@)
                }
            }
        },
    }
}

proof fn lemma_item_rank_antisymmetric(x: Item, y: Item)
    ensures
        item_rank(x, y) == -item_rank(y, x),
        -1 <= item_rank(x, y) <= 1,
{
    lemma_natural_rank_antisymmetric(x.label@, y.label@);
    crate::order::lemma_plain_rank_antisymmetric_pub(x.href@, y.href@);
    match (x.group, y.group) {
        (Some(a), Some(b)) => {
            lemma_natural_rank_antisymmetric(a@, b@);
        },
        _ => {},
    }
}

fn plain_compare(a: &str, b: &str) -> (r: i8)
    ensures
        r as int == crate::order::plain_rank(a@, b@),
{
    crate::order::plain_compare(a, b)
}

fn item_compare(x: &Item, y: &Item) -> (r: i8)
    ensures
        r as int == item_rank(*x, *y),
{
    match (&x.group, &y.group) {
        (Some(_), None) => -1,
        (None, Some(_)) => 1,
        _ => {
            let g: i8 = match (&x.group, &y.group) {
                (Some(a), Some(b)) => natural_compare(a.as_str(), b.as_str()),
                _ => 0,
            };
            if g != 0 {
                g
            } else {
                let l = natural_compare(x.label.as_str(), y.label.as_str());
                if l != 0 {
                    l
                } else {
                    plain_compare(x.href.as_str(), y.href.as_str())
                }
            }
        },
    }
}

/// Entries in the canonical order: no entry comes after the one that follows it.
pub open spec fn in_canonical_order(items: Seq<Item>) -> bool {
    forall|k: int| 0 <= k < items.len() - 1 ==> item_rank(#[trigger] items[k + 1], items[k]) >= 0
}

/// One section's entries in the canonical order: by label, case-folded so that `API` sits
/// with `Artifacts` rather than ahead of every lowercase kind, digit runs by value, and the
/// href behind it to break a tie between two entries a reader would call the same.
fn alphabetical(items: Vec<Item>) -> (r: (Vec<Item>, Ghost<Seq<int>>))
    ensures
        is_rearrangement(r.1@, items@.len() as int),
        r.0@.len() == items@.len(),
        forall|k: int| 0 <= k < r.0@.len() ==> #[trigger] r.0@[k] == items@[r.1@[k]],
        in_canonical_order(r.0@),
{
    let ghost all = items@;
    let n = items.len();
    let mut rest = items;
    let mut out: Vec<Item> = Vec::new();
    let ghost mut perm: Seq<int> = seq![];
    let mut j: usize = 0;
    while j < n
        invariant
            n == all.len(),
            j <= n,
            rest@ == all.subrange(j as int, n as int),
            out@.len() == j,
            perm.len() == j,
            forall|k: int| 0 <= k < perm.len() ==> #[trigger] out@[k] == all[perm[k]],
            forall|k: int| 0 <= k < perm.len() ==> 0 <= #[trigger] perm[k] < j,
            forall|k: int, l: int|
                0 <= k < perm.len() && 0 <= l < perm.len() && k != l ==> #[trigger] perm[k] != #[trigger] perm[l],
            forall|i: int| 0 <= i < j ==> #[trigger] is_hit(perm, i),
            in_canonical_order(out@),
        decreases n - j,
    {
        let item = rest.remove(0);
        assert(item == all[j as int]);
        let mut p: usize = 0;
        let mut stop = false;
        while p < out.len() && !stop
            invariant
                p <= out@.len(),
                forall|k: int| 0 < k <= p && k <= out@.len() ==> item_rank(item, #[trigger] out@[k - 1]) >= 0,
                stop ==> p < out@.len() && item_rank(item, out@[p as int]) < 0,
            decreases out@.len() - p + (if stop { 0int } else { 1int }),
        {
            if item_compare(&item, &out[p]) < 0 {
                stop = true;
            } else {
                p += 1;
            }
        }
        let ghost before = perm;
        let ghost old_out = out@;
        proof {
            if p < old_out.len() {
                lemma_item_rank_antisymmetric(item, old_out[p as int]);
            }
        }
        out.insert(p, item);
        proof {
            perm = before.insert(p as int, j as int);
            let jj = j as int;
            assert forall|k: int| 0 <= k < perm.len() implies #[trigger] out@[k] == all[perm[k]] by {
                if k < p {
                    assert(perm[k] == before[k]);
                } else if k > p {
                    assert(perm[k] == before[k - 1]);
                }
            }
            assert forall|k: int| 0 <= k < perm.len() implies 0 <= #[trigger] perm[k] < j + 1 by {
                if k < p {
                    assert(perm[k] == before[k]);
                } else if k > p {
                    assert(perm[k] == before[k - 1]);
                }
            }
            assert forall|k: int, l: int|
                0 <= k < perm.len() && 0 <= l < perm.len() && k != l implies #[trigger] perm[k] != #[trigger] perm[l] by {
                let ok = if k < p { before[k] } else if k == p { jj } else { before[k - 1] };
                let ol = if l < p { before[l] } else if l == p { jj } else { before[l - 1] };
                assert(perm[k] == ok);
                assert(perm[l] == ol);
            }
            assert forall|i: int| 0 <= i < j + 1 implies #[trigger] is_hit(perm, i) by {
                if i == jj {
                    assert(perm[p as int] == i);
                } else {
                    assert(is_hit(before, i));
                    let k0 = choose|k: int| 0 <= k < before.len() && before[k] == i;
                    if k0 < p {
                        assert(perm[k0] == i);
                    } else {
                        assert(perm[k0 + 1] == i);
                    }
                }
            }
            assert forall|k: int| 0 <= k < out@.len() - 1 implies item_rank(#[trigger] out@[k + 1], out@[k]) >= 0 by {
                if k + 1 < p {
                    assert(out@[k] == old_out[k] && out@[k + 1] == old_out[k + 1]);
                    assert(item_rank(old_out[k + 1], old_out[k]) >= 0);
                } else if k + 1 == p {
                    assert(out@[k + 1] == item && out@[k] == old_out[k]);
                    assert(item_rank(item, old_out[(k + 1) - 1]) >= 0);
                } else if k == p {
                    assert(out@[k] == item && out@[k + 1] == old_out[k]);
                } else {
                    let m = k - 1;
                    assert(out@[k] == old_out[m] && out@[k + 1] == old_out[m + 1]);
                    assert(item_rank(old_out[m + 1], old_out[m]) >= 0);
                }
            }
            assert(all.subrange(j + 1, n as int) =~= all.subrange(jj, n as int).drop_first());
        }
        j += 1;
    }
    (out, Ghost(perm))
}

// ------------------------------------------------------------------ building

/// The models of some entries.
pub open spec fn item_models(items: Seq<Item>) -> Seq<ItemModel> {
    items.map_values(|i: Item| item_model(i))
}

/// A section that holds the wanted entries under a title, in the canonical order.
pub open spec fn section_holds(sec: Section, title: Seq<char>, wanted: Seq<ItemModel>) -> bool {
    &&& sec.title@ == title
    &&& sec.items@.len() == wanted.len()
    &&& in_canonical_order(sec.items@)
    &&& exists|perm: Seq<int>|
        is_rearrangement(perm, wanted.len() as int) && forall|k: int|
            0 <= k < wanted.len() ==> item_model(#[trigger] sec.items@[k]) == wanted[perm[k]]
}

/// Sections that hold the wanted ones, in order.
pub open spec fn sections_hold(secs: Seq<Section>, wanted: Seq<(Seq<char>, Seq<ItemModel>)>) -> bool {
    &&& secs.len() == wanted.len()
    &&& forall|k: int| 0 <= k < secs.len() ==> section_holds(#[trigger] secs[k], wanted[k].0, wanted[k].1)
}

fn push_section(out: &mut Vec<Section>, title: &str, items: Vec<Item>)
    ensures
        items@.len() == 0 ==> final(out)@ == old(out)@,
        items@.len() > 0 ==> final(out)@.len() == old(out)@.len() + 1 && final(out)@.take(old(out)@.len() as int)
            == old(out)@ && section_holds(final(out)@.last(), title@, item_models(items@)),
{
    if items.len() == 0 {
        return;
    }
    let ghost given = items@;
    let (sorted, Ghost(perm)) = alphabetical(items);
    let sec = Section { title: String::from_str(title), items: sorted };
    proof {
        assert forall|k: int| 0 <= k < given.len() implies item_model(#[trigger] sec.items@[k]) == item_models(given)[perm[k]] by {
            assert(sec.items@[k] == given[perm[k]]);
        }
    }
    out.push(sec);
    assert(out@.take(old(out)@.len() as int) =~= old(out)@);
}

fn count_for(c: &Catalogue, a: Area) -> (r: Option<usize>)
    ensures
        r == area_count(*c, a),
{
    match a {
        Area::Capabilities => Some(c.capabilities),
        Area::Objects => Some(c.objects),
        Area::Graphs => Some(c.graphs.len()),
        Area::Api => Some(c.http_routes),
        _ => None,
    }
}

fn copy_text(o: &Option<String>) -> (r: Option<String>)
    ensures
        opt_text(r) == opt_text(*o),
{
    match o {
        Some(s) => Some(String::from_str(s.as_str())),
        None => None,
    }
}

fn prefixed(prefix: &str, rest: &str) -> (r: String)
    ensures
        r@ == prefix@ + rest@,
{
    let mut out = String::from_str(prefix);
    push_str(&mut out, rest);
    out
}

/// Build the navigation for a request: the areas, then the catalogues derived from the
/// registry, the layer and the graph derivations. `here` is the request path, so the
/// current entry can be marked without a page saying which it is. Every section is put in
/// the canonical order, and a section with no entries is left out.
pub fn build(c: &Catalogue, here: &str) -> (r: Navigation)
    ensures
        sections_hold(r.spec_sections(), wanted_sections(*c, here@)),
{
    let infos = areas();
    let mut area_list: Vec<Item> = Vec::new();
    let mut i: usize = 0;
    while i < infos.len()
        invariant
            i <= infos@.len(),
            area_infos(infos@) == area_table(),
            item_models(area_list@) == area_items(*c, here@).take(i as int),
        decreases infos.len() - i,
    {
        let a = infos[i];
        assert(area_table()[i as int] == (a.id@, a.label@, a.href@, a.area));
        let it = Item {
            label: String::from_str(a.label),
            href: String::from_str(a.href),
            area: a.area,
            group: None,
            count: count_for(c, a.area),
            current: str_eq(here, a.href),
        };
        let ghost prev = area_list@;
        area_list.push(it);
        assert(item_models(area_list@) =~= item_models(prev).push(item_model(it)));
        assert(area_items(*c, here@).take(i + 1) =~= area_items(*c, here@).take(i as int).push(item_model(it)));
        i += 1;
    }
    assert(area_items(*c, here@).take(infos@.len() as int) =~= area_items(*c, here@));
    let mut module_list: Vec<Item> = Vec::new();
    let mut i: usize = 0;
    while i < c.modules.len()
        invariant
            i <= c.modules@.len(),
            item_models(module_list@) == module_items(c.modules@.take(i as int)),
        decreases c.modules.len() - i,
    {
        let m = &c.modules[i];
        let ghost t = c.modules@.take(i + 1);
        assert(t.drop_last() =~= c.modules@.take(i as int));
        assert(t.last() == c.modules@[i as int]);
        if !m.declarative {
            let it = Item {
                label: String::from_str(m.title.as_str()),
                href: prefixed("/cockpit/capabilities?module=", percent_encode(m.id.as_str()).as_str()),
                area: Area::Capabilities,
                group: copy_text(&m.group),
                count: Some(m.capabilities),
                current: false,
            };
            let ghost prev = module_list@;
            module_list.push(it);
            assert(item_models(module_list@) =~= item_models(prev).push(item_model(it)));
        }
        i += 1;
    }
    assert(c.modules@.take(c.modules@.len() as int) =~= c.modules@);
    let mut kind_list: Vec<Item> = Vec::new();
    let mut i: usize = 0;
    while i < c.kinds.len()
        invariant
            i <= c.kinds@.len(),
            item_models(kind_list@) == kind_items(c.kinds@).take(i as int),
        decreases c.kinds.len() - i,
    {
        let (kind, n) = (&c.kinds[i].0, c.kinds[i].1);
        let it = Item {
            label: String::from_str(kind.as_str()),
            href: prefixed("/cockpit/objects?kind=", percent_encode(kind.as_str()).as_str()),
            area: Area::Objects,
            group: None,
            count: Some(n),
            current: false,
        };
        let ghost prev = kind_list@;
        kind_list.push(it);
        assert(item_models(kind_list@) =~= item_models(prev).push(item_model(it)));
        assert(kind_items(c.kinds@).take(i + 1) =~= kind_items(c.kinds@).take(i as int).push(item_model(it)));
        i += 1;
    }
    assert(kind_items(c.kinds@).take(c.kinds@.len() as int) =~= kind_items(c.kinds@));
    let mut graph_list: Vec<Item> = Vec::new();
    let mut i: usize = 0;
    while i < c.graphs.len()
        invariant
            i <= c.graphs@.len(),
            item_models(graph_list@) == graph_items(c.graphs@, here@).take(i as int),
        decreases c.graphs.len() - i,
    {
        let href = prefixed("/cockpit/graphs/", c.graphs[i].as_str());
        let current = str_eq(here, href.as_str());
        let it = Item {
            label: String::from_str(c.graphs[i].as_str()),
            href,
            area: Area::Graphs,
            group: None,
            count: None,
            current,
        };
        let ghost prev = graph_list@;
        graph_list.push(it);
        assert(item_models(graph_list@) =~= item_models(prev).push(item_model(it)));
        assert(graph_items(c.graphs@, here@).take(i + 1) =~= graph_items(c.graphs@, here@).take(i as int).push(item_model(it)));
        i += 1;
    }
    assert(graph_items(c.graphs@, here@).take(c.graphs@.len() as int) =~= graph_items(c.graphs@, here@));
    let mut sections: Vec<Section> = Vec::new();
    push_section(&mut sections, "Cockpit", area_list);
    let ghost w1 = keep(seq![], "Cockpit"@, area_items(*c, here@));
    assert(sections_hold(sections@, w1));
    push_section(&mut sections, "Capability modules", module_list);
    let ghost w2 = keep(w1, "Capability modules"@, module_items(c.modules@));
    assert(sections_hold(sections@, w2)) by {
        if sections@.len() > w1.len() {
            assert forall|k: int| 0 <= k < sections@.len() implies section_holds(#[trigger] sections@[k], w2[k].0, w2[k].1) by {
                if k < w1.len() {
                    assert(sections@[k] == sections@.take(w1.len() as int)[k]);
                }
            }
        }
    }
    push_section(&mut sections, "Object kinds", kind_list);
    let ghost w3 = keep(w2, "Object kinds"@, kind_items(c.kinds@));
    assert(sections_hold(sections@, w3)) by {
        if sections@.len() > w2.len() {
            assert forall|k: int| 0 <= k < sections@.len() implies section_holds(#[trigger] sections@[k], w3[k].0, w3[k].1) by {
                if k < w2.len() {
                    assert(sections@[k] == sections@.take(w2.len() as int)[k]);
                }
            }
        }
    }
    push_section(&mut sections, "Graphs", graph_list);
    let ghost w4 = keep(w3, "Graphs"@, graph_items(c.graphs@, here@));
    assert(sections_hold(sections@, w4)) by {
        if sections@.len() > w3.len() {
            assert forall|k: int| 0 <= k < sections@.len() implies section_holds(#[trigger] sections@[k], w4[k].0, w4[k].1) by {
                if k < w3.len() {
                    assert(sections@[k] == sections@.take(w3.len() as int)[k]);
                }
            }
        }
    }
    Navigation { sections }
}

/// In the canonical order the ungrouped entries come last: no entry with a group follows
/// one without, so a section renders its groups and then its ungrouped tail.
pub proof fn law_the_ungrouped_entries_come_last(items: Seq<Item>, i: int, j: int)
    requires
        in_canonical_order(items),
        0 <= i < j < items.len(),
        items[i].group is None,
    ensures
        items[j].group is None,
    decreases j - i,
{
    let k = i + 1;
    assert(item_rank(items[k], items[i]) >= 0);
    assert(items[k].group is None);
    if k < j {
        law_the_ungrouped_entries_come_last(items, k, j);
    }
}

} // verus!
