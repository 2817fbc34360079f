//! The shell every Cockpit page is rendered into: the head, the top bar, the sidebar built
//! from the navigation, the page's heading and trail, the command palette and the footer.
//!
//! Every `x-` attribute here names a top-level property or method of the one script
//! component and never an expression, which is what lets the content-security policy
//! forbid both `unsafe-eval` and `unsafe-inline`.

use vstd::prelude::*;

use crate::strings::{decimal, decimal_of, str_eq};

use super::html::{
    bare, document, document_text, el, els_views, empty, with_attr, with_child, with_children, with_flag, El,
    ElementModel, Node, NodeModel,
};
use super::nav::{item_model, item_models, opt_text, Area, Item, ItemModel, Navigation, Section};
use super::pages::trail_views;
use super::view::{alert, alert_model, link, link_model};

verus! {

broadcast use super::html::lemma_element_node;

/// The banner shown when the distribution has no asset directory at all: the pages still
/// render, and the reader is told why they look unstyled.
pub const NO_ASSETS: &'static str = "This distribution has no share/cockpit/ directory, so the Cockpit is serving unstyled markup. Everything works; nothing is styled. Run `just cockpit-assets` to build it.";

/// How many entries a sidebar catalogue may have before it is folded. Nine areas and a
/// dozen modules are a menu; thirty object kinds under them are a wall.
pub const FOLD_ABOVE: usize = 12;

/// The theme contract the design declaration hands the page: the storage key and the
/// class the script reads, and the fingerprint it compares with the stylesheet's.
pub struct ThemeMarks {
    /// Where the chosen theme is stored.
    pub storage_key: String,
    /// The class the dark theme sets.
    pub class: String,
    /// The short fingerprint of the declaration.
    pub fingerprint: String,
}

/// What a page needs from the process in order to render its shell.
pub struct Shell<'a> {
    /// The page title, before the suffix.
    pub title: &'a str,
    /// One line under the heading: what this page shows.
    pub subtitle: Option<String>,
    /// The area of the navigation this page belongs to.
    pub area: Area,
    /// The trail from the Cockpit root to this page, label and href; the last has no href.
    pub breadcrumbs: Vec<(String, Option<String>)>,
    /// The navigation, derived from the registry.
    pub navigation: &'a Navigation,
    /// The stylesheet URL, with its digest.
    pub stylesheet: String,
    /// The Cockpit's own script modules, in load order, with their digests.
    pub scripts: Vec<String>,
    /// Whether the distribution has an asset directory at all.
    pub assets_present: bool,
    /// The executable's version, shown in the top bar and the footer.
    pub version: &'a str,
    /// The one inline statement the page ships: it applies the stored theme before the
    /// first paint. Empty when the design declaration ships none.
    pub bootstrap: &'a str,
    /// The brand mark, as markup this process carries.
    pub mark: &'a str,
    /// Where Swagger UI answers.
    pub swagger: &'a str,
    /// The design declaration's theme contract, when it compiled.
    pub theme: Option<ThemeMarks>,
}

// ------------------------------------------------------------------ the head

/// A script module in the head.
pub open spec fn module_model(src: Seq<char>) -> ElementModel {
    with_flag(with_attr(with_attr(bare("script"@), "type"@, "module"@), "src"@, src), "defer"@)
}

/// The head every page carries: the stylesheet, the icon, the theme statement, and the
/// script modules in load order.
pub open spec fn head_models(stylesheet: Seq<char>, bootstrap: Seq<char>, scripts: Seq<String>) -> Seq<ElementModel> {
    seq![
        with_attr(with_attr(bare("link"@), "rel"@, "stylesheet"@), "href"@, stylesheet),
        with_attr(with_attr(bare("link"@), "rel"@, "icon"@), "href"@, "/cockpit/assets/favicon.svg"@),
        with_child(bare("script"@), NodeModel::Raw(bootstrap)),
    ] + scripts.map_values(|s: String| module_model(s@))
}

fn head(stylesheet: &str, bootstrap: &str, scripts: &Vec<String>) -> (r: Vec<El>)
    ensures
        els_views(r@) == head_models(stylesheet@, bootstrap@, scripts@),
{
    let mut out: Vec<El> = Vec::new();
    out.push(el("link").attr("rel", "stylesheet").attr("href", stylesheet));
    out.push(el("link").attr("rel", "icon").attr("href", "/cockpit/assets/favicon.svg"));
    out.push(el("script").raw(bootstrap));
    let ghost fixed = els_views(out@);
    for i in 0..scripts.len()
        invariant
            out@.len() == 3 + i,
            els_views(out@) == fixed + scripts@.take(i as int).map_values(|s: String| module_model(s@)),
    {
        let m = el("script").attr("type", "module").attr("src", scripts[i].as_str()).flag("defer");
        let ghost before = out@;
        let ghost mm = m@;
        out.push(m);
        proof {
            assert(scripts@.take(i + 1) =~= scripts@.take(i as int).push(scripts@[i as int]));
            assert(els_views(out@) =~= els_views(before).push(mm));
            assert(scripts@.take(i + 1).map_values(|s: String| module_model(s@)) =~= scripts@.take(
                i as int,
            ).map_values(|s: String| module_model(s@)).push(module_model(scripts@[i as int]@)));
        }
    }
    assert(scripts@.take(scripts@.len() as int) =~= scripts@);
    assert(els_views(out@) =~= head_models(stylesheet@, bootstrap@, scripts@));
    out
}

// ------------------------------------------------------------------ the top bar

/// The link that skips the navigation.
pub open spec fn skip_link_model() -> ElementModel {
    with_child(with_attr(with_attr(bare("a"@), "class"@, "mj-skip"@), "href"@, "#main"@), NodeModel::Text("Skip to content"@))
}

fn skip_link() -> (r: El)
    ensures
        r@ == skip_link_model(),
{
    el("a").class("mj-skip").attr("href", "#main").text("Skip to content")
}

/// An element with a class.
pub open spec fn classed(tag: Seq<char>, class: Seq<char>) -> ElementModel {
    with_attr(bare(tag), "class"@, class)
}

/// The same element with one more child element.
pub open spec fn holding(e: ElementModel, c: ElementModel) -> ElementModel {
    with_child(e, NodeModel::Element(c))
}

/// The same element with one more text child.
pub open spec fn saying(e: ElementModel, t: Seq<char>) -> ElementModel {
    with_child(e, NodeModel::Text(t))
}

/// The brand lockup: the mark, the name, the version.
pub open spec fn brand_model(version: Seq<char>, mark: Seq<char>) -> ElementModel {
    holding(
        holding(
            holding(
                with_attr(classed("a"@, "mj-brand"@), "href"@, "/cockpit"@),
                with_child(with_attr(classed("span"@, "mj-brand-mark"@), "aria-hidden"@, "true"@), NodeModel::Raw(mark)),
            ),
            saying(classed("span"@, "mj-brand-name"@), "Majordomus"@),
        ),
        saying(classed("span"@, "mj-brand-suffix"@), version),
    )
}

/// The button that opens the command palette.
pub open spec fn palette_button_model() -> ElementModel {
    holding(
        holding(
            with_attr(
                with_attr(with_attr(classed("button"@, "mj-palette-open"@), "type"@, "button"@), "x-on:click"@, "openPalette"@),
                "aria-keyshortcuts"@,
                "Control+K Meta+K"@,
            ),
            saying(bare("span"@), "Search or run"@),
        ),
        saying(classed("kbd"@, "mj-kbd"@), "Ctrl K"@),
    )
}

/// The external surfaces: the theme switch, Swagger UI and the OpenAPI document.
pub open spec fn actions_model(swagger: Seq<char>) -> ElementModel {
    holding(
        holding(
            holding(
                with_attr(classed("nav"@, "mj-topbar-actions"@), "aria-label"@, "External surfaces"@),
                saying(
                    with_attr(
                        with_attr(
                            with_attr(with_attr(classed("button"@, "mj-theme-toggle"@), "type"@, "button"@), "x-on:click"@, "toggleTheme"@),
                            "aria-label"@,
                            "Switch between light and dark"@,
                        ),
                        "title"@,
                        "Switch between light and dark"@,
                    ),
                    "Theme"@,
                ),
            ),
            saying(with_attr(classed("a"@, "mj-action"@), "href"@, swagger), "Swagger"@),
        ),
        saying(with_attr(classed("a"@, "mj-action"@), "href"@, "/openapi.json"@), "OpenAPI"@),
    )
}

/// The top bar.
pub open spec fn header_model(version: Seq<char>, mark: Seq<char>, swagger: Seq<char>) -> ElementModel {
    holding(
        classed("header"@, "mj-topbar"@),
        holding(
            holding(holding(classed("div"@, "mj-topbar-inner"@), brand_model(version, mark)), palette_button_model()),
            actions_model(swagger),
        ),
    )
}

fn header(version: &str, mark: &str, swagger: &str) -> (r: El)
    ensures
        r@ == header_model(version@, mark@, swagger@),
{
    let brand = el("a").class("mj-brand").attr("href", "/cockpit").child(
        el("span").class("mj-brand-mark").attr("aria-hidden", "true").raw(mark),
    ).child(el("span").class("mj-brand-name").text("Majordomus")).child(
        el("span").class("mj-brand-suffix").text(version),
    );
    let button = el("button").class("mj-palette-open").attr("type", "button").attr("x-on:click", "openPalette").attr(
        "aria-keyshortcuts",
        "Control+K Meta+K",
    ).child(el("span").text("Search or run")).child(el("kbd").class("mj-kbd").text("Ctrl K"));
    let actions = el("nav").class("mj-topbar-actions").attr("aria-label", "External surfaces").child(
        el("button").class("mj-theme-toggle").attr("type", "button").attr("x-on:click", "toggleTheme").attr(
            "aria-label",
            "Switch between light and dark",
        ).attr("title", "Switch between light and dark").text("Theme"),
    ).child(el("a").class("mj-action").attr("href", swagger).text("Swagger")).child(
        el("a").class("mj-action").attr("href", "/openapi.json").text("OpenAPI"),
    );
    el("header").class("mj-topbar").child(el("div").class("mj-topbar-inner").child(brand).child(button).child(actions))
}


// ------------------------------------------------------------------ the footer

/// The footer: the link row and the version.
pub open spec fn footer_model(version: Seq<char>, swagger: Seq<char>) -> ElementModel {
    holding(
        classed("footer"@, "mj-footer"@),
        holding(
            holding(
                classed("div"@, "mj-footer-inner"@),
                holding(
                    holding(
                        holding(classed("ul"@, "mj-footer-links"@), holding(bare("li"@), link_model("/openapi.json"@, "openapi.json"@))),
                        holding(bare("li"@), link_model(swagger, "Swagger UI"@)),
                    ),
                    holding(bare("li"@), link_model("/cockpit/health"@, "health"@)),
                ),
            ),
            saying(classed("p"@, "mj-footer-note"@), "majordomus "@ + version),
        ),
    )
}

fn footer(version: &str, swagger: &str) -> (r: El)
    ensures
        r@ == footer_model(version@, swagger@),
{
    let links = el("ul").class("mj-footer-links").child(el("li").child(link("/openapi.json", "openapi.json"))).child(
        el("li").child(link(swagger, "Swagger UI")),
    ).child(el("li").child(link("/cockpit/health", "health")));
    let mut note = String::from_str("majordomus ");
    crate::strings::push_str(&mut note, version);
    el("footer").class("mj-footer").child(
        el("div").class("mj-footer-inner").child(links).child(el("p").class("mj-footer-note").text(note.as_str())),
    )
}

// ------------------------------------------------------------------ the trail

/// One crumb: a link, or the page being shown.
pub open spec fn crumb_model(label: Seq<char>, href: Option<Seq<char>>) -> ElementModel {
    match href {
        Some(h) => holding(classed("li"@, "mj-crumb"@), saying(with_attr(classed("a"@, "mj-crumb-link"@), "href"@, h), label)),
        None => saying(with_attr(classed("li"@, "mj-crumb-current"@), "aria-current"@, "page"@), label),
    }
}

/// The separator between two crumbs: markup, so a screen reader is never read a slash.
pub open spec fn crumb_separator() -> ElementModel {
    saying(with_attr(bare("li"@), "aria-hidden"@, "true"@), "/"@)
}

/// The crumbs of a trail, a separator between each two.
pub open spec fn crumbs_nodes(t: Seq<(Seq<char>, Option<Seq<char>>)>) -> Seq<NodeModel>
    decreases t.len(),
{
    if t.len() == 0 {
        seq![]
    } else {
        let before = crumbs_nodes(t.drop_last());
        let sep: Seq<NodeModel> = if t.len() > 1 {
            seq![NodeModel::Element(crumb_separator())]
        } else {
            seq![]
        };
        before + sep + seq![NodeModel::Element(crumb_model(t.last().0, t.last().1))]
    }
}

/// The trail: hidden when there is none.
pub open spec fn breadcrumbs_model(t: Seq<(Seq<char>, Option<Seq<char>>)>) -> ElementModel {
    if t.len() == 0 {
        classed("div"@, "mj-hidden"@)
    } else {
        holding(
            with_attr(classed("nav"@, "mj-crumbs-nav"@), "aria-label"@, "Breadcrumb"@),
            with_children(classed("ol"@, "mj-crumbs"@), crumbs_nodes(t)),
        )
    }
}

fn breadcrumbs(trail: &Vec<(String, Option<String>)>) -> (r: El)
    ensures
        r@ == breadcrumbs_model(trail_views(trail@)),
{
    if trail.len() == 0 {
        return el("div").class("mj-hidden");
    }
    let ghost t = trail_views(trail@);
    let mut list = el("ol").class("mj-crumbs");
    let ghost base = list@;
    for index in 0..trail.len()
        invariant
            t == trail_views(trail@),
            list@ == with_children(base, crumbs_nodes(t.take(index as int))),
            base == classed("ol"@, "mj-crumbs"@),
    {
        proof {
            assert(t.take(index + 1).drop_last() =~= t.take(index as int));
        }
        if index > 0 {
            list = list.child(el("li").attr("aria-hidden", "true").text("/"));
        }
        let item = match &trail[index].1 {
            Some(h) => el("li").class("mj-crumb").child(
                el("a").class("mj-crumb-link").attr("href", h.as_str()).text(trail[index].0.as_str()),
            ),
            None => el("li").class("mj-crumb-current").attr("aria-current", "page").text(trail[index].0.as_str()),
        };
        assert(item@ == crumb_model(t[index as int].0, t[index as int].1));
        list = list.child(item);
        assert(list@.children =~= base.children + crumbs_nodes(t.take(index + 1)));
    }
    assert(t.take(trail@.len() as int) =~= t);
    el("nav").class("mj-crumbs-nav").attr("aria-label", "Breadcrumb").child(list)
}

// ------------------------------------------------------------------ the palette

/// The query field of the palette.
pub open spec fn palette_input_model() -> ElementModel {
    with_attr(
        with_attr(
            with_attr(
                with_attr(
                    with_attr(
                        with_attr(
                            with_attr(
                                with_attr(
                                    with_attr(classed("input"@, "mj-palette-input"@), "type"@, "search"@),
                                    "placeholder"@,
                                    "Go to a capability, an object, a graph, a page"@,
                                ),
                                "aria-label"@,
                                "Command palette query"@,
                            ),
                            "x-ref"@,
                            "paletteInput"@,
                        ),
                        "x-model"@,
                        "paletteQuery"@,
                    ),
                    "x-on:input.debounce.120ms"@,
                    "paletteFilter"@,
                ),
                "x-on:keydown.arrow-down.prevent"@,
                "paletteNext"@,
            ),
            "x-on:keydown.arrow-up.prevent"@,
            "palettePrevious"@,
        ),
        "x-on:keydown.enter.prevent"@,
        "paletteChoose"@,
    )
}

/// The command palette: an empty shell the script fills from the listings.
pub open spec fn palette_model() -> ElementModel {
    holding(
        holding(
            with_attr(
                with_attr(
                    with_attr(
                        with_attr(
                            with_attr(with_attr(classed("div"@, "mj-palette"@), "x-show"@, "paletteOpen"@), "x-cloak"@, ""@),
                            "role"@,
                            "dialog"@,
                        ),
                        "aria-modal"@,
                        "true"@,
                    ),
                    "aria-label"@,
                    "Command palette"@,
                ),
                "x-on:keydown.escape.window"@,
                "closePalette"@,
            ),
            with_attr(classed("div"@, "mj-palette-backdrop"@), "x-on:click"@, "closePalette"@),
        ),
        holding(
            holding(
                holding(classed("div"@, "mj-palette-panel"@), palette_input_model()),
                with_attr(
                    with_attr(classed("ul"@, "mj-palette-results"@), "role"@, "listbox"@),
                    "x-ref"@,
                    "paletteResults"@,
                ),
            ),
            saying(classed("p"@, "mj-palette-hint"@), "Enter opens · arrows move · Escape closes"@),
        ),
    )
}

fn palette() -> (r: El)
    ensures
        r@ == palette_model(),
{
    let input = el("input").class("mj-palette-input").attr("type", "search").attr(
        "placeholder",
        "Go to a capability, an object, a graph, a page",
    ).attr("aria-label", "Command palette query").attr("x-ref", "paletteInput").attr("x-model", "paletteQuery").attr(
        "x-on:input.debounce.120ms",
        "paletteFilter",
    ).attr("x-on:keydown.arrow-down.prevent", "paletteNext").attr("x-on:keydown.arrow-up.prevent", "palettePrevious").attr(
        "x-on:keydown.enter.prevent",
        "paletteChoose",
    );
    let panel = el("div").class("mj-palette-panel").child(input).child(
        el("ul").class("mj-palette-results").attr("role", "listbox").attr("x-ref", "paletteResults"),
    ).child(el("p").class("mj-palette-hint").text("Enter opens · arrows move · Escape closes"));
    el("div").class("mj-palette").attr("x-show", "paletteOpen").attr("x-cloak", "").attr("role", "dialog").attr(
        "aria-modal",
        "true",
    ).attr("aria-label", "Command palette").attr("x-on:keydown.escape.window", "closePalette").child(
        el("div").class("mj-palette-backdrop").attr("x-on:click", "closePalette"),
    ).child(panel)
}


// ------------------------------------------------------------------ the sidebar

/// Whether an entry is the page being shown, in the area of the page.
pub open spec fn is_current(i: ItemModel, area: Area) -> bool {
    i.area == area && i.current
}

/// One entry of the sidebar: its link, marked when it is the page being shown, and its
/// count when it has one.
pub open spec fn nav_link_model(i: ItemModel, area: Area) -> ElementModel {
    let current = is_current(i, area);
    let a = with_attr(
        classed(
            "a"@,
            if current {
                "mj-nav-link mj-nav-link--current"@
            } else {
                "mj-nav-link"@
            },
        ),
        "href"@,
        i.href,
    );
    let a = if current {
        with_attr(a, "aria-current"@, "page"@)
    } else {
        a
    };
    let a = holding(a, saying(classed("span"@, "mj-nav-label"@), i.label));
    let a = with_child(
        a,
        match i.count {
            Some(n) => NodeModel::Element(saying(classed("span"@, "mj-nav-count"@), decimal_of(n as nat))),
            None => NodeModel::Raw(seq![]),
        },
    );
    holding(bare("li"@), a)
}

/// A group heading inside a section.
pub open spec fn group_heading_model(heading: Seq<char>) -> ElementModel {
    saying(with_attr(classed("li"@, "mj-nav-group"@), "role"@, "presentation"@), heading)
}

/// The heading shown before the entry at `k`: its group, when it has one and the entry
/// before it is in another.
pub open spec fn heading_at(items: Seq<ItemModel>, k: int) -> Option<Seq<char>> {
    match items[k].group {
        Some(g) => if k == 0 || items[k - 1].group != items[k].group {
            Some(g)
        } else {
            None
        },
        None => None,
    }
}

/// The entries of a section, each preceded by its group heading where the group changes.
pub open spec fn items_nodes(items: Seq<ItemModel>, area: Area) -> Seq<NodeModel>
    decreases items.len(),
{
    if items.len() == 0 {
        seq![]
    } else {
        let k = items.len() - 1;
        let heading: Seq<NodeModel> = match heading_at(items, k) {
            Some(h) => seq![NodeModel::Element(group_heading_model(h))],
            None => seq![],
        };
        items_nodes(items.drop_last(), area) + heading + seq![NodeModel::Element(nav_link_model(items[k], area))]
    }
}

/// Whether a section holds the page being shown.
pub open spec fn holds_current(items: Seq<ItemModel>, area: Area) -> bool {
    exists|k: int| 0 <= k < items.len() && is_current(#[trigger] items[k], area)
}

/// One section: folded when it is long, and unfolded when it holds the page being shown.
pub open spec fn section_model(title: Seq<char>, items: Seq<ItemModel>, area: Area) -> ElementModel {
    let list = with_children(classed("ul"@, "mj-nav-list"@), items_nodes(items, area));
    if items.len() > FOLD_ABOVE {
        let d = classed("details"@, "mj-nav-section mj-nav-section--foldable"@);
        let d = if holds_current(items, area) {
            with_flag(d, "open"@)
        } else {
            d
        };
        holding(
            holding(
                d,
                holding(
                    holding(classed("summary"@, "mj-nav-heading mj-nav-summary"@), saying(bare("span"@), title)),
                    saying(classed("span"@, "mj-nav-count"@), decimal_of(items.len())),
                ),
            ),
            list,
        )
    } else {
        holding(holding(classed("div"@, "mj-nav-section"@), saying(classed("h2"@, "mj-nav-heading"@), title)), list)
    }
}

/// The node of one section.
pub open spec fn section_node(s: Section, area: Area) -> NodeModel {
    NodeModel::Element(section_model(s.title@, item_models(s.items@), area))
}

/// The sidebar: every section of the navigation, in order.
pub open spec fn sidebar_model(sections: Seq<Section>, area: Area) -> ElementModel {
    with_children(
        with_attr(classed("nav"@, "mj-sidebar"@), "aria-label"@, "Cockpit sections"@),
        sections.map_values(|s: Section| section_node(s, area)),
    )
}

fn same_group(a: &Option<String>, b: &Option<String>) -> (r: bool)
    ensures
        r == (opt_text(*a) == opt_text(*b)),
{
    match (a, b) {
        (Some(x), Some(y)) => str_eq(x.as_str(), y.as_str()),
        (None, None) => true,
        _ => false,
    }
}

fn nav_link(item: &Item, area: Area) -> (r: El)
    ensures
        r@ == nav_link_model(item_model(*item), area),
{
    let current = item.area == area && item.current;
    let a = el("a").class(
        if current {
            "mj-nav-link mj-nav-link--current"
        } else {
            "mj-nav-link"
        },
    ).attr("href", item.href.as_str());
    let a = if current {
        a.attr("aria-current", "page")
    } else {
        a
    };
    let a = a.child(el("span").class("mj-nav-label").text(item.label.as_str()));
    let a = match item.count {
        Some(n) => {
            let digits = decimal(n);
            a.node(Node::Element(el("span").class("mj-nav-count").text(digits.as_str())))
        },
        None => a.node(empty()),
    };
    el("li").child(a)
}

fn section(sec: &Section, area: Area) -> (r: El)
    ensures
        r@ == section_model(sec.title@, item_models(sec.items@), area),
{
    let items = &sec.items;
    let ghost m = item_models(items@);
    let mut list = el("ul").class("mj-nav-list");
    let ghost base = list@;
    let mut holds = false;
    for k in 0..items.len()
        invariant
            m == item_models(items@),
            base == classed("ul"@, "mj-nav-list"@),
            list@ == with_children(base, items_nodes(m.take(k as int), area)),
            holds == holds_current(m.take(k as int), area),
    {
        let ghost t = m.take(k + 1);
        proof {
            assert(t.drop_last() =~= m.take(k as int));
            assert(t[k as int] == m[k as int]);
            if k > 0 {
                assert(t[k - 1] == m[k - 1]);
            }
        }
        let item = &items[k];
        let heading_needed = match &item.group {
            Some(_) => k == 0 || !same_group(&items[k - 1].group, &item.group),
            None => false,
        };
        if heading_needed {
            match &item.group {
                Some(h) => {
                    list = list.child(el("li").class("mj-nav-group").attr("role", "presentation").text(h.as_str()));
                },
                None => {},
            }
        }
        assert(heading_needed == (heading_at(t, k as int) is Some));
        list = list.child(nav_link(item, area));
        assert(list@.children =~= base.children + items_nodes(t, area));
        proof {
            if holds_current(t, area) && !holds {
                let j = choose|j: int| 0 <= j < t.len() && is_current(#[trigger] t[j], area);
                if j < k {
                    assert(m.take(k as int)[j] == t[j]);
                }
            }
            if holds {
                let j = choose|j: int| 0 <= j < k && is_current(#[trigger] m.take(k as int)[j], area);
                assert(t[j] == m.take(k as int)[j]);
            }
            if item.area == area && item.current {
                assert(is_current(t[k as int], area));
            }
        }
        holds = holds || (item.area == area && item.current);
    }
    assert(m.take(items@.len() as int) =~= m);
    if items.len() > FOLD_ABOVE {
        let d = el("details").class("mj-nav-section mj-nav-section--foldable");
        let d = if holds {
            d.flag("open")
        } else {
            d
        };
        let count = decimal(items.len());
        d.child(
            el("summary").class("mj-nav-heading mj-nav-summary").child(el("span").text(sec.title.as_str())).child(
                el("span").class("mj-nav-count").text(count.as_str()),
            ),
        ).child(list)
    } else {
        el("div").class("mj-nav-section").child(el("h2").class("mj-nav-heading").text(sec.title.as_str())).child(list)
    }
}

fn sidebar(navigation: &Navigation, area: Area) -> (r: El)
    ensures
        r@ == sidebar_model(navigation.spec_sections(), area),
{
    let sections = navigation.sections();
    let mut nav = el("nav").class("mj-sidebar").attr("aria-label", "Cockpit sections");
    let ghost base = nav@;
    for i in 0..sections.len()
        invariant
            sections@ == navigation.spec_sections(),
            base == with_attr(classed("nav"@, "mj-sidebar"@), "aria-label"@, "Cockpit sections"@),
            nav@ == with_children(base, sections@.take(i as int).map_values(|s: Section| section_node(s, area))),
    {
        nav = nav.child(section(&sections[i], area));
        proof {
            assert(sections@.take(i + 1).map_values(|s: Section| section_node(s, area)) =~= sections@.take(
                i as int,
            ).map_values(|s: Section| section_node(s, area)).push(section_node(sections@[i as int], area)));
            assert(nav@.children =~= base.children + sections@.take(i + 1).map_values(
                |s: Section| section_node(s, area),
            ));
        }
    }
    assert(sections@.take(sections@.len() as int) =~= sections@);
    nav
}


// ------------------------------------------------------------------ the page

/// The title of the document: the page's, and whose Cockpit it is.
pub open spec fn document_title(title: Seq<char>) -> Seq<char> {
    title + " · Majordomus Cockpit"@
}

/// The body element before its children: the script component, and the theme contract
/// when the design declaration compiled.
pub open spec fn body_start(theme: Option<ThemeMarks>) -> ElementModel {
    let b = with_attr(classed("body"@, "mj-body"@), "x-data"@, "cockpit"@);
    match theme {
        Some(t) => with_attr(
            with_attr(with_attr(b, "data-theme-key"@, t.storage_key@), "data-theme-class"@, t.class@),
            "data-design"@,
            t.fingerprint@,
        ),
        None => b,
    }
}

/// The heading of the page: the trail, the title, and the subtitle when there is one.
pub open spec fn page_head_model(
    trail: Seq<(Seq<char>, Option<Seq<char>>)>,
    title: Seq<char>,
    subtitle: Option<Seq<char>>,
) -> ElementModel {
    with_child(
        holding(
            holding(classed("header"@, "mj-page-head"@), breadcrumbs_model(trail)),
            saying(classed("h1"@, "mj-page-title"@), title),
        ),
        match subtitle {
            Some(s) => NodeModel::Element(saying(classed("p"@, "mj-page-subtitle"@), s)),
            None => NodeModel::Raw(seq![]),
        },
    )
}

/// The main column: the warning when the distribution has no assets, the heading, and the
/// page's own content.
pub open spec fn main_model(
    assets_present: bool,
    trail: Seq<(Seq<char>, Option<Seq<char>>)>,
    title: Seq<char>,
    subtitle: Option<Seq<char>>,
    content: ElementModel,
) -> ElementModel {
    let m = with_attr(with_attr(bare("main"@), "id"@, "main"@), "class"@, "mj-main"@);
    let m = if !assets_present {
        holding(m, alert_model("warn"@, NO_ASSETS@))
    } else {
        m
    };
    holding(holding(m, page_head_model(trail, title, subtitle)), content)
}

/// The whole body of a page.
pub open spec fn body_model(shell: Shell, content: ElementModel) -> ElementModel {
    holding(
        holding(
            holding(
                holding(holding(body_start(shell.theme), skip_link_model()), header_model(shell.version@, shell.mark@, shell.swagger@)),
                holding(
                    holding(classed("div"@, "mj-layout"@), sidebar_model(shell.navigation.spec_sections(), shell.area)),
                    main_model(
                        shell.assets_present,
                        trail_views(shell.breadcrumbs@),
                        shell.title@,
                        opt_text(shell.subtitle),
                        content,
                    ),
                ),
            ),
            palette_model(),
        ),
        footer_model(shell.version@, shell.swagger@),
    )
}

/// Render one page into the shell.
pub fn page(shell: &Shell, main: El) -> (r: String)
    ensures
        r@ == document_text(
            document_title(shell.title@),
            head_models(shell.stylesheet@, shell.bootstrap@, shell.scripts@),
            body_model(*shell, main@),
        ),
{
    let head = head(shell.stylesheet.as_str(), shell.bootstrap, &shell.scripts);
    let body = el("body").class("mj-body").attr("x-data", "cockpit");
    let body = match &shell.theme {
        Some(t) => body.attr("data-theme-key", t.storage_key.as_str()).attr("data-theme-class", t.class.as_str()).attr(
            "data-design",
            t.fingerprint.as_str(),
        ),
        None => body,
    };
    let column = el("main").attr("id", "main").class("mj-main");
    let column = if !shell.assets_present {
        column.child(alert("warn", NO_ASSETS))
    } else {
        column
    };
    let subtitle = match &shell.subtitle {
        Some(s) => Node::Element(el("p").class("mj-page-subtitle").text(s.as_str())),
        None => empty(),
    };
    let heading = el("header").class("mj-page-head").child(breadcrumbs(&shell.breadcrumbs)).child(
        el("h1").class("mj-page-title").text(shell.title),
    ).node(subtitle);
    let column = column.child(heading).child(main);
    let body = body.child(skip_link()).child(header(shell.version, shell.mark, shell.swagger)).child(
        el("div").class("mj-layout").child(sidebar(shell.navigation, shell.area)).child(column),
    ).child(palette()).child(footer(shell.version, shell.swagger));
    let mut title = String::from_str(shell.title);
    crate::strings::push_str(&mut title, " · Majordomus Cockpit");
    document(title.as_str(), head, body)
}

} // verus!
