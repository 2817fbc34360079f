//! The design page: every role with its light and dark value, every status with the words
//! filed under it, the type scale at its own sizes, the layout values, the theme contract,
//! and where the declaration is projected. Nothing on the page is written here: it is what
//! the design system and its tokens answered, rendered.

use vstd::prelude::*;

use crate::strings::{decimal, decimal_of, push_str, str_eq};

use super::frame::{classed, holding, saying};
use super::html::{bare, el, els_model, with_attr, with_children, El, ElementModel, Node, NodeModel};
use super::nav::Area;
use super::pages::{failed, failed_body, given_trail, trail_views, Page};
use super::surfaces::{cell_of, mono_model};
use super::view::{badge, badge_model, card, card_model, card_with, card_with_model, cell, facts, facts_model, mono, row, rows_model, statistic, statistic_model, strs_model, table, table_model, tag, tag_model, text_cell};

verus! {

broadcast use super::html::lemma_element_node;

/// What a design token is.
#[derive(Debug, Clone, Copy, PartialEq, Eq, Structural)]
pub enum TokenKind {
    /// A colour role, with a light and a dark value.
    Role,
    /// A status, with its text, ground and border.
    Status,
    /// A step of the type scale.
    Type,
    /// A type stack.
    Font,
    /// Letter spacing.
    Tracking,
    /// A layout value.
    Layout,
    /// A corner radius.
    Radius,
    /// A duration or an easing.
    Motion,
    /// A palette entry, which the roles are resolved from.
    Palette,
}

/// The word a token kind is shown as.
pub open spec fn kind_word(k: TokenKind) -> Seq<char> {
    match k {
        TokenKind::Role => "role"@,
        TokenKind::Status => "status"@,
        TokenKind::Type => "type"@,
        TokenKind::Font => "font"@,
        TokenKind::Tracking => "tracking"@,
        TokenKind::Layout => "layout"@,
        TokenKind::Radius => "radius"@,
        TokenKind::Motion => "motion"@,
        TokenKind::Palette => "palette"@,
    }
}

impl TokenKind {
    /// The word.
    pub fn as_str(self) -> (r: &'static str)
        ensures
            r@ == kind_word(self),
    {
        match self {
            TokenKind::Role => "role",
            TokenKind::Status => "status",
            TokenKind::Type => "type",
            TokenKind::Font => "font",
            TokenKind::Tracking => "tracking",
            TokenKind::Layout => "layout",
            TokenKind::Radius => "radius",
            TokenKind::Motion => "motion",
            TokenKind::Palette => "palette",
        }
    }
}

/// A value as the declaration resolves it: the literal, and the reference it came from.
#[derive(Debug, Clone, PartialEq, Eq)]
pub struct Resolved {
    /// The literal.
    pub literal: String,
    /// What it refers to.
    pub reference: String,
}

/// One part of a token: a role's one value, a status's text, ground or border.
#[derive(Debug, Clone, PartialEq, Eq)]
pub struct TokenPart {
    /// Which part.
    pub part: String,
    /// Its custom property.
    pub css: String,
    /// In the light theme.
    pub light: Resolved,
    /// In the dark theme.
    pub dark: Resolved,
}

/// One design token.
#[derive(Debug, Clone, PartialEq, Eq)]
pub struct Token {
    /// What it is.
    pub kind: TokenKind,
    /// Its name.
    pub name: String,
    /// The custom properties and utilities it projects to.
    pub css: Vec<String>,
    /// Its value, when it is a scalar.
    pub value: Option<String>,
    /// What it is for.
    pub about: String,
    /// The site's names for it.
    pub aliases: Vec<String>,
    /// The state words filed under it.
    pub states: Vec<String>,
    /// Its parts.
    pub parts: Vec<TokenPart>,
}

/// Where the declaration is projected.
#[derive(Debug, Clone, PartialEq, Eq)]
pub struct Projection {
    /// The file.
    pub path: String,
    /// What reads it.
    pub read_by: String,
}

/// The declaration, counted.
#[derive(Debug, Clone, Copy, PartialEq, Eq)]
pub struct DesignTallies {
    /// Roles.
    pub roles: usize,
    /// Statuses.
    pub statuses: usize,
    /// State words.
    pub states: usize,
    /// Type steps.
    pub type_steps: usize,
    /// The site's synonyms.
    pub aliases: usize,
    /// Palette entries.
    pub palette: usize,
}

/// What the design system answered.
#[derive(Debug, Clone, PartialEq, Eq)]
pub struct DesignReport {
    /// Where the declaration comes from.
    pub source: String,
    /// Its fingerprint.
    pub fingerprint: String,
    /// The short fingerprint every page carries.
    pub design: String,
    /// The class the dark theme sets.
    pub theme_class: String,
    /// Where the reader's choice is stored.
    pub theme_storage_key: String,
    /// The widths the surfaces are audited at.
    pub viewports: Vec<usize>,
    /// The counts.
    pub tallies: DesignTallies,
    /// Where it is projected.
    pub projections: Vec<Projection>,
}

// ------------------------------------------------------------------ the tokens

/// The first part of a token with this name.
pub open spec fn part_named(parts: Seq<TokenPart>, name: Seq<char>) -> Option<TokenPart>
    decreases parts.len(),
{
    if parts.len() == 0 {
        None
    } else if parts[0].part@ == name {
        Some(parts[0])
    } else {
        part_named(parts.drop_first(), name)
    }
}

/// A token the page can render: a role has a value, a status its text, ground and border,
/// a step of the type scale its three projections, and a scalar its property.
pub open spec fn renderable(t: Token) -> bool {
    match t.kind {
        TokenKind::Role => t.parts@.len() > 0,
        TokenKind::Status => part_named(t.parts@, "fg"@) is Some && part_named(t.parts@, "bg"@) is Some
            && part_named(t.parts@, "line"@) is Some,
        TokenKind::Type => t.css@.len() >= 3,
        TokenKind::Palette => true,
        _ => t.css@.len() >= 1,
    }
}

fn part_of<'a>(parts: &'a Vec<TokenPart>, name: &str) -> (r: Option<&'a TokenPart>)
    ensures
        match part_named(parts@, name@) {
            Some(p) => r matches Some(x) && *x == p,
            None => r is None,
        },
{
    let mut i: usize = 0;
    assert(parts@.skip(0) =~= parts@);
    while i < parts.len()
        invariant
            i <= parts@.len(),
            part_named(parts@, name@) == part_named(parts@.skip(i as int), name@),
        decreases parts.len() - i,
    {
        assert(parts@.skip(i as int)[0] == parts@[i as int]);
        assert(parts@.skip(i as int).drop_first() =~= parts@.skip(i + 1));
        if str_eq(parts[i].part.as_str(), name) {
            return Some(&parts[i]);
        }
        i += 1;
    }
    None
}

/// A swatch of a resolved value, in the theme the reader is not in.
pub open spec fn swatch_model(literal: Seq<char>) -> ElementModel {
    with_attr(with_attr(classed("span"@, "mj-swatch"@), "style"@, "background: "@ + literal), "title"@, literal)
}

/// A cell of a colour: its swatch and its reference.
pub open spec fn colour_cell_model(v: Resolved) -> NodeModel {
    NodeModel::Element(holding(saying(holding(bare("td"@), swatch_model(v.literal@)), " "@), mono_model(v.reference@)))
}

fn colour_cell(v: &Resolved) -> (r: El)
    ensures
        NodeModel::Element(r@) == colour_cell_model(*v),
{
    let mut style = String::from_str("background: ");
    push_str(&mut style, v.literal.as_str());
    let swatch = el("span").class("mj-swatch").attr("style", style.as_str()).attr("title", v.literal.as_str());
    el("td").child(swatch).text(" ").child(mono(v.reference.as_str()))
}

/// Marks, one element each.
pub open spec fn marks_model(children: Seq<NodeModel>) -> ElementModel {
    with_children(classed("span"@, "mj-marks"@), children)
}

/// The row of a role.
pub open spec fn role_row(t: Token) -> NodeModel {
    let p = t.parts@[0];
    NodeModel::Element(
        ElementModel {
            children: seq![
                cell_of(mono_model(p.css@)),
                colour_cell_model(p.light),
                colour_cell_model(p.dark),
                cell_of(marks_model(t.aliases@.map_values(|a: String| NodeModel::Element(tag_model(a@))))),
                NodeModel::Element(saying(bare("td"@), t.about@)),
            ],
            ..bare("tr"@)
        },
    )
}

fn tags(words: &Vec<String>) -> (r: Vec<El>)
    ensures
        els_model(r@) == words@.map_values(|a: String| NodeModel::Element(tag_model(a@))),
{
    let mut out: Vec<El> = Vec::new();
    for k in 0..words.len()
        invariant
            out@.len() == k,
            forall|i: int| 0 <= i < k ==> (#[trigger] out@[i])@ == tag_model(words@[i]@),
    {
        out.push(tag(words[k].as_str()));
    }
    assert(els_model(out@) =~= words@.map_values(|a: String| NodeModel::Element(tag_model(a@))));
    out
}

fn role_row_el(t: &Token) -> (r: El)
    requires
        t.parts@.len() > 0,
    ensures
        NodeModel::Element(r@) == role_row(*t),
{
    let p = &t.parts[0];
    let mut cells: Vec<El> = Vec::new();
    cells.push(cell(mono(p.css.as_str())));
    cells.push(colour_cell(&p.light));
    cells.push(colour_cell(&p.dark));
    cells.push(cell(el("span").class("mj-marks").children(tags(&t.aliases))));
    cells.push(text_cell(t.about.as_str()));
    let r = row(cells);
    assert(els_model(cells@) =~= match role_row(*t) {
        NodeModel::Element(e) => e.children,
        _ => seq![],
    });
    r
}

/// The row of a status.
pub open spec fn status_row(t: Token) -> NodeModel {
    let fg = part_named(t.parts@, "fg"@)->0;
    let bg = part_named(t.parts@, "bg"@)->0;
    let line = part_named(t.parts@, "line"@)->0;
    NodeModel::Element(
        ElementModel {
            children: seq![
                cell_of(mono_model(t.name@)),
                cell_of(badge_model(t.name@, t.name@)),
                colour_cell_model(fg.light),
                colour_cell_model(bg.light),
                colour_cell_model(line.light),
                cell_of(marks_model(t.states@.map_values(|w: String| NodeModel::Element(badge_model(w@, w@))))),
            ],
            ..bare("tr"@)
        },
    )
}

fn status_row_el(t: &Token) -> (r: El)
    requires
        t.kind == TokenKind::Status,
        renderable(*t),
    ensures
        NodeModel::Element(r@) == status_row(*t),
{
    let fg = match part_of(&t.parts, "fg") {
        Some(p) => p,
        None => {
            assert(false);
            return el("tr");
        },
    };
    let bg = match part_of(&t.parts, "bg") {
        Some(p) => p,
        None => {
            assert(false);
            return el("tr");
        },
    };
    let line = match part_of(&t.parts, "line") {
        Some(p) => p,
        None => {
            assert(false);
            return el("tr");
        },
    };
    let mut words: Vec<El> = Vec::new();
    for k in 0..t.states.len()
        invariant
            words@.len() == k,
            forall|i: int| 0 <= i < k ==> (#[trigger] words@[i])@ == badge_model(t.states@[i]@, t.states@[i]@),
    {
        words.push(badge(t.states[k].as_str(), t.states[k].as_str()));
    }
    assert(els_model(words@) =~= t.states@.map_values(|w: String| NodeModel::Element(badge_model(w@, w@))));
    let mut cells: Vec<El> = Vec::new();
    cells.push(cell(mono(t.name.as_str())));
    cells.push(cell(badge(t.name.as_str(), t.name.as_str())));
    cells.push(colour_cell(&fg.light));
    cells.push(colour_cell(&bg.light));
    cells.push(colour_cell(&line.light));
    cells.push(cell(el("span").class("mj-marks").children(words)));
    let r = row(cells);
    assert(els_model(cells@) =~= match status_row(*t) {
        NodeModel::Element(e) => e.children,
        _ => seq![],
    });
    r
}

/// The sentence a type step is shown at its own size with.
pub const SAMPLE: &'static str = "The quick brown fox jumps over the lazy dog";

/// The row of a step of the type scale.
pub open spec fn type_row(t: Token) -> NodeModel {
    NodeModel::Element(
        ElementModel {
            children: seq![
                cell_of(mono_model(t.css@[0]@)),
                cell_of(saying(classed("span"@, "mj-type-sample--"@ + t.name@), SAMPLE@)),
                NodeModel::Element(
                    saying(
                        bare("td"@),
                        match t.value {
                            Some(v) => v@,
                            None => ""@,
                        },
                    ),
                ),
                cell_of(mono_model(t.css@[2]@)),
                NodeModel::Element(saying(bare("td"@), t.about@)),
            ],
            ..bare("tr"@)
        },
    )
}

fn type_row_el(t: &Token) -> (r: El)
    requires
        t.css@.len() >= 3,
    ensures
        NodeModel::Element(r@) == type_row(*t),
{
    let mut class = String::from_str("mj-type-sample--");
    push_str(&mut class, t.name.as_str());
    let mut cells: Vec<El> = Vec::new();
    cells.push(cell(mono(t.css[0].as_str())));
    cells.push(cell(el("span").class(class.as_str()).text(SAMPLE)));
    cells.push(
        text_cell(
            match &t.value {
                Some(v) => v.as_str(),
                None => "",
            },
        ),
    );
    cells.push(cell(mono(t.css[2].as_str())));
    cells.push(text_cell(t.about.as_str()));
    let r = row(cells);
    assert(els_model(cells@) =~= match type_row(*t) {
        NodeModel::Element(e) => e.children,
        _ => seq![],
    });
    r
}

/// Whether a token is a scalar: a type stack, a spacing, a layout value, a radius, a motion.
pub open spec fn is_scalar(k: TokenKind) -> bool {
    k == TokenKind::Font || k == TokenKind::Tracking || k == TokenKind::Layout || k == TokenKind::Radius
        || k == TokenKind::Motion
}

/// The row of a scalar.
pub open spec fn scalar_row(t: Token) -> NodeModel {
    NodeModel::Element(
        ElementModel {
            children: seq![
                cell_of(mono_model(t.css@[0]@)),
                cell_of(tag_model(kind_word(t.kind))),
                cell_of(
                    mono_model(
                        match t.value {
                            Some(v) => v@,
                            None => ""@,
                        },
                    ),
                ),
                NodeModel::Element(saying(bare("td"@), t.about@)),
            ],
            ..bare("tr"@)
        },
    )
}

fn scalar_row_el(t: &Token) -> (r: El)
    requires
        t.css@.len() >= 1,
    ensures
        NodeModel::Element(r@) == scalar_row(*t),
{
    let mut cells: Vec<El> = Vec::new();
    cells.push(cell(mono(t.css[0].as_str())));
    cells.push(cell(tag(t.kind.as_str())));
    cells.push(
        cell(
            mono(
                match &t.value {
                    Some(v) => v.as_str(),
                    None => "",
                },
            ),
        ),
    );
    cells.push(text_cell(t.about.as_str()));
    let r = row(cells);
    assert(els_model(cells@) =~= match scalar_row(*t) {
        NodeModel::Element(e) => e.children,
        _ => seq![],
    });
    r
}

/// Which table a token is a row of.
pub enum Shelf {
    /// The roles.
    Roles,
    /// The statuses.
    Statuses,
    /// The type scale.
    Types,
    /// The scalars.
    Scalars,
}

/// Whether a token sits on a shelf.
pub open spec fn on_shelf(t: Token, s: Shelf) -> bool {
    match s {
        Shelf::Roles => t.kind == TokenKind::Role,
        Shelf::Statuses => t.kind == TokenKind::Status,
        Shelf::Types => t.kind == TokenKind::Type,
        Shelf::Scalars => is_scalar(t.kind),
    }
}

/// A token's row on a shelf.
pub open spec fn shelf_row(t: Token, s: Shelf) -> NodeModel {
    match s {
        Shelf::Roles => role_row(t),
        Shelf::Statuses => status_row(t),
        Shelf::Types => type_row(t),
        Shelf::Scalars => scalar_row(t),
    }
}

/// The rows of a shelf: its tokens, in the order the list holds them.
pub open spec fn shelf_rows(ts: Seq<Token>, s: Shelf) -> Seq<NodeModel>
    decreases ts.len(),
{
    if ts.len() == 0 {
        seq![]
    } else {
        let before = shelf_rows(ts.drop_last(), s);
        if on_shelf(ts.last(), s) {
            before.push(shelf_row(ts.last(), s))
        } else {
            before
        }
    }
}

/// Every token can be rendered.
pub open spec fn all_renderable(ts: Seq<Token>) -> bool {
    forall|k: int| 0 <= k < ts.len() ==> renderable(#[trigger] ts[k])
}

fn shelf(ts: &Vec<Token>, s: Shelf) -> (r: Vec<El>)
    requires
        all_renderable(ts@),
    ensures
        els_model(r@) == shelf_rows(ts@, s),
{
    let mut rows: Vec<El> = Vec::new();
    for k in 0..ts.len()
        invariant
            all_renderable(ts@),
            els_model(rows@) == shelf_rows(ts@.take(k as int), s),
    {
        proof {
            assert(ts@.take(k + 1).drop_last() =~= ts@.take(k as int));
            assert(ts@.take(k + 1).last() == ts@[k as int]);
            assert(renderable(ts@[k as int]));
        }
        let t = &ts[k];
        let ghost before = rows@;
        let wanted = match s {
            Shelf::Roles => t.kind == TokenKind::Role,
            Shelf::Statuses => t.kind == TokenKind::Status,
            Shelf::Types => t.kind == TokenKind::Type,
            Shelf::Scalars => t.kind == TokenKind::Font || t.kind == TokenKind::Tracking || t.kind == TokenKind::Layout
                || t.kind == TokenKind::Radius || t.kind == TokenKind::Motion,
        };
        if wanted {
            let r = match s {
                Shelf::Roles => role_row_el(t),
                Shelf::Statuses => status_row_el(t),
                Shelf::Types => type_row_el(t),
                Shelf::Scalars => scalar_row_el(t),
            };
            rows.push(r);
            assert(els_model(rows@) =~= els_model(before).push(NodeModel::Element(r@)));
        }
    }
    assert(ts@.take(ts@.len() as int) =~= ts@);
    rows
}

// ------------------------------------------------------------------ the page

/// What the check badge says until the script has compared the stylesheet's fingerprint.
pub const CHECKING: &'static str = "comparing the stylesheet with the executable";

/// What the first card says of the declaration.
pub const ONE_DECLARATION: &'static str = "The site published to GitHub Pages, this Cockpit, the pages the executable renders itself and the Swagger shell are projections of the one file named above. A value changed there and regenerated reaches every surface; a value chosen anywhere else is refused.";

/// The subtitle of the page.
pub const DESIGN_SUBTITLE: &'static str = "What every surface of this tool is rendered with, from the one declaration this executable carries.";

/// The facts of the declaration.
pub open spec fn declaration_rows(r: DesignReport) -> Seq<(Seq<char>, NodeModel)> {
    seq![
        ("Source"@, NodeModel::Element(mono_model(r.source@))),
        ("Fingerprint"@, NodeModel::Element(mono_model(r.fingerprint@))),
        ("On every page"@, NodeModel::Element(mono_model("--mj-design: \""@ + r.design@ + "\""@))),
        ("Dark means"@, NodeModel::Element(mono_model("."@ + r.theme_class@))),
        ("Choice stored under"@, NodeModel::Element(mono_model(r.theme_storage_key@))),
        (
            "Audited at"@,
            NodeModel::Element(
                marks_model(
                    r.viewports@.map_values(|w: usize| NodeModel::Element(tag_model(decimal_of(w as nat) + "px"@))),
                ),
            ),
        ),
    ]
}

/// The counts of the declaration.
pub open spec fn design_stats(t: DesignTallies) -> ElementModel {
    let s = classed("div"@, "mj-stats"@);
    let s = holding(s, statistic_model(decimal_of(t.roles as nat), "roles"@, "the declaration"@));
    let s = holding(s, statistic_model(decimal_of(t.statuses as nat), "statuses"@, "the declaration"@));
    let s = holding(s, statistic_model(decimal_of(t.states as nat), "state words"@, "the declaration"@));
    let s = holding(s, statistic_model(decimal_of(t.type_steps as nat), "type steps"@, "the declaration"@));
    let s = holding(s, statistic_model(decimal_of(t.aliases as nat), "site synonyms"@, "the declaration"@));
    holding(s, statistic_model(decimal_of(t.palette as nat), "palette entries"@, "the declaration"@))
}

/// The first card: the check, the counts, the facts.
pub open spec fn declaration_card(r: DesignReport) -> ElementModel {
    card_with_model(
        "One declaration, every surface"@,
        saying(with_attr(with_attr(bare("span"@), "id"@, "mj-design-check"@), "class"@, "mj-badge mj-badge--pending"@), CHECKING@),
        holding(
            holding(holding(bare("div"@), design_stats(r.tallies)), facts_model(declaration_rows(r))),
            saying(classed("p"@, "mj-note"@), ONE_DECLARATION@),
        ),
    )
}

fn declaration(r: &DesignReport) -> (e: El)
    ensures
        e@ == declaration_card(*r),
{
    let t = &r.tallies;
    let stats = el("div").class("mj-stats").child(statistic(decimal(t.roles).as_str(), "roles", "the declaration")).child(
        statistic(decimal(t.statuses).as_str(), "statuses", "the declaration"),
    ).child(statistic(decimal(t.states).as_str(), "state words", "the declaration")).child(
        statistic(decimal(t.type_steps).as_str(), "type steps", "the declaration"),
    ).child(statistic(decimal(t.aliases).as_str(), "site synonyms", "the declaration")).child(
        statistic(decimal(t.palette).as_str(), "palette entries", "the declaration"),
    );
    let mut widths: Vec<El> = Vec::new();
    for k in 0..r.viewports.len()
        invariant
            widths@.len() == k,
            forall|i: int|
                0 <= i < k ==> (#[trigger] widths@[i])@ == tag_model(decimal_of(r.viewports@[i] as nat) + "px"@),
    {
        let mut w = decimal(r.viewports[k]);
        push_str(&mut w, "px");
        widths.push(tag(w.as_str()));
    }
    assert(els_model(widths@) =~= r.viewports@.map_values(
        |w: usize| NodeModel::Element(tag_model(decimal_of(w as nat) + "px"@)),
    ));
    let mut design = String::from_str("--mj-design: \"");
    push_str(&mut design, r.design.as_str());
    push_str(&mut design, "\"");
    let mut dark = String::from_str(".");
    push_str(&mut dark, r.theme_class.as_str());
    let mut rows: Vec<(&str, Node)> = Vec::new();
    rows.push(("Source", Node::Element(mono(r.source.as_str()))));
    rows.push(("Fingerprint", Node::Element(mono(r.fingerprint.as_str()))));
    rows.push(("On every page", Node::Element(mono(design.as_str()))));
    rows.push(("Dark means", Node::Element(mono(dark.as_str()))));
    rows.push(("Choice stored under", Node::Element(mono(r.theme_storage_key.as_str()))));
    rows.push(("Audited at", Node::Element(el("span").class("mj-marks").children(widths))));
    assert(rows_model(rows@) =~= declaration_rows(*r));
    card_with(
        "One declaration, every surface",
        el("span").attr("id", "mj-design-check").class("mj-badge mj-badge--pending").text(CHECKING),
        el("div").child(stats).child(facts(rows)).child(el("p").class("mj-note").text(ONE_DECLARATION)),
    )
}

/// The row of a projection.
pub open spec fn projection_row(p: Projection) -> NodeModel {
    NodeModel::Element(
        ElementModel {
            children: seq![cell_of(mono_model(p.path@)), NodeModel::Element(saying(bare("td"@), p.read_by@))],
            ..bare("tr"@)
        },
    )
}

/// The body of the page.
pub open spec fn design_body(r: DesignReport, ts: Seq<Token>) -> ElementModel {
    let g = holding(classed("div"@, "mj-grid"@), declaration_card(r));
    let g = holding(
        g,
        card_model("Roles"@, table_model(seq!["role"@, "light"@, "dark"@, "the site's names"@, "for"@], shelf_rows(ts, Shelf::Roles))),
    );
    let g = holding(
        g,
        card_model(
            "Status"@,
            table_model(
                seq!["status"@, "as a badge"@, "text"@, "ground"@, "border"@, "the words filed under it"@],
                shelf_rows(ts, Shelf::Statuses),
            ),
        ),
    );
    let g = holding(
        g,
        card_model(
            "Type"@,
            table_model(seq!["step"@, "as itself"@, "size / leading"@, "utility"@, "for"@], shelf_rows(ts, Shelf::Types)),
        ),
    );
    let g = holding(
        g,
        card_model(
            "Type stacks, layout, radius, motion"@,
            table_model(seq!["token"@, "kind"@, "value"@, "for"@], shelf_rows(ts, Shelf::Scalars)),
        ),
    );
    holding(
        g,
        card_model(
            "Projections"@,
            table_model(seq!["projection"@, "read by"@], r.projections@.map_values(|p: Projection| projection_row(p))),
        ),
    )
}

/// The design system, as this executable carries it. `report` is what the design system
/// answered and `tokens` what its tokens answered, each or why it did not.
pub fn design(report: Result<DesignReport, String>, tokens: Result<Vec<Token>, String>) -> (r: Page)
    requires
        tokens matches Ok(ts) ==> all_renderable(ts@),
    ensures
        r.area == Area::Design,
        r.title@ == "Design"@,
        match (report, tokens) {
            (Err(e), _) => r.main@ == failed_body(e@) && r.status == 500,
            (Ok(_), Err(e)) => r.main@ == failed_body(e@) && r.status == 500,
            (Ok(rep), Ok(ts)) => {
                &&& r.main@ == design_body(rep, ts@)
                &&& r.subtitle matches Some(s) && s@ == DESIGN_SUBTITLE@
                &&& trail_views(r.breadcrumbs@) == seq![("Cockpit"@, Some("/cockpit"@)), ("Design"@, None::<Seq<char>>)]
                &&& r.status == 200
                &&& r.scripts@.len() == 0
            },
        },
{
    let rep = match report {
        Ok(r) => r,
        Err(e) => return failed(Area::Design, "Design", e.as_str()),
    };
    let ts = match tokens {
        Ok(t) => t,
        Err(e) => return failed(Area::Design, "Design", e.as_str()),
    };
    let h1 = ["role", "light", "dark", "the site's names", "for"];
    let h2 = ["status", "as a badge", "text", "ground", "border", "the words filed under it"];
    let h3 = ["step", "as itself", "size / leading", "utility", "for"];
    let h4 = ["token", "kind", "value", "for"];
    let h5 = ["projection", "read by"];
    proof {
        assert(strs_model(h1@) =~= seq!["role"@, "light"@, "dark"@, "the site's names"@, "for"@]);
        assert(strs_model(h2@) =~= seq!["status"@, "as a badge"@, "text"@, "ground"@, "border"@, "the words filed under it"@]);
        assert(strs_model(h3@) =~= seq!["step"@, "as itself"@, "size / leading"@, "utility"@, "for"@]);
        assert(strs_model(h4@) =~= seq!["token"@, "kind"@, "value"@, "for"@]);
        assert(strs_model(h5@) =~= seq!["projection"@, "read by"@]);
    }
    let mut projections: Vec<El> = Vec::new();
    for k in 0..rep.projections.len()
        invariant
            projections@.len() == k,
            forall|i: int|
                0 <= i < k ==> NodeModel::Element((#[trigger] projections@[i])@) == projection_row(rep.projections@[i]),
    {
        let p = &rep.projections[k];
        let mut cells: Vec<El> = Vec::new();
        cells.push(cell(mono(p.path.as_str())));
        cells.push(text_cell(p.read_by.as_str()));
        let r = row(cells);
        assert(els_model(cells@) =~= seq![cell_of(mono_model(p.path@)), NodeModel::Element(saying(bare("td"@), p.read_by@))]);
        projections.push(r);
    }
    assert(els_model(projections@) =~= rep.projections@.map_values(|p: Projection| projection_row(p)));
    let body = el("div").class("mj-grid").child(declaration(&rep)).child(card("Roles", table(&h1, shelf(&ts, Shelf::Roles)))).child(
        card("Status", table(&h2, shelf(&ts, Shelf::Statuses))),
    ).child(card("Type", table(&h3, shelf(&ts, Shelf::Types)))).child(
        card("Type stacks, layout, radius, motion", table(&h4, shelf(&ts, Shelf::Scalars))),
    ).child(card("Projections", table(&h5, projections)));
    let mut trail: Vec<(&str, Option<&str>)> = Vec::new();
    trail.push(("Cockpit", Some("/cockpit")));
    trail.push(("Design", None));
    assert(given_trail(trail@) =~= seq![("Cockpit"@, Some("/cockpit"@)), ("Design"@, None::<Seq<char>>)]);
    Page::new(Area::Design, "Design", body).subtitle(DESIGN_SUBTITLE).trail(trail)
}

} // verus!
