//! Every command of every program here, and every surface that carries it: the listing
//! of what the command graph answered, with its filters as links that keep one another.

use vstd::prelude::*;

use crate::strings::{decimal, decimal_of, join_with_text, push_str, str_eq};
use crate::url::{percent_encode, percent_encoded};

use super::checkouts::{spaced, spaced_text};
use super::frame::{classed, holding, saying};
use super::html::{bare, el, els_model, El, ElementModel, NodeModel};
use super::nav::{opt_text, Area};
use super::pages::{effect_status, effect_status_of, failed, failed_body, given_trail, param, param_of, trail_views, Page};
use super::surfaces::{cell_of, mono_model};
use super::view::{
    badge, badge_model, card, card_model, card_with, card_with_model, cell, chip_items, chips, chips_model, link,
    link_model, mono, row, statistic, statistic_model, strs_model, table, table_model, text_cell,
};

verus! {

broadcast use super::html::lemma_element_node;

/// One command, as the listing reads it.
#[derive(Debug, Clone, PartialEq, Eq)]
pub struct CommandEntry {
    /// Its identity.
    pub id: String,
    /// How it is typed.
    pub invocation: String,
    /// What running it changes, as its word.
    pub effect: String,
    /// The program it belongs to, as its word.
    pub origin: String,
    /// Its recipe in the workflow bridge.
    pub workflow: Option<String>,
    /// Its MCP tool.
    pub mcp: Option<String>,
    /// What it does.
    pub summary: String,
}

/// What listing the commands answered.
#[derive(Debug, Clone, PartialEq, Eq)]
pub struct CommandIndex {
    /// How many commands the graph holds.
    pub total: usize,
    /// The graph's structure fingerprint.
    pub fingerprint: String,
    /// The commands the filters let through.
    pub commands: Vec<CommandEntry>,
}

/// Where the listing lives.
pub const COMMANDS: &'static str = "/cockpit/commands";

/// One filter of a link: its key and value, when it has one.
pub open spec fn link_part(key: Seq<char>, value: Option<Seq<char>>) -> Seq<Seq<char>> {
    match value {
        Some(v) => seq![key + "="@ + percent_encoded(v)],
        None => seq![],
    }
}

/// The address of the listing with its filters in force, one of them set to another value
/// or dropped: origin, then effect, then search.
pub open spec fn filter_link(
    query: Seq<(String, String)>,
    key: Seq<char>,
    value: Option<Seq<char>>,
) -> Seq<char> {
    let origin = if key == "origin"@ { value } else { param_of(query, "origin"@) };
    let effect = if key == "effect"@ { value } else { param_of(query, "effect"@) };
    let search = if key == "q"@ { value } else { param_of(query, "q"@) };
    let parts = link_part("origin"@, origin) + link_part("effect"@, effect) + link_part("q"@, search);
    if parts.len() == 0 {
        COMMANDS@
    } else {
        COMMANDS@ + "?"@ + join_with_text(parts, "&"@)
    }
}

fn push_part(parts: &mut Vec<String>, key: &str, value: Option<&str>)
    ensures
        crate::strings::views(final(parts)@) == crate::strings::views(old(parts)@) + link_part(
            key@,
            match value {
                Some(v) => Some(v@),
                None => None,
            },
        ),
{
    match value {
        Some(v) => {
            let mut part = String::from_str(key);
            push_str(&mut part, "=");
            push_str(&mut part, percent_encode(v).as_str());
            let ghost before = parts@;
            parts.push(part);
            assert(crate::strings::views(parts@) =~= crate::strings::views(before).push(key@ + "="@ + percent_encoded(v@)));
        },
        None => {
            assert(crate::strings::views(parts@) =~= crate::strings::views(parts@) + Seq::<Seq<char>>::empty());
        },
    }
}

struct Filters {
    origin: Option<String>,
    effect: Option<String>,
    search: Option<String>,
}

fn chosen<'a>(key: &str, own: &str, value: Option<&'a str>, current: &'a Option<String>) -> (r: Option<&'a str>)
    ensures
        match r {
            Some(x) => Some(x@),
            None => None::<Seq<char>>,
        } == if key@ == own@ {
            match value {
                Some(v) => Some(v@),
                None => None,
            }
        } else {
            opt_text(*current)
        },
{
    if str_eq(key, own) {
        value
    } else {
        match current {
            Some(c) => Some(c.as_str()),
            None => None,
        }
    }
}

fn here(query: &[(String, String)], f: &Filters, key: &str, value: Option<&str>) -> (r: String)
    requires
        opt_text(f.origin) == param_of(query@, "origin"@),
        opt_text(f.effect) == param_of(query@, "effect"@),
        opt_text(f.search) == param_of(query@, "q"@),
    ensures
        r@ == filter_link(
            query@,
            key@,
            match value {
                Some(v) => Some(v@),
                None => None,
            },
        ),
{
    let mut parts: Vec<String> = Vec::new();
    push_part(&mut parts, "origin", chosen(key, "origin", value, &f.origin));
    push_part(&mut parts, "effect", chosen(key, "effect", value, &f.effect));
    push_part(&mut parts, "q", chosen(key, "q", value, &f.search));
    if parts.len() == 0 {
        return String::from_str(COMMANDS);
    }
    let mut out = String::from_str(COMMANDS);
    push_str(&mut out, "?");
    push_str(&mut out, crate::strings::joined_by(&parts, "&").as_str());
    out
}

/// How many commands belong to a program, or all of them.
pub open spec fn of_origin(cs: Seq<CommandEntry>, value: Option<Seq<char>>) -> nat
    decreases cs.len(),
{
    if cs.len() == 0 {
        0
    } else {
        of_origin(cs.drop_last(), value) + if (value matches Some(v) ==> cs.last().origin@ == v) {
            1nat
        } else {
            0nat
        }
    }
}

fn count_origin(cs: &Vec<CommandEntry>, value: Option<&str>) -> (r: usize)
    ensures
        r as nat == of_origin(
            cs@,
            match value {
                Some(v) => Some(v@),
                None => None,
            },
        ),
{
    let ghost v = match value {
        Some(v) => Some(v@),
        None => None::<Seq<char>>,
    };
    let mut n: usize = 0;
    for k in 0..cs.len()
        invariant
            n as nat == of_origin(cs@.take(k as int), v),
            n <= k,
            v == match value {
                Some(x) => Some(x@),
                None => None::<Seq<char>>,
            },
    {
        proof {
            assert(cs@.take(k + 1).drop_last() =~= cs@.take(k as int));
            assert(cs@.take(k + 1).last() == cs@[k as int]);
        }
        let hit = match value {
            Some(x) => str_eq(cs[k].origin.as_str(), x),
            None => true,
        };
        if hit {
            n += 1;
        }
    }
    assert(cs@.take(cs@.len() as int) =~= cs@);
    n
}

/// The programs, as the way in.
pub open spec fn program_chips(query: Seq<(String, String)>, cs: Seq<CommandEntry>) -> Seq<(Seq<char>, Seq<char>, usize, bool)> {
    let o = param_of(query, "origin"@);
    seq![
        ("every program"@, filter_link(query, "origin"@, None), of_origin(cs, None) as usize, o == None::<Seq<char>>),
        (
            "executable"@,
            filter_link(query, "origin"@, Some("executable"@)),
            of_origin(cs, Some("executable"@)) as usize,
            o == Some("executable"@),
        ),
        ("shell tool"@, filter_link(query, "origin"@, Some("tool"@)), of_origin(cs, Some("tool"@)) as usize, o == Some("tool"@)),
        (
            "workflow"@,
            filter_link(query, "origin"@, Some("workflow"@)),
            of_origin(cs, Some("workflow"@)) as usize,
            o == Some("workflow"@),
        ),
    ]
}

/// The effects, as filters.
pub open spec fn effect_chips(query: Seq<(String, String)>) -> Seq<(Seq<char>, Seq<char>, usize, bool)> {
    let e = param_of(query, "effect"@);
    seq![
        ("any effect"@, filter_link(query, "effect"@, None), 0usize, e == None::<Seq<char>>),
        ("read-only"@, filter_link(query, "effect"@, Some("read_only"@)), 0usize, e == Some("read_only"@)),
        ("up to local"@, filter_link(query, "effect"@, Some("local_mutation"@)), 0usize, e == Some("local_mutation"@)),
        (
            "up to repository"@,
            filter_link(query, "effect"@, Some("repository_mutation"@)),
            0usize,
            e == Some("repository_mutation"@),
        ),
    ]
}

fn same(a: &Option<String>, b: Option<&str>) -> (r: bool)
    ensures
        r == (opt_text(*a) == match b {
            Some(x) => Some(x@),
            None => None::<Seq<char>>,
        }),
{
    match (a, b) {
        (Some(x), Some(y)) => str_eq(x.as_str(), y),
        (None, None) => true,
        _ => false,
    }
}

/// The row of a command.
pub open spec fn command_row(c: CommandEntry) -> NodeModel {
    NodeModel::Element(
        ElementModel {
            children: seq![
                cell_of(link_model("/cockpit/commands/"@ + percent_encoded(c.id@), c.invocation@)),
                cell_of(badge_model(effect_status_of(c.effect@), spaced(c.effect@))),
                NodeModel::Element(saying(bare("td"@), c.origin@)),
                cell_of(
                    match c.workflow {
                        Some(w) => mono_model("just "@ + w@),
                        None => saying(classed("span"@, "mj-note"@), "—"@),
                    },
                ),
                cell_of(
                    match c.mcp {
                        Some(t) => mono_model(t@),
                        None => saying(classed("span"@, "mj-note"@), "—"@),
                    },
                ),
                NodeModel::Element(saying(bare("td"@), c.summary@)),
            ],
            ..bare("tr"@)
        },
    )
}

fn command_row_el(c: &CommandEntry) -> (r: El)
    ensures
        NodeModel::Element(r@) == command_row(*c),
{
    let mut href = String::from_str("/cockpit/commands/");
    push_str(&mut href, percent_encode(c.id.as_str()).as_str());
    let words = spaced_text(c.effect.as_str());
    let workflow = match &c.workflow {
        Some(w) => {
            let mut t = String::from_str("just ");
            push_str(&mut t, w.as_str());
            mono(t.as_str())
        },
        None => el("span").class("mj-note").text("—"),
    };
    let tool = match &c.mcp {
        Some(t) => mono(t.as_str()),
        None => el("span").class("mj-note").text("—"),
    };
    let mut cells: Vec<El> = Vec::new();
    cells.push(cell(link(href.as_str(), c.invocation.as_str())));
    cells.push(cell(badge(effect_status(c.effect.as_str()), words.as_str())));
    cells.push(text_cell(c.origin.as_str()));
    cells.push(cell(workflow));
    cells.push(cell(tool));
    cells.push(text_cell(c.summary.as_str()));
    let r = row(cells);
    assert(els_model(cells@) =~= match command_row(*c) {
        NodeModel::Element(x) => x.children,
        _ => seq![],
    });
    r
}

/// What the first card says the listing is composed from.
pub const COMPOSED: &'static str = "Composed from the three declarations that already exist: the clap tree of the Rust executable, the shipped command registry of the shell tool, and the recipes the workflow runner describes. Where a command appears is derived from what running it changes, never declared.";

/// The subtitle of the page.
pub const COMMANDS_SUBTITLE: &'static str = "Every command of every program here, and every surface that carries it.";

/// The body of the page.
pub open spec fn commands_body(query: Seq<(String, String)>, index: CommandIndex) -> ElementModel {
    let offers = card_with_model(
        "What this repository offers"@,
        badge_model("ok"@, index.fingerprint@),
        holding(
            holding(
                holding(
                    holding(
                        bare("div"@),
                        holding(
                            holding(
                                classed("div"@, "mj-stats"@),
                                statistic_model(decimal_of(index.total as nat), "commands"@, "the command graph"@),
                            ),
                            statistic_model(decimal_of(index.commands@.len()), "shown"@, "this filter"@),
                        ),
                    ),
                    chips_model(program_chips(query, index.commands@)),
                ),
                chips_model(effect_chips(query)),
            ),
            saying(classed("p"@, "mj-note"@), COMPOSED@),
        ),
    );
    holding(
        holding(classed("div"@, "mj-grid"@), offers),
        card_model(
            "Every command"@,
            table_model(
                seq!["command"@, "effect"@, "program"@, "workflow"@, "mcp tool"@, "summary"@],
                index.commands@.map_values(|c: CommandEntry| command_row(c)),
            ),
        ),
    )
}

fn chip(label: &str, href: String, count: usize, current: bool) -> (r: (String, String, usize, bool))
    ensures
        r.0@ == label@,
        r.1@ == href@,
        r.2 == count,
        r.3 == current,
{
    (String::from_str(label), href, count, current)
}

/// Every command of every program here. `query` carries the filters in force; `index` is
/// what listing the commands with them answered, or why it did not.
pub fn commands(query: &[(String, String)], index: Result<CommandIndex, String>) -> (r: Page)
    ensures
        r.area == Area::Commands,
        r.title@ == "Commands"@,
        match index {
            Err(e) => r.main@ == failed_body(e@) && r.status == 500,
            Ok(ix) => {
                &&& r.main@ == commands_body(query@, ix)
                &&& r.subtitle matches Some(s) && s@ == COMMANDS_SUBTITLE@
                &&& trail_views(r.breadcrumbs@) == seq![("Cockpit"@, Some("/cockpit"@)), ("Commands"@, None::<Seq<char>>)]
                &&& r.status == 200
                &&& r.scripts@.len() == 0
            },
        },
{
    let ix = match index {
        Ok(ix) => ix,
        Err(e) => return failed(Area::Commands, "Commands", e.as_str()),
    };
    let f = Filters { origin: param(query, "origin"), effect: param(query, "effect"), search: param(query, "q") };
    let cs = &ix.commands;
    let mut programs: Vec<(String, String, usize, bool)> = Vec::new();
    programs.push(chip("every program", here(query, &f, "origin", None), count_origin(cs, None), same(&f.origin, None)));
    programs.push(
        chip(
            "executable",
            here(query, &f, "origin", Some("executable")),
            count_origin(cs, Some("executable")),
            same(&f.origin, Some("executable")),
        ),
    );
    programs.push(
        chip("shell tool", here(query, &f, "origin", Some("tool")), count_origin(cs, Some("tool")), same(&f.origin, Some("tool"))),
    );
    programs.push(
        chip(
            "workflow",
            here(query, &f, "origin", Some("workflow")),
            count_origin(cs, Some("workflow")),
            same(&f.origin, Some("workflow")),
        ),
    );
    assert(chip_items(programs@) =~= program_chips(query@, cs@));
    let mut effects: Vec<(String, String, usize, bool)> = Vec::new();
    effects.push(chip("any effect", here(query, &f, "effect", None), 0, same(&f.effect, None)));
    effects.push(chip("read-only", here(query, &f, "effect", Some("read_only")), 0, same(&f.effect, Some("read_only"))));
    effects.push(
        chip("up to local", here(query, &f, "effect", Some("local_mutation")), 0, same(&f.effect, Some("local_mutation"))),
    );
    effects.push(
        chip(
            "up to repository",
            here(query, &f, "effect", Some("repository_mutation")),
            0,
            same(&f.effect, Some("repository_mutation")),
        ),
    );
    assert(chip_items(effects@) =~= effect_chips(query@));
    let mut rows: Vec<El> = Vec::new();
    for k in 0..cs.len()
        invariant
            rows@.len() == k,
            forall|i: int| 0 <= i < k ==> NodeModel::Element((#[trigger] rows@[i])@) == command_row(cs@[i]),
    {
        rows.push(command_row_el(&cs[k]));
    }
    assert(els_model(rows@) =~= cs@.map_values(|c: CommandEntry| command_row(c)));
    let headers = ["command", "effect", "program", "workflow", "mcp tool", "summary"];
    proof {
        assert(strs_model(headers@) =~= seq!["command"@, "effect"@, "program"@, "workflow"@, "mcp tool"@, "summary"@]);
    }
    let stats = el("div").class("mj-stats").child(statistic(decimal(ix.total).as_str(), "commands", "the command graph")).child(
        statistic(decimal(cs.len()).as_str(), "shown", "this filter"),
    );
    let offers = card_with(
        "What this repository offers",
        badge("ok", ix.fingerprint.as_str()),
        el("div").child(stats).child(chips(programs)).child(chips(effects)).child(el("p").class("mj-note").text(COMPOSED)),
    );
    let body = el("div").class("mj-grid").child(offers).child(card("Every command", table(&headers, rows)));
    let mut trail: Vec<(&str, Option<&str>)> = Vec::new();
    trail.push(("Cockpit", Some("/cockpit")));
    trail.push(("Commands", None));
    assert(given_trail(trail@) =~= seq![("Cockpit"@, Some("/cockpit"@)), ("Commands"@, None::<Seq<char>>)]);
    Page::new(Area::Commands, "Commands", body).subtitle(COMMANDS_SUBTITLE).trail(trail)
}

} // verus!
