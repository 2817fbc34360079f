//! The directories of the layer: every one, the contract it declares, and the chain it
//! inherits, with one directory in focus when the query names it.

use vstd::prelude::*;

use crate::strings::{decimal, decimal_of, join_with_text, joined_by, push_char, push_str, views};
use crate::url::{percent_encode, percent_encoded};

use super::checkouts::nothing_model;
use super::frame::{classed, holding, saying};
use super::html::{bare, el, els_model, El, ElementModel, Node, NodeModel};
use super::nav::{opt_text, Area};
use super::pages::{failed, failed_body, given_trail, trail_views, Page};
use super::surfaces::{cell_of, mono_model};
use super::view::{alert, alert_model, badge, badge_model, card, card_model, card_with, card_with_model, cell, facts, facts_model, link, link_model, mono, nothing, row, rows_model, statistic, statistic_model, strs_model, table, table_model, tag, tag_model, text_cell};

verus! {

broadcast use super::html::lemma_element_node;

/// Where a directory stands with its contract.
#[derive(Debug, Clone, Copy, PartialEq, Eq, Structural)]
pub enum DirectoryState {
    /// It carries a contract.
    Documented,
    /// A contract above it releases it.
    Exempt,
    /// It owes one and has none.
    Owed,
}

/// The contract a directory declares.
#[derive(Debug, Clone, PartialEq, Eq)]
pub struct Contract {
    /// Its identity.
    pub id: String,
    /// What it says the directory is for.
    pub description: Option<String>,
    /// The document.
    pub path: String,
    /// How far it reaches.
    pub scope: String,
    /// How it composes with what it inherits.
    pub composition: String,
    /// Its declared order.
    pub order: u64,
    /// Its status.
    pub status: String,
    /// Who provides it.
    pub providers: Vec<String>,
    /// Who it is for.
    pub audience: Vec<String>,
}

/// One document of the chain that applies to a directory.
#[derive(Debug, Clone, PartialEq, Eq)]
pub struct EffectiveEntry {
    /// How deep the document sits.
    pub depth: usize,
    /// Its identity.
    pub id: String,
    /// Declared here rather than inherited.
    pub local: bool,
    /// How it composes.
    pub composition: String,
    /// Its declared order.
    pub order: u64,
    /// Why it reaches here.
    pub reason: String,
}

/// One directory of the layer.
#[derive(Debug, Clone, PartialEq, Eq)]
pub struct DirectoryEntry {
    /// Its path.
    pub path: String,
    /// How deep it is.
    pub depth: usize,
    /// Where it stands.
    pub state: DirectoryState,
    /// The contract that releases it, when one does.
    pub exempted_by: Option<String>,
    /// The contract that governs it, when one does.
    pub governed_by: Option<String>,
    /// Its own contract.
    pub contract: Option<Contract>,
    /// How many objects the index holds in it.
    pub objects: usize,
    /// The chain that applies to it, least specific first.
    pub effective: Vec<EffectiveEntry>,
}

/// The layer's directories, counted.
#[derive(Debug, Clone, Copy, PartialEq, Eq)]
pub struct DirectoryTallies {
    /// Directories.
    pub directories: usize,
    /// With a contract.
    pub documented: usize,
    /// Released from above.
    pub exempt: usize,
    /// Owing one.
    pub owed: usize,
}

/// What the directory listing answered.
#[derive(Debug, Clone, PartialEq, Eq)]
pub struct DirectoryReport {
    /// The counts.
    pub tallies: DirectoryTallies,
    /// The directories, in the order of the hierarchy.
    pub directories: Vec<DirectoryEntry>,
}

// ------------------------------------------------------------------ the focus

/// The directory a query focuses: its `path`, when it names one.
pub open spec fn focus_of(query: Seq<(String, String)>) -> Option<Seq<char>>
    decreases query.len(),
{
    if query.len() == 0 {
        None
    } else if query[0].0@ == "path"@ {
        if query[0].1@.len() > 0 {
            Some(query[0].1@)
        } else {
            None
        }
    } else {
        focus_of(query.drop_first())
    }
}

/// The directory a query focuses, when it names one: the one the page asks about again.
pub fn focus(query: &[(String, String)]) -> (r: Option<String>)
    ensures
        opt_text(r) == focus_of(query@),
{
    let mut i: usize = 0;
    assert(query@.skip(0) =~= query@);
    while i < query.len()
        invariant
            i <= query@.len(),
            focus_of(query@) == focus_of(query@.skip(i as int)),
        decreases query.len() - i,
    {
        assert(query@.skip(i as int)[0] == query@[i as int]);
        assert(query@.skip(i as int).drop_first() =~= query@.skip(i + 1));
        if crate::strings::str_eq(query[i].0.as_str(), "path") {
            if query[i].1.unicode_len() > 0 {
                return Some(String::from_str(query[i].1.as_str()));
            }
            return None;
        }
        i += 1;
    }
    None
}

// ------------------------------------------------------------------ the hierarchy

/// The last segment of a path.
pub open spec fn last_segment(path: Seq<char>) -> Seq<char>
    decreases path.len(),
{
    if path.len() == 0 {
        path
    } else if path.last() == '/' {
        seq![]
    } else {
        last_segment(path.drop_last()).push(path.last())
    }
}

/// What a row shows of a directory's path: the part after its last separator, or the
/// whole path when it has none.
pub open spec fn directory_name(path: Seq<char>) -> Seq<char> {
    last_segment(path)
}

fn name_of(path: &str) -> (r: String)
    ensures
        r@ == directory_name(path@),
{
    let chars = crate::strings::chars_of(path);
    let n = chars.len();
    let mut k = n;
    assert(path@.take(n as int) =~= path@);
    assert(path@.subrange(n as int, n as int) =~= Seq::<char>::empty());
    assert(last_segment(path@.take(n as int)) + path@.subrange(n as int, n as int) =~= last_segment(path@));
    while k > 0 && chars[k - 1] != '/'
        invariant
            k <= n,
            n == path@.len(),
            chars@ == path@,
            last_segment(path@) == last_segment(path@.take(k as int)) + path@.subrange(k as int, n as int),
            forall|j: int| k <= j < n ==> path@[j] != '/',
        decreases k,
    {
        proof {
            let t = path@.take(k as int);
            assert(t.drop_last() =~= path@.take(k - 1));
            assert(t.last() == path@[k - 1]);
            assert(path@.subrange(k - 1, n as int) =~= seq![path@[k - 1]] + path@.subrange(k as int, n as int));
            assert(last_segment(t) == last_segment(path@.take(k - 1)).push(path@[k - 1]));
            assert(last_segment(path@.take(k - 1)).push(path@[k - 1]) + path@.subrange(k as int, n as int)
                =~= last_segment(path@.take(k - 1)) + path@.subrange(k - 1, n as int));
        }
        k -= 1;
    }
    proof {
        assert(path@.take(n as int) =~= path@);
    }
    if k == 0 {
        proof {
            assert(path@.take(0) =~= Seq::<char>::empty());
            assert(path@.subrange(0, n as int) =~= path@);
        }
        return String::from_str(path);
    }
    proof {
        assert(path@[k - 1] == '/');
        assert(path@.take(k as int).last() == '/');
        assert(last_segment(path@.take(k as int)) == Seq::<char>::empty());
        assert(path@.subrange(k as int, n as int) =~= last_segment(path@));
    }
    String::from_str(path.substring_char(k, n))
}

/// The indent of a directory of this depth: three no-break spaces a level.
pub open spec fn indent_of(depth: nat) -> Seq<char> {
    Seq::new(depth * 3, |i: int| '\u{a0}')
}

fn indent(depth: usize) -> (r: String)
    requires
        depth * 3 <= usize::MAX,
    ensures
        r@ == indent_of(depth as nat),
{
    let n = depth * 3;
    let mut out = String::new();
    for i in 0..n
        invariant
            n == depth * 3,
            out@ == Seq::new(i as nat, |j: int| '\u{a0}'),
    {
        push_char(&mut out, '\u{a0}');
        assert(out@ =~= Seq::new((i + 1) as nat, |j: int| '\u{a0}'));
    }
    out
}

/// The badge of a directory's standing.
pub open spec fn state_badge(s: DirectoryState) -> ElementModel {
    match s {
        DirectoryState::Documented => badge_model("ok"@, "documented"@),
        DirectoryState::Exempt => badge_model("info"@, "exempt"@),
        DirectoryState::Owed => badge_model("fail"@, "owed"@),
    }
}

fn state_badge_el(s: DirectoryState) -> (r: El)
    ensures
        r@ == state_badge(s),
{
    match s {
        DirectoryState::Documented => badge("ok", "documented"),
        DirectoryState::Exempt => badge("info", "exempt"),
        DirectoryState::Owed => badge("fail", "owed"),
    }
}

/// A note.
pub open spec fn note_model(text: Seq<char>) -> ElementModel {
    saying(classed("span"@, "mj-note"@), text)
}

/// The row of one directory in the hierarchy.
pub open spec fn directory_row(d: DirectoryEntry) -> NodeModel {
    let decided = match d.exempted_by {
        Some(by) => mono_model(by@),
        None => match d.governed_by {
            Some(by) => mono_model(by@),
            None => note_model("nothing declares it"@),
        },
    };
    let contract = match d.contract {
        Some(c) => holding(
            holding(bare("span"@), mono_model(c.id@)),
            note_model(
                match c.description {
                    Some(x) => x@,
                    None => ""@,
                },
            ),
        ),
        None => note_model("no contract of its own"@),
    };
    NodeModel::Element(
        ElementModel {
            children: seq![
                cell_of(
                    holding(
                        holding(bare("span"@), note_model(indent_of(d.depth as nat))),
                        link_model("/cockpit/directories?path="@ + percent_encoded(d.path@), directory_name(d.path@)),
                    ),
                ),
                cell_of(state_badge(d.state)),
                cell_of(contract),
                cell_of(decided),
                NodeModel::Element(saying(bare("td"@), decimal_of(d.objects as nat))),
            ],
            ..bare("tr"@)
        },
    )
}

fn directory_row_el(d: &DirectoryEntry) -> (r: El)
    requires
        d.depth * 3 <= usize::MAX,
    ensures
        NodeModel::Element(r@) == directory_row(*d),
{
    let pad = indent(d.depth);
    let name = name_of(d.path.as_str());
    let mut href = String::from_str("/cockpit/directories?path=");
    push_str(&mut href, percent_encode(d.path.as_str()).as_str());
    let decided = match &d.exempted_by {
        Some(by) => mono(by.as_str()),
        None => match &d.governed_by {
            Some(by) => mono(by.as_str()),
            None => el("span").class("mj-note").text("nothing declares it"),
        },
    };
    let contract = match &d.contract {
        Some(c) => el("span").child(mono(c.id.as_str())).child(
            el("span").class("mj-note").text(
                match &c.description {
                    Some(x) => x.as_str(),
                    None => "",
                },
            ),
        ),
        None => el("span").class("mj-note").text("no contract of its own"),
    };
    let mut cells: Vec<El> = Vec::new();
    cells.push(
        cell(el("span").child(el("span").class("mj-note").text(pad.as_str())).child(link(href.as_str(), name.as_str()))),
    );
    cells.push(cell(state_badge_el(d.state)));
    cells.push(cell(contract));
    cells.push(cell(decided));
    cells.push(text_cell(decimal(d.objects).as_str()));
    let r = row(cells);
    assert(els_model(cells@) =~= match directory_row(*d) {
        NodeModel::Element(e) => e.children,
        _ => seq![],
    });
    r
}

/// Every directory is shallow enough for its indent to be written.
pub open spec fn indentable(ds: Seq<DirectoryEntry>) -> bool {
    forall|k: int| 0 <= k < ds.len() ==> (#[trigger] ds[k]).depth * 3 <= usize::MAX
}

/// What the coverage card says when nothing is owed.
pub const COVERED: &'static str = "Every directory here says what it is for, or a contract above it says why it need not. These are the directories the index holds content for; the command that walks the working tree and refuses a commit is `majordomus context validate`.";

/// The coverage card: the counts, and what is owed.
pub open spec fn coverage_model(t: DirectoryTallies) -> ElementModel {
    card_model(
        "Coverage"@,
        holding(
            holding(
                bare("div"@),
                holding(
                    holding(
                        holding(
                            holding(
                                classed("div"@, "mj-stats"@),
                                statistic_model(decimal_of(t.directories as nat), "directories"@, "the layer, from the index"@),
                            ),
                            statistic_model(decimal_of(t.documented as nat), "documented"@, "carry a contract"@),
                        ),
                        statistic_model(decimal_of(t.exempt as nat), "exempt"@, "released from above"@),
                    ),
                    statistic_model(decimal_of(t.owed as nat), "owed"@, "owe one and have none"@),
                ),
            ),
            if t.owed == 0 {
                saying(classed("p"@, "mj-note"@), COVERED@)
            } else {
                alert_model(
                    "fail"@,
                    decimal_of(t.owed as nat)
                        + " directory(ies) owe a contract and carry none; `majordomus context validate` names them."@,
                )
            },
        ),
    )
}

fn coverage(t: &DirectoryTallies) -> (r: El)
    ensures
        r@ == coverage_model(*t),
{
    let stats = el("div").class("mj-stats").child(
        statistic(decimal(t.directories).as_str(), "directories", "the layer, from the index"),
    ).child(statistic(decimal(t.documented).as_str(), "documented", "carry a contract")).child(
        statistic(decimal(t.exempt).as_str(), "exempt", "released from above"),
    ).child(statistic(decimal(t.owed).as_str(), "owed", "owe one and have none"));
    let said = if t.owed == 0 {
        el("p").class("mj-note").text(COVERED)
    } else {
        let mut line = decimal(t.owed);
        push_str(&mut line, " directory(ies) owe a contract and carry none; `majordomus context validate` names them.");
        alert("fail", line.as_str())
    };
    card("Coverage", el("div").child(stats).child(said))
}

/// The hierarchy card.
pub open spec fn hierarchy_model(ds: Seq<DirectoryEntry>) -> ElementModel {
    card_model(
        "The hierarchy"@,
        if ds.len() == 0 {
            nothing_model("The index holds no directory of the layer."@)
        } else {
            table_model(
                seq!["Directory"@, "State"@, "Contract"@, "Decided by"@, "Objects"@],
                ds.map_values(|d: DirectoryEntry| directory_row(d)),
            )
        },
    )
}

fn hierarchy(ds: &Vec<DirectoryEntry>) -> (r: El)
    requires
        indentable(ds@),
    ensures
        r@ == hierarchy_model(ds@),
{
    if ds.len() == 0 {
        return card("The hierarchy", nothing("The index holds no directory of the layer."));
    }
    let mut rows: Vec<El> = Vec::new();
    for k in 0..ds.len()
        invariant
            indentable(ds@),
            rows@.len() == k,
            forall|i: int| 0 <= i < k ==> NodeModel::Element((#[trigger] rows@[i])@) == directory_row(ds@[i]),
    {
        assert(ds@[k as int].depth * 3 <= usize::MAX);
        rows.push(directory_row_el(&ds[k]));
    }
    assert(els_model(rows@) =~= ds@.map_values(|d: DirectoryEntry| directory_row(d)));
    let headers = ["Directory", "State", "Contract", "Decided by", "Objects"];
    proof {
        assert(strs_model(headers@) =~= seq!["Directory"@, "State"@, "Contract"@, "Decided by"@, "Objects"@]);
    }
    card("The hierarchy", table(&headers, rows))
}

// ------------------------------------------------------------------ one directory

/// The facts of a directory's own contract.
pub open spec fn contract_rows(c: Contract) -> Seq<(Seq<char>, NodeModel)> {
    seq![
        ("Identity"@, NodeModel::Element(mono_model(c.id@))),
        ("Document"@, NodeModel::Element(mono_model(c.path@))),
        ("Scope"@, NodeModel::Element(tag_model(c.scope@))),
        ("Composition"@, NodeModel::Element(tag_model(c.composition@))),
        ("Order"@, NodeModel::Element(saying(bare("span"@), decimal_of(c.order as nat)))),
        ("Status"@, NodeModel::Element(tag_model(c.status@))),
        ("Providers"@, NodeModel::Element(saying(bare("span"@), join_with_text(views(c.providers@), ", "@)))),
        ("Audience"@, NodeModel::Element(saying(bare("span"@), join_with_text(views(c.audience@), ", "@)))),
    ]
}

/// A directory's own contract, or the note that it declares none.
pub open spec fn local_model(c: Option<Contract>) -> ElementModel {
    match c {
        Some(c) => facts_model(contract_rows(c)),
        None => saying(classed("p"@, "mj-note"@), "This directory declares no contract of its own."@),
    }
}

fn order_text(n: u64) -> (r: String)
    ensures
        r@ == decimal_of(n as nat),
{
    let mut out = String::new();
    crate::strings::push_decimal_u64(&mut out, n);
    assert(out@ =~= decimal_of(n as nat));
    out
}

fn local(c: &Option<Contract>) -> (r: El)
    ensures
        r@ == local_model(*c),
{
    match c {
        Some(c) => {
            let order = order_text(c.order);
            let providers = joined_by(&c.providers, ", ");
            let audience = joined_by(&c.audience, ", ");
            let mut rows: Vec<(&str, Node)> = Vec::new();
            rows.push(("Identity", Node::Element(mono(c.id.as_str()))));
            rows.push(("Document", Node::Element(mono(c.path.as_str()))));
            rows.push(("Scope", Node::Element(tag(c.scope.as_str()))));
            rows.push(("Composition", Node::Element(tag(c.composition.as_str()))));
            rows.push(("Order", Node::Element(el("span").text(order.as_str()))));
            rows.push(("Status", Node::Element(tag(c.status.as_str()))));
            rows.push(("Providers", Node::Element(el("span").text(providers.as_str()))));
            rows.push(("Audience", Node::Element(el("span").text(audience.as_str()))));
            assert(rows_model(rows@) =~= contract_rows(*c));
            facts(rows)
        },
        None => el("p").class("mj-note").text("This directory declares no contract of its own."),
    }
}

/// One document of the chain.
pub open spec fn chain_row(e: EffectiveEntry) -> NodeModel {
    NodeModel::Element(
        ElementModel {
            children: seq![
                NodeModel::Element(saying(bare("td"@), decimal_of(e.depth as nat))),
                cell_of(mono_model(e.id@)),
                cell_of(
                    if e.local {
                        badge_model("ok"@, "local"@)
                    } else {
                        badge_model("info"@, "inherited"@)
                    },
                ),
                cell_of(tag_model(e.composition@)),
                NodeModel::Element(saying(bare("td"@), decimal_of(e.order as nat))),
                NodeModel::Element(saying(bare("td"@), e.reason@)),
            ],
            ..bare("tr"@)
        },
    )
}

fn chain_row_el(e: &EffectiveEntry) -> (r: El)
    ensures
        NodeModel::Element(r@) == chain_row(*e),
{
    let mut cells: Vec<El> = Vec::new();
    cells.push(text_cell(decimal(e.depth).as_str()));
    cells.push(cell(mono(e.id.as_str())));
    cells.push(
        cell(
            if e.local {
                badge("ok", "local")
            } else {
                badge("info", "inherited")
            },
        ),
    );
    cells.push(cell(tag(e.composition.as_str())));
    cells.push(text_cell(order_text(e.order).as_str()));
    cells.push(text_cell(e.reason.as_str()));
    let r = row(cells);
    assert(els_model(cells@) =~= match chain_row(*e) {
        NodeModel::Element(x) => x.children,
        _ => seq![],
    });
    r
}

/// What the effective-contract card says the chain is.
pub const EFFECTIVE: &'static str = "What applies here once inheritance is resolved: every document whose scope reaches this directory, least specific first — depth, then declared order, then path. This is the chain `majordomus context resolve` composes.";

/// The focused directory: its own contract and the chain that applies to it.
pub open spec fn directory_detail(d: DirectoryEntry) -> ElementModel {
    holding(
        holding(
            classed("div"@, "mj-grid"@),
            card_with_model("Local contract — "@ + d.path@, state_badge(d.state), local_model(d.contract)),
        ),
        card_model(
            "Effective contract"@,
            holding(
                holding(bare("div"@), saying(classed("p"@, "mj-prose"@), EFFECTIVE@)),
                if d.effective@.len() == 0 {
                    nothing_model("No document reaches this directory."@)
                } else {
                    table_model(
                        seq!["Depth"@, "Document"@, "Origin"@, "Composition"@, "Order"@, "Why"@],
                        d.effective@.map_values(|e: EffectiveEntry| chain_row(e)),
                    )
                },
            ),
        ),
    )
}

fn directory_detail_el(d: &DirectoryEntry) -> (r: El)
    ensures
        r@ == directory_detail(*d),
{
    let mut rows: Vec<El> = Vec::new();
    for k in 0..d.effective.len()
        invariant
            rows@.len() == k,
            forall|i: int| 0 <= i < k ==> NodeModel::Element((#[trigger] rows@[i])@) == chain_row(d.effective@[i]),
    {
        rows.push(chain_row_el(&d.effective[k]));
    }
    assert(els_model(rows@) =~= d.effective@.map_values(|e: EffectiveEntry| chain_row(e)));
    let chain = if rows.len() == 0 {
        nothing("No document reaches this directory.")
    } else {
        let headers = ["Depth", "Document", "Origin", "Composition", "Order", "Why"];
        proof {
            assert(strs_model(headers@) =~= seq!["Depth"@, "Document"@, "Origin"@, "Composition"@, "Order"@, "Why"@]);
        }
        table(&headers, rows)
    };
    let mut title = String::from_str("Local contract — ");
    push_str(&mut title, d.path.as_str());
    el("div").class("mj-grid").child(card_with(title.as_str(), state_badge_el(d.state), local(&d.contract))).child(
        card("Effective contract", el("div").child(el("p").class("mj-prose").text(EFFECTIVE)).child(chain)),
    )
}

/// What the page shows of the focused directory, from what asking about it answered.
pub open spec fn focused_model(path: Seq<char>, one: Result<DirectoryReport, String>) -> ElementModel {
    match one {
        Err(e) => alert_model("fail"@, e@),
        Ok(r) => if r.directories@.len() == 0 {
            alert_model("fail"@, "no directory '"@ + path + "' in the layer"@)
        } else {
            directory_detail(r.directories@[0])
        },
    }
}

fn focused(path: &str, one: &Result<DirectoryReport, String>) -> (r: El)
    ensures
        r@ == focused_model(path@, *one),
{
    match one {
        Err(e) => alert("fail", e.as_str()),
        Ok(r) => if r.directories.len() == 0 {
            let mut line = String::from_str("no directory '");
            push_str(&mut line, path);
            push_str(&mut line, "' in the layer");
            alert("fail", line.as_str())
        } else {
            directory_detail_el(&r.directories[0])
        },
    }
}

// ------------------------------------------------------------------ the page

/// The subtitle of the page.
pub const DIRECTORIES_SUBTITLE: &'static str = "Every directory of the layer, the contract it declares, and the chain it inherits. Derived from the index through `directories.list`; the Cockpit lists no directory itself.";

/// The body of the page: the coverage, the focused directory when there is one, and the
/// hierarchy.
pub open spec fn directories_body(
    query: Seq<(String, String)>,
    r: DirectoryReport,
    one: Option<Result<DirectoryReport, String>>,
) -> ElementModel {
    let g = holding(classed("div"@, "mj-grid"@), coverage_model(r.tallies));
    let g = match (focus_of(query), one) {
        (Some(path), Some(one)) => holding(g, focused_model(path, one)),
        _ => g,
    };
    holding(g, hierarchy_model(r.directories@))
}

/// Every directory of the layer, the contract it declares, and the chain it inherits.
/// `report` is what listing the directories answered, or why it did not; `one` is what
/// asking about the directory the query focuses answered, present exactly when the query
/// focuses one.
pub fn directories(
    query: &[(String, String)],
    report: Result<DirectoryReport, String>,
    one: Option<Result<DirectoryReport, String>>,
) -> (r: Page)
    requires
        (focus_of(query@) is Some) == (one is Some),
        report matches Ok(rep) ==> indentable(rep.directories@),
    ensures
        r.area == Area::Directories,
        r.title@ == "Directories"@,
        match report {
            Err(e) => r.main@ == failed_body(e@) && r.subtitle is None && r.breadcrumbs@.len() == 0 && r.status == 500,
            Ok(rep) => {
                &&& r.main@ == directories_body(query@, rep, one)
                &&& r.subtitle matches Some(s) && s@ == DIRECTORIES_SUBTITLE@
                &&& trail_views(r.breadcrumbs@) == seq![("Cockpit"@, Some("/cockpit"@)), ("Directories"@, None::<Seq<char>>)]
                &&& r.status == 200
                &&& r.scripts@.len() == 0
            },
        },
{
    let rep = match report {
        Ok(r) => r,
        Err(e) => return failed(Area::Directories, "Directories", e.as_str()),
    };
    let path = focus(query);
    let mut main = el("div").class("mj-grid").child(coverage(&rep.tallies));
    match (&path, &one) {
        (Some(p), Some(o)) => {
            main = main.child(focused(p.as_str(), o));
        },
        _ => {},
    }
    main = main.child(hierarchy(&rep.directories));
    let mut trail: Vec<(&str, Option<&str>)> = Vec::new();
    trail.push(("Cockpit", Some("/cockpit")));
    trail.push(("Directories", None));
    assert(given_trail(trail@) =~= seq![("Cockpit"@, Some("/cockpit"@)), ("Directories"@, None::<Seq<char>>)]);
    Page::new(Area::Directories, "Directories", main).subtitle(DIRECTORIES_SUBTITLE).trail(trail)
}

} // verus!
