//! The derived graphs: the list of them, and one of them as lists a reader without
//! JavaScript gets whole, beside the canvas a drawing library fills.

use vstd::prelude::*;

use crate::strings::{decimal, decimal_of, push_str};
use crate::url::{percent_encode, percent_encoded};

use super::frame::{classed, holding, saying};
use super::html::{bare, el, els_model, with_attr, with_children, El, ElementModel, Node, NodeModel};
use super::milestones::{word_el, word_model};
use super::nav::Area;
use super::pages::{failed, failed_body, given_trail, trail_views, Page};
use super::surfaces::{cell_of, mono_model};
use super::view::{
    alert, alert_model, badge, badge_model, card, card_model, cell, facts, facts_model, id_cell, id_cell_model, link,
    link_model, mono, row, rows_model, strs_model, table, table_model, tag, tag_model, text_cell,
};

verus! {

broadcast use super::html::lemma_element_node;

/// One graph the derivations offer.
#[derive(Debug, Clone, PartialEq, Eq)]
pub struct GraphSummary {
    /// Its id.
    pub id: String,
    /// Its title.
    pub title: String,
    /// What it shows.
    pub description: String,
    /// What it is derived from.
    pub source: String,
}

/// What listing the graphs answered.
#[derive(Debug, Clone, PartialEq, Eq)]
pub struct GraphList {
    /// Every graph.
    pub graphs: Vec<GraphSummary>,
}

/// One node of a graph.
#[derive(Debug, Clone, PartialEq, Eq)]
pub struct GraphNode {
    /// What it is called.
    pub label: String,
    /// Its kind.
    pub kind: String,
    /// Its page, when it has one.
    pub route: Option<String>,
    /// What it is, in a sentence.
    pub summary: Option<String>,
    /// Its own status word, as data.
    pub status: Option<String>,
    /// Where it is declared.
    pub source: Option<String>,
}

/// One edge of a graph.
#[derive(Debug, Clone, PartialEq, Eq)]
pub struct GraphEdge {
    /// Where it starts.
    pub source: String,
    /// Its kind.
    pub kind: String,
    /// Where it ends.
    pub target: String,
}

/// What a graph says of itself.
#[derive(Debug, Clone, Copy, PartialEq, Eq)]
pub struct GraphMetadata {
    /// How many nodes it has.
    pub nodes: usize,
    /// How many edges it has.
    pub edges: usize,
    /// Whether it has no cycle.
    pub acyclic: bool,
    /// Whether the derivation stopped at its node limit.
    pub truncated: bool,
}

/// One graph, whole.
#[derive(Debug, Clone, PartialEq, Eq)]
pub struct Graph {
    /// Its id.
    pub id: String,
    /// Its title.
    pub title: String,
    /// What it shows.
    pub description: String,
    /// What it is derived from.
    pub source: String,
    /// What each kind of node means, in the order the graph gives them.
    pub node_kinds: Vec<(String, String)>,
    /// What each kind of edge means, in the order the graph gives them.
    pub edge_kinds: Vec<(String, String)>,
    /// Its nodes.
    pub nodes: Vec<GraphNode>,
    /// Its edges.
    pub edges: Vec<GraphEdge>,
    /// What it says of itself.
    pub metadata: GraphMetadata,
}

// ------------------------------------------------------------------ the list

/// What the list of graphs says under its heading.
pub const DERIVED: &'static str = "Every graph is derived from the registry and the index. None is authored, and the drawing library is a consumer of the same nodes and edges the API answers with.";

/// The row of one graph in the list.
pub open spec fn summary_row(g: GraphSummary) -> NodeModel {
    NodeModel::Element(
        with_children(
            bare("tr"@),
            seq![
                NodeModel::Element(id_cell_model("/cockpit/graphs/"@ + g.id@, g.id@)),
                NodeModel::Element(saying(bare("td"@), g.title@)),
                NodeModel::Element(saying(bare("td"@), g.description@)),
                NodeModel::Element(saying(bare("td"@), g.source@)),
            ],
        ),
    )
}

/// The body of the list of graphs.
pub open spec fn graphs_body(l: GraphList) -> ElementModel {
    table_model(
        seq!["Id"@, "Title"@, "What it shows"@, "Derived from"@],
        l.graphs@.map_values(|g: GraphSummary| summary_row(g)),
    )
}

/// Every derived graph. `list` is what listing them answered, or why it did not.
pub fn graphs(list: Result<GraphList, String>) -> (r: Page)
    ensures
        r.area == Area::Graphs,
        r.title@ == "Graphs"@,
        r.scripts@.len() == 0,
        match list {
            Err(e) => r.main@ == failed_body(e@) && r.status == 500,
            Ok(l) => {
                &&& r.main@ == graphs_body(l)
                &&& r.status == 200
                &&& r.subtitle matches Some(s) && s@ == DERIVED@
                &&& trail_views(r.breadcrumbs@) == seq![("Cockpit"@, Some("/cockpit"@)), ("Graphs"@, None::<Seq<char>>)]
            },
        },
{
    let l = match list {
        Ok(l) => l,
        Err(e) => return failed(Area::Graphs, "Graphs", e.as_str()),
    };
    let mut rows: Vec<El> = Vec::new();
    for k in 0..l.graphs.len()
        invariant
            rows@.len() == k,
            forall|j: int| 0 <= j < k ==> NodeModel::Element((#[trigger] rows@[j])@) == summary_row(l.graphs@[j]),
    {
        let g = &l.graphs[k];
        let mut href = String::from_str("/cockpit/graphs/");
        push_str(&mut href, g.id.as_str());
        let mut cells: Vec<El> = Vec::new();
        cells.push(id_cell(href.as_str(), g.id.as_str()));
        cells.push(text_cell(g.title.as_str()));
        cells.push(text_cell(g.description.as_str()));
        cells.push(text_cell(g.source.as_str()));
        let r = row(cells);
        assert(els_model(cells@) =~= match summary_row(*g) {
            NodeModel::Element(x) => x.children,
            _ => seq![],
        });
        rows.push(r);
    }
    assert(els_model(rows@) =~= l.graphs@.map_values(|g: GraphSummary| summary_row(g)));
    let h = ["Id", "Title", "What it shows", "Derived from"];
    assert(strs_model(h@) =~= seq!["Id"@, "Title"@, "What it shows"@, "Derived from"@]);
    let mut trail: Vec<(&str, Option<&str>)> = Vec::new();
    trail.push(("Cockpit", Some("/cockpit")));
    trail.push(("Graphs", None));
    assert(given_trail(trail@) =~= seq![("Cockpit"@, Some("/cockpit"@)), ("Graphs"@, None::<Seq<char>>)]);
    Page::new(Area::Graphs, "Graphs", table(&h, rows)).subtitle(DERIVED).trail(trail)
}

// ------------------------------------------------------------------ one graph

/// What a kind of node or edge means, as the rows of a definition list.
pub open spec fn kinds_model(kinds: Seq<(String, String)>) -> Seq<(Seq<char>, NodeModel)> {
    kinds.map_values(|k: (String, String)| (k.0@, NodeModel::Element(saying(bare("span"@), k.1@))))
}

fn kinds_facts(kinds: &Vec<(String, String)>) -> (r: El)
    ensures
        r@ == facts_model(kinds_model(kinds@)),
{
    let mut rows: Vec<(&str, Node)> = Vec::new();
    for k in 0..kinds.len()
        invariant
            rows@.len() == k,
            forall|j: int|
                0 <= j < k ==> (#[trigger] rows@[j]).0@ == kinds@[j].0@ && rows@[j].1@ == NodeModel::Element(
                    saying(bare("span"@), kinds@[j].1@),
                ),
    {
        rows.push((kinds[k].0.as_str(), Node::Element(el("span").text(kinds[k].1.as_str()))));
    }
    assert(rows_model(rows@) =~= kinds_model(kinds@));
    facts(rows)
}

/// The card that says what the shapes mean.
pub open spec fn vocabulary_model(g: Graph) -> ElementModel {
    card_model(
        "What the shapes mean"@,
        holding(
            holding(
                holding(
                    holding(bare("div"@), saying(classed("h3"@, "mj-subheading"@), "Nodes"@)),
                    facts_model(kinds_model(g.node_kinds@)),
                ),
                saying(classed("h3"@, "mj-subheading"@), "Edges"@),
            ),
            facts_model(kinds_model(g.edge_kinds@)),
        ),
    )
}

/// Where a graph is answered as data.
pub open spec fn data_href(id: Seq<char>) -> Seq<char> {
    "/api/v1/graph?id="@ + percent_encoded(id)
}

/// What the canvas says to a reader who cannot see it.
pub open spec fn canvas_label(g: Graph) -> Seq<char> {
    g.title@ + ": "@ + decimal_of(g.metadata.nodes as nat) + " nodes, "@ + decimal_of(g.metadata.edges as nat)
        + " edges. The same data is listed below."@
}

/// What the viewer says of the drawing.
pub const ENHANCEMENT: &'static str = "The drawing is an enhancement. Everything it shows is in the lists below, which is what a reader without JavaScript, a crawler and a screen reader get.";

/// The viewer: the controls, the canvas the script fills, and what the drawing is.
pub open spec fn viewer_model(g: Graph) -> ElementModel {
    holding(
        holding(
            holding(
                classed("section"@, "mj-card"@),
                holding(
                    holding(classed("div"@, "mj-card-head"@), saying(classed("h2"@, "mj-card-title"@), "Graph"@)),
                    holding(
                        holding(
                            classed("div"@, "mj-graph-controls"@),
                            with_attr(
                                with_attr(
                                    with_attr(
                                        with_attr(classed("input"@, "mj-input"@), "type"@, "search"@),
                                        "data-mj-graph-search"@,
                                        ""@,
                                    ),
                                    "aria-label"@,
                                    "Find a node"@,
                                ),
                                "placeholder"@,
                                "Find a node"@,
                            ),
                        ),
                        saying(
                            with_attr(
                                with_attr(classed("button"@, "mj-button mj-button--quiet"@), "type"@, "button"@),
                                "data-mj-graph-fit"@,
                                ""@,
                            ),
                            "Fit"@,
                        ),
                    ),
                ),
            ),
            with_attr(
                with_attr(
                    with_attr(with_attr(classed("div"@, "mj-graph"@), "data-mj-graph"@, g.id@), "data-mj-graph-src"@, data_href(g.id@)),
                    "role"@,
                    "img"@,
                ),
                "aria-label"@,
                canvas_label(g),
            ),
        ),
        saying(classed("p"@, "mj-note"@), ENHANCEMENT@),
    )
}

fn viewer(g: &Graph) -> (r: El)
    ensures
        r@ == viewer_model(*g),
{
    let src = graph_data_href(g.id.as_str());
    let mut label = String::from_str(g.title.as_str());
    push_str(&mut label, ": ");
    push_str(&mut label, decimal(g.metadata.nodes).as_str());
    push_str(&mut label, " nodes, ");
    push_str(&mut label, decimal(g.metadata.edges).as_str());
    push_str(&mut label, " edges. The same data is listed below.");
    el("section").class("mj-card").child(
        el("div").class("mj-card-head").child(el("h2").class("mj-card-title").text("Graph")).child(
            el("div").class("mj-graph-controls").child(
                el("input").class("mj-input").attr("type", "search").attr("data-mj-graph-search", "").attr(
                    "aria-label",
                    "Find a node",
                ).attr("placeholder", "Find a node"),
            ).child(
                el("button").class("mj-button mj-button--quiet").attr("type", "button").attr("data-mj-graph-fit", "").text(
                    "Fit",
                ),
            ),
        ),
    ).child(
        el("div").class("mj-graph").attr("data-mj-graph", g.id.as_str()).attr("data-mj-graph-src", src.as_str()).attr(
            "role",
            "img",
        ).attr("aria-label", label.as_str()),
    ).child(el("p").class("mj-note").text(ENHANCEMENT))
}

fn graph_data_href(id: &str) -> (r: String)
    ensures
        r@ == data_href(id@),
{
    let mut out = String::from_str("/api/v1/graph?id=");
    push_str(&mut out, percent_encode(id).as_str());
    out
}

/// The row of a node.
pub open spec fn node_row(n: GraphNode, filed: Seq<String>) -> NodeModel {
    NodeModel::Element(
        with_children(
            bare("tr"@),
            seq![
                cell_of(
                    match n.route {
                        Some(r) => with_attr(link_model(r@, n.label@), "class"@, "mj-link mj-mono"@),
                        None => mono_model(n.label@),
                    },
                ),
                cell_of(mono_model(n.kind@)),
                NodeModel::Element(
                    saying(
                        bare("td"@),
                        match n.summary {
                            Some(s) => s@,
                            None => ""@,
                        },
                    ),
                ),
                cell_of(
                    match n.status {
                        Some(s) => word_model(filed, s@),
                        None => saying(bare("span"@), "-"@),
                    },
                ),
                cell_of(
                    match n.source {
                        Some(s) => mono_model(s@),
                        None => saying(bare("span"@), "-"@),
                    },
                ),
            ],
        ),
    )
}

/// The row of an edge.
pub open spec fn edge_row(e: GraphEdge) -> NodeModel {
    NodeModel::Element(
        with_children(bare("tr"@), seq![cell_of(mono_model(e.source@)), cell_of(tag_model(e.kind@)), cell_of(mono_model(e.target@))]),
    )
}

fn node_rows(g: &Graph, filed: &Vec<String>) -> (r: Vec<El>)
    ensures
        els_model(r@) == g.nodes@.map_values(|n: GraphNode| node_row(n, filed@)),
{
    let mut rows: Vec<El> = Vec::new();
    for k in 0..g.nodes.len()
        invariant
            rows@.len() == k,
            forall|j: int| 0 <= j < k ==> NodeModel::Element((#[trigger] rows@[j])@) == node_row(g.nodes@[j], filed@),
    {
        let n = &g.nodes[k];
        let name = match &n.route {
            Some(r) => link(r.as_str(), n.label.as_str()).class("mj-link mj-mono"),
            None => mono(n.label.as_str()),
        };
        let summary = match &n.summary {
            Some(s) => s.as_str(),
            None => "",
        };
        let status = match &n.status {
            Some(s) => word_el(filed, s.as_str()),
            None => el("span").text("-"),
        };
        let source = match &n.source {
            Some(s) => mono(s.as_str()),
            None => el("span").text("-"),
        };
        let mut cells: Vec<El> = Vec::new();
        cells.push(cell(name));
        cells.push(cell(mono(n.kind.as_str())));
        cells.push(text_cell(summary));
        cells.push(cell(status));
        cells.push(cell(source));
        let r = row(cells);
        assert(els_model(cells@) =~= match node_row(*n, filed@) {
            NodeModel::Element(x) => x.children,
            _ => seq![],
        });
        rows.push(r);
    }
    assert(els_model(rows@) =~= g.nodes@.map_values(|n: GraphNode| node_row(n, filed@)));
    rows
}

fn edge_rows(g: &Graph) -> (r: Vec<El>)
    ensures
        els_model(r@) == g.edges@.map_values(|e: GraphEdge| edge_row(e)),
{
    let mut rows: Vec<El> = Vec::new();
    for k in 0..g.edges.len()
        invariant
            rows@.len() == k,
            forall|j: int| 0 <= j < k ==> NodeModel::Element((#[trigger] rows@[j])@) == edge_row(g.edges@[j]),
    {
        let e = &g.edges[k];
        let mut cells: Vec<El> = Vec::new();
        cells.push(cell(mono(e.source.as_str())));
        cells.push(cell(tag(e.kind.as_str())));
        cells.push(cell(mono(e.target.as_str())));
        let r = row(cells);
        assert(els_model(cells@) =~= match edge_row(*e) {
            NodeModel::Element(x) => x.children,
            _ => seq![],
        });
        rows.push(r);
    }
    assert(els_model(rows@) =~= g.edges@.map_values(|e: GraphEdge| edge_row(e)));
    rows
}

/// Where a graph comes from, as facts.
pub open spec fn origin_model(g: Graph) -> ElementModel {
    card_model(
        "Where it comes from"@,
        facts_model(
            seq![
                ("Derived from"@, NodeModel::Element(saying(bare("span"@), g.source@))),
                ("Nodes"@, NodeModel::Element(mono_model(decimal_of(g.metadata.nodes as nat)))),
                ("Edges"@, NodeModel::Element(mono_model(decimal_of(g.metadata.edges as nat)))),
                (
                    "Acyclic"@,
                    NodeModel::Element(
                        if g.metadata.acyclic {
                            badge_model("ok"@, "yes"@)
                        } else {
                            badge_model("warn"@, "no"@)
                        },
                    ),
                ),
                ("As data"@, NodeModel::Element(link_model(data_href(g.id@), "/api/v1/graph"@))),
            ],
        ),
    )
}

/// What a graph that reached the node limit says.
pub const TRUNCATED: &'static str = "This graph reached the derivation's node limit and is a prefix of what the repository holds.";

/// The body of one graph's page.
pub open spec fn graph_body(g: Graph, filed: Seq<String>) -> ElementModel {
    let top = holding(classed("div"@, "mj-grid"@), origin_model(g));
    let top = if g.metadata.truncated {
        holding(top, alert_model("warn"@, TRUNCATED@))
    } else {
        top
    };
    holding(
        holding(
            holding(holding(top, viewer_model(g)), vocabulary_model(g)),
            card_model(
                "Nodes"@,
                table_model(
                    seq!["Node"@, "Kind"@, "Summary"@, "Status"@, "Source"@],
                    g.nodes@.map_values(|n: GraphNode| node_row(n, filed)),
                ),
            ),
        ),
        card_model("Edges"@, table_model(seq!["From"@, "Edge"@, "To"@], g.edges@.map_values(|e: GraphEdge| edge_row(e)))),
    )
}

/// The body of the page for a graph the derivations do not know.
pub open spec fn no_graph_body(reason: Seq<char>) -> ElementModel {
    holding(holding(bare("div"@), alert_model("fail"@, reason)), link_model("/cockpit/graphs"@, "Every graph"@))
}

/// One graph: the nodes and edges as lists, which is what a reader without JavaScript
/// gets whole, and a canvas the script fills when the drawing library is there.
/// `answer` is what asking for the graph answered: `Err` when the derivations know no
/// such graph, `Ok(Err)` when what they answered could not be read as one. `filed` is the
/// status words the design declaration files, which decide whether a node's own status
/// word is a badge or a tag.
pub fn graph(answer: Result<Result<Graph, String>, String>, filed: &Vec<String>) -> (r: Page)
    ensures
        r.area == Area::Graphs,
        answer is Err ==> r.title@ == "No such graph"@ && r.main@ == no_graph_body(answer->Err_0@) && r.status == 404
            && r.breadcrumbs@.len() == 0 && r.scripts@.len() == 0,
        answer is Ok && answer->Ok_0 is Err ==> r.title@ == "Graph"@ && r.main@ == failed_body(answer->Ok_0->Err_0@)
            && r.status == 500 && r.scripts@.len() == 0,
        answer is Ok && answer->Ok_0 is Ok ==> {
            let g = answer->Ok_0->Ok_0;
            &&& r.title@ == g.title@
            &&& r.main@ == graph_body(g, filed@)
            &&& r.status == 200
            &&& r.subtitle matches Some(s) && s@ == g.description@
            &&& trail_views(r.breadcrumbs@) == seq![
                ("Cockpit"@, Some("/cockpit"@)),
                ("Graphs"@, Some("/cockpit/graphs"@)),
                (g.id@, None::<Seq<char>>),
            ]
            &&& r.scripts@.len() == 1 && r.scripts@[0]@ == "graph.js"@
        },
{
    let read = match answer {
        Ok(read) => read,
        Err(reason) => {
            return Page::new(
                Area::Graphs,
                "No such graph",
                el("div").child(alert("fail", reason.as_str())).child(link("/cockpit/graphs", "Every graph")),
            ).status(404);
        },
    };
    let g = match read {
        Ok(g) => g,
        Err(reason) => return failed(Area::Graphs, "Graph", reason.as_str()),
    };
    let acyclic = if g.metadata.acyclic {
        badge("ok", "yes")
    } else {
        badge("warn", "no")
    };
    let mut rows: Vec<(&str, Node)> = Vec::new();
    rows.push(("Derived from", Node::Element(el("span").text(g.source.as_str()))));
    rows.push(("Nodes", Node::Element(mono(decimal(g.metadata.nodes).as_str()))));
    rows.push(("Edges", Node::Element(mono(decimal(g.metadata.edges).as_str()))));
    rows.push(("Acyclic", Node::Element(acyclic)));
    rows.push(("As data", Node::Element(link(graph_data_href(g.id.as_str()).as_str(), "/api/v1/graph"))));
    assert(rows_model(rows@) =~= seq![
        ("Derived from"@, NodeModel::Element(saying(bare("span"@), g.source@))),
        ("Nodes"@, NodeModel::Element(mono_model(decimal_of(g.metadata.nodes as nat)))),
        ("Edges"@, NodeModel::Element(mono_model(decimal_of(g.metadata.edges as nat)))),
        (
            "Acyclic"@,
            NodeModel::Element(
                if g.metadata.acyclic {
                    badge_model("ok"@, "yes"@)
                } else {
                    badge_model("warn"@, "no"@)
                },
            ),
        ),
        ("As data"@, NodeModel::Element(link_model(data_href(g.id@), "/api/v1/graph"@))),
    ]);
    let mut body = el("div").class("mj-grid").child(card("Where it comes from", facts(rows)));
    if g.metadata.truncated {
        body = body.child(alert("warn", TRUNCATED));
    }
    let vocabulary = card(
        "What the shapes mean",
        el("div").child(el("h3").class("mj-subheading").text("Nodes")).child(kinds_facts(&g.node_kinds)).child(
            el("h3").class("mj-subheading").text("Edges"),
        ).child(kinds_facts(&g.edge_kinds)),
    );
    let h1 = ["Node", "Kind", "Summary", "Status", "Source"];
    assert(strs_model(h1@) =~= seq!["Node"@, "Kind"@, "Summary"@, "Status"@, "Source"@]);
    let h2 = ["From", "Edge", "To"];
    assert(strs_model(h2@) =~= seq!["From"@, "Edge"@, "To"@]);
    let body = body.child(viewer(&g)).child(vocabulary).child(card("Nodes", table(&h1, node_rows(&g, filed)))).child(
        card("Edges", table(&h2, edge_rows(&g))),
    );
    let mut trail: Vec<(&str, Option<&str>)> = Vec::new();
    trail.push(("Cockpit", Some("/cockpit")));
    trail.push(("Graphs", Some("/cockpit/graphs")));
    trail.push((g.id.as_str(), None));
    assert(given_trail(trail@) =~= seq![
        ("Cockpit"@, Some("/cockpit"@)),
        ("Graphs"@, Some("/cockpit/graphs"@)),
        (g.id@, None::<Seq<char>>),
    ]);
    Page::new(Area::Graphs, g.title.as_str(), body).subtitle(g.description.as_str()).trail(trail).script("graph.js")
}

} // verus!
