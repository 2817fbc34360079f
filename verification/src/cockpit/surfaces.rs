//! Two pages about the system's surfaces: its topology, and its HTTP routes.

use vstd::prelude::*;

use crate::command::projection::{is_hit, is_rearrangement};
use crate::order::{lemma_natural_rank_antisymmetric, natural_compare, natural_rank};
use crate::strings::{decimal, decimal_of, push_str};
use crate::url::{percent_encode, percent_encoded};

use super::frame::{classed, holding, saying};
use super::html::{bare, el, els_model, with_attr, El, ElementModel, NodeModel};
use super::nav::Area;
use super::pages::{given_trail, trail_views, Page};
use super::view::{badge, badge_model, card, card_model, card_with, card_with_model, cell, id_cell, id_cell_model, link, link_model, mono, row, statistic, statistic_model, strs_model, table, table_model, text_cell};

verus! {

broadcast use super::html::lemma_element_node;

// ------------------------------------------------------------------ topology

/// What the registry projects, counted.
#[derive(Debug, Clone, Copy, PartialEq, Eq)]
pub struct RegistrySummary {
    /// Builtin capabilities.
    pub builtin: usize,
    /// MCP tools.
    pub mcp_tools: usize,
    /// HTTP routes.
    pub http_routes: usize,
    /// Command-line commands.
    pub cli_commands: usize,
}

/// The prose of the topology page.
pub const TOPOLOGY_WHAT: &'static str = "The registry graph laid out in three dimensions: modules on one plane, the capabilities they compose on another, and the MCP, HTTP and command-line projections above them. It answers one question a flat drawing answers badly — how wide each projection fans out — and nothing else. Every fact in it is on the registry graph page too.";

/// What the drawing is, for a reader who cannot see it.
pub const TOPOLOGY_LABEL: &'static str = "A three-dimensional rendering of the registry graph. The same data is on the registry graph page as text.";

/// When the drawing is rendered.
pub const TOPOLOGY_NOTE: &'static str = "Rendered only when the drawing library is present, only while the tab is visible, and without animation when the system asks for reduced motion.";

/// The subtitle of the topology page.
pub const TOPOLOGY_SUBTITLE: &'static str = "Optional. The Cockpit works without it, and so does everything it shows.";

/// The drawing's card.
pub open spec fn constellation_model() -> ElementModel {
    holding(
        holding(
            holding(classed("section"@, "mj-card"@), saying(classed("h2"@, "mj-card-title"@), "Constellation"@)),
            with_attr(
                with_attr(
                    with_attr(
                        with_attr(classed("div"@, "mj-topology"@), "data-mj-topology"@, "registry"@),
                        "data-mj-topology-src"@,
                        "/api/v1/graph?id=registry"@,
                    ),
                    "role"@,
                    "img"@,
                ),
                "aria-label"@,
                TOPOLOGY_LABEL@,
            ),
        ),
        saying(classed("p"@, "mj-note"@), TOPOLOGY_NOTE@),
    )
}

/// The counts, as text.
pub open spec fn counts_model(s: RegistrySummary) -> ElementModel {
    holding(
        holding(
            holding(
                holding(
                    classed("div"@, "mj-stats"@),
                    statistic_model(decimal_of(s.builtin as nat), "builtin capabilities"@, "the registry"@),
                ),
                statistic_model(decimal_of(s.mcp_tools as nat), "MCP tools"@, "the registry's MCP exposures"@),
            ),
            statistic_model(decimal_of(s.http_routes as nat), "HTTP routes"@, "the registry's HTTP exposures"@),
        ),
        statistic_model(decimal_of(s.cli_commands as nat), "CLI commands"@, "the registry's CLI exposures"@),
    )
}

/// The body of the topology page.
pub open spec fn topology_body(s: RegistrySummary) -> ElementModel {
    holding(
        holding(
            holding(classed("div"@, "mj-grid"@), card_model("What this is"@, saying(classed("p"@, "mj-prose"@), TOPOLOGY_WHAT@))),
            constellation_model(),
        ),
        card_model(
            "The same thing, as text"@,
            holding(
                holding(bare("div"@), counts_model(s)),
                link_model("/cockpit/graphs/registry"@, "The registry graph, node by node"@),
            ),
        ),
    )
}

/// The system topology: the registry graph in three dimensions, for the one question a flat
/// drawing answers badly, and the same counts as text beside it.
pub fn topology(summary: &RegistrySummary) -> (r: Page)
    ensures
        r.area == Area::Graphs,
        r.title@ == "Topology"@,
        r.subtitle matches Some(s) && s@ == TOPOLOGY_SUBTITLE@,
        trail_views(r.breadcrumbs@) == seq![
            ("Cockpit"@, Some("/cockpit"@)),
            ("Graphs"@, Some("/cockpit/graphs"@)),
            ("Topology"@, None::<Seq<char>>),
        ],
        r.main@ == topology_body(*summary),
        r.status == 200,
        r.scripts@.len() == 1 && r.scripts@[0]@ == "topology.js"@,
{
    let builtin = decimal(summary.builtin);
    let mcp = decimal(summary.mcp_tools);
    let http = decimal(summary.http_routes);
    let cli = decimal(summary.cli_commands);
    let counts = el("div").class("mj-stats").child(statistic(builtin.as_str(), "builtin capabilities", "the registry")).child(
        statistic(mcp.as_str(), "MCP tools", "the registry's MCP exposures"),
    ).child(statistic(http.as_str(), "HTTP routes", "the registry's HTTP exposures")).child(
        statistic(cli.as_str(), "CLI commands", "the registry's CLI exposures"),
    );
    let drawing = el("section").class("mj-card").child(el("h2").class("mj-card-title").text("Constellation")).child(
        el("div").class("mj-topology").attr("data-mj-topology", "registry").attr(
            "data-mj-topology-src",
            "/api/v1/graph?id=registry",
        ).attr("role", "img").attr("aria-label", TOPOLOGY_LABEL),
    ).child(el("p").class("mj-note").text(TOPOLOGY_NOTE));
    let body = el("div").class("mj-grid").child(card("What this is", el("p").class("mj-prose").text(TOPOLOGY_WHAT))).child(
        drawing,
    ).child(
        card(
            "The same thing, as text",
            el("div").child(counts).child(link("/cockpit/graphs/registry", "The registry graph, node by node")),
        ),
    );
    let mut trail: Vec<(&str, Option<&str>)> = Vec::new();
    trail.push(("Cockpit", Some("/cockpit")));
    trail.push(("Graphs", Some("/cockpit/graphs")));
    trail.push(("Topology", None));
    assert(given_trail(trail@) =~= seq![
        ("Cockpit"@, Some("/cockpit"@)),
        ("Graphs"@, Some("/cockpit/graphs"@)),
        ("Topology"@, None::<Seq<char>>),
    ]);
    Page::new(Area::Graphs, "Topology", body).subtitle(TOPOLOGY_SUBTITLE).trail(trail).script("topology.js")
}

// ------------------------------------------------------------------ api

/// A capability's HTTP exposure, as the API page lists it.
#[derive(Debug, Clone, PartialEq, Eq)]
pub struct HttpRoute {
    /// The method.
    pub method: String,
    /// The path.
    pub path: String,
    /// The capability that answers.
    pub id: String,
    /// What the capability is called.
    pub title: String,
    /// The capability's kind, as its word.
    pub kind: String,
}

/// A capability of the registry as the surfaces page reads it: its identity, title and
/// kind, and its HTTP exposure as a method and a path where it has one.
#[derive(Debug, Clone, PartialEq, Eq)]
pub struct ExposedCapability {
    /// Its identity.
    pub id: String,
    /// What it is called.
    pub title: String,
    /// Its kind, as its word.
    pub kind: String,
    /// Its HTTP exposure: the method and the path.
    pub http: Option<(String, String)>,
}

/// One route per capability with an HTTP exposure, in registry order.
pub open spec fn exposed_routes(caps: Seq<ExposedCapability>) -> Seq<HttpRoute>
    decreases caps.len(),
{
    if caps.len() == 0 {
        seq![]
    } else {
        let rest = exposed_routes(caps.drop_last());
        let c = caps.last();
        match c.http {
            Some((method, path)) => rest.push(HttpRoute { method, path, id: c.id, title: c.title, kind: c.kind }),
            None => rest,
        }
    }
}

/// The routes the registry projects: one per capability with an HTTP exposure, in
/// registry order; the surfaces page orders them.
pub fn routes_of(registry: &Vec<ExposedCapability>) -> (r: Vec<HttpRoute>)
    ensures
        r@ == exposed_routes(registry@),
{
    let mut out: Vec<HttpRoute> = Vec::new();
    for k in 0..registry.len()
        invariant
            out@ == exposed_routes(registry@.take(k as int)),
    {
        let c = &registry[k];
        assert(registry@.take(k + 1).drop_last() =~= registry@.take(k as int));
        match &c.http {
            Some((method, path)) => {
                out.push(
                    HttpRoute {
                        method: method.clone(),
                        path: path.clone(),
                        id: c.id.clone(),
                        title: c.title.clone(),
                        kind: c.kind.clone(),
                    },
                );
            },
            None => {},
        }
    }
    assert(registry@.take(registry@.len() as int) =~= registry@);
    out
}

/// One of the projection's own routes: not a capability's, documented as such.
#[derive(Debug, Clone, PartialEq, Eq)]
pub struct ProjectionRoute {
    /// The path.
    pub path: String,
    /// What it is.
    pub what: String,
    /// Whether a publication answers it too, and not only a running server.
    pub linkable: bool,
}

/// Two routes in the order the page lists them: by path, then method, then capability,
/// each in the canonical order. -1, 0 or 1.
pub open spec fn route_rank(a: HttpRoute, b: HttpRoute) -> int {
    let p = natural_rank(a.path@, b.path@);
    if p != 0 {
        p
    } else {
        let m = natural_rank(a.method@, b.method@);
        if m != 0 {
            m
        } else {
            natural_rank(a.id@, b.id@)
        }
    }
}

proof fn lemma_route_rank_antisymmetric(a: HttpRoute, b: HttpRoute)
    ensures
        route_rank(a, b) == -route_rank(b, a),
{
    lemma_natural_rank_antisymmetric(a.path@, b.path@);
    lemma_natural_rank_antisymmetric(a.method@, b.method@);
    lemma_natural_rank_antisymmetric(a.id@, b.id@);
}

fn route_compare(a: &HttpRoute, b: &HttpRoute) -> (r: i8)
    ensures
        r as int == route_rank(*a, *b),
{
    let p = natural_compare(a.path.as_str(), b.path.as_str());
    if p != 0 {
        return p;
    }
    let m = natural_compare(a.method.as_str(), b.method.as_str());
    if m != 0 {
        return m;
    }
    natural_compare(a.id.as_str(), b.id.as_str())
}

/// Routes in the order the page lists them: no route comes after the one that follows it.
pub open spec fn routes_in_order(routes: Seq<HttpRoute>) -> bool {
    forall|k: int| 0 <= k < routes.len() - 1 ==> route_rank(#[trigger] routes[k + 1], routes[k]) >= 0
}

/// The routes a rearrangement lists, in its order.
pub open spec fn listed(routes: Seq<HttpRoute>, perm: Seq<int>) -> Seq<HttpRoute> {
    Seq::new(perm.len(), |k: int| routes[perm[k]])
}

/// The routes ordered as routes, before anything is rendered: sorting finished markup would
/// make every class name part of the sort key.
fn ordered(routes: Vec<HttpRoute>) -> (r: (Vec<HttpRoute>, Ghost<Seq<int>>))
    ensures
        is_rearrangement(r.1@, routes@.len() as int),
        r.0@ == listed(routes@, r.1@),
        routes_in_order(r.0@),
{
    let ghost all = routes@;
    let n = routes.len();
    let mut rest = routes;
    let mut out: Vec<HttpRoute> = Vec::new();
    let ghost mut perm: Seq<int> = seq![];
    let mut j: usize = 0;
    while j < n
        invariant
            n == all.len(),
            j <= n,
            rest@ == all.subrange(j as int, n as int),
            out@.len() == j,
            perm.len() == j,
            forall|k: int| 0 <= k < perm.len() ==> #[trigger] out@[k] == all[perm[k]],
            forall|k: int| 0 <= k < perm.len() ==> 0 <= #[trigger] perm[k] < j,
            forall|k: int, l: int|
                0 <= k < perm.len() && 0 <= l < perm.len() && k != l ==> #[trigger] perm[k] != #[trigger] perm[l],
            forall|i: int| 0 <= i < j ==> #[trigger] is_hit(perm, i),
            routes_in_order(out@),
        decreases n - j,
    {
        let route = rest.remove(0);
        assert(route == all[j as int]);
        let mut p: usize = 0;
        let mut stop = false;
        while p < out.len() && !stop
            invariant
                p <= out@.len(),
                forall|k: int| 0 < k <= p && k <= out@.len() ==> route_rank(route, #[trigger] out@[k - 1]) >= 0,
                stop ==> p < out@.len() && route_rank(route, out@[p as int]) < 0,
            decreases out@.len() - p + (if stop { 0int } else { 1int }),
        {
            if route_compare(&route, &out[p]) < 0 {
                stop = true;
            } else {
                p += 1;
            }
        }
        let ghost before = perm;
        let ghost old_out = out@;
        proof {
            if p < old_out.len() {
                lemma_route_rank_antisymmetric(route, old_out[p as int]);
            }
        }
        out.insert(p, route);
        proof {
            perm = before.insert(p as int, j as int);
            let jj = j as int;
            assert forall|k: int| 0 <= k < perm.len() implies #[trigger] out@[k] == all[perm[k]] by {
                if k < p {
                    assert(perm[k] == before[k]);
                } else if k > p {
                    assert(perm[k] == before[k - 1]);
                }
            }
            assert forall|k: int| 0 <= k < perm.len() implies 0 <= #[trigger] perm[k] < j + 1 by {
                if k < p {
                    assert(perm[k] == before[k]);
                } else if k > p {
                    assert(perm[k] == before[k - 1]);
                }
            }
            assert forall|k: int, l: int|
                0 <= k < perm.len() && 0 <= l < perm.len() && k != l implies #[trigger] perm[k] != #[trigger] perm[l] by {
                let ok = if k < p { before[k] } else if k == p { jj } else { before[k - 1] };
                let ol = if l < p { before[l] } else if l == p { jj } else { before[l - 1] };
                assert(perm[k] == ok);
                assert(perm[l] == ol);
            }
            assert forall|i: int| 0 <= i < j + 1 implies #[trigger] is_hit(perm, i) by {
                if i == jj {
                    assert(perm[p as int] == i);
                } else {
                    assert(is_hit(before, i));
                    let k0 = choose|k: int| 0 <= k < before.len() && before[k] == i;
                    if k0 < p {
                        assert(perm[k0] == i);
                    } else {
                        assert(perm[k0 + 1] == i);
                    }
                }
            }
            assert forall|k: int| 0 <= k < out@.len() - 1 implies route_rank(#[trigger] out@[k + 1], out@[k]) >= 0 by {
                if k + 1 < p {
                    assert(out@[k] == old_out[k] && out@[k + 1] == old_out[k + 1]);
                    assert(route_rank(old_out[k + 1], old_out[k]) >= 0);
                } else if k + 1 == p {
                    assert(out@[k + 1] == route && out@[k] == old_out[k]);
                    assert(route_rank(route, old_out[(k + 1) - 1]) >= 0);
                } else if k == p {
                    assert(out@[k] == route && out@[k + 1] == old_out[k]);
                } else {
                    let m = k - 1;
                    assert(out@[k] == old_out[m] && out@[k + 1] == old_out[m + 1]);
                    assert(route_rank(old_out[m + 1], old_out[m]) >= 0);
                }
            }
            assert(all.subrange(j + 1, n as int) =~= all.subrange(jj, n as int).drop_first());
        }
        j += 1;
    }
    assert(out@ =~= listed(all, perm));
    (out, Ghost(perm))
}

/// Monospaced inline text.
pub open spec fn mono_model(value: Seq<char>) -> ElementModel {
    saying(classed("code"@, "mj-mono"@), value)
}

/// A cell holding an element.
pub open spec fn cell_of(content: ElementModel) -> NodeModel {
    NodeModel::Element(holding(bare("td"@), content))
}

/// The row of one capability route.
pub open spec fn route_row(r: HttpRoute) -> NodeModel {
    NodeModel::Element(
        ElementModel {
            children: seq![
                cell_of(mono_model(r.method@)),
                cell_of(mono_model(r.path@)),
                NodeModel::Element(id_cell_model("/cockpit/capabilities/"@ + percent_encoded(r.id@), r.id@)),
                NodeModel::Element(saying(bare("td"@), r.title@)),
                cell_of(badge_model(r.kind@, r.kind@)),
            ],
            ..bare("tr"@)
        },
    )
}

/// Who answers one of the projection's own routes.
pub open spec fn answered_by(linkable: bool) -> Seq<char> {
    if linkable {
        "a running server, and a publication"@
    } else {
        "a running server"@
    }
}

/// The row of one of the projection's own routes.
pub open spec fn projection_row(r: ProjectionRoute) -> NodeModel {
    NodeModel::Element(
        ElementModel {
            children: seq![
                cell_of(mono_model(r.path@)),
                NodeModel::Element(saying(bare("td"@), r.what@)),
                NodeModel::Element(saying(bare("td"@), answered_by(r.linkable))),
            ],
            ..bare("tr"@)
        },
    )
}

/// What the Swagger card says of the document it reads.
pub open spec fn swagger_prose(spec: Seq<char>) -> Seq<char> {
    "Swagger UI is served from this process and reads "@ + spec
        + ", which is generated from the registry at first request. Nothing about an operation is written twice: the descriptions, the schemas and the examples are the capability's own."@
}

/// The body of the API page, over the capability routes in the order listed.
pub open spec fn api_body(
    rows: Seq<HttpRoute>,
    own: Seq<ProjectionRoute>,
    swagger: Seq<char>,
    spec: Seq<char>,
) -> ElementModel {
    holding(
        holding(
            holding(
                classed("div"@, "mj-grid"@),
                card_with_model("Swagger UI"@, link_model(swagger, "Open"@), saying(classed("p"@, "mj-prose"@), swagger_prose(spec))),
            ),
            card_model(
                "Capability routes"@,
                table_model(
                    seq!["Method"@, "Path"@, "Capability"@, "Title"@, "Kind"@],
                    rows.map_values(|r: HttpRoute| route_row(r)),
                ),
            ),
        ),
        card_model(
            "The projection's own routes"@,
            table_model(seq!["Path"@, "What it is"@, "Answered by"@], own.map_values(|r: ProjectionRoute| projection_row(r))),
        ),
    )
}

/// The subtitle of the API page.
pub const API_SUBTITLE: &'static str = "Every route under /api/v1/ is a capability's HTTP exposure. The rest belong to the projection and are documented as such.";

fn route_row_el(r: &HttpRoute) -> (e: El)
    ensures
        NodeModel::Element(e@) == route_row(*r),
{
    let mut href = String::from_str("/cockpit/capabilities/");
    let encoded = percent_encode(r.id.as_str());
    push_str(&mut href, encoded.as_str());
    let mut cells: Vec<El> = Vec::new();
    cells.push(cell(mono(r.method.as_str())));
    cells.push(cell(mono(r.path.as_str())));
    cells.push(id_cell(href.as_str(), r.id.as_str()));
    cells.push(text_cell(r.title.as_str()));
    cells.push(cell(badge(r.kind.as_str(), r.kind.as_str())));
    let e = row(cells);
    assert(els_model(cells@) =~= seq![
            cell_of(mono_model(r.method@)),
            cell_of(mono_model(r.path@)),
            NodeModel::Element(id_cell_model("/cockpit/capabilities/"@ + percent_encoded(r.id@), r.id@)),
            NodeModel::Element(saying(bare("td"@), r.title@)),
            cell_of(badge_model(r.kind@, r.kind@)),
        ]);
    assert(e@ == (ElementModel {
        children: seq![
            cell_of(mono_model(r.method@)),
            cell_of(mono_model(r.path@)),
            NodeModel::Element(id_cell_model("/cockpit/capabilities/"@ + percent_encoded(r.id@), r.id@)),
            NodeModel::Element(saying(bare("td"@), r.title@)),
            cell_of(badge_model(r.kind@, r.kind@)),
        ],
        ..bare("tr"@)
    }));
    e
}

fn projection_row_el(r: &ProjectionRoute) -> (e: El)
    ensures
        NodeModel::Element(e@) == projection_row(*r),
{
    let mut cells: Vec<El> = Vec::new();
    cells.push(cell(mono(r.path.as_str())));
    cells.push(text_cell(r.what.as_str()));
    cells.push(
        text_cell(
            if r.linkable {
                "a running server, and a publication"
            } else {
                "a running server"
            },
        ),
    );
    let e = row(cells);
    assert(els_model(cells@) =~= seq![
            cell_of(mono_model(r.path@)),
            NodeModel::Element(saying(bare("td"@), r.what@)),
            NodeModel::Element(saying(bare("td"@), answered_by(r.linkable))),
        ]);
    assert(e@ == (ElementModel {
        children: seq![
            cell_of(mono_model(r.path@)),
            NodeModel::Element(saying(bare("td"@), r.what@)),
            NodeModel::Element(saying(bare("td"@), answered_by(r.linkable))),
        ],
        ..bare("tr"@)
    }));
    e
}

/// The surfaces: every HTTP route the registry projects, ordered as routes, the
/// projection's own routes, and the way into Swagger UI. `swagger` is where Swagger UI
/// answers and `spec` the document it reads.
pub fn api(routes: Vec<HttpRoute>, own: Vec<ProjectionRoute>, swagger: &str, spec: &str) -> (r: Page)
    ensures
        r.area == Area::Api,
        r.title@ == "API"@,
        r.subtitle matches Some(s) && s@ == API_SUBTITLE@,
        trail_views(r.breadcrumbs@) == seq![("Cockpit"@, Some("/cockpit"@)), ("API"@, None::<Seq<char>>)],
        r.status == 200,
        r.scripts@.len() == 0,
        exists|perm: Seq<int>|
            {
                &&& is_rearrangement(perm, routes@.len() as int)
                &&& routes_in_order(#[trigger] listed(routes@, perm))
                &&& r.main@ == api_body(listed(routes@, perm), own@, swagger@, spec@)
            },
{
    let ghost given = routes@;
    let (sorted, Ghost(perm)) = ordered(routes);
    let mut rows: Vec<El> = Vec::new();
    for k in 0..sorted.len()
        invariant
            rows@.len() == k,
            forall|i: int| 0 <= i < k ==> NodeModel::Element((#[trigger] rows@[i])@) == route_row(sorted@[i]),
    {
        rows.push(route_row_el(&sorted[k]));
    }
    assert(els_model(rows@) =~= sorted@.map_values(|r: HttpRoute| route_row(r)));
    let mut infrastructure: Vec<El> = Vec::new();
    for k in 0..own.len()
        invariant
            infrastructure@.len() == k,
            forall|i: int| 0 <= i < k ==> NodeModel::Element((#[trigger] infrastructure@[i])@) == projection_row(own@[i]),
    {
        infrastructure.push(projection_row_el(&own[k]));
    }
    assert(els_model(infrastructure@) =~= own@.map_values(|r: ProjectionRoute| projection_row(r)));
    let mut prose = String::from_str("Swagger UI is served from this process and reads ");
    push_str(&mut prose, spec);
    push_str(
        &mut prose,
        ", which is generated from the registry at first request. Nothing about an operation is written twice: the descriptions, the schemas and the examples are the capability's own.",
    );
    let routes_table = table(&["Method", "Path", "Capability", "Title", "Kind"], rows);
    let own_table = table(&["Path", "What it is", "Answered by"], infrastructure);
    proof {
        let h1: Seq<&str> = seq!["Method", "Path", "Capability", "Title", "Kind"];
        let h2: Seq<&str> = seq!["Path", "What it is", "Answered by"];
        assert(strs_model(h1) =~= seq!["Method"@, "Path"@, "Capability"@, "Title"@, "Kind"@]);
        assert(strs_model(h2) =~= seq!["Path"@, "What it is"@, "Answered by"@]);
    }
    let body = el("div").class("mj-grid").child(
        card_with("Swagger UI", link(swagger, "Open"), el("p").class("mj-prose").text(prose.as_str())),
    ).child(card("Capability routes", routes_table)).child(card("The projection's own routes", own_table));
    let mut trail: Vec<(&str, Option<&str>)> = Vec::new();
    trail.push(("Cockpit", Some("/cockpit")));
    trail.push(("API", None));
    assert(given_trail(trail@) =~= seq![("Cockpit"@, Some("/cockpit"@)), ("API"@, None::<Seq<char>>)]);
    let page = Page::new(Area::Api, "API", body).subtitle(API_SUBTITLE).trail(trail);
    assert(routes_in_order(listed(given, perm)));
    page
}

} // verus!
