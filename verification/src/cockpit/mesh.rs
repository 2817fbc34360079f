//! The mesh: the discovered nodes of this process's runtime, the providers that heard
//! them, and why the mesh is or is not running. Everything on the page is what the mesh
//! status and the node list answered; the Cockpit holds no node list of its own.

use vstd::prelude::*;

use crate::strings::{decimal, decimal_of, join_with_text, joined_by, push_decimal_u64, push_str, views};

use super::frame::{classed, holding, saying};
use super::html::{bare, el, els_model, with_children, El, ElementModel, Node, NodeModel};
use super::milestones::{word_el, word_model};
use super::nav::Area;
use super::pages::{failed, failed_body, Page};
use super::surfaces::mono_model;
use super::view::{card, card_model, card_with, card_with_model, facts, facts_model, mono, rows_model};

verus! {

broadcast use super::html::lemma_element_node;

/// Who this node is on the mesh.
#[derive(Debug, Clone, PartialEq, Eq)]
pub struct MeshIdentity {
    /// Its node id.
    pub node_id: String,
    /// The name it shows.
    pub display_name: String,
    /// This run of it.
    pub instance_id: String,
}

/// What the registry has counted.
#[derive(Debug, Clone, Copy, PartialEq, Eq)]
pub struct MeshTallies {
    /// Nodes known.
    pub nodes: u64,
    /// Of them, trusted.
    pub trusted: u64,
    /// Of them, present.
    pub present: u64,
    /// Advertisements accepted.
    pub accepted: u64,
    /// Advertisements heard again.
    pub replayed: u64,
    /// Advertisements that expired.
    pub expired: u64,
}

/// Why advertisements were refused, counted.
#[derive(Debug, Clone, Copy, PartialEq, Eq)]
pub struct MeshRefusals {
    /// Too large.
    pub oversized: u64,
    /// Not readable.
    pub malformed: u64,
    /// Of another protocol version.
    pub version: u64,
    /// Out of bounds.
    pub bounds: u64,
    /// Too old.
    pub stale: u64,
    /// Badly signed.
    pub signature: u64,
    /// This node's own.
    pub self_heard: u64,
}

/// Where a discovery provider is.
#[derive(Debug, Clone, Copy, PartialEq, Eq, Structural)]
pub enum ProviderState {
    /// Listening.
    Running,
    /// It stopped on an error.
    Failed,
    /// It was stopped.
    Stopped,
}

/// The word a provider state is shown as.
pub open spec fn provider_word(s: ProviderState) -> Seq<char> {
    match s {
        ProviderState::Running => "running"@,
        ProviderState::Failed => "failed"@,
        ProviderState::Stopped => "stopped"@,
    }
}

impl ProviderState {
    /// The word.
    pub fn as_str(self) -> (r: &'static str)
        ensures
            r@ == provider_word(self),
    {
        match self {
            ProviderState::Running => "running",
            ProviderState::Failed => "failed",
            ProviderState::Stopped => "stopped",
        }
    }
}

/// One discovery provider.
#[derive(Debug, Clone, PartialEq, Eq)]
pub struct MeshProvider {
    /// Its id.
    pub id: String,
    /// Where it is.
    pub state: ProviderState,
    /// Advertisements it sent.
    pub sent: u64,
    /// Advertisements it received.
    pub received: u64,
    /// What it says of itself.
    pub detail: Option<String>,
}

/// What the mesh status answered.
#[derive(Debug, Clone, PartialEq, Eq)]
pub struct MeshStatus {
    /// Whether the mesh runs.
    pub active: bool,
    /// Why it runs or does not.
    pub reason: Option<String>,
    /// Who this node is, when it is on the mesh.
    pub identity: Option<MeshIdentity>,
    /// The trust policy, as its word.
    pub trust_policy: Option<String>,
    /// What has been counted.
    pub tallies: MeshTallies,
    /// What has been refused.
    pub refusals: MeshRefusals,
    /// The discovery providers.
    pub providers: Vec<MeshProvider>,
}

/// Whether a node is trusted.
#[derive(Debug, Clone, PartialEq, Eq)]
pub enum TrustState {
    /// Trusted, by this.
    Trusted(String),
    /// Seen, and neither trusted nor rejected.
    Observed,
    /// Rejected, for this reason.
    Rejected(String),
}

/// Whether a node is there.
#[derive(Debug, Clone, Copy, PartialEq, Eq, Structural)]
pub enum Presence {
    /// It is advertising.
    Present,
    /// It stopped.
    Absent,
}

/// Where a node was heard.
#[derive(Debug, Clone, PartialEq, Eq)]
pub struct NodeSource {
    /// The provider, as its word.
    pub source: String,
    /// The path it came by.
    pub path: String,
    /// When.
    pub at: String,
}

/// One discovered node.
#[derive(Debug, Clone, PartialEq, Eq)]
pub struct MeshNode {
    /// Its node id.
    pub node_id: String,
    /// The name it shows.
    pub display_name: String,
    /// Whether it is trusted.
    pub trust: TrustState,
    /// Whether it is there.
    pub presence: Presence,
    /// Where it answers.
    pub endpoints: Vec<String>,
    /// The transports it offers.
    pub capabilities: Vec<String>,
    /// When it was first heard.
    pub first_seen: String,
    /// When it was last heard.
    pub last_seen: String,
    /// How often it restarted.
    pub restarts: u64,
    /// Where it was heard.
    pub sources: Vec<NodeSource>,
    /// Its public key.
    pub public_key: String,
}

/// What the node list answered.
#[derive(Debug, Clone, PartialEq, Eq)]
pub struct NodeList {
    /// Every node.
    pub nodes: Vec<MeshNode>,
    /// How many nodes the registry holds.
    pub count: usize,
}

fn dec(n: u64) -> (r: String)
    ensures
        r@ == decimal_of(n as nat),
{
    let mut s = String::new();
    push_decimal_u64(&mut s, n);
    assert(s@ =~= decimal_of(n as nat));
    s
}

/// A text in a `span`.
pub open spec fn span(t: Seq<char>) -> NodeModel {
    NodeModel::Element(saying(bare("span"@), t))
}

/// How many nodes, trusted and present.
pub open spec fn nodes_text(t: MeshTallies) -> Seq<char> {
    decimal_of(t.nodes as nat) + " ("@ + decimal_of(t.trusted as nat) + " trusted, "@ + decimal_of(t.present as nat)
        + " present)"@
}

/// How many advertisements were accepted, replayed and expired.
pub open spec fn flow_text(t: MeshTallies) -> Seq<char> {
    decimal_of(t.accepted as nat) + " / "@ + decimal_of(t.replayed as nat) + " / "@ + decimal_of(t.expired as nat)
}

/// Why advertisements were refused.
pub open spec fn refused_text(r: MeshRefusals) -> Seq<char> {
    "oversized "@ + decimal_of(r.oversized as nat) + ", malformed "@ + decimal_of(r.malformed as nat) + ", version "@
        + decimal_of(r.version as nat) + ", bounds "@ + decimal_of(r.bounds as nat) + ", stale "@ + decimal_of(
        r.stale as nat,
    ) + ", signature "@ + decimal_of(r.signature as nat) + ", self "@ + decimal_of(r.self_heard as nat)
}

/// The card of this node.
pub open spec fn overview_model(s: MeshStatus, filed: Seq<String>) -> ElementModel {
    let mesh = facts_model(seq![("Mesh"@, NodeModel::Element(word_model(filed, if s.active { "active"@ } else { "inactive"@ })))]);
    let mesh = match s.reason {
        Some(r) => holding(mesh, saying(classed("p"@, "mj-prose"@), r@)),
        None => mesh,
    };
    let o = holding(bare("div"@), mesh);
    let o = match s.identity {
        Some(i) => holding(
            o,
            facts_model(
                seq![
                    ("Node"@, NodeModel::Element(mono_model(i.node_id@))),
                    ("Name"@, span(i.display_name@)),
                    ("Instance"@, NodeModel::Element(mono_model(i.instance_id@))),
                ],
            ),
        ),
        None => o,
    };
    let o = match s.trust_policy {
        Some(p) => holding(o, facts_model(seq![("Trust policy"@, NodeModel::Element(word_model(filed, p@)))])),
        None => o,
    };
    card_model(
        "This node"@,
        holding(
            o,
            facts_model(
                seq![
                    ("Nodes"@, span(nodes_text(s.tallies))),
                    ("Accepted / replayed / expired"@, span(flow_text(s.tallies))),
                    ("Refused"@, span(refused_text(s.refusals))),
                ],
            ),
        ),
    )
}

fn overview(s: &MeshStatus, filed: &Vec<String>) -> (r: El)
    ensures
        r@ == overview_model(*s, filed@),
{
    let mut first: Vec<(&str, Node)> = Vec::new();
    first.push(
        (
            "Mesh",
            Node::Element(
                word_el(
                    filed,
                    if s.active {
                        "active"
                    } else {
                        "inactive"
                    },
                ),
            ),
        ),
    );
    assert(rows_model(first@) =~= seq![
        ("Mesh"@, NodeModel::Element(word_model(filed@, if s.active { "active"@ } else { "inactive"@ }))),
    ]);
    let mut mesh = facts(first);
    match &s.reason {
        Some(r) => {
            mesh = mesh.child(el("p").class("mj-prose").text(r.as_str()));
        },
        None => {},
    }
    let mut o = el("div").child(mesh);
    match &s.identity {
        Some(i) => {
            let mut rows: Vec<(&str, Node)> = Vec::new();
            rows.push(("Node", Node::Element(mono(i.node_id.as_str()))));
            rows.push(("Name", Node::Element(el("span").text(i.display_name.as_str()))));
            rows.push(("Instance", Node::Element(mono(i.instance_id.as_str()))));
            assert(rows_model(rows@) =~= seq![
                ("Node"@, NodeModel::Element(mono_model(i.node_id@))),
                ("Name"@, span(i.display_name@)),
                ("Instance"@, NodeModel::Element(mono_model(i.instance_id@))),
            ]);
            o = o.child(facts(rows));
        },
        None => {},
    }
    match &s.trust_policy {
        Some(p) => {
            let mut rows: Vec<(&str, Node)> = Vec::new();
            rows.push(("Trust policy", Node::Element(word_el(filed, p.as_str()))));
            assert(rows_model(rows@) =~= seq![("Trust policy"@, NodeModel::Element(word_model(filed@, p@)))]);
            o = o.child(facts(rows));
        },
        None => {},
    }
    let t = &s.tallies;
    let r = &s.refusals;
    let mut nodes = dec(t.nodes);
    push_str(&mut nodes, " (");
    push_str(&mut nodes, dec(t.trusted).as_str());
    push_str(&mut nodes, " trusted, ");
    push_str(&mut nodes, dec(t.present).as_str());
    push_str(&mut nodes, " present)");
    let mut flow = dec(t.accepted);
    push_str(&mut flow, " / ");
    push_str(&mut flow, dec(t.replayed).as_str());
    push_str(&mut flow, " / ");
    push_str(&mut flow, dec(t.expired).as_str());
    let mut refused = String::from_str("oversized ");
    push_str(&mut refused, dec(r.oversized).as_str());
    push_str(&mut refused, ", malformed ");
    push_str(&mut refused, dec(r.malformed).as_str());
    push_str(&mut refused, ", version ");
    push_str(&mut refused, dec(r.version).as_str());
    push_str(&mut refused, ", bounds ");
    push_str(&mut refused, dec(r.bounds).as_str());
    push_str(&mut refused, ", stale ");
    push_str(&mut refused, dec(r.stale).as_str());
    push_str(&mut refused, ", signature ");
    push_str(&mut refused, dec(r.signature).as_str());
    push_str(&mut refused, ", self ");
    push_str(&mut refused, dec(r.self_heard).as_str());
    let mut rows: Vec<(&str, Node)> = Vec::new();
    rows.push(("Nodes", Node::Element(el("span").text(nodes.as_str()))));
    rows.push(("Accepted / replayed / expired", Node::Element(el("span").text(flow.as_str()))));
    rows.push(("Refused", Node::Element(el("span").text(refused.as_str()))));
    assert(rows_model(rows@) =~= seq![
        ("Nodes"@, span(nodes_text(*t))),
        ("Accepted / replayed / expired"@, span(flow_text(*t))),
        ("Refused"@, span(refused_text(*r))),
    ]);
    card("This node", o.child(facts(rows)))
}

/// A provider's card.
pub open spec fn provider_model(p: MeshProvider, filed: Seq<String>) -> NodeModel {
    let inner = holding(
        bare("div"@),
        facts_model(seq![("Sent"@, span(decimal_of(p.sent as nat))), ("Received"@, span(decimal_of(p.received as nat)))]),
    );
    NodeModel::Element(
        card_with_model(
            p.id@,
            word_model(filed, provider_word(p.state)),
            match p.detail {
                Some(d) => holding(inner, saying(classed("p"@, "mj-prose"@), d@)),
                None => inner,
            },
        ),
    )
}

fn provider_el(p: &MeshProvider, filed: &Vec<String>) -> (r: El)
    ensures
        NodeModel::Element(r@) == provider_model(*p, filed@),
{
    let sent = dec(p.sent);
    let received = dec(p.received);
    let mut rows: Vec<(&str, Node)> = Vec::new();
    rows.push(("Sent", Node::Element(el("span").text(sent.as_str()))));
    rows.push(("Received", Node::Element(el("span").text(received.as_str()))));
    assert(rows_model(rows@) =~= seq![("Sent"@, span(decimal_of(p.sent as nat))), ("Received"@, span(decimal_of(p.received as nat)))]);
    let mut inner = el("div").child(facts(rows));
    match &p.detail {
        Some(d) => {
            inner = inner.child(el("p").class("mj-prose").text(d.as_str()));
        },
        None => {},
    }
    card_with(p.id.as_str(), word_el(filed, p.state.as_str()), inner)
}

/// What a node's card says of its trust.
pub open spec fn trust_text(t: TrustState) -> Seq<char> {
    match t {
        TrustState::Trusted(by) => "trusted ("@ + by@ + ")"@,
        TrustState::Observed => "observed"@,
        TrustState::Rejected(why) => "rejected: "@ + why@,
    }
}

/// Where a node was heard, in a line.
pub open spec fn source_text(s: NodeSource) -> Seq<char> {
    s.source@ + " via "@ + s.path@ + " at "@ + s.at@
}

/// A node's card.
pub open spec fn node_model(n: MeshNode, filed: Seq<String>) -> NodeModel {
    NodeModel::Element(
        card_with_model(
            n.display_name@ + " — "@ + n.node_id@,
            word_model(
                filed,
                match n.presence {
                    Presence::Present => "present"@,
                    Presence::Absent => "absent"@,
                },
            ),
            holding(
                holding(bare("div"@), saying(classed("p"@, "mj-prose"@), trust_text(n.trust))),
                facts_model(
                    seq![
                        ("Endpoints"@, span(join_with_text(views(n.endpoints@), ", "@))),
                        ("Transports"@, span(join_with_text(views(n.capabilities@), ", "@))),
                        (
                            "Seen"@,
                            span(
                                "first "@ + n.first_seen@ + ", last "@ + n.last_seen@ + ", restarts "@ + decimal_of(
                                    n.restarts as nat,
                                ),
                            ),
                        ),
                        ("Sources"@, span(join_with_text(n.sources@.map_values(|s: NodeSource| source_text(s)), "; "@))),
                        ("Key"@, NodeModel::Element(mono_model(n.public_key@))),
                    ],
                ),
            ),
        ),
    )
}

fn node_el(n: &MeshNode, filed: &Vec<String>) -> (r: El)
    ensures
        NodeModel::Element(r@) == node_model(*n, filed@),
{
    let trust = match &n.trust {
        TrustState::Trusted(by) => {
            let mut t = String::from_str("trusted (");
            push_str(&mut t, by.as_str());
            push_str(&mut t, ")");
            t
        },
        TrustState::Observed => String::from_str("observed"),
        TrustState::Rejected(why) => {
            let mut t = String::from_str("rejected: ");
            push_str(&mut t, why.as_str());
            t
        },
    };
    let presence = match n.presence {
        Presence::Present => "present",
        Presence::Absent => "absent",
    };
    let mut lines: Vec<String> = Vec::new();
    for k in 0..n.sources.len()
        invariant
            lines@.len() == k,
            forall|j: int| 0 <= j < k ==> (#[trigger] lines@[j])@ == source_text(n.sources@[j]),
    {
        let s = &n.sources[k];
        let mut t = String::from_str(s.source.as_str());
        push_str(&mut t, " via ");
        push_str(&mut t, s.path.as_str());
        push_str(&mut t, " at ");
        push_str(&mut t, s.at.as_str());
        lines.push(t);
    }
    assert(views(lines@) =~= n.sources@.map_values(|s: NodeSource| source_text(s)));
    let sources = joined_by(&lines, "; ");
    let endpoints = joined_by(&n.endpoints, ", ");
    let transports = joined_by(&n.capabilities, ", ");
    let mut seen = String::from_str("first ");
    push_str(&mut seen, n.first_seen.as_str());
    push_str(&mut seen, ", last ");
    push_str(&mut seen, n.last_seen.as_str());
    push_str(&mut seen, ", restarts ");
    push_str(&mut seen, dec(n.restarts).as_str());
    let mut rows: Vec<(&str, Node)> = Vec::new();
    rows.push(("Endpoints", Node::Element(el("span").text(endpoints.as_str()))));
    rows.push(("Transports", Node::Element(el("span").text(transports.as_str()))));
    rows.push(("Seen", Node::Element(el("span").text(seen.as_str()))));
    rows.push(("Sources", Node::Element(el("span").text(sources.as_str()))));
    rows.push(("Key", Node::Element(mono(n.public_key.as_str()))));
    assert(rows_model(rows@) =~= seq![
        ("Endpoints"@, span(join_with_text(views(n.endpoints@), ", "@))),
        ("Transports"@, span(join_with_text(views(n.capabilities@), ", "@))),
        ("Seen"@, span("first "@ + n.first_seen@ + ", last "@ + n.last_seen@ + ", restarts "@ + decimal_of(n.restarts as nat))),
        ("Sources"@, span(join_with_text(n.sources@.map_values(|s: NodeSource| source_text(s)), "; "@))),
        ("Key"@, NodeModel::Element(mono_model(n.public_key@))),
    ]);
    let mut title = String::from_str(n.display_name.as_str());
    push_str(&mut title, " — ");
    push_str(&mut title, n.node_id.as_str());
    card_with(
        title.as_str(),
        word_el(filed, presence),
        el("div").child(el("p").class("mj-prose").text(trust.as_str())).child(facts(rows)),
    )
}

/// What the nodes card says when nothing was heard.
pub const NO_NODE: &'static str = "No nodes observed. The registry fills as advertisements arrive; `majordomus mesh doctor` proves the prerequisites on this machine alone.";

/// The body of the mesh page.
pub open spec fn mesh_body(s: MeshStatus, l: NodeList, filed: Seq<String>) -> ElementModel {
    let providers = s.providers@.map_values(|p: MeshProvider| provider_model(p, filed));
    let nodes = l.nodes@.map_values(|n: MeshNode| node_model(n, filed));
    let top = holding(classed("div"@, "mj-grid"@), overview_model(s, filed));
    let top = if providers.len() > 0 {
        holding(top, card_model("Discovery providers"@, with_children(classed("div"@, "mj-grid"@), providers)))
    } else {
        top
    };
    holding(
        top,
        card_model(
            "Discovered nodes ("@ + decimal_of(l.count as nat) + ")"@,
            if nodes.len() == 0 {
                saying(classed("p"@, "mj-prose"@), NO_NODE@)
            } else {
                with_children(classed("div"@, "mj-grid"@), nodes)
            },
        ),
    )
}

/// The mesh. `status` and `nodes` are what the mesh status and the node list answered,
/// or why they did not; `filed` is the status words the design declaration files, which
/// decide whether a word the mesh answered is a badge or a tag.
pub fn mesh(status: Result<MeshStatus, String>, nodes: Result<NodeList, String>, filed: &Vec<String>) -> (r: Page)
    ensures
        r.area == Area::Mesh,
        r.title@ == "Mesh"@,
        r.subtitle is None,
        r.breadcrumbs@.len() == 0,
        r.scripts@.len() == 0,
        status is Err ==> r.main@ == failed_body(status->Err_0@) && r.status == 500,
        status is Ok && nodes is Err ==> r.main@ == failed_body(nodes->Err_0@) && r.status == 500,
        status is Ok && nodes is Ok ==> r.main@ == mesh_body(status->Ok_0, nodes->Ok_0, filed@) && r.status == 200,
{
    let s = match status {
        Ok(s) => s,
        Err(e) => return failed(Area::Mesh, "Mesh", e.as_str()),
    };
    let l = match nodes {
        Ok(l) => l,
        Err(e) => return failed(Area::Mesh, "Mesh", e.as_str()),
    };
    let mut providers: Vec<El> = Vec::new();
    for k in 0..s.providers.len()
        invariant
            providers@.len() == k,
            forall|j: int| 0 <= j < k ==> NodeModel::Element((#[trigger] providers@[j])@) == provider_model(s.providers@[j], filed@),
    {
        providers.push(provider_el(&s.providers[k], filed));
    }
    assert(els_model(providers@) =~= s.providers@.map_values(|p: MeshProvider| provider_model(p, filed@)));
    let mut cards: Vec<El> = Vec::new();
    for k in 0..l.nodes.len()
        invariant
            cards@.len() == k,
            forall|j: int| 0 <= j < k ==> NodeModel::Element((#[trigger] cards@[j])@) == node_model(l.nodes@[j], filed@),
    {
        cards.push(node_el(&l.nodes[k], filed));
    }
    assert(els_model(cards@) =~= l.nodes@.map_values(|n: MeshNode| node_model(n, filed@)));
    let mut body = el("div").class("mj-grid").child(overview(&s, filed));
    if providers.len() > 0 {
        body = body.child(card("Discovery providers", el("div").class("mj-grid").children(providers)));
    }
    let mut title = String::from_str("Discovered nodes (");
    push_str(&mut title, decimal(l.count).as_str());
    push_str(&mut title, ")");
    let inside = if cards.len() == 0 {
        el("p").class("mj-prose").text(NO_NODE)
    } else {
        el("div").class("mj-grid").children(cards)
    };
    Page::new(Area::Mesh, "Mesh", body.child(card(title.as_str(), inside)))
}

} // verus!
