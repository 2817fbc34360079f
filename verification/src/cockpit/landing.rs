//! The landing page: what this process is serving, and whether it is healthy.

use vstd::prelude::*;

use crate::strings::{decimal, decimal_of, push_str};
use crate::url::{percent_encode, percent_encoded};

use super::checkouts::{severity_status, severity_word, Severity};
use super::frame::{classed, holding, saying};
use super::html::{bare, el, els_model, with_children, El, ElementModel, Node, NodeModel};
use super::nav::Area;
use super::pages::{failed, failed_body, Page};
use super::surfaces::{cell_of, mono_model};
use super::view::{
    badge, badge_model, card, card_model, card_with, card_with_model, cell, facts, facts_model, link, link_model, mono,
    nothing, row, rows_model, statistic, statistic_model, strs_model, table, table_model, text_cell,
};
use super::wellbeing::{status_sentence, status_word, HealthCheck, HealthReport};

verus! {

broadcast use super::html::lemma_element_node;

/// Where version control stands, as the repository report gives it.
#[derive(Debug, Clone, PartialEq, Eq)]
pub enum GitState {
    /// A repository was found.
    Available {
        /// The branch checked out, unless the head is detached.
        branch: Option<String>,
        /// The commit checked out, unless the branch is unborn.
        head: Option<String>,
        /// The working tree's state, as its word.
        working_tree: String,
    },
    /// None was found, and why.
    Unavailable {
        /// Why.
        reason: String,
    },
}

/// Where the repository is and how it was found.
#[derive(Debug, Clone, PartialEq, Eq)]
pub struct RepositoryIdentity {
    /// Its root.
    pub root: String,
    /// The schema of its layer.
    pub layer_schema: String,
    /// Its version control.
    pub git: GitState,
    /// How the root was found.
    pub discovery: String,
    /// The part of it this process serves.
    pub scope_path: String,
    /// Where that scope came from, as its word.
    pub scope_origin: String,
}

/// What the registry holds, counted.
#[derive(Debug, Clone, Copy, PartialEq, Eq)]
pub struct CapabilityCounts {
    /// Capabilities.
    pub total: usize,
    /// HTTP routes.
    pub http_routes: usize,
    /// MCP tools.
    pub mcp_tools: usize,
    /// Modules.
    pub modules: usize,
    /// Capabilities with a cache policy.
    pub cached: usize,
}

/// Whether the index was built from every declared file.
#[derive(Debug, Clone, Copy, PartialEq, Eq, Structural)]
pub enum IndexState {
    /// Every declared file became an object.
    Intact,
    /// Some did not.
    Degraded,
}

/// A finding of the index.
#[derive(Debug, Clone, PartialEq, Eq)]
pub struct LayerDiagnostic {
    /// How much it matters.
    pub severity: Severity,
    /// Its code.
    pub code: String,
    /// The file it is about, when it is about one.
    pub path: Option<String>,
    /// What it says.
    pub message: String,
}

/// What the repository report answered.
#[derive(Debug, Clone, PartialEq, Eq)]
pub struct RepositoryReport {
    /// Where the repository is.
    pub repository: RepositoryIdentity,
    /// What the registry holds.
    pub capabilities: CapabilityCounts,
    /// Objects of the layer.
    pub objects: usize,
    /// Whether the index is whole.
    pub state: IndexState,
    /// Every kind with how many objects it has.
    pub kinds: Vec<(String, usize)>,
    /// What the index found.
    pub diagnostics: Vec<LayerDiagnostic>,
}

/// One check of whether the advertised install works.
#[derive(Debug, Clone, PartialEq, Eq)]
pub struct InstallCheck {
    /// Whether it failed.
    pub failed: bool,
    /// Why, when it says.
    pub cause: Option<String>,
    /// What to do, when it says.
    pub next: Option<String>,
}

/// What the distribution status answered.
#[derive(Debug, Clone, PartialEq, Eq)]
pub struct InstallabilityReport {
    /// Whether the public install works.
    pub installable: bool,
    /// The version of this tree.
    pub local_version: String,
    /// The last stable release, when there is one.
    pub stable_tag: Option<String>,
    /// Artifacts published for it.
    pub published_artifacts: usize,
    /// Targets it must publish for.
    pub required_targets: usize,
    /// Every check.
    pub checks: Vec<InstallCheck>,
    /// The command the README advertises.
    pub install_command: String,
}

/// At most the first twelve characters.
pub open spec fn first_twelve(s: Seq<char>) -> Seq<char> {
    if s.len() <= 12 {
        s
    } else {
        s.take(12)
    }
}

fn first_twelve_text(s: &str) -> (r: &str)
    ensures
        r@ == first_twelve(s@),
{
    let n = s.unicode_len();
    let k = if n <= 12 {
        n
    } else {
        12
    };
    let t = s.substring_char(0, k);
    assert(t@ =~= first_twelve(s@));
    t
}

/// Version control in one line: the branch, the commit, the working tree; or why there is
/// none.
pub open spec fn git_line(g: GitState) -> Seq<char> {
    match g {
        GitState::Available { branch, head, working_tree } => {
            let b = match branch {
                Some(b) => b@,
                None => "(detached)"@,
            };
            let h = match head {
                Some(h) => h@,
                None => "(unborn)"@,
            };
            b + " · "@ + first_twelve(h) + " · "@ + working_tree@
        },
        GitState::Unavailable { reason } => reason@,
    }
}

fn git_text(g: &GitState) -> (r: String)
    ensures
        r@ == git_line(*g),
{
    match g {
        GitState::Available { branch, head, working_tree } => {
            let mut out = String::new();
            match branch {
                Some(b) => push_str(&mut out, b.as_str()),
                None => push_str(&mut out, "(detached)"),
            }
            push_str(&mut out, " · ");
            let h = match head {
                Some(h) => h.as_str(),
                None => "(unborn)",
            };
            push_str(&mut out, first_twelve_text(h));
            push_str(&mut out, " · ");
            push_str(&mut out, working_tree.as_str());
            out
        },
        GitState::Unavailable { reason } => reason.clone(),
    }
}

/// The counts at the top of the page, each with what produced it.
pub open spec fn statistics_model(r: RepositoryReport) -> ElementModel {
    let c = r.capabilities;
    holding(
        holding(
            holding(
                holding(
                    holding(
                        holding(
                            classed("div"@, "mj-stats"@),
                            statistic_model(decimal_of(c.total as nat), "capabilities"@, "capabilities.list"@),
                        ),
                        statistic_model(decimal_of(r.objects as nat), "objects of the layer"@, "repository.info"@),
                    ),
                    statistic_model(decimal_of(c.http_routes as nat), "HTTP routes"@, "the registry's HTTP exposures"@),
                ),
                statistic_model(decimal_of(c.mcp_tools as nat), "MCP tools"@, "the registry's MCP exposures"@),
            ),
            statistic_model(decimal_of(c.modules as nat), "modules"@, "compose_modules! and the layer's kinds"@),
        ),
        statistic_model(decimal_of(c.cached as nat), "cached capabilities"@, "the descriptors' cache policies"@),
    )
}

fn statistics_el(r: &RepositoryReport) -> (e: El)
    ensures
        e@ == statistics_model(*r),
{
    let c = &r.capabilities;
    el("div").class("mj-stats").child(statistic(decimal(c.total).as_str(), "capabilities", "capabilities.list")).child(
        statistic(decimal(r.objects).as_str(), "objects of the layer", "repository.info"),
    ).child(statistic(decimal(c.http_routes).as_str(), "HTTP routes", "the registry's HTTP exposures")).child(
        statistic(decimal(c.mcp_tools).as_str(), "MCP tools", "the registry's MCP exposures"),
    ).child(statistic(decimal(c.modules).as_str(), "modules", "compose_modules! and the layer's kinds")).child(
        statistic(decimal(c.cached).as_str(), "cached capabilities", "the descriptors' cache policies"),
    )
}

/// The badge of the index's state.
pub open spec fn state_badge(s: IndexState) -> ElementModel {
    match s {
        IndexState::Intact => badge_model("ok"@, "ok"@),
        IndexState::Degraded => badge_model("fail"@, "degraded"@),
    }
}

/// The facts of the repository.
pub open spec fn identity_rows(r: RepositoryReport, version: Seq<char>) -> Seq<(Seq<char>, NodeModel)> {
    let id = r.repository;
    seq![
        ("Root"@, NodeModel::Element(mono_model(id.root@))),
        ("Layer schema"@, NodeModel::Element(mono_model(id.layer_schema@))),
        ("Version control"@, NodeModel::Element(mono_model(git_line(id.git)))),
        ("Discovery"@, NodeModel::Element(mono_model(id.discovery@))),
        (
            "Scope"@,
            NodeModel::Element(
                saying(holding(bare("span"@), mono_model(id.scope_path@)), " ("@ + id.scope_origin@ + ")"@),
            ),
        ),
        ("Index state"@, NodeModel::Element(state_badge(r.state))),
        ("Executable"@, NodeModel::Element(mono_model("majordomus "@ + version))),
    ]
}

fn identity_el(r: &RepositoryReport, version: &str) -> (e: El)
    ensures
        e@ == card_model("This repository"@, facts_model(identity_rows(*r, version@))),
{
    let id = &r.repository;
    let mut origin = String::from_str(" (");
    push_str(&mut origin, id.scope_origin.as_str());
    push_str(&mut origin, ")");
    let mut executable = String::from_str("majordomus ");
    push_str(&mut executable, version);
    let state = match r.state {
        IndexState::Intact => badge("ok", "ok"),
        IndexState::Degraded => badge("fail", "degraded"),
    };
    let mut rows: Vec<(&str, Node)> = Vec::new();
    rows.push(("Root", Node::Element(mono(id.root.as_str()))));
    rows.push(("Layer schema", Node::Element(mono(id.layer_schema.as_str()))));
    rows.push(("Version control", Node::Element(mono(git_text(&id.git).as_str()))));
    rows.push(("Discovery", Node::Element(mono(id.discovery.as_str()))));
    rows.push(("Scope", Node::Element(el("span").child(mono(id.scope_path.as_str())).text(origin.as_str()))));
    rows.push(("Index state", Node::Element(state)));
    rows.push(("Executable", Node::Element(mono(executable.as_str()))));
    assert(rows_model(rows@) =~= identity_rows(*r, version@));
    card("This repository", facts(rows))
}

/// One line of the health card: a check's status, its title, what it found.
pub open spec fn checklist_item(c: HealthCheck) -> NodeModel {
    NodeModel::Element(
        holding(
            holding(
                holding(classed("li"@, "mj-checklist-item"@), badge_model(status_word(c.status), status_word(c.status))),
                saying(classed("span"@, "mj-checklist-title"@), c.title@),
            ),
            saying(classed("span"@, "mj-checklist-detail"@), c.detail@),
        ),
    )
}

/// The health card: where the repository stands and every check in a line, with a link to
/// the full report.
pub open spec fn health_card_model(h: HealthReport) -> ElementModel {
    card_with_model(
        "Health"@,
        link_model("/cockpit/health"@, "Full report"@),
        holding(
            holding(
                bare("div"@),
                holding(classed("p"@, "mj-health-line"@), badge_model(status_word(h.status), status_sentence(h.status))),
            ),
            with_children(classed("ul"@, "mj-checklist"@), h.checks@.map_values(|c: HealthCheck| checklist_item(c))),
        ),
    )
}

fn health_card_el(h: &HealthReport) -> (e: El)
    ensures
        e@ == health_card_model(*h),
{
    let mut items: Vec<El> = Vec::new();
    for k in 0..h.checks.len()
        invariant
            items@.len() == k,
            forall|i: int| 0 <= i < k ==> NodeModel::Element((#[trigger] items@[i])@) == checklist_item(h.checks@[i]),
    {
        let c = &h.checks[k];
        items.push(
            el("li").class("mj-checklist-item").child(badge(c.status.as_str(), c.status.as_str())).child(
                el("span").class("mj-checklist-title").text(c.title.as_str()),
            ).child(el("span").class("mj-checklist-detail").text(c.detail.as_str())),
        );
    }
    assert(els_model(items@) =~= h.checks@.map_values(|c: HealthCheck| checklist_item(c)));
    card_with(
        "Health",
        link("/cockpit/health", "Full report"),
        el("div").child(el("p").class("mj-health-line").child(badge(h.status.as_str(), h.status.sentence()))).child(
            el("ul").class("mj-checklist").children(items),
        ),
    )
}

/// The row of a kind: its name, how many objects, and a link that lists them.
pub open spec fn kind_row(k: (String, usize)) -> NodeModel {
    NodeModel::Element(
        with_children(
            bare("tr"@),
            seq![
                cell_of(mono_model(k.0@)),
                NodeModel::Element(saying(bare("td"@), decimal_of(k.1 as nat))),
                cell_of(link_model("/cockpit/objects?kind="@ + percent_encoded(k.0@), "browse"@)),
            ],
        ),
    )
}

/// The card of the layer's kinds.
pub open spec fn kinds_model(r: RepositoryReport) -> ElementModel {
    card_model(
        "What the layer holds"@,
        table_model(seq!["Kind"@, "Objects"@, ""@], r.kinds@.map_values(|k: (String, usize)| kind_row(k))),
    )
}

fn kinds_el(r: &RepositoryReport) -> (e: El)
    ensures
        e@ == kinds_model(*r),
{
    let mut rows: Vec<El> = Vec::new();
    for k in 0..r.kinds.len()
        invariant
            rows@.len() == k,
            forall|i: int| 0 <= i < k ==> NodeModel::Element((#[trigger] rows@[i])@) == kind_row(r.kinds@[i]),
    {
        let (kind, count) = (&r.kinds[k].0, r.kinds[k].1);
        let mut href = String::from_str("/cockpit/objects?kind=");
        push_str(&mut href, percent_encode(kind.as_str()).as_str());
        let mut cells: Vec<El> = Vec::new();
        cells.push(cell(mono(kind.as_str())));
        cells.push(text_cell(decimal(count).as_str()));
        cells.push(cell(link(href.as_str(), "browse")));
        let e = row(cells);
        assert(els_model(cells@) =~= seq![
            cell_of(mono_model(kind@)),
            NodeModel::Element(saying(bare("td"@), decimal_of(count as nat))),
            cell_of(link_model("/cockpit/objects?kind="@ + percent_encoded(kind@), "browse"@)),
        ]);
        rows.push(e);
    }
    assert(els_model(rows@) =~= r.kinds@.map_values(|k: (String, usize)| kind_row(k)));
    let headers = ["Kind", "Objects", ""];
    assert(strs_model(headers@) =~= seq!["Kind"@, "Objects"@, ""@]);
    card("What the layer holds", table(&headers, rows))
}

/// The row of a finding of the index.
pub open spec fn diagnostic_row(d: LayerDiagnostic) -> NodeModel {
    NodeModel::Element(
        with_children(
            bare("tr"@),
            seq![
                cell_of(badge_model(severity_status(d.severity), severity_word(d.severity))),
                cell_of(mono_model(d.code@)),
                cell_of(
                    mono_model(
                        match d.path {
                            Some(p) => p@,
                            None => "-"@,
                        },
                    ),
                ),
                NodeModel::Element(saying(bare("td"@), d.message@)),
            ],
        ),
    )
}

/// What the diagnostics card says when the index found nothing.
pub const EVERY_FILE: &'static str = "Every declared file became an object. Nothing to report.";

/// The card of the index's findings.
pub open spec fn diagnostics_model(r: RepositoryReport) -> ElementModel {
    if r.diagnostics@.len() == 0 {
        card_model("Diagnostics"@, saying(classed("p"@, "mj-empty"@), EVERY_FILE@))
    } else {
        card_model(
            "Diagnostics"@,
            table_model(
                seq!["Severity"@, "Code"@, "Path"@, "Message"@],
                r.diagnostics@.map_values(|d: LayerDiagnostic| diagnostic_row(d)),
            ),
        )
    }
}

fn diagnostics_el(r: &RepositoryReport) -> (e: El)
    ensures
        e@ == diagnostics_model(*r),
{
    if r.diagnostics.len() == 0 {
        return card("Diagnostics", nothing(EVERY_FILE));
    }
    let mut rows: Vec<El> = Vec::new();
    for k in 0..r.diagnostics.len()
        invariant
            rows@.len() == k,
            forall|i: int| 0 <= i < k ==> NodeModel::Element((#[trigger] rows@[i])@) == diagnostic_row(r.diagnostics@[i]),
    {
        let d = &r.diagnostics[k];
        let path = match &d.path {
            Some(p) => p.as_str(),
            None => "-",
        };
        let mut cells: Vec<El> = Vec::new();
        cells.push(cell(badge(d.severity.status(), d.severity.as_str())));
        cells.push(cell(mono(d.code.as_str())));
        cells.push(cell(mono(path)));
        cells.push(text_cell(d.message.as_str()));
        let e = row(cells);
        assert(els_model(cells@) =~= match diagnostic_row(*d) {
            NodeModel::Element(x) => x.children,
            _ => seq![],
        });
        rows.push(e);
    }
    assert(els_model(rows@) =~= r.diagnostics@.map_values(|d: LayerDiagnostic| diagnostic_row(d)));
    let headers = ["Severity", "Code", "Path", "Message"];
    assert(strs_model(headers@) =~= seq!["Severity"@, "Code"@, "Path"@, "Message"@]);
    card("Diagnostics", table(&headers, rows))
}

/// Why the install does not work and what to do, from the first check that failed: its
/// cause and its next step, each where it gives one.
pub open spec fn reason_rows(checks: Seq<InstallCheck>) -> Seq<(Seq<char>, NodeModel)>
    decreases checks.len(),
{
    if checks.len() == 0 {
        seq![]
    } else if checks[0].failed {
        let c = checks[0];
        let cause = match c.cause {
            Some(x) => seq![("Reason"@, NodeModel::Element(saying(bare("span"@), x@)))],
            None => seq![],
        };
        let next = match c.next {
            Some(x) => seq![("Next"@, NodeModel::Element(mono_model(x@)))],
            None => seq![],
        };
        cause + next
    } else {
        reason_rows(checks.drop_first())
    }
}

/// The facts of the distribution card.
pub open spec fn distribution_rows(d: InstallabilityReport) -> Seq<(Seq<char>, NodeModel)> {
    let rows = seq![
        ("Local version"@, NodeModel::Element(mono_model("v"@ + d.local_version@))),
        (
            "Stable release"@,
            NodeModel::Element(
                mono_model(
                    match d.stable_tag {
                        Some(t) => t@,
                        None => "none"@,
                    },
                ),
            ),
        ),
        (
            "Artifacts"@,
            NodeModel::Element(
                mono_model(decimal_of(d.published_artifacts as nat) + "/"@ + decimal_of(d.required_targets as nat)),
            ),
        ),
        (
            "Public install"@,
            NodeModel::Element(
                if d.installable {
                    badge_model("ok"@, "healthy"@)
                } else {
                    badge_model("fail"@, "blocked"@)
                },
            ),
        ),
    ];
    if d.installable {
        rows
    } else {
        rows + reason_rows(d.checks@)
    }
}

/// The distribution card: whether the command the README advertises works right now.
pub open spec fn distribution_model(d: InstallabilityReport) -> ElementModel {
    card_with_model(
        "Distribution"@,
        link_model("/cockpit/capabilities/distribution.status"@, "distribution.status"@),
        holding(
            holding(bare("div"@), facts_model(distribution_rows(d))),
            holding(classed("p"@, "mj-note"@), mono_model(d.install_command@)),
        ),
    )
}

proof fn lemma_reason_rows_skip(checks: Seq<InstallCheck>, k: int)
    requires
        0 <= k <= checks.len(),
        forall|i: int| 0 <= i < k ==> !(#[trigger] checks[i]).failed,
    ensures
        reason_rows(checks) == reason_rows(checks.subrange(k, checks.len() as int)),
    decreases k,
{
    if k > 0 {
        let rest = checks.drop_first();
        assert forall|i: int| 0 <= i < k - 1 implies !(#[trigger] rest[i]).failed by {
            assert(rest[i] == checks[i + 1]);
        }
        lemma_reason_rows_skip(rest, k - 1);
        assert(rest.subrange(k - 1, rest.len() as int) =~= checks.subrange(k, checks.len() as int));
    } else {
        assert(checks.subrange(0, checks.len() as int) =~= checks);
    }
}

fn push_reasons(rows: &mut Vec<(&str, Node)>, checks: &Vec<InstallCheck>)
    ensures
        rows_model(final(rows)@) == rows_model(old(rows)@) + reason_rows(checks@),
{
    let mut k: usize = 0;
    while k < checks.len()
        invariant
            0 <= k <= checks@.len(),
            forall|i: int| 0 <= i < k ==> !(#[trigger] checks@[i]).failed,
            rows@ == old(rows)@,
        decreases checks@.len() - k,
    {
        if checks[k].failed {
            proof {
                lemma_reason_rows_skip(checks@, k as int);
            }
            let ghost tail = checks@.subrange(k as int, checks@.len() as int);
            assert(tail[0] == checks@[k as int]);
            let c = &checks[k];
            let ghost before = rows@;
            match &c.cause {
                Some(x) => rows.push(("Reason", Node::Element(el("span").text(x.as_str())))),
                None => {},
            }
            match &c.next {
                Some(x) => rows.push(("Next", Node::Element(mono(x.as_str())))),
                None => {},
            }
            assert(rows_model(rows@) =~= rows_model(before) + reason_rows(tail));
            return;
        }
        k = k + 1;
    }
    proof {
        lemma_reason_rows_skip(checks@, k as int);
    }
    assert(checks@.subrange(k as int, checks@.len() as int) =~= Seq::<InstallCheck>::empty());
    assert(rows_model(rows@) =~= rows_model(old(rows)@) + reason_rows(checks@));
}

fn distribution_el(d: &InstallabilityReport) -> (e: El)
    ensures
        e@ == distribution_model(*d),
{
    let mut version = String::from_str("v");
    push_str(&mut version, d.local_version.as_str());
    let stable = match &d.stable_tag {
        Some(t) => t.as_str(),
        None => "none",
    };
    let mut artifacts = decimal(d.published_artifacts);
    push_str(&mut artifacts, "/");
    push_str(&mut artifacts, decimal(d.required_targets).as_str());
    let verdict = if d.installable {
        badge("ok", "healthy")
    } else {
        badge("fail", "blocked")
    };
    let mut rows: Vec<(&str, Node)> = Vec::new();
    rows.push(("Local version", Node::Element(mono(version.as_str()))));
    rows.push(("Stable release", Node::Element(mono(stable))));
    rows.push(("Artifacts", Node::Element(mono(artifacts.as_str()))));
    rows.push(("Public install", Node::Element(verdict)));
    if !d.installable {
        push_reasons(&mut rows, &d.checks);
    }
    assert(rows_model(rows@) =~= distribution_rows(*d));
    card_with(
        "Distribution",
        link("/cockpit/capabilities/distribution.status", "distribution.status"),
        el("div").child(facts(rows)).child(el("p").class("mj-note").child(mono(d.install_command.as_str()))),
    )
}

/// The body of the landing page.
pub open spec fn overview_body(
    r: RepositoryReport,
    h: HealthReport,
    d: Option<InstallabilityReport>,
    version: Seq<char>,
) -> ElementModel {
    let top = holding(
        holding(
            holding(classed("div"@, "mj-grid"@), statistics_model(r)),
            card_model("This repository"@, facts_model(identity_rows(r, version))),
        ),
        health_card_model(h),
    );
    let top = match d {
        Some(d) => holding(top, distribution_model(d)),
        None => top,
    };
    holding(holding(top, kinds_model(r)), diagnostics_model(r))
}

/// The landing page. `repository` and `health` are what the repository report and the
/// health report answered, or why they did not; `distribution` is what the distribution
/// status answered, where it did; `version` is this executable's, and `summary` the line
/// that says what it is.
pub fn overview(
    repository: Result<RepositoryReport, String>,
    health: Result<HealthReport, String>,
    distribution: Option<InstallabilityReport>,
    version: &str,
    summary: &str,
) -> (p: Page)
    ensures
        p.area == Area::Overview,
        p.title@ == "Overview"@,
        match (repository, health) {
            (Err(e), _) => p.main@ == failed_body(e@) && p.status == 500,
            (Ok(_), Err(e)) => p.main@ == failed_body(e@) && p.status == 500,
            (Ok(r), Ok(h)) => {
                &&& p.main@ == overview_body(r, h, distribution, version@)
                &&& p.subtitle matches Some(s) && s@ == summary@
                &&& p.breadcrumbs@.len() == 0
                &&& p.status == 200
                &&& p.scripts@.len() == 0
            },
        },
{
    let r = match repository {
        Ok(r) => r,
        Err(e) => return failed(Area::Overview, "Overview", e.as_str()),
    };
    let h = match health {
        Ok(h) => h,
        Err(e) => return failed(Area::Overview, "Overview", e.as_str()),
    };
    let mut body = el("div").class("mj-grid").child(statistics_el(&r)).child(identity_el(&r, version)).child(
        health_card_el(&h),
    );
    match &distribution {
        Some(d) => {
            body = body.child(distribution_el(d));
        },
        None => {},
    }
    let body = body.child(kinds_el(&r)).child(diagnostics_el(&r));
    Page::new(Area::Overview, "Overview", body).subtitle(summary)
}

} // verus!
