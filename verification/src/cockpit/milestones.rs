//! One milestone of the plan, as a graph of work: what it is, where its work stands, what
//! holds the most back, what may run together, and every issue. Each word is one the task
//! records answered; the page decides nothing of its own but the colour a word wears, and
//! that is the design declaration's.

use vstd::prelude::*;

use crate::strings::{decimal, decimal_of, join_with_text, push_str, str_eq, views};
use crate::url::{percent_encode, percent_encoded};

use super::frame::{classed, holding, saying};
use super::html::{bare, el, els_model, with_attr, with_children, El, ElementModel, Node, NodeModel};
use super::nav::Area;
use super::pages::{failed, failed_body, given_trail, trail_views, Page};
use super::surfaces::{cell_of, mono_model};
use super::view::{
    alert, alert_model, badge_model, card, card_model, card_with, card_with_model, cell, css_word, css_word_of, facts,
    facts_model, id_cell, id_cell_model, link, link_model, mono, nothing, row, rows_model, statistic, statistic_model,
    strs_model, table, table_model, tag_model, text_cell, word_badge,
};
use super::work::{
    attested_count, attested_list, attested_text, dash_model, issue_href, issue_href_of, marks_model, milestone_href_of,
    milestone_refs, mono_link_model, plan_ref_model, provenance_title_of, refs, unanswered, unknown, unknown_model,
    AttestedCount, AttestedList, AttestedText,
};

verus! {

broadcast use super::html::lemma_element_node;

// ------------------------------------------------------------------ words

/// Is a word filed under a status by the design declaration, whose status words are
/// `filed`?
pub open spec fn is_filed(filed: Seq<String>, word: Seq<char>) -> bool {
    views(filed).contains(css_word_of(word))
}

/// A word as it is shown: a badge where the design declaration files it, a tag elsewhere.
pub open spec fn word_model(filed: Seq<String>, word: Seq<char>) -> ElementModel {
    if is_filed(filed, word) {
        badge_model(word, word)
    } else {
        tag_model(word)
    }
}

/// A word as it is shown, by the design declaration's filing.
pub fn word_el(filed: &Vec<String>, word: &str) -> (r: El)
    ensures
        r@ == word_model(filed@, word@),
{
    let w = css_word(word);
    let mut k: usize = 0;
    while k < filed.len()
        invariant
            w@ == css_word_of(word@),
            k <= filed@.len(),
            forall|j: int| 0 <= j < k ==> (#[trigger] filed@[j])@ != w@,
        decreases filed.len() - k,
    {
        if str_eq(filed[k].as_str(), w.as_str()) {
            assert(views(filed@)[k as int] == filed@[k as int]@);
            assert(views(filed@)[k as int] == w@);
            assert(views(filed@).contains(w@));
            return word_badge(word, true);
        }
        k += 1;
    }
    proof {
        if views(filed@).contains(w@) {
            let j = choose|j: int| 0 <= j < views(filed@).len() && #[trigger] views(filed@)[j] == w@;
            assert(filed@[j]@ == w@);
        }
    }
    word_badge(word, false)
}

/// A list of plan references as shown: the references, or a dash.
pub open spec fn refs_model(ids: Seq<String>) -> ElementModel {
    if ids.len() == 0 {
        dash_model()
    } else {
        marks_model(views(ids).map_values(|i: Seq<char>| NodeModel::Element(plan_ref_model(i))))
    }
}

fn refs_el(ids: &Vec<String>) -> (r: El)
    ensures
        r@ == refs_model(ids@),
{
    refs(ids.as_slice())
}

// ------------------------------------------------------------------ what the records answered

/// An issue that holds others back.
#[derive(Debug, Clone, PartialEq, Eq)]
pub struct CriticalBlocker {
    /// The issue.
    pub issue: String,
    /// Its readiness, as its word.
    pub readiness: String,
    /// What it holds back.
    pub blocks: Vec<String>,
    /// How much it holds back.
    pub weight: usize,
}

/// Two issues that may not run together because they touch one path.
#[derive(Debug, Clone, PartialEq, Eq)]
pub struct ScopeConflict {
    /// The one that goes first.
    pub held: String,
    /// The one that waits.
    pub excluded: String,
    /// The path both touch.
    pub path: String,
}

/// A set of issues that may run at the same time.
#[derive(Debug, Clone, PartialEq, Eq)]
pub struct ParallelSet {
    /// Its wave.
    pub wave: usize,
    /// The issues.
    pub issues: Vec<String>,
    /// The pairs its scope serialises.
    pub serialised: Vec<ScopeConflict>,
}

/// One issue of the milestone.
#[derive(Debug, Clone, PartialEq, Eq)]
pub struct GraphNode {
    /// Its readiness, as its word.
    pub readiness: String,
    /// Its status, as its word.
    pub canonical_status: String,
    /// The issue.
    pub issue: String,
    /// Its title.
    pub title: String,
    /// Its wave, when it has one.
    pub wave: Option<usize>,
    /// Its priority.
    pub priority: String,
    /// What it waits on.
    pub blocked_by: Vec<String>,
    /// How many issues wait on it, directly or not.
    pub transitive_dependents: usize,
}

/// A finding of the task records.
#[derive(Debug, Clone, PartialEq, Eq)]
pub struct DevTaskDiagnostic {
    /// Its level, as its word.
    pub level: String,
    /// Its code.
    pub code: String,
    /// What it says.
    pub message: String,
    /// The command that reproduces it.
    pub reproduce: String,
}

/// What the milestone graph answered.
#[derive(Debug, Clone, PartialEq, Eq)]
pub struct MilestoneGraph {
    /// Whether the plan declares the milestone.
    pub declared: bool,
    /// How many issues it has.
    pub total: usize,
    /// Issues that may start.
    pub ready: Vec<String>,
    /// Issues that may not.
    pub blocked: Vec<String>,
    /// Issues waiting on another.
    pub waiting: Vec<String>,
    /// Issues being worked on.
    pub active: Vec<String>,
    /// Issues in review.
    pub review: Vec<String>,
    /// Issues whose completion is blocked.
    pub completion_blocked: Vec<String>,
    /// Issues done.
    pub complete: Vec<String>,
    /// Issues given up.
    pub cancelled: Vec<String>,
    /// Its title.
    pub title: AttestedText,
    /// Its outcome.
    pub outcome: AttestedText,
    /// Its status.
    pub status: AttestedText,
    /// Its rank.
    pub rank: AttestedCount,
    /// The milestones it depends on.
    pub depends_on: AttestedList,
    /// The milestones it waits on.
    pub blocked_by: AttestedList,
    /// The milestones that wait on it.
    pub dependents: AttestedList,
    /// Its record, when it has one.
    pub record: Option<String>,
    /// The issues that hold the most back.
    pub critical_blockers: Vec<CriticalBlocker>,
    /// What may run together.
    pub parallelizable: Vec<ParallelSet>,
    /// Every issue.
    pub nodes: Vec<GraphNode>,
    /// The cycles of its dependencies.
    pub cycles: Vec<Vec<String>>,
    /// What the records found.
    pub diagnostics: Vec<DevTaskDiagnostic>,
}

// ------------------------------------------------------------------ the milestone card

/// One milestone as a mark.
pub open spec fn milestone_mark(m: Seq<char>) -> ElementModel {
    marks_model(seq![NodeModel::Element(mono_link_model(milestone_href_of(m), m))])
}

pub(crate) fn one_milestone(m: &String) -> (r: El)
    ensures
        r@ == milestone_mark(m@),
{
    let v: Vec<String> = vec![m.clone()];
    let r = milestone_refs(v.as_slice());
    assert(views(v@).map_values(|i: Seq<char>| NodeModel::Element(mono_link_model(milestone_href_of(i), i))) =~= seq![
        NodeModel::Element(mono_link_model(milestone_href_of(m@), m@)),
    ]);
    r
}

/// A list of milestones as the records answered it.
pub open spec fn milestones_model(v: AttestedList) -> ElementModel {
    if v.values@.len() == 0 {
        if unanswered(v.provenance@) {
            unknown_model(crate::cockpit::nav::opt_text(v.reason))
        } else {
            saying(classed("span"@, "mj-muted"@), "none"@)
        }
    } else {
        with_children(
            with_attr(classed("div"@, "mj-marks"@), "title"@, provenance_title_of(v.provenance@, v.source@)),
            views(v.values@).map_values(|m: Seq<char>| NodeModel::Element(milestone_mark(m))),
        )
    }
}

fn milestones_node(v: &AttestedList) -> (r: Node)
    ensures
        r@ == NodeModel::Element(milestones_model(*v)),
{
    let render = |m: &String| -> (e: El)
        ensures
            e@ == milestone_mark(m@),
        { one_milestone(m) };
    let r = attested_list(v, render);
    proof {
        if v.values@.len() > 0 {
            let shown = choose|shown: Seq<El>|
                #![trigger shown.len()]
                {
                    &&& shown.len() == v.values@.len()
                    &&& (forall|i: int| 0 <= i < shown.len() ==> render.ensures((&v.values@[i],), #[trigger] shown[i]))
                    &&& r@ == NodeModel::Element(
                        with_children(
                            with_attr(with_attr(bare("div"@), "class"@, "mj-marks"@), "title"@, provenance_title_of(v.provenance@, v.source@)),
                            shown.map_values(|c: El| NodeModel::Element(c@)),
                        ),
                    )
                };
            assert forall|i: int| 0 <= i < shown.len() implies (#[trigger] shown[i])@ == milestone_mark(v.values@[i]@) by {
                assert(render.ensures((&v.values@[i],), shown[i]));
            }
            assert(shown.map_values(|c: El| NodeModel::Element(c@)) =~= views(v.values@).map_values(
                |m: Seq<char>| NodeModel::Element(milestone_mark(m)),
            ));
        }
    }
    r
}

// ------------------------------------------------------------------ the cards

/// The facts of the milestone.
pub open spec fn about_rows(id: Seq<char>, g: MilestoneGraph, filed: Seq<String>) -> Seq<(Seq<char>, NodeModel)> {
    seq![
        ("Title"@, attested_text_model(g.title)),
        ("Outcome"@, attested_text_model(g.outcome)),
        (
            "Status"@,
            NodeModel::Element(
                match g.status.value {
                    Some(s) => word_model(filed, s@),
                    None => unknown_model(crate::cockpit::nav::opt_text(g.status.reason)),
                },
            ),
        ),
        ("Rank"@, attested_count_model(g.rank)),
        ("Depends on"@, NodeModel::Element(milestones_model(g.depends_on))),
        ("Waiting on"@, NodeModel::Element(milestones_model(g.blocked_by))),
        ("Holds back"@, NodeModel::Element(milestones_model(g.dependents))),
        (
            "Record"@,
            NodeModel::Element(
                match g.record {
                    Some(p) => mono_model(p@),
                    None => unknown_model(None),
                },
            ),
        ),
        (
            "Its issues"@,
            NodeModel::Element(link_model("/cockpit/plan?milestone="@ + percent_encoded(id), "Every issue of this milestone"@)),
        ),
    ]
}

/// A text value as shown.
pub open spec fn attested_text_model(t: AttestedText) -> NodeModel {
    NodeModel::Element(
        match t.value {
            Some(v) => saying(with_attr(bare("span"@), "title"@, provenance_title_of(t.provenance@, t.source@)), v@),
            None => unknown_model(crate::cockpit::nav::opt_text(t.reason)),
        },
    )
}

/// A count as shown.
pub open spec fn attested_count_model(c: AttestedCount) -> NodeModel {
    NodeModel::Element(
        match c.value {
            Some(n) => with_attr(mono_model(decimal_of(n as nat)), "title"@, provenance_title_of(c.provenance@, c.source@)),
            None => unknown_model(crate::cockpit::nav::opt_text(c.reason)),
        },
    )
}

/// The counts at the top of the page.
pub open spec fn stats_model(g: MilestoneGraph) -> ElementModel {
    holding(
        holding(
            holding(
                holding(
                    holding(
                        classed("div"@, "mj-stats"@),
                        statistic_model(decimal_of(g.total as nat), "issues"@, "devtask.milestone"@),
                    ),
                    statistic_model(decimal_of(g.ready@.len()), "ready"@, "devtask.milestone"@),
                ),
                statistic_model(decimal_of(g.blocked@.len()), "blocked"@, "devtask.milestone"@),
            ),
            statistic_model(decimal_of(g.active@.len()), "active"@, "devtask.milestone"@),
        ),
        statistic_model(decimal_of(g.complete@.len()), "complete"@, "devtask.milestone"@),
    )
}

/// Where the work of the milestone is.
pub open spec fn partition_rows(g: MilestoneGraph) -> Seq<(Seq<char>, NodeModel)> {
    seq![
        ("Ready"@, NodeModel::Element(refs_model(g.ready@))),
        ("Blocked"@, NodeModel::Element(refs_model(g.blocked@))),
        ("Waiting"@, NodeModel::Element(refs_model(g.waiting@))),
        ("Active"@, NodeModel::Element(refs_model(g.active@))),
        ("In review"@, NodeModel::Element(refs_model(g.review@))),
        ("Completion blocked"@, NodeModel::Element(refs_model(g.completion_blocked@))),
        ("Complete"@, NodeModel::Element(refs_model(g.complete@))),
        ("Cancelled"@, NodeModel::Element(refs_model(g.cancelled@))),
    ]
}

/// The row of an issue that holds others back.
pub open spec fn blocker_row(filed: Seq<String>, b: CriticalBlocker) -> NodeModel {
    NodeModel::Element(
        with_children(
            bare("tr"@),
            seq![
                NodeModel::Element(id_cell_model(issue_href_of(b.issue@), b.issue@)),
                cell_of(word_model(filed, b.readiness@)),
                cell_of(refs_model(b.blocks@)),
                NodeModel::Element(saying(bare("td"@), decimal_of(b.weight as nat))),
            ],
        ),
    )
}

/// One serialised pair as a note.
pub open spec fn conflict_node(c: ScopeConflict) -> NodeModel {
    NodeModel::Element(saying(classed("p"@, "mj-note"@), c.held@ + " before "@ + c.excluded@ + ": both touch "@ + c.path@))
}

/// The row of a set of issues that may run together.
pub open spec fn parallel_row(p: ParallelSet) -> NodeModel {
    NodeModel::Element(
        with_children(
            bare("tr"@),
            seq![
                NodeModel::Element(saying(bare("td"@), decimal_of(p.wave as nat))),
                cell_of(refs_model(p.issues@)),
                cell_of(
                    if p.serialised@.len() == 0 {
                        dash_model()
                    } else {
                        with_children(bare("div"@), p.serialised@.map_values(|c: ScopeConflict| conflict_node(c)))
                    },
                ),
            ],
        ),
    )
}

/// The row of an issue.
pub open spec fn node_row(filed: Seq<String>, n: GraphNode) -> NodeModel {
    NodeModel::Element(
        with_children(
            bare("tr"@),
            seq![
                cell_of(word_model(filed, n.readiness@)),
                cell_of(word_model(filed, n.canonical_status@)),
                NodeModel::Element(id_cell_model(issue_href_of(n.issue@), n.issue@)),
                NodeModel::Element(saying(bare("td"@), n.title@)),
                NodeModel::Element(
                    saying(
                        bare("td"@),
                        match n.wave {
                            Some(w) => decimal_of(w as nat),
                            None => "—"@,
                        },
                    ),
                ),
                NodeModel::Element(saying(bare("td"@), n.priority@)),
                cell_of(refs_model(n.blocked_by@)),
                NodeModel::Element(saying(bare("td"@), decimal_of(n.transitive_dependents as nat))),
            ],
        ),
    )
}

/// The row of a finding.
pub open spec fn diagnostic_row(filed: Seq<String>, d: DevTaskDiagnostic) -> NodeModel {
    NodeModel::Element(
        with_children(
            bare("tr"@),
            seq![
                cell_of(word_model(filed, d.level@)),
                cell_of(mono_model(d.code@)),
                NodeModel::Element(saying(bare("td"@), d.message@)),
                cell_of(mono_model(d.reproduce@)),
            ],
        ),
    )
}

/// A card holding a table, or what an empty one means.
pub open spec fn table_card(title: Seq<char>, empty: Seq<char>, headers: Seq<Seq<char>>, rows: Seq<NodeModel>) -> ElementModel {
    card_model(
        title,
        if rows.len() == 0 {
            saying(classed("p"@, "mj-empty"@), empty)
        } else {
            table_model(headers, rows)
        },
    )
}

/// The alert over a milestone whose dependencies go round in a circle.
pub open spec fn cycles_text(cycles: Seq<Vec<String>>) -> Seq<char> {
    "The dependencies go round in a circle: "@ + join_with_text(
        cycles.map_values(|c: Vec<String>| join_with_text(views(c@), " → "@)),
        "; "@,
    ) + ". Nothing on a cycle can ever start."@
}

/// The body of the page of a milestone.
pub open spec fn milestone_body(id: Seq<char>, g: MilestoneGraph, filed: Seq<String>) -> ElementModel {
    let top = holding(
        holding(classed("div"@, "mj-grid"@), stats_model(g)),
        card_with_model(
            "The milestone"@,
            link_model("/cockpit/capabilities/devtask.milestone"@, "devtask.milestone"@),
            facts_model(about_rows(id, g, filed)),
        ),
    );
    let top = if g.cycles@.len() > 0 {
        holding(top, alert_model("fail"@, cycles_text(g.cycles@)))
    } else {
        top
    };
    holding(
        holding(
            holding(
                holding(
                    holding(top, card_model("Where the work is"@, facts_model(partition_rows(g)))),
                    table_card(
                        "What holds the most back"@,
                        "No unfinished issue holds another back."@,
                        seq!["Issue"@, "Readiness"@, "Holds back"@, "Weight"@],
                        g.critical_blockers@.map_values(|b: CriticalBlocker| blocker_row(filed, b)),
                    ),
                ),
                table_card(
                    "What may run at the same time"@,
                    "Nothing here can be started now."@,
                    seq!["Wave"@, "Together"@, "Serialised by scope"@],
                    g.parallelizable@.map_values(|p: ParallelSet| parallel_row(p)),
                ),
            ),
            table_card(
                "Every issue"@,
                "This milestone has no issue."@,
                seq!["Readiness"@, "Status"@, "Issue"@, "Title"@, "Wave"@, "Priority"@, "Waiting on"@, "Holds back"@],
                g.nodes@.map_values(|n: GraphNode| node_row(filed, n)),
            ),
        ),
        table_card(
            "Findings"@,
            "Nothing is wrong with these records."@,
            seq!["Level"@, "Code"@, "Message"@, "Reproduce"@],
            g.diagnostics@.map_values(|d: DevTaskDiagnostic| diagnostic_row(filed, d)),
        ),
    )
}

/// The body of the page of a milestone the plan does not declare.
pub open spec fn undeclared_body(kind: Seq<char>, id: Seq<char>) -> ElementModel {
    holding(
        holding(bare("div"@), alert_model("warn"@, "The plan declares no "@ + kind + " `"@ + id + "`."@)),
        holding(bare("p"@), link_model("/cockpit/plan"@, "Every milestone and issue of the plan"@)),
    )
}
// ------------------------------------------------------------------ building them

fn about_el(id: &str, g: &MilestoneGraph, filed: &Vec<String>) -> (r: El)
    ensures
        r@ == card_with_model(
            "The milestone"@,
            link_model("/cockpit/capabilities/devtask.milestone"@, "devtask.milestone"@),
            facts_model(about_rows(id@, *g, filed@)),
        ),
{
    let status = match &g.status.value {
        Some(s) => word_el(filed, s.as_str()),
        None => unknown(
            match &g.status.reason {
                Some(r) => Some(r.as_str()),
                None => None,
            },
        ),
    };
    let record = match &g.record {
        Some(p) => mono(p.as_str()),
        None => unknown(None),
    };
    let mut issues = String::from_str("/cockpit/plan?milestone=");
    push_str(&mut issues, percent_encode(id).as_str());
    let mut rows: Vec<(&str, Node)> = Vec::new();
    rows.push(("Title", attested_text(&g.title)));
    rows.push(("Outcome", attested_text(&g.outcome)));
    rows.push(("Status", Node::Element(status)));
    rows.push(("Rank", attested_count(&g.rank)));
    rows.push(("Depends on", milestones_node(&g.depends_on)));
    rows.push(("Waiting on", milestones_node(&g.blocked_by)));
    rows.push(("Holds back", milestones_node(&g.dependents)));
    rows.push(("Record", Node::Element(record)));
    rows.push(("Its issues", Node::Element(link(issues.as_str(), "Every issue of this milestone"))));
    assert(rows_model(rows@) =~= about_rows(id@, *g, filed@));
    card_with("The milestone", link("/cockpit/capabilities/devtask.milestone", "devtask.milestone"), facts(rows))
}

fn stats_el(g: &MilestoneGraph) -> (r: El)
    ensures
        r@ == stats_model(*g),
{
    el("div").class("mj-stats").child(statistic(decimal(g.total).as_str(), "issues", "devtask.milestone")).child(
        statistic(decimal(g.ready.len()).as_str(), "ready", "devtask.milestone"),
    ).child(statistic(decimal(g.blocked.len()).as_str(), "blocked", "devtask.milestone")).child(
        statistic(decimal(g.active.len()).as_str(), "active", "devtask.milestone"),
    ).child(statistic(decimal(g.complete.len()).as_str(), "complete", "devtask.milestone"))
}

fn partitions_el(g: &MilestoneGraph) -> (r: El)
    ensures
        r@ == card_model("Where the work is"@, facts_model(partition_rows(*g))),
{
    let mut rows: Vec<(&str, Node)> = Vec::new();
    rows.push(("Ready", Node::Element(refs_el(&g.ready))));
    rows.push(("Blocked", Node::Element(refs_el(&g.blocked))));
    rows.push(("Waiting", Node::Element(refs_el(&g.waiting))));
    rows.push(("Active", Node::Element(refs_el(&g.active))));
    rows.push(("In review", Node::Element(refs_el(&g.review))));
    rows.push(("Completion blocked", Node::Element(refs_el(&g.completion_blocked))));
    rows.push(("Complete", Node::Element(refs_el(&g.complete))));
    rows.push(("Cancelled", Node::Element(refs_el(&g.cancelled))));
    assert(rows_model(rows@) =~= partition_rows(*g));
    card("Where the work is", facts(rows))
}

fn table_card_el(title: &str, empty: &str, headers: &[&str], rows: Vec<El>) -> (r: El)
    ensures
        r@ == table_card(title@, empty@, strs_model(headers@), els_model(rows@)),
{
    if rows.len() == 0 {
        card(title, nothing(empty))
    } else {
        card(title, table(headers, rows))
    }
}

fn blockers_el(g: &MilestoneGraph, filed: &Vec<String>) -> (r: Vec<El>)
    ensures
        els_model(r@) == g.critical_blockers@.map_values(|b: CriticalBlocker| blocker_row(filed@, b)),
{
    let mut rows: Vec<El> = Vec::new();
    for k in 0..g.critical_blockers.len()
        invariant
            rows@.len() == k,
            forall|j: int|
                0 <= j < k ==> NodeModel::Element((#[trigger] rows@[j])@) == blocker_row(filed@, g.critical_blockers@[j]),
    {
        let b = &g.critical_blockers[k];
        let mut cells: Vec<El> = Vec::new();
        cells.push(id_cell(issue_href(b.issue.as_str()).as_str(), b.issue.as_str()));
        cells.push(cell(word_el(filed, b.readiness.as_str())));
        cells.push(cell(refs_el(&b.blocks)));
        cells.push(text_cell(decimal(b.weight).as_str()));
        let r = row(cells);
        assert(els_model(cells@) =~= match blocker_row(filed@, *b) {
            NodeModel::Element(x) => x.children,
            _ => seq![],
        });
        rows.push(r);
    }
    assert(els_model(rows@) =~= g.critical_blockers@.map_values(|b: CriticalBlocker| blocker_row(filed@, b)));
    rows
}

fn parallel_el(g: &MilestoneGraph) -> (r: Vec<El>)
    ensures
        els_model(r@) == g.parallelizable@.map_values(|p: ParallelSet| parallel_row(p)),
{
    let mut rows: Vec<El> = Vec::new();
    for k in 0..g.parallelizable.len()
        invariant
            rows@.len() == k,
            forall|j: int| 0 <= j < k ==> NodeModel::Element((#[trigger] rows@[j])@) == parallel_row(g.parallelizable@[j]),
    {
        let p = &g.parallelizable[k];
        let serialised = if p.serialised.len() == 0 {
            el("span").class("mj-muted").text("—")
        } else {
            let mut notes: Vec<El> = Vec::new();
            for j in 0..p.serialised.len()
                invariant
                    notes@.len() == j,
                    forall|i: int| 0 <= i < j ==> NodeModel::Element((#[trigger] notes@[i])@) == conflict_node(p.serialised@[i]),
            {
                let c = &p.serialised[j];
                let mut t = String::from_str(c.held.as_str());
                push_str(&mut t, " before ");
                push_str(&mut t, c.excluded.as_str());
                push_str(&mut t, ": both touch ");
                push_str(&mut t, c.path.as_str());
                notes.push(el("p").class("mj-note").text(t.as_str()));
            }
            assert(els_model(notes@) =~= p.serialised@.map_values(|c: ScopeConflict| conflict_node(c)));
            el("div").children(notes)
        };
        let mut cells: Vec<El> = Vec::new();
        cells.push(text_cell(decimal(p.wave).as_str()));
        cells.push(cell(refs_el(&p.issues)));
        cells.push(cell(serialised));
        let r = row(cells);
        assert(els_model(cells@) =~= match parallel_row(*p) {
            NodeModel::Element(x) => x.children,
            _ => seq![],
        });
        rows.push(r);
    }
    assert(els_model(rows@) =~= g.parallelizable@.map_values(|p: ParallelSet| parallel_row(p)));
    rows
}

fn nodes_el(g: &MilestoneGraph, filed: &Vec<String>) -> (r: Vec<El>)
    ensures
        els_model(r@) == g.nodes@.map_values(|n: GraphNode| node_row(filed@, n)),
{
    let mut rows: Vec<El> = Vec::new();
    for k in 0..g.nodes.len()
        invariant
            rows@.len() == k,
            forall|j: int| 0 <= j < k ==> NodeModel::Element((#[trigger] rows@[j])@) == node_row(filed@, g.nodes@[j]),
    {
        let n = &g.nodes[k];
        let wave = match n.wave {
            Some(w) => decimal(w),
            None => String::from_str("—"),
        };
        let mut cells: Vec<El> = Vec::new();
        cells.push(cell(word_el(filed, n.readiness.as_str())));
        cells.push(cell(word_el(filed, n.canonical_status.as_str())));
        cells.push(id_cell(issue_href(n.issue.as_str()).as_str(), n.issue.as_str()));
        cells.push(text_cell(n.title.as_str()));
        cells.push(text_cell(wave.as_str()));
        cells.push(text_cell(n.priority.as_str()));
        cells.push(cell(refs_el(&n.blocked_by)));
        cells.push(text_cell(decimal(n.transitive_dependents).as_str()));
        let r = row(cells);
        assert(els_model(cells@) =~= match node_row(filed@, *n) {
            NodeModel::Element(x) => x.children,
            _ => seq![],
        });
        rows.push(r);
    }
    assert(els_model(rows@) =~= g.nodes@.map_values(|n: GraphNode| node_row(filed@, n)));
    rows
}

fn diagnostics_el(g: &MilestoneGraph, filed: &Vec<String>) -> (r: Vec<El>)
    ensures
        els_model(r@) == g.diagnostics@.map_values(|d: DevTaskDiagnostic| diagnostic_row(filed@, d)),
{
    let mut rows: Vec<El> = Vec::new();
    for k in 0..g.diagnostics.len()
        invariant
            rows@.len() == k,
            forall|j: int| 0 <= j < k ==> NodeModel::Element((#[trigger] rows@[j])@) == diagnostic_row(filed@, g.diagnostics@[j]),
    {
        let d = &g.diagnostics[k];
        let mut cells: Vec<El> = Vec::new();
        cells.push(cell(word_el(filed, d.level.as_str())));
        cells.push(cell(mono(d.code.as_str())));
        cells.push(text_cell(d.message.as_str()));
        cells.push(cell(mono(d.reproduce.as_str())));
        let r = row(cells);
        assert(els_model(cells@) =~= match diagnostic_row(filed@, *d) {
            NodeModel::Element(x) => x.children,
            _ => seq![],
        });
        rows.push(r);
    }
    assert(els_model(rows@) =~= g.diagnostics@.map_values(|d: DevTaskDiagnostic| diagnostic_row(filed@, d)));
    rows
}

fn cycles_string(cycles: &Vec<Vec<String>>) -> (r: String)
    ensures
        r@ == cycles_text(cycles@),
{
    let mut parts: Vec<String> = Vec::new();
    for k in 0..cycles.len()
        invariant
            views(parts@) == cycles@.take(k as int).map_values(|c: Vec<String>| join_with_text(views(c@), " → "@)),
    {
        let ghost before = parts@;
        parts.push(crate::strings::joined_by(&cycles[k], " → "));
        assert(views(parts@) =~= views(before).push(join_with_text(views(cycles@[k as int]@), " → "@)));
        assert(cycles@.take(k + 1).map_values(|c: Vec<String>| join_with_text(views(c@), " → "@)) =~= cycles@.take(
            k as int,
        ).map_values(|c: Vec<String>| join_with_text(views(c@), " → "@)).push(join_with_text(views(cycles@[k as int]@), " → "@)));
    }
    assert(cycles@.take(cycles@.len() as int) =~= cycles@);
    let mut out = String::from_str("The dependencies go round in a circle: ");
    push_str(&mut out, crate::strings::joined_by(&parts, "; ").as_str());
    push_str(&mut out, ". Nothing on a cycle can ever start.");
    out
}

/// One milestone as a graph of work. `graph` is what the milestone graph answered for
/// `id`, or why it did not; `filed` is every status word the design declaration files
/// under a status, so a word wears a colour only where one was given to it.
pub fn milestone(id: &str, graph: Result<MilestoneGraph, String>, filed: &Vec<String>) -> (r: Page)
    ensures
        r.area == Area::Plan,
        r.title@ == id@,
        r.scripts@.len() == 0,
        match graph {
            Err(e) => r.main@ == failed_body(e@) && r.status == 500,
            Ok(g) => {
                &&& trail_views(r.breadcrumbs@) == seq![
                    ("Cockpit"@, Some("/cockpit"@)),
                    ("Plan"@, Some("/cockpit/plan"@)),
                    (id@, None::<Seq<char>>),
                ]
                &&& if !g.declared {
                    r.main@ == undeclared_body("milestone"@, id@) && r.status == 404
                } else {
                    &&& r.main@ == milestone_body(id@, g, filed@)
                    &&& r.status == 200
                    &&& r.subtitle matches Some(s) && s@ == match g.title.value {
                        Some(t) => t@,
                        None => id@,
                    }
                }
            },
        },
{
    let g = match graph {
        Ok(g) => g,
        Err(e) => return failed(Area::Plan, id, e.as_str()),
    };
    let mut trail: Vec<(&str, Option<&str>)> = Vec::new();
    trail.push(("Cockpit", Some("/cockpit")));
    trail.push(("Plan", Some("/cockpit/plan")));
    trail.push((id, None));
    assert(given_trail(trail@) =~= seq![
        ("Cockpit"@, Some("/cockpit"@)),
        ("Plan"@, Some("/cockpit/plan"@)),
        (id@, None::<Seq<char>>),
    ]);
    if !g.declared {
        let mut message = String::from_str("The plan declares no ");
        push_str(&mut message, "milestone");
        push_str(&mut message, " `");
        push_str(&mut message, id);
        push_str(&mut message, "`.");
        let body = el("div").child(alert("warn", message.as_str())).child(
            el("p").child(link("/cockpit/plan", "Every milestone and issue of the plan")),
        );
        return Page::new(Area::Plan, id, body).status(404).trail(trail);
    }
    let mut body = el("div").class("mj-grid").child(stats_el(&g)).child(about_el(id, &g, filed));
    if g.cycles.len() > 0 {
        body = body.child(alert("fail", cycles_string(&g.cycles).as_str()));
    }
    let h1 = ["Issue", "Readiness", "Holds back", "Weight"];
    assert(strs_model(h1@) =~= seq!["Issue"@, "Readiness"@, "Holds back"@, "Weight"@]);
    let h2 = ["Wave", "Together", "Serialised by scope"];
    assert(strs_model(h2@) =~= seq!["Wave"@, "Together"@, "Serialised by scope"@]);
    let h3 = ["Readiness", "Status", "Issue", "Title", "Wave", "Priority", "Waiting on", "Holds back"];
    assert(strs_model(h3@) =~= seq!["Readiness"@, "Status"@, "Issue"@, "Title"@, "Wave"@, "Priority"@, "Waiting on"@, "Holds back"@]);
    let h4 = ["Level", "Code", "Message", "Reproduce"];
    assert(strs_model(h4@) =~= seq!["Level"@, "Code"@, "Message"@, "Reproduce"@]);
    body = body.child(partitions_el(&g)).child(
        table_card_el("What holds the most back", "No unfinished issue holds another back.", &h1, blockers_el(&g, filed)),
    ).child(table_card_el("What may run at the same time", "Nothing here can be started now.", &h2, parallel_el(&g))).child(
        table_card_el("Every issue", "This milestone has no issue.", &h3, nodes_el(&g, filed)),
    ).child(table_card_el("Findings", "Nothing is wrong with these records.", &h4, diagnostics_el(&g, filed)));
    let title = match &g.title.value {
        Some(t) => t.as_str(),
        None => id,
    };
    Page::new(Area::Plan, id, body).subtitle(title).trail(trail)
}

} // verus!
