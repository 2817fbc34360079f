//! One intent: what must become true, how far reality is from it, which work is making it
//! true, and the test behind every criterion. Every word on the page is a word the intent
//! explanation answered; the links go to the objects the index already holds.

use vstd::prelude::*;

use crate::strings::{decimal, decimal_of, join_with_text, joined_by, push_str, str_eq, views};
use crate::url::{percent_encode, percent_encoded};

use super::frame::{classed, holding, saying};
use super::html::{bare, el, els_model, with_attr, with_child, with_children, El, ElementModel, Node, NodeModel};
use super::nav::Area;
use super::pages::{given_trail, trail_views, Page};
use super::surfaces::{cell_of, mono_model};
use super::view::{
    alert, alert_model, badge, badge_model, card, card_model, cell, facts, facts_model, link, link_model, mono, nothing,
    row, rows_model, statistic, statistic_model, strs_model, table, table_model, text_cell,
};

verus! {

broadcast use super::html::lemma_element_node;

/// Where an intent stands.
#[derive(Debug, Clone, Copy, PartialEq, Eq, Structural)]
pub enum IntentStage {
    /// Written down.
    Declared,
    /// Planned.
    Planned,
    /// Being worked on.
    Executing,
    /// Its evidence is being gathered.
    Verifying,
    /// Every criterion has current evidence.
    Satisfied,
    /// Given up.
    Cancelled,
    /// Replaced by another.
    Superseded,
}

/// The word a stage is shown as.
pub open spec fn stage_word(s: IntentStage) -> Seq<char> {
    match s {
        IntentStage::Declared => "declared"@,
        IntentStage::Planned => "planned"@,
        IntentStage::Executing => "executing"@,
        IntentStage::Verifying => "verifying"@,
        IntentStage::Satisfied => "satisfied"@,
        IntentStage::Cancelled => "cancelled"@,
        IntentStage::Superseded => "superseded"@,
    }
}

/// The status colour a stage is read in.
pub open spec fn stage_status(s: IntentStage) -> Seq<char> {
    match s {
        IntentStage::Satisfied => "ok"@,
        IntentStage::Verifying | IntentStage::Cancelled => "warn"@,
        IntentStage::Executing => "info"@,
        IntentStage::Superseded => "bad"@,
        IntentStage::Declared | IntentStage::Planned => "neutral"@,
    }
}

impl IntentStage {
    /// The word.
    pub fn as_str(self) -> (r: &'static str)
        ensures
            r@ == stage_word(self),
    {
        match self {
            IntentStage::Declared => "declared",
            IntentStage::Planned => "planned",
            IntentStage::Executing => "executing",
            IntentStage::Verifying => "verifying",
            IntentStage::Satisfied => "satisfied",
            IntentStage::Cancelled => "cancelled",
            IntentStage::Superseded => "superseded",
        }
    }

    /// The status colour.
    pub fn status(self) -> (r: &'static str)
        ensures
            r@ == stage_status(self),
    {
        match self {
            IntentStage::Satisfied => "ok",
            IntentStage::Verifying | IntentStage::Cancelled => "warn",
            IntentStage::Executing => "info",
            IntentStage::Superseded => "bad",
            IntentStage::Declared | IntentStage::Planned => "neutral",
        }
    }
}

/// Where the evidence of a criterion stands.
#[derive(Debug, Clone, Copy, PartialEq, Eq, Structural)]
pub enum EvidenceState {
    /// Recorded and current.
    Current,
    /// Recorded, but older than what it is about.
    Stale,
    /// Recorded as failing.
    Failing,
    /// Never recorded.
    NotRun,
    /// Not something a run can record.
    NotDerivable,
    /// Names something that does not resolve.
    Unresolved,
}

/// The status colour and the label of an evidence state.
pub open spec fn evidence_of(s: EvidenceState) -> (Seq<char>, Seq<char>) {
    match s {
        EvidenceState::Current => ("ok"@, "current"@),
        EvidenceState::Stale => ("warn"@, "stale"@),
        EvidenceState::Failing => ("bad"@, "failing"@),
        EvidenceState::NotRun => ("neutral"@, "not run"@),
        EvidenceState::NotDerivable => ("neutral"@, "not derivable"@),
        EvidenceState::Unresolved => ("bad"@, "unresolved"@),
    }
}

fn evidence_badge(s: EvidenceState) -> (r: El)
    ensures
        r@ == badge_model(evidence_of(s).0, evidence_of(s).1),
{
    match s {
        EvidenceState::Current => badge("ok", "current"),
        EvidenceState::Stale => badge("warn", "stale"),
        EvidenceState::Failing => badge("bad", "failing"),
        EvidenceState::NotRun => badge("neutral", "not run"),
        EvidenceState::NotDerivable => badge("neutral", "not derivable"),
        EvidenceState::Unresolved => badge("bad", "unresolved"),
    }
}

/// How a unit of work is known to serve an intent, strongest first.
#[derive(Debug, Clone, Copy, PartialEq, Eq, Structural)]
pub enum LinkProvenance {
    /// The work declares it.
    Declared,
    /// It was seen.
    Observed,
    /// It follows from what is declared.
    Derived,
    /// It is a guess.
    Inferred,
}

/// The word a provenance is shown as.
pub open spec fn provenance_word(p: LinkProvenance) -> Seq<char> {
    match p {
        LinkProvenance::Declared => "declared"@,
        LinkProvenance::Observed => "observed"@,
        LinkProvenance::Derived => "derived"@,
        LinkProvenance::Inferred => "inferred"@,
    }
}

/// The status colour of a provenance.
pub open spec fn provenance_status(p: LinkProvenance) -> Seq<char> {
    match p {
        LinkProvenance::Declared => "ok"@,
        LinkProvenance::Observed => "info"@,
        LinkProvenance::Derived => "neutral"@,
        LinkProvenance::Inferred => "warn"@,
    }
}

/// How strong a provenance is: the lower, the stronger.
pub open spec fn provenance_rank(p: LinkProvenance) -> int {
    match p {
        LinkProvenance::Declared => 0,
        LinkProvenance::Observed => 1,
        LinkProvenance::Derived => 2,
        LinkProvenance::Inferred => 3,
    }
}

fn rank(p: LinkProvenance) -> (r: u8)
    ensures
        r == provenance_rank(p),
{
    match p {
        LinkProvenance::Declared => 0,
        LinkProvenance::Observed => 1,
        LinkProvenance::Derived => 2,
        LinkProvenance::Inferred => 3,
    }
}

fn provenance_badge(p: LinkProvenance) -> (r: El)
    ensures
        r@ == badge_model(provenance_status(p), provenance_word(p)),
{
    match p {
        LinkProvenance::Declared => badge("ok", "declared"),
        LinkProvenance::Observed => badge("info", "observed"),
        LinkProvenance::Derived => badge("neutral", "derived"),
        LinkProvenance::Inferred => badge("warn", "inferred"),
    }
}

/// An object the index holds, as a page links to it.
#[derive(Debug, Clone, PartialEq, Eq)]
pub struct IndexObject {
    /// Its kind.
    pub kind: String,
    /// Its identity.
    pub identity: String,
    /// Its URI.
    pub uri: String,
}

/// One criterion of an intent.
#[derive(Debug, Clone, PartialEq, Eq)]
pub struct Criterion {
    /// Its id.
    pub id: String,
    /// What must be true.
    pub criterion: String,
    /// Where its evidence stands.
    pub state: EvidenceState,
    /// The kind of evidence it names.
    pub evidence: String,
    /// What it names.
    pub reference: String,
    /// The command that reproduces the evidence, when there is one.
    pub reproduce: Option<String>,
}

/// The issues declaring they serve a criterion.
#[derive(Debug, Clone, PartialEq, Eq)]
pub struct CriterionCoverage {
    /// The criterion.
    pub criterion: String,
    /// The issues.
    pub issues: Vec<String>,
}

/// A milestone realising an intent.
#[derive(Debug, Clone, PartialEq, Eq)]
pub struct MilestoneRef {
    /// Its id.
    pub id: String,
    /// Its status, when it resolves.
    pub status: Option<String>,
}

/// A link from a unit of work to an intent, through an issue.
#[derive(Debug, Clone, PartialEq, Eq)]
pub struct IntentLink {
    /// The intent.
    pub intent: String,
    /// The issue it goes through.
    pub issue: String,
    /// How the issue is joined to the intent, as its word.
    pub via: String,
    /// How the link is known.
    pub provenance: LinkProvenance,
}

/// A unit of work: a task, a session or a live claim.
#[derive(Debug, Clone, PartialEq, Eq)]
pub struct WorkUnit {
    /// Its kind, as its word.
    pub kind: String,
    /// Its id.
    pub id: String,
    /// Its outcome.
    pub outcome: String,
    /// The providers that worked on it.
    pub providers: Vec<String>,
    /// How many handovers it had.
    pub handovers: usize,
    /// Its links to intents.
    pub links: Vec<IntentLink>,
}

/// A finding of the realization.
#[derive(Debug, Clone, PartialEq, Eq)]
pub struct IntentFinding {
    /// Whether it fails the intent, rather than warns.
    pub failing: bool,
    /// Its code.
    pub code: String,
    /// What it is about.
    pub subject: String,
    /// What it says.
    pub message: String,
}

/// The intent itself.
#[derive(Debug, Clone, PartialEq, Eq)]
pub struct IntentRecord {
    /// Its id.
    pub id: String,
    /// Its title.
    pub title: String,
    /// What must become true.
    pub statement: String,
    /// Where it stands.
    pub stage: IntentStage,
    /// How many criteria have current evidence.
    pub met: usize,
    /// The file it is declared in.
    pub source: String,
    /// Its criteria.
    pub satisfaction: Vec<Criterion>,
    /// The milestones realising it.
    pub milestones: Vec<MilestoneRef>,
}

/// What the intent explanation answered.
#[derive(Debug, Clone, PartialEq, Eq)]
pub struct IntentExplanation {
    /// The intent.
    pub intent: IntentRecord,
    /// The issues serving each criterion.
    pub coverage: Vec<CriterionCoverage>,
    /// The work realising it.
    pub work: Vec<WorkUnit>,
    /// Why it stands where it stands.
    pub because: Vec<String>,
    /// How many units of work the realization counts.
    pub realization_work: usize,
    /// What the realization found.
    pub findings: Vec<IntentFinding>,
}

// ------------------------------------------------------------------ links to objects

/// The first object of a kind and identity the index holds.
pub open spec fn object_at(objects: Seq<IndexObject>, kind: Seq<char>, identity: Seq<char>) -> Option<IndexObject>
    decreases objects.len(),
{
    if objects.len() == 0 {
        None
    } else if objects[0].kind@ == kind && objects[0].identity@ == identity {
        Some(objects[0])
    } else {
        object_at(objects.drop_first(), kind, identity)
    }
}

/// A link to the page of an object the index holds, or the reference as text, so a link
/// never points at a page that would answer 404.
pub open spec fn object_link_model(objects: Seq<IndexObject>, kind: Seq<char>, identity: Seq<char>, label: Seq<char>) -> ElementModel {
    match object_at(objects, kind, identity) {
        Some(o) => link_model("/cockpit/object?uri="@ + percent_encoded(o.uri@), label),
        None => mono_model(label),
    }
}

proof fn lemma_object_at(objects: Seq<IndexObject>, kind: Seq<char>, identity: Seq<char>, k: int)
    requires
        0 <= k <= objects.len(),
        forall|j: int| 0 <= j < k ==> !((#[trigger] objects[j]).kind@ == kind && objects[j].identity@ == identity),
    ensures
        object_at(objects, kind, identity) == object_at(objects.subrange(k, objects.len() as int), kind, identity),
    decreases k,
{
    if k > 0 {
        let t = objects.drop_first();
        assert forall|j: int| 0 <= j < k - 1 implies !((#[trigger] t[j]).kind@ == kind && t[j].identity@ == identity) by {
            assert(t[j] == objects[j + 1]);
        }
        lemma_object_at(t, kind, identity, k - 1);
        assert(t.subrange(k - 1, t.len() as int) =~= objects.subrange(k, objects.len() as int));
    } else {
        assert(objects.subrange(0, objects.len() as int) =~= objects);
    }
}

fn object_link(objects: &Vec<IndexObject>, kind: &str, identity: &str, label: &str) -> (r: El)
    ensures
        r@ == object_link_model(objects@, kind@, identity@, label@),
{
    let mut k: usize = 0;
    while k < objects.len()
        invariant
            k <= objects@.len(),
            forall|j: int| 0 <= j < k ==> !((#[trigger] objects@[j]).kind@ == kind@ && objects@[j].identity@ == identity@),
        decreases objects.len() - k,
    {
        let o = &objects[k];
        if str_eq(o.kind.as_str(), kind) && str_eq(o.identity.as_str(), identity) {
            proof {
                lemma_object_at(objects@, kind@, identity@, k as int);
                let rest = objects@.subrange(k as int, objects@.len() as int);
                assert(rest[0] == objects@[k as int]);
            }
            let mut href = String::from_str("/cockpit/object?uri=");
            push_str(&mut href, percent_encode(o.uri.as_str()).as_str());
            return link(href.as_str(), label);
        }
        k += 1;
    }
    proof {
        lemma_object_at(objects@, kind@, identity@, k as int);
    }
    mono(label)
}

// ------------------------------------------------------------------ the summary

/// The share of criteria with current evidence, in percent, or none of none.
pub open spec fn percent_of(met: int, total: int) -> int {
    if total == 0 {
        0
    } else {
        met * 100 / total
    }
}

/// How many criteria have current evidence, as a progress bar.
pub open spec fn criteria_bar_model(met: nat, total: nat) -> ElementModel {
    let p = decimal_of(percent_of(met as int, total as int) as nat);
    with_child(
        with_child(
            with_attr(
                with_attr(
                    with_attr(
                        with_attr(
                            with_attr(with_attr(bare("div"@), "class"@, "mj-progress"@), "role"@, "progressbar"@),
                            "aria-valuenow"@,
                            p,
                        ),
                        "aria-valuemin"@,
                        "0"@,
                    ),
                    "aria-valuemax"@,
                    "100"@,
                ),
                "aria-label"@,
                decimal_of(met) + " of "@ + decimal_of(total) + " criteria have current evidence"@,
            ),
            NodeModel::Element(
                with_attr(with_attr(bare("div"@), "class"@, "mj-progress-bar"@), "style"@, "width:"@ + p + "%"@),
            ),
        ),
        NodeModel::Element(saying(classed("span"@, "mj-progress-text"@), decimal_of(met) + "/"@ + decimal_of(total))),
    )
}

fn criteria_bar(met: usize, total: usize) -> (r: El)
    requires
        met * 100 <= usize::MAX,
    ensures
        r@ == criteria_bar_model(met as nat, total as nat),
{
    let percent = if total == 0 {
        0
    } else {
        met * 100 / total
    };
    let p = decimal(percent);
    let mut label = decimal(met);
    push_str(&mut label, " of ");
    push_str(&mut label, decimal(total).as_str());
    push_str(&mut label, " criteria have current evidence");
    let mut width = String::from_str("width:");
    push_str(&mut width, p.as_str());
    push_str(&mut width, "%");
    let mut shown = decimal(met);
    push_str(&mut shown, "/");
    push_str(&mut shown, decimal(total).as_str());
    el("div").class("mj-progress").attr("role", "progressbar").attr("aria-valuenow", p.as_str()).attr(
        "aria-valuemin",
        "0",
    ).attr("aria-valuemax", "100").attr("aria-label", label.as_str()).child(
        el("div").class("mj-progress-bar").attr("style", width.as_str()),
    ).child(el("span").class("mj-progress-text").text(shown.as_str()))
}

/// The summary card: the statement, the stage, how many criteria are met, how much work
/// realises it, and where it is declared.
pub open spec fn summary_model(e: IntentExplanation, objects: Seq<IndexObject>) -> ElementModel {
    let i = e.intent;
    let total = i.satisfaction@.len();
    let stats = holding(
        holding(
            holding(
                classed("div"@, "mj-stats"@),
                statistic_model(stage_word(i.stage), "stage"@, "intent_realization.explain"@),
            ),
            statistic_model(
                decimal_of(i.met as nat) + "/"@ + decimal_of(total),
                "criteria with current evidence"@,
                "intent_realization.explain"@,
            ),
        ),
        statistic_model(decimal_of(e.realization_work as nat), "units of work"@, "intent_realization.explain"@),
    );
    card_model(
        "How far reality is from it"@,
        holding(
            holding(
                holding(holding(bare("div"@), saying(classed("p"@, "mj-prose"@), i.statement@)), stats),
                criteria_bar_model(i.met as nat, total),
            ),
            facts_model(
                seq![
                    ("Stage"@, NodeModel::Element(badge_model(stage_status(i.stage), stage_word(i.stage)))),
                    ("Record"@, NodeModel::Element(object_link_model(objects, "intent"@, i.id@, i.source@))),
                ],
            ),
        ),
    )
}

fn summary_el(e: &IntentExplanation, objects: &Vec<IndexObject>) -> (r: El)
    requires
        e.intent.met * 100 <= usize::MAX,
    ensures
        r@ == summary_model(*e, objects@),
{
    let i = &e.intent;
    let total = i.satisfaction.len();
    let mut met = decimal(i.met);
    push_str(&mut met, "/");
    push_str(&mut met, decimal(total).as_str());
    let stats = el("div").class("mj-stats").child(statistic(i.stage.as_str(), "stage", "intent_realization.explain")).child(
        statistic(met.as_str(), "criteria with current evidence", "intent_realization.explain"),
    ).child(statistic(decimal(e.realization_work).as_str(), "units of work", "intent_realization.explain"));
    let mut rows: Vec<(&str, Node)> = Vec::new();
    rows.push(("Stage", Node::Element(badge(i.stage.status(), i.stage.as_str()))));
    rows.push(("Record", Node::Element(object_link(objects, "intent", i.id.as_str(), i.source.as_str()))));
    assert(rows_model(rows@) =~= seq![
        ("Stage"@, NodeModel::Element(badge_model(stage_status(i.stage), stage_word(i.stage)))),
        ("Record"@, NodeModel::Element(object_link_model(objects@, "intent"@, i.id@, i.source@))),
    ]);
    card(
        "How far reality is from it",
        el("div").child(el("p").class("mj-prose").text(i.statement.as_str())).child(stats).child(
            criteria_bar(i.met, total),
        ).child(facts(rows)),
    )
}

// ------------------------------------------------------------------ the criteria

/// The issues declaring they serve a criterion: those of its first coverage entry, or none.
pub open spec fn served_issues(coverage: Seq<CriterionCoverage>, criterion: Seq<char>) -> Seq<String>
    decreases coverage.len(),
{
    if coverage.len() == 0 {
        seq![]
    } else if coverage[0].criterion@ == criterion {
        coverage[0].issues@
    } else {
        served_issues(coverage.drop_first(), criterion)
    }
}

/// The issues as links, a space between each two.
pub open spec fn served_nodes(objects: Seq<IndexObject>, issues: Seq<String>) -> Seq<NodeModel>
    decreases issues.len(),
{
    if issues.len() == 0 {
        seq![]
    } else {
        let rest = served_nodes(objects, issues.drop_last());
        let l = NodeModel::Element(object_link_model(objects, "issue"@, issues.last()@, issues.last()@));
        if issues.len() > 1 {
            rest.push(NodeModel::Text(" "@)).push(l)
        } else {
            rest.push(l)
        }
    }
}

/// What serves a criterion: its issues, or a dash.
pub open spec fn served_model(objects: Seq<IndexObject>, issues: Seq<String>) -> ElementModel {
    if issues.len() == 0 {
        saying(bare("span"@), "—"@)
    } else {
        with_children(bare("span"@), served_nodes(objects, issues))
    }
}

/// The evidence a criterion names: the test it names, linked, or the kind and reference.
pub open spec fn evidence_model(objects: Seq<IndexObject>, c: Criterion) -> ElementModel {
    if c.evidence@ == "test"@ {
        object_link_model(objects, "test"@, c.reference@, c.reference@)
    } else {
        mono_model(c.evidence@ + " "@ + c.reference@)
    }
}

/// The row of a criterion.
pub open spec fn criterion_row(objects: Seq<IndexObject>, coverage: Seq<CriterionCoverage>, c: Criterion) -> NodeModel {
    NodeModel::Element(
        with_children(
            bare("tr"@),
            seq![
                NodeModel::Element(saying(bare("td"@), c.id@)),
                NodeModel::Element(saying(bare("td"@), c.criterion@)),
                cell_of(badge_model(evidence_of(c.state).0, evidence_of(c.state).1)),
                cell_of(evidence_model(objects, c)),
                cell_of(served_model(objects, served_issues(coverage, c.id@))),
                cell_of(
                    match c.reproduce {
                        Some(r) => mono_model(r@),
                        None => saying(bare("span"@), "—"@),
                    },
                ),
            ],
        ),
    )
}

proof fn lemma_served_issues(coverage: Seq<CriterionCoverage>, criterion: Seq<char>, k: int)
    requires
        0 <= k <= coverage.len(),
        forall|j: int| 0 <= j < k ==> (#[trigger] coverage[j]).criterion@ != criterion,
    ensures
        served_issues(coverage, criterion) == served_issues(coverage.subrange(k, coverage.len() as int), criterion),
    decreases k,
{
    if k > 0 {
        let t = coverage.drop_first();
        assert forall|j: int| 0 <= j < k - 1 implies (#[trigger] t[j]).criterion@ != criterion by {
            assert(t[j] == coverage[j + 1]);
        }
        lemma_served_issues(t, criterion, k - 1);
        assert(t.subrange(k - 1, t.len() as int) =~= coverage.subrange(k, coverage.len() as int));
    } else {
        assert(coverage.subrange(0, coverage.len() as int) =~= coverage);
    }
}

fn issues_of<'a>(coverage: &'a Vec<CriterionCoverage>, criterion: &str) -> (r: Option<&'a Vec<String>>)
    ensures
        match r {
            Some(v) => v@ == served_issues(coverage@, criterion@),
            None => served_issues(coverage@, criterion@).len() == 0,
        },
{
    let mut k: usize = 0;
    while k < coverage.len()
        invariant
            k <= coverage@.len(),
            forall|j: int| 0 <= j < k ==> (#[trigger] coverage@[j]).criterion@ != criterion@,
        decreases coverage.len() - k,
    {
        if str_eq(coverage[k].criterion.as_str(), criterion) {
            proof {
                lemma_served_issues(coverage@, criterion@, k as int);
                let rest = coverage@.subrange(k as int, coverage@.len() as int);
                assert(rest[0] == coverage@[k as int]);
            }
            return Some(&coverage[k].issues);
        }
        k += 1;
    }
    proof {
        lemma_served_issues(coverage@, criterion@, k as int);
    }
    None
}

fn served_el(objects: &Vec<IndexObject>, issues: &Vec<String>) -> (r: El)
    ensures
        r@ == served_model(objects@, issues@),
{
    if issues.len() == 0 {
        return el("span").text("—");
    }
    let mut s = el("span");
    for n in 0..issues.len()
        invariant
            s@ == with_children(bare("span"@), served_nodes(objects@, issues@.take(n as int))),
    {
        let ghost before = s@;
        assert(issues@.take(n + 1).drop_last() =~= issues@.take(n as int));
        assert(issues@.take(n + 1).last() == issues@[n as int]);
        if n > 0 {
            s = s.text(" ");
        }
        s = s.child(object_link(objects, "issue", issues[n].as_str(), issues[n].as_str()));
        assert(s@.children =~= served_nodes(objects@, issues@.take(n + 1)));
        assert(s@ =~= with_children(bare("span"@), served_nodes(objects@, issues@.take(n + 1))));
    }
    assert(issues@.take(issues@.len() as int) =~= issues@);
    s
}

fn criterion_row_el(objects: &Vec<IndexObject>, coverage: &Vec<CriterionCoverage>, c: &Criterion) -> (r: El)
    ensures
        NodeModel::Element(r@) == criterion_row(objects@, coverage@, *c),
{
    let evidence = if str_eq(c.evidence.as_str(), "test") {
        object_link(objects, "test", c.reference.as_str(), c.reference.as_str())
    } else {
        let mut t = String::from_str(c.evidence.as_str());
        push_str(&mut t, " ");
        push_str(&mut t, c.reference.as_str());
        mono(t.as_str())
    };
    let served = match issues_of(coverage, c.id.as_str()) {
        Some(v) => served_el(objects, v),
        None => {
            let empty: Vec<String> = Vec::new();
            assert(empty@ =~= served_issues(coverage@, c.id@));
            served_el(objects, &empty)
        },
    };
    let mut cells: Vec<El> = Vec::new();
    cells.push(text_cell(c.id.as_str()));
    cells.push(text_cell(c.criterion.as_str()));
    cells.push(cell(evidence_badge(c.state)));
    cells.push(cell(evidence));
    cells.push(cell(served));
    cells.push(
        cell(
            match &c.reproduce {
                Some(r) => mono(r.as_str()),
                None => el("span").text("—"),
            },
        ),
    );
    let r = row(cells);
    assert(els_model(cells@) =~= match criterion_row(objects@, coverage@, *c) {
        NodeModel::Element(x) => x.children,
        _ => seq![],
    });
    r
}

// ------------------------------------------------------------------ the work

/// The strongest provenance of the links of a unit of work to an intent.
pub open spec fn strongest(links: Seq<IntentLink>, intent: Seq<char>) -> Option<LinkProvenance>
    decreases links.len(),
{
    if links.len() == 0 {
        None
    } else {
        let rest = strongest(links.drop_last(), intent);
        let l = links.last();
        if l.intent@ == intent {
            match rest {
                Some(p) => if provenance_rank(p) <= provenance_rank(l.provenance) {
                    Some(p)
                } else {
                    Some(l.provenance)
                },
                None => Some(l.provenance),
            }
        } else {
            rest
        }
    }
}

/// The issues a unit of work serves an intent through, each with how it is joined.
pub open spec fn via_issues(links: Seq<IntentLink>, intent: Seq<char>) -> Seq<Seq<char>>
    decreases links.len(),
{
    if links.len() == 0 {
        seq![]
    } else {
        let rest = via_issues(links.drop_last(), intent);
        let l = links.last();
        if l.intent@ == intent {
            rest.push(l.issue@ + " ("@ + l.via@ + ")"@)
        } else {
            rest
        }
    }
}

/// The row of a unit of work.
pub open spec fn work_row(intent: Seq<char>, w: WorkUnit) -> NodeModel {
    NodeModel::Element(
        with_children(
            bare("tr"@),
            seq![
                NodeModel::Element(saying(bare("td"@), w.kind@)),
                cell_of(mono_model(w.id@)),
                NodeModel::Element(saying(bare("td"@), w.outcome@)),
                cell_of(
                    match strongest(w.links@, intent) {
                        Some(p) => badge_model(provenance_status(p), provenance_word(p)),
                        None => saying(bare("span"@), "—"@),
                    },
                ),
                NodeModel::Element(saying(bare("td"@), join_with_text(via_issues(w.links@, intent), ", "@))),
                NodeModel::Element(saying(bare("td"@), join_with_text(views(w.providers@), ", "@))),
                NodeModel::Element(saying(bare("td"@), decimal_of(w.handovers as nat))),
            ],
        ),
    )
}

fn work_row_el(intent: &str, w: &WorkUnit) -> (r: El)
    ensures
        NodeModel::Element(r@) == work_row(intent@, *w),
{
    let mut best: Option<LinkProvenance> = None;
    let mut issues: Vec<String> = Vec::new();
    for k in 0..w.links.len()
        invariant
            best == strongest(w.links@.take(k as int), intent@),
            views(issues@) == via_issues(w.links@.take(k as int), intent@),
    {
        let l = &w.links[k];
        assert(w.links@.take(k + 1).drop_last() =~= w.links@.take(k as int));
        assert(w.links@.take(k + 1).last() == w.links@[k as int]);
        if str_eq(l.intent.as_str(), intent) {
            best = match best {
                Some(p) => if rank(p) <= rank(l.provenance) {
                    Some(p)
                } else {
                    Some(l.provenance)
                },
                None => Some(l.provenance),
            };
            let mut t = String::from_str(l.issue.as_str());
            push_str(&mut t, " (");
            push_str(&mut t, l.via.as_str());
            push_str(&mut t, ")");
            let ghost before = issues@;
            issues.push(t);
            assert(views(issues@) =~= views(before).push(t@));
        }
    }
    assert(w.links@.take(w.links@.len() as int) =~= w.links@);
    let mut cells: Vec<El> = Vec::new();
    cells.push(text_cell(w.kind.as_str()));
    cells.push(cell(mono(w.id.as_str())));
    cells.push(text_cell(w.outcome.as_str()));
    cells.push(
        cell(
            match best {
                Some(p) => provenance_badge(p),
                None => el("span").text("—"),
            },
        ),
    );
    cells.push(text_cell(joined_by(&issues, ", ").as_str()));
    cells.push(text_cell(joined_by(&w.providers, ", ").as_str()));
    cells.push(text_cell(decimal(w.handovers).as_str()));
    let r = row(cells);
    assert(els_model(cells@) =~= match work_row(intent@, *w) {
        NodeModel::Element(x) => x.children,
        _ => seq![],
    });
    r
}

/// What the work card says when nothing realises the intent.
pub const NO_WORK: &'static str = "No recorded task, session or live claim realises this intent.";

// ------------------------------------------------------------------ the page

/// The row of a milestone.
pub open spec fn milestone_row(objects: Seq<IndexObject>, m: MilestoneRef) -> NodeModel {
    NodeModel::Element(
        with_children(
            bare("tr"@),
            seq![
                cell_of(object_link_model(objects, "milestone"@, m.id@, m.id@)),
                NodeModel::Element(
                    saying(
                        bare("td"@),
                        match m.status {
                            Some(s) => s@,
                            None => "does not resolve"@,
                        },
                    ),
                ),
            ],
        ),
    )
}

/// A finding as an alert.
pub open spec fn finding_node(f: IntentFinding) -> NodeModel {
    NodeModel::Element(
        alert_model(
            if f.failing {
                "fail"@
            } else {
                "warn"@
            },
            f.code@ + " — "@ + f.subject@ + ": "@ + f.message@,
        ),
    )
}

/// The body of the page of an intent.
pub open spec fn intent_body(e: IntentExplanation, objects: Seq<IndexObject>) -> ElementModel {
    let i = e.intent;
    let criteria = card_model(
        "Criteria and the evidence behind each"@,
        table_model(
            seq!["Criterion"@, "What must be true"@, "Evidence"@, "Test"@, "Served by"@, "Reproduce"@],
            i.satisfaction@.map_values(|c: Criterion| criterion_row(objects, e.coverage@, c)),
        ),
    );
    let milestones = card_model(
        "Milestones realising it"@,
        table_model(seq!["Milestone"@, "Status"@], i.milestones@.map_values(|m: MilestoneRef| milestone_row(objects, m))),
    );
    let work = card_model(
        "Work realising it"@,
        if e.work@.len() == 0 {
            saying(classed("p"@, "mj-empty"@), NO_WORK@)
        } else {
            table_model(
                seq!["Kind"@, "Work"@, "Outcome"@, "Link"@, "Via issue"@, "Providers"@, "Handovers"@],
                e.work@.map_values(|w: WorkUnit| work_row(i.id@, w)),
            )
        },
    );
    let because = card_model(
        "Why it stands where it stands"@,
        with_children(classed("ul"@, "mj-list"@), e.because@.map_values(|b: String| NodeModel::Element(saying(bare("li"@), b@)))),
    );
    let g = holding(
        holding(
            holding(
                holding(holding(classed("div"@, "mj-grid"@), summary_model(e, objects)), criteria),
                milestones,
            ),
            work,
        ),
        because,
    );
    if e.findings@.len() > 0 {
        holding(g, card_model("Findings"@, with_children(bare("div"@), e.findings@.map_values(|f: IntentFinding| finding_node(f)))))
    } else {
        g
    }
}

/// The body of the page of an intent the explanation does not know, with why.
pub open spec fn no_intent_body(reason: Seq<char>) -> ElementModel {
    holding(holding(bare("div"@), alert_model("fail"@, reason)), link_model("/cockpit/intents"@, "Every intent"@))
}

/// One intent: the statement, the distance to it, each criterion with its test and
/// evidence, the milestones and the work realising it, and why it stands where it stands.
/// `explanation` is what the intent explanation answered for `id`, or why it did not;
/// `objects` is what the index holds, so that a link goes only to a page that exists.
pub fn intent(id: &str, explanation: Result<IntentExplanation, String>, objects: &Vec<IndexObject>) -> (r: Page)
    requires
        explanation matches Ok(e) ==> e.intent.met * 100 <= usize::MAX,
    ensures
        r.area == Area::Intents,
        r.scripts@.len() == 0,
        match explanation {
            Err(reason) => {
                &&& r.title@ == "No such intent"@
                &&& r.main@ == no_intent_body(reason@)
                &&& r.status == 404
                &&& trail_views(r.breadcrumbs@) == seq![
                    ("Cockpit"@, Some("/cockpit"@)),
                    ("Intents"@, Some("/cockpit/intents"@)),
                    (id@, None::<Seq<char>>),
                ]
            },
            Ok(e) => {
                &&& r.title@ == e.intent.title@
                &&& r.main@ == intent_body(e, objects@)
                &&& r.status == 200
                &&& r.subtitle matches Some(s) && s@ == "intent "@ + e.intent.id@
                &&& trail_views(r.breadcrumbs@) == seq![
                    ("Cockpit"@, Some("/cockpit"@)),
                    ("Intents"@, Some("/cockpit/intents"@)),
                    (e.intent.id@, None::<Seq<char>>),
                ]
            },
        },
{
    let e = match explanation {
        Ok(e) => e,
        Err(reason) => {
            let mut trail: Vec<(&str, Option<&str>)> = Vec::new();
            trail.push(("Cockpit", Some("/cockpit")));
            trail.push(("Intents", Some("/cockpit/intents")));
            trail.push((id, None));
            assert(given_trail(trail@) =~= seq![
                ("Cockpit"@, Some("/cockpit"@)),
                ("Intents"@, Some("/cockpit/intents"@)),
                (id@, None::<Seq<char>>),
            ]);
            return Page::new(
                Area::Intents,
                "No such intent",
                el("div").child(alert("fail", reason.as_str())).child(link("/cockpit/intents", "Every intent")),
            ).status(404).trail(trail);
        },
    };
    let i = &e.intent;
    let mut criteria_rows: Vec<El> = Vec::new();
    for k in 0..i.satisfaction.len()
        invariant
            criteria_rows@.len() == k,
            forall|j: int|
                0 <= j < k ==> NodeModel::Element((#[trigger] criteria_rows@[j])@) == criterion_row(
                    objects@,
                    e.coverage@,
                    i.satisfaction@[j],
                ),
    {
        criteria_rows.push(criterion_row_el(objects, &e.coverage, &i.satisfaction[k]));
    }
    assert(els_model(criteria_rows@) =~= i.satisfaction@.map_values(|c: Criterion| criterion_row(objects@, e.coverage@, c)));
    let h1 = ["Criterion", "What must be true", "Evidence", "Test", "Served by", "Reproduce"];
    assert(strs_model(h1@) =~= seq!["Criterion"@, "What must be true"@, "Evidence"@, "Test"@, "Served by"@, "Reproduce"@]);
    let mut milestone_rows: Vec<El> = Vec::new();
    for k in 0..i.milestones.len()
        invariant
            milestone_rows@.len() == k,
            forall|j: int|
                0 <= j < k ==> NodeModel::Element((#[trigger] milestone_rows@[j])@) == milestone_row(objects@, i.milestones@[j]),
    {
        let m = &i.milestones[k];
        let status = match &m.status {
            Some(s) => s.as_str(),
            None => "does not resolve",
        };
        let mut cells: Vec<El> = Vec::new();
        cells.push(cell(object_link(objects, "milestone", m.id.as_str(), m.id.as_str())));
        cells.push(text_cell(status));
        let r = row(cells);
        assert(els_model(cells@) =~= match milestone_row(objects@, *m) {
            NodeModel::Element(x) => x.children,
            _ => seq![],
        });
        milestone_rows.push(r);
    }
    assert(els_model(milestone_rows@) =~= i.milestones@.map_values(|m: MilestoneRef| milestone_row(objects@, m)));
    let h2 = ["Milestone", "Status"];
    assert(strs_model(h2@) =~= seq!["Milestone"@, "Status"@]);
    let work = if e.work.len() == 0 {
        card("Work realising it", nothing(NO_WORK))
    } else {
        let mut rows: Vec<El> = Vec::new();
        for k in 0..e.work.len()
            invariant
                rows@.len() == k,
                forall|j: int| 0 <= j < k ==> NodeModel::Element((#[trigger] rows@[j])@) == work_row(i.id@, e.work@[j]),
        {
            rows.push(work_row_el(i.id.as_str(), &e.work[k]));
        }
        assert(els_model(rows@) =~= e.work@.map_values(|w: WorkUnit| work_row(i.id@, w)));
        let h3 = ["Kind", "Work", "Outcome", "Link", "Via issue", "Providers", "Handovers"];
        assert(strs_model(h3@) =~= seq!["Kind"@, "Work"@, "Outcome"@, "Link"@, "Via issue"@, "Providers"@, "Handovers"@]);
        card("Work realising it", table(&h3, rows))
    };
    let mut because: Vec<El> = Vec::new();
    for k in 0..e.because.len()
        invariant
            because@.len() == k,
            forall|j: int| 0 <= j < k ==> (#[trigger] because@[j])@ == saying(bare("li"@), e.because@[j]@),
    {
        because.push(el("li").text(e.because[k].as_str()));
    }
    assert(els_model(because@) =~= e.because@.map_values(|b: String| NodeModel::Element(saying(bare("li"@), b@))));
    let mut body = el("div").class("mj-grid").child(summary_el(&e, objects)).child(
        card("Criteria and the evidence behind each", table(&h1, criteria_rows)),
    ).child(card("Milestones realising it", table(&h2, milestone_rows))).child(work).child(
        card("Why it stands where it stands", el("ul").class("mj-list").children(because)),
    );
    if e.findings.len() > 0 {
        let mut alerts: Vec<El> = Vec::new();
        for k in 0..e.findings.len()
            invariant
                alerts@.len() == k,
                forall|j: int| 0 <= j < k ==> NodeModel::Element((#[trigger] alerts@[j])@) == finding_node(e.findings@[j]),
        {
            let f = &e.findings[k];
            let mut t = String::from_str(f.code.as_str());
            push_str(&mut t, " — ");
            push_str(&mut t, f.subject.as_str());
            push_str(&mut t, ": ");
            push_str(&mut t, f.message.as_str());
            alerts.push(
                alert(
                    if f.failing {
                        "fail"
                    } else {
                        "warn"
                    },
                    t.as_str(),
                ),
            );
        }
        assert(els_model(alerts@) =~= e.findings@.map_values(|f: IntentFinding| finding_node(f)));
        body = body.child(card("Findings", el("div").children(alerts)));
    }
    let mut subtitle = String::from_str("intent ");
    push_str(&mut subtitle, i.id.as_str());
    let mut trail: Vec<(&str, Option<&str>)> = Vec::new();
    trail.push(("Cockpit", Some("/cockpit")));
    trail.push(("Intents", Some("/cockpit/intents")));
    trail.push((i.id.as_str(), None));
    assert(given_trail(trail@) =~= seq![
        ("Cockpit"@, Some("/cockpit"@)),
        ("Intents"@, Some("/cockpit/intents"@)),
        (i.id@, None::<Seq<char>>),
    ]);
    Page::new(Area::Intents, i.title.as_str(), body).subtitle(subtitle.as_str()).trail(trail)
}

} // verus!
