//! The plan: the milestones in derived order, the issue the plan hands out next, and every
//! issue, narrowed by milestone, status or wave. Every status is a word the plan answered.

use vstd::prelude::*;

use crate::strings::{decimal, decimal_of, push_str, views};

use super::frame::{classed, holding, saying};
use super::html::{bare, el, els_model, text, with_attr, with_children, El, ElementModel, Node, NodeModel};
use super::milestones::{milestone_mark, one_milestone, refs_model, word_el, word_model};
use super::nav::Area;
use super::pages::{
    failed, failed_body, given_trail, option_views, param, param_of, parse_number, parsed_number, select,
    select_model, trail_views, Page,
};
use super::view::{
    card, card_model, card_with, card_with_model, cell, facts, facts_model, id_cell, id_cell_model, link, link_model,
    mono, nothing, row, rows_model, statistic, statistic_model, strs_model, table, table_model, tag, tag_model,
    text_cell,
};
use super::work::{issue_href, issue_href_of, marks_model, milestone_href, milestone_href_of, milestone_refs, mono_link_model};
use super::surfaces::{cell_of, mono_model};

verus! {

broadcast use super::html::lemma_element_node;

/// A milestone of the roadmap.
#[derive(Debug, Clone, PartialEq, Eq)]
pub struct RoadmapMilestone {
    /// Its id.
    pub id: String,
    /// Its title.
    pub title: String,
    /// Its status, as its word.
    pub status: String,
    /// How many of its issues stand at each status word.
    pub by_status: Vec<(String, usize)>,
    /// Its rank.
    pub rank: usize,
    /// The milestones it waits on.
    pub blocked_by: Vec<String>,
}

/// What the roadmap answered.
#[derive(Debug, Clone, PartialEq, Eq)]
pub struct PlanRoadmap {
    /// The milestones, in derived order.
    pub milestones: Vec<RoadmapMilestone>,
    /// The milestone being worked on now.
    pub now: Option<String>,
    /// The milestone after it.
    pub next: Option<String>,
}

/// The issue the plan hands out next.
#[derive(Debug, Clone, PartialEq, Eq)]
pub struct NextIssue {
    /// Its id.
    pub id: String,
    /// Its title.
    pub title: String,
    /// Its status, as its word.
    pub status: String,
    /// Its milestone.
    pub milestone: String,
    /// Its wave.
    pub wave: usize,
    /// Its objective.
    pub objective: String,
}

/// What the next issue answered: the issue, or why there is none.
#[derive(Debug, Clone, PartialEq, Eq)]
pub struct PlanNextIssue {
    /// The issue.
    pub issue: Option<NextIssue>,
    /// Why there is none.
    pub reason: Option<String>,
}

/// An issue of the list.
#[derive(Debug, Clone, PartialEq, Eq)]
pub struct ListedIssue {
    /// Its status, as its word.
    pub status: String,
    /// Its id.
    pub id: String,
    /// Its title.
    pub title: String,
    /// Its milestone.
    pub milestone: String,
    /// Its wave.
    pub wave: usize,
    /// Its priority.
    pub priority: String,
    /// What it waits on.
    pub blocked_by: Vec<String>,
    /// The evidence it has.
    pub evidence_have: usize,
    /// The evidence it needs.
    pub evidence_need: usize,
}

/// What the issue list answered.
#[derive(Debug, Clone, PartialEq, Eq)]
pub struct PlanIssueList {
    /// How many issues match.
    pub total: usize,
    /// The issues.
    pub issues: Vec<ListedIssue>,
    /// Every status word an issue may have.
    pub statuses: Vec<String>,
}

/// What the issue list is narrowed by.
#[derive(Debug, Clone, PartialEq, Eq)]
pub struct PlanFilter {
    /// The milestone.
    pub milestone: Option<String>,
    /// The status.
    pub status: Option<String>,
    /// The wave.
    pub wave: Option<usize>,
}

// ------------------------------------------------------------------ the filter

/// A wave as the issue list takes one: a whole number that fits in 32 bits.
pub open spec fn wave_of(s: Seq<char>) -> Option<int> {
    match parsed_number(s) {
        Some(n) => if n <= 0xffff_ffff {
            Some(n)
        } else {
            None
        },
        None => None,
    }
}

/// What a request narrows the issue list by, or why its wave is not one.
pub open spec fn filter_of(query: Seq<(String, String)>) -> Result<(Option<Seq<char>>, Option<Seq<char>>, Option<int>), Seq<char>> {
    let wave = param_of(query, "wave"@);
    match wave {
        Some(w) => match wave_of(w) {
            Some(n) => Ok((param_of(query, "milestone"@), param_of(query, "status"@), Some(n))),
            None => Err("`wave` is a whole number, and `"@ + w + "` is not one"@),
        },
        None => Ok((param_of(query, "milestone"@), param_of(query, "status"@), None)),
    }
}

/// What a request narrows the issue list by: its milestone, status and wave, each where it
/// gives one; a wave that is not a whole number is refused with why.
pub fn plan_filter(query: &[(String, String)]) -> (r: Result<PlanFilter, String>)
    ensures
        match (r, filter_of(query@)) {
            (Ok(f), Ok((m, s, w))) => crate::cockpit::nav::opt_text(f.milestone) == m && crate::cockpit::nav::opt_text(f.status)
                == s && match w {
                Some(n) => f.wave == Some(n as usize),
                None => f.wave is None,
            },
            (Err(e), Err(x)) => e@ == x,
            _ => false,
        },
{
    let milestone = param(query, "milestone");
    let status = param(query, "status");
    let wave = match param(query, "wave") {
        Some(w) => match parse_number(w.as_str()) {
            Some(n) => if n <= 0xffff_ffff {
                Some(n)
            } else {
                let mut e = String::from_str("`wave` is a whole number, and `");
                push_str(&mut e, w.as_str());
                push_str(&mut e, "` is not one");
                return Err(e);
            },
            None => {
                let mut e = String::from_str("`wave` is a whole number, and `");
                push_str(&mut e, w.as_str());
                push_str(&mut e, "` is not one");
                return Err(e);
            },
        },
        None => None,
    };
    Ok(PlanFilter { milestone, status, wave })
}

// ------------------------------------------------------------------ the cards

/// The counts at the top of the page.
pub open spec fn plan_stats(r: PlanRoadmap, n: PlanNextIssue, l: PlanIssueList) -> ElementModel {
    holding(
        holding(
            holding(
                holding(
                    classed("div"@, "mj-stats"@),
                    statistic_model(decimal_of(r.milestones@.len()), "milestones"@, "plan.roadmap"@),
                ),
                statistic_model(decimal_of(l.total as nat), "issues shown"@, "plan.issues"@),
            ),
            statistic_model(
                match r.now {
                    Some(m) => m@,
                    None => "—"@,
                },
                "milestone now"@,
                "plan.roadmap"@,
            ),
        ),
        statistic_model(
            match n.issue {
                Some(i) => i.id@,
                None => "none"@,
            },
            "issue next"@,
            "plan.next"@,
        ),
    )
}

fn plan_stats_el(r: &PlanRoadmap, n: &PlanNextIssue, l: &PlanIssueList) -> (e: El)
    ensures
        e@ == plan_stats(*r, *n, *l),
{
    let now = match &r.now {
        Some(m) => m.as_str(),
        None => "—",
    };
    let next = match &n.issue {
        Some(i) => i.id.as_str(),
        None => "none",
    };
    el("div").class("mj-stats").child(statistic(decimal(r.milestones.len()).as_str(), "milestones", "plan.roadmap")).child(
        statistic(decimal(l.total).as_str(), "issues shown", "plan.issues"),
    ).child(statistic(now, "milestone now", "plan.roadmap")).child(statistic(next, "issue next", "plan.next"))
}

/// The facts of the issue handed out next.
pub open spec fn next_rows(i: NextIssue, filed: Seq<String>) -> Seq<(Seq<char>, NodeModel)> {
    seq![
        (
            "Issue"@,
            NodeModel::Element(
                holding(
                    saying(holding(bare("span"@), mono_link_model(super::work::plan_target(i.id@), i.id@)), " "@),
                    word_model(filed, i.status@),
                ),
            ),
        ),
        ("Title"@, NodeModel::Text(i.title@)),
        ("Milestone"@, NodeModel::Element(milestone_mark(i.milestone@))),
        ("Wave"@, NodeModel::Element(mono_model(decimal_of(i.wave as nat)))),
        ("Objective"@, NodeModel::Text(i.objective@)),
    ]
}

/// What the plan hands out next.
pub open spec fn next_model(n: PlanNextIssue, filed: Seq<String>) -> ElementModel {
    card_with_model(
        "What to work on"@,
        link_model("/cockpit/capabilities/plan.next"@, "plan.next"@),
        match n.issue {
            Some(i) => facts_model(next_rows(i, filed)),
            None => saying(
                classed("p"@, "mj-empty"@),
                match n.reason {
                    Some(r) => r@,
                    None => "The plan has no issue to hand out."@,
                },
            ),
        },
    )
}

fn next_el(n: &PlanNextIssue, filed: &Vec<String>) -> (r: El)
    ensures
        r@ == next_model(*n, filed@),
{
    let body = match &n.issue {
        Some(i) => {
            let mut rows: Vec<(&str, Node)> = Vec::new();
            rows.push(
                (
                    "Issue",
                    Node::Element(el("span").child(super::work::plan_ref(i.id.as_str())).text(" ").child(word_el(filed, i.status.as_str()))),
                ),
            );
            rows.push(("Title", text(i.title.as_str())));
            rows.push(("Milestone", Node::Element(one_milestone(&i.milestone))));
            rows.push(("Wave", Node::Element(mono(decimal(i.wave).as_str()))));
            rows.push(("Objective", text(i.objective.as_str())));
            assert(rows_model(rows@) =~= next_rows(*i, filed@));
            facts(rows)
        },
        None => match &n.reason {
            Some(r) => nothing(r.as_str()),
            None => nothing("The plan has no issue to hand out."),
        },
    };
    card_with("What to work on", link("/cockpit/capabilities/plan.next", "plan.next"), body)
}

/// The counts of a milestone's issues as tags, each status that has any.
pub open spec fn count_tags(by_status: Seq<(String, usize)>) -> Seq<NodeModel>
    decreases by_status.len(),
{
    if by_status.len() == 0 {
        seq![]
    } else {
        let rest = count_tags(by_status.drop_last());
        let (s, n) = by_status.last();
        if n > 0 {
            rest.push(NodeModel::Element(tag_model(decimal_of(n as nat) + " "@ + s@)))
        } else {
            rest
        }
    }
}

/// A milestone's status, marked when it is the one now or the one next.
pub open spec fn status_mark(r: PlanRoadmap, m: RoadmapMilestone, filed: Seq<String>) -> ElementModel {
    let s = holding(bare("span"@), word_model(filed, m.status@));
    let s = if r.now matches Some(x) && x@ == m.id@ {
        holding(saying(s, " "@), tag_model("now"@))
    } else {
        s
    };
    if r.next matches Some(x) && x@ == m.id@ {
        holding(saying(s, " "@), tag_model("next"@))
    } else {
        s
    }
}

/// The row of a milestone.
pub open spec fn milestone_row(r: PlanRoadmap, m: RoadmapMilestone, filed: Seq<String>) -> NodeModel {
    NodeModel::Element(
        with_children(
            bare("tr"@),
            seq![
                cell_of(status_mark(r, m, filed)),
                NodeModel::Element(id_cell_model(milestone_href_of(m.id@), m.id@)),
                NodeModel::Element(saying(bare("td"@), m.title@)),
                cell_of(with_children(classed("div"@, "mj-marks"@), count_tags(m.by_status@))),
                NodeModel::Element(saying(bare("td"@), decimal_of(m.rank as nat))),
                cell_of(
                    if m.blocked_by@.len() == 0 {
                        super::work::dash_model()
                    } else {
                        marks_model(
                            views(m.blocked_by@).map_values(|i: Seq<char>| NodeModel::Element(mono_link_model(milestone_href_of(i), i))),
                        )
                    },
                ),
            ],
        ),
    )
}

fn same(a: &Option<String>, b: &String) -> (r: bool)
    ensures
        r == (a matches Some(x) && x@ == b@),
{
    match a {
        Some(x) => crate::strings::str_eq(x.as_str(), b.as_str()),
        None => false,
    }
}

fn milestone_row_el(r: &PlanRoadmap, m: &RoadmapMilestone, filed: &Vec<String>) -> (e: El)
    ensures
        NodeModel::Element(e@) == milestone_row(*r, *m, filed@),
{
    let mut s = el("span").child(word_el(filed, m.status.as_str()));
    if same(&r.now, &m.id) {
        s = s.text(" ").child(tag("now"));
    }
    if same(&r.next, &m.id) {
        s = s.text(" ").child(tag("next"));
    }
    let mut tags: Vec<El> = Vec::new();
    for k in 0..m.by_status.len()
        invariant
            els_model(tags@) == count_tags(m.by_status@.take(k as int)),
    {
        let (st, n) = (&m.by_status[k].0, m.by_status[k].1);
        assert(m.by_status@.take(k + 1).drop_last() =~= m.by_status@.take(k as int));
        assert(m.by_status@.take(k + 1).last() == m.by_status@[k as int]);
        if n > 0 {
            let mut label = decimal(n);
            push_str(&mut label, " ");
            push_str(&mut label, st.as_str());
            let ghost before = tags@;
            tags.push(tag(label.as_str()));
            assert(els_model(tags@) =~= els_model(before).push(NodeModel::Element(tag_model(label@))));
        }
    }
    assert(m.by_status@.take(m.by_status@.len() as int) =~= m.by_status@);
    let mut cells: Vec<El> = Vec::new();
    cells.push(cell(s));
    cells.push(id_cell(milestone_href(m.id.as_str()).as_str(), m.id.as_str()));
    cells.push(text_cell(m.title.as_str()));
    cells.push(cell(el("div").class("mj-marks").children(tags)));
    cells.push(text_cell(decimal(m.rank).as_str()));
    cells.push(cell(milestone_refs(m.blocked_by.as_slice())));
    let e = row(cells);
    assert(els_model(cells@) =~= match milestone_row(*r, *m, filed@) {
        NodeModel::Element(x) => x.children,
        _ => seq![],
    });
    e
}

/// The card of the milestones.
pub open spec fn milestones_card(r: PlanRoadmap, filed: Seq<String>) -> ElementModel {
    card_with_model(
        "Milestones"@,
        link_model("/cockpit/capabilities/plan.roadmap"@, "plan.roadmap"@),
        if r.milestones@.len() == 0 {
            saying(classed("p"@, "mj-empty"@), "The plan declares no milestone."@)
        } else {
            table_model(
                seq!["Status"@, "Milestone"@, "Title"@, "Issues"@, "Rank"@, "Waiting on"@],
                r.milestones@.map_values(|m: RoadmapMilestone| milestone_row(r, m, filed)),
            )
        },
    )
}

fn milestones_card_el(r: &PlanRoadmap, filed: &Vec<String>) -> (e: El)
    ensures
        e@ == milestones_card(*r, filed@),
{
    let aside = link("/cockpit/capabilities/plan.roadmap", "plan.roadmap");
    if r.milestones.len() == 0 {
        return card_with("Milestones", aside, nothing("The plan declares no milestone."));
    }
    let mut rows: Vec<El> = Vec::new();
    for k in 0..r.milestones.len()
        invariant
            rows@.len() == k,
            forall|j: int| 0 <= j < k ==> NodeModel::Element((#[trigger] rows@[j])@) == milestone_row(*r, r.milestones@[j], filed@),
    {
        rows.push(milestone_row_el(r, &r.milestones[k], filed));
    }
    assert(els_model(rows@) =~= r.milestones@.map_values(|m: RoadmapMilestone| milestone_row(*r, m, filed@)));
    let h = ["Status", "Milestone", "Title", "Issues", "Rank", "Waiting on"];
    assert(strs_model(h@) =~= seq!["Status"@, "Milestone"@, "Title"@, "Issues"@, "Rank"@, "Waiting on"@]);
    card_with("Milestones", aside, table(&h, rows))
}

/// The filters of the issue list.
pub open spec fn filters_model(query: Seq<(String, String)>, r: PlanRoadmap, l: PlanIssueList) -> ElementModel {
    let milestone = param_of(query, "milestone"@);
    let status = param_of(query, "status"@);
    let wave = param_of(query, "wave"@);
    let input = match wave {
        Some(w) => with_attr(
            with_attr(with_attr(with_attr(classed("input"@, "mj-input"@), "type"@, "number"@), "min"@, "0"@), "name"@, "wave"@),
            "value"@,
            w,
        ),
        None => with_attr(with_attr(with_attr(classed("input"@, "mj-input"@), "type"@, "number"@), "min"@, "0"@), "name"@, "wave"@),
    };
    let f = holding(
        holding(
            holding(
                holding(
                    with_attr(with_attr(classed("form"@, "mj-filters"@), "method"@, "get"@), "action"@, "/cockpit/plan"@),
                    select_model(
                        "milestone"@,
                        "Milestone"@,
                        milestone,
                        r.milestones@.map_values(|m: RoadmapMilestone| (m.id@, m.id@ + " — "@ + m.title@)),
                    ),
                ),
                select_model("status"@, "Status"@, status, views(l.statuses@).map_values(|s: Seq<char>| (s, s))),
            ),
            holding(holding(classed("label"@, "mj-field"@), saying(classed("span"@, "mj-field-label"@), "Wave"@)), input),
        ),
        saying(with_attr(classed("button"@, "mj-button"@), "type"@, "submit"@), "Filter"@),
    );
    if milestone is Some || status is Some || wave is Some {
        holding(f, link_model("/cockpit/plan"@, "Every issue"@))
    } else {
        f
    }
}

fn filters_el(query: &[(String, String)], r: &PlanRoadmap, l: &PlanIssueList) -> (e: El)
    ensures
        e@ == filters_model(query@, *r, *l),
{
    let milestone = param(query, "milestone");
    let status = param(query, "status");
    let wave = param(query, "wave");
    let mut ms: Vec<(String, String)> = Vec::new();
    for k in 0..r.milestones.len()
        invariant
            option_views(ms@) == r.milestones@.take(k as int).map_values(|m: RoadmapMilestone| (m.id@, m.id@ + " — "@ + m.title@)),
    {
        let m = &r.milestones[k];
        let mut t = String::from_str(m.id.as_str());
        push_str(&mut t, " — ");
        push_str(&mut t, m.title.as_str());
        let ghost before = ms@;
        ms.push((String::from_str(m.id.as_str()), t));
        assert(option_views(ms@) =~= option_views(before).push((m.id@, m.id@ + " — "@ + m.title@)));
        assert(r.milestones@.take(k + 1).map_values(|m: RoadmapMilestone| (m.id@, m.id@ + " — "@ + m.title@)) =~= r.milestones@.take(
            k as int,
        ).map_values(|m: RoadmapMilestone| (m.id@, m.id@ + " — "@ + m.title@)).push((m.id@, m.id@ + " — "@ + m.title@)));
    }
    assert(r.milestones@.take(r.milestones@.len() as int) =~= r.milestones@);
    let mut ss: Vec<(String, String)> = Vec::new();
    for k in 0..l.statuses.len()
        invariant
            option_views(ss@) == views(l.statuses@.take(k as int)).map_values(|s: Seq<char>| (s, s)),
    {
        let ghost before = ss@;
        ss.push((String::from_str(l.statuses[k].as_str()), String::from_str(l.statuses[k].as_str())));
        assert(option_views(ss@) =~= option_views(before).push((l.statuses@[k as int]@, l.statuses@[k as int]@)));
        assert(views(l.statuses@.take(k + 1)).map_values(|s: Seq<char>| (s, s)) =~= views(l.statuses@.take(k as int)).map_values(
            |s: Seq<char>| (s, s),
        ).push((l.statuses@[k as int]@, l.statuses@[k as int]@)));
    }
    assert(l.statuses@.take(l.statuses@.len() as int) =~= l.statuses@);
    let narrowed = milestone.is_some() || status.is_some() || wave.is_some();
    let input = el("input").class("mj-input").attr("type", "number").attr("min", "0").attr("name", "wave").attr_if(
        "value",
        match &wave {
            Some(w) => Some(w.as_str()),
            None => None,
        },
    );
    let mut f = el("form").class("mj-filters").attr("method", "get").attr("action", "/cockpit/plan").child(
        select(
            "milestone",
            "Milestone",
            match &milestone {
                Some(m) => Some(m.as_str()),
                None => None,
            },
            ms,
        ),
    ).child(
        select(
            "status",
            "Status",
            match &status {
                Some(s) => Some(s.as_str()),
                None => None,
            },
            ss,
        ),
    ).child(el("label").class("mj-field").child(el("span").class("mj-field-label").text("Wave")).child(input)).child(
        el("button").class("mj-button").attr("type", "submit").text("Filter"),
    );
    if narrowed {
        f = f.child(link("/cockpit/plan", "Every issue"));
    }
    f
}

/// The row of an issue.
pub open spec fn issue_row(i: ListedIssue, filed: Seq<String>) -> NodeModel {
    NodeModel::Element(
        with_children(
            bare("tr"@),
            seq![
                cell_of(word_model(filed, i.status@)),
                NodeModel::Element(id_cell_model(issue_href_of(i.id@), i.id@)),
                NodeModel::Element(saying(bare("td"@), i.title@)),
                cell_of(milestone_mark(i.milestone@)),
                NodeModel::Element(saying(bare("td"@), decimal_of(i.wave as nat))),
                NodeModel::Element(saying(bare("td"@), i.priority@)),
                cell_of(refs_model(i.blocked_by@)),
                NodeModel::Element(
                    saying(bare("td"@), decimal_of(i.evidence_have as nat) + " of "@ + decimal_of(i.evidence_need as nat)),
                ),
            ],
        ),
    )
}

/// The card of the issues.
pub open spec fn issues_card(l: PlanIssueList, narrowed: bool, filed: Seq<String>) -> ElementModel {
    card_with_model(
        "Issues"@,
        link_model("/cockpit/capabilities/plan.issues"@, "plan.issues"@),
        if l.issues@.len() == 0 {
            saying(
                classed("p"@, "mj-empty"@),
                if narrowed {
                    "No issue matches this filter."@
                } else {
                    "The plan declares no issue."@
                },
            )
        } else {
            table_model(
                seq!["Status"@, "Issue"@, "Title"@, "Milestone"@, "Wave"@, "Priority"@, "Waiting on"@, "Evidence"@],
                l.issues@.map_values(|i: ListedIssue| issue_row(i, filed)),
            )
        },
    )
}

fn issues_card_el(l: &PlanIssueList, narrowed: bool, filed: &Vec<String>) -> (e: El)
    ensures
        e@ == issues_card(*l, narrowed, filed@),
{
    let aside = link("/cockpit/capabilities/plan.issues", "plan.issues");
    if l.issues.len() == 0 {
        return card_with(
            "Issues",
            aside,
            nothing(
                if narrowed {
                    "No issue matches this filter."
                } else {
                    "The plan declares no issue."
                },
            ),
        );
    }
    let mut rows: Vec<El> = Vec::new();
    for k in 0..l.issues.len()
        invariant
            rows@.len() == k,
            forall|j: int| 0 <= j < k ==> NodeModel::Element((#[trigger] rows@[j])@) == issue_row(l.issues@[j], filed@),
    {
        let i = &l.issues[k];
        let mut evidence = decimal(i.evidence_have);
        push_str(&mut evidence, " of ");
        push_str(&mut evidence, decimal(i.evidence_need).as_str());
        let mut cells: Vec<El> = Vec::new();
        cells.push(cell(word_el(filed, i.status.as_str())));
        cells.push(id_cell(issue_href(i.id.as_str()).as_str(), i.id.as_str()));
        cells.push(text_cell(i.title.as_str()));
        cells.push(cell(one_milestone(&i.milestone)));
        cells.push(text_cell(decimal(i.wave).as_str()));
        cells.push(text_cell(i.priority.as_str()));
        cells.push(cell(super::work::refs(i.blocked_by.as_slice())));
        cells.push(text_cell(evidence.as_str()));
        let r = row(cells);
        assert(els_model(cells@) =~= match issue_row(*i, filed@) {
            NodeModel::Element(x) => x.children,
            _ => seq![],
        });
        rows.push(r);
    }
    assert(els_model(rows@) =~= l.issues@.map_values(|i: ListedIssue| issue_row(i, filed@)));
    let h = ["Status", "Issue", "Title", "Milestone", "Wave", "Priority", "Waiting on", "Evidence"];
    assert(strs_model(h@) =~= seq!["Status"@, "Issue"@, "Title"@, "Milestone"@, "Wave"@, "Priority"@, "Waiting on"@, "Evidence"@]);
    card_with("Issues", aside, table(&h, rows))
}

/// The body of the plan.
pub open spec fn plan_body(
    query: Seq<(String, String)>,
    r: PlanRoadmap,
    n: PlanNextIssue,
    l: PlanIssueList,
    filed: Seq<String>,
) -> ElementModel {
    let narrowed = param_of(query, "milestone"@) is Some || param_of(query, "status"@) is Some || param_of(query, "wave"@) is Some;
    holding(
        holding(
            holding(
                holding(holding(classed("div"@, "mj-grid"@), plan_stats(r, n, l)), next_model(n, filed)),
                milestones_card(r, filed),
            ),
            card_model("Narrow"@, filters_model(query, r, l)),
        ),
        issues_card(l, narrowed, filed),
    )
}

/// The subtitle of the plan.
pub const PLAN_SUBTITLE: &'static str = "The milestones and issues of this repository's plan, as the plan derives them.";

/// The plan. `roadmap`, `next` and `list` are what the roadmap, the next issue and the issue
/// list answered, or why they did not; the list is the one narrowed by what
/// [`plan_filter`] reads from `query`. `filed` is every status word the design declaration
/// files under a status.
pub fn plan(
    query: &[(String, String)],
    roadmap: Result<PlanRoadmap, String>,
    next: Result<PlanNextIssue, String>,
    list: Result<PlanIssueList, String>,
    filed: &Vec<String>,
) -> (p: Page)
    ensures
        p.area == Area::Plan,
        p.title@ == "Plan"@,
        p.scripts@.len() == 0,
        match (roadmap, next, filter_of(query@), list) {
            (Err(e), _, _, _) => p.main@ == failed_body(e@) && p.status == 500,
            (Ok(_), Err(e), _, _) => p.main@ == failed_body(e@) && p.status == 500,
            (Ok(_), Ok(_), Err(e), _) => p.main@ == failed_body(e) && p.status == 400,
            (Ok(_), Ok(_), Ok(_), Err(e)) => p.main@ == failed_body(e@) && p.status == 500,
            (Ok(r), Ok(n), Ok(_), Ok(l)) => {
                &&& p.main@ == plan_body(query@, r, n, l, filed@)
                &&& p.status == 200
                &&& p.subtitle matches Some(s) && s@ == PLAN_SUBTITLE@
                &&& trail_views(p.breadcrumbs@) == seq![("Cockpit"@, Some("/cockpit"@)), ("Plan"@, None::<Seq<char>>)]
            },
        },
{
    let r = match roadmap {
        Ok(r) => r,
        Err(e) => return failed(Area::Plan, "Plan", e.as_str()),
    };
    let n = match next {
        Ok(n) => n,
        Err(e) => return failed(Area::Plan, "Plan", e.as_str()),
    };
    match plan_filter(query) {
        Ok(_) => {},
        Err(e) => return failed(Area::Plan, "Plan", e.as_str()).status(400),
    }
    let l = match list {
        Ok(l) => l,
        Err(e) => return failed(Area::Plan, "Plan", e.as_str()),
    };
    let narrowed = param(query, "milestone").is_some() || param(query, "status").is_some() || param(query, "wave").is_some();
    let body = el("div").class("mj-grid").child(plan_stats_el(&r, &n, &l)).child(next_el(&n, filed)).child(
        milestones_card_el(&r, filed),
    ).child(card("Narrow", filters_el(query, &r, &l))).child(issues_card_el(&l, narrowed, filed));
    let mut trail: Vec<(&str, Option<&str>)> = Vec::new();
    trail.push(("Cockpit", Some("/cockpit")));
    trail.push(("Plan", None));
    assert(given_trail(trail@) =~= seq![("Cockpit"@, Some("/cockpit"@)), ("Plan"@, None::<Seq<char>>)]);
    Page::new(Area::Plan, "Plan", body).subtitle(PLAN_SUBTITLE).trail(trail)
}

} // verus!
