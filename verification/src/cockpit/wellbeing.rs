//! The health page: where the repository stands, and every check with the engine that
//! decided it. The Cockpit has no health checks of its own.

use vstd::prelude::*;

use crate::strings::{decimal, decimal_of, push_str};

use super::frame::{classed, holding, saying};
use super::html::{bare, el, els_model, with_children, El, ElementModel, Node, NodeModel};
use super::nav::Area;
use super::pages::{failed, failed_body, given_trail, trail_views, Page};
use super::surfaces::mono_model;
use super::view::{
    badge, badge_model, card, card_model, card_with, card_with_model, details, details_model, facts, facts_model, mono,
    rows_model,
};

verus! {

broadcast use super::html::lemma_element_node;

/// Where a check, or the whole repository, stands.
#[derive(Debug, Clone, Copy, PartialEq, Eq, Structural)]
pub enum HealthStatus {
    /// Satisfied.
    Good,
    /// Worth looking at.
    Warn,
    /// Not satisfied.
    Fail,
    /// Could not be decided.
    Unknown,
}

/// The word a status is shown as.
pub open spec fn status_word(s: HealthStatus) -> Seq<char> {
    match s {
        HealthStatus::Good => "ok"@,
        HealthStatus::Warn => "warn"@,
        HealthStatus::Fail => "fail"@,
        HealthStatus::Unknown => "unknown"@,
    }
}

/// What the whole repository's status says.
pub open spec fn status_sentence(s: HealthStatus) -> Seq<char> {
    match s {
        HealthStatus::Good => "everything the engines decide is satisfied"@,
        HealthStatus::Warn => "something is worth looking at"@,
        HealthStatus::Fail => "an engine is not satisfied"@,
        HealthStatus::Unknown => "a dimension could not be decided"@,
    }
}

impl HealthStatus {
    /// The word.
    pub fn as_str(self) -> (r: &'static str)
        ensures
            r@ == status_word(self),
    {
        match self {
            HealthStatus::Good => "ok",
            HealthStatus::Warn => "warn",
            HealthStatus::Fail => "fail",
            HealthStatus::Unknown => "unknown",
        }
    }

    /// What it says of the whole repository.
    pub fn sentence(self) -> (r: &'static str)
        ensures
            r@ == status_sentence(self),
    {
        match self {
            HealthStatus::Good => "everything the engines decide is satisfied",
            HealthStatus::Warn => "something is worth looking at",
            HealthStatus::Fail => "an engine is not satisfied",
            HealthStatus::Unknown => "a dimension could not be decided",
        }
    }
}

/// One check.
#[derive(Debug, Clone, PartialEq, Eq)]
pub struct HealthCheck {
    /// What it is called.
    pub title: String,
    /// Where it stands.
    pub status: HealthStatus,
    /// What it found, in a sentence.
    pub detail: String,
    /// The engine that decided it.
    pub decided_by: String,
    /// What it looked at.
    pub evidence: Vec<String>,
    /// What it found wrong.
    pub findings: Vec<String>,
}

/// What the health report answered.
#[derive(Debug, Clone, PartialEq, Eq)]
pub struct HealthReport {
    /// Where the whole stands.
    pub status: HealthStatus,
    /// How many checks stand where, each status word with its count.
    pub tallies: Vec<(String, usize)>,
    /// Every check.
    pub checks: Vec<HealthCheck>,
}

/// The card of one check.
pub open spec fn check_card(c: HealthCheck) -> ElementModel {
    let d = holding(
        holding(bare("div"@), saying(classed("p"@, "mj-prose"@), c.detail@)),
        facts_model(seq![("Decided by"@, NodeModel::Element(saying(bare("span"@), c.decided_by@)))]),
    );
    let d = if c.evidence@.len() > 0 {
        holding(d, with_children(classed("div"@, "mj-marks"@), c.evidence@.map_values(|e: String| NodeModel::Element(mono_model(e@)))))
    } else {
        d
    };
    let d = if c.findings@.len() > 0 {
        holding(
            d,
            details_model(
                decimal_of(c.findings@.len()) + " finding(s)"@,
                with_children(
                    classed("ul"@, "mj-list"@),
                    c.findings@.map_values(|f: String| NodeModel::Element(saying(bare("li"@), f@))),
                ),
            ),
        )
    } else {
        d
    };
    card_with_model(c.title@, badge_model(status_word(c.status), status_word(c.status)), d)
}

fn check_card_el(c: &HealthCheck) -> (r: El)
    ensures
        r@ == check_card(*c),
{
    let mut rows: Vec<(&str, Node)> = Vec::new();
    rows.push(("Decided by", Node::Element(el("span").text(c.decided_by.as_str()))));
    assert(rows_model(rows@) =~= seq![("Decided by"@, NodeModel::Element(saying(bare("span"@), c.decided_by@)))]);
    let mut d = el("div").child(el("p").class("mj-prose").text(c.detail.as_str())).child(facts(rows));
    if c.evidence.len() > 0 {
        let mut marks: Vec<El> = Vec::new();
        for k in 0..c.evidence.len()
            invariant
                marks@.len() == k,
                forall|i: int| 0 <= i < k ==> (#[trigger] marks@[i])@ == mono_model(c.evidence@[i]@),
        {
            marks.push(mono(c.evidence[k].as_str()));
        }
        assert(els_model(marks@) =~= c.evidence@.map_values(|e: String| NodeModel::Element(mono_model(e@))));
        d = d.child(el("div").class("mj-marks").children(marks));
    }
    if c.findings.len() > 0 {
        let mut items: Vec<El> = Vec::new();
        for k in 0..c.findings.len()
            invariant
                items@.len() == k,
                forall|i: int| 0 <= i < k ==> (#[trigger] items@[i])@ == saying(bare("li"@), c.findings@[i]@),
        {
            items.push(el("li").text(c.findings[k].as_str()));
        }
        assert(els_model(items@) =~= c.findings@.map_values(|f: String| NodeModel::Element(saying(bare("li"@), f@))));
        let mut summary = decimal(c.findings.len());
        push_str(&mut summary, " finding(s)");
        d = d.child(details(summary.as_str(), el("ul").class("mj-list").children(items)));
    }
    card_with(c.title.as_str(), badge(c.status.as_str(), c.status.as_str()), d)
}

/// What the first card says of where the checks come from.
pub const NO_CHECKS_OF_ITS_OWN: &'static str = "Every check is decided by an engine that already decides it elsewhere. The Cockpit has no health checks of its own.";

/// The subtitle of the page.
pub const HEALTH_SUBTITLE: &'static str = "The same verdicts `capabilities validate`, `bench coverage --check` and `generate --check` reach, read through one capability.";

/// A tally as a badge: its word, and how many.
pub open spec fn tally_badge(t: (String, usize)) -> NodeModel {
    NodeModel::Element(badge_model(t.0@, decimal_of(t.1 as nat) + " "@ + t.0@))
}

/// Where the repository stands: its status in a sentence, the tallies, and where the checks
/// come from.
pub open spec fn standing_card(h: HealthReport) -> ElementModel {
    card_model(
        "Where this stands"@,
        holding(
            holding(
                holding(
                    bare("div"@),
                    holding(classed("p"@, "mj-health-line"@), badge_model(status_word(h.status), status_sentence(h.status))),
                ),
                with_children(classed("div"@, "mj-marks"@), h.tallies@.map_values(|t: (String, usize)| tally_badge(t))),
            ),
            saying(classed("p"@, "mj-note"@), NO_CHECKS_OF_ITS_OWN@),
        ),
    )
}

/// The body of the page.
pub open spec fn health_body(h: HealthReport) -> ElementModel {
    with_children(
        holding(classed("div"@, "mj-grid"@), standing_card(h)),
        h.checks@.map_values(|c: HealthCheck| NodeModel::Element(check_card(c))),
    )
}

/// The health report. `report` is what the health report answered, or why it did not.
pub fn health(report: Result<HealthReport, String>) -> (r: Page)
    ensures
        r.area == Area::Health,
        r.title@ == "Health"@,
        match report {
            Err(e) => r.main@ == failed_body(e@) && r.status == 500,
            Ok(h) => {
                &&& r.main@ == health_body(h)
                &&& r.subtitle matches Some(s) && s@ == HEALTH_SUBTITLE@
                &&& trail_views(r.breadcrumbs@) == seq![("Cockpit"@, Some("/cockpit"@)), ("Health"@, None::<Seq<char>>)]
                &&& r.status == 200
                &&& r.scripts@.len() == 0
            },
        },
{
    let h = match report {
        Ok(h) => h,
        Err(e) => return failed(Area::Health, "Health", e.as_str()),
    };
    let sentence = h.status.sentence();
    let mut tallies: Vec<El> = Vec::new();
    for k in 0..h.tallies.len()
        invariant
            tallies@.len() == k,
            forall|i: int| 0 <= i < k ==> NodeModel::Element((#[trigger] tallies@[i])@) == tally_badge(h.tallies@[i]),
    {
        let (word, n) = (&h.tallies[k].0, h.tallies[k].1);
        let mut label = decimal(n);
        push_str(&mut label, " ");
        push_str(&mut label, word.as_str());
        tallies.push(badge(word.as_str(), label.as_str()));
    }
    assert(els_model(tallies@) =~= h.tallies@.map_values(|t: (String, usize)| tally_badge(t)));
    let mut cards: Vec<El> = Vec::new();
    for k in 0..h.checks.len()
        invariant
            cards@.len() == k,
            forall|i: int| 0 <= i < k ==> (#[trigger] cards@[i])@ == check_card(h.checks@[i]),
    {
        cards.push(check_card_el(&h.checks[k]));
    }
    assert(els_model(cards@) =~= h.checks@.map_values(|c: HealthCheck| NodeModel::Element(check_card(c))));
    let standing = card(
        "Where this stands",
        el("div").child(el("p").class("mj-health-line").child(badge(h.status.as_str(), sentence))).child(
            el("div").class("mj-marks").children(tallies),
        ).child(el("p").class("mj-note").text(NO_CHECKS_OF_ITS_OWN)),
    );
    let body = el("div").class("mj-grid").child(standing).children(cards);
    let mut trail: Vec<(&str, Option<&str>)> = Vec::new();
    trail.push(("Cockpit", Some("/cockpit")));
    trail.push(("Health", None));
    assert(given_trail(trail@) =~= seq![("Cockpit"@, Some("/cockpit"@)), ("Health"@, None::<Seq<char>>)]);
    Page::new(Area::Health, "Health", body).subtitle(HEALTH_SUBTITLE).trail(trail)
}

} // verus!
