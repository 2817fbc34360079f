//! System integrity: whether every concept has one canonical source of truth and every
//! surface is derived from it, as the canonicality audit answers it.

use vstd::prelude::*;

use crate::strings::{decimal, decimal_of, push_str, str_eq};
use crate::url::{percent_encode, percent_encoded};

use super::frame::{classed, holding, saying};
use super::html::{bare, el, els_model, with_attr, with_children, El, ElementModel, Node, NodeModel};
use super::knowledge::{node_href, node_href_of, node_link, verdict_badge};
use super::nav::Area;
use super::pages::{failed, failed_body, given_trail, trail_views, Page};
use super::surfaces::{cell_of, mono_model};
use super::view::{
    alert, alert_model, badge, badge_model, card, card_model, card_with, card_with_model, cell, facts, facts_model, link,
    link_model, mono, nothing, row, rows_model, statistic, statistic_model, strs_model, table, table_model, tag, tag_model,
    text_cell,
};

verus! {

broadcast use super::html::lemma_element_node;

/// One surface of a capability.
#[derive(Debug, Clone, PartialEq, Eq)]
pub struct AuditSurface {
    /// Its name.
    pub name: String,
    /// Whether it is derived, rather than written by hand.
    pub derived: bool,
    /// What it is.
    pub detail: String,
}

/// A hand-written file that names a capability.
#[derive(Debug, Clone, PartialEq, Eq)]
pub struct AuditMention {
    /// The file.
    pub path: String,
    /// The line.
    pub line: usize,
    /// The text of the line.
    pub text: String,
}

/// One capability's canonicality.
#[derive(Debug, Clone, PartialEq, Eq)]
pub struct CapabilityAudit {
    /// Its identity.
    pub id: String,
    /// Its manual maintenance surface.
    pub mms: usize,
    /// Its verdict, as its word.
    pub verdict: String,
    /// Its canonical source.
    pub canonical_source: String,
    /// Its surfaces.
    pub surfaces: Vec<AuditSurface>,
    /// The hand-written files that name it.
    pub mentions: Vec<AuditMention>,
}

/// A violation of canonicality.
#[derive(Debug, Clone, PartialEq, Eq)]
pub struct Violation {
    /// Its class.
    pub class: String,
    /// The node it is about.
    pub subject: String,
    /// Why it is one.
    pub reason: String,
    /// What to do.
    pub remedy: String,
    /// Whether it is tolerated.
    pub tolerated: bool,
    /// The exception that covers it, when one does.
    pub excepted_by: Option<String>,
}

/// A declared exception with where it stands.
#[derive(Debug, Clone, PartialEq, Eq)]
pub struct ExceptionStatus {
    /// Its id.
    pub id: String,
    /// Its owner.
    pub owner: String,
    /// When it expires.
    pub expires: String,
    /// Why it exists.
    pub reason: String,
    /// How it is validated.
    pub validation: String,
    /// Where it stands, as its word.
    pub status: String,
}

/// What the canonicality audit answered.
#[derive(Debug, Clone, PartialEq, Eq)]
pub struct Audit {
    /// The verdict, as its word.
    pub verdict: String,
    /// When it was audited.
    pub date: String,
    /// The audit in a sentence.
    pub summary: String,
    /// How many capabilities are canonical.
    pub canonical: usize,
    /// The mean manual maintenance surface, in hundredths.
    pub mms_centi: usize,
    /// Every capability audited.
    pub capabilities: Vec<CapabilityAudit>,
    /// Every violation.
    pub violations: Vec<Violation>,
    /// Every exception.
    pub exceptions: Vec<ExceptionStatus>,
}

/// A number of hundredths as a decimal with two places.
pub open spec fn hundredths(c: nat) -> Seq<char> {
    let frac = (c % 100) as nat;
    decimal_of(c / 100) + "."@ + (if frac < 10 {
        "0"@ + decimal_of(frac)
    } else {
        decimal_of(frac)
    })
}

fn hundredths_text(c: usize) -> (r: String)
    ensures
        r@ == hundredths(c as nat),
{
    let mut out = decimal(c / 100);
    push_str(&mut out, ".");
    let frac = c % 100;
    if frac < 10 {
        push_str(&mut out, "0");
    }
    push_str(&mut out, decimal(frac).as_str());
    out
}

/// How many violations count: neither tolerated nor excepted.
pub open spec fn counting(vs: Seq<Violation>) -> nat
    decreases vs.len(),
{
    if vs.len() == 0 {
        0
    } else {
        counting(vs.drop_last()) + if !vs.last().tolerated && vs.last().excepted_by is None { 1nat } else { 0nat }
    }
}

proof fn lemma_counting_bound(vs: Seq<Violation>)
    ensures
        counting(vs) <= vs.len(),
    decreases vs.len(),
{
    if vs.len() > 0 {
        lemma_counting_bound(vs.drop_last());
    }
}

/// What the summary card says canonicality is.
pub const CANONICALITY: &'static str = "Every concept has one canonical source of truth; everything else is derived from it. The manual maintenance surface (MMS) of a capability is the number of hand-written files a person must touch to change it: its declaration counts one, every hand-written file that names it one more, generated files none. The architecture is complete when every MMS is one.";

/// A monospaced link.
pub open spec fn mono_link(href: Seq<char>, label: Seq<char>) -> ElementModel {
    with_attr(link_model(href, label), "class"@, "mj-link mj-mono"@)
}

/// The summary card.
pub open spec fn summary_model(a: Audit) -> ElementModel {
    let stats = holding(
        holding(
            holding(
                holding(
                    holding(
                        classed("div"@, "mj-stats"@),
                        statistic_model(decimal_of(a.capabilities@.len()), "capabilities"@, "rks.canonicality"@),
                    ),
                    statistic_model(decimal_of(a.canonical as nat), "canonical (MMS 1)"@, "rks.canonicality"@),
                ),
                statistic_model(hundredths(a.mms_centi as nat), "mean MMS"@, "the goal is 1"@),
            ),
            statistic_model(decimal_of(a.violations@.len()), "violations"@, "rks.canonicality"@),
        ),
        statistic_model(decimal_of(counting(a.violations@)), "counting"@, "neither tolerated nor excepted"@),
    );
    card_with_model(
        "Canonicality"@,
        badge_model(
            if a.verdict@ == "pass"@ {
                "ok"@
            } else {
                "fail"@
            },
            a.verdict@,
        ),
        holding(
            holding(holding(bare("div"@), stats), saying(classed("p"@, "mj-prose"@), CANONICALITY@)),
            facts_model(
                seq![
                    ("Audited on"@, NodeModel::Element(mono_model(a.date@))),
                    ("As data"@, NodeModel::Element(mono_link("/api/v1/canonicality"@, "/api/v1/canonicality"@))),
                    ("Command"@, NodeModel::Element(mono_model("majordomus canonicality check"@))),
                ],
            ),
        ),
    )
}

fn summary_el(a: &Audit) -> (r: El)
    ensures
        r@ == summary_model(*a),
{
    let mut count: usize = 0;
    for k in 0..a.violations.len()
        invariant
            count == counting(a.violations@.take(k as int)),
    {
        assert(a.violations@.take(k + 1).drop_last() =~= a.violations@.take(k as int));
        proof {
            lemma_counting_bound(a.violations@.take(k as int));
        }
        if !a.violations[k].tolerated && a.violations[k].excepted_by.is_none() {
            count = count + 1;
        }
    }
    assert(a.violations@.take(a.violations@.len() as int) =~= a.violations@);
    let stats = el("div").class("mj-stats").child(
        statistic(decimal(a.capabilities.len()).as_str(), "capabilities", "rks.canonicality"),
    ).child(statistic(decimal(a.canonical).as_str(), "canonical (MMS 1)", "rks.canonicality")).child(
        statistic(hundredths_text(a.mms_centi).as_str(), "mean MMS", "the goal is 1"),
    ).child(statistic(decimal(a.violations.len()).as_str(), "violations", "rks.canonicality")).child(
        statistic(decimal(count).as_str(), "counting", "neither tolerated nor excepted"),
    );
    let mut rows: Vec<(&str, Node)> = Vec::new();
    rows.push(("Audited on", Node::Element(mono(a.date.as_str()))));
    rows.push(("As data", Node::Element(link("/api/v1/canonicality", "/api/v1/canonicality").class("mj-link mj-mono"))));
    rows.push(("Command", Node::Element(mono("majordomus canonicality check"))));
    assert(rows_model(rows@) =~= seq![
        ("Audited on"@, NodeModel::Element(mono_model(a.date@))),
        ("As data"@, NodeModel::Element(mono_link("/api/v1/canonicality"@, "/api/v1/canonicality"@))),
        ("Command"@, NodeModel::Element(mono_model("majordomus canonicality check"@))),
    ]);
    card_with(
        "Canonicality",
        verdict_badge(a.verdict.as_str()),
        el("div").child(stats).child(el("p").class("mj-prose").text(CANONICALITY)).child(facts(rows)),
    )
}

/// Where a violation stands: excepted, tolerated, or counting.
pub open spec fn standing_of(v: Violation) -> (Seq<char>, Seq<char>) {
    match v.excepted_by {
        Some(e) => ("ok"@, "excepted by "@ + e@),
        None => if v.tolerated {
            ("warn"@, "tolerated"@)
        } else {
            ("fail"@, "counting"@)
        },
    }
}

/// The row of a violation.
pub open spec fn violation_row(v: Violation) -> NodeModel {
    NodeModel::Element(
        with_children(
            bare("tr"@),
            seq![
                cell_of(tag_model(v.class@)),
                cell_of(badge_model(standing_of(v).0, standing_of(v).1)),
                cell_of(mono_link(node_href_of(v.subject@), v.subject@)),
                NodeModel::Element(saying(bare("td"@), v.reason@)),
                NodeModel::Element(saying(bare("td"@), v.remedy@)),
            ],
        ),
    )
}

/// The row of a capability.
pub open spec fn capability_row(c: CapabilityAudit) -> NodeModel {
    NodeModel::Element(
        with_children(
            bare("tr"@),
            seq![
                cell_of(mono_link("/cockpit/integrity/"@ + percent_encoded(c.id@), c.id@)),
                cell_of(mono_model(decimal_of(c.mms as nat))),
                cell_of(badge_model(if c.verdict@ == "pass"@ { "ok"@ } else { "warn"@ }, c.verdict@)),
                cell_of(mono_model(c.canonical_source@)),
                cell_of(
                    with_children(
                        classed("span"@, "mj-marks"@),
                        c.surfaces@.map_values(|s: AuditSurface| NodeModel::Element(tag_model(s.name@))),
                    ),
                ),
            ],
        ),
    )
}

/// The status colour of an exception's standing.
pub open spec fn exception_status(s: Seq<char>) -> Seq<char> {
    if s == "active"@ {
        "ok"@
    } else if s == "expired"@ {
        "fail"@
    } else {
        "warn"@
    }
}

/// The row of an exception.
pub open spec fn exception_row(e: ExceptionStatus) -> NodeModel {
    NodeModel::Element(
        with_children(
            bare("tr"@),
            seq![
                cell_of(mono_model(e.id@)),
                cell_of(badge_model(exception_status(e.status@), e.status@)),
                NodeModel::Element(saying(bare("td"@), e.owner@)),
                cell_of(mono_model(e.expires@)),
                NodeModel::Element(saying(bare("td"@), e.reason@)),
                NodeModel::Element(saying(bare("td"@), e.validation@)),
            ],
        ),
    )
}

/// A card of a table, or what an empty one means.
pub open spec fn listing(title: Seq<char>, empty: Seq<char>, headers: Seq<Seq<char>>, rows: Seq<NodeModel>) -> ElementModel {
    card_model(
        title,
        if rows.len() == 0 {
            saying(classed("p"@, "mj-empty"@), empty)
        } else {
            table_model(headers, rows)
        },
    )
}

/// What the violations card says when there is none.
pub const NO_VIOLATION: &'static str = "No orphan projection, no undeclared generated file, no missing artifact, no suspected mirror, no expired exception.";

/// What the exceptions card says when there is none.
pub const NO_EXCEPTION: &'static str = "No exception is declared. One is typed and time-limited: id, reason, owner, expires, validation.";

/// The body of the integrity page.
pub open spec fn integrity_body(a: Audit) -> ElementModel {
    holding(
        holding(
            holding(
                holding(classed("div"@, "mj-grid"@), summary_model(a)),
                listing(
                    "Violations"@,
                    NO_VIOLATION@,
                    seq!["Class"@, "Standing"@, "Subject"@, "Why"@, "Remedy"@],
                    a.violations@.map_values(|v: Violation| violation_row(v)),
                ),
            ),
            card_model(
                "Capabilities"@,
                table_model(
                    seq!["Capability"@, "MMS"@, "Verdict"@, "Canonical source"@, "Surfaces"@],
                    a.capabilities@.map_values(|c: CapabilityAudit| capability_row(c)),
                ),
            ),
        ),
        listing(
            "Exceptions"@,
            NO_EXCEPTION@,
            seq!["Exception"@, "Status"@, "Owner"@, "Expires"@, "Reason"@, "Validation"@],
            a.exceptions@.map_values(|e: ExceptionStatus| exception_row(e)),
        ),
    )
}

fn listing_el(title: &str, empty: &str, headers: &[&str], rows: Vec<El>) -> (r: El)
    ensures
        r@ == listing(title@, empty@, strs_model(headers@), els_model(rows@)),
{
    if rows.len() == 0 {
        card(title, nothing(empty))
    } else {
        card(title, table(headers, rows))
    }
}

fn violation_rows(a: &Audit) -> (r: Vec<El>)
    ensures
        els_model(r@) == a.violations@.map_values(|v: Violation| violation_row(v)),
{
    let mut rows: Vec<El> = Vec::new();
    for k in 0..a.violations.len()
        invariant
            rows@.len() == k,
            forall|j: int| 0 <= j < k ==> NodeModel::Element((#[trigger] rows@[j])@) == violation_row(a.violations@[j]),
    {
        let v = &a.violations[k];
        let standing = match &v.excepted_by {
            Some(e) => {
                let mut t = String::from_str("excepted by ");
                push_str(&mut t, e.as_str());
                badge("ok", t.as_str())
            },
            None => if v.tolerated {
                badge("warn", "tolerated")
            } else {
                badge("fail", "counting")
            },
        };
        let mut cells: Vec<El> = Vec::new();
        cells.push(cell(tag(v.class.as_str())));
        cells.push(cell(standing));
        cells.push(cell(node_link(v.subject.as_str())));
        cells.push(text_cell(v.reason.as_str()));
        cells.push(text_cell(v.remedy.as_str()));
        let r = row(cells);
        assert(els_model(cells@) =~= match violation_row(*v) {
            NodeModel::Element(x) => x.children,
            _ => seq![],
        });
        rows.push(r);
    }
    assert(els_model(rows@) =~= a.violations@.map_values(|v: Violation| violation_row(v)));
    rows
}

fn capability_rows(a: &Audit) -> (r: Vec<El>)
    ensures
        els_model(r@) == a.capabilities@.map_values(|c: CapabilityAudit| capability_row(c)),
{
    let mut rows: Vec<El> = Vec::new();
    for k in 0..a.capabilities.len()
        invariant
            rows@.len() == k,
            forall|j: int| 0 <= j < k ==> NodeModel::Element((#[trigger] rows@[j])@) == capability_row(a.capabilities@[j]),
    {
        let c = &a.capabilities[k];
        let mut marks: Vec<El> = Vec::new();
        for j in 0..c.surfaces.len()
            invariant
                marks@.len() == j,
                forall|i: int| 0 <= i < j ==> (#[trigger] marks@[i])@ == tag_model(c.surfaces@[i].name@),
        {
            marks.push(tag(c.surfaces[j].name.as_str()));
        }
        assert(els_model(marks@) =~= c.surfaces@.map_values(|s: AuditSurface| NodeModel::Element(tag_model(s.name@))));
        let mut href = String::from_str("/cockpit/integrity/");
        push_str(&mut href, percent_encode(c.id.as_str()).as_str());
        let mut cells: Vec<El> = Vec::new();
        cells.push(cell(link(href.as_str(), c.id.as_str()).class("mj-link mj-mono")));
        cells.push(cell(mono(decimal(c.mms).as_str())));
        cells.push(
            cell(
                badge(
                    if str_eq(c.verdict.as_str(), "pass") {
                        "ok"
                    } else {
                        "warn"
                    },
                    c.verdict.as_str(),
                ),
            ),
        );
        cells.push(cell(mono(c.canonical_source.as_str())));
        cells.push(cell(el("span").class("mj-marks").children(marks)));
        let r = row(cells);
        assert(els_model(cells@) =~= match capability_row(*c) {
            NodeModel::Element(x) => x.children,
            _ => seq![],
        });
        rows.push(r);
    }
    assert(els_model(rows@) =~= a.capabilities@.map_values(|c: CapabilityAudit| capability_row(c)));
    rows
}

fn exception_rows(a: &Audit) -> (r: Vec<El>)
    ensures
        els_model(r@) == a.exceptions@.map_values(|e: ExceptionStatus| exception_row(e)),
{
    let mut rows: Vec<El> = Vec::new();
    for k in 0..a.exceptions.len()
        invariant
            rows@.len() == k,
            forall|j: int| 0 <= j < k ==> NodeModel::Element((#[trigger] rows@[j])@) == exception_row(a.exceptions@[j]),
    {
        let e = &a.exceptions[k];
        let status = if str_eq(e.status.as_str(), "active") {
            "ok"
        } else if str_eq(e.status.as_str(), "expired") {
            "fail"
        } else {
            "warn"
        };
        let mut cells: Vec<El> = Vec::new();
        cells.push(cell(mono(e.id.as_str())));
        cells.push(cell(badge(status, e.status.as_str())));
        cells.push(text_cell(e.owner.as_str()));
        cells.push(cell(mono(e.expires.as_str())));
        cells.push(text_cell(e.reason.as_str()));
        cells.push(text_cell(e.validation.as_str()));
        let r = row(cells);
        assert(els_model(cells@) =~= match exception_row(*e) {
            NodeModel::Element(x) => x.children,
            _ => seq![],
        });
        rows.push(r);
    }
    assert(els_model(rows@) =~= a.exceptions@.map_values(|e: ExceptionStatus| exception_row(e)));
    rows
}

/// System integrity. `audit` is what the canonicality audit answered, or why it did not.
pub fn integrity(audit: Result<Audit, String>) -> (r: Page)
    ensures
        r.area == Area::Integrity,
        r.title@ == "System integrity"@,
        r.scripts@.len() == 0,
        match audit {
            Err(e) => r.main@ == failed_body(e@) && r.status == 500,
            Ok(a) => {
                &&& r.main@ == integrity_body(a)
                &&& r.status == 200
                &&& r.subtitle matches Some(s) && s@ == a.summary@
                &&& trail_views(r.breadcrumbs@) == seq![("Cockpit"@, Some("/cockpit"@)), ("Integrity"@, None::<Seq<char>>)]
            },
        },
{
    let a = match audit {
        Ok(a) => a,
        Err(e) => return failed(Area::Integrity, "System integrity", e.as_str()),
    };
    let h1 = ["Class", "Standing", "Subject", "Why", "Remedy"];
    assert(strs_model(h1@) =~= seq!["Class"@, "Standing"@, "Subject"@, "Why"@, "Remedy"@]);
    let h2 = ["Capability", "MMS", "Verdict", "Canonical source", "Surfaces"];
    assert(strs_model(h2@) =~= seq!["Capability"@, "MMS"@, "Verdict"@, "Canonical source"@, "Surfaces"@]);
    let h3 = ["Exception", "Status", "Owner", "Expires", "Reason", "Validation"];
    assert(strs_model(h3@) =~= seq!["Exception"@, "Status"@, "Owner"@, "Expires"@, "Reason"@, "Validation"@]);
    let body = el("div").class("mj-grid").child(summary_el(&a)).child(
        listing_el("Violations", NO_VIOLATION, &h1, violation_rows(&a)),
    ).child(card("Capabilities", table(&h2, capability_rows(&a)))).child(
        listing_el("Exceptions", NO_EXCEPTION, &h3, exception_rows(&a)),
    );
    let mut trail: Vec<(&str, Option<&str>)> = Vec::new();
    trail.push(("Cockpit", Some("/cockpit")));
    trail.push(("Integrity", None));
    assert(given_trail(trail@) =~= seq![("Cockpit"@, Some("/cockpit"@)), ("Integrity"@, None::<Seq<char>>)]);
    Page::new(Area::Integrity, "System integrity", body).subtitle(a.summary.as_str()).trail(trail)
}

/// The body of an integrity page for a capability that is not there.
pub open spec fn no_capability_body(message: Seq<char>) -> ElementModel {
    holding(
        holding(bare("div"@), alert_model("fail"@, message)),
        with_attr(link_model("/cockpit/integrity"@, "System integrity"@), "class"@, "mj-link"@),
    )
}

fn no_capability(message: &str) -> (r: Page)
    ensures
        r.area == Area::Integrity,
        r.title@ == "No such capability"@,
        r.main@ == no_capability_body(message@),
        r.status == 404,
        r.subtitle is None,
        r.breadcrumbs@.len() == 0,
        r.scripts@.len() == 0,
{
    Page::new(
        Area::Integrity,
        "No such capability",
        el("div").child(alert("fail", message)).child(link("/cockpit/integrity", "System integrity").class("mj-link")),
    ).status(404)
}

/// The message for an identity the audit holds nothing about.
pub open spec fn no_such(id: Seq<char>) -> Seq<char> {
    "no query or command `"@ + id + "`"@
}

/// The badge of one capability's canonicality: its MMS and its verdict.
pub open spec fn mms_badge(c: CapabilityAudit) -> ElementModel {
    badge_model(
        if c.verdict@ == "pass"@ { "ok"@ } else { "warn"@ },
        "MMS "@ + decimal_of(c.mms as nat) + " · "@ + c.verdict@,
    )
}

/// The row of a surface.
pub open spec fn surface_row(s: AuditSurface) -> NodeModel {
    NodeModel::Element(
        with_children(
            bare("tr"@),
            seq![
                cell_of(
                    if s.derived {
                        badge_model("ok"@, "✓ derived"@)
                    } else {
                        badge_model("fail"@, "✗ by hand"@)
                    },
                ),
                cell_of(tag_model(s.name@)),
                NodeModel::Element(saying(bare("td"@), s.detail@)),
            ],
        ),
    )
}

/// The row of a mention.
pub open spec fn mention_row(m: AuditMention) -> NodeModel {
    NodeModel::Element(
        with_children(
            bare("tr"@),
            seq![
                cell_of(mono_model(m.path@)),
                cell_of(mono_model(decimal_of(m.line as nat))),
                NodeModel::Element(saying(bare("td"@), m.text@)),
            ],
        ),
    )
}

/// What the mentions card says when no hand-written file names the capability.
pub const NO_MENTION: &'static str = "No hand-written file names it apart from its declaration.";

/// The body of one capability's integrity page.
pub open spec fn capability_body(c: CapabilityAudit) -> ElementModel {
    let rows = c.mentions@.map_values(|m: AuditMention| mention_row(m));
    holding(
        holding(
            holding(
                classed("div"@, "mj-grid"@),
                card_with_model(
                    "Canonicality"@,
                    mms_badge(c),
                    facts_model(
                        seq![
                            ("Canonical source"@, NodeModel::Element(mono_model(c.canonical_source@))),
                            ("Manual maintenance surface"@, NodeModel::Element(mono_model(decimal_of(c.mms as nat)))),
                            (
                                "Descriptor"@,
                                NodeModel::Element(
                                    with_attr(
                                        link_model("/cockpit/capabilities/"@ + percent_encoded(c.id@), "the capability page"@),
                                        "class"@,
                                        "mj-link"@,
                                    ),
                                ),
                            ),
                            (
                                "Why"@,
                                NodeModel::Element(
                                    with_attr(
                                        link_model(
                                            node_href_of("capability:"@ + c.id@),
                                            "the knowledge model's explanation"@,
                                        ),
                                        "class"@,
                                        "mj-link"@,
                                    ),
                                ),
                            ),
                        ],
                    ),
                ),
            ),
            card_model(
                "Derived surfaces"@,
                table_model(
                    seq!["Derived"@, "Surface"@, "What"@],
                    c.surfaces@.map_values(|s: AuditSurface| surface_row(s)),
                ),
            ),
        ),
        card_model(
            "Hand-written mentions"@,
            if rows.len() == 0 {
                saying(classed("p"@, "mj-empty"@), NO_MENTION@)
            } else {
                table_model(seq!["File"@, "Line"@, "Text"@], rows)
            },
        ),
    )
}

fn surface_rows(c: &CapabilityAudit) -> (r: Vec<El>)
    ensures
        els_model(r@) == c.surfaces@.map_values(|s: AuditSurface| surface_row(s)),
{
    let mut rows: Vec<El> = Vec::new();
    for k in 0..c.surfaces.len()
        invariant
            rows@.len() == k,
            forall|j: int| 0 <= j < k ==> NodeModel::Element((#[trigger] rows@[j])@) == surface_row(c.surfaces@[j]),
    {
        let s = &c.surfaces[k];
        let mark = if s.derived {
            badge("ok", "✓ derived")
        } else {
            badge("fail", "✗ by hand")
        };
        let mut cells: Vec<El> = Vec::new();
        cells.push(cell(mark));
        cells.push(cell(tag(s.name.as_str())));
        cells.push(text_cell(s.detail.as_str()));
        let r = row(cells);
        assert(els_model(cells@) =~= match surface_row(*s) {
            NodeModel::Element(x) => x.children,
            _ => seq![],
        });
        rows.push(r);
    }
    assert(els_model(rows@) =~= c.surfaces@.map_values(|s: AuditSurface| surface_row(s)));
    rows
}

fn mention_rows(c: &CapabilityAudit) -> (r: Vec<El>)
    ensures
        els_model(r@) == c.mentions@.map_values(|m: AuditMention| mention_row(m)),
{
    let mut rows: Vec<El> = Vec::new();
    for k in 0..c.mentions.len()
        invariant
            rows@.len() == k,
            forall|j: int| 0 <= j < k ==> NodeModel::Element((#[trigger] rows@[j])@) == mention_row(c.mentions@[j]),
    {
        let m = &c.mentions[k];
        let mut cells: Vec<El> = Vec::new();
        cells.push(cell(mono(m.path.as_str())));
        cells.push(cell(mono(decimal(m.line).as_str())));
        cells.push(text_cell(m.text.as_str()));
        let r = row(cells);
        assert(els_model(cells@) =~= match mention_row(*m) {
            NodeModel::Element(x) => x.children,
            _ => seq![],
        });
        rows.push(r);
    }
    assert(els_model(rows@) =~= c.mentions@.map_values(|m: AuditMention| mention_row(m)));
    rows
}

/// What one capability's integrity page says under its heading.
pub const ONE_SOURCE: &'static str = "One canonical source; every surface derived from it; every hand-written file that names it.";

/// One capability's canonicality. `audit` is what the canonicality audit answered for
/// `id`, or why it did not; the capability shown is the first the audit holds.
pub fn integrity_capability(id: &str, audit: Result<Audit, String>) -> (r: Page)
    ensures
        r.area == Area::Integrity,
        r.scripts@.len() == 0,
        audit matches Err(e) ==> r.title@ == "No such capability"@ && r.main@ == no_capability_body(e@)
            && r.status == 404 && r.breadcrumbs@.len() == 0,
        audit is Ok && audit->Ok_0.capabilities@.len() == 0 ==> r.title@ == "No such capability"@
            && r.main@ == no_capability_body(no_such(id@)) && r.status == 404 && r.breadcrumbs@.len() == 0,
        audit is Ok && audit->Ok_0.capabilities@.len() > 0 ==> {
            let c = audit->Ok_0.capabilities@[0];
            &&& r.title@ == c.id@
            &&& r.main@ == capability_body(c)
            &&& r.status == 200
            &&& r.subtitle matches Some(s) && s@ == ONE_SOURCE@
            &&& trail_views(r.breadcrumbs@) == seq![
                ("Cockpit"@, Some("/cockpit"@)),
                ("Integrity"@, Some("/cockpit/integrity"@)),
                (c.id@, None::<Seq<char>>),
            ]
        },
{
    let a = match audit {
        Ok(a) => a,
        Err(e) => return no_capability(e.as_str()),
    };
    if a.capabilities.len() == 0 {
        let mut m = String::from_str("no query or command `");
        push_str(&mut m, id);
        push_str(&mut m, "`");
        return no_capability(m.as_str());
    }
    let c = &a.capabilities[0];
    let mut descriptor = String::from_str("/cockpit/capabilities/");
    push_str(&mut descriptor, percent_encode(c.id.as_str()).as_str());
    let mut node = String::from_str("capability:");
    push_str(&mut node, c.id.as_str());
    let mut label = String::from_str("MMS ");
    push_str(&mut label, decimal(c.mms).as_str());
    push_str(&mut label, " · ");
    push_str(&mut label, c.verdict.as_str());
    let mut rows: Vec<(&str, Node)> = Vec::new();
    rows.push(("Canonical source", Node::Element(mono(c.canonical_source.as_str()))));
    rows.push(("Manual maintenance surface", Node::Element(mono(decimal(c.mms).as_str()))));
    rows.push(("Descriptor", Node::Element(link(descriptor.as_str(), "the capability page").class("mj-link"))));
    rows.push(
        ("Why", Node::Element(link(node_href(node.as_str()).as_str(), "the knowledge model's explanation").class("mj-link"))),
    );
    assert(rows_model(rows@) =~= seq![
        ("Canonical source"@, NodeModel::Element(mono_model(c.canonical_source@))),
        ("Manual maintenance surface"@, NodeModel::Element(mono_model(decimal_of(c.mms as nat)))),
        (
            "Descriptor"@,
            NodeModel::Element(
                with_attr(
                    link_model("/cockpit/capabilities/"@ + percent_encoded(c.id@), "the capability page"@),
                    "class"@,
                    "mj-link"@,
                ),
            ),
        ),
        (
            "Why"@,
            NodeModel::Element(
                with_attr(link_model(node_href_of("capability:"@ + c.id@), "the knowledge model's explanation"@), "class"@, "mj-link"@),
            ),
        ),
    ]);
    let mentions = mention_rows(c);
    assert(els_model(mentions@).len() == mentions@.len());
    let h1 = ["Derived", "Surface", "What"];
    assert(strs_model(h1@) =~= seq!["Derived"@, "Surface"@, "What"@]);
    let h2 = ["File", "Line", "Text"];
    assert(strs_model(h2@) =~= seq!["File"@, "Line"@, "Text"@]);
    let listed = if mentions.len() == 0 {
        nothing(NO_MENTION)
    } else {
        table(&h2, mentions)
    };
    let body = el("div").class("mj-grid").child(
        card_with(
            "Canonicality",
            badge(
                if str_eq(c.verdict.as_str(), "pass") {
                    "ok"
                } else {
                    "warn"
                },
                label.as_str(),
            ),
            facts(rows),
        ),
    ).child(card("Derived surfaces", table(&h1, surface_rows(c)))).child(card("Hand-written mentions", listed));
    let mut trail: Vec<(&str, Option<&str>)> = Vec::new();
    trail.push(("Cockpit", Some("/cockpit")));
    trail.push(("Integrity", Some("/cockpit/integrity")));
    trail.push((c.id.as_str(), None));
    assert(given_trail(trail@) =~= seq![
        ("Cockpit"@, Some("/cockpit"@)),
        ("Integrity"@, Some("/cockpit/integrity"@)),
        (c.id@, None::<Seq<char>>),
    ]);
    Page::new(Area::Integrity, c.id.as_str(), body).subtitle(ONE_SOURCE).trail(trail)
}

} // verus!
