//! The release page: what the public contract did since the last release, and the smallest
//! version it allows. Every number is the release analysis's; the page computes no
//! compatibility of its own and increments no version.

use vstd::prelude::*;

use crate::strings::{decimal, decimal_of, push_str};

use super::checkouts::Severity;
use super::frame::{classed, holding, saying};
use super::html::{bare, el, els_model, with_children, El, ElementModel, Node, NodeModel};
use super::landing::first_twelve;
use super::nav::Area;
use super::pages::{given_trail, trail_views, Page};
use super::surfaces::mono_model;
use super::view::{badge, badge_model, card, card_model, card_with, card_with_model, facts, facts_model, mono, rows_model};

verus! {

broadcast use super::html::lemma_element_node;

/// How far a change reaches: the bump it calls for.
#[derive(Debug, Clone, Copy, PartialEq, Eq, Structural)]
pub enum Impact {
    /// No bump.
    Nothing,
    /// A patch.
    Patch,
    /// A minor version.
    Minor,
    /// A major version.
    Major,
}

/// The word an impact is shown as.
pub open spec fn impact_word(i: Impact) -> Seq<char> {
    match i {
        Impact::Nothing => "none"@,
        Impact::Patch => "patch"@,
        Impact::Minor => "minor"@,
        Impact::Major => "major"@,
    }
}

/// The status word an impact is coloured by.
pub open spec fn impact_status(i: Impact) -> Seq<char> {
    match i {
        Impact::Major => "fail"@,
        Impact::Minor => "warn"@,
        _ => "ok"@,
    }
}

impl Impact {
    /// The word.
    pub fn as_str(self) -> (r: &'static str)
        ensures
            r@ == impact_word(self),
    {
        match self {
            Impact::Nothing => "none",
            Impact::Patch => "patch",
            Impact::Minor => "minor",
            Impact::Major => "major",
        }
    }

    /// The status word it is coloured by.
    pub fn status(self) -> (r: &'static str)
        ensures
            r@ == impact_status(self),
    {
        match self {
            Impact::Major => "fail",
            Impact::Minor => "warn",
            _ => "ok",
        }
    }
}

/// Whether the declared version allows what the contract did.
#[derive(Debug, Clone, Copy, PartialEq, Eq, Structural)]
pub enum ReleaseStatus {
    /// It does.
    Aligned,
    /// It does not: the version must be raised.
    Blocked,
}

/// The release everything is measured against.
#[derive(Debug, Clone, PartialEq, Eq)]
pub struct Baseline {
    /// Its tag or reference.
    pub reference: String,
    /// The public atoms it published.
    pub atoms: usize,
    /// Its commit.
    pub commit: String,
    /// Whether a release record says so, rather than a tag alone.
    pub recorded: bool,
    /// The digest of its surface.
    pub fingerprint: String,
}

/// One movement of the public contract.
#[derive(Debug, Clone, PartialEq, Eq)]
pub struct SurfaceChange {
    /// How far it reaches.
    pub impact: Impact,
    /// The change as it names itself.
    pub name: String,
    /// Why it counts for what it does.
    pub detail: String,
}

/// What the commits since the baseline say of themselves.
#[derive(Debug, Clone, Copy, PartialEq, Eq)]
pub struct CommitEvidence {
    /// The bump they imply.
    pub implied: Impact,
    /// How many there are.
    pub commits: usize,
}

/// A finding of the release state.
#[derive(Debug, Clone, PartialEq, Eq)]
pub struct ReleaseDiagnostic {
    /// How much it matters.
    pub severity: Severity,
    /// What it says.
    pub message: String,
}

/// The versioning policy.
#[derive(Debug, Clone, PartialEq, Eq)]
pub struct ReleasePolicy {
    /// Its schema.
    pub schema: String,
    /// What it says, in a sentence.
    pub statement: String,
}

/// What the release analysis answered.
#[derive(Debug, Clone, PartialEq, Eq)]
pub struct VersionPlan {
    /// The version this tree declares.
    pub declared_version: String,
    /// The smallest version it may declare.
    pub required_version: String,
    /// Whether the one allows the other.
    pub status: ReleaseStatus,
    /// What it is measured against.
    pub baseline: Baseline,
    /// The bump the contract calls for.
    pub required: Impact,
    /// The bump the version makes.
    pub declared: Impact,
    /// The public atoms of this tree.
    pub atoms: usize,
    /// Changes that add.
    pub added: usize,
    /// Changes that change.
    pub changed: usize,
    /// Changes that remove.
    pub removed: usize,
    /// The policy.
    pub policy: ReleasePolicy,
    /// Every movement.
    pub changes: Vec<SurfaceChange>,
    /// Whether the commits claim less than the contract did.
    pub understated: bool,
    /// What the commits say.
    pub commits: CommitEvidence,
    /// The bump the measured change implies.
    pub implied: Impact,
    /// What the release state found.
    pub diagnostics: Vec<ReleaseDiagnostic>,
    /// The digest of this tree's surface.
    pub fingerprint: String,
    /// Whether every writer of the version agrees.
    pub writers_agree: bool,
}

/// Where the first colon of `d` stands, looking from `i` on.
pub open spec fn colon_from(d: Seq<char>, i: int) -> Option<int>
    decreases d.len() - i,
{
    if i < 0 || i >= d.len() {
        None
    } else if d[i] == ':' {
        Some(i)
    } else {
        colon_from(d, i + 1)
    }
}

/// A digest cut to what a person compares by eye: the algorithm and the first twelve
/// characters after it, or the first twelve of a digest that names none, and an ellipsis.
pub open spec fn short_digest(d: Seq<char>) -> Seq<char> {
    match colon_from(d, 0) {
        Some(i) => d.take(i) + ":"@ + first_twelve(d.skip(i + 1)) + "…"@,
        None => first_twelve(d) + "…"@,
    }
}

fn short_digest_text(d: &str) -> (r: String)
    ensures
        r@ == short_digest(d@),
{
    let n = d.unicode_len();
    let mut i: usize = 0;
    while i < n
        invariant
            n == d@.len(),
            i <= n,
            colon_from(d@, 0) == colon_from(d@, i as int),
        decreases n - i,
    {
        if d.get_char(i) == ':' {
            let algo = d.substring_char(0, i);
            let hex = d.substring_char(i + 1, n);
            let m = hex.unicode_len();
            let k = if m <= 12 {
                m
            } else {
                12
            };
            let mut out = String::from_str(algo);
            push_str(&mut out, ":");
            push_str(&mut out, hex.substring_char(0, k));
            push_str(&mut out, "…");
            proof {
                assert(hex@ =~= d@.skip(i + 1));
                assert(hex@.subrange(0, k as int) =~= first_twelve(d@.skip(i + 1)));
                assert(algo@ =~= d@.take(i as int));
            }
            return out;
        }
        i = i + 1;
    }
    assert(colon_from(d@, n as int) is None);
    let k = if n <= 12 {
        n
    } else {
        12
    };
    let mut out = String::from_str(d.substring_char(0, k));
    push_str(&mut out, "…");
    assert(d@.subrange(0, k as int) =~= first_twelve(d@));
    out
}

/// The title of the verdict card.
pub open spec fn verdict_title(p: VersionPlan) -> Seq<char> {
    if p.status == ReleaseStatus::Blocked {
        p.declared_version@ + " → "@ + p.required_version@ + " required"@
    } else {
        p.declared_version@ + " — aligned"@
    }
}

/// The facts of the verdict.
pub open spec fn verdict_rows(p: VersionPlan) -> Seq<(Seq<char>, NodeModel)> {
    seq![
        ("Last release"@, NodeModel::Element(mono_model(p.baseline.reference@))),
        ("Required bump"@, NodeModel::Element(badge_model(impact_status(p.required), impact_word(p.required)))),
        ("Declared bump"@, NodeModel::Element(mono_model(impact_word(p.declared)))),
        ("Next minimum"@, NodeModel::Element(mono_model(p.required_version@))),
        (
            "Surface"@,
            NodeModel::Element(
                mono_model(
                    decimal_of(p.atoms as nat) + " public atoms, was "@ + decimal_of(p.baseline.atoms as nat),
                ),
            ),
        ),
    ]
}

/// The counts of the movements, as badges.
pub open spec fn counts_model(p: VersionPlan) -> ElementModel {
    with_children(
        classed("div"@, "mj-marks"@),
        seq![
            NodeModel::Element(badge_model("ok"@, decimal_of(p.added as nat) + " added"@)),
            NodeModel::Element(badge_model("info"@, decimal_of(p.changed as nat) + " changed"@)),
            NodeModel::Element(
                badge_model(
                    if p.removed > 0 {
                        "fail"@
                    } else {
                        "ok"@
                    },
                    decimal_of(p.removed as nat) + " removed"@,
                ),
            ),
        ],
    )
}

/// What a blocked verdict adds: what to do.
pub const RAISE_IT: &'static str = "The public contract moved by more than the version says. Raise it with the one writer:";

/// The verdict card: the version, whether it is allowed, and why in numbers.
pub open spec fn verdict_model(p: VersionPlan) -> ElementModel {
    let blocked = p.status == ReleaseStatus::Blocked;
    let d = holding(
        holding(holding(bare("div"@), facts_model(verdict_rows(p))), counts_model(p)),
        saying(classed("p"@, "mj-note"@), p.policy.statement@),
    );
    let d = if blocked {
        holding(holding(d, saying(classed("p"@, "mj-prose"@), RAISE_IT@)), mono_model("majordomus release bump"@))
    } else {
        d
    };
    card_with_model(
        verdict_title(p),
        badge_model(
            if blocked {
                "fail"@
            } else {
                "ok"@
            },
            if blocked {
                "blocked"@
            } else {
                "aligned"@
            },
        ),
        d,
    )
}

fn verdict_el(p: &VersionPlan) -> (e: El)
    ensures
        e@ == verdict_model(*p),
{
    let blocked = p.status == ReleaseStatus::Blocked;
    let mut title = String::from_str(p.declared_version.as_str());
    if blocked {
        push_str(&mut title, " → ");
        push_str(&mut title, p.required_version.as_str());
        push_str(&mut title, " required");
    } else {
        push_str(&mut title, " — aligned");
    }
    let mut surface = decimal(p.atoms);
    push_str(&mut surface, " public atoms, was ");
    push_str(&mut surface, decimal(p.baseline.atoms).as_str());
    let mut rows: Vec<(&str, Node)> = Vec::new();
    rows.push(("Last release", Node::Element(mono(p.baseline.reference.as_str()))));
    rows.push(("Required bump", Node::Element(badge(p.required.status(), p.required.as_str()))));
    rows.push(("Declared bump", Node::Element(mono(p.declared.as_str()))));
    rows.push(("Next minimum", Node::Element(mono(p.required_version.as_str()))));
    rows.push(("Surface", Node::Element(mono(surface.as_str()))));
    assert(rows_model(rows@) =~= verdict_rows(*p));
    let mut added = decimal(p.added);
    push_str(&mut added, " added");
    let mut changed = decimal(p.changed);
    push_str(&mut changed, " changed");
    let mut removed = decimal(p.removed);
    push_str(&mut removed, " removed");
    let mut marks: Vec<El> = Vec::new();
    marks.push(badge("ok", added.as_str()));
    marks.push(badge("info", changed.as_str()));
    marks.push(
        badge(
            if p.removed > 0 {
                "fail"
            } else {
                "ok"
            },
            removed.as_str(),
        ),
    );
    assert(els_model(marks@) =~= counts_model(*p).children);
    let mut d = el("div").child(facts(rows)).child(el("div").class("mj-marks").children(marks)).child(
        el("p").class("mj-note").text(p.policy.statement.as_str()),
    );
    if blocked {
        d = d.child(el("p").class("mj-prose").text(RAISE_IT)).child(mono("majordomus release bump"));
    }
    card_with(
        title.as_str(),
        badge(
            if blocked {
                "fail"
            } else {
                "ok"
            },
            if blocked {
                "blocked"
            } else {
                "aligned"
            },
        ),
        d,
    )
}

/// One movement as a list item: its reach and what it is.
pub open spec fn change_item(c: SurfaceChange) -> NodeModel {
    NodeModel::Element(
        holding(
            holding(bare("li"@), badge_model(impact_status(c.impact), impact_word(c.impact))),
            saying(classed("div"@, "mj-identity"@), c.name@ + " — "@ + c.detail@),
        ),
    )
}

/// The card of every movement: the evidence for the verdict.
pub open spec fn why_model(p: VersionPlan) -> ElementModel {
    card_model(
        "Why"@,
        if p.changes@.len() == 0 {
            holding(
                bare("div"@),
                saying(
                    classed("p"@, "mj-prose"@),
                    "Nothing a caller can hold has moved since "@ + p.baseline.reference@ + ". No bump is owed."@,
                ),
            )
        } else {
            holding(
                bare("div"@),
                with_children(classed("ul"@, "mj-list"@), p.changes@.map_values(|c: SurfaceChange| change_item(c))),
            )
        },
    )
}

fn why_el(p: &VersionPlan) -> (e: El)
    ensures
        e@ == why_model(*p),
{
    if p.changes.len() == 0 {
        let mut s = String::from_str("Nothing a caller can hold has moved since ");
        push_str(&mut s, p.baseline.reference.as_str());
        push_str(&mut s, ". No bump is owed.");
        return card("Why", el("div").child(el("p").class("mj-prose").text(s.as_str())));
    }
    let mut items: Vec<El> = Vec::new();
    for k in 0..p.changes.len()
        invariant
            items@.len() == k,
            forall|i: int| 0 <= i < k ==> NodeModel::Element((#[trigger] items@[i])@) == change_item(p.changes@[i]),
    {
        let c = &p.changes[k];
        let mut s = String::from_str(c.name.as_str());
        push_str(&mut s, " — ");
        push_str(&mut s, c.detail.as_str());
        items.push(
            el("li").child(badge(c.impact.status(), c.impact.as_str())).child(
                el("div").class("mj-identity").text(s.as_str()),
            ),
        );
    }
    assert(els_model(items@) =~= p.changes@.map_values(|c: SurfaceChange| change_item(c)));
    card("Why", el("div").child(el("ul").class("mj-list").children(items)))
}

/// What the card of understating commits says of which account wins.
pub const MEASUREMENT_WINS: &'static str = "Conventional commits are how a change explains itself; the contract is what decides the version. The measurement wins.";

/// The card shown when the commits claim less than the contract did.
pub open spec fn understated_model(p: VersionPlan) -> ElementModel {
    card_with_model(
        "The commits understate the change"@,
        badge_model("warn"@, "evidence"@),
        holding(
            holding(
                bare("div"@),
                facts_model(
                    seq![
                        ("Commits say"@, NodeModel::Element(mono_model(impact_word(p.commits.implied)))),
                        ("The contract moved by"@, NodeModel::Element(mono_model(impact_word(p.implied)))),
                        ("Commits since"@, NodeModel::Element(mono_model(decimal_of(p.commits.commits as nat)))),
                    ],
                ),
            ),
            saying(classed("p"@, "mj-note"@), MEASUREMENT_WINS@),
        ),
    )
}

fn understated_el(p: &VersionPlan) -> (e: El)
    ensures
        e@ == understated_model(*p),
{
    let mut rows: Vec<(&str, Node)> = Vec::new();
    rows.push(("Commits say", Node::Element(mono(p.commits.implied.as_str()))));
    rows.push(("The contract moved by", Node::Element(mono(p.implied.as_str()))));
    rows.push(("Commits since", Node::Element(mono(decimal(p.commits.commits).as_str()))));
    assert(rows_model(rows@) =~= seq![
        ("Commits say"@, NodeModel::Element(mono_model(impact_word(p.commits.implied)))),
        ("The contract moved by"@, NodeModel::Element(mono_model(impact_word(p.implied)))),
        ("Commits since"@, NodeModel::Element(mono_model(decimal_of(p.commits.commits as nat)))),
    ]);
    card_with(
        "The commits understate the change",
        badge("warn", "evidence"),
        el("div").child(facts(rows)).child(el("p").class("mj-note").text(MEASUREMENT_WINS)),
    )
}

/// A finding of the release state as a list item: an error, or a warning.
pub open spec fn diagnostic_item(d: ReleaseDiagnostic) -> NodeModel {
    let error = d.severity == Severity::Error;
    NodeModel::Element(
        holding(
            holding(
                bare("li"@),
                badge_model(
                    if error {
                        "fail"@
                    } else {
                        "warn"@
                    },
                    if error {
                        "error"@
                    } else {
                        "warning"@
                    },
                ),
            ),
            saying(bare("span"@), d.message@),
        ),
    )
}

/// The card of the release state's findings.
pub open spec fn state_model(p: VersionPlan) -> ElementModel {
    card_model(
        "The release state"@,
        with_children(classed("ul"@, "mj-list"@), p.diagnostics@.map_values(|d: ReleaseDiagnostic| diagnostic_item(d))),
    )
}

fn state_el(p: &VersionPlan) -> (e: El)
    ensures
        e@ == state_model(*p),
{
    let mut items: Vec<El> = Vec::new();
    for k in 0..p.diagnostics.len()
        invariant
            items@.len() == k,
            forall|i: int| 0 <= i < k ==> NodeModel::Element((#[trigger] items@[i])@) == diagnostic_item(p.diagnostics@[i]),
    {
        let d = &p.diagnostics[k];
        let error = d.severity == Severity::Error;
        items.push(
            el("li").child(
                badge(
                    if error {
                        "fail"
                    } else {
                        "warn"
                    },
                    if error {
                        "error"
                    } else {
                        "warning"
                    },
                ),
            ).child(el("span").text(d.message.as_str())),
        );
    }
    assert(els_model(items@) =~= p.diagnostics@.map_values(|d: ReleaseDiagnostic| diagnostic_item(d)));
    card("The release state", el("ul").class("mj-list").children(items))
}

/// The facts of where the verdict comes from.
pub open spec fn provenance_rows(p: VersionPlan) -> Seq<(Seq<char>, NodeModel)> {
    seq![
        ("Policy"@, NodeModel::Element(saying(classed("span"@, "mj-prose"@), p.policy.schema@))),
        ("Baseline commit"@, NodeModel::Element(mono_model(first_twelve(p.baseline.commit@)))),
        (
            "Recorded"@,
            NodeModel::Element(
                if p.baseline.recorded {
                    badge_model("ok"@, "yes"@)
                } else {
                    badge_model("warn"@, "from a tag alone"@)
                },
            ),
        ),
        ("Baseline digest"@, NodeModel::Element(mono_model(short_digest(p.baseline.fingerprint@)))),
        ("This digest"@, NodeModel::Element(mono_model(short_digest(p.fingerprint@)))),
        (
            "Writers agree"@,
            NodeModel::Element(
                if p.writers_agree {
                    badge_model("ok"@, "yes"@)
                } else {
                    badge_model("fail"@, "no"@)
                },
            ),
        ),
    ]
}

fn provenance_el(p: &VersionPlan) -> (e: El)
    ensures
        e@ == card_model("Provenance"@, facts_model(provenance_rows(*p))),
{
    let n = p.baseline.commit.unicode_len();
    let k = if n <= 12 {
        n
    } else {
        12
    };
    let commit = p.baseline.commit.substring_char(0, k);
    assert(commit@ =~= first_twelve(p.baseline.commit@));
    let mut rows: Vec<(&str, Node)> = Vec::new();
    rows.push(("Policy", Node::Element(el("span").class("mj-prose").text(p.policy.schema.as_str()))));
    rows.push(("Baseline commit", Node::Element(mono(commit))));
    rows.push(
        (
            "Recorded",
            Node::Element(
                if p.baseline.recorded {
                    badge("ok", "yes")
                } else {
                    badge("warn", "from a tag alone")
                },
            ),
        ),
    );
    rows.push(("Baseline digest", Node::Element(mono(short_digest_text(p.baseline.fingerprint.as_str()).as_str()))));
    rows.push(("This digest", Node::Element(mono(short_digest_text(p.fingerprint.as_str()).as_str()))));
    rows.push(
        (
            "Writers agree",
            Node::Element(
                if p.writers_agree {
                    badge("ok", "yes")
                } else {
                    badge("fail", "no")
                },
            ),
        ),
    );
    assert(rows_model(rows@) =~= provenance_rows(*p));
    card("Provenance", facts(rows))
}

/// The body of the release page: the verdict, why, the commits where they understate the
/// change, the release state where it found something, and where it all comes from.
pub open spec fn release_body(p: VersionPlan) -> ElementModel {
    let g = holding(holding(classed("div"@, "mj-grid"@), verdict_model(p)), why_model(p));
    let g = if p.understated {
        holding(g, understated_model(p))
    } else {
        g
    };
    let g = if p.diagnostics@.len() > 0 {
        holding(g, state_model(p))
    } else {
        g
    };
    holding(g, card_model("Provenance"@, facts_model(provenance_rows(p))))
}

/// What the page says when there is no baseline to measure against.
pub const NO_BASELINE: &'static str = "The smallest allowed version is measured against the surface the last release published. Until there is one — a release record, and the registry committed at its commit — there is no baseline, and no bump can be derived. A version named deliberately is still written: `majordomus release bump --level minor`.";

/// The body of the page when nothing can be measured, with the reason.
pub open spec fn unmeasured_body(reason: Seq<char>) -> ElementModel {
    holding(
        classed("div"@, "mj-grid"@),
        card_model(
            "Nothing to measure against yet"@,
            holding(
                holding(bare("div"@), saying(classed("p"@, "mj-prose mj-identity"@), reason)),
                saying(classed("p"@, "mj-note"@), NO_BASELINE@),
            ),
        ),
    )
}

/// The subtitle when nothing can be measured.
pub const UNMEASURED_SUBTITLE: &'static str = "The smallest version this tree may declare, measured from the public capability surface against the last release.";

/// The subtitle of the page.
pub const RELEASE_SUBTITLE: &'static str = "The smallest version this tree may declare, measured from the public capability surface against the last release — the same verdict `majordomus release analyze` and the `version-surface` gate reach.";

/// The release page. `plan` is what the release analysis answered, or why it did not; a
/// refusal is a state of the repository, not a failure of the server, and says what could
/// not be measured.
pub fn release(plan: Result<VersionPlan, String>) -> (r: Page)
    ensures
        r.area == Area::Release,
        r.title@ == "Release"@,
        r.status == 200,
        r.scripts@.len() == 0,
        trail_views(r.breadcrumbs@) == seq![("Cockpit"@, Some("/cockpit"@)), ("Release"@, None::<Seq<char>>)],
        match plan {
            Err(e) => r.main@ == unmeasured_body(e@) && (r.subtitle matches Some(s) && s@ == UNMEASURED_SUBTITLE@),
            Ok(p) => r.main@ == release_body(p) && (r.subtitle matches Some(s) && s@ == RELEASE_SUBTITLE@),
        },
{
    let mut trail: Vec<(&str, Option<&str>)> = Vec::new();
    trail.push(("Cockpit", Some("/cockpit")));
    trail.push(("Release", None));
    assert(given_trail(trail@) =~= seq![("Cockpit"@, Some("/cockpit"@)), ("Release"@, None::<Seq<char>>)]);
    let p = match plan {
        Ok(p) => p,
        Err(reason) => {
            let body = el("div").class("mj-grid").child(
                card(
                    "Nothing to measure against yet",
                    el("div").child(el("p").class("mj-prose mj-identity").text(reason.as_str())).child(
                        el("p").class("mj-note").text(NO_BASELINE),
                    ),
                ),
            );
            return Page::new(Area::Release, "Release", body).subtitle(UNMEASURED_SUBTITLE).trail(trail);
        },
    };
    let mut g = el("div").class("mj-grid").child(verdict_el(&p)).child(why_el(&p));
    if p.understated {
        g = g.child(understated_el(&p));
    }
    if p.diagnostics.len() > 0 {
        g = g.child(state_el(&p));
    }
    g = g.child(provenance_el(&p));
    Page::new(Area::Release, "Release", g).subtitle(RELEASE_SUBTITLE).trail(trail)
}

} // verus!
