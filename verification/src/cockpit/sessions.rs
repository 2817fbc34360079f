//! Every open episode of this repository's session store: one per provider window, read
//! from the store rather than from the pointer, with the standing that says whether
//! anything can still close it.

use vstd::prelude::*;

use crate::strings::{decimal, decimal_of, push_str};

use super::frame::{classed, holding, saying};
use super::html::{bare, el, els_model, with_children, El, ElementModel, NodeModel};
use super::nav::Area;
use super::pages::{failed, failed_body, given_trail, trail_views, Page};
use super::surfaces::{cell_of, mono_model};
use super::view::{
    alert, alert_model, badge, badge_model, card, card_model, card_with, card_with_model, cell, link, link_model, mono,
    nothing, row, statistic, statistic_model, strs_model, table, table_model, text_cell,
};

verus! {

broadcast use super::html::lemma_element_node;

/// Where an open episode stands.
#[derive(Debug, Clone, Copy, PartialEq, Eq, Structural)]
pub enum EpisodeStanding {
    /// The episode this checkout's pointer names.
    Current,
    /// Another window's, still in use.
    Open,
    /// Opened by a provider no surface here can see.
    Foreign,
    /// Nothing can ever close it.
    Stranded,
}

/// The word a standing is shown as.
pub open spec fn standing_word(s: EpisodeStanding) -> Seq<char> {
    match s {
        EpisodeStanding::Current => "current"@,
        EpisodeStanding::Open => "open"@,
        EpisodeStanding::Foreign => "foreign"@,
        EpisodeStanding::Stranded => "stranded"@,
    }
}

/// The status word a standing is coloured by.
pub open spec fn standing_level(s: EpisodeStanding) -> Seq<char> {
    match s {
        EpisodeStanding::Current => "ok"@,
        EpisodeStanding::Open => "info"@,
        EpisodeStanding::Foreign => "warn"@,
        EpisodeStanding::Stranded => "fail"@,
    }
}

impl EpisodeStanding {
    /// The word.
    pub fn as_str(self) -> (r: &'static str)
        ensures
            r@ == standing_word(self),
    {
        match self {
            EpisodeStanding::Current => "current",
            EpisodeStanding::Open => "open",
            EpisodeStanding::Foreign => "foreign",
            EpisodeStanding::Stranded => "stranded",
        }
    }

    fn level(self) -> (r: &'static str)
        ensures
            r@ == standing_level(self),
    {
        match self {
            EpisodeStanding::Current => "ok",
            EpisodeStanding::Open => "info",
            EpisodeStanding::Foreign => "warn",
            EpisodeStanding::Stranded => "fail",
        }
    }
}

/// One open episode.
#[derive(Debug, Clone, PartialEq, Eq)]
pub struct Episode {
    /// The session it belongs to.
    pub session_id: String,
    /// Where it stands.
    pub standing: EpisodeStanding,
    /// The provider that opened it; empty when it was opened by hand.
    pub provider: String,
    /// The branch it was opened on.
    pub branch: String,
    /// When it was opened.
    pub started_at: String,
    /// When it last wrote to the ledger; empty when it has written nothing.
    pub last_activity: String,
    /// What it last wrote.
    pub last_event: String,
    /// The tasks it touched.
    pub tasks: Vec<String>,
    /// How many events it wrote.
    pub events: usize,
}

/// What the session store holds.
#[derive(Debug, Clone, PartialEq, Eq)]
pub struct Episodes {
    /// Whether the store exists at all.
    pub present: bool,
    /// Every open episode.
    pub episodes: Vec<Episode>,
    /// What reading the store found worth saying.
    pub findings: Vec<String>,
}

/// What the card says when the store is there and holds nothing.
pub const NOTHING_OPEN: &'static str = "The store is here and holds no open episode. Nothing is open in this repository.";

/// What the card says when there is no store yet.
pub const NO_STORE: &'static str = "This checkout has no open-episode store yet. That is a fresh clone, not a fault: the first start event creates it.";

/// What the card says of the table.
pub const ONE_PER_WINDOW: &'static str = "One episode per provider window, read from the store rather than from the pointer. Only the one marked `current` is the episode the briefing above is about; the others are other workers, and their ledger lines are stamped with their own ids.";

/// The row of an episode.
pub open spec fn episode_row(x: Episode) -> NodeModel {
    NodeModel::Element(
        with_children(
            bare("tr"@),
            seq![
                cell_of(mono_model(x.session_id@)),
                cell_of(badge_model(standing_level(x.standing), standing_word(x.standing))),
                cell_of(saying(bare("span"@), if x.provider@.len() == 0 { "(opened by hand)"@ } else { x.provider@ })),
                cell_of(mono_model(x.branch@)),
                NodeModel::Element(saying(bare("td"@), x.started_at@)),
                cell_of(
                    saying(
                        bare("span"@),
                        if x.last_activity@.len() == 0 {
                            "(has written nothing)"@
                        } else {
                            x.last_activity@ + " · "@ + x.last_event@
                        },
                    ),
                ),
                cell_of(
                    if x.tasks@.len() == 0 {
                        saying(bare("span"@), "—"@)
                    } else {
                        with_children(
                            classed("div"@, "mj-marks"@),
                            x.tasks@.map_values(|t: String| NodeModel::Element(mono_model(t@))),
                        )
                    },
                ),
                NodeModel::Element(saying(bare("td"@), decimal_of(x.events as nat))),
            ],
        ),
    )
}

/// The card of every open episode.
pub open spec fn episodes_card_model(e: Episodes) -> ElementModel {
    if e.episodes@.len() == 0 {
        card_model("Every open episode"@, saying(classed("p"@, "mj-empty"@), if e.present { NOTHING_OPEN@ } else { NO_STORE@ }))
    } else {
        card_with_model(
            "Every open episode"@,
            badge_model(
                if e.episodes@.len() > 1 { "info"@ } else { "ok"@ },
                decimal_of(e.episodes@.len()) + " open"@,
            ),
            with_children(
                holding(
                    holding(bare("div"@), saying(classed("p"@, "mj-prose"@), ONE_PER_WINDOW@)),
                    table_model(
                        seq![
                            "Episode"@,
                            "Standing"@,
                            "Provider"@,
                            "Branch"@,
                            "Opened"@,
                            "Last seen in the ledger"@,
                            "Tasks it touched"@,
                            "Events"@,
                        ],
                        e.episodes@.map_values(|x: Episode| episode_row(x)),
                    ),
                ),
                e.findings@.map_values(|f: String| NodeModel::Element(alert_model("info"@, f@))),
            ),
        )
    }
}

fn episode_el(x: &Episode) -> (r: El)
    ensures
        NodeModel::Element(r@) == episode_row(*x),
{
    let provider = if x.provider.unicode_len() == 0 {
        "(opened by hand)"
    } else {
        x.provider.as_str()
    };
    let seen = if x.last_activity.unicode_len() == 0 {
        String::from_str("(has written nothing)")
    } else {
        let mut t = String::from_str(x.last_activity.as_str());
        push_str(&mut t, " · ");
        push_str(&mut t, x.last_event.as_str());
        t
    };
    let tasks = if x.tasks.len() == 0 {
        el("span").text("—")
    } else {
        let mut marks: Vec<El> = Vec::new();
        for j in 0..x.tasks.len()
            invariant
                marks@.len() == j,
                forall|i: int| 0 <= i < j ==> (#[trigger] marks@[i])@ == mono_model(x.tasks@[i]@),
        {
            marks.push(mono(x.tasks[j].as_str()));
        }
        assert(els_model(marks@) =~= x.tasks@.map_values(|t: String| NodeModel::Element(mono_model(t@))));
        el("div").class("mj-marks").children(marks)
    };
    let mut cells: Vec<El> = Vec::new();
    cells.push(cell(mono(x.session_id.as_str())));
    cells.push(cell(badge(x.standing.level(), x.standing.as_str())));
    cells.push(cell(el("span").text(provider)));
    cells.push(cell(mono(x.branch.as_str())));
    cells.push(text_cell(x.started_at.as_str()));
    cells.push(cell(el("span").text(seen.as_str())));
    cells.push(cell(tasks));
    cells.push(text_cell(decimal(x.events).as_str()));
    let r = row(cells);
    assert(els_model(cells@) =~= match episode_row(*x) {
        NodeModel::Element(m) => m.children,
        _ => seq![],
    });
    r
}

/// The card of every open episode. The standing is a word beside a badge, because the
/// difference between `open` and `stranded` is the difference between "another window is
/// using this" and "nothing can ever close this", and a reader must not have to infer that
/// from a colour.
pub fn episodes_card(e: &Episodes) -> (r: El)
    ensures
        r@ == episodes_card_model(*e),
{
    if e.episodes.len() == 0 {
        return card(
            "Every open episode",
            nothing(
                if e.present {
                    NOTHING_OPEN
                } else {
                    NO_STORE
                },
            ),
        );
    }
    let mut rows: Vec<El> = Vec::new();
    for k in 0..e.episodes.len()
        invariant
            rows@.len() == k,
            forall|j: int| 0 <= j < k ==> NodeModel::Element((#[trigger] rows@[j])@) == episode_row(e.episodes@[j]),
    {
        rows.push(episode_el(&e.episodes[k]));
    }
    assert(els_model(rows@) =~= e.episodes@.map_values(|x: Episode| episode_row(x)));
    let mut alerts: Vec<El> = Vec::new();
    for k in 0..e.findings.len()
        invariant
            alerts@.len() == k,
            forall|j: int| 0 <= j < k ==> (#[trigger] alerts@[j])@ == alert_model("info"@, e.findings@[j]@),
    {
        alerts.push(alert("info", e.findings[k].as_str()));
    }
    assert(els_model(alerts@) =~= e.findings@.map_values(|f: String| NodeModel::Element(alert_model("info"@, f@))));
    let h = ["Episode", "Standing", "Provider", "Branch", "Opened", "Last seen in the ledger", "Tasks it touched", "Events"];
    assert(strs_model(h@) =~= seq![
        "Episode"@,
        "Standing"@,
        "Provider"@,
        "Branch"@,
        "Opened"@,
        "Last seen in the ledger"@,
        "Tasks it touched"@,
        "Events"@,
    ]);
    let mut label = decimal(e.episodes.len());
    push_str(&mut label, " open");
    card_with(
        "Every open episode",
        badge(
            if e.episodes.len() > 1 {
                "info"
            } else {
                "ok"
            },
            label.as_str(),
        ),
        el("div").child(el("p").class("mj-prose").text(ONE_PER_WINDOW)).child(table(&h, rows)).children(alerts),
    )
}

/// What the sessions page says under its heading.
pub const SUBTITLE: &'static str = "The episodes this repository's providers have opened and not yet closed.";

/// The body of the sessions page.
pub open spec fn sessions_body(e: Episodes) -> ElementModel {
    holding(
        holding(
            holding(
                classed("div"@, "mj-grid"@),
                holding(
                    classed("div"@, "mj-stats"@),
                    statistic_model(decimal_of(e.episodes@.len()), "open episodes"@, "lifecycle.episodes"@),
                ),
            ),
            episodes_card_model(e),
        ),
        holding(classed("p"@, "mj-note"@), link_model("/cockpit/continuity"@, "What this checkout's own episode is holding"@)),
    )
}

/// Every open episode of this repository's session store. `episodes` is what the store
/// answered, or why it did not.
pub fn sessions(episodes: Result<Episodes, String>) -> (r: Page)
    ensures
        r.area == Area::Sessions,
        r.title@ == "Sessions"@,
        r.scripts@.len() == 0,
        match episodes {
            Err(e) => r.main@ == failed_body(e@) && r.status == 500,
            Ok(e) => {
                &&& r.main@ == sessions_body(e)
                &&& r.status == 200
                &&& r.subtitle matches Some(s) && s@ == SUBTITLE@
                &&& trail_views(r.breadcrumbs@) == seq![("Cockpit"@, Some("/cockpit"@)), ("Sessions"@, None::<Seq<char>>)]
            },
        },
{
    let e = match episodes {
        Ok(e) => e,
        Err(reason) => return failed(Area::Sessions, "Sessions", reason.as_str()),
    };
    let body = el("div").class("mj-grid").child(
        el("div").class("mj-stats").child(
            statistic(decimal(e.episodes.len()).as_str(), "open episodes", "lifecycle.episodes"),
        ),
    ).child(episodes_card(&e)).child(
        el("p").class("mj-note").child(link("/cockpit/continuity", "What this checkout's own episode is holding")),
    );
    let mut trail: Vec<(&str, Option<&str>)> = Vec::new();
    trail.push(("Cockpit", Some("/cockpit")));
    trail.push(("Sessions", None));
    assert(given_trail(trail@) =~= seq![("Cockpit"@, Some("/cockpit"@)), ("Sessions"@, None::<Seq<char>>)]);
    Page::new(Area::Sessions, "Sessions", body).subtitle(SUBTITLE).trail(trail)
}

} // verus!
