//! The plan and the board, as pages: the pieces every such page is laid out from.
//!
//! A plan value is shown as the capability answered it, with where it came from; a value
//! nobody could answer says so with its reason, and is never an empty cell. The board
//! names every session the way a person recognises it, reads its ages at a glance, and
//! resolves the near side of a collision out of the very answer that reported it.

use vstd::prelude::*;

use crate::command::activate::{starts, starts_with};
use crate::strings::{decimal_of, push_decimal, push_decimal_u64, push_str, str_eq, views};
use crate::url::{percent_encode, percent_encoded};

pub use super::sessions::sessions;

use super::html::{bare, el, with_attr, with_child, with_children, El, ElementModel, Node, NodeModel};
use super::view::{
    alert, alert_model, badge, badge_model, card_with, card_with_model, cell, facts, facts_model, mono, nothing,
    row, rows_model, table, table_model,
};

verus! {

broadcast use super::html::lemma_element_node;

// ------------------------------------------------------------------ the plan

/// Where one issue of the plan is shown.
pub open spec fn issue_href_of(id: Seq<char>) -> Seq<char> {
    "/cockpit/plan/issues/"@ + percent_encoded(id)
}

/// Where one milestone of the plan is shown.
pub open spec fn milestone_href_of(id: Seq<char>) -> Seq<char> {
    "/cockpit/plan/milestones/"@ + percent_encoded(id)
}

/// Where one issue of the plan is shown.
pub fn issue_href(id: &str) -> (r: String)
    ensures
        r@ == issue_href_of(id@),
{
    let mut out = String::from_str("/cockpit/plan/issues/");
    let e = percent_encode(id);
    push_str(&mut out, e.as_str());
    out
}

/// Where one milestone of the plan is shown.
pub fn milestone_href(id: &str) -> (r: String)
    ensures
        r@ == milestone_href_of(id@),
{
    let mut out = String::from_str("/cockpit/plan/milestones/");
    let e = percent_encode(id);
    push_str(&mut out, e.as_str());
    out
}

/// Where a reference of the plan leads: a milestone gate, spelled `milestone:<id>` in a
/// list of issue ids, to the milestone; anything else to the issue.
pub open spec fn plan_target(id: Seq<char>) -> Seq<char> {
    if starts(id, "milestone:"@) {
        milestone_href_of(id.subrange("milestone:"@.len() as int, id.len() as int))
    } else {
        issue_href_of(id)
    }
}

/// A monospaced link.
pub open spec fn mono_link_model(href: Seq<char>, label: Seq<char>) -> ElementModel {
    with_child(with_attr(with_attr(bare("a"@), "class"@, "mj-link mj-mono"@), "href"@, href), NodeModel::Text(label))
}

/// The model of a reference to something of the plan.
pub open spec fn plan_ref_model(id: Seq<char>) -> ElementModel {
    mono_link_model(plan_target(id), id)
}

/// A reference to something of the plan, as a link.
pub fn plan_ref(id: &str) -> (r: El)
    ensures
        r@ == plan_ref_model(id@),
{
    let prefix = "milestone:";
    let href = if starts_with(id, prefix) {
        let n = id.unicode_len();
        milestone_href(id.substring_char(prefix.unicode_len(), n))
    } else {
        issue_href(id)
    };
    el("a").class("mj-link mj-mono").attr("href", href.as_str()).text(id)
}

/// The dash a list with nothing in it shows.
pub open spec fn dash_model() -> ElementModel {
    with_child(with_attr(bare("span"@), "class"@, "mj-muted"@), NodeModel::Text("—"@))
}

/// The model of a list of references.
pub open spec fn marks_model(children: Seq<NodeModel>) -> ElementModel {
    with_children(with_attr(bare("div"@), "class"@, "mj-marks"@), children)
}

/// A list of plan references, or a dash when there are none.
pub fn refs(ids: &[String]) -> (r: El)
    ensures
        ids@.len() == 0 ==> r@ == dash_model(),
        ids@.len() > 0 ==> r@ == marks_model(views(ids@).map_values(|i: Seq<char>| NodeModel::Element(plan_ref_model(i)))),
{
    if ids.len() == 0 {
        return el("span").class("mj-muted").text("—");
    }
    let mut out = el("div").class("mj-marks");
    let ghost base = out@;
    for i in 0..ids.len()
        invariant
            out@ == with_children(base, views(ids@.take(i as int)).map_values(|i: Seq<char>| NodeModel::Element(plan_ref_model(i)))),
    {
        let ghost before = out@;
        out = out.child(plan_ref(ids[i].as_str()));
        assert(views(ids@.take(i + 1)).map_values(|i: Seq<char>| NodeModel::Element(plan_ref_model(i))) =~= views(ids@.take(i as int)).map_values(
            |i: Seq<char>| NodeModel::Element(plan_ref_model(i)),
        ).push(NodeModel::Element(plan_ref_model(ids@[i as int]@))));
        assert(out@.children =~= base.children + views(ids@.take(i + 1)).map_values(|i: Seq<char>| NodeModel::Element(plan_ref_model(i))));
    }
    assert(ids@.take(ids@.len() as int) =~= ids@);
    out
}

/// A list of milestone ids, as links to the milestones.
pub fn milestone_refs(ids: &[String]) -> (r: El)
    ensures
        ids@.len() == 0 ==> r@ == dash_model(),
        ids@.len() > 0 ==> r@ == marks_model(
            views(ids@).map_values(|i: Seq<char>| NodeModel::Element(mono_link_model(milestone_href_of(i), i))),
        ),
{
    if ids.len() == 0 {
        return el("span").class("mj-muted").text("—");
    }
    let mut out = el("div").class("mj-marks");
    let ghost base = out@;
    for i in 0..ids.len()
        invariant
            out@ == with_children(
                base,
                views(ids@.take(i as int)).map_values(|i: Seq<char>| NodeModel::Element(mono_link_model(milestone_href_of(i), i))),
            ),
    {
        let href = milestone_href(ids[i].as_str());
        out = out.child(el("a").class("mj-link mj-mono").attr("href", href.as_str()).text(ids[i].as_str()));
        assert(views(ids@.take(i + 1)).map_values(|i: Seq<char>| NodeModel::Element(mono_link_model(milestone_href_of(i), i)))
            =~= views(ids@.take(i as int)).map_values(|i: Seq<char>| NodeModel::Element(mono_link_model(milestone_href_of(i), i))).push(
            NodeModel::Element(mono_link_model(milestone_href_of(ids@[i as int]@), ids@[i as int]@)),
        ));
        assert(out@.children =~= base.children + views(ids@.take(i + 1)).map_values(
            |i: Seq<char>| NodeModel::Element(mono_link_model(milestone_href_of(i), i)),
        ));
    }
    assert(ids@.take(ids@.len() as int) =~= ids@);
    out
}

// ------------------------------------------------------------------ attested values

/// A text value as the task records answered it: the value, or why there is none, and
/// where it came from.
#[derive(Debug, Clone, PartialEq, Eq)]
pub struct AttestedText {
    pub value: Option<String>,
    /// The provenance word: `explicit`, …, or `unknown` when nobody could answer.
    pub provenance: String,
    pub source: String,
    pub reason: Option<String>,
}

/// A count as the task records answered it.
#[derive(Debug, Clone, PartialEq, Eq)]
pub struct AttestedCount {
    pub value: Option<u64>,
    pub provenance: String,
    pub source: String,
    pub reason: Option<String>,
}

/// A list as the task records answered it.
#[derive(Debug, Clone, PartialEq, Eq)]
pub struct AttestedList {
    pub values: Vec<String>,
    pub provenance: String,
    pub source: String,
    pub reason: Option<String>,
}

/// What is shown for a value nobody could answer.
pub open spec fn unknown_model(reason: Option<Seq<char>>) -> ElementModel {
    with_child(
        with_attr(bare("span"@), "class"@, "mj-note"@),
        NodeModel::Text(
            match reason {
                Some(r) => "unknown: "@ + r,
                None => "unknown"@,
            },
        ),
    )
}

/// What is shown for a value nobody could answer: the word and the reason. Never an empty
/// cell, because an empty value and a record with no value are different facts.
pub fn unknown(reason: Option<&str>) -> (r: El)
    ensures
        r@ == unknown_model(
            match reason {
                Some(t) => Some(t@),
                None => None,
            },
        ),
{
    match reason {
        Some(t) => {
            let mut s = String::from_str("unknown: ");
            push_str(&mut s, t);
            el("span").class("mj-note").text(s.as_str())
        },
        None => el("span").class("mj-note").text("unknown"),
    }
}

fn opt_str(o: &Option<String>) -> (r: Option<&str>)
    ensures
        match r {
            Some(t) => o matches Some(s) && t@ == s@,
            None => o is None,
        },
{
    match o {
        Some(s) => Some(s.as_str()),
        None => None,
    }
}

/// Where a value came from, on hover: its provenance and its source.
pub open spec fn provenance_title_of(provenance: Seq<char>, source: Seq<char>) -> Seq<char> {
    provenance + " · "@ + source
}

/// Where a value came from, on hover.
pub fn provenance_title(provenance: &str, source: &str) -> (r: String)
    ensures
        r@ == provenance_title_of(provenance@, source@),
{
    let mut out = String::from_str(provenance);
    push_str(&mut out, " · ");
    push_str(&mut out, source);
    out
}

/// A text value as shown: the value with where it came from, or unknown with the reason.
pub fn attested_text(value: &AttestedText) -> (r: Node)
    ensures
        r@ == NodeModel::Element(
            match value.value {
                Some(v) => with_child(
                    with_attr(bare("span"@), "title"@, provenance_title_of(value.provenance@, value.source@)),
                    NodeModel::Text(v@),
                ),
                None => unknown_model(crate::cockpit::nav::opt_text(value.reason)),
            },
        ),
{
    match &value.value {
        Some(v) => {
            let title = provenance_title(value.provenance.as_str(), value.source.as_str());
            Node::Element(el("span").attr("title", title.as_str()).text(v.as_str()))
        },
        None => Node::Element(unknown(opt_str(&value.reason))),
    }
}

/// A count as shown.
pub fn attested_count(value: &AttestedCount) -> (r: Node)
    ensures
        r@ == NodeModel::Element(
            match value.value {
                Some(n) => with_attr(
                    with_child(with_attr(bare("code"@), "class"@, "mj-mono"@), NodeModel::Text(decimal_of(n as nat))),
                    "title"@,
                    provenance_title_of(value.provenance@, value.source@),
                ),
                None => unknown_model(crate::cockpit::nav::opt_text(value.reason)),
            },
        ),
{
    match value.value {
        Some(n) => {
            let mut digits = String::new();
            push_decimal_u64(&mut digits, n);
            assert(digits@ =~= decimal_of(n as nat));
            let title = provenance_title(value.provenance.as_str(), value.source.as_str());
            Node::Element(mono(digits.as_str()).attr("title", title.as_str()))
        },
        None => Node::Element(unknown(opt_str(&value.reason))),
    }
}

/// Did nobody answer this value?
pub open spec fn unanswered(provenance: Seq<char>) -> bool {
    provenance == "unknown"@
}

/// A list as shown, each value laid out by `render`. An empty list the record declared is
/// "none"; an empty list nobody could read is unknown, with the reason.
pub fn attested_list<F: Fn(&String) -> El>(value: &AttestedList, render: F) -> (r: Node)
    requires
        forall|i: int| 0 <= i < value.values@.len() ==> render.requires((&value.values@[i],)),
    ensures
        value.values@.len() == 0 ==> r@ == NodeModel::Element(
            if unanswered(value.provenance@) {
                unknown_model(crate::cockpit::nav::opt_text(value.reason))
            } else {
                with_child(with_attr(bare("span"@), "class"@, "mj-muted"@), NodeModel::Text("none"@))
            },
        ),
        value.values@.len() > 0 ==> exists|shown: Seq<El>|
            #![trigger shown.len()]
            {
                &&& shown.len() == value.values@.len()
                &&& (forall|i: int| 0 <= i < shown.len() ==> render.ensures((&value.values@[i],), #[trigger] shown[i]))
                &&& r@ == NodeModel::Element(
                    with_children(
                        with_attr(
                            with_attr(bare("div"@), "class"@, "mj-marks"@),
                            "title"@,
                            provenance_title_of(value.provenance@, value.source@),
                        ),
                        shown.map_values(|c: El| NodeModel::Element(c@)),
                    ),
                )
            },
{
    if value.values.len() == 0 {
        if str_eq(value.provenance.as_str(), "unknown") {
            return Node::Element(unknown(opt_str(&value.reason)));
        }
        return Node::Element(el("span").class("mj-muted").text("none"));
    }
    let title = provenance_title(value.provenance.as_str(), value.source.as_str());
    let mut out = el("div").class("mj-marks").attr("title", title.as_str());
    let ghost base = out@;
    let ghost mut shown: Seq<El> = seq![];
    for i in 0..value.values.len()
        invariant
            forall|j: int| 0 <= j < value.values@.len() ==> render.requires((&value.values@[j],)),
            shown.len() == i,
            forall|j: int| 0 <= j < i ==> render.ensures((&value.values@[j],), #[trigger] shown[j]),
            out@ == with_children(base, shown.map_values(|c: El| NodeModel::Element(c@))),
    {
        let c = render(&value.values[i]);
        proof {
            shown = shown.push(c);
        }
        out = out.child(c);
        assert(out@.children =~= base.children + shown.map_values(|c: El| NodeModel::Element(c@)));
    }
    Node::Element(out)
}

/// A list of sentences as a checklist, or what an empty one means.
pub fn attested_sentences(value: &AttestedList) -> (r: El)
    ensures
        value.values@.len() == 0 ==> r@ == (if unanswered(value.provenance@) {
            unknown_model(crate::cockpit::nav::opt_text(value.reason))
        } else {
            with_child(with_attr(bare("p"@), "class"@, "mj-empty"@), NodeModel::Text("The record declares none."@))
        }),
        value.values@.len() > 0 ==> r@ == with_children(
            with_attr(bare("ul"@), "class"@, "mj-checklist"@),
            views(value.values@).map_values(
                |v: Seq<char>| NodeModel::Element(with_child(with_attr(bare("li"@), "class"@, "mj-checklist-item"@), NodeModel::Text(v))),
            ),
        ),
{
    if value.values.len() == 0 {
        if str_eq(value.provenance.as_str(), "unknown") {
            return unknown(opt_str(&value.reason));
        }
        return nothing("The record declares none.");
    }
    let mut out = el("ul").class("mj-checklist");
    let ghost base = out@;
    let ghost f = |v: Seq<char>| NodeModel::Element(with_child(with_attr(bare("li"@), "class"@, "mj-checklist-item"@), NodeModel::Text(v)));
    for i in 0..value.values.len()
        invariant
            f == (|v: Seq<char>| NodeModel::Element(with_child(with_attr(bare("li"@), "class"@, "mj-checklist-item"@), NodeModel::Text(v)))),
            out@ == with_children(base, views(value.values@.take(i as int)).map_values(f)),
    {
        out = out.child(el("li").class("mj-checklist-item").text(value.values[i].as_str()));
        assert(views(value.values@.take(i + 1)).map_values(f) =~= views(value.values@.take(i as int)).map_values(f).push(
            f(value.values@[i as int]@),
        ));
        assert(out@.children =~= base.children + views(value.values@.take(i + 1)).map_values(f));
    }
    assert(value.values@.take(value.values@.len() as int) =~= value.values@);
    out
}

// ------------------------------------------------------------------ moves

/// A move an issue of the plan can make, as the transition capability takes it.
#[derive(Debug, Clone, Copy, PartialEq, Eq, Structural)]
pub enum Transition {
    Start,
    Verify,
    Done,
}

impl Transition {
    /// The word the capability takes for the move.
    pub fn word(self) -> (r: &'static str)
        ensures
            r@ == transition_word(self),
    {
        match self {
            Transition::Start => "start",
            Transition::Verify => "verify",
            Transition::Done => "done",
        }
    }
}

/// The word of a move.
pub open spec fn transition_word(t: Transition) -> Seq<char> {
    match t {
        Transition::Start => "start"@,
        Transition::Verify => "verify"@,
        Transition::Done => "done"@,
    }
}

/// The moves an issue page offers, as the words the capability takes, in order.
pub fn move_words() -> (r: Vec<String>)
    ensures
        views(r@) == seq![transition_word(Transition::Start), transition_word(Transition::Verify), transition_word(Transition::Done)],
{
    let mut out: Vec<String> = Vec::new();
    out.push(String::from_str(Transition::Start.word()));
    out.push(String::from_str(Transition::Verify.word()));
    out.push(String::from_str(Transition::Done.word()));
    assert(views(out@) =~= seq![transition_word(Transition::Start), transition_word(Transition::Verify), transition_word(Transition::Done)]);
    out
}

// ------------------------------------------------------------------ the board

/// Where a checkout's server stands.
#[derive(Debug, Clone, Copy, PartialEq, Eq, Structural)]
pub enum ServerStanding {
    Absent,
    Starting,
    Ready,
    Outdated,
    Stale,
}

impl ServerStanding {
    /// The standing's own word.
    pub fn as_str(self) -> (r: &'static str)
        ensures
            r@ == standing_word(self),
    {
        match self {
            ServerStanding::Absent => "absent",
            ServerStanding::Starting => "starting",
            ServerStanding::Ready => "ready",
            ServerStanding::Outdated => "outdated",
            ServerStanding::Stale => "stale",
        }
    }
}

/// The word of a standing.
pub open spec fn standing_word(s: ServerStanding) -> Seq<char> {
    match s {
        ServerStanding::Absent => "absent"@,
        ServerStanding::Starting => "starting"@,
        ServerStanding::Ready => "ready"@,
        ServerStanding::Outdated => "outdated"@,
        ServerStanding::Stale => "stale"@,
    }
}

/// The status word a standing wears.
pub open spec fn standing_status(s: ServerStanding) -> Seq<char> {
    match s {
        ServerStanding::Ready => "ok"@,
        ServerStanding::Starting => "info"@,
        ServerStanding::Outdated => "warn"@,
        ServerStanding::Stale => "fail"@,
        ServerStanding::Absent => "neutral"@,
    }
}

/// The declared status word a server standing wears, so a badge is coloured by the
/// design's vocabulary: nothing serving a checkout is the ordinary state of a worktree
/// nobody is working in, and no fault.
pub fn server_status(standing: ServerStanding) -> (r: &'static str)
    ensures
        r@ == standing_status(standing),
{
    match standing {
        ServerStanding::Ready => "ok",
        ServerStanding::Starting => "info",
        ServerStanding::Outdated => "warn",
        ServerStanding::Stale => "fail",
        ServerStanding::Absent => "neutral",
    }
}

/// What a session announced it is doing.
#[derive(Debug, Clone, PartialEq, Eq)]
pub struct Announcement {
    pub intent: String,
    /// The ground it claimed, as paths.
    pub scope: Vec<String>,
    /// When it said so.
    pub at: String,
}

/// A session attached to the shared server, as the board lists one.
#[derive(Debug, Clone, PartialEq, Eq)]
pub struct Peer {
    /// The board's id for it.
    pub id: String,
    /// The name of the client behind it.
    pub client: String,
    pub attached: bool,
    pub announcement: Option<Announcement>,
    /// The client's version, empty when it gave none.
    pub client_version: String,
    /// The client's title, when it gave one.
    pub client_title: Option<String>,
    /// How it is attached, as its word.
    pub transport: String,
    /// When it attached.
    pub connected_at: String,
    /// How long ago it was last seen, in seconds.
    pub last_seen_seconds_ago: u64,
}

/// Two claims that meet: this side's and the other side's.
#[derive(Debug, Clone, PartialEq, Eq)]
pub struct OverlapPath {
    pub yours: String,
    pub theirs: String,
}

/// A collision as the board reports it: the far peer, whether both are still attached,
/// its intent, and every pair of claims that meet.
#[derive(Debug, Clone, PartialEq, Eq)]
pub struct Overlap {
    pub peer: String,
    pub attached: bool,
    pub intent: String,
    pub paths: Vec<OverlapPath>,
}

/// How a peer is named: the board's id and the client behind it.
pub open spec fn peer_label_of(p: Peer) -> Seq<char> {
    p.id@ + " "@ + p.client@
}

/// How a peer is named wherever the board names one.
pub fn peer_label(peer: &Peer) -> (r: String)
    ensures
        r@ == peer_label_of(*peer),
{
    let mut out = String::from_str(peer.id.as_str());
    push_str(&mut out, " ");
    push_str(&mut out, peer.client.as_str());
    out
}

/// How long ago, in the coarsest unit that still says something.
pub open spec fn ago_of(seconds: nat) -> Seq<char> {
    if seconds == 0 {
        "just now"@
    } else if seconds <= 90 {
        decimal_of(seconds) + "s ago"@
    } else if seconds <= 5400 {
        decimal_of(seconds / 60) + "m ago"@
    } else if seconds <= 172800 {
        decimal_of(seconds / 3600) + "h ago"@
    } else {
        decimal_of(seconds / 86400) + "d ago"@
    }
}

/// How long ago, in the coarsest unit that still says something: a board is read at a
/// glance, and the seconds of an hour-old session are noise on it.
pub fn ago(seconds: u64) -> (r: String)
    ensures
        r@ == ago_of(seconds as nat),
{
    if seconds == 0 {
        return String::from_str("just now");
    }
    let (n, unit) = if seconds <= 90 {
        (seconds, "s ago")
    } else if seconds <= 5400 {
        (seconds / 60, "m ago")
    } else if seconds <= 172800 {
        (seconds / 3600, "h ago")
    } else {
        (seconds / 86400, "d ago")
    };
    let mut out = String::new();
    push_decimal_u64(&mut out, n);
    push_str(&mut out, unit);
    assert(out@ =~= ago_of(seconds as nat));
    out
}

/// Does a peer's own announcement hold every claim on the near side of an overlap?
pub open spec fn holds_near_side(p: Peer, overlap: Overlap) -> bool {
    &&& p.id@ != overlap.peer@
    &&& p.announcement matches Some(a) && forall|k: int|
        0 <= k < overlap.paths@.len() ==> views(a.scope@).contains(#[trigger] overlap.paths@[k].yours@)
}

/// The first peer, in listing order, that holds the near side of an overlap.
pub open spec fn near_at(peers: Seq<Peer>, overlap: Overlap) -> int
    decreases peers.len(),
{
    if peers.len() == 0 {
        0
    } else if holds_near_side(peers[0], overlap) {
        0
    } else {
        1 + near_at(peers.drop_first(), overlap)
    }
}

proof fn lemma_near_at(peers: Seq<Peer>, overlap: Overlap, k: int)
    requires
        0 <= k <= peers.len(),
        forall|j: int| 0 <= j < k ==> !holds_near_side(#[trigger] peers[j], overlap),
        k < peers.len() ==> holds_near_side(peers[k], overlap),
    ensures
        near_at(peers, overlap) == k,
    decreases k,
{
    if k > 0 {
        let t = peers.drop_first();
        assert forall|j: int| 0 <= j < k - 1 implies !holds_near_side(#[trigger] t[j], overlap) by {
            assert(t[j] == peers[j + 1]);
        }
        if k < peers.len() {
            assert(t[k - 1] == peers[k]);
        }
        assert(!holds_near_side(peers[0], overlap));
        lemma_near_at(t, overlap, k - 1);
    }
}

fn scope_holds(scope: &Vec<String>, path: &str) -> (r: bool)
    ensures
        r == views(scope@).contains(path@),
{
    let mut i: usize = 0;
    while i < scope.len()
        invariant
            i <= scope@.len(),
            forall|j: int| 0 <= j < i ==> scope@[j]@ != path@,
        decreases scope.len() - i,
    {
        if str_eq(scope[i].as_str(), path) {
            assert(views(scope@)[i as int] == path@);
            return true;
        }
        i += 1;
    }
    proof {
        if views(scope@).contains(path@) {
            let j = choose|j: int| 0 <= j < views(scope@).len() && views(scope@)[j] == path@;
            assert(scope@[j]@ == path@);
        }
    }
    false
}

fn holds_all(a: &Announcement, overlap: &Overlap) -> (r: bool)
    ensures
        r == forall|k: int| 0 <= k < overlap.paths@.len() ==> views(a.scope@).contains(#[trigger] overlap.paths@[k].yours@),
{
    let mut k: usize = 0;
    while k < overlap.paths.len()
        invariant
            k <= overlap.paths@.len(),
            forall|j: int| 0 <= j < k ==> views(a.scope@).contains(#[trigger] overlap.paths@[j].yours@),
        decreases overlap.paths.len() - k,
    {
        if !scope_holds(&a.scope, overlap.paths[k].yours.as_str()) {
            return false;
        }
        k += 1;
    }
    true
}

/// Which listed peer holds the near side of an overlap: the first, other than the far
/// peer, whose own announcement holds every claim on this side. A claim no listed
/// announcement holds resolves to nobody, never to a guess.
pub fn near_side<'a>(peers: &'a [Peer], overlap: &Overlap) -> (r: Option<&'a Peer>)
    ensures
        near_at(peers@, *overlap) < peers@.len() ==> r == Some(&peers@[near_at(peers@, *overlap)]),
        near_at(peers@, *overlap) >= peers@.len() ==> r is None,
{
    let mut i: usize = 0;
    while i < peers.len()
        invariant
            i <= peers@.len(),
            forall|j: int| 0 <= j < i ==> !holds_near_side(#[trigger] peers@[j], *overlap),
        decreases peers.len() - i,
    {
        let p = &peers[i];
        let holds = !str_eq(p.id.as_str(), overlap.peer.as_str()) && match &p.announcement {
            Some(a) => holds_all(a, overlap),
            None => false,
        };
        if holds {
            proof {
                lemma_near_at(peers@, *overlap, i as int);
            }
            return Some(p);
        }
        i += 1;
    }
    proof {
        lemma_near_at(peers@, *overlap, peers@.len() as int);
    }
    None
}

/// The model of what a session announced, as a cell.
pub open spec fn announcement_model(p: Peer) -> ElementModel {
    match p.announcement {
        Some(a) => {
            let head = with_child(
                bare("div"@),
                NodeModel::Element(with_child(with_attr(bare("p"@), "class"@, "mj-prose"@), NodeModel::Text(a.intent@))),
            );
            let claimed = if a.scope@.len() > 0 {
                with_child(
                    head,
                    NodeModel::Element(
                        with_children(
                            with_attr(bare("div"@), "class"@, "mj-marks"@),
                            views(a.scope@).map_values(
                                |s: Seq<char>| NodeModel::Element(with_child(with_attr(bare("code"@), "class"@, "mj-mono"@), NodeModel::Text(s))),
                            ),
                        ),
                    ),
                )
            } else {
                head
            };
            with_child(
                claimed,
                NodeModel::Element(with_child(with_attr(bare("p"@), "class"@, "mj-note"@), NodeModel::Text("announced "@ + a.at@))),
            )
        },
        None => with_child(with_attr(bare("p"@), "class"@, "mj-empty"@), NodeModel::Text("said nothing"@)),
    }
}

/// One peer's announcement as a cell: what it said it is doing, the ground it claimed, and
/// when. A peer that has announced nothing says so: a silent session is what the board
/// exists to make visible.
pub fn announcement_cell(peer: &Peer) -> (r: El)
    ensures
        r@ == announcement_model(*peer),
{
    match &peer.announcement {
        Some(a) => {
            let mut d = el("div").child(el("p").class("mj-prose").text(a.intent.as_str()));
            if a.scope.len() > 0 {
                let mut marks = el("div").class("mj-marks");
                let ghost base = marks@;
                let ghost f = |s: Seq<char>| NodeModel::Element(with_child(with_attr(bare("code"@), "class"@, "mj-mono"@), NodeModel::Text(s)));
                for i in 0..a.scope.len()
                    invariant
                        f == (|s: Seq<char>| NodeModel::Element(with_child(with_attr(bare("code"@), "class"@, "mj-mono"@), NodeModel::Text(s)))),
                        marks@ == with_children(base, views(a.scope@.take(i as int)).map_values(f)),
                {
                    marks = marks.child(mono(a.scope[i].as_str()));
                    assert(views(a.scope@.take(i + 1)).map_values(f) =~= views(a.scope@.take(i as int)).map_values(f).push(
                        f(a.scope@[i as int]@),
                    ));
                    assert(marks@.children =~= base.children + views(a.scope@.take(i + 1)).map_values(f));
                }
                assert(a.scope@.take(a.scope@.len() as int) =~= a.scope@);
                d = d.child(marks);
            }
            let mut note = String::from_str("announced ");
            push_str(&mut note, a.at.as_str());
            d.child(el("p").class("mj-note").text(note.as_str()))
        },
        None => nothing("said nothing"),
    }
}

/// The lease of a checkout's server, as the status capability answers it.
#[derive(Debug, Clone, PartialEq, Eq)]
pub struct LeaseView {
    pub pid: u32,
    pub url: Option<String>,
    pub started_at: String,
    /// The executable it names, as a path, when the lease carries one.
    pub executable: Option<String>,
    pub version: Option<String>,
}

/// A note in place of a fact.
pub open spec fn note_model(t: Seq<char>) -> ElementModel {
    with_child(with_attr(bare("span"@), "class"@, "mj-note"@), NodeModel::Text(t))
}

/// A monospaced fact.
pub open spec fn mono_model(t: Seq<char>) -> ElementModel {
    with_child(with_attr(bare("code"@), "class"@, "mj-mono"@), NodeModel::Text(t))
}

/// The facts of a lease.
pub open spec fn lease_rows(l: LeaseView) -> Seq<(Seq<char>, NodeModel)> {
    seq![
        ("Address"@, NodeModel::Element(match l.url { Some(u) => mono_model(u@), None => note_model("not bound yet"@) })),
        ("Process"@, NodeModel::Element(mono_model(decimal_of(l.pid as nat)))),
        (
            "Version"@,
            NodeModel::Element(
                match l.version {
                    Some(v) => mono_model(v@),
                    None => note_model("written by a server too old to record one"@),
                },
            ),
        ),
        ("Taken"@, NodeModel::Element(mono_model(l.started_at@))),
        ("Executable"@, NodeModel::Element(match l.executable { Some(e) => mono_model(e@), None => note_model("not recorded"@) })),
    ]
}

/// The lease a reader is being shown, as facts; a checkout with no lease says so rather
/// than rendering an empty list.
pub fn lease_facts(lease: Option<&LeaseView>) -> (r: El)
    ensures
        match lease {
            None => r@ == with_child(
                with_attr(bare("p"@), "class"@, "mj-empty"@),
                NodeModel::Text("No lease: nothing has taken this checkout's server."@),
            ),
            Some(l) => r@ == facts_model(lease_rows(*l)),
        },
{
    let l = match lease {
        Some(l) => l,
        None => return nothing("No lease: nothing has taken this checkout's server."),
    };
    let address = match &l.url {
        Some(u) => Node::Element(mono(u.as_str())),
        None => Node::Element(el("span").class("mj-note").text("not bound yet")),
    };
    let pid = crate::strings::decimal(l.pid as usize);
    let version = match &l.version {
        Some(v) => Node::Element(mono(v.as_str())),
        None => Node::Element(el("span").class("mj-note").text("written by a server too old to record one")),
    };
    let executable = match &l.executable {
        Some(e) => Node::Element(mono(e.as_str())),
        None => Node::Element(el("span").class("mj-note").text("not recorded")),
    };
    let rows = vec![
        ("Address", address),
        ("Process", Node::Element(mono(pid.as_str()))),
        ("Version", version),
        ("Taken", Node::Element(mono(l.started_at.as_str()))),
        ("Executable", executable),
    ];
    proof {
        reveal_strlit("Address");
        reveal_strlit("Process");
        reveal_strlit("Version");
        reveal_strlit("Taken");
        reveal_strlit("Executable");
    }
    assert(rows_model(rows@) =~= lease_rows(*l));
    facts(rows)
}


/// The first listed peer with an id, or the count.
pub open spec fn peer_at(peers: Seq<Peer>, id: Seq<char>) -> int
    decreases peers.len(),
{
    if peers.len() == 0 {
        0
    } else if peers[0].id@ == id {
        0
    } else {
        1 + peer_at(peers.drop_first(), id)
    }
}

proof fn lemma_peer_at(peers: Seq<Peer>, id: Seq<char>, k: int)
    requires
        0 <= k <= peers.len(),
        forall|j: int| 0 <= j < k ==> (#[trigger] peers[j]).id@ != id,
        k < peers.len() ==> peers[k].id@ == id,
    ensures
        peer_at(peers, id) == k,
    decreases k,
{
    if k > 0 {
        let t = peers.drop_first();
        assert forall|j: int| 0 <= j < k - 1 implies (#[trigger] t[j]).id@ != id by {
            assert(t[j] == peers[j + 1]);
        }
        if k < peers.len() {
            assert(t[k - 1] == peers[k]);
        }
        assert(peers[0].id@ != id);
        lemma_peer_at(t, id, k - 1);
    }
}

/// How the near side of a collision is named.
pub open spec fn near_name_of(peers: Seq<Peer>, overlap: Overlap) -> Seq<char> {
    let k = near_at(peers, overlap);
    if k < peers.len() {
        peer_label_of(peers[k])
    } else {
        "a session no longer on the board"@
    }
}

/// How the far side of a collision is named.
pub open spec fn far_name_of(peers: Seq<Peer>, overlap: Overlap) -> Seq<char> {
    let k = peer_at(peers, overlap.peer@);
    if k < peers.len() {
        peer_label_of(peers[k])
    } else {
        overlap.peer@
    }
}

/// The claims that meet, one row each.
pub open spec fn claim_rows(paths: Seq<OverlapPath>) -> Seq<NodeModel> {
    paths.map_values(
        |p: OverlapPath| NodeModel::Element(
            ElementModel {
                children: seq![
                    NodeModel::Element(with_child(bare("td"@), NodeModel::Element(mono_model(p.yours@)))),
                    NodeModel::Element(with_child(bare("td"@), NodeModel::Element(mono_model(p.theirs@)))),
                ],
                ..bare("tr"@)
            },
        ),
    )
}

/// A paragraph of prose.
pub open spec fn prose_model(t: Seq<char>) -> ElementModel {
    with_child(with_attr(bare("p"@), "class"@, "mj-prose"@), NodeModel::Text(t))
}

/// The model of one collision.
pub open spec fn collision_model(peers: Seq<Peer>, overlap: Overlap) -> ElementModel {
    let near = near_at(peers, overlap);
    let near_name = near_name_of(peers, overlap);
    let far_name = far_name_of(peers, overlap);
    let warned = with_child(
        bare("div"@),
        NodeModel::Element(
            alert_model(
                "fail"@,
                decimal_of(overlap.paths@.len()) + " claim(s) meet. Two sessions have said they will touch the same ground; whichever commits second finds out."@,
            ),
        ),
    );
    let with_near = if near < peers.len() {
        with_child(
            warned,
            NodeModel::Element(prose_model(near_name + ": "@ + peers[near].announcement->0.intent@)),
        )
    } else {
        warned
    };
    let body = with_child(
        with_child(with_near, NodeModel::Element(prose_model(far_name + ": "@ + overlap.intent@))),
        NodeModel::Element(table_model(seq![near_name + " claims"@, far_name + " claims"@], claim_rows(overlap.paths@))),
    );
    card_with_model(
        near_name + " and "@ + far_name,
        if overlap.attached {
            badge_model("blocked"@, "both attached"@)
        } else {
            badge_model("warn"@, "one has left"@)
        },
        body,
    )
}

fn far_peer<'a>(peers: &'a [Peer], id: &str) -> (r: Option<&'a Peer>)
    ensures
        peer_at(peers@, id@) < peers@.len() ==> r == Some(&peers@[peer_at(peers@, id@)]),
        peer_at(peers@, id@) >= peers@.len() ==> r is None,
{
    let mut i: usize = 0;
    while i < peers.len()
        invariant
            i <= peers@.len(),
            forall|j: int| 0 <= j < i ==> (#[trigger] peers@[j]).id@ != id@,
        decreases peers.len() - i,
    {
        if str_eq(peers[i].id.as_str(), id) {
            proof {
                lemma_peer_at(peers@, id@, i as int);
            }
            return Some(&peers[i]);
        }
        i += 1;
    }
    proof {
        lemma_peer_at(peers@, id@, peers@.len() as int);
    }
    None
}

proof fn lemma_near_at_bound(peers: Seq<Peer>, overlap: Overlap)
    ensures
        0 <= near_at(peers, overlap) <= peers.len(),
        near_at(peers, overlap) < peers.len() ==> holds_near_side(peers[near_at(peers, overlap)], overlap),
    decreases peers.len(),
{
    if peers.len() > 0 && !holds_near_side(peers[0], overlap) {
        lemma_near_at_bound(peers.drop_first(), overlap);
        if near_at(peers, overlap) < peers.len() {
            assert(peers[near_at(peers, overlap)] == peers.drop_first()[near_at(peers, overlap) - 1]);
        }
    }
}

proof fn lemma_peer_at_bound(peers: Seq<Peer>, id: Seq<char>)
    ensures
        0 <= peer_at(peers, id) <= peers.len(),
    decreases peers.len(),
{
    if peers.len() > 0 && peers[0].id@ != id {
        lemma_peer_at_bound(peers.drop_first(), id);
    }
}

/// One collision, rendered so that a reader who scrolls past everything else still sees
/// it: both sessions named, both intents quoted, and every pair of claims that meet.
pub fn collision(peers: &[Peer], overlap: &Overlap) -> (r: El)
    ensures
        r@ == collision_model(peers@, *overlap),
{
    proof {
        lemma_near_at_bound(peers@, *overlap);
        lemma_peer_at_bound(peers@, overlap.peer@);
    }
    let near = near_side(peers, overlap);
    let near_name = match near {
        Some(p) => peer_label(p),
        None => String::from_str("a session no longer on the board"),
    };
    let far_name = match far_peer(peers, overlap.peer.as_str()) {
        Some(p) => peer_label(p),
        None => String::from_str(overlap.peer.as_str()),
    };
    let mut near_claims = String::from_str(near_name.as_str());
    push_str(&mut near_claims, " claims");
    let mut far_claims = String::from_str(far_name.as_str());
    push_str(&mut far_claims, " claims");
    let mut rows: Vec<El> = Vec::new();
    for i in 0..overlap.paths.len()
        invariant
            super::html::els_model(rows@) == claim_rows(overlap.paths@.take(i as int)),
    {
        let p = &overlap.paths[i];
        let mut cells: Vec<El> = Vec::new();
        cells.push(cell(mono(p.yours.as_str())));
        cells.push(cell(mono(p.theirs.as_str())));
        assert(super::html::els_model(cells@) =~= seq![
            NodeModel::Element(with_child(bare("td"@), NodeModel::Element(mono_model(p.yours@)))),
            NodeModel::Element(with_child(bare("td"@), NodeModel::Element(mono_model(p.theirs@)))),
        ]);
        rows.push(row(cells));
        assert(claim_rows(overlap.paths@.take(i + 1)) =~= claim_rows(overlap.paths@.take(i as int)).push(claim_rows(overlap.paths@)[i as int]));
        assert(super::html::els_model(rows@) =~= super::html::els_model(rows@.drop_last()).push(NodeModel::Element(rows@.last()@)));
    }
    assert(overlap.paths@.take(overlap.paths@.len() as int) =~= overlap.paths@);
    let mut count = String::new();
    push_decimal(&mut count, overlap.paths.len());
    push_str(&mut count, " claim(s) meet. Two sessions have said they will touch the same ground; whichever commits second finds out.");
    let mut body = el("div").child(alert("fail", count.as_str()));
    match near {
        Some(p) => {
            let mut line = String::from_str(near_name.as_str());
            push_str(&mut line, ": ");
            match &p.announcement {
                Some(a) => push_str(&mut line, a.intent.as_str()),
                None => {},
            }
            body = body.child(el("p").class("mj-prose").text(line.as_str()));
        },
        None => {},
    }
    let mut far_line = String::from_str(far_name.as_str());
    push_str(&mut far_line, ": ");
    push_str(&mut far_line, overlap.intent.as_str());
    body = body.child(el("p").class("mj-prose").text(far_line.as_str()));
    let headers = [near_claims.as_str(), far_claims.as_str()];
    assert(super::view::strs_model(headers@) =~= seq![near_claims@, far_claims@]);
    body = body.child(table(&headers, rows));
    let mut title = String::from_str(near_name.as_str());
    push_str(&mut title, " and ");
    push_str(&mut title, far_name.as_str());
    let aside = if overlap.attached { badge("blocked", "both attached") } else { badge("warn", "one has left") };
    card_with(title.as_str(), aside, body)
}
} // verus!
