//! The board: who else is working in this repository, what each of them announced, where
//! two of them are about to collide, and which checkout has a server. Every standing is a
//! word the peer list or the server status decided.

use vstd::prelude::*;

use crate::strings::{decimal, decimal_of, push_str};

use super::frame::{classed, holding, saying};
use super::html::{bare, el, els_model, with_children, El, ElementModel, Node, NodeModel};
use super::milestones::{word_el, word_model};
use super::nav::Area;
use super::pages::{failed, failed_body, given_trail, trail_views, Page};
use super::surfaces::{cell_of, mono_model};
use super::view::{
    badge, badge_model, card, card_model, card_with, card_with_model, cell, details, details_model, facts, facts_model,
    link, link_model, mono, nothing, row, rows_model, statistic, statistic_model, strs_model, table, table_model, tag,
    tag_model, text_cell,
};
use super::work::{
    ago, ago_of, announcement_cell, announcement_model, collision, collision_model, lease_facts, lease_rows,
    server_status, standing_status, standing_word, LeaseView, Overlap, Peer, ServerStanding,
};

verus! {

broadcast use super::html::lemma_element_node;

/// What the peer list answered.
#[derive(Debug, Clone, PartialEq, Eq)]
pub struct PeerList {
    /// How many sessions are attached.
    pub count: usize,
    /// Every session.
    pub peers: Vec<Peer>,
    /// Every pair of claims that meet.
    pub overlaps: Vec<Overlap>,
}

/// One checkout of the repository and its server.
#[derive(Debug, Clone, PartialEq, Eq)]
pub struct ServerView {
    /// Where its server stands.
    pub standing: ServerStanding,
    /// The checkout.
    pub worktree: String,
    /// Whether it is the primary checkout.
    pub primary: bool,
    /// Whether it is this one.
    pub this_checkout: bool,
    /// Its branch, unless detached.
    pub branch: Option<String>,
    /// How many sessions its server has, when it was asked.
    pub peers: Option<usize>,
    /// Its lease, when it has one.
    pub lease: Option<LeaseView>,
    /// Why it stands where it stands, when something says.
    pub reason: Option<String>,
}

/// What the server status answered.
#[derive(Debug, Clone, PartialEq, Eq)]
pub struct ServerStatus {
    /// Where this checkout's server stands.
    pub standing: ServerStanding,
    /// Every checkout.
    pub servers: Vec<ServerView>,
    /// The lease this process holds, when it holds one.
    pub this_process: Option<LeaseView>,
    /// This checkout's id.
    pub checkout_id: String,
    /// The repository's id, when git can be asked.
    pub git_id: Option<String>,
    /// The host this executable would bind.
    pub desired_host: String,
    /// The port it would bind.
    pub desired_port: u16,
    /// The version it would answer as.
    pub desired_version: String,
}

// ------------------------------------------------------------------ counting

/// How many sessions have announced something.
pub open spec fn announced(peers: Seq<Peer>) -> nat
    decreases peers.len(),
{
    if peers.len() == 0 {
        0
    } else {
        announced(peers.drop_last()) + if peers.last().announcement is Some { 1nat } else { 0nat }
    }
}

/// How many servers are ready.
pub open spec fn ready_count(servers: Seq<ServerView>) -> nat
    decreases servers.len(),
{
    if servers.len() == 0 {
        0
    } else {
        ready_count(servers.drop_last()) + if servers.last().standing == ServerStanding::Ready { 1nat } else { 0nat }
    }
}

proof fn lemma_announced_bound(peers: Seq<Peer>)
    ensures
        announced(peers) <= peers.len(),
    decreases peers.len(),
{
    if peers.len() > 0 {
        lemma_announced_bound(peers.drop_last());
    }
}

proof fn lemma_ready_bound(servers: Seq<ServerView>)
    ensures
        ready_count(servers) <= servers.len(),
    decreases servers.len(),
{
    if servers.len() > 0 {
        lemma_ready_bound(servers.drop_last());
    }
}

/// The counts at the top of the board.
pub open spec fn board_stats(p: PeerList, s: ServerStatus) -> ElementModel {
    holding(
        holding(
            holding(
                holding(
                    holding(
                        classed("div"@, "mj-stats"@),
                        statistic_model(decimal_of(p.count as nat), "sessions attached"@, "peers.list"@),
                    ),
                    statistic_model(decimal_of(announced(p.peers@)), "have announced"@, "peers.list"@),
                ),
                statistic_model(decimal_of(p.overlaps@.len()), "collisions"@, "peers.list"@),
            ),
            statistic_model(decimal_of(s.servers@.len()), "checkouts of this repository"@, "server.status"@),
        ),
        statistic_model(decimal_of(ready_count(s.servers@)), "servers ready"@, "server.status"@),
    )
}

fn board_stats_el(p: &PeerList, s: &ServerStatus) -> (r: El)
    ensures
        r@ == board_stats(*p, *s),
{
    let mut a: usize = 0;
    for k in 0..p.peers.len()
        invariant
            a == announced(p.peers@.take(k as int)),
    {
        assert(p.peers@.take(k + 1).drop_last() =~= p.peers@.take(k as int));
        proof {
            lemma_announced_bound(p.peers@.take(k as int));
        }
        if p.peers[k].announcement.is_some() {
            a = a + 1;
        }
    }
    assert(p.peers@.take(p.peers@.len() as int) =~= p.peers@);
    let mut ready: usize = 0;
    for k in 0..s.servers.len()
        invariant
            ready == ready_count(s.servers@.take(k as int)),
    {
        assert(s.servers@.take(k + 1).drop_last() =~= s.servers@.take(k as int));
        proof {
            lemma_ready_bound(s.servers@.take(k as int));
        }
        if s.servers[k].standing == ServerStanding::Ready {
            ready = ready + 1;
        }
    }
    assert(s.servers@.take(s.servers@.len() as int) =~= s.servers@);
    el("div").class("mj-stats").child(statistic(decimal(p.count).as_str(), "sessions attached", "peers.list")).child(
        statistic(decimal(a).as_str(), "have announced", "peers.list"),
    ).child(statistic(decimal(p.overlaps.len()).as_str(), "collisions", "peers.list")).child(
        statistic(decimal(s.servers.len()).as_str(), "checkouts of this repository", "server.status"),
    ).child(statistic(decimal(ready).as_str(), "servers ready", "server.status"))
}

// ------------------------------------------------------------------ sessions

/// What the collisions card says when there is none.
pub const NO_COLLISION: &'static str = "No two sessions on this board have claimed the same ground. Every announcement stands on its own paths.";

/// The client of a session: its name, its version, and its title on a line of its own.
pub open spec fn client_model(p: Peer) -> ElementModel {
    let s = holding(bare("span"@), mono_model(p.client@));
    let s = if p.client_version@.len() > 0 {
        saying(s, " "@ + p.client_version@)
    } else {
        s
    };
    match p.client_title {
        Some(t) => holding(holding(s, bare("br"@)), tag_model(t@)),
        None => s,
    }
}

/// The row of a session.
pub open spec fn peer_row(p: Peer, filed: Seq<String>) -> NodeModel {
    NodeModel::Element(
        with_children(
            bare("tr"@),
            seq![
                cell_of(mono_model(p.id@)),
                cell_of(
                    if p.attached {
                        badge_model("connected"@, "attached"@)
                    } else {
                        badge_model("disconnected"@, "gone"@)
                    },
                ),
                cell_of(client_model(p)),
                cell_of(word_model(filed, p.transport@)),
                cell_of(mono_model(p.connected_at@)),
                NodeModel::Element(saying(bare("td"@), ago_of(p.last_seen_seconds_ago as nat))),
                cell_of(announcement_model(p)),
            ],
        ),
    )
}

/// What the sessions card says when nothing is attached.
pub const NOTHING_ATTACHED: &'static str = "Nothing is attached. The board is this process's own memory: a server that has just started has an empty one, and so has one every client has left.";

/// The card of the sessions.
pub open spec fn peers_card(p: PeerList, filed: Seq<String>) -> ElementModel {
    card_with_model(
        "Sessions on this board"@,
        link_model("/cockpit/capabilities/peers.list"@, "peers.list"@),
        if p.peers@.len() == 0 {
            saying(classed("p"@, "mj-empty"@), NOTHING_ATTACHED@)
        } else {
            table_model(
                seq!["Peer"@, "Standing"@, "Client"@, "Transport"@, "Attached at"@, "Last seen"@, "Working on"@],
                p.peers@.map_values(|x: Peer| peer_row(x, filed)),
            )
        },
    )
}

fn peers_card_el(p: &PeerList, filed: &Vec<String>) -> (r: El)
    ensures
        r@ == peers_card(*p, filed@),
{
    let aside = link("/cockpit/capabilities/peers.list", "peers.list");
    if p.peers.len() == 0 {
        return card_with("Sessions on this board", aside, nothing(NOTHING_ATTACHED));
    }
    let mut rows: Vec<El> = Vec::new();
    for k in 0..p.peers.len()
        invariant
            rows@.len() == k,
            forall|j: int| 0 <= j < k ==> NodeModel::Element((#[trigger] rows@[j])@) == peer_row(p.peers@[j], filed@),
    {
        let x = &p.peers[k];
        let mut client = el("span").child(mono(x.client.as_str()));
        if x.client_version.unicode_len() > 0 {
            let mut v = String::from_str(" ");
            push_str(&mut v, x.client_version.as_str());
            client = client.text(v.as_str());
        }
        match &x.client_title {
            Some(t) => {
                client = client.child(el("br")).child(tag(t.as_str()));
            },
            None => {},
        }
        let mut cells: Vec<El> = Vec::new();
        cells.push(cell(mono(x.id.as_str())));
        cells.push(
            cell(
                if x.attached {
                    badge("connected", "attached")
                } else {
                    badge("disconnected", "gone")
                },
            ),
        );
        cells.push(cell(client));
        cells.push(cell(word_el(filed, x.transport.as_str())));
        cells.push(cell(mono(x.connected_at.as_str())));
        cells.push(text_cell(ago(x.last_seen_seconds_ago).as_str()));
        cells.push(cell(announcement_cell(x)));
        let r = row(cells);
        assert(els_model(cells@) =~= match peer_row(*x, filed@) {
            NodeModel::Element(e) => e.children,
            _ => seq![],
        });
        rows.push(r);
    }
    assert(els_model(rows@) =~= p.peers@.map_values(|x: Peer| peer_row(x, filed@)));
    let h = ["Peer", "Standing", "Client", "Transport", "Attached at", "Last seen", "Working on"];
    assert(strs_model(h@) =~= seq!["Peer"@, "Standing"@, "Client"@, "Transport"@, "Attached at"@, "Last seen"@, "Working on"@]);
    card_with("Sessions on this board", aside, table(&h, rows))
}

// ------------------------------------------------------------------ this checkout

/// The first checkout that is this one.
pub open spec fn here_at(servers: Seq<ServerView>) -> Option<ServerView>
    decreases servers.len(),
{
    if servers.len() == 0 {
        None
    } else if servers[0].this_checkout {
        Some(servers[0])
    } else {
        here_at(servers.drop_first())
    }
}

proof fn lemma_here_at(servers: Seq<ServerView>, k: int)
    requires
        0 <= k <= servers.len(),
        forall|j: int| 0 <= j < k ==> !(#[trigger] servers[j]).this_checkout,
    ensures
        here_at(servers) == here_at(servers.subrange(k, servers.len() as int)),
    decreases k,
{
    if k > 0 {
        let t = servers.drop_first();
        assert forall|j: int| 0 <= j < k - 1 implies !(#[trigger] t[j]).this_checkout by {
            assert(t[j] == servers[j + 1]);
        }
        lemma_here_at(t, k - 1);
        assert(t.subrange(k - 1, t.len() as int) =~= servers.subrange(k, servers.len() as int));
    } else {
        assert(servers.subrange(0, servers.len() as int) =~= servers);
    }
}

fn here<'a>(servers: &'a Vec<ServerView>) -> (r: Option<&'a ServerView>)
    ensures
        match r {
            Some(s) => here_at(servers@) == Some(*s),
            None => here_at(servers@) is None,
        },
{
    let mut k: usize = 0;
    while k < servers.len()
        invariant
            k <= servers@.len(),
            forall|j: int| 0 <= j < k ==> !(#[trigger] servers@[j]).this_checkout,
        decreases servers.len() - k,
    {
        if servers[k].this_checkout {
            proof {
                lemma_here_at(servers@, k as int);
                assert(servers@.subrange(k as int, servers@.len() as int)[0] == servers@[k as int]);
            }
            return Some(&servers[k]);
        }
        k += 1;
    }
    proof {
        lemma_here_at(servers@, k as int);
    }
    None
}

/// The lease a reader is shown: this process's, or else the one this checkout's file holds.
pub open spec fn shown_lease(s: ServerStatus) -> Option<LeaseView> {
    match s.this_process {
        Some(l) => Some(l),
        None => match here_at(s.servers@) {
            Some(h) => h.lease,
            None => None,
        },
    }
}

/// What the server card says of what "would serve" means.
pub const WOULD_SERVE: &'static str = "\"Would serve\" is what this executable would bind and answer as, and it is what the standing is measured against. The standing itself is decided by `server.status` from the lease above, from whether the server it names answers for this checkout, and from whether what answers is this executable's code. Nothing on this page reads a lease itself.";

/// The facts of this checkout's server.
pub open spec fn server_rows(s: ServerStatus) -> Seq<(Seq<char>, NodeModel)> {
    let h = here_at(s.servers@);
    let standing = holding(bare("span"@), badge_model(standing_status(s.standing), standing_word(s.standing)));
    let standing = match h {
        Some(x) => match x.reason {
            Some(r) => saying(standing, " "@ + r@),
            None => standing,
        },
        None => standing,
    };
    seq![
        ("Standing"@, NodeModel::Element(standing)),
        (
            "Checkout"@,
            NodeModel::Element(
                mono_model(
                    match h {
                        Some(x) => x.worktree@,
                        None => "(not enumerated)"@,
                    },
                ),
            ),
        ),
        (
            "Branch"@,
            NodeModel::Element(
                mono_model(
                    match h {
                        Some(x) => match x.branch {
                            Some(b) => b@,
                            None => "(detached)"@,
                        },
                        None => "(detached)"@,
                    },
                ),
            ),
        ),
        ("Checkout id"@, NodeModel::Element(mono_model(s.checkout_id@))),
        (
            "Repository"@,
            NodeModel::Element(
                match s.git_id {
                    Some(g) => mono_model(g@),
                    None => saying(classed("span"@, "mj-note"@), "git cannot be asked here"@),
                },
            ),
        ),
        (
            "Would serve"@,
            NodeModel::Element(
                mono_model(s.desired_host@ + ":"@ + decimal_of(s.desired_port as nat) + " · "@ + s.desired_version@),
            ),
        ),
    ]
}

/// The lease facts as shown.
pub open spec fn lease_model(l: Option<LeaseView>) -> ElementModel {
    match l {
        None => saying(classed("p"@, "mj-empty"@), "No lease: nothing has taken this checkout's server."@),
        Some(x) => facts_model(lease_rows(x)),
    }
}

/// The card of this checkout's server.
pub open spec fn server_card(s: ServerStatus) -> ElementModel {
    card_with_model(
        "This checkout's server"@,
        link_model("/cockpit/capabilities/server.status"@, "server.status"@),
        holding(
            holding(
                holding(
                    holding(bare("div"@), facts_model(server_rows(s))),
                    saying(
                        classed("h3"@, "mj-card-title"@),
                        if s.this_process is Some {
                            "The lease this process holds"@
                        } else {
                            "The lease this checkout's file holds"@
                        },
                    ),
                ),
                lease_model(shown_lease(s)),
            ),
            saying(classed("p"@, "mj-note"@), WOULD_SERVE@),
        ),
    )
}

fn server_card_el(s: &ServerStatus) -> (r: El)
    ensures
        r@ == server_card(*s),
{
    let h = here(&s.servers);
    let mut standing = el("span").child(badge(server_status(s.standing), s.standing.as_str()));
    match h {
        Some(x) => match &x.reason {
            Some(r) => {
                let mut t = String::from_str(" ");
                push_str(&mut t, r.as_str());
                standing = standing.text(t.as_str());
            },
            None => {},
        },
        None => {},
    }
    let checkout = match h {
        Some(x) => x.worktree.as_str(),
        None => "(not enumerated)",
    };
    let branch = match h {
        Some(x) => match &x.branch {
            Some(b) => b.as_str(),
            None => "(detached)",
        },
        None => "(detached)",
    };
    let mut serve = String::from_str(s.desired_host.as_str());
    push_str(&mut serve, ":");
    push_str(&mut serve, decimal(s.desired_port as usize).as_str());
    push_str(&mut serve, " · ");
    push_str(&mut serve, s.desired_version.as_str());
    let mut rows: Vec<(&str, Node)> = Vec::new();
    rows.push(("Standing", Node::Element(standing)));
    rows.push(("Checkout", Node::Element(mono(checkout))));
    rows.push(("Branch", Node::Element(mono(branch))));
    rows.push(("Checkout id", Node::Element(mono(s.checkout_id.as_str()))));
    rows.push(
        (
            "Repository",
            Node::Element(
                match &s.git_id {
                    Some(g) => mono(g.as_str()),
                    None => el("span").class("mj-note").text("git cannot be asked here"),
                },
            ),
        ),
    );
    rows.push(("Would serve", Node::Element(mono(serve.as_str()))));
    assert(rows_model(rows@) =~= server_rows(*s));
    let lease: Option<&LeaseView> = match &s.this_process {
        Some(l) => Some(l),
        None => match h {
            Some(x) => match &x.lease {
                Some(l) => Some(l),
                None => None,
            },
            None => None,
        },
    };
    let heading = if s.this_process.is_some() {
        "The lease this process holds"
    } else {
        "The lease this checkout's file holds"
    };
    card_with(
        "This checkout's server",
        link("/cockpit/capabilities/server.status", "server.status"),
        el("div").child(facts(rows)).child(el("h3").class("mj-card-title").text(heading)).child(lease_facts(lease)).child(
            el("p").class("mj-note").text(WOULD_SERVE),
        ),
    )
}

// ------------------------------------------------------------------ every checkout

/// A fact of a checkout, or a dash.
pub open spec fn note_dash() -> ElementModel {
    saying(classed("span"@, "mj-note"@), "—"@)
}

/// The row of a checkout.
pub open spec fn checkout_row(s: ServerView) -> NodeModel {
    let place = holding(bare("span"@), mono_model(s.worktree@));
    let place = if s.primary {
        holding(saying(place, " "@), tag_model("primary"@))
    } else {
        place
    };
    let place = if s.this_checkout {
        holding(saying(place, " "@), tag_model("here"@))
    } else {
        place
    };
    NodeModel::Element(
        with_children(
            bare("tr"@),
            seq![
                cell_of(badge_model(standing_status(s.standing), standing_word(s.standing))),
                cell_of(place),
                cell_of(
                    mono_model(
                        match s.branch {
                            Some(b) => b@,
                            None => "(detached)"@,
                        },
                    ),
                ),
                NodeModel::Element(
                    saying(
                        bare("td"@),
                        match s.peers {
                            Some(n) => decimal_of(n as nat),
                            None => "—"@,
                        },
                    ),
                ),
                cell_of(
                    match s.lease {
                        Some(l) => match l.url {
                            Some(u) => mono_model(u@),
                            None => note_dash(),
                        },
                        None => note_dash(),
                    },
                ),
                cell_of(
                    match s.lease {
                        Some(l) => match l.version {
                            Some(v) => mono_model(v@),
                            None => note_dash(),
                        },
                        None => note_dash(),
                    },
                ),
                cell_of(
                    match s.lease {
                        Some(l) => mono_model(l.started_at@),
                        None => note_dash(),
                    },
                ),
                NodeModel::Element(
                    saying(
                        bare("td"@),
                        match s.reason {
                            Some(r) => r@,
                            None => seq![],
                        },
                    ),
                ),
            ],
        ),
    )
}

fn checkout_row_el(s: &ServerView) -> (r: El)
    ensures
        NodeModel::Element(r@) == checkout_row(*s),
{
    let mut place = el("span").child(mono(s.worktree.as_str()));
    if s.primary {
        place = place.text(" ").child(tag("primary"));
    }
    if s.this_checkout {
        place = place.text(" ").child(tag("here"));
    }
    let branch = match &s.branch {
        Some(b) => b.as_str(),
        None => "(detached)",
    };
    let peers = match s.peers {
        Some(n) => decimal(n),
        None => String::from_str("—"),
    };
    let address = match &s.lease {
        Some(l) => match &l.url {
            Some(u) => mono(u.as_str()),
            None => el("span").class("mj-note").text("—"),
        },
        None => el("span").class("mj-note").text("—"),
    };
    let version = match &s.lease {
        Some(l) => match &l.version {
            Some(v) => mono(v.as_str()),
            None => el("span").class("mj-note").text("—"),
        },
        None => el("span").class("mj-note").text("—"),
    };
    let started = match &s.lease {
        Some(l) => mono(l.started_at.as_str()),
        None => el("span").class("mj-note").text("—"),
    };
    let reason = match &s.reason {
        Some(r) => r.as_str(),
        None => "",
    };
    proof {
        reveal_strlit("");
        assert(""@ =~= Seq::<char>::empty());
    }
    let mut cells: Vec<El> = Vec::new();
    cells.push(cell(badge(server_status(s.standing), s.standing.as_str())));
    cells.push(cell(place));
    cells.push(cell(mono(branch)));
    cells.push(text_cell(peers.as_str()));
    cells.push(cell(address));
    cells.push(cell(version));
    cells.push(cell(started));
    cells.push(text_cell(reason));
    let r = row(cells);
    assert(els_model(cells@) =~= match checkout_row(*s) {
        NodeModel::Element(x) => x.children,
        _ => seq![],
    });
    r
}

/// The checkouts that have a server, or that have none, in the order they were answered.
pub open spec fn with_server(servers: Seq<ServerView>, served: bool) -> Seq<ServerView>
    decreases servers.len(),
{
    if servers.len() == 0 {
        seq![]
    } else {
        let rest = with_server(servers.drop_last(), served);
        if (servers.last().standing != ServerStanding::Absent) == served {
            rest.push(servers.last())
        } else {
            rest
        }
    }
}

/// The columns of the checkout tables.
pub open spec fn checkout_columns() -> Seq<Seq<char>> {
    seq!["Standing"@, "Checkout"@, "Branch"@, "Peers"@, "Address"@, "Version"@, "Started"@, "Why"@]
}

/// What the checkouts card says when no checkout has a server.
pub const NONE_SERVED: &'static str = "No checkout of this repository has a server. This process is answering without a lease.";

/// The card of every checkout: those with a server, and the rest folded away, counted.
pub open spec fn checkouts_card(s: ServerStatus) -> ElementModel {
    let served = with_server(s.servers@, true);
    let unserved = with_server(s.servers@, false);
    let d = holding(
        bare("div"@),
        if served.len() == 0 {
            saying(classed("p"@, "mj-empty"@), NONE_SERVED@)
        } else {
            table_model(checkout_columns(), served.map_values(|x: ServerView| checkout_row(x)))
        },
    );
    let d = if unserved.len() > 0 {
        holding(
            d,
            details_model(
                decimal_of(unserved.len()) + " checkout(s) with no server"@,
                table_model(checkout_columns(), unserved.map_values(|x: ServerView| checkout_row(x))),
            ),
        )
    } else {
        d
    };
    card_with_model("Every checkout of this repository"@, link_model("/cockpit/capabilities/server.status"@, "server.status"@), d)
}

fn checkout_rows(servers: &Vec<ServerView>, served: bool) -> (r: Vec<El>)
    ensures
        els_model(r@) == with_server(servers@, served).map_values(|x: ServerView| checkout_row(x)),
{
    let mut rows: Vec<El> = Vec::new();
    for k in 0..servers.len()
        invariant
            els_model(rows@) == with_server(servers@.take(k as int), served).map_values(|x: ServerView| checkout_row(x)),
    {
        assert(servers@.take(k + 1).drop_last() =~= servers@.take(k as int));
        assert(servers@.take(k + 1).last() == servers@[k as int]);
        if (servers[k].standing != ServerStanding::Absent) == served {
            let ghost before = rows@;
            rows.push(checkout_row_el(&servers[k]));
            assert(els_model(rows@) =~= els_model(before).push(checkout_row(servers@[k as int])));
            assert(with_server(servers@.take(k + 1), served).map_values(|x: ServerView| checkout_row(x)) =~= with_server(
                servers@.take(k as int),
                served,
            ).map_values(|x: ServerView| checkout_row(x)).push(checkout_row(servers@[k as int])));
        }
    }
    assert(servers@.take(servers@.len() as int) =~= servers@);
    rows
}

fn checkouts_card_el(s: &ServerStatus) -> (r: El)
    ensures
        r@ == checkouts_card(*s),
{
    let h = ["Standing", "Checkout", "Branch", "Peers", "Address", "Version", "Started", "Why"];
    assert(strs_model(h@) =~= checkout_columns());
    let served = checkout_rows(&s.servers, true);
    let unserved = checkout_rows(&s.servers, false);
    let n = unserved.len();
    assert(els_model(served@).len() == served@.len());
    assert(els_model(unserved@).len() == unserved@.len());
    assert(served@.len() == with_server(s.servers@, true).len());
    assert(n == with_server(s.servers@, false).len());
    let mut d = el("div").child(
        if served.len() == 0 {
            nothing(NONE_SERVED)
        } else {
            table(&h, served)
        },
    );
    if n > 0 {
        let mut summary = decimal(n);
        push_str(&mut summary, " checkout(s) with no server");
        d = d.child(details(summary.as_str(), table(&h, unserved)));
    }
    card_with("Every checkout of this repository", link("/cockpit/capabilities/server.status", "server.status"), d)
}

// ------------------------------------------------------------------ the page

/// The body of the board: the counts, every collision first, the sessions, this checkout's
/// server and every checkout.
pub open spec fn board_body(p: PeerList, s: ServerStatus, filed: Seq<String>) -> ElementModel {
    let collisions = if p.overlaps@.len() == 0 {
        seq![NodeModel::Element(card_model("Collisions"@, saying(classed("p"@, "mj-empty"@), NO_COLLISION@)))]
    } else {
        p.overlaps@.map_values(|o: Overlap| NodeModel::Element(collision_model(p.peers@, o)))
    };
    holding(
        holding(
            holding(with_children(holding(classed("div"@, "mj-grid"@), board_stats(p, s)), collisions), peers_card(p, filed)),
            server_card(s),
        ),
        checkouts_card(s),
    )
}

/// The subtitle of the board.
pub const BOARD_SUBTITLE: &'static str = "Who else is working in this repository, what each of them announced, and where two of them are about to collide.";

/// The board. `peers` and `status` are what the peer list and the server status answered,
/// or why they did not; `filed` is every status word the design declaration files under a
/// status.
pub fn board(peers: Result<PeerList, String>, status: Result<ServerStatus, String>, filed: &Vec<String>) -> (r: Page)
    ensures
        r.area == Area::Board,
        r.title@ == "Board"@,
        r.scripts@.len() == 0,
        match (peers, status) {
            (Err(e), _) => r.main@ == failed_body(e@) && r.status == 500,
            (Ok(_), Err(e)) => r.main@ == failed_body(e@) && r.status == 500,
            (Ok(p), Ok(s)) => {
                &&& r.main@ == board_body(p, s, filed@)
                &&& r.status == 200
                &&& r.subtitle matches Some(t) && t@ == BOARD_SUBTITLE@
                &&& trail_views(r.breadcrumbs@) == seq![("Cockpit"@, Some("/cockpit"@)), ("Board"@, None::<Seq<char>>)]
            },
        },
{
    let p = match peers {
        Ok(p) => p,
        Err(e) => return failed(Area::Board, "Board", e.as_str()),
    };
    let s = match status {
        Ok(s) => s,
        Err(e) => return failed(Area::Board, "Board", e.as_str()),
    };
    let mut collisions: Vec<El> = Vec::new();
    if p.overlaps.len() == 0 {
        collisions.push(card("Collisions", nothing(NO_COLLISION)));
        assert(els_model(collisions@) =~= seq![
            NodeModel::Element(card_model("Collisions"@, saying(classed("p"@, "mj-empty"@), NO_COLLISION@))),
        ]);
    } else {
        for k in 0..p.overlaps.len()
            invariant
                collisions@.len() == k,
                forall|j: int| 0 <= j < k ==> (#[trigger] collisions@[j])@ == collision_model(p.peers@, p.overlaps@[j]),
        {
            collisions.push(collision(p.peers.as_slice(), &p.overlaps[k]));
        }
        assert(els_model(collisions@) =~= p.overlaps@.map_values(|o: Overlap| NodeModel::Element(collision_model(p.peers@, o))));
    }
    let body = el("div").class("mj-grid").child(board_stats_el(&p, &s)).children(collisions).child(peers_card_el(&p, filed)).child(
        server_card_el(&s),
    ).child(checkouts_card_el(&s));
    let mut trail: Vec<(&str, Option<&str>)> = Vec::new();
    trail.push(("Cockpit", Some("/cockpit")));
    trail.push(("Board", None));
    assert(given_trail(trail@) =~= seq![("Cockpit"@, Some("/cockpit"@)), ("Board"@, None::<Seq<char>>)]);
    Page::new(Area::Board, "Board", body).subtitle(BOARD_SUBTITLE).trail(trail)
}

} // verus!
