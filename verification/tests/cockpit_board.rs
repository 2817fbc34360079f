use majordomus_cli::cockpit::board::{PeerList, ServerStatus, ServerView};
use majordomus_cli::cockpit::nav::Area;
use majordomus_cli::cockpit::pages::board;
use majordomus_cli::cockpit::work::{Announcement, LeaseView, Peer, ServerStanding};

fn session(id: &str, announced: bool) -> Peer {
    Peer {
        id: id.into(),
        client: "editor".into(),
        attached: true,
        announcement: announced.then(|| Announcement {
            intent: "fixing logins".into(),
            scope: vec!["src/login.rs".into()],
            at: "2026-09-10T21:00:01Z".into(),
        }),
        client_version: "1.2".into(),
        client_title: Some("Editor".into()),
        transport: "stdio".into(),
        connected_at: "2026-09-10T20:00:00Z".into(),
        last_seen_seconds_ago: 7_200,
    }
}

fn server(worktree: &str, standing: ServerStanding, here: bool) -> ServerView {
    ServerView {
        standing,
        worktree: worktree.into(),
        primary: !here,
        this_checkout: here,
        branch: None,
        peers: Some(2),
        lease: (standing != ServerStanding::Absent).then(|| LeaseView {
            pid: 42,
            url: Some("http://127.0.0.1:7000".into()),
            started_at: "2026-09-10T19:00:00Z".into(),
            executable: None,
            version: None,
        }),
        reason: here.then(|| "answers for this checkout".to_string()),
    }
}

fn status() -> ServerStatus {
    ServerStatus {
        standing: ServerStanding::Ready,
        servers: vec![
            server("/w/a", ServerStanding::Ready, true),
            server("/w/b", ServerStanding::Absent, false),
            server("/w/c", ServerStanding::Absent, false),
        ],
        this_process: None,
        checkout_id: "chk-1".into(),
        git_id: None,
        desired_host: "127.0.0.1".into(),
        desired_port: 7000,
        desired_version: "1.0.0".into(),
    }
}

#[test]
fn a_board_whose_capabilities_did_not_answer_is_a_failed_page() {
    let p = board(Err("no peers".into()), Ok(status()), &vec![]);
    assert_eq!(p.area, Area::Board);
    assert_eq!(p.status, 500);
    assert_eq!(board(Ok(PeerList { count: 0, peers: vec![], overlaps: vec![] }), Err("x".into()), &vec![]).status, 500);
}

#[test]
fn the_board_counts_sessions_and_folds_away_checkouts_with_no_server() {
    let peers = PeerList { count: 2, peers: vec![session("p1", true), session("p2", false)], overlaps: vec![] };
    let p = board(Ok(peers), Ok(status()), &vec![]);
    assert_eq!(p.status, 200);
    let out = p.main.render();
    assert!(out.contains("No two sessions on this board have claimed the same ground."), "{out}");
    assert!(out.contains("<span class=\"mj-stat-value\">1</span><span class=\"mj-stat-label\">have announced"), "{out}");
    assert!(out.contains("<span class=\"mj-stat-value\">1</span><span class=\"mj-stat-label\">servers ready"), "{out}");
    assert!(out.contains("2 checkout(s) with no server"), "{out}");
    assert!(out.contains("2h ago"), "{out}");
    assert!(out.contains(" 1.2<br"), "{out}");
    assert!(out.contains("127.0.0.1:7000 · 1.0.0"), "{out}");
    assert!(out.contains(" answers for this checkout"), "{out}");
    assert!(out.contains("git cannot be asked here"), "{out}");
    assert!(out.contains("The lease this checkout&#39;s file holds"), "{out}");
}
