use majordomus_cli::cockpit::html::el;
use majordomus_cli::cockpit::work::{
    ago, announcement_cell, attested_count, attested_list, attested_sentences, attested_text, collision,
    issue_href, lease_facts, milestone_refs, move_words, near_side, peer_label, plan_ref, refs, server_status,
    Announcement, AttestedCount, AttestedList, AttestedText, LeaseView, Overlap, OverlapPath, Peer, ServerStanding,
};

#[test]
fn a_milestone_gate_in_a_list_of_issues_links_the_milestone_not_an_issue() {
    let rendered = refs(&["I0001".to_string(), "milestone:m1".to_string()]).render();
    assert!(rendered.contains("href=\"/cockpit/plan/issues/I0001\""), "{rendered}");
    assert!(rendered.contains("href=\"/cockpit/plan/milestones/m1\""), "{rendered}");
    assert!(!rendered.contains("/cockpit/plan/issues/milestone"), "{rendered}");
    // nothing to wait on is a dash, not an empty cell
    assert!(refs(&[]).render().contains('—'));
}

#[test]
fn a_value_devtask_could_not_answer_is_shown_as_unknown_with_its_reason() {
    let missing = AttestedText {
        value: None,
        provenance: "unknown".into(),
        source: "I0001.yaml#owner".into(),
        reason: Some("the record declares no `owner`".into()),
    };
    let rendered = el("div").node(attested_text(&missing)).render();
    assert!(rendered.contains("unknown: the record declares no `owner`"), "{rendered}");

    let declared = AttestedText {
        value: Some("korczis".into()),
        provenance: "explicit".into(),
        source: "I0001.yaml#owner".into(),
        reason: None,
    };
    let rendered = el("div").node(attested_text(&declared)).render();
    assert!(rendered.contains(">korczis<"), "{rendered}");
    // where it came from travels with it
    assert!(rendered.contains("explicit · I0001.yaml#owner"), "{rendered}");
}

#[test]
fn an_empty_list_the_record_declared_differs_from_one_nobody_could_read() {
    let declared_empty = AttestedList { values: vec![], provenance: "explicit".into(), source: "s".into(), reason: None };
    let unreadable = AttestedList {
        values: vec![],
        provenance: "unknown".into(),
        source: "s".into(),
        reason: Some("git was not asked".into()),
    };
    let a = el("div").node(attested_list(&declared_empty, |s: &String| plan_ref(s))).render();
    let b = el("div").node(attested_list(&unreadable, |s: &String| plan_ref(s))).render();
    assert!(a.contains(">none<"), "{a}");
    assert!(b.contains("unknown: git was not asked"), "{b}");
}

#[test]
fn the_moves_offered_are_the_words_the_capability_takes() {
    assert_eq!(move_words(), ["start", "verify", "done"]);
}

#[test]
fn a_standing_wears_a_status_word_the_design_declares() {
    for standing in [
        ServerStanding::Absent,
        ServerStanding::Starting,
        ServerStanding::Ready,
        ServerStanding::Outdated,
        ServerStanding::Stale,
    ] {
        let status = server_status(standing);
        assert!(
            ["ok", "info", "warn", "fail", "neutral"].contains(&status),
            "{standing:?} wears '{status}', which is no status the design files"
        );
    }
    // the reader still sees the standing's own word, not the colour's
    assert_eq!(ServerStanding::Outdated.as_str(), "outdated");
}

#[test]
fn a_board_glance_reads_in_the_coarsest_unit_that_still_says_something() {
    assert_eq!(ago(0), "just now");
    assert_eq!(ago(4), "4s ago");
    assert_eq!(ago(600), "10m ago");
    assert_eq!(ago(7_200), "2h ago");
    assert_eq!(ago(864_000), "10d ago");
}

fn a_peer(id: &str, client: &str, attached: bool, scope: &[&str]) -> Peer {
    Peer {
        id: id.to_string(),
        client: client.to_string(),
        attached,
        announcement: (!scope.is_empty()).then(|| Announcement {
            intent: format!("what {id} is doing"),
            scope: scope.iter().map(|s| s.to_string()).collect(),
            at: "2026-09-10T21:00:01Z".into(),
        }),
        client_version: String::new(),
        client_title: None,
        transport: "stdio".into(),
        connected_at: "2026-09-10T20:00:00Z".into(),
        last_seen_seconds_ago: 5,
    }
}

#[test]
fn the_near_side_of_a_collision_is_resolved_out_of_the_same_answer() {
    let peers = vec![
        a_peer("p1", "zed", true, &["apps/majordomus-cli"]),
        a_peer("p2", "helix", true, &["docs"]),
        a_peer("p3", "helix", true, &["apps/majordomus-cli/src/cockpit"]),
    ];
    let overlap = Overlap {
        peer: "p1".into(),
        attached: true,
        intent: "what p1 is doing".into(),
        paths: vec![OverlapPath { yours: "apps/majordomus-cli/src/cockpit".into(), theirs: "apps/majordomus-cli".into() }],
    };
    let near = near_side(&peers, &overlap).expect("the peer whose claim it is");
    assert_eq!(near.id.as_str(), "p3");
    assert_eq!(peer_label(near), "p3 helix");

    // a claim nobody on the board announced names nobody, rather than the first peer
    let orphan = Overlap {
        paths: vec![OverlapPath { yours: "site".into(), theirs: "apps/majordomus-cli".into() }],
        ..overlap
    };
    assert!(near_side(&peers, &orphan).is_none());
}

#[test]
fn a_collision_names_both_sessions_and_every_claim_that_meets() {
    let peers = vec![a_peer("p1", "zed", true, &["test"]), a_peer("p2", "helix", true, &["test/cases/125.sh"])];
    let overlap = Overlap {
        peer: "p1".into(),
        attached: true,
        intent: "what p1 is doing".into(),
        paths: vec![OverlapPath { yours: "test/cases/125.sh".into(), theirs: "test".into() }],
    };
    let rendered = collision(&peers, &overlap).render();
    assert!(rendered.contains("p2 helix and p1 zed"), "{rendered}");
    assert!(rendered.contains("what p1 is doing"), "{rendered}");
    assert!(rendered.contains("what p2 is doing"), "{rendered}");
    assert!(rendered.contains("test/cases/125.sh"), "{rendered}");
    // a collision is an alert and not a table row
    assert!(rendered.contains("mj-alert--fail"), "{rendered}");
    assert!(rendered.contains("mj-badge--blocked"), "{rendered}");
}

#[test]
fn a_session_that_announced_nothing_says_so_and_one_that_did_shows_its_claims() {
    let silent = announcement_cell(&a_peer("p9", "gemini-cli", true, &[])).render();
    assert!(silent.contains("said nothing"), "{silent}");

    let spoken = announcement_cell(&a_peer("p8", "zed", true, &["lib", "docs"])).render();
    assert!(spoken.contains("what p8 is doing"), "{spoken}");
    assert!(spoken.contains(">lib<") && spoken.contains(">docs<"), "{spoken}");
    assert!(spoken.contains("announced 2026-09-10T21:00:01Z"), "{spoken}");
}

#[test]
fn a_checkout_with_no_lease_says_so_rather_than_rendering_an_empty_fact_list() {
    assert!(lease_facts(None).render().contains("No lease"));
    let held = lease_facts(Some(&LeaseView {
        pid: 4321,
        url: Some("http://127.0.0.1:8741".into()),
        started_at: "2026-09-10T20:00:00Z".into(),
        executable: None,
        version: Some("0.5.0".into()),
    }))
    .render();
    assert!(held.contains("http://127.0.0.1:8741"), "{held}");
    assert!(held.contains("4321"), "{held}");
    assert!(held.contains("0.5.0"), "{held}");
    assert!(held.contains("not recorded"), "{held}");
}

#[test]
fn an_issue_id_is_encoded_into_its_address_and_a_count_carries_its_source() {
    assert_eq!(issue_href("a b/c"), "/cockpit/plan/issues/a%20b%2Fc");
    let count = AttestedCount { value: Some(12), provenance: "derived".into(), source: "graph".into(), reason: None };
    let rendered = el("div").node(attested_count(&count)).render();
    assert!(rendered.contains(">12<") && rendered.contains("derived · graph"), "{rendered}");
    let none = AttestedCount { value: None, provenance: "unknown".into(), source: "graph".into(), reason: None };
    assert!(el("div").node(attested_count(&none)).render().contains(">unknown<"));
}

#[test]
fn criteria_are_a_checklist_and_milestones_link_to_milestones() {
    let list = AttestedList { values: vec!["it builds".into()], provenance: "explicit".into(), source: "s".into(), reason: None };
    assert!(attested_sentences(&list).render().contains("mj-checklist-item"));
    let empty = AttestedList { values: vec![], provenance: "explicit".into(), source: "s".into(), reason: None };
    assert!(attested_sentences(&empty).render().contains("The record declares none."));
    assert!(milestone_refs(&["m2".to_string()]).render().contains("/cockpit/plan/milestones/m2"));
    assert!(milestone_refs(&[]).render().contains('—'));
}
