use majordomus_cli::cockpit::mesh::{
    MeshIdentity, MeshNode, MeshProvider, MeshRefusals, MeshStatus, MeshTallies, NodeList, NodeSource, Presence,
    ProviderState, TrustState,
};
use majordomus_cli::cockpit::nav::Area;
use majordomus_cli::cockpit::pages::mesh;

fn status(active: bool) -> MeshStatus {
    MeshStatus {
        active,
        reason: Some("the mesh is enabled in the layer".into()),
        identity: Some(MeshIdentity { node_id: "n-1".into(), display_name: "desk".into(), instance_id: "i-9".into() }),
        trust_policy: Some("declared".into()),
        tallies: MeshTallies { nodes: 3, trusted: 1, present: 2, accepted: 10, replayed: 4, expired: 1 },
        refusals: MeshRefusals { oversized: 1, malformed: 2, version: 3, bounds: 4, stale: 5, signature: 6, self_heard: 7 },
        providers: vec![MeshProvider { id: "mdns".into(), state: ProviderState::Running, sent: 5, received: 8, detail: None }],
    }
}

fn nodes() -> NodeList {
    NodeList {
        nodes: vec![MeshNode {
            node_id: "n-2".into(),
            display_name: "laptop".into(),
            trust: TrustState::Rejected("unknown key".into()),
            presence: Presence::Absent,
            endpoints: vec!["10.0.0.2:7000".into(), "10.0.0.2:7001".into()],
            capabilities: vec!["http".into()],
            first_seen: "09:00".into(),
            last_seen: "09:05".into(),
            restarts: 2,
            sources: vec![
                NodeSource { source: "mdns".into(), path: "en0".into(), at: "09:00".into() },
                NodeSource { source: "udp".into(), path: "lo".into(), at: "09:05".into() },
            ],
            public_key: "ed25519:abc".into(),
        }],
        count: 1,
    }
}

#[test]
fn the_mesh_page_shows_this_node_its_providers_and_what_it_heard() {
    let filed = vec!["active".to_string(), "running".to_string()];
    let p = mesh(Ok(status(true)), Ok(nodes()), &filed);
    assert_eq!(p.area, Area::Mesh);
    assert_eq!(p.status, 200);
    let html = p.main.render();
    assert!(html.contains("mj-badge--active"));
    assert!(html.contains("the mesh is enabled in the layer"));
    assert!(html.contains("3 (1 trusted, 2 present)"));
    assert!(html.contains("10 / 4 / 1"));
    assert!(html.contains("oversized 1, malformed 2, version 3, bounds 4, stale 5, signature 6, self 7"));
    assert!(html.contains("Discovery providers"));
    assert!(html.contains("mj-badge--running"));
    assert!(html.contains("Discovered nodes (1)"));
    assert!(html.contains("laptop — n-2"));
    assert!(html.contains("rejected: unknown key"));
    assert!(html.contains("<span class=\"mj-tag\">absent</span>"));
    assert!(html.contains("10.0.0.2:7000, 10.0.0.2:7001"));
    assert!(html.contains("first 09:00, last 09:05, restarts 2"));
    assert!(html.contains("mdns via en0 at 09:00; udp via lo at 09:05"));
}

#[test]
fn a_quiet_mesh_says_how_to_check_this_machine() {
    let mut s = status(false);
    s.providers.clear();
    s.identity = None;
    let html = mesh(Ok(s), Ok(NodeList { nodes: vec![], count: 0 }), &vec![]).main.render();
    assert!(html.contains("<span class=\"mj-tag\">inactive</span>"));
    assert!(!html.contains("Discovery providers"));
    assert!(html.contains("No nodes observed."));
}

#[test]
fn either_answer_missing_fails_the_page() {
    assert_eq!(mesh(Err("no status".into()), Ok(nodes()), &vec![]).status, 500);
    let p = mesh(Ok(status(true)), Err("no nodes".into()), &vec![]);
    assert_eq!(p.status, 500);
    assert!(p.main.render().contains("no nodes"));
}
