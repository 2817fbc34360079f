use majordomus_cli::cockpit::catalogue::{CapabilityEntry, Provenance};
use majordomus_cli::cockpit::nav::Area;
use majordomus_cli::cockpit::pages::search;
use majordomus_cli::cockpit::search::ObjectHit;

fn entry(id: &str, title: &str) -> CapabilityEntry {
    CapabilityEntry {
        id: id.to_string(),
        kind: "query".to_string(),
        title: title.to_string(),
        description: String::new(),
        module: "m".to_string(),
        mcp: false,
        http: false,
        cli: false,
        provenance: Provenance::Builtin,
        cached: false,
    }
}

fn q(text: &str) -> Vec<(String, String)> {
    vec![("q".to_string(), text.to_string())]
}

#[test]
fn a_blank_search_asks_for_something() {
    for query in [vec![], q("   ")] {
        let p = search(&query, &vec![entry("a.b", "A")], &vec![]);
        assert_eq!(p.title, "Search");
        assert_eq!(p.area, Area::NoArea);
        assert_eq!(p.breadcrumbs.len(), 2);
        assert!(p.main.render().contains("Type something."));
    }
}

#[test]
fn capabilities_match_by_identity_or_title_whatever_the_case() {
    let registry = vec![entry("graph.list", "List graphs"), entry("objects.get", "Read one OBJECT"), entry("x.y", "nothing")];
    let p = search(&q("Object"), &registry, &vec![]);
    assert_eq!(p.title, "Search: Object");
    let html = p.main.render();
    assert!(html.contains("Capabilities (1)"));
    assert!(html.contains("/cockpit/capabilities/objects.get"));
    assert!(!html.contains("/cockpit/capabilities/graph.list"));
    assert!(html.contains("Objects (0)"));
    assert!(html.contains("No object matches."));
    assert!(html.contains("value=\"Object\""));
}

#[test]
fn at_most_fifty_capabilities_are_listed() {
    let registry: Vec<CapabilityEntry> = (0..60).map(|i| entry(&format!("cap.n{i}"), "t")).collect();
    let html = search(&q("cap"), &registry, &vec![]).main.render();
    assert!(html.contains("Capabilities (50)"));
    assert!(html.contains("cap.n49"));
    assert!(!html.contains("cap.n50"));
}

#[test]
fn object_hits_link_to_their_object_and_fall_back_to_the_uri() {
    let hits = vec![
        ObjectHit { uri: "adr://0001".into(), identity: Some("ADR-1".into()), kind: Some("adr".into()), title: Some("Use Rust".into()) },
        ObjectHit { uri: "doc://x y".into(), identity: None, kind: None, title: None },
    ];
    let html = search(&q("rust"), &vec![], &hits).main.render();
    assert!(html.contains("Objects (2)"));
    assert!(html.contains("/cockpit/object?uri=adr%3A%2F%2F0001"));
    assert!(html.contains(">ADR-1<"));
    assert!(html.contains(">doc://x y<"));
    assert!(html.contains("No capability matches."));
}
