use majordomus_cli::cockpit::graphs::{Graph, GraphEdge, GraphList, GraphMetadata, GraphNode, GraphSummary};
use majordomus_cli::cockpit::nav::Area;
use majordomus_cli::cockpit::pages::{graph, graphs};

fn a_graph(truncated: bool) -> Graph {
    Graph {
        id: "registry deps".into(),
        title: "Registry dependencies".into(),
        description: "What depends on what.".into(),
        source: "the registry".into(),
        node_kinds: vec![("capability".into(), "a declared capability".into())],
        edge_kinds: vec![("depends_on".into(), "needs the other to run".into())],
        nodes: vec![
            GraphNode {
                label: "a.query".into(),
                kind: "capability".into(),
                route: Some("/cockpit/capabilities/a.query".into()),
                summary: Some("reads a".into()),
                status: Some("stable".into()),
                source: Some("registry/a.yaml".into()),
            },
            GraphNode {
                label: "b.command".into(),
                kind: "capability".into(),
                route: None,
                summary: None,
                status: Some("whatever".into()),
                source: None,
            },
        ],
        edges: vec![GraphEdge { source: "b.command".into(), kind: "depends_on".into(), target: "a.query".into() }],
        metadata: GraphMetadata { nodes: 2, edges: 1, acyclic: true, truncated },
    }
}

#[test]
fn the_list_of_graphs_links_each_to_its_page() {
    let p = graphs(Ok(GraphList {
        graphs: vec![GraphSummary {
            id: "deps".into(),
            title: "Dependencies".into(),
            description: "who needs whom".into(),
            source: "registry".into(),
        }],
    }));
    assert_eq!(p.area, Area::Graphs);
    assert_eq!(p.status, 200);
    let html = p.main.render();
    assert!(html.contains("href=\"/cockpit/graphs/deps\""));
    assert!(html.contains("who needs whom"));
    assert_eq!(graphs(Err("no derivations".into())).status, 500);
}

#[test]
fn one_graph_lists_every_node_and_edge_beside_the_canvas() {
    let filed = vec!["stable".to_string()];
    let p = graph(Ok(Ok(a_graph(false))), &filed);
    assert_eq!(p.status, 200);
    assert_eq!(p.title, "Registry dependencies");
    assert_eq!(p.subtitle.as_deref(), Some("What depends on what."));
    assert_eq!(p.scripts, vec!["graph.js"]);
    assert_eq!(p.breadcrumbs.len(), 3);
    let html = p.main.render();
    assert!(html.contains("data-mj-graph-src=\"/api/v1/graph?id=registry%20deps\""));
    assert!(html.contains("aria-label=\"Registry dependencies: 2 nodes, 1 edges. The same data is listed below.\""));
    assert!(html.contains("href=\"/cockpit/capabilities/a.query\""));
    assert!(html.contains("mj-badge--stable"));
    assert!(html.contains("<span class=\"mj-tag\">whatever</span>"));
    assert!(html.contains("<span class=\"mj-tag\">depends_on</span>"));
    assert!(html.contains("needs the other to run"));
    assert!(!html.contains("node limit"));
    assert!(graph(Ok(Ok(a_graph(true))), &filed).main.render().contains("node limit"));
}

#[test]
fn a_graph_nobody_derives_is_a_404_and_an_unreadable_one_a_failure() {
    let p = graph(Err("no graph `x`".into()), &vec![]);
    assert_eq!(p.status, 404);
    assert_eq!(p.title, "No such graph");
    assert!(p.main.render().contains("Every graph"));
    let q = graph(Ok(Err("missing field `nodes`".into())), &vec![]);
    assert_eq!(q.status, 500);
    assert_eq!(q.title, "Graph");
}
