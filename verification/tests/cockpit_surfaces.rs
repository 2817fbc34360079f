use majordomus_cli::cockpit::nav::Area;
use majordomus_cli::cockpit::pages::{api, topology};
use majordomus_cli::cockpit::surfaces::{HttpRoute, ProjectionRoute, RegistrySummary};

fn http(method: &str, path: &str, id: &str) -> HttpRoute {
    HttpRoute {
        method: method.to_string(),
        path: path.to_string(),
        id: id.to_string(),
        title: format!("the {id}"),
        kind: "query".to_string(),
    }
}

#[test]
fn the_topology_is_also_text() {
    let p = topology(&RegistrySummary { builtin: 7, mcp_tools: 5, http_routes: 4, cli_commands: 3 });
    assert_eq!(p.area, Area::Graphs);
    assert_eq!(p.title, "Topology");
    assert_eq!(p.scripts, vec!["topology.js"]);
    let out = p.main.render();
    assert!(out.contains("<span class=\"mj-stat-value\">7</span><span class=\"mj-stat-label\">builtin capabilities</span>"), "{out}");
    assert!(out.contains("data-mj-topology-src=\"/api/v1/graph?id=registry\""), "{out}");
    assert_eq!(p.breadcrumbs.len(), 3);
    assert_eq!(p.breadcrumbs[2], ("Topology".to_string(), None));
}

#[test]
fn routes_are_ordered_as_routes_before_they_are_rendered() {
    let p = api(
        vec![
            http("POST", "/api/v1/work/10", "work.close"),
            http("GET", "/api/v1/work/9", "work.show"),
            http("GET", "/api/v1/graph", "graph.show"),
            http("DELETE", "/api/v1/work/9", "work.drop"),
        ],
        vec![ProjectionRoute { path: "/openapi.json".to_string(), what: "the document".to_string(), linkable: true }],
        "/docs",
        "/openapi.json",
    );
    assert_eq!(p.area, Area::Api);
    let out = p.main.render();
    let at = |id: &str| out.find(&format!(">{id}</a>")).unwrap_or_else(|| panic!("{id} in {out}"));
    assert!(at("graph.show") < at("work.drop"));
    assert!(at("work.drop") < at("work.show"), "DELETE before GET on one path");
    assert!(at("work.show") < at("work.close"), "9 before 10");
    assert!(out.contains("a running server, and a publication"), "{out}");
    assert!(out.contains("reads /openapi.json, which"), "{out}");
    assert!(out.contains("href=\"/cockpit/capabilities/work.close\""), "{out}");
}

#[test]
fn an_empty_registry_still_lists_the_projections_own_routes() {
    let p = api(
        vec![],
        vec![ProjectionRoute { path: "/health".to_string(), what: "liveness".to_string(), linkable: false }],
        "/docs",
        "/openapi.json",
    );
    let out = p.main.render();
    assert!(out.contains("<td>a running server</td>"), "{out}");
}
