use majordomus_cli::cockpit::assets::Assets;
use majordomus_cli::cockpit::{csp, route, Cockpit, Handling, Route, GET_ONLY};

fn q(pairs: &[(&str, &str)]) -> Vec<(String, String)> {
    pairs.iter().map(|(k, v)| (k.to_string(), v.to_string())).collect()
}

#[test]
fn only_get_reads_a_page() {
    assert!(matches!(Cockpit.handle("POST", "/cockpit", &[]), Handling::MethodNotAllowed));
    assert!(matches!(Cockpit.handle("GET", "/cockpit", &[]), Handling::Page(Route::Overview)));
    assert!(GET_ONLY.contains("GET"));
}

#[test]
fn an_asset_path_is_answered_with_its_version() {
    match Cockpit.handle("GET", "/cockpit/assets/js/graph.js", &q(&[("x", "1"), ("v", "abc"), ("v", "def")])) {
        Handling::Asset { name, version } => {
            assert_eq!(name, "js/graph.js");
            assert_eq!(version.as_deref(), Some("abc"));
        }
        _ => panic!("not an asset"),
    }
    match Cockpit.handle("GET", "/cockpit/assets/cockpit.css", &[]) {
        Handling::Asset { version, .. } => assert_eq!(version, None),
        _ => panic!("not an asset"),
    }
}

#[test]
fn a_trailing_slash_leads_where_the_path_without_it_does() {
    assert!(matches!(route("/cockpit/api/", &[]), Route::Api));
    assert!(matches!(route("/cockpit///", &[]), Route::Overview));
    assert!(matches!(route("/", &[]), Route::Overview));
    assert!(matches!(route("/cockpit/graphs/topology", &[]), Route::Topology));
    assert!(matches!(route("/cockpit/health", &[]), Route::Health));
}

#[test]
fn an_object_without_a_uri_is_the_object_list() {
    assert!(matches!(route("/cockpit/object", &[]), Route::Objects));
    match route("/cockpit/object", &q(&[("uri", "rule:a")])) {
        Route::Object { uri } => assert_eq!(uri, "rule:a"),
        _ => panic!("not an object"),
    }
}

#[test]
fn a_capability_and_a_graph_are_named_by_the_rest_of_the_path() {
    match route("/cockpit/capabilities/work.list/", &[]) {
        Route::Capability { id } => assert_eq!(id, "work.list"),
        _ => panic!("not a capability"),
    }
    match route("/cockpit/graphs/registry", &[]) {
        Route::Graph { id } => assert_eq!(id, "registry"),
        _ => panic!("not a graph"),
    }
}

#[test]
fn an_unknown_path_is_not_found_by_the_path_looked_for() {
    match route("/cockpit/nowhere/", &[]) {
        Route::NotFound { path } => assert_eq!(path, "/cockpit/nowhere"),
        _ => panic!("found"),
    }
}

#[test]
fn every_page_carries_the_policy_and_no_referrer() {
    let headers = Cockpit::page_headers("x");
    assert_eq!(headers.len(), 4);
    assert_eq!(headers[0], ("Cache-Control".to_string(), "no-cache".to_string()));
    assert_eq!(headers[1].1, csp("x"));
    assert_eq!(headers[3], ("Referrer-Policy".to_string(), "no-referrer".to_string()));
}

#[test]
fn the_shell_scripts_come_first_and_carry_their_digests() {
    let mut assets = Assets::new(Some("/nowhere".to_string()));
    assets.remember("cockpit.js", Some("let a = 1;".to_string()));
    let urls = Cockpit::script_urls(&assets, &vec!["graph.js"]);
    assert_eq!(urls.len(), 3);
    assert!(urls[0].starts_with("/cockpit/assets/cockpit.js?v="), "{urls:?}");
    assert_eq!(urls[1], "/cockpit/assets/palette.js");
    assert_eq!(urls[2], "/cockpit/assets/graph.js");
    assert!(assets.has("cockpit.js"));
    assert!(!assets.has("palette.js"));
}
