use majordomus_cli::cockpit::catalogue::{contains_text, CapabilityEntry, Provenance};
use majordomus_cli::cockpit::nav::Area;
use majordomus_cli::cockpit::pages::capabilities;

fn q(pairs: &[(&str, &str)]) -> Vec<(String, String)> {
    pairs.iter().map(|(k, v)| (k.to_string(), v.to_string())).collect()
}

fn cap(id: &str, module: &str, kind: &str, provenance: Provenance) -> CapabilityEntry {
    CapabilityEntry {
        id: id.to_string(),
        kind: kind.to_string(),
        title: format!("Title of {id}"),
        description: "Does a Thing".to_string(),
        module: module.to_string(),
        mcp: kind == "query",
        http: true,
        cli: false,
        provenance,
        cached: id.ends_with("cached"),
    }
}

fn registry() -> Vec<CapabilityEntry> {
    vec![
        cap("work.list", "work", "query", Provenance::Builtin),
        cap("health.report", "health", "query", Provenance::Builtin),
        cap("work.close", "work", "command", Provenance::Declarative { path: "generated/work.yaml".to_string() }),
        cap("design.cached", "design", "resource", Provenance::Declarative { path: "share/design.yaml".to_string() }),
    ]
}

fn modules() -> Vec<String> {
    vec!["work".to_string(), "health".to_string(), "design".to_string()]
}

#[test]
fn a_text_holds_what_it_holds() {
    assert!(contains_text("work.list", "k.l"));
    assert!(contains_text("abc", ""));
    assert!(!contains_text("ab", "abc"));
    assert!(!contains_text("work", "wrk"));
}

#[test]
fn with_no_filter_everything_is_listed_and_counted() {
    let p = capabilities(&[], &registry(), &modules(), "generated/");
    assert_eq!(p.area, Area::Capabilities);
    assert_eq!(p.subtitle.as_deref().unwrap_or("").split(" of ").next(), Some("4"));
    let out = p.main.render();
    for id in ["work.list", "health.report", "work.close", "design.cached"] {
        assert!(out.contains(&format!(">{id}</a>")), "{id}: {out}");
    }
    assert!(out.contains("mj-badge--generated"), "{out}");
    assert!(out.contains("mj-badge--cached"), "{out}");
    let design = out.find(">design</span>").expect("design chip");
    let health = out.find(">health</span>").expect("health chip");
    let work = out.find(">work</span>").expect("work chip");
    assert!(design < health && health < work, "the modules come in the order of their names: {out}");
    assert!(out.contains("<span class=\"mj-chip-label\">All modules</span><span class=\"mj-chip-count\">4</span>"), "{out}");
}

#[test]
fn a_module_filter_narrows_the_rows_but_not_the_ways_in() {
    let p = capabilities(&q(&[("module", "work")]), &registry(), &modules(), "generated/");
    assert!(p.subtitle.as_deref().unwrap_or("").starts_with("2 of 4"), "{:?}", p.subtitle);
    let out = p.main.render();
    assert!(!out.contains(">health.report</a>"), "{out}");
    assert!(out.contains(">health</span>"), "the other modules stay as ways in: {out}");
    assert!(out.contains("mj-chip mj-chip--current\" href=\"/cockpit/capabilities?module=work\""), "{out}");
}

#[test]
fn a_search_is_case_folded_and_kept_in_its_field() {
    let p = capabilities(&q(&[("q", "REPORT")]), &registry(), &modules(), "generated/");
    let out = p.main.render();
    assert!(out.contains(">health.report</a>"), "{out}");
    assert!(!out.contains(">work.list</a>"), "{out}");
    assert!(out.contains("value=\"report\""), "{out}");
}

#[test]
fn kind_and_source_filters_compose() {
    let p = capabilities(&q(&[("kind", "command"), ("source", "declarative")]), &registry(), &modules(), "generated/");
    let out = p.main.render();
    assert!(out.contains(">work.close</a>"), "{out}");
    assert!(!out.contains(">design.cached</a>"), "{out}");
    let none = capabilities(&q(&[("kind", "nothing")]), &registry(), &modules(), "generated/");
    assert!(none.main.render().contains("No capability matches these filters."));
}

#[test]
fn a_long_registry_is_paged_and_the_filters_survive_paging() {
    let many: Vec<CapabilityEntry> =
        (0..120).map(|k| cap(&format!("bulk.c{k:03}"), "bulk", "query", Provenance::Builtin)).collect();
    let p = capabilities(&q(&[("kind", "query"), ("page", "3")]), &many, &vec!["bulk".to_string()], "generated/");
    let out = p.main.render();
    assert!(out.contains("101–120 of 120"), "{out}");
    assert!(out.contains(">bulk.c100</a>"), "{out}");
    assert!(!out.contains(">bulk.c099</a>"), "{out}");
    assert!(out.contains("href=\"/cockpit/capabilities?kind=query&amp;page=2\""), "{out}");
}
