use majordomus_cli::cockpit::nav::Area;
use majordomus_cli::cockpit::pages::commands;
use majordomus_cli::cockpit::repertoire::{CommandEntry, CommandIndex};

fn q(pairs: &[(&str, &str)]) -> Vec<(String, String)> {
    pairs.iter().map(|(k, v)| (k.to_string(), v.to_string())).collect()
}

fn entry(id: &str, origin: &str, effect: &str, workflow: Option<&str>) -> CommandEntry {
    CommandEntry {
        id: id.to_string(),
        invocation: format!("majordomus {id}"),
        effect: effect.to_string(),
        origin: origin.to_string(),
        workflow: workflow.map(str::to_string),
        mcp: None,
        summary: format!("does {id}"),
    }
}

fn index() -> CommandIndex {
    CommandIndex {
        total: 3,
        fingerprint: "f1".to_string(),
        commands: vec![
            entry("native.bench", "executable", "read_only", Some("bench")),
            entry("shell.doctor", "tool", "local_mutation", None),
            entry("workflow.release", "workflow", "repository_mutation", Some("release")),
        ],
    }
}

#[test]
fn a_command_listing_that_did_not_answer_is_a_failed_page() {
    let p = commands(&[], Err("no graph".to_string()));
    assert_eq!(p.area, Area::Commands);
    assert_eq!(p.status, 500);
}

#[test]
fn every_command_is_a_row_with_where_it_appears() {
    let out = commands(&[], Ok(index())).main.render();
    assert!(out.contains("<code class=\"mj-mono\">just bench</code>"), "{out}");
    assert!(out.contains("<span class=\"mj-note\">—</span>"), "{out}");
    assert!(out.contains(">repository mutation<"), "{out}");
    assert!(out.contains("mj-badge--warn"), "{out}");
    assert!(out.contains("<span class=\"mj-chip-label\">every program</span><span class=\"mj-chip-count\">3</span>"), "{out}");
    assert!(out.contains("<span class=\"mj-chip-label\">shell tool</span><span class=\"mj-chip-count\">1</span>"), "{out}");
}

#[test]
fn a_filter_link_keeps_the_other_filters() {
    let out = commands(&q(&[("q", "be ch"), ("effect", "read_only")]), Ok(index())).main.render();
    assert!(out.contains("href=\"/cockpit/commands?origin=tool&amp;effect=read_only&amp;q=be%20ch\""), "{out}");
    assert!(out.contains("href=\"/cockpit/commands?q=be%20ch\""), "dropping the effect keeps the search: {out}");
    assert!(out.contains("mj-chip mj-chip--current\" href=\"/cockpit/commands?effect=read_only&amp;q=be%20ch\""), "{out}");
}
