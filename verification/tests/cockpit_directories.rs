use majordomus_cli::cockpit::layer::{
    focus, Contract, DirectoryEntry, DirectoryReport, DirectoryState, DirectoryTallies, EffectiveEntry,
};
use majordomus_cli::cockpit::nav::Area;
use majordomus_cli::cockpit::pages::directories;

fn q(pairs: &[(&str, &str)]) -> Vec<(String, String)> {
    pairs.iter().map(|(k, v)| (k.to_string(), v.to_string())).collect()
}

fn entry(path: &str, depth: usize, state: DirectoryState) -> DirectoryEntry {
    DirectoryEntry {
        path: path.to_string(),
        depth,
        state,
        exempted_by: None,
        governed_by: if depth > 0 { Some("ctx:root".to_string()) } else { None },
        contract: None,
        objects: 3,
        effective: vec![],
    }
}

fn report(owed: usize) -> DirectoryReport {
    DirectoryReport {
        tallies: DirectoryTallies { directories: 2, documented: 1, exempt: 0, owed },
        directories: vec![entry(".ai", 0, DirectoryState::Documented), entry(".ai/repo/rules", 2, DirectoryState::Owed)],
    }
}

#[test]
fn the_focus_is_a_non_empty_path() {
    assert_eq!(focus(&q(&[("path", ".ai")])).as_deref(), Some(".ai"));
    assert_eq!(focus(&q(&[("path", "")])), None);
    assert_eq!(focus(&q(&[("x", "1")])), None);
}

#[test]
fn a_directory_listing_that_did_not_answer_is_a_failed_page() {
    let p = directories(&[], Err("no index".to_string()), None);
    assert_eq!(p.area, Area::Directories);
    assert_eq!(p.status, 500);
}

#[test]
fn every_directory_is_a_row_named_by_its_last_segment() {
    let p = directories(&[], Ok(report(1)), None);
    let out = p.main.render();
    assert!(out.contains("href=\"/cockpit/directories?path=.ai%2Frepo%2Frules\">rules</a>"), "{out}");
    assert!(out.contains("href=\"/cockpit/directories?path=.ai\">.ai</a>"), "{out}");
    assert!(out.contains(&"\u{a0}".repeat(6)), "two levels are six no-break spaces: {out}");
    assert!(out.contains("1 directory(ies) owe a contract"), "{out}");
    assert!(out.contains("<code class=\"mj-mono\">ctx:root</code>"), "{out}");
    assert!(out.contains("nothing declares it"), "{out}");
    assert!(!out.contains("Local contract"), "{out}");
}

#[test]
fn nothing_owed_is_said_as_a_note() {
    let out = directories(&[], Ok(report(0)), None).main.render();
    assert!(out.contains("Every directory here says what it is for"), "{out}");
}

#[test]
fn a_focused_directory_shows_its_contract_and_its_chain() {
    let mut one = entry(".ai/repo", 1, DirectoryState::Documented);
    one.contract = Some(Contract {
        id: "ctx:repo".to_string(),
        description: Some("the repository layer".to_string()),
        path: ".ai/repo/CONTEXT.md".to_string(),
        scope: "subtree".to_string(),
        composition: "extend".to_string(),
        order: 10,
        status: "active".to_string(),
        providers: vec!["core".to_string(), "team".to_string()],
        audience: vec!["agents".to_string()],
    });
    one.effective = vec![EffectiveEntry {
        depth: 0,
        id: "ctx:root".to_string(),
        local: false,
        composition: "extend".to_string(),
        order: 0,
        reason: "the root reaches everything".to_string(),
    }];
    let answer = DirectoryReport { tallies: DirectoryTallies { directories: 1, documented: 1, exempt: 0, owed: 0 }, directories: vec![one] };
    let out = directories(&q(&[("path", ".ai/repo")]), Ok(report(0)), Some(Ok(answer))).main.render();
    assert!(out.contains("Local contract — .ai/repo"), "{out}");
    assert!(out.contains("<span>core, team</span>"), "{out}");
    assert!(out.contains("<span>10</span>"), "{out}");
    assert!(out.contains(">inherited<"), "{out}");
}

#[test]
fn a_focus_the_layer_does_not_hold_is_said() {
    let empty = DirectoryReport { tallies: DirectoryTallies { directories: 0, documented: 0, exempt: 0, owed: 0 }, directories: vec![] };
    let out = directories(&q(&[("path", "nowhere")]), Ok(report(0)), Some(Ok(empty))).main.render();
    assert!(out.contains("no directory &#39;nowhere&#39; in the layer"), "{out}");
}
