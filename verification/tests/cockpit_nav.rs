use majordomus_cli::cockpit::nav::{areas, build, Area, Catalogue, Item, ModuleEntry};
use majordomus_cli::order::natural_compare;

fn module(id: &str, title: &str, group: Option<&str>, declarative: bool) -> ModuleEntry {
    ModuleEntry {
        id: id.to_string(),
        title: title.to_string(),
        capabilities: 3,
        declarative,
        group: group.map(str::to_string),
    }
}

fn catalogue() -> Catalogue {
    Catalogue {
        capabilities: 42,
        http_routes: 17,
        objects: 9,
        kinds: vec![
            ("rule".to_string(), 4),
            ("skill".to_string(), 3),
            ("agent".to_string(), 2),
        ],
        graphs: vec!["dependency".to_string(), "authority".to_string()],
        modules: vec![
            module("repository", "Repository", Some("Operate"), false),
            module("health", "Health", None, false),
            module("work", "Work items", Some("Deliver"), false),
            module("cockpit", "Cockpit", Some("Operate"), false),
            module("declared", "Declared things", None, true),
            module("graphs", "Graphs", Some("Deliver"), false),
            module("zeta", "zeta", None, false),
        ],
    }
}

#[test]
fn the_module_catalogue_is_the_registrys_and_not_a_list_here() {
    let c = catalogue();
    let nav = build(&c, "/cockpit");
    let modules = nav
        .sections()
        .iter()
        .find(|s| s.title == "Capability modules")
        .expect("a module section");
    let labels: Vec<&str> = modules.items.iter().map(|i| i.label.as_str()).collect();
    let expected = c.modules.iter().filter(|m| !m.declarative).count();
    assert_eq!(labels.len(), expected);
    assert!(expected > 0, "the registry composes modules");
    assert!(modules
        .items
        .iter()
        .any(|i| i.href == "/cockpit/capabilities?module=repository"));
}

#[test]
fn a_grouped_section_keeps_its_groups_contiguous_and_the_ungrouped_last() {
    let nav = build(&catalogue(), "/cockpit");
    for section in nav.sections() {
        let mut seen: Vec<&str> = Vec::new();
        let mut ungrouped = false;
        for item in &section.items {
            match item.group.as_deref() {
                Some(g) => {
                    assert!(!ungrouped, "a grouped entry follows an ungrouped one in '{}'", section.title);
                    if seen.last().copied() != Some(g) {
                        assert!(!seen.contains(&g), "the group '{g}' appears twice in '{}'", section.title);
                        seen.push(g);
                    }
                }
                None => ungrouped = true,
            }
        }
    }
}

#[test]
fn the_current_page_is_marked_once() {
    let nav = build(&catalogue(), "/cockpit/health");
    let current: Vec<&Item> = nav
        .sections()
        .iter()
        .flat_map(|s| &s.items)
        .filter(|i| i.current)
        .collect();
    assert_eq!(current.len(), 1);
    assert_eq!(current[0].label, "Health");
}

#[test]
fn every_section_reads_alphabetically() {
    let mut c = catalogue();
    for m in &mut c.modules {
        m.group = None;
    }
    let nav = build(&c, "/cockpit");
    assert!(!nav.sections().is_empty(), "there is something to order");
    for section in nav.sections() {
        let labels: Vec<String> = section.items.iter().map(|i| i.label.to_lowercase()).collect();
        let mut sorted = labels.clone();
        sorted.sort();
        assert_eq!(labels, sorted, "section {} is out of order", section.title);
    }
}

#[test]
fn the_areas_are_ordered_by_name_and_not_by_the_order_they_are_written_in() {
    let nav = build(&catalogue(), "/cockpit");
    let areas = nav
        .sections()
        .iter()
        .find(|s| s.title == "Cockpit")
        .expect("the area section");
    let labels: Vec<&str> = areas.items.iter().map(|i| i.label.as_str()).collect();
    assert_eq!(labels.first(), Some(&"API"));
    assert_eq!(labels.last(), Some(&"Worktrees"));
}

#[test]
fn the_kind_catalogue_is_the_layers_and_reads_alphabetically() {
    let nav = build(&catalogue(), "/cockpit");
    let kinds = nav
        .sections()
        .iter()
        .find(|s| s.title == "Object kinds")
        .expect("a kind section");
    let labels: Vec<&str> = kinds.items.iter().map(|i| i.label.as_str()).collect();
    assert_eq!(labels, vec!["agent", "rule", "skill"]);
    assert_eq!(kinds.items[1].count, Some(4));
    assert_eq!(kinds.items[1].href, "/cockpit/objects?kind=rule");
}

#[test]
fn the_counts_are_facts_of_the_catalogue() {
    let nav = build(&catalogue(), "/cockpit/graphs/authority");
    let areas = &nav.sections()[0];
    let find = |label: &str| areas.items.iter().find(|i| i.label == label).unwrap();
    assert_eq!(find("Capabilities").count, Some(42));
    assert_eq!(find("Objects").count, Some(9));
    assert_eq!(find("Graphs").count, Some(2));
    assert_eq!(find("API").count, Some(17));
    assert_eq!(find("Health").count, None);
    let graphs = nav.sections().iter().find(|s| s.title == "Graphs").unwrap();
    let current: Vec<&str> = graphs.items.iter().filter(|i| i.current).map(|i| i.label.as_str()).collect();
    assert_eq!(current, vec!["authority"]);
    assert_eq!(areas.items.len(), areas_count());
    assert_eq!(areas.items.iter().filter(|i| i.area == Area::Api).count(), 1);
}

fn areas_count() -> usize {
    areas().len()
}

#[test]
fn an_empty_catalogue_leaves_its_section_out() {
    let mut c = catalogue();
    c.kinds.clear();
    c.graphs.clear();
    let nav = build(&c, "/cockpit");
    let titles: Vec<&str> = nav.sections().iter().map(|s| s.title.as_str()).collect();
    assert_eq!(titles, vec!["Cockpit", "Capability modules"]);
}

#[test]
fn digit_runs_are_ordered_by_value_and_case_is_folded() {
    assert_eq!(natural_compare("item 9", "item 10"), -1);
    assert_eq!(natural_compare("API", "artifacts"), -1);
    assert_eq!(natural_compare("b", "A"), 1);
    assert_eq!(natural_compare("x007", "x7"), 0);
    assert_eq!(natural_compare("", "a"), -1);
}

#[test]
fn the_areas_are_the_ones_the_cockpit_documents() {
    let mut labels: Vec<&str> = areas().iter().map(|a| a.label).collect();
    labels.sort();
    let mut documented = vec![
        "Overview", "Capabilities", "Commands", "Executions", "Objects", "Directories", "Graphs", "Continuity",
        "Worktrees", "Health", "Quality", "Artifacts", "Design", "API",
    ];
    documented.sort();
    assert_eq!(labels, documented);
    for a in areas() {
        if a.area != Area::Overview {
            assert_eq!(a.href, format!("/cockpit/{}", a.id));
        }
    }
}
