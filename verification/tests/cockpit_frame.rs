use majordomus_cli::cockpit::html::el;
use majordomus_cli::cockpit::nav::{build, Area, Catalogue, ModuleEntry};
use majordomus_cli::cockpit::view::{kind_badge, page, Shell, ThemeMarks};

fn catalogue(kinds: usize) -> Catalogue {
    Catalogue {
        capabilities: 3,
        http_routes: 2,
        objects: 1,
        kinds: (0..kinds).map(|k| (format!("kind {k}"), k)).collect(),
        graphs: vec!["registry".to_string()],
        modules: vec![
            ModuleEntry {
                id: "work".to_string(),
                title: "Work".to_string(),
                capabilities: 2,
                declarative: false,
                group: Some("Deliver".to_string()),
            },
            ModuleEntry {
                id: "health".to_string(),
                title: "Health".to_string(),
                capabilities: 1,
                declarative: false,
                group: None,
            },
        ],
    }
}

fn shell<'a>(nav: &'a majordomus_cli::cockpit::nav::Navigation, assets: bool) -> Shell<'a> {
    Shell {
        title: "API <routes>",
        subtitle: Some("Every route".to_string()),
        area: Area::Api,
        breadcrumbs: vec![
            ("Cockpit".to_string(), Some("/cockpit".to_string())),
            ("API".to_string(), None),
        ],
        navigation: nav,
        stylesheet: "/cockpit/assets/cockpit.css?v=abc".to_string(),
        scripts: vec!["/cockpit/assets/cockpit.js".to_string()],
        assets_present: assets,
        version: "1.2.3",
        bootstrap: "document.documentElement.dataset.theme='dark';",
        mark: "<svg></svg>",
        swagger: "/docs",
        theme: Some(ThemeMarks {
            storage_key: "mj-theme".to_string(),
            class: "dark".to_string(),
            fingerprint: "f00d".to_string(),
        }),
    }
}

#[test]
fn a_page_is_a_whole_document_with_its_title_escaped() {
    let nav = build(&catalogue(2), "/cockpit/api");
    let out = page(&shell(&nav, true), el("p").text("body"));
    assert!(out.starts_with("<!doctype html>"), "{out}");
    assert!(out.contains("<title>API &lt;routes&gt; · Majordomus Cockpit</title>"), "{out}");
    assert!(out.contains("<h1 class=\"mj-page-title\">API &lt;routes&gt;</h1>"), "{out}");
    assert!(out.contains("<p class=\"mj-page-subtitle\">Every route</p>"), "{out}");
    assert!(out.contains("<p>body</p>"), "{out}");
    assert!(out.ends_with("</html>\n"), "{out}");
}

#[test]
fn the_theme_statement_comes_before_every_module() {
    let nav = build(&catalogue(2), "/cockpit/api");
    let out = page(&shell(&nav, true), el("p"));
    let statement = out.find("<script>document.documentElement").expect("the inline statement");
    let module = out.find("type=\"module\"").expect("a module");
    assert!(statement < module, "{out}");
    assert!(out.contains("data-theme-key=\"mj-theme\""), "{out}");
    assert!(out.contains("data-design=\"f00d\""), "{out}");
}

#[test]
fn a_distribution_without_assets_says_so_on_every_page() {
    let nav = build(&catalogue(2), "/cockpit/api");
    let with = page(&shell(&nav, true), el("p"));
    let without = page(&shell(&nav, false), el("p"));
    assert!(!with.contains("no share/cockpit/ directory"));
    assert!(without.contains("no share/cockpit/ directory"), "{without}");
}

#[test]
fn the_current_area_is_marked_and_nothing_else_is() {
    let nav = build(&catalogue(2), "/cockpit/api");
    let out = page(&shell(&nav, true), el("p"));
    assert_eq!(out.matches("aria-current=\"page\"").count(), 2, "the nav link and the last crumb: {out}");
    assert!(out.contains("class=\"mj-nav-link mj-nav-link--current\" href=\"/cockpit/api\""), "{out}");
}

#[test]
fn the_trail_separates_crumbs_with_markup() {
    let nav = build(&catalogue(2), "/cockpit/api");
    let out = page(&shell(&nav, true), el("p"));
    assert!(out.contains("<li aria-hidden=\"true\">/</li>"), "{out}");
    assert_eq!(out.matches("<li aria-hidden=\"true\">/</li>").count(), 1);
}

#[test]
fn a_group_heading_is_shown_once_where_the_group_begins() {
    let nav = build(&catalogue(2), "/cockpit/api");
    let out = page(&shell(&nav, true), el("p"));
    assert_eq!(out.matches(">Deliver</li>").count(), 1, "{out}");
}

#[test]
fn a_long_catalogue_folds_and_a_short_one_does_not() {
    // the sixteen areas are more than twelve, so that section folds in both
    let nav = build(&catalogue(13), "/cockpit/api");
    let out = page(&shell(&nav, true), el("p"));
    assert_eq!(out.matches("mj-nav-section mj-nav-section--foldable").count(), 2, "{out}");
    assert_eq!(out.matches("<details class=\"mj-nav-section mj-nav-section--foldable\" open>").count(), 1, "{out}");
    let nav = build(&catalogue(12), "/cockpit/api");
    let out = page(&shell(&nav, true), el("p"));
    assert_eq!(out.matches("mj-nav-section mj-nav-section--foldable").count(), 1, "{out}");
}

#[test]
fn a_kind_is_a_badge_of_its_own_word() {
    let out = kind_badge("query").render();
    assert!(out.contains("mj-badge--query"), "{out}");
    assert!(out.contains(">query<"), "{out}");
}
