use majordomus_cli::cockpit::checkouts::Severity;
use majordomus_cli::cockpit::landing::{
    CapabilityCounts, GitState, IndexState, InstallCheck, InstallabilityReport, LayerDiagnostic, RepositoryIdentity,
    RepositoryReport,
};
use majordomus_cli::cockpit::nav::Area;
use majordomus_cli::cockpit::pages::overview;
use majordomus_cli::cockpit::wellbeing::{HealthCheck, HealthReport, HealthStatus};

fn repository(git: GitState, diagnostics: Vec<LayerDiagnostic>) -> RepositoryReport {
    RepositoryReport {
        repository: RepositoryIdentity {
            root: "/src/repo".to_string(),
            layer_schema: "layer/v1".to_string(),
            git,
            discovery: "walked up".to_string(),
            scope_path: "docs".to_string(),
            scope_origin: "flag".to_string(),
        },
        capabilities: CapabilityCounts { total: 42, http_routes: 7, mcp_tools: 5, modules: 3, cached: 2 },
        objects: 128,
        state: IndexState::Intact,
        kinds: vec![("adr record".to_string(), 9)],
        diagnostics,
    }
}

fn health() -> HealthReport {
    HealthReport {
        status: HealthStatus::Warn,
        tallies: vec![],
        checks: vec![HealthCheck {
            title: "Registry".to_string(),
            status: HealthStatus::Good,
            detail: "valid".to_string(),
            decided_by: "capabilities validate".to_string(),
            evidence: vec![],
            findings: vec![],
        }],
    }
}

fn available() -> GitState {
    GitState::Available {
        branch: Some("main".to_string()),
        head: Some("0123456789abcdef0123".to_string()),
        working_tree: "clean".to_string(),
    }
}

#[test]
fn an_overview_whose_repository_report_did_not_answer_is_a_failed_page() {
    let p = overview(Err("no index".to_string()), Ok(health()), None, "1.2.3", "A summary.");
    assert_eq!(p.area, Area::Overview);
    assert_eq!(p.status, 500);
    let q = overview(Ok(repository(available(), vec![])), Err("down".to_string()), None, "1.2.3", "A summary.");
    assert_eq!(q.status, 500);
    assert!(q.main.render().contains("down"));
}

#[test]
fn the_landing_page_counts_names_and_links_what_it_serves() {
    let p = overview(Ok(repository(available(), vec![])), Ok(health()), None, "1.2.3", "A summary.");
    assert_eq!(p.status, 200);
    assert_eq!(p.subtitle.as_deref(), Some("A summary."));
    let out = p.main.render();
    assert!(out.contains(">42</span>"), "{out}");
    assert!(out.contains("main · 0123456789ab · clean"), "{out}");
    assert!(out.contains("majordomus 1.2.3"), "{out}");
    assert!(out.contains("/cockpit/objects?kind=adr%20record"), "{out}");
    assert!(out.contains("something is worth looking at"), "{out}");
    assert!(out.contains("Every declared file became an object."), "{out}");
    assert!(!out.contains("Distribution"), "{out}");
}

#[test]
fn a_detached_unborn_checkout_and_a_missing_repository_are_said_in_words() {
    let detached = GitState::Available { branch: None, head: None, working_tree: "dirty".to_string() };
    let out = overview(Ok(repository(detached, vec![])), Ok(health()), None, "1", "s").main.render();
    assert!(out.contains("(detached) · (unborn) · dirty"), "{out}");
    let none = GitState::Unavailable { reason: "no git here".to_string() };
    let out = overview(Ok(repository(none, vec![])), Ok(health()), None, "1", "s").main.render();
    assert!(out.contains("no git here"), "{out}");
}

#[test]
fn a_finding_of_the_index_is_a_row_with_a_dash_for_no_path() {
    let d = LayerDiagnostic {
        severity: Severity::Error,
        code: "E001".to_string(),
        path: None,
        message: "broken".to_string(),
    };
    let out = overview(Ok(repository(available(), vec![d])), Ok(health()), None, "1", "s").main.render();
    assert!(out.contains("mj-badge--fail"), "{out}");
    assert!(out.contains("E001"), "{out}");
    assert!(out.contains(">-</"), "{out}");
    assert!(!out.contains("Every declared file became an object."), "{out}");
}

#[test]
fn a_blocked_install_says_why_from_the_first_failed_check() {
    let report = InstallabilityReport {
        installable: false,
        local_version: "1.2.3".to_string(),
        stable_tag: None,
        published_artifacts: 2,
        required_targets: 5,
        checks: vec![
            InstallCheck { failed: false, cause: Some("fine".to_string()), next: None },
            InstallCheck { failed: true, cause: Some("no artifact".to_string()), next: Some("publish".to_string()) },
            InstallCheck { failed: true, cause: Some("later".to_string()), next: None },
        ],
        install_command: "curl | sh".to_string(),
    };
    let out = overview(Ok(repository(available(), vec![])), Ok(health()), Some(report), "1", "s").main.render();
    assert!(out.contains("v1.2.3"), "{out}");
    assert!(out.contains(">none</"), "{out}");
    assert!(out.contains("2/5"), "{out}");
    assert!(out.contains("</span>blocked</span>"), "{out}");
    assert!(out.contains("no artifact"), "{out}");
    assert!(out.contains("publish"), "{out}");
    assert!(!out.contains("fine"), "{out}");
    assert!(!out.contains("later"), "{out}");
}
