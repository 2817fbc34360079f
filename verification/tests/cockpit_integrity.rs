use majordomus_cli::cockpit::integrity::{
    Audit, AuditMention, AuditSurface, CapabilityAudit, ExceptionStatus, Violation,
};
use majordomus_cli::cockpit::knowledge::{integrity, integrity_capability};
use majordomus_cli::cockpit::nav::Area;
use majordomus_cli::cockpit::view::theme_bootstrap;

fn capability(id: &str, mms: usize, mentions: Vec<AuditMention>) -> CapabilityAudit {
    CapabilityAudit {
        id: id.into(),
        mms,
        verdict: if mms == 1 { "pass".into() } else { "fail".into() },
        canonical_source: "registry/caps.yaml".into(),
        surfaces: vec![
            AuditSurface { name: "cli".into(), derived: true, detail: "the command line".into() },
            AuditSurface { name: "docs".into(), derived: false, detail: "a page written by hand".into() },
        ],
        mentions,
    }
}

fn audit() -> Audit {
    Audit {
        verdict: "fail".into(),
        date: "2025-05-01".into(),
        summary: "2 capabilities, 1 canonical".into(),
        canonical: 1,
        mms_centi: 150,
        capabilities: vec![
            capability("query.a b", 1, vec![]),
            capability(
                "command.b",
                2,
                vec![AuditMention { path: "README.md".into(), line: 12, text: "run command.b".into() }],
            ),
        ],
        violations: vec![
            Violation {
                class: "mirror".into(),
                subject: "capability:command.b".into(),
                reason: "named by hand".into(),
                remedy: "derive it".into(),
                tolerated: false,
                excepted_by: None,
            },
            Violation {
                class: "orphan".into(),
                subject: "capability:query.a".into(),
                reason: "old".into(),
                remedy: "remove it".into(),
                tolerated: true,
                excepted_by: None,
            },
            Violation {
                class: "mirror".into(),
                subject: "capability:x".into(),
                reason: "kept".into(),
                remedy: "none".into(),
                tolerated: false,
                excepted_by: Some("EX-1".into()),
            },
        ],
        exceptions: vec![ExceptionStatus {
            id: "EX-1".into(),
            owner: "alice".into(),
            expires: "2026-01-01".into(),
            reason: "migration".into(),
            validation: "manual".into(),
            status: "expired".into(),
        }],
    }
}

#[test]
fn the_integrity_page_counts_only_violations_neither_tolerated_nor_excepted() {
    let p = integrity(Ok(audit()));
    assert_eq!(p.area, Area::Integrity);
    assert_eq!(p.status, 200);
    assert_eq!(p.title, "System integrity");
    assert_eq!(p.subtitle.as_deref(), Some("2 capabilities, 1 canonical"));
    let html = p.main.render();
    assert!(html.contains("1.50"));
    assert!(html.contains("excepted by EX-1"));
    assert!(html.contains("tolerated"));
    assert!(html.contains("/cockpit/integrity/query.a%20b"));
    assert!(html.contains("/cockpit/knowledge/node?id="));
    assert!(html.contains("<span class=\"mj-stat-value\">3</span><span class=\"mj-stat-label\">violations</span>"));
    assert!(html.contains("<span class=\"mj-stat-value\">1</span><span class=\"mj-stat-label\">counting</span>"));
}

#[test]
fn a_mean_mms_under_a_tenth_keeps_two_places() {
    let mut a = audit();
    a.mms_centi = 105;
    assert!(integrity(Ok(a)).main.render().contains("1.05"));
}

#[test]
fn an_audit_with_no_violation_and_no_exception_says_so() {
    let mut a = audit();
    a.violations.clear();
    a.exceptions.clear();
    let html = integrity(Ok(a)).main.render();
    assert!(html.contains("No orphan projection"));
    assert!(html.contains("No exception is declared"));
}

#[test]
fn an_audit_that_did_not_answer_fails_the_integrity_page() {
    let p = integrity(Err("the audit failed".into()));
    assert_eq!(p.status, 500);
    assert_eq!(p.area, Area::Integrity);
    assert!(p.main.render().contains("the audit failed"));
}

#[test]
fn one_capability_shows_its_surfaces_and_mentions() {
    let mut a = audit();
    a.capabilities.remove(0);
    let p = integrity_capability("command.b", Ok(a));
    assert_eq!(p.status, 200);
    assert_eq!(p.title, "command.b");
    assert_eq!(p.breadcrumbs.len(), 3);
    assert_eq!(p.breadcrumbs[1].1.as_deref(), Some("/cockpit/integrity"));
    let html = p.main.render();
    assert!(html.contains("MMS 2 · fail"));
    assert!(html.contains("✓ derived"));
    assert!(html.contains("✗ by hand"));
    assert!(html.contains("README.md"));
    assert!(html.contains(">12<"));
    assert!(html.contains("/cockpit/capabilities/command.b"));
    assert!(html.contains("capability%3Acommand.b"));
}

#[test]
fn a_capability_nobody_names_by_hand_says_so() {
    let p = integrity_capability("query.a b", Ok(audit()));
    assert!(p.main.render().contains("No hand-written file names it apart from its declaration."));
}

#[test]
fn a_capability_the_audit_does_not_hold_is_a_404() {
    let mut a = audit();
    a.capabilities.clear();
    let p = integrity_capability("nope", Ok(a));
    assert_eq!(p.status, 404);
    assert_eq!(p.title, "No such capability");
    assert!(p.main.render().contains("no query or command `nope`"));
    let q = integrity_capability("nope", Err("unknown".into()));
    assert_eq!(q.status, 404);
    assert!(q.main.render().contains("unknown"));
}

#[test]
fn the_theme_statement_is_the_compiled_one_or_nothing() {
    assert_eq!(theme_bootstrap(Some("document.documentElement.dataset.theme='dark'")), "document.documentElement.dataset.theme='dark'");
    assert_eq!(theme_bootstrap(None), "");
}
