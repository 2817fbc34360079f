use majordomus_cli::cockpit::milestones::{
    CriticalBlocker, DevTaskDiagnostic, GraphNode, MilestoneGraph, ParallelSet, ScopeConflict,
};
use majordomus_cli::cockpit::nav::Area;
use majordomus_cli::cockpit::pages::milestone;
use majordomus_cli::cockpit::work::{AttestedCount, AttestedList, AttestedText};

fn text(value: Option<&str>) -> AttestedText {
    AttestedText {
        value: value.map(str::to_string),
        provenance: if value.is_some() { "explicit".into() } else { "unknown".into() },
        source: "plan/m1.md".into(),
        reason: if value.is_some() { None } else { Some("no record".into()) },
    }
}

fn list(values: &[&str]) -> AttestedList {
    AttestedList {
        values: values.iter().map(|v| v.to_string()).collect(),
        provenance: "explicit".into(),
        source: "plan/m1.md".into(),
        reason: None,
    }
}

fn graph() -> MilestoneGraph {
    MilestoneGraph {
        declared: true,
        total: 3,
        ready: vec!["ISS-1".into()],
        blocked: vec!["ISS-2".into()],
        waiting: vec![],
        active: vec![],
        review: vec![],
        completion_blocked: vec![],
        complete: vec!["milestone:M0".into()],
        cancelled: vec![],
        title: text(Some("Fast logins")),
        outcome: text(None),
        status: text(Some("active")),
        rank: AttestedCount { value: Some(2), provenance: "explicit".into(), source: "plan".into(), reason: None },
        depends_on: list(&["M0"]),
        blocked_by: list(&[]),
        dependents: AttestedList { values: vec![], provenance: "unknown".into(), source: "".into(), reason: Some("unread".into()) },
        record: None,
        critical_blockers: vec![CriticalBlocker {
            issue: "ISS-2".into(),
            readiness: "blocked".into(),
            blocks: vec!["ISS-3".into()],
            weight: 4,
        }],
        parallelizable: vec![ParallelSet {
            wave: 1,
            issues: vec!["ISS-1".into()],
            serialised: vec![ScopeConflict { held: "ISS-1".into(), excluded: "ISS-3".into(), path: "src/a.rs".into() }],
        }],
        nodes: vec![GraphNode {
            readiness: "ready".into(),
            canonical_status: "todo".into(),
            issue: "ISS-1".into(),
            title: "Cache tokens".into(),
            wave: None,
            priority: "high".into(),
            blocked_by: vec![],
            transitive_dependents: 0,
        }],
        cycles: vec![vec!["ISS-4".into(), "ISS-5".into(), "ISS-4".into()]],
        diagnostics: vec![DevTaskDiagnostic {
            level: "warning".into(),
            code: "D1".into(),
            message: "stale".into(),
            reproduce: "majordomus devtask check".into(),
        }],
    }
}

#[test]
fn a_milestone_graph_that_did_not_answer_is_a_failed_page() {
    let p = milestone("M1", Err("no plan".into()), &vec![]);
    assert_eq!(p.area, Area::Plan);
    assert_eq!(p.status, 500);
}

#[test]
fn a_milestone_the_plan_does_not_declare_is_a_404() {
    let mut g = graph();
    g.declared = false;
    let p = milestone("M9", Ok(g), &vec![]);
    assert_eq!(p.status, 404);
    assert!(p.main.render().contains("The plan declares no milestone `M9`."));
}

#[test]
fn a_milestone_shows_where_its_work_is_and_what_holds_it_back() {
    let p = milestone("M1", Ok(graph()), &vec!["active".to_string(), "blocked".to_string()]);
    assert_eq!(p.status, 200);
    assert_eq!(p.subtitle.as_deref(), Some("Fast logins"));
    let out = p.main.render();
    assert!(out.contains("href=\"/cockpit/plan/milestones/M0\""), "a gate links the milestone: {out}");
    assert!(out.contains("href=\"/cockpit/plan/issues/ISS-2\""), "{out}");
    assert!(out.contains("mj-badge--blocked"), "a filed word is a badge: {out}");
    assert!(out.contains("<span class=\"mj-tag\">ready</span>"), "an unfiled word is a tag: {out}");
    assert!(out.contains("unknown: no record"), "{out}");
    assert!(out.contains("unknown: unread"), "{out}");
    assert!(out.contains("ISS-1 before ISS-3: both touch src/a.rs"), "{out}");
    assert!(out.contains("ISS-4 → ISS-5 → ISS-4"), "{out}");
    assert!(out.contains("/cockpit/plan?milestone=M1"), "{out}");
    assert!(out.contains("majordomus devtask check"), "{out}");
}
