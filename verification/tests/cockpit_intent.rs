use majordomus_cli::cockpit::intents::{
    Criterion, CriterionCoverage, EvidenceState, IndexObject, IntentExplanation, IntentFinding, IntentLink,
    IntentRecord, IntentStage, LinkProvenance, MilestoneRef, WorkUnit,
};
use majordomus_cli::cockpit::nav::Area;
use majordomus_cli::cockpit::pages::intent;

fn objects() -> Vec<IndexObject> {
    vec![
        IndexObject { kind: "test".into(), identity: "t.login".into(), uri: "test://t.login".into() },
        IndexObject { kind: "issue".into(), identity: "ISS-1".into(), uri: "issue://ISS-1".into() },
    ]
}

fn link(intent: &str, issue: &str, provenance: LinkProvenance) -> IntentLink {
    IntentLink { intent: intent.into(), issue: issue.into(), via: "serves".into(), provenance }
}

fn explanation() -> IntentExplanation {
    IntentExplanation {
        intent: IntentRecord {
            id: "INT-7".into(),
            title: "Logins are fast".into(),
            statement: "A login answers within a second.".into(),
            stage: IntentStage::Executing,
            met: 1,
            source: "intents/int-7.md".into(),
            satisfaction: vec![
                Criterion {
                    id: "C1".into(),
                    criterion: "p99 under 1s".into(),
                    state: EvidenceState::Current,
                    evidence: "test".into(),
                    reference: "t.login".into(),
                    reproduce: Some("just bench login".into()),
                },
                Criterion {
                    id: "C2".into(),
                    criterion: "documented".into(),
                    state: EvidenceState::NotRun,
                    evidence: "doc".into(),
                    reference: "docs/login.md".into(),
                    reproduce: None,
                },
            ],
            milestones: vec![MilestoneRef { id: "M1".into(), status: None }],
        },
        coverage: vec![CriterionCoverage { criterion: "C1".into(), issues: vec!["ISS-1".into(), "ISS-2".into()] }],
        work: vec![WorkUnit {
            kind: "task".into(),
            id: "T-9".into(),
            outcome: "done".into(),
            providers: vec!["alice".into(), "bob".into()],
            handovers: 2,
            links: vec![
                link("INT-7", "ISS-1", LinkProvenance::Inferred),
                link("INT-8", "ISS-5", LinkProvenance::Declared),
                link("INT-7", "ISS-2", LinkProvenance::Observed),
            ],
        }],
        because: vec!["one criterion lacks evidence".into()],
        realization_work: 3,
        findings: vec![IntentFinding {
            failing: true,
            code: "I001".into(),
            subject: "C2".into(),
            message: "no evidence".into(),
        }],
    }
}

#[test]
fn an_intent_nobody_declared_is_a_404_with_its_trail() {
    let p = intent("INT-0", Err("no intent INT-0".into()), &objects());
    assert_eq!(p.area, Area::Intents);
    assert_eq!(p.status, 404);
    assert_eq!(p.breadcrumbs.last().map(|c| c.0.as_str()), Some("INT-0"));
    assert!(p.main.render().contains("no intent INT-0"));
}

#[test]
fn every_criterion_shows_its_evidence_and_the_issues_serving_it() {
    let p = intent("INT-7", Ok(explanation()), &objects());
    assert_eq!(p.status, 200);
    assert_eq!(p.title, "Logins are fast");
    assert_eq!(p.subtitle.as_deref(), Some("intent INT-7"));
    let out = p.main.render();
    assert!(out.contains("href=\"/cockpit/object?uri=test%3A%2F%2Ft.login\""), "{out}");
    assert!(out.contains("doc docs/login.md"), "{out}");
    assert!(out.contains("issue%3A%2F%2FISS-1"), "{out}");
    assert!(out.contains(">ISS-2</"), "an issue the index does not hold is text: {out}");
    assert!(out.contains("aria-valuenow=\"50\""), "{out}");
    assert!(out.contains("1/2"), "{out}");
    assert!(out.contains("does not resolve"), "{out}");
}

#[test]
fn the_strongest_link_to_this_intent_is_shown_and_the_others_are_not_counted() {
    let out = intent("INT-7", Ok(explanation()), &objects()).main.render();
    assert!(out.contains("</span>observed</span>"), "{out}");
    assert!(out.contains("ISS-1 (serves), ISS-2 (serves)"), "{out}");
    assert!(!out.contains("ISS-5"), "{out}");
    assert!(out.contains("alice, bob"), "{out}");
    assert!(out.contains("I001 — C2: no evidence"), "{out}");
}

#[test]
fn an_intent_nothing_realises_says_so() {
    let mut e = explanation();
    e.work.clear();
    e.findings.clear();
    let out = intent("INT-7", Ok(e), &objects()).main.render();
    assert!(out.contains("No recorded task, session or live claim realises this intent."), "{out}");
    assert!(!out.contains("Findings"), "{out}");
}
