use majordomus_cli::cockpit::nav::Area;
use majordomus_cli::cockpit::pages::health;
use majordomus_cli::cockpit::wellbeing::{HealthCheck, HealthReport, HealthStatus};

fn check(title: &str, status: HealthStatus, findings: Vec<&str>) -> HealthCheck {
    HealthCheck {
        title: title.to_string(),
        status,
        detail: "What it found.".to_string(),
        decided_by: "capabilities validate".to_string(),
        evidence: vec!["registry.json".to_string()],
        findings: findings.into_iter().map(str::to_string).collect(),
    }
}

#[test]
fn a_health_report_that_did_not_answer_is_a_failed_page() {
    let p = health(Err("down".to_string()));
    assert_eq!(p.area, Area::Health);
    assert_eq!(p.status, 500);
}

#[test]
fn every_check_is_a_card_with_the_engine_that_decided_it() {
    let report = HealthReport {
        status: HealthStatus::Warn,
        tallies: vec![("ok".to_string(), 1), ("warn".to_string(), 1)],
        checks: vec![check("Registry", HealthStatus::Good, vec![]), check("Bench", HealthStatus::Warn, vec!["a", "b"])],
    };
    let out = health(Ok(report)).main.render();
    assert!(out.contains("something is worth looking at"), "{out}");
    assert!(out.contains(">1 warn</span>"), "{out}");
    assert_eq!(out.matches("capabilities validate").count(), 2, "{out}");
    assert!(out.contains("2 finding(s)"), "{out}");
    assert_eq!(out.matches("finding(s)").count(), 1, "a check with none shows none: {out}");
    assert!(out.contains("<li>a</li><li>b</li>"), "{out}");
}
