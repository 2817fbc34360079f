use majordomus_cli::cockpit::nav::Area;
use majordomus_cli::cockpit::pages::plan;
use majordomus_cli::cockpit::roadmap::{
    plan_filter, ListedIssue, NextIssue, PlanIssueList, PlanNextIssue, PlanRoadmap, RoadmapMilestone,
};

fn q(pairs: &[(&str, &str)]) -> Vec<(String, String)> {
    pairs.iter().map(|(k, v)| (k.to_string(), v.to_string())).collect()
}

fn roadmap() -> PlanRoadmap {
    PlanRoadmap {
        milestones: vec![RoadmapMilestone {
            id: "M1".into(),
            title: "Fast logins".into(),
            status: "active".into(),
            by_status: vec![("todo".into(), 2), ("done".into(), 0)],
            rank: 1,
            blocked_by: vec![],
        }],
        now: Some("M1".into()),
        next: None,
    }
}

fn next() -> PlanNextIssue {
    PlanNextIssue {
        issue: Some(NextIssue {
            id: "ISS-1".into(),
            title: "Cache tokens".into(),
            status: "todo".into(),
            milestone: "M1".into(),
            wave: 2,
            objective: "Faster".into(),
        }),
        reason: None,
    }
}

fn list(issues: Vec<ListedIssue>) -> PlanIssueList {
    PlanIssueList { total: issues.len(), issues, statuses: vec!["todo".into(), "done".into()] }
}

fn issue() -> ListedIssue {
    ListedIssue {
        status: "todo".into(),
        id: "ISS-1".into(),
        title: "Cache tokens".into(),
        milestone: "M1".into(),
        wave: 2,
        priority: "high".into(),
        blocked_by: vec!["milestone:M0".into()],
        evidence_have: 1,
        evidence_need: 3,
    }
}

#[test]
fn a_wave_that_is_not_a_number_is_a_400_that_says_so() {
    let p = plan(&q(&[("wave", "two")]), Ok(roadmap()), Ok(next()), Ok(list(vec![])), &vec![]);
    assert_eq!(p.area, Area::Plan);
    assert_eq!(p.status, 400);
    assert!(p.main.render().contains("`wave` is a whole number, and `two` is not one"));
    assert!(plan_filter(&q(&[("wave", "4294967296")])).is_err());
    let f = plan_filter(&q(&[("wave", "+3"), ("status", "todo"), ("milestone", "")])).unwrap();
    assert_eq!(f.wave, Some(3));
    assert_eq!(f.status.as_deref(), Some("todo"));
    assert_eq!(f.milestone, None);
}

#[test]
fn a_capability_that_did_not_answer_is_a_failed_page() {
    assert_eq!(plan(&[], Err("x".into()), Ok(next()), Ok(list(vec![])), &vec![]).status, 500);
    assert_eq!(plan(&[], Ok(roadmap()), Err("x".into()), Ok(list(vec![])), &vec![]).status, 500);
    assert_eq!(plan(&[], Ok(roadmap()), Ok(next()), Err("x".into()), &vec![]).status, 500);
}

#[test]
fn the_plan_shows_the_next_issue_the_milestones_and_every_issue() {
    let p = plan(&[], Ok(roadmap()), Ok(next()), Ok(list(vec![issue()])), &vec!["todo".into()]);
    assert_eq!(p.status, 200);
    let out = p.main.render();
    assert!(out.contains(">now</span>"), "{out}");
    assert!(out.contains(">2 todo</span>"), "{out}");
    assert!(!out.contains("0 done"), "{out}");
    assert!(out.contains("M1 — Fast logins"), "{out}");
    assert!(out.contains("1 of 3"), "{out}");
    assert!(out.contains("href=\"/cockpit/plan/milestones/M0\""), "a gate links the milestone: {out}");
    assert!(out.contains("The plan declares no issue.") == false, "{out}");
    assert!(!out.contains("Every issue</a>"), "nothing is narrowed: {out}");
}

#[test]
fn a_narrowed_list_with_nothing_in_it_says_the_filter_matched_nothing() {
    let p = plan(&q(&[("status", "done")]), Ok(roadmap()), Ok(next()), Ok(list(vec![])), &vec![]);
    let out = p.main.render();
    assert!(out.contains("No issue matches this filter."), "{out}");
    assert!(out.contains("Every issue</a>"), "{out}");
    assert!(out.contains("selected"), "{out}");
}
