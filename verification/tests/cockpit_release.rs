use majordomus_cli::cockpit::checkouts::Severity;
use majordomus_cli::cockpit::nav::Area;
use majordomus_cli::cockpit::pages::release;
use majordomus_cli::cockpit::versions::{
    Baseline, CommitEvidence, Impact, ReleaseDiagnostic, ReleasePolicy, ReleaseStatus, SurfaceChange, VersionPlan,
};

fn plan(status: ReleaseStatus, changes: Vec<SurfaceChange>) -> VersionPlan {
    VersionPlan {
        declared_version: "1.2.0".to_string(),
        required_version: "2.0.0".to_string(),
        status,
        baseline: Baseline {
            reference: "v1.1.0".to_string(),
            atoms: 40,
            commit: "abcdef0123456789abcdef".to_string(),
            recorded: false,
            fingerprint: "sha256:00112233445566778899aabbcc".to_string(),
        },
        required: Impact::Major,
        declared: Impact::Minor,
        atoms: 41,
        added: 1,
        changed: 0,
        removed: 2,
        policy: ReleasePolicy { schema: "release-policy/v1".to_string(), statement: "Removals are major.".to_string() },
        changes,
        understated: true,
        commits: CommitEvidence { implied: Impact::Patch, commits: 3 },
        implied: Impact::Major,
        diagnostics: vec![ReleaseDiagnostic { severity: Severity::Warning, message: "tag unsigned".to_string() }],
        fingerprint: "nodigest".to_string(),
        writers_agree: true,
    }
}

#[test]
fn a_repository_with_nothing_to_measure_against_is_a_state_and_not_a_server_error() {
    let p = release(Err("no release record".to_string()));
    assert_eq!(p.area, Area::Release);
    assert_eq!(p.status, 200);
    let out = p.main.render();
    assert!(out.contains("Nothing to measure against yet"), "{out}");
    assert!(out.contains("no release record"), "{out}");
}

#[test]
fn a_blocked_plan_names_the_required_version_and_the_one_writer() {
    let change = SurfaceChange { impact: Impact::Major, name: "cap.x".to_string(), detail: "removed".to_string() };
    let out = release(Ok(plan(ReleaseStatus::Blocked, vec![change]))).main.render();
    assert!(out.contains("1.2.0 → 2.0.0 required"), "{out}");
    assert!(out.contains("</span>blocked</span>"), "{out}");
    assert!(out.contains("majordomus release bump"), "{out}");
    assert!(out.contains("41 public atoms, was 40"), "{out}");
    assert!(out.contains("1 added"), "{out}");
    assert!(out.contains("2 removed"), "{out}");
    assert!(out.contains("cap.x — removed"), "{out}");
    assert!(out.contains("The commits understate the change"), "{out}");
    assert!(out.contains("tag unsigned"), "{out}");
}

#[test]
fn an_aligned_plan_with_no_change_owes_no_bump() {
    let mut p = plan(ReleaseStatus::Aligned, vec![]);
    p.understated = false;
    p.diagnostics = vec![];
    let out = release(Ok(p)).main.render();
    assert!(out.contains("1.2.0 — aligned"), "{out}");
    assert!(!out.contains("Raise it with the one writer"), "{out}");
    assert!(out.contains("Nothing a caller can hold has moved since v1.1.0. No bump is owed."), "{out}");
    assert!(!out.contains("The release state"), "{out}");
    assert!(!out.contains("understate"), "{out}");
}

#[test]
fn a_digest_is_cut_to_twelve_after_its_algorithm_and_a_commit_to_twelve() {
    let out = release(Ok(plan(ReleaseStatus::Aligned, vec![]))).main.render();
    assert!(out.contains("sha256:001122334455…"), "{out}");
    assert!(out.contains(">nodigest…<"), "{out}");
    assert!(out.contains(">abcdef012345<"), "{out}");
    assert!(out.contains("from a tag alone"), "{out}");
}
