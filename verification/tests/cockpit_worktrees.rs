use majordomus_cli::cockpit::checkouts::{
    Blocker, BranchState, DirtyState, MigrationPlan, MigrationStep, RepositoryTopology, Severity, Standing,
    StepOutcome, Tallies, TopologyDiagnostic, Upstream, WorktreeState,
};
use majordomus_cli::cockpit::nav::Area;
use majordomus_cli::cockpit::pages::worktrees;

fn tallies() -> Tallies {
    Tallies {
        worktrees: 2,
        canonical: 1,
        misplaced: 1,
        ephemeral: 0,
        detached: 0,
        dirty: 1,
        branches_without_worktree: 1,
        cleanup_eligible: 1,
        errors: 1,
        warnings: 0,
    }
}

fn topology() -> RepositoryTopology {
    RepositoryTopology {
        primary_worktree: "/src/repo".to_string(),
        container_path: "/src/repo-wt".to_string(),
        container_exists: false,
        container_suffix: "-wt".to_string(),
        trunk_branch: Some("main".to_string()),
        trunk_source: "remote_head".to_string(),
        valid: false,
        tallies: tallies(),
        worktrees: vec![
            WorktreeState {
                label: "main".to_string(),
                path: "/src/repo".to_string(),
                current: true,
                issue: None,
                expected_path: None,
                locked: None,
                head: Some("0123456789abcdef0123".to_string()),
                standing: Standing::Primary,
                dirty: Some(DirtyState { clean: true, staged: 0, unstaged: 0, untracked: 0, in_progress: None }),
                upstream: Some(Upstream { name: "origin/main".to_string(), gone: false, ahead: Some(2), behind: None }),
            },
            WorktreeState {
                label: "feat/x".to_string(),
                path: "/tmp/x".to_string(),
                current: false,
                issue: Some("MJ-7".to_string()),
                expected_path: Some("/src/repo-wt/feat/x".to_string()),
                locked: Some("busy".to_string()),
                head: None,
                standing: Standing::Misplaced,
                dirty: Some(DirtyState {
                    clean: false,
                    staged: 1,
                    unstaged: 2,
                    untracked: 3,
                    in_progress: Some("rebase".to_string()),
                }),
                upstream: Some(Upstream { name: "origin/feat/x".to_string(), gone: true, ahead: None, behind: None }),
            },
        ],
        branches: vec![
            BranchState {
                name: "old".to_string(),
                head: "abc".to_string(),
                issue: None,
                expected_path: None,
                worktree: None,
                merged_into_trunk: Some(true),
                cleanup_eligible: true,
            },
            BranchState {
                name: "main".to_string(),
                head: "0123".to_string(),
                issue: None,
                expected_path: None,
                worktree: Some("/src/repo".to_string()),
                merged_into_trunk: None,
                cleanup_eligible: false,
            },
        ],
        diagnostics: vec![TopologyDiagnostic {
            severity: Severity::Error,
            code: "misplaced".to_string(),
            path: Some("/tmp/x".to_string()),
            expected: Some("/src/repo-wt/feat/x".to_string()),
            message: "not where it belongs".to_string(),
            remedy: "majordomus worktree migrate".to_string(),
        }],
    }
}

#[test]
fn a_topology_that_did_not_answer_is_a_failed_page() {
    let p = worktrees(Err("no git".to_string()), None);
    assert_eq!(p.area, Area::Worktrees);
    assert_eq!(p.status, 500);
    assert!(p.main.render().contains("no git"));
}

#[test]
fn every_worktree_is_shown_with_its_standing_and_its_work() {
    let p = worktrees(Ok(topology()), None);
    assert_eq!(p.status, 200);
    assert_eq!(p.scripts, vec!["worktrees.js"]);
    let out = p.main.render();
    assert!(out.contains("mj-badge--ok"), "{out}");
    assert!(out.contains(">primary<"), "{out}");
    assert!(out.contains(">misplaced<"), "{out}");
    assert!(out.contains("<code class=\"mj-mono\">0123456789ab</code>"), "the head is cut to twelve: {out}");
    assert!(out.contains(" 1 staged · 2 unstaged · 3 untracked · rebase in progress"), "{out}");
    assert!(out.contains("origin/main +2 −0"), "{out}");
    assert!(out.contains(" (gone)"), "{out}");
    assert!(out.contains("belongs at "), "{out}");
    assert!(out.contains("<span class=\"mj-tag\">here</span>"), "{out}");
    assert!(out.contains("<span class=\"mj-tag\">locked</span>"), "{out}");
    assert!(out.contains(" — decided by remote head"), "the source word reads with spaces: {out}");
    assert!(out.contains(" (not created yet)"), "{out}");
    assert!(out.contains("1 error(s), 0 warning(s)"), "{out}");
}

#[test]
fn only_a_branch_checked_out_nowhere_is_offered_a_start() {
    let out = worktrees(Ok(topology()), None).main.render();
    assert!(out.contains("majordomus worktree create old"), "{out}");
    assert!(!out.contains("majordomus worktree create main"), "{out}");
    assert!(out.contains("merged, cleanup-eligible"), "{out}");
}

#[test]
fn a_plan_that_could_not_be_computed_says_so() {
    let out = worktrees(Ok(topology()), None).main.render();
    assert!(out.contains("The migration plan could not be computed."), "{out}");
}

#[test]
fn an_empty_plan_counts_what_it_leaves_alone() {
    let plan = MigrationPlan { steps: vec![], exceptions: 2, movable: 0, blocked: 0 };
    let out = worktrees(Ok(topology()), Some(plan)).main.render();
    assert!(out.contains("Nothing to migrate"), "{out}");
    assert!(out.contains("2 worktree(s) are not migrated by design"), "{out}");
}

#[test]
fn a_plan_lists_its_steps_and_the_commands_that_apply_it() {
    let plan = MigrationPlan {
        steps: vec![
            MigrationStep {
                branch: "feat/x".to_string(),
                from: "/tmp/x".to_string(),
                to: "/src/repo-wt/feat/x".to_string(),
                dirty_summary: "clean".to_string(),
                action: "move_worktree".to_string(),
                outcome: StepOutcome::Planned,
                blockers: vec![],
            },
            MigrationStep {
                branch: "y".to_string(),
                from: "/a".to_string(),
                to: "/b".to_string(),
                dirty_summary: "dirty".to_string(),
                action: "move_worktree".to_string(),
                outcome: StepOutcome::Blocked,
                blockers: vec![Blocker { code: "occupied".to_string(), message: "the target exists".to_string() }],
            },
        ],
        exceptions: 0,
        movable: 1,
        blocked: 1,
    };
    let out = worktrees(Ok(topology()), Some(plan)).main.render();
    assert!(out.contains("1 movable, 1 blocked"), "{out}");
    assert!(out.contains(">move worktree<"), "{out}");
    assert!(out.contains("<div><code class=\"mj-mono\">occupied</code> the target exists</div>"), "{out}");
    assert!(out.contains("apply the 1 movable step(s), verified"), "{out}");
    assert!(out.contains("# blocked steps say what to do"), "{out}");
}
