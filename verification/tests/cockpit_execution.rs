use majordomus_cli::cockpit::checkouts::Severity;
use majordomus_cli::cockpit::nav::Area;
use majordomus_cli::cockpit::pages::execution;
use majordomus_cli::cockpit::runs::{
    EventHistory, EventPayload, Execution, ExecutionDiagnostic, ExecutionError, ExecutionEvent, ExecutionLinks,
    ExecutionState, ExecutionStep, ExecutionView, StepState,
};

fn run(state: ExecutionState) -> Execution {
    Execution {
        id: "ex-1".to_string(),
        state,
        capability: "work.list".to_string(),
        title: "List the work".to_string(),
        actor: "cockpit".to_string(),
        repository: "repo".to_string(),
        branch: None,
        created_at: "2024-01-01T00:00:00Z".to_string(),
        finished_at: None,
        duration_ms: Some(42),
        correlation_id: "corr".to_string(),
        cancellable: true,
        percent: Some(40),
        progress_message: Some("two of five".to_string()),
        steps: vec![ExecutionStep {
            state: StepState::Running,
            title: "read".to_string(),
            detail: None,
            started_at: "t0".to_string(),
        }],
        output: None,
        error: None,
        diagnostics: vec![],
        input: "{}".to_string(),
        last_sequence: 7,
        events_truncated: true,
    }
}

fn view(e: Execution) -> ExecutionView {
    ExecutionView {
        execution: e,
        links: ExecutionLinks {
            itself: "/api/v1/executions/ex-1".to_string(),
            events: "/api/v1/executions/ex-1/events".to_string(),
            websocket: "/api/v1/live".to_string(),
            cancel: "/api/v1/executions/ex-1/cancel".to_string(),
        },
    }
}

#[test]
fn an_execution_this_process_forgot_is_not_found() {
    let p = execution("ex-9", Err("no execution ex-9".to_string()), None);
    assert_eq!(p.area, Area::Executions);
    assert_eq!(p.status, 404);
    assert_eq!(p.title, "ex-9");
    assert_eq!(p.breadcrumbs[2], ("ex-9".to_string(), None));
}

#[test]
fn a_running_execution_can_be_cancelled_and_shows_its_progress() {
    let p = execution("ex-1", Ok(view(run(ExecutionState::Running))), None);
    assert_eq!(p.status, 200);
    assert_eq!(p.scripts, vec!["executions.js"]);
    let out = p.main.render();
    assert!(out.contains("data-mj-cancel=\"ex-1\""), "{out}");
    assert!(out.contains("data-mj-sequence=\"7\""), "without a history the execution's own count: {out}");
    assert!(out.contains("The oldest events of this execution have been dropped"), "{out}");
    assert!(out.contains(">42 ms<"), "{out}");
    assert!(out.contains("two of five"), "{out}");
    assert!(out.contains("It has written no output."), "{out}");
    assert!(out.contains("majordomus executions show ex-1"), "{out}");
    assert!(out.contains("majordomus_execution { &quot;id&quot;: &quot;ex-1&quot; }"), "{out}");
}

#[test]
fn a_finished_execution_has_nothing_left_to_stop() {
    let mut e = run(ExecutionState::Failed);
    e.error = Some(ExecutionError {
        code: "E1".to_string(),
        message: "it broke".to_string(),
        suggestion: Some("try again".to_string()),
    });
    e.diagnostics = vec![ExecutionDiagnostic { severity: Severity::Warning, code: "W1".to_string(), summary: "odd".to_string() }];
    let out = execution("ex-1", Ok(view(e)), None).main.render();
    assert!(out.contains("there is nothing left to stop"), "{out}");
    assert!(!out.contains("data-mj-cancel=\""), "{out}");
    assert!(out.contains("E1: it broke"), "{out}");
    assert!(out.contains("mj-badge--warn"), "{out}");
}

#[test]
fn only_log_events_are_output_lines() {
    let history = EventHistory {
        events: vec![
            ExecutionEvent { timestamp: "t1".to_string(), payload: EventPayload::Other },
            ExecutionEvent {
                timestamp: "t2".to_string(),
                payload: EventPayload::Log { stream: "stderr".to_string(), message: "warning: x".to_string() },
            },
        ],
        last_sequence: 9,
        truncated: false,
    };
    let out = execution("ex-1", Ok(view(run(ExecutionState::Queued))), Some(history)).main.render();
    assert_eq!(out.matches("mj-log-line").count(), 1, "{out}");
    assert!(out.contains("mj-log-stream--stderr"), "{out}");
    assert!(out.contains("data-mj-sequence=\"9\""), "{out}");
    assert!(!out.contains("have been dropped"), "{out}");
}

#[test]
fn a_capability_that_does_not_listen_is_not_offered_a_cancel() {
    let mut e = run(ExecutionState::Running);
    e.cancellable = false;
    e.percent = None;
    let out = execution("ex-1", Ok(view(e)), None).main.render();
    assert!(out.contains("does not declare that it looks at its cancellation flag"), "{out}");
    assert!(out.contains("This execution reports no measured progress."), "{out}");
}
