use majordomus_cli::command::model::{EffectClass, Execution, Interactivity, Requirement, Visibility};
use majordomus_cli::command::workflow::{contribute, read, AliasDoc, WorkflowDoc, WorkflowFile};

fn some(s: &str) -> Option<String> {
    Some(s.to_string())
}

fn site_build(id: &str) -> WorkflowDoc {
    WorkflowDoc {
        schema: some("workflow-command/v1"),
        id: some(id),
        summary: some("Build the website with zola."),
        effect: some("generated-output"),
        requires: vec!["site".into()],
        tags: vec!["site".into()],
        steps: Some(vec![Some(vec!["scripts/site-build".into()])]),
        ..Default::default()
    }
}

fn file(name: &str, doc: WorkflowDoc) -> WorkflowFile {
    WorkflowFile { name: name.into(), doc: Ok(doc) }
}

#[test]
fn a_file_dropped_into_the_tree_is_the_whole_registration() {
    let (nodes, problems) = contribute(vec![file("site-build.yaml", site_build("site-build"))]);
    assert!(problems.is_empty(), "{problems:?}");
    assert_eq!(nodes.len(), 1);
    let n = &nodes[0];
    assert_eq!(n.id.as_str(), "workflow.site-build");
    assert_eq!(n.effect, EffectClass::GeneratedOutput);
    assert_eq!(n.availability.requires, vec![Requirement::Site]);
    assert!(matches!(&n.execution, Execution::External { steps } if steps == &[vec!["scripts/site-build".to_string()]]));
    assert_eq!(n.provenance.path(), ".ai/repo/workflows/commands/site-build.yaml");
    assert_eq!(n.usage, "just site-build");
}

#[test]
fn removing_the_file_removes_the_command() {
    assert_eq!(contribute(vec![file("site-build.yaml", site_build("site-build"))]).0.len(), 1);
    assert!(contribute(Vec::new()).0.is_empty());
}

#[test]
fn discovery_order_cannot_reach_the_output() {
    let ids = |files: Vec<WorkflowFile>| -> Vec<String> {
        contribute(files).0.iter().map(|n| n.id.as_str().to_string()).collect()
    };
    let one = ids(vec![file("z.yaml", site_build("zeta")), file("a.yaml", site_build("alpha"))]);
    let other = ids(vec![file("a.yaml", site_build("alpha")), file("z.yaml", site_build("zeta"))]);
    assert_eq!(one, ["workflow.alpha", "workflow.zeta"]);
    assert_eq!(one, other);
}

#[test]
fn a_malformed_object_is_a_finding_and_the_rest_still_stand() {
    let (nodes, problems) = contribute(vec![
        file("site-build.yaml", site_build("site-build")),
        file("broken.yaml", WorkflowDoc { schema: some("workflow-command/v1"), id: some("broken"), ..Default::default() }),
        file("wrong-schema.yaml", WorkflowDoc { schema: some("nope/v1"), id: some("x"), ..Default::default() }),
        file(
            "bad-effect.yaml",
            WorkflowDoc {
                schema: some("workflow-command/v1"),
                id: some("e"),
                summary: some("x"),
                effect: some("whatever"),
                steps: Some(vec![Some(vec!["true".into()])]),
                ..Default::default()
            },
        ),
    ]);
    assert_eq!(nodes.len(), 1, "the good one still stands");
    assert_eq!(problems.len(), 3, "{problems:?}");
    assert!(problems.iter().any(|p| p.contains("no summary")));
    assert!(problems.iter().any(|p| p.contains("declares schema")));
    assert!(problems.iter().any(|p| p.contains("effect")));
    assert_eq!(
        problems,
        vec![
            ".ai/repo/workflows/commands/bad-effect.yaml: effect 'whatever' is not one of the classes",
            ".ai/repo/workflows/commands/broken.yaml: no summary",
            ".ai/repo/workflows/commands/wrong-schema.yaml: declares schema 'nope/v1', and this executable reads 'workflow-command/v1'",
        ]
    );
}

#[test]
fn a_repository_with_no_workflow_tree_has_no_workflows_and_no_complaint() {
    let (nodes, problems) = contribute(Vec::new());
    assert!(nodes.is_empty() && problems.is_empty());
}

#[test]
fn a_file_that_could_not_be_read_is_a_finding() {
    let (nodes, problems) = contribute(vec![WorkflowFile { name: "x.yaml".into(), doc: Err("not a mapping".into()) }]);
    assert!(nodes.is_empty());
    assert_eq!(problems, vec![".ai/repo/workflows/commands/x.yaml: not a mapping"]);
}

#[test]
fn every_refusal_names_its_reason() {
    let mut d = site_build("Bad_Id");
    assert_eq!(read(&d, "p").unwrap_err(), "id 'Bad_Id' is not [a-z0-9][a-z0-9-]*");
    d = site_build("-x");
    assert!(read(&d, "p").is_err());
    d = site_build("ok");
    d.id = None;
    assert_eq!(read(&d, "p").unwrap_err(), "no id");
    d = site_build("ok");
    d.effect = None;
    assert_eq!(read(&d, "p").unwrap_err(), "no effect");
    d = site_build("ok");
    d.steps = None;
    assert_eq!(read(&d, "p").unwrap_err(), "steps must be a list of argument vectors");
    d = site_build("ok");
    d.steps = Some(vec![None]);
    assert_eq!(read(&d, "p").unwrap_err(), "a step is a list of words, not a command line");
    d = site_build("ok");
    d.steps = Some(vec![Some(vec![])]);
    assert_eq!(read(&d, "p").unwrap_err(), "a step with no program in it");
    d = site_build("ok");
    d.steps = Some(vec![]);
    assert_eq!(read(&d, "p").unwrap_err(), "no steps: a workflow that runs nothing is not a command");
    d = site_build("ok");
    d.requires = vec!["site".into(), "teleporter".into()];
    assert_eq!(read(&d, "p").unwrap_err(), "requirement 'teleporter' is not one this executable knows");
}

#[test]
fn the_optional_fields_are_carried_as_written() {
    let mut d = site_build("serve");
    d.requires = Vec::new();
    d.interactivity = some("tty-required");
    d.visibility = some("internal");
    d.variadic = some("true");
    d.deprecated = some("use site-build");
    d.aliases = vec![AliasDoc { name: some("srv"), reason: None }, AliasDoc { name: None, reason: some("x") }];
    let n = read(&d, "p").unwrap();
    assert_eq!(n.availability.requires, vec![Requirement::Always]);
    assert_eq!(n.interactivity, Interactivity::TtyRequired);
    assert_eq!(n.visibility, Visibility::Internal);
    assert_eq!(n.usage, "just serve [ARGS]...");
    assert_eq!(n.deprecation.as_ref().map(|d| d.note.as_str()), Some("use site-build"));
    assert_eq!(n.aliases.len(), 1);
    assert_eq!(n.aliases[0].reason, "a name this workflow also answers to");
}
