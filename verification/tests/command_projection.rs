use majordomus_cli::command::model::{
    Alias, Availability, CommandId, CommandNode, EffectClass, Execution, Interactivity, Program,
    Projections, Provenance, Visibility,
};
use majordomus_cli::command::projection::{
    assign, base_name, cockpit_action, docs_route, is_recipe_name,
};

fn node(program: Program, path: &[&str], aliases: &[&str]) -> CommandNode {
    let path: Vec<String> = path.iter().map(|s| (*s).to_string()).collect();
    CommandNode {
        id: CommandId::new(program, &path),
        program,
        summary: "x".into(),
        description: None,
        usage: "x".into(),
        runnable: true,
        arguments: Vec::new(),
        execution: Execution::Native { argv: path.clone() },
        effect: EffectClass::ReadOnly,
        interactivity: Interactivity::NonInteractive,
        visibility: Visibility::Public,
        availability: Availability::always(),
        provenance: Provenance::Clap { path: "x".into() },
        aliases: aliases
            .iter()
            .map(|a| Alias {
                name: (*a).to_string(),
                reason: "test".into(),
            })
            .collect(),
        deprecation: None,
        tags: Vec::new(),
        examples: Vec::new(),
        path,
        projections: Projections::default(),
    }
}

fn just_names(nodes: &[CommandNode]) -> Vec<(String, String)> {
    nodes
        .iter()
        .map(|n| {
            (
                n.id.as_str().to_string(),
                n.projections.just.clone().unwrap_or_default(),
            )
        })
        .collect()
}

#[test]
fn the_path_becomes_the_recipe_name() {
    let mut nodes = vec![node(Program::Native, &["bench", "coverage"], &[])];
    assert!(assign(&mut nodes).is_empty());
    assert_eq!(nodes[0].projections.just.as_deref(), Some("bench-coverage"));
    assert_eq!(
        nodes[0].projections.cockpit.as_deref(),
        Some("command/native.bench.coverage")
    );
    assert_eq!(
        nodes[0].projections.docs.as_deref(),
        Some("/docs/commands/native.bench.coverage/")
    );
    assert_eq!(
        nodes[0].projections.cli,
        Some(vec!["bench".to_string(), "coverage".to_string()])
    );
}

#[test]
fn precedence_decides_a_collision_and_says_so() {
    let mut nodes = vec![
        node(Program::Shell, &["bench"], &[]),
        node(Program::Native, &["bench"], &[]),
    ];
    let diagnostics = assign(&mut nodes);
    let names = just_names(&nodes);
    assert!(names.contains(&("native.bench".into(), "bench".into())), "{names:?}");
    assert!(names.contains(&("shell.bench".into(), "mj-bench".into())), "{names:?}");
    let d = diagnostics
        .iter()
        .find(|d| d.code == "projection-prefixed")
        .expect("the collision is reported");
    assert!(!d.fatal);
    assert!(d.message.contains("native.bench") && d.message.contains("shell.bench"));
}

#[test]
fn the_result_does_not_depend_on_the_order_the_contributors_ran_in() {
    let a = {
        let mut n = vec![
            node(Program::Shell, &["bench"], &[]),
            node(Program::Native, &["bench"], &[]),
        ];
        assign(&mut n);
        just_names(&n)
    };
    let b = {
        let mut n = vec![
            node(Program::Native, &["bench"], &[]),
            node(Program::Shell, &["bench"], &[]),
        ];
        assign(&mut n);
        let mut names = just_names(&n);
        names.reverse();
        names
    };
    assert_eq!(a, b);
}

#[test]
fn an_alias_never_takes_a_name_a_command_already_has() {
    let mut nodes = vec![
        node(Program::Native, &["bench"], &[]),
        node(Program::Workflow, &["bench-criterion"], &["bench"]),
    ];
    let diagnostics = assign(&mut nodes);
    let workflow = nodes
        .iter()
        .find(|n| n.program == Program::Workflow)
        .unwrap();
    assert!(
        workflow.projections.just_aliases.is_empty(),
        "the alias is refused, not silently redirected"
    );
    assert!(diagnostics.iter().any(|d| d.code == "alias-taken"));
}

#[test]
fn a_free_alias_is_projected() {
    let mut nodes = vec![node(Program::Native, &["bench"], &["bench-run"])];
    assign(&mut nodes);
    assert_eq!(nodes[0].projections.just_aliases, vec!["bench-run"]);
}

#[test]
fn a_name_just_cannot_carry_is_renamed_and_reported() {
    let mut nodes = vec![node(Program::Workflow, &["Bad Name;rm"], &[])];
    let diagnostics = assign(&mut nodes);
    let name = nodes[0].projections.just.clone().unwrap();
    assert!(is_recipe_name(&name), "{name}");
    assert!(diagnostics.iter().any(|d| d.code == "projection-renamed"));
}

#[test]
fn a_reserved_word_is_not_taken() {
    let mut nodes = vec![node(Program::Workflow, &["import"], &[])];
    assign(&mut nodes);
    assert_eq!(nodes[0].projections.just.as_deref(), Some("wf-import"));
}

#[test]
fn the_surface_names_are_derived_by_rule() {
    assert_eq!(base_name(&["bench".into(), "coverage".into()]), "bench-coverage");
    assert_eq!(base_name(&["doctor".into()]), "doctor");
    assert_eq!(base_name(&[]), "");
    assert!(is_recipe_name("bench-coverage"));
    assert!(!is_recipe_name("-leading"));
    assert!(!is_recipe_name("with space"));
    assert!(!is_recipe_name("semi;colon"));
    let id = CommandId::parse("native.bench.coverage").unwrap();
    assert_eq!(cockpit_action(&id), "command/native.bench.coverage");
    let id = CommandId::parse("shell.doctor").unwrap();
    assert_eq!(docs_route(&id), "/docs/commands/shell.doctor/");
}

#[test]
fn a_renamed_name_is_the_program_prefix_and_the_cleaned_words() {
    let mut nodes = vec![node(Program::Workflow, &["Bad Name;rm"], &[])];
    let diagnostics = assign(&mut nodes);
    assert_eq!(nodes[0].projections.just.as_deref(), Some("wf-bad-name-rm"));
    assert_eq!(
        diagnostics[0].message,
        "the recipe name 'Bad Name;rm' of workflow.Bad Name;rm is not one Just can carry; it is projected as 'wf-bad-name-rm'"
    );
}

#[test]
fn a_third_claimant_is_left_without_a_name_and_the_graph_is_refused() {
    let mut nodes = vec![
        node(Program::Native, &["x"], &[]),
        node(Program::Shell, &["mj-x"], &[]),
        node(Program::Shell, &["x"], &[]),
    ];
    let diagnostics = assign(&mut nodes);
    let shell_x = nodes.iter().find(|n| n.id.as_str() == "shell.x").unwrap();
    assert_eq!(shell_x.projections.just, None);
    let fatal = diagnostics.iter().find(|d| d.fatal).expect("a fatal collision");
    assert_eq!(fatal.code, "projection-collision");
    assert_eq!(fatal.commands.len(), 3);
}

#[test]
fn only_the_native_program_has_command_line_words() {
    let mut nodes = vec![node(Program::Shell, &["doctor"], &[])];
    assign(&mut nodes);
    assert_eq!(nodes[0].projections.cli, None);
    assert_eq!(nodes[0].projections.just.as_deref(), Some("doctor"));
}
