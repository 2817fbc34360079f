use majordomus_cli::command::facts::Facts;
use majordomus_cli::command::graph::{offered_to_machines, strongest_effect, CommandGraph, Surface};
use majordomus_cli::command::model::{
    Availability, CommandId, CommandNode, EffectClass, Execution, Interactivity, Program,
    Projections, Provenance, Requirement, Visibility,
};

fn node(program: Program, path: &[&str], requires: Vec<Requirement>) -> CommandNode {
    let path: Vec<String> = path.iter().map(|s| (*s).to_string()).collect();
    CommandNode {
        id: CommandId::new(program, &path),
        program,
        summary: "does a thing".into(),
        description: None,
        usage: "x".into(),
        runnable: true,
        arguments: Vec::new(),
        execution: match program {
            Program::Native => Execution::Native { argv: path.clone() },
            Program::Shell => Execution::Shell { argv: path.clone() },
            Program::Workflow => Execution::External {
                steps: vec![vec!["cargo".to_string(), "test".to_string()]],
            },
        },
        effect: EffectClass::ReadOnly,
        interactivity: Interactivity::NonInteractive,
        visibility: Visibility::Public,
        availability: Availability {
            available: true,
            requires,
            reason: None,
        },
        provenance: Provenance::Clap { path: "x".into() },
        aliases: Vec::new(),
        deprecation: None,
        tags: Vec::new(),
        examples: Vec::new(),
        path,
        projections: Projections::default(),
    }
}

fn contributed() -> Vec<CommandNode> {
    vec![
        node(Program::Shell, &["doctor"], vec![Requirement::Repository]),
        node(Program::Native, &["bench", "coverage"], vec![Requirement::CargoToolchain]),
        node(Program::Native, &["bench"], vec![Requirement::Always]),
        node(Program::Native, &["capabilities", "list"], vec![]),
    ]
}

fn everything(root: &str) -> Facts {
    Facts {
        root: root.to_string(),
        layer: true,
        git: true,
        cargo: true,
        native: None,
        shell: Some(format!("{root}/bin/majordomus")),
        site: true,
        site_dependencies: true,
        browser: true,
    }
}

#[test]
fn availability_is_not_in_the_structure_fingerprint() {
    let with = CommandGraph::build(contributed(), Vec::new(), &everything("/r"), "1.0.0");
    let without = CommandGraph::build(contributed(), Vec::new(), &Facts::none("/r"), "1.0.0");
    assert_eq!(
        with.structure, without.structure,
        "a checkout that lost a dependency does not need a new bridge"
    );
    assert_ne!(
        with.fingerprint, without.fingerprint,
        "but a client caching on the whole graph sees the change"
    );
}

#[test]
fn a_command_that_needs_something_missing_says_what_and_is_not_hidden() {
    let g = CommandGraph::build(contributed(), Vec::new(), &Facts::none("/r"), "1.0.0");
    let doctor = g.get("shell.doctor").expect("shell.doctor");
    assert!(!doctor.availability.available);
    assert_eq!(
        doctor.availability.reason.as_deref(),
        Some("no Majordomus layer was found here")
    );
    assert!(doctor.is_listed(), "unavailable is not invisible");
}

#[test]
fn the_graph_comes_out_in_identity_order_and_is_valid() {
    let g = CommandGraph::build(contributed(), Vec::new(), &everything("/r"), "1.0.0");
    let ids: Vec<&str> = g.commands.iter().map(|c| c.id.as_str()).collect();
    assert_eq!(
        ids,
        vec!["native.bench", "native.bench.coverage", "native.capabilities.list", "shell.doctor"]
    );
    assert!(g.is_valid(), "{:#?}", g.diagnostics);
    assert_eq!(g.schema, "majordomus/command-graph/v1");
    assert_eq!(g.structure.len(), 64);
}

#[test]
fn every_surface_name_resolves_back_to_the_same_command() {
    let g = CommandGraph::build(contributed(), Vec::new(), &everything("/r"), "1.0.0");
    for c in g.commands.iter().filter(|c| c.is_listed()) {
        let just = c.projections.just.clone().expect("a recipe name");
        assert_eq!(
            g.resolve(Surface::Just, &[just.clone()]).map(|n| n.id.as_str()),
            Some(c.id.as_str())
        );
        let action = c.projections.cockpit.clone().expect("an action name");
        assert_eq!(
            g.resolve(Surface::Cockpit, &[action]).map(|n| n.id.as_str()),
            Some(c.id.as_str())
        );
        if c.program == Program::Native {
            assert_eq!(
                g.resolve(Surface::Cli, &c.path).map(|n| n.id.as_str()),
                Some(c.id.as_str())
            );
        }
    }
    assert!(g.resolve(Surface::Just, &[]).is_none());
}

#[test]
fn the_longest_native_prefix_wins_so_a_subcommand_is_not_read_as_its_parent() {
    let g = CommandGraph::build(contributed(), Vec::new(), &everything("/r"), "1.0.0");
    let words = vec!["bench".to_string(), "coverage".to_string(), "--check".to_string()];
    let (node, used) = g.longest_cli_prefix(&words).expect("a command");
    assert_eq!(node.id.as_str(), "native.bench.coverage");
    assert_eq!(used, 2);
    assert!(g.longest_cli_prefix(&["nope".to_string()]).is_none());
}

#[test]
fn a_duplicated_identity_refuses_the_graph() {
    let mut nodes = contributed();
    nodes.push(node(Program::Shell, &["doctor"], vec![]));
    let g = CommandGraph::build(nodes, Vec::new(), &everything("/r"), "1.0.0");
    assert!(!g.is_valid());
    let d = g
        .diagnostics
        .iter()
        .find(|d| d.code == "duplicate-identity")
        .expect("reported");
    assert_eq!(d.message, "2 commands claim the identity shell.doctor");
}

#[test]
fn a_workflow_that_runs_just_is_a_cycle() {
    let mut w = node(Program::Workflow, &["site-build"], vec![]);
    w.execution = Execution::External {
        steps: vec![
            vec!["npm".to_string(), "ci".to_string()],
            vec!["/usr/bin/just".to_string(), "build".to_string()],
        ],
    };
    let g = CommandGraph::build(vec![w], Vec::new(), &everything("/r"), "1.0.0");
    let d = g
        .diagnostics
        .iter()
        .find(|d| d.code == "execution-cycle")
        .expect("reported");
    assert!(d.fatal);
    assert!(d.message.contains("runs 'just'"), "{}", d.message);
}

#[test]
fn the_listing_puts_entry_commands_first() {
    let mut nodes = contributed();
    nodes[3].tags = vec!["entry".to_string()];
    let g = CommandGraph::build(nodes, Vec::new(), &everything("/r"), "1.0.0");
    let listed: Vec<&str> = g.listed().iter().map(|c| c.id.as_str()).collect();
    assert_eq!(listed[0], "native.capabilities.list");
    assert_eq!(listed.len(), 4);
}

#[test]
fn machine_exposure_is_derived_from_the_effect() {
    let mut n = node(Program::Native, &["generate"], vec![]);
    assert!(offered_to_machines(&n));
    n.effect = EffectClass::GeneratedOutput;
    assert!(!offered_to_machines(&n));
    let a = node(Program::Native, &["a"], vec![]);
    assert_eq!(strongest_effect(&[&a, &n]), Some(EffectClass::GeneratedOutput));
    assert_eq!(strongest_effect(&[]), None);
    assert_eq!(Surface::parse("just"), Some(Surface::Just));
    assert_eq!(Surface::parse("nope"), None);
}
