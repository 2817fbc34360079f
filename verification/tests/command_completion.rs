use majordomus_cli::command::completion::{
    sanitise, CompletionKind, CompletionRequest, CompletionResponse, Engine, LIMIT,
};
use majordomus_cli::command::facts::Facts;
use majordomus_cli::command::graph::{CommandGraph, Surface};
use majordomus_cli::command::model::{
    ArgumentSpec, Availability, CommandId, CommandNode, EffectClass, EnumValue, Execution,
    Interactivity, Program, Projections, Provenance, Requirement, Sensitivity, ValueRegistry,
    ValueSource, Visibility,
};
use majordomus_cli::command::values::{Candidate, ValueIndex};

fn flag(long: &str, help: &str, values: ValueSource, takes_value: bool) -> ArgumentSpec {
    ArgumentSpec {
        name: long.to_string(),
        long: Some(long.to_string()),
        short: None,
        positional: false,
        required: false,
        variadic: false,
        global: false,
        takes_value,
        help: help.to_string(),
        placeholder: None,
        defaults: Vec::new(),
        values,
        sensitivity: Sensitivity::Public,
    }
}

fn positional(name: &str, values: ValueSource) -> ArgumentSpec {
    ArgumentSpec {
        name: name.to_string(),
        long: None,
        short: None,
        positional: true,
        required: true,
        variadic: false,
        global: false,
        takes_value: true,
        help: format!("the {name}"),
        placeholder: None,
        defaults: Vec::new(),
        values,
        sensitivity: Sensitivity::Public,
    }
}

fn formats() -> ValueSource {
    ValueSource::Enumerated {
        values: vec![
            EnumValue { value: "json".into(), description: Some("for machines".into()) },
            EnumValue { value: "text".into(), description: None },
        ],
    }
}

fn node(program: Program, path: &[&str], summary: &str, requires: Vec<Requirement>, arguments: Vec<ArgumentSpec>) -> CommandNode {
    let path: Vec<String> = path.iter().map(|s| (*s).to_string()).collect();
    CommandNode {
        id: CommandId::new(program, &path),
        program,
        summary: summary.into(),
        description: None,
        usage: "x".into(),
        runnable: true,
        arguments,
        execution: match program {
            Program::Native => Execution::Native { argv: path.clone() },
            _ => Execution::Shell { argv: path.clone() },
        },
        effect: EffectClass::ReadOnly,
        interactivity: Interactivity::NonInteractive,
        visibility: Visibility::Public,
        availability: Availability { available: true, requires, reason: None },
        provenance: Provenance::Clap { path: "x".into() },
        aliases: Vec::new(),
        deprecation: None,
        tags: Vec::new(),
        examples: Vec::new(),
        path,
        projections: Projections::default(),
    }
}

fn contributed() -> Vec<CommandNode> {
    vec![
        node(Program::Shell, &["doctor"], "Is Majordomus healthy here?", vec![Requirement::Repository], vec![]),
        node(Program::Native, &["bench"], "Benchmarks", vec![Requirement::Always], vec![]),
        node(
            Program::Native,
            &["bench", "coverage"],
            "Measure coverage",
            vec![Requirement::Always],
            vec![flag("format", "How to print it", formats(), true)],
        ),
        node(Program::Native, &["capabilities"], "The capability registry", vec![Requirement::Always], vec![]),
        node(
            Program::Native,
            &["capabilities", "list"],
            "List capabilities",
            vec![Requirement::Always],
            vec![flag("format", "How to print it", formats(), true), flag("quiet", "Say less", ValueSource::FreeText, false)],
        ),
        node(
            Program::Native,
            &["capabilities", "describe"],
            "Describe one capability",
            vec![Requirement::Always],
            vec![positional("capability", ValueSource::Registry { registry: ValueRegistry::Capability })],
        ),
        node(
            Program::Native,
            &["capabilities", "validate"],
            "Validate the registry",
            vec![Requirement::Always],
            vec![],
        ),
        node(
            Program::Native,
            &["distribution", "metadata"],
            "Write the distribution metadata",
            vec![Requirement::Always],
            vec![flag("record", "Where the record goes", ValueSource::Path { directories_only: false }, true)],
        ),
    ]
}

fn everything(root: &str) -> Facts {
    Facts {
        root: root.to_string(),
        layer: true,
        git: true,
        cargo: true,
        native: None,
        shell: Some(format!("{root}/bin/majordomus")),
        site: true,
        site_dependencies: true,
        browser: true,
    }
}

fn graph() -> CommandGraph {
    CommandGraph::build(contributed(), Vec::new(), &everything("/r"), "1.0.0")
}

fn ask(graph: &CommandGraph, surface: Surface, line: &[&str], cursor: usize) -> CompletionResponse {
    let values = ValueIndex::default();
    let engine = Engine::new(graph, &values);
    engine.complete(&CompletionRequest {
        surface,
        words: line.iter().map(|s| (*s).to_string()).collect(),
        cursor,
    })
}

fn values_of(r: &CompletionResponse) -> Vec<&str> {
    r.candidates.iter().map(|c| c.value.as_str()).collect()
}

#[test]
fn the_first_word_of_the_bridge_offers_every_recipe() {
    let g = graph();
    let r = ask(&g, Surface::Just, &[""], 0);
    let names = values_of(&r);
    assert!(names.contains(&"bench-coverage"), "{names:?}");
    assert!(names.contains(&"doctor"), "{names:?}");
    assert!(r.resolved.is_none());
}

#[test]
fn a_prefix_narrows_and_nothing_else_comes_back() {
    let g = graph();
    let r = ask(&g, Surface::Just, &["bench-"], 0);
    assert!(!r.candidates.is_empty());
    assert!(r.candidates.iter().all(|c| c.value.starts_with("bench-")));
}

#[test]
fn the_bridge_and_the_command_line_complete_an_argument_identically() {
    let g = graph();
    let by_just = ask(&g, Surface::Just, &["bench-coverage", "--format", ""], 2);
    let by_cli = ask(&g, Surface::Cli, &["bench", "coverage", "--format", ""], 3);
    assert_eq!(values_of(&by_just), values_of(&by_cli));
    assert!(values_of(&by_just).contains(&"json"), "{:?}", values_of(&by_just));
    assert_eq!(by_just.resolved.as_ref().map(|i| i.as_str()), Some("native.bench.coverage"));
    assert_eq!(by_just.resolved, by_cli.resolved);
}

#[test]
fn a_subcommand_is_offered_where_one_may_go() {
    let g = graph();
    let r = ask(&g, Surface::Cli, &["capabilities", ""], 1);
    let names = values_of(&r);
    for expected in ["list", "describe", "validate"] {
        assert!(names.contains(&expected), "{expected} missing from {names:?}");
    }
}

#[test]
fn options_are_offered_when_a_dash_is_typed_and_values_are_not() {
    let g = graph();
    let r = ask(&g, Surface::Cli, &["capabilities", "list", "--"], 2);
    assert!(r.candidates.iter().all(|c| c.kind == CompletionKind::Flag), "{:?}", values_of(&r));
    assert!(values_of(&r).contains(&"--format"));
}

#[test]
fn a_path_argument_is_handed_back_to_the_shell() {
    let g = graph();
    let r = ask(&g, Surface::Cli, &["distribution", "metadata", "--record", ""], 3);
    assert_eq!(r.directive(), Some(CompletionKind::Path));
}

#[test]
fn an_identifier_argument_says_so_when_no_value_index_has_been_built() {
    let g = graph();
    let r = ask(&g, Surface::Cli, &["capabilities", "describe", ""], 2);
    assert!(r.values_unavailable, "an empty index is reported, never silently empty");
}

#[test]
fn an_identifier_argument_is_completed_from_the_registry_that_owns_it() {
    let g = graph();
    let mut values = ValueIndex::default();
    values.values.push((
        ValueRegistry::Capability.key().into(),
        vec![Candidate::described("objects.get", "Read one object"), Candidate::bare("repository.info")],
    ));
    let engine = Engine::new(&g, &values);
    let r = engine.complete(&CompletionRequest {
        surface: Surface::Cli,
        words: vec!["capabilities".into(), "describe".into(), "obj".into()],
        cursor: 2,
    });
    assert_eq!(values_of(&r), vec!["objects.get"]);
    assert!(!r.values_unavailable);
}

#[test]
fn nonsense_is_answered_and_never_panics() {
    let g = graph();
    for (line, cursor) in [
        (vec![], 0usize),
        (vec![""], 5),
        (vec!["nope"], 0),
        (vec!["nope", "--unknown", ""], 2),
        (vec!["--", "--", "--"], 3),
        (vec!["bench", "coverage", "--format=json", ""], 3),
        (vec!["příkaz", "🙂"], 1),
    ] {
        let r = ask(&g, Surface::Cli, &line.iter().map(|s| *s).collect::<Vec<_>>(), cursor);
        assert!(r.candidates.len() <= LIMIT);
    }
}

#[test]
fn an_unavailable_command_is_shown_last_and_says_why() {
    let g = CommandGraph::build(contributed(), Vec::new(), &Facts::none("/r"), "1.0.0");
    let r = ask(&g, Surface::Just, &[""], 0);
    let doctor = r.candidates.iter().find(|c| c.value == "doctor").expect("doctor is offered");
    assert!(doctor.priority >= 30);
    assert!(doctor.description.as_deref().is_some_and(|d| d.contains("unavailable")));
    assert_eq!(r.candidates.last().map(|c| c.value.as_str()), Some("doctor"));
}

#[test]
fn descriptions_carry_nothing_a_terminal_would_act_on() {
    let mut nodes = contributed();
    nodes[0].summary = "a\u{1b}[31mred\u{7}\nsecond line\tand a tab".into();
    let g = CommandGraph::build(nodes, Vec::new(), &everything("/r"), "1.0.0");
    let r = ask(&g, Surface::Just, &[""], 0);
    for c in &r.candidates {
        let text = format!("{}{}", c.value, c.description.clone().unwrap_or_default());
        assert!(!text.chars().any(|ch| ch.is_control()), "{text:?} carries a control character");
    }
    let shell = r.to_shell();
    assert_eq!(shell.lines().count(), r.candidates.len(), "one line per candidate, whatever the metadata said");
}

#[test]
fn the_answer_is_ordered_by_priority_then_value() {
    let g = graph();
    let r = ask(&g, Surface::Cli, &["capabilities", "list", ""], 2);
    let keys: Vec<(i32, &str)> = r.candidates.iter().map(|c| (c.priority, c.value.as_str())).collect();
    let mut sorted = keys.clone();
    sorted.sort();
    assert_eq!(keys, sorted);
    assert_eq!(values_of(&r), vec!["--format", "--quiet"]);
    assert_eq!(r.resolved.as_ref().map(|i| i.as_str()), Some("native.capabilities.list"));
}

#[test]
fn the_top_level_of_the_command_line_offers_the_one_word_commands() {
    let g = graph();
    let r = ask(&g, Surface::Cli, &[""], 0);
    assert_eq!(values_of(&r), vec!["bench", "capabilities"]);
    assert!(r.resolved.is_none());
    assert_eq!(r.to_shell(), "bench\tBenchmarks\ncapabilities\tThe capability registry\n");
}

#[test]
fn an_enumerated_value_carries_its_description_and_a_flag_value_is_one_value() {
    let g = graph();
    let r = ask(&g, Surface::Cli, &["bench", "coverage", "--format", "j"], 3);
    assert_eq!(r.candidates.len(), 1);
    let c = &r.candidates[0];
    assert_eq!(c.value, "json");
    assert_eq!(c.kind, CompletionKind::Value);
    assert_eq!(c.priority, 5);
    assert_eq!(c.description.as_deref(), Some("for machines"));
    assert_eq!(r.directive(), None);
}

#[test]
fn a_credential_is_never_completed() {
    let mut nodes = contributed();
    nodes[2].arguments[0].sensitivity = Sensitivity::Secret;
    let g = CommandGraph::build(nodes, Vec::new(), &everything("/r"), "1.0.0");
    let r = ask(&g, Surface::Cli, &["bench", "coverage", "--format", ""], 3);
    assert!(r.candidates.is_empty());
    assert!(!r.values_unavailable);
}

#[test]
fn the_sanitiser_keeps_words_and_drops_controls() {
    assert_eq!(sanitise("plain"), Some("plain".to_string()));
    assert_eq!(sanitise("a\u{1b}[31mred\u{7}"), Some("a[31mred".to_string()));
    assert_eq!(sanitise("two\nlines\tapart"), Some("two lines apart".to_string()));
    assert_eq!(sanitise("   "), None);
}

#[test]
fn a_value_read_from_the_index_cannot_split_its_line() {
    let g = graph();
    let mut values = ValueIndex::default();
    values.values.push((
        ValueRegistry::Capability.key().into(),
        vec![Candidate::bare("objects.get\tevil\nrm -rf ~"), Candidate::bare("obj\u{202e}x")],
    ));
    let engine = Engine::new(&g, &values);
    let r = engine.complete(&CompletionRequest {
        surface: Surface::Cli,
        words: vec!["capabilities".into(), "describe".into(), "obj".into()],
        cursor: 2,
    });
    assert_eq!(values_of(&r), vec!["objects.getevilrm -rf ~", "objx"]);
    for line in r.to_shell().lines() {
        assert_eq!(line.matches('\t').count(), 1, "{line:?}");
    }
}

#[test]
fn a_surface_request_with_no_words_past_the_first_is_answered_with_nothing() {
    let g = graph();
    for surface in [Surface::Just, Surface::Cockpit] {
        let r = ask(&g, surface, &[], 3);
        assert!(r.candidates.is_empty());
        assert!(r.resolved.is_none());
    }
}
