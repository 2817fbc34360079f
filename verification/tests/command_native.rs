use majordomus_cli::command::model::{
    EffectClass, Interactivity, Program, Requirement, ValueRegistry, ValueSource, Visibility,
};
use majordomus_cli::command::native::{
    argument, contribute, node, words, ArgDoc, CommandDoc, ExampleDoc, PossibleValueDoc, DECLARATION,
};
use majordomus_cli::command::semantics::CommandSemantics;

fn arg(name: &str, value_name: Option<&str>, possible: &[&str]) -> ArgDoc {
    ArgDoc {
        name: name.to_string(),
        long: Some(name.to_string()),
        short: None,
        positional: false,
        required: false,
        variadic: false,
        global: false,
        takes_value: value_name.is_some() || !possible.is_empty(),
        help: format!("the {name}"),
        value_name: value_name.map(|v| v.to_string()),
        defaults: Vec::new(),
        possible_values: possible
            .iter()
            .map(|p| PossibleValueDoc { name: p.to_string(), help: Some(format!("as {p}")) })
            .collect(),
    }
}

fn doc(path: &[&str], about: &str, args: Vec<ArgDoc>, examples: Vec<ExampleDoc>) -> CommandDoc {
    CommandDoc {
        path: path.iter().map(|s| s.to_string()).collect(),
        about: about.to_string(),
        long_about: None,
        usage: format!("{} [OPTIONS]", path.join(" ")),
        executable: true,
        args,
        examples,
    }
}

/// The declaration, flattened root first and depth first, as the help walker reads it.
fn tree() -> Vec<CommandDoc> {
    vec![
        doc(&["majordomus"], "The repository's own tool", vec![], vec![]),
        doc(&["majordomus", "bench"], "Benchmarks", vec![], vec![]),
        doc(&["majordomus", "bench", "baseline"], "Baselines", vec![], vec![]),
        doc(&["majordomus", "bench", "baseline", "update"], "Update the baseline", vec![], vec![]),
        doc(&["majordomus", "capabilities"], "The capability registry", vec![], vec![]),
        doc(
            &["majordomus", "capabilities", "list"],
            "List capabilities",
            vec![arg("format", None, &["text", "json"]), arg("module", Some("MODULE"), &[])],
            vec![],
        ),
        doc(&["majordomus", "distribution"], "The distribution", vec![], vec![]),
        doc(
            &["majordomus", "distribution", "show"],
            "Show the distribution",
            vec![arg("record", Some("PATH"), &[])],
            vec![ExampleDoc {
                id: "distribution-show".into(),
                title: "Show it".into(),
                argv: vec!["distribution".into(), "show".into()],
                command: "majordomus distribution show".into(),
            }],
        ),
        doc(&["majordomus", "generate"], "Regenerate the committed projections", vec![], vec![]),
    ]
}

const SEMANTICS: &[CommandSemantics] = &[
    CommandSemantics {
        command: "generate",
        effect: EffectClass::GeneratedOutput,
        interactivity: Interactivity::NonInteractive,
        visibility: Visibility::Public,
        requires: &[Requirement::Repository],
        tags: &["maintenance"],
        aliases: &[("regen", "the old spelling")],
        deprecated: None,
    },
    CommandSemantics {
        command: "bench baseline update",
        effect: EffectClass::LocalState,
        interactivity: Interactivity::NonInteractive,
        visibility: Visibility::Public,
        requires: &[],
        tags: &[],
        aliases: &[],
        deprecated: Some(("bench   record", "use bench record")),
    },
];

#[test]
fn every_native_command_of_the_declaration_becomes_a_node_and_the_root_does_not() {
    let tree = tree();
    let nodes = contribute(&tree, SEMANTICS);
    assert_eq!(nodes.len(), tree.len() - 1, "the root is not a command");
    assert!(nodes.iter().all(|n| n.program == Program::Native));
    assert!(nodes.iter().all(|n| !n.path.is_empty()));
    let ids: Vec<&str> = nodes.iter().map(|n| n.id.as_str()).collect();
    assert!(ids.contains(&"native.capabilities.list"), "{ids:?}");
    assert!(ids.contains(&"native.bench.baseline.update"), "{ids:?}");
}

#[test]
fn arguments_and_their_accepted_values_come_from_the_declaration() {
    let nodes = contribute(&tree(), SEMANTICS);
    let list = nodes.iter().find(|n| n.id.as_str() == "native.capabilities.list").expect("capabilities list");
    let format = list.arguments.iter().find(|a| a.long.as_deref() == Some("format")).expect("--format");
    match &format.values {
        ValueSource::Enumerated { values } => {
            assert!(values.iter().any(|v| v.value == "json"), "{values:?}");
        }
        other => panic!("an enumerated argument carries its values, not {other:?}"),
    }
    let module = list.arguments.iter().find(|a| a.long.as_deref() == Some("module")).expect("--module");
    assert_eq!(module.values, ValueSource::Registry { registry: ValueRegistry::Module });
}

#[test]
fn the_effect_comes_from_the_declaration_beside_the_command() {
    let nodes = contribute(&tree(), SEMANTICS);
    let generate = nodes.iter().find(|n| n.id.as_str() == "native.generate").expect("generate");
    assert_eq!(generate.effect, EffectClass::GeneratedOutput, "generate rewrites committed projections and says so");
    assert_eq!(generate.availability.requires, vec![Requirement::Repository]);
    assert_eq!(generate.tags, vec!["maintenance".to_string()]);
    assert_eq!(generate.aliases.len(), 1);
    assert_eq!(generate.aliases[0].name, "regen");
    let list = nodes.iter().find(|n| n.id.as_str() == "native.capabilities.list").expect("capabilities list");
    assert!(list.effect.is_read_only());
    assert_eq!(list.availability.requires, vec![Requirement::Always]);
}

#[test]
fn a_documented_example_reaches_the_node_without_being_written_again() {
    let nodes = contribute(&tree(), SEMANTICS);
    let show = nodes.iter().find(|n| n.id.as_str() == "native.distribution.show").expect("distribution show");
    assert!(!show.examples.is_empty());
    assert!(show.examples[0].command.starts_with("majordomus distribution"));
}

#[test]
fn a_deprecated_command_names_its_replacement_by_identity() {
    let update = node(&tree()[3], SEMANTICS).expect("a command");
    let d = update.deprecation.expect("deprecated");
    assert_eq!(d.note, "use bench record");
    assert_eq!(d.replaced_by.map(|id| id.as_str().to_string()), Some("native.bench.record".to_string()));
    assert_eq!(update.availability.requires, vec![Requirement::Always]);
    assert_eq!(update.provenance.path(), DECLARATION);
}

#[test]
fn the_root_is_no_command_and_a_path_is_cut_at_white_space() {
    assert!(node(&tree()[0], SEMANTICS).is_none());
    assert_eq!(words("  bench\t baseline update "), vec!["bench", "baseline", "update"]);
    assert!(words("   ").is_empty());
}

#[test]
fn a_flag_without_a_value_offers_nothing_and_a_path_placeholder_is_a_path() {
    let mut quiet = arg("quiet", None, &[]);
    quiet.takes_value = false;
    assert_eq!(argument(&quiet).values, ValueSource::FreeText);
    assert_eq!(argument(&arg("record", Some("PATH"), &[])).values, ValueSource::Path { directories_only: false });
}
