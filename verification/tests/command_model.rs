use majordomus_cli::command::model::{
    CommandId, EffectClass, Program, ValueRegistry, ValueSource,
};

#[test]
fn identity_grammar() {
    assert!(CommandId::parse("native.bench.coverage").is_ok());
    assert!(CommandId::parse("workflow.site-build").is_ok());
    for bad in ["", "native", "native.", "nope.thing", "native.Bench", "native.-x"] {
        assert!(CommandId::parse(bad).is_err(), "{bad:?} accepted");
    }
    let id = CommandId::parse("native.bench.coverage").unwrap();
    assert_eq!(id.program(), Program::Native);
    assert_eq!(id.path(), vec!["bench".to_string(), "coverage".to_string()]);
}

#[test]
fn identity_is_built_from_program_and_path() {
    let id = CommandId::new(Program::Shell, &["doctor".to_string()]);
    assert_eq!(id.as_str(), "shell.doctor");
    assert!(CommandId::parse(id.as_str()).is_ok());
}

#[test]
fn the_shell_registry_vocabulary_maps_onto_one_effect_model() {
    for (class, effect) in [
        ("read-only", EffectClass::ReadOnly),
        ("state-mutating", EffectClass::LocalState),
        ("generated-output-mutating", EffectClass::GeneratedOutput),
    ] {
        assert_eq!(EffectClass::of_shell_class(class), Some(effect));
    }
    assert!(EffectClass::ReadOnly.is_read_only());
    assert!(!EffectClass::ReadOnly.needs_confirmation());
    assert!(EffectClass::Destructive.needs_confirmation());
}

#[test]
fn a_placeholder_names_its_value_source_and_an_unknown_one_offers_nothing() {
    assert!(matches!(
        ValueSource::of_placeholder("MOMENT"),
        ValueSource::Registry {
            registry: ValueRegistry::Moment
        }
    ));
    assert!(matches!(
        ValueSource::of_placeholder("PATH"),
        ValueSource::Path {
            directories_only: false
        }
    ));
    assert_eq!(ValueSource::of_placeholder("NOPE"), ValueSource::FreeText);
    assert!(!ValueSource::FreeText.needs_index());
    assert!(ValueSource::of_placeholder("RULE").needs_index());
}

#[test]
fn precedence_is_fixed_so_a_projection_name_never_depends_on_discovery_order() {
    let mut programs = vec![Program::Workflow, Program::Native, Program::Shell];
    programs.sort_by_key(|p| p.precedence());
    assert_eq!(
        programs,
        vec![Program::Native, Program::Shell, Program::Workflow]
    );
}

#[test]
fn a_parse_error_says_what_is_wrong() {
    assert_eq!(
        CommandId::parse("native").unwrap_err(),
        "needs a program, a dot, and at least one path word"
    );
    assert_eq!(
        CommandId::parse("nope.thing").unwrap_err(),
        "program 'nope' is not one this executable knows"
    );
    assert_eq!(
        CommandId::parse("native.").unwrap_err(),
        "the path after the program is empty"
    );
    assert_eq!(
        CommandId::parse("native.ok.Bad").unwrap_err(),
        "path word 'Bad' is not [a-z0-9][a-z0-9-]*"
    );
    assert_eq!(
        CommandId::parse("native..x").unwrap_err(),
        "path word '' is not [a-z0-9][a-z0-9-]*"
    );
}

#[test]
fn an_identity_names_its_program_and_an_unknown_head_is_a_workflow() {
    assert_eq!(CommandId::parse("shell.doctor").unwrap().program(), Program::Shell);
    assert_eq!(CommandId::new(Program::Workflow, &["x".to_string()]).program(), Program::Workflow);
    assert_eq!(CommandId::new(Program::Native, &[]).as_str(), "native");
}

#[test]
fn the_program_words_and_prefixes() {
    assert_eq!(Program::Native.as_str(), "native");
    assert_eq!(Program::Shell.as_str(), "shell");
    assert_eq!(Program::Workflow.as_str(), "workflow");
    assert_eq!(Program::Native.projection_prefix(), "rust");
    assert_eq!(Program::Shell.projection_prefix(), "mj");
    assert_eq!(Program::Workflow.projection_prefix(), "wf");
    assert_eq!(Program::all(), vec![Program::Native, Program::Shell, Program::Workflow]);
}

#[test]
fn every_registry_has_its_own_key() {
    let keys: Vec<&str> = ValueRegistry::all().iter().map(|r| r.key()).collect();
    assert_eq!(keys.len(), 13);
    assert_eq!(ValueRegistry::ObjectKind.key(), "object-kind");
    assert_eq!(ValueRegistry::DistributionTarget.key(), "distribution-target");
    let mut sorted = keys.clone();
    sorted.sort();
    sorted.dedup();
    assert_eq!(sorted.len(), keys.len());
}

#[test]
fn a_directory_placeholder_asks_for_directories_only() {
    assert_eq!(
        ValueSource::of_placeholder("DIR"),
        ValueSource::Path { directories_only: true }
    );
    assert_eq!(
        ValueSource::of_placeholder("CAPABILITY"),
        ValueSource::Registry { registry: ValueRegistry::Capability }
    );
    assert_eq!(EffectClass::of_shell_class("nonsense"), None);
}
