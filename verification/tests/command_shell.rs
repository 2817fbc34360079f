use majordomus_cli::command::model::{EffectClass, Requirement, Visibility};
use majordomus_cli::command::shell::{contribute, node, RegistryEntry, REGISTRY};

fn some(s: &str) -> Option<String> {
    Some(s.to_string())
}

#[test]
fn the_registry_class_becomes_the_effect_and_nothing_is_restated() {
    let entry = RegistryEntry {
        id: some("doctor"),
        summary: some("Is Majordomus healthy here?"),
        class: some("read-only"),
        visibility: some("public"),
        requires_repository: some("true"),
        category: some("system"),
        stage: some("inspect"),
        note: some("The diagnosis."),
        syntax: some("majordomus doctor [--json]"),
    };
    let nodes = contribute(Some(vec![entry])).unwrap();
    assert_eq!(nodes.len(), 1);
    let n = &nodes[0];
    assert_eq!(n.id.as_str(), "shell.doctor");
    assert_eq!(n.effect, EffectClass::ReadOnly);
    assert_eq!(n.usage, "majordomus doctor [--json]");
    assert_eq!(n.summary, "Is Majordomus healthy here?");
    assert_eq!(n.availability.requires, vec![Requirement::Repository]);
    assert!(n.tags.contains(&"system".to_string()));
    assert!(n.tags.contains(&"stage:inspect".to_string()));
    assert_eq!(n.description.as_deref(), Some("The diagnosis."));
    assert_eq!(n.provenance.path(), REGISTRY);
}

#[test]
fn an_internal_command_is_carried_and_marked_rather_than_dropped() {
    let entry = RegistryEntry {
        id: some("help"),
        summary: some("The help text."),
        visibility: some("internal"),
        class: some("read-only"),
        ..Default::default()
    };
    let nodes = contribute(Some(vec![entry])).unwrap();
    assert_eq!(nodes[0].visibility, Visibility::Internal);
    assert!(!nodes[0].is_listed());
    assert_eq!(nodes[0].usage, "majordomus help");
    assert_eq!(nodes[0].availability.requires, vec![Requirement::Always]);
}

#[test]
fn a_registry_that_cannot_be_read_is_an_error_and_not_a_panic() {
    let err = contribute(None).unwrap_err();
    assert!(err.contains("commands"));
    assert_eq!(err, "share/commands.yaml has no `commands` list");
}

#[test]
fn an_entry_without_an_identity_is_passed_over_and_an_unknown_class_changes_local_state() {
    let nodes = contribute(Some(vec![
        RegistryEntry { summary: some("no id"), ..Default::default() },
        RegistryEntry { id: some("start"), class: some("mystery"), ..Default::default() },
    ]))
    .unwrap();
    assert_eq!(nodes.len(), 1);
    assert_eq!(nodes[0].id.as_str(), "shell.start");
    assert_eq!(nodes[0].effect, EffectClass::LocalState);
    assert_eq!(nodes[0].summary, "");
    assert!(nodes[0].tags.is_empty());
    assert!(node(&RegistryEntry::default()).is_none());
}
