use majordomus_cli::command::model::{EffectClass, Interactivity, Requirement, Visibility};
use majordomus_cli::command::semantics::{lookup, CommandSemantics};

#[test]
fn a_declaration_with_no_requirement_needs_nothing() {
    let s = CommandSemantics {
        command: "x",
        effect: EffectClass::ReadOnly,
        interactivity: Interactivity::NonInteractive,
        visibility: Visibility::Public,
        requires: &[],
        tags: &[],
        aliases: &[],
        deprecated: None,
    };
    assert_eq!(s.requirements(), vec![Requirement::Always]);
    assert!(s.alias_values().is_empty());
    assert!(s.deprecation_note().is_none());
}

#[test]
fn an_alias_carries_the_reason_it_exists() {
    let s = CommandSemantics {
        command: "x",
        effect: EffectClass::ReadOnly,
        interactivity: Interactivity::NonInteractive,
        visibility: Visibility::Public,
        requires: &[],
        aliases: &[("old", "the name this command had before it was nested")],
        tags: &[],
        deprecated: None,
    };
    let aliases = s.alias_values();
    assert_eq!(aliases[0].name, "old");
    assert!(aliases[0].reason.contains("before"));
}

const TABLE: &[CommandSemantics] = &[
    CommandSemantics {
        command: "bench coverage",
        effect: EffectClass::LocalState,
        interactivity: Interactivity::NonInteractive,
        visibility: Visibility::Public,
        requires: &[Requirement::CargoToolchain, Requirement::Git],
        tags: &["entry"],
        aliases: &[],
        deprecated: Some(("bench run", "folded into bench run")),
    },
    CommandSemantics {
        command: "doctor",
        effect: EffectClass::ReadOnly,
        interactivity: Interactivity::NonInteractive,
        visibility: Visibility::Public,
        requires: &[],
        tags: &[],
        aliases: &[],
        deprecated: None,
    },
];

#[test]
fn a_declaration_is_found_by_its_path_and_says_what_replaces_it() {
    let s = lookup(TABLE, "bench coverage").expect("declared");
    assert_eq!(s.effect, EffectClass::LocalState);
    assert_eq!(s.requirements(), vec![Requirement::CargoToolchain, Requirement::Git]);
    assert_eq!(s.replacement_path(), Some("bench run"));
    assert_eq!(s.deprecation_note().unwrap().note, "folded into bench run");
    assert!(lookup(TABLE, "nope").is_none());
    assert_eq!(lookup(TABLE, "doctor").unwrap().replacement_path(), None);
}
