use majordomus_cli::command::facts::Facts;
use majordomus_cli::command::graph::CommandGraph;
use majordomus_cli::command::model::{Sensitivity, ValueRegistry};
use majordomus_cli::command::values::{
    build, may_offer, order_once, Candidate, IndexedObject, Sources, Titled, ValueIndex, SCHEMA,
};

fn titled(id: &str, title: &str) -> Titled {
    Titled { id: id.into(), title: title.into() }
}

fn object(kind: &str, identity: &str, title: Option<&str>) -> IndexedObject {
    IndexedObject { kind: kind.into(), identity: identity.into(), title: title.map(|t| t.to_string()) }
}

fn sources() -> Sources {
    Sources {
        capabilities: vec![titled("repository.info", "About the repository"), titled("objects.get", "Read one object")],
        modules: vec![titled("objects", "Objects")],
        objects: vec![
            object("skill", "write-tests", Some("Write tests")),
            object("rule", "no-secrets", None),
            object("skill", "review", None),
            object("rule", "no-secrets", Some("a second copy")),
        ],
        moments: vec![titled("first-run", "The first run")],
        audiences: vec![titled("maintainer", "Maintainers")],
        areas: vec![titled("cli", "The command line")],
        distribution: None,
        registry: "abc".into(),
    }
}

fn graph() -> CommandGraph {
    CommandGraph::build(Vec::new(), Vec::new(), &Facts::none("/r"), "1.0.0")
}

#[test]
fn nothing_but_a_public_value_is_ever_offered() {
    assert!(may_offer(Sensitivity::Public));
    assert!(!may_offer(Sensitivity::Sensitive));
    assert!(!may_offer(Sensitivity::Secret));
}

#[test]
fn a_registry_s_values_are_filed_once_each_in_value_order() {
    let list = vec![
        Candidate::described("b", "first b"),
        Candidate::bare("a"),
        Candidate::described("b", "second b"),
    ];
    let out = order_once(&list);
    assert_eq!(out, vec![Candidate::bare("a"), Candidate::described("b", "first b")]);
}

#[test]
fn the_index_files_every_registry_that_has_values_and_nothing_else() {
    let g = graph();
    let index = build(&sources(), &g, "1.0.0");
    assert_eq!(index.schema, SCHEMA);
    assert_eq!(index.version, "1.0.0");
    assert_eq!(index.registry, "abc");
    let keys: Vec<&str> = index.values.iter().map(|(k, _)| k.as_str()).collect();
    assert_eq!(
        keys,
        vec![
            "area",
            "audience",
            "capability",
            "command",
            "distribution-target",
            "module",
            "moment",
            "object-kind",
            "rule",
            "skill"
        ]
    );
    let caps: Vec<&str> = index.candidates(ValueRegistry::Capability).iter().map(|c| c.value.as_str()).collect();
    assert_eq!(caps, vec!["objects.get", "repository.info"]);
    let kinds: Vec<&str> = index.candidates(ValueRegistry::ObjectKind).iter().map(|c| c.value.as_str()).collect();
    assert_eq!(kinds, vec!["rule", "skill"]);
    assert_eq!(index.candidates(ValueRegistry::Rule), &[Candidate::described("no-secrets", "no-secrets")]);
    assert_eq!(
        index.candidates(ValueRegistry::Skill),
        &[Candidate::described("review", "review"), Candidate::described("write-tests", "Write tests")]
    );
    assert!(index.candidates(ValueRegistry::DistributionTarget).is_empty());
    assert!(index.candidates(ValueRegistry::Branch).is_empty());
    assert!(index.is_current(&g.structure));
    assert!(!index.is_current("something else"));
}

#[test]
fn an_index_of_another_version_or_schema_is_not_accepted() {
    let index = build(&sources(), &graph(), "1.0.0");
    assert_eq!(ValueIndex::accepted(Some(index.clone()), "1.0.0"), index);
    assert_eq!(ValueIndex::accepted(Some(index.clone()), "0.0.0-other"), ValueIndex::default());
    let mut other = index.clone();
    other.schema = "other/v1".into();
    assert_eq!(ValueIndex::accepted(Some(other), "1.0.0"), ValueIndex::default());
    assert_eq!(ValueIndex::accepted(None, "1.0.0"), ValueIndex::empty());
}

#[test]
fn a_missing_index_is_empty_and_offers_nothing() {
    let index = ValueIndex::empty();
    assert!(index.values.is_empty());
    assert!(index.candidates(ValueRegistry::Capability).is_empty());
    assert!(!index.is_current("anything"));
    assert!(ValueIndex::path("/repo").ends_with(".ai/local/state/command/values.json"));
}
