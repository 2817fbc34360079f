//! The shell contributor: the task lifecycle's commands, read from the registry that
//! already owns them.
//!
//! The shell tool's command registry is authority for what a command of the shell tool
//! means — its summary, its category, its stage, its visibility, what it reads and writes,
//! and the class that says what it does to the repository. Nothing is restated here. The
//! class becomes the effect through the one mapping in
//! [`EffectClass::of_shell_class`]; the summary, the syntax and the visibility are carried
//! through as they are written.

use vstd::prelude::*;

use crate::command::model::{
    identity_text, shell_class, Alias, Availability, CommandId, CommandNode, EffectClass,
    Example, Execution, Interactivity, Program, Projections, Provenance, Requirement,
    ArgumentSpec, Visibility,
};
use crate::strings::{push_str, str_eq, views};

verus! {

/// Where the registry lives inside the tool distribution.
pub const REGISTRY: &'static str = "share/commands.yaml";

/// One entry of the registry's `commands` list, as the scalars it holds. A key that is
/// absent, or not a scalar, is `None`; an entry that is not a mapping has no `id`.
#[derive(Debug, Clone, PartialEq, Eq, Default)]
pub struct RegistryEntry {
    pub id: Option<String>,
    pub summary: Option<String>,
    pub class: Option<String>,
    pub visibility: Option<String>,
    pub requires_repository: Option<String>,
    pub category: Option<String>,
    pub stage: Option<String>,
    pub note: Option<String>,
    pub syntax: Option<String>,
}

/// A text that may be absent, as text: the empty text when it is.
pub open spec fn or_empty(o: Option<String>) -> Seq<char> {
    match o {
        Some(s) => s@,
        None => seq![],
    }
}

/// Is an optional text exactly this one?
pub open spec fn is_text(o: Option<String>, t: Seq<char>) -> bool {
    o matches Some(s) && s@ == t
}

/// The tags an entry carries: its category, then its stage.
pub open spec fn shell_tags(e: RegistryEntry) -> Seq<Seq<char>> {
    let a = match e.category {
        Some(c) => seq![c@],
        None => seq![],
    };
    match e.stage {
        Some(s) => a.push("stage:"@ + s@),
        None => a,
    }
}

/// Is a node the canonical form of a registry entry with this identity word?
pub open spec fn shell_node(e: RegistryEntry, word: Seq<char>, n: CommandNode) -> bool {
    &&& n.program == Program::Shell
    &&& views(n.path@) == seq![word]
    &&& n.id@ == identity_text(Program::Shell, seq![word])
    &&& n.summary@ == or_empty(e.summary)
    &&& crate::cockpit::nav::opt_text(n.description) == crate::cockpit::nav::opt_text(e.note)
    &&& n.usage@ == (match e.syntax {
        Some(s) => s@,
        None => "majordomus "@ + word,
    })
    &&& n.runnable
    &&& n.arguments@.len() == 0
    &&& (n.execution matches Execution::Shell { argv } && views(argv@) == seq![word])
    &&& n.effect == (match shell_class(or_empty(e.class)) {
        Some(c) => c,
        None => EffectClass::LocalState,
    })
    &&& n.interactivity == Interactivity::NonInteractive
    &&& n.visibility == (if is_text(e.visibility, "internal"@) { Visibility::Internal } else { Visibility::Public })
    &&& n.availability.available
    &&& n.availability.reason is None
    &&& n.availability.requires@ == (if is_text(e.requires_repository, "true"@) {
        seq![Requirement::Repository]
    } else {
        seq![Requirement::Always]
    })
    &&& (n.provenance matches Provenance::Registry { path } && path@ == REGISTRY@)
    &&& n.aliases@.len() == 0
    &&& n.deprecation is None
    &&& views(n.tags@) == shell_tags(e)
    &&& n.examples@.len() == 0
    &&& n.projections.cli is None
    &&& n.projections.just is None
    &&& n.projections.cockpit is None
    &&& n.projections.docs is None
    &&& n.projections.just_aliases@.len() == 0
}

fn is_word(o: &Option<String>, t: &str) -> (r: bool)
    ensures
        r == is_text(*o, t@),
{
    match o {
        Some(s) => str_eq(s.as_str(), t),
        None => false,
    }
}

/// The canonical node of one registry entry; nothing for an entry with no `id`.
pub fn node(e: &RegistryEntry) -> (r: Option<CommandNode>)
    ensures
        e.id is None ==> r is None,
        e.id matches Some(w) ==> (r matches Some(n) && shell_node(*e, w@, n)),
{
    let word = match &e.id {
        Some(w) => w.as_str(),
        None => return None,
    };
    let mut path: Vec<String> = Vec::new();
    path.push(String::from_str(word));
    assert(views(path@) =~= seq![word@]);
    let mut argv: Vec<String> = Vec::new();
    argv.push(String::from_str(word));
    assert(views(argv@) =~= seq![word@]);
    let summary = match &e.summary {
        Some(s) => String::from_str(s.as_str()),
        None => String::new(),
    };
    let class = match &e.class {
        Some(c) => c.as_str(),
        None => {
            proof {
                reveal_strlit("");
            }
            ""
        },
    };
    assert(class@ == or_empty(e.class));
    let effect = match EffectClass::of_shell_class(class) {
        Some(c) => c,
        None => EffectClass::LocalState,
    };
    let visibility = if is_word(&e.visibility, "internal") { Visibility::Internal } else { Visibility::Public };
    let mut needs: Vec<Requirement> = Vec::new();
    if is_word(&e.requires_repository, "true") {
        needs.push(Requirement::Repository);
    } else {
        needs.push(Requirement::Always);
    }
    let mut tags: Vec<String> = Vec::new();
    match &e.category {
        Some(c) => tags.push(String::from_str(c.as_str())),
        None => {},
    }
    let ghost before = views(tags@);
    match &e.stage {
        Some(s) => {
            let mut t = String::from_str("stage:");
            push_str(&mut t, s.as_str());
            tags.push(t);
            assert(views(tags@) =~= before.push(views(tags@).last()));
        },
        None => {},
    }
    assert(views(tags@) =~= shell_tags(*e));
    let usage = match &e.syntax {
        Some(s) => String::from_str(s.as_str()),
        None => {
            let mut u = String::from_str("majordomus ");
            push_str(&mut u, word);
            u
        },
    };
    let id = CommandId::new(Program::Shell, path.as_slice());
    let arguments: Vec<ArgumentSpec> = Vec::new();
    let aliases: Vec<Alias> = Vec::new();
    let examples: Vec<Example> = Vec::new();
    assert(needs@ =~= (if is_text(e.requires_repository, "true"@) {
        seq![Requirement::Repository]
    } else {
        seq![Requirement::Always]
    }));
    Some(CommandNode {
        id,
        program: Program::Shell,
        path,
        summary,
        description: match &e.note {
            Some(n) => Some(String::from_str(n.as_str())),
            None => None,
        },
        usage,
        runnable: true,
        arguments,
        execution: Execution::Shell { argv },
        effect,
        interactivity: Interactivity::NonInteractive,
        visibility,
        availability: Availability { available: true, requires: needs, reason: None },
        provenance: Provenance::Registry { path: String::from_str(REGISTRY) },
        aliases,
        deprecation: None,
        tags,
        examples,
        projections: Projections::unassigned(),
    })
}

/// A registry entry is public unless it says `internal`: an entry with no visibility, or
/// any other word, is listed, completed and projected; only `internal` hides it.
pub proof fn law_an_entry_is_public_unless_it_says_internal(e: RegistryEntry, word: Seq<char>, n: CommandNode)
    requires
        shell_node(e, word, n),
    ensures
        e.visibility is None ==> n.visibility == Visibility::Public,
        (e.visibility matches Some(v) && v@ != "internal"@) ==> n.visibility == Visibility::Public,
        (e.visibility matches Some(v) && v@ == "internal"@) ==> n.visibility == Visibility::Internal,
{
}

/// The entries that have an identity, in registry order.
pub open spec fn identified(es: Seq<RegistryEntry>) -> Seq<RegistryEntry>
    decreases es.len(),
{
    if es.len() == 0 {
        seq![]
    } else if es.last().id is Some {
        identified(es.drop_last()).push(es.last())
    } else {
        identified(es.drop_last())
    }
}

/// The message for a registry that holds no `commands` list.
pub open spec fn no_commands_message() -> Seq<char> {
    REGISTRY@ + " has no `commands` list"@
}

/// Every command of the shell tool, from the registry's `commands` list. A registry with
/// no such list is an error the caller reports beside a graph that still stands; an entry
/// with no identity is passed over.
pub fn contribute(commands: Option<Vec<RegistryEntry>>) -> (r: Result<Vec<CommandNode>, String>)
    ensures
        match commands {
            None => r matches Err(m) && m@ == no_commands_message(),
            Some(es) => r matches Ok(ns) && ns@.len() == identified(es@).len() && forall|i: int|
                0 <= i < ns@.len() ==> shell_node(identified(es@)[i], identified(es@)[i].id->0@, #[trigger] ns@[i]),
        },
{
    let es = match commands {
        Some(es) => es,
        None => {
            let mut m = String::from_str(REGISTRY);
            push_str(&mut m, " has no `commands` list");
            return Err(m);
        },
    };
    let mut out: Vec<CommandNode> = Vec::new();
    for i in 0..es.len()
        invariant
            out@.len() == identified(es@.take(i as int)).len(),
            forall|j: int|
                0 <= j < out@.len() ==> shell_node(
                    identified(es@.take(i as int))[j],
                    identified(es@.take(i as int))[j].id->0@,
                    #[trigger] out@[j],
                ),
    {
        let ghost t = es@.take(i + 1);
        assert(t.drop_last() =~= es@.take(i as int));
        assert(t.last() == es@[i as int]);
        match node(&es[i]) {
            Some(n) => {
                out.push(n);
                assert forall|j: int| 0 <= j < out@.len() implies shell_node(identified(t)[j], identified(t)[j].id->0@, #[trigger] out@[j]) by {
                    if j < out@.len() - 1 {
                        assert(identified(t)[j] == identified(es@.take(i as int))[j]);
                    }
                }
            },
            None => {},
        }
    }
    assert(es@.take(es@.len() as int) =~= es@);
    Ok(out)
}

} // verus!
