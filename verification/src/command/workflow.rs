//! The workflow contributor: everything this repository can run that neither executable
//! implements, declared one file at a time and discovered.
//!
//! A workflow is a script of this repository — the site build, the CI plan, the release
//! packaging — that legitimately stays outside the Rust executable. Each is one object
//! under [`DIRECTORY`]: a typed file naming what it does, what it needs, what it changes
//! and the argument vectors it runs. Dropping a file there is the whole registration: the
//! graph discovers it, the Just bridge projects it, completion offers it, the reference
//! documents it and the Cockpit lists it. No central list names it.

use vstd::prelude::*;

use crate::command::graph::{rearranged, sort_by_id, sorts_by_id};
use crate::command::model::{
    identity_text, Alias, ArgumentSpec, Availability, CommandId, CommandNode, Deprecation,
    EffectClass, Example, Execution, Interactivity, Program, Projections, Provenance,
    Requirement, Visibility,
};
use crate::command::projection::{
    is_hit, is_rearrangement, lemma_text_less_irreflexive, lemma_text_less_total,
    lemma_text_less_transitive, text_before, text_less,
};
use crate::command::semantics::alias_values_model;
use crate::command::shell::{is_text, or_empty};
use crate::strings::{copy_strings, push_str, str_eq, views};

verus! {

/// Where workflow objects live, relative to the repository root. A conventional tree, not
/// a manifest: every `.yaml` file directly under it is one workflow.
pub const DIRECTORY: &'static str = ".ai/repo/workflows/commands";

/// The document schema every workflow object declares.
pub const SCHEMA: &'static str = "workflow-command/v1";

/// One alias a workflow declares, as the scalars of its mapping.
#[derive(Debug, Clone, PartialEq, Eq, Default)]
pub struct AliasDoc {
    pub name: Option<String>,
    pub reason: Option<String>,
}

/// A workflow object, as the scalars and lists it holds. A key that is absent, or not a
/// scalar, is `None`; a list keeps only its scalar items.
#[derive(Debug, Clone, PartialEq, Eq, Default)]
pub struct WorkflowDoc {
    pub schema: Option<String>,
    pub id: Option<String>,
    pub summary: Option<String>,
    pub description: Option<String>,
    pub effect: Option<String>,
    pub interactivity: Option<String>,
    pub visibility: Option<String>,
    pub deprecated: Option<String>,
    pub variadic: Option<String>,
    /// The steps: `None` when `steps` is not a list; an item is `None` when it is not a
    /// list of words.
    pub steps: Option<Vec<Option<Vec<String>>>>,
    pub requires: Vec<String>,
    pub tags: Vec<String>,
    /// The aliases that are mappings.
    pub aliases: Vec<AliasDoc>,
}

/// One file of the workflow tree: its name, and what reading it gave.
#[derive(Debug, PartialEq, Eq)]
pub struct WorkflowFile {
    /// The file's name inside the tree.
    pub name: String,
    /// The object, or why it could not be read.
    pub doc: Result<WorkflowDoc, String>,
}

// ------------------------------------------------------------------ the checks

/// A workflow identity: `[a-z0-9][a-z0-9-]*`.
pub open spec fn workflow_identity(w: Seq<char>) -> bool {
    &&& w.len() > 0
    &&& w[0] != '-'
    &&& forall|i: int| 0 <= i < w.len() ==> ('a' <= #[trigger] w[i] <= 'z' || '0' <= w[i] <= '9' || w[i] == '-')
}

/// The effect class a text names.
pub open spec fn effect_named(t: Seq<char>) -> Option<EffectClass> {
    if t == "read-only"@ {
        Some(EffectClass::ReadOnly)
    } else if t == "process-state"@ {
        Some(EffectClass::ProcessState)
    } else if t == "local-state"@ {
        Some(EffectClass::LocalState)
    } else if t == "generated-output"@ {
        Some(EffectClass::GeneratedOutput)
    } else if t == "network"@ {
        Some(EffectClass::Network)
    } else if t == "destructive"@ {
        Some(EffectClass::Destructive)
    } else {
        None
    }
}

/// The requirement a text names.
pub open spec fn requirement_named(t: Seq<char>) -> Option<Requirement> {
    if t == "always"@ {
        Some(Requirement::Always)
    } else if t == "repository"@ {
        Some(Requirement::Repository)
    } else if t == "git"@ {
        Some(Requirement::Git)
    } else if t == "cargo-toolchain"@ {
        Some(Requirement::CargoToolchain)
    } else if t == "native-executable"@ {
        Some(Requirement::NativeExecutable)
    } else if t == "site"@ {
        Some(Requirement::Site)
    } else if t == "site-dependencies"@ {
        Some(Requirement::SiteDependencies)
    } else if t == "browser"@ {
        Some(Requirement::Browser)
    } else {
        None
    }
}

/// The first step that is not a list of words with a program in it, as the reason.
pub open spec fn steps_problem(items: Seq<Option<Vec<String>>>) -> Option<Seq<char>>
    decreases items.len(),
{
    if items.len() == 0 {
        None
    } else {
        match items[0] {
            None => Some("a step is a list of words, not a command line"@),
            Some(words) => if words@.len() == 0 {
                Some("a step with no program in it"@)
            } else {
                steps_problem(items.drop_first())
            },
        }
    }
}

/// The first requirement this executable does not know, as the reason.
pub open spec fn requirements_problem(names: Seq<Seq<char>>) -> Option<Seq<char>>
    decreases names.len(),
{
    if names.len() == 0 {
        None
    } else if requirement_named(names[0]) is None {
        Some("requirement '"@ + names[0] + "' is not one this executable knows"@)
    } else {
        requirements_problem(names.drop_first())
    }
}

/// Why a workflow object is refused, checked in this order: its schema, its identity, its
/// summary, its effect, its steps, its requirements.
pub open spec fn refusal(doc: WorkflowDoc) -> Option<Seq<char>> {
    let declared = or_empty(doc.schema);
    if declared != SCHEMA@ {
        Some("declares schema '"@ + declared + "', and this executable reads '"@ + SCHEMA@ + "'"@)
    } else if doc.id is None {
        Some("no id"@)
    } else if !workflow_identity(doc.id->0@) {
        Some("id '"@ + doc.id->0@ + "' is not [a-z0-9][a-z0-9-]*"@)
    } else if doc.summary is None {
        Some("no summary"@)
    } else if doc.effect is None {
        Some("no effect"@)
    } else if effect_named(doc.effect->0@) is None {
        Some("effect '"@ + doc.effect->0@ + "' is not one of the classes"@)
    } else if doc.steps is None {
        Some("steps must be a list of argument vectors"@)
    } else if steps_problem(doc.steps->0@) is Some {
        steps_problem(doc.steps->0@)
    } else if doc.steps->0@.len() == 0 {
        Some("no steps: a workflow that runs nothing is not a command"@)
    } else {
        requirements_problem(views(doc.requires@))
    }
}

/// The requirements a workflow declares; none declared means it needs nothing.
pub open spec fn requirements_of(names: Seq<Seq<char>>) -> Seq<Requirement> {
    if names.len() == 0 {
        seq![Requirement::Always]
    } else {
        names.map_values(|n: Seq<char>| requirement_named(n)->0)
    }
}

/// The aliases a workflow declares: those with a name, each with its reason or the
/// default one.
pub open spec fn declared_aliases(docs: Seq<AliasDoc>) -> Seq<(Seq<char>, Seq<char>)>
    decreases docs.len(),
{
    if docs.len() == 0 {
        seq![]
    } else {
        let rest = declared_aliases(docs.drop_last());
        let d = docs.last();
        match d.name {
            Some(n) => rest.push(
                (
                    n@,
                    match d.reason {
                        Some(r) => r@,
                        None => "a name this workflow also answers to"@,
                    },
                ),
            ),
            None => rest,
        }
    }
}

/// The steps as words.
pub open spec fn step_views(steps: Seq<Vec<String>>) -> Seq<Seq<Seq<char>>> {
    steps.map_values(|s: Vec<String>| views(s@))
}

/// Declared steps as words.
pub open spec fn declared_steps(items: Seq<Option<Vec<String>>>) -> Seq<Seq<Seq<char>>> {
    items.map_values(|o: Option<Vec<String>>| views(o->0@))
}

/// A workflow object is public unless it says `internal`: an object with no visibility,
/// or any other word, is listed, completed and projected; only `internal` hides it.
pub proof fn law_a_workflow_is_public_unless_it_says_internal(doc: WorkflowDoc, relative: Seq<char>, n: CommandNode)
    requires
        workflow_node(doc, relative, n),
    ensures
        doc.visibility is None ==> n.visibility == Visibility::Public,
        (doc.visibility matches Some(v) && v@ != "internal"@) ==> n.visibility == Visibility::Public,
        (doc.visibility matches Some(v) && v@ == "internal"@) ==> n.visibility == Visibility::Internal,
{
}

/// The shell registry's class words name the same classes as the workflow words they
/// stand for: `read-only` is read-only, `state-mutating` is local state and
/// `generated-output-mutating` is generated output, and no other word names a class.
pub proof fn law_the_shell_classes_are_the_workflow_classes(t: Seq<char>)
    ensures
        crate::command::model::shell_class("read-only"@) == effect_named("read-only"@),
        crate::command::model::shell_class("state-mutating"@) == effect_named("local-state"@),
        crate::command::model::shell_class("generated-output-mutating"@) == effect_named("generated-output"@),
        crate::command::model::shell_class(t) is Some ==> t == "read-only"@ || t == "state-mutating"@ || t == "generated-output-mutating"@,
        effect_named("read-only"@) == Some(EffectClass::ReadOnly),
        effect_named("local-state"@) == Some(EffectClass::LocalState),
        effect_named("generated-output"@) == Some(EffectClass::GeneratedOutput),
{
    reveal_strlit("read-only");
    reveal_strlit("process-state");
    reveal_strlit("local-state");
    reveal_strlit("generated-output");
    reveal_strlit("state-mutating");
    reveal_strlit("generated-output-mutating");
    assert("read-only"@.len() == 9 && "process-state"@.len() == 13 && "local-state"@.len() == 11);
    assert("generated-output"@.len() == 16 && "state-mutating"@.len() == 14);
    assert("generated-output-mutating"@.len() == 25);
}

/// Is a node the canonical form of an accepted workflow object read from a path?
pub open spec fn workflow_node(doc: WorkflowDoc, relative: Seq<char>, n: CommandNode) -> bool {
    let word = doc.id->0@;
    &&& n.program == Program::Workflow
    &&& views(n.path@) == seq![word]
    &&& n.id@ == identity_text(Program::Workflow, seq![word])
    &&& n.summary@ == doc.summary->0@
    &&& crate::cockpit::nav::opt_text(n.description) == crate::cockpit::nav::opt_text(doc.description)
    &&& n.usage@ == "just "@ + word + (if is_text(doc.variadic, "true"@) { " [ARGS]..."@ } else { seq![] })
    &&& n.runnable
    &&& n.arguments@.len() == 0
    &&& (n.execution matches Execution::External { steps } && step_views(steps@) == declared_steps(doc.steps->0@))
    &&& n.effect == effect_named(doc.effect->0@)->0
    &&& n.interactivity == (if is_text(doc.interactivity, "tty-required"@) {
        Interactivity::TtyRequired
    } else if is_text(doc.interactivity, "tty-preferred"@) {
        Interactivity::TtyPreferred
    } else {
        Interactivity::NonInteractive
    })
    &&& n.visibility == (if is_text(doc.visibility, "internal"@) { Visibility::Internal } else { Visibility::Public })
    &&& n.availability.available
    &&& n.availability.reason is None
    &&& n.availability.requires@ == requirements_of(views(doc.requires@))
    &&& (n.provenance matches Provenance::Declared { path } && path@ == relative)
    &&& alias_values_model(n.aliases@) == declared_aliases(doc.aliases@)
    &&& match doc.deprecated {
        Some(d) => n.deprecation matches Some(x) && x.replaced_by is None && x.note@ == d@,
        None => n.deprecation is None,
    }
    &&& views(n.tags@) == views(doc.tags@)
    &&& n.examples@.len() == 0
    &&& n.projections.cli is None
    &&& n.projections.just is None
    &&& n.projections.cockpit is None
    &&& n.projections.docs is None
    &&& n.projections.just_aliases@.len() == 0
}

fn is_identity(w: &str) -> (r: bool)
    ensures
        r == workflow_identity(w@),
{
    let n = w.unicode_len();
    if n == 0 || w.get_char(0) == '-' {
        return false;
    }
    let mut i: usize = 0;
    while i < n
        invariant
            n == w@.len(),
            i <= n,
            forall|j: int| 0 <= j < i ==> ('a' <= #[trigger] w@[j] <= 'z' || '0' <= w@[j] <= '9' || w@[j] == '-'),
        decreases n - i,
    {
        let c = w.get_char(i);
        if !(('a' <= c && c <= 'z') || ('0' <= c && c <= '9') || c == '-') {
            return false;
        }
        i += 1;
    }
    true
}

fn effect_class(t: &str) -> (r: Option<EffectClass>)
    ensures
        r == effect_named(t@),
{
    if str_eq(t, "read-only") {
        Some(EffectClass::ReadOnly)
    } else if str_eq(t, "process-state") {
        Some(EffectClass::ProcessState)
    } else if str_eq(t, "local-state") {
        Some(EffectClass::LocalState)
    } else if str_eq(t, "generated-output") {
        Some(EffectClass::GeneratedOutput)
    } else if str_eq(t, "network") {
        Some(EffectClass::Network)
    } else if str_eq(t, "destructive") {
        Some(EffectClass::Destructive)
    } else {
        None
    }
}

fn requirement(t: &str) -> (r: Option<Requirement>)
    ensures
        r == requirement_named(t@),
{
    if str_eq(t, "always") {
        Some(Requirement::Always)
    } else if str_eq(t, "repository") {
        Some(Requirement::Repository)
    } else if str_eq(t, "git") {
        Some(Requirement::Git)
    } else if str_eq(t, "cargo-toolchain") {
        Some(Requirement::CargoToolchain)
    } else if str_eq(t, "native-executable") {
        Some(Requirement::NativeExecutable)
    } else if str_eq(t, "site") {
        Some(Requirement::Site)
    } else if str_eq(t, "site-dependencies") {
        Some(Requirement::SiteDependencies)
    } else if str_eq(t, "browser") {
        Some(Requirement::Browser)
    } else {
        None
    }
}

fn concat3(a: &str, b: &str, c: &str) -> (r: String)
    ensures
        r@ == a@ + b@ + c@,
{
    let mut out = String::from_str(a);
    push_str(&mut out, b);
    push_str(&mut out, c);
    out
}

fn concat5(a: &str, b: &str, c: &str, d: &str, e: &str) -> (r: String)
    ensures
        r@ == a@ + b@ + c@ + d@ + e@,
{
    let mut out = String::from_str(a);
    push_str(&mut out, b);
    push_str(&mut out, c);
    push_str(&mut out, d);
    push_str(&mut out, e);
    out
}

proof fn lemma_steps_fine(items: Seq<Option<Vec<String>>>)
    requires
        steps_problem(items) is None,
    ensures
        forall|i: int| 0 <= i < items.len() ==> (#[trigger] items[i]) is Some && items[i]->0@.len() > 0,
    decreases items.len(),
{
    if items.len() > 0 {
        lemma_steps_fine(items.drop_first());
        assert forall|i: int| 0 <= i < items.len() implies (#[trigger] items[i]) is Some && items[i]->0@.len() > 0 by {
            if i > 0 {
                assert(items[i] == items.drop_first()[i - 1]);
            }
        }
    }
}

fn steps_check(items: &Vec<Option<Vec<String>>>) -> (r: Option<String>)
    ensures
        crate::cockpit::nav::opt_text(r) == steps_problem(items@),
{
    let mut i: usize = 0;
    assert(items@.skip(0) =~= items@);
    while i < items.len()
        invariant
            i <= items@.len(),
            steps_problem(items@) == steps_problem(items@.skip(i as int)),
        decreases items.len() - i,
    {
        assert(items@.skip(i as int)[0] == items@[i as int]);
        assert(items@.skip(i as int).drop_first() =~= items@.skip(i + 1));
        match &items[i] {
            None => return Some(String::from_str("a step is a list of words, not a command line")),
            Some(words) => {
                if words.len() == 0 {
                    return Some(String::from_str("a step with no program in it"));
                }
            },
        }
        i += 1;
    }
    None
}

fn requirements_check(names: &Vec<String>) -> (r: Result<Vec<Requirement>, String>)
    ensures
        match requirements_problem(views(names@)) {
            Some(m) => r matches Err(x) && x@ == m,
            None => r matches Ok(v) && v@ == requirements_of(views(names@)),
        },
{
    let ghost all = views(names@);
    if names.len() == 0 {
        let mut v: Vec<Requirement> = Vec::new();
        v.push(Requirement::Always);
        assert(v@ =~= seq![Requirement::Always]);
        return Ok(v);
    }
    let mut out: Vec<Requirement> = Vec::new();
    let mut i: usize = 0;
    assert(all.skip(0) =~= all);
    while i < names.len()
        invariant
            all == views(names@),
            i <= names@.len(),
            requirements_problem(all) == requirements_problem(all.skip(i as int)),
            out@ == all.take(i as int).map_values(|n: Seq<char>| requirement_named(n)->0),
        decreases names.len() - i,
    {
        assert(all.skip(i as int)[0] == names@[i as int]@);
        assert(all.skip(i as int).drop_first() =~= all.skip(i + 1));
        match requirement(names[i].as_str()) {
            Some(r) => {
                out.push(r);
                assert(out@ =~= all.take(i + 1).map_values(|n: Seq<char>| requirement_named(n)->0));
            },
            None => {
                return Err(concat3("requirement '", names[i].as_str(), "' is not one this executable knows"));
            },
        }
        i += 1;
    }
    assert(all.take(names@.len() as int) =~= all);
    assert(all.skip(names@.len() as int) =~= seq![]);
    Ok(out)
}

/// Read one workflow object into its canonical node, or say why it is refused.
pub fn read(doc: &WorkflowDoc, relative: &str) -> (r: Result<CommandNode, String>)
    ensures
        match refusal(*doc) {
            Some(m) => r matches Err(x) && x@ == m,
            None => r matches Ok(n) && workflow_node(*doc, relative@, n),
        },
{
    proof {
        reveal_strlit("");
    }
    let declared = match &doc.schema {
        Some(s) => s.as_str(),
        None => "",
    };
    assert(declared@ == or_empty(doc.schema));
    if !str_eq(declared, SCHEMA) {
        return Err(concat5("declares schema '", declared, "', and this executable reads '", SCHEMA, "'"));
    }
    let word = match &doc.id {
        Some(w) => w.as_str(),
        None => return Err(String::from_str("no id")),
    };
    if !is_identity(word) {
        return Err(concat3("id '", word, "' is not [a-z0-9][a-z0-9-]*"));
    }
    let summary = match &doc.summary {
        Some(s) => String::from_str(s.as_str()),
        None => return Err(String::from_str("no summary")),
    };
    let effect = match &doc.effect {
        Some(e) => match effect_class(e.as_str()) {
            Some(c) => c,
            None => return Err(concat3("effect '", e.as_str(), "' is not one of the classes")),
        },
        None => return Err(String::from_str("no effect")),
    };
    let items = match &doc.steps {
        Some(items) => items,
        None => return Err(String::from_str("steps must be a list of argument vectors")),
    };
    match steps_check(items) {
        Some(m) => return Err(m),
        None => {},
    }
    if items.len() == 0 {
        return Err(String::from_str("no steps: a workflow that runs nothing is not a command"));
    }
    let needs = match requirements_check(&doc.requires) {
        Ok(v) => v,
        Err(m) => return Err(m),
    };
    proof {
        lemma_steps_fine(items@);
    }
    let mut steps: Vec<Vec<String>> = Vec::new();
    for i in 0..items.len()
        invariant
            step_views(steps@) == declared_steps(items@.take(i as int)),
            forall|j: int| 0 <= j < items@.len() ==> (#[trigger] items@[j]) is Some,
    {
        let words = match &items[i] {
            Some(w) => copy_strings(w),
            None => Vec::new(),
        };
        steps.push(words);
        assert(declared_steps(items@.take(i + 1)) =~= declared_steps(items@.take(i as int)).push(views(items@[i as int]->0@)));
        assert(step_views(steps@) =~= step_views(steps@.drop_last()).push(views(steps@.last()@)));
    }
    assert(items@.take(items@.len() as int) =~= items@);
    let mut path: Vec<String> = Vec::new();
    path.push(String::from_str(word));
    assert(views(path@) =~= seq![word@]);
    let mut usage = String::from_str("just ");
    push_str(&mut usage, word);
    let variadic = match &doc.variadic {
        Some(v) => str_eq(v.as_str(), "true"),
        None => false,
    };
    if variadic {
        push_str(&mut usage, " [ARGS]...");
    }
    let interactivity = match &doc.interactivity {
        Some(t) => if str_eq(t.as_str(), "tty-required") {
            Interactivity::TtyRequired
        } else if str_eq(t.as_str(), "tty-preferred") {
            Interactivity::TtyPreferred
        } else {
            Interactivity::NonInteractive
        },
        None => Interactivity::NonInteractive,
    };
    let visibility = match &doc.visibility {
        Some(t) => if str_eq(t.as_str(), "internal") { Visibility::Internal } else { Visibility::Public },
        None => Visibility::Public,
    };
    let mut aliases: Vec<Alias> = Vec::new();
    for i in 0..doc.aliases.len()
        invariant
            alias_values_model(aliases@) == declared_aliases(doc.aliases@.take(i as int)),
    {
        let a = &doc.aliases[i];
        let ghost t = doc.aliases@.take(i + 1);
        assert(t.drop_last() =~= doc.aliases@.take(i as int));
        assert(t.last() == *a);
        match &a.name {
            Some(n) => {
                let reason = match &a.reason {
                    Some(r) => String::from_str(r.as_str()),
                    None => String::from_str("a name this workflow also answers to"),
                };
                aliases.push(Alias { name: String::from_str(n.as_str()), reason });
                assert(alias_values_model(aliases@) =~= declared_aliases(t));
            },
            None => {},
        }
    }
    assert(doc.aliases@.take(doc.aliases@.len() as int) =~= doc.aliases@);
    let deprecation = match &doc.deprecated {
        Some(d) => Some(Deprecation { replaced_by: None, note: String::from_str(d.as_str()) }),
        None => None,
    };
    let id = CommandId::new(Program::Workflow, path.as_slice());
    let arguments: Vec<ArgumentSpec> = Vec::new();
    let examples: Vec<Example> = Vec::new();
    Ok(CommandNode {
        id,
        program: Program::Workflow,
        path,
        summary,
        description: match &doc.description {
            Some(d) => Some(String::from_str(d.as_str())),
            None => None,
        },
        usage,
        runnable: true,
        arguments,
        execution: Execution::External { steps },
        effect,
        interactivity,
        visibility,
        availability: Availability { available: true, requires: needs, reason: None },
        provenance: Provenance::Declared { path: String::from_str(relative) },
        aliases,
        deprecation,
        tags: copy_strings(&doc.tags),
        examples,
        projections: Projections::unassigned(),
    })
}


// ------------------------------------------------------------------ the tree

/// Does one file come before another: by name, ties in discovery order.
pub open spec fn name_before(v: Seq<WorkflowFile>, i: int, j: int) -> bool {
    text_less(v[i].name@, v[j].name@) || (v[i].name@ == v[j].name@ && i < j)
}

/// Files rearranged into name order, stably.
pub open spec fn sorts_by_name(v: Seq<WorkflowFile>, perm: Seq<int>) -> bool {
    &&& is_rearrangement(perm, v.len() as int)
    &&& forall|k: int, l: int| 0 <= k < l < perm.len() ==> name_before(v, #[trigger] perm[k], #[trigger] perm[l])
}

/// The files a rearrangement gives.
pub open spec fn files_in(v: Seq<WorkflowFile>, perm: Seq<int>) -> Seq<WorkflowFile> {
    perm.map_values(|p: int| v[p])
}

/// The path of a file of the tree, relative to the repository root.
pub open spec fn relative_of(f: WorkflowFile) -> Seq<char> {
    DIRECTORY@ + "/"@ + f.name@
}

/// What a file says is wrong with it, if anything: why it could not be read, or why its
/// object is refused.
pub open spec fn problem_of(f: WorkflowFile) -> Option<Seq<char>> {
    match f.doc {
        Err(m) => Some(m@),
        Ok(d) => refusal(d),
    }
}

/// The problems of the files, in file order, each after the file's path.
pub open spec fn problems_of(files: Seq<WorkflowFile>) -> Seq<Seq<char>>
    decreases files.len(),
{
    if files.len() == 0 {
        seq![]
    } else {
        let rest = problems_of(files.drop_last());
        let f = files.last();
        match problem_of(f) {
            Some(m) => rest.push(relative_of(f) + ": "@ + m),
            None => rest,
        }
    }
}

/// The objects the files hold that are accepted, each with its path, in file order.
pub open spec fn accepted_of(files: Seq<WorkflowFile>) -> Seq<(WorkflowDoc, Seq<char>)>
    decreases files.len(),
{
    if files.len() == 0 {
        seq![]
    } else {
        let rest = accepted_of(files.drop_last());
        let f = files.last();
        match (f.doc, problem_of(f)) {
            (Ok(d), None) => rest.push((d, relative_of(f))),
            _ => rest,
        }
    }
}

fn sort_by_name(v: Vec<WorkflowFile>) -> (r: (Vec<WorkflowFile>, Ghost<Seq<int>>))
    ensures
        sorts_by_name(v@, r.1@),
        r.0@ == files_in(v@, r.1@),
{
    let ghost all = v@;
    let n = v.len();
    let mut rest = v;
    let mut out: Vec<WorkflowFile> = Vec::new();
    let ghost mut perm: Seq<int> = seq![];
    let mut j: usize = 0;
    while j < n
        invariant
            n == all.len(),
            j <= n,
            rest@ == all.subrange(j as int, n as int),
            out@.len() == j,
            perm.len() == j,
            out@ == files_in(all, perm),
            forall|k: int| 0 <= k < perm.len() ==> 0 <= #[trigger] perm[k] < j,
            forall|k: int, l: int|
                0 <= k < perm.len() && 0 <= l < perm.len() && k != l ==> #[trigger] perm[k] != #[trigger] perm[l],
            forall|i: int| 0 <= i < j ==> #[trigger] is_hit(perm, i),
            forall|k: int, l: int| 0 <= k < l < perm.len() ==> name_before(all, #[trigger] perm[k], #[trigger] perm[l]),
        decreases n - j,
    {
        let file = rest.remove(0);
        assert(file == all[j as int]);
        let mut p: usize = 0;
        while p < out.len() && !text_before(file.name.as_str(), out[p].name.as_str())
            invariant
                p <= out@.len(),
                out@ == files_in(all, perm),
                perm.len() == out@.len(),
                file == all[j as int],
                forall|k: int| 0 <= k < p ==> !text_less(all[j as int].name@, #[trigger] all[perm[k]].name@),
            decreases out@.len() - p,
        {
            assert(out@[p as int] == all[perm[p as int]]);
            p += 1;
        }
        let ghost before = perm;
        proof {
            let jj = j as int;
            assert forall|k: int| 0 <= k < p implies name_before(all, #[trigger] before[k], jj) by {
                let e = before[k];
                if all[e].name@ != all[jj].name@ {
                    lemma_text_less_total(all[e].name@, all[jj].name@);
                }
            }
            assert forall|k: int| p <= k < before.len() implies name_before(all, jj, #[trigger] before[k]) by {
                let e = before[k];
                let f = before[p as int];
                assert(out@[p as int] == all[f]);
                assert(text_less(all[jj].name@, all[f].name@));
                if k > p {
                    assert(name_before(all, f, e));
                    if text_less(all[f].name@, all[e].name@) {
                        lemma_text_less_transitive(all[jj].name@, all[f].name@, all[e].name@);
                    }
                }
            }
        }
        out.insert(p, file);
        proof {
            perm = before.insert(p as int, j as int);
            let jj = j as int;
            assert(out@ =~= files_in(all, perm));
            assert forall|k: int| 0 <= k < perm.len() implies 0 <= #[trigger] perm[k] < j + 1 by {
                if k < p {
                    assert(perm[k] == before[k]);
                } else if k > p {
                    assert(perm[k] == before[k - 1]);
                }
            }
            assert forall|k: int, l: int| 0 <= k < l < perm.len() implies name_before(all, #[trigger] perm[k], #[trigger] perm[l]) by {
                if k < p && l < p {
                    assert(perm[k] == before[k] && perm[l] == before[l]);
                } else if k < p && l == p {
                    assert(perm[k] == before[k]);
                } else if k < p {
                    assert(perm[k] == before[k] && perm[l] == before[l - 1]);
                } else if k == p {
                    assert(perm[l] == before[l - 1]);
                } else {
                    assert(perm[k] == before[k - 1] && perm[l] == before[l - 1]);
                }
            }
            assert forall|k: int, l: int|
                0 <= k < perm.len() && 0 <= l < perm.len() && k != l implies #[trigger] perm[k] != #[trigger] perm[l] by {
                let ok = if k < p { before[k] } else if k == p { jj } else { before[k - 1] };
                let ol = if l < p { before[l] } else if l == p { jj } else { before[l - 1] };
                assert(perm[k] == ok);
                assert(perm[l] == ol);
            }
            assert forall|i: int| 0 <= i < j + 1 implies #[trigger] is_hit(perm, i) by {
                if i == jj {
                    assert(perm[p as int] == i);
                } else {
                    assert(is_hit(before, i));
                    let k0 = choose|k: int| 0 <= k < before.len() && before[k] == i;
                    if k0 < p {
                        assert(perm[k0] == i);
                    } else {
                        assert(perm[k0 + 1] == i);
                    }
                }
            }
            assert(all.subrange(j + 1, n as int) =~= all.subrange(jj, n as int).drop_first());
        }
        j += 1;
    }
    (out, Ghost(perm))
}

/// Every workflow declared in the tree, in identity order, and every problem, in file
/// order: the files are taken by name, so that the order they were discovered in cannot
/// reach the output. A tree with no files has no workflows, which is not an error.
pub fn contribute(files: Vec<WorkflowFile>) -> (r: (Vec<CommandNode>, Vec<String>))
    ensures
        exists|fperm: Seq<int>, made: Seq<CommandNode>, nperm: Seq<int>|
            #![trigger sorts_by_name(files@, fperm), sorts_by_id(made, nperm)]
            {
            let sorted = files_in(files@, fperm);
            let acc = accepted_of(sorted);
            &&& sorts_by_name(files@, fperm)
            &&& views(r.1@) == problems_of(sorted)
            &&& made.len() == acc.len()
            &&& (forall|i: int| 0 <= i < made.len() ==> workflow_node(acc[i].0, acc[i].1, #[trigger] made[i]))
            &&& sorts_by_id(made, nperm)
            &&& r.0@ == rearranged(made, nperm)
        },
{
    let (sorted, Ghost(fperm)) = sort_by_name(files);
    let ghost all = sorted@;
    let mut nodes: Vec<CommandNode> = Vec::new();
    let mut problems: Vec<String> = Vec::new();
    for i in 0..sorted.len()
        invariant
            all == sorted@,
            views(problems@) == problems_of(all.take(i as int)),
            nodes@.len() == accepted_of(all.take(i as int)).len(),
            forall|k: int|
                0 <= k < nodes@.len() ==> workflow_node(
                    accepted_of(all.take(i as int))[k].0,
                    accepted_of(all.take(i as int))[k].1,
                    #[trigger] nodes@[k],
                ),
    {
        let f = &sorted[i];
        let ghost t = all.take(i + 1);
        assert(t.drop_last() =~= all.take(i as int));
        assert(t.last() == *f);
        let mut relative = String::from_str(DIRECTORY);
        push_str(&mut relative, "/");
        push_str(&mut relative, f.name.as_str());
        let outcome = match &f.doc {
            Ok(d) => read(d, relative.as_str()),
            Err(m) => Err(String::from_str(m.as_str())),
        };
        match outcome {
            Ok(n) => {
                nodes.push(n);
                assert forall|k: int| 0 <= k < nodes@.len() implies workflow_node(accepted_of(t)[k].0, accepted_of(t)[k].1, #[trigger] nodes@[k]) by {
                    if k < nodes@.len() - 1 {
                        assert(accepted_of(t)[k] == accepted_of(all.take(i as int))[k]);
                    }
                }
            },
            Err(m) => {
                let mut line = String::from_str(relative.as_str());
                push_str(&mut line, ": ");
                push_str(&mut line, m.as_str());
                problems.push(line);
                assert(views(problems@) =~= views(problems@.drop_last()).push(problems@.last()@));
            },
        }
    }
    assert(all.take(all.len() as int) =~= all);
    let ghost made = nodes@;
    let (ordered, Ghost(nperm)) = sort_by_id(nodes);
    (ordered, problems)
}

proof fn lemma_name_before_asymmetric(v: Seq<WorkflowFile>, i: int, j: int)
    ensures
        !(name_before(v, i, j) && name_before(v, j, i)),
{
    lemma_text_less_irreflexive(v[i].name@);
    if text_less(v[i].name@, v[j].name@) && text_less(v[j].name@, v[i].name@) {
        lemma_text_less_transitive(v[i].name@, v[j].name@, v[i].name@);
    }
}

proof fn lemma_name_sort_agree(v: Seq<WorkflowFile>, p1: Seq<int>, p2: Seq<int>, k: int)
    requires
        sorts_by_name(v, p1),
        sorts_by_name(v, p2),
        0 <= k < p1.len(),
    ensures
        p1[k] == p2[k],
    decreases k,
{
    assert forall|j: int| 0 <= j < k implies p1[j] == p2[j] by {
        lemma_name_sort_agree(v, p1, p2, j);
    }
    let x = p1[k];
    let y = p2[k];
    assert(is_hit(p1, y));
    assert(is_hit(p2, x));
    let p = choose|p: int| 0 <= p < p1.len() && p1[p] == y;
    let q = choose|q: int| 0 <= q < p2.len() && p2[q] == x;
    if x != y {
        if p < k {
            assert(p2[p] == y);
        }
        if q < k {
            assert(p1[q] == x);
        }
        assert(name_before(v, p1[k], p1[p]));
        assert(name_before(v, p2[k], p2[q]));
        lemma_name_before_asymmetric(v, x, y);
    }
}

/// Discovery order cannot reach the output: when the files of the tree, each under its
/// own name, are found in another order, they are taken in the same order, so the same
/// problems are reported in the same order and the same objects are accepted.
pub proof fn law_discovery_order_cannot_reach_the_output(
    found: Seq<WorkflowFile>,
    order: Seq<int>,
    p1: Seq<int>,
    p2: Seq<int>,
)
    requires
        forall|i: int, j: int| 0 <= i < found.len() && 0 <= j < found.len() && i != j ==> #[trigger] found[i].name@ != #[trigger] found[j].name@,
        is_rearrangement(order, found.len() as int),
        sorts_by_name(found, p1),
        sorts_by_name(files_in(found, order), p2),
    ensures
        files_in(found, p1) == files_in(files_in(found, order), p2),
        problems_of(files_in(found, p1)) == problems_of(files_in(files_in(found, order), p2)),
        accepted_of(files_in(found, p1)) == accepted_of(files_in(files_in(found, order), p2)),
{
    let v2 = files_in(found, order);
    let n = found.len() as int;
    let p3 = p2.map_values(|x: int| order[x]);
    assert forall|k: int| 0 <= k < n implies 0 <= #[trigger] p3[k] < n by {
        assert(0 <= p2[k] < n);
    }
    assert forall|k: int, l: int| 0 <= k < n && 0 <= l < n && k != l implies #[trigger] p3[k] != #[trigger] p3[l] by {
        assert(p2[k] != p2[l]);
    }
    assert forall|i: int| 0 <= i < n implies #[trigger] is_hit(p3, i) by {
        assert(is_hit(order, i));
        let a = choose|a: int| 0 <= a < order.len() && order[a] == i;
        assert(is_hit(p2, a));
        let b = choose|b: int| 0 <= b < p2.len() && p2[b] == a;
        assert(p3[b] == i);
    }
    assert forall|k: int, l: int| 0 <= k < l < p3.len() implies name_before(found, #[trigger] p3[k], #[trigger] p3[l]) by {
        assert(name_before(v2, p2[k], p2[l]));
        assert(v2[p2[k]] == found[p3[k]]);
        assert(v2[p2[l]] == found[p3[l]]);
        assert(p3[k] != p3[l]);
    }
    assert(sorts_by_name(found, p3));
    assert forall|k: int| 0 <= k < p1.len() implies p1[k] == p3[k] by {
        lemma_name_sort_agree(found, p1, p3, k);
    }
    assert(files_in(found, p1) =~= files_in(v2, p2));
}
} // verus!
