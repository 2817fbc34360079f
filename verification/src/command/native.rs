//! The native contributor: the Rust executable's own commands, read out of the
//! command-line declaration.
//!
//! The declaration is the one source of the native command line — every command,
//! argument, default and accepted value — and it is walked into [`CommandDoc`]s for the
//! help, the reference and the site. This contributor reads those same documents and adds
//! only what the declaration cannot carry: the effect, the interactivity, the
//! requirements and the aliases, from the semantics declared beside it.
//!
//! Nothing here restates a path, a description, an argument or a default. A command added
//! to the declaration appears in the graph — and therefore in every projection — on the
//! same edit that adds it.

use vstd::prelude::*;

use crate::command::completion::is_white;
use crate::command::model::{
    identity_text, placeholder_source_is, Alias, ArgumentSpec, Availability, CommandId,
    CommandNode, EffectClass, EnumValue, Example, Execution, Interactivity, Program,
    Projections, Provenance, Requirement, Sensitivity, ValueSource, Visibility,
};
use crate::command::semantics::{alias_models, alias_values_model, declared_at, lookup, CommandSemantics};
use crate::strings::{copy_strings, join_with_text, push_char, push_str, views};

verus! {

/// Where the command-line declaration lives, relative to the repository root.
pub const DECLARATION: &'static str = "apps/majordomus-cli/src/cli.rs";

/// One accepted value of an argument, as the declaration documents it.
#[derive(Debug, Clone, PartialEq, Eq)]
pub struct PossibleValueDoc {
    /// The value as typed.
    pub name: String,
    /// Its help, when the declaration gives one.
    pub help: Option<String>,
}

/// One documented example of a command.
#[derive(Debug, Clone, PartialEq, Eq)]
pub struct ExampleDoc {
    /// Unique across the whole graph.
    pub id: String,
    /// What it shows.
    pub title: String,
    /// The arguments, without the executable's own name.
    pub argv: Vec<String>,
    /// The command line a person copies.
    pub command: String,
}

/// One argument of a command, as the declaration documents it.
#[derive(Debug, Clone, PartialEq, Eq)]
pub struct ArgDoc {
    /// Its identity within its command.
    pub name: String,
    /// The long option, without dashes.
    pub long: Option<String>,
    /// The short option, without the dash.
    pub short: Option<char>,
    /// Given by position.
    pub positional: bool,
    /// Must be given.
    pub required: bool,
    /// Takes more than one value.
    pub variadic: bool,
    /// Accepted under every subcommand.
    pub global: bool,
    /// Takes a value at all.
    pub takes_value: bool,
    /// The one-line help.
    pub help: String,
    /// The value's placeholder, `PATH`.
    pub value_name: Option<String>,
    /// The defaults.
    pub defaults: Vec<String>,
    /// The values its type enumerates.
    pub possible_values: Vec<PossibleValueDoc>,
}

/// One command of the declaration. The declaration is read flattened: the executable
/// itself first, then every command depth first, each with its whole path.
#[derive(Debug, Clone, PartialEq, Eq)]
pub struct CommandDoc {
    /// The path, the executable's own name first.
    pub path: Vec<String>,
    /// The one-line summary.
    pub about: String,
    /// The long description.
    pub long_about: Option<String>,
    /// The usage line.
    pub usage: String,
    /// Whether the command runs anything itself, rather than only grouping others.
    pub executable: bool,
    /// Its arguments, in declaration order.
    pub args: Vec<ArgDoc>,
    /// Its documented examples.
    pub examples: Vec<ExampleDoc>,
}

// ------------------------------------------------------------------ words

/// A text cut at white space, read left to right: the finished words, and the word being
/// read.
pub open spec fn word_state(s: Seq<char>) -> (Seq<Seq<char>>, Seq<char>)
    decreases s.len(),
{
    if s.len() == 0 {
        (seq![], seq![])
    } else {
        let (done, cur) = word_state(s.drop_last());
        let c = s.last();
        if is_white(c) {
            if cur.len() > 0 {
                (done.push(cur), seq![])
            } else {
                (done, cur)
            }
        } else {
            (done, cur.push(c))
        }
    }
}

/// The words of a text, white space of any length between them (`split_whitespace`).
pub open spec fn white_words(s: Seq<char>) -> Seq<Seq<char>> {
    let (done, cur) = word_state(s);
    if cur.len() > 0 {
        done.push(cur)
    } else {
        done
    }
}

fn char_white(c: char) -> (r: bool)
    ensures
        r == is_white(c),
{
    let u = c as u32;
    (0x09 <= u && u <= 0x0d) || u == 0x20 || u == 0x85 || u == 0xa0 || u == 0x1680 || (0x2000 <= u && u <= 0x200a) || u
        == 0x2028 || u == 0x2029 || u == 0x202f || u == 0x205f || u == 0x3000
}

/// The words of a command path written as text.
pub fn words(path: &str) -> (r: Vec<String>)
    ensures
        views(r@) == white_words(path@),
{
    let n = path.unicode_len();
    let mut done: Vec<String> = Vec::new();
    let mut cur = String::new();
    let mut i: usize = 0;
    while i < n
        invariant
            n == path@.len(),
            i <= n,
            (views(done@), cur@) == word_state(path@.subrange(0, i as int)),
        decreases n - i,
    {
        let c = path.get_char(i);
        let ghost sub = path@.subrange(0, i + 1);
        assert(sub.drop_last() =~= path@.subrange(0, i as int));
        assert(sub.last() == c);
        if char_white(c) {
            if cur.unicode_len() > 0 {
                let w = cur;
                done.push(w);
                cur = String::new();
                assert(views(done@) =~= views(done@.drop_last()).push(done@.last()@));
            }
        } else {
            push_char(&mut cur, c);
        }
        i += 1;
    }
    assert(path@.subrange(0, n as int) =~= path@);
    if cur.unicode_len() > 0 {
        done.push(cur);
        assert(views(done@) =~= views(done@.drop_last()).push(done@.last()@));
    }
    done
}

/// Words joined by one space.
fn join_spaced(words: &[String]) -> (r: String)
    ensures
        r@ == join_with_text(views(words@), seq![' ']),
{
    let mut out = String::new();
    let mut i: usize = 0;
    while i < words.len()
        invariant
            i <= words@.len(),
            out@ == join_with_text(views(words@).take(i as int), seq![' ']),
        decreases words.len() - i,
    {
        let ghost t = views(words@).take(i + 1);
        assert(t.drop_last() =~= views(words@).take(i as int));
        if i > 0 {
            push_char(&mut out, ' ');
        }
        push_str(&mut out, words[i].as_str());
        proof {
            if i == 0 {
                assert(out@ =~= t[0]);
            } else {
                assert(out@ =~= join_with_text(t.drop_last(), seq![' ']) + seq![' '] + t.last());
            }
        }
        i += 1;
    }
    assert(views(words@).take(words@.len() as int) =~= views(words@));
    out
}

// ------------------------------------------------------------------ one argument

/// Enumerated values as text.
pub open spec fn enum_views(vs: Seq<EnumValue>) -> Seq<(Seq<char>, Option<Seq<char>>)> {
    vs.map_values(|v: EnumValue| (v.value@, crate::cockpit::nav::opt_text(v.description)))
}

/// Documented values as text.
pub open spec fn possible_views(vs: Seq<PossibleValueDoc>) -> Seq<(Seq<char>, Option<Seq<char>>)> {
    vs.map_values(|v: PossibleValueDoc| (v.name@, crate::cockpit::nav::opt_text(v.help)))
}

/// Where an argument's candidate values come from: the values its type enumerates, or
/// else what its placeholder names when it takes a value, or else nothing.
pub open spec fn source_from(a: ArgDoc, v: ValueSource) -> bool {
    if a.possible_values@.len() > 0 {
        v matches ValueSource::Enumerated { values } && enum_views(values@) == possible_views(a.possible_values@)
    } else if a.takes_value && a.value_name is Some {
        placeholder_source_is(a.value_name->0@, v)
    } else {
        v is FreeText
    }
}

/// Is a canonical argument the one the declaration documents?
pub open spec fn argument_from(a: ArgDoc, s: ArgumentSpec) -> bool {
    &&& s.name@ == a.name@
    &&& crate::cockpit::nav::opt_text(s.long) == crate::cockpit::nav::opt_text(a.long)
    &&& s.short == a.short
    &&& s.positional == a.positional
    &&& s.required == a.required
    &&& s.variadic == a.variadic
    &&& s.global == a.global
    &&& s.takes_value == a.takes_value
    &&& s.help@ == a.help@
    &&& crate::cockpit::nav::opt_text(s.placeholder) == crate::cockpit::nav::opt_text(a.value_name)
    &&& views(s.defaults@) == views(a.defaults@)
    &&& source_from(a, s.values)
    &&& s.sensitivity == Sensitivity::Public
}

fn copy_text(o: &Option<String>) -> (r: Option<String>)
    ensures
        crate::cockpit::nav::opt_text(r) == crate::cockpit::nav::opt_text(*o),
{
    match o {
        Some(s) => Some(String::from_str(s.as_str())),
        None => None,
    }
}

/// One documented argument as a canonical argument. The native command line takes no
/// credential: every argument of it names a path, an identity or a shape.
pub fn argument(a: &ArgDoc) -> (r: ArgumentSpec)
    ensures
        argument_from(*a, r),
{
    let values = if a.possible_values.len() > 0 {
        let mut vs: Vec<EnumValue> = Vec::new();
        for i in 0..a.possible_values.len()
            invariant
                enum_views(vs@) == possible_views(a.possible_values@.take(i as int)),
        {
            let p = &a.possible_values[i];
            vs.push(EnumValue { value: String::from_str(p.name.as_str()), description: copy_text(&p.help) });
            assert(possible_views(a.possible_values@.take(i + 1)) =~= possible_views(a.possible_values@.take(i as int)).push(
                (p.name@, crate::cockpit::nav::opt_text(p.help)),
            ));
            assert(enum_views(vs@) =~= enum_views(vs@.drop_last()).push(
                (vs@.last().value@, crate::cockpit::nav::opt_text(vs@.last().description)),
            ));
        }
        assert(a.possible_values@.take(a.possible_values@.len() as int) =~= a.possible_values@);
        ValueSource::Enumerated { values: vs }
    } else if a.takes_value {
        match &a.value_name {
            Some(v) => ValueSource::of_placeholder(v.as_str()),
            None => ValueSource::FreeText,
        }
    } else {
        ValueSource::FreeText
    };
    let defaults = copy_strings(&a.defaults);
    ArgumentSpec {
        name: String::from_str(a.name.as_str()),
        long: copy_text(&a.long),
        short: a.short,
        positional: a.positional,
        required: a.required,
        variadic: a.variadic,
        global: a.global,
        takes_value: a.takes_value,
        help: String::from_str(a.help.as_str()),
        placeholder: copy_text(&a.value_name),
        defaults,
        values,
        sensitivity: Sensitivity::Public,
    }
}

// ------------------------------------------------------------------ one command

/// Examples as text.
pub open spec fn example_views(es: Seq<Example>) -> Seq<(Seq<char>, Seq<char>, Seq<Seq<char>>, Seq<char>)> {
    es.map_values(|e: Example| (e.id@, e.title@, views(e.argv@), e.command@))
}

/// Documented examples as text.
pub open spec fn example_doc_views(es: Seq<ExampleDoc>) -> Seq<(Seq<char>, Seq<char>, Seq<Seq<char>>, Seq<char>)> {
    es.map_values(|e: ExampleDoc| (e.id@, e.title@, views(e.argv@), e.command@))
}

/// The tags of a declaration as text.
pub open spec fn tag_views(tags: Seq<&'static str>) -> Seq<Seq<char>> {
    tags.map_values(|t: &'static str| t@)
}

/// The path of a documented command below the executable.
pub open spec fn command_path(doc: CommandDoc) -> Seq<Seq<char>> {
    views(doc.path@).skip(1)
}

/// Is a node the canonical form of a documented command, with the semantics declared for
/// its path? A command the semantics do not name is a public, non-interactive read that
/// needs nothing.
pub open spec fn native_node(doc: CommandDoc, table: Seq<CommandSemantics>, n: CommandNode) -> bool {
    let path = command_path(doc);
    let k = declared_at(table, join_with_text(path, seq![' ']));
    let declared = k < table.len();
    let s = table[k];
    &&& n.program == Program::Native
    &&& views(n.path@) == path
    &&& n.id@ == identity_text(Program::Native, path)
    &&& n.summary@ == doc.about@
    &&& crate::cockpit::nav::opt_text(n.description) == crate::cockpit::nav::opt_text(doc.long_about)
    &&& n.usage@ == doc.usage@
    &&& n.runnable == doc.executable
    &&& n.arguments@.len() == doc.args@.len()
    &&& (forall|i: int| 0 <= i < doc.args@.len() ==> argument_from(doc.args@[i], #[trigger] n.arguments@[i]))
    &&& (n.execution matches Execution::Native { argv } && views(argv@) == path)
    &&& n.effect == (if declared { s.effect } else { EffectClass::ReadOnly })
    &&& n.interactivity == (if declared { s.interactivity } else { Interactivity::NonInteractive })
    &&& n.visibility == (if declared { s.visibility } else { Visibility::Public })
    &&& n.availability.available
    &&& n.availability.reason is None
    &&& n.availability.requires@ == (if declared && s.requires@.len() > 0 { s.requires@ } else { seq![Requirement::Always] })
    &&& (n.provenance matches Provenance::Clap { path } && path@ == DECLARATION@)
    &&& alias_values_model(n.aliases@) == (if declared { alias_models(s.aliases@) } else { seq![] })
    &&& match (declared, s.deprecated) {
        (true, Some((replacement, note))) => n.deprecation matches Some(d) && d.note@ == note@ && (d.replaced_by matches Some(
            id,
        ) && id@ == identity_text(Program::Native, white_words(replacement@))),
        _ => n.deprecation is None,
    }
    &&& views(n.tags@) == (if declared { tag_views(s.tags@) } else { seq![] })
    &&& example_views(n.examples@) == example_doc_views(doc.examples@)
    &&& n.projections.cli is None
    &&& n.projections.just is None
    &&& n.projections.cockpit is None
    &&& n.projections.docs is None
    &&& n.projections.just_aliases@.len() == 0
}

/// The canonical node of one documented command, or nothing for the executable itself:
/// `majordomus` with nothing after it prints help and is not a command.
pub fn node(doc: &CommandDoc, table: &[CommandSemantics]) -> (r: Option<CommandNode>)
    ensures
        doc.path@.len() <= 1 ==> r is None,
        doc.path@.len() > 1 ==> (r matches Some(n) && native_node(*doc, table@, n)),
{
    if doc.path.len() <= 1 {
        return None;
    }
    let mut path: Vec<String> = Vec::new();
    for i in 1..doc.path.len()
        invariant
            doc.path@.len() > 1,
            views(path@) == views(doc.path@).subrange(1, i as int),
    {
        path.push(String::from_str(doc.path[i].as_str()));
        assert(views(doc.path@).subrange(1, i + 1) =~= views(doc.path@).subrange(1, i as int).push(doc.path@[i as int]@));
        assert(views(path@) =~= views(path@.drop_last()).push(path@.last()@));
    }
    assert(views(path@) =~= command_path(*doc));
    let key = join_spaced(path.as_slice());
    let declared = lookup(table, key.as_str());
    let id = CommandId::new(Program::Native, path.as_slice());
    let mut arguments: Vec<ArgumentSpec> = Vec::new();
    for i in 0..doc.args.len()
        invariant
            arguments@.len() == i,
            forall|j: int| 0 <= j < i ==> argument_from(doc.args@[j], #[trigger] arguments@[j]),
    {
        arguments.push(argument(&doc.args[i]));
    }
    let mut examples: Vec<Example> = Vec::new();
    for i in 0..doc.examples.len()
        invariant
            example_views(examples@) == example_doc_views(doc.examples@.take(i as int)),
    {
        let e = &doc.examples[i];
        examples.push(Example {
            id: String::from_str(e.id.as_str()),
            title: String::from_str(e.title.as_str()),
            argv: copy_strings(&e.argv),
            command: String::from_str(e.command.as_str()),
        });
        assert(example_doc_views(doc.examples@.take(i + 1)) =~= example_doc_views(doc.examples@.take(i as int)).push(
            (e.id@, e.title@, views(e.argv@), e.command@),
        ));
        let ghost l = examples@.last();
        assert(example_views(examples@) =~= example_views(examples@.drop_last()).push(
            (l.id@, l.title@, views(l.argv@), l.command@),
        ));
    }
    assert(doc.examples@.take(doc.examples@.len() as int) =~= doc.examples@);
    let (effect, interactivity, visibility, needs, aliases, deprecation, tags) = match declared {
        Some(s) => {
            let deprecation = match s.deprecation_note() {
                Some(mut d) => {
                    let replaced = match s.replacement_path() {
                        Some(p) => {
                            let w = words(p);
                            Some(CommandId::new(Program::Native, w.as_slice()))
                        },
                        None => None,
                    };
                    d.replaced_by = replaced;
                    Some(d)
                },
                None => None,
            };
            let mut tags: Vec<String> = Vec::new();
            for i in 0..s.tags.len()
                invariant
                    views(tags@) == tag_views(s.tags@.take(i as int)),
            {
                tags.push(String::from_str(s.tags[i]));
                assert(tag_views(s.tags@.take(i + 1)) =~= tag_views(s.tags@.take(i as int)).push(s.tags@[i as int]@));
                assert(views(tags@) =~= views(tags@.drop_last()).push(tags@.last()@));
            }
            assert(s.tags@.take(s.tags@.len() as int) =~= s.tags@);
            (s.effect, s.interactivity, s.visibility, s.requirements(), s.alias_values(), deprecation, tags)
        },
        None => {
            let tags: Vec<String> = Vec::new();
            let aliases: Vec<Alias> = Vec::new();
            assert(views(tags@) =~= seq![]);
            assert(alias_values_model(aliases@) =~= seq![]);
            let mut needs: Vec<Requirement> = Vec::new();
            needs.push(Requirement::Always);
            assert(needs@ =~= seq![Requirement::Always]);
            (EffectClass::ReadOnly, Interactivity::NonInteractive, Visibility::Public, needs, aliases, None, tags)
        },
    };
    let argv = copy_strings(&path);
    Some(CommandNode {
        id,
        program: Program::Native,
        path,
        summary: String::from_str(doc.about.as_str()),
        description: copy_text(&doc.long_about),
        usage: String::from_str(doc.usage.as_str()),
        runnable: doc.executable,
        arguments,
        execution: Execution::Native { argv },
        effect,
        interactivity,
        visibility,
        availability: Availability { available: true, requires: needs, reason: None },
        provenance: Provenance::Clap { path: String::from_str(DECLARATION) },
        aliases,
        deprecation,
        tags,
        examples,
        projections: Projections::unassigned(),
    })
}

/// The documented commands that are commands: everything below the executable itself.
pub open spec fn below_root(docs: Seq<CommandDoc>) -> Seq<CommandDoc>
    decreases docs.len(),
{
    if docs.len() == 0 {
        seq![]
    } else if docs.last().path@.len() > 1 {
        below_root(docs.drop_last()).push(docs.last())
    } else {
        below_root(docs.drop_last())
    }
}

/// Every native command of the declaration, in the declaration's order, as canonical
/// nodes. The availability of each is left unresolved here: the graph resolves it once
/// against the facts of the checkout, so that the contributor stays pure.
pub fn contribute(declaration: &[CommandDoc], table: &[CommandSemantics]) -> (r: Vec<CommandNode>)
    ensures
        r@.len() == below_root(declaration@).len(),
        forall|i: int| 0 <= i < r@.len() ==> native_node(below_root(declaration@)[i], table@, #[trigger] r@[i]),
{
    let mut out: Vec<CommandNode> = Vec::new();
    for i in 0..declaration.len()
        invariant
            out@.len() == below_root(declaration@.take(i as int)).len(),
            forall|j: int| 0 <= j < out@.len() ==> native_node(below_root(declaration@.take(i as int))[j], table@, #[trigger] out@[j]),
    {
        let ghost t = declaration@.take(i + 1);
        assert(t.drop_last() =~= declaration@.take(i as int));
        assert(t.last() == declaration@[i as int]);
        match node(&declaration[i], table) {
            Some(n) => {
                out.push(n);
                assert forall|j: int| 0 <= j < out@.len() implies native_node(below_root(t)[j], table@, #[trigger] out@[j]) by {
                    if j < out@.len() - 1 {
                        assert(below_root(t)[j] == below_root(declaration@.take(i as int))[j]);
                    }
                }
            },
            None => {},
        }
    }
    assert(declaration@.take(declaration@.len() as int) =~= declaration@);
    out
}

} // verus!
