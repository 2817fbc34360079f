//! The text the graph's fingerprints are taken over: every fact a surface projects of a
//! command, written so that two different graphs never write the same text. Each text is
//! its length, a colon and itself; each list its count and its members; each absent value
//! a dash. Nothing of the checkout, the clock or the machine is in it.

use vstd::prelude::*;

use crate::command::model::{
    ArgumentSpec, Availability, CommandNode, Deprecation, EnumValue, Execution, Projections,
    Requirement, Sensitivity, ValueSource, Visibility, effect_rank, registry_key,
};
use crate::strings::{decimal_of, push_char, push_decimal, push_str, views};

verus! {

/// A text, written with its length in front.
pub open spec fn field(s: Seq<char>) -> Seq<char> {
    decimal_of(s.len()) + seq![':'] + s
}

/// A text that may be absent.
pub open spec fn optional(o: Option<Seq<char>>) -> Seq<char> {
    match o {
        Some(s) => seq!['+'] + field(s),
        None => seq!['-'],
    }
}

/// The texts of a list, one after the other.
pub open spec fn fields(ss: Seq<Seq<char>>) -> Seq<char>
    decreases ss.len(),
{
    if ss.len() == 0 {
        seq![]
    } else {
        fields(ss.drop_last()) + field(ss.last())
    }
}

/// A list of texts, with its count in front.
pub open spec fn list(ss: Seq<Seq<char>>) -> Seq<char> {
    decimal_of(ss.len()) + seq!['['] + fields(ss) + seq![']']
}

/// A yes or a no.
pub open spec fn flag(b: bool) -> Seq<char> {
    if b {
        seq!['1']
    } else {
        seq!['0']
    }
}

/// An optional string as the contracts see it.
pub open spec fn opt_view(o: Option<String>) -> Option<Seq<char>> {
    match o {
        Some(s) => Some(s@),
        None => None,
    }
}

fn push_field(out: &mut String, s: &str)
    ensures
        final(out)@ == old(out)@ + field(s@),
{
    push_decimal(out, s.unicode_len());
    push_char(out, ':');
    push_str(out, s);
    assert(final(out)@ =~= old(out)@ + field(s@));
}

fn push_optional(out: &mut String, o: &Option<String>)
    ensures
        final(out)@ == old(out)@ + optional(opt_view(*o)),
{
    match o {
        Some(s) => {
            push_char(out, '+');
            push_field(out, s.as_str());
            assert(final(out)@ =~= old(out)@ + optional(opt_view(*o)));
        },
        None => {
            push_char(out, '-');
            assert(final(out)@ =~= old(out)@ + optional(opt_view(*o)));
        },
    }
}

fn push_flag(out: &mut String, b: bool)
    ensures
        final(out)@ == old(out)@ + flag(b),
{
    if b {
        push_char(out, '1');
    } else {
        push_char(out, '0');
    }
    assert(final(out)@ =~= old(out)@ + flag(b));
}

fn push_list(out: &mut String, ss: &Vec<String>)
    ensures
        final(out)@ == old(out)@ + list(views(ss@)),
{
    let ghost start = out@;
    push_decimal(out, ss.len());
    push_char(out, '[');
    let ghost mid = out@;
    let mut i: usize = 0;
    while i < ss.len()
        invariant
            i <= ss@.len(),
            out@ == mid + fields(views(ss@.subrange(0, i as int))),
        decreases ss.len() - i,
    {
        push_field(out, ss[i].as_str());
        proof {
            let w = views(ss@.subrange(0, i + 1));
            assert(w.drop_last() =~= views(ss@.subrange(0, i as int)));
            assert(w.last() == ss@[i as int]@);
        }
        assert(out@ =~= mid + fields(views(ss@.subrange(0, i + 1))));
        i += 1;
    }
    assert(ss@.subrange(0, ss@.len() as int) =~= ss@);
    push_char(out, ']');
    assert(out@ =~= start + list(views(ss@)));
}

// ------------------------------------------------------------------ arguments

/// The text of an enumerated value.
pub open spec fn enum_value_text(v: EnumValue) -> Seq<char> {
    field(v.value@) + optional(opt_view(v.description))
}

/// The texts of some enumerated values.
pub open spec fn enum_values_text(vs: Seq<EnumValue>) -> Seq<char>
    decreases vs.len(),
{
    if vs.len() == 0 {
        seq![]
    } else {
        enum_values_text(vs.drop_last()) + enum_value_text(vs.last())
    }
}

/// The text of a value source.
pub open spec fn source_text(v: ValueSource) -> Seq<char> {
    match v {
        ValueSource::FreeText => seq!['n'],
        ValueSource::Enumerated { values } => seq!['e'] + decimal_of(values@.len()) + seq!['[']
            + enum_values_text(values@) + seq![']'],
        ValueSource::Path { directories_only } => seq!['p'] + flag(directories_only),
        ValueSource::Registry { registry } => seq!['r'] + field(registry_key(registry)),
    }
}

/// The text of a sensitivity.
pub open spec fn sensitivity_text(s: Sensitivity) -> Seq<char> {
    match s {
        Sensitivity::Public => seq!['P'],
        Sensitivity::Sensitive => seq!['S'],
        Sensitivity::Secret => seq!['X'],
    }
}

/// The text of a short flag.
pub open spec fn short_text(c: Option<char>) -> Seq<char> {
    match c {
        Some(x) => seq!['+', x],
        None => seq!['-'],
    }
}

/// The text of an argument.
pub open spec fn argument_text(a: ArgumentSpec) -> Seq<char> {
    field(a.name@) + optional(opt_view(a.long)) + short_text(a.short) + flag(a.positional) + flag(
        a.required,
    ) + flag(a.variadic) + flag(a.global) + flag(a.takes_value) + field(a.help@) + optional(
        opt_view(a.placeholder),
    ) + list(views(a.defaults@)) + source_text(a.values) + sensitivity_text(a.sensitivity)
}

/// The texts of some arguments.
pub open spec fn arguments_text(args: Seq<ArgumentSpec>) -> Seq<char>
    decreases args.len(),
{
    if args.len() == 0 {
        seq![]
    } else {
        arguments_text(args.drop_last()) + argument_text(args.last())
    }
}

fn push_source(out: &mut String, v: &ValueSource)
    ensures
        final(out)@ == old(out)@ + source_text(*v),
{
    let ghost start = out@;
    match v {
        ValueSource::FreeText => {
            push_char(out, 'n');
        },
        ValueSource::Enumerated { values } => {
            push_char(out, 'e');
            push_decimal(out, values.len());
            push_char(out, '[');
            let ghost mid = out@;
            let mut i: usize = 0;
            while i < values.len()
                invariant
                    i <= values@.len(),
                    out@ == mid + enum_values_text(values@.subrange(0, i as int)),
                decreases values.len() - i,
            {
                push_field(out, values[i].value.as_str());
                push_optional(out, &values[i].description);
                let ghost sub = values@.subrange(0, i + 1);
                assert(sub.drop_last() =~= values@.subrange(0, i as int));
                assert(out@ =~= mid + enum_values_text(sub));
                i += 1;
            }
            assert(values@.subrange(0, values@.len() as int) =~= values@);
            push_char(out, ']');
        },
        ValueSource::Path { directories_only } => {
            push_char(out, 'p');
            push_flag(out, *directories_only);
        },
        ValueSource::Registry { registry } => {
            push_char(out, 'r');
            push_field(out, registry.key());
        },
    }
    assert(out@ =~= start + source_text(*v));
}

fn push_argument(out: &mut String, a: &ArgumentSpec)
    ensures
        final(out)@ == old(out)@ + argument_text(*a),
{
    let ghost start = out@;
    push_field(out, a.name.as_str());
    let ghost p1 = field(a.name@);
    push_optional(out, &a.long);
    let ghost p2 = p1 + optional(opt_view(a.long));
    proof { crate::strings::lemma_add_assoc(start, p1, optional(opt_view(a.long))); }
    assert(out@ == start + p2);
    match a.short {
        Some(c) => {
            push_char(out, '+');
            push_char(out, c);
        },
        None => {
            push_char(out, '-');
        },
    }
    let ghost p3 = p2 + short_text(a.short);
    proof { crate::strings::lemma_add_assoc(start, p2, short_text(a.short)); }
    assert(out@ == start + p3);
    push_flag(out, a.positional);
    let ghost p4 = p3 + flag(a.positional);
    proof { crate::strings::lemma_add_assoc(start, p3, flag(a.positional)); }
    assert(out@ == start + p4);
    push_flag(out, a.required);
    let ghost p5 = p4 + flag(a.required);
    proof { crate::strings::lemma_add_assoc(start, p4, flag(a.required)); }
    assert(out@ == start + p5);
    push_flag(out, a.variadic);
    let ghost p6 = p5 + flag(a.variadic);
    proof { crate::strings::lemma_add_assoc(start, p5, flag(a.variadic)); }
    assert(out@ == start + p6);
    push_flag(out, a.global);
    let ghost p7 = p6 + flag(a.global);
    proof { crate::strings::lemma_add_assoc(start, p6, flag(a.global)); }
    assert(out@ == start + p7);
    push_flag(out, a.takes_value);
    let ghost p8 = p7 + flag(a.takes_value);
    proof { crate::strings::lemma_add_assoc(start, p7, flag(a.takes_value)); }
    assert(out@ == start + p8);
    push_field(out, a.help.as_str());
    let ghost p9 = p8 + field(a.help@);
    proof { crate::strings::lemma_add_assoc(start, p8, field(a.help@)); }
    assert(out@ == start + p9);
    push_optional(out, &a.placeholder);
    let ghost p10 = p9 + optional(opt_view(a.placeholder));
    proof { crate::strings::lemma_add_assoc(start, p9, optional(opt_view(a.placeholder))); }
    assert(out@ == start + p10);
    push_list(out, &a.defaults);
    let ghost p11 = p10 + list(views(a.defaults@));
    proof { crate::strings::lemma_add_assoc(start, p10, list(views(a.defaults@))); }
    assert(out@ == start + p11);
    push_source(out, &a.values);
    let ghost p12 = p11 + source_text(a.values);
    proof { crate::strings::lemma_add_assoc(start, p11, source_text(a.values)); }
    assert(out@ == start + p12);
    match a.sensitivity {
        Sensitivity::Public => push_char(out, 'P'),
        Sensitivity::Sensitive => push_char(out, 'S'),
        Sensitivity::Secret => push_char(out, 'X'),
    }
    let ghost p13 = p12 + sensitivity_text(a.sensitivity);
    proof { crate::strings::lemma_add_assoc(start, p12, sensitivity_text(a.sensitivity)); }
    assert(out@ == start + p13);
    assert(p13 == argument_text(*a));
}

// ------------------------------------------------------------------ execution and names

/// The texts of the steps of an execution.
pub open spec fn steps_text(steps: Seq<Vec<String>>) -> Seq<char>
    decreases steps.len(),
{
    if steps.len() == 0 {
        seq![]
    } else {
        steps_text(steps.drop_last()) + list(views(steps.last()@))
    }
}

/// The text of an execution.
pub open spec fn execution_text(e: Execution) -> Seq<char> {
    match e {
        Execution::Native { argv } => seq!['N'] + list(views(argv@)),
        Execution::Shell { argv } => seq!['S'] + list(views(argv@)),
        Execution::External { steps } => seq!['E'] + decimal_of(steps@.len()) + seq!['[']
            + steps_text(steps@) + seq![']'],
    }
}

/// The text of the names a command is known by.
pub open spec fn projections_text(p: Projections) -> Seq<char> {
    (match p.cli {
        Some(words) => seq!['+'] + list(views(words@)),
        None => seq!['-'],
    }) + optional(opt_view(p.just)) + optional(opt_view(p.cockpit)) + optional(opt_view(p.docs))
        + list(views(p.just_aliases@))
}

/// The text of a deprecation.
pub open spec fn deprecation_text(d: Option<Deprecation>) -> Seq<char> {
    match d {
        Some(x) => seq!['+'] + (match x.replaced_by {
            Some(id) => seq!['+'] + field(id@),
            None => seq!['-'],
        }) + field(x.note@),
        None => seq!['-'],
    }
}

fn push_execution(out: &mut String, e: &Execution)
    ensures
        final(out)@ == old(out)@ + execution_text(*e),
{
    let ghost start = out@;
    match e {
        Execution::Native { argv } => {
            push_char(out, 'N');
            push_list(out, argv);
        },
        Execution::Shell { argv } => {
            push_char(out, 'S');
            push_list(out, argv);
        },
        Execution::External { steps } => {
            push_char(out, 'E');
            push_decimal(out, steps.len());
            push_char(out, '[');
            let ghost mid = out@;
            let mut i: usize = 0;
            while i < steps.len()
                invariant
                    i <= steps@.len(),
                    out@ == mid + steps_text(steps@.subrange(0, i as int)),
                decreases steps.len() - i,
            {
                push_list(out, &steps[i]);
                let ghost sub = steps@.subrange(0, i + 1);
                assert(sub.drop_last() =~= steps@.subrange(0, i as int));
                assert(out@ =~= mid + steps_text(sub));
                i += 1;
            }
            assert(steps@.subrange(0, steps@.len() as int) =~= steps@);
            push_char(out, ']');
        },
    }
    assert(out@ =~= start + execution_text(*e));
}

fn push_projections(out: &mut String, p: &Projections)
    ensures
        final(out)@ == old(out)@ + projections_text(*p),
{
    let ghost start = out@;
    match &p.cli {
        Some(words) => {
            push_char(out, '+');
            push_list(out, words);
        },
        None => {
            push_char(out, '-');
        },
    }
    push_optional(out, &p.just);
    push_optional(out, &p.cockpit);
    push_optional(out, &p.docs);
    push_list(out, &p.just_aliases);
    assert(out@ =~= start + projections_text(*p));
}

fn push_deprecation(out: &mut String, d: &Option<Deprecation>)
    ensures
        final(out)@ == old(out)@ + deprecation_text(*d),
{
    let ghost start = out@;
    match d {
        Some(x) => {
            push_char(out, '+');
            match &x.replaced_by {
                Some(id) => {
                    push_char(out, '+');
                    push_field(out, id.as_str());
                },
                None => {
                    push_char(out, '-');
                },
            }
            push_field(out, x.note.as_str());
        },
        None => {
            push_char(out, '-');
        },
    }
    assert(out@ =~= start + deprecation_text(*d));
}

// ------------------------------------------------------------------ commands

/// The text of one command: what every surface projects of it, and nothing of where it
/// can run.
pub open spec fn node_text(c: CommandNode) -> Seq<char> {
    field(c.id@) + field(c.summary@) + field(c.usage@) + flag(c.runnable) + flag(
        c.visibility == Visibility::Internal,
    ) + decimal_of(effect_rank(c.effect)) + seq![';'] + decimal_of(c.arguments@.len()) + seq!['[']
        + arguments_text(c.arguments@) + seq![']'] + execution_text(c.execution) + projections_text(
        c.projections,
    ) + deprecation_text(c.deprecation) + seq!['\n']
}

/// The texts of some commands, one after the other.
pub open spec fn nodes_text(cs: Seq<CommandNode>) -> Seq<char>
    decreases cs.len(),
{
    if cs.len() == 0 {
        seq![]
    } else {
        nodes_text(cs.drop_last()) + node_text(cs.last())
    }
}

/// The text the structure fingerprint is taken over: the schema, the version and every
/// command.
pub open spec fn structure_text(schema: Seq<char>, version: Seq<char>, cs: Seq<CommandNode>) -> Seq<char> {
    field(schema) + field(version) + nodes_text(cs)
}

fn push_node(out: &mut String, c: &CommandNode)
    ensures
        final(out)@ == old(out)@ + node_text(*c),
{
    let ghost start = out@;
    push_field(out, c.id.as_str());
    push_field(out, c.summary.as_str());
    let ghost p2 = field(c.id@) + field(c.summary@);
    assert(out@ =~= start + p2);
    push_field(out, c.usage.as_str());
    let ghost p3 = p2 + field(c.usage@);
    proof { crate::strings::lemma_add_assoc(start, p2, field(c.usage@)); }
    assert(out@ == start + p3);
    push_flag(out, c.runnable);
    let ghost p4 = p3 + flag(c.runnable);
    proof { crate::strings::lemma_add_assoc(start, p3, flag(c.runnable)); }
    assert(out@ == start + p4);
    push_flag(out, c.visibility == Visibility::Internal);
    let ghost p5 = p4 + flag(c.visibility == Visibility::Internal);
    proof { crate::strings::lemma_add_assoc(start, p4, flag(c.visibility == Visibility::Internal)); }
    assert(out@ == start + p5);
    push_decimal(out, c.effect.rank() as usize);
    let ghost p6 = p5 + decimal_of(effect_rank(c.effect));
    proof { crate::strings::lemma_add_assoc(start, p5, decimal_of(effect_rank(c.effect))); }
    assert(out@ == start + p6);
    push_char(out, ';');
    let ghost p7 = p6 + seq![';'];
    proof { crate::strings::lemma_add_assoc(start, p6, seq![';']); }
    assert(out@ == start + p7);
    push_decimal(out, c.arguments.len());
    let ghost p8 = p7 + decimal_of(c.arguments@.len());
    proof { crate::strings::lemma_add_assoc(start, p7, decimal_of(c.arguments@.len())); }
    assert(out@ == start + p8);
    push_char(out, '[');
    let ghost p9 = p8 + seq!['['];
    proof { crate::strings::lemma_add_assoc(start, p8, seq!['[']); }
    assert(out@ == start + p9);
    let ghost mid = out@;
    let mut i: usize = 0;
    while i < c.arguments.len()
        invariant
            i <= c.arguments@.len(),
            out@ == mid + arguments_text(c.arguments@.subrange(0, i as int)),
        decreases c.arguments.len() - i,
    {
        push_argument(out, &c.arguments[i]);
        let ghost sub = c.arguments@.subrange(0, i + 1);
        assert(sub.drop_last() =~= c.arguments@.subrange(0, i as int));
        assert(sub.last() == c.arguments@[i as int]);
        proof {
            crate::strings::lemma_add_assoc(mid, arguments_text(c.arguments@.subrange(0, i as int)), argument_text(c.arguments@[i as int]));
        }
        assert(out@ == mid + arguments_text(sub));
        i += 1;
    }
    assert(c.arguments@.subrange(0, c.arguments@.len() as int) =~= c.arguments@);
    let ghost p10 = p9 + arguments_text(c.arguments@);
    proof { crate::strings::lemma_add_assoc(start, p9, arguments_text(c.arguments@)); }
    assert(out@ == start + p10);
    push_char(out, ']');
    let ghost p11 = p10 + seq![']'];
    proof { crate::strings::lemma_add_assoc(start, p10, seq![']']); }
    assert(out@ == start + p11);
    push_execution(out, &c.execution);
    let ghost p12 = p11 + execution_text(c.execution);
    proof { crate::strings::lemma_add_assoc(start, p11, execution_text(c.execution)); }
    assert(out@ == start + p12);
    push_projections(out, &c.projections);
    let ghost p13 = p12 + projections_text(c.projections);
    proof { crate::strings::lemma_add_assoc(start, p12, projections_text(c.projections)); }
    assert(out@ == start + p13);
    push_deprecation(out, &c.deprecation);
    let ghost p14 = p13 + deprecation_text(c.deprecation);
    proof { crate::strings::lemma_add_assoc(start, p13, deprecation_text(c.deprecation)); }
    assert(out@ == start + p14);
    push_char(out, '\n');
    let ghost p15 = p14 + seq!['\n'];
    proof { crate::strings::lemma_add_assoc(start, p14, seq!['\n']); }
    assert(out@ == start + p15);
    assert(p15 == node_text(*c));
}

/// The structure text of a graph's commands.
pub fn structure_text_of(schema: &str, version: &str, cs: &Vec<CommandNode>) -> (r: String)
    ensures
        r@ == structure_text(schema@, version@, cs@),
{
    let mut out = String::new();
    push_field(&mut out, schema);
    push_field(&mut out, version);
    let ghost mid = out@;
    let mut i: usize = 0;
    while i < cs.len()
        invariant
            i <= cs@.len(),
            out@ == mid + nodes_text(cs@.subrange(0, i as int)),
            mid == field(schema@) + field(version@),
        decreases cs.len() - i,
    {
        let ghost before = out@;
        push_node(&mut out, &cs[i]);
        let ghost sub = cs@.subrange(0, i + 1);
        assert(sub.drop_last() =~= cs@.subrange(0, i as int));
        assert(sub.last() == cs@[i as int]);
        proof {
            crate::strings::lemma_add_assoc(mid, nodes_text(cs@.subrange(0, i as int)), node_text(cs@[i as int]));
        }
        assert(out@ == mid + nodes_text(sub));
        i += 1;
    }
    assert(cs@.subrange(0, cs@.len() as int) =~= cs@);
    proof {
        crate::strings::lemma_add_assoc(field(schema@), field(version@), nodes_text(cs@));
    }
    out
}

// ------------------------------------------------------------------ availability

/// The text of a requirement.
pub open spec fn requirement_text(r: Requirement) -> Seq<char> {
    match r {
        Requirement::Always => seq!['a'],
        Requirement::Repository => seq!['r'],
        Requirement::Git => seq!['g'],
        Requirement::CargoToolchain => seq!['c'],
        Requirement::NativeExecutable => seq!['n'],
        Requirement::Site => seq!['s'],
        Requirement::SiteDependencies => seq!['d'],
        Requirement::Browser => seq!['b'],
    }
}

/// The texts of some requirements.
pub open spec fn requirements_text(rs: Seq<Requirement>) -> Seq<char>
    decreases rs.len(),
{
    if rs.len() == 0 {
        seq![]
    } else {
        requirements_text(rs.drop_last()) + requirement_text(rs.last())
    }
}

/// The text of an availability.
pub open spec fn availability_text(a: Availability) -> Seq<char> {
    flag(a.available) + decimal_of(a.requires@.len()) + seq!['['] + requirements_text(a.requires@)
        + seq![']'] + optional(opt_view(a.reason))
}

/// The availability texts of some commands, one after the other.
pub open spec fn availabilities_text(cs: Seq<CommandNode>) -> Seq<char>
    decreases cs.len(),
{
    if cs.len() == 0 {
        seq![]
    } else {
        availabilities_text(cs.drop_last()) + availability_text(cs.last().availability)
    }
}

fn push_availability(out: &mut String, a: &Availability)
    ensures
        final(out)@ == old(out)@ + availability_text(*a),
{
    let ghost start = out@;
    push_flag(out, a.available);
    push_decimal(out, a.requires.len());
    push_char(out, '[');
    let ghost mid = out@;
    let mut i: usize = 0;
    while i < a.requires.len()
        invariant
            i <= a.requires@.len(),
            out@ == mid + requirements_text(a.requires@.subrange(0, i as int)),
        decreases a.requires.len() - i,
    {
        let c = match a.requires[i] {
            Requirement::Always => 'a',
            Requirement::Repository => 'r',
            Requirement::Git => 'g',
            Requirement::CargoToolchain => 'c',
            Requirement::NativeExecutable => 'n',
            Requirement::Site => 's',
            Requirement::SiteDependencies => 'd',
            Requirement::Browser => 'b',
        };
        push_char(out, c);
        let ghost sub = a.requires@.subrange(0, i + 1);
        assert(sub.drop_last() =~= a.requires@.subrange(0, i as int));
        assert(out@ =~= mid + requirements_text(sub));
        i += 1;
    }
    assert(a.requires@.subrange(0, a.requires@.len() as int) =~= a.requires@);
    push_char(out, ']');
    push_optional(out, &a.reason);
    assert(out@ =~= start + availability_text(*a));
}

/// The text the whole fingerprint is taken over: the structure fingerprint, then every
/// command's availability.
pub fn whole_text_of(structure: &str, cs: &Vec<CommandNode>) -> (r: String)
    ensures
        r@ == structure@ + availabilities_text(cs@),
{
    let mut out = String::from_str(structure);
    let mut i: usize = 0;
    while i < cs.len()
        invariant
            i <= cs@.len(),
            out@ == structure@ + availabilities_text(cs@.subrange(0, i as int)),
        decreases cs.len() - i,
    {
        push_availability(&mut out, &cs[i].availability);
        let ghost sub = cs@.subrange(0, i + 1);
        assert(sub.drop_last() =~= cs@.subrange(0, i as int));
        assert(sub.last() == cs@[i as int]);
        proof {
            crate::strings::lemma_add_assoc(structure@, availabilities_text(cs@.subrange(0, i as int)), availability_text(cs@[i as int].availability));
        }
        assert(out@ == structure@ + availabilities_text(sub));
        i += 1;
    }
    assert(cs@.subrange(0, cs@.len() as int) =~= cs@);
    out
}

} // verus!
