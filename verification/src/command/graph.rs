//! The graph: the contributors composed, validated, named and fingerprinted.
//!
//! Composition is the whole of it. The graph owns no command; it takes the commands each
//! contributor read out of the source it knows, resolves availability against the facts of
//! the checkout, asks the projection for the names each surface knows them by, and checks
//! the invariants that make the result safe to project.

use vstd::prelude::*;

use crate::command::facts::{Facts, first_unmet_at};
use crate::command::model::{Availability, CommandId, CommandNode, Diagnostic, EffectClass, Execution, Interactivity, Program, Requirement, Visibility, SCHEMA, effect_rank, identity_text, is_identity, parse_verdict, unmet_text};
use crate::command::projection::{DiagnosticModel, aliases_are_names, assign, assigned, diagnostic_model, diagnostic_models, is_hit, is_rearrangement, lemma_text_less_irreflexive, lemma_text_less_total, lemma_text_less_transitive, same_but_projections, text_before, text_less};
use crate::strings::{push_decimal, push_str, split_seq, split_text, str_eq, views};

verus! {

// ------------------------------------------------------------------ identity order

/// Does one command come before another in identity order, ties kept in the order they
/// were contributed?
pub open spec fn id_before(v: Seq<CommandNode>, i: int, j: int) -> bool {
    text_less(v[i].id@, v[j].id@) || (v[i].id@ == v[j].id@ && i < j)
}

/// A list rearranged into identity order, stably.
pub open spec fn sorts_by_id(v: Seq<CommandNode>, perm: Seq<int>) -> bool {
    &&& is_rearrangement(perm, v.len() as int)
    &&& forall|k: int, l: int|
        0 <= k < l < perm.len() ==> id_before(v, #[trigger] perm[k], #[trigger] perm[l])
}

/// The list a rearrangement gives.
pub open spec fn rearranged(v: Seq<CommandNode>, perm: Seq<int>) -> Seq<CommandNode> {
    perm.map_values(|p: int| v[p])
}

proof fn lemma_id_before_asymmetric(v: Seq<CommandNode>, i: int, j: int)
    ensures
        !(id_before(v, i, j) && id_before(v, j, i)),
        !id_before(v, i, i),
{
    lemma_text_less_irreflexive(v[i].id@);
    if text_less(v[i].id@, v[j].id@) && text_less(v[j].id@, v[i].id@) {
        lemma_text_less_transitive(v[i].id@, v[j].id@, v[i].id@);
    }
    if text_less(v[i].id@, v[j].id@) && v[j].id@ == v[i].id@ {
        lemma_text_less_irreflexive(v[i].id@);
    }
}

proof fn lemma_sort_agree(v: Seq<CommandNode>, p1: Seq<int>, p2: Seq<int>, k: int)
    requires
        sorts_by_id(v, p1),
        sorts_by_id(v, p2),
        0 <= k < p1.len(),
    ensures
        p1[k] == p2[k],
    decreases k,
{
    assert forall|j: int| 0 <= j < k implies p1[j] == p2[j] by {
        lemma_sort_agree(v, p1, p2, j);
    }
    let x = p1[k];
    let y = p2[k];
    assert(is_hit(p1, y));
    assert(is_hit(p2, x));
    let p = choose|p: int| 0 <= p < p1.len() && p1[p] == y;
    let q = choose|q: int| 0 <= q < p2.len() && p2[q] == x;
    if x != y {
        if p < k {
            assert(p2[p] == y);
        }
        if q < k {
            assert(p1[q] == x);
        }
        assert(id_before(v, p1[k], p1[p]));
        assert(id_before(v, p2[k], p2[q]));
        lemma_id_before_asymmetric(v, x, y);
    }
}

/// There is one stable identity order of a list.
pub proof fn lemma_sort_unique(v: Seq<CommandNode>, p1: Seq<int>, p2: Seq<int>)
    requires
        sorts_by_id(v, p1),
        sorts_by_id(v, p2),
    ensures
        p1 == p2,
{
    assert forall|k: int| 0 <= k < p1.len() implies p1[k] == p2[k] by {
        lemma_sort_agree(v, p1, p2, k);
    }
    assert(p1 =~= p2);
}

/// Sort a list of commands into identity order, keeping the order of equal identities.
pub(crate) fn sort_by_id(v: Vec<CommandNode>) -> (r: (Vec<CommandNode>, Ghost<Seq<int>>))
    ensures
        sorts_by_id(v@, r.1@),
        r.0@ == rearranged(v@, r.1@),
{
    let ghost all = v@;
    let n = v.len();
    let mut rest = v;
    let mut out: Vec<CommandNode> = Vec::new();
    let ghost mut perm: Seq<int> = seq![];
    let mut j: usize = 0;
    while j < n
        invariant
            n == all.len(),
            j <= n,
            rest@ == all.subrange(j as int, n as int),
            out@.len() == j,
            perm.len() == j,
            out@ == rearranged(all, perm),
            forall|k: int| 0 <= k < perm.len() ==> 0 <= #[trigger] perm[k] < j,
            forall|k: int, l: int|
                0 <= k < perm.len() && 0 <= l < perm.len() && k != l ==> #[trigger] perm[k] != #[trigger] perm[l],
            forall|i: int| 0 <= i < j ==> #[trigger] is_hit(perm, i),
            forall|k: int, l: int|
                0 <= k < l < perm.len() ==> id_before(all, #[trigger] perm[k], #[trigger] perm[l]),
        decreases n - j,
    {
        let node = rest.remove(0);
        assert(node == all[j as int]);
        let mut p: usize = 0;
        while p < out.len() && !text_before(node.id.as_str(), out[p].id.as_str())
            invariant
                p <= out@.len(),
                out@ == rearranged(all, perm),
                perm.len() == out@.len(),
                node == all[j as int],
                forall|k: int| 0 <= k < p ==> !text_less(all[j as int].id@, #[trigger] all[perm[k]].id@),
            decreases out@.len() - p,
        {
            assert(out@[p as int] == all[perm[p as int]]);
            p += 1;
        }
        let ghost before = perm;
        proof {
            let jj = j as int;
            assert forall|k: int| 0 <= k < p implies id_before(all, #[trigger] before[k], jj) by {
                let e = before[k];
                if all[e].id@ != all[jj].id@ {
                    lemma_text_less_total(all[e].id@, all[jj].id@);
                }
            }
            assert forall|k: int| p <= k < before.len() implies id_before(all, jj, #[trigger] before[k]) by {
                let e = before[k];
                let f = before[p as int];
                assert(out@[p as int] == all[f]);
                assert(text_less(all[jj].id@, all[f].id@));
                if k > p {
                    assert(id_before(all, f, e));
                    if text_less(all[f].id@, all[e].id@) {
                        lemma_text_less_transitive(all[jj].id@, all[f].id@, all[e].id@);
                    }
                }
            }
        }
        out.insert(p, node);
        proof {
            perm = before.insert(p as int, j as int);
            let jj = j as int;
            assert(out@ =~= rearranged(all, perm));
            assert forall|k: int| 0 <= k < perm.len() implies 0 <= #[trigger] perm[k] < j + 1 by {
                if k < p {
                    assert(perm[k] == before[k]);
                } else if k > p {
                    assert(perm[k] == before[k - 1]);
                }
            }
            assert forall|k: int, l: int| 0 <= k < l < perm.len() implies id_before(all, #[trigger] perm[k], #[trigger] perm[l]) by {
                if k < p && l < p {
                    assert(perm[k] == before[k] && perm[l] == before[l]);
                } else if k < p && l == p {
                    assert(perm[k] == before[k]);
                } else if k < p {
                    assert(perm[k] == before[k] && perm[l] == before[l - 1]);
                } else if k == p {
                    assert(perm[l] == before[l - 1]);
                } else {
                    assert(perm[k] == before[k - 1] && perm[l] == before[l - 1]);
                }
            }
            assert forall|k: int, l: int|
                0 <= k < perm.len() && 0 <= l < perm.len() && k != l implies #[trigger] perm[k] != #[trigger] perm[l] by {
                let ok = if k < p { before[k] } else if k == p { jj } else { before[k - 1] };
                let ol = if l < p { before[l] } else if l == p { jj } else { before[l - 1] };
                assert(perm[k] == ok);
                assert(perm[l] == ol);
            }
            assert forall|i: int| 0 <= i < j + 1 implies #[trigger] is_hit(perm, i) by {
                if i == jj {
                    assert(perm[p as int] == i);
                } else {
                    assert(is_hit(before, i));
                    let k0 = choose|k: int| 0 <= k < before.len() && before[k] == i;
                    if k0 < p {
                        assert(perm[k0] == i);
                    } else {
                        assert(perm[k0 + 1] == i);
                    }
                }
            }
            assert(all.subrange(j + 1, n as int) =~= all.subrange(jj, n as int).drop_first());
        }
        j += 1;
    }
    (out, Ghost(perm))
}

// ------------------------------------------------------------------ validation

/// Is a text nothing but white space?
pub open spec fn blank(s: Seq<char>) -> bool {
    forall|i: int| 0 <= i < s.len() ==> crate::command::completion::is_white(#[trigger] s[i])
}

/// The number of commands from a position on that share its identity, itself included.
pub open spec fn run_len(cs: Seq<CommandNode>, k: int) -> int
    decreases cs.len() - k,
{
    if 0 <= k && k + 1 < cs.len() && cs[k + 1].id@ == cs[k].id@ {
        1 + run_len(cs, k + 1)
    } else {
        1
    }
}

/// Does a run of two or more commands with one identity start here?
pub open spec fn starts_duplicate_run(cs: Seq<CommandNode>, k: int) -> bool {
    (k == 0 || cs[k - 1].id@ != cs[k].id@) && k + 1 < cs.len() && cs[k + 1].id@ == cs[k].id@
}

/// The identity a duplicate finding names: the text itself when it is an identity, the
/// workflow of that one word otherwise.
pub open spec fn named_identity(id: Seq<char>) -> Seq<char> {
    if is_identity(id) {
        id
    } else {
        identity_text(Program::Workflow, seq![id])
    }
}

/// The finding of an identity claimed more than once.
pub open spec fn duplicate_finding(id: Seq<char>, count: int) -> DiagnosticModel {
    DiagnosticModel {
        code: "duplicate-identity"@,
        fatal: true,
        message: crate::strings::decimal_of(count as nat) + " commands claim the identity "@ + id,
        commands: seq![named_identity(id)],
    }
}

/// The duplicate findings from a position on, in identity order.
pub open spec fn duplicate_findings(cs: Seq<CommandNode>, k: int) -> Seq<DiagnosticModel>
    decreases cs.len() - k,
{
    if k < 0 || k >= cs.len() {
        seq![]
    } else {
        let rest = duplicate_findings(cs, k + 1);
        if starts_duplicate_run(cs, k) {
            seq![duplicate_finding(cs[k].id@, run_len(cs, k))] + rest
        } else {
            rest
        }
    }
}

/// A finding about one command.
pub open spec fn finding_about(code: Seq<char>, fatal: bool, message: Seq<char>, id: Seq<char>) -> DiagnosticModel {
    DiagnosticModel { code, fatal, message, commands: seq![id] }
}

/// Does some argument take this long name?
pub open spec fn has_long(args: Seq<crate::command::model::ArgumentSpec>, l: Seq<char>) -> bool
    decreases args.len(),
{
    if args.len() == 0 {
        false
    } else {
        has_long(args.drop_last(), l) || (args.last().long matches Some(x) && x@ == l)
    }
}

/// The findings of long names declared twice.
pub open spec fn flag_findings(id: Seq<char>, args: Seq<crate::command::model::ArgumentSpec>) -> Seq<DiagnosticModel>
    decreases args.len(),
{
    if args.len() == 0 {
        seq![]
    } else {
        let before = flag_findings(id, args.drop_last());
        match args.last().long {
            Some(l) => if has_long(args.drop_last(), l@) {
                before.push(
                    finding_about("duplicate-flag"@, true, id + " declares --"@ + l@ + " twice"@, id),
                )
            } else {
                before
            },
            None => before,
        }
    }
}

/// Whether each positional argument is required, in order.
pub open spec fn positional_required(args: Seq<crate::command::model::ArgumentSpec>) -> Seq<bool>
    decreases args.len(),
{
    if args.len() == 0 {
        seq![]
    } else if args.last().positional {
        positional_required(args.drop_last()).push(args.last().required)
    } else {
        positional_required(args.drop_last())
    }
}

/// Does a required positional follow an optional one directly?
pub open spec fn misordered(bs: Seq<bool>) -> bool {
    exists|i: int| 0 <= i && i + 1 < bs.len() && !bs[i] && #[trigger] bs[i + 1]
}

/// The last component of a path, when it names a file: empty components and `.` are
/// skipped, and a path that ends in `..` names none.
pub open spec fn last_named(segs: Seq<Seq<char>>) -> Option<Seq<char>>
    decreases segs.len(),
{
    if segs.len() == 0 {
        None
    } else if segs.last().len() == 0 || segs.last() == "."@ {
        last_named(segs.drop_last())
    } else if segs.last() == ".."@ {
        None
    } else {
        Some(segs.last())
    }
}

/// The name a program is checked by: its file name, or the whole of it when it has none.
pub open spec fn program_name(p: Seq<char>) -> Seq<char> {
    match last_named(split_seq(p, '/')) {
        Some(n) => n,
        None => p,
    }
}

/// The findings of programs a command may not invoke.
pub open spec fn cycle_findings(id: Seq<char>, programs: Seq<Seq<char>>) -> Seq<DiagnosticModel>
    decreases programs.len(),
{
    if programs.len() == 0 {
        seq![]
    } else {
        let before = cycle_findings(id, programs.drop_last());
        let name = program_name(programs.last());
        if name == "just"@ {
            before.push(
                finding_about(
                    "execution-cycle"@,
                    true,
                    id + " runs '"@ + name
                        + "', which is a projection of this graph: a surface may not invoke another surface"@,
                    id,
                ),
            )
        } else {
            before
        }
    }
}

/// Every finding about one command, in the order they are looked for.
pub open spec fn command_findings(c: CommandNode) -> Seq<DiagnosticModel> {
    let id = c.id@;
    let invalid: Seq<DiagnosticModel> = match parse_verdict(id) {
        Err(reason) => seq![finding_about("invalid-identity"@, true, id + ": "@ + reason, id)],
        Ok(_) => seq![],
    };
    let summary: Seq<DiagnosticModel> = if c.runnable && blank(c.summary@) {
        seq![finding_about("no-summary"@, false, id + " can be run and says nothing about itself"@, id)]
    } else {
        seq![]
    };
    let order: Seq<DiagnosticModel> = if misordered(positional_required(c.arguments@)) {
        seq![
            finding_about(
                "argument-order"@,
                false,
                id + " has a required positional after an optional one, which cannot be given"@,
                id,
            ),
        ]
    } else {
        seq![]
    };
    let cycles: Seq<DiagnosticModel> = match c.execution {
        Execution::External { .. } => cycle_findings(id, crate::command::model::programs_of(c.execution)),
        _ => seq![],
    };
    invalid + summary + flag_findings(id, c.arguments@) + order + cycles
}

/// The findings about every command, one after the other.
pub open spec fn commands_findings(cs: Seq<CommandNode>) -> Seq<DiagnosticModel>
    decreases cs.len(),
{
    if cs.len() == 0 {
        seq![]
    } else {
        commands_findings(cs.drop_last()) + command_findings(cs.last())
    }
}

/// The invariants a graph in identity order must satisfy before anything is projected
/// from it: every duplicated identity, then each command's own findings.
pub open spec fn validation(cs: Seq<CommandNode>) -> Seq<DiagnosticModel> {
    duplicate_findings(cs, 0) + commands_findings(cs)
}

fn is_blank(s: &str) -> (r: bool)
    ensures
        r == blank(s@),
{
    let n = s.unicode_len();
    let mut i: usize = 0;
    while i < n
        invariant
            n == s@.len(),
            i <= n,
            forall|j: int| 0 <= j < i ==> crate::command::completion::is_white(#[trigger] s@[j]),
        decreases n - i,
    {
        let c = s.get_char(i);
        let u = c as u32;
        if !((0x09 <= u && u <= 0x0d) || u == 0x20 || u == 0x85 || u == 0xa0 || u == 0x1680 || (
        0x2000 <= u && u <= 0x200a) || u == 0x2028 || u == 0x2029 || u == 0x202f || u == 0x205f
            || u == 0x3000) {
            return false;
        }
        i += 1;
    }
    true
}

fn text(s: &str) -> (r: String)
    ensures
        r@ == s@,
{
    String::from_str(s)
}

fn one_id(id: &CommandId) -> (r: Vec<CommandId>)
    ensures
        r@.map_values(|c: CommandId| c@) == seq![id@],
{
    let r = vec![id.copied()];
    assert(r@.map_values(|c: CommandId| c@) =~= seq![id@]);
    r
}

fn push_finding(
    out: &mut Vec<Diagnostic>,
    code: &str,
    fatal: bool,
    message: String,
    id: &CommandId,
)
    ensures
        diagnostic_models(final(out)@) == diagnostic_models(old(out)@).push(
            finding_about(code@, fatal, message@, id@),
        ),
{
    let d = Diagnostic { code: text(code), fatal, message, commands: one_id(id) };
    assert(diagnostic_model(d) =~= finding_about(code@, fatal, message@, id@));
    out.push(d);
    assert(diagnostic_models(out@) =~= diagnostic_models(old(out)@).push(diagnostic_model(d)));
}

proof fn lemma_run_len(cs: Seq<CommandNode>, k: int, e: int)
    requires
        0 <= k < e <= cs.len(),
        forall|m: int| k <= m < e ==> (#[trigger] cs[m]).id@ == cs[k].id@,
        e < cs.len() ==> cs[e].id@ != cs[k].id@,
    ensures
        run_len(cs, k) == e - k,
    decreases e - k,
{
    if k + 1 < e {
        lemma_run_len(cs, k + 1, e);
    }
}

fn duplicates(cs: &Vec<CommandNode>, out: &mut Vec<Diagnostic>)
    ensures
        diagnostic_models(final(out)@) == diagnostic_models(old(out)@) + duplicate_findings(cs@, 0),
{
    let n = cs.len();
    let ghost start = diagnostic_models(out@);
    let mut k: usize = 0;
    while k < n
        invariant
            n == cs@.len(),
            k <= n,
            diagnostic_models(out@) + duplicate_findings(cs@, k as int) == start
                + duplicate_findings(cs@, 0),
        decreases n - k,
    {
        let ghost before = diagnostic_models(out@);
        let starts = (k == 0 || !cs[k - 1].id.same(&cs[k].id)) && k + 1 < n && cs[k + 1].id.same(
            &cs[k].id,
        );
        if starts {
            let mut e: usize = k + 1;
            while e < n && cs[e].id.same(&cs[k].id)
                invariant
                    n == cs@.len(),
                    k < e <= n,
                    forall|m: int| k <= m < e ==> (#[trigger] cs@[m]).id@ == cs@[k as int].id@,
                decreases n - e,
            {
                e += 1;
            }
            proof {
                lemma_run_len(cs@, k as int, e as int);
            }
            let mut m = String::new();
            push_decimal(&mut m, e - k);
            push_str(&mut m, " commands claim the identity ");
            push_str(&mut m, cs[k].id.as_str());
            let named = match CommandId::parse(cs[k].id.as_str()) {
                Ok(x) => x,
                Err(_) => {
                    let words = vec![text(cs[k].id.as_str())];
                    assert(views(words@) =~= seq![cs@[k as int].id@]);
                    CommandId::new(Program::Workflow, words.as_slice())
                },
            };
            let ghost f = duplicate_finding(cs@[k as int].id@, run_len(cs@, k as int));
            let d = Diagnostic { code: text("duplicate-identity"), fatal: true, message: m, commands: one_id(&named) };
            assert(diagnostic_model(d) =~= f);
            out.push(d);
            assert(diagnostic_models(out@) =~= before.push(f));
            assert(duplicate_findings(cs@, k as int) == seq![f] + duplicate_findings(cs@, k + 1));
            proof {
                crate::strings::lemma_add_assoc(before, seq![f], duplicate_findings(cs@, k + 1));
            }
            assert(before.push(f) =~= before + seq![f]);
        }
        k += 1;
    }
    assert(duplicate_findings(cs@, n as int) =~= seq![]);
    assert(diagnostic_models(out@) + seq![] =~= diagnostic_models(out@));
}

fn long_declared(args: &Vec<crate::command::model::ArgumentSpec>, j: usize, l: &str) -> (r: bool)
    requires
        j <= args@.len(),
    ensures
        r == has_long(args@.subrange(0, j as int), l@),
{
    let mut found = false;
    let mut i: usize = 0;
    while i < j
        invariant
            j <= args@.len(),
            i <= j,
            found == has_long(args@.subrange(0, i as int), l@),
        decreases j - i,
    {
        let ghost sub = args@.subrange(0, i + 1);
        assert(sub.drop_last() =~= args@.subrange(0, i as int));
        assert(sub.last() == args@[i as int]);
        let here = match &args[i].long {
            Some(x) => str_eq(x.as_str(), l),
            None => false,
        };
        found = found || here;
        i += 1;
    }
    found
}

fn program_name_of(p: &str) -> (r: String)
    ensures
        r@ == program_name(p@),
{
    let segs = split_text(p, '/');
    let mut found: Option<usize> = None;
    let mut i: usize = 0;
    while i < segs.len()
        invariant
            i <= segs@.len(),
            match found {
                Some(k) => k < i && last_named(views(segs@).take(i as int)) == Some(segs@[k as int]@),
                None => last_named(views(segs@).take(i as int)) is None,
            },
        decreases segs.len() - i,
    {
        let ghost t = views(segs@).take(i + 1);
        assert(t.drop_last() =~= views(segs@).take(i as int));
        assert(t.last() == segs@[i as int]@);
        let w = segs[i].as_str();
        if w.unicode_len() == 0 || str_eq(w, ".") {
        } else if str_eq(w, "..") {
            found = None;
        } else {
            found = Some(i);
        }
        i += 1;
    }
    assert(views(segs@).take(segs@.len() as int) =~= views(segs@));
    match found {
        Some(k) => text(segs[k].as_str()),
        None => text(p),
    }
}

#[verifier::rlimit(40)]
fn command_checks(c: &CommandNode, out: &mut Vec<Diagnostic>)
    ensures
        diagnostic_models(final(out)@) == diagnostic_models(old(out)@) + command_findings(*c),
{
    let ghost start = diagnostic_models(out@);
    let ghost id = c.id@;
    match CommandId::parse(c.id.as_str()) {
        Err(reason) => {
            let mut m = text(c.id.as_str());
            push_str(&mut m, ": ");
            push_str(&mut m, reason.as_str());
            push_finding(out, "invalid-identity", true, m, &c.id);
        },
        Ok(_) => {},
    }
    let ghost after_invalid = diagnostic_models(out@);
    if c.runnable && is_blank(c.summary.as_str()) {
        let mut m = text(c.id.as_str());
        push_str(&mut m, " can be run and says nothing about itself");
        push_finding(out, "no-summary", false, m, &c.id);
    }
    let ghost after_summary = diagnostic_models(out@);
    let mut j: usize = 0;
    while j < c.arguments.len()
        invariant
            j <= c.arguments@.len(),
            diagnostic_models(out@) == after_summary + flag_findings(id, c.arguments@.subrange(0, j as int)),
            id == c.id@,
        decreases c.arguments.len() - j,
    {
        let ghost sub = c.arguments@.subrange(0, j + 1);
        assert(sub.drop_last() =~= c.arguments@.subrange(0, j as int));
        assert(sub.last() == c.arguments@[j as int]);
        let ghost before = diagnostic_models(out@);
        match &c.arguments[j].long {
            Some(l) => {
                if long_declared(&c.arguments, j, l.as_str()) {
                    let mut m = text(c.id.as_str());
                    push_str(&mut m, " declares --");
                    push_str(&mut m, l.as_str());
                    push_str(&mut m, " twice");
                    push_finding(out, "duplicate-flag", true, m, &c.id);
                }
            },
            None => {},
        }
        assert(diagnostic_models(out@) =~= after_summary + flag_findings(id, sub));
        j += 1;
    }
    assert(c.arguments@.subrange(0, c.arguments@.len() as int) =~= c.arguments@);
    let ghost after_flags = diagnostic_models(out@);
    let mut required: Vec<bool> = Vec::new();
    let mut j: usize = 0;
    while j < c.arguments.len()
        invariant
            j <= c.arguments@.len(),
            required@ == positional_required(c.arguments@.subrange(0, j as int)),
        decreases c.arguments.len() - j,
    {
        let ghost sub = c.arguments@.subrange(0, j + 1);
        assert(sub.drop_last() =~= c.arguments@.subrange(0, j as int));
        assert(sub.last() == c.arguments@[j as int]);
        if c.arguments[j].positional {
            required.push(c.arguments[j].required);
        }
        j += 1;
    }
    let mut bad = false;
    let mut i: usize = 1;
    while i < required.len()
        invariant
            1 <= i,
            i <= required@.len() || required@.len() == 0,
            bad == exists|q: int| 0 <= q && q + 1 < i && q + 1 < required@.len() && !required@[q] && #[trigger] required@[q + 1],
        decreases required.len() - i,
    {
        if !required[i - 1] && required[i] {
            bad = true;
            assert(!required@[i - 1] && required@[(i - 1) + 1]);
        }
        i += 1;
    }
    assert(bad == misordered(required@)) by {
        if misordered(required@) {
            let q = choose|q: int| 0 <= q && q + 1 < required@.len() && !required@[q] && #[trigger] required@[q + 1];
            assert(q + 1 < i);
        }
    }
    if bad {
        let mut m = text(c.id.as_str());
        push_str(&mut m, " has a required positional after an optional one, which cannot be given");
        push_finding(out, "argument-order", false, m, &c.id);
    }
    let ghost after_order = diagnostic_models(out@);
    match &c.execution {
        Execution::External { .. } => {
            let programs = c.execution.programs();
            let ghost ps = programs@.map_values(|x: &str| x@);
            let mut k: usize = 0;
            while k < programs.len()
                invariant
                    k <= programs@.len(),
                    ps == programs@.map_values(|x: &str| x@),
                    diagnostic_models(out@) == after_order + cycle_findings(id, ps.take(k as int)),
                    id == c.id@,
                decreases programs.len() - k,
            {
                let ghost t = ps.take(k + 1);
                assert(t.drop_last() =~= ps.take(k as int));
                assert(t.last() == programs@[k as int]@);
                let name = program_name_of(programs[k]);
                if str_eq(name.as_str(), "just") {
                    let mut m = text(c.id.as_str());
                    push_str(&mut m, " runs '");
                    push_str(&mut m, name.as_str());
                    push_str(&mut m, "', which is a projection of this graph: a surface may not invoke another surface");
                    push_finding(out, "execution-cycle", true, m, &c.id);
                }
                k += 1;
            }
            assert(ps.take(programs@.len() as int) =~= ps);
        },
        _ => {},
    }
    assert(diagnostic_models(out@) =~= start + command_findings(*c));
}

/// The invariants a graph must satisfy before anything is projected from it.
fn validate(commands: &Vec<CommandNode>) -> (r: Vec<Diagnostic>)
    ensures
        diagnostic_models(r@) == validation(commands@),
{
    let mut out: Vec<Diagnostic> = Vec::new();
    duplicates(commands, &mut out);
    let ghost mid = diagnostic_models(out@);
    let mut i: usize = 0;
    while i < commands.len()
        invariant
            i <= commands@.len(),
            mid == duplicate_findings(commands@, 0),
            diagnostic_models(out@) == mid + commands_findings(commands@.subrange(0, i as int)),
        decreases commands.len() - i,
    {
        command_checks(&commands[i], &mut out);
        let ghost sub = commands@.subrange(0, i + 1);
        assert(sub.drop_last() =~= commands@.subrange(0, i as int));
        assert(sub.last() == commands@[i as int]);
        proof {
            crate::strings::lemma_add_assoc(mid, commands_findings(commands@.subrange(0, i as int)), command_findings(commands@[i as int]));
        }
        i += 1;
    }
    assert(commands@.subrange(0, commands@.len() as int) =~= commands@);
    out
}

// ------------------------------------------------------------------ availability

/// Two commands that differ at most in their names and their availability.
pub open spec fn same_declaration(a: CommandNode, b: CommandNode) -> bool {
    &&& a.id == b.id
    &&& a.program == b.program
    &&& a.path == b.path
    &&& a.summary == b.summary
    &&& a.description == b.description
    &&& a.usage == b.usage
    &&& a.runnable == b.runnable
    &&& a.arguments == b.arguments
    &&& a.execution == b.execution
    &&& a.effect == b.effect
    &&& a.interactivity == b.interactivity
    &&& a.visibility == b.visibility
    &&& a.provenance == b.provenance
    &&& a.aliases == b.aliases
    &&& a.deprecation == b.deprecation
    &&& a.tags == b.tags
    &&& a.examples == b.examples
}

/// The availability a command that needs these requirements has under these facts: it
/// can run when every one is met, and the reason is the first unmet one's sentence.
pub open spec fn resolved(facts: Facts, needs: Seq<Requirement>, a: Availability) -> bool {
    let k = first_unmet_at(facts, needs);
    &&& a.requires@ == needs
    &&& a.available == (k >= needs.len())
    &&& if k < needs.len() {
        a.reason matches Some(r) && r@ == unmet_text(needs[k])
    } else {
        a.reason is None
    }
}

fn copy_requirements(v: &Vec<Requirement>) -> (r: Vec<Requirement>)
    ensures
        r@ == v@,
{
    let mut out: Vec<Requirement> = Vec::new();
    let mut i: usize = 0;
    while i < v.len()
        invariant
            i <= v@.len(),
            out@ == v@.subrange(0, i as int),
        decreases v.len() - i,
    {
        out.push(v[i]);
        assert(out@ =~= v@.subrange(0, i + 1));
        i += 1;
    }
    assert(v@.subrange(0, v@.len() as int) =~= v@);
    out
}

/// Resolve every command's availability against the facts of the checkout. The commands
/// themselves declare requirements; nothing here knows what any particular command needs.
fn resolve_availability(commands: &mut Vec<CommandNode>, facts: &Facts)
    ensures
        final(commands)@.len() == old(commands)@.len(),
        forall|i: int|
            0 <= i < old(commands)@.len() ==> {
                &&& same_declaration(#[trigger] final(commands)@[i], old(commands)@[i])
                &&& final(commands)@[i].projections == old(commands)@[i].projections
                &&& resolved(*facts, old(commands)@[i].availability.requires@, final(commands)@[i].availability)
            },
{
    let ghost start = commands@;
    let mut i: usize = 0;
    while i < commands.len()
        invariant
            i <= commands@.len(),
            commands@.len() == start.len(),
            forall|j: int|
                0 <= j < start.len() ==> same_declaration(#[trigger] commands@[j], start[j])
                    && commands@[j].projections == start[j].projections,
            forall|j: int| i <= j < start.len() ==> (#[trigger] commands@[j]).availability == start[j].availability,
            forall|j: int|
                0 <= j < i ==> resolved(*facts, start[j].availability.requires@, (#[trigger] commands@[j]).availability),
        decreases commands.len() - i,
    {
        let needs = copy_requirements(&commands[i].availability.requires);
        let unmet = facts.first_unmet(needs.as_slice());
        let reason = match unmet {
            Some(r) => Some(String::from_str(r.unmet_reason())),
            None => None,
        };
        commands[i].availability = Availability { available: unmet.is_none(), requires: needs, reason };
        i += 1;
    }
}

// ------------------------------------------------------------------ the graph

/// A composed, validated command graph.
#[derive(Debug, Clone, PartialEq, Eq)]
pub struct CommandGraph {
    /// The schema: the identity of this document's shape.
    pub schema: String,
    /// The executable that built it.
    pub version: String,
    /// The hash of what the surfaces project: identities, paths, texts, arguments,
    /// execution, effects and names. Availability is *not* in it, so that a branch
    /// change, a dirty tree or an uninstalled dependency never invalidates a generated
    /// bridge that would come out identical.
    pub structure: String,
    /// The hash of the whole graph, availability included: the value a client caches on.
    pub fingerprint: String,
    /// Every command, in identity order.
    pub commands: Vec<CommandNode>,
    /// Every finding of the build, in the order they were made.
    pub diagnostics: Vec<Diagnostic>,
}

/// What composing a graph from what the contributors declared gives: the commands in
/// identity order, checked, named, with their availability resolved, and fingerprinted.
pub open spec fn composed(
    contributed: Seq<CommandNode>,
    findings: Seq<Diagnostic>,
    facts: Facts,
    version: Seq<char>,
    perm: Seq<int>,
    g: CommandGraph,
) -> bool {
    let s = rearranged(contributed, perm);
    &&& sorts_by_id(contributed, perm)
    &&& g.commands@.len() == s.len()
    &&& forall|k: int|
        0 <= k < s.len() ==> same_declaration(#[trigger] g.commands@[k], s[k]) && resolved(
            facts,
            s[k].availability.requires@,
            g.commands@[k].availability,
        )
    &&& exists|order: Seq<usize>| crate::command::projection::is_visit_order(s, order)
    &&& forall|order: Seq<usize>|
        crate::command::projection::is_visit_order(s, order) ==> {
            &&& crate::command::projection::names_given(s, order, g.commands@)
            &&& diagnostic_models(g.diagnostics@) == diagnostic_models(findings) + validation(s)
                + crate::command::projection::naming_findings(s, order)
        }
    &&& g.schema@ == SCHEMA@
    &&& g.version@ == version
    &&& g.structure@ == crate::digest::sha256_hex_of(
        crate::command::structure::structure_text(SCHEMA@, version, g.commands@),
    )
    &&& g.fingerprint@ == crate::digest::sha256_hex_of(
        g.structure@ + crate::command::structure::availabilities_text(g.commands@),
    )
}

fn append_diagnostics(out: &mut Vec<Diagnostic>, more: Vec<Diagnostic>)
    ensures
        diagnostic_models(final(out)@) == diagnostic_models(old(out)@) + diagnostic_models(more@),
{
    let mut more = more;
    let ghost m = more@;
    out.append(&mut more);
    assert(diagnostic_models(out@) =~= diagnostic_models(old(out)@) + diagnostic_models(m));
}

impl CommandGraph {
    /// Compose the graph of what the contributors declared: the native command line, the
    /// shell tool's registry and the workflow tree, with the findings they made while
    /// reading. A contributor that failed contributes a finding and no commands.
    pub fn build(
        contributed: Vec<CommandNode>,
        findings: Vec<Diagnostic>,
        facts: &Facts,
        version: &str,
    ) -> (r: Self)
        requires
            aliases_are_names(contributed@),
        ensures
            exists|perm: Seq<int>| composed(contributed@, findings@, *facts, version@, perm, r),
    {
        let ghost given = contributed@;
        let (mut commands, Ghost(perm)) = sort_by_id(contributed);
        let ghost s = commands@;
        proof {
            assert forall|i: int, j: int|
                0 <= i < s.len() && 0 <= j < s[i].aliases@.len() implies crate::command::projection::recipe_name(
                    #[trigger] s[i].aliases@[j].name@,
                ) && !crate::command::projection::reserved(s[i].aliases@[j].name@) by {
                assert(s[i] == given[perm[i]]);
                assert(0 <= perm[i] < given.len());
            }
        }
        let mut diagnostics = findings;
        let checks = validate(&commands);
        append_diagnostics(&mut diagnostics, checks);
        let named = assign(&mut commands);
        append_diagnostics(&mut diagnostics, named);
        let ghost after_naming = commands@;
        resolve_availability(&mut commands, facts);
        let text = crate::command::structure::structure_text_of(SCHEMA, version, &commands);
        let structure = crate::digest::sha256_hex(text.as_str());
        let whole = crate::command::structure::whole_text_of(structure.as_str(), &commands);
        let fingerprint = crate::digest::sha256_hex(whole.as_str());
        let g = CommandGraph {
            schema: String::from_str(SCHEMA),
            version: String::from_str(version),
            structure,
            fingerprint,
            commands,
            diagnostics,
        };
        proof {
            assert forall|k: int| 0 <= k < s.len() implies same_declaration(#[trigger] g.commands@[k], s[k]) && resolved(
                *facts,
                s[k].availability.requires@,
                g.commands@[k].availability,
            ) by {
                assert(same_but_projections(after_naming[k], s[k]));
            }
            assert forall|order: Seq<usize>| crate::command::projection::is_visit_order(s, order) implies {
                &&& crate::command::projection::names_given(s, order, g.commands@)
                &&& diagnostic_models(g.diagnostics@) == diagnostic_models(findings@) + validation(s)
                    + crate::command::projection::naming_findings(s, order)
            } by {
                assert(assigned(s, order, after_naming, named@));
                assert forall|k: int| 0 <= k < order.len() implies (#[trigger] g.commands@[order[k] as int]).projections
                    == after_naming[order[k] as int].projections by {
                    assert(0 <= order[k] < s.len());
                }
            }
            assert(composed(given, findings@, *facts, version@, perm, g));
        }
        g
    }
}

proof fn lemma_nodes_text_eq(a: Seq<CommandNode>, b: Seq<CommandNode>)
    requires
        a.len() == b.len(),
        forall|k: int|
            0 <= k < a.len() ==> crate::command::structure::node_text(#[trigger] a[k])
                == crate::command::structure::node_text(b[k]),
    ensures
        crate::command::structure::nodes_text(a) == crate::command::structure::nodes_text(b),
    decreases a.len(),
{
    if a.len() > 0 {
        assert forall|k: int| 0 <= k < a.drop_last().len() implies crate::command::structure::node_text(
            #[trigger] a.drop_last()[k],
        ) == crate::command::structure::node_text(b.drop_last()[k]) by {
            assert(a.drop_last()[k] == a[k]);
            assert(b.drop_last()[k] == b[k]);
        }
        lemma_nodes_text_eq(a.drop_last(), b.drop_last());
        assert(a.last() == a[a.len() - 1]);
        assert(b.last() == b[b.len() - 1]);
    }
}

/// Availability is not in the structure fingerprint: two graphs composed from the same
/// declarations at the same version, under any two sets of facts, have the same structure
/// fingerprint, so a checkout that lost a dependency does not need a new bridge. Both list
/// the same commands in ascending identity order, and in each a command is available
/// exactly when that graph's facts meet every one of its requirements, with the first unmet
/// one as its reason otherwise.
pub proof fn law_availability_is_not_in_the_structure_fingerprint(
    contributed: Seq<CommandNode>,
    findings: Seq<Diagnostic>,
    facts1: Facts,
    facts2: Facts,
    version: Seq<char>,
    perm1: Seq<int>,
    perm2: Seq<int>,
    g1: CommandGraph,
    g2: CommandGraph,
)
    requires
        composed(contributed, findings, facts1, version, perm1, g1),
        composed(contributed, findings, facts2, version, perm2, g2),
    ensures
        g1.structure@ == g2.structure@,
        g1.commands@.len() == g2.commands@.len(),
        forall|k: int| 0 <= k < g1.commands@.len() ==> (#[trigger] g1.commands@[k]).id == g2.commands@[k].id,
        forall|k: int, l: int|
            0 <= k < l < g1.commands@.len() ==> text_less(#[trigger] g1.commands@[k].id@, #[trigger] g1.commands@[l].id@)
                || g1.commands@[k].id@ == g1.commands@[l].id@,
        forall|k: int|
            0 <= k < g1.commands@.len() ==> {
                &&& resolved(facts1, (#[trigger] g1.commands@[k]).availability.requires@, g1.commands@[k].availability)
                &&& resolved(facts2, g2.commands@[k].availability.requires@, g2.commands@[k].availability)
                &&& g1.commands@[k].availability.requires@ == g2.commands@[k].availability.requires@
            },
{
    lemma_sort_unique(contributed, perm1, perm2);
    let s0 = rearranged(contributed, perm1);
    assert forall|k: int, l: int| 0 <= k < l < g1.commands@.len() implies text_less(
        #[trigger] g1.commands@[k].id@,
        #[trigger] g1.commands@[l].id@,
    ) || g1.commands@[k].id@ == g1.commands@[l].id@ by {
        assert(id_before(contributed, perm1[k], perm1[l]));
        assert(same_declaration(g1.commands@[k], s0[k]));
        assert(same_declaration(g1.commands@[l], s0[l]));
    }
    assert forall|k: int| 0 <= k < g1.commands@.len() implies {
        &&& resolved(facts1, (#[trigger] g1.commands@[k]).availability.requires@, g1.commands@[k].availability)
        &&& resolved(facts2, g2.commands@[k].availability.requires@, g2.commands@[k].availability)
        &&& g1.commands@[k].availability.requires@ == g2.commands@[k].availability.requires@
    } by {
        assert(resolved(facts1, s0[k].availability.requires@, g1.commands@[k].availability));
        assert(resolved(facts2, s0[k].availability.requires@, g2.commands@[k].availability));
    }
    assert forall|k: int| 0 <= k < g1.commands@.len() implies (#[trigger] g1.commands@[k]).id == g2.commands@[k].id by {
        assert(same_declaration(g1.commands@[k], s0[k]));
        assert(same_declaration(g2.commands@[k], s0[k]));
    }
    let s = rearranged(contributed, perm1);
    let order = choose|order: Seq<usize>| crate::command::projection::is_visit_order(s, order);
    let infos = crate::command::projection::visit_infos(s, order);
    let r = crate::command::projection::recipe_pass(infos);
    assert forall|k: int| 0 <= k < s.len() implies crate::command::structure::node_text(
        #[trigger] g1.commands@[k],
    ) == crate::command::structure::node_text(g2.commands@[k]) by {
        assert(crate::command::projection::appears(order, k));
        let m = choose|m: int| 0 <= m < order.len() && order[m] == k;
        assert(crate::command::projection::named(infos[m], r.names[m], g1.commands@[order[m] as int].projections));
        assert(crate::command::projection::named(infos[m], r.names[m], g2.commands@[order[m] as int].projections));
        let p1 = g1.commands@[k].projections;
        let p2 = g2.commands@[k].projections;
        assert(crate::command::structure::projections_text(p1) == crate::command::structure::projections_text(p2));
        assert(same_declaration(g1.commands@[k], s[k]));
        assert(same_declaration(g2.commands@[k], s[k]));
    }
    lemma_nodes_text_eq(g1.commands@, g2.commands@);
}

// ------------------------------------------------------------------ reading the graph

/// Where a name was typed. The completion engine and every resolver take one of these
/// rather than guessing from the shape of the words.
#[derive(Debug, Clone, Copy, PartialEq, Eq, Structural)]
pub enum Surface {
    /// The native command line: `majordomus bench coverage`.
    Cli,
    /// The generated Just bridge: `just bench-coverage`.
    Just,
    /// The Cockpit's action name.
    Cockpit,
}

/// The surface a word names.
pub open spec fn surface_named(t: Seq<char>) -> Option<Surface> {
    if t == "cli"@ {
        Some(Surface::Cli)
    } else if t == "just"@ {
        Some(Surface::Just)
    } else if t == "cockpit"@ {
        Some(Surface::Cockpit)
    } else {
        None
    }
}

impl Surface {
    /// The surface a name says it is, for the command line's own `--surface`.
    pub fn parse(text: &str) -> (r: Option<Self>)
        ensures
            r == surface_named(text@),
    {
        if str_eq(text, "cli") {
            Some(Surface::Cli)
        } else if str_eq(text, "just") {
            Some(Surface::Just)
        } else if str_eq(text, "cockpit") {
            Some(Surface::Cockpit)
        } else {
            None
        }
    }
}

/// The position of the first command that satisfies a condition, or the count.
pub open spec fn first_where(cs: Seq<CommandNode>, p: spec_fn(CommandNode) -> bool) -> int
    decreases cs.len(),
{
    if cs.len() == 0 {
        0
    } else if p(cs[0]) {
        0
    } else {
        1 + first_where(cs.drop_first(), p)
    }
}

proof fn lemma_first_where(cs: Seq<CommandNode>, p: spec_fn(CommandNode) -> bool, k: int)
    requires
        0 <= k <= cs.len(),
        forall|j: int| 0 <= j < k ==> !p(#[trigger] cs[j]),
        k < cs.len() ==> p(cs[k]),
    ensures
        first_where(cs, p) == k,
    decreases k,
{
    if k > 0 {
        let t = cs.drop_first();
        assert forall|j: int| 0 <= j < k - 1 implies !p(#[trigger] t[j]) by {
            assert(t[j] == cs[j + 1]);
        }
        if k < cs.len() {
            assert(t[k - 1] == cs[k]);
        }
        assert(!p(cs[0]));
        lemma_first_where(t, p, k - 1);
    }
}

/// What a search that stopped at a position gives: the command there, or nothing when
/// the position is past the end.
pub open spec fn found(cs: Seq<CommandNode>, k: int, r: Option<&CommandNode>) -> bool {
    if 0 <= k < cs.len() {
        r == Some(&cs[k])
    } else {
        r is None
    }
}

/// A command whose identity is this text.
pub open spec fn has_id(id: Seq<char>) -> spec_fn(CommandNode) -> bool {
    |c: CommandNode| c.id@ == id
}

/// A command a Just name reaches: its recipe, or one of its aliases.
pub open spec fn answers_just(name: Seq<char>) -> spec_fn(CommandNode) -> bool {
    |c: CommandNode|
        (c.projections.just matches Some(j) && j@ == name) || views(c.projections.just_aliases@).contains(name)
}

/// A command a Cockpit action reaches.
pub open spec fn answers_cockpit(name: Seq<char>) -> spec_fn(CommandNode) -> bool {
    |c: CommandNode| c.projections.cockpit matches Some(a) && a@ == name
}

/// Does a native command's path begin the words?
pub open spec fn begins(c: CommandNode, words: Seq<Seq<char>>) -> bool {
    c.program == Program::Native && c.path@.len() <= words.len() && views(c.path@) == words.take(
        c.path@.len() as int,
    )
}

/// The deepest native command the words begin with, looking at the first commands: the
/// first of the longest.
pub open spec fn deepest(cs: Seq<CommandNode>, words: Seq<Seq<char>>) -> Option<int>
    decreases cs.len(),
{
    if cs.len() == 0 {
        None
    } else {
        let best = deepest(cs.drop_last(), words);
        let k = cs.len() - 1;
        if begins(cs[k], words) && (match best {
            Some(b) => cs[k].path@.len() > cs[b].path@.len(),
            None => true,
        }) {
            Some(k)
        } else {
            best
        }
    }
}

/// The rank the entry recommendation puts a command at: what the declaration tagged as an
/// entry, then diagnostics, then reads, then everything else.
pub open spec fn rank_of(c: CommandNode) -> u8 {
    if views(c.tags@).contains("entry"@) {
        0
    } else if views(c.tags@).contains("diagnostic"@) {
        1
    } else if c.effect == EffectClass::ReadOnly {
        2
    } else {
        3
    }
}

fn tagged(tags: &Vec<String>, word: &str) -> (r: bool)
    ensures
        r == views(tags@).contains(word@),
{
    let mut i: usize = 0;
    while i < tags.len()
        invariant
            i <= tags@.len(),
            forall|j: int| 0 <= j < i ==> tags@[j]@ != word@,
        decreases tags.len() - i,
    {
        if str_eq(tags[i].as_str(), word) {
            assert(views(tags@)[i as int] == word@);
            return true;
        }
        i += 1;
    }
    assert(!views(tags@).contains(word@)) by {
        if views(tags@).contains(word@) {
            let j = choose|j: int| 0 <= j < views(tags@).len() && views(tags@)[j] == word@;
            assert(tags@[j]@ == word@);
        }
    }
    false
}

fn entry_rank(c: &CommandNode) -> (r: u8)
    ensures
        r == rank_of(*c),
{
    if tagged(&c.tags, "entry") {
        0
    } else if tagged(&c.tags, "diagnostic") {
        1
    } else if c.effect.is_read_only() {
        2
    } else {
        3
    }
}

/// The commands a person listing what they can run sees, in the order of the list.
pub open spec fn listed_nodes(cs: Seq<CommandNode>) -> Seq<CommandNode>
    decreases cs.len(),
{
    if cs.len() == 0 {
        seq![]
    } else if cs.last().visibility == Visibility::Public && cs.last().runnable {
        listed_nodes(cs.drop_last()).push(cs.last())
    } else {
        listed_nodes(cs.drop_last())
    }
}

/// Does one listed command come before another: by rank, then identity, then position.
pub open spec fn listed_before(v: Seq<CommandNode>, i: int, j: int) -> bool {
    rank_of(v[i]) < rank_of(v[j]) || (rank_of(v[i]) == rank_of(v[j]) && (text_less(v[i].id@, v[j].id@)
        || (v[i].id@ == v[j].id@ && i < j)))
}

/// Commands as a list shows them: rearranged by rank, identity and position.
pub open spec fn sorts_listed(v: Seq<CommandNode>, perm: Seq<int>) -> bool {
    &&& is_rearrangement(perm, v.len() as int)
    &&& forall|k: int, l: int|
        0 <= k < l < perm.len() ==> listed_before(v, #[trigger] perm[k], #[trigger] perm[l])
}

fn listed_key_before(a: &CommandNode, b: &CommandNode) -> (r: bool)
    ensures
        r == (rank_of(*a) < rank_of(*b) || (rank_of(*a) == rank_of(*b) && text_less(a.id@, b.id@))),
{
    let ra = entry_rank(a);
    let rb = entry_rank(b);
    ra < rb || (ra == rb && text_before(a.id.as_str(), b.id.as_str()))
}

impl CommandGraph {
    /// One command by identity.
    pub fn get(&self, id: &str) -> (r: Option<&CommandNode>)
        ensures
            first_where(self.commands@, has_id(id@)) < self.commands@.len() ==> r == Some(
                &self.commands@[first_where(self.commands@, has_id(id@))],
            ),
            first_where(self.commands@, has_id(id@)) >= self.commands@.len() ==> r is None,
    {
        let mut i: usize = 0;
        while i < self.commands.len()
            invariant
                i <= self.commands@.len(),
                forall|j: int| 0 <= j < i ==> !has_id(id@)(#[trigger] self.commands@[j]),
            decreases self.commands.len() - i,
        {
            if str_eq(self.commands[i].id.as_str(), id) {
                proof {
                    lemma_first_where(self.commands@, has_id(id@), i as int);
                }
                return Some(&self.commands[i]);
            }
            i += 1;
        }
        proof {
            lemma_first_where(self.commands@, has_id(id@), self.commands@.len() as int);
        }
        None
    }

    /// The deepest native command the words begin with, and how many words it took. The
    /// rest are the command's own arguments.
    pub fn longest_cli_prefix(&self, words: &[String]) -> (r: Option<(&CommandNode, usize)>)
        ensures
            match deepest(self.commands@, views(words@)) {
                Some(k) => r matches Some(p) && *p.0 == self.commands@[k] && p.1
                    == self.commands@[k].path@.len(),
                None => r is None,
            },
    {
        let mut best: Option<usize> = None;
        let mut i: usize = 0;
        while i < self.commands.len()
            invariant
                i <= self.commands@.len(),
                match deepest(self.commands@.take(i as int), views(words@)) {
                    Some(k) => 0 <= k < i && best == Some(k as usize),
                    None => best is None,
                },
            decreases self.commands.len() - i,
        {
            let ghost t = self.commands@.take(i + 1);
            assert(t.drop_last() =~= self.commands@.take(i as int));
            assert(t[i as int] == self.commands@[i as int]);
            proof {
                match deepest(self.commands@.take(i as int), views(words@)) {
                    Some(b) => {
                        assert(t[b] == self.commands@[b]);
                    },
                    None => {},
                }
            }
            let c = &self.commands[i];
            let n = c.path.len();
            let mut matches = c.program == Program::Native && n <= words.len();
            if matches {
                let mut j: usize = 0;
                while j < n
                    invariant
                        n == c.path@.len(),
                        n <= words@.len(),
                        j <= n,
                        matches == (forall|q: int| 0 <= q < j ==> c.path@[q]@ == words@[q]@),
                    decreases n - j,
                {
                    if !str_eq(c.path[j].as_str(), words[j].as_str()) {
                        matches = false;
                    }
                    j += 1;
                }
                assert(matches == (views(c.path@) == views(words@).take(n as int))) by {
                    if matches {
                        assert(views(c.path@) =~= views(words@).take(n as int));
                    } else {
                        let q = choose|q: int| 0 <= q < n && !(c.path@[q]@ == words@[q]@);
                        assert(views(c.path@)[q] != views(words@).take(n as int)[q]);
                    }
                }
            }
            assert(matches == begins(*c, views(words@)));
            if matches {
                let better = match best {
                    Some(b) => n > self.commands[b].path.len(),
                    None => true,
                };
                if better {
                    best = Some(i);
                }
            }
            i += 1;
        }
        assert(self.commands@.take(self.commands@.len() as int) =~= self.commands@);
        match best {
            Some(b) => Some((&self.commands[b], self.commands[b].path.len())),
            None => None,
        }
    }

    /// The command a surface's name resolves to. One resolution for every surface: the
    /// Just recipe, the recipe's aliases, the Cockpit action and the native path all
    /// reach the same node, and no surface keeps a table of its own.
    pub fn resolve(&self, surface: Surface, words: &[String]) -> (r: Option<&CommandNode>)
        ensures
            match surface {
                Surface::Just => if words@.len() == 0 {
                    r is None
                } else {
                    found(self.commands@, first_where(self.commands@, answers_just(words@[0]@)), r)
                },
                Surface::Cockpit => if words@.len() == 0 {
                    r is None
                } else {
                    found(self.commands@, first_where(self.commands@, answers_cockpit(words@[0]@)), r)
                },
                Surface::Cli => match deepest(self.commands@, views(words@)) {
                    Some(k) => r == Some(&self.commands@[k]),
                    None => r is None,
                },
            },
    {
        match surface {
            Surface::Cli => match self.longest_cli_prefix(words) {
                Some((c, _)) => Some(c),
                None => None,
            },
            Surface::Just => {
                if words.len() == 0 {
                    return None;
                }
                let name = words[0].as_str();
                let mut i: usize = 0;
                while i < self.commands.len()
                    invariant
                        i <= self.commands@.len(),
                        words@.len() > 0,
                        name@ == words@[0]@,
                        forall|j: int| 0 <= j < i ==> !answers_just(name@)(#[trigger] self.commands@[j]),
                        surface == Surface::Just,
                    decreases self.commands.len() - i,
                {
                    let c = &self.commands[i];
                    let by_name = match &c.projections.just {
                        Some(j) => str_eq(j.as_str(), name),
                        None => false,
                    };
                    let by_alias = tagged(&c.projections.just_aliases, name);
                    if by_name || by_alias {
                        proof {
                            lemma_first_where(self.commands@, answers_just(name@), i as int);
                        }
                        return Some(c);
                    }
                    i += 1;
                }
                proof {
                    lemma_first_where(self.commands@, answers_just(name@), self.commands@.len() as int);
                }
                None
            },
            Surface::Cockpit => {
                if words.len() == 0 {
                    return None;
                }
                let name = words[0].as_str();
                let mut i: usize = 0;
                while i < self.commands.len()
                    invariant
                        i <= self.commands@.len(),
                        words@.len() > 0,
                        name@ == words@[0]@,
                        forall|j: int| 0 <= j < i ==> !answers_cockpit(name@)(#[trigger] self.commands@[j]),
                        surface == Surface::Cockpit,
                    decreases self.commands.len() - i,
                {
                    let c = &self.commands[i];
                    let hit = match &c.projections.cockpit {
                        Some(a) => str_eq(a.as_str(), name),
                        None => false,
                    };
                    if hit {
                        proof {
                            assert(answers_cockpit(name@)(self.commands@[i as int]));
                            lemma_first_where(self.commands@, answers_cockpit(name@), i as int);
                        }
                        return Some(c);
                    }
                    i += 1;
                }
                proof {
                    lemma_first_where(self.commands@, answers_cockpit(name@), self.commands@.len() as int);
                }
                None
            },
        }
    }

    /// Is the graph safe to project? A fatal finding means an ambiguity a surface cannot
    /// resolve, and refusing is the only honest answer.
    pub fn is_valid(&self) -> (r: bool)
        ensures
            r == !(exists|i: int| 0 <= i < self.diagnostics@.len() && (#[trigger] self.diagnostics@[i]).fatal),
    {
        let mut i: usize = 0;
        while i < self.diagnostics.len()
            invariant
                i <= self.diagnostics@.len(),
                forall|j: int| 0 <= j < i ==> !(#[trigger] self.diagnostics@[j]).fatal,
            decreases self.diagnostics.len() - i,
        {
            if self.diagnostics[i].fatal {
                return false;
            }
            i += 1;
        }
        true
    }
}

/// The key a list is ordered by: rank, then identity.
pub open spec fn listed_key_less(a: CommandNode, b: CommandNode) -> bool {
    rank_of(a) < rank_of(b) || (rank_of(a) == rank_of(b) && text_less(a.id@, b.id@))
}

proof fn lemma_listed_key(a: CommandNode, b: CommandNode, c: CommandNode)
    ensures
        !listed_key_less(a, a),
        !(listed_key_less(a, b) && listed_key_less(b, a)),
        listed_key_less(a, b) && listed_key_less(b, c) ==> listed_key_less(a, c),
        !listed_key_less(a, b) && !listed_key_less(b, a) ==> rank_of(a) == rank_of(b) && a.id@ == b.id@,
{
    lemma_text_less_irreflexive(a.id@);
    if text_less(a.id@, b.id@) && text_less(b.id@, a.id@) {
        lemma_text_less_transitive(a.id@, b.id@, a.id@);
    }
    if text_less(a.id@, b.id@) && text_less(b.id@, c.id@) {
        lemma_text_less_transitive(a.id@, b.id@, c.id@);
    }
    if rank_of(a) == rank_of(b) && a.id@ != b.id@ {
        lemma_text_less_total(a.id@, b.id@);
    }
}

/// Every command a person listing what they can run should see, in a deterministic
/// order: the entry commands first, then the rest by rank and identity.
impl CommandGraph {
    pub fn listed(&self) -> (r: Vec<&CommandNode>)
        ensures
            exists|perm: Seq<int>|
                sorts_listed(listed_nodes(self.commands@), perm) && r@.len() == perm.len() && (forall|k: int|
                    0 <= k < perm.len() ==> *(#[trigger] r@[k]) == listed_nodes(self.commands@)[perm[k]]),
    {
        let mut pool: Vec<&CommandNode> = Vec::new();
        let mut i: usize = 0;
        while i < self.commands.len()
            invariant
                i <= self.commands@.len(),
                pool@.len() == listed_nodes(self.commands@.take(i as int)).len(),
                forall|k: int| 0 <= k < pool@.len() ==> *(#[trigger] pool@[k]) == listed_nodes(self.commands@.take(i as int))[k],
            decreases self.commands.len() - i,
        {
            let ghost t = self.commands@.take(i + 1);
            assert(t.drop_last() =~= self.commands@.take(i as int));
            assert(t.last() == self.commands@[i as int]);
            if self.commands[i].is_listed() {
                pool.push(&self.commands[i]);
            }
            i += 1;
        }
        assert(self.commands@.take(self.commands@.len() as int) =~= self.commands@);
        let ghost all = listed_nodes(self.commands@);
        let n = pool.len();
        let mut out: Vec<&CommandNode> = Vec::new();
        let ghost mut perm: Seq<int> = seq![];
        let mut j: usize = 0;
        while j < n
            invariant
                n == all.len(),
                n == pool@.len(),
                forall|k: int| 0 <= k < pool@.len() ==> *(#[trigger] pool@[k]) == all[k],
                j <= n,
                out@.len() == j,
                perm.len() == j,
                forall|k: int| 0 <= k < perm.len() ==> *(#[trigger] out@[k]) == all[perm[k]],
                forall|k: int| 0 <= k < perm.len() ==> 0 <= #[trigger] perm[k] < j,
                forall|k: int, l: int|
                    0 <= k < perm.len() && 0 <= l < perm.len() && k != l ==> #[trigger] perm[k] != #[trigger] perm[l],
                forall|q: int| 0 <= q < j ==> #[trigger] is_hit(perm, q),
                forall|k: int, l: int|
                    0 <= k < l < perm.len() ==> listed_before(all, #[trigger] perm[k], #[trigger] perm[l]),
            decreases n - j,
        {
            let node = pool[j];
            let mut p: usize = 0;
            while p < out.len() && !listed_key_before(node, out[p])
                invariant
                    p <= out@.len(),
                    perm.len() == out@.len(),
                    *node == all[j as int],
                    forall|k: int| 0 <= k < perm.len() ==> *(#[trigger] out@[k]) == all[perm[k]],
                    forall|k: int| 0 <= k < p ==> !listed_key_less(all[j as int], #[trigger] all[perm[k]]),
                decreases out@.len() - p,
            {
                p += 1;
            }
            let ghost before = perm;
            proof {
                let jj = j as int;
                assert forall|k: int| 0 <= k < p implies listed_before(all, #[trigger] before[k], jj) by {
                    let e = before[k];
                    lemma_listed_key(all[e], all[jj], all[jj]);
                    lemma_listed_key(all[jj], all[e], all[e]);
                }
                assert forall|k: int| p <= k < before.len() implies listed_before(all, jj, #[trigger] before[k]) by {
                    let e = before[k];
                    let f = before[p as int];
                    assert(listed_key_less(all[jj], all[f]));
                    if k > p {
                        assert(listed_before(all, f, e));
                        lemma_listed_key(all[f], all[e], all[e]);
                        lemma_listed_key(all[jj], all[f], all[e]);
                        if !listed_key_less(all[f], all[e]) {
                            lemma_listed_key(all[e], all[f], all[f]);
                        }
                    }
                }
            }
            out.insert(p, node);
            proof {
                perm = before.insert(p as int, j as int);
                let jj = j as int;
                assert forall|k: int| 0 <= k < perm.len() implies *(#[trigger] out@[k]) == all[perm[k]] by {
                    if k < p {
                        assert(perm[k] == before[k]);
                    } else if k > p {
                        assert(perm[k] == before[k - 1]);
                    }
                }
                assert forall|k: int| 0 <= k < perm.len() implies 0 <= #[trigger] perm[k] < j + 1 by {
                    if k < p {
                        assert(perm[k] == before[k]);
                    } else if k > p {
                        assert(perm[k] == before[k - 1]);
                    }
                }
                assert forall|k: int, l: int| 0 <= k < l < perm.len() implies listed_before(all, #[trigger] perm[k], #[trigger] perm[l]) by {
                    if k < p && l < p {
                        assert(perm[k] == before[k] && perm[l] == before[l]);
                    } else if k < p && l == p {
                        assert(perm[k] == before[k]);
                    } else if k < p {
                        assert(perm[k] == before[k] && perm[l] == before[l - 1]);
                    } else if k == p {
                        assert(perm[l] == before[l - 1]);
                    } else {
                        assert(perm[k] == before[k - 1] && perm[l] == before[l - 1]);
                    }
                }
                assert forall|k: int, l: int|
                    0 <= k < perm.len() && 0 <= l < perm.len() && k != l implies #[trigger] perm[k] != #[trigger] perm[l] by {
                    let ok = if k < p { before[k] } else if k == p { jj } else { before[k - 1] };
                    let ol = if l < p { before[l] } else if l == p { jj } else { before[l - 1] };
                    assert(perm[k] == ok);
                    assert(perm[l] == ol);
                }
                assert forall|q: int| 0 <= q < j + 1 implies #[trigger] is_hit(perm, q) by {
                    if q == jj {
                        assert(perm[p as int] == q);
                    } else {
                        assert(is_hit(before, q));
                        let k0 = choose|k: int| 0 <= k < before.len() && before[k] == q;
                        if k0 < p {
                            assert(perm[k0] == q);
                        } else {
                            assert(perm[k0 + 1] == q);
                        }
                    }
                }
            }
            j += 1;
        }
        assert(sorts_listed(all, perm));
        assert(out@.len() == perm.len() && forall|k: int|
            0 <= k < perm.len() ==> *(#[trigger] out@[k]) == all[perm[k]]);
        out
    }
}

/// The effect of the whole set, for a summary: the strongest one present.
pub fn strongest_effect(commands: &[&CommandNode]) -> (r: Option<EffectClass>)
    ensures
        commands@.len() == 0 ==> r is None,
        commands@.len() > 0 ==> (r matches Some(e) && (exists|i: int| 0 <= i < commands@.len() && commands@[i].effect == e)
            && (forall|i: int| 0 <= i < commands@.len() ==> effect_rank(#[trigger] commands@[i].effect) <= effect_rank(e))),
{
    if commands.len() == 0 {
        return None;
    }
    let mut best = commands[0].effect;
    let mut i: usize = 1;
    while i < commands.len()
        invariant
            1 <= i <= commands@.len(),
            exists|q: int| 0 <= q < commands@.len() && commands@[q].effect == best,
            forall|q: int| 0 <= q < i ==> effect_rank(#[trigger] commands@[q].effect) <= effect_rank(best),
        decreases commands.len() - i,
    {
        if commands[i].effect.rank() > best.rank() {
            best = commands[i].effect;
        }
        i += 1;
    }
    Some(best)
}

/// Whether a command is one an unattended caller may be offered. Derived from the effect
/// and the interactivity, never configured per command and per surface.
pub fn offered_to_machines(c: &CommandNode) -> (r: bool)
    ensures
        r == (c.visibility == Visibility::Public && c.effect == EffectClass::ReadOnly && c.interactivity
            != Interactivity::TtyRequired),
{
    c.visibility == Visibility::Public && c.effect.is_read_only() && c.interactivity
        != Interactivity::TtyRequired
}

// ------------------------------------------------------------------ names resolve back

proof fn lemma_deepest_begins(cs: Seq<CommandNode>, words: Seq<Seq<char>>)
    ensures
        deepest(cs, words) matches Some(b) ==> 0 <= b < cs.len() && begins(cs[b], words),
    decreases cs.len(),
{
    if cs.len() > 0 {
        lemma_deepest_begins(cs.drop_last(), words);
        match deepest(cs.drop_last(), words) {
            Some(b) => {
                assert(cs.drop_last()[b] == cs[b]);
            },
            None => {},
        }
    }
}

proof fn lemma_deepest_unique(cs: Seq<CommandNode>, words: Seq<Seq<char>>, k: int)
    requires
        0 <= k < cs.len(),
        begins(cs[k], words),
        forall|i: int|
            0 <= i < cs.len() && i != k && #[trigger] begins(cs[i], words) ==> cs[i].path@.len() < cs[k].path@.len(),
    ensures
        deepest(cs, words) == Some(k),
    decreases cs.len(),
{
    let init = cs.drop_last();
    lemma_deepest_begins(init, words);
    if k == cs.len() - 1 {
        match deepest(init, words) {
            Some(b) => {
                assert(init[b] == cs[b]);
            },
            None => {},
        }
    } else {
        assert forall|i: int| 0 <= i < init.len() && i != k && #[trigger] begins(init[i], words) implies init[i].path@.len()
            < init[k].path@.len() by {
            assert(init[i] == cs[i]);
        }
        assert(init[k] == cs[k]);
        lemma_deepest_unique(init, words, k);
    }
}

proof fn lemma_prefixed_cancel(p: Seq<char>, x: Seq<char>, y: Seq<char>)
    requires
        p + x == p + y,
    ensures
        x == y,
{
    assert((p + x).skip(p.len() as int) =~= x);
    assert((p + y).skip(p.len() as int) =~= y);
}

/// Every surface name resolves back to the same command. In a graph composed from commands
/// of pairwise distinct identities, whose aliases the projection can carry and whose native
/// commands have pairwise distinct paths, the first command the bridge answers a command's
/// recipe name with is that command, so is the first the Cockpit answers its action with,
/// and the deepest native command its own path begins is that command: what
/// [`CommandGraph::resolve`] gives back for each surface.
#[verifier::rlimit(40)]
pub proof fn law_every_surface_name_resolves_back_to_the_same_command(
    contributed: Seq<CommandNode>,
    findings: Seq<Diagnostic>,
    facts: Facts,
    version: Seq<char>,
    perm: Seq<int>,
    g: CommandGraph,
    k: int,
)
    requires
        composed(contributed, findings, facts, version, perm, g),
        aliases_are_names(contributed),
        forall|i: int, j: int| 0 <= i < j < contributed.len() ==> (#[trigger] contributed[i]).id@ != (#[trigger] contributed[j]).id@,
        forall|i: int, j: int|
            0 <= i < j < contributed.len() && (#[trigger] contributed[i]).program == Program::Native
                && (#[trigger] contributed[j]).program == Program::Native ==> views(contributed[i].path@) != views(
                contributed[j].path@,
            ),
        0 <= k < g.commands@.len(),
    ensures
        g.commands@[k].projections.just matches Some(n) ==> first_where(g.commands@, answers_just(n@)) == k,
        g.commands@[k].projections.cockpit matches Some(a) ==> first_where(g.commands@, answers_cockpit(a@)) == k,
        g.commands@[k].program == Program::Native ==> deepest(g.commands@, views(g.commands@[k].path@)) == Some(k),
{
    let cs = g.commands@;
    let s = rearranged(contributed, perm);
    assert forall|i: int, j: int| 0 <= i < s.len() && 0 <= j < s.len() && i != j implies (#[trigger] s[i]).id@ != (
    #[trigger] s[j]).id@ && (s[i].program == Program::Native && s[j].program == Program::Native ==> views(s[i].path@)
        != views(s[j].path@)) by {
        let (a, b) = if perm[i] < perm[j] { (perm[i], perm[j]) } else { (perm[j], perm[i]) };
        assert(perm[i] != perm[j]);
        assert(contributed[a].id@ != contributed[b].id@);
    }
    assert forall|i: int| 0 <= i < cs.len() implies same_declaration(#[trigger] cs[i], s[i]) by {}
    let order = choose|order: Seq<usize>| crate::command::projection::is_visit_order(s, order);
    assert(crate::command::projection::is_visit_order(s, order));
    assert(crate::command::projection::names_given(s, order, cs));
    let infos = crate::command::projection::visit_infos(s, order);
    let r = crate::command::projection::recipe_pass(infos);
    let al = crate::command::projection::aliases_pass(infos, r.taken);
    assert forall|i: int, j: int|
        0 <= i < infos.len() && 0 <= j < infos[i].aliases.len() implies crate::command::projection::recipe_name(
            #[trigger] infos[i].aliases[j],
        ) && !crate::command::projection::reserved(infos[i].aliases[j]) by {
        let o = order[i] as int;
        assert(s[o] == contributed[perm[o]]);
        assert(infos[i].aliases[j] == s[o].aliases@[j].name@);
    }
    assert forall|i: int, j: int| 0 <= i < j < infos.len() implies (#[trigger] infos[i]).id != (#[trigger] infos[j]).id by {
        assert(order[i] != order[j]);
    }
    crate::command::projection::law_no_name_is_given_to_two_commands(infos);
    // every command's position in the order of visit
    assert(crate::command::projection::appears(order, k));
    let mk = choose|m: int| 0 <= m < order.len() && order[m] == k;
    assert(crate::command::projection::named(infos[mk], r.names[mk], cs[k].projections));
    if let Some(n) = cs[k].projections.just {
        assert forall|j: int| 0 <= j < k implies !(#[trigger] answers_just(n@)(cs[j])) by {
            assert(crate::command::projection::appears(order, j));
            let mj = choose|m: int| 0 <= m < order.len() && order[m] == j;
            assert(crate::command::projection::named(infos[mj], r.names[mj], cs[j].projections));
            assert(views(cs[j].projections.just_aliases@) == al.kept[mj]);
            if cs[j].projections.just matches Some(x) && x@ == n@ {
                assert(r.names[mj] == r.names[mk]);
                assert(mj == mk);
            }
            if views(cs[j].projections.just_aliases@).contains(n@) {
                let x = choose|x: int| 0 <= x < al.kept[mj].len() && al.kept[mj][x] == n@;
                assert(r.names[mk] == Some(al.kept[mj][x]));
                assert(mj == mk);
            }
        }
        assert(answers_just(n@)(cs[k]));
        lemma_first_where(cs, answers_just(n@), k);
    }
    if let Some(a) = cs[k].projections.cockpit {
        assert forall|j: int| 0 <= j < k implies !(#[trigger] answers_cockpit(a@)(cs[j])) by {
            assert(crate::command::projection::appears(order, j));
            let mj = choose|m: int| 0 <= m < order.len() && order[m] == j;
            assert(crate::command::projection::named(infos[mj], r.names[mj], cs[j].projections));
            if cs[j].projections.cockpit matches Some(x) && x@ == a@ {
                lemma_prefixed_cancel("command/"@, infos[mj].id, infos[mk].id);
                assert(s[j].id@ == s[k].id@);
            }
        }
        assert(answers_cockpit(a@)(cs[k]));
        lemma_first_where(cs, answers_cockpit(a@), k);
    }
    if cs[k].program == Program::Native {
        let w = views(cs[k].path@);
        assert(w.take(cs[k].path@.len() as int) =~= w);
        assert forall|i: int| 0 <= i < cs.len() && i != k && #[trigger] begins(cs[i], w) implies cs[i].path@.len() < cs[k].path@.len() by {
            if cs[i].path@.len() == cs[k].path@.len() {
                assert(views(cs[i].path@) =~= views(cs[k].path@));
            }
        }
        lemma_deepest_unique(cs, w, k);
    }
}

} // verus!
