//! One completion engine, for every surface.
//!
//! A shell adapter's whole job is to say where the cursor is and to render what comes
//! back. It parses no command, knows no argument, holds no list of values and never grows
//! when a command is added. Everything else happens here, over the canonical graph: the
//! surface's name is resolved back to a command, the command's own arguments say what may
//! follow, and the values come from the registries that own them.

use vstd::prelude::*;

use crate::command::activate::{starts, starts_with};
use crate::command::graph::{
    answers_cockpit, answers_just, deepest, first_where, listed_nodes, sorts_listed, CommandGraph,
    Surface,
};
use crate::command::model::{
    bare_word, first_answering, ArgumentSpec, CommandId, CommandNode, EnumValue, Program,
    Sensitivity, ValueSource, Visibility,
};
use crate::command::projection::{
    is_hit, is_rearrangement, lemma_text_less_irreflexive, lemma_text_less_total,
    lemma_text_less_transitive, text_before, text_less,
};
use crate::command::values::{filed, may_offer, Candidate, ValueIndex};
use crate::strings::{push_char, push_str, str_eq, views};

verus! {

// ------------------------------------------------------------------ sanitising

/// A control character (the general category `Cc`).
pub open spec fn is_control(c: char) -> bool {
    (c as u32) <= 0x1f || (0x7f <= (c as u32) && (c as u32) <= 0x9f)
}

/// A Unicode bidirectional or interlinear control: it reorders or hides what follows it
/// in a terminal as effectively as an escape sequence does.
pub open spec fn is_bidi(c: char) -> bool {
    (0x200e <= (c as u32) && (c as u32) <= 0x200f) || (0x202a <= (c as u32) && (c as u32)
        <= 0x202e) || (0x2066 <= (c as u32) && (c as u32) <= 0x2069)
}

/// Unicode white space (`char::is_whitespace`).
pub open spec fn is_white(c: char) -> bool {
    let u = c as u32;
    (0x09 <= u && u <= 0x0d) || u == 0x20 || u == 0x85 || u == 0xa0 || u == 0x1680 || (0x2000
        <= u && u <= 0x200a) || u == 0x2028 || u == 0x2029 || u == 0x202f || u == 0x205f || u
        == 0x3000
}

/// What one character of a description becomes: a line break or a tab is a space, any
/// other control or bidirectional control is dropped, and everything else stays.
pub open spec fn cleaned_char(c: char) -> Option<char> {
    if c == '\n' || c == '\r' || c == '\t' {
        Some(' ')
    } else if is_control(c) || is_bidi(c) {
        None
    } else {
        Some(c)
    }
}

/// A description with every character cleaned.
pub open spec fn cleaned(s: Seq<char>) -> Seq<char>
    decreases s.len(),
{
    if s.len() == 0 {
        seq![]
    } else {
        match cleaned_char(s.last()) {
            Some(c) => cleaned(s.drop_last()).push(c),
            None => cleaned(s.drop_last()),
        }
    }
}

/// The words of a text joined by one space, read left to right: the text so far, and
/// whether white space is waiting to become a space before the next word.
pub open spec fn words_joined(s: Seq<char>) -> (Seq<char>, bool)
    decreases s.len(),
{
    if s.len() == 0 {
        (seq![], false)
    } else {
        let (out, pending) = words_joined(s.drop_last());
        let c = s.last();
        if is_white(c) {
            (out, out.len() > 0)
        } else if pending {
            (out.push(' ').push(c), false)
        } else {
            (out.push(c), false)
        }
    }
}

/// What a description becomes on a terminal: cleaned, then its words joined by single
/// spaces; nothing when no word is left.
pub open spec fn sanitised_description(s: Seq<char>) -> Option<Seq<char>> {
    let out = words_joined(cleaned(s)).0;
    if out.len() == 0 {
        None
    } else {
        Some(out)
    }
}

fn char_is_white(c: char) -> (r: bool)
    ensures
        r == is_white(c),
{
    let u = c as u32;
    (0x09 <= u && u <= 0x0d) || u == 0x20 || u == 0x85 || u == 0xa0 || u == 0x1680 || (0x2000
        <= u && u <= 0x200a) || u == 0x2028 || u == 0x2029 || u == 0x202f || u == 0x205f || u
        == 0x3000
}

fn clean_char(c: char) -> (r: Option<char>)
    ensures
        r == cleaned_char(c),
{
    let u = c as u32;
    if c == '\n' || c == '\r' || c == '\t' {
        Some(' ')
    } else if u <= 0x1f || (0x7f <= u && u <= 0x9f) || (0x200e <= u && u <= 0x200f) || (0x202a
        <= u && u <= 0x202e) || (0x2066 <= u && u <= 0x2069) {
        None
    } else {
        Some(c)
    }
}

/// A description a terminal will print as text and nothing else: no escape sequence, no
/// newline, no tab, no other control character. Repository metadata reaches a terminal
/// through here, and a title that tried to move the cursor arrives as ordinary words.
pub fn sanitise(text: &str) -> (r: Option<String>)
    ensures
        match sanitised_description(text@) {
            Some(s) => r matches Some(x) && x@ == s,
            None => r is None,
        },
{
    let n = text.unicode_len();
    let mut kept: Vec<char> = Vec::new();
    let mut i: usize = 0;
    while i < n
        invariant
            n == text@.len(),
            i <= n,
            kept@ == cleaned(text@.subrange(0, i as int)),
        decreases n - i,
    {
        let c = text.get_char(i);
        let ghost sub = text@.subrange(0, i + 1);
        assert(sub.drop_last() =~= text@.subrange(0, i as int));
        assert(sub.last() == c);
        match clean_char(c) {
            Some(d) => kept.push(d),
            None => {},
        }
        i += 1;
    }
    assert(text@.subrange(0, n as int) =~= text@);
    let mut out = String::new();
    let mut pending = false;
    let mut j: usize = 0;
    while j < kept.len()
        invariant
            j <= kept@.len(),
            (out@, pending) == words_joined(kept@.subrange(0, j as int)),
        decreases kept.len() - j,
    {
        let c = kept[j];
        let ghost sub = kept@.subrange(0, j + 1);
        assert(sub.drop_last() =~= kept@.subrange(0, j as int));
        assert(sub.last() == c);
        if char_is_white(c) {
            pending = out.unicode_len() > 0;
        } else {
            if pending {
                push_char(&mut out, ' ');
            }
            push_char(&mut out, c);
            pending = false;
        }
        j += 1;
    }
    assert(kept@.subrange(0, kept@.len() as int) =~= kept@);
    if out.unicode_len() == 0 {
        None
    } else {
        Some(out)
    }
}

proof fn lemma_cleaned_chars(s: Seq<char>)
    ensures
        forall|i: int|
            0 <= i < cleaned(s).len() ==> !is_control(#[trigger] cleaned(s)[i]) && !is_bidi(
                cleaned(s)[i],
            ),
    decreases s.len(),
{
    if s.len() > 0 {
        lemma_cleaned_chars(s.drop_last());
        assert forall|i: int| 0 <= i < cleaned(s).len() implies !is_control(
            #[trigger] cleaned(s)[i],
        ) && !is_bidi(cleaned(s)[i]) by {
            if i < cleaned(s.drop_last()).len() {
                assert(cleaned(s)[i] == cleaned(s.drop_last())[i]);
            }
        }
    }
}

proof fn lemma_words_joined(s: Seq<char>)
    requires
        forall|i: int| 0 <= i < s.len() ==> !is_control(#[trigger] s[i]) && !is_bidi(s[i]),
    ensures
        forall|i: int|
            0 <= i < words_joined(s).0.len() ==> !is_control(#[trigger] words_joined(s).0[i])
                && !is_bidi(words_joined(s).0[i]),
        words_joined(s).0.len() > 0 ==> !is_white(words_joined(s).0[0]) && !is_white(
            words_joined(s).0.last(),
        ),
        words_joined(s).1 ==> words_joined(s).0.len() > 0,
    decreases s.len(),
{
    if s.len() > 0 {
        let t = s.drop_last();
        assert forall|i: int| 0 <= i < t.len() implies !is_control(#[trigger] t[i]) && !is_bidi(t[i]) by {
            assert(t[i] == s[i]);
        }
        lemma_words_joined(t);
        let (out, pending) = words_joined(t);
        let c = s.last();
        assert(c == s[s.len() - 1]);
        let r = words_joined(s).0;
        assert forall|i: int| 0 <= i < r.len() implies !is_control(#[trigger] r[i]) && !is_bidi(r[i]) by {
            if i < out.len() {
                assert(r[i] == out[i]);
            }
        }
        if r.len() > 0 && out.len() > 0 {
            assert(r[0] == out[0]);
        }
    }
}

/// What reaches a terminal through the sanitiser holds no control character (no escape,
/// no newline, no tab) and no bidirectional control, and neither begins nor ends with
/// white space.
pub proof fn law_a_description_holds_nothing_a_terminal_would_act_on(text: Seq<char>)
    ensures
        sanitised_description(text) matches Some(s) ==> {
            &&& forall|i: int| 0 <= i < s.len() ==> !is_control(#[trigger] s[i]) && !is_bidi(s[i])
            &&& !is_white(s[0]) && !is_white(s.last())
        },
{
    lemma_cleaned_chars(text);
    lemma_words_joined(cleaned(text));
}


/// A value as a shell may take it: without control characters or bidirectional controls.
/// A value read from an index file or a declaration can hold any text, and a tab or a line
/// break in it would split the one line a candidate is written on.
pub open spec fn plain(s: Seq<char>) -> Seq<char>
    decreases s.len(),
{
    if s.len() == 0 {
        seq![]
    } else if is_control(s.last()) || is_bidi(s.last()) {
        plain(s.drop_last())
    } else {
        plain(s.drop_last()).push(s.last())
    }
}

proof fn lemma_plain(s: Seq<char>)
    ensures
        forall|i: int| 0 <= i < plain(s).len() ==> !is_control(#[trigger] plain(s)[i]) && !is_bidi(plain(s)[i]),
    decreases s.len(),
{
    if s.len() > 0 {
        lemma_plain(s.drop_last());
        assert forall|i: int| 0 <= i < plain(s).len() implies !is_control(#[trigger] plain(s)[i]) && !is_bidi(
            plain(s)[i],
        ) by {
            if i < plain(s.drop_last()).len() {
                assert(plain(s)[i] == plain(s.drop_last())[i]);
            }
        }
    }
}

fn plain_text(text: &str) -> (r: String)
    ensures
        r@ == plain(text@),
{
    let n = text.unicode_len();
    let mut out = String::new();
    let mut i: usize = 0;
    while i < n
        invariant
            n == text@.len(),
            i <= n,
            out@ == plain(text@.subrange(0, i as int)),
        decreases n - i,
    {
        let c = text.get_char(i);
        let ghost sub = text@.subrange(0, i + 1);
        assert(sub.drop_last() =~= text@.subrange(0, i as int));
        assert(sub.last() == c);
        let u = c as u32;
        if !(u <= 0x1f || (0x7f <= u && u <= 0x9f) || (0x200e <= u && u <= 0x200f) || (0x202a <= u && u <= 0x202e)
            || (0x2066 <= u && u <= 0x2069)) {
            push_char(&mut out, c);
        }
        assert(out@ =~= plain(sub));
        i += 1;
    }
    assert(text@.subrange(0, n as int) =~= text@);
    out
}

// ------------------------------------------------------------------ the answer

/// The schema of a completion answer.
pub const SCHEMA: &'static str = "majordomus/completion/v1";

/// The most candidates an answer carries. A shell that is handed ten thousand values is
/// slower than one that is handed none, and no menu of that size is read by anyone.
pub const LIMIT: usize = 500;

/// What kind of thing a candidate is, so that a shell can group and decorate it.
#[derive(Debug, Clone, Copy, PartialEq, Eq, Structural, PartialOrd, Ord)]
pub enum CompletionKind {
    /// A command or a recipe.
    Command,
    /// A name a command also answers to.
    Alias,
    /// An option, with its dashes.
    Flag,
    /// A value of an argument.
    Value,
    /// Not a value but an instruction: complete a filesystem path here. The shell already
    /// knows how to do that better than any engine could, quoting and `~` included.
    Path,
    /// The same, restricted to directories.
    Directory,
}

/// One thing a person could type next.
#[derive(Debug, Clone, PartialEq, Eq)]
pub struct CompletionCandidate {
    /// The text to insert.
    pub value: String,
    /// What the menu shows; the value itself unless something clearer exists.
    pub display: String,
    /// The line beside it, sanitised of anything a terminal would act on.
    pub description: Option<String>,
    /// What it is.
    pub kind: CompletionKind,
    /// Whether a space belongs after it.
    pub append_space: bool,
    /// Lower sorts first. Set by the engine's one ordering rule, never by an adapter.
    pub priority: i32,
}

/// A candidate as the contracts see it.
pub struct CandidateModel {
    pub value: Seq<char>,
    pub display: Seq<char>,
    pub description: Option<Seq<char>>,
    pub kind: CompletionKind,
    pub append_space: bool,
    pub priority: int,
}

/// The model of a candidate.
pub open spec fn model_of(c: CompletionCandidate) -> CandidateModel {
    CandidateModel {
        value: c.value@,
        display: c.display@,
        description: crate::cockpit::nav::opt_text(c.description),
        kind: c.kind,
        append_space: c.append_space,
        priority: c.priority as int,
    }
}

/// The models of some candidates.
pub open spec fn models(cs: Seq<CompletionCandidate>) -> Seq<CandidateModel> {
    cs.map_values(|c: CompletionCandidate| model_of(c))
}

/// Is a candidate an instruction to the shell rather than a value?
pub open spec fn is_directive(k: CompletionKind) -> bool {
    k == CompletionKind::Path || k == CompletionKind::Directory
}

/// What a command's line says: its summary, why it cannot run here, and why it should no
/// longer be used.
pub open spec fn command_text(node: CommandNode) -> Seq<char> {
    let base = node.summary@;
    let a = match node.availability.reason {
        Some(r) => base + " — unavailable: "@ + r@,
        None => base,
    };
    match node.deprecation {
        Some(d) => a + " — deprecated: "@ + d.note@,
        None => a,
    }
}

/// The one ordering rule for commands: a runnable command first, then an alias, then a
/// deprecated name, then one that cannot run here.
pub open spec fn command_priority(node: CommandNode, kind: CompletionKind) -> int {
    if !node.availability.available {
        30
    } else if node.deprecation is Some {
        20
    } else if kind == CompletionKind::Command {
        0
    } else {
        10
    }
}

/// A command offered under a name.
pub open spec fn command_candidate(node: CommandNode, name: Seq<char>, kind: CompletionKind) -> CandidateModel {
    CandidateModel {
        value: plain(name),
        display: plain(name),
        description: sanitised_description(command_text(node)),
        kind,
        append_space: true,
        priority: command_priority(node, kind),
    }
}

/// An option, offered with its dashes.
pub open spec fn flag_candidate(long: Seq<char>, arg: ArgumentSpec) -> CandidateModel {
    CandidateModel {
        value: plain("--"@ + long),
        display: plain("--"@ + long),
        description: sanitised_description(arg.help@),
        kind: CompletionKind::Flag,
        append_space: true,
        priority: 40,
    }
}

/// A value of an argument, as a shell may take it.
pub open spec fn value_candidate(value: Seq<char>, description: Option<Seq<char>>) -> CandidateModel {
    CandidateModel {
        value: plain(value),
        display: plain(value),
        description: match description {
            Some(d) => sanitised_description(d),
            None => None,
        },
        kind: CompletionKind::Value,
        append_space: true,
        priority: 5,
    }
}

/// The instruction to complete a path.
pub open spec fn path_candidate(directories_only: bool) -> CandidateModel {
    CandidateModel {
        value: seq![],
        display: if directories_only { "<directory>"@ } else { "<path>"@ },
        description: Some("a path; the shell completes it"@),
        kind: if directories_only { CompletionKind::Directory } else { CompletionKind::Path },
        append_space: false,
        priority: 50,
    }
}

fn push_command(out: &mut Vec<CompletionCandidate>, node: &CommandNode, name: &str, kind: CompletionKind)
    ensures
        models(final(out)@) == models(old(out)@).push(command_candidate(*node, name@, kind)),
{
    let mut text = String::from_str(node.summary.as_str());
    match &node.availability.reason {
        Some(r) => {
            push_str(&mut text, " — unavailable: ");
            push_str(&mut text, r.as_str());
        },
        None => {},
    }
    match &node.deprecation {
        Some(d) => {
            push_str(&mut text, " — deprecated: ");
            push_str(&mut text, d.note.as_str());
        },
        None => {},
    }
    let priority: i32 = if !node.availability.available {
        30
    } else if node.deprecation.is_some() {
        20
    } else if kind == CompletionKind::Command {
        0
    } else {
        10
    };
    let v = plain_text(name);
    let c = CompletionCandidate {
        value: String::from_str(v.as_str()),
        display: v,
        description: sanitise(text.as_str()),
        kind,
        append_space: true,
        priority,
    };
    out.push(c);
    assert(models(out@) =~= models(old(out)@).push(command_candidate(*node, name@, kind)));
}

fn push_flag(out: &mut Vec<CompletionCandidate>, long: &str, arg: &ArgumentSpec)
    ensures
        models(final(out)@) == models(old(out)@).push(flag_candidate(long@, *arg)),
{
    let mut name = String::from_str("--");
    push_str(&mut name, long);
    let v = plain_text(name.as_str());
    let c = CompletionCandidate {
        value: String::from_str(v.as_str()),
        display: v,
        description: sanitise(arg.help.as_str()),
        kind: CompletionKind::Flag,
        append_space: true,
        priority: 40,
    };
    out.push(c);
    assert(models(out@) =~= models(old(out)@).push(flag_candidate(long@, *arg)));
}

fn push_value(out: &mut Vec<CompletionCandidate>, value: &str, description: &Option<String>)
    ensures
        models(final(out)@) == models(old(out)@).push(
            value_candidate(value@, crate::cockpit::nav::opt_text(*description)),
        ),
{
    let d = match description {
        Some(t) => sanitise(t.as_str()),
        None => None,
    };
    let v = plain_text(value);
    let c = CompletionCandidate {
        value: String::from_str(v.as_str()),
        display: v,
        description: d,
        kind: CompletionKind::Value,
        append_space: true,
        priority: 5,
    };
    out.push(c);
    assert(models(out@) =~= models(old(out)@).push(
        value_candidate(value@, crate::cockpit::nav::opt_text(*description)),
    ));
}

fn push_path(out: &mut Vec<CompletionCandidate>, directories_only: bool)
    ensures
        models(final(out)@) == models(old(out)@).push(path_candidate(directories_only)),
{
    let c = CompletionCandidate {
        value: String::new(),
        display: if directories_only { String::from_str("<directory>") } else { String::from_str("<path>") },
        description: Some(String::from_str("a path; the shell completes it")),
        kind: if directories_only { CompletionKind::Directory } else { CompletionKind::Path },
        append_space: false,
        priority: 50,
    };
    out.push(c);
    assert(models(out@) =~= models(old(out)@).push(path_candidate(directories_only)));
}

fn copy_candidate(c: &CompletionCandidate) -> (r: CompletionCandidate)
    ensures
        model_of(r) == model_of(*c),
{
    CompletionCandidate {
        value: String::from_str(c.value.as_str()),
        display: String::from_str(c.display.as_str()),
        description: match &c.description {
            Some(d) => Some(String::from_str(d.as_str())),
            None => None,
        },
        kind: c.kind,
        append_space: c.append_space,
        priority: c.priority,
    }
}

// ------------------------------------------------------------------ finishing an answer

/// Does a candidate survive what was typed: it begins with it, or it is an instruction.
pub open spec fn survives(c: CandidateModel, prefix: Seq<char>) -> bool {
    is_directive(c.kind) || starts(c.value, prefix)
}

/// The candidates that survive what was typed, in the order they were gathered.
pub open spec fn kept_of(g: Seq<CandidateModel>, prefix: Seq<char>) -> Seq<CandidateModel>
    decreases g.len(),
{
    if g.len() == 0 {
        seq![]
    } else if survives(g.last(), prefix) {
        kept_of(g.drop_last(), prefix).push(g.last())
    } else {
        kept_of(g.drop_last(), prefix)
    }
}

/// The one ordering key: priority, then value.
pub open spec fn key_less(a: CandidateModel, b: CandidateModel) -> bool {
    a.priority < b.priority || (a.priority == b.priority && text_less(a.value, b.value))
}

/// Does one gathered candidate come before another: by the key, then by when it was
/// gathered (the sort is stable).
pub open spec fn candidate_before(v: Seq<CandidateModel>, i: int, j: int) -> bool {
    key_less(v[i], v[j]) || (v[i].priority == v[j].priority && v[i].value == v[j].value && i < j)
}

/// A stable ordering of candidates by the key.
pub open spec fn sorts_candidates(v: Seq<CandidateModel>, perm: Seq<int>) -> bool {
    &&& is_rearrangement(perm, v.len() as int)
    &&& forall|k: int, l: int|
        0 <= k < l < perm.len() ==> candidate_before(v, #[trigger] perm[k], #[trigger] perm[l])
}

/// Candidates taken in the order a rearrangement gives.
pub open spec fn permuted(v: Seq<CandidateModel>, perm: Seq<int>) -> Seq<CandidateModel> {
    Seq::new(perm.len(), |k: int| v[perm[k]])
}

/// Are two candidates the same offer: one value of one kind?
pub open spec fn same_offer(a: CandidateModel, b: CandidateModel) -> bool {
    a.value == b.value && a.kind == b.kind
}

/// An ordered list with each run of the same offer kept once, at its first.
pub open spec fn deduped(s: Seq<CandidateModel>) -> Seq<CandidateModel>
    decreases s.len(),
{
    if s.len() <= 1 {
        s
    } else if same_offer(s[s.len() - 2], s.last()) {
        deduped(s.drop_last())
    } else {
        deduped(s.drop_last()).push(s.last())
    }
}

/// At most the limit, from the front.
pub open spec fn truncated(s: Seq<CandidateModel>) -> Seq<CandidateModel> {
    if s.len() <= LIMIT {
        s
    } else {
        s.take(LIMIT as int)
    }
}

/// The answer the gathered candidates give: what survives the prefix, in the one order,
/// each offer once, at most the limit.
pub open spec fn answered(g: Seq<CandidateModel>, prefix: Seq<char>, out: Seq<CandidateModel>) -> bool {
    exists|perm: Seq<int>|
        sorts_candidates(kept_of(g, prefix), perm) && out == truncated(deduped(#[trigger] permuted(kept_of(g, prefix), perm)))
}

proof fn lemma_key(a: CandidateModel, b: CandidateModel, c: CandidateModel)
    ensures
        !key_less(a, a),
        !(key_less(a, b) && key_less(b, a)),
        key_less(a, b) && key_less(b, c) ==> key_less(a, c),
        !key_less(a, b) && !key_less(b, a) ==> a.priority == b.priority && a.value == b.value,
{
    lemma_text_less_irreflexive(a.value);
    if text_less(a.value, b.value) && text_less(b.value, a.value) {
        lemma_text_less_transitive(a.value, b.value, a.value);
    }
    if text_less(a.value, b.value) && text_less(b.value, c.value) {
        lemma_text_less_transitive(a.value, b.value, c.value);
    }
    if a.priority == b.priority && a.value != b.value {
        lemma_text_less_total(a.value, b.value);
    }
}

fn key_before(a: &CompletionCandidate, b: &CompletionCandidate) -> (r: bool)
    ensures
        r == key_less(model_of(*a), model_of(*b)),
{
    a.priority < b.priority || (a.priority == b.priority && text_before(a.value.as_str(), b.value.as_str()))
}

fn keep_surviving(cands: &Vec<CompletionCandidate>, prefix: &str) -> (r: Vec<CompletionCandidate>)
    ensures
        models(r@) == kept_of(models(cands@), prefix@),
{
    let mut r: Vec<CompletionCandidate> = Vec::new();
    for i in 0..cands.len()
        invariant
            models(r@) == kept_of(models(cands@).take(i as int), prefix@),
    {
        let c = &cands[i];
        let ghost t = models(cands@).take(i + 1);
        assert(t.drop_last() =~= models(cands@).take(i as int));
        assert(t.last() == model_of(*c));
        let directive = c.kind == CompletionKind::Path || c.kind == CompletionKind::Directory;
        if directive || starts_with(c.value.as_str(), prefix) {
            r.push(copy_candidate(c));
            assert(models(r@) =~= models(r@.drop_last()).push(model_of(r@.last())));
        }
    }
    assert(models(cands@).take(cands@.len() as int) =~= models(cands@));
    r
}

/// The order of the kept candidates, as positions.
fn sort_positions(v: &Vec<CompletionCandidate>) -> (r: Vec<usize>)
    ensures
        sorts_candidates(models(v@), r@.map_values(|x: usize| x as int)),
{
    let ghost all = models(v@);
    let n = v.len();
    let mut out: Vec<usize> = Vec::new();
    let ghost mut perm: Seq<int> = seq![];
    let mut j: usize = 0;
    while j < n
        invariant
            n == v@.len(),
            all == models(v@),
            j <= n,
            out@.len() == j,
            perm.len() == j,
            forall|k: int| 0 <= k < perm.len() ==> #[trigger] perm[k] == out@[k] as int,
            forall|k: int| 0 <= k < perm.len() ==> 0 <= #[trigger] perm[k] < j,
            forall|k: int, l: int|
                0 <= k < perm.len() && 0 <= l < perm.len() && k != l ==> #[trigger] perm[k] != #[trigger] perm[l],
            forall|q: int| 0 <= q < j ==> #[trigger] is_hit(perm, q),
            forall|k: int, l: int| 0 <= k < l < perm.len() ==> candidate_before(all, #[trigger] perm[k], #[trigger] perm[l]),
        decreases n - j,
    {
        let mut p: usize = 0;
        assert forall|k: int| 0 <= k < out@.len() implies #[trigger] out@[k] < j by {
            assert(perm[k] == out@[k] as int);
        }
        while p < out.len() && !key_before(&v[j], &v[out[p]])
            invariant
                p <= out@.len(),
                j < n,
                n == v@.len(),
                all == models(v@),
                perm.len() == out@.len(),
                forall|k: int| 0 <= k < perm.len() ==> #[trigger] perm[k] == out@[k] as int,
                forall|k: int| 0 <= k < perm.len() ==> 0 <= #[trigger] perm[k] < j,
                forall|k: int| 0 <= k < out@.len() ==> #[trigger] out@[k] < j,
                forall|k: int| 0 <= k < p ==> !key_less(all[j as int], #[trigger] all[perm[k]]),
            decreases out@.len() - p,
        {
            assert(perm[p as int] == out@[p as int] as int);
            p += 1;
        }
        let ghost before = perm;
        proof {
            let jj = j as int;
            if p < out@.len() {
                assert(perm[p as int] == out@[p as int] as int);
            }
            assert forall|k: int| 0 <= k < p implies candidate_before(all, #[trigger] before[k], jj) by {
                let e = before[k];
                lemma_key(all[e], all[jj], all[jj]);
                lemma_key(all[jj], all[e], all[e]);
            }
            assert forall|k: int| p <= k < before.len() implies candidate_before(all, jj, #[trigger] before[k]) by {
                let e = before[k];
                let f = before[p as int];
                assert(key_less(all[jj], all[f]));
                if k > p {
                    assert(candidate_before(all, f, e));
                    lemma_key(all[f], all[e], all[e]);
                    lemma_key(all[jj], all[f], all[e]);
                    if !key_less(all[f], all[e]) {
                        lemma_key(all[e], all[f], all[f]);
                    }
                }
            }
        }
        out.insert(p, j);
        proof {
            perm = before.insert(p as int, j as int);
            let jj = j as int;
            assert forall|k: int| 0 <= k < perm.len() implies #[trigger] perm[k] == out@[k] as int by {
                if k < p {
                    assert(perm[k] == before[k]);
                } else if k > p {
                    assert(perm[k] == before[k - 1]);
                }
            }
            assert forall|k: int| 0 <= k < perm.len() implies 0 <= #[trigger] perm[k] < j + 1 by {
                if k < p {
                    assert(perm[k] == before[k]);
                } else if k > p {
                    assert(perm[k] == before[k - 1]);
                }
            }
            assert forall|k: int, l: int| 0 <= k < l < perm.len() implies candidate_before(all, #[trigger] perm[k], #[trigger] perm[l]) by {
                if k < p && l < p {
                    assert(perm[k] == before[k] && perm[l] == before[l]);
                } else if k < p && l == p {
                    assert(perm[k] == before[k]);
                } else if k < p {
                    assert(perm[k] == before[k] && perm[l] == before[l - 1]);
                } else if k == p {
                    assert(perm[l] == before[l - 1]);
                } else {
                    assert(perm[k] == before[k - 1] && perm[l] == before[l - 1]);
                }
            }
            assert forall|k: int, l: int|
                0 <= k < perm.len() && 0 <= l < perm.len() && k != l implies #[trigger] perm[k] != #[trigger] perm[l] by {
                let ok = if k < p { before[k] } else if k == p { jj } else { before[k - 1] };
                let ol = if l < p { before[l] } else if l == p { jj } else { before[l - 1] };
                assert(perm[k] == ok);
                assert(perm[l] == ol);
            }
            assert forall|q: int| 0 <= q < j + 1 implies #[trigger] is_hit(perm, q) by {
                if q == jj {
                    assert(perm[p as int] == q);
                } else {
                    assert(is_hit(before, q));
                    let k0 = choose|k: int| 0 <= k < before.len() && before[k] == q;
                    if k0 < p {
                        assert(perm[k0] == q);
                    } else {
                        assert(perm[k0 + 1] == q);
                    }
                }
            }
        }
        j += 1;
    }
    assert(out@.map_values(|x: usize| x as int) =~= perm);
    out
}

/// Put the gathered candidates in their final form: what survives the prefix, in the one
/// order, each offer once, at most the limit.
fn finish(cands: &Vec<CompletionCandidate>, prefix: &str) -> (r: Vec<CompletionCandidate>)
    ensures
        answered(models(cands@), prefix@, models(r@)),
{
    let kept = keep_surviving(cands, prefix);
    let order = sort_positions(&kept);
    let ghost perm = order@.map_values(|x: usize| x as int);
    let ghost all = models(kept@);
    let ghost s = permuted(all, perm);
    assert forall|k: int| 0 <= k < order@.len() implies 0 <= #[trigger] order@[k] < kept@.len() by {
        assert(perm[k] == order@[k] as int);
    }
    let mut out: Vec<CompletionCandidate> = Vec::new();
    for i in 0..order.len()
        invariant
            order@.len() == kept@.len(),
            perm == order@.map_values(|x: usize| x as int),
            all == models(kept@),
            s == permuted(all, perm),
            forall|k: int| 0 <= k < order@.len() ==> 0 <= #[trigger] order@[k] < kept@.len(),
            models(out@) == deduped(s.take(i as int)),
    {
        let ghost t = s.take(i + 1);
        assert(t.drop_last() =~= s.take(i as int));
        let cur = &kept[order[i]];
        assert(s[i as int] == model_of(*cur));
        let fresh = if i == 0 {
            true
        } else {
            let prev = &kept[order[i - 1]];
            assert(s[i - 1] == model_of(*prev));
            !(str_eq(prev.value.as_str(), cur.value.as_str()) && prev.kind == cur.kind)
        };
        if fresh {
            out.push(copy_candidate(cur));
            assert(models(out@) =~= models(out@.drop_last()).push(model_of(out@.last())));
        }
        proof {
            if i > 0 {
                assert(t[t.len() - 2] == s[i - 1]);
            }
        }
    }
    assert(s.take(order@.len() as int) =~= s);
    let ghost d = models(out@);
    out.truncate(LIMIT);
    proof {
        if d.len() <= LIMIT {
            assert(models(out@) =~= d);
        } else {
            assert(models(out@) =~= d.take(LIMIT as int));
        }
        assert(answered(models(cands@), prefix@, models(out@)));
    }
    out
}

// ------------------------------------------------------------------ what may follow a command

/// Does a word begin with a dash?
pub open spec fn dashed(w: Seq<char>) -> bool {
    w.len() > 0 && w[0] == '-'
}

/// The values an argument offers, and whether they needed an index that was not there. A
/// credential is never completed; an enumerated argument carries its own values; a path
/// becomes an instruction to the shell; an identifier comes from the registry that owns
/// it.
pub open spec fn values_offered(arg: ArgumentSpec, index: ValueIndex) -> (Seq<CandidateModel>, bool) {
    if arg.sensitivity != Sensitivity::Public {
        (seq![], false)
    } else {
        match arg.values {
            ValueSource::FreeText => (seq![], false),
            ValueSource::Enumerated { values } => (
                values@.map_values(
                    |v: EnumValue| value_candidate(v.value@, crate::cockpit::nav::opt_text(v.description)),
                ),
                false,
            ),
            ValueSource::Path { directories_only } => (seq![path_candidate(directories_only)], false),
            ValueSource::Registry { registry } => {
                let cs = filed(index.values@, registry);
                if cs.len() == 0 {
                    (seq![], true)
                } else {
                    (
                        cs.map_values(
                            |c: Candidate| value_candidate(c.value@, crate::cockpit::nav::opt_text(c.description)),
                        ),
                        false,
                    )
                }
            },
        }
    }
}

/// The options of a command, each with its dashes, in declaration order.
pub open spec fn flags_of(args: Seq<ArgumentSpec>) -> Seq<CandidateModel>
    decreases args.len(),
{
    if args.len() == 0 {
        seq![]
    } else {
        let rest = flags_of(args.drop_last());
        let a = args.last();
        if !a.positional && a.long is Some {
            rest.push(flag_candidate(a.long->0@, a))
        } else {
            rest
        }
    }
}

/// The positional arguments, in declaration order.
pub open spec fn positionals(args: Seq<ArgumentSpec>) -> Seq<ArgumentSpec>
    decreases args.len(),
{
    if args.len() == 0 {
        seq![]
    } else if args.last().positional {
        positionals(args.drop_last()).push(args.last())
    } else {
        positionals(args.drop_last())
    }
}

/// Does an option word take the next word as its value?
pub open spec fn takes_next(node: CommandNode, w: Seq<char>) -> bool {
    let k = first_answering(node.arguments@, bare_word(w));
    k < node.arguments@.len() && node.arguments@[k].takes_value && !node.arguments@[k].variadic
}

/// Reading the words after a command: how many positionals so far, and whether the next
/// word is the value of an option. A word that begins with a dash is an option; the word
/// after an option that takes a value is that value; everything else is a positional.
pub open spec fn positional_state(node: CommandNode, rest: Seq<Seq<char>>) -> (int, bool)
    decreases rest.len(),
{
    if rest.len() == 0 {
        (0, false)
    } else {
        let (count, skip) = positional_state(node, rest.drop_last());
        let w = rest.last();
        if skip {
            (count, false)
        } else if dashed(w) {
            (count, !w.contains('=') && takes_next(node, w))
        } else {
            (count + 1, false)
        }
    }
}

/// What may follow a command that is already known: the value of the option just typed,
/// or the options themselves and the next positional's values.
pub open spec fn arguments_offered(
    node: CommandNode,
    rest: Seq<Seq<char>>,
    prefix: Seq<char>,
    index: ValueIndex,
) -> (Seq<CandidateModel>, bool) {
    let args = node.arguments@;
    let k = if rest.len() > 0 { first_answering(args, bare_word(rest.last())) } else { 0 };
    if rest.len() > 0 && dashed(rest.last()) && !rest.last().contains('=') && k < args.len() && args[k].takes_value {
        values_offered(args[k], index)
    } else {
        let flags = if dashed(prefix) || prefix.len() == 0 { flags_of(args) } else { seq![] };
        if dashed(prefix) {
            (flags, false)
        } else {
            let given = positional_state(node, rest).0;
            let ps = positionals(args);
            if given < ps.len() {
                let v = values_offered(ps[given], index);
                (flags + v.0, v.1)
            } else if ps.len() > 0 && ps.last().variadic {
                let v = values_offered(ps.last(), index);
                (flags + v.0, v.1)
            } else {
                (flags, false)
            }
        }
    }
}

fn is_dashed(w: &str) -> (r: bool)
    ensures
        r == dashed(w@),
{
    w.unicode_len() > 0 && w.get_char(0) == '-'
}

fn holds_char(w: &str, c: char) -> (r: bool)
    ensures
        r == w@.contains(c),
{
    let n = w.unicode_len();
    let mut i: usize = 0;
    while i < n
        invariant
            n == w@.len(),
            i <= n,
            forall|j: int| 0 <= j < i ==> w@[j] != c,
        decreases n - i,
    {
        if w.get_char(i) == c {
            assert(w@[i as int] == c);
            return true;
        }
        i += 1;
    }
    false
}

fn gather_values(index: &ValueIndex, arg: &ArgumentSpec, out: &mut Vec<CompletionCandidate>) -> (unavailable: bool)
    ensures
        models(final(out)@) == models(old(out)@) + values_offered(*arg, *index).0,
        unavailable == values_offered(*arg, *index).1,
{
    if !may_offer(arg.sensitivity) {
        assert(models(out@) =~= models(out@) + seq![]);
        return false;
    }
    match &arg.values {
        ValueSource::FreeText => {
            assert(models(out@) =~= models(out@) + seq![]);
            false
        },
        ValueSource::Enumerated { values } => {
            let ghost start = models(out@);
            let ghost all = values_offered(*arg, *index).0;
            for i in 0..values.len()
                invariant
                    all == values@.map_values(
                        |v: EnumValue| value_candidate(v.value@, crate::cockpit::nav::opt_text(v.description)),
                    ),
                    models(out@) == start + all.take(i as int),
            {
                push_value(out, values[i].value.as_str(), &values[i].description);
                assert(all.take(i + 1) =~= all.take(i as int).push(all[i as int]));
            }
            assert(all.take(values@.len() as int) =~= all);
            false
        },
        ValueSource::Path { directories_only } => {
            push_path(out, *directories_only);
            assert(models(out@) =~= models(old(out)@) + seq![path_candidate(*directories_only)]);
            false
        },
        ValueSource::Registry { registry } => {
            let cs = index.candidates(*registry);
            if cs.len() == 0 {
                assert(models(out@) =~= models(out@) + seq![]);
                return true;
            }
            let ghost start = models(out@);
            let ghost all = values_offered(*arg, *index).0;
            for i in 0..cs.len()
                invariant
                    cs@ == filed(index.values@, *registry),
                    cs@.len() > 0,
                    all == cs@.map_values(
                        |c: Candidate| value_candidate(c.value@, crate::cockpit::nav::opt_text(c.description)),
                    ),
                    models(out@) == start + all.take(i as int),
            {
                push_value(out, cs[i].value.as_str(), &cs[i].description);
                assert(all.take(i + 1) =~= all.take(i as int).push(all[i as int]));
            }
            assert(all.take(cs@.len() as int) =~= all);
            false
        },
    }
}

fn push_flags(args: &Vec<ArgumentSpec>, out: &mut Vec<CompletionCandidate>)
    ensures
        models(final(out)@) == models(old(out)@) + flags_of(args@),
{
    let ghost start = models(out@);
    for i in 0..args.len()
        invariant
            models(out@) == start + flags_of(args@.take(i as int)),
    {
        let ghost t = args@.take(i + 1);
        assert(t.drop_last() =~= args@.take(i as int));
        assert(t.last() == args@[i as int]);
        let a = &args[i];
        if !a.positional {
            match &a.long {
                Some(l) => {
                    push_flag(out, l.as_str(), a);
                    assert(models(out@) =~= start + flags_of(t));
                },
                None => {},
            }
        }
    }
    assert(args@.take(args@.len() as int) =~= args@);
}

fn positional_args(args: &Vec<ArgumentSpec>) -> (r: Vec<&ArgumentSpec>)
    ensures
        r@.len() == positionals(args@).len(),
        forall|k: int| 0 <= k < r@.len() ==> *(#[trigger] r@[k]) == positionals(args@)[k],
{
    let mut r: Vec<&ArgumentSpec> = Vec::new();
    for i in 0..args.len()
        invariant
            r@.len() == positionals(args@.take(i as int)).len(),
            forall|k: int| 0 <= k < r@.len() ==> *(#[trigger] r@[k]) == positionals(args@.take(i as int))[k],
    {
        let ghost t = args@.take(i + 1);
        assert(t.drop_last() =~= args@.take(i as int));
        assert(t.last() == args@[i as int]);
        if args[i].positional {
            r.push(&args[i]);
        }
    }
    assert(args@.take(args@.len() as int) =~= args@);
    r
}

/// How many positional values a command has already been given.
fn count_positionals(node: &CommandNode, rest: &[String]) -> (r: usize)
    ensures
        r == positional_state(*node, crate::strings::views(rest@)).0,
{
    let ghost ws = crate::strings::views(rest@);
    let mut count: usize = 0;
    let mut skip_next = false;
    for i in 0..rest.len()
        invariant
            ws == crate::strings::views(rest@),
            (count as int, skip_next) == positional_state(*node, ws.take(i as int)),
            count <= i,
    {
        let ghost t = ws.take(i + 1);
        assert(t.drop_last() =~= ws.take(i as int));
        assert(t.last() == rest@[i as int]@);
        let word = rest[i].as_str();
        if skip_next {
            skip_next = false;
        } else if is_dashed(word) {
            if !holds_char(word, '=') {
                skip_next = match node.argument_for_word(word) {
                    Some(a) => a.takes_value && !a.variadic,
                    None => false,
                };
            }
        } else {
            count += 1;
        }
    }
    assert(ws.take(rest@.len() as int) =~= ws);
    count
}

fn gather_arguments(
    index: &ValueIndex,
    node: &CommandNode,
    rest: &[String],
    prefix: &str,
    out: &mut Vec<CompletionCandidate>,
) -> (unavailable: bool)
    ensures
        models(final(out)@) == models(old(out)@) + arguments_offered(*node, crate::strings::views(rest@), prefix@, *index).0,
        unavailable == arguments_offered(*node, crate::strings::views(rest@), prefix@, *index).1,
{
    let ghost ws = crate::strings::views(rest@);
    let ghost start = models(out@);
    if rest.len() > 0 {
        let previous = rest[rest.len() - 1].as_str();
        assert(ws.last() == previous@);
        if is_dashed(previous) && !holds_char(previous, '=') {
            match node.argument_for_word(previous) {
                Some(arg) => {
                    if arg.takes_value {
                        return gather_values(index, arg, out);
                    }
                },
                None => {},
            }
        }
    }
    let dash = is_dashed(prefix);
    if dash || prefix.unicode_len() == 0 {
        push_flags(&node.arguments, out);
    } else {
        assert(models(out@) =~= start + seq![]);
    }
    let ghost flags = models(out@).subrange(start.len() as int, models(out@).len() as int);
    assert(models(out@) =~= start + flags);
    if dash {
        return false;
    }
    let given = count_positionals(node, rest);
    let ps = positional_args(&node.arguments);
    if given < ps.len() {
        let u = gather_values(index, ps[given], out);
        assert(models(out@) =~= start + (flags + values_offered(*ps[given as int], *index).0));
        u
    } else if ps.len() > 0 && ps[ps.len() - 1].variadic {
        let last = ps[ps.len() - 1];
        assert(*last == positionals(node.arguments@).last());
        let u = gather_values(index, last, out);
        assert(models(out@) =~= start + (flags + values_offered(*last, *index).0));
        u
    } else {
        false
    }
}

// ------------------------------------------------------------------ the request

/// What a shell is asking. The words are the command line with the program's own name
/// already removed, which is the one thing every adapter can do correctly.
#[derive(Debug, Clone, PartialEq, Eq)]
pub struct CompletionRequest {
    /// Where the line was typed.
    pub surface: Surface,
    /// The words after the program's own name, as the shell split them.
    pub words: Vec<String>,
    /// The index in `words` of the word the cursor is in. A cursor past the last word
    /// means a new, empty word.
    pub cursor: usize,
}

/// The text before the cursor in the word being completed.
pub open spec fn request_prefix(words: Seq<Seq<char>>, cursor: int) -> Seq<char> {
    if cursor < words.len() {
        words[cursor]
    } else {
        seq![]
    }
}

/// The words before the one being completed.
pub open spec fn request_head(words: Seq<Seq<char>>, cursor: int) -> Seq<Seq<char>> {
    if cursor < words.len() {
        words.take(cursor)
    } else {
        words
    }
}

impl CompletionRequest {
    /// The text before the cursor in the word being completed.
    pub fn prefix(&self) -> (r: &str)
        ensures
            r@ == request_prefix(views(self.words@), self.cursor as int),
    {
        if self.cursor < self.words.len() {
            self.words[self.cursor].as_str()
        } else {
            proof {
                reveal_strlit("");
            }
            ""
        }
    }

    /// The words before the one being completed.
    pub fn head(&self) -> (r: &[String])
        ensures
            views(r@) == request_head(views(self.words@), self.cursor as int),
    {
        let n = if self.cursor < self.words.len() { self.cursor } else { self.words.len() };
        let r = vstd::slice::slice_subrange(self.words.as_slice(), 0, n);
        assert(views(r@) =~= request_head(views(self.words@), self.cursor as int));
        r
    }
}

// ------------------------------------------------------------------ gathering

/// The names of the listed commands on a surface whose first word names a whole command:
/// the recipe or the action, and on the bridge each alias beside it.
pub open spec fn names_offered(listed: Seq<CommandNode>, surface: Surface) -> Seq<CandidateModel>
    decreases listed.len(),
{
    if listed.len() == 0 {
        seq![]
    } else {
        let rest = names_offered(listed.drop_last(), surface);
        let c = listed.last();
        let name = if surface == Surface::Cockpit { c.projections.cockpit } else { c.projections.just };
        let named = match name {
            Some(n) => rest.push(command_candidate(c, n@, CompletionKind::Command)),
            None => rest,
        };
        if surface != Surface::Cockpit {
            named + views(c.projections.just_aliases@).map_values(
                |a: Seq<char>| command_candidate(c, a, CompletionKind::Alias),
            )
        } else {
            named
        }
    }
}

/// The native commands of one word, for a command line that names none yet.
pub open spec fn top_level_offered(listed: Seq<CommandNode>) -> Seq<CandidateModel>
    decreases listed.len(),
{
    if listed.len() == 0 {
        seq![]
    } else {
        let rest = top_level_offered(listed.drop_last());
        let c = listed.last();
        if c.program == Program::Native && c.path@.len() == 1 {
            rest.push(command_candidate(c, c.path@[0]@, CompletionKind::Command))
        } else {
            rest
        }
    }
}

/// Is a command a public native subcommand of another, one word deeper?
pub open spec fn is_subcommand(c: CommandNode, node: CommandNode) -> bool {
    &&& c.program == Program::Native
    &&& c.path@.len() == node.path@.len() + 1
    &&& views(c.path@).take(node.path@.len() as int) == views(node.path@)
    &&& c.visibility == Visibility::Public
}

/// The subcommands of a command, in graph order, each under its last word.
pub open spec fn subcommands_offered(cs: Seq<CommandNode>, node: CommandNode) -> Seq<CandidateModel>
    decreases cs.len(),
{
    if cs.len() == 0 {
        seq![]
    } else {
        let rest = subcommands_offered(cs.drop_last(), node);
        let c = cs.last();
        if is_subcommand(c, node) {
            rest.push(command_candidate(c, c.path@.last()@, CompletionKind::Command))
        } else {
            rest
        }
    }
}

/// What a request gathers before the answer is put in order.
pub struct Gathered {
    pub candidates: Seq<CandidateModel>,
    pub resolved: Option<Seq<char>>,
    pub unavailable: bool,
}

/// What a request gathers, given the commands in the order a listing shows them. The
/// native command line takes its command from the deepest path its words begin; a
/// surface whose first word names a whole command resolves that name and hands the words
/// after it to the same code the command line uses.
pub open spec fn gathered(
    graph: CommandGraph,
    index: ValueIndex,
    surface: Surface,
    words: Seq<Seq<char>>,
    cursor: int,
    listed: Seq<CommandNode>,
) -> Gathered {
    let prefix = request_prefix(words, cursor);
    let cs = graph.commands@;
    if surface == Surface::Cli {
        let head = request_head(words, cursor);
        match deepest(cs, head) {
            None => Gathered { candidates: top_level_offered(listed), resolved: None, unavailable: false },
            Some(k) => {
                let node = cs[k];
                let used = node.path@.len() as int;
                let subs = if used == head.len() { subcommands_offered(cs, node) } else { seq![] };
                let a = arguments_offered(node, head.skip(used), prefix, index);
                Gathered { candidates: subs + a.0, resolved: Some(node.id@), unavailable: a.1 }
            },
        }
    } else if cursor == 0 {
        Gathered { candidates: names_offered(listed, surface), resolved: None, unavailable: false }
    } else if words.len() == 0 {
        Gathered { candidates: seq![], resolved: None, unavailable: false }
    } else {
        let k = if surface == Surface::Just {
            first_where(cs, answers_just(words[0]))
        } else {
            first_where(cs, answers_cockpit(words[0]))
        };
        if k < cs.len() {
            let node = cs[k];
            let end = if cursor < words.len() { cursor } else { words.len() as int };
            let a = arguments_offered(node, words.subrange(1, end), prefix, index);
            Gathered { candidates: a.0, resolved: Some(node.id@), unavailable: a.1 }
        } else {
            Gathered { candidates: seq![], resolved: None, unavailable: false }
        }
    }
}

/// Commands taken in the order a rearrangement gives.
pub open spec fn nodes_in(v: Seq<CommandNode>, perm: Seq<int>) -> Seq<CommandNode> {
    Seq::new(perm.len(), |k: int| v[perm[k]])
}

/// Some listed commands as values.
pub open spec fn derefs(v: Seq<&CommandNode>) -> Seq<CommandNode> {
    Seq::new(v.len(), |k: int| *v[k])
}

fn gather_names(listed: &Vec<&CommandNode>, surface: Surface, out: &mut Vec<CompletionCandidate>)
    ensures
        models(final(out)@) == models(old(out)@) + names_offered(derefs(listed@), surface),
{
    let ghost start = models(out@);
    let ghost all = derefs(listed@);
    for i in 0..listed.len()
        invariant
            all == derefs(listed@),
            models(out@) == start + names_offered(all.take(i as int), surface),
    {
        let c = listed[i];
        let ghost t = all.take(i + 1);
        assert(t.drop_last() =~= all.take(i as int));
        assert(t.last() == *c);
        let ghost mid = models(out@);
        let name = if surface == Surface::Cockpit { &c.projections.cockpit } else { &c.projections.just };
        match name {
            Some(n) => push_command(out, c, n.as_str(), CompletionKind::Command),
            None => {},
        }
        let ghost named = models(out@);
        if surface != Surface::Cockpit {
            let aliases = &c.projections.just_aliases;
            let ghost al = views(aliases@).map_values(|a: Seq<char>| command_candidate(*c, a, CompletionKind::Alias));
            for j in 0..aliases.len()
                invariant
                    al == views(aliases@).map_values(|a: Seq<char>| command_candidate(*c, a, CompletionKind::Alias)),
                    models(out@) == named + al.take(j as int),
            {
                push_command(out, c, aliases[j].as_str(), CompletionKind::Alias);
                assert(al.take(j + 1) =~= al.take(j as int).push(al[j as int]));
            }
            assert(al.take(aliases@.len() as int) =~= al);
        } else {
            assert(models(out@) =~= named);
        }
        assert(models(out@) =~= start + names_offered(t, surface));
    }
    assert(all.take(listed@.len() as int) =~= all);
}

fn gather_top_level(listed: &Vec<&CommandNode>, out: &mut Vec<CompletionCandidate>)
    ensures
        models(final(out)@) == models(old(out)@) + top_level_offered(derefs(listed@)),
{
    let ghost start = models(out@);
    let ghost all = derefs(listed@);
    for i in 0..listed.len()
        invariant
            all == derefs(listed@),
            models(out@) == start + top_level_offered(all.take(i as int)),
    {
        let c = listed[i];
        let ghost t = all.take(i + 1);
        assert(t.drop_last() =~= all.take(i as int));
        assert(t.last() == *c);
        if c.program == Program::Native && c.path.len() == 1 {
            push_command(out, c, c.path[0].as_str(), CompletionKind::Command);
            assert(models(out@) =~= start + top_level_offered(t));
        }
    }
    assert(all.take(listed@.len() as int) =~= all);
}

fn path_begins(path: &Vec<String>, head: &Vec<String>) -> (r: bool)
    requires
        head@.len() <= path@.len(),
    ensures
        r == (views(path@).take(head@.len() as int) == views(head@)),
{
    let mut i: usize = 0;
    while i < head.len()
        invariant
            head@.len() <= path@.len(),
            i <= head@.len(),
            forall|j: int| 0 <= j < i ==> path@[j]@ == head@[j]@,
        decreases head.len() - i,
    {
        if !str_eq(path[i].as_str(), head[i].as_str()) {
            assert(views(path@).take(head@.len() as int)[i as int] != views(head@)[i as int]);
            return false;
        }
        i += 1;
    }
    assert(views(path@).take(head@.len() as int) =~= views(head@));
    true
}

fn gather_subcommands(commands: &Vec<CommandNode>, node: &CommandNode, out: &mut Vec<CompletionCandidate>)
    ensures
        models(final(out)@) == models(old(out)@) + subcommands_offered(commands@, *node),
{
    let ghost start = models(out@);
    for i in 0..commands.len()
        invariant
            models(out@) == start + subcommands_offered(commands@.take(i as int), *node),
    {
        let c = &commands[i];
        let ghost t = commands@.take(i + 1);
        assert(t.drop_last() =~= commands@.take(i as int));
        assert(t.last() == *c);
        let n = node.path.len();
        let sub = c.program == Program::Native && c.path.len() > n && c.path.len() - 1 == n && c.visibility == Visibility::Public
            && path_begins(&c.path, &node.path);
        assert(sub == is_subcommand(*c, *node));
        if sub {
            push_command(out, c, c.path[n].as_str(), CompletionKind::Command);
            assert(models(out@) =~= start + subcommands_offered(t, *node));
        }
    }
    assert(commands@.take(commands@.len() as int) =~= commands@);
}

// ------------------------------------------------------------------ the engine

/// The answer.
#[derive(Debug, Clone, PartialEq, Eq)]
pub struct CompletionResponse {
    /// The schema.
    pub schema: String,
    /// The command the words resolved to, when they resolved to one.
    pub resolved: Option<CommandId>,
    /// Whether values that would have needed the value index were left out because no
    /// current one was found. Never an error: the structural candidates still came back.
    pub values_unavailable: bool,
    /// The candidates, already ordered.
    pub candidates: Vec<CompletionCandidate>,
}

/// An identity, if there is one, as text.
pub open spec fn id_text(o: Option<CommandId>) -> Option<Seq<char>> {
    match o {
        Some(id) => Some(id@),
        None => None,
    }
}

/// The engine: a graph, and the values of this checkout when there are any.
pub struct Engine<'a> {
    pub graph: &'a CommandGraph,
    pub values: &'a ValueIndex,
}

impl<'a> Engine<'a> {
    /// An engine over a graph and a value index. An empty index is legitimate: the
    /// structural candidates do not need it.
    pub fn new(graph: &'a CommandGraph, values: &'a ValueIndex) -> (r: Self)
        ensures
            *r.graph == *graph,
            *r.values == *values,
    {
        Engine { graph, values }
    }

    /// Answer one request: gather what may come next, then keep what the prefix allows,
    /// in the one order, each offer once, at most the limit.
    pub fn complete(&self, request: &CompletionRequest) -> (r: CompletionResponse)
        ensures
            r.schema@ == SCHEMA@,
            r.candidates@.len() <= LIMIT,
            exists|lp: Seq<int>|
                sorts_listed(listed_nodes(self.graph.commands@), lp) && {
                    let g = gathered(
                        *self.graph,
                        *self.values,
                        request.surface,
                        views(request.words@),
                        request.cursor as int,
                        nodes_in(listed_nodes(self.graph.commands@), lp),
                    );
                    &&& answered(g.candidates, request_prefix(views(request.words@), request.cursor as int), models(r.candidates@))
                    &&& id_text(r.resolved) == g.resolved
                    &&& r.values_unavailable == g.unavailable
                },
            all_fit(models(r.candidates@)),
    {
        let graph = self.graph;
        let listed = graph.listed();
        let ghost lp = choose|perm: Seq<int>|
            sorts_listed(listed_nodes(graph.commands@), perm) && listed@.len() == perm.len() && (forall|k: int|
                0 <= k < perm.len() ==> *(#[trigger] listed@[k]) == listed_nodes(graph.commands@)[perm[k]]);
        assert(derefs(listed@) =~= nodes_in(listed_nodes(graph.commands@), lp));
        let ghost ws = views(request.words@);
        let ghost cursor = request.cursor as int;
        let prefix = request.prefix();
        let mut out: Vec<CompletionCandidate> = Vec::new();
        let mut resolved: Option<CommandId> = None;
        let mut unavailable = false;
        let ghost g = gathered(*graph, *self.values, request.surface, ws, cursor, derefs(listed@));
        if request.surface == Surface::Cli {
            let head = request.head();
            match graph.longest_cli_prefix(head) {
                None => {
                    gather_top_level(&listed, &mut out);
                    assert(models(out@) =~= g.candidates);
                },
                Some((node, used)) => {
                    proof {
                        lemma_deepest(graph.commands@, views(head@));
                    }
                    resolved = Some(node.id.copied());
                    if used == head.len() {
                        gather_subcommands(&graph.commands, node, &mut out);
                    }
                    let ghost mid = models(out@);
                    let rest = vstd::slice::slice_subrange(head, used, head.len());
                    assert(views(rest@) =~= views(head@).skip(used as int));
                    unavailable = gather_arguments(self.values, node, rest, prefix, &mut out);
                    proof {
                        if used != head.len() {
                            assert(mid =~= seq![]);
                        }
                        assert(models(out@) =~= g.candidates);
                    }
                },
            }
        } else if request.cursor == 0 {
            gather_names(&listed, request.surface, &mut out);
            assert(models(out@) =~= g.candidates);
        } else if request.words.len() == 0 {
            assert(models(out@) =~= g.candidates);
        } else {
            let first = vstd::slice::slice_subrange(request.words.as_slice(), 0, 1);
            assert(first@[0] == request.words@[0]);
            proof {
                lemma_first_where_bounds(graph.commands@, answers_just(ws[0]));
                lemma_first_where_bounds(graph.commands@, answers_cockpit(ws[0]));
            }
            match graph.resolve(request.surface, first) {
                Some(node) => {
                    resolved = Some(node.id.copied());
                    let end = if request.cursor < request.words.len() { request.cursor } else { request.words.len() };
                    let rest = vstd::slice::slice_subrange(request.words.as_slice(), 1, end);
                    assert(views(rest@) =~= ws.subrange(1, end as int));
                    unavailable = gather_arguments(self.values, node, rest, prefix, &mut out);
                    assert(models(out@) =~= g.candidates);
                },
                None => {
                    assert(models(out@) =~= g.candidates);
                },
            }
        }
        assert(models(out@) =~= seq![] + g.candidates);
        let candidates = finish(&out, prefix);
        proof {
            let kept = kept_of(g.candidates, prefix@);
            let perm = choose|perm: Seq<int>|
                sorts_candidates(kept, perm) && models(candidates@) == truncated(deduped(#[trigger] permuted(kept, perm)));
            let d = deduped(permuted(kept, perm));
            assert(truncated(d).len() <= LIMIT);
            assert(models(candidates@).len() == candidates@.len());
            lemma_gathered_fit(*graph, *self.values, request.surface, ws, cursor, derefs(listed@));
            lemma_answered_fit(g.candidates, prefix@, models(candidates@));
        }
        CompletionResponse { schema: String::from_str(SCHEMA), resolved, values_unavailable: unavailable, candidates }
    }
}

proof fn lemma_deepest(cs: Seq<CommandNode>, words: Seq<Seq<char>>)
    ensures
        deepest(cs, words) matches Some(k) ==> 0 <= k < cs.len() && crate::command::graph::begins(cs[k], words),
    decreases cs.len(),
{
    if cs.len() > 0 {
        lemma_deepest(cs.drop_last(), words);
        match deepest(cs.drop_last(), words) {
            Some(b) => {
                assert(cs.drop_last()[b] == cs[b]);
            },
            None => {},
        }
    }
}

proof fn lemma_first_where_bounds(cs: Seq<CommandNode>, p: spec_fn(CommandNode) -> bool)
    ensures
        0 <= first_where(cs, p) <= cs.len(),
    decreases cs.len(),
{
    if cs.len() > 0 {
        lemma_first_where_bounds(cs.drop_first(), p);
    }
}


/// The compact encoding a shell reads: one candidate per line, the value and its
/// description separated by a tab.
pub open spec fn shell_text(cs: Seq<CandidateModel>) -> Seq<char>
    decreases cs.len(),
{
    if cs.len() == 0 {
        seq![]
    } else {
        let c = cs.last();
        shell_text(cs.drop_last()) + c.value + seq!['\t'] + (match c.description {
            Some(d) => d,
            None => seq![],
        }) + seq!['\n']
    }
}

/// The kind of the first instruction among the candidates, if there is one.
pub open spec fn first_directive(cs: Seq<CandidateModel>) -> Option<CompletionKind>
    decreases cs.len(),
{
    if cs.len() == 0 {
        None
    } else if is_directive(cs[0].kind) {
        Some(cs[0].kind)
    } else {
        first_directive(cs.drop_first())
    }
}

impl CompletionResponse {
    /// The compact encoding a shell reads: one candidate per line, the value and its
    /// description separated by a tab. Both halves are free of tabs and newlines by
    /// construction, so a shell needs no parser.
    pub fn to_shell(&self) -> (r: String)
        ensures
            r@ == shell_text(models(self.candidates@)),
    {
        let ghost all = models(self.candidates@);
        let mut out = String::new();
        for i in 0..self.candidates.len()
            invariant
                all == models(self.candidates@),
                out@ == shell_text(all.take(i as int)),
        {
            let c = &self.candidates[i];
            let ghost t = all.take(i + 1);
            assert(t.drop_last() =~= all.take(i as int));
            assert(t.last() == model_of(*c));
            push_str(&mut out, c.value.as_str());
            push_char(&mut out, '\t');
            match &c.description {
                Some(d) => push_str(&mut out, d.as_str()),
                None => {},
            }
            push_char(&mut out, '\n');
            assert(out@ =~= shell_text(t));
        }
        assert(all.take(self.candidates@.len() as int) =~= all);
        out
    }

    /// The instruction kind present, for an adapter that asks whether to fall back to the
    /// shell's own file completion.
    pub fn directive(&self) -> (r: Option<CompletionKind>)
        ensures
            r == first_directive(models(self.candidates@)),
    {
        let ghost all = models(self.candidates@);
        let mut i: usize = 0;
        assert(all.skip(0) =~= all);
        while i < self.candidates.len()
            invariant
                all == models(self.candidates@),
                i <= all.len(),
                first_directive(all) == first_directive(all.skip(i as int)),
            decreases self.candidates.len() - i,
        {
            let k = self.candidates[i].kind;
            assert(all.skip(i as int)[0] == model_of(self.candidates@[i as int]));
            assert(all.skip(i as int).drop_first() =~= all.skip(i + 1));
            if k == CompletionKind::Path || k == CompletionKind::Directory {
                return Some(k);
            }
            i += 1;
        }
        None
    }
}

// ------------------------------------------------------------------ what the engine promises

/// What comes back is what was typed: every candidate begins with the prefix, except an
/// instruction to complete a path, which the shell narrows itself; and no answer is longer
/// than the limit.
pub proof fn law_a_prefix_narrows_and_nothing_else_comes_back(
    gathered_candidates: Seq<CandidateModel>,
    prefix: Seq<char>,
    out: Seq<CandidateModel>,
)
    requires
        answered(gathered_candidates, prefix, out),
    ensures
        out.len() <= LIMIT,
        forall|i: int| 0 <= i < out.len() ==> #[trigger] survives(out[i], prefix),
{
    let kept = kept_of(gathered_candidates, prefix);
    let perm = choose|perm: Seq<int>| sorts_candidates(kept, perm) && out == truncated(deduped(#[trigger] permuted(kept, perm)));
    lemma_kept_survive(gathered_candidates, prefix);
    let s = permuted(kept, perm);
    assert forall|i: int| 0 <= i < s.len() implies #[trigger] survives(s[i], prefix) by {
        assert(0 <= perm[i] < kept.len());
    }
    lemma_deduped_from(s);
    let d = deduped(s);
    assert forall|i: int| 0 <= i < out.len() implies #[trigger] survives(out[i], prefix) by {
        assert(out[i] == d[i]);
        assert(among(s, d[i]));
        let j = choose|j: int| 0 <= j < s.len() && s[j] == d[i];
        assert(survives(s[j], prefix));
    }
}

proof fn lemma_kept_survive(g: Seq<CandidateModel>, prefix: Seq<char>)
    ensures
        forall|i: int| 0 <= i < kept_of(g, prefix).len() ==> #[trigger] survives(kept_of(g, prefix)[i], prefix),
    decreases g.len(),
{
    if g.len() > 0 {
        lemma_kept_survive(g.drop_last(), prefix);
        let r = kept_of(g.drop_last(), prefix);
        assert forall|i: int| 0 <= i < kept_of(g, prefix).len() implies #[trigger] survives(kept_of(g, prefix)[i], prefix) by {
            if i < r.len() {
                assert(kept_of(g, prefix)[i] == r[i]);
            }
        }
    }
}

/// Is a candidate one of a list?
pub open spec fn among(s: Seq<CandidateModel>, c: CandidateModel) -> bool {
    exists|j: int| 0 <= j < s.len() && s[j] == c
}

proof fn lemma_deduped_from(s: Seq<CandidateModel>)
    ensures
        deduped(s).len() <= s.len(),
        forall|i: int| 0 <= i < deduped(s).len() ==> among(s, #[trigger] deduped(s)[i]),
    decreases s.len(),
{
    if s.len() > 1 {
        let t = s.drop_last();
        lemma_deduped_from(t);
        let d = deduped(s);
        assert forall|i: int| 0 <= i < d.len() implies among(s, #[trigger] d[i]) by {
            if i < deduped(t).len() {
                assert(d[i] == deduped(t)[i]);
                assert(among(t, deduped(t)[i]));
                let j = choose|j: int| 0 <= j < t.len() && t[j] == deduped(t)[i];
                assert(s[j] == t[j]);
            } else {
                assert(d[i] == s[s.len() - 1]);
            }
        }
    } else {
        assert forall|i: int| 0 <= i < deduped(s).len() implies among(s, #[trigger] deduped(s)[i]) by {
            assert(s[i] == deduped(s)[i]);
        }
    }
}

/// The bridge and the command line complete an argument alike: when a recipe name and a
/// native path reach the same command, and the words after them are the same, both
/// surfaces gather the same candidates, resolve to the same command and report the same
/// missing index. (Right after the path, with nothing typed after it, the command line
/// also offers subcommands, which a recipe has none of.)
pub proof fn law_the_bridge_and_the_command_line_complete_an_argument_alike(
    graph: CommandGraph,
    index: ValueIndex,
    listed: Seq<CommandNode>,
    recipe_words: Seq<Seq<char>>,
    recipe_cursor: int,
    cli_words: Seq<Seq<char>>,
    cli_cursor: int,
)
    requires
        recipe_cursor >= 1,
        recipe_words.len() >= 1,
        ({
            let cs = graph.commands@;
            let k = first_where(cs, answers_just(recipe_words[0]));
            let head = request_head(cli_words, cli_cursor);
            let end = if recipe_cursor < recipe_words.len() { recipe_cursor } else { recipe_words.len() as int };
            &&& k < cs.len()
            &&& deepest(cs, head) == Some(k)
            &&& cs[k].path@.len() < head.len()
            &&& head.skip(cs[k].path@.len() as int) == recipe_words.subrange(1, end)
        }),
        request_prefix(recipe_words, recipe_cursor) == request_prefix(cli_words, cli_cursor),
    ensures
        gathered(graph, index, Surface::Just, recipe_words, recipe_cursor, listed) == gathered(
            graph,
            index,
            Surface::Cli,
            cli_words,
            cli_cursor,
            listed,
        ),
{
    lemma_first_where_bounds(graph.commands@, answers_just(recipe_words[0]));
    let g1 = gathered(graph, index, Surface::Just, recipe_words, recipe_cursor, listed);
    let g2 = gathered(graph, index, Surface::Cli, cli_words, cli_cursor, listed);
    assert(g1.candidates =~= g2.candidates);
}

/// A value of an argument that carries a credential, or a personal note, is never
/// completed and never reported as missing.
pub proof fn law_nothing_but_a_public_value_is_ever_offered(arg: ArgumentSpec, index: ValueIndex)
    requires
        arg.sensitivity != Sensitivity::Public,
    ensures
        values_offered(arg, index).0.len() == 0,
        !values_offered(arg, index).1,
{
}

/// Commands are offered in one order: a runnable command under its own name first, then
/// one under an alias, then a deprecated one, then one that cannot run here. A deprecated
/// command is offered after every runnable one that is not, whatever name either goes by.
pub proof fn law_a_deprecated_command_comes_after_every_current_one(
    node: CommandNode,
    other: CommandNode,
    name: Seq<char>,
    other_name: Seq<char>,
    kind: CompletionKind,
    other_kind: CompletionKind,
)
    ensures
        node.availability.available && node.deprecation is Some && other.availability.available
            && other.deprecation is None ==> command_candidate(other, other_name, other_kind).priority
            < command_candidate(node, name, kind).priority,
        node.availability.available && node.deprecation is None && kind == CompletionKind::Command
            && other.availability.available && other.deprecation is None && other_kind != CompletionKind::Command
            ==> command_candidate(node, name, kind).priority < command_candidate(other, other_name, other_kind).priority,
        node.availability.available && other.availability.available && node.deprecation is None
            && other.deprecation is None && kind == other_kind ==> command_candidate(node, name, kind).priority
            == command_candidate(other, other_name, other_kind).priority,
{
}

/// A command that cannot run here is offered after every one that can, and says why.
pub proof fn law_an_unavailable_command_is_shown_last_and_says_why(
    node: CommandNode,
    other: CommandNode,
    name: Seq<char>,
    other_name: Seq<char>,
    kind: CompletionKind,
    other_kind: CompletionKind,
)
    requires
        !node.availability.available,
        other.availability.available,
    ensures
        command_candidate(other, other_name, other_kind).priority < command_candidate(node, name, kind).priority,
        node.availability.reason matches Some(r) ==> starts(command_text(node), node.summary@ + " — unavailable: "@ + r@),
{
    match node.availability.reason {
        Some(r) => {
            let base = node.summary@ + " — unavailable: "@ + r@;
            let t = command_text(node);
            match node.deprecation {
                Some(d) => assert(t.subrange(0, base.len() as int) =~= base),
                None => assert(t.subrange(0, base.len() as int) =~= base),
            }
        },
        None => {},
    }
}
// ------------------------------------------------------------------ fit for a shell

/// Does a text hold nothing a terminal would act on: no control character and no
/// bidirectional control?
pub open spec fn inert(s: Seq<char>) -> bool {
    forall|i: int| 0 <= i < s.len() ==> !is_control(#[trigger] s[i]) && !is_bidi(s[i])
}

/// Is a candidate fit for the one line a shell reads it from: its value is inert, and so
/// is its description.
pub open spec fn fit_for_a_shell(c: CandidateModel) -> bool {
    &&& inert(c.value)
    &&& (c.description matches Some(d) ==> inert(d))
}

/// Is every candidate fit for a shell?
pub open spec fn all_fit(s: Seq<CandidateModel>) -> bool {
    forall|k: int| 0 <= k < s.len() ==> fit_for_a_shell(#[trigger] s[k])
}

proof fn lemma_described(text: Seq<char>)
    ensures
        sanitised_description(text) matches Some(d) ==> inert(d),
{
    law_a_description_holds_nothing_a_terminal_would_act_on(text);
}

proof fn lemma_join_fit(a: Seq<CandidateModel>, b: Seq<CandidateModel>)
    requires
        all_fit(a),
        all_fit(b),
    ensures
        all_fit(a + b),
{
    assert forall|k: int| 0 <= k < (a + b).len() implies fit_for_a_shell(#[trigger] (a + b)[k]) by {
        if k < a.len() {
            assert((a + b)[k] == a[k]);
        } else {
            assert((a + b)[k] == b[k - a.len()]);
        }
    }
}

proof fn lemma_push_fit(a: Seq<CandidateModel>, c: CandidateModel)
    requires
        all_fit(a),
        fit_for_a_shell(c),
    ensures
        all_fit(a.push(c)),
{
    assert forall|k: int| 0 <= k < a.push(c).len() implies fit_for_a_shell(#[trigger] a.push(c)[k]) by {
        if k < a.len() {
            assert(a.push(c)[k] == a[k]);
        }
    }
}

proof fn lemma_command_fit(node: CommandNode, name: Seq<char>, kind: CompletionKind)
    ensures
        fit_for_a_shell(command_candidate(node, name, kind)),
{
    lemma_plain(name);
    lemma_described(command_text(node));
}

proof fn lemma_value_fit(value: Seq<char>, description: Option<Seq<char>>)
    ensures
        fit_for_a_shell(value_candidate(value, description)),
{
    lemma_plain(value);
    match description {
        Some(d) => lemma_described(d),
        None => {},
    }
}

proof fn lemma_path_fit(directories_only: bool)
    ensures
        fit_for_a_shell(path_candidate(directories_only)),
{
    reveal_strlit("a path; the shell completes it");
    assert(inert(seq![]));
}

proof fn lemma_names_fit(listed: Seq<CommandNode>, surface: Surface)
    ensures
        all_fit(names_offered(listed, surface)),
    decreases listed.len(),
{
    if listed.len() > 0 {
        lemma_names_fit(listed.drop_last(), surface);
        let rest = names_offered(listed.drop_last(), surface);
        let c = listed.last();
        let name = if surface == Surface::Cockpit { c.projections.cockpit } else { c.projections.just };
        let named = match name {
            Some(n) => rest.push(command_candidate(c, n@, CompletionKind::Command)),
            None => rest,
        };
        match name {
            Some(n) => {
                lemma_command_fit(c, n@, CompletionKind::Command);
                lemma_push_fit(rest, command_candidate(c, n@, CompletionKind::Command));
            },
            None => {},
        }
        if surface != Surface::Cockpit {
            let al = views(c.projections.just_aliases@).map_values(
                |a: Seq<char>| command_candidate(c, a, CompletionKind::Alias),
            );
            assert forall|k: int| 0 <= k < al.len() implies fit_for_a_shell(#[trigger] al[k]) by {
                lemma_command_fit(c, views(c.projections.just_aliases@)[k], CompletionKind::Alias);
            }
            lemma_join_fit(named, al);
        }
    }
}

proof fn lemma_top_level_fit(listed: Seq<CommandNode>)
    ensures
        all_fit(top_level_offered(listed)),
    decreases listed.len(),
{
    if listed.len() > 0 {
        lemma_top_level_fit(listed.drop_last());
        let c = listed.last();
        if c.program == Program::Native && c.path@.len() == 1 {
            lemma_command_fit(c, c.path@[0]@, CompletionKind::Command);
            lemma_push_fit(top_level_offered(listed.drop_last()), command_candidate(c, c.path@[0]@, CompletionKind::Command));
        }
    }
}

proof fn lemma_subcommands_fit(cs: Seq<CommandNode>, node: CommandNode)
    ensures
        all_fit(subcommands_offered(cs, node)),
    decreases cs.len(),
{
    if cs.len() > 0 {
        lemma_subcommands_fit(cs.drop_last(), node);
        let c = cs.last();
        if is_subcommand(c, node) {
            lemma_command_fit(c, c.path@.last()@, CompletionKind::Command);
            lemma_push_fit(subcommands_offered(cs.drop_last(), node), command_candidate(c, c.path@.last()@, CompletionKind::Command));
        }
    }
}

proof fn lemma_flags_fit(args: Seq<ArgumentSpec>)
    ensures
        all_fit(flags_of(args)),
    decreases args.len(),
{
    if args.len() > 0 {
        lemma_flags_fit(args.drop_last());
        let a = args.last();
        if !a.positional && a.long is Some {
            lemma_described(a.help@);
            lemma_plain("--"@ + a.long->0@);
            lemma_push_fit(flags_of(args.drop_last()), flag_candidate(a.long->0@, a));
        }
    }
}

proof fn lemma_values_fit(arg: ArgumentSpec, index: ValueIndex)
    ensures
        all_fit(values_offered(arg, index).0),
{
    let v = values_offered(arg, index).0;
    if arg.sensitivity == Sensitivity::Public {
        match arg.values {
            ValueSource::Enumerated { values } => {
                assert forall|k: int| 0 <= k < v.len() implies fit_for_a_shell(#[trigger] v[k]) by {
                    lemma_value_fit(values@[k].value@, crate::cockpit::nav::opt_text(values@[k].description));
                }
            },
            ValueSource::Path { directories_only } => {
                lemma_path_fit(directories_only);
            },
            ValueSource::Registry { registry } => {
                let cs = filed(index.values@, registry);
                assert forall|k: int| 0 <= k < v.len() implies fit_for_a_shell(#[trigger] v[k]) by {
                    lemma_value_fit(cs[k].value@, crate::cockpit::nav::opt_text(cs[k].description));
                }
            },
            _ => {},
        }
    }
}

proof fn lemma_arguments_fit(node: CommandNode, rest: Seq<Seq<char>>, prefix: Seq<char>, index: ValueIndex)
    ensures
        all_fit(arguments_offered(node, rest, prefix, index).0),
{
    let args = node.arguments@;
    lemma_flags_fit(args);
    assert(all_fit(Seq::<CandidateModel>::empty()));
    let k = if rest.len() > 0 { first_answering(args, bare_word(rest.last())) } else { 0 };
    if rest.len() > 0 && dashed(rest.last()) && !rest.last().contains('=') && k < args.len() && args[k].takes_value {
        lemma_values_fit(args[k], index);
    } else {
        let flags = if dashed(prefix) || prefix.len() == 0 { flags_of(args) } else { seq![] };
        if !dashed(prefix) {
            let given = positional_state(node, rest).0;
            let ps = positionals(args);
            if given < ps.len() {
                lemma_values_fit(ps[given], index);
                lemma_join_fit(flags, values_offered(ps[given], index).0);
            } else if ps.len() > 0 && ps.last().variadic {
                lemma_values_fit(ps.last(), index);
                lemma_join_fit(flags, values_offered(ps.last(), index).0);
            }
        }
    }
}

proof fn lemma_gathered_fit(
    graph: CommandGraph,
    index: ValueIndex,
    surface: Surface,
    words: Seq<Seq<char>>,
    cursor: int,
    listed: Seq<CommandNode>,
)
    ensures
        all_fit(gathered(graph, index, surface, words, cursor, listed).candidates),
{
    let prefix = request_prefix(words, cursor);
    let cs = graph.commands@;
    assert(all_fit(Seq::<CandidateModel>::empty()));
    if surface == Surface::Cli {
        let head = request_head(words, cursor);
        match deepest(cs, head) {
            None => lemma_top_level_fit(listed),
            Some(k) => {
                let node = cs[k];
                let used = node.path@.len() as int;
                lemma_subcommands_fit(cs, node);
                lemma_arguments_fit(node, head.skip(used), prefix, index);
                let subs = if used == head.len() { subcommands_offered(cs, node) } else { seq![] };
                lemma_join_fit(subs, arguments_offered(node, head.skip(used), prefix, index).0);
            },
        }
    } else if cursor == 0 {
        lemma_names_fit(listed, surface);
    } else if words.len() > 0 {
        let k = if surface == Surface::Just {
            first_where(cs, answers_just(words[0]))
        } else {
            first_where(cs, answers_cockpit(words[0]))
        };
        if k < cs.len() {
            let end = if cursor < words.len() { cursor } else { words.len() as int };
            lemma_arguments_fit(cs[k], words.subrange(1, end), prefix, index);
        }
    }
}

proof fn lemma_kept_fit(g: Seq<CandidateModel>, prefix: Seq<char>)
    requires
        all_fit(g),
    ensures
        all_fit(kept_of(g, prefix)),
    decreases g.len(),
{
    if g.len() > 0 {
        assert(all_fit(g.drop_last())) by {
            assert forall|k: int| 0 <= k < g.drop_last().len() implies fit_for_a_shell(#[trigger] g.drop_last()[k]) by {
                assert(g.drop_last()[k] == g[k]);
            }
        }
        lemma_kept_fit(g.drop_last(), prefix);
        if survives(g.last(), prefix) {
            lemma_push_fit(kept_of(g.drop_last(), prefix), g.last());
        }
    }
}

proof fn lemma_deduped_fit(s: Seq<CandidateModel>)
    requires
        all_fit(s),
    ensures
        all_fit(deduped(s)),
    decreases s.len(),
{
    if s.len() > 1 {
        assert(all_fit(s.drop_last())) by {
            assert forall|k: int| 0 <= k < s.drop_last().len() implies fit_for_a_shell(#[trigger] s.drop_last()[k]) by {
                assert(s.drop_last()[k] == s[k]);
            }
        }
        lemma_deduped_fit(s.drop_last());
        if !same_offer(s[s.len() - 2], s.last()) {
            lemma_push_fit(deduped(s.drop_last()), s.last());
        }
    }
}

proof fn lemma_answered_fit(g: Seq<CandidateModel>, prefix: Seq<char>, out: Seq<CandidateModel>)
    requires
        all_fit(g),
        answered(g, prefix, out),
    ensures
        all_fit(out),
{
    let kept = kept_of(g, prefix);
    lemma_kept_fit(g, prefix);
    let perm = choose|perm: Seq<int>| sorts_candidates(kept, perm) && out == truncated(deduped(#[trigger] permuted(kept, perm)));
    let p = permuted(kept, perm);
    assert forall|k: int| 0 <= k < p.len() implies fit_for_a_shell(#[trigger] p[k]) by {
        assert(0 <= perm[k] < kept.len());
    }
    lemma_deduped_fit(p);
    let d = deduped(p);
    assert forall|k: int| 0 <= k < truncated(d).len() implies fit_for_a_shell(#[trigger] truncated(d)[k]) by {
        assert(truncated(d)[k] == d[k]);
    }
}

} // verus!
