//! The Just projection: the bridge a person types `just` at, rendered from the graph.
//!
//! Every recipe in the generated bridge is one command of the graph, its description is
//! that command's own summary, and its body invokes the program that owns the command.
//! Nothing in it is written by hand, and the root `justfile` imports it rather than
//! listing anything.
//!
//! *Arguments are forwarded, not interpolated.* `set positional-arguments` gives each
//! recipe the real argument vector in `"$@"`, so a path with a space, a quote, a `$(...)`
//! or a leading dash reaches the executable exactly as it was typed. Nothing of the
//! caller's is ever pasted into a command line.
//!
//! *The bridge is never a source.* It is written under the checkout-local state
//! directory, keyed by the fingerprint of what it was projected from, and rewritten only
//! when that changes.

use vstd::prelude::*;

use crate::command::completion::{sanitise, sanitised_description};
use crate::command::facts::{Facts, SHELL_BIN, spelled_from};
use crate::command::graph::{CommandGraph, listed_nodes, sorts_listed};
use crate::command::model::{CommandNode, Execution, Program};
use crate::strings::{is_ascii_alnum, push_char, push_str, str_eq, views};

verus! {

/// Where the generated bridge lives, relative to the repository root.
pub const PATH: &'static str = ".ai/local/state/command/bridge.just";

/// The first line of the file, so that nobody edits it twice.
pub const HEADER: &'static str = "GENERATED FILE — DO NOT EDIT DIRECTLY";

/// The command that rewrites it.
pub const REGENERATE: &'static str = "majordomus commands bridge";

// ------------------------------------------------------------------ words

/// A word without the characters that could close a raw Just string or end a line.
pub open spec fn unquotable(w: Seq<char>) -> Seq<char>
    decreases w.len(),
{
    if w.len() == 0 {
        seq![]
    } else if w.last() == '\'' || w.last() == '\n' {
        unquotable(w.drop_last())
    } else {
        unquotable(w.drop_last()).push(w.last())
    }
}

/// A word as a Just raw string literal.
pub open spec fn quoted(w: Seq<char>) -> Seq<char> {
    seq!['\''] + unquotable(w) + seq!['\'']
}

proof fn lemma_unquotable(w: Seq<char>)
    ensures
        forall|i: int| 0 <= i < unquotable(w).len() ==> #[trigger] unquotable(w)[i] != '\'' && unquotable(w)[i] != '\n',
        (forall|i: int| 0 <= i < w.len() ==> #[trigger] w[i] != '\'' && w[i] != '\n') ==> unquotable(w) == w,
    decreases w.len(),
{
    if w.len() > 0 {
        lemma_unquotable(w.drop_last());
        let u = unquotable(w);
        assert forall|i: int| 0 <= i < u.len() implies #[trigger] u[i] != '\'' && u[i] != '\n' by {
            if i < unquotable(w.drop_last()).len() {
                assert(u[i] == unquotable(w.drop_last())[i]);
            }
        }
        if forall|i: int| 0 <= i < w.len() ==> #[trigger] w[i] != '\'' && w[i] != '\n' {
            assert forall|i: int| 0 <= i < w.drop_last().len() implies #[trigger] w.drop_last()[i] != '\''
                && w.drop_last()[i] != '\n' by {
                assert(w.drop_last()[i] == w[i]);
            }
            assert(w.last() == w[w.len() - 1]);
            assert(w.drop_last().push(w.last()) =~= w);
        }
    }
}

/// A word as a Just string literal. Single quotes in Just are raw: nothing inside them is
/// interpreted, which is exactly what a projected value needs. A word carrying a single
/// quote or a line break — which no command path or program name of this repository does
/// — loses those characters, because there is no escape inside a raw string: the literal
/// it gives has its two quotes and no other.
pub fn quote(word: &str) -> (r: String)
    ensures
        r@ == quoted(word@),
        r@.len() >= 2,
        r@[0] == '\'',
        r@.last() == '\'',
        forall|i: int| 0 < i < r@.len() - 1 ==> #[trigger] r@[i] != '\'' && r@[i] != '\n',
{
    let n = word.unicode_len();
    let mut out = String::new();
    push_char(&mut out, '\'');
    let mut i: usize = 0;
    while i < n
        invariant
            n == word@.len(),
            i <= n,
            out@ == seq!['\''] + unquotable(word@.subrange(0, i as int)),
        decreases n - i,
    {
        let c = word.get_char(i);
        let ghost sub = word@.subrange(0, i + 1);
        assert(sub.drop_last() =~= word@.subrange(0, i as int));
        assert(sub.last() == c);
        if c != '\'' && c != '\n' {
            push_char(&mut out, c);
        }
        assert(out@ =~= seq!['\''] + unquotable(sub));
        i += 1;
    }
    assert(word@.subrange(0, n as int) =~= word@);
    push_char(&mut out, '\'');
    proof {
        lemma_unquotable(word@);
        let u = unquotable(word@);
        assert forall|i: int| 0 < i < out@.len() - 1 implies #[trigger] out@[i] != '\'' && out@[i] != '\n' by {
            assert(out@[i] == u[i - 1]);
        }
    }
    assert(out@ =~= quoted(word@));
    out
}

/// One line, whatever the source said: a description that carried a newline would end
/// the comment and turn the next line into Just syntax.
pub open spec fn one_line_of(text: Seq<char>) -> Seq<char> {
    match sanitised_description(text) {
        Some(s) => s,
        None => "(no description)"@,
    }
}

/// One line of description.
pub fn one_line(text: &str) -> (r: String)
    ensures
        r@ == one_line_of(text@),
{
    match sanitise(text) {
        Some(s) => s,
        None => String::from_str("(no description)"),
    }
}

/// Words, each quoted, separated by single spaces.
pub open spec fn quoted_words(ws: Seq<Seq<char>>) -> Seq<char>
    decreases ws.len(),
{
    if ws.len() == 0 {
        seq![]
    } else if ws.len() == 1 {
        quoted(ws[0])
    } else {
        quoted_words(ws.drop_last()) + seq![' '] + quoted(ws.last())
    }
}

fn push_quoted_words(out: &mut String, ws: &Vec<String>)
    ensures
        final(out)@ == old(out)@ + quoted_words(views(ws@)),
{
    let ghost start = out@;
    let mut i: usize = 0;
    while i < ws.len()
        invariant
            i <= ws@.len(),
            out@ == start + quoted_words(views(ws@.subrange(0, i as int))),
        decreases ws.len() - i,
    {
        let ghost w = views(ws@.subrange(0, i + 1));
        assert(w.drop_last() =~= views(ws@.subrange(0, i as int)));
        assert(w.last() == ws@[i as int]@);
        if i > 0 {
            push_char(out, ' ');
        }
        let q = quote(ws[i].as_str());
        push_str(out, q.as_str());
        if i == 0 {
            assert(w.len() == 1);
            assert(w[0] == ws@[0]@);
        }
        assert(out@ =~= start + quoted_words(w));
        i += 1;
    }
    assert(ws@.subrange(0, ws@.len() as int) =~= ws@);
}

// ------------------------------------------------------------------ recipes

/// The forwarded arguments at the end of a body line.
pub open spec fn forwarded() -> Seq<char> {
    seq![' ', '"', '$', '@', '"']
}

/// The lines of a recipe's body: one per step, each the program and the words the
/// command declares, then `"$@"` on the line that takes the caller's arguments.
pub open spec fn body_lines(e: Execution) -> Seq<Seq<char>> {
    match e {
        Execution::Native { argv } => seq![
            "@\"{{majordomus_native}}\" "@ + quoted_words(views(argv@)) + forwarded(),
        ],
        Execution::Shell { argv } => seq![
            "@\"{{majordomus_shell}}\" "@ + quoted_words(views(argv@)) + forwarded(),
        ],
        Execution::External { steps } => Seq::new(
            steps@.len(),
            |i: int|
                if i == steps@.len() - 1 {
                    quoted_words(views(steps@[i]@)) + forwarded()
                } else {
                    quoted_words(views(steps@[i]@))
                },
        ),
    }
}

fn body(node: &CommandNode) -> (r: Vec<String>)
    ensures
        views(r@) == body_lines(node.execution),
{
    match &node.execution {
        Execution::Native { argv } => {
            let mut line = String::from_str("@\"{{majordomus_native}}\" ");
            push_quoted_words(&mut line, argv);
            push_str(&mut line, " \"$@\"");
            proof {
                reveal_strlit(" \"$@\"");
                assert(" \"$@\""@ =~= forwarded());
            }
            let r = vec![line];
            assert(views(r@) =~= body_lines(node.execution));
            r
        },
        Execution::Shell { argv } => {
            let mut line = String::from_str("@\"{{majordomus_shell}}\" ");
            push_quoted_words(&mut line, argv);
            push_str(&mut line, " \"$@\"");
            proof {
                reveal_strlit(" \"$@\"");
                assert(" \"$@\""@ =~= forwarded());
            }
            let r = vec![line];
            assert(views(r@) =~= body_lines(node.execution));
            r
        },
        Execution::External { steps } => {
            let mut out: Vec<String> = Vec::new();
            let mut i: usize = 0;
            while i < steps.len()
                invariant
                    i <= steps@.len(),
                    node.execution == (Execution::External { steps: *steps }),
                    views(out@) == body_lines(node.execution).take(i as int),
                decreases steps.len() - i,
            {
                let mut line = String::new();
                push_quoted_words(&mut line, &steps[i]);
                if i + 1 == steps.len() {
                    push_str(&mut line, " \"$@\"");
                    proof {
                        reveal_strlit(" \"$@\"");
                        assert(" \"$@\""@ =~= forwarded());
                    }
                }
                assert(body_lines(node.execution)[i as int] == line@);
                let ghost prev = out@;
                out.push(line);
                assert(views(out@) =~= views(prev).push(line@));
                assert(body_lines(node.execution).take(i + 1) =~= body_lines(node.execution).take(i as int).push(line@));
                i += 1;
            }
            assert(body_lines(node.execution).take(steps@.len() as int) =~= body_lines(node.execution));
            out
        },
    }
}

/// Every line that takes the caller's words ends by forwarding them, and only the last
/// step of a workflow takes them.
pub proof fn law_arguments_are_forwarded_and_never_interpolated(e: Execution)
    ensures
        body_lines(e).len() > 0 ==> {
            let last = body_lines(e).last();
            &&& last.len() >= 5
            &&& last.subrange(last.len() - 5, last.len() as int) == forwarded()
        },
{
    if body_lines(e).len() > 0 {
        let last = body_lines(e).last();
        match e {
            Execution::External { steps } => {
                let x = quoted_words(views(steps@[steps@.len() - 1]@));
                assert(last == x + forwarded());
                assert((x + forwarded()).subrange(x.len() as int, x.len() as int + 5) =~= forwarded());
            },
            Execution::Native { argv } => {
                let x = "@\"{{majordomus_native}}\" "@ + quoted_words(views(argv@));
                assert(last == x + forwarded());
                assert((x + forwarded()).subrange(x.len() as int, x.len() as int + 5) =~= forwarded());
            },
            Execution::Shell { argv } => {
                let x = "@\"{{majordomus_shell}}\" "@ + quoted_words(views(argv@));
                assert(last == x + forwarded());
                assert((x + forwarded()).subrange(x.len() as int, x.len() as int + 5) =~= forwarded());
            },
        }
    }
}

/// The description a recipe carries: the command's summary, with a deprecation on the
/// front when there is one.
pub open spec fn summary_of(node: CommandNode) -> Seq<char> {
    match node.deprecation {
        Some(d) => "DEPRECATED: "@ + d.note@ + " "@ + node.summary@,
        None => node.summary@,
    }
}

fn summary(node: &CommandNode) -> (r: String)
    ensures
        r@ == summary_of(*node),
{
    match &node.deprecation {
        Some(d) => {
            let mut s = String::from_str("DEPRECATED: ");
            push_str(&mut s, d.note.as_str());
            push_str(&mut s, " ");
            push_str(&mut s, node.summary.as_str());
            s
        },
        None => String::from_str(node.summary.as_str()),
    }
}

/// The characters a group name keeps.
pub open spec fn group_chars(s: Seq<char>) -> Seq<char>
    decreases s.len(),
{
    if s.len() == 0 {
        seq![]
    } else if is_ascii_alnum(s.last()) || s.last() == '-' || s.last() == '_' {
        group_chars(s.drop_last()).push(s.last())
    } else {
        group_chars(s.drop_last())
    }
}

/// The first tag that is not a stage, if any.
pub open spec fn first_category(tags: Seq<Seq<char>>) -> Option<Seq<char>>
    decreases tags.len(),
{
    if tags.len() == 0 {
        None
    } else if !(tags[0].len() >= 6 && tags[0].subrange(0, 6) == "stage:"@) {
        Some(tags[0])
    } else {
        first_category(tags.drop_first())
    }
}

/// The group `just --list` files a recipe under: the category the shell tool's registry
/// gives its commands, else the command's own first word.
pub open spec fn group_of(node: CommandNode) -> Seq<char> {
    let raw = match node.program {
        Program::Shell => match first_category(views(node.tags@)) {
            Some(t) => t,
            None => "lifecycle"@,
        },
        _ => if node.path@.len() > 0 {
            node.path@[0]@
        } else {
            seq![]
        },
    };
    group_chars(raw)
}

fn keep_group_chars(s: &str) -> (r: String)
    ensures
        r@ == group_chars(s@),
{
    let n = s.unicode_len();
    let mut out = String::new();
    let mut i: usize = 0;
    while i < n
        invariant
            n == s@.len(),
            i <= n,
            out@ == group_chars(s@.subrange(0, i as int)),
        decreases n - i,
    {
        let c = s.get_char(i);
        let ghost sub = s@.subrange(0, i + 1);
        assert(sub.drop_last() =~= s@.subrange(0, i as int));
        assert(sub.last() == c);
        if ('a' <= c && c <= 'z') || ('A' <= c && c <= 'Z') || ('0' <= c && c <= '9') || c == '-'
            || c == '_' {
            push_char(&mut out, c);
        }
        i += 1;
    }
    assert(s@.subrange(0, n as int) =~= s@);
    out
}

proof fn lemma_first_category(tags: Seq<Seq<char>>, k: int)
    requires
        0 <= k <= tags.len(),
        forall|j: int| 0 <= j < k ==> (#[trigger] tags[j]).len() >= 6 && tags[j].subrange(0, 6) == "stage:"@,
        k < tags.len() ==> !(tags[k].len() >= 6 && tags[k].subrange(0, 6) == "stage:"@),
    ensures
        k < tags.len() ==> first_category(tags) == Some(tags[k]),
        k == tags.len() ==> first_category(tags) is None,
    decreases k,
{
    if k > 0 {
        let t = tags.drop_first();
        assert forall|j: int| 0 <= j < k - 1 implies (#[trigger] t[j]).len() >= 6 && t[j].subrange(0, 6) == "stage:"@ by {
            assert(t[j] == tags[j + 1]);
        }
        if k < tags.len() {
            assert(t[k - 1] == tags[k]);
        }
        assert(tags[0].len() >= 6 && tags[0].subrange(0, 6) == "stage:"@);
        lemma_first_category(t, k - 1);
    }
}

fn group(node: &CommandNode) -> (r: String)
    ensures
        r@ == group_of(*node),
{
    if node.program == Program::Shell {
        let mut found: Option<usize> = None;
        let mut i: usize = 0;
        while i < node.tags.len() && found.is_none()
            invariant
                i <= node.tags@.len(),
                match found {
                    Some(k) => k < node.tags@.len() && first_category(views(node.tags@)) == Some(node.tags@[k as int]@),
                    None => forall|j: int| 0 <= j < i ==> (#[trigger] views(node.tags@)[j]).len() >= 6
                        && views(node.tags@)[j].subrange(0, 6) == "stage:"@,
                },
            decreases node.tags.len() - i,
        {
            let t = node.tags[i].as_str();
            let staged = t.unicode_len() >= 6 && str_eq(t.substring_char(0, 6), "stage:");
            if !staged {
                proof {
                    lemma_first_category(views(node.tags@), i as int);
                }
                found = Some(i);
            }
            i += 1;
        }
        match found {
            Some(k) => keep_group_chars(node.tags[k].as_str()),
            None => {
                proof {
                    lemma_first_category(views(node.tags@), node.tags@.len() as int);
                }
                keep_group_chars("lifecycle")
            },
        }
    } else if node.path.len() > 0 {
        keep_group_chars(node.path[0].as_str())
    } else {
        String::new()
    }
}

/// The body lines of a recipe, each indented and ended.
pub open spec fn indented(lines: Seq<Seq<char>>) -> Seq<char>
    decreases lines.len(),
{
    if lines.len() == 0 {
        seq![]
    } else {
        indented(lines.drop_last()) + "    "@ + lines.last() + seq!['\n']
    }
}

/// One recipe: its description, its group, its name taking every argument, and a body
/// that forwards them; nothing for a command Just has no name for.
pub open spec fn recipe_text(node: CommandNode) -> Seq<char> {
    match node.projections.just {
        None => seq![],
        Some(name) => "# "@ + one_line_of(summary_of(node)) + "\n[group('"@ + group_of(node) + "')]\n"@
            + name@ + " *args:\n"@ + indented(body_lines(node.execution)) + seq!['\n'],
    }
}

fn recipe(node: &CommandNode) -> (r: String)
    ensures
        r@ == recipe_text(*node),
{
    match &node.projections.just {
        None => String::new(),
        Some(name) => {
            let mut out = String::from_str("# ");
            let s = summary(node);
            let line = one_line(s.as_str());
            push_str(&mut out, line.as_str());
            push_str(&mut out, "\n[group('");
            let g = group(node);
            push_str(&mut out, g.as_str());
            push_str(&mut out, "')]\n");
            push_str(&mut out, name.as_str());
            push_str(&mut out, " *args:\n");
            let ghost head = out@;
            let lines = body(node);
            let mut i: usize = 0;
            while i < lines.len()
                invariant
                    i <= lines@.len(),
                    out@ == head + indented(views(lines@).take(i as int)),
                decreases lines.len() - i,
            {
                push_str(&mut out, "    ");
                push_str(&mut out, lines[i].as_str());
                push_char(&mut out, '\n');
                let ghost t = views(lines@).take(i + 1);
                assert(t.drop_last() =~= views(lines@).take(i as int));
                assert(t.last() == lines@[i as int]@);
                assert(out@ =~= head + indented(t));
                i += 1;
            }
            assert(views(lines@).take(lines@.len() as int) =~= views(lines@));
            push_char(&mut out, '\n');
            assert(out@ =~= recipe_text(*node));
            out
        },
    }
}


// ------------------------------------------------------------------ the bridge

/// The alias lines of one command: each alias it keeps, pointing at its recipe.
pub open spec fn alias_lines_of(aliases: Seq<Seq<char>>, name: Seq<char>) -> Seq<char>
    decreases aliases.len(),
{
    if aliases.len() == 0 {
        seq![]
    } else {
        alias_lines_of(aliases.drop_last(), name) + "alias "@ + aliases.last() + " := "@ + name + seq!['\n']
    }
}

/// The alias lines of a command with a recipe name.
pub open spec fn node_alias_lines(node: CommandNode) -> Seq<char> {
    match node.projections.just {
        Some(name) => alias_lines_of(views(node.projections.just_aliases@), name@),
        None => seq![],
    }
}

/// The recipes of some commands, one after the other.
pub open spec fn recipes_text(nodes: Seq<CommandNode>) -> Seq<char>
    decreases nodes.len(),
{
    if nodes.len() == 0 {
        seq![]
    } else {
        recipes_text(nodes.drop_last()) + recipe_text(nodes.last())
    }
}

/// The alias lines of some commands, one after the other.
pub open spec fn aliases_text(nodes: Seq<CommandNode>) -> Seq<char>
    decreases nodes.len(),
{
    if nodes.len() == 0 {
        seq![]
    } else {
        aliases_text(nodes.drop_last()) + node_alias_lines(nodes.last())
    }
}

/// What the bridge's fingerprint is taken over: the graph's structure and the spelling of
/// every program a recipe names.
pub open spec fn fingerprint_text(structure: Seq<char>, native: Seq<char>, shell: Seq<char>) -> Seq<char> {
    structure + seq!['\0'] + native + seq!['\0'] + shell
}

/// The head of the bridge: what it is, where it came from, and the two programs.
pub open spec fn preamble_text(
    schema: Seq<char>,
    version: Seq<char>,
    fingerprint: Seq<char>,
    native: Seq<char>,
    shell: Seq<char>,
) -> Seq<char> {
    "# "@ + HEADER@ + "\n# Source: the Majordomus command graph ("@ + schema + "); regenerate with `"@
        + REGENERATE@ + "`\n# Generator: majordomus-cli "@ + version + "\n# Fingerprint: "@ + fingerprint
        + "\n#\n# Every recipe below is one command of the graph. Its description is that\n# command's own summary and exists nowhere else. Arguments are forwarded through\n# \"$@\", never interpolated, so anything a person types reaches the program as\n# they typed it.\n\nset positional-arguments := true\n\nmajordomus_native := "@
        + quoted(native) + "\nmajordomus_shell := "@ + quoted(shell) + "\n\n"@
}

/// How the Rust executable is spelled by these facts: as resolved, or by its name on the
/// path when none was.
pub open spec fn native_spelling(facts: Facts) -> Seq<char> {
    match facts.native {
        Some(n) => spelled_from(facts.root@, n@),
        None => "majordomus"@,
    }
}

/// The commands a bridge renders, in the order of the list.
pub open spec fn listed_in_order(cs: Seq<CommandNode>, perm: Seq<int>) -> Seq<CommandNode> {
    perm.map_values(|p: int| listed_nodes(cs)[p])
}

/// The bridge as text, and the fingerprint it was rendered at.
#[derive(Debug, Clone, PartialEq, Eq)]
pub struct Bridge {
    /// The file's whole content.
    pub text: String,
    /// What the content is a function of: the graph's structure and the executables the
    /// recipes name. Availability is deliberately not in it — a checkout that lost a
    /// dependency would render the same file.
    pub fingerprint: String,
}

/// A path under a root (`Path::join` of a relative path).
pub open spec fn joined(root: Seq<char>, rel: Seq<char>) -> Seq<char> {
    if root.len() == 0 {
        rel
    } else if root.last() == '/' {
        root + rel
    } else {
        root + seq!['/'] + rel
    }
}

fn bridge_fingerprint(structure: &str, native: &str, shell: &str) -> (r: String)
    ensures
        r@ == crate::digest::sha256_hex_of(fingerprint_text(structure@, native@, shell@)),
{
    let mut t = String::from_str(structure);
    push_char(&mut t, '\0');
    push_str(&mut t, native);
    push_char(&mut t, '\0');
    push_str(&mut t, shell);
    assert(t@ =~= fingerprint_text(structure@, native@, shell@));
    crate::digest::sha256_hex(t.as_str())
}

fn preamble(schema: &str, version: &str, fingerprint: &str, native: &str, shell: &str) -> (r: String)
    ensures
        r@ == preamble_text(schema@, version@, fingerprint@, native@, shell@),
{
    let mut t = String::from_str("# ");
    push_str(&mut t, HEADER);
    push_str(&mut t, "\n# Source: the Majordomus command graph (");
    push_str(&mut t, schema);
    push_str(&mut t, "); regenerate with `");
    push_str(&mut t, REGENERATE);
    push_str(&mut t, "`\n# Generator: majordomus-cli ");
    push_str(&mut t, version);
    push_str(&mut t, "\n# Fingerprint: ");
    push_str(&mut t, fingerprint);
    push_str(&mut t, "\n#\n# Every recipe below is one command of the graph. Its description is that\n# command's own summary and exists nowhere else. Arguments are forwarded through\n# \"$@\", never interpolated, so anything a person types reaches the program as\n# they typed it.\n\nset positional-arguments := true\n\nmajordomus_native := ");
    let qn = quote(native);
    push_str(&mut t, qn.as_str());
    push_str(&mut t, "\nmajordomus_shell := ");
    let qs = quote(shell);
    push_str(&mut t, qs.as_str());
    push_str(&mut t, "\n\n");
    assert(t@ =~= preamble_text(schema@, version@, fingerprint@, native@, shell@));
    t
}

fn push_alias_lines(out: &mut String, node: &CommandNode)
    ensures
        final(out)@ == old(out)@ + node_alias_lines(*node),
{
    match &node.projections.just {
        Some(name) => {
            let ghost start = out@;
            let aliases = &node.projections.just_aliases;
            let mut i: usize = 0;
            while i < aliases.len()
                invariant
                    i <= aliases@.len(),
                    out@ == start + alias_lines_of(views(aliases@).take(i as int), name@),
                decreases aliases.len() - i,
            {
                push_str(out, "alias ");
                push_str(out, aliases[i].as_str());
                push_str(out, " := ");
                push_str(out, name.as_str());
                push_char(out, '\n');
                let ghost t = views(aliases@).take(i + 1);
                assert(t.drop_last() =~= views(aliases@).take(i as int));
                assert(t.last() == aliases@[i as int]@);
                assert(out@ =~= start + alias_lines_of(t, name@));
                i += 1;
            }
            assert(views(aliases@).take(aliases@.len() as int) =~= views(aliases@));
        },
        None => {
            assert(old(out)@ + seq![] =~= old(out)@);
        },
    }
}

impl Bridge {
    /// The path of the bridge inside a checkout.
    pub fn path(root: &str) -> (r: String)
        ensures
            r@ == joined(root@, PATH@),
    {
        join_path(root, PATH)
    }

    /// Render the bridge of a graph, as the facts of this checkout say the programs are
    /// reached: a preamble, one recipe per listed command in the order of the list, and
    /// the aliases after every recipe.
    pub fn render(graph: &CommandGraph, facts: &Facts) -> (r: Self)
        ensures
            exists|perm: Seq<int>|
                sorts_listed(listed_nodes(graph.commands@), perm) && ({
                    let nodes = listed_in_order(graph.commands@, perm);
                    let native = native_spelling(*facts);
                    let fp = crate::digest::sha256_hex_of(fingerprint_text(graph.structure@, native, SHELL_BIN@));
                    &&& r.fingerprint@ == fp
                    &&& r.text@ == preamble_text(graph.schema@, graph.version@, fp, native, SHELL_BIN@)
                        + recipes_text(nodes) + aliases_text(nodes)
                }),
    {
        let native = match facts.native_command() {
            Some(n) => n,
            None => String::from_str("majordomus"),
        };
        let shell = String::from_str(SHELL_BIN);
        let fingerprint = bridge_fingerprint(graph.structure.as_str(), native.as_str(), shell.as_str());
        let mut text = preamble(
            graph.schema.as_str(),
            graph.version.as_str(),
            fingerprint.as_str(),
            native.as_str(),
            shell.as_str(),
        );
        let ghost head = text@;
        let listed = graph.listed();
        let ghost perm = choose|perm: Seq<int>|
            sorts_listed(listed_nodes(graph.commands@), perm) && listed@.len() == perm.len() && (forall|k: int|
                0 <= k < perm.len() ==> *(#[trigger] listed@[k]) == listed_nodes(graph.commands@)[perm[k]]);
        let ghost nodes = listed_in_order(graph.commands@, perm);
        assert(nodes.len() == listed@.len());
        let mut i: usize = 0;
        while i < listed.len()
            invariant
                i <= listed@.len(),
                nodes.len() == listed@.len(),
                forall|k: int| 0 <= k < listed@.len() ==> *(#[trigger] listed@[k]) == nodes[k],
                text@ == head + recipes_text(nodes.take(i as int)),
            decreases listed.len() - i,
        {
            let r = recipe(listed[i]);
            push_str(&mut text, r.as_str());
            let ghost t = nodes.take(i + 1);
            assert(t.drop_last() =~= nodes.take(i as int));
            assert(t.last() == nodes[i as int]);
            proof {
                crate::strings::lemma_add_assoc(head, recipes_text(nodes.take(i as int)), recipe_text(nodes[i as int]));
            }
            i += 1;
        }
        assert(nodes.take(nodes.len() as int) =~= nodes);
        let ghost mid = text@;
        let mut i: usize = 0;
        while i < listed.len()
            invariant
                i <= listed@.len(),
                nodes.len() == listed@.len(),
                forall|k: int| 0 <= k < listed@.len() ==> *(#[trigger] listed@[k]) == nodes[k],
                text@ == mid + aliases_text(nodes.take(i as int)),
            decreases listed.len() - i,
        {
            push_alias_lines(&mut text, listed[i]);
            let ghost t = nodes.take(i + 1);
            assert(t.drop_last() =~= nodes.take(i as int));
            assert(t.last() == nodes[i as int]);
            proof {
                crate::strings::lemma_add_assoc(mid, aliases_text(nodes.take(i as int)), node_alias_lines(nodes[i as int]));
            }
            i += 1;
        }
        let b = Bridge { text, fingerprint };
        assert(b.text@ == preamble_text(graph.schema@, graph.version@, b.fingerprint@, native@, SHELL_BIN@)
            + recipes_text(nodes) + aliases_text(nodes));
        b
    }
}


/// A relative path under a root (`Path::join`).
pub fn join_path(root: &str, rel: &str) -> (r: String)
    ensures
        r@ == joined(root@, rel@),
{
    let n = root.unicode_len();
    if n == 0 {
        return String::from_str(rel);
    }
    let mut out = String::from_str(root);
    if root.get_char(n - 1) != '/' {
        push_char(&mut out, '/');
    }
    push_str(&mut out, rel);
    out
}

} // verus!
