//! The canonical command descriptor: identity, path, arguments, execution, effect,
//! availability, provenance and the projections derived from them. Plain data, with no
//! handler, no shell string and no transport type in it.
//!
//! A [`CommandNode`] is to the developer surfaces what a capability is to the machine
//! surfaces: the one place a command is described. The command line, the generated Just
//! bridge, shell completion, the Cockpit's palette and the generated reference are
//! renderings of these values and declare nothing of their own.

use vstd::prelude::*;

use crate::strings::{
    is_ascii_digit, is_ascii_lower, lemma_split_nonempty, prefixed_join, push_char, push_str, split_seq,
    split_text, str_eq, views,
};

verus! {

/// The schema of the serialised graph. A public machine interface: the Cockpit, the
/// completion index and any external tool read it.
pub const SCHEMA: &'static str = "majordomus/command-graph/v1";

// ------------------------------------------------------------------ programs

/// Which executable owns a command. Two programs share the name `majordomus` in this
/// repository — the Rust executable and the shell tool — and a workflow is a third owner
/// that runs something else entirely. The program is part of the canonical identity
/// because two programs may legitimately both have a `bench`.
#[derive(Debug, Clone, Copy, PartialEq, Eq, Structural, PartialOrd, Ord, Hash)]
pub enum Program {
    /// The Rust executable: the read-only interfaces, generation and introspection.
    Native,
    /// The shell tool: the task lifecycle.
    Shell,
    /// A workflow of this repository: something neither executable implements, declared
    /// as one object and executed by the program it names.
    Workflow,
}

/// The identity segment of a program.
pub open spec fn program_word(p: Program) -> Seq<char> {
    match p {
        Program::Native => "native"@,
        Program::Shell => "shell"@,
        Program::Workflow => "workflow"@,
    }
}

/// The prefix a program's projection takes when it loses a name.
pub open spec fn prefix_word(p: Program) -> Seq<char> {
    match p {
        Program::Native => "rust"@,
        Program::Shell => "mj"@,
        Program::Workflow => "wf"@,
    }
}

/// The precedence of a program: lower keeps the bare name.
pub open spec fn precedence_of(p: Program) -> u8 {
    match p {
        Program::Native => 0,
        Program::Shell => 1,
        Program::Workflow => 2,
    }
}

/// The program whose identity segment a word is, if any.
pub open spec fn program_named(w: Seq<char>) -> Option<Program> {
    if w == "native"@ {
        Some(Program::Native)
    } else if w == "shell"@ {
        Some(Program::Shell)
    } else if w == "workflow"@ {
        Some(Program::Workflow)
    } else {
        None
    }
}

impl Program {
    /// The identity segment, and the prefix a losing projection takes.
    pub fn as_str(self) -> (r: &'static str)
        ensures
            r@ == program_word(self),
    {
        match self {
            Program::Native => "native",
            Program::Shell => "shell",
            Program::Workflow => "workflow",
        }
    }

    /// The prefix a projection uses when this program loses a name collision. The shell
    /// tool's is `mj`, the prefix its own library already uses for everything it owns, so
    /// the projection reads as the tool a person already knows.
    pub fn projection_prefix(self) -> (r: &'static str)
        ensures
            r@ == prefix_word(self),
    {
        match self {
            Program::Native => "rust",
            Program::Shell => "mj",
            Program::Workflow => "wf",
        }
    }

    /// Which program keeps the bare name when two want it. Lower wins. Fixed and
    /// documented so that a projection name never depends on discovery order.
    pub fn precedence(self) -> (r: u8)
        ensures
            r == precedence_of(self),
    {
        match self {
            Program::Native => 0,
            Program::Shell => 1,
            Program::Workflow => 2,
        }
    }

    /// Every program, in precedence order.
    pub fn all() -> (r: Vec<Program>)
        ensures
            r@ == seq![Program::Native, Program::Shell, Program::Workflow],
    {
        vec![Program::Native, Program::Shell, Program::Workflow]
    }
}

/// No two programs share a precedence, and the precedence orders them as written.
pub proof fn law_precedence_is_a_strict_order(a: Program, b: Program)
    ensures
        (precedence_of(a) == precedence_of(b)) == (a == b),
        precedence_of(Program::Native) < precedence_of(Program::Shell),
        precedence_of(Program::Shell) < precedence_of(Program::Workflow),
{
}

/// The program a word names, when it names one.
pub fn program_of_word(w: &str) -> (r: Option<Program>)
    ensures
        r == program_named(w@),
{
    if str_eq(w, "native") {
        Some(Program::Native)
    } else if str_eq(w, "shell") {
        Some(Program::Shell)
    } else if str_eq(w, "workflow") {
        Some(Program::Workflow)
    } else {
        None
    }
}

// ------------------------------------------------------------------ identities

/// A character a path word may hold.
pub open spec fn word_char(c: char) -> bool {
    is_ascii_lower(c) || is_ascii_digit(c) || c == '-'
}

/// A path word: `[a-z0-9][a-z0-9-]*`.
pub open spec fn valid_word(w: Seq<char>) -> bool {
    &&& w.len() > 0
    &&& w[0] != '-'
    &&& forall|i: int| 0 <= i < w.len() ==> word_char(#[trigger] w[i])
}

/// The index of the first occurrence of a character, or the length when there is none.
pub open spec fn first_index(s: Seq<char>, c: char) -> int
    decreases s.len(),
{
    if s.len() == 0 {
        0
    } else if s[0] == c {
        0
    } else {
        1 + first_index(s.drop_first(), c)
    }
}

/// The first word that is not a path word.
pub open spec fn first_bad_word(words: Seq<Seq<char>>) -> Option<Seq<char>>
    decreases words.len(),
{
    if words.len() == 0 {
        None
    } else if !valid_word(words[0]) {
        Some(words[0])
    } else {
        first_bad_word(words.drop_first())
    }
}

/// What parsing a text as an identity answers: `Ok` for an identity, or the one sentence
/// that says what is wrong with it.
pub open spec fn parse_verdict(t: Seq<char>) -> Result<(), Seq<char>> {
    let d = first_index(t, '.');
    if d >= t.len() {
        Err("needs a program, a dot, and at least one path word"@)
    } else if program_named(t.subrange(0, d)) is None {
        Err("program '"@ + t.subrange(0, d) + "' is not one this executable knows"@)
    } else if d + 1 == t.len() {
        Err("the path after the program is empty"@)
    } else {
        match first_bad_word(split_seq(t.subrange(d + 1, t.len() as int), '.')) {
            Some(w) => Err("path word '"@ + w + "' is not [a-z0-9][a-z0-9-]*"@),
            None => Ok(()),
        }
    }
}

/// Is this text a command identity?
pub open spec fn is_identity(t: Seq<char>) -> bool {
    parse_verdict(t) is Ok
}

/// The text of the identity of a command of a program with these path words.
pub open spec fn identity_text(p: Program, path: Seq<Seq<char>>) -> Seq<char> {
    program_word(p) + crate::strings::prefixed_join(path, '.')
}

/// The program an identity's text names in its first segment; a text that names none
/// belongs to the workflows.
pub open spec fn program_of_text(t: Seq<char>) -> Program {
    match program_named(split_seq(t, '.')[0]) {
        Some(p) => p,
        None => Program::Workflow,
    }
}

/// A stable, machine-meaningful command identity: the program, a dot, and the command's
/// path words joined by dots. `native.bench.coverage`, `shell.doctor`,
/// `workflow.site-build`.
///
/// The identity survives a title change, a help rewrite and a projection rename, because
/// none of those is in it. Every surface name — the Just recipe, the Cockpit action, the
/// documentation route — is derived from this and never the other way round.
#[derive(Debug, Clone, PartialEq, Eq, PartialOrd, Ord, Hash)]
pub struct CommandId(String);

impl View for CommandId {
    type V = Seq<char>;

    closed spec fn view(&self) -> Seq<char> {
        self.0@
    }
}

pub proof fn lemma_first_index(s: Seq<char>, c: char)
    ensures
        0 <= first_index(s, c) <= s.len(),
        forall|j: int| 0 <= j < first_index(s, c) ==> s[j] != c,
        first_index(s, c) < s.len() ==> s[first_index(s, c)] == c,
    decreases s.len(),
{
    if s.len() > 0 && s[0] != c {
        lemma_first_index(s.drop_first(), c);
        assert forall|j: int| 0 <= j < first_index(s, c) implies s[j] != c by {
            if j > 0 {
                assert(s[j] == s.drop_first()[j - 1]);
            }
        }
    }
}

pub proof fn lemma_first_index_exact(s: Seq<char>, c: char, k: int)
    requires
        0 <= k <= s.len(),
        forall|j: int| 0 <= j < k ==> s[j] != c,
        k < s.len() ==> s[k] == c,
    ensures
        first_index(s, c) == k,
    decreases s.len(),
{
    if s.len() > 0 && k > 0 {
        let t = s.drop_first();
        assert forall|j: int| 0 <= j < k - 1 implies t[j] != c by {
            assert(t[j] == s[j + 1]);
        }
        if k - 1 < t.len() {
            assert(t[k - 1] == s[k]);
        }
        lemma_first_index_exact(t, c, k - 1);
    }
}

proof fn lemma_first_bad_word(words: Seq<Seq<char>>, k: int)
    requires
        0 <= k <= words.len(),
        forall|j: int| 0 <= j < k ==> valid_word(#[trigger] words[j]),
    ensures
        k < words.len() && !valid_word(words[k]) ==> first_bad_word(words) == Some(words[k]),
        k == words.len() ==> first_bad_word(words) is None,
    decreases k,
{
    if k > 0 {
        let t = words.drop_first();
        assert forall|j: int| 0 <= j < k - 1 implies valid_word(#[trigger] t[j]) by {
            assert(t[j] == words[j + 1]);
        }
        assert(valid_word(words[0]));
        lemma_first_bad_word(t, k - 1);
        if k < words.len() {
            assert(t[k - 1] == words[k]);
        }
    }
}

fn is_valid_word(w: &str) -> (r: bool)
    ensures
        r == valid_word(w@),
{
    let n = w.unicode_len();
    if n == 0 {
        return false;
    }
    if w.get_char(0) == '-' {
        return false;
    }
    let mut i: usize = 0;
    while i < n
        invariant
            n == w@.len(),
            i <= n,
            forall|j: int| 0 <= j < i ==> word_char(#[trigger] w@[j]),
        decreases n - i,
    {
        let c = w.get_char(i);
        if !(('a' <= c && c <= 'z') || ('0' <= c && c <= '9') || c == '-') {
            assert(!word_char(w@[i as int]));
            return false;
        }
        i += 1;
    }
    true
}

fn index_of_char(s: &str, c: char) -> (r: usize)
    ensures
        r == first_index(s@, c),
{
    let n = s.unicode_len();
    let mut i: usize = 0;
    while i < n
        invariant
            n == s@.len(),
            i <= n,
            forall|j: int| 0 <= j < i ==> s@[j] != c,
        decreases n - i,
    {
        if s.get_char(i) == c {
            proof {
                lemma_first_index_exact(s@, c, i as int);
            }
            return i;
        }
        i += 1;
    }
    proof {
        lemma_first_index_exact(s@, c, n as int);
    }
    n
}

fn text_of(s: &str) -> (r: String)
    ensures
        r@ == s@,
{
    String::from_str(s)
}

impl CommandId {
    /// The identity of a command of a program, from its path words.
    pub fn new(program: Program, path: &[String]) -> (r: Self)
        ensures
            r@ == identity_text(program, views(path@)),
    {
        let mut text = text_of(program.as_str());
        let mut i: usize = 0;
        while i < path.len()
            invariant
                i <= path@.len(),
                text@ == identity_text(program, views(path@.subrange(0, i as int))),
            decreases path.len() - i,
        {
            let ghost before = text@;
            push_char(&mut text, '.');
            push_str(&mut text, path[i].as_str());
            proof {
                let w = views(path@.subrange(0, i + 1));
                assert(w.drop_last() =~= views(path@.subrange(0, i as int)));
                assert(w.last() == path@[i as int]@);
                assert(text@ =~= identity_text(program, w));
            }
            i += 1;
        }
        assert(path@.subrange(0, path@.len() as int) =~= path@);
        CommandId(text)
    }

    /// Parse and validate: a known program, a dot, and at least one word, each word
    /// matching `[a-z0-9][a-z0-9-]*`.
    pub fn parse(text: &str) -> (r: Result<Self, String>)
        ensures
            match r {
                Ok(id) => is_identity(text@) && id@ == text@,
                Err(message) => parse_verdict(text@) == Err::<(), Seq<char>>(message@),
            },
    {
        let n = text.unicode_len();
        let d = index_of_char(text, '.');
        proof {
            lemma_first_index(text@, '.');
        }
        if d >= n {
            return Err(text_of("needs a program, a dot, and at least one path word"));
        }
        let program = text.substring_char(0, d);
        if program_of_word(program).is_none() {
            let mut m = text_of("program '");
            push_str(&mut m, program);
            push_str(&mut m, "' is not one this executable knows");
            return Err(m);
        }
        if d + 1 == n {
            return Err(text_of("the path after the program is empty"));
        }
        let rest = text.substring_char(d + 1, n);
        let words = split_text(rest, '.');
        let mut i: usize = 0;
        while i < words.len()
            invariant
                i <= words@.len(),
                views(words@) == split_seq(rest@, '.'),
                n == text@.len(),
                d < n,
                d == first_index(text@, '.'),
                d + 1 != n,
                rest@ == text@.subrange(d + 1, n as int),
                program_named(text@.subrange(0, d as int)) is Some,
                forall|j: int| 0 <= j < i ==> valid_word(#[trigger] views(words@)[j]),
            decreases words.len() - i,
        {
            if !is_valid_word(words[i].as_str()) {
                proof {
                    lemma_first_bad_word(views(words@), i as int);
                }
                let mut m = text_of("path word '");
                push_str(&mut m, words[i].as_str());
                push_str(&mut m, "' is not [a-z0-9][a-z0-9-]*");
                assert(views(words@)[i as int] == words@[i as int]@);
                assert(m@ =~= "path word '"@ + words@[i as int]@ + "' is not [a-z0-9][a-z0-9-]*"@);
                return Err(m);
            }
            i += 1;
        }
        proof {
            lemma_first_bad_word(views(words@), words@.len() as int);
        }
        Ok(CommandId(text_of(text)))
    }

    /// The identity as text.
    pub fn as_str(&self) -> (r: &str)
        ensures
            r@ == self@,
    {
        self.0.as_str()
    }

    /// The same identity, as a value of its own.
    pub fn copied(&self) -> (r: CommandId)
        ensures
            r@ == self@,
    {
        CommandId(self.0.clone())
    }

    /// Is this the same identity as another?
    pub fn same(&self, other: &CommandId) -> (r: bool)
        ensures
            r == (self@ == other@),
    {
        str_eq(self.0.as_str(), other.0.as_str())
    }

    /// The program that owns it.
    pub fn program(&self) -> (r: Program)
        ensures
            r == program_of_text(self@),
    {
        let words = split_text(self.0.as_str(), '.');
        proof {
            lemma_split_nonempty(self@, '.');
        }
        assert(words@[0]@ == views(words@)[0]);
        match program_of_word(words[0].as_str()) {
            Some(p) => p,
            None => Program::Workflow,
        }
    }

    /// The path words after the program.
    pub fn path(&self) -> (r: Vec<String>)
        ensures
            views(r@) == split_seq(self@, '.').drop_first(),
    {
        let mut words = split_text(self.0.as_str(), '.');
        proof {
            lemma_split_nonempty(self@, '.');
        }
        let ghost all = words@;
        words.remove(0);
        assert(views(words@) =~= views(all).drop_first());
        words
    }
}


proof fn lemma_prefixed_join_first(words: Seq<Seq<char>>)
    requires
        words.len() > 0,
    ensures
        prefixed_join(words, '.') == seq!['.'] + words[0] + prefixed_join(words.drop_first(), '.'),
    decreases words.len(),
{
    if words.len() == 1 {
        assert(words.drop_last().len() == 0);
        assert(words.drop_first().len() == 0);
        assert(prefixed_join(words.drop_last(), '.') =~= seq![]);
        assert(prefixed_join(words.drop_first(), '.') =~= seq![]);
        assert(words.last() == words[0]);
        assert(prefixed_join(words, '.') =~= seq!['.'] + words[0] + prefixed_join(words.drop_first(), '.'));
    } else {
        let init = words.drop_last();
        lemma_prefixed_join_first(init);
        assert(init[0] == words[0]);
        assert(init.drop_first() =~= words.drop_first().drop_last());
        assert(words.drop_first().last() == words.last());
        assert(prefixed_join(words, '.') =~= seq!['.'] + words[0] + prefixed_join(words.drop_first(), '.'));
    }
}

proof fn lemma_valid_words_have_no_dot(path: Seq<Seq<char>>)
    requires
        forall|i: int| 0 <= i < path.len() ==> valid_word(#[trigger] path[i]),
    ensures
        forall|i: int| 0 <= i < path.len() ==> !(#[trigger] path[i]).contains('.'),
{
    assert forall|i: int| 0 <= i < path.len() implies !(#[trigger] path[i]).contains('.') by {
        assert(valid_word(path[i]));
        if path[i].contains('.') {
            let k = choose|k: int| 0 <= k < path[i].len() && path[i][k] == '.';
            assert(word_char(path[i][k]));
        }
    }
}

/// The identity built from a program and path words is an identity, names that program,
/// and gives back those words, whenever there is at least one word and every word is a
/// path word.
pub proof fn law_a_built_identity_parses(program: Program, path: Seq<Seq<char>>)
    requires
        path.len() > 0,
        forall|i: int| 0 <= i < path.len() ==> valid_word(#[trigger] path[i]),
    ensures
        is_identity(identity_text(program, path)),
        program_of_text(identity_text(program, path)) == program,
        split_seq(identity_text(program, path), '.').drop_first() == path,
{
    reveal_strlit("native");
    reveal_strlit("shell");
    reveal_strlit("workflow");
    let pw = program_word(program);
    let t = identity_text(program, path);
    lemma_valid_words_have_no_dot(path);
    assert(!pw.contains('.')) by {
        if pw.contains('.') {
            let k = choose|k: int| 0 <= k < pw.len() && pw[k] == '.';
            assert(pw[k] != '.');
        }
    }
    crate::strings::lemma_split_prefixed_join(pw, path, '.');
    assert(seq![pw] + path =~= seq![pw] + path);
    assert((seq![pw] + path).drop_first() =~= path);
    assert(split_seq(t, '.')[0] == pw);
    lemma_prefixed_join_first(path);
    let rest = path[0] + prefixed_join(path.drop_first(), '.');
    assert(t =~= pw + seq!['.'] + rest);
    assert forall|j: int| 0 <= j < pw.len() implies t[j] != '.' by {
        assert(t[j] == pw[j]);
    }
    assert(t[pw.len() as int] == '.');
    lemma_first_index_exact(t, '.', pw.len() as int);
    assert(t.subrange(0, pw.len() as int) =~= pw);
    assert(t.subrange(pw.len() as int + 1, t.len() as int) =~= rest);
    assert(path[0].len() > 0);
    let tail = path.drop_first();
    assert forall|i: int| 0 <= i < tail.len() implies !(#[trigger] tail[i]).contains('.') by {
        assert(tail[i] == path[i + 1]);
    }
    assert(!path[0].contains('.'));
    crate::strings::lemma_split_prefixed_join(path[0], tail, '.');
    assert(seq![path[0]] + tail =~= path);
    lemma_first_bad_word(path, path.len() as int);
}

// ------------------------------------------------------------------ effects

/// What a command does to the world. The one semantic fact no spelling can be trusted to
/// carry, and the fact every surface policy is derived from: what may be offered to a
/// machine caller, what a Cockpit must confirm, what documentation must warn about.
#[derive(Debug, Clone, Copy, PartialEq, Eq, Structural, PartialOrd, Ord, Hash)]
pub enum EffectClass {
    /// Writes nothing anywhere: a report, a listing, a validation.
    ReadOnly,
    /// Changes the memory of the process it runs in and nothing on disk.
    ProcessState,
    /// Writes durable records under the checkout-local half of the layer, which is never
    /// normative and never committed.
    LocalState,
    /// Rewrites generated artifacts that are committed for review.
    GeneratedOutput,
    /// Reaches the network: a push, a deployment, a fetch.
    Network,
    /// Removes or overwrites something a re-run cannot restore.
    Destructive,
}

/// The rank of an effect: the order the classes are declared in, weakest first.
pub open spec fn effect_rank(e: EffectClass) -> nat {
    match e {
        EffectClass::ReadOnly => 0,
        EffectClass::ProcessState => 1,
        EffectClass::LocalState => 2,
        EffectClass::GeneratedOutput => 3,
        EffectClass::Network => 4,
        EffectClass::Destructive => 5,
    }
}

/// The class a shell registry entry's `class` word names.
pub open spec fn shell_class(text: Seq<char>) -> Option<EffectClass> {
    if text == "read-only"@ {
        Some(EffectClass::ReadOnly)
    } else if text == "state-mutating"@ {
        Some(EffectClass::LocalState)
    } else if text == "generated-output-mutating"@ {
        Some(EffectClass::GeneratedOutput)
    } else {
        None
    }
}

/// Whether a class is confirmed before a surface runs it.
pub open spec fn confirmed(e: EffectClass) -> bool {
    !(e == EffectClass::ReadOnly || e == EffectClass::ProcessState)
}

impl EffectClass {
    /// The class a shell registry entry's `class` names. The shell registry's vocabulary
    /// is a subset of this one, mapped once here rather than at each reader.
    pub fn of_shell_class(text: &str) -> (r: Option<Self>)
        ensures
            r == shell_class(text@),
    {
        if str_eq(text, "read-only") {
            Some(EffectClass::ReadOnly)
        } else if str_eq(text, "state-mutating") {
            Some(EffectClass::LocalState)
        } else if str_eq(text, "generated-output-mutating") {
            Some(EffectClass::GeneratedOutput)
        } else {
            None
        }
    }

    /// Does a call of this class leave everything as it found it?
    pub fn is_read_only(self) -> (r: bool)
        ensures
            r == (self == EffectClass::ReadOnly),
    {
        matches!(self, EffectClass::ReadOnly)
    }

    /// May a surface run this without asking the person first? Everything that writes
    /// outside the process, and everything that reaches the network, is confirmed.
    pub fn needs_confirmation(self) -> (r: bool)
        ensures
            r == confirmed(self),
    {
        !matches!(self, EffectClass::ReadOnly | EffectClass::ProcessState)
    }

    /// The rank of the class, weakest first.
    pub fn rank(self) -> (r: u8)
        ensures
            r == effect_rank(self),
    {
        match self {
            EffectClass::ReadOnly => 0,
            EffectClass::ProcessState => 1,
            EffectClass::LocalState => 2,
            EffectClass::GeneratedOutput => 3,
            EffectClass::Network => 4,
            EffectClass::Destructive => 5,
        }
    }
}

/// Whether a command needs a terminal. A command that requires one is never offered
/// through a surface that has none.
#[derive(Debug, Clone, Copy, PartialEq, Eq, Structural, PartialOrd, Ord, Default)]
pub enum Interactivity {
    /// Runs to completion with no terminal and no input.
    #[default]
    NonInteractive,
    /// Runs without a terminal but renders better with one.
    TtyPreferred,
    /// Prompts, edits or streams; without a terminal it cannot do its work.
    TtyRequired,
}

/// Who may see a command. `Internal` is dispatched and undocumented; the surfaces that
/// list commands to people and machines skip it.
#[derive(Debug, Clone, Copy, PartialEq, Eq, Structural, PartialOrd, Ord, Default)]
pub enum Visibility {
    /// Listed everywhere the policy allows.
    #[default]
    Public,
    /// Dispatched, never listed.
    Internal,
}

/// What a command needs before it can run here. Availability is derived from these, never
/// from a check written into a template or a shell script.
#[derive(Debug, Clone, Copy, PartialEq, Eq, Structural, PartialOrd, Ord)]
pub enum Requirement {
    /// Nothing: it runs wherever the executable does.
    Always,
    /// A repository with the layer initialised.
    Repository,
    /// A git checkout.
    Git,
    /// The Rust toolchain (`cargo`) on the path.
    CargoToolchain,
    /// The Rust executable built or installed.
    NativeExecutable,
    /// The site tree present.
    Site,
    /// The site's build dependencies installed (`node_modules`).
    SiteDependencies,
    /// A browser automation runtime.
    Browser,
}

/// The sentence shown when a requirement is not met.
pub open spec fn unmet_text(r: Requirement) -> Seq<char> {
    match r {
        Requirement::Always => "always available"@,
        Requirement::Repository => "no Majordomus layer was found here"@,
        Requirement::Git => "this is not a git checkout"@,
        Requirement::CargoToolchain => "cargo is not on the path"@,
        Requirement::NativeExecutable => "the Rust executable is not built"@,
        Requirement::Site => "the site tree is not present"@,
        Requirement::SiteDependencies => "the site's npm dependencies are not installed"@,
        Requirement::Browser => "no browser automation runtime was found"@,
    }
}

impl Requirement {
    /// The sentence a surface shows when the requirement is not met. One text; the
    /// completion filter, the Cockpit's disabled state and the diagnostics all print it.
    pub fn unmet_reason(self) -> (r: &'static str)
        ensures
            r@ == unmet_text(self),
    {
        match self {
            Requirement::Always => "always available",
            Requirement::Repository => "no Majordomus layer was found here",
            Requirement::Git => "this is not a git checkout",
            Requirement::CargoToolchain => "cargo is not on the path",
            Requirement::NativeExecutable => "the Rust executable is not built",
            Requirement::Site => "the site tree is not present",
            Requirement::SiteDependencies => "the site's npm dependencies are not installed",
            Requirement::Browser => "no browser automation runtime was found",
        }
    }
}

/// Whether a command can run in this checkout, and why not when it cannot.
#[derive(Debug, Clone, PartialEq, Eq)]
pub struct Availability {
    /// Can it run here?
    pub available: bool,
    /// What it needs.
    pub requires: Vec<Requirement>,
    /// The unmet requirement's reason, when one is unmet. One sentence, never a stack.
    pub reason: Option<String>,
}

impl Availability {
    /// Available, needing nothing.
    pub fn always() -> (r: Self)
        ensures
            r.available,
            r.requires@ == seq![Requirement::Always],
            r.reason is None,
    {
        Availability { available: true, requires: vec![Requirement::Always], reason: None }
    }
}

/// How sensitive an argument's value is. Nothing marked above [`Sensitivity::Public`] is
/// ever completed, cached, logged or echoed into a projection.
#[derive(Debug, Clone, Copy, PartialEq, Eq, Structural, PartialOrd, Ord, Default)]
pub enum Sensitivity {
    /// An ordinary value: completed, shown, cached.
    #[default]
    Public,
    /// Shown but never completed from repository state (a personal note, a message).
    Sensitive,
    /// A credential. Never completed, never cached, never rendered.
    Secret,
}

/// One accepted value of an enumerated argument, with the help the declaration carries.
#[derive(Debug, Clone, PartialEq, Eq)]
pub struct EnumValue {
    /// The value as typed.
    pub value: String,
    /// Its help, when the declaration gives one.
    pub description: Option<String>,
}

// ------------------------------------------------------------------ value sources

/// A registry of this repository that owns a set of identifiers. The completion engine
/// and the Cockpit's forms both ask for values by naming one of these; neither holds a
/// list of its own.
#[derive(Debug, Clone, Copy, PartialEq, Eq, Structural, PartialOrd, Ord, Hash)]
pub enum ValueRegistry {
    /// Capability identities, from the capability registry.
    Capability,
    /// Command identities, from this graph.
    Command,
    /// Capability module identities.
    Module,
    /// Object kinds, from the kind schema.
    ObjectKind,
    /// Operational moments of the Why catalogue.
    Moment,
    /// Audiences of the Why catalogue.
    Audience,
    /// Operational areas of the Why catalogue.
    Area,
    /// Distribution targets.
    DistributionTarget,
    /// Web surfaces of the resolved topology.
    WebSurface,
    /// Derived graphs.
    Graph,
    /// Skills of the repository's layer.
    Skill,
    /// Rules of the repository's layer.
    Rule,
    /// Local git branches.
    Branch,
}

/// The key the value index files a registry's candidates under.
pub open spec fn registry_key(r: ValueRegistry) -> Seq<char> {
    match r {
        ValueRegistry::Capability => "capability"@,
        ValueRegistry::Command => "command"@,
        ValueRegistry::Module => "module"@,
        ValueRegistry::ObjectKind => "object-kind"@,
        ValueRegistry::Moment => "moment"@,
        ValueRegistry::Audience => "audience"@,
        ValueRegistry::Area => "area"@,
        ValueRegistry::DistributionTarget => "distribution-target"@,
        ValueRegistry::WebSurface => "web-surface"@,
        ValueRegistry::Graph => "graph"@,
        ValueRegistry::Skill => "skill"@,
        ValueRegistry::Rule => "rule"@,
        ValueRegistry::Branch => "branch"@,
    }
}

/// Every registry, in the stable order.
pub open spec fn registries() -> Seq<ValueRegistry> {
    seq![
        ValueRegistry::Capability,
        ValueRegistry::Command,
        ValueRegistry::Module,
        ValueRegistry::ObjectKind,
        ValueRegistry::Moment,
        ValueRegistry::Audience,
        ValueRegistry::Area,
        ValueRegistry::DistributionTarget,
        ValueRegistry::WebSurface,
        ValueRegistry::Graph,
        ValueRegistry::Skill,
        ValueRegistry::Rule,
        ValueRegistry::Branch,
    ]
}

impl ValueRegistry {
    /// The key the value index files this registry's candidates under.
    pub fn key(self) -> (r: &'static str)
        ensures
            r@ == registry_key(self),
    {
        match self {
            ValueRegistry::Capability => "capability",
            ValueRegistry::Command => "command",
            ValueRegistry::Module => "module",
            ValueRegistry::ObjectKind => "object-kind",
            ValueRegistry::Moment => "moment",
            ValueRegistry::Audience => "audience",
            ValueRegistry::Area => "area",
            ValueRegistry::DistributionTarget => "distribution-target",
            ValueRegistry::WebSurface => "web-surface",
            ValueRegistry::Graph => "graph",
            ValueRegistry::Skill => "skill",
            ValueRegistry::Rule => "rule",
            ValueRegistry::Branch => "branch",
        }
    }

    /// Every registry, in a stable order.
    pub fn all() -> (r: Vec<ValueRegistry>)
        ensures
            r@ == registries(),
    {
        let r = vec![
            ValueRegistry::Capability,
            ValueRegistry::Command,
            ValueRegistry::Module,
            ValueRegistry::ObjectKind,
            ValueRegistry::Moment,
            ValueRegistry::Audience,
            ValueRegistry::Area,
            ValueRegistry::DistributionTarget,
            ValueRegistry::WebSurface,
            ValueRegistry::Graph,
            ValueRegistry::Skill,
            ValueRegistry::Rule,
            ValueRegistry::Branch,
        ];
        assert(r@ =~= registries());
        r
    }
}

/// Where an argument's candidate values come from. Derived from the argument's own type
/// and placeholder, never from a completion callback written per command: an enumerated
/// argument carries its values, a path argument says so, and an identifier argument names
/// the registry that owns the identifiers.
#[derive(Debug, Clone, PartialEq, Eq)]
pub enum ValueSource {
    /// Nothing can be offered: free text.
    FreeText,
    /// The values the type accepts, from the declaration itself.
    Enumerated {
        /// The accepted values, in declaration order.
        values: Vec<EnumValue>,
    },
    /// A path in the filesystem.
    Path {
        /// Only directories are accepted.
        directories_only: bool,
    },
    /// Identifiers a registry of this repository owns.
    Registry {
        /// Which registry.
        registry: ValueRegistry,
    },
}

/// The registry a placeholder names, if it names one.
pub open spec fn placeholder_registry(p: Seq<char>) -> Option<ValueRegistry> {
    if p == "CAPABILITY"@ {
        Some(ValueRegistry::Capability)
    } else if p == "COMMAND"@ {
        Some(ValueRegistry::Command)
    } else if p == "MODULE"@ {
        Some(ValueRegistry::Module)
    } else if p == "KIND"@ {
        Some(ValueRegistry::ObjectKind)
    } else if p == "MOMENT"@ {
        Some(ValueRegistry::Moment)
    } else if p == "AUDIENCE"@ {
        Some(ValueRegistry::Audience)
    } else if p == "AREA"@ {
        Some(ValueRegistry::Area)
    } else if p == "TARGET"@ {
        Some(ValueRegistry::DistributionTarget)
    } else if p == "SURFACE"@ {
        Some(ValueRegistry::WebSurface)
    } else if p == "GRAPH"@ {
        Some(ValueRegistry::Graph)
    } else if p == "SKILL"@ {
        Some(ValueRegistry::Skill)
    } else if p == "RULE"@ {
        Some(ValueRegistry::Rule)
    } else if p == "BRANCH"@ {
        Some(ValueRegistry::Branch)
    } else {
        None
    }
}

/// Does a placeholder name a path, and which kind?
pub open spec fn placeholder_path(p: Seq<char>) -> Option<bool> {
    if p == "DIR"@ {
        Some(true)
    } else if p == "PATH"@ || p == "FILE"@ || p == "RECORD"@ || p == "OUT"@ {
        Some(false)
    } else {
        None
    }
}

/// The value source a placeholder names, as the contracts see it: a path, a registry, or
/// nothing.
pub open spec fn placeholder_source_is(p: Seq<char>, v: ValueSource) -> bool {
    match placeholder_path(p) {
        Some(d) => v == (ValueSource::Path { directories_only: d }),
        None => match placeholder_registry(p) {
            Some(r) => v == (ValueSource::Registry { registry: r }),
            None => v is FreeText,
        },
    }
}

fn registry_of_placeholder(p: &str) -> (r: Option<ValueRegistry>)
    ensures
        r == placeholder_registry(p@),
{
    if str_eq(p, "CAPABILITY") {
        Some(ValueRegistry::Capability)
    } else if str_eq(p, "COMMAND") {
        Some(ValueRegistry::Command)
    } else if str_eq(p, "MODULE") {
        Some(ValueRegistry::Module)
    } else if str_eq(p, "KIND") {
        Some(ValueRegistry::ObjectKind)
    } else if str_eq(p, "MOMENT") {
        Some(ValueRegistry::Moment)
    } else if str_eq(p, "AUDIENCE") {
        Some(ValueRegistry::Audience)
    } else if str_eq(p, "AREA") {
        Some(ValueRegistry::Area)
    } else if str_eq(p, "TARGET") {
        Some(ValueRegistry::DistributionTarget)
    } else if str_eq(p, "SURFACE") {
        Some(ValueRegistry::WebSurface)
    } else if str_eq(p, "GRAPH") {
        Some(ValueRegistry::Graph)
    } else if str_eq(p, "SKILL") {
        Some(ValueRegistry::Skill)
    } else if str_eq(p, "RULE") {
        Some(ValueRegistry::Rule)
    } else if str_eq(p, "BRANCH") {
        Some(ValueRegistry::Branch)
    } else {
        None
    }
}

impl ValueSource {
    /// The value source an argument's placeholder names. The placeholder is the one the
    /// author already writes in the declaration, so a typed argument gets its completion
    /// without a second declaration anywhere.
    ///
    /// A placeholder this table does not know yields [`ValueSource::FreeText`]: an unknown
    /// placeholder offers nothing rather than guessing.
    pub fn of_placeholder(placeholder: &str) -> (r: Self)
        ensures
            placeholder_source_is(placeholder@, r),
    {
        if str_eq(placeholder, "DIR") {
            ValueSource::Path { directories_only: true }
        } else if str_eq(placeholder, "PATH") || str_eq(placeholder, "FILE") || str_eq(
            placeholder,
            "RECORD",
        ) || str_eq(placeholder, "OUT") {
            ValueSource::Path { directories_only: false }
        } else {
            match registry_of_placeholder(placeholder) {
                Some(registry) => ValueSource::Registry { registry },
                None => ValueSource::FreeText,
            }
        }
    }

    /// Does answering this source need the repository's value index?
    pub fn needs_index(&self) -> (r: bool)
        ensures
            r == (*self is Registry),
    {
        matches!(self, ValueSource::Registry { .. })
    }
}


// ------------------------------------------------------------------ arguments

/// One argument of a command: a positional or an option, with everything a projection
/// needs to render it and a completion engine needs to offer values for.
#[derive(Debug, Clone, PartialEq, Eq)]
pub struct ArgumentSpec {
    /// The argument's identity within its command.
    pub name: String,
    /// `--transport`, without the dashes; absent for a positional.
    pub long: Option<String>,
    /// `-t`, without the dash.
    pub short: Option<char>,
    /// Given by position rather than by flag.
    pub positional: bool,
    /// Must be given.
    pub required: bool,
    /// Takes more than one value.
    pub variadic: bool,
    /// Accepted by every command under the one that declares it.
    pub global: bool,
    /// Takes a value at all; a flag does not.
    pub takes_value: bool,
    /// The one-line help, from the declaration.
    pub help: String,
    /// The placeholder for the value, `PATH`; the name the value source is derived from.
    pub placeholder: Option<String>,
    /// The default value(s); empty when there is none.
    pub defaults: Vec<String>,
    /// Where candidate values come from.
    pub values: ValueSource,
    /// How sensitive the value is.
    pub sensitivity: Sensitivity,
}

// ------------------------------------------------------------------ execution

/// How a command is run. The graph describes execution; it never carries the code, and it
/// never carries a shell string a surface would have to re-parse.
#[derive(Debug, Clone, PartialEq, Eq)]
pub enum Execution {
    /// The Rust executable, with these words after it.
    Native {
        /// The words after the executable's own name.
        argv: Vec<String>,
    },
    /// The shell tool, with these words after it.
    Shell {
        /// The words after the shell tool's own name.
        argv: Vec<String>,
    },
    /// Something else this repository ships, run in order. Each step is a whole argument
    /// vector: the program and its arguments, never a line for a shell to split.
    External {
        /// The steps, in order; each is `[program, arg, ...]`.
        steps: Vec<Vec<String>>,
    },
}

/// The program a surface must invoke for an execution.
pub open spec fn executor_text(e: Execution) -> Seq<char> {
    match e {
        Execution::Native { .. } => "majordomus (rust)"@,
        Execution::Shell { .. } => "bin/majordomus"@,
        Execution::External { steps } => if steps@.len() > 0 && steps@[0]@.len() > 0 {
            steps@[0]@[0]@
        } else {
            "(nothing)"@
        },
    }
}

/// The first word of every step that has one, in order.
pub open spec fn step_programs(steps: Seq<Vec<String>>) -> Seq<Seq<char>>
    decreases steps.len(),
{
    if steps.len() == 0 {
        seq![]
    } else {
        let init = step_programs(steps.drop_last());
        if steps.last()@.len() > 0 {
            init.push(steps.last()@[0]@)
        } else {
            init
        }
    }
}

/// Every program an execution invokes.
pub open spec fn programs_of(e: Execution) -> Seq<Seq<char>> {
    match e {
        Execution::External { steps } => step_programs(steps@),
        _ => seq![executor_text(e)],
    }
}

impl Execution {
    /// The program a surface must invoke, for the cycle check and for the report.
    pub fn executor(&self) -> (r: &str)
        ensures
            r@ == executor_text(*self),
    {
        match self {
            Execution::Native { .. } => "majordomus (rust)",
            Execution::Shell { .. } => "bin/majordomus",
            Execution::External { steps } => {
                if steps.len() > 0 && steps[0].len() > 0 {
                    steps[0][0].as_str()
                } else {
                    "(nothing)"
                }
            },
        }
    }

    /// Every program this execution invokes, for the cycle check.
    pub fn programs(&self) -> (r: Vec<&str>)
        ensures
            r@.map_values(|x: &str| x@) == programs_of(*self),
    {
        match self {
            Execution::External { steps } => {
                let mut out: Vec<&str> = Vec::new();
                let mut i: usize = 0;
                while i < steps.len()
                    invariant
                        i <= steps@.len(),
                        out@.map_values(|x: &str| x@) == step_programs(steps@.subrange(0, i as int)),
                    decreases steps.len() - i,
                {
                    let ghost sub = steps@.subrange(0, i + 1);
                    assert(sub.drop_last() =~= steps@.subrange(0, i as int));
                    assert(sub.last() == steps@[i as int]);
                    if steps[i].len() > 0 {
                        out.push(steps[i][0].as_str());
                    }
                    assert(out@.map_values(|x: &str| x@) =~= step_programs(sub));
                    i += 1;
                }
                assert(steps@.subrange(0, steps@.len() as int) =~= steps@);
                out
            },
            _ => {
                let out = vec![self.executor()];
                assert(out@.map_values(|x: &str| x@) =~= programs_of(*self));
                out
            },
        }
    }
}

/// Where a command's description came from, so that every claim in a projection can be
/// traced to a file a reader can open. Never an absolute path.
#[derive(Debug, Clone, PartialEq, Eq)]
pub enum Provenance {
    /// Walked out of the command-line declaration in this file.
    Clap {
        /// Repository-relative path of the declaration.
        path: String,
    },
    /// Read from the shell tool's command registry.
    Registry {
        /// Repository-relative path of the registry file.
        path: String,
    },
    /// Read from one declared workflow object.
    Declared {
        /// Repository-relative path of the object.
        path: String,
    },
}

/// The path a provenance names.
pub open spec fn provenance_path(p: Provenance) -> Seq<char> {
    match p {
        Provenance::Clap { path } => path@,
        Provenance::Registry { path } => path@,
        Provenance::Declared { path } => path@,
    }
}

impl Provenance {
    /// The repository-relative path of the source.
    pub fn path(&self) -> (r: &str)
        ensures
            r@ == provenance_path(*self),
    {
        match self {
            Provenance::Clap { path } => path.as_str(),
            Provenance::Registry { path } => path.as_str(),
            Provenance::Declared { path } => path.as_str(),
        }
    }
}

/// A name a command answers to besides its own, declared once beside the command and
/// honoured by every projection that can carry an alias.
#[derive(Debug, Clone, PartialEq, Eq)]
pub struct Alias {
    /// The name.
    pub name: String,
    /// Why it exists: a rename this alias keeps working, an abbreviation, a historical
    /// spelling. One line, shown wherever the alias is.
    pub reason: String,
}

/// A command that still runs and should not be reached for. One declaration; the command
/// line's warning, the Just description, the completion entry, the reference and the
/// Cockpit all render it.
#[derive(Debug, Clone, PartialEq, Eq)]
pub struct Deprecation {
    /// What to use instead, as a command identity.
    pub replaced_by: Option<CommandId>,
    /// One line: why, and what changes.
    pub note: String,
}

/// The surface names a command is known by. Every one of them is computed by the
/// projection from the identity and the graph as a whole; nothing here is written by
/// hand, and a surface that wants a name asks for this rather than deriving one of its
/// own.
#[derive(Debug, Clone, PartialEq, Eq, Default)]
pub struct Projections {
    /// The words a person types after the executable, when the command has a command line.
    pub cli: Option<Vec<String>>,
    /// The generated Just recipe's name.
    pub just: Option<String>,
    /// The Cockpit's action name.
    pub cockpit: Option<String>,
    /// The route of the command's page in the generated reference.
    pub docs: Option<String>,
    /// Aliases the Just projection also answers to, resolved and free of collisions.
    pub just_aliases: Vec<String>,
}

impl Projections {
    /// No names at all: what a node carries before the projection has run.
    pub fn unassigned() -> (r: Self)
        ensures
            r.cli is None,
            r.just is None,
            r.cockpit is None,
            r.docs is None,
            r.just_aliases@.len() == 0,
    {
        Projections { cli: None, just: None, cockpit: None, docs: None, just_aliases: Vec::new() }
    }
}

/// One documented example of a command: the argument vector it runs and what it shows.
/// Rendered by every projection from this one value, never written out a second time.
#[derive(Debug, Clone, PartialEq, Eq)]
pub struct Example {
    /// Unique across the whole graph.
    pub id: String,
    /// One line: what this example shows.
    pub title: String,
    /// The arguments, without the executable's own name.
    pub argv: Vec<String>,
    /// The command line a person copies, rendered from `argv`.
    pub command: String,
}

/// The canonical descriptor of one command. Everything a projection may say about a
/// command is here, and everything here came from exactly one declaration.
#[derive(Debug, Clone, PartialEq, Eq)]
pub struct CommandNode {
    /// The canonical identity.
    pub id: CommandId,
    /// The executable that owns it.
    pub program: Program,
    /// The path words, without the program.
    pub path: Vec<String>,
    /// The one-line description every projection shows.
    pub summary: String,
    /// The long description, when the declaration has one.
    pub description: Option<String>,
    /// The usage line, derived once here.
    pub usage: String,
    /// Whether the command does something on its own, rather than only grouping others.
    pub runnable: bool,
    /// The arguments, in declaration order.
    pub arguments: Vec<ArgumentSpec>,
    /// How it runs.
    pub execution: Execution,
    /// What it does to the world.
    pub effect: EffectClass,
    /// Whether it needs a terminal.
    pub interactivity: Interactivity,
    /// Who may see it.
    pub visibility: Visibility,
    /// Whether it can run here, and why not.
    pub availability: Availability,
    /// Where its description came from.
    pub provenance: Provenance,
    /// The names it also answers to.
    pub aliases: Vec<Alias>,
    /// Whether it is on the way out.
    pub deprecation: Option<Deprecation>,
    /// Free tags, for grouping and for the entry recommendation.
    pub tags: Vec<String>,
    /// The documented examples.
    pub examples: Vec<Example>,
    /// The names every surface knows it by, derived.
    pub projections: Projections,
}

/// The number of dashes a word starts with.
pub open spec fn leading_dashes(w: Seq<char>) -> int
    decreases w.len(),
{
    if w.len() > 0 && w[0] == '-' {
        1 + leading_dashes(w.drop_first())
    } else {
        0
    }
}

/// A word as typed on a command line, without its dashes and without any `=value`.
pub open spec fn bare_word(w: Seq<char>) -> Seq<char> {
    let s = w.subrange(leading_dashes(w), w.len() as int);
    s.subrange(0, first_index(s, '='))
}

/// Does an argument answer to a bare word?
pub open spec fn answers_to(a: ArgumentSpec, bare: Seq<char>) -> bool {
    (a.long matches Some(l) && l@ == bare) || (bare.len() == 1 && a.short == Some(bare[0]))
}

/// The index of the first argument that answers to a bare word, or the length.
pub open spec fn first_answering(args: Seq<ArgumentSpec>, bare: Seq<char>) -> int
    decreases args.len(),
{
    if args.len() == 0 {
        0
    } else if answers_to(args[0], bare) {
        0
    } else {
        1 + first_answering(args.drop_first(), bare)
    }
}

pub proof fn lemma_leading_dashes(w: Seq<char>)
    ensures
        0 <= leading_dashes(w) <= w.len(),
        forall|j: int| 0 <= j < leading_dashes(w) ==> w[j] == '-',
        leading_dashes(w) < w.len() ==> w[leading_dashes(w)] != '-',
    decreases w.len(),
{
    if w.len() > 0 && w[0] == '-' {
        lemma_leading_dashes(w.drop_first());
        assert forall|j: int| 0 <= j < leading_dashes(w) implies w[j] == '-' by {
            if j > 0 {
                assert(w[j] == w.drop_first()[j - 1]);
            }
        }
        if leading_dashes(w) < w.len() {
            assert(w[leading_dashes(w)] == w.drop_first()[leading_dashes(w) - 1]);
        }
    }
}

pub proof fn lemma_leading_dashes_exact(w: Seq<char>, k: int)
    requires
        0 <= k <= w.len(),
        forall|j: int| 0 <= j < k ==> w[j] == '-',
        k < w.len() ==> w[k] != '-',
    ensures
        leading_dashes(w) == k,
    decreases w.len(),
{
    if k > 0 {
        let t = w.drop_first();
        assert forall|j: int| 0 <= j < k - 1 implies t[j] == '-' by {
            assert(t[j] == w[j + 1]);
        }
        if k - 1 < t.len() {
            assert(t[k - 1] == w[k]);
        }
        lemma_leading_dashes_exact(t, k - 1);
    } else if w.len() > 0 {
        assert(w[0] != '-');
    }
}

proof fn lemma_first_answering(args: Seq<ArgumentSpec>, bare: Seq<char>, k: int)
    requires
        0 <= k <= args.len(),
        forall|j: int| 0 <= j < k ==> !answers_to(#[trigger] args[j], bare),
        k < args.len() ==> answers_to(args[k], bare),
    ensures
        first_answering(args, bare) == k,
    decreases k,
{
    if k > 0 {
        let t = args.drop_first();
        assert forall|j: int| 0 <= j < k - 1 implies !answers_to(#[trigger] t[j], bare) by {
            assert(t[j] == args[j + 1]);
        }
        if k < args.len() {
            assert(t[k - 1] == args[k]);
        }
        assert(!answers_to(args[0], bare));
        lemma_first_answering(t, bare, k - 1);
    }
}

fn bare_of(word: &str) -> (r: &str)
    ensures
        r@ == bare_word(word@),
{
    let n = word.unicode_len();
    let mut k: usize = 0;
    while k < n && word.get_char(k) == '-'
        invariant
            n == word@.len(),
            k <= n,
            forall|j: int| 0 <= j < k ==> word@[j] == '-',
        decreases n - k,
    {
        k += 1;
    }
    proof {
        lemma_leading_dashes_exact(word@, k as int);
    }
    let s = word.substring_char(k, n);
    let e = index_of_char(s, '=');
    proof {
        lemma_first_index(s@, '=');
    }
    s.substring_char(0, e)
}

fn argument_answers(a: &ArgumentSpec, bare: &str) -> (r: bool)
    ensures
        r == answers_to(*a, bare@),
{
    let long_matches = match &a.long {
        Some(l) => str_eq(l.as_str(), bare),
        None => false,
    };
    if long_matches {
        return true;
    }
    if bare.unicode_len() == 1 {
        match a.short {
            Some(c) => c == bare.get_char(0),
            None => false,
        }
    } else {
        false
    }
}

impl CommandNode {
    /// Is this command offered to people who are listing what they can run?
    pub fn is_listed(&self) -> (r: bool)
        ensures
            r == (self.visibility == Visibility::Public && self.runnable),
    {
        self.visibility == Visibility::Public && self.runnable
    }

    /// The argument matching a word as typed on a command line (`--format`, `-f`): the
    /// first whose long name is the word without its dashes and any `=value`, or whose
    /// short name is that word when it is one character.
    pub fn argument_for_word(&self, word: &str) -> (r: Option<&ArgumentSpec>)
        ensures
            first_answering(self.arguments@, bare_word(word@)) < self.arguments@.len() ==> r
                == Some(&self.arguments@[first_answering(self.arguments@, bare_word(word@))]),
            first_answering(self.arguments@, bare_word(word@)) >= self.arguments@.len() ==> r
                is None,
    {
        let bare = bare_of(word);
        let mut i: usize = 0;
        while i < self.arguments.len()
            invariant
                i <= self.arguments@.len(),
                bare@ == bare_word(word@),
                forall|j: int| 0 <= j < i ==> !answers_to(#[trigger] self.arguments@[j], bare@),
            decreases self.arguments.len() - i,
        {
            if argument_answers(&self.arguments[i], bare) {
                proof {
                    lemma_first_answering(self.arguments@, bare@, i as int);
                }
                return Some(&self.arguments[i]);
            }
            i += 1;
        }
        proof {
            lemma_first_answering(self.arguments@, bare@, self.arguments@.len() as int);
        }
        None
    }
}

/// A finding of the graph's own build: something a contributor got wrong, a collision, a
/// projection that could not be named. Fatal findings refuse the graph; the rest are
/// reported and the graph stands.
#[derive(Debug, Clone, PartialEq, Eq)]
pub struct Diagnostic {
    /// A stable code a test can name.
    pub code: String,
    /// Whether the graph is refused because of it.
    pub fatal: bool,
    /// What is wrong, naming both ends when two things collide.
    pub message: String,
    /// The commands involved, in identity order.
    pub commands: Vec<CommandId>,
}

} // verus!
