//! Repository entry: the activation a shell evaluates, and the banner a person reads.
//!
//! These are two outputs of one snapshot, kept apart on purpose. The activation is a
//! payload — nothing but shell statements, safe to `eval`, with no prose in it. The banner
//! is a rendering — prose, colour and width, never evaluated by anything. Mixing them is
//! how a repository entry becomes a security surface, so they are asked for separately
//! and this module never emits one inside the other.
//!
//! Nothing here reads a file: what the checkout's head is, where the shared server
//! listens, which inputs exist and what this session last saw are handed in as values.

use vstd::prelude::*;

use crate::command::completion::{is_control, is_white};
use crate::command::facts::Facts;
use crate::command::graph::{CommandGraph, listed_nodes, sorts_listed, last_named};
use crate::command::model::Program;
use crate::strings::{decimal_of, push_char, push_decimal, push_str, split_seq, split_text, str_eq, views};

verus! {

/// Where the banner remembers what it last showed, relative to the repository root: one
/// small file per terminal session, under the checkout-local state directory.
pub const STATE_DIR: &'static str = ".ai/local/state/command/entry";

/// The variable that chooses how much the banner says.
pub const BANNER_ENV: &'static str = "MAJORDOMUS_BANNER";

/// The variable the activation exports so that anything downstream knows which checkout
/// it is in without discovering it again.
pub const ROOT_ENV: &'static str = "MAJORDOMUS_REPOSITORY";

/// The variable naming the graph's structure, so a tool can tell whether what it cached
/// is still current without asking.
pub const STRUCTURE_ENV: &'static str = "MAJORDOMUS_COMMAND_STRUCTURE";

/// Where workflow objects live, relative to the repository root.
pub const WORKFLOW_DIRECTORY: &'static str = ".ai/repo/workflows/commands";

// ------------------------------------------------------------------ modes

/// How much the banner says.
#[derive(Debug, Clone, Copy, PartialEq, Eq, Structural)]
pub enum BannerMode {
    /// Full on the first entry and after a material change, nothing when nothing changed.
    Auto,
    /// Always the whole thing.
    Full,
    /// Always one line and the entry commands.
    Compact,
    /// Nothing, ever.
    Off,
}

/// The mode a name selects.
pub open spec fn banner_mode_named(t: Seq<char>) -> Option<BannerMode> {
    if t == "auto"@ {
        Some(BannerMode::Auto)
    } else if t == "full"@ {
        Some(BannerMode::Full)
    } else if t == "compact"@ {
        Some(BannerMode::Compact)
    } else if t == "off"@ || t == "none"@ || t == "0"@ {
        Some(BannerMode::Off)
    } else {
        None
    }
}

impl BannerMode {
    /// The mode a name selects.
    pub fn parse(text: &str) -> (r: Option<Self>)
        ensures
            r == banner_mode_named(text@),
    {
        if str_eq(text, "auto") {
            Some(BannerMode::Auto)
        } else if str_eq(text, "full") {
            Some(BannerMode::Full)
        } else if str_eq(text, "compact") {
            Some(BannerMode::Compact)
        } else if str_eq(text, "off") || str_eq(text, "none") || str_eq(text, "0") {
            Some(BannerMode::Off)
        } else {
            None
        }
    }

    /// The mode an environment asks for. A machine — a pipe, a CI runner — is never shown
    /// a banner, whatever the variable says, because nothing there reads it.
    pub fn for_environment(interactive: bool, ci: bool, asked: Option<&str>) -> (r: Self)
        ensures
            !interactive || ci ==> r == BannerMode::Off,
            interactive && !ci ==> r == match asked {
                Some(a) => match banner_mode_named(a@) {
                    Some(m) => m,
                    None => BannerMode::Auto,
                },
                None => BannerMode::Auto,
            },
    {
        if !interactive || ci {
            return BannerMode::Off;
        }
        match asked {
            Some(a) => match BannerMode::parse(a) {
                Some(m) => m,
                None => BannerMode::Auto,
            },
            None => BannerMode::Auto,
        }
    }
}

/// The names each mode answers to.
pub open spec fn banner_mode_names(m: BannerMode) -> Seq<Seq<char>> {
    match m {
        BannerMode::Auto => seq!["auto"@],
        BannerMode::Full => seq!["full"@],
        BannerMode::Compact => seq!["compact"@],
        BannerMode::Off => seq!["off"@, "none"@, "0"@],
    }
}

/// Every mode is selected by each of its names, `off`, `none` and `0` all turning the
/// banner off, and a name selects a mode only when it is one of that mode's names.
pub proof fn law_each_banner_name_selects_its_mode(m: BannerMode, t: Seq<char>)
    ensures
        banner_mode_names(m).contains(t) ==> banner_mode_named(t) == Some(m),
        banner_mode_named(t) == Some(m) ==> banner_mode_names(m).contains(t),
{
    reveal_strlit("auto");
    reveal_strlit("full");
    reveal_strlit("compact");
    reveal_strlit("off");
    reveal_strlit("none");
    reveal_strlit("0");
    assert("auto"@.len() == 4 && "full"@.len() == 4 && "none"@.len() == 4);
    assert("auto"@[0] == 'a' && "full"@[0] == 'f' && "none"@[0] == 'n');
    assert("compact"@.len() == 7 && "off"@.len() == 3 && "0"@.len() == 1);
    if banner_mode_named(t) == Some(m) {
        match m {
            BannerMode::Auto => assert(banner_mode_names(m)[0] == t),
            BannerMode::Full => assert(banner_mode_names(m)[0] == t),
            BannerMode::Compact => assert(banner_mode_names(m)[0] == t),
            BannerMode::Off => {
                if t == "off"@ {
                    assert(banner_mode_names(m)[0] == t);
                } else if t == "none"@ {
                    assert(banner_mode_names(m)[1] == t);
                } else {
                    assert(banner_mode_names(m)[2] == t);
                }
            },
        }
    }
}

/// The shells the activation payload can be written for.
#[derive(Debug, Clone, Copy, PartialEq, Eq, Structural)]
pub enum Shell {
    /// direnv's own evaluation environment, which is bash with direnv's library loaded.
    Direnv,
    /// Plain POSIX-ish shells: bash and zsh take the same statements.
    Posix,
}

/// The shell a name selects.
pub open spec fn shell_named(t: Seq<char>) -> Option<Shell> {
    if t == "direnv"@ {
        Some(Shell::Direnv)
    } else if t == "bash"@ || t == "zsh"@ || t == "posix"@ || t == "sh"@ {
        Some(Shell::Posix)
    } else {
        None
    }
}

impl Shell {
    /// The shell a name selects.
    pub fn parse(text: &str) -> (r: Option<Self>)
        ensures
            r == shell_named(text@),
    {
        if str_eq(text, "direnv") {
            Some(Shell::Direnv)
        } else if str_eq(text, "bash") || str_eq(text, "zsh") || str_eq(text, "posix") || str_eq(
            text,
            "sh",
        ) {
            Some(Shell::Posix)
        } else {
            None
        }
    }
}

/// The names each shell answers to.
pub open spec fn shell_names(sh: Shell) -> Seq<Seq<char>> {
    match sh {
        Shell::Direnv => seq!["direnv"@],
        Shell::Posix => seq!["bash"@, "zsh"@, "posix"@, "sh"@],
    }
}

/// Every shell is selected by each of its names (`bash`, `zsh`, `posix` and `sh` all take
/// the same statements), and a name selects a shell only when it is one of its names.
pub proof fn law_each_shell_name_selects_its_shell(sh: Shell, t: Seq<char>)
    ensures
        shell_names(sh).contains(t) ==> shell_named(t) == Some(sh),
        shell_named(t) == Some(sh) ==> shell_names(sh).contains(t),
{
    reveal_strlit("direnv");
    reveal_strlit("bash");
    reveal_strlit("zsh");
    reveal_strlit("posix");
    reveal_strlit("sh");
    assert("direnv"@.len() == 6 && "bash"@.len() == 4 && "zsh"@.len() == 3 && "posix"@.len() == 5 && "sh"@.len() == 2);
    if shell_named(t) == Some(sh) {
        match sh {
            Shell::Direnv => assert(shell_names(sh)[0] == t),
            Shell::Posix => {
                if t == "bash"@ {
                    assert(shell_names(sh)[0] == t);
                } else if t == "zsh"@ {
                    assert(shell_names(sh)[1] == t);
                } else if t == "posix"@ {
                    assert(shell_names(sh)[2] == t);
                } else {
                    assert(shell_names(sh)[3] == t);
                }
            },
        }
    }
}

// ------------------------------------------------------------------ quoting

/// A text without its single quotes and control characters.
pub open spec fn shell_clean(s: Seq<char>) -> Seq<char>
    decreases s.len(),
{
    if s.len() == 0 {
        seq![]
    } else if s.last() == '\'' || is_control(s.last()) {
        shell_clean(s.drop_last())
    } else {
        shell_clean(s.drop_last()).push(s.last())
    }
}

/// A shell word: a single-quoted literal of the cleaned text.
pub open spec fn shell_word(s: Seq<char>) -> Seq<char> {
    seq!['\''] + shell_clean(s) + seq!['\'']
}

proof fn lemma_shell_clean(s: Seq<char>)
    ensures
        forall|i: int|
            0 <= i < shell_clean(s).len() ==> #[trigger] shell_clean(s)[i] != '\'' && !is_control(
                shell_clean(s)[i],
            ),
    decreases s.len(),
{
    if s.len() > 0 {
        lemma_shell_clean(s.drop_last());
        let c = shell_clean(s);
        assert forall|i: int| 0 <= i < c.len() implies #[trigger] c[i] != '\'' && !is_control(c[i]) by {
            if i < shell_clean(s.drop_last()).len() {
                assert(c[i] == shell_clean(s.drop_last())[i]);
            }
        }
    }
}

/// A shell word: a single-quoted literal with every quote and control character removed
/// from the value first. Nothing that reaches `eval` was ever able to end its own quoting.
pub fn sh_quote(word: &str) -> (r: String)
    ensures
        r@ == shell_word(word@),
{
    let n = word.unicode_len();
    let mut out = String::new();
    push_char(&mut out, '\'');
    let mut i: usize = 0;
    while i < n
        invariant
            n == word@.len(),
            i <= n,
            out@ == seq!['\''] + shell_clean(word@.subrange(0, i as int)),
        decreases n - i,
    {
        let c = word.get_char(i);
        let ghost sub = word@.subrange(0, i + 1);
        assert(sub.drop_last() =~= word@.subrange(0, i as int));
        assert(sub.last() == c);
        let u = c as u32;
        if c != '\'' && !(u <= 0x1f || (0x7f <= u && u <= 0x9f)) {
            push_char(&mut out, c);
        }
        assert(out@ =~= seq!['\''] + shell_clean(sub));
        i += 1;
    }
    assert(word@.subrange(0, n as int) =~= word@);
    push_char(&mut out, '\'');
    assert(out@ =~= shell_word(word@));
    out
}

/// A word reaching `eval` cannot end its own quoting: the literal opens and closes with a
/// quote and holds no other quote and no control character, so no line break either.
pub proof fn law_a_word_reaching_eval_cannot_end_its_own_quoting(word: Seq<char>)
    ensures
        shell_word(word).len() >= 2,
        shell_word(word)[0] == '\'',
        shell_word(word).last() == '\'',
        forall|i: int|
            0 < i < shell_word(word).len() - 1 ==> #[trigger] shell_word(word)[i] != '\'' && !is_control(
                shell_word(word)[i],
            ),
{
    lemma_shell_clean(word);
    let w = shell_word(word);
    let c = shell_clean(word);
    assert forall|i: int| 0 < i < w.len() - 1 implies #[trigger] w[i] != '\'' && !is_control(w[i]) by {
        assert(w[i] == c[i - 1]);
    }
}

// ------------------------------------------------------------------ what git and the lease say

/// A text without the white space at its ends (`str::trim`).
pub open spec fn trimmed(s: Seq<char>) -> Seq<char> {
    let a = lead_white(s);
    let rest = s.subrange(a, s.len() as int);
    rest.subrange(0, rest.len() - tail_white(rest))
}

/// The white space a text starts with.
pub open spec fn lead_white(s: Seq<char>) -> int
    decreases s.len(),
{
    if s.len() > 0 && is_white(s[0]) {
        1 + lead_white(s.drop_first())
    } else {
        0
    }
}

/// The white space a text ends with.
pub open spec fn tail_white(s: Seq<char>) -> int
    decreases s.len(),
{
    if s.len() > 0 && is_white(s.last()) {
        1 + tail_white(s.drop_last())
    } else {
        0
    }
}

proof fn lemma_lead_white_exact(s: Seq<char>, k: int)
    requires
        0 <= k <= s.len(),
        forall|j: int| 0 <= j < k ==> is_white(#[trigger] s[j]),
        k < s.len() ==> !is_white(s[k]),
    ensures
        lead_white(s) == k,
    decreases k,
{
    if k > 0 {
        let t = s.drop_first();
        assert forall|j: int| 0 <= j < k - 1 implies is_white(#[trigger] t[j]) by {
            assert(t[j] == s[j + 1]);
        }
        if k < s.len() {
            assert(t[k - 1] == s[k]);
        }
        assert(is_white(s[0]));
        lemma_lead_white_exact(t, k - 1);
    } else if s.len() > 0 {
        assert(!is_white(s[0]));
    }
}

proof fn lemma_tail_white_exact(s: Seq<char>, k: int)
    requires
        0 <= k <= s.len(),
        forall|j: int| s.len() - k <= j < s.len() ==> is_white(#[trigger] s[j]),
        k < s.len() ==> !is_white(s[s.len() - 1 - k]),
    ensures
        tail_white(s) == k,
    decreases k,
{
    if k > 0 {
        let t = s.drop_last();
        assert forall|j: int| t.len() - (k - 1) <= j < t.len() implies is_white(#[trigger] t[j]) by {
            assert(t[j] == s[j]);
        }
        if k - 1 < t.len() {
            assert(t[t.len() - 1 - (k - 1)] == s[s.len() - 1 - k]);
        }
        assert(s.last() == s[s.len() - 1]);
        lemma_tail_white_exact(t, k - 1);
    } else if s.len() > 0 {
        assert(s.last() == s[s.len() - 1]);
    }
}

fn white(c: char) -> (r: bool)
    ensures
        r == is_white(c),
{
    let u = c as u32;
    (0x09 <= u && u <= 0x0d) || u == 0x20 || u == 0x85 || u == 0xa0 || u == 0x1680 || (0x2000
        <= u && u <= 0x200a) || u == 0x2028 || u == 0x2029 || u == 0x202f || u == 0x205f || u
        == 0x3000
}

/// A text without the white space at its ends.
pub fn trim(s: &str) -> (r: &str)
    ensures
        r@ == trimmed(s@),
{
    let n = s.unicode_len();
    let mut a: usize = 0;
    while a < n && white(s.get_char(a))
        invariant
            n == s@.len(),
            a <= n,
            forall|j: int| 0 <= j < a ==> is_white(#[trigger] s@[j]),
        decreases n - a,
    {
        a += 1;
    }
    proof {
        lemma_lead_white_exact(s@, a as int);
    }
    let rest = s.substring_char(a, n);
    let m = rest.unicode_len();
    let mut b: usize = m;
    while b > 0 && white(rest.get_char(b - 1))
        invariant
            m == rest@.len(),
            b <= m,
            forall|j: int| b <= j < m ==> is_white(#[trigger] rest@[j]),
        decreases b,
    {
        b -= 1;
    }
    proof {
        lemma_tail_white_exact(rest@, (m - b) as int);
    }
    rest.substring_char(0, b)
}

/// Does a text start with a prefix?
pub open spec fn starts(s: Seq<char>, p: Seq<char>) -> bool {
    p.len() <= s.len() && s.subrange(0, p.len() as int) == p
}

pub fn starts_with(s: &str, p: &str) -> (r: bool)
    ensures
        r == starts(s@, p@),
{
    let n = s.unicode_len();
    let m = p.unicode_len();
    m <= n && str_eq(s.substring_char(0, m), p)
}

/// The branch a `HEAD` file names, or the first eight characters of the commit when the
/// head is detached.
pub open spec fn branch_named(head_file: Seq<char>) -> Seq<char> {
    let t = trimmed(head_file);
    if starts(t, "ref: refs/heads/"@) {
        t.subrange("ref: refs/heads/"@.len() as int, t.len() as int)
    } else if t.len() <= 8 {
        t
    } else {
        t.subrange(0, 8)
    }
}

/// The branch of a checkout, from the text of its `HEAD` file — a file, not a
/// subprocess.
pub fn branch_of(head_file: &str) -> (r: String)
    ensures
        r@ == branch_named(head_file@),
{
    let t = trim(head_file);
    let prefix = "ref: refs/heads/";
    let n = t.unicode_len();
    if starts_with(t, prefix) {
        String::from_str(t.substring_char(prefix.unicode_len(), n))
    } else if n <= 8 {
        String::from_str(t)
    } else {
        String::from_str(t.substring_char(0, 8))
    }
}

/// The directory a worktree's `.git` file points at, when it points at one.
pub open spec fn gitdir_named(dot_git_file: Seq<char>) -> Option<Seq<char>> {
    let t = trimmed(dot_git_file);
    if starts(t, "gitdir:"@) {
        Some(trimmed(t.subrange("gitdir:"@.len() as int, t.len() as int)))
    } else {
        None
    }
}

/// The directory a worktree's `.git` file names.
pub fn gitdir_of(dot_git_file: &str) -> (r: Option<String>)
    ensures
        match gitdir_named(dot_git_file@) {
            Some(d) => r matches Some(x) && x@ == d,
            None => r is None,
        },
{
    let t = trim(dot_git_file);
    let prefix = "gitdir:";
    if starts_with(t, prefix) {
        let rest = t.substring_char(prefix.unicode_len(), t.unicode_len());
        Some(String::from_str(trim(rest)))
    } else {
        None
    }
}

// ------------------------------------------------------------------ the entry

/// What repository entry found, cheaply. The banner renders this; nothing else discovers
/// anything of its own.
#[derive(Debug, PartialEq, Eq)]
pub struct Entry {
    /// The repository root.
    pub root: String,
    /// The name a person calls it: the root's own directory name.
    pub name: String,
    /// The branch, or the short commit when the head is detached; `None` outside git.
    pub head: Option<String>,
    /// The address of the shared server, when one has written its lease.
    pub server: Option<String>,
    /// How many commands are listed and can run here, and how many are listed.
    pub commands: (usize, usize),
    /// The graph's structure fingerprint.
    pub structure: String,
    /// What the banner suggests running, in the graph's own order.
    pub entry_commands: Vec<(String, String)>,
    /// What could not be answered: an unbuilt executable, a broken workflow object.
    pub notes: Vec<String>,
}

/// The name a person calls a checkout: the last component of its root.
pub open spec fn root_name(root: Seq<char>) -> Seq<char> {
    match last_named(split_seq(root, '/')) {
        Some(n) => n,
        None => "repository"@,
    }
}

/// How many of some commands can run here.
pub open spec fn available_count(cs: Seq<crate::command::model::CommandNode>) -> nat
    decreases cs.len(),
{
    if cs.len() == 0 {
        0
    } else {
        available_count(cs.drop_last()) + if cs.last().availability.available {
            1nat
        } else {
            0nat
        }
    }
}

/// Is a command one the banner may suggest: tagged as an entry, and able to run here?
pub open spec fn suggested(c: crate::command::model::CommandNode) -> bool {
    views(c.tags@).contains("entry"@) && c.availability.available
}

/// The first four suggestions of a list, as `just <recipe>` and the summary; one without
/// a recipe is skipped after the four are taken.
pub open spec fn suggestions(cs: Seq<crate::command::model::CommandNode>, taken: nat) -> Seq<(Seq<char>, Seq<char>)>
    decreases cs.len(),
{
    if cs.len() == 0 || taken >= 4 {
        seq![]
    } else if suggested(cs[0]) {
        let rest = suggestions(cs.drop_first(), taken + 1);
        match cs[0].projections.just {
            Some(j) => seq![("just "@ + j@, cs[0].summary@)] + rest,
            None => rest,
        }
    } else {
        suggestions(cs.drop_first(), taken)
    }
}

/// The notes of an entry: the unbuilt executable, then every fatal finding.
pub open spec fn entry_notes(native_missing: bool, ds: Seq<crate::command::model::Diagnostic>) -> Seq<Seq<char>> {
    (if native_missing {
        seq!["the Rust executable is not built"@]
    } else {
        seq![]
    }) + fatal_messages(ds)
}

/// The messages of the fatal findings, in order.
pub open spec fn fatal_messages(ds: Seq<crate::command::model::Diagnostic>) -> Seq<Seq<char>>
    decreases ds.len(),
{
    if ds.len() == 0 {
        seq![]
    } else if ds.last().fatal {
        fatal_messages(ds.drop_last()).push(ds.last().message@)
    } else {
        fatal_messages(ds.drop_last())
    }
}

/// The pairs of an entry's suggestions as the contracts see them.
pub open spec fn pair_views(v: Seq<(String, String)>) -> Seq<(Seq<char>, Seq<char>)> {
    v.map_values(|p: (String, String)| (p.0@, p.1@))
}

/// What reading the entry state of a checkout gives, from one order of the list.
pub open spec fn read_as(
    e: Entry,
    root: Seq<char>,
    graph: CommandGraph,
    facts: Facts,
    head: Option<Seq<char>>,
    server: Option<Seq<char>>,
    listed: Seq<crate::command::model::CommandNode>,
) -> bool {
    &&& e.root@ == root
    &&& e.name@ == root_name(root)
    &&& crate::cockpit::nav::opt_text(e.head) == head
    &&& crate::cockpit::nav::opt_text(e.server) == server
    &&& e.commands.0 == available_count(listed)
    &&& e.commands.1 == listed.len()
    &&& e.structure@ == graph.structure@
    &&& pair_views(e.entry_commands@) == suggestions(listed, 0)
    &&& views(e.notes@) == entry_notes(facts.native is None, graph.diagnostics@)
}

fn opt_copy(o: &Option<String>) -> (r: Option<String>)
    ensures
        crate::cockpit::nav::opt_text(r) == crate::cockpit::nav::opt_text(*o),
{
    match o {
        Some(s) => Some(String::from_str(s.as_str())),
        None => None,
    }
}

fn name_of_root(root: &str) -> (r: String)
    ensures
        r@ == root_name(root@),
{
    let segs = split_text(root, '/');
    let mut found: Option<usize> = None;
    let mut i: usize = 0;
    while i < segs.len()
        invariant
            i <= segs@.len(),
            match found {
                Some(k) => k < i && last_named(views(segs@).take(i as int)) == Some(segs@[k as int]@),
                None => last_named(views(segs@).take(i as int)) is None,
            },
        decreases segs.len() - i,
    {
        let ghost t = views(segs@).take(i + 1);
        assert(t.drop_last() =~= views(segs@).take(i as int));
        assert(t.last() == segs@[i as int]@);
        let w = segs[i].as_str();
        if w.unicode_len() == 0 || str_eq(w, ".") {
        } else if str_eq(w, "..") {
            found = None;
        } else {
            found = Some(i);
        }
        i += 1;
    }
    assert(views(segs@).take(segs@.len() as int) =~= views(segs@));
    match found {
        Some(k) => String::from_str(segs[k].as_str()),
        None => String::from_str("repository"),
    }
}

fn has_tag(tags: &Vec<String>, word: &str) -> (r: bool)
    ensures
        r == views(tags@).contains(word@),
{
    let mut i: usize = 0;
    while i < tags.len()
        invariant
            i <= tags@.len(),
            forall|j: int| 0 <= j < i ==> tags@[j]@ != word@,
        decreases tags.len() - i,
    {
        if str_eq(tags[i].as_str(), word) {
            assert(views(tags@)[i as int] == word@);
            return true;
        }
        i += 1;
    }
    assert(!views(tags@).contains(word@)) by {
        if views(tags@).contains(word@) {
            let j = choose|j: int| 0 <= j < views(tags@).len() && views(tags@)[j] == word@;
            assert(tags@[j]@ == word@);
        }
    }
    false
}

proof fn lemma_suggestions_split(cs: Seq<crate::command::model::CommandNode>, i: int, taken: nat)
    requires
        0 <= i < cs.len(),
    ensures
        suggestions(cs.skip(i), taken) == if taken >= 4 {
            seq![]
        } else if suggested(cs[i]) {
            match cs[i].projections.just {
                Some(j) => seq![("just "@ + j@, cs[i].summary@)] + suggestions(cs.skip(i + 1), taken + 1),
                None => suggestions(cs.skip(i + 1), taken + 1),
            }
        } else {
            suggestions(cs.skip(i + 1), taken)
        },
{
    assert(cs.skip(i)[0] == cs[i]);
    assert(cs.skip(i).drop_first() =~= cs.skip(i + 1));
}

impl Entry {
    /// Read the entry state of a checkout from the graph and the facts, with what its
    /// `HEAD` file and the server's lease said.
    pub fn read(
        root: &str,
        graph: &CommandGraph,
        facts: &Facts,
        head: Option<String>,
        server: Option<String>,
    ) -> (r: Self)
        ensures
            exists|perm: Seq<int>|
                sorts_listed(listed_nodes(graph.commands@), perm) && read_as(
                    r,
                    root@,
                    *graph,
                    *facts,
                    crate::cockpit::nav::opt_text(head),
                    crate::cockpit::nav::opt_text(server),
                    crate::command::just::listed_in_order(graph.commands@, perm),
                ),
    {
        let listed = graph.listed();
        let ghost perm = choose|perm: Seq<int>|
            sorts_listed(listed_nodes(graph.commands@), perm) && listed@.len() == perm.len() && (forall|k: int|
                0 <= k < perm.len() ==> *(#[trigger] listed@[k]) == listed_nodes(graph.commands@)[perm[k]]);
        let ghost nodes = crate::command::just::listed_in_order(graph.commands@, perm);
        let mut available: usize = 0;
        let mut i: usize = 0;
        while i < listed.len()
            invariant
                i <= listed@.len(),
                nodes.len() == listed@.len(),
                forall|k: int| 0 <= k < listed@.len() ==> *(#[trigger] listed@[k]) == nodes[k],
                available == available_count(nodes.take(i as int)),
                available <= i,
            decreases listed.len() - i,
        {
            let ghost t = nodes.take(i + 1);
            assert(t.drop_last() =~= nodes.take(i as int));
            assert(t.last() == nodes[i as int]);
            if listed[i].availability.available {
                available += 1;
            }
            i += 1;
        }
        assert(nodes.take(nodes.len() as int) =~= nodes);
        let mut entry_commands: Vec<(String, String)> = Vec::new();
        let mut taken: usize = 0;
        let mut i: usize = 0;
        assert(nodes.skip(0) =~= nodes);
        while i < listed.len() && taken < 4
            invariant
                i <= listed@.len(),
                taken <= 4,
                nodes.len() == listed@.len(),
                forall|k: int| 0 <= k < listed@.len() ==> *(#[trigger] listed@[k]) == nodes[k],
                pair_views(entry_commands@) + suggestions(nodes.skip(i as int), taken as nat) == suggestions(nodes, 0),
            decreases listed.len() - i,
        {
            let c = listed[i];
            proof {
                lemma_suggestions_split(nodes, i as int, taken as nat);
            }
            if has_tag(&c.tags, "entry") && c.availability.available {
                taken += 1;
                match &c.projections.just {
                    Some(j) => {
                        let mut name = String::from_str("just ");
                        push_str(&mut name, j.as_str());
                        let pair = (name, String::from_str(c.summary.as_str()));
                        let ghost prev = entry_commands@;
                        entry_commands.push(pair);
                        assert(pair_views(entry_commands@) =~= pair_views(prev).push((pair.0@, pair.1@)));
                        proof {
                            crate::strings::lemma_add_assoc(pair_views(prev), seq![(pair.0@, pair.1@)], suggestions(nodes.skip(i + 1), taken as nat));
                        }
                        assert(pair_views(prev).push((pair.0@, pair.1@)) =~= pair_views(prev) + seq![(pair.0@, pair.1@)]);
                    },
                    None => {},
                }
            }
            i += 1;
        }
        proof {
            if i >= listed@.len() {
                assert(nodes.skip(i as int).len() == 0);
            }
        }
        assert(suggestions(nodes.skip(i as int), taken as nat) =~= seq![]);
        assert(pair_views(entry_commands@) + seq![] =~= pair_views(entry_commands@));
        let mut notes: Vec<String> = Vec::new();
        if facts.native.is_none() {
            notes.push(String::from_str("the Rust executable is not built"));
        }
        let ghost first = views(notes@);
        let mut i: usize = 0;
        while i < graph.diagnostics.len()
            invariant
                i <= graph.diagnostics@.len(),
                views(notes@) == first + fatal_messages(graph.diagnostics@.take(i as int)),
            decreases graph.diagnostics.len() - i,
        {
            let ghost t = graph.diagnostics@.take(i + 1);
            assert(t.drop_last() =~= graph.diagnostics@.take(i as int));
            assert(t.last() == graph.diagnostics@[i as int]);
            if graph.diagnostics[i].fatal {
                let ghost prev = notes@;
                notes.push(String::from_str(graph.diagnostics[i].message.as_str()));
                assert(views(notes@) =~= views(prev).push(graph.diagnostics@[i as int].message@));
            }
            i += 1;
        }
        assert(graph.diagnostics@.take(graph.diagnostics@.len() as int) =~= graph.diagnostics@);
        let e = Entry {
            root: String::from_str(root),
            name: name_of_root(root),
            head: opt_copy(&head),
            server: opt_copy(&server),
            commands: (available, listed.len()),
            structure: String::from_str(graph.structure.as_str()),
            entry_commands,
            notes,
        };
        assert(views(e.notes@) =~= entry_notes(facts.native is None, graph.diagnostics@));
        e
    }

    /// What the banner is keyed on: everything a person would want to be told again.
    /// Deliberately not the working tree's cleanliness — reading that costs more than the
    /// whole of repository entry is allowed to.
    pub fn fingerprint(&self) -> (r: String)
        ensures
            r@ == crate::digest::sha256_hex_of(entry_key(*self)),
    {
        let mut t = String::from_str(self.root.as_str());
        push_char(&mut t, '\0');
        match &self.head {
            Some(h) => push_str(&mut t, h.as_str()),
            None => push_str(&mut t, "-"),
        }
        push_char(&mut t, '\0');
        match &self.server {
            Some(h) => push_str(&mut t, h.as_str()),
            None => push_str(&mut t, "-"),
        }
        push_char(&mut t, '\0');
        push_str(&mut t, self.structure.as_str());
        push_char(&mut t, '\0');
        push_decimal(&mut t, self.commands.0);
        push_char(&mut t, '\0');
        let ghost before = t@;
        let mut i: usize = 0;
        while i < self.notes.len()
            invariant
                i <= self.notes@.len(),
                t@ == before + joined_with_bar(views(self.notes@).take(i as int)),
            decreases self.notes.len() - i,
        {
            if i > 0 {
                push_char(&mut t, '|');
            }
            push_str(&mut t, self.notes[i].as_str());
            let ghost w = views(self.notes@).take(i + 1);
            assert(w.drop_last() =~= views(self.notes@).take(i as int));
            assert(w.last() == self.notes@[i as int]@);
            assert(t@ =~= before + joined_with_bar(w));
            i += 1;
        }
        assert(views(self.notes@).take(self.notes@.len() as int) =~= views(self.notes@));
        push_char(&mut t, '\0');
        assert(t@ =~= entry_key(*self));
        crate::digest::sha256_hex(t.as_str())
    }
}

/// Notes joined by a bar.
pub open spec fn joined_with_bar(ws: Seq<Seq<char>>) -> Seq<char>
    decreases ws.len(),
{
    if ws.len() == 0 {
        seq![]
    } else if ws.len() == 1 {
        ws[0]
    } else {
        joined_with_bar(ws.drop_last()) + seq!['|'] + ws.last()
    }
}

/// What an entry's fingerprint is taken over: each part, then a NUL.
pub open spec fn entry_key(e: Entry) -> Seq<char> {
    e.root@ + seq!['\0'] + (match e.head {
        Some(h) => h@,
        None => "-"@,
    }) + seq!['\0'] + (match e.server {
        Some(s) => s@,
        None => "-"@,
    }) + seq!['\0'] + e.structure@ + seq!['\0'] + decimal_of(e.commands.0 as nat) + seq!['\0']
        + joined_with_bar(views(e.notes@)) + seq!['\0']
}

// ------------------------------------------------------------------ the activation

/// The position of the last `/` in a text, or -1.
pub open spec fn last_slash(p: Seq<char>) -> int
    decreases p.len(),
{
    if p.len() == 0 {
        -1
    } else if p.last() == '/' {
        p.len() - 1
    } else {
        last_slash(p.drop_last())
    }
}

/// The directory a path is in: what comes before its last `/`, the root for a path just
/// under it, nothing for the root itself or an empty path, and the empty path for a bare
/// name.
pub open spec fn parent_of(p: Seq<char>) -> Option<Seq<char>> {
    let k = last_slash(p);
    if p.len() == 0 {
        None
    } else if k < 0 {
        Some(seq![])
    } else if k == 0 {
        if p.len() == 1 {
            None
        } else {
            Some(seq!['/'])
        }
    } else {
        Some(p.subrange(0, k))
    }
}

proof fn lemma_last_slash(p: Seq<char>)
    ensures
        -1 <= last_slash(p) < p.len(),
        last_slash(p) >= 0 ==> p[last_slash(p)] == '/',
        forall|j: int| last_slash(p) < j < p.len() ==> p[j] != '/',
    decreases p.len(),
{
    if p.len() > 0 && p.last() != '/' {
        lemma_last_slash(p.drop_last());
        assert forall|j: int| last_slash(p) < j < p.len() implies p[j] != '/' by {
            if j < p.len() - 1 {
                assert(p[j] == p.drop_last()[j]);
            }
        }
        if last_slash(p) >= 0 {
            assert(p[last_slash(p)] == p.drop_last()[last_slash(p)]);
        }
    }
}

proof fn lemma_last_slash_exact(p: Seq<char>, k: int)
    requires
        -1 <= k < p.len(),
        k >= 0 ==> p[k] == '/',
        forall|j: int| k < j < p.len() ==> p[j] != '/',
    ensures
        last_slash(p) == k,
    decreases p.len(),
{
    if p.len() > 0 {
        if p.last() == '/' {
            assert(p[p.len() - 1] == '/');
        } else {
            assert(p[p.len() - 1] != '/');
            assert forall|j: int| k < j < p.drop_last().len() implies p.drop_last()[j] != '/' by {
                assert(p.drop_last()[j] == p[j]);
            }
            if k >= 0 {
                assert(p.drop_last()[k] == p[k]);
            }
            lemma_last_slash_exact(p.drop_last(), k);
        }
    }
}

fn parent(p: &str) -> (r: Option<String>)
    ensures
        match parent_of(p@) {
            Some(d) => r matches Some(x) && x@ == d,
            None => r is None,
        },
{
    let n = p.unicode_len();
    if n == 0 {
        return None;
    }
    let mut k: usize = n;
    let mut found = false;
    while k > 0 && !found
        invariant
            n == p@.len(),
            k <= n,
            forall|j: int| k <= j < n && !(found && j == k - 1) ==> p@[j] != '/',
            found ==> k >= 1 && p@[k - 1] == '/',
        decreases k + (if found { 0int } else { 1int }),
    {
        if p.get_char(k - 1) == '/' {
            found = true;
        } else {
            k -= 1;
        }
    }
    if !found {
        proof {
            lemma_last_slash_exact(p@, -1);
        }
        return Some(String::new());
    }
    let slash = k - 1;
    proof {
        assert forall|j: int| slash < j < n implies p@[j] != '/' by {}
        lemma_last_slash_exact(p@, slash as int);
    }
    if slash == 0 {
        if n == 1 {
            None
        } else {
            let mut root = String::new();
            push_char(&mut root, '/');
            Some(root)
        }
    } else {
        Some(String::from_str(p.substring_char(0, slash)))
    }
}

/// The inputs a checkout's graph and facts were read from, before asking which exist:
/// the shell tool's registry, the workflow tree, the `HEAD` when this is git, and a
/// native build inside the checkout.
pub open spec fn watch_candidates_of(root: Seq<char>, facts: Facts) -> Seq<Seq<char>> {
    let base = seq!["share/commands.yaml"@, WORKFLOW_DIRECTORY@];
    let with_git = if facts.git {
        base.push(".git/HEAD"@)
    } else {
        base
    };
    match facts.native {
        Some(n) => match inside(root, n@) {
            Some(rel) => with_git.push(rel),
            None => with_git,
        },
        None => with_git,
    }
}

/// A path relative to a root, when it is under it (`Path::strip_prefix`).
pub open spec fn inside(root: Seq<char>, path: Seq<char>) -> Option<Seq<char>> {
    if path == root {
        Some(seq![])
    } else if root.len() < path.len() && path.subrange(0, root.len() as int) == root && path[root.len() as int] == '/' {
        Some(path.subrange(root.len() as int + 1, path.len() as int))
    } else {
        None
    }
}

fn relative_to(root: &str, path: &str) -> (r: Option<String>)
    ensures
        match inside(root@, path@) {
            Some(x) => r matches Some(y) && y@ == x,
            None => r is None,
        },
{
    if str_eq(root, path) {
        return Some(String::new());
    }
    let n = root.unicode_len();
    let m = path.unicode_len();
    if n < m && str_eq(path.substring_char(0, n), root) && path.get_char(n) == '/' {
        Some(String::from_str(path.substring_char(n + 1, m)))
    } else {
        None
    }
}

/// The files direnv should watch, before asking which exist: exactly the inputs the
/// graph and the facts were read from.
pub fn watch_candidates(entry: &Entry, facts: &Facts) -> (r: Vec<String>)
    ensures
        views(r@) == watch_candidates_of(entry.root@, *facts),
{
    let mut out = vec![String::from_str("share/commands.yaml"), String::from_str(WORKFLOW_DIRECTORY)];
    if facts.git {
        out.push(String::from_str(".git/HEAD"));
    }
    match &facts.native {
        Some(n) => match relative_to(entry.root.as_str(), n.as_str()) {
            Some(rel) => out.push(rel),
            None => {},
        },
        None => {},
    }
    assert(views(out@) =~= watch_candidates_of(entry.root@, *facts));
    out
}

/// The candidates that exist, in order.
pub open spec fn kept(cs: Seq<Seq<char>>, present: Seq<bool>) -> Seq<Seq<char>>
    decreases cs.len(),
{
    if cs.len() == 0 {
        seq![]
    } else if present[cs.len() - 1] {
        kept(cs.drop_last(), present).push(cs.last())
    } else {
        kept(cs.drop_last(), present)
    }
}

/// The files direnv should watch: the candidates that exist in the checkout. One
/// dependency declaration serves the cache, the watch list and the report; a second list
/// of paths in `.envrc` would be the same knowledge written twice.
pub fn watches(entry: &Entry, facts: &Facts, present: &[bool]) -> (r: Vec<String>)
    requires
        present@.len() == watch_candidates_of(entry.root@, *facts).len(),
    ensures
        views(r@) == kept(watch_candidates_of(entry.root@, *facts), present@),
{
    let all = watch_candidates(entry, facts);
    let mut out: Vec<String> = Vec::new();
    let mut i: usize = 0;
    while i < all.len()
        invariant
            i <= all@.len(),
            present@.len() == all@.len(),
            views(out@) == kept(views(all@).take(i as int), present@),
        decreases all.len() - i,
    {
        let ghost t = views(all@).take(i + 1);
        assert(t.drop_last() =~= views(all@).take(i as int));
        assert(t.last() == all@[i as int]@);
        if present[i] {
            let ghost prev = out@;
            out.push(String::from_str(all[i].as_str()));
            assert(views(out@) =~= views(prev).push(all@[i as int]@));
        }
        i += 1;
    }
    assert(views(all@).take(all@.len() as int) =~= views(all@));
    out
}

/// A statement that puts a directory on the path, in a shell's own words.
pub open spec fn path_statement(shell: Shell, dir: Seq<char>) -> Seq<char> {
    match shell {
        Shell::Direnv => "PATH_add "@ + shell_word(dir),
        Shell::Posix => "PATH="@ + shell_word(dir) + ":$PATH; export PATH"@,
    }
}

/// The first line of the payload: a comment naming the checkout, with the name cleaned as
/// a shell word is, so it cannot end the comment.
pub open spec fn comment_line(name: Seq<char>) -> Seq<char> {
    "# "@ + shell_clean(name) + " — Majordomus repository activation"@
}

/// The lines of the activation payload, each without its line break: the comment, the two
/// exports, the path of the native executable's directory and of the repository's tools
/// where there are any, and for direnv a watch of every watched file.
pub open spec fn activation_lines(e: Entry, facts: Facts, shell: Shell, watched: Seq<Seq<char>>) -> Seq<Seq<char>> {
    let head = seq![
        comment_line(e.name@),
        "export "@ + ROOT_ENV@ + "="@ + shell_word(e.root@),
        "export "@ + STRUCTURE_ENV@ + "="@ + shell_word(e.structure@),
    ];
    let native: Seq<Seq<char>> = match facts.native {
        Some(n) => match parent_of(n@) {
            Some(d) => seq![path_statement(shell, d)],
            None => seq![],
        },
        None => seq![],
    };
    let tool: Seq<Seq<char>> = if facts.shell is Some {
        seq![path_statement(shell, crate::command::just::joined(e.root@, "bin"@))]
    } else {
        seq![]
    };
    let watching: Seq<Seq<char>> = if shell == Shell::Direnv {
        watched.map_values(|w: Seq<char>| "watch_file "@ + shell_word(w))
    } else {
        seq![]
    };
    head + native + tool + watching
}

/// Lines as a text: each followed by a line break.
pub open spec fn lines_text(ls: Seq<Seq<char>>) -> Seq<char>
    decreases ls.len(),
{
    if ls.len() == 0 {
        seq![]
    } else {
        lines_text(ls.drop_last()) + ls.last() + seq!['\n']
    }
}

/// The activation payload as text.
pub open spec fn activation_text(e: Entry, facts: Facts, shell: Shell, watched: Seq<Seq<char>>) -> Seq<char> {
    lines_text(activation_lines(e, facts, shell, watched))
}

/// A text without its single quotes and control characters, as a shell word holds it.
fn shell_cleaned(word: &str) -> (r: String)
    ensures
        r@ == shell_clean(word@),
{
    let n = word.unicode_len();
    let mut out = String::new();
    let mut i: usize = 0;
    while i < n
        invariant
            n == word@.len(),
            i <= n,
            out@ == shell_clean(word@.subrange(0, i as int)),
        decreases n - i,
    {
        let c = word.get_char(i);
        let ghost sub = word@.subrange(0, i + 1);
        assert(sub.drop_last() =~= word@.subrange(0, i as int));
        assert(sub.last() == c);
        let u = c as u32;
        if c != '\'' && !(u <= 0x1f || (0x7f <= u && u <= 0x9f)) {
            push_char(&mut out, c);
        }
        assert(out@ =~= shell_clean(sub));
        i += 1;
    }
    assert(word@.subrange(0, n as int) =~= word@);
    out
}

fn push_line(out: &mut String, line: &str, Ghost(ls): Ghost<Seq<Seq<char>>>)
    requires
        old(out)@ == lines_text(ls),
    ensures
        final(out)@ == lines_text(ls.push(line@)),
{
    push_str(out, line);
    push_char(out, '\n');
    assert(ls.push(line@).drop_last() =~= ls);
}

fn path_statement_text(shell: Shell, dir: &str) -> (r: String)
    ensures
        r@ == path_statement(shell, dir@),
{
    let q = sh_quote(dir);
    let mut out = String::new();
    match shell {
        Shell::Direnv => {
            push_str(&mut out, "PATH_add ");
            push_str(&mut out, q.as_str());
        },
        Shell::Posix => {
            push_str(&mut out, "PATH=");
            push_str(&mut out, q.as_str());
            push_str(&mut out, ":$PATH; export PATH");
        },
    }
    out
}

/// The activation payload: shell statements and nothing else.
///
/// Every value written into it is a single-quoted literal with the quotes stripped from
/// the value first, so a repository whose path or branch carried a quote, a `$(...)` or a
/// newline cannot become a command; the checkout's name in the opening comment is cleaned
/// the same way, so it cannot end the comment. The payload is meant to be `eval`ed, which
/// is exactly why it may not contain one word that came from anywhere unchecked.
/// `watched` is what [`watches`] kept.
pub fn activation(entry: &Entry, facts: &Facts, shell: Shell, watched: &Vec<String>) -> (r: String)
    ensures
        r@ == activation_text(*entry, *facts, shell, views(watched@)),
{
    let mut out = String::new();
    let ghost mut ls: Seq<Seq<char>> = seq![];
    let mut comment = String::from_str("# ");
    push_str(&mut comment, shell_cleaned(entry.name.as_str()).as_str());
    push_str(&mut comment, " — Majordomus repository activation");
    push_line(&mut out, comment.as_str(), Ghost(ls));
    proof {
        ls = ls.push(comment@);
    }
    let mut root = String::from_str("export ");
    push_str(&mut root, ROOT_ENV);
    push_str(&mut root, "=");
    push_str(&mut root, sh_quote(entry.root.as_str()).as_str());
    push_line(&mut out, root.as_str(), Ghost(ls));
    proof {
        ls = ls.push(root@);
    }
    let mut structure = String::from_str("export ");
    push_str(&mut structure, STRUCTURE_ENV);
    push_str(&mut structure, "=");
    push_str(&mut structure, sh_quote(entry.structure.as_str()).as_str());
    push_line(&mut out, structure.as_str(), Ghost(ls));
    proof {
        ls = ls.push(structure@);
    }
    let ghost head = ls;
    match &facts.native {
        Some(n) => match parent(n.as_str()) {
            Some(dir) => {
                let line = path_statement_text(shell, dir.as_str());
                push_line(&mut out, line.as_str(), Ghost(ls));
                proof {
                    ls = ls.push(line@);
                }
            },
            None => {},
        },
        None => {},
    }
    let ghost after_native = ls;
    if facts.shell.is_some() {
        let bin = crate::command::just::join_path(entry.root.as_str(), "bin");
        let line = path_statement_text(shell, bin.as_str());
        push_line(&mut out, line.as_str(), Ghost(ls));
        proof {
            ls = ls.push(line@);
        }
    }
    let ghost after_tool = ls;
    if shell == Shell::Direnv {
        let mut i: usize = 0;
        while i < watched.len()
            invariant
                i <= watched@.len(),
                out@ == lines_text(ls),
                ls == after_tool + views(watched@).take(i as int).map_values(
                    |w: Seq<char>| "watch_file "@ + shell_word(w),
                ),
            decreases watched.len() - i,
        {
            let mut line = String::from_str("watch_file ");
            push_str(&mut line, sh_quote(watched[i].as_str()).as_str());
            push_line(&mut out, line.as_str(), Ghost(ls));
            proof {
                ls = ls.push(line@);
                assert(ls =~= after_tool + views(watched@).take(i + 1).map_values(
                    |w: Seq<char>| "watch_file "@ + shell_word(w),
                ));
            }
            i += 1;
        }
        assert(views(watched@).take(watched@.len() as int) =~= views(watched@));
    }
    assert(ls =~= activation_lines(*entry, *facts, shell, views(watched@)));
    out
}

/// A line as the payload may hold it: a comment or one of the statements it is made of.
pub open spec fn comment_or_statement(l: Seq<char>) -> bool {
    ||| starts(l, "# "@)
    ||| starts(l, "export "@)
    ||| starts(l, "PATH_add "@)
    ||| starts(l, "PATH="@)
    ||| starts(l, "watch_file "@)
}

proof fn lemma_clean_join(a: Seq<char>, b: Seq<char>)
    requires
        forall|i: int| 0 <= i < a.len() ==> !is_control(#[trigger] a[i]),
        forall|i: int| 0 <= i < b.len() ==> !is_control(#[trigger] b[i]),
    ensures
        forall|i: int| 0 <= i < (a + b).len() ==> !is_control(#[trigger] (a + b)[i]),
{
    assert forall|i: int| 0 <= i < (a + b).len() implies !is_control(#[trigger] (a + b)[i]) by {
        if i < a.len() {
            assert((a + b)[i] == a[i]);
        } else {
            assert((a + b)[i] == b[i - a.len()]);
        }
    }
}

proof fn lemma_word_clean(w: Seq<char>)
    ensures
        forall|i: int| 0 <= i < shell_word(w).len() ==> !is_control(#[trigger] shell_word(w)[i]),
{
    lemma_shell_clean(w);
    let c = shell_clean(w);
    assert forall|i: int| 0 <= i < shell_word(w).len() implies !is_control(#[trigger] shell_word(w)[i]) by {
        if i == 0 {
        } else if i <= c.len() {
            assert(shell_word(w)[i] == c[i - 1]);
        } else {
        }
    }
}

proof fn lemma_path_statement(shell: Shell, dir: Seq<char>)
    ensures
        comment_or_statement(path_statement(shell, dir)),
        forall|i: int| 0 <= i < path_statement(shell, dir).len() ==> !is_control(#[trigger] path_statement(shell, dir)[i]),
{
    reveal_strlit("PATH_add ");
    reveal_strlit("PATH=");
    reveal_strlit(":$PATH; export PATH");
    lemma_word_clean(dir);
    match shell {
        Shell::Direnv => {
            lemma_clean_join("PATH_add "@, shell_word(dir));
            assert(("PATH_add "@ + shell_word(dir)).subrange(0, 9) =~= "PATH_add "@);
        },
        Shell::Posix => {
            lemma_clean_join("PATH="@, shell_word(dir));
            lemma_clean_join("PATH="@ + shell_word(dir), ":$PATH; export PATH"@);
            assert(("PATH="@ + shell_word(dir) + ":$PATH; export PATH"@).subrange(0, 5) =~= "PATH="@);
        },
    }
}

/// Every line of the activation payload is a comment or a statement: it starts with `# `,
/// `export `, `PATH_add `, `PATH=` or `watch_file `, and holds no control character, so
/// no line break either. What came from the checkout, its name, its root, its structure,
/// a directory or a watched file, cannot start a line of its own.
pub proof fn law_every_line_of_the_activation_is_a_comment_or_a_statement(
    e: Entry,
    facts: Facts,
    shell: Shell,
    watched: Seq<Seq<char>>,
)
    ensures
        activation_text(e, facts, shell, watched) == lines_text(activation_lines(e, facts, shell, watched)),
        forall|k: int|
            0 <= k < activation_lines(e, facts, shell, watched).len() ==> {
                let l = #[trigger] activation_lines(e, facts, shell, watched)[k];
                &&& comment_or_statement(l)
                &&& forall|i: int| 0 <= i < l.len() ==> !is_control(#[trigger] l[i])
            },
{
    let ls = activation_lines(e, facts, shell, watched);
    reveal_strlit("# ");
    reveal_strlit(" — Majordomus repository activation");
    reveal_strlit("export ");
    reveal_strlit("=");
    reveal_strlit("watch_file ");
    reveal_strlit("MAJORDOMUS_REPOSITORY");
    reveal_strlit("MAJORDOMUS_COMMAND_STRUCTURE");
    lemma_shell_clean(e.name@);
    let c0 = comment_line(e.name@);
    lemma_clean_join("# "@, shell_clean(e.name@));
    lemma_clean_join("# "@ + shell_clean(e.name@), " — Majordomus repository activation"@);
    assert(c0.subrange(0, 2) =~= "# "@);
    lemma_word_clean(e.root@);
    lemma_word_clean(e.structure@);
    let r1 = "export "@ + ROOT_ENV@ + "="@ + shell_word(e.root@);
    lemma_clean_join("export "@, ROOT_ENV@);
    lemma_clean_join("export "@ + ROOT_ENV@, "="@);
    lemma_clean_join("export "@ + ROOT_ENV@ + "="@, shell_word(e.root@));
    assert(r1.subrange(0, 7) =~= "export "@);
    let r2 = "export "@ + STRUCTURE_ENV@ + "="@ + shell_word(e.structure@);
    lemma_clean_join("export "@, STRUCTURE_ENV@);
    lemma_clean_join("export "@ + STRUCTURE_ENV@, "="@);
    lemma_clean_join("export "@ + STRUCTURE_ENV@ + "="@, shell_word(e.structure@));
    assert(r2.subrange(0, 7) =~= "export "@);
    match facts.native {
        Some(n) => match parent_of(n@) {
            Some(d) => lemma_path_statement(shell, d),
            None => {},
        },
        None => {},
    }
    lemma_path_statement(shell, crate::command::just::joined(e.root@, "bin"@));
    assert forall|j: int| 0 <= j < watched.len() implies {
        let l = "watch_file "@ + shell_word(#[trigger] watched[j]);
        &&& comment_or_statement(l)
        &&& forall|i: int| 0 <= i < l.len() ==> !is_control(#[trigger] l[i])
    } by {
        lemma_word_clean(watched[j]);
        lemma_clean_join("watch_file "@, shell_word(watched[j]));
        assert(("watch_file "@ + shell_word(watched[j])).subrange(0, 11) =~= "watch_file "@);
    }
    assert forall|k: int| 0 <= k < ls.len() implies {
        let l = #[trigger] ls[k];
        &&& comment_or_statement(l)
        &&& forall|i: int| 0 <= i < l.len() ==> !is_control(#[trigger] l[i])
    } by {
        if k >= 3 && shell == Shell::Direnv {
            let native: Seq<Seq<char>> = match facts.native {
                Some(n) => match parent_of(n@) {
                    Some(d) => seq![path_statement(shell, d)],
                    None => seq![],
                },
                None => seq![],
            };
            let tool: Seq<Seq<char>> = if facts.shell is Some {
                seq![path_statement(shell, crate::command::just::joined(e.root@, "bin"@))]
            } else {
                seq![]
            };
            let m = 3 + native.len() + tool.len();
            if k >= m {
                let j = k - m;
                assert(ls[k] == "watch_file "@ + shell_word(watched[j]));
            }
        }
    }
}

// ------------------------------------------------------------------ the banner

/// Whether this session has seen this entry state before.
#[derive(Debug, Clone, Copy, PartialEq, Eq, Structural)]
pub enum Seen {
    /// Nothing was remembered for this session.
    First,
    /// Something was, and it was different.
    Changed,
    /// Something was, and it was the same.
    Same,
}

/// What a session's record says of an entry state's fingerprint.
pub open spec fn seen_of(previous: Option<Seq<char>>, fingerprint: Seq<char>) -> Seen {
    match previous {
        None => Seen::First,
        Some(p) => if trimmed(p) == fingerprint {
            Seen::Same
        } else {
            Seen::Changed
        },
    }
}

/// Compare the entry state with what this session last recorded. Whoever holds the record
/// writes the new fingerprint unless it was the same.
pub fn seen(previous: Option<&str>, fingerprint: &str) -> (r: Seen)
    ensures
        r == seen_of(
            match previous {
                Some(p) => Some(p@),
                None => None,
            },
            fingerprint@,
        ),
{
    match previous {
        None => Seen::First,
        Some(p) => if str_eq(trim(p), fingerprint) {
            Seen::Same
        } else {
            Seen::Changed
        },
    }
}

/// A character a session key keeps.
pub open spec fn key_char(c: char) -> bool {
    crate::strings::is_ascii_alnum(c) || c == '-' || c == '_'
}

/// The characters of a session name a key keeps, at most sixty-four.
pub open spec fn key_chars(s: Seq<char>) -> Seq<char>
    decreases s.len(),
{
    if s.len() == 0 {
        seq![]
    } else {
        let before = key_chars(s.drop_last());
        if key_char(s.last()) && before.len() < 64 {
            before.push(s.last())
        } else {
            before
        }
    }
}

/// What identifies a terminal session: the kept characters of the name the environment
/// gives it, or one shared key when none is left.
pub open spec fn session_key_of(raw: Seq<char>) -> Seq<char> {
    if key_chars(raw).len() == 0 {
        "shared"@
    } else {
        key_chars(raw)
    }
}

/// The key a session's record is filed under.
pub fn session_key(raw: &str) -> (r: String)
    ensures
        r@ == session_key_of(raw@),
{
    let n = raw.unicode_len();
    let mut out = String::new();
    let mut count: usize = 0;
    let mut i: usize = 0;
    while i < n
        invariant
            n == raw@.len(),
            i <= n,
            out@ == key_chars(raw@.subrange(0, i as int)),
            count == out@.len(),
        decreases n - i,
    {
        let c = raw.get_char(i);
        let ghost sub = raw@.subrange(0, i + 1);
        assert(sub.drop_last() =~= raw@.subrange(0, i as int));
        assert(sub.last() == c);
        if (('a' <= c && c <= 'z') || ('A' <= c && c <= 'Z') || ('0' <= c && c <= '9') || c == '-' || c == '_')
            && count < 64 {
            push_char(&mut out, c);
            count += 1;
        }
        i += 1;
    }
    assert(raw@.subrange(0, n as int) =~= raw@);
    if count == 0 {
        String::from_str("shared")
    } else {
        out
    }
}

/// Dim text.
pub const DIM: &'static str = "\u{1b}[2m";

/// Bold text.
pub const BOLD: &'static str = "\u{1b}[1m";

/// Back to plain text.
pub const RESET: &'static str = "\u{1b}[0m";

/// A text in a terminal style, when colour is wanted.
pub open spec fn painted(text: Seq<char>, code: Seq<char>, colour: bool) -> Seq<char> {
    if colour {
        code + text + RESET@
    } else {
        text
    }
}

fn paint(text: &str, code: &str, colour: bool) -> (r: String)
    ensures
        r@ == painted(text@, code@, colour),
{
    if colour {
        let mut out = String::from_str(code);
        push_str(&mut out, text);
        push_str(&mut out, RESET);
        out
    } else {
        String::from_str(text)
    }
}

/// A text cut to a width in characters, with an ellipsis where it was cut.
pub open spec fn truncated(t: Seq<char>, w: int) -> Seq<char> {
    if t.len() <= w {
        t
    } else if w <= 0 {
        seq![]
    } else if w == 1 {
        seq!['…']
    } else {
        t.subrange(0, w - 1).push('…')
    }
}

fn truncate(text: &str, width: usize) -> (r: String)
    ensures
        r@ == truncated(text@, width as int),
{
    let n = text.unicode_len();
    if n <= width {
        return String::from_str(text);
    }
    if width == 0 {
        return String::new();
    }
    if width == 1 {
        let mut out = String::new();
        push_char(&mut out, '…');
        return out;
    }
    let mut out = String::from_str(text.substring_char(0, width - 1));
    push_char(&mut out, '…');
    out
}

/// A text without the terminal escape sequences in it, read left to right: what is kept
/// so far, and whether an escape sequence is still open.
pub open spec fn strip_state(s: Seq<char>) -> (Seq<char>, bool)
    decreases s.len(),
{
    if s.len() == 0 {
        (seq![], false)
    } else {
        let (out, open) = strip_state(s.drop_last());
        let c = s.last();
        if open {
            (out, !(('a' <= c && c <= 'z') || ('A' <= c && c <= 'Z')))
        } else if c == '\u{1b}' {
            (out, true)
        } else {
            (out.push(c), false)
        }
    }
}

/// What a terminal shows of a text: the text without its escape sequences.
pub open spec fn stripped(s: Seq<char>) -> Seq<char> {
    strip_state(s).0
}

fn strip_ansi(text: &str) -> (r: String)
    ensures
        r@ == stripped(text@),
{
    let n = text.unicode_len();
    let mut out = String::new();
    let mut open = false;
    let mut i: usize = 0;
    while i < n
        invariant
            n == text@.len(),
            i <= n,
            (out@, open) == strip_state(text@.subrange(0, i as int)),
        decreases n - i,
    {
        let c = text.get_char(i);
        let ghost sub = text@.subrange(0, i + 1);
        assert(sub.drop_last() =~= text@.subrange(0, i as int));
        assert(sub.last() == c);
        if open {
            if ('a' <= c && c <= 'z') || ('A' <= c && c <= 'Z') {
                open = false;
            }
        } else if c == '\u{1b}' {
            open = true;
        } else {
            push_char(&mut out, c);
        }
        i += 1;
    }
    assert(text@.subrange(0, n as int) =~= text@);
    out
}

/// A run of one character.
pub open spec fn run_of(c: char, n: nat) -> Seq<char> {
    Seq::new(n, |i: int| c)
}

fn repeat(c: char, n: usize) -> (r: String)
    ensures
        r@ == run_of(c, n as nat),
{
    let mut out = String::new();
    let mut i: usize = 0;
    while i < n
        invariant
            i <= n,
            out@ == run_of(c, i as nat),
        decreases n - i,
    {
        push_char(&mut out, c);
        assert(out@ =~= run_of(c, (i + 1) as nat));
        i += 1;
    }
    out
}

/// A text padded to a width counted in printable characters: the escape sequences colour
/// adds take no columns, and a text too long is cut by characters.
pub open spec fn padded(t: Seq<char>, w: int, colour: bool) -> Seq<char> {
    let visible = if colour {
        stripped(t)
    } else {
        t
    };
    if visible.len() > w {
        truncated(visible, w)
    } else {
        t + run_of(' ', (w - visible.len()) as nat)
    }
}

fn pad(text: &str, width: usize, colour: bool) -> (r: String)
    ensures
        r@ == padded(text@, width as int, colour),
{
    let visible = if colour {
        strip_ansi(text)
    } else {
        String::from_str(text)
    };
    let len = visible.unicode_len();
    if len > width {
        return truncate(visible.as_str(), width);
    }
    let mut out = String::from_str(text);
    let spaces = repeat(' ', width - len);
    push_str(&mut out, spaces.as_str());
    out
}

/// One line and the entry commands.
pub open spec fn compact_text(e: Entry, colour: bool) -> Seq<char> {
    let line = "◆ "@ + painted(e.name@, BOLD@, colour) + (match e.head {
        Some(h) => " · "@ + h@,
        None => seq![],
    }) + " · "@ + decimal_of(e.commands.0 as nat) + "/"@ + decimal_of(e.commands.1 as nat) + " commands"@
        + (match e.server {
        Some(s) => " · "@ + s@,
        None => seq![],
    });
    let names = if e.entry_commands@.len() > 0 {
        seq!['\n'] + painted("  "@ + crate::strings::join_with_text(pair_views(e.entry_commands@).map_values(|p: (Seq<char>, Seq<char>)| p.0), " · "@), DIM@, colour)
    } else {
        seq![]
    };
    line + names + note_lines(views(e.notes@)) + seq!['\n']
}

/// The note lines of a compact banner.
pub open spec fn note_lines(ns: Seq<Seq<char>>) -> Seq<char>
    decreases ns.len(),
{
    if ns.len() == 0 {
        seq![]
    } else {
        note_lines(ns.drop_last()) + "\n  ! "@ + ns.last()
    }
}

#[verifier::rlimit(100)]
fn compact(entry: &Entry, colour: bool) -> (r: String)
    ensures
        r@ == compact_text(*entry, colour),
{
    let mut out = String::from_str("◆ ");
    let name = paint(entry.name.as_str(), BOLD, colour);
    push_str(&mut out, name.as_str());
    match &entry.head {
        Some(h) => {
            push_str(&mut out, " · ");
            push_str(&mut out, h.as_str());
        },
        None => {},
    }
    push_str(&mut out, " · ");
    push_decimal(&mut out, entry.commands.0);
    push_str(&mut out, "/");
    push_decimal(&mut out, entry.commands.1);
    push_str(&mut out, " commands");
    match &entry.server {
        Some(s) => {
            push_str(&mut out, " · ");
            push_str(&mut out, s.as_str());
        },
        None => {},
    }
    let ghost line = out@;
    if entry.entry_commands.len() > 0 {
        let mut names = String::from_str("  ");
        let ghost ns = pair_views(entry.entry_commands@).map_values(|p: (Seq<char>, Seq<char>)| p.0);
        let mut i: usize = 0;
        while i < entry.entry_commands.len()
            invariant
                i <= entry.entry_commands@.len(),
                ns == pair_views(entry.entry_commands@).map_values(|p: (Seq<char>, Seq<char>)| p.0),
                names@ == "  "@ + crate::strings::join_with_text(ns.take(i as int), " · "@),
            decreases entry.entry_commands.len() - i,
        {
            if i > 0 {
                push_str(&mut names, " · ");
            }
            push_str(&mut names, entry.entry_commands[i].0.as_str());
            let ghost t = ns.take(i + 1);
            assert(t.drop_last() =~= ns.take(i as int));
            assert(t.last() == entry.entry_commands@[i as int].0@);
            if i == 0 {
                assert(t.len() == 1 && t[0] == entry.entry_commands@[0].0@);
            }
            assert(names@ =~= "  "@ + crate::strings::join_with_text(t, " · "@));
            i += 1;
        }
        assert(ns.take(ns.len() as int) =~= ns);
        push_char(&mut out, '\n');
        let painted_names = paint(names.as_str(), DIM, colour);
        push_str(&mut out, painted_names.as_str());
    }
    let ghost after_names = out@;
    let mut i: usize = 0;
    while i < entry.notes.len()
        invariant
            i <= entry.notes@.len(),
            out@ == after_names + note_lines(views(entry.notes@).take(i as int)),
        decreases entry.notes.len() - i,
    {
        push_str(&mut out, "\n  ! ");
        push_str(&mut out, entry.notes[i].as_str());
        let ghost t = views(entry.notes@).take(i + 1);
        assert(t.drop_last() =~= views(entry.notes@).take(i as int));
        assert(t.last() == entry.notes@[i as int]@);
        assert(out@ =~= after_names + note_lines(t));
        i += 1;
    }
    assert(views(entry.notes@).take(entry.notes@.len() as int) =~= views(entry.notes@));
    push_char(&mut out, '\n');
    assert(out@ =~= compact_text(*entry, colour));
    out
}

/// The width inside the frame for a terminal of a width.
pub open spec fn inner_width(width: int) -> int {
    (if width < 28 {
        28
    } else if width > 100 {
        100
    } else {
        width
    }) - 4
}

/// A key padded to ten columns, then its value.
pub open spec fn keyed(key: Seq<char>, value: Seq<char>) -> Seq<char> {
    key + run_of(' ', (if key.len() < 10 {
        10 - key.len()
    } else {
        0
    }) as nat) + value
}

/// The rows of the frame: the head, the commands, the server, and every note.
pub open spec fn frame_rows(e: Entry) -> Seq<Seq<char>> {
    (match e.head {
        Some(h) => seq![keyed("head"@, h@)],
        None => seq![],
    }) + seq![
        keyed(
            "commands"@,
            decimal_of(e.commands.0 as nat) + " available of "@ + decimal_of(e.commands.1 as nat),
        ),
    ] + (match e.server {
        Some(s) => seq![keyed("server"@, s@)],
        None => seq![],
    }) + views(e.notes@).map_values(|n: Seq<char>| keyed("note"@, n))
}

/// A line inside the frame.
pub open spec fn framed(text: Seq<char>, inner: int, colour: bool) -> Seq<char> {
    "│ "@ + padded(text, inner, colour) + " │"@
}

/// The lines of the suggestions inside the frame.
pub open spec fn suggestion_lines(cs: Seq<(Seq<char>, Seq<char>)>, inner: int, colour: bool) -> Seq<Seq<char>> {
    cs.map_values(|c: (Seq<char>, Seq<char>)| {
        let room = if inner >= c.0.len() + 2 {
            inner - (c.0.len() + 2)
        } else {
            0
        };
        framed(c.0 + "  "@ + truncated(c.1, room), inner, colour)
    })
}

/// The lines of the whole banner, inside a box that fits the terminal.
pub open spec fn full_lines(e: Entry, width: int, colour: bool) -> Seq<Seq<char>> {
    let inner = inner_width(width);
    let rule = run_of('─', (inner + 2) as nat);
    let title = painted("MAJORDOMUS"@, BOLD@, colour) + "  "@ + painted(e.name@, DIM@, colour);
    seq![seq!['╭'] + rule + seq!['╮'], framed(title, inner, colour), seq!['├'] + rule + seq!['┤']]
        + frame_rows(e).map_values(|r: Seq<char>| framed(r, inner, colour)) + (if e.entry_commands@.len() > 0 {
        seq![seq!['├'] + rule + seq!['┤']] + suggestion_lines(pair_views(e.entry_commands@), inner, colour)
    } else {
        seq![]
    }) + seq![seq!['╰'] + rule + seq!['╯']]
}

/// Lines, each ended.
pub open spec fn ended_lines(ls: Seq<Seq<char>>) -> Seq<char>
    decreases ls.len(),
{
    if ls.len() == 0 {
        seq![]
    } else {
        ended_lines(ls.drop_last()) + ls.last() + seq!['\n']
    }
}

/// The frame holds at every width: without colour, every line of the banner is exactly
/// as wide as every other.
pub proof fn law_the_frame_holds_at_every_width(e: Entry, width: int)
    ensures
        forall|i: int|
            0 <= i < full_lines(e, width, false).len() ==> (#[trigger] full_lines(e, width, false)[i]).len()
                == inner_width(width) + 4,
{
    let inner = inner_width(width);
    let ls = full_lines(e, width, false);
    assert forall|i: int| 0 <= i < ls.len() implies (#[trigger] ls[i]).len() == inner + 4 by {
        let rule = run_of('─', (inner + 2) as nat);
        let rows = frame_rows(e).map_values(|r: Seq<char>| framed(r, inner, false));
        let extra: Seq<Seq<char>> = if e.entry_commands@.len() > 0 {
            seq![seq!['├'] + rule + seq!['┤']] + suggestion_lines(pair_views(e.entry_commands@), inner, false)
        } else {
            seq![]
        };
        let title = painted("MAJORDOMUS"@, BOLD@, false) + "  "@ + painted(e.name@, DIM@, false);
        let head = seq![seq!['╭'] + rule + seq!['╮'], framed(title, inner, false), seq!['├'] + rule + seq!['┤']];
        reveal_strlit("│ ");
        reveal_strlit(" │");
        assert(ls == head + rows + extra + seq![seq!['╰'] + rule + seq!['╯']]);
        if i < 3 {
            assert(ls[i] == head[i]);
        } else if i < 3 + rows.len() {
            assert(ls[i] == rows[i - 3]);
        } else if i < 3 + rows.len() + extra.len() {
            assert(ls[i] == extra[i - 3 - rows.len()]);
            if i > 3 + rows.len() {
                let k = i - 4 - rows.len();
                assert(extra[i - 3 - rows.len()] == suggestion_lines(pair_views(e.entry_commands@), inner, false)[k]);
            }
        } else {
            assert(ls[i] == seq!['╰'] + rule + seq!['╯']);
        }
    }
}

fn framed_line(text: &str, inner: usize, colour: bool) -> (r: String)
    ensures
        r@ == framed(text@, inner as int, colour),
{
    let mut out = String::from_str("│ ");
    let p = pad(text, inner, colour);
    push_str(&mut out, p.as_str());
    push_str(&mut out, " │");
    out
}

fn keyed_text(key: &str, value: &str) -> (r: String)
    ensures
        r@ == keyed(key@, value@),
{
    let mut out = String::from_str(key);
    let n = key.unicode_len();
    let spaces = repeat(' ', if n < 10 { 10 - n } else { 0 });
    push_str(&mut out, spaces.as_str());
    push_str(&mut out, value);
    out
}

fn rule_line(left: char, inner: usize, right: char) -> (r: String)
    requires
        inner <= 100,
    ensures
        r@ == seq![left] + run_of('─', (inner + 2) as nat) + seq![right],
{
    let mut out = String::new();
    push_char(&mut out, left);
    let r = repeat('─', inner + 2);
    push_str(&mut out, r.as_str());
    push_char(&mut out, right);
    assert(out@ =~= seq![left] + run_of('─', (inner + 2) as nat) + seq![right]);
    out
}

#[verifier::rlimit(100)]
fn full(entry: &Entry, width: usize, colour: bool) -> (r: String)
    ensures
        r@ == ended_lines(full_lines(*entry, width as int, colour)),
{
    let clamped = if width < 28 { 28 } else if width > 100 { 100 } else { width };
    let inner = clamped - 4;
    let ghost want = full_lines(*entry, width as int, colour);
    let mut lines: Vec<String> = Vec::new();
    lines.push(rule_line('╭', inner, '╮'));
    let bold = paint("MAJORDOMUS", BOLD, colour);
    let dim = paint(entry.name.as_str(), DIM, colour);
    let mut title = String::from_str(bold.as_str());
    push_str(&mut title, "  ");
    push_str(&mut title, dim.as_str());
    lines.push(framed_line(title.as_str(), inner, colour));
    lines.push(rule_line('├', inner, '┤'));
    let ghost rule = run_of('─', (inner + 2) as nat);
    assert(inner as int == inner_width(width as int));
    assert(views(lines@) =~= seq![seq!['╭'] + rule + seq!['╮'], framed(title@, inner as int, colour), seq!['├'] + rule + seq!['┤']]);
    let mut rows: Vec<String> = Vec::new();
    match &entry.head {
        Some(h) => rows.push(keyed_text("head", h.as_str())),
        None => {},
    }
    let mut counts = String::new();
    push_decimal(&mut counts, entry.commands.0);
    push_str(&mut counts, " available of ");
    push_decimal(&mut counts, entry.commands.1);
    rows.push(keyed_text("commands", counts.as_str()));
    match &entry.server {
        Some(sv) => rows.push(keyed_text("server", sv.as_str())),
        None => {},
    }
    let ghost before_notes = views(rows@);
    let mut i: usize = 0;
    while i < entry.notes.len()
        invariant
            i <= entry.notes@.len(),
            views(rows@) == before_notes + views(entry.notes@).take(i as int).map_values(|n: Seq<char>| keyed("note"@, n)),
        decreases entry.notes.len() - i,
    {
        let ghost prev = rows@;
        rows.push(keyed_text("note", entry.notes[i].as_str()));
        assert(views(entry.notes@).take(i + 1).map_values(|n: Seq<char>| keyed("note"@, n)) =~= views(
            entry.notes@,
        ).take(i as int).map_values(|n: Seq<char>| keyed("note"@, n)).push(keyed("note"@, entry.notes@[i as int]@)));
        assert(views(rows@) =~= views(prev).push(keyed("note"@, entry.notes@[i as int]@)));
        i += 1;
    }
    assert(views(entry.notes@).take(entry.notes@.len() as int) =~= views(entry.notes@));
    assert(views(rows@) =~= frame_rows(*entry));
    let ghost top = views(lines@);
    let mut i: usize = 0;
    while i < rows.len()
        invariant
            i <= rows@.len(),
            views(lines@) == top + views(rows@).take(i as int).map_values(|r: Seq<char>| framed(r, inner as int, colour)),
        decreases rows.len() - i,
    {
        let ghost prev = lines@;
        lines.push(framed_line(rows[i].as_str(), inner, colour));
        assert(views(rows@).take(i + 1).map_values(|r: Seq<char>| framed(r, inner as int, colour)) =~= views(rows@).take(
            i as int,
        ).map_values(|r: Seq<char>| framed(r, inner as int, colour)).push(framed(rows@[i as int]@, inner as int, colour)));
        assert(views(lines@) =~= views(prev).push(framed(rows@[i as int]@, inner as int, colour)));
        i += 1;
    }
    assert(views(rows@).take(rows@.len() as int) =~= views(rows@));
    let ghost mid = views(lines@);
    if entry.entry_commands.len() > 0 {
        lines.push(rule_line('├', inner, '┤'));
        let ghost sep = views(lines@);
        let mut i: usize = 0;
        while i < entry.entry_commands.len()
            invariant
                i <= entry.entry_commands@.len(),
                inner <= 96,
                views(lines@) == sep + suggestion_lines(pair_views(entry.entry_commands@).take(i as int), inner as int, colour),
            decreases entry.entry_commands.len() - i,
        {
            let name = entry.entry_commands[i].0.as_str();
            let summary = entry.entry_commands[i].1.as_str();
            let nl = name.unicode_len();
            let room = if nl <= inner && inner - nl >= 2 { inner - (nl + 2) } else { 0 };
            let mut text = String::from_str(name);
            push_str(&mut text, "  ");
            let cut = truncate(summary, room);
            push_str(&mut text, cut.as_str());
            let ghost prev = lines@;
            lines.push(framed_line(text.as_str(), inner, colour));
            let ghost c = pair_views(entry.entry_commands@)[i as int];
            assert(c == (entry.entry_commands@[i as int].0@, entry.entry_commands@[i as int].1@));
            assert(suggestion_lines(pair_views(entry.entry_commands@).take(i + 1), inner as int, colour) =~= suggestion_lines(
                pair_views(entry.entry_commands@).take(i as int),
                inner as int,
                colour,
            ).push(framed(text@, inner as int, colour)));
            assert(views(lines@) =~= views(prev).push(framed(text@, inner as int, colour)));
            i += 1;
        }
        assert(pair_views(entry.entry_commands@).take(entry.entry_commands@.len() as int) =~= pair_views(entry.entry_commands@));
    }
    let ghost extra: Seq<Seq<char>> = if entry.entry_commands@.len() > 0 {
        seq![seq!['├'] + rule + seq!['┤']] + suggestion_lines(pair_views(entry.entry_commands@), inner as int, colour)
    } else {
        seq![]
    };
    assert(views(lines@) =~= mid + extra);
    lines.push(rule_line('╰', inner, '╯'));
    assert(views(lines@) =~= want);
    let mut out = String::new();
    let mut i: usize = 0;
    while i < lines.len()
        invariant
            i <= lines@.len(),
            out@ == ended_lines(views(lines@).take(i as int)),
        decreases lines.len() - i,
    {
        push_str(&mut out, lines[i].as_str());
        push_char(&mut out, '\n');
        let ghost t = views(lines@).take(i + 1);
        assert(t.drop_last() =~= views(lines@).take(i as int));
        assert(t.last() == lines@[i as int]@);
        i += 1;
    }
    assert(views(lines@).take(lines@.len() as int) =~= views(lines@));
    out
}

/// What the banner shows: nothing, the whole thing, or one line.
pub open spec fn banner_text(e: Entry, mode: BannerMode, width: int, colour: bool, seen: Seen) -> Option<Seq<char>> {
    match mode {
        BannerMode::Off => None,
        BannerMode::Full => Some(ended_lines(full_lines(e, width, colour))),
        BannerMode::Compact => Some(compact_text(e, colour)),
        BannerMode::Auto => match seen {
            Seen::First => Some(ended_lines(full_lines(e, width, colour))),
            Seen::Changed => Some(compact_text(e, colour)),
            Seen::Same => None,
        },
    }
}

/// The banner, or nothing. `auto` shows the whole thing when the entry state is one this
/// session has not seen, one line when it changed, and stays silent when it is the same:
/// re-entering a directory a hundred times in one session prints once.
pub fn banner(entry: &Entry, mode: BannerMode, width: usize, colour: bool, seen: Seen) -> (r: Option<String>)
    ensures
        match banner_text(*entry, mode, width as int, colour, seen) {
            Some(t) => r matches Some(x) && x@ == t,
            None => r is None,
        },
{
    match mode {
        BannerMode::Off => None,
        BannerMode::Full => Some(full(entry, width, colour)),
        BannerMode::Compact => Some(compact(entry, colour)),
        BannerMode::Auto => match seen {
            Seen::First => Some(full(entry, width, colour)),
            Seen::Changed => Some(compact(entry, colour)),
            Seen::Same => None,
        },
    }
}

/// The command the bootstrap hint names: the first workflow tagged `bootstrap`, when it
/// has a recipe.
pub open spec fn bootstrap_of(cs: Seq<crate::command::model::CommandNode>) -> Option<Seq<char>>
    decreases cs.len(),
{
    if cs.len() == 0 {
        None
    } else if cs[0].program == Program::Workflow && views(cs[0].tags@).contains("bootstrap"@) {
        match cs[0].projections.just {
            Some(j) => Some("just "@ + j@),
            None => None,
        }
    } else {
        bootstrap_of(cs.drop_first())
    }
}

/// What the bootstrap hint says when the Rust executable is not there. The command comes
/// from the graph — the workflow that builds it declares itself — and is never a string
/// written here.
pub fn bootstrap_hint(graph: &CommandGraph) -> (r: Option<String>)
    ensures
        match bootstrap_of(graph.commands@) {
            Some(t) => r matches Some(x) && x@ == t,
            None => r is None,
        },
{
    let mut i: usize = 0;
    assert(graph.commands@.skip(0) =~= graph.commands@);
    while i < graph.commands.len()
        invariant
            i <= graph.commands@.len(),
            bootstrap_of(graph.commands@) == bootstrap_of(graph.commands@.skip(i as int)),
        decreases graph.commands.len() - i,
    {
        let c = &graph.commands[i];
        let ghost rest = graph.commands@.skip(i as int);
        assert(rest[0] == graph.commands@[i as int]);
        assert(rest.drop_first() =~= graph.commands@.skip(i + 1));
        if c.program == Program::Workflow && has_tag(&c.tags, "bootstrap") {
            return match &c.projections.just {
                Some(j) => {
                    let mut out = String::from_str("just ");
                    push_str(&mut out, j.as_str());
                    Some(out)
                },
                None => None,
            };
        }
        i += 1;
    }
    None
}

// ------------------------------------------------------------------ a session's banners

proof fn lemma_hex_not_white(b: Seq<u8>)
    ensures
        forall|i: int| 0 <= i < crate::digest::hex_of(b).len() ==> !is_white(#[trigger] crate::digest::hex_of(b)[i]),
    decreases b.len(),
{
    if b.len() > 0 {
        lemma_hex_not_white(b.drop_last());
        let h = crate::digest::hex_of(b);
        let prev = crate::digest::hex_of(b.drop_last());
        let hi = (b.last() / 16) as int;
        let lo = (b.last() % 16) as int;
        assert(0 <= hi < 16 && 0 <= lo < 16);
        assert forall|v: int| 0 <= v < 16 implies !is_white(#[trigger] crate::digest::hex_digit(v)) by {
            if v < 10 {
                assert(((48 + v) as u32) as char as u32 == 48 + v);
            } else {
                assert(((87 + v) as u32) as char as u32 == 87 + v);
            }
        }
        assert forall|i: int| 0 <= i < h.len() implies !is_white(#[trigger] h[i]) by {
            if i < prev.len() {
                assert(h[i] == prev[i]);
            } else if i == prev.len() {
                assert(h[i] == crate::digest::hex_digit(hi));
            } else {
                assert(h[i] == crate::digest::hex_digit(lo));
            }
        }
    }
}

proof fn lemma_tail_white_none(s: Seq<char>)
    requires
        s.len() == 0 || !is_white(s.last()),
    ensures
        tail_white(s) == 0,
{
}

proof fn lemma_trimmed_fingerprint(key: Seq<char>)
    ensures
        trimmed(crate::digest::sha256_hex_of(key)) == crate::digest::sha256_hex_of(key),
{
    let f = crate::digest::sha256_hex_of(key);
    lemma_hex_not_white(crate::digest::sha256_of(crate::digest::utf8(key)));
    if f.len() > 0 {
        assert(!is_white(f[0]));
        assert(!is_white(f.last()));
    }
    lemma_lead_white_exact(f, 0);
    assert(f.subrange(0, f.len() as int) =~= f);
    lemma_tail_white_none(f);
    assert(f.subrange(0, f.len() as int).subrange(0, f.len() as int) =~= f);
}

/// What the banner of an entry state is in `auto` mode, given what this session remembered:
/// the whole banner when it remembered nothing, nothing when it remembered this very state,
/// and the one line when it remembered another.
pub open spec fn auto_banner(e: Entry, width: int, colour: bool, remembered: Option<Seq<char>>) -> Option<Seq<char>> {
    banner_text(e, BannerMode::Auto, width, colour, seen_of(remembered, crate::digest::sha256_hex_of(entry_key(e))))
}

/// Over one session in `auto` mode: the first entry shows the whole banner; entering the
/// same state again, once the session remembers its fingerprint, shows nothing; entering a
/// state whose fingerprint differs from the remembered one shows the one line, which starts
/// with the diamond. `full`, `compact` and `off` do not depend on what was remembered.
pub proof fn law_auto_is_full_then_silent_then_compact_when_something_moved(
    e: Entry,
    moved: Entry,
    width: int,
    colour: bool,
    remembered: Option<Seq<char>>,
)
    requires
        crate::digest::sha256_hex_of(entry_key(moved)) != crate::digest::sha256_hex_of(entry_key(e)),
    ensures
        auto_banner(e, width, colour, None) == Some(ended_lines(full_lines(e, width, colour))),
        auto_banner(e, width, colour, Some(crate::digest::sha256_hex_of(entry_key(e)))) is None,
        auto_banner(moved, width, colour, Some(crate::digest::sha256_hex_of(entry_key(e)))) == Some(compact_text(moved, colour)),
        compact_text(moved, colour)[0] == '◆',
        banner_text(e, BannerMode::Off, width, colour, seen_of(remembered, crate::digest::sha256_hex_of(entry_key(e)))) is None,
        banner_text(e, BannerMode::Full, width, colour, seen_of(remembered, crate::digest::sha256_hex_of(entry_key(e))))
            == Some(ended_lines(full_lines(e, width, colour))),
        banner_text(e, BannerMode::Compact, width, colour, seen_of(remembered, crate::digest::sha256_hex_of(entry_key(e))))
            == Some(compact_text(e, colour)),
{
    lemma_trimmed_fingerprint(entry_key(e));
    reveal_strlit("◆ ");
}

} // verus!
