//! Projection: how one canonical identity becomes a name on each surface.
//!
//! Naming is an algorithm, never a table. `native.bench.coverage` becomes the Just recipe
//! `bench-coverage`, the Cockpit action `command/native.bench.coverage` and the page
//! `/docs/commands/native.bench.coverage/`, and it does so by rule, so that a command
//! added tomorrow is named the same way as one added today and no surface has a list to
//! keep in step.
//!
//! Two programs may want the same bare name — both executables have a `bench`. The rule
//! is fixed: the program with the lowest precedence keeps the bare name and every other
//! takes its own prefix. Precedence is a constant of the model, so a name never depends on
//! the order the contributors ran in.

use vstd::prelude::*;

use crate::command::model::{
    CommandId, CommandNode, Diagnostic, Program, Projections, precedence_of, prefix_word,
};
use crate::strings::{
    ascii_lower, is_ascii_digit, is_ascii_lower, is_ascii_upper, join_with, prefixed_join,
    push_char, push_str, str_eq, to_ascii_lower, views,
};

verus! {

/// The route prefix of the generated command reference. The native command line's own
/// pages live under `/docs/cli/`; this section is the whole graph, every program in it.
pub const DOCS_PREFIX: &'static str = "/docs/commands";

// ------------------------------------------------------------------ names

/// The name a Just recipe would have if nothing else wanted it: the path words joined
/// with a hyphen.
pub fn base_name(path: &[String]) -> (r: String)
    ensures
        r@ == join_with(views(path@), '-'),
{
    let mut out = String::new();
    if path.len() == 0 {
        return out;
    }
    push_str(&mut out, path[0].as_str());
    let mut i: usize = 1;
    while i < path.len()
        invariant
            1 <= i <= path@.len(),
            out@ == path@[0]@ + prefixed_join(views(path@.subrange(1, i as int)), '-'),
        decreases path.len() - i,
    {
        push_char(&mut out, '-');
        push_str(&mut out, path[i].as_str());
        proof {
            let w = views(path@.subrange(1, i + 1));
            assert(w.drop_last() =~= views(path@.subrange(1, i as int)));
            assert(w.last() == path@[i as int]@);
        }
        assert(out@ =~= path@[0]@ + prefixed_join(views(path@.subrange(1, i + 1)), '-'));
        i += 1;
    }
    assert(views(path@.subrange(1, path@.len() as int)) =~= views(path@).drop_first());
    out
}

/// A character a recipe name may hold.
pub open spec fn recipe_char(c: char) -> bool {
    is_ascii_lower(c) || is_ascii_digit(c) || c == '-' || c == '_'
}

/// A name Just can carry as a recipe: not empty, no leading hyphen, and nothing outside
/// `[a-z0-9_-]`.
pub open spec fn recipe_name(n: Seq<char>) -> bool {
    &&& n.len() > 0
    &&& n[0] != '-'
    &&& forall|i: int| 0 <= i < n.len() ==> recipe_char(#[trigger] n[i])
}

/// Is this a name Just can carry as a recipe? Just recipe names are identifiers, and a
/// name that is not one would be a file the parser rejects rather than a recipe nobody
/// notices.
pub fn is_recipe_name(name: &str) -> (r: bool)
    ensures
        r == recipe_name(name@),
{
    let n = name.unicode_len();
    if n == 0 || name.get_char(0) == '-' {
        return false;
    }
    let mut i: usize = 0;
    while i < n
        invariant
            n == name@.len(),
            i <= n,
            forall|j: int| 0 <= j < i ==> recipe_char(#[trigger] name@[j]),
        decreases n - i,
    {
        let c = name.get_char(i);
        if !(('a' <= c && c <= 'z') || ('0' <= c && c <= '9') || c == '-' || c == '_') {
            assert(!recipe_char(name@[i as int]));
            return false;
        }
        i += 1;
    }
    true
}

/// Names Just itself uses, which a generated recipe may not take.
pub open spec fn reserved(n: Seq<char>) -> bool {
    n == "alias"@ || n == "export"@ || n == "import"@ || n == "mod"@ || n == "set"@ || n
        == "if"@ || n == "else"@
}

fn is_reserved(n: &str) -> (r: bool)
    ensures
        r == reserved(n@),
{
    str_eq(n, "alias") || str_eq(n, "export") || str_eq(n, "import") || str_eq(n, "mod")
        || str_eq(n, "set") || str_eq(n, "if") || str_eq(n, "else")
}

/// The Cockpit's action name for a command: the identity, namespaced, so that the
/// Cockpit's routes are stable across every rename of every surface.
pub fn cockpit_action(id: &CommandId) -> (r: String)
    ensures
        r@ == "command/"@ + id@,
{
    let mut out = String::from_str("command/");
    push_str(&mut out, id.as_str());
    out
}

/// The route of a command's page in the generated reference, derived from the identity so
/// that no filename is ever chosen by hand.
pub fn docs_route(id: &CommandId) -> (r: String)
    ensures
        r@ == DOCS_PREFIX@ + "/"@ + id@ + "/"@,
{
    let mut out = String::from_str(DOCS_PREFIX);
    push_str(&mut out, "/");
    push_str(&mut out, id.as_str());
    push_str(&mut out, "/");
    out
}

// ------------------------------------------------------------------ sanitising

/// The characters of a text before trimming: identifier characters kept, capitals
/// lowered, and every run of anything else one hyphen.
pub open spec fn sanitise_acc(s: Seq<char>) -> Seq<char>
    decreases s.len(),
{
    if s.len() == 0 {
        seq![]
    } else {
        let out = sanitise_acc(s.drop_last());
        let c = s.last();
        if is_ascii_lower(c) || is_ascii_digit(c) || c == '_' {
            out.push(c)
        } else if is_ascii_upper(c) {
            out.push(ascii_lower(c))
        } else if out.len() > 0 && out.last() == '-' {
            out
        } else {
            out.push('-')
        }
    }
}

/// The number of hyphens a text ends with.
pub open spec fn trailing_dashes(s: Seq<char>) -> int
    decreases s.len(),
{
    if s.len() > 0 && s.last() == '-' {
        1 + trailing_dashes(s.drop_last())
    } else {
        0
    }
}

/// A text without the hyphens it starts and ends with.
pub open spec fn trim_dashes(s: Seq<char>) -> Seq<char> {
    let a = crate::command::model::leading_dashes(s);
    let rest = s.subrange(a, s.len() as int);
    rest.subrange(0, rest.len() - trailing_dashes(rest))
}

/// A name Just can carry, from one it cannot: everything outside the identifier set
/// becomes a hyphen, runs of hyphens collapse, and the ends lose theirs.
pub open spec fn sanitised(s: Seq<char>) -> Seq<char> {
    trim_dashes(sanitise_acc(s))
}

proof fn lemma_sanitise_acc_chars(s: Seq<char>)
    ensures
        forall|i: int| 0 <= i < sanitise_acc(s).len() ==> recipe_char(#[trigger] sanitise_acc(s)[i]),
    decreases s.len(),
{
    if s.len() > 0 {
        lemma_sanitise_acc_chars(s.drop_last());
        let c = s.last();
        if is_ascii_upper(c) {
            assert(is_ascii_lower(ascii_lower(c)));
        }
        assert forall|i: int| 0 <= i < sanitise_acc(s).len() implies recipe_char(
            #[trigger] sanitise_acc(s)[i],
        ) by {
            if i < sanitise_acc(s.drop_last()).len() {
                assert(sanitise_acc(s)[i] == sanitise_acc(s.drop_last())[i]);
            }
        }
    }
}

proof fn lemma_trailing_dashes(s: Seq<char>)
    ensures
        0 <= trailing_dashes(s) <= s.len(),
        forall|j: int| s.len() - trailing_dashes(s) <= j < s.len() ==> s[j] == '-',
        trailing_dashes(s) < s.len() ==> s[s.len() - 1 - trailing_dashes(s)] != '-',
    decreases s.len(),
{
    if s.len() > 0 && s.last() == '-' {
        lemma_trailing_dashes(s.drop_last());
        assert forall|j: int| s.len() - trailing_dashes(s) <= j < s.len() implies s[j] == '-' by {
            if j < s.len() - 1 {
                assert(s[j] == s.drop_last()[j]);
            }
        }
        if trailing_dashes(s) < s.len() {
            assert(s[s.len() - 1 - trailing_dashes(s)] == s.drop_last()[s.len() - 1
                - trailing_dashes(s)]);
        }
    }
}

proof fn lemma_trailing_dashes_exact(s: Seq<char>, k: int)
    requires
        0 <= k <= s.len(),
        forall|j: int| s.len() - k <= j < s.len() ==> s[j] == '-',
        k < s.len() ==> s[s.len() - 1 - k] != '-',
    ensures
        trailing_dashes(s) == k,
    decreases s.len(),
{
    if k > 0 {
        let t = s.drop_last();
        assert forall|j: int| t.len() - (k - 1) <= j < t.len() implies t[j] == '-' by {
            assert(t[j] == s[j]);
        }
        if k - 1 < t.len() {
            assert(t[t.len() - 1 - (k - 1)] == s[s.len() - 1 - k]);
        }
        assert(s.last() == s[s.len() - 1]);
        lemma_trailing_dashes_exact(t, k - 1);
    } else if s.len() > 0 {
        assert(s.last() == s[s.len() - 1]);
    }
}

fn sanitise(text: &str) -> (r: String)
    ensures
        r@ == sanitised(text@),
{
    let n = text.unicode_len();
    let mut out: Vec<char> = Vec::new();
    let mut i: usize = 0;
    while i < n
        invariant
            n == text@.len(),
            i <= n,
            out@ == sanitise_acc(text@.subrange(0, i as int)),
        decreases n - i,
    {
        let c = text.get_char(i);
        let ghost sub = text@.subrange(0, i + 1);
        assert(sub.drop_last() =~= text@.subrange(0, i as int));
        assert(sub.last() == c);
        if ('a' <= c && c <= 'z') || ('0' <= c && c <= '9') || c == '_' {
            out.push(c);
        } else if 'A' <= c && c <= 'Z' {
            out.push(to_ascii_lower(c));
        } else if out.len() > 0 && out[out.len() - 1] == '-' {
        } else {
            out.push('-');
        }
        i += 1;
    }
    assert(text@.subrange(0, n as int) =~= text@);
    let m = out.len();
    let mut a: usize = 0;
    while a < m && out[a] == '-'
        invariant
            m == out@.len(),
            a <= m,
            forall|j: int| 0 <= j < a ==> out@[j] == '-',
        decreases m - a,
    {
        a += 1;
    }
    proof {
        crate::command::model::lemma_leading_dashes_exact(out@, a as int);
    }
    let mut b: usize = m;
    while b > a && out[b - 1] == '-'
        invariant
            m == out@.len(),
            a <= b <= m,
            forall|j: int| b <= j < m ==> out@[j] == '-',
        decreases b,
    {
        b -= 1;
    }
    let ghost rest = out@.subrange(a as int, m as int);
    proof {
        assert forall|j: int| rest.len() - (m - b) <= j < rest.len() implies rest[j] == '-' by {
            assert(rest[j] == out@[a + j]);
        }
        if m - b < rest.len() {
            assert(rest[rest.len() - 1 - (m - b)] == out@[b - 1]);
        }
        lemma_trailing_dashes_exact(rest, (m - b) as int);
    }
    let mut r = String::new();
    let mut k: usize = a;
    while k < b
        invariant
            a <= k <= b <= m,
            m == out@.len(),
            r@ == out@.subrange(a as int, k as int),
        decreases b - k,
    {
        push_char(&mut r, out[k]);
        assert(r@ =~= out@.subrange(a as int, k + 1));
        k += 1;
    }
    assert(rest.subrange(0, rest.len() - (m - b)) =~= out@.subrange(a as int, b as int));
    r
}

/// What sanitising gives is always made of recipe characters.
pub proof fn lemma_sanitised_chars(s: Seq<char>)
    ensures
        forall|i: int| 0 <= i < sanitised(s).len() ==> recipe_char(#[trigger] sanitised(s)[i]),
{
    lemma_sanitise_acc_chars(s);
    let acc = sanitise_acc(s);
    crate::command::model::lemma_leading_dashes(acc);
    let a = crate::command::model::leading_dashes(acc);
    let rest = acc.subrange(a, acc.len() as int);
    lemma_trailing_dashes(rest);
    assert forall|i: int| 0 <= i < sanitised(s).len() implies recipe_char(
        #[trigger] sanitised(s)[i],
    ) by {
        assert(sanitised(s)[i] == acc[a + i]);
    }
}


// ------------------------------------------------------------------ order

/// Text order: character by character, a proper prefix first (`str`'s `<`).
pub open spec fn text_less(a: Seq<char>, b: Seq<char>) -> bool
    decreases a.len(),
{
    if a.len() == 0 {
        b.len() > 0
    } else if b.len() == 0 {
        false
    } else if a[0] != b[0] {
        a[0] < b[0]
    } else {
        text_less(a.drop_first(), b.drop_first())
    }
}

/// No text comes before itself.
pub proof fn lemma_text_less_irreflexive(a: Seq<char>)
    ensures
        !text_less(a, a),
    decreases a.len(),
{
    if a.len() > 0 {
        lemma_text_less_irreflexive(a.drop_first());
    }
}

/// Text order is transitive.
pub proof fn lemma_text_less_transitive(a: Seq<char>, b: Seq<char>, c: Seq<char>)
    requires
        text_less(a, b),
        text_less(b, c),
    ensures
        text_less(a, c),
    decreases a.len(),
{
    if a.len() > 0 && b.len() > 0 && c.len() > 0 {
        if a[0] == b[0] && b[0] == c[0] {
            lemma_text_less_transitive(a.drop_first(), b.drop_first(), c.drop_first());
        } else {
        }
    }
}

/// Two different texts are ordered one way or the other.
pub proof fn lemma_text_less_total(a: Seq<char>, b: Seq<char>)
    requires
        a != b,
    ensures
        text_less(a, b) || text_less(b, a),
    decreases a.len(),
{
    if a.len() == 0 {
        assert(b.len() > 0) by {
            if b.len() == 0 {
                assert(a =~= b);
            }
        }
    } else if b.len() > 0 {
        if a[0] == b[0] {
            assert(a.drop_first() != b.drop_first()) by {
                if a.drop_first() == b.drop_first() {
                    assert(a =~= seq![a[0]] + a.drop_first());
                    assert(b =~= seq![b[0]] + b.drop_first());
                }
            }
            lemma_text_less_total(a.drop_first(), b.drop_first());
        }
    }
}

/// Does one text come before another?
pub fn text_before(a: &str, b: &str) -> (r: bool)
    ensures
        r == text_less(a@, b@),
{
    let n = a.unicode_len();
    let m = b.unicode_len();
    let mut i: usize = 0;
    assert(a@.skip(0) =~= a@);
    assert(b@.skip(0) =~= b@);
    while i < n && i < m
        invariant
            n == a@.len(),
            m == b@.len(),
            i <= n,
            i <= m,
            text_less(a@, b@) == text_less(a@.skip(i as int), b@.skip(i as int)),
        decreases n - i,
    {
        let x = a.get_char(i);
        let y = b.get_char(i);
        assert(a@.skip(i as int)[0] == x);
        assert(b@.skip(i as int)[0] == y);
        if x != y {
            return x < y;
        }
        assert(a@.skip(i as int).drop_first() =~= a@.skip(i + 1));
        assert(b@.skip(i as int).drop_first() =~= b@.skip(i + 1));
        i += 1;
    }
    i < m && i == n
}

/// The key the projection visits commands in: program precedence, then identity.
pub open spec fn key_less(p: Program, id: Seq<char>, q: Program, jd: Seq<char>) -> bool {
    precedence_of(p) < precedence_of(q) || (precedence_of(p) == precedence_of(q) && text_less(id, jd))
}

/// The order the projection visits the commands of a list in: by key, and by position
/// between commands of equal key, so that the visit is a function of the list.
pub open spec fn visits_before(nodes: Seq<CommandNode>, i: int, j: int) -> bool {
    key_less(nodes[i].program, nodes[i].id@, nodes[j].program, nodes[j].id@) || (!key_less(
        nodes[j].program,
        nodes[j].id@,
        nodes[i].program,
        nodes[i].id@,
    ) && i < j)
}

/// An order of visit: every position exactly once, in the visiting order.
pub open spec fn is_visit_order(nodes: Seq<CommandNode>, order: Seq<usize>) -> bool {
    &&& order.len() == nodes.len()
    &&& forall|k: int| 0 <= k < order.len() ==> order[k] < nodes.len()
    &&& forall|k: int, l: int|
        0 <= k < l < order.len() ==> visits_before(nodes, #[trigger] order[k] as int, #[trigger] order[l] as int)
    &&& forall|k: int, l: int|
        0 <= k < order.len() && 0 <= l < order.len() && k != l ==> #[trigger] order[k] != #[trigger] order[l]
    &&& forall|i: int| 0 <= i < nodes.len() ==> #[trigger] appears(order, i)
}

/// Does a position appear in an order?
pub open spec fn appears(order: Seq<usize>, i: int) -> bool {
    exists|k: int| 0 <= k < order.len() && order[k] == i
}

proof fn lemma_key_facts(p: Program, id: Seq<char>, q: Program, jd: Seq<char>)
    ensures
        !key_less(p, id, p, id),
        key_less(p, id, q, jd) ==> !key_less(q, jd, p, id),
        (p != q || id != jd) ==> key_less(p, id, q, jd) || key_less(q, jd, p, id),
{
    lemma_text_less_irreflexive(id);
    if key_less(p, id, q, jd) && key_less(q, jd, p, id) {
        if precedence_of(p) == precedence_of(q) {
            lemma_text_less_transitive(id, jd, id);
        }
    }
    if p != q || id != jd {
        if precedence_of(p) == precedence_of(q) {
            assert(p == q);
            lemma_text_less_total(id, jd);
        }
    }
}

proof fn lemma_key_transitive(
    p: Program,
    a: Seq<char>,
    q: Program,
    b: Seq<char>,
    r: Program,
    c: Seq<char>,
)
    requires
        key_less(p, a, q, b),
        key_less(q, b, r, c),
    ensures
        key_less(p, a, r, c),
{
    if precedence_of(p) == precedence_of(q) && precedence_of(q) == precedence_of(r) {
        lemma_text_less_transitive(a, b, c);
    }
}

/// Does this node come before that one by key?
fn node_key_before(a: &CommandNode, b: &CommandNode) -> (r: bool)
    ensures
        r == key_less(a.program, a.id@, b.program, b.id@),
{
    let pa = a.program.precedence();
    let pb = b.program.precedence();
    pa < pb || (pa == pb && text_before(a.id.as_str(), b.id.as_str()))
}

/// The order in which the projection visits a list's commands.
fn visit_order(nodes: &Vec<CommandNode>) -> (order: Vec<usize>)
    ensures
        is_visit_order(nodes@, order@),
{
    let mut order: Vec<usize> = Vec::new();
    let mut i: usize = 0;
    while i < nodes.len()
        invariant
            i <= nodes@.len(),
            order@.len() == i,
            forall|k: int| 0 <= k < order@.len() ==> order@[k] < i,
            forall|k: int, l: int|
                0 <= k < l < order@.len() ==> visits_before(nodes@, #[trigger] order@[k] as int, #[trigger] order@[l] as int),
            forall|k: int, l: int|
                0 <= k < order@.len() && 0 <= l < order@.len() && k != l ==> #[trigger] order@[k]
                    != #[trigger] order@[l],
            forall|j: int| 0 <= j < i ==> #[trigger] appears(order@, j),
        decreases nodes.len() - i,
    {
        let mut p: usize = 0;
        while p < order.len() && !node_key_before(&nodes[i], &nodes[order[p]])
            invariant
                p <= order@.len(),
                i < nodes@.len(),
                forall|k: int| 0 <= k < order@.len() ==> order@[k] < i,
                forall|k: int|
                    0 <= k < p ==> !key_less(
                        nodes@[i as int].program,
                        nodes@[i as int].id@,
                        nodes@[#[trigger] order@[k] as int].program,
                        nodes@[order@[k] as int].id@,
                    ),
            decreases order@.len() - p,
        {
            p += 1;
        }
        let ghost before = order@;
        proof {
            let ii = i as int;
            assert forall|k: int| 0 <= k < p implies visits_before(nodes@, #[trigger] before[k] as int, ii) by {
                let e = before[k] as int;
                lemma_key_facts(nodes@[e].program, nodes@[e].id@, nodes@[ii].program, nodes@[ii].id@);
            }
            assert forall|k: int| p <= k < before.len() implies visits_before(nodes@, ii, #[trigger] before[k] as int) by {
                let e = before[k] as int;
                let f = before[p as int] as int;
                if k > p {
                    assert(visits_before(nodes@, f, e));
                    lemma_key_facts(nodes@[f].program, nodes@[f].id@, nodes@[e].program, nodes@[e].id@);
                    if key_less(nodes@[f].program, nodes@[f].id@, nodes@[e].program, nodes@[e].id@) {
                        lemma_key_transitive(nodes@[ii].program, nodes@[ii].id@, nodes@[f].program, nodes@[f].id@, nodes@[e].program, nodes@[e].id@);
                    } else {
                        lemma_key_facts(nodes@[e].program, nodes@[e].id@, nodes@[f].program, nodes@[f].id@);
                        assert(nodes@[e].program == nodes@[f].program && nodes@[e].id@ == nodes@[f].id@);
                    }
                }
            }
        }
        order.insert(p, i);
        proof {
            let ii = i as int;
            assert forall|k: int, l: int| 0 <= k < l < order@.len() implies visits_before(nodes@, #[trigger] order@[k] as int, #[trigger] order@[l] as int) by {
                if k < p && l < p {
                    assert(order@[k] == before[k] && order@[l] == before[l]);
                } else if k < p && l == p {
                    assert(order@[k] == before[k]);
                } else if k < p {
                    assert(order@[k] == before[k] && order@[l] == before[l - 1]);
                } else if k == p {
                    assert(order@[l] == before[l - 1]);
                } else {
                    assert(order@[k] == before[k - 1] && order@[l] == before[l - 1]);
                }
            }
            assert forall|k: int, l: int|
                0 <= k < order@.len() && 0 <= l < order@.len() && k != l implies #[trigger] order@[k]
                    != #[trigger] order@[l] by {
                let ok = if k < p { before[k] } else if k == p { i } else { before[k - 1] };
                let ol = if l < p { before[l] } else if l == p { i } else { before[l - 1] };
                assert(order@[k] == ok);
                assert(order@[l] == ol);
            }
            assert forall|j: int| 0 <= j < i + 1 implies #[trigger] appears(order@, j) by {
                if j == i {
                    assert(order@[p as int] == j);
                } else {
                    assert(appears(before, j));
                    let k0 = choose|k: int| 0 <= k < before.len() && before[k] == j;
                    if k0 < p {
                        assert(order@[k0] == j);
                    } else {
                        assert(order@[k0 + 1] == j);
                    }
                }
            }
        }
        i += 1;
    }
    order
}


// ------------------------------------------------------------------ the model of a claim

/// A diagnostic as the contracts see it.
pub struct DiagnosticModel {
    /// The stable code.
    pub code: Seq<char>,
    /// Whether it refuses the graph.
    pub fatal: bool,
    /// What is wrong.
    pub message: Seq<char>,
    /// The identities involved.
    pub commands: Seq<Seq<char>>,
}

/// The model of a diagnostic.
pub open spec fn diagnostic_model(d: Diagnostic) -> DiagnosticModel {
    DiagnosticModel {
        code: d.code@,
        fatal: d.fatal,
        message: d.message@,
        commands: d.commands@.map_values(|c: CommandId| c@),
    }
}

/// The models of some diagnostics.
pub open spec fn diagnostic_models(ds: Seq<Diagnostic>) -> Seq<DiagnosticModel> {
    ds.map_values(|d: Diagnostic| diagnostic_model(d))
}

/// The names already given out, and to whom, in the order they were given.
pub open spec fn taken_model(t: Seq<(String, CommandId)>) -> Seq<(Seq<char>, Seq<char>)> {
    t.map_values(|e: (String, CommandId)| (e.0@, e.1@))
}

/// The position of a name among those given out, or the count when it is free.
pub open spec fn find_name(taken: Seq<(Seq<char>, Seq<char>)>, name: Seq<char>) -> int
    decreases taken.len(),
{
    if taken.len() == 0 {
        0
    } else if taken[0].0 == name {
        0
    } else {
        1 + find_name(taken.drop_first(), name)
    }
}

/// Who holds a name, if anyone does.
pub open spec fn holder_of(taken: Seq<(Seq<char>, Seq<char>)>, name: Seq<char>) -> Option<Seq<char>> {
    if find_name(taken, name) < taken.len() {
        Some(taken[find_name(taken, name)].1)
    } else {
        None
    }
}

/// What is being named.
pub open spec fn what_word(for_recipe: bool) -> Seq<char> {
    if for_recipe {
        "recipe"@
    } else {
        "alias"@
    }
}

/// The finding of a name Just cannot carry.
pub open spec fn renamed_finding(
    what: Seq<char>,
    wanted: Seq<char>,
    id: Seq<char>,
    candidate: Seq<char>,
) -> DiagnosticModel {
    DiagnosticModel {
        code: "projection-renamed"@,
        fatal: false,
        message: "the "@ + what + " name '"@ + wanted + "' of "@ + id
            + " is not one Just can carry; it is projected as '"@ + candidate + "'"@,
        commands: seq![id],
    }
}

/// The finding of a command left with no name.
pub open spec fn collision_finding(
    candidate: Seq<char>,
    holder: Seq<char>,
    prefixed: Seq<char>,
    other: Seq<char>,
    id: Seq<char>,
    what: Seq<char>,
) -> DiagnosticModel {
    DiagnosticModel {
        code: "projection-collision"@,
        fatal: true,
        message: "'"@ + candidate + "' is taken by "@ + holder + " and '"@ + prefixed + "' by "@
            + other + "; "@ + id + " has no "@ + what + " name left"@,
        commands: seq![id, holder, other],
    }
}

/// The finding of a command that took its program's prefix.
pub open spec fn prefixed_finding(
    candidate: Seq<char>,
    holder: Seq<char>,
    id: Seq<char>,
    prefixed: Seq<char>,
) -> DiagnosticModel {
    DiagnosticModel {
        code: "projection-prefixed"@,
        fatal: false,
        message: "'"@ + candidate + "' is "@ + holder + "'s by program precedence; "@ + id
            + " is projected as '"@ + prefixed + "'"@,
        commands: seq![id, holder],
    }
}

/// The finding of an alias another command's name already is.
pub open spec fn alias_taken_finding(alias: Seq<char>, id: Seq<char>, holder: Seq<char>) -> DiagnosticModel {
    DiagnosticModel {
        code: "alias-taken"@,
        fatal: false,
        message: "the alias '"@ + alias + "' of "@ + id
            + " is a name another command already has; the alias is not projected"@,
        commands: seq![id, holder],
    }
}

/// What claiming a name gives: the name, the names given out afterwards, and the
/// findings it made.
pub struct ClaimModel {
    /// The name claimed, if any could be formed.
    pub name: Option<Seq<char>>,
    /// The names given out afterwards.
    pub taken: Seq<(Seq<char>, Seq<char>)>,
    /// The findings, in order.
    pub findings: Seq<DiagnosticModel>,
}

/// The name a wanted name becomes before collisions are looked at.
pub open spec fn candidate_of(wanted: Seq<char>, program: Program) -> Seq<char> {
    if !recipe_name(wanted) || reserved(wanted) {
        prefix_word(program) + "-"@ + sanitised(wanted)
    } else {
        wanted
    }
}

/// Claiming a name for a command: the program's prefix when the name cannot be carried
/// or is gone, and no name at all when the prefixed one is gone too.
pub open spec fn claim_model(
    wanted: Seq<char>,
    program: Program,
    id: Seq<char>,
    taken: Seq<(Seq<char>, Seq<char>)>,
    for_recipe: bool,
) -> ClaimModel {
    let candidate = candidate_of(wanted, program);
    let first: Seq<DiagnosticModel> = if !recipe_name(wanted) || reserved(wanted) {
        seq![renamed_finding(what_word(for_recipe), wanted, id, candidate)]
    } else {
        seq![]
    };
    match holder_of(taken, candidate) {
        Some(holder) => if holder == id {
            ClaimModel { name: Some(candidate), taken, findings: first }
        } else {
            let prefixed = prefix_word(program) + "-"@ + candidate;
            match holder_of(taken, prefixed) {
                Some(other) => ClaimModel {
                    name: None,
                    taken,
                    findings: first.push(
                        collision_finding(candidate, holder, prefixed, other, id, what_word(for_recipe)),
                    ),
                },
                None => ClaimModel {
                    name: Some(prefixed),
                    taken: taken.push((prefixed, id)),
                    findings: if for_recipe {
                        first.push(prefixed_finding(candidate, holder, id, prefixed))
                    } else {
                        first
                    },
                },
            }
        },
        None => ClaimModel { name: Some(candidate), taken: taken.push((candidate, id)), findings: first },
    }
}

proof fn lemma_find_name(taken: Seq<(Seq<char>, Seq<char>)>, name: Seq<char>, k: int)
    requires
        0 <= k <= taken.len(),
        forall|j: int| 0 <= j < k ==> (#[trigger] taken[j]).0 != name,
        k < taken.len() ==> taken[k].0 == name,
    ensures
        find_name(taken, name) == k,
    decreases k,
{
    if k > 0 {
        let t = taken.drop_first();
        assert forall|j: int| 0 <= j < k - 1 implies (#[trigger] t[j]).0 != name by {
            assert(t[j] == taken[j + 1]);
        }
        if k < taken.len() {
            assert(t[k - 1] == taken[k]);
        }
        assert(taken[0].0 != name);
        lemma_find_name(t, name, k - 1);
    }
}

fn find_taken(taken: &Vec<(String, CommandId)>, name: &str) -> (r: usize)
    ensures
        r == find_name(taken_model(taken@), name@),
        r <= taken@.len(),
{
    let mut i: usize = 0;
    while i < taken.len()
        invariant
            i <= taken@.len(),
            forall|j: int| 0 <= j < i ==> (#[trigger] taken_model(taken@)[j]).0 != name@,
        decreases taken.len() - i,
    {
        if str_eq(taken[i].0.as_str(), name) {
            proof {
                lemma_find_name(taken_model(taken@), name@, i as int);
            }
            return i;
        }
        i += 1;
    }
    proof {
        lemma_find_name(taken_model(taken@), name@, taken@.len() as int);
    }
    i
}

fn text(s: &str) -> (r: String)
    ensures
        r@ == s@,
{
    String::from_str(s)
}

fn ids1(a: &CommandId) -> (r: Vec<CommandId>)
    ensures
        r@.map_values(|c: CommandId| c@) == seq![a@],
{
    let r = vec![a.copied()];
    assert(r@.map_values(|c: CommandId| c@) =~= seq![a@]);
    r
}

fn ids2(a: &CommandId, b: &CommandId) -> (r: Vec<CommandId>)
    ensures
        r@.map_values(|c: CommandId| c@) == seq![a@, b@],
{
    let r = vec![a.copied(), b.copied()];
    assert(r@.map_values(|c: CommandId| c@) =~= seq![a@, b@]);
    r
}

fn ids3(a: &CommandId, b: &CommandId, c: &CommandId) -> (r: Vec<CommandId>)
    ensures
        r@.map_values(|x: CommandId| x@) == seq![a@, b@, c@],
{
    let r = vec![a.copied(), b.copied(), c.copied()];
    assert(r@.map_values(|x: CommandId| x@) =~= seq![a@, b@, c@]);
    r
}

fn what_text(for_recipe: bool) -> (r: &'static str)
    ensures
        r@ == what_word(for_recipe),
{
    if for_recipe {
        "recipe"
    } else {
        "alias"
    }
}

/// Claim a name for a command, taking the program's prefix when the bare name is gone and
/// reporting what happened. `None` when no legal name could be formed at all.
fn claim(
    wanted: &str,
    program: Program,
    id: &CommandId,
    taken: &mut Vec<(String, CommandId)>,
    diagnostics: &mut Vec<Diagnostic>,
    for_recipe: bool,
) -> (r: Option<String>)
    ensures
        ({
            let c = claim_model(wanted@, program, id@, taken_model(old(taken)@), for_recipe);
            &&& taken_model(final(taken)@) == c.taken
            &&& diagnostic_models(final(diagnostics)@) == diagnostic_models(old(diagnostics)@)
                + c.findings
            &&& match r {
                Some(n) => c.name == Some(n@),
                None => c.name is None,
            }
        }),
{
    let ghost c = claim_model(wanted@, program, id@, taken_model(taken@), for_recipe);
    let ghost d0 = diagnostic_models(diagnostics@);
    let renamed = !is_recipe_name(wanted) || is_reserved(wanted);
    let mut candidate = text(wanted);
    if renamed {
        candidate = text(program.projection_prefix());
        push_str(&mut candidate, "-");
        let clean = sanitise(wanted);
        push_str(&mut candidate, clean.as_str());
        let mut m = text("the ");
        push_str(&mut m, what_text(for_recipe));
        push_str(&mut m, " name '");
        push_str(&mut m, wanted);
        push_str(&mut m, "' of ");
        push_str(&mut m, id.as_str());
        push_str(&mut m, " is not one Just can carry; it is projected as '");
        push_str(&mut m, candidate.as_str());
        push_str(&mut m, "'");
        let d = Diagnostic { code: text("projection-renamed"), fatal: false, message: m, commands: ids1(id) };
        assert(diagnostic_model(d) =~= renamed_finding(what_word(for_recipe), wanted@, id@, candidate@));
        diagnostics.push(d);
    }
    assert(candidate@ == candidate_of(wanted@, program));
    let ghost first: Seq<DiagnosticModel> = if renamed {
        seq![renamed_finding(what_word(for_recipe), wanted@, id@, candidate@)]
    } else {
        seq![]
    };
    assert(diagnostic_models(diagnostics@) =~= d0 + first);
    let at = find_taken(taken, candidate.as_str());
    if at < taken.len() {
        assert(taken_model(taken@)[at as int] == (taken@[at as int].0@, taken@[at as int].1@));
        let holder = taken[at].1.copied();
        if holder.same(id) {
            return Some(candidate);
        }
        let mut prefixed = text(program.projection_prefix());
        push_str(&mut prefixed, "-");
        push_str(&mut prefixed, candidate.as_str());
        let at2 = find_taken(taken, prefixed.as_str());
        if at2 < taken.len() {
            assert(taken_model(taken@)[at2 as int] == (taken@[at2 as int].0@, taken@[at2 as int].1@));
            let other = taken[at2].1.copied();
            let mut m = text("'");
            push_str(&mut m, candidate.as_str());
            push_str(&mut m, "' is taken by ");
            push_str(&mut m, holder.as_str());
            push_str(&mut m, " and '");
            push_str(&mut m, prefixed.as_str());
            push_str(&mut m, "' by ");
            push_str(&mut m, other.as_str());
            push_str(&mut m, "; ");
            push_str(&mut m, id.as_str());
            push_str(&mut m, " has no ");
            push_str(&mut m, what_text(for_recipe));
            push_str(&mut m, " name left");
            let d = Diagnostic {
                code: text("projection-collision"),
                fatal: true,
                message: m,
                commands: ids3(id, &holder, &other),
            };
            assert(diagnostic_model(d) =~= collision_finding(
                candidate@,
                holder@,
                prefixed@,
                other@,
                id@,
                what_word(for_recipe),
            ));
            diagnostics.push(d);
            assert(diagnostic_models(diagnostics@) =~= d0 + c.findings);
            return None;
        }
        if for_recipe {
            let mut m = text("'");
            push_str(&mut m, candidate.as_str());
            push_str(&mut m, "' is ");
            push_str(&mut m, holder.as_str());
            push_str(&mut m, "'s by program precedence; ");
            push_str(&mut m, id.as_str());
            push_str(&mut m, " is projected as '");
            push_str(&mut m, prefixed.as_str());
            push_str(&mut m, "'");
            let d = Diagnostic {
                code: text("projection-prefixed"),
                fatal: false,
                message: m,
                commands: ids2(id, &holder),
            };
            assert(diagnostic_model(d) =~= prefixed_finding(candidate@, holder@, id@, prefixed@));
            diagnostics.push(d);
        }
        assert(diagnostic_models(diagnostics@) =~= d0 + c.findings);
        let copy = text(prefixed.as_str());
        taken.push((copy, id.copied()));
        assert(taken_model(taken@) =~= c.taken);
        return Some(prefixed);
    }
    let copy = text(candidate.as_str());
    taken.push((copy, id.copied()));
    assert(taken_model(taken@) =~= c.taken);
    Some(candidate)
}


// ------------------------------------------------------------------ the model of assignment

/// What the projection reads of a command.
pub struct NodeInfo {
    /// The owning program.
    pub program: Program,
    /// The identity.
    pub id: Seq<char>,
    /// The path words.
    pub path: Seq<Seq<char>>,
    /// The names of its aliases, in order.
    pub aliases: Seq<Seq<char>>,
}

/// What the projection reads of a command.
pub open spec fn info_of(n: CommandNode) -> NodeInfo {
    NodeInfo {
        program: n.program,
        id: n.id@,
        path: views(n.path@),
        aliases: n.aliases@.map_values(|a: crate::command::model::Alias| a.name@),
    }
}

/// The commands of a list, in an order of visit.
pub open spec fn visit_infos(nodes: Seq<CommandNode>, order: Seq<usize>) -> Seq<NodeInfo> {
    order.map_values(|i: usize| info_of(nodes[i as int]))
}

/// Where the recipe names stand after some commands have claimed theirs.
pub struct RecipePass {
    /// The names given out.
    pub taken: Seq<(Seq<char>, Seq<char>)>,
    /// The findings so far.
    pub findings: Seq<DiagnosticModel>,
    /// The recipe name of each command visited, in visiting order.
    pub names: Seq<Option<Seq<char>>>,
}

/// Every command claims its recipe name, in the order of visit.
pub open spec fn recipe_pass(infos: Seq<NodeInfo>) -> RecipePass
    decreases infos.len(),
{
    if infos.len() == 0 {
        RecipePass { taken: seq![], findings: seq![], names: seq![] }
    } else {
        let prev = recipe_pass(infos.drop_last());
        let n = infos.last();
        let c = claim_model(join_with(n.path, '-'), n.program, n.id, prev.taken, true);
        RecipePass { taken: c.taken, findings: prev.findings + c.findings, names: prev.names.push(c.name) }
    }
}

/// Where the aliases of one command stand.
pub struct AliasPass {
    /// The names given out.
    pub taken: Seq<(Seq<char>, Seq<char>)>,
    /// The findings so far.
    pub findings: Seq<DiagnosticModel>,
    /// The aliases projected.
    pub kept: Seq<Seq<char>>,
}

/// The holder of a name, or nothing.
pub open spec fn holder_or_empty(taken: Seq<(Seq<char>, Seq<char>)>, name: Seq<char>) -> Seq<char> {
    match holder_of(taken, name) {
        Some(h) => h,
        None => seq![],
    }
}

/// One alias claimed: kept when it got its own name, reported when another command has it.
pub open spec fn alias_step(alias: Seq<char>, program: Program, id: Seq<char>, st: AliasPass) -> AliasPass {
    let c = claim_model(alias, program, id, st.taken, false);
    match c.name {
        Some(name) => if name == alias {
            AliasPass { taken: c.taken, findings: st.findings + c.findings, kept: st.kept.push(name) }
        } else {
            AliasPass {
                taken: c.taken,
                findings: (st.findings + c.findings).push(
                    alias_taken_finding(alias, id, holder_or_empty(c.taken, alias)),
                ),
                kept: st.kept,
            }
        },
        None => AliasPass { taken: c.taken, findings: st.findings + c.findings, kept: st.kept },
    }
}

/// The aliases of one command claimed in order.
pub open spec fn alias_pass(
    aliases: Seq<Seq<char>>,
    program: Program,
    id: Seq<char>,
    taken: Seq<(Seq<char>, Seq<char>)>,
) -> AliasPass
    decreases aliases.len(),
{
    if aliases.len() == 0 {
        AliasPass { taken, findings: seq![], kept: seq![] }
    } else {
        alias_step(aliases.last(), program, id, alias_pass(aliases.drop_last(), program, id, taken))
    }
}

/// Where the aliases of every command stand.
pub struct AliasesPass {
    /// The names given out.
    pub taken: Seq<(Seq<char>, Seq<char>)>,
    /// The findings so far.
    pub findings: Seq<DiagnosticModel>,
    /// The aliases projected for each command visited, in visiting order.
    pub kept: Seq<Seq<Seq<char>>>,
}

/// Every command's aliases claimed, in the order of visit, after every recipe name.
pub open spec fn aliases_pass(infos: Seq<NodeInfo>, taken: Seq<(Seq<char>, Seq<char>)>) -> AliasesPass
    decreases infos.len(),
{
    if infos.len() == 0 {
        AliasesPass { taken, findings: seq![], kept: seq![] }
    } else {
        let prev = aliases_pass(infos.drop_last(), taken);
        let n = infos.last();
        let a = alias_pass(n.aliases, n.program, n.id, prev.taken);
        AliasesPass { taken: a.taken, findings: prev.findings + a.findings, kept: prev.kept.push(a.kept) }
    }
}

/// The names a command's surfaces know it by, apart from its aliases.
pub open spec fn named(info: NodeInfo, name: Option<Seq<char>>, p: Projections) -> bool {
    &&& if info.program == Program::Native {
        p.cli matches Some(c) && views(c@) == info.path
    } else {
        p.cli is None
    }
    &&& match name {
        Some(n) => p.just matches Some(j) && j@ == n,
        None => p.just is None,
    }
    &&& p.cockpit matches Some(c) && c@ == "command/"@ + info.id
    &&& p.docs matches Some(d) && d@ == DOCS_PREFIX@ + "/"@ + info.id + "/"@
}

/// Two commands that differ at most in their projections.
pub open spec fn same_but_projections(a: CommandNode, b: CommandNode) -> bool {
    &&& a.id == b.id
    &&& a.program == b.program
    &&& a.path == b.path
    &&& a.summary == b.summary
    &&& a.description == b.description
    &&& a.usage == b.usage
    &&& a.runnable == b.runnable
    &&& a.arguments == b.arguments
    &&& a.execution == b.execution
    &&& a.effect == b.effect
    &&& a.interactivity == b.interactivity
    &&& a.visibility == b.visibility
    &&& a.availability == b.availability
    &&& a.provenance == b.provenance
    &&& a.aliases == b.aliases
    &&& a.deprecation == b.deprecation
    &&& a.tags == b.tags
    &&& a.examples == b.examples
}

/// Aliases the projection can carry as they are. An alias that Just cannot carry as it
/// is, or that is a reserved word, has no name the projection could give it and report a
/// holder of, so a graph with one is not one the projection takes.
pub open spec fn aliases_are_names(nodes: Seq<CommandNode>) -> bool {
    forall|i: int, j: int|
        0 <= i < nodes.len() && 0 <= j < nodes[i].aliases@.len() ==> recipe_name(
            #[trigger] nodes[i].aliases@[j].name@,
        ) && !reserved(nodes[i].aliases@[j].name@)
}


/// The findings naming makes, visiting a list in an order.
pub open spec fn naming_findings(old_nodes: Seq<CommandNode>, order: Seq<usize>) -> Seq<DiagnosticModel> {
    let infos = visit_infos(old_nodes, order);
    let r = recipe_pass(infos);
    r.findings + aliases_pass(infos, r.taken).findings
}

/// The names every command of a list holds after naming visited it in an order.
pub open spec fn names_given(old_nodes: Seq<CommandNode>, order: Seq<usize>, new_nodes: Seq<CommandNode>) -> bool {
    let infos = visit_infos(old_nodes, order);
    let r = recipe_pass(infos);
    let a = aliases_pass(infos, r.taken);
    forall|k: int|
        0 <= k < order.len() ==> named(
            infos[k],
            r.names[k],
            (#[trigger] new_nodes[order[k] as int]).projections,
        ) && views(new_nodes[order[k] as int].projections.just_aliases@) == a.kept[k]
}

/// What assigning the names in an order of visit gives a list of commands and the
/// findings.
pub open spec fn assigned(
    old_nodes: Seq<CommandNode>,
    order: Seq<usize>,
    new_nodes: Seq<CommandNode>,
    findings: Seq<Diagnostic>,
) -> bool {
    &&& diagnostic_models(findings) == naming_findings(old_nodes, order)
    &&& names_given(old_nodes, order, new_nodes)
}

proof fn lemma_recipe_pass_len(infos: Seq<NodeInfo>)
    ensures
        recipe_pass(infos).names.len() == infos.len(),
    decreases infos.len(),
{
    if infos.len() > 0 {
        lemma_recipe_pass_len(infos.drop_last());
    }
}

proof fn lemma_aliases_pass_len(infos: Seq<NodeInfo>, taken: Seq<(Seq<char>, Seq<char>)>)
    ensures
        aliases_pass(infos, taken).kept.len() == infos.len(),
    decreases infos.len(),
{
    if infos.len() > 0 {
        lemma_aliases_pass_len(infos.drop_last(), taken);
    }
}

proof fn lemma_find_name_bound(taken: Seq<(Seq<char>, Seq<char>)>, name: Seq<char>)
    ensures
        0 <= find_name(taken, name) <= taken.len(),
        find_name(taken, name) < taken.len() ==> taken[find_name(taken, name)].0 == name,
        forall|j: int| 0 <= j < find_name(taken, name) ==> (#[trigger] taken[j]).0 != name,
    decreases taken.len(),
{
    if taken.len() > 0 && taken[0].0 != name {
        lemma_find_name_bound(taken.drop_first(), name);
        assert forall|j: int| 0 <= j < find_name(taken, name) implies (#[trigger] taken[j]).0 != name by {
            if j > 0 {
                assert(taken[j] == taken.drop_first()[j - 1]);
            }
        }
        if find_name(taken, name) < taken.len() {
            assert(taken[find_name(taken, name)] == taken.drop_first()[find_name(taken, name) - 1]);
        }
    }
}

proof fn lemma_holder_after_push(
    taken: Seq<(Seq<char>, Seq<char>)>,
    x: (Seq<char>, Seq<char>),
    name: Seq<char>,
)
    requires
        holder_of(taken, name) is Some,
    ensures
        holder_of(taken.push(x), name) == holder_of(taken, name),
{
    lemma_find_name_bound(taken, name);
    let k = find_name(taken, name);
    let t2 = taken.push(x);
    assert forall|j: int| 0 <= j < k implies (#[trigger] t2[j]).0 != name by {
        assert(t2[j] == taken[j]);
    }
    assert(t2[k] == taken[k]);
    lemma_find_name(t2, name, k);
}

/// The unique order of visit: two orders of visit of one list are the same order.
pub proof fn lemma_visit_order_unique(nodes: Seq<CommandNode>, o1: Seq<usize>, o2: Seq<usize>)
    requires
        is_visit_order(nodes, o1),
        is_visit_order(nodes, o2),
    ensures
        o1 == o2,
{
    assert forall|k: int| 0 <= k < o1.len() implies o1[k] == o2[k] by {
        lemma_visit_order_agree(nodes, o1, o2, k);
    }
    assert(o1 =~= o2);
}

proof fn lemma_visits_before_asymmetric(nodes: Seq<CommandNode>, i: int, j: int)
    requires
        0 <= i < nodes.len(),
        0 <= j < nodes.len(),
    ensures
        !(visits_before(nodes, i, j) && visits_before(nodes, j, i)),
        !visits_before(nodes, i, i),
{
    lemma_key_facts(nodes[i].program, nodes[i].id@, nodes[j].program, nodes[j].id@);
}

proof fn lemma_visit_order_agree(nodes: Seq<CommandNode>, o1: Seq<usize>, o2: Seq<usize>, k: int)
    requires
        is_visit_order(nodes, o1),
        is_visit_order(nodes, o2),
        0 <= k < o1.len(),
    ensures
        o1[k] == o2[k],
    decreases k,
{
    if k > 0 {
        lemma_visit_order_agree(nodes, o1, o2, k - 1);
    }
    assert forall|j: int| 0 <= j < k implies o1[j] == o2[j] by {
        lemma_visit_order_agree(nodes, o1, o2, j);
    }
    let x = o1[k] as int;
    let y = o2[k] as int;
    assert(appears(o1, y));
    assert(appears(o2, x));
    let p = choose|p: int| 0 <= p < o1.len() && o1[p] == y;
    let q = choose|q: int| 0 <= q < o2.len() && o2[q] == x;
    if x != y {
        if p < k {
            assert(o2[p] == y);
            assert(o2[p] != o2[k]);
        }
        if q < k {
            assert(o1[q] == x);
            assert(o1[q] != o1[k]);
        }
        assert(p > k);
        assert(q > k);
        assert(visits_before(nodes, o1[k] as int, o1[p] as int));
        assert(visits_before(nodes, o2[k] as int, o2[q] as int));
        lemma_visits_before_asymmetric(nodes, x, y);
    }
}


/// Assign every node the names its surfaces know it by, and report every collision the
/// assignment had to resolve.
///
/// The nodes are visited in a fixed order — program precedence, then identity — so the
/// result is a function of the set of commands and nothing else. Aliases are claimed only
/// after every command has its own name: a compatibility alias may never take the name of
/// a command that exists.
pub fn assign(nodes: &mut Vec<CommandNode>) -> (diagnostics: Vec<Diagnostic>)
    requires
        aliases_are_names(old(nodes)@),
    ensures
        final(nodes)@.len() == old(nodes)@.len(),
        forall|i: int|
            0 <= i < old(nodes)@.len() ==> same_but_projections(
                #[trigger] final(nodes)@[i],
                old(nodes)@[i],
            ),
        forall|order: Seq<usize>|
            is_visit_order(old(nodes)@, order) ==> assigned(
                old(nodes)@,
                order,
                final(nodes)@,
                diagnostics@,
            ),
        exists|order: Seq<usize>| is_visit_order(old(nodes)@, order),
{
    let ghost start = nodes@;
    let mut diagnostics: Vec<Diagnostic> = Vec::new();
    let order = visit_order(nodes);
    let ghost infos = visit_infos(start, order@);
    let n = order.len();
    let mut taken: Vec<(String, CommandId)> = Vec::new();
    let mut k: usize = 0;
    while k < n
        invariant
            n == order@.len(),
            n == start.len(),
            is_visit_order(start, order@),
            infos == visit_infos(start, order@),
            k <= n,
            nodes@.len() == start.len(),
            forall|i: int| 0 <= i < start.len() ==> same_but_projections(#[trigger] nodes@[i], start[i]),
            taken_model(taken@) == recipe_pass(infos.take(k as int)).taken,
            diagnostic_models(diagnostics@) == recipe_pass(infos.take(k as int)).findings,
            forall|l: int|
                0 <= l < k ==> named(
                    infos[l],
                    recipe_pass(infos.take(k as int)).names[l],
                    (#[trigger] nodes@[order@[l] as int]).projections,
                ),
            forall|l: int| 0 <= l < n ==> (#[trigger] nodes@[order@[l] as int]).projections.just_aliases@.len() == 0 || l >= k,
        decreases n - k,
    {
        let i = order[k];
        let ghost before = nodes@;
        let ghost prev = recipe_pass(infos.take(k as int));
        proof {
            lemma_recipe_pass_len(infos.take(k as int));
            assert(infos.take(k + 1).drop_last() =~= infos.take(k as int));
            assert(infos.take(k + 1).last() == infos[k as int]);
            assert(infos[k as int] == info_of(start[i as int]));
        }
        let id = nodes[i].id.copied();
        let program = nodes[i].program;
        let base = base_name(nodes[i].path.as_slice());
        let name = claim(base.as_str(), program, &id, &mut taken, &mut diagnostics, true);
        let cli = if program == Program::Native {
            Some(crate::strings::copy_strings(&nodes[i].path))
        } else {
            None
        };
        let action = cockpit_action(&id);
        let route = docs_route(&id);
        nodes[i].projections = Projections {
            cli,
            just: name,
            cockpit: Some(action),
            docs: Some(route),
            just_aliases: Vec::new(),
        };
        k += 1;
    }
    assert(infos.take(n as int) =~= infos);
    let ghost r = recipe_pass(infos);
    proof {
        lemma_recipe_pass_len(infos);
    }
    let mut k: usize = 0;
    while k < n
        invariant
            n == order@.len(),
            n == start.len(),
            is_visit_order(start, order@),
            infos == visit_infos(start, order@),
            r == recipe_pass(infos),
            r.names.len() == n,
            aliases_are_names(start),
            k <= n,
            nodes@.len() == start.len(),
            forall|i: int| 0 <= i < start.len() ==> same_but_projections(#[trigger] nodes@[i], start[i]),
            taken_model(taken@) == aliases_pass(infos.take(k as int), r.taken).taken,
            diagnostic_models(diagnostics@) == r.findings + aliases_pass(infos.take(k as int), r.taken).findings,
            forall|l: int|
                0 <= l < n ==> named(infos[l], r.names[l], (#[trigger] nodes@[order@[l] as int]).projections),
            forall|l: int|
                0 <= l < k ==> views((#[trigger] nodes@[order@[l] as int]).projections.just_aliases@)
                    == aliases_pass(infos.take(k as int), r.taken).kept[l],
        decreases n - k,
    {
        let i = order[k];
        let ghost prev = aliases_pass(infos.take(k as int), r.taken);
        let ghost d_node = diagnostics@;
        proof {
            lemma_aliases_pass_len(infos.take(k as int), r.taken);
            assert(infos.take(k + 1).drop_last() =~= infos.take(k as int));
            assert(infos.take(k + 1).last() == infos[k as int]);
            assert(infos[k as int] == info_of(start[i as int]));
        }
        let id = nodes[i].id.copied();
        let program = nodes[i].program;
        let ghost aliases = info_of(start[i as int]).aliases;
        let ghost taken0 = prev.taken;
        let mut kept: Vec<String> = Vec::new();
        let count = nodes[i].aliases.len();
        let mut j: usize = 0;
        while j < count
            invariant
                i < nodes@.len(),
                nodes@.len() == start.len(),
                i < start.len(),
                same_but_projections(nodes@[i as int], start[i as int]),
                aliases_are_names(start),
                count == aliases.len(),
                aliases == info_of(start[i as int]).aliases,
                id@ == start[i as int].id@,
                program == start[i as int].program,
                j <= count,
                taken_model(taken@) == alias_pass(aliases.take(j as int), program, id@, taken0).taken,
                diagnostic_models(diagnostics@) == diagnostic_models(d_node) + alias_pass(
                    aliases.take(j as int),
                    program,
                    id@,
                    taken0,
                ).findings,
                views(kept@) == alias_pass(aliases.take(j as int), program, id@, taken0).kept,
            decreases count - j,
        {
            let ghost st = alias_pass(aliases.take(j as int), program, id@, taken0);
            proof {
                assert(aliases.take(j + 1).drop_last() =~= aliases.take(j as int));
                assert(aliases.take(j + 1).last() == aliases[j as int]);
                assert(aliases[j as int] == start[i as int].aliases@[j as int].name@);
                assert(recipe_name(start[i as int].aliases@[j as int].name@));
            }
            let alias = text(nodes[i].aliases[j].name.as_str());
            let ghost dd = diagnostics@;
            let ghost tt = taken_model(taken@);
            let got = claim(alias.as_str(), program, &id, &mut taken, &mut diagnostics, false);
            let ghost c = claim_model(alias@, program, id@, tt, false);
            assert(alias@ == aliases[j as int]);
            assert(alias_pass(aliases.take(j + 1), program, id@, taken0) == alias_step(alias@, program, id@, st));
            assert(diagnostic_models(dd) == diagnostic_models(d_node) + st.findings);
            assert(diagnostic_models(diagnostics@) == diagnostic_models(dd) + c.findings);
            match got {
                Some(name) => {
                    if str_eq(name.as_str(), alias.as_str()) {
                        kept.push(name);
                        assert(views(kept@) =~= st.kept.push(alias@));
                    } else {
                        proof {
                            assert(candidate_of(alias@, program) == alias@);
                            assert(holder_of(tt, alias@) is Some);
                            lemma_holder_after_push(tt, (prefix_word(program) + "-"@ + alias@, id@), alias@);
                            lemma_find_name_bound(c.taken, alias@);
                        }
                        let at = find_taken(&taken, alias.as_str());
                        assert(taken_model(taken@)[at as int] == (taken@[at as int].0@, taken@[at as int].1@));
                        let holder = taken[at].1.copied();
                        let mut m = text("the alias '");
                        push_str(&mut m, alias.as_str());
                        push_str(&mut m, "' of ");
                        push_str(&mut m, id.as_str());
                        push_str(&mut m, " is a name another command already has; the alias is not projected");
                        let d = Diagnostic {
                            code: text("alias-taken"),
                            fatal: false,
                            message: m,
                            commands: ids2(&id, &holder),
                        };
                        assert(diagnostic_model(d) =~= alias_taken_finding(alias@, id@, holder_or_empty(c.taken, alias@)));
                        let ghost dd2 = diagnostics@;
                        diagnostics.push(d);
                        assert(diagnostic_models(diagnostics@) =~= diagnostic_models(dd2).push(diagnostic_model(d)));
                        assert(alias_step(alias@, program, id@, st).findings == (st.findings + c.findings).push(
                            alias_taken_finding(alias@, id@, holder_or_empty(c.taken, alias@))));
                    }
                },
                None => {},
            }
            assert(diagnostic_models(diagnostics@) =~= diagnostic_models(d_node) + alias_pass(
                aliases.take(j + 1),
                program,
                id@,
                taken0,
            ).findings);
            j += 1;
        }
        assert(aliases.take(count as int) =~= aliases);
        nodes[i].projections.just_aliases = kept;
        assert(diagnostic_models(diagnostics@) =~= r.findings + aliases_pass(infos.take(k + 1), r.taken).findings);
        k += 1;
    }
    assert(infos.take(n as int) =~= infos);
    proof {
        assert forall|o: Seq<usize>| is_visit_order(start, o) implies assigned(start, o, nodes@, diagnostics@) by {
            lemma_visit_order_unique(start, o, order@);
        }
    }
    diagnostics
}


// ------------------------------------------------------------------ laws

/// Is a list of positions a rearrangement of `0..n`?
pub open spec fn is_rearrangement(perm: Seq<int>, n: int) -> bool {
    &&& perm.len() == n
    &&& forall|j: int| 0 <= j < n ==> 0 <= #[trigger] perm[j] < n
    &&& forall|j: int, l: int| 0 <= j < n && 0 <= l < n && j != l ==> #[trigger] perm[j] != #[trigger] perm[l]
    &&& forall|i: int| 0 <= i < n ==> #[trigger] is_hit(perm, i)
}

/// Does some position of a rearrangement go to this one?
pub open spec fn is_hit(perm: Seq<int>, i: int) -> bool {
    exists|j: int| 0 <= j < perm.len() && perm[j] == i
}

/// The naming does not depend on the order the contributors ran in: when one list of
/// commands with distinct identities is a rearrangement of another, the projection visits
/// the same command at every step of both, so every command gets the same names and the
/// findings are the same.
pub proof fn law_the_visit_does_not_depend_on_the_order_of_the_list(
    a: Seq<CommandNode>,
    b: Seq<CommandNode>,
    perm: Seq<int>,
    oa: Seq<usize>,
    ob: Seq<usize>,
)
    requires
        a.len() == b.len(),
        a.len() <= usize::MAX,
        is_rearrangement(perm, a.len() as int),
        forall|j: int| 0 <= j < b.len() ==> #[trigger] b[j] == a[perm[j]],
        forall|i: int, j: int| 0 <= i < a.len() && 0 <= j < a.len() && i != j ==> (#[trigger] a[i]).id@ != (#[trigger] a[j]).id@,
        is_visit_order(a, oa),
        is_visit_order(b, ob),
    ensures
        forall|k: int| 0 <= k < oa.len() ==> b[#[trigger] ob[k] as int] == a[oa[k] as int],
        visit_infos(a, oa) == visit_infos(b, ob),
{
    let n = a.len();
    let o2: Seq<usize> = ob.map_values(|j: usize| perm[j as int] as usize);
    assert forall|k: int| 0 <= k < o2.len() implies (#[trigger] o2[k]) as int == perm[ob[k] as int] by {
        assert(0 <= perm[ob[k] as int] < n);
    }
    assert forall|k: int| 0 <= k < o2.len() implies o2[k] < n by {
        assert(0 <= perm[ob[k] as int] < n);
    }
    assert forall|k: int, l: int| 0 <= k < l < o2.len() implies visits_before(a, #[trigger] o2[k] as int, #[trigger] o2[l] as int) by {
        let x = ob[k] as int;
        let y = ob[l] as int;
        assert(visits_before(b, x, y));
        assert(x != y);
        assert(perm[x] != perm[y]);
        assert(b[x] == a[perm[x]]);
        assert(b[y] == a[perm[y]]);
        assert(o2[k] as int == perm[x]);
        assert(o2[l] as int == perm[y]);
        lemma_key_facts(a[perm[x]].program, a[perm[x]].id@, a[perm[y]].program, a[perm[y]].id@);
    }
    assert forall|k: int, l: int|
        0 <= k < o2.len() && 0 <= l < o2.len() && k != l implies #[trigger] o2[k] != #[trigger] o2[l] by {
        assert(ob[k] != ob[l]);
        assert(perm[ob[k] as int] != perm[ob[l] as int]);
    }
    assert forall|i: int| 0 <= i < n implies #[trigger] appears(o2, i) by {
        assert(is_hit(perm, i));
        let j = choose|j: int| 0 <= j < perm.len() && perm[j] == i;
        assert(appears(ob, j));
        let k = choose|k: int| 0 <= k < ob.len() && ob[k] == j;
        assert(o2[k] as int == i);
    }
    assert(is_visit_order(a, o2));
    lemma_visit_order_unique(a, o2, oa);
    assert forall|k: int| 0 <= k < oa.len() implies b[#[trigger] ob[k] as int] == a[oa[k] as int] by {
        assert(o2[k] == oa[k]);
    }
    assert(visit_infos(a, oa) =~= visit_infos(b, ob));
}


proof fn lemma_prefixed_is_recipe(p: Program, x: Seq<char>)
    requires
        forall|i: int| 0 <= i < x.len() ==> recipe_char(#[trigger] x[i]),
    ensures
        recipe_name(prefix_word(p) + "-"@ + x),
{
    reveal_strlit("rust");
    reveal_strlit("mj");
    reveal_strlit("wf");
    reveal_strlit("-");
    let y = prefix_word(p) + "-"@ + x;
    let w = prefix_word(p);
    assert(w.len() >= 2);
    assert forall|i: int| 0 <= i < y.len() implies recipe_char(#[trigger] y[i]) by {
        if i < w.len() {
            assert(y[i] == w[i]);
        } else if i == w.len() {
            assert(y[i] == '-');
        } else {
            assert(y[i] == x[i - w.len() - 1]);
        }
    }
    assert(y[0] == w[0]);
}

proof fn lemma_claimed_name_is_recipe(
    wanted: Seq<char>,
    program: Program,
    id: Seq<char>,
    taken: Seq<(Seq<char>, Seq<char>)>,
    for_recipe: bool,
)
    ensures
        claim_model(wanted, program, id, taken, for_recipe).name matches Some(n) ==> recipe_name(n),
{
    let cand = candidate_of(wanted, program);
    if !recipe_name(wanted) || reserved(wanted) {
        lemma_sanitised_chars(wanted);
        lemma_prefixed_is_recipe(program, sanitised(wanted));
    }
    assert(recipe_name(cand));
    assert forall|i: int| 0 <= i < cand.len() implies recipe_char(#[trigger] cand[i]) by {}
    lemma_prefixed_is_recipe(program, cand);
}

/// Every recipe name the projection gives out is a name Just can carry.
pub proof fn law_every_recipe_name_is_one_just_can_carry(infos: Seq<NodeInfo>)
    ensures
        forall|k: int|
            0 <= k < infos.len() ==> (#[trigger] recipe_pass(infos).names[k] matches Some(n)
                ==> recipe_name(n)),
    decreases infos.len(),
{
    lemma_recipe_pass_len(infos);
    if infos.len() > 0 {
        let prev = recipe_pass(infos.drop_last());
        law_every_recipe_name_is_one_just_can_carry(infos.drop_last());
        lemma_recipe_pass_len(infos.drop_last());
        let n = infos.last();
        lemma_claimed_name_is_recipe(join_with(n.path, '-'), n.program, n.id, prev.taken, true);
        assert forall|k: int|
            0 <= k < infos.len() implies (#[trigger] recipe_pass(infos).names[k] matches Some(x)
                ==> recipe_name(x)) by {
            if k < infos.len() - 1 {
                assert(recipe_pass(infos).names[k] == prev.names[k]);
            }
        }
    }
}

/// One list of names given out that carries on from another.
pub open spec fn extends(t2: Seq<(Seq<char>, Seq<char>)>, t1: Seq<(Seq<char>, Seq<char>)>) -> bool {
    t1.len() <= t2.len() && t2.take(t1.len() as int) == t1
}

proof fn lemma_holder_kept(
    t1: Seq<(Seq<char>, Seq<char>)>,
    t2: Seq<(Seq<char>, Seq<char>)>,
    name: Seq<char>,
)
    requires
        extends(t2, t1),
        holder_of(t1, name) is Some,
    ensures
        holder_of(t2, name) == holder_of(t1, name),
{
    lemma_find_name_bound(t1, name);
    let k = find_name(t1, name);
    assert forall|j: int| 0 <= j < k implies (#[trigger] t2[j]).0 != name by {
        assert(t2[j] == t2.take(t1.len() as int)[j]);
    }
    assert(t2[k] == t2.take(t1.len() as int)[k]);
    lemma_find_name(t2, name, k);
}

proof fn lemma_holder_pushed(t: Seq<(Seq<char>, Seq<char>)>, name: Seq<char>, id: Seq<char>)
    requires
        holder_of(t, name) is None,
    ensures
        holder_of(t.push((name, id)), name) == Some(id),
{
    lemma_find_name_bound(t, name);
    let t2 = t.push((name, id));
    assert forall|j: int| 0 <= j < t.len() implies (#[trigger] t2[j]).0 != name by {
        assert(t2[j] == t[j]);
        if t[j].0 == name {
            lemma_find_name(t, name, j);
        }
    }
    lemma_find_name(t2, name, t.len() as int);
}

proof fn lemma_extends_trans(
    t1: Seq<(Seq<char>, Seq<char>)>,
    t2: Seq<(Seq<char>, Seq<char>)>,
    t3: Seq<(Seq<char>, Seq<char>)>,
)
    requires
        extends(t2, t1),
        extends(t3, t2),
    ensures
        extends(t3, t1),
{
    assert(t3.take(t1.len() as int) =~= t2.take(t1.len() as int));
}

proof fn lemma_claim_extends(
    wanted: Seq<char>,
    program: Program,
    id: Seq<char>,
    taken: Seq<(Seq<char>, Seq<char>)>,
    for_recipe: bool,
)
    ensures
        extends(claim_model(wanted, program, id, taken, for_recipe).taken, taken),
        claim_model(wanted, program, id, taken, for_recipe).name matches Some(n) ==> holder_of(
            claim_model(wanted, program, id, taken, for_recipe).taken,
            n,
        ) == Some(id),
{
    let c = claim_model(wanted, program, id, taken, for_recipe);
    let cand = candidate_of(wanted, program);
    assert(taken.push((cand, id)).take(taken.len() as int) =~= taken);
    assert(taken.take(taken.len() as int) =~= taken);
    let prefixed = prefix_word(program) + "-"@ + cand;
    assert(taken.push((prefixed, id)).take(taken.len() as int) =~= taken);
    match holder_of(taken, cand) {
        Some(h) => {
            if h != id && holder_of(taken, prefixed) is None {
                lemma_holder_pushed(taken, prefixed, id);
            }
        },
        None => {
            lemma_holder_pushed(taken, cand, id);
        },
    }
}

proof fn lemma_recipe_pass_holders(infos: Seq<NodeInfo>)
    ensures
        recipe_pass(infos).names.len() == infos.len(),
        forall|l: int|
            0 <= l < infos.len() ==> (#[trigger] recipe_pass(infos).names[l] matches Some(x)
                ==> holder_of(recipe_pass(infos).taken, x) == Some(infos[l].id)),
    decreases infos.len(),
{
    lemma_recipe_pass_len(infos);
    if infos.len() > 0 {
        let init = infos.drop_last();
        let prev = recipe_pass(init);
        lemma_recipe_pass_holders(init);
        let n = infos.last();
        let c = claim_model(join_with(n.path, '-'), n.program, n.id, prev.taken, true);
        lemma_claim_extends(join_with(n.path, '-'), n.program, n.id, prev.taken, true);
        assert forall|l: int|
            0 <= l < infos.len() implies (#[trigger] recipe_pass(infos).names[l] matches Some(x)
                ==> holder_of(recipe_pass(infos).taken, x) == Some(infos[l].id)) by {
            if l < infos.len() - 1 {
                assert(recipe_pass(infos).names[l] == prev.names[l]);
                assert(infos[l] == init[l]);
                if prev.names[l] is Some {
                    lemma_holder_kept(prev.taken, c.taken, prev.names[l]->0);
                }
            }
        }
    }
}

proof fn lemma_alias_pass_respects(
    aliases: Seq<Seq<char>>,
    program: Program,
    id: Seq<char>,
    t0: Seq<(Seq<char>, Seq<char>)>,
    base: Seq<(Seq<char>, Seq<char>)>,
)
    requires
        extends(t0, base),
        forall|j: int| 0 <= j < aliases.len() ==> recipe_name(#[trigger] aliases[j]) && !reserved(aliases[j]),
    ensures
        extends(alias_pass(aliases, program, id, t0).taken, t0),
        forall|m: int|
            0 <= m < alias_pass(aliases, program, id, t0).kept.len() ==> (holder_of(
                base,
                #[trigger] alias_pass(aliases, program, id, t0).kept[m],
            ) matches Some(h) ==> h == id),
    decreases aliases.len(),
{
    if aliases.len() == 0 {
        assert(t0.take(t0.len() as int) =~= t0);
    } else {
        let init = aliases.drop_last();
        assert forall|j: int| 0 <= j < init.len() implies recipe_name(#[trigger] init[j]) && !reserved(init[j]) by {
            assert(init[j] == aliases[j]);
        }
        lemma_alias_pass_respects(init, program, id, t0, base);
        let st = alias_pass(init, program, id, t0);
        let x = aliases.last();
        assert(recipe_name(aliases[aliases.len() - 1]));
        let c = claim_model(x, program, id, st.taken, false);
        lemma_claim_extends(x, program, id, st.taken, false);
        lemma_extends_trans(t0, st.taken, c.taken);
        lemma_extends_trans(base, t0, st.taken);
        if c.name == Some(x) {
            if holder_of(base, x) is Some {
                lemma_holder_kept(base, st.taken, x);
                let h = holder_of(base, x)->0;
                if h != id {
                    let prefixed = prefix_word(program) + "-"@ + x;
                    assert(prefixed.len() > x.len());
                }
            }
        }
        let res = alias_pass(aliases, program, id, t0);
        assert forall|m: int| 0 <= m < res.kept.len() implies (holder_of(base, #[trigger] res.kept[m]) matches Some(h) ==> h == id) by {
            if m < st.kept.len() {
                assert(res.kept[m] == st.kept[m]);
            }
        }
    }
}

proof fn lemma_aliases_pass_respects(
    infos: Seq<NodeInfo>,
    t0: Seq<(Seq<char>, Seq<char>)>,
)
    requires
        forall|k: int, j: int|
            0 <= k < infos.len() && 0 <= j < infos[k].aliases.len() ==> recipe_name(
                #[trigger] infos[k].aliases[j],
            ) && !reserved(infos[k].aliases[j]),
    ensures
        extends(aliases_pass(infos, t0).taken, t0),
        aliases_pass(infos, t0).kept.len() == infos.len(),
        forall|k: int, m: int|
            0 <= k < infos.len() && 0 <= m < aliases_pass(infos, t0).kept[k].len() ==> (holder_of(
                t0,
                #[trigger] aliases_pass(infos, t0).kept[k][m],
            ) matches Some(h) ==> h == infos[k].id),
    decreases infos.len(),
{
    lemma_aliases_pass_len(infos, t0);
    if infos.len() == 0 {
        assert(t0.take(t0.len() as int) =~= t0);
    } else {
        let init = infos.drop_last();
        assert forall|k: int, j: int|
            0 <= k < init.len() && 0 <= j < init[k].aliases.len() implies recipe_name(
                #[trigger] init[k].aliases[j],
            ) && !reserved(init[k].aliases[j]) by {
            assert(init[k] == infos[k]);
        }
        lemma_aliases_pass_respects(init, t0);
        let prev = aliases_pass(init, t0);
        let n = infos.last();
        assert forall|j: int| 0 <= j < n.aliases.len() implies recipe_name(#[trigger] n.aliases[j]) && !reserved(n.aliases[j]) by {
            assert(n == infos[infos.len() - 1]);
        }
        lemma_alias_pass_respects(n.aliases, n.program, n.id, prev.taken, t0);
        let a = alias_pass(n.aliases, n.program, n.id, prev.taken);
        lemma_extends_trans(t0, prev.taken, a.taken);
        let res = aliases_pass(infos, t0);
        assert forall|k: int, m: int|
            0 <= k < infos.len() && 0 <= m < res.kept[k].len() implies (holder_of(
                t0,
                #[trigger] res.kept[k][m],
            ) matches Some(h) ==> h == infos[k].id) by {
            if k < infos.len() - 1 {
                assert(res.kept[k] == prev.kept[k]);
                assert(infos[k] == init[k]);
            }
        }
    }
}

/// An alias never takes the name of another command: an alias the projection keeps for
/// one command is never the recipe name of a command with another identity.
pub proof fn law_an_alias_never_takes_a_commands_name(infos: Seq<NodeInfo>, k: int, m: int, l: int)
    requires
        forall|i: int, j: int|
            0 <= i < infos.len() && 0 <= j < infos[i].aliases.len() ==> recipe_name(
                #[trigger] infos[i].aliases[j],
            ) && !reserved(infos[i].aliases[j]),
        0 <= k < infos.len(),
        0 <= l < infos.len(),
        0 <= m < aliases_pass(infos, recipe_pass(infos).taken).kept[k].len(),
        recipe_pass(infos).names[l] == Some(aliases_pass(infos, recipe_pass(infos).taken).kept[k][m]),
    ensures
        infos[l].id == infos[k].id,
{
    let r = recipe_pass(infos);
    lemma_recipe_pass_holders(infos);
    lemma_aliases_pass_respects(infos, r.taken);
    let x = aliases_pass(infos, r.taken).kept[k][m];
    assert(holder_of(r.taken, x) == Some(infos[l].id));
}

proof fn lemma_alias_pass_holds(
    aliases: Seq<Seq<char>>,
    program: Program,
    id: Seq<char>,
    t0: Seq<(Seq<char>, Seq<char>)>,
)
    ensures
        extends(alias_pass(aliases, program, id, t0).taken, t0),
        forall|m: int|
            0 <= m < alias_pass(aliases, program, id, t0).kept.len() ==> holder_of(
                alias_pass(aliases, program, id, t0).taken,
                #[trigger] alias_pass(aliases, program, id, t0).kept[m],
            ) == Some(id),
    decreases aliases.len(),
{
    if aliases.len() == 0 {
        assert(t0.take(t0.len() as int) =~= t0);
    } else {
        let init = aliases.drop_last();
        lemma_alias_pass_holds(init, program, id, t0);
        let st = alias_pass(init, program, id, t0);
        let x = aliases.last();
        let c = claim_model(x, program, id, st.taken, false);
        lemma_claim_extends(x, program, id, st.taken, false);
        lemma_extends_trans(t0, st.taken, c.taken);
        let res = alias_pass(aliases, program, id, t0);
        assert forall|m: int| 0 <= m < res.kept.len() implies holder_of(res.taken, #[trigger] res.kept[m]) == Some(id) by {
            if m < st.kept.len() {
                assert(res.kept[m] == st.kept[m]);
                lemma_holder_kept(st.taken, c.taken, st.kept[m]);
            }
        }
    }
}

proof fn lemma_aliases_pass_holds(infos: Seq<NodeInfo>, t0: Seq<(Seq<char>, Seq<char>)>)
    ensures
        extends(aliases_pass(infos, t0).taken, t0),
        aliases_pass(infos, t0).kept.len() == infos.len(),
        forall|k: int, m: int|
            0 <= k < infos.len() && 0 <= m < aliases_pass(infos, t0).kept[k].len() ==> holder_of(
                aliases_pass(infos, t0).taken,
                #[trigger] aliases_pass(infos, t0).kept[k][m],
            ) == Some(infos[k].id),
    decreases infos.len(),
{
    lemma_aliases_pass_len(infos, t0);
    if infos.len() == 0 {
        assert(t0.take(t0.len() as int) =~= t0);
    } else {
        let init = infos.drop_last();
        lemma_aliases_pass_holds(init, t0);
        let prev = aliases_pass(init, t0);
        let n = infos.last();
        lemma_alias_pass_holds(n.aliases, n.program, n.id, prev.taken);
        let a = alias_pass(n.aliases, n.program, n.id, prev.taken);
        lemma_extends_trans(t0, prev.taken, a.taken);
        let res = aliases_pass(infos, t0);
        assert forall|k: int, m: int| 0 <= k < infos.len() && 0 <= m < res.kept[k].len() implies holder_of(
            res.taken,
            #[trigger] res.kept[k][m],
        ) == Some(infos[k].id) by {
            if k < infos.len() - 1 {
                assert(res.kept[k] == prev.kept[k]);
                assert(infos[k] == init[k]);
                lemma_holder_kept(prev.taken, a.taken, prev.kept[k][m]);
            } else {
                assert(res.kept[k] == a.kept);
            }
        }
    }
}

/// The names of different commands are different: no recipe name, and no alias the
/// projection keeps, is given to two commands of different identities. With identities
/// that are pairwise distinct, a name names one command.
pub proof fn law_no_name_is_given_to_two_commands(infos: Seq<NodeInfo>)
    requires
        forall|i: int, j: int|
            0 <= i < infos.len() && 0 <= j < infos[i].aliases.len() ==> recipe_name(
                #[trigger] infos[i].aliases[j],
            ) && !reserved(infos[i].aliases[j]),
        forall|i: int, j: int| 0 <= i < j < infos.len() ==> (#[trigger] infos[i]).id != (#[trigger] infos[j]).id,
    ensures
        forall|k: int, l: int|
            0 <= k < infos.len() && 0 <= l < infos.len() && (#[trigger] recipe_pass(infos).names[k]) is Some
                && recipe_pass(infos).names[k] == #[trigger] recipe_pass(infos).names[l] ==> k == l,
        forall|k: int, m: int, l: int|
            0 <= k < infos.len() && 0 <= l < infos.len() && 0 <= m < aliases_pass(infos, recipe_pass(infos).taken).kept[k].len()
                && #[trigger] recipe_pass(infos).names[l] == Some(
                #[trigger] aliases_pass(infos, recipe_pass(infos).taken).kept[k][m],
            ) ==> k == l,
        forall|k: int, m: int, l: int, n: int|
            0 <= k < infos.len() && 0 <= l < infos.len() && 0 <= m < aliases_pass(infos, recipe_pass(infos).taken).kept[k].len()
                && 0 <= n < aliases_pass(infos, recipe_pass(infos).taken).kept[l].len()
                && #[trigger] aliases_pass(infos, recipe_pass(infos).taken).kept[k][m]
                == #[trigger] aliases_pass(infos, recipe_pass(infos).taken).kept[l][n] ==> k == l,
        forall|k: int|
            0 <= k < infos.len() ==> (#[trigger] recipe_pass(infos).names[k] matches Some(x) ==> recipe_name(x)),
{
    let r = recipe_pass(infos);
    let a = aliases_pass(infos, r.taken);
    lemma_recipe_pass_holders(infos);
    lemma_aliases_pass_holds(infos, r.taken);
    law_every_recipe_name_is_one_just_can_carry(infos);
    assert forall|k: int, l: int|
        0 <= k < infos.len() && 0 <= l < infos.len() && (#[trigger] r.names[k]) is Some && r.names[k] == #[trigger] r.names[l]
        implies k == l by {
        if k != l {
            let (i, j) = if k < l { (k, l) } else { (l, k) };
            assert(infos[i].id != infos[j].id);
        }
    }
    assert forall|k: int, m: int, l: int|
        0 <= k < infos.len() && 0 <= l < infos.len() && 0 <= m < a.kept[k].len() && #[trigger] r.names[l] == Some(
            #[trigger] a.kept[k][m],
        ) implies k == l by {
        law_an_alias_never_takes_a_commands_name(infos, k, m, l);
        if k != l {
            let (i, j) = if k < l { (k, l) } else { (l, k) };
            assert(infos[i].id != infos[j].id);
        }
    }
    assert forall|k: int, m: int, l: int, n: int|
        0 <= k < infos.len() && 0 <= l < infos.len() && 0 <= m < a.kept[k].len() && 0 <= n < a.kept[l].len()
            && #[trigger] a.kept[k][m] == #[trigger] a.kept[l][n] implies k == l by {
        if k != l {
            let (i, j) = if k < l { (k, l) } else { (l, k) };
            assert(infos[i].id != infos[j].id);
        }
    }
}

} // verus!
