//! The value index: the identifiers this repository's registries own, in one compact
//! document, so that completing an argument costs a file read rather than an index build.
//!
//! Nothing is enumerated here. Every set comes from the registry that owns it — the
//! capability registry, the kind schema, the Why catalogue, the distribution model, the
//! graph itself — and a registry that grows an entry grows this index on the next build
//! with no edit anywhere.

use vstd::prelude::*;

use crate::command::graph::CommandGraph;
use crate::command::model::{Sensitivity, ValueRegistry, registry_key};
use crate::command::projection::{lemma_text_less_irreflexive, lemma_text_less_total, lemma_text_less_transitive, text_before, text_less};
use crate::strings::str_eq;

verus! {

/// The schema of the index document.
pub const SCHEMA: &'static str = "majordomus/completion-values/v1";

/// Where the index lives, relative to the repository root: under the checkout-local half
/// of the layer, which is ignored by git and never normative.
pub const PATH: &'static str = ".ai/local/state/command/values.json";

/// One candidate value with the line a shell shows beside it.
#[derive(Debug, Clone, PartialEq, Eq)]
pub struct Candidate {
    /// The value as it would be typed.
    pub value: String,
    /// What it is, in one line; absent when the registry holds no description.
    pub description: Option<String>,
}

/// A candidate as the contracts see it.
pub open spec fn candidate_view(c: Candidate) -> (Seq<char>, Option<Seq<char>>) {
    (c.value@, crate::cockpit::nav::opt_text(c.description))
}

/// Some candidates as the contracts see them.
pub open spec fn candidate_views(cs: Seq<Candidate>) -> Seq<(Seq<char>, Option<Seq<char>>)> {
    cs.map_values(|c: Candidate| candidate_view(c))
}

impl Candidate {
    /// A candidate with no description.
    pub fn bare(value: &str) -> (r: Self)
        ensures
            r.value@ == value@,
            r.description is None,
    {
        Candidate { value: String::from_str(value), description: None }
    }

    /// A candidate with one.
    pub fn described(value: &str, description: &str) -> (r: Self)
        ensures
            r.value@ == value@,
            r.description matches Some(d) && d@ == description@,
    {
        Candidate { value: String::from_str(value), description: Some(String::from_str(description)) }
    }

    /// The same candidate, as a value of its own.
    pub fn copied(&self) -> (r: Self)
        ensures
            candidate_view(r) == candidate_view(*self),
    {
        Candidate {
            value: String::from_str(self.value.as_str()),
            description: match &self.description {
                Some(d) => Some(String::from_str(d.as_str())),
                None => None,
            },
        }
    }
}

/// The identifiers of every registry, as one document. The candidates are filed by
/// registry key, the keys in order and each once.
#[derive(Debug, Clone, Default, PartialEq, Eq)]
pub struct ValueIndex {
    /// The schema.
    pub schema: String,
    /// The executable that wrote it.
    pub version: String,
    /// The command graph's structure fingerprint when it was written.
    pub structure: String,
    /// The capability registry's fingerprint when it was written; empty when the index was
    /// built without one.
    pub registry: String,
    /// The candidates, by registry key.
    pub values: Vec<(String, Vec<Candidate>)>,
}

/// The position of a key among the filed ones, or the count.
pub open spec fn key_at(values: Seq<(String, Vec<Candidate>)>, key: Seq<char>) -> int
    decreases values.len(),
{
    if values.len() == 0 {
        0
    } else if values[0].0@ == key {
        0
    } else {
        1 + key_at(values.drop_first(), key)
    }
}

/// The candidates filed under a key, or none.
pub open spec fn filed_under(values: Seq<(String, Vec<Candidate>)>, key: Seq<char>) -> Seq<Candidate> {
    let k = key_at(values, key);
    if k < values.len() {
        values[k].1@
    } else {
        seq![]
    }
}

/// The candidates filed under a registry's key, or none.
pub open spec fn filed(values: Seq<(String, Vec<Candidate>)>, registry: ValueRegistry) -> Seq<Candidate> {
    filed_under(values, registry_key(registry))
}

/// Is anything filed under a key?
pub open spec fn has_key(values: Seq<(String, Vec<Candidate>)>, key: Seq<char>) -> bool {
    exists|q: int| 0 <= q < values.len() && values[q].0@ == key
}

/// Are the keys in strictly ascending order, each once?
pub open spec fn keys_ordered(values: Seq<(String, Vec<Candidate>)>) -> bool {
    forall|k: int, l: int| 0 <= k < l < values.len() ==> text_less(#[trigger] values[k].0@, #[trigger] values[l].0@)
}

proof fn lemma_key_at_sorted(values: Seq<(String, Vec<Candidate>)>, key: Seq<char>, q: int)
    requires
        keys_ordered(values),
        0 <= q < values.len(),
        values[q].0@ == key,
    ensures
        key_at(values, key) == q,
{
    assert forall|j: int| 0 <= j < q implies (#[trigger] values[j]).0@ != key by {
        assert(text_less(values[j].0@, values[q].0@));
        lemma_text_less_irreflexive(key);
    }
    lemma_key_at(values, key, q);
}

proof fn lemma_key_at_absent(values: Seq<(String, Vec<Candidate>)>, key: Seq<char>)
    requires
        !has_key(values, key),
    ensures
        key_at(values, key) == values.len(),
{
    assert forall|j: int| 0 <= j < values.len() implies (#[trigger] values[j]).0@ != key by {
        if values[j].0@ == key {
            assert(has_key(values, key));
        }
    }
    lemma_key_at(values, key, values.len() as int);
}

/// File a list under a key, in key order, replacing what was filed there before.
pub fn file_under(values: &mut Vec<(String, Vec<Candidate>)>, key: String, list: Vec<Candidate>)
    requires
        keys_ordered(old(values)@),
    ensures
        keys_ordered(final(values)@),
        has_key(final(values)@, key@),
        filed_under(final(values)@, key@) == list@,
        forall|other: Seq<char>|
            other != key@ ==> has_key(final(values)@, other) == has_key(old(values)@, other) && filed_under(final(values)@, other)
                == filed_under(old(values)@, other),
{
    let ghost before = values@;
    let ghost kv = key@;
    let ghost lv = list@;
    let mut p: usize = 0;
    while p < values.len() && text_before(values[p].0.as_str(), key.as_str())
        invariant
            p <= values@.len(),
            values@ == before,
            key@ == kv,
            forall|j: int| 0 <= j < p ==> text_less((#[trigger] before[j]).0@, kv),
        decreases values.len() - p,
    {
        p += 1;
    }
    if p < values.len() && str_eq(values[p].0.as_str(), key.as_str()) {
        values.set(p, (key, list));
        proof {
            assert forall|j: int| 0 <= j < values@.len() implies (#[trigger] values@[j]).0@ == before[j].0@ by {}
            assert(keys_ordered(values@)) by {
                assert forall|k: int, l: int| 0 <= k < l < values@.len() implies text_less(#[trigger] values@[k].0@, #[trigger] values@[l].0@) by {
                    assert(values@[k].0@ == before[k].0@ && values@[l].0@ == before[l].0@);
                }
            }
            lemma_key_at_sorted(values@, kv, p as int);
            assert(has_key(values@, kv));
            assert forall|other: Seq<char>| other != kv implies has_key(values@, other) == has_key(before, other) && filed_under(values@, other)
                == filed_under(before, other) by {
                if has_key(before, other) {
                    let q = choose|q: int| 0 <= q < before.len() && before[q].0@ == other;
                    assert(values@[q].0@ == other);
                    assert(q != p);
                    lemma_key_at_sorted(before, other, q);
                    lemma_key_at_sorted(values@, other, q);
                    assert(has_key(values@, other));
                } else {
                    lemma_key_at_absent(before, other);
                    if has_key(values@, other) {
                        let q = choose|q: int| 0 <= q < values@.len() && values@[q].0@ == other;
                        assert(before[q].0@ == other);
                    }
                    lemma_key_at_absent(values@, other);
                }
            }
        }
    } else {
        proof {
            if p < before.len() {
                assert(before[p as int].0@ != kv);
                assert(!text_less(before[p as int].0@, kv));
                lemma_text_less_total(before[p as int].0@, kv);
            }
        }
        values.insert(p, (key, list));
        proof {
            assert(values@ == before.insert(p as int, values@[p as int]));
            assert(values@[p as int].0@ == kv);
            assert(keys_ordered(values@)) by {
                assert forall|k: int, l: int| 0 <= k < l < values@.len() implies text_less(#[trigger] values@[k].0@, #[trigger] values@[l].0@) by {
                    if k < p && l < p {
                        assert(values@[k] == before[k] && values@[l] == before[l]);
                    } else if k < p && l == p {
                        assert(values@[k] == before[k]);
                    } else if k < p {
                        assert(values@[k] == before[k] && values@[l] == before[l - 1]);
                        if l - 1 > p {
                            assert(text_less(before[p as int].0@, before[l - 1].0@));
                            lemma_text_less_transitive(kv, before[p as int].0@, before[l - 1].0@);
                        }
                        lemma_text_less_transitive(before[k].0@, kv, before[l - 1].0@);
                    } else if k == p {
                        assert(values@[l] == before[l - 1]);
                        if l - 1 > p {
                            assert(text_less(before[p as int].0@, before[l - 1].0@));
                            lemma_text_less_transitive(kv, before[p as int].0@, before[l - 1].0@);
                        }
                    } else {
                        assert(values@[k] == before[k - 1] && values@[l] == before[l - 1]);
                    }
                }
            }
            lemma_key_at_sorted(values@, kv, p as int);
            assert(has_key(values@, kv));
            assert forall|other: Seq<char>| other != kv implies has_key(values@, other) == has_key(before, other) && filed_under(values@, other)
                == filed_under(before, other) by {
                if has_key(before, other) {
                    let q = choose|q: int| 0 <= q < before.len() && before[q].0@ == other;
                    lemma_key_at_sorted(before, other, q);
                    if q < p {
                        assert(values@[q] == before[q]);
                        lemma_key_at_sorted(values@, other, q);
                    } else {
                        assert(values@[q + 1] == before[q]);
                        lemma_key_at_sorted(values@, other, q + 1);
                    }
                    assert(has_key(values@, other));
                } else {
                    lemma_key_at_absent(before, other);
                    if has_key(values@, other) {
                        let q = choose|q: int| 0 <= q < values@.len() && values@[q].0@ == other;
                        if q < p {
                            assert(values@[q] == before[q]);
                        } else if q > p {
                            assert(values@[q] == before[q - 1]);
                        }
                        assert(has_key(before, other));
                    }
                    lemma_key_at_absent(values@, other);
                }
            }
        }
    }
}

proof fn lemma_key_at(values: Seq<(String, Vec<Candidate>)>, key: Seq<char>, k: int)
    requires
        0 <= k <= values.len(),
        forall|j: int| 0 <= j < k ==> (#[trigger] values[j]).0@ != key,
        k < values.len() ==> values[k].0@ == key,
    ensures
        key_at(values, key) == k,
    decreases k,
{
    if k > 0 {
        let t = values.drop_first();
        assert forall|j: int| 0 <= j < k - 1 implies (#[trigger] t[j]).0@ != key by {
            assert(t[j] == values[j + 1]);
        }
        if k < values.len() {
            assert(t[k - 1] == values[k]);
        }
        assert(values[0].0@ != key);
        lemma_key_at(t, key, k - 1);
    }
}

/// The index that knows nothing: every field empty.
pub open spec fn blank(index: ValueIndex) -> bool {
    &&& index.schema@.len() == 0
    &&& index.version@.len() == 0
    &&& index.structure@.len() == 0
    &&& index.registry@.len() == 0
    &&& index.values@.len() == 0
}

impl ValueIndex {
    /// The index that knows nothing: what completion works from when none was read.
    pub fn empty() -> (r: Self)
        ensures
            blank(r),
    {
        ValueIndex {
            schema: String::new(),
            version: String::new(),
            structure: String::new(),
            registry: String::new(),
            values: Vec::new(),
        }
    }

    /// What a read of the index file yields: the index that was parsed when it has this
    /// schema and was written by this version, and otherwise the empty one. A missing,
    /// truncated or foreign file is never an error: a corrupt cache must never be able to
    /// break a shell.
    pub fn accepted(parsed: Option<ValueIndex>, version: &str) -> (r: Self)
        ensures
            match parsed {
                Some(index) => if index.schema@ == SCHEMA@ && index.version@ == version@ {
                    r == index
                } else {
                    blank(r)
                },
                None => blank(r),
            },
    {
        match parsed {
            Some(index) => {
                if str_eq(index.schema.as_str(), SCHEMA) && str_eq(index.version.as_str(), version) {
                    index
                } else {
                    ValueIndex::empty()
                }
            },
            None => ValueIndex::empty(),
        }
    }

    /// The path of the index inside a checkout.
    pub fn path(root: &str) -> (r: String)
        ensures
            r@ == crate::command::just::joined(root@, PATH@),
    {
        crate::command::just::join_path(root, PATH)
    }

    /// Is this index the one the given graph would produce values for?
    pub fn is_current(&self, structure: &str) -> (r: bool)
        ensures
            r == (self.values@.len() > 0 && self.structure@ == structure@),
    {
        self.values.len() > 0 && str_eq(self.structure.as_str(), structure)
    }

    /// The candidates of one registry, or none.
    pub fn candidates(&self, registry: ValueRegistry) -> (r: &[Candidate])
        ensures
            r@ == filed(self.values@, registry),
    {
        let key = registry.key();
        let mut i: usize = 0;
        while i < self.values.len()
            invariant
                i <= self.values@.len(),
                key@ == registry_key(registry),
                forall|j: int| 0 <= j < i ==> (#[trigger] self.values@[j]).0@ != key@,
            decreases self.values.len() - i,
        {
            if str_eq(self.values[i].0.as_str(), key) {
                proof {
                    lemma_key_at(self.values@, key@, i as int);
                }
                return self.values[i].1.as_slice();
            }
            i += 1;
        }
        proof {
            lemma_key_at(self.values@, key@, self.values@.len() as int);
        }
        &[]
    }
}

/// Is this value safe to offer at all? A value of an argument that carries a credential
/// is never completed, never cached and never rendered — the check is here, once, so that
/// no adapter has to remember it.
pub fn may_offer(sensitivity: Sensitivity) -> (r: bool)
    ensures
        r == (sensitivity == Sensitivity::Public),
{
    matches!(sensitivity, Sensitivity::Public)
}

// ------------------------------------------------------------------ ordering a registry's values

/// The position of the first candidate with a value, or the count.
pub open spec fn first_with(cs: Seq<(Seq<char>, Option<Seq<char>>)>, v: Seq<char>) -> int
    decreases cs.len(),
{
    if cs.len() == 0 {
        0
    } else if cs[0].0 == v {
        0
    } else {
        1 + first_with(cs.drop_first(), v)
    }
}

/// A registry's candidates as the index files them: each value once, the first candidate
/// that had it, in value order.
pub open spec fn ordered_once(out: Seq<Candidate>, input: Seq<(Seq<char>, Option<Seq<char>>)>) -> bool {
    &&& forall|k: int, l: int| 0 <= k < l < out.len() ==> text_less(#[trigger] out[k].value@, #[trigger] out[l].value@)
    &&& forall|k: int|
        0 <= k < out.len() ==> first_with(input, (#[trigger] out[k]).value@) < input.len() && candidate_view(out[k])
            == input[first_with(input, out[k].value@)]
    &&& forall|i: int| 0 <= i < input.len() ==> #[trigger] has_value(out, input[i].0)
}

/// Is a value among some candidates?
pub open spec fn has_value(cs: Seq<Candidate>, v: Seq<char>) -> bool {
    exists|k: int| 0 <= k < cs.len() && cs[k].value@ == v
}

proof fn lemma_first_with(cs: Seq<(Seq<char>, Option<Seq<char>>)>, v: Seq<char>, k: int)
    requires
        0 <= k <= cs.len(),
        forall|j: int| 0 <= j < k ==> (#[trigger] cs[j]).0 != v,
        k < cs.len() ==> cs[k].0 == v,
    ensures
        first_with(cs, v) == k,
    decreases k,
{
    if k > 0 {
        let t = cs.drop_first();
        assert forall|j: int| 0 <= j < k - 1 implies (#[trigger] t[j]).0 != v by {
            assert(t[j] == cs[j + 1]);
        }
        if k < cs.len() {
            assert(t[k - 1] == cs[k]);
        }
        assert(cs[0].0 != v);
        lemma_first_with(t, v, k - 1);
    }
}

proof fn lemma_first_with_bound(cs: Seq<(Seq<char>, Option<Seq<char>>)>, v: Seq<char>)
    ensures
        0 <= first_with(cs, v) <= cs.len(),
        forall|j: int| 0 <= j < first_with(cs, v) ==> (#[trigger] cs[j]).0 != v,
        first_with(cs, v) < cs.len() ==> cs[first_with(cs, v)].0 == v,
    decreases cs.len(),
{
    if cs.len() > 0 && cs[0].0 != v {
        lemma_first_with_bound(cs.drop_first(), v);
        assert forall|j: int| 0 <= j < first_with(cs, v) implies (#[trigger] cs[j]).0 != v by {
            if j > 0 {
                assert(cs[j] == cs.drop_first()[j - 1]);
            }
        }
        if first_with(cs, v) < cs.len() {
            assert(cs[first_with(cs, v)] == cs.drop_first()[first_with(cs, v) - 1]);
        }
    }
}

/// File a registry's candidates: each value once, the first that had it, in value order.
pub fn order_once(input: &Vec<Candidate>) -> (r: Vec<Candidate>)
    ensures
        ordered_once(r@, candidate_views(input@)),
{
    let mut out: Vec<Candidate> = Vec::new();
    let mut i: usize = 0;
    while i < input.len()
        invariant
            i <= input@.len(),
            ordered_once(out@, candidate_views(input@).take(i as int)),
        decreases input.len() - i,
    {
        let c = &input[i];
        let ghost before = out@;
        let ghost pre = candidate_views(input@).take(i as int);
        let ghost now = candidate_views(input@).take(i + 1);
        assert(now.drop_last() =~= pre);
        assert(now[i as int] == candidate_view(input@[i as int]));
        assert forall|j: int| 0 <= j < pre.len() implies pre[j] == now[j] by {}
        let mut p: usize = 0;
        let mut present = false;
        while p < out.len() && !present && !text_before(c.value.as_str(), out[p].value.as_str())
            invariant
                p <= out@.len(),
                out@ == before,
                present ==> p < out@.len() && out@[p as int].value@ == c.value@,
                !present ==> forall|k: int| 0 <= k < p ==> text_less(#[trigger] out@[k].value@, c.value@),
            decreases out@.len() - p + (if present { 0int } else { 1int }),
        {
            if str_eq(out[p].value.as_str(), c.value.as_str()) {
                present = true;
            } else {
                proof {
                    lemma_text_less_total(out@[p as int].value@, c.value@);
                }
                p += 1;
            }
        }
        proof {
            // what was filed stays filed and the first stays the first
            assert forall|k: int| 0 <= k < before.len() implies first_with(now, (#[trigger] before[k]).value@) < now.len()
                && candidate_view(before[k]) == now[first_with(now, before[k].value@)] by {
                let v = before[k].value@;
                lemma_first_with_bound(pre, v);
                let f = first_with(pre, v);
                assert(f < pre.len());
                assert forall|j: int| 0 <= j < f implies (#[trigger] now[j]).0 != v by {
                    assert(now[j] == pre[j]);
                }
                assert(now[f] == pre[f]);
                lemma_first_with(now, v, f);
            }
        }
        if !present {
            proof {
                if p < before.len() {
                    assert(text_less(c.value@, before[p as int].value@));
                }
                assert(!has_value(before, c.value@)) by {
                    if has_value(before, c.value@) {
                        let k = choose|k: int| 0 <= k < before.len() && before[k].value@ == c.value@;
                        if k < p {
                            lemma_text_less_irreflexive(c.value@);
                        } else if k > p {
                            assert(text_less(before[p as int].value@, before[k].value@));
                            lemma_text_less_transitive(c.value@, before[p as int].value@, before[k].value@);
                            lemma_text_less_irreflexive(c.value@);
                        } else {
                            lemma_text_less_irreflexive(c.value@);
                        }
                    }
                }
                assert forall|j: int| 0 <= j < pre.len() implies (#[trigger] pre[j]).0 != c.value@ by {
                    assert(has_value(before, pre[j].0));
                }
                assert forall|j: int| 0 <= j < i implies (#[trigger] now[j]).0 != c.value@ by {
                    assert(now[j] == pre[j]);
                }
                lemma_first_with(now, c.value@, i as int);
            }
            let copy = c.copied();
            out.insert(p, copy);
            proof {
                assert forall|k: int, l: int| 0 <= k < l < out@.len() implies text_less(#[trigger] out@[k].value@, #[trigger] out@[l].value@) by {
                    if k < p && l < p {
                        assert(out@[k] == before[k] && out@[l] == before[l]);
                    } else if k < p && l == p {
                        assert(out@[k] == before[k]);
                    } else if k < p {
                        assert(out@[k] == before[k] && out@[l] == before[l - 1]);
                        assert(text_less(before[k].value@, c.value@));
                        if l - 1 > p {
                            assert(text_less(before[p as int].value@, before[l - 1].value@));
                            lemma_text_less_transitive(c.value@, before[p as int].value@, before[l - 1].value@);
                        }
                        lemma_text_less_transitive(before[k].value@, c.value@, before[l - 1].value@);
                    } else if k == p {
                        assert(out@[l] == before[l - 1]);
                        if l - 1 > p {
                            assert(text_less(before[p as int].value@, before[l - 1].value@));
                            lemma_text_less_transitive(c.value@, before[p as int].value@, before[l - 1].value@);
                        }
                    } else {
                        assert(out@[k] == before[k - 1] && out@[l] == before[l - 1]);
                    }
                }
                assert forall|k: int| 0 <= k < out@.len() implies first_with(now, (#[trigger] out@[k]).value@) < now.len() && candidate_view(out@[k])
                    == now[first_with(now, out@[k].value@)] by {
                    if k < p {
                        assert(out@[k] == before[k]);
                    } else if k > p {
                        assert(out@[k] == before[k - 1]);
                    } else {
                        assert(out@[k] == copy);
                        assert(now[i as int] == candidate_view(input@[i as int]));
                    }
                }
                assert forall|j: int| 0 <= j < now.len() implies #[trigger] has_value(out@, now[j].0) by {
                    if j < i {
                        assert(now[j] == pre[j]);
                        assert(has_value(before, pre[j].0));
                        let k = choose|k: int| 0 <= k < before.len() && before[k].value@ == pre[j].0;
                        if k < p {
                            assert(out@[k] == before[k]);
                        } else {
                            assert(out@[k + 1] == before[k]);
                        }
                    } else {
                        assert(out@[p as int].value@ == now[j].0);
                    }
                }
            }
        } else {
            proof {
                assert forall|j: int| 0 <= j < now.len() implies #[trigger] has_value(out@, now[j].0) by {
                    if j < i {
                        assert(now[j] == pre[j]);
                    } else {
                        assert(out@[p as int].value@ == now[j].0);
                    }
                }
            }
        }
        i += 1;
    }
    assert(candidate_views(input@).take(input@.len() as int) =~= candidate_views(input@));
    out
}

// ------------------------------------------------------------------ building the index

/// An entry of a registry: an identity and its title.
#[derive(Debug, Clone, PartialEq, Eq)]
pub struct Titled {
    /// The identity, as it would be typed.
    pub id: String,
    /// What it is, in one line.
    pub title: String,
}

/// An object of the repository's index, as far as the value index reads it.
#[derive(Debug, Clone, PartialEq, Eq)]
pub struct IndexedObject {
    /// Its kind.
    pub kind: String,
    /// Its identity.
    pub identity: String,
    /// Its title, when it has one.
    pub title: Option<String>,
}

/// What the index is built from: the registries that own the identifiers.
#[derive(Debug, Clone, PartialEq, Eq)]
pub struct Sources {
    /// The capability registry.
    pub capabilities: Vec<Titled>,
    /// The capability modules.
    pub modules: Vec<Titled>,
    /// The objects of the repository index.
    pub objects: Vec<IndexedObject>,
    /// The Why catalogue's moments.
    pub moments: Vec<Titled>,
    /// The Why catalogue's audiences.
    pub audiences: Vec<Titled>,
    /// The Why catalogue's areas.
    pub areas: Vec<Titled>,
    /// The distribution model's targets, each titled with its Rust target; absent when the
    /// repository has no distribution model.
    pub distribution: Option<Vec<Titled>>,
    /// The capability registry's fingerprint.
    pub registry: String,
}

/// Titled entries as candidates.
pub open spec fn titled_views(ts: Seq<Titled>) -> Seq<(Seq<char>, Option<Seq<char>>)> {
    ts.map_values(|t: Titled| (t.id@, Some(t.title@)))
}

/// The kind of every object, in index order, repeats included.
pub open spec fn kind_views(objects: Seq<IndexedObject>) -> Seq<(Seq<char>, Option<Seq<char>>)> {
    objects.map_values(|o: IndexedObject| (o.kind@, None::<Seq<char>>))
}

/// An object as a candidate: its identity, titled with its title or else its identity.
pub open spec fn object_view(o: IndexedObject) -> (Seq<char>, Option<Seq<char>>) {
    (
        o.identity@,
        Some(
            match o.title {
                Some(t) => t@,
                None => o.identity@,
            },
        ),
    )
}

/// The objects of one kind as candidates, in index order.
pub open spec fn of_kind(objects: Seq<IndexedObject>, kind: Seq<char>) -> Seq<(Seq<char>, Option<Seq<char>>)>
    decreases objects.len(),
{
    if objects.len() == 0 {
        seq![]
    } else {
        let rest = of_kind(objects.drop_last(), kind);
        if objects.last().kind@ == kind {
            rest.push(object_view(objects.last()))
        } else {
            rest
        }
    }
}

/// The commands as candidates: identity and summary.
pub open spec fn command_views(commands: Seq<crate::command::model::CommandNode>) -> Seq<(Seq<char>, Option<Seq<char>>)> {
    commands.map_values(|c: crate::command::model::CommandNode| (c.id@, Some(c.summary@)))
}

/// What a registry contributes to the index, before ordering; none for a registry whose
/// values are not indexed (they are completed from elsewhere).
pub open spec fn registry_values(
    src: Sources,
    commands: Seq<crate::command::model::CommandNode>,
    registry: ValueRegistry,
) -> Option<Seq<(Seq<char>, Option<Seq<char>>)>> {
    match registry {
        ValueRegistry::Capability => Some(titled_views(src.capabilities@)),
        ValueRegistry::Module => Some(titled_views(src.modules@)),
        ValueRegistry::Command => Some(command_views(commands)),
        ValueRegistry::ObjectKind => Some(kind_views(src.objects@)),
        ValueRegistry::Moment => Some(titled_views(src.moments@)),
        ValueRegistry::Audience => Some(titled_views(src.audiences@)),
        ValueRegistry::Area => Some(titled_views(src.areas@)),
        ValueRegistry::DistributionTarget => Some(
            match src.distribution {
                Some(ts) => titled_views(ts@),
                None => seq![],
            },
        ),
        ValueRegistry::Skill => Some(of_kind(src.objects@, "skill"@)),
        ValueRegistry::Rule => Some(of_kind(src.objects@, "rule"@)),
        _ => None,
    }
}

/// What the index files for a registry: its values each once, in value order, the first
/// candidate of each value kept; nothing for a registry that is not indexed.
pub open spec fn indexes(
    values: Seq<(String, Vec<Candidate>)>,
    src: Sources,
    commands: Seq<crate::command::model::CommandNode>,
    registry: ValueRegistry,
) -> bool {
    match registry_values(src, commands, registry) {
        Some(list) => has_key(values, registry_key(registry)) && ordered_once(filed(values, registry), list),
        None => !has_key(values, registry_key(registry)),
    }
}

/// The position of a registry in the stable order.
pub open spec fn registry_position(r: ValueRegistry) -> int {
    match r {
        ValueRegistry::Capability => 0,
        ValueRegistry::Command => 1,
        ValueRegistry::Module => 2,
        ValueRegistry::ObjectKind => 3,
        ValueRegistry::Moment => 4,
        ValueRegistry::Audience => 5,
        ValueRegistry::Area => 6,
        ValueRegistry::DistributionTarget => 7,
        ValueRegistry::WebSurface => 8,
        ValueRegistry::Graph => 9,
        ValueRegistry::Skill => 10,
        ValueRegistry::Rule => 11,
        ValueRegistry::Branch => 12,
    }
}

proof fn lemma_registry_position(i: int)
    requires
        0 <= i < 13,
    ensures
        registry_position(crate::command::model::registries()[i]) == i,
{
    let r = crate::command::model::registries();
    if i == 0 {
        assert(r[0] == ValueRegistry::Capability);
    } else if i == 1 {
        assert(r[1] == ValueRegistry::Command);
    } else if i == 2 {
        assert(r[2] == ValueRegistry::Module);
    } else if i == 3 {
        assert(r[3] == ValueRegistry::ObjectKind);
    } else if i == 4 {
        assert(r[4] == ValueRegistry::Moment);
    } else if i == 5 {
        assert(r[5] == ValueRegistry::Audience);
    } else if i == 6 {
        assert(r[6] == ValueRegistry::Area);
    } else if i == 7 {
        assert(r[7] == ValueRegistry::DistributionTarget);
    } else if i == 8 {
        assert(r[8] == ValueRegistry::WebSurface);
    } else if i == 9 {
        assert(r[9] == ValueRegistry::Graph);
    } else if i == 10 {
        assert(r[10] == ValueRegistry::Skill);
    } else if i == 11 {
        assert(r[11] == ValueRegistry::Rule);
    } else {
        assert(r[12] == ValueRegistry::Branch);
    }
}

proof fn lemma_registry_keys_distinct(a: ValueRegistry, b: ValueRegistry)
    requires
        a != b,
    ensures
        registry_key(a) != registry_key(b),
{
    reveal_strlit("capability");
    reveal_strlit("command");
    reveal_strlit("module");
    reveal_strlit("object-kind");
    reveal_strlit("moment");
    reveal_strlit("audience");
    reveal_strlit("area");
    reveal_strlit("distribution-target");
    reveal_strlit("web-surface");
    reveal_strlit("graph");
    reveal_strlit("skill");
    reveal_strlit("rule");
    reveal_strlit("branch");
    if registry_key(a) == registry_key(b) {
        let ka = registry_key(a);
        let kb = registry_key(b);
        assert(ka.len() == kb.len());
        assert(ka[0] == kb[0]);
        assert(ka[ka.len() - 1] == kb[kb.len() - 1]);
        assert(ka.len() > 2 ==> ka[2] == kb[2]);
    }
}

/// Titled entries as candidates.
fn titled(ts: &Vec<Titled>) -> (r: Vec<Candidate>)
    ensures
        candidate_views(r@) == titled_views(ts@),
{
    let mut r: Vec<Candidate> = Vec::new();
    for i in 0..ts.len()
        invariant
            candidate_views(r@) == titled_views(ts@.take(i as int)),
    {
        r.push(Candidate::described(ts[i].id.as_str(), ts[i].title.as_str()));
        assert(titled_views(ts@.take(i + 1)) =~= titled_views(ts@.take(i as int)).push((ts@[i as int].id@, Some(ts@[i as int].title@))));
        assert(candidate_views(r@) =~= candidate_views(r@.drop_last()).push(candidate_view(r@.last())));
    }
    assert(ts@.take(ts@.len() as int) =~= ts@);
    r
}

/// The kind of every object as a bare candidate.
fn kinds(objects: &Vec<IndexedObject>) -> (r: Vec<Candidate>)
    ensures
        candidate_views(r@) == kind_views(objects@),
{
    let mut r: Vec<Candidate> = Vec::new();
    for i in 0..objects.len()
        invariant
            candidate_views(r@) == kind_views(objects@.take(i as int)),
    {
        r.push(Candidate::bare(objects[i].kind.as_str()));
        assert(kind_views(objects@.take(i + 1)) =~= kind_views(objects@.take(i as int)).push((objects@[i as int].kind@, None::<Seq<char>>)));
        assert(candidate_views(r@) =~= candidate_views(r@.drop_last()).push(candidate_view(r@.last())));
    }
    assert(objects@.take(objects@.len() as int) =~= objects@);
    r
}

/// The objects of one kind as candidates.
fn objects_of_kind(objects: &Vec<IndexedObject>, kind: &str) -> (r: Vec<Candidate>)
    ensures
        candidate_views(r@) == of_kind(objects@, kind@),
{
    let mut r: Vec<Candidate> = Vec::new();
    for i in 0..objects.len()
        invariant
            candidate_views(r@) == of_kind(objects@.take(i as int), kind@),
    {
        let o = &objects[i];
        assert(objects@.take(i + 1).drop_last() =~= objects@.take(i as int));
        if str_eq(o.kind.as_str(), kind) {
            let title = match &o.title {
                Some(t) => t.as_str(),
                None => o.identity.as_str(),
            };
            r.push(Candidate::described(o.identity.as_str(), title));
            assert(candidate_views(r@) =~= candidate_views(r@.drop_last()).push(candidate_view(r@.last())));
        }
    }
    assert(objects@.take(objects@.len() as int) =~= objects@);
    r
}

/// The commands as candidates.
fn commands_of(commands: &Vec<crate::command::model::CommandNode>) -> (r: Vec<Candidate>)
    ensures
        candidate_views(r@) == command_views(commands@),
{
    let mut r: Vec<Candidate> = Vec::new();
    for i in 0..commands.len()
        invariant
            candidate_views(r@) == command_views(commands@.take(i as int)),
    {
        r.push(Candidate::described(commands[i].id.as_str(), commands[i].summary.as_str()));
        assert(command_views(commands@.take(i + 1)) =~= command_views(commands@.take(i as int)).push(
            (commands@[i as int].id@, Some(commands@[i as int].summary@)),
        ));
        assert(candidate_views(r@) =~= candidate_views(r@.drop_last()).push(candidate_view(r@.last())));
    }
    assert(commands@.take(commands@.len() as int) =~= commands@);
    r
}

/// What one registry contributes, before ordering.
fn values_of(src: &Sources, graph: &CommandGraph, registry: ValueRegistry) -> (r: Option<Vec<Candidate>>)
    ensures
        match (r, registry_values(*src, graph.commands@, registry)) {
            (Some(v), Some(l)) => candidate_views(v@) == l,
            (None, None) => true,
            _ => false,
        },
{
    match registry {
        ValueRegistry::Capability => Some(titled(&src.capabilities)),
        ValueRegistry::Module => Some(titled(&src.modules)),
        ValueRegistry::Command => Some(commands_of(&graph.commands)),
        ValueRegistry::ObjectKind => Some(kinds(&src.objects)),
        ValueRegistry::Moment => Some(titled(&src.moments)),
        ValueRegistry::Audience => Some(titled(&src.audiences)),
        ValueRegistry::Area => Some(titled(&src.areas)),
        ValueRegistry::DistributionTarget => match &src.distribution {
            Some(ts) => Some(titled(ts)),
            None => {
                let v: Vec<Candidate> = Vec::new();
                assert(candidate_views(v@) =~= seq![]);
                Some(v)
            },
        },
        ValueRegistry::Skill => Some(objects_of_kind(&src.objects, "skill")),
        ValueRegistry::Rule => Some(objects_of_kind(&src.objects, "rule")),
        _ => None,
    }
}

/// Build the index from the registries that own the identifiers: every indexed registry
/// filed under its key, its values each once and in order, and nothing else.
pub fn build(src: &Sources, graph: &CommandGraph, version: &str) -> (r: ValueIndex)
    ensures
        r.schema@ == SCHEMA@,
        r.version@ == version@,
        r.structure@ == graph.structure@,
        r.registry@ == src.registry@,
        keys_ordered(r.values@),
        forall|reg: ValueRegistry| indexes(r.values@, *src, graph.commands@, reg),
        forall|key: Seq<char>| has_key(r.values@, key) ==> exists|reg: ValueRegistry| key == registry_key(reg),
{
    let regs = ValueRegistry::all();
    let mut values: Vec<(String, Vec<Candidate>)> = Vec::new();
    let ghost cmds = graph.commands@;
    for i in 0..regs.len()
        invariant
            regs@ == crate::command::model::registries(),
            cmds == graph.commands@,
            keys_ordered(values@),
            forall|reg: ValueRegistry| registry_position(reg) < i ==> indexes(values@, *src, cmds, reg),
            forall|reg: ValueRegistry| registry_position(reg) >= i ==> !has_key(values@, registry_key(reg)),
            forall|key: Seq<char>|
                has_key(values@, key) ==> exists|reg: ValueRegistry| registry_position(reg) < i && key == registry_key(reg),
    {
        let reg = regs[i];
        proof {
            lemma_registry_position(i as int);
        }
        let ghost before = values@;
        match values_of(src, graph, reg) {
            Some(list) => {
                let ordered = order_once(&list);
                file_under(&mut values, String::from_str(reg.key()), ordered);
                proof {
                    assert forall|other: ValueRegistry| registry_position(other) < i + 1 implies indexes(values@, *src, cmds, other) by {
                        if other != reg {
                            assert(registry_position(other) < i);
                            assert(indexes(before, *src, cmds, other));
                            lemma_registry_keys_distinct(other, reg);
                            assert(has_key(values@, registry_key(other)) == has_key(before, registry_key(other)));
                            assert(filed(values@, other) == filed(before, other));
                        } else {
                            assert(filed(values@, reg) == ordered@);
                        }
                    }
                    assert forall|other: ValueRegistry| registry_position(other) >= i + 1 implies !has_key(values@, registry_key(other)) by {
                        lemma_registry_keys_distinct(other, reg);
                    }
                    assert forall|key: Seq<char>| has_key(values@, key) implies exists|g: ValueRegistry| registry_position(g) < i + 1 && key == registry_key(g) by {
                        if key != registry_key(reg) {
                            assert(has_key(before, key));
                        }
                    }
                }
            },
            None => {},
        }
    }
    proof {
        assert forall|reg: ValueRegistry| indexes(values@, *src, cmds, reg) by {
            assert(registry_position(reg) < 13);
        }
    }
    ValueIndex {
        schema: String::from_str(SCHEMA),
        version: String::from_str(version),
        structure: String::from_str(graph.structure.as_str()),
        registry: String::from_str(src.registry.as_str()),
        values,
    }
}

} // verus!
