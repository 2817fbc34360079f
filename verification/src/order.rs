//! The canonical order of what a reader scans: labels case-folded, so that `API` sits with
//! `Artifacts`, and runs of digits compared by their value, so that `item 9` comes before
//! `item 10`.

use vstd::prelude::*;

use crate::strings::{ascii_lower, is_ascii_digit, is_ascii_upper, to_ascii_lower};

verus! {

/// The number of digits a text starts with.
pub open spec fn digit_run(s: Seq<char>) -> int
    decreases s.len(),
{
    if s.len() > 0 && is_ascii_digit(s[0]) {
        1 + digit_run(s.drop_first())
    } else {
        0
    }
}

/// The number of zeros a text starts with.
pub open spec fn zero_run(s: Seq<char>) -> int
    decreases s.len(),
{
    if s.len() > 0 && s[0] == '0' {
        1 + zero_run(s.drop_first())
    } else {
        0
    }
}

/// Two texts compared character by character: -1, 0 or 1.
pub open spec fn plain_rank(a: Seq<char>, b: Seq<char>) -> int
    decreases a.len(),
{
    if a.len() == 0 && b.len() == 0 {
        0
    } else if a.len() == 0 {
        -1
    } else if b.len() == 0 {
        1
    } else if a[0] < b[0] {
        -1
    } else if a[0] > b[0] {
        1
    } else {
        plain_rank(a.drop_first(), b.drop_first())
    }
}

/// Two runs of digits compared by value: -1, 0 or 1.
pub open spec fn value_rank(a: Seq<char>, b: Seq<char>) -> int {
    let x = a.skip(zero_run(a));
    let y = b.skip(zero_run(b));
    if x.len() < y.len() {
        -1
    } else if x.len() > y.len() {
        1
    } else {
        plain_rank(x, y)
    }
}

/// Two labels in the canonical order: -1, 0 or 1. Letters are compared case-folded, and
/// runs of digits by their value.
pub open spec fn natural_rank(a: Seq<char>, b: Seq<char>) -> int
    decreases a.len() + b.len(),
{
    if a.len() == 0 && b.len() == 0 {
        0
    } else if a.len() == 0 {
        -1
    } else if b.len() == 0 {
        1
    } else if is_ascii_digit(a[0]) && is_ascii_digit(b[0]) {
        let ra = digit_run(a);
        let rb = digit_run(b);
        proof {
            lemma_digit_run(a);
            lemma_digit_run(b);
        }
        let c = value_rank(a.take(ra), b.take(rb));
        if c != 0 {
            c
        } else {
            natural_rank(a.skip(ra), b.skip(rb))
        }
    } else if ascii_lower(a[0]) < ascii_lower(b[0]) {
        -1
    } else if ascii_lower(a[0]) > ascii_lower(b[0]) {
        1
    } else {
        natural_rank(a.drop_first(), b.drop_first())
    }
}

/// A digit run is part of its text, and a text that starts with a digit has one.
pub proof fn lemma_digit_run(s: Seq<char>)
    ensures
        0 <= digit_run(s) <= s.len(),
        s.len() > 0 && is_ascii_digit(s[0]) ==> digit_run(s) >= 1,
        forall|i: int| 0 <= i < digit_run(s) ==> is_ascii_digit(#[trigger] s[i]),
        digit_run(s) < s.len() ==> !is_ascii_digit(s[digit_run(s)]),
    decreases s.len(),
{
    if s.len() > 0 && is_ascii_digit(s[0]) {
        lemma_digit_run(s.drop_first());
        assert forall|i: int| 0 <= i < digit_run(s) implies is_ascii_digit(#[trigger] s[i]) by {
            if i > 0 {
                assert(s[i] == s.drop_first()[i - 1]);
            }
        }
        if digit_run(s) < s.len() {
            assert(s[digit_run(s)] == s.drop_first()[digit_run(s) - 1]);
        }
    }
}

proof fn lemma_zero_run(s: Seq<char>)
    ensures
        0 <= zero_run(s) <= s.len(),
    decreases s.len(),
{
    if s.len() > 0 && s[0] == '0' {
        lemma_zero_run(s.drop_first());
    }
}

proof fn lemma_plain_rank_antisymmetric(a: Seq<char>, b: Seq<char>)
    ensures
        plain_rank(a, b) == -plain_rank(b, a),
        -1 <= plain_rank(a, b) <= 1,
    decreases a.len(),
{
    if a.len() > 0 && b.len() > 0 && a[0] == b[0] {
        lemma_plain_rank_antisymmetric(a.drop_first(), b.drop_first());
    }
}

/// The canonical order is antisymmetric: if one label comes before another, the other
/// comes after it.
pub proof fn lemma_natural_rank_antisymmetric(a: Seq<char>, b: Seq<char>)
    ensures
        natural_rank(a, b) == -natural_rank(b, a),
        -1 <= natural_rank(a, b) <= 1,
    decreases a.len() + b.len(),
{
    if a.len() > 0 && b.len() > 0 {
        if is_ascii_digit(a[0]) && is_ascii_digit(b[0]) {
            lemma_digit_run(a);
            lemma_digit_run(b);
            let ra = digit_run(a);
            let rb = digit_run(b);
            let x = a.take(ra);
            let y = b.take(rb);
            lemma_zero_run(x);
            lemma_zero_run(y);
            lemma_plain_rank_antisymmetric(x.skip(zero_run(x)), y.skip(zero_run(y)));
            lemma_natural_rank_antisymmetric(a.skip(ra), b.skip(rb));
        } else if ascii_lower(a[0]) == ascii_lower(b[0]) {
            lemma_natural_rank_antisymmetric(a.drop_first(), b.drop_first());
        }
    }
}

fn digit_run_of(s: &Vec<char>, from: usize) -> (r: usize)
    requires
        from <= s@.len(),
    ensures
        from + digit_run(s@.skip(from as int)) == r,
        r <= s@.len(),
{
    let mut i = from;
    while i < s.len() && '0' <= s[i] && s[i] <= '9'
        invariant
            from <= i <= s@.len(),
            forall|k: int| from <= k < i ==> is_ascii_digit(#[trigger] s@[k]),
        decreases s.len() - i,
    {
        i += 1;
    }
    proof {
        lemma_digit_run_exact(s@.skip(from as int), (i - from) as int);
    }
    i
}

proof fn lemma_digit_run_exact(s: Seq<char>, k: int)
    requires
        0 <= k <= s.len(),
        forall|j: int| 0 <= j < k ==> is_ascii_digit(#[trigger] s[j]),
        k < s.len() ==> !is_ascii_digit(s[k]),
    ensures
        digit_run(s) == k,
    decreases k,
{
    if k > 0 {
        let t = s.drop_first();
        assert forall|j: int| 0 <= j < k - 1 implies is_ascii_digit(#[trigger] t[j]) by {
            assert(t[j] == s[j + 1]);
        }
        if k < s.len() {
            assert(t[k - 1] == s[k]);
        }
        assert(is_ascii_digit(s[0]));
        lemma_digit_run_exact(t, k - 1);
    } else if s.len() > 0 {
        assert(!is_ascii_digit(s[0]));
    }
}

proof fn lemma_zero_run_exact(s: Seq<char>, k: int)
    requires
        0 <= k <= s.len(),
        forall|j: int| 0 <= j < k ==> #[trigger] s[j] == '0',
        k < s.len() ==> s[k] != '0',
    ensures
        zero_run(s) == k,
    decreases k,
{
    if k > 0 {
        let t = s.drop_first();
        assert forall|j: int| 0 <= j < k - 1 implies #[trigger] t[j] == '0' by {
            assert(t[j] == s[j + 1]);
        }
        if k < s.len() {
            assert(t[k - 1] == s[k]);
        }
        lemma_zero_run_exact(t, k - 1);
    }
}

fn value_compare(a: &Vec<char>, a0: usize, a1: usize, b: &Vec<char>, b0: usize, b1: usize) -> (r: i8)
    requires
        a0 <= a1 <= a@.len(),
        b0 <= b1 <= b@.len(),
    ensures
        r as int == value_rank(a@.subrange(a0 as int, a1 as int), b@.subrange(b0 as int, b1 as int)),
{
    let ghost x = a@.subrange(a0 as int, a1 as int);
    let ghost y = b@.subrange(b0 as int, b1 as int);
    let mut i = a0;
    while i < a1 && a[i] == '0'
        invariant
            a0 <= i <= a1,
            a1 <= a@.len(),
            forall|k: int| a0 <= k < i ==> a@[k] == '0',
        decreases a1 - i,
    {
        i += 1;
    }
    let mut j = b0;
    while j < b1 && b[j] == '0'
        invariant
            b0 <= j <= b1,
            b1 <= b@.len(),
            forall|k: int| b0 <= k < j ==> b@[k] == '0',
        decreases b1 - j,
    {
        j += 1;
    }
    proof {
        assert forall|k: int| 0 <= k < i - a0 implies #[trigger] x[k] == '0' by {
            assert(x[k] == a@[a0 + k]);
        }
        if i < a1 {
            assert(x[i - a0] == a@[i as int]);
        }
        lemma_zero_run_exact(x, (i - a0) as int);
        assert forall|k: int| 0 <= k < j - b0 implies #[trigger] y[k] == '0' by {
            assert(y[k] == b@[b0 + k]);
        }
        if j < b1 {
            assert(y[j - b0] == b@[j as int]);
        }
        lemma_zero_run_exact(y, (j - b0) as int);
        assert(x.skip(zero_run(x)) =~= a@.subrange(i as int, a1 as int));
        assert(y.skip(zero_run(y)) =~= b@.subrange(j as int, b1 as int));
    }
    let la = a1 - i;
    let lb = b1 - j;
    assert(a@.subrange(i + 0, a1 as int) =~= a@.subrange(i as int, a1 as int));
    assert(b@.subrange(j + 0, b1 as int) =~= b@.subrange(j as int, b1 as int));
    if la < lb {
        return -1;
    }
    if la > lb {
        return 1;
    }
    let mut k: usize = 0;
    while k < la
        invariant
            la == lb,
            la == a1 - i,
            lb == b1 - j,
            i <= a1 <= a@.len(),
            j <= b1 <= b@.len(),
            k <= la,
            x == a@.subrange(a0 as int, a1 as int),
            y == b@.subrange(b0 as int, b1 as int),
            value_rank(x, y) == plain_rank(
                a@.subrange(i + k, a1 as int),
                b@.subrange(j + k, b1 as int),
            ),
        decreases la - k,
    {
        let c = a[i + k];
        let d = b[j + k];
        assert(a@.subrange(i + k, a1 as int)[0] == c);
        assert(b@.subrange(j + k, b1 as int)[0] == d);
        if c < d {
            return -1;
        }
        if c > d {
            return 1;
        }
        assert(a@.subrange(i + k, a1 as int).drop_first() =~= a@.subrange(i + k + 1, a1 as int));
        assert(b@.subrange(j + k, b1 as int).drop_first() =~= b@.subrange(j + k + 1, b1 as int));
        k += 1;
    }
    assert(a@.subrange(i + k, a1 as int).len() == 0);
    assert(b@.subrange(j + k, b1 as int).len() == 0);
    0
}

/// Compare two labels in the canonical order: -1, 0 or 1.
pub fn natural_compare(a: &str, b: &str) -> (r: i8)
    ensures
        r as int == natural_rank(a@, b@),
{
    let x = crate::strings::chars_of(a);
    let y = crate::strings::chars_of(b);
    let mut i: usize = 0;
    let mut j: usize = 0;
    assert(x@.skip(0) =~= x@);
    assert(y@.skip(0) =~= y@);
    loop
        invariant
            x@ == a@,
            y@ == b@,
            i <= x@.len(),
            j <= y@.len(),
            natural_rank(a@, b@) == natural_rank(x@.skip(i as int), y@.skip(j as int)),
        decreases x@.len() + y@.len() - i - j,
    {
        let ghost s = x@.skip(i as int);
        let ghost t = y@.skip(j as int);
        if i == x.len() && j == y.len() {
            return 0;
        }
        if i == x.len() {
            return -1;
        }
        if j == y.len() {
            return 1;
        }
        let c = x[i];
        let d = y[j];
        assert(s[0] == c);
        assert(t[0] == d);
        if '0' <= c && c <= '9' && '0' <= d && d <= '9' {
            let ei = digit_run_of(&x, i);
            let ej = digit_run_of(&y, j);
            proof {
                lemma_digit_run(s);
                lemma_digit_run(t);
                assert(s.take(digit_run(s)) =~= x@.subrange(i as int, ei as int));
                assert(t.take(digit_run(t)) =~= y@.subrange(j as int, ej as int));
                assert(s.skip(digit_run(s)) =~= x@.skip(ei as int));
                assert(t.skip(digit_run(t)) =~= y@.skip(ej as int));
            }
            let v = value_compare(&x, i, ei, &y, j, ej);
            if v != 0 {
                return v;
            }
            i = ei;
            j = ej;
        } else {
            let lc = to_ascii_lower(c);
            let ld = to_ascii_lower(d);
            if lc < ld {
                return -1;
            }
            if lc > ld {
                return 1;
            }
            assert(s.drop_first() =~= x@.skip(i + 1));
            assert(t.drop_first() =~= y@.skip(j + 1));
            i += 1;
            j += 1;
        }
    }
}


/// Plain text order is antisymmetric.
pub proof fn lemma_plain_rank_antisymmetric_pub(a: Seq<char>, b: Seq<char>)
    ensures
        plain_rank(a, b) == -plain_rank(b, a),
        -1 <= plain_rank(a, b) <= 1,
{
    lemma_plain_rank_antisymmetric(a, b);
}

/// Compare two texts character by character: -1, 0 or 1.
pub fn plain_compare(a: &str, b: &str) -> (r: i8)
    ensures
        r as int == plain_rank(a@, b@),
{
    let n = a.unicode_len();
    let m = b.unicode_len();
    let mut i: usize = 0;
    assert(a@.skip(0) =~= a@);
    assert(b@.skip(0) =~= b@);
    while i < n && i < m
        invariant
            n == a@.len(),
            m == b@.len(),
            i <= n,
            i <= m,
            plain_rank(a@, b@) == plain_rank(a@.skip(i as int), b@.skip(i as int)),
        decreases n - i,
    {
        let x = a.get_char(i);
        let y = b.get_char(i);
        assert(a@.skip(i as int)[0] == x);
        assert(b@.skip(i as int)[0] == y);
        if x < y {
            return -1;
        }
        if x > y {
            return 1;
        }
        assert(a@.skip(i as int).drop_first() =~= a@.skip(i + 1));
        assert(b@.skip(i as int).drop_first() =~= b@.skip(i + 1));
        i += 1;
    }
    if i == n && i == m {
        0
    } else if i == n {
        -1
    } else {
        1
    }
}

// ------------------------------------------------------------------ laws of the order

/// A text with every ASCII capital in lower case.
pub open spec fn folded(s: Seq<char>) -> Seq<char> {
    s.map_values(|c: char| ascii_lower(c))
}

/// Does a text hold no ASCII digit?
pub open spec fn digitless(s: Seq<char>) -> bool {
    forall|i: int| 0 <= i < s.len() ==> !is_ascii_digit(#[trigger] s[i])
}

proof fn lemma_lower_char(c: char)
    ensures
        is_ascii_digit(ascii_lower(c)) == is_ascii_digit(c),
        ascii_lower(ascii_lower(c)) == ascii_lower(c),
        is_ascii_digit(c) ==> ascii_lower(c) == c,
{
    if is_ascii_upper(c) {
        let u = (c as u32) + 32;
        assert(0x61 <= u <= 0x7a);
        assert((u as char) as u32 == u);
    }
}

proof fn lemma_folded_steps(s: Seq<char>)
    requires
        s.len() > 0,
    ensures
        folded(s).len() == s.len(),
        folded(s)[0] == ascii_lower(s[0]),
        folded(s).drop_first() == folded(s.drop_first()),
{
    assert(folded(s).drop_first() =~= folded(s.drop_first()));
}

proof fn lemma_folded_digit_run(s: Seq<char>)
    ensures
        digit_run(folded(s)) == digit_run(s),
        folded(s).take(digit_run(s)) == s.take(digit_run(s)),
        folded(s).skip(digit_run(s)) == folded(s.skip(digit_run(s))),
    decreases s.len(),
{
    lemma_digit_run(s);
    if s.len() > 0 {
        lemma_folded_steps(s);
        lemma_lower_char(s[0]);
        if is_ascii_digit(s[0]) {
            lemma_folded_digit_run(s.drop_first());
            let k = digit_run(s);
            assert forall|i: int| 0 <= i < k implies #[trigger] folded(s).take(k)[i] == s.take(k)[i] by {
                lemma_lower_char(s[i]);
            }
            assert(folded(s).take(k) =~= s.take(k));
            assert(folded(s).skip(k) =~= folded(s.skip(k)));
        } else {
            assert(folded(s).take(0) =~= s.take(0));
            assert(folded(s).skip(0) =~= folded(s.skip(0)));
        }
    } else {
        assert(folded(s).take(0) =~= s.take(0));
        assert(folded(s).skip(0) =~= folded(s.skip(0)));
    }
}

/// The canonical order does not see ASCII case: two labels stand as their lower-case
/// forms do, so `apple` comes before `Zebra` and `API` sits with `Artifacts`.
pub proof fn law_the_order_ignores_case(a: Seq<char>, b: Seq<char>)
    ensures
        natural_rank(a, b) == natural_rank(folded(a), folded(b)),
    decreases a.len() + b.len(),
{
    if a.len() > 0 && b.len() > 0 {
        lemma_folded_steps(a);
        lemma_folded_steps(b);
        lemma_lower_char(a[0]);
        lemma_lower_char(b[0]);
        if is_ascii_digit(a[0]) && is_ascii_digit(b[0]) {
            lemma_digit_run(a);
            lemma_digit_run(b);
            lemma_folded_digit_run(a);
            lemma_folded_digit_run(b);
            law_the_order_ignores_case(a.skip(digit_run(a)), b.skip(digit_run(b)));
        } else if ascii_lower(a[0]) == ascii_lower(b[0]) {
            law_the_order_ignores_case(a.drop_first(), b.drop_first());
        }
    } else if a.len() > 0 {
        lemma_folded_steps(a);
    } else if b.len() > 0 {
        lemma_folded_steps(b);
    }
}

/// Between labels with no digits the canonical order is the order of their lower-case
/// characters, first difference first and a prefix before what extends it: `apple` before
/// `Zebra`, `Graph` before `graphs`.
pub proof fn law_labels_without_digits_go_by_their_lower_case(a: Seq<char>, b: Seq<char>)
    requires
        digitless(a),
        digitless(b),
    ensures
        natural_rank(a, b) == plain_rank(folded(a), folded(b)),
    decreases a.len() + b.len(),
{
    if a.len() > 0 && b.len() > 0 {
        lemma_folded_steps(a);
        lemma_folded_steps(b);
        assert(!is_ascii_digit(a[0]));
        if ascii_lower(a[0]) == ascii_lower(b[0]) {
            assert forall|i: int| 0 <= i < a.drop_first().len() implies !is_ascii_digit(#[trigger] a.drop_first()[i]) by {
                assert(a.drop_first()[i] == a[i + 1]);
            }
            assert forall|i: int| 0 <= i < b.drop_first().len() implies !is_ascii_digit(#[trigger] b.drop_first()[i]) by {
                assert(b.drop_first()[i] == b[i + 1]);
            }
            law_labels_without_digits_go_by_their_lower_case(a.drop_first(), b.drop_first());
        }
    } else if a.len() > 0 {
        lemma_folded_steps(a);
    } else if b.len() > 0 {
        lemma_folded_steps(b);
    }
}

/// A run of digits is compared by its value: a label with a shorter number (leading zeros
/// aside) comes first, so `item 9` comes before `item 10`.
pub proof fn law_numbers_go_by_their_value(prefix: Seq<char>, x: Seq<char>, y: Seq<char>)
    requires
        digitless(prefix),
        x.len() > 0,
        y.len() > 0,
        forall|i: int| 0 <= i < x.len() ==> is_ascii_digit(#[trigger] x[i]),
        forall|i: int| 0 <= i < y.len() ==> is_ascii_digit(#[trigger] y[i]),
        x[0] != '0',
        y[0] != '0',
        x.len() < y.len(),
    ensures
        natural_rank(prefix + x, prefix + y) == -1,
    decreases prefix.len(),
{
    if prefix.len() > 0 {
        assert((prefix + x)[0] == prefix[0]);
        assert((prefix + y)[0] == prefix[0]);
        assert(!is_ascii_digit(prefix[0]));
        assert((prefix + x).drop_first() =~= prefix.drop_first() + x);
        assert((prefix + y).drop_first() =~= prefix.drop_first() + y);
        assert forall|i: int| 0 <= i < prefix.drop_first().len() implies !is_ascii_digit(#[trigger] prefix.drop_first()[i]) by {
            assert(prefix.drop_first()[i] == prefix[i + 1]);
        }
        law_numbers_go_by_their_value(prefix.drop_first(), x, y);
    } else {
        assert(prefix + x =~= x);
        assert(prefix + y =~= y);
        lemma_digit_run_exact(x, x.len() as int);
        lemma_digit_run_exact(y, y.len() as int);
        assert(x.take(x.len() as int) =~= x);
        assert(y.take(y.len() as int) =~= y);
        assert(zero_run(x) == 0);
        assert(zero_run(y) == 0);
        assert(x.skip(0) =~= x);
        assert(y.skip(0) =~= y);
    }
}

/// Plain text order puts a text before everything that extends it, and says two texts are
/// level only when they are the same text.
pub proof fn law_plain_order_is_by_first_difference(a: Seq<char>, b: Seq<char>)
    ensures
        plain_rank(a, b) == 0 <==> a == b,
        b.len() > 0 ==> plain_rank(a, a + b) == -1,
        a.len() > 0 && b.len() > 0 && a[0] < b[0] ==> plain_rank(a, b) == -1,
    decreases a.len(),
{
    if a.len() > 0 && b.len() > 0 && a[0] == b[0] {
        law_plain_order_is_by_first_difference(a.drop_first(), b.drop_first());
        if plain_rank(a, b) == 0 {
            assert(a =~= seq![a[0]] + a.drop_first());
            assert(b =~= seq![b[0]] + b.drop_first());
        }
    }
    if a.len() > 0 {
        assert((a + b)[0] == a[0]);
        assert((a + b).drop_first() =~= a.drop_first() + b);
        law_plain_order_is_by_first_difference(a.drop_first(), b);
    } else {
        assert(a + b =~= b);
    }
}

} // verus!
