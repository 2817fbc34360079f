//! Text primitives the rest of the library is built from: appending one character,
//! comparing two strings, and the character classes the original leans on.

use vstd::prelude::*;

verus! {

/// Append one character to a string (`String::push`).
#[verifier::external_body]
pub(crate) fn push_char(s: &mut String, c: char)
    ensures
        final(s)@ == old(s)@.push(c),
{
    s.push(c);
}

/// A text in lower case, as Unicode defines it (`str::to_lowercase`): a function of the
/// text alone.
pub uninterp spec fn lowercase_of(s: Seq<char>) -> Seq<char>;

/// A text in lower case (`str::to_lowercase`). What the lower case of each character is
/// — the Unicode tables, and the final-sigma rule — is left to the standard library: the
/// contract names the result and says nothing more of it.
#[verifier::external_body]
pub(crate) fn lowercase(s: &str) -> (r: String)
    ensures
        r@ == lowercase_of(s@),
{
    s.to_lowercase()
}

/// Do two strings hold the same characters?
pub fn str_eq(a: &str, b: &str) -> (r: bool)
    ensures
        r == (a@ == b@),
{
    let n = a.unicode_len();
    let m = b.unicode_len();
    if n != m {
        return false;
    }
    let mut i: usize = 0;
    while i < n
        invariant
            n == a@.len(),
            m == b@.len(),
            n == m,
            i <= n,
            forall|j: int| 0 <= j < i ==> a@[j] == b@[j],
        decreases n - i,
    {
        if a.get_char(i) != b.get_char(i) {
            return false;
        }
        i += 1;
    }
    assert(a@ =~= b@);
    true
}


/// An ASCII lowercase letter.
pub open spec fn is_ascii_lower(c: char) -> bool {
    'a' <= c && c <= 'z'
}

/// An ASCII uppercase letter.
pub open spec fn is_ascii_upper(c: char) -> bool {
    'A' <= c && c <= 'Z'
}

/// An ASCII digit.
pub open spec fn is_ascii_digit(c: char) -> bool {
    '0' <= c && c <= '9'
}

/// An ASCII letter or digit.
pub open spec fn is_ascii_alnum(c: char) -> bool {
    is_ascii_lower(c) || is_ascii_upper(c) || is_ascii_digit(c)
}

/// The ASCII lowercase of a character; anything that is not an ASCII capital is itself.
pub open spec fn ascii_lower(c: char) -> char {
    if is_ascii_upper(c) {
        ((c as u32) + 32) as char
    } else {
        c
    }
}

/// The ASCII lowercase of a character (`char::to_ascii_lowercase`).
pub fn to_ascii_lower(c: char) -> (r: char)
    ensures
        r == ascii_lower(c),
{
    if 'A' <= c && c <= 'Z' {
        let b: u32 = (c as u32) + 32;
        assert(0x61 <= b <= 0x7a);
        b as u8 as char
    } else {
        c
    }
}

/// A string with the characters of a sequence.
pub fn string_of(chars: &Vec<char>) -> (r: String)
    ensures
        r@ == chars@,
{
    let mut out = String::new();
    let mut i: usize = 0;
    while i < chars.len()
        invariant
            i <= chars@.len(),
            out@ == chars@.subrange(0, i as int),
        decreases chars.len() - i,
    {
        push_char(&mut out, chars[i]);
        assert(out@ =~= chars@.subrange(0, i + 1));
        i += 1;
    }
    assert(chars@.subrange(0, chars@.len() as int) =~= chars@);
    out
}

/// The characters of a string, in order.
pub fn chars_of(s: &str) -> (r: Vec<char>)
    ensures
        r@ == s@,
{
    let n = s.unicode_len();
    let mut out: Vec<char> = Vec::new();
    let mut i: usize = 0;
    while i < n
        invariant
            n == s@.len(),
            i <= n,
            out@ == s@.subrange(0, i as int),
        decreases n - i,
    {
        out.push(s.get_char(i));
        assert(out@ =~= s@.subrange(0, i + 1));
        i += 1;
    }
    assert(s@.subrange(0, n as int) =~= s@);
    out
}

/// Append a whole string.
pub fn push_str(out: &mut String, s: &str)
    ensures
        final(out)@ == old(out)@ + s@,
{
    out.append(s);
}


/// The character of a decimal digit.
pub open spec fn digit_char(d: nat) -> char {
    ((48 + d) as u32) as char
}

/// A number in decimal, most significant digit first, with no leading zero.
pub open spec fn decimal_of(n: nat) -> Seq<char>
    decreases n,
{
    if n < 10 {
        seq![digit_char(n)]
    } else {
        decimal_of(n / 10).push(digit_char(n % 10))
    }
}

/// Append a number in decimal.
pub fn push_decimal(out: &mut String, n: usize)
    ensures
        final(out)@ == old(out)@ + decimal_of(n as nat),
    decreases n,
{
    if n >= 10 {
        push_decimal(out, n / 10);
    }
    let d: u8 = (n % 10) as u8;
    let c = (d + 48) as char;
    assert(c == digit_char((n % 10) as nat));
    push_char(out, c);
    assert(final(out)@ =~= old(out)@ + decimal_of(n as nat));
}

/// Append a 64-bit number in decimal.
pub fn push_decimal_u64(out: &mut String, n: u64)
    ensures
        final(out)@ == old(out)@ + decimal_of(n as nat),
    decreases n,
{
    if n >= 10 {
        push_decimal_u64(out, n / 10);
    }
    let d: u8 = (n % 10) as u8;
    let c = (d + 48) as char;
    assert(c == digit_char((n % 10) as nat));
    push_char(out, c);
    assert(final(out)@ =~= old(out)@ + decimal_of(n as nat));
}

/// A number in decimal (`usize::to_string`).
pub fn decimal(n: usize) -> (r: String)
    ensures
        r@ == decimal_of(n as nat),
{
    let mut out = String::new();
    push_decimal(&mut out, n);
    assert(out@ =~= decimal_of(n as nat));
    out
}


/// The views of some strings.
pub open spec fn views(s: Seq<String>) -> Seq<Seq<char>> {
    s.map_values(|x: String| x@)
}

/// A text cut at every separator: the pieces between them, in order, empty ones kept.
/// There is always at least one piece (`str::split`).
pub open spec fn split_seq(s: Seq<char>, sep: char) -> Seq<Seq<char>>
    decreases s.len(),
{
    if s.len() == 0 {
        seq![seq![]]
    } else {
        let init = split_seq(s.drop_last(), sep);
        if s.last() == sep {
            init.push(seq![])
        } else {
            init.update(init.len() - 1, init.last().push(s.last()))
        }
    }
}

/// Words joined, each after the separator.
pub open spec fn prefixed_join(words: Seq<Seq<char>>, sep: char) -> Seq<char>
    decreases words.len(),
{
    if words.len() == 0 {
        seq![]
    } else {
        prefixed_join(words.drop_last(), sep).push(sep) + words.last()
    }
}

/// Words joined with a separator between them (`join`).
pub open spec fn join_with(words: Seq<Seq<char>>, sep: char) -> Seq<char> {
    if words.len() == 0 {
        seq![]
    } else {
        words[0] + prefixed_join(words.drop_first(), sep)
    }
}

/// Splitting never yields nothing.
pub proof fn lemma_split_nonempty(s: Seq<char>, sep: char)
    ensures
        split_seq(s, sep).len() >= 1,
    decreases s.len(),
{
    if s.len() > 0 {
        lemma_split_nonempty(s.drop_last(), sep);
    }
}

/// Text with no separator in it, appended, only lengthens the last piece.
pub proof fn lemma_split_append_plain(s: Seq<char>, t: Seq<char>, sep: char)
    requires
        !t.contains(sep),
    ensures
        split_seq(s + t, sep) == split_seq(s, sep).update(
            split_seq(s, sep).len() - 1,
            split_seq(s, sep).last() + t,
        ),
        split_seq(s + t, sep).len() == split_seq(s, sep).len(),
    decreases t.len(),
{
    lemma_split_nonempty(s, sep);
    if t.len() == 0 {
        assert(s + t =~= s);
        assert(split_seq(s, sep).last() + t =~= split_seq(s, sep).last());
        assert(split_seq(s, sep).update(split_seq(s, sep).len() - 1, split_seq(s, sep).last())
            =~= split_seq(s, sep));
    } else {
        let t0 = t.drop_last();
        assert(!t0.contains(sep)) by {
            if t0.contains(sep) {
                let k = choose|k: int| 0 <= k < t0.len() && t0[k] == sep;
                assert(t[k] == sep);
            }
        }
        lemma_split_append_plain(s, t0, sep);
        assert((s + t).drop_last() =~= s + t0);
        assert((s + t).last() == t.last());
        assert(t.last() != sep) by {
            assert(t[t.len() - 1] == t.last());
        }
        assert(split_seq(s, sep).last() + t0 + seq![t.last()] =~= split_seq(s, sep).last() + t);
        assert((split_seq(s, sep).last() + t0).push(t.last()) =~= split_seq(s, sep).last() + t);
        assert(split_seq(s + t, sep) =~= split_seq(s, sep).update(
            split_seq(s, sep).len() - 1,
            split_seq(s, sep).last() + t,
        ));
    }
}

/// Splitting a head followed by separated words gives back the head and the words, when
/// no separator hides inside any of them.
pub proof fn lemma_split_prefixed_join(head: Seq<char>, words: Seq<Seq<char>>, sep: char)
    requires
        !head.contains(sep),
        forall|i: int| 0 <= i < words.len() ==> !(#[trigger] words[i]).contains(sep),
    ensures
        split_seq(head + prefixed_join(words, sep), sep) == seq![head] + words,
    decreases words.len(),
{
    if words.len() == 0 {
        assert(head + prefixed_join(words, sep) =~= seq![] + head);
        lemma_split_append_plain(seq![], head, sep);
        assert(split_seq(seq![], sep) =~= seq![seq![]]);
        assert(seq![] + head =~= head);
        assert(seq![head] + words =~= seq![head]);
        assert(split_seq(head, sep) =~= seq![head]);
    } else {
        let init = words.drop_last();
        let w = words.last();
        assert forall|i: int| 0 <= i < init.len() implies !(#[trigger] init[i]).contains(sep) by {
            assert(init[i] == words[i]);
        }
        lemma_split_prefixed_join(head, init, sep);
        let a = head + prefixed_join(init, sep);
        let b = a.push(sep);
        assert(head + prefixed_join(words, sep) =~= b + w);
        assert(b.drop_last() =~= a);
        assert(split_seq(b, sep) == split_seq(a, sep).push(seq![]));
        assert(!w.contains(sep)) by {
            assert(words[words.len() - 1] == w);
        }
        lemma_split_append_plain(b, w, sep);
        assert(seq![] + w =~= w);
        assert(split_seq(b + w, sep) =~= (seq![head] + init).push(w));
        assert((seq![head] + init).push(w) =~= seq![head] + words);
    }
}

/// Cut a text at every separator (`str::split`, collected).
pub fn split_text(s: &str, sep: char) -> (r: Vec<String>)
    ensures
        views(r@) == split_seq(s@, sep),
{
    let n = s.unicode_len();
    let mut pieces: Vec<String> = Vec::new();
    let mut current = String::new();
    let mut i: usize = 0;
    while i < n
        invariant
            n == s@.len(),
            i <= n,
            views(pieces@).push(current@) == split_seq(s@.subrange(0, i as int), sep),
        decreases n - i,
    {
        let c = s.get_char(i);
        let ghost before = s@.subrange(0, i as int);
        let ghost after = s@.subrange(0, i + 1);
        assert(after.drop_last() =~= before);
        assert(after.last() == c);
        let ghost old_pieces = pieces@;
        let ghost prev = current@;
        if c == sep {
            let done = current;
            current = String::new();
            pieces.push(done);
            assert(views(pieces@) =~= views(old_pieces).push(prev));
        } else {
            push_char(&mut current, c);
            assert(views(pieces@).push(current@) =~= views(old_pieces).push(prev).update(
                views(old_pieces).len() as int,
                prev.push(c),
            ));
        }
        i += 1;
    }
    assert(s@.subrange(0, n as int) =~= s@);
    pieces.push(current);
    assert(views(pieces@) =~= views(pieces@.drop_last()).push(pieces@.last()@));
    pieces
}


/// A copy of some strings.
pub fn copy_strings(v: &Vec<String>) -> (r: Vec<String>)
    ensures
        views(r@) == views(v@),
{
    let mut out: Vec<String> = Vec::new();
    let mut i: usize = 0;
    while i < v.len()
        invariant
            i <= v@.len(),
            views(out@) == views(v@.subrange(0, i as int)),
        decreases v.len() - i,
    {
        let x = v[i].clone();
        assert(x@ == v@[i as int]@);
        let ghost prev = out@;
        out.push(x);
        assert(out@ == prev.push(x));
        assert(views(out@) =~= views(prev).push(x@));
        assert(views(v@.subrange(0, i + 1)) =~= views(v@.subrange(0, i as int)).push(v@[i as int]@));
        i += 1;
    }
    assert(v@.subrange(0, v@.len() as int) =~= v@);
    out
}


/// Appending is associative.
pub proof fn lemma_add_assoc<A>(a: Seq<A>, b: Seq<A>, c: Seq<A>)
    ensures
        a + b + c == a + (b + c),
{
    assert(a + b + c =~= a + (b + c));
}


/// Words joined with a separating text.
pub open spec fn join_with_text(words: Seq<Seq<char>>, sep: Seq<char>) -> Seq<char>
    decreases words.len(),
{
    if words.len() == 0 {
        seq![]
    } else if words.len() == 1 {
        words[0]
    } else {
        join_with_text(words.drop_last(), sep) + sep + words.last()
    }
}


/// Words joined by a separator.
pub fn joined_by(words: &Vec<String>, sep: &str) -> (r: String)
    ensures
        r@ == join_with_text(views(words@), sep@),
{
    let mut out = String::new();
    for i in 0..words.len()
        invariant
            out@ == join_with_text(views(words@.take(i as int)), sep@),
    {
        let ghost t = views(words@.take(i + 1));
        proof {
            assert(views(words@.take(i + 1)).drop_last() =~= views(words@.take(i as int)));
            assert(t.last() == words@[i as int]@);
        }
        if i > 0 {
            push_str(&mut out, sep);
        }
        push_str(&mut out, words[i].as_str());
        proof {
            if i == 0 {
                assert(t.len() == 1);
                assert(out@ =~= t[0]);
            } else {
                assert(out@ =~= join_with_text(t.drop_last(), sep@) + sep@ + t.last());
            }
        }
    }
    assert(words@.take(words@.len() as int) =~= words@);
    out
}

} // verus!
