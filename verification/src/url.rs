//! Percent-encoding of one component of a URL: the unreserved characters stand for
//! themselves and every other byte of the text's UTF-8 is `%` and two capital hexadecimal
//! digits.

use vstd::prelude::*;

use crate::digest::{utf8, utf8_bytes};
use crate::strings::push_char;

verus! {

/// A byte that stands for itself in a URL component: a letter, a digit, `-`, `_`, `.` or
/// `~`.
pub open spec fn unreserved(b: u8) -> bool {
    (0x41 <= b && b <= 0x5a) || (0x61 <= b && b <= 0x7a) || (0x30 <= b && b <= 0x39) || b == 0x2d
        || b == 0x5f || b == 0x2e || b == 0x7e
}

/// The capital hexadecimal digit of a value below sixteen.
pub open spec fn upper_hex(v: int) -> char {
    if v < 10 {
        ((48 + v) as u32) as char
    } else {
        ((55 + v) as u32) as char
    }
}

/// Some bytes, percent-encoded.
pub open spec fn encoded_bytes(bs: Seq<u8>) -> Seq<char>
    decreases bs.len(),
{
    if bs.len() == 0 {
        seq![]
    } else {
        let b = bs.last();
        encoded_bytes(bs.drop_last()) + if unreserved(b) {
            seq![(b as u32) as char]
        } else {
            seq!['%', upper_hex((b / 16) as int), upper_hex((b % 16) as int)]
        }
    }
}

/// A text, percent-encoded as one URL component.
pub open spec fn percent_encoded(s: Seq<char>) -> Seq<char> {
    encoded_bytes(utf8(s))
}

fn upper_hex_char(v: u8) -> (r: char)
    requires
        v < 16,
    ensures
        r == upper_hex(v as int),
{
    if v < 10 {
        (48 + v) as char
    } else {
        (55 + v) as char
    }
}

/// Percent-encode a text as one component of a URL.
pub fn percent_encode(s: &str) -> (r: String)
    ensures
        r@ == percent_encoded(s@),
{
    let bytes = utf8_bytes(s);
    let mut out = String::new();
    let mut i: usize = 0;
    while i < bytes.len()
        invariant
            i <= bytes@.len(),
            out@ == encoded_bytes(bytes@.subrange(0, i as int)),
        decreases bytes.len() - i,
    {
        let b = bytes[i];
        let ghost sub = bytes@.subrange(0, i + 1);
        assert(sub.drop_last() =~= bytes@.subrange(0, i as int));
        assert(sub.last() == b);
        if (0x41 <= b && b <= 0x5a) || (0x61 <= b && b <= 0x7a) || (0x30 <= b && b <= 0x39) || b
            == 0x2d || b == 0x5f || b == 0x2e || b == 0x7e {
            push_char(&mut out, b as char);
        } else {
            push_char(&mut out, '%');
            push_char(&mut out, upper_hex_char(b / 16));
            push_char(&mut out, upper_hex_char(b % 16));
        }
        assert(out@ =~= encoded_bytes(sub));
        i += 1;
    }
    assert(bytes@.subrange(0, bytes@.len() as int) =~= bytes@);
    out
}

proof fn lemma_encoded_chars(bs: Seq<u8>)
    ensures
        forall|i: int|
            0 <= i < encoded_bytes(bs).len() ==> {
                let c = #[trigger] encoded_bytes(bs)[i];
                ('A' <= c <= 'Z') || ('a' <= c <= 'z') || ('0' <= c <= '9') || c == '-' || c == '_'
                    || c == '.' || c == '~' || c == '%'
            },
    decreases bs.len(),
{
    if bs.len() > 0 {
        lemma_encoded_chars(bs.drop_last());
        let b = bs.last();
        let prev = encoded_bytes(bs.drop_last());
        assert forall|i: int| 0 <= i < encoded_bytes(bs).len() implies {
            let c = #[trigger] encoded_bytes(bs)[i];
            ('A' <= c <= 'Z') || ('a' <= c <= 'z') || ('0' <= c <= '9') || c == '-' || c == '_'
                || c == '.' || c == '~' || c == '%'
        } by {
            if i < prev.len() {
                assert(encoded_bytes(bs)[i] == prev[i]);
            } else if !unreserved(b) && i > prev.len() {
                assert(b / 16 < 16);
                assert(b % 16 < 16);
            }
        }
    }
}

/// An encoded component holds nothing a URL reads as structure: only letters, digits,
/// `-`, `_`, `.`, `~` and the `%` of an escape.
pub proof fn law_an_encoded_component_holds_no_delimiter(s: Seq<char>)
    ensures
        forall|i: int|
            0 <= i < percent_encoded(s).len() ==> {
                let c = #[trigger] percent_encoded(s)[i];
                ('A' <= c <= 'Z') || ('a' <= c <= 'z') || ('0' <= c <= '9') || c == '-' || c == '_'
                    || c == '.' || c == '~' || c == '%'
            },
{
    lemma_encoded_chars(utf8(s));
}

/// The value of a hexadecimal digit, capital or not.
pub open spec fn hex_value(c: char) -> int {
    if '0' <= c && c <= '9' {
        (c as u32) - 48
    } else if 'A' <= c && c <= 'F' {
        (c as u32) - 55
    } else if 'a' <= c && c <= 'f' {
        (c as u32) - 87
    } else {
        0
    }
}

/// The bytes a percent-encoded component stands for: `%` and two hexadecimal digits are
/// the byte they spell, any other character the byte of its code.
pub open spec fn decoded_bytes(s: Seq<char>) -> Seq<u8>
    decreases s.len(),
{
    if s.len() == 0 {
        seq![]
    } else if s[0] == '%' && s.len() >= 3 {
        seq![(hex_value(s[1]) * 16 + hex_value(s[2])) as u8] + decoded_bytes(s.skip(3))
    } else {
        seq![(s[0] as u32) as u8] + decoded_bytes(s.drop_first())
    }
}

/// The encoding of one byte.
pub open spec fn encoded_byte(b: u8) -> Seq<char> {
    if unreserved(b) {
        seq![(b as u32) as char]
    } else {
        seq!['%', upper_hex((b / 16) as int), upper_hex((b % 16) as int)]
    }
}

proof fn lemma_encoded_front(bs: Seq<u8>)
    requires
        bs.len() > 0,
    ensures
        encoded_bytes(bs) == encoded_byte(bs[0]) + encoded_bytes(bs.drop_first()),
    decreases bs.len(),
{
    if bs.len() == 1 {
        assert(bs.drop_last() =~= seq![]);
        assert(bs.drop_first() =~= seq![]);
        assert(encoded_bytes(bs) =~= encoded_byte(bs[0]) + encoded_bytes(bs.drop_first()));
    } else {
        lemma_encoded_front(bs.drop_last());
        assert(bs.drop_last().drop_first() =~= bs.drop_first().drop_last());
        assert(bs.drop_first().last() == bs.last());
        assert(encoded_bytes(bs) =~= encoded_byte(bs[0]) + encoded_bytes(bs.drop_first()));
    }
}

proof fn lemma_hex_digit(v: int)
    requires
        0 <= v < 16,
    ensures
        hex_value(upper_hex(v)) == v,
        upper_hex(v) != '%',
{
    if v < 10 {
        assert(((48 + v) as u32) as char as u32 == 48 + v);
    } else {
        assert(((55 + v) as u32) as char as u32 == 55 + v);
    }
}

proof fn lemma_decoded_byte(b: u8, t: Seq<char>)
    ensures
        decoded_bytes(encoded_byte(b) + t) == seq![b] + decoded_bytes(t),
{
    let e = encoded_byte(b) + t;
    if unreserved(b) {
        assert(((b as u32) as char) as u32 == b as u32);
        assert(e[0] == (b as u32) as char);
        assert(e[0] != '%');
        assert(e.drop_first() =~= t);
    } else {
        lemma_hex_digit((b / 16) as int);
        lemma_hex_digit((b % 16) as int);
        assert(e[0] == '%');
        assert(e[1] == upper_hex((b / 16) as int));
        assert(e[2] == upper_hex((b % 16) as int));
        assert(e.skip(3) =~= t);
        assert((b / 16) * 16 + b % 16 == b);
    }
}

/// Percent-encoding loses nothing: decoding an encoded component gives back the bytes it
/// was made of, so a link carries the identity it was made from.
pub proof fn law_an_encoded_component_decodes_to_its_bytes(bs: Seq<u8>)
    ensures
        decoded_bytes(encoded_bytes(bs)) == bs,
    decreases bs.len(),
{
    if bs.len() > 0 {
        lemma_encoded_front(bs);
        law_an_encoded_component_decodes_to_its_bytes(bs.drop_first());
        lemma_decoded_byte(bs[0], encoded_bytes(bs.drop_first()));
        assert(seq![bs[0]] + bs.drop_first() =~= bs);
    }
}

} // verus!
