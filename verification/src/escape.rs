//! Percent-encoding of text, and its reading back.

use crate::outside::text_strict;
use crate::text::{
    alnum, chars_of, digit_in, is_alnum, number_text, opt_text, parse_nat_of, parse_u64, text_range,
    value_of,
};
use vstd::prelude::*;
use vstd::utf8::{decode_utf8, encode_scalar, encode_utf8, valid_utf8};

verus! {

/// The characters that an encoding leaves as they are.
#[derive(Clone, Copy)]
pub enum Keep {
    /// The unreserved characters of a URL.
    Unreserved,
    /// Those, and what separates the parts of a path.
    Path,
}

pub open spec fn keeps(k: Keep, c: char) -> bool {
    ||| alnum(c)
    ||| c == '-' || c == '_' || c == '.' || c == '~'
    ||| k is Path && (c == '/' || c == ':')
}

fn is_kept(k: Keep, c: char) -> (r: bool)
    ensures
        r == keeps(k, c),
{
    is_alnum(c) || c == '-' || c == '_' || c == '.' || c == '~' || match k {
        Keep::Path => c == '/' || c == ':',
        Keep::Unreserved => false,
    }
}

pub open spec fn upper_hex(d: int) -> char {
    if d < 10 {
        (48 + d) as char
    } else {
        (55 + d) as char
    }
}

/// `%` and the two upper-case digits of a byte.
pub open spec fn escape_byte(b: u8) -> Seq<char> {
    seq!['%', upper_hex(b as int / 16), upper_hex(b as int % 16)]
}

pub open spec fn escape_bytes(b: Seq<u8>) -> Seq<char>
    decreases b.len(),
{
    if b.len() == 0 {
        Seq::empty()
    } else {
        escape_byte(b[0]) + escape_bytes(b.drop_first())
    }
}

pub open spec fn escape_char(k: Keep, c: char) -> Seq<char> {
    if keeps(k, c) {
        seq![c]
    } else {
        escape_bytes(encode_utf8(seq![c]))
    }
}

/// The encoding: each byte of each character that is not kept becomes `%XX`.
pub open spec fn escape_of(k: Keep, s: Seq<char>) -> Seq<char>
    decreases s.len(),
{
    if s.len() == 0 {
        Seq::empty()
    } else {
        escape_char(k, s[0]) + escape_of(k, s.drop_first())
    }
}

fn hex_digit(d: u8) -> (r: char)
    requires
        d < 16,
    ensures
        r == upper_hex(d as int),
{
    if d < 10 {
        (48 + d) as char
    } else {
        (55 + d) as char
    }
}

fn push_escaped(out: &mut String, c: char)
    ensures
        final(out)@ == old(out)@ + escape_bytes(encode_utf8(seq![c])),
{
    let mut one = String::new();
    one.push(c);
    assert(one@ =~= seq![c]);
    let bytes = one.as_str().as_bytes_vec();
    let ghost b = encode_utf8(seq![c]);
    let ghost start = out@;
    let mut i: usize = 0;
    assert(b.skip(0) =~= b);
    while i < bytes.len()
        invariant
            i <= bytes@.len(),
            bytes@ == b,
            out@ + escape_bytes(b.skip(i as int)) == start + escape_bytes(b),
        decreases bytes@.len() - i,
    {
        let ghost before = out@;
        assert(b.skip(i as int)[0] == bytes@[i as int]);
        assert(b.skip(i as int).drop_first() =~= b.skip(i + 1));
        out.push('%');
        out.push(hex_digit(bytes[i] / 16));
        out.push(hex_digit(bytes[i] % 16));
        assert(out@ =~= before + escape_byte(bytes@[i as int]));
        assert(before + (escape_byte(bytes@[i as int]) + escape_bytes(b.skip(i + 1))) =~= out@
            + escape_bytes(b.skip(i + 1)));
        i += 1;
    }
    assert(b.skip(i as int) =~= Seq::<u8>::empty());
    assert(out@ + escape_bytes(b.skip(i as int)) =~= out@);
}

pub fn escape(k: Keep, s: &str) -> (r: String)
    ensures
        r@ == escape_of(k, s@),
{
    let v = chars_of(s);
    let mut out = String::new();
    let mut i: usize = 0;
    assert(s@.skip(0) =~= s@);
    assert(out@ + escape_of(k, s@.skip(0)) =~= escape_of(k, s@));
    while i < v.len()
        invariant
            i <= v@.len(),
            v@ == s@,
            out@ + escape_of(k, s@.skip(i as int)) == escape_of(k, s@),
        decreases v@.len() - i,
    {
        let ghost before = out@;
        let ghost rest = s@.skip(i as int);
        assert(rest[0] == v@[i as int]);
        assert(rest.drop_first() =~= s@.skip(i + 1));
        let c = v[i];
        if is_kept(k, c) {
            out.push(c);
        } else {
            push_escaped(&mut out, c);
        }
        assert(out@ =~= before + escape_char(k, c));
        assert(before + (escape_char(k, c) + escape_of(k, s@.skip(i + 1))) =~= out@ + escape_of(
            k,
            s@.skip(i + 1),
        ));
        i += 1;
    }
    assert(s@.skip(i as int) =~= Seq::<char>::empty());
    assert(out@ + escape_of(k, s@.skip(i as int)) =~= out@);
    out
}

/// The bytes that a percent-encoded text stands for; `None` where a `%` is not
/// followed by two characters that spell a byte.
pub open spec fn unescape_of(s: Seq<char>) -> Option<Seq<u8>>
    decreases s.len(),
{
    if s.len() == 0 {
        Some(Seq::empty())
    } else if s[0] == '%' {
        if s.len() < 3 {
            None
        } else {
            match (parse_nat_of(seq![s[1], s[2]], 16), unescape_of(s.skip(3))) {
                (Some(n), Some(r)) => Some(seq![n as u8] + r),
                _ => None,
            }
        }
    } else {
        match unescape_of(s.drop_first()) {
            Some(r) => Some(encode_utf8(seq![s[0]]) + r),
            None => None,
        }
    }
}

/// The text behind a percent-encoded one, when its bytes are valid UTF-8.
pub open spec fn percent_decoded(s: Seq<char>) -> Option<Seq<char>> {
    match unescape_of(s) {
        Some(b) => if valid_utf8(b) {
            Some(decode_utf8(b))
        } else {
            None
        },
        None => None,
    }
}

proof fn lemma_pair_value(a: char, b: char)
    ensures
        match parse_nat_of(seq![a, b], 16) {
            Some(n) => n < 256,
            None => true,
        },
{
    reveal_with_fuel(value_of, 3);
    let s = seq![a, b];
    let body = if a == '+' {
        s.drop_first()
    } else {
        s
    };
    if number_text(body, 16) {
        if a == '+' {
            assert(body =~= seq![b]);
            assert(digit_in(body[0], 16));
            assert(body.drop_last() =~= Seq::<char>::empty());
        } else {
            assert(digit_in(s[0], 16));
            assert(digit_in(s[1], 16));
            assert(s.drop_last() =~= seq![a]);
            assert(s.drop_last().drop_last() =~= Seq::<char>::empty());
        }
    }
}

pub fn percent_decode(input: &str) -> (r: Option<String>)
    ensures
        opt_text(r) == percent_decoded(input@),
{
    let v = chars_of(input);
    let n: usize = v.len();
    let mut out: Vec<u8> = Vec::new();
    let mut i: usize = 0;
    let ghost s = input@;
    assert(s.skip(0) =~= s);
    proof {
        if let Some(r) = unescape_of(s) {
            assert(out@ + r =~= r);
        }
    }
    while i < n
        invariant
            i <= n,
            n == v@.len(),
            v@ == s,
            s == input@,
            match unescape_of(s.skip(i as int)) {
                Some(r) => unescape_of(s) == Some(out@ + r),
                None => unescape_of(s) is None,
            },
        decreases n - i,
    {
        let ghost rest = s.skip(i as int);
        let ghost before = out@;
        assert(rest[0] == v@[i as int]);
        if v[i] == '%' {
            if n - i < 3 {
                return None;
            }
            assert(rest[1] == v@[i + 1] && rest[2] == v@[i + 2]);
            let pair = text_range(&v, i + 1, i + 3);
            assert(pair@ =~= seq![rest[1], rest[2]]);
            assert(rest.skip(3) =~= s.skip(i + 3));
            proof {
                lemma_pair_value(rest[1], rest[2]);
            }
            match parse_u64(&pair, 16) {
                Some(b) => {
                    out.push(b as u8);
                    proof {
                        if let Some(r) = unescape_of(s.skip(i + 3)) {
                            assert(before + (seq![b as u8] + r) =~= out@ + r);
                        }
                    }
                    i += 3;
                },
                None => {
                    return None;
                },
            }
        } else {
            let mut one = String::new();
            one.push(v[i]);
            assert(one@ =~= seq![rest[0]]);
            let mut bytes = one.as_str().as_bytes_vec();
            assert(rest.drop_first() =~= s.skip(i + 1));
            let ghost enc = bytes@;
            out.append(&mut bytes);
            proof {
                if let Some(r) = unescape_of(s.skip(i + 1)) {
                    assert(before + (enc + r) =~= out@ + r);
                }
            }
            i += 1;
        }
    }
    assert(s.skip(n as int) =~= Seq::<char>::empty());
    assert(out@ + Seq::<u8>::empty() =~= out@);
    text_strict(out)
}

proof fn lemma_unescape_byte(b: u8, rest: Seq<char>)
    ensures
        match unescape_of(rest) {
            Some(r) => unescape_of(escape_byte(b) + rest) == Some(seq![b] + r),
            None => true,
        },
{
    reveal_with_fuel(value_of, 3);
    let s = escape_byte(b) + rest;
    let hi = b as int / 16;
    let lo = b as int % 16;
    let pair = seq![s[1], s[2]];
    assert(s[1] == upper_hex(hi) && s[2] == upper_hex(lo));
    assert(s.skip(3) =~= rest);
    assert(pair.drop_last() =~= seq![s[1]]);
    assert(pair.drop_last().drop_last() =~= Seq::<char>::empty());
    assert(digit_in(pair[0], 16));
    assert(digit_in(pair[1], 16));
    assert(number_text(pair, 16));
    assert(value_of(pair, 16) == b as nat);
}

proof fn lemma_unescape_bytes(b: Seq<u8>, rest: Seq<char>)
    requires
        unescape_of(rest) is Some,
    ensures
        unescape_of(escape_bytes(b) + rest) == Some(b + unescape_of(rest)->0),
    decreases b.len(),
{
    let r = unescape_of(rest)->0;
    if b.len() == 0 {
        assert(escape_bytes(b) + rest =~= rest);
        assert(b + r =~= r);
    } else {
        let tail = b.drop_first();
        lemma_unescape_bytes(tail, rest);
        assert(escape_bytes(b) + rest =~= escape_byte(b[0]) + (escape_bytes(tail) + rest));
        lemma_unescape_byte(b[0], escape_bytes(tail) + rest);
        assert(seq![b[0]] + (tail + r) =~= b + r);
    }
}

proof fn lemma_unescape_escape(k: Keep, s: Seq<char>)
    ensures
        unescape_of(escape_of(k, s)) == Some(encode_utf8(s)),
    decreases s.len(),
{
    if s.len() > 0 {
        let c = s[0];
        let tail = s.drop_first();
        lemma_unescape_escape(k, tail);
        let rest = escape_of(k, tail);
        let one = encode_utf8(seq![c]);
        assert(seq![c].drop_first() =~= Seq::<char>::empty());
        assert(encode_utf8(Seq::<char>::empty()) =~= Seq::<u8>::empty());
        assert(one =~= encode_scalar(c as u32));
        assert(encode_utf8(s) =~= one + encode_utf8(tail));
        if keeps(k, c) {
            let t = seq![c] + rest;
            assert(t.drop_first() =~= rest);
        } else {
            lemma_unescape_bytes(one, rest);
        }
    }
}

/// Decoding an encoded text gives the text back, whatever it holds.
pub proof fn law_decode_undoes_encode(k: Keep, s: Seq<char>)
    ensures
        percent_decoded(escape_of(k, s)) == Some(s),
{
    broadcast use vstd::utf8::encode_utf8_valid_utf8, vstd::utf8::encode_utf8_decode_utf8;

    lemma_unescape_escape(k, s);
}

} // verus!
