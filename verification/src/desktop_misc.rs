//! Decisions behind the small desktop commands: which hosts a page title may be
//! fetched from, which names are safe to rename to, how a pasted image is
//! named, and what a log tail shows.

use crate::json::{fields, no_fields, opt_str, put, set_field, strs, Json, JsonV};
use crate::outside::{
    base64_bytes, base64_decode, bytes_result, debug_form, debug_text, first_group, first_group_of,
    group_result, lossy_text, lowercase, parse_url, random_u32, text_lossy, to_lowercase, url_of,
    UrlParts, UrlV,
};
use crate::paths::{lemma_off_drive, names_drive, off_drive, strip_drives};
use crate::text::{
    after_prefix, alnum, ascii_lower, chars_of, dec, decimal, digit, digits_u64, every, find_char,
    find_chars, find_of, hex, hex_of, in_class, index_of, is_alnum, is_digit, last_index_of,
    lemma_dec_value, lemma_digit_char, lemma_hex_plain, lemma_index_from, lemma_last_index_of,
    lemma_split_append, lemma_split_one, lemma_trim_end, lemma_trim_fixed, lemma_trim_start, lines,
    lines_of, number_text, opt_text, or_empty, parse_nat_of, parse_u64, rfind_char, same, split,
    split_of, starts, starts_with, strip_prefix, text_range, text_result, texts, to_ascii_lower,
    trim, trim_end_char, trim_end_of, trim_start_class, trim_start_of, trimmed, unit_result,
    value_of, Class,
};
use vstd::prelude::*;

verus! {

// ---------------------------------------------------------------------------
// Addresses
// ---------------------------------------------------------------------------

/// An IPv4 address by its four octets.
#[derive(Clone, Copy, Debug, PartialEq, Eq, Structural)]
pub struct Ipv4 {
    pub a: u8,
    pub b: u8,
    pub c: u8,
    pub d: u8,
}

impl Ipv4 {
    pub fn new(a: u8, b: u8, c: u8, d: u8) -> (r: Ipv4)
        ensures
            r == (Ipv4 { a, b, c, d }),
    {
        Ipv4 { a, b, c, d }
    }
}

/// The loopback, private, link-local, carrier-grade and "this network" ranges.
pub open spec fn private_v4(v4: Ipv4) -> bool {
    ||| v4.a == 127
    ||| v4.a == 10
    ||| v4.a == 172 && 16 <= v4.b <= 31
    ||| v4.a == 192 && v4.b == 168
    ||| v4.a == 169 && v4.b == 254
    ||| v4.a == 0
    ||| v4.a == 100 && 64 <= v4.b <= 127
}

pub fn is_private_ipv4(v4: &Ipv4) -> (r: bool)
    ensures
        r == private_v4(*v4),
{
    v4.a == 127 || v4.a == 10 || (v4.a == 172 && 16 <= v4.b && v4.b <= 31) || (v4.a == 192 && v4.b
        == 168) || (v4.a == 169 && v4.b == 254) || v4.a == 0 || (v4.a == 100 && 64 <= v4.b && v4.b
        <= 127)
}

pub open spec fn within(n: Option<nat>, max: nat) -> Option<nat> {
    match n {
        Some(v) => if v <= max {
            Some(v)
        } else {
            None
        },
        None => None,
    }
}

/// One part of a numeric host: hexadecimal after `0x`, octal after a leading
/// zero, else decimal; at most thirty-two bits.
pub open spec fn part_value(s: Seq<char>) -> Option<nat> {
    let t = trimmed(s);
    let n = if t.len() == 0 {
        None
    } else if starts(t, "0x"@) || starts(t, "0X"@) {
        parse_nat_of(t.skip(2), 16)
    } else if t.len() > 1 && t[0] == '0' && every(t, |c: char| digit(c)) {
        parse_nat_of(t, 8)
    } else {
        parse_nat_of(t, 10)
    };
    within(n, u32::MAX as nat)
}

pub open spec fn part_values(p: Seq<Seq<char>>) -> Option<Seq<nat>>
    decreases p.len(),
{
    if p.len() == 0 {
        Some(Seq::empty())
    } else {
        match (part_values(p.drop_last()), part_value(p.last())) {
            (Some(v), Some(n)) => Some(v.push(n)),
            _ => None,
        }
    }
}

/// The address that one to four numbers stand for: each but the last is an
/// octet, and the last fills all the octets that are left. `None` where a number
/// does not fit its place.
pub open spec fn quad_of(v: Seq<nat>) -> Option<Ipv4> {
    if v.len() == 1 && v[0] <= 0xffff_ffff {
        Some(
            Ipv4 {
                a: (v[0] / 0x100_0000) as u8,
                b: (v[0] / 0x1_0000 % 256) as u8,
                c: (v[0] / 0x100 % 256) as u8,
                d: (v[0] % 256) as u8,
            },
        )
    } else if v.len() == 2 && v[0] <= 255 && v[1] <= 0xff_ffff {
        Some(
            Ipv4 {
                a: v[0] as u8,
                b: (v[1] / 0x1_0000) as u8,
                c: (v[1] / 0x100 % 256) as u8,
                d: (v[1] % 256) as u8,
            },
        )
    } else if v.len() == 3 && v[0] <= 255 && v[1] <= 255 && v[2] <= 0xffff {
        Some(
            Ipv4 {
                a: v[0] as u8,
                b: v[1] as u8,
                c: (v[2] / 0x100) as u8,
                d: (v[2] % 256) as u8,
            },
        )
    } else if v.len() == 4 && v[0] <= 255 && v[1] <= 255 && v[2] <= 255 && v[3] <= 255 {
        Some(Ipv4 { a: v[0] as u8, b: v[1] as u8, c: v[2] as u8, d: v[3] as u8 })
    } else {
        None
    }
}

/// The address that a host spelled in numbers stands for.
pub open spec fn numeric_v4(host: Seq<char>) -> Option<Ipv4> {
    match part_values(split_of(host, '.')) {
        Some(v) => quad_of(v),
        None => None,
    }
}

fn parse_u32(s: &str, radix: u8) -> (r: Option<u32>)
    requires
        2 <= radix <= 16,
    ensures
        match r {
            Some(n) => within(parse_nat_of(s@, radix as nat), u32::MAX as nat) == Some(n as nat),
            None => within(parse_nat_of(s@, radix as nat), u32::MAX as nat) is None,
        },
{
    match parse_u64(s, radix) {
        Some(n) => if n <= 0xffff_ffff {
            Some(n as u32)
        } else {
            None
        },
        None => None,
    }
}

fn parse_part(s: &str) -> (r: Option<u32>)
    ensures
        match r {
            Some(n) => part_value(s@) == Some(n as nat),
            None => part_value(s@) is None,
        },
{
    let t = trim(s);
    let v = chars_of(&t);
    if v.len() == 0 {
        return None;
    }
    proof {
        reveal_strlit("0x");
        reveal_strlit("0X");
    }
    if starts_with(&t, "0x") || starts_with(&t, "0X") {
        let rest = text_range(&v, 2, v.len());
        assert(rest@ == t@.skip(2));
        return parse_u32(&rest, 16);
    }
    let mut all_digits = true;
    let mut i: usize = 0;
    while i < v.len()
        invariant
            i <= v@.len(),
            all_digits == forall|j: int| 0 <= j < i ==> digit(#[trigger] v@[j]),
        decreases v@.len() - i,
    {
        if !is_digit(v[i]) {
            all_digits = false;
        }
        i += 1;
    }
    proof {
        let p = |c: char| digit(c);
        assert(every(t@, p) == forall|j: int| 0 <= j < t@.len() ==> #[trigger] p(t@[j]));
        if all_digits {
            assert forall|j: int| 0 <= j < t@.len() implies #[trigger] p(t@[j]) by {
                assert(digit(v@[j]));
            }
        } else {
            let j = choose|j: int| 0 <= j < v@.len() && !digit(#[trigger] v@[j]);
            assert(!p(t@[j]));
        }
    }
    if v.len() > 1 && v[0] == '0' && all_digits {
        parse_u32(&t, 8)
    } else {
        parse_u32(&t, 10)
    }
}

/// Folds a host spelled in numbers onto the address that resolvers take it
/// for: `127.1`, `0x7f000001`, `0177.0.0.1`, a single number.
pub fn fold_numeric_host(host: &str) -> (r: Option<Ipv4>)
    ensures
        r == numeric_v4(host@),
{
    let parts = split(host, '.');
    let ghost ps = split_of(host@, '.');
    let mut vals: Vec<u32> = Vec::new();
    let ghost mut nums: Seq<nat> = Seq::empty();
    let mut i: usize = 0;
    while i < parts.len()
        invariant
            i <= parts@.len(),
            ps == texts(parts@),
            ps == split_of(host@, '.'),
            nums.len() == i,
            vals@.len() == i,
            forall|j: int| 0 <= j < i ==> nums[j] == #[trigger] vals@[j] as nat,
            part_values(ps.take(i as int)) == Some(nums),
        decreases parts@.len() - i,
    {
        assert(ps.take(i + 1).drop_last() == ps.take(i as int));
        assert(ps.take(i + 1).last() == parts@[i as int]@);
        match parse_part(&parts[i]) {
            Some(n) => {
                vals.push(n);
                proof {
                    nums = nums.push(n as nat);
                }
            },
            None => {
                proof {
                    lemma_part_values_fail(ps, i as int);
                }
                return None;
            },
        }
        i += 1;
    }
    assert(ps.take(i as int) == ps);
    if vals.len() == 1 {
        let x: u32 = vals[0];
        assert(nums[0] == x as nat);
        Some(
            Ipv4 {
                a: (x / 0x100_0000) as u8,
                b: (x / 0x1_0000 % 256) as u8,
                c: (x / 0x100 % 256) as u8,
                d: (x % 256) as u8,
            },
        )
    } else if vals.len() == 2 {
        let x: u32 = vals[0];
        let y: u32 = vals[1];
        assert(nums[0] == x as nat && nums[1] == y as nat);
        if x > 255 || y > 0xff_ffff {
            return None;
        }
        Some(
            Ipv4 {
                a: x as u8,
                b: (y / 0x1_0000) as u8,
                c: (y / 0x100 % 256) as u8,
                d: (y % 256) as u8,
            },
        )
    } else if vals.len() == 3 {
        let x: u32 = vals[0];
        let y: u32 = vals[1];
        let z: u32 = vals[2];
        assert(nums[0] == x as nat && nums[1] == y as nat && nums[2] == z as nat);
        if x > 255 || y > 255 || z > 0xffff {
            return None;
        }
        Some(Ipv4 { a: x as u8, b: y as u8, c: (z / 0x100) as u8, d: (z % 256) as u8 })
    } else if vals.len() == 4 {
        let x: u32 = vals[0];
        let y: u32 = vals[1];
        let z: u32 = vals[2];
        let w: u32 = vals[3];
        assert(nums[0] == x as nat && nums[1] == y as nat && nums[2] == z as nat && nums[3]
            == w as nat);
        if x <= 255 && y <= 255 && z <= 255 && w <= 255 {
            Some(Ipv4 { a: x as u8, b: y as u8, c: z as u8, d: w as u8 })
        } else {
            None
        }
    } else {
        None
    }
}

proof fn lemma_part_values_fail(p: Seq<Seq<char>>, i: int)
    requires
        0 <= i < p.len(),
        part_value(p[i]) is None,
    ensures
        part_values(p) is None,
    decreases p.len(),
{
    if i < p.len() - 1 {
        assert(p.drop_last()[i] == p[i]);
        lemma_part_values_fail(p.drop_last(), i);
    }
}

// ---------------------------------------------------------------------------
// IPv6 text
// ---------------------------------------------------------------------------

/// One to four hexadecimal digits.
pub open spec fn hex_group(s: Seq<char>) -> Option<u16> {
    if 1 <= s.len() <= 4 && number_text(s, 16) {
        Some(value_of(s, 16) as u16)
    } else {
        None
    }
}

/// A decimal octet without a leading zero.
pub open spec fn octet_of(s: Seq<char>) -> Option<u8> {
    if 1 <= s.len() <= 3 && number_text(s, 10) && (s.len() == 1 || s[0] != '0') && value_of(s, 10)
        <= 255 {
        Some(value_of(s, 10) as u8)
    } else {
        None
    }
}

/// Four octets with dots between them.
pub open spec fn dotted_v4(s: Seq<char>) -> Option<Ipv4> {
    let p = split_of(s, '.');
    if p.len() == 4 {
        match (octet_of(p[0]), octet_of(p[1]), octet_of(p[2]), octet_of(p[3])) {
            (Some(a), Some(b), Some(c), Some(d)) => Some(Ipv4 { a, b, c, d }),
            _ => None,
        }
    } else {
        None
    }
}

/// The sixteen-bit words of colon-separated groups. The last group may be a
/// dotted IPv4 address when `v4` says so.
pub open spec fn group_words(p: Seq<Seq<char>>, v4: bool) -> Option<Seq<u16>>
    decreases p.len(),
{
    if p.len() == 0 {
        Some(Seq::empty())
    } else {
        match group_words(p.drop_last(), false) {
            Some(w) => match hex_group(p.last()) {
                Some(g) => Some(w.push(g)),
                None => if v4 {
                    match dotted_v4(p.last()) {
                        Some(q) => Some(
                            w.push((q.a * 256 + q.b) as u16).push((q.c * 256 + q.d) as u16),
                        ),
                        None => None,
                    }
                } else {
                    None
                },
            },
            None => None,
        }
    }
}

/// The groups of one side of an address; an empty side has none.
pub open spec fn side_words(s: Seq<char>, v4: bool) -> Option<Seq<u16>> {
    if s.len() == 0 {
        Some(Seq::empty())
    } else {
        group_words(split_of(s, ':'), v4)
    }
}

/// The eight words of an IPv6 address. `::` stands once for one or more zero
/// words.
pub open spec fn v6_words(s: Seq<char>) -> Option<Seq<u16>> {
    match find_of(s, "::"@) {
        None => match side_words(s, true) {
            Some(w) => if w.len() == 8 {
                Some(w)
            } else {
                None
            },
            None => None,
        },
        Some(i) => match (side_words(s.take(i), false), side_words(s.skip(i + 2), true)) {
            (Some(h), Some(t)) => if h.len() + t.len() <= 7 {
                Some(h + Seq::new((8 - h.len() - t.len()) as nat, |k: int| 0u16) + t)
            } else {
                None
            },
            _ => None,
        },
    }
}

/// The private IPv6 ranges: addresses mapped from private IPv4 ones, loopback,
/// unique local and link-local.
pub open spec fn private_v6(w: Seq<u16>) -> bool {
    if w[0] == 0 && w[1] == 0 && w[2] == 0 && w[3] == 0 && w[4] == 0 && w[5] == 0xffff {
        private_v4(
            Ipv4 {
                a: (w[6] / 256) as u8,
                b: (w[6] % 256) as u8,
                c: (w[7] / 256) as u8,
                d: (w[7] % 256) as u8,
            },
        )
    } else {
        ||| w == seq![0u16, 0u16, 0u16, 0u16, 0u16, 0u16, 0u16, 1u16]
        ||| 0xfc00 <= w[0] <= 0xfdff
        ||| 0xfe80 <= w[0] <= 0xfebf
    }
}

proof fn lemma_value_bound(s: Seq<char>, radix: nat)
    requires
        number_text(s, radix),
        radix == 10 || radix == 16,
        s.len() <= 4,
    ensures
        value_of(s, radix) < 0x1_0000,
{
    reveal_with_fuel(value_of, 5);
    assert(forall|i: int| 0 <= i < s.len() ==> digit_value_ok(#[trigger] s[i], radix)) by {
        assert forall|i: int| 0 <= i < s.len() implies digit_value_ok(#[trigger] s[i], radix) by {
            assert(crate::text::digit_in(s[i], radix));
        }
    }
    if s.len() > 1 {
        let a = s.drop_last();
        assert(s.last() == s[s.len() - 1]);
        if a.len() > 1 {
            let b = a.drop_last();
            assert(a.last() == s[s.len() - 2]);
            if b.len() > 1 {
                let c = b.drop_last();
                assert(b.last() == s[s.len() - 3]);
                assert(c.last() == s[0]);
                assert(c.drop_last().len() == 0);
            } else {
                assert(b.last() == s[0]);
                assert(b.drop_last().len() == 0);
            }
        } else {
            assert(a.last() == s[0]);
            assert(a.drop_last().len() == 0);
        }
    } else {
        assert(s.drop_last().len() == 0);
        assert(s.last() == s[0]);
    }
}

spec fn digit_value_ok(c: char, radix: nat) -> bool {
    match crate::text::digit_value(c) {
        Some(d) => d < radix,
        None => false,
    }
}

fn parse_hex_group(s: &str) -> (r: Option<u16>)
    ensures
        r == hex_group(s@),
{
    let v = chars_of(s);
    if v.len() < 1 || v.len() > 4 {
        return None;
    }
    assert(v@.skip(0) == s@);
    match digits_u64(&v, 0, 16) {
        Some(n) => {
            proof {
                lemma_value_bound(s@, 16);
            }
            Some(n as u16)
        },
        None => {
            proof {
                if number_text(s@, 16) {
                    lemma_value_bound(s@, 16);
                }
            }
            None
        },
    }
}

fn parse_octet(s: &str) -> (r: Option<u8>)
    ensures
        r == octet_of(s@),
{
    let v = chars_of(s);
    if v.len() < 1 || v.len() > 3 || (v.len() > 1 && v[0] == '0') {
        return None;
    }
    assert(v@.skip(0) == s@);
    match digits_u64(&v, 0, 10) {
        Some(n) => if n <= 255 {
            Some(n as u8)
        } else {
            None
        },
        None => {
            proof {
                if number_text(s@, 10) {
                    lemma_value_bound(s@, 10);
                }
            }
            None
        },
    }
}

fn parse_dotted_v4(s: &str) -> (r: Option<Ipv4>)
    ensures
        r == dotted_v4(s@),
{
    let p = split(s, '.');
    let ghost ps = split_of(s@, '.');
    assert(p@.len() == ps.len());
    if p.len() != 4 {
        return None;
    }
    assert(p@[0]@ == ps[0] && p@[1]@ == ps[1] && p@[2]@ == ps[2] && p@[3]@ == ps[3]) by {
        assert(texts(p@)[0] == p@[0]@);
        assert(texts(p@)[1] == p@[1]@);
        assert(texts(p@)[2] == p@[2]@);
        assert(texts(p@)[3] == p@[3]@);
    }
    match (parse_octet(&p[0]), parse_octet(&p[1]), parse_octet(&p[2]), parse_octet(&p[3])) {
        (Some(a), Some(b), Some(c), Some(d)) => Some(Ipv4 { a, b, c, d }),
        _ => None,
    }
}

proof fn lemma_group_words_fail(p: Seq<Seq<char>>, i: int, v4: bool)
    requires
        0 <= i < p.len(),
        group_words(p.take(i + 1), v4 && i + 1 == p.len()) is None,
    ensures
        group_words(p, v4) is None,
    decreases p.len() - i,
{
    if i + 1 < p.len() {
        assert(p.take(i + 2).drop_last() == p.take(i + 1));
        lemma_group_words_fail(p, i + 1, v4);
    } else {
        assert(p.take(i + 1) == p);
    }
}

fn parse_side(s: &str, v4: bool) -> (r: Option<Vec<u16>>)
    ensures
        match r {
            Some(w) => side_words(s@, v4) == Some(w@),
            None => side_words(s@, v4) is None,
        },
{
    let mut out: Vec<u16> = Vec::new();
    if s.is_empty() {
        assert(out@ =~= Seq::<u16>::empty());
        return Some(out);
    }
    let p = split(s, ':');
    let ghost ps = split_of(s@, ':');
    let n: usize = p.len();
    let mut i: usize = 0;
    assert(ps.take(0) =~= Seq::<Seq<char>>::empty());
    assert(out@ =~= Seq::<u16>::empty());
    while i < n
        invariant
            i <= n,
            n == p@.len(),
            ps == texts(p@),
            ps == split_of(s@, ':'),
            s@.len() > 0,
            group_words(ps.take(i as int), v4 && i == n) == Some(out@),
        decreases n - i,
    {
        let ghost last = v4 && i + 1 == n;
        assert(ps.take(i + 1).drop_last() == ps.take(i as int));
        assert(ps.take(i + 1).last() == p@[i as int]@) by {
            assert(texts(p@)[i as int] == p@[i as int]@);
        }
        match parse_hex_group(&p[i]) {
            Some(g) => {
                out.push(g);
            },
            None => {
                if v4 && i + 1 == n {
                    match parse_dotted_v4(&p[i]) {
                        Some(q) => {
                            out.push(q.a as u16 * 256 + q.b as u16);
                            out.push(q.c as u16 * 256 + q.d as u16);
                        },
                        None => {
                            proof {
                                lemma_group_words_fail(ps, i as int, v4);
                            }
                            return None;
                        },
                    }
                } else {
                    proof {
                        lemma_group_words_fail(ps, i as int, v4);
                    }
                    return None;
                }
            },
        }
        i += 1;
    }
    assert(ps.take(n as int) == ps);
    proof {
        crate::text::lemma_split_nonempty(s@, ':');
    }
    Some(out)
}

/// Reads the eight words of an IPv6 address.
pub fn parse_ipv6(s: &str) -> (r: Option<Vec<u16>>)
    ensures
        match r {
            Some(w) => v6_words(s@) == Some(w@) && w@.len() == 8,
            None => v6_words(s@) is None,
        },
{
    let v = chars_of(s);
    let gap = chars_of("::");
    proof {
        reveal_strlit("::");
    }
    match find_chars(&v, &gap, 0) {
        None => match parse_side(s, true) {
            Some(w) => if w.len() == 8 {
                Some(w)
            } else {
                None
            },
            None => None,
        },
        Some(i) => {
            proof {
                lemma_find_bound(s@, "::"@, 0);
            }
            let n: usize = v.len();
            let head = text_range(&v, 0, i);
            let tail = text_range(&v, i + 2, n);
            assert(head@ == s@.take(i as int));
            assert(tail@ == s@.skip(i + 2));
            match (parse_side(&head, false), parse_side(&tail, true)) {
                (Some(h), Some(t)) => {
                    if h.len() > 7 || t.len() > 7 - h.len() {
                        return None;
                    }
                    let zeros: usize = 8 - h.len() - t.len();
                    let mut out: Vec<u16> = Vec::new();
                    let mut k: usize = 0;
                    while k < 8
                        invariant
                            k <= 8,
                            out@.len() == k,
                            zeros == 8 - h@.len() - t@.len(),
                            h@.len() + t@.len() <= 7,
                            forall|j: int|
                                0 <= j < k ==> #[trigger] out@[j] == if j < h@.len() {
                                    h@[j]
                                } else if j < h@.len() + zeros {
                                    0u16
                                } else {
                                    t@[j - h@.len() - zeros]
                                },
                        decreases 8 - k,
                    {
                        if k < h.len() {
                            out.push(h[k]);
                        } else if k < h.len() + zeros {
                            out.push(0);
                        } else {
                            out.push(t[k - h.len() - zeros]);
                        }
                        k += 1;
                    }
                    assert(out@ =~= h@ + Seq::new(
                        (8 - h@.len() - t@.len()) as nat,
                        |k: int| 0u16,
                    ) + t@);
                    Some(out)
                },
                _ => None,
            }
        },
    }
}

proof fn lemma_find_bound(s: Seq<char>, p: Seq<char>, i: int)
    requires
        0 <= i <= s.len(),
    ensures
        match crate::text::find_from(s, p, i) {
            Some(k) => i <= k && k + p.len() <= s.len(),
            None => true,
        },
    decreases s.len() - i,
{
    if i + p.len() <= s.len() && !crate::text::occurs_at(s, p, i) && i < s.len() {
        lemma_find_bound(s, p, i + 1);
    }
}

fn is_private_ipv6(w: &Vec<u16>) -> (r: bool)
    requires
        w@.len() == 8,
    ensures
        r == private_v6(w@),
{
    if w[0] == 0 && w[1] == 0 && w[2] == 0 && w[3] == 0 && w[4] == 0 && w[5] == 0xffff {
        return is_private_ipv4(
            &Ipv4 {
                a: (w[6] / 256) as u8,
                b: (w[6] % 256) as u8,
                c: (w[7] / 256) as u8,
                d: (w[7] % 256) as u8,
            },
        );
    }
    let loopback = w[0] == 0 && w[1] == 0 && w[2] == 0 && w[3] == 0 && w[4] == 0 && w[5] == 0
        && w[6] == 0 && w[7] == 1;
    proof {
        let one = seq![0u16, 0u16, 0u16, 0u16, 0u16, 0u16, 0u16, 1u16];
        if loopback {
            assert(w@ =~= one);
        } else if w@ == one {
            assert(w@[0] == one[0] && w@[1] == one[1] && w@[2] == one[2] && w@[3] == one[3]
                && w@[4] == one[4] && w@[5] == one[5] && w@[6] == one[6] && w@[7] == one[7]);
        }
    }
    loopback || (0xfc00 <= w[0] && w[0] <= 0xfdff) || (0xfe80 <= w[0] && w[0] <= 0xfebf)
}

// ---------------------------------------------------------------------------
// The host guard
// ---------------------------------------------------------------------------

/// A host without brackets and trailing dots.
pub open spec fn bare_host(host: Seq<char>) -> Seq<char> {
    trim_end_of(
        trim_end_of(trim_start_of(host, Class::One('[')), Class::One(']')),
        Class::One('.'),
    )
}

/// Hosts that name this machine or a private network: `localhost`, plain
/// numbers, and every spelling of a private address.
pub open spec fn local_host(host: Seq<char>) -> bool {
    let h = bare_host(host);
    if ascii_lower(h) == "localhost"@ {
        true
    } else if h.len() > 0 && every(h, |c: char| digit(c)) {
        true
    } else if (index_of(h, '.') is Some || starts(h, "0x"@) || starts(h, "0X"@)) && numeric_v4(
        h,
    ) is Some {
        private_v4(numeric_v4(h)->0)
    } else {
        match v6_words(h) {
            Some(w) => private_v6(w),
            None => false,
        }
    }
}

pub fn is_loopback_or_private_host(host: &str) -> (r: bool)
    ensures
        r == local_host(host@),
{
    let a = trim_start_class(host, Class::One('['));
    let b = trim_end_char(&a, ']');
    let h = trim_end_char(&b, '.');
    if same(&to_ascii_lower(&h), "localhost") {
        return true;
    }
    let v = chars_of(&h);
    let mut all_digits = true;
    let mut i: usize = 0;
    while i < v.len()
        invariant
            i <= v@.len(),
            all_digits == forall|j: int| 0 <= j < i ==> digit(#[trigger] v@[j]),
        decreases v@.len() - i,
    {
        if !is_digit(v[i]) {
            all_digits = false;
        }
        i += 1;
    }
    proof {
        let p = |c: char| digit(c);
        if all_digits {
            assert forall|j: int| 0 <= j < h@.len() implies #[trigger] p(h@[j]) by {
                assert(digit(v@[j]));
            }
        } else {
            let j = choose|j: int| 0 <= j < v@.len() && !digit(#[trigger] v@[j]);
            assert(!p(h@[j]));
        }
    }
    if v.len() > 0 && all_digits {
        return true;
    }
    if find_char(&v, '.').is_some() || starts_with(&h, "0x") || starts_with(&h, "0X") {
        if let Some(v4) = fold_numeric_host(&h) {
            return is_private_ipv4(&v4);
        }
    }
    match parse_ipv6(&h) {
        Some(w) => is_private_ipv6(&w),
        None => false,
    }
}

/// Four octets in decimal, with dots between them.
pub open spec fn dotted(q: Ipv4) -> Seq<char> {
    dec(q.a as nat) + seq!['.'] + dec(q.b as nat) + seq!['.'] + dec(q.c as nat) + seq!['.'] + dec(
        q.d as nat,
    )
}

proof fn lemma_dec_part(n: nat)
    requires
        n <= 255,
    ensures
        part_value(dec(n)) == Some(n),
        forall|i: int| 0 <= i < dec(n).len() ==> #[trigger] dec(n)[i] != '.',
        dec(n).len() > 0,
{
    lemma_dec_value(n);
    let t = dec(n);
    assert(t.len() > 0);
    assert forall|i: int| 0 <= i < t.len() implies #[trigger] t[i] != '.' && !in_class(
        Class::White,
        t[i],
    ) by {
        assert(digit(t[i]));
    }
    lemma_trim_fixed(t, Class::White);
    reveal_strlit("0x");
    reveal_strlit("0X");
    assert(!starts(t, "0x"@)) by {
        if starts(t, "0x"@) {
            assert(t.take(2)[1] == 'x');
            assert(digit(t[1]));
        }
    }
    assert(!starts(t, "0X"@)) by {
        if starts(t, "0X"@) {
            assert(t.take(2)[1] == 'X');
            assert(digit(t[1]));
        }
    }
    assert(t[0] != '+') by {
        assert(digit(t[0]));
    }
    assert(t.len() > 1 ==> t[0] != '0') by {
        reveal_with_fuel(dec, 3);
        if n >= 100 {
            assert(t[0] == crate::text::digit_char((n / 100) as int));
            lemma_digit_char((n / 100) as int);
        } else if n >= 10 {
            assert(t[0] == crate::text::digit_char((n / 10) as int));
            lemma_digit_char((n / 10) as int);
        }
    }
}

/// An address in dotted form is taken for a local host exactly when it lies in
/// one of the private ranges.
pub proof fn law_dotted_host_is_local_iff_private(q: Ipv4)
    ensures
        numeric_v4(dotted(q)) == Some(q),
        local_host(dotted(q)) == private_v4(q),
{
    let a = dec(q.a as nat);
    let b = dec(q.b as nat);
    let c = dec(q.c as nat);
    let d = dec(q.d as nat);
    lemma_dec_part(q.a as nat);
    lemma_dec_part(q.b as nat);
    lemma_dec_part(q.c as nat);
    lemma_dec_part(q.d as nat);
    lemma_dec_value(q.a as nat);
    lemma_dec_value(q.d as nat);
    let ab = a + seq!['.'] + b;
    let abc = ab + seq!['.'] + c;
    let h = dotted(q);
    assert(h =~= abc + seq!['.'] + d);
    lemma_split_one(a, '.');
    lemma_split_append(a, b, '.');
    lemma_split_append(ab, c, '.');
    lemma_split_append(abc, d, '.');
    let p = split_of(h, '.');
    assert(p =~= seq![a, b, c, d]);
    reveal_with_fuel(part_values, 5);
    let p3 = p.drop_last();
    let p2 = p3.drop_last();
    let p1 = p2.drop_last();
    assert(p3 =~= seq![a, b, c]);
    assert(p2 =~= seq![a, b]);
    assert(p1 =~= seq![a]);
    assert(p1.drop_last() =~= Seq::<Seq<char>>::empty());
    let v = seq![q.a as nat, q.b as nat, q.c as nat, q.d as nat];
    assert(part_values(p1) == Some(Seq::<nat>::empty().push(q.a as nat)));
    assert(part_values(p2) == Some(Seq::<nat>::empty().push(q.a as nat).push(q.b as nat)));
    assert(part_values(p3) == Some(
        Seq::<nat>::empty().push(q.a as nat).push(q.b as nat).push(q.c as nat),
    ));
    assert(part_values(p) == Some(
        Seq::<nat>::empty().push(q.a as nat).push(q.b as nat).push(q.c as nat).push(q.d as nat),
    ));
    assert(Seq::<nat>::empty().push(q.a as nat).push(q.b as nat).push(q.c as nat).push(q.d as nat)
        =~= v);
    // The guard leaves the text as it is, and sees its dot.
    assert(digit(a[0]));
    assert(h[0] == a[0]);
    assert(digit(d.last()));
    assert(h.last() == d.last());
    assert(bare_host(h) == h);
    assert(h[a.len() as int] == '.');
    lemma_index_from(h, '.', 0);
    assert(ascii_lower(h) != "localhost"@) by {
        reveal_strlit("localhost");
        assert(ascii_lower(h)[0] == h[0]);
    }
    assert(!every(h, |x: char| digit(x))) by {
        let f = |x: char| digit(x);
        assert(!f(h[a.len() as int]));
    }
}

// ---------------------------------------------------------------------------
// Fetching a page title
// ---------------------------------------------------------------------------

/// Why a page may not be fetched: it is no URL, its scheme is not `http` or
/// `https`, or its host is local.
pub open spec fn guard_of(noun: Seq<char>, u: Option<UrlV>) -> Result<(), Seq<char>> {
    match u {
        None => Err("invalid "@ + noun + " URL"@),
        Some(p) => if p.scheme != "http"@ && p.scheme != "https"@ {
            Err("unsupported "@ + noun + " URL scheme: "@ + p.scheme)
        } else if local_host(or_empty(p.host_str)) {
            Err(noun + " URL points at a local/private host"@)
        } else {
            Ok(())
        },
    }
}

/// Holds the parts of a parsed URL to the rules for fetching it.
pub fn guard_parts(noun: &str, u: &Option<UrlParts>) -> (r: Result<(), String>)
    ensures
        unit_result(r) == guard_of(
            noun@,
            match *u {
                Some(p) => Some(p@),
                None => None,
            },
        ),
{
    match u {
        None => {
            let mut e = "invalid ".to_string();
            e.append(noun);
            e.append(" URL");
            Err(e)
        },
        Some(p) => {
            if !same(&p.scheme, "http") && !same(&p.scheme, "https") {
                let mut e = "unsupported ".to_string();
                e.append(noun);
                e.append(" URL scheme: ");
                e.append(&p.scheme);
                return Err(e);
            }
            let host = match &p.host_str {
                Some(h) => h.clone(),
                None => String::new(),
            };
            assert(host@ =~= or_empty(p@.host_str));
            if is_loopback_or_private_host(&host) {
                let mut e = noun.to_string();
                e.append(" URL points at a local/private host");
                return Err(e);
            }
            Ok(())
        },
    }
}

/// Whether the title of a page may be fetched.
pub fn check_link_url(url: &str) -> (r: Result<(), String>)
    ensures
        unit_result(r) == guard_of("link"@, url_of(url@)),
{
    let u = parse_url(url);
    guard_parts("link", &u)
}

/// The most bytes of a page that are read for its title.
pub const LINK_PAGE_MAX: u64 = 524288;

/// Refuses a page that is, or says it is, too large.
pub open spec fn link_size_guard(len: u64) -> Result<(), Seq<char>> {
    if len > 524288 {
        Err("link page exceeded 512 KiB limit"@)
    } else {
        Ok(())
    }
}

pub fn check_link_size(len: u64) -> (r: Result<(), String>)
    ensures
        unit_result(r) == link_size_guard(len),
{
    if len > LINK_PAGE_MAX {
        Err("link page exceeded 512 KiB limit".to_string())
    } else {
        Ok(())
    }
}

/// What the match of the title pattern in the page amounts to.
pub open spec fn title_of(
    group: Result<Option<Seq<char>>, Seq<char>>,
) -> Result<Seq<char>, Seq<char>> {
    match group {
        Ok(Some(t)) => Ok(trimmed(t)),
        Ok(None) => Ok(Seq::empty()),
        Err(e) => Err(e),
    }
}

/// The title out of what the pattern found.
pub fn title_from_group(group: Result<Option<String>, String>) -> (r: Result<String, String>)
    ensures
        text_result(r) == title_of(group_result(group)),
{
    match group {
        Ok(Some(t)) => Ok(trim(&t)),
        Ok(None) => {
            let t = String::new();
            assert(t@ =~= Seq::<char>::empty());
            Ok(t)
        },
        Err(e) => Err(e),
    }
}

/// The text of the first `<title>` of a page; empty when it has none.
pub fn link_title(body: &Vec<u8>) -> (r: Result<String, String>)
    ensures
        text_result(r) == title_of(
            first_group_of("(?is)<title[^>]*>(.*?)</title>"@, lossy_text(body@)),
        ),
{
    let html = text_lossy(body);
    title_from_group(first_group("(?is)<title[^>]*>(.*?)</title>", &html))
}

/// The title that is answered for a link. A page that could not be fetched has
/// the empty one, and a page that is too large is refused.
pub open spec fn answered_title(page: Option<Seq<u8>>) -> Result<Seq<char>, Seq<char>> {
    match page {
        None => Ok(Seq::empty()),
        Some(body) => if body.len() > 524288 {
            Err("link page exceeded 512 KiB limit"@)
        } else {
            title_of(first_group_of("(?is)<title[^>]*>(.*?)</title>"@, lossy_text(body)))
        },
    }
}

pub open spec fn opt_bytes(o: Option<Vec<u8>>) -> Option<Seq<u8>> {
    match o {
        Some(v) => Some(v@),
        None => None,
    }
}

pub fn fetch_link_title(page: &Option<Vec<u8>>) -> (r: Result<String, String>)
    ensures
        text_result(r) == answered_title(opt_bytes(*page)),
{
    match page {
        None => {
            let t = String::new();
            assert(t@ =~= Seq::<char>::empty());
            Ok(t)
        },
        Some(body) => match check_link_size(body.len() as u64) {
            Ok(_) => link_title(body),
            Err(e) => Err(e),
        },
    }
}

// ---------------------------------------------------------------------------
// Files
// ---------------------------------------------------------------------------

/// A name that stays in its directory.
pub open spec fn safe_name(name: Seq<char>) -> bool {
    &&& name.len() > 0
    &&& name != "."@
    &&& name != ".."@
    &&& forall|i: int|
        0 <= i < name.len() ==> (#[trigger] name[i]) != '/' && name[i] != '\\' && name[i] != ':'
}

/// Refuses a rename to a name that could leave the directory.
pub open spec fn rename_guard(name: Seq<char>) -> Result<(), Seq<char>> {
    if safe_name(name) {
        Ok(())
    } else {
        Err("unsafe rename target: "@ + debug_text(name))
    }
}

pub fn check_rename(name: &str) -> (r: Result<(), String>)
    ensures
        unit_result(r) == rename_guard(name@),
{
    let v = chars_of(name);
    let mut clean = true;
    let mut i: usize = 0;
    while i < v.len()
        invariant
            i <= v@.len(),
            clean == forall|j: int|
                0 <= j < i ==> (#[trigger] v@[j]) != '/' && v@[j] != '\\' && v@[j] != ':',
        decreases v@.len() - i,
    {
        if v[i] == '/' || v[i] == '\\' || v[i] == ':' {
            clean = false;
        }
        i += 1;
    }
    if v.len() == 0 || !clean || same(name, ".") || same(name, "..") {
        let mut e = "unsafe rename target: ".to_string();
        e.append(&debug_form(name));
        Err(e)
    } else {
        Ok(())
    }
}

/// The last `n` lines of a text.
pub open spec fn tail_of(s: Seq<char>, n: int) -> Seq<Seq<char>> {
    let l = lines_of(s);
    if l.len() <= n {
        l
    } else {
        l.skip(l.len() - n)
    }
}

pub fn tail_lines(content: &str, n: usize) -> (r: Vec<String>)
    ensures
        texts(r@) == tail_of(content@, n as int),
{
    let all = lines(content);
    let from: usize = if all.len() <= n {
        0
    } else {
        all.len() - n
    };
    let ghost l = lines_of(content@);
    assert(l.len() == all@.len());
    let mut out: Vec<String> = Vec::new();
    let mut i: usize = from;
    while i < all.len()
        invariant
            from <= i <= all@.len(),
            texts(all@) == l,
            texts(out@) == l.subrange(from as int, i as int),
        decreases all@.len() - i,
    {
        let ghost before = texts(out@);
        let line = all[i].clone();
        assert(line@ == texts(all@)[i as int]);
        out.push(line);
        assert(texts(out@) == before.push(line@));
        assert(l.subrange(from as int, i + 1) == l.subrange(from as int, i as int).push(
            l[i as int],
        ));
        i += 1;
    }
    assert(l.subrange(from as int, l.len() as int) =~= tail_of(content@, n as int));
    out
}

/// How many lines of the agent log the boot-failure panel shows.
pub const RECENT_LOG_LINES: usize = 40;

/// The recent lines of the agent log, for the renderer; none when the log
/// cannot be read.
pub open spec fn recent_lines(content: Option<Seq<char>>) -> JsonV {
    JsonV::Obj(
        put(
            no_fields(),
            "lines"@,
            strs(
                match content {
                    Some(c) => tail_of(c, 40),
                    None => Seq::empty(),
                },
            ),
        ),
    )
}

pub fn get_recent_logs(content: &Option<String>) -> (r: Json)
    ensures
        r@ == recent_lines(opt_text(*content)),
{
    broadcast use crate::json::group_json_views;

    let tail = match content {
        Some(c) => tail_lines(c, RECENT_LOG_LINES),
        None => {
            let none: Vec<String> = Vec::new();
            assert(texts(none@) =~= Seq::<Seq<char>>::empty());
            none
        },
    };
    let mut o: Vec<(String, Json)> = Vec::new();
    assert(fields(o@) =~= no_fields());
    set_field(&mut o, "lines", Json::from_texts(&tail));
    Json::Obj(o)
}

// ---------------------------------------------------------------------------
// Pasted images
// ---------------------------------------------------------------------------

/// An extension that is kept: a dot and one to five ASCII letters or digits;
/// anything else becomes `.png`.
pub open spec fn image_ext(ext: Seq<char>) -> Seq<char> {
    let raw = lowercase(trimmed(ext));
    let bare = match after_prefix(raw, "."@) {
        Some(b) => b,
        None => raw,
    };
    if bare.len() > 0 && every(bare, |c: char| alnum(c)) && bare.len() <= 5 {
        "."@ + bare
    } else {
        ".png"@
    }
}

/// The name without what follows its last dot; a name that only starts with a
/// dot is kept.
pub open spec fn stem_of(name: Seq<char>) -> Seq<char> {
    match last_index_of(name, '.') {
        Some(i) => if i > 0 {
            name.take(i)
        } else {
            name
        },
        None => name,
    }
}

/// What follows the last path separator of either kind.
pub open spec fn last_segment(s: Seq<char>) -> Seq<char>
    decreases s.len(),
{
    if s.len() == 0 {
        s
    } else if s.last() == '/' || s.last() == '\\' {
        Seq::empty()
    } else {
        last_segment(s.drop_last()).push(s.last())
    }
}

/// The caller's file name without what could lead elsewhere: separators, and on
/// Windows drives.
pub open spec fn bare_name(name: Seq<char>, windows: bool) -> Seq<char> {
    let t = trimmed(last_segment(name));
    if windows {
        off_drive(t)
    } else {
        t
    }
}

/// The caller's file name reduced to a bare stem, when anything is left of it.
pub open spec fn preferred_stem(name: Option<Seq<char>>, windows: bool) -> Option<Seq<char>> {
    match name {
        None => None,
        Some(n) => {
            let t = bare_name(n, windows);
            if t.len() == 0 || t == "."@ || t == ".."@ {
                None
            } else {
                Some(stem_of(t))
            }
        },
    }
}

/// The four bytes of a number, most significant first.
pub open spec fn be_bytes(n: u32) -> Seq<u8> {
    seq![
        (n / 0x100_0000) as u8,
        (n / 0x1_0000 % 256) as u8,
        (n / 0x100 % 256) as u8,
        (n % 256) as u8,
    ]
}

pub open spec fn image_file_name(
    name: Option<Seq<char>>,
    windows: bool,
    millis: nat,
    suffix: u32,
    ext: Seq<char>,
) -> Seq<char> {
    (match preferred_stem(name, windows) {
        Some(b) => b,
        None => "composer"@,
    }) + "_"@ + dec(millis) + "_"@ + hex_of(be_bytes(suffix)) + image_ext(ext)
}

fn safe_image_ext(ext: &str) -> (r: String)
    ensures
        r@ == image_ext(ext@),
{
    let raw = to_lowercase(&trim(ext));
    let bare = match strip_prefix(&raw, ".") {
        Some(b) => b,
        None => raw,
    };
    let v = chars_of(&bare);
    let mut ok = true;
    let mut i: usize = 0;
    while i < v.len()
        invariant
            i <= v@.len(),
            ok == forall|j: int| 0 <= j < i ==> alnum(#[trigger] v@[j]),
        decreases v@.len() - i,
    {
        if !is_alnum(v[i]) {
            ok = false;
        }
        i += 1;
    }
    proof {
        let p = |c: char| alnum(c);
        if ok {
            assert forall|j: int| 0 <= j < bare@.len() implies #[trigger] p(bare@[j]) by {
                assert(alnum(v@[j]));
            }
        } else {
            let j = choose|j: int| 0 <= j < v@.len() && !alnum(#[trigger] v@[j]);
            assert(!p(bare@[j]));
        }
    }
    if v.len() > 0 && ok && v.len() <= 5 {
        let mut out = ".".to_string();
        out.append(&bare);
        out
    } else {
        ".png".to_string()
    }
}

fn segment_after_separator(s: &str) -> (r: String)
    ensures
        r@ == last_segment(s@),
{
    let v = chars_of(s);
    let mut n: usize = v.len();
    assert(s@.take(n as int) == s@);
    assert(last_segment(s@) =~= last_segment(s@.take(n as int)) + s@.skip(n as int));
    while n > 0 && v[n - 1] != '/' && v[n - 1] != '\\'
        invariant
            n <= v@.len(),
            v@ == s@,
            last_segment(s@) == last_segment(s@.take(n as int)) + s@.skip(n as int),
        decreases n,
    {
        assert(s@.take(n as int).drop_last() == s@.take(n - 1));
        assert(last_segment(s@.take(n as int)) + s@.skip(n as int) =~= last_segment(
            s@.take(n - 1),
        ) + s@.skip(n - 1));
        n -= 1;
    }
    assert(last_segment(s@.take(n as int)) =~= Seq::<char>::empty());
    assert(s@.skip(n as int) =~= v@.subrange(n as int, v@.len() as int));
    text_range(&v, n, v.len())
}

fn file_stem(name: &str) -> (r: String)
    ensures
        r@ == stem_of(name@),
{
    let v = chars_of(name);
    match rfind_char(&v, '.') {
        Some(i) => if i > 0 {
            assert(v@.subrange(0, i as int) =~= name@.take(i as int));
            text_range(&v, 0, i)
        } else {
            name.to_string()
        },
        None => name.to_string(),
    }
}

/// The file name of a pasted image. `windows` says whether the platform knows
/// drives.
pub fn composer_image_name(
    name: &Option<String>,
    windows: bool,
    millis: u128,
    suffix: u32,
    ext: &str,
) -> (r: String)
    ensures
        r@ == image_file_name(opt_text(*name), windows, millis as nat, suffix, ext@),
{
    let stem = match name {
        Some(n) => {
            let s = trim(&segment_after_separator(n));
            let t = if windows {
                strip_drives(&s)
            } else {
                s
            };
            if t.as_str().is_empty() || same(&t, ".") || same(&t, "..") {
                "composer".to_string()
            } else {
                file_stem(&t)
            }
        },
        None => "composer".to_string(),
    };
    let mut out = stem;
    out.append("_");
    out.append(&decimal(millis));
    out.append("_");
    let mut bytes: Vec<u8> = Vec::new();
    bytes.push((suffix / 0x100_0000) as u8);
    bytes.push((suffix / 0x1_0000 % 256) as u8);
    bytes.push((suffix / 0x100 % 256) as u8);
    bytes.push((suffix % 256) as u8);
    assert(bytes@ =~= be_bytes(suffix));
    out.append(&hex(&bytes));
    out.append(&safe_image_ext(ext));
    out
}

proof fn lemma_last_segment(s: Seq<char>)
    ensures
        !last_segment(s).contains('/') && !last_segment(s).contains('\\'),
    decreases s.len(),
{
    if s.len() > 0 && s.last() != '/' && s.last() != '\\' {
        let r = last_segment(s.drop_last());
        lemma_last_segment(s.drop_last());
        assert forall|c: char| c == '/' || c == '\\' implies !(#[trigger] r.push(s.last()).contains(
            c,
        )) by {
            if r.push(s.last()).contains(c) {
                let k = choose|k: int| 0 <= k <= r.len() && r.push(s.last())[k] == c;
                assert(r[k] == c);
            }
        }
    }
}

/// A part of a text holds no character that the text does not hold.
proof fn lemma_part_lacks(s: Seq<char>, part: Seq<char>, at: int, c: char)
    requires
        !s.contains(c),
        0 <= at && at + part.len() <= s.len(),
        part == s.subrange(at, at + part.len()),
    ensures
        !part.contains(c),
{
    if part.contains(c) {
        let k = choose|k: int| 0 <= k < part.len() && part[k] == c;
        assert(s[at + k] == c);
    }
}

/// What a stem is a part of: the last segment of the caller's name.
proof fn lemma_stem(name: Option<Seq<char>>, windows: bool)
    ensures
        match preferred_stem(name, windows) {
            Some(s) => {
                &&& s.len() > 0
                &&& !s.contains('/') && !s.contains('\\')
                &&& windows ==> !names_drive(s)
            },
            None => true,
        },
{
    if let Some(n) = name {
        let seg = last_segment(n);
        lemma_last_segment(n);
        let front = trim_start_of(seg, Class::White);
        let t = trimmed(seg);
        lemma_trim_start(seg, Class::White);
        lemma_trim_end(front, Class::White);
        let at = seg.len() - front.len();
        assert(t =~= seg.subrange(at, at + t.len()));
        let b = bare_name(n, windows);
        lemma_off_drive(t);
        let from = t.len() - b.len();
        assert(b =~= t.subrange(from, from + b.len()));
        let s = stem_of(b);
        lemma_last_index_of(b, '.');
        assert(s =~= b.subrange(0, s.len() as int));
        assert forall|c: char| c == '/' || c == '\\' implies !#[trigger] s.contains(c) by {
            lemma_part_lacks(seg, t, at, c);
            lemma_part_lacks(t, b, from, c);
            lemma_part_lacks(b, s, 0, c);
        }
    }
}

/// Whatever a pasted image is called, its file lies directly in its directory:
/// the name holds no separator, is neither `.` nor `..`, and on Windows names no
/// drive.
pub proof fn law_image_stays_in_its_directory(
    name: Option<Seq<char>>,
    windows: bool,
    millis: nat,
    suffix: u32,
    ext: Seq<char>,
)
    ensures
        ({
            let f = image_file_name(name, windows, millis, suffix, ext);
            &&& !f.contains('/') && !f.contains('\\')
            &&& f != "."@ && f != ".."@
            &&& windows ==> !names_drive(f)
        }),
{
    lemma_stem(name, windows);
    let stem = match preferred_stem(name, windows) {
        Some(b) => b,
        None => "composer"@,
    };
    let f = image_file_name(name, windows, millis, suffix, ext);
    let h = hex_of(be_bytes(suffix));
    let e = image_ext(ext);
    reveal_strlit("composer");
    reveal_strlit("_");
    reveal_strlit(".png");
    reveal_strlit(".");
    reveal_strlit("..");
    lemma_dec_value(millis);
    lemma_hex_plain(be_bytes(suffix));
    assert(f[stem.len() as int] == '_');
    let raw = lowercase(trimmed(ext));
    let bare = match after_prefix(raw, "."@) {
        Some(b) => b,
        None => raw,
    };
    let p = |c: char| alnum(c);
    assert forall|c: char| c == '/' || c == '\\' implies !#[trigger] f.contains(c) by {
        if f.contains(c) {
            let k = choose|k: int| 0 <= k < f.len() && f[k] == c;
            let a = stem.len() as int;
            let b = a + 1 + dec(millis).len();
            let d = b + 1 + h.len();
            if k < a {
                assert(stem[k] == c);
            } else if k == a || k == b {
            } else if k < b {
                assert(dec(millis)[k - a - 1] == c);
            } else if k < d {
                assert(h[k - b - 1] == c);
            } else {
                assert(e[k - d] == c);
                if e == "."@ + bare && k > d {
                    assert(bare[k - d - 1] == c);
                    assert(p(bare[k - d - 1]));
                }
            }
        }
    }
    if windows && names_drive(f) {
        if stem.len() >= 2 {
            assert(f[0] == stem[0] && f[1] == stem[1]);
        } else {
            assert(f[1] == '_');
        }
    }
}

/// Where a pasted image goes.
pub enum ImageDir {
    /// The caller's directory.
    Given(String),
    /// The images directory of the application.
    Default,
}

/// A pasted image, ready to be written.
pub struct ImageWrite {
    pub dir: ImageDir,
    pub file_name: String,
    pub bytes: Vec<u8>,
}

pub open spec fn image_dir_of(dir: Option<Seq<char>>) -> Option<Seq<char>> {
    match dir {
        Some(d) => if trimmed(d).len() > 0 {
            Some(d)
        } else {
            None
        },
        None => None,
    }
}

pub open spec fn image_dir_view(d: ImageDir) -> Option<Seq<char>> {
    match d {
        ImageDir::Given(s) => Some(s@),
        ImageDir::Default => None,
    }
}

/// What writing a pasted image comes to: the words of the refusal, or where it
/// goes, its bytes and its name. `absolute` says whether the caller's directory
/// is an absolute path on this platform.
pub open spec fn image_write_of(
    decoded: Result<Seq<u8>, Seq<char>>,
    dir: Option<Seq<char>>,
    absolute: bool,
    file_name: Seq<char>,
) -> Result<(Option<Seq<char>>, Seq<char>, Seq<u8>), Seq<char>> {
    match decoded {
        Err(e) => Err("saveImageBuffer: bad base64: "@ + e),
        Ok(bytes) => if bytes.len() == 0 {
            Err("saveImageBuffer: empty image"@)
        } else if image_dir_of(dir) is Some && !absolute {
            Err("saveImageBuffer: dir must be absolute"@)
        } else {
            Ok((image_dir_of(dir), file_name, bytes))
        },
    }
}

pub open spec fn image_result(r: Result<ImageWrite, String>) -> Result<
    (Option<Seq<char>>, Seq<char>, Seq<u8>),
    Seq<char>,
> {
    match r {
        Ok(w) => Ok((image_dir_view(w.dir), w.file_name@, w.bytes@)),
        Err(e) => Err(e@),
    }
}

/// Decides on an image whose bytes have been decoded.
pub fn plan_image_write(
    decoded: Result<Vec<u8>, String>,
    dir: &Option<String>,
    absolute: bool,
    file_name: String,
) -> (r: Result<ImageWrite, String>)
    ensures
        image_result(r) == image_write_of(
            bytes_result(decoded),
            opt_text(*dir),
            absolute,
            file_name@,
        ),
{
    let bytes = match decoded {
        Ok(b) => b,
        Err(e) => {
            let mut msg = "saveImageBuffer: bad base64: ".to_string();
            msg.append(&e);
            return Err(msg);
        },
    };
    if bytes.len() == 0 {
        return Err("saveImageBuffer: empty image".to_string());
    }
    let target = match dir {
        Some(d) => {
            let t = trim(d);
            if t.as_str().is_empty() {
                ImageDir::Default
            } else if !absolute {
                return Err("saveImageBuffer: dir must be absolute".to_string());
            } else {
                ImageDir::Given(d.clone())
            }
        },
        None => ImageDir::Default,
    };
    Ok(ImageWrite { dir: target, file_name, bytes })
}

/// Decodes a pasted image and names it. The number in the name is random.
pub fn save_image_buffer(
    data_base64: &str,
    ext: &str,
    dir: &Option<String>,
    absolute: bool,
    name: &Option<String>,
    windows: bool,
    millis: u128,
) -> (r: Result<ImageWrite, String>)
    ensures
        exists|suffix: u32|
            image_result(r) == image_write_of(
                base64_bytes(data_base64@),
                opt_text(*dir),
                absolute,
                #[trigger] image_file_name(
                    opt_text(*name),
                    windows,
                    millis as nat,
                    suffix,
                    ext@,
                ),
            ),
{
    let suffix: u32 = random_u32();
    let file_name = composer_image_name(name, windows, millis, suffix, ext);
    plan_image_write(base64_decode(data_base64), dir, absolute, file_name)
}

// ---------------------------------------------------------------------------
// Directories
// ---------------------------------------------------------------------------

/// A directory by a base path and the names below it.
pub struct DirBelow {
    pub base: String,
    pub below: Vec<String>,
}

pub open spec fn given(o: Option<Seq<char>>) -> bool {
    o is Some && o->0.len() > 0
}

/// The home of the agent: the override when it is set, else `hermes` under the
/// local application data on Windows, `.hermes` under the home elsewhere.
pub open spec fn hermes_home_of(
    over: Option<Seq<char>>,
    windows: bool,
    local_app_data: Option<Seq<char>>,
    user_profile: Option<Seq<char>>,
    home: Option<Seq<char>>,
) -> (Seq<char>, Seq<Seq<char>>) {
    if given(over) {
        (over->0, Seq::empty())
    } else if windows {
        match local_app_data {
            Some(d) => (d, seq!["hermes"@]),
            None => match user_profile {
                Some(p) => (p, seq!["AppData"@, "Local"@, "hermes"@]),
                None => (Seq::empty(), seq!["hermes"@]),
            },
        }
    } else {
        (or_empty(home), seq![".hermes"@])
    }
}

pub fn hermes_home(
    over: &Option<String>,
    windows: bool,
    local_app_data: &Option<String>,
    user_profile: &Option<String>,
    home: &Option<String>,
) -> (r: DirBelow)
    ensures
        (r.base@, texts(r.below@)) == hermes_home_of(
            opt_text(*over),
            windows,
            opt_text(*local_app_data),
            opt_text(*user_profile),
            opt_text(*home),
        ),
{
    let mut below: Vec<String> = Vec::new();
    assert(texts(below@) =~= Seq::<Seq<char>>::empty());
    if let Some(o) = over {
        if !o.as_str().is_empty() {
            return DirBelow { base: o.clone(), below };
        }
    }
    if windows {
        match local_app_data {
            Some(d) => {
                below.push("hermes".to_string());
                assert(texts(below@) =~= seq!["hermes"@]);
                DirBelow { base: d.clone(), below }
            },
            None => match user_profile {
                Some(p) => {
                    below.push("AppData".to_string());
                    below.push("Local".to_string());
                    below.push("hermes".to_string());
                    assert(texts(below@) =~= seq!["AppData"@, "Local"@, "hermes"@]);
                    DirBelow { base: p.clone(), below }
                },
                None => {
                    below.push("hermes".to_string());
                    assert(texts(below@) =~= seq!["hermes"@]);
                    let base = String::new();
                    assert(base@ =~= Seq::<char>::empty());
                    DirBelow { base, below }
                },
            },
        }
    } else {
        below.push(".hermes".to_string());
        assert(texts(below@) =~= seq![".hermes"@]);
        let base = match home {
            Some(h) => h.clone(),
            None => String::new(),
        };
        assert(base@ =~= or_empty(opt_text(*home)));
        DirBelow { base, below }
    }
}

// ---------------------------------------------------------------------------
// The default project directory
// ---------------------------------------------------------------------------

/// Options of the file pickers.
pub struct SelectPathsOptions {
    pub directories: Option<bool>,
    pub multiple: Option<bool>,
    pub default_path: Option<String>,
    pub title: Option<String>,
    pub filters: Option<Vec<SelectPathFilter>>,
}

pub struct SelectPathFilter {
    pub extensions: Vec<String>,
    pub name: String,
}

/// Which picker opens.
#[derive(Clone, Copy, Debug, PartialEq, Eq, Structural)]
pub enum Picker {
    Folders,
    Folder,
    Files,
    File,
}

/// The picker that the options ask for. An absent option is off.
pub open spec fn picker_of(directories: Option<bool>, multiple: Option<bool>) -> Picker {
    match (directories == Some(true), multiple == Some(true)) {
        (true, true) => Picker::Folders,
        (true, false) => Picker::Folder,
        (false, true) => Picker::Files,
        (false, false) => Picker::File,
    }
}

pub fn picker_for(options: &SelectPathsOptions) -> (r: Picker)
    ensures
        r == picker_of(options.directories, options.multiple),
{
    let directories = match options.directories {
        Some(d) => d,
        None => false,
    };
    let multiple = match options.multiple {
        Some(m) => m,
        None => false,
    };
    if directories {
        if multiple {
            Picker::Folders
        } else {
            Picker::Folder
        }
    } else if multiple {
        Picker::Files
    } else {
        Picker::File
    }
}

pub struct DefaultProjectDirResult {
    pub default_label: String,
    pub dir: Option<String>,
    pub resolved_cwd: String,
}

pub open spec fn saved_dir(content: Option<Seq<char>>) -> Option<Seq<char>> {
    match content {
        Some(s) => if trimmed(s).len() > 0 {
            Some(trimmed(s))
        } else {
            None
        },
        None => None,
    }
}

/// How the setting is called.
pub open spec fn dir_label(content: Option<Seq<char>>) -> Seq<char> {
    if saved_dir(content) is Some {
        "Custom"@
    } else {
        "Default"@
    }
}

/// The setting as the file holds it; a missing or blank file means the default.
pub fn settings_get_default_project_dir(
    content: &Option<String>,
    cwd: String,
) -> (r: DefaultProjectDirResult)
    ensures
        opt_text(r.dir) == saved_dir(opt_text(*content)),
        r.default_label@ == dir_label(opt_text(*content)),
        r.resolved_cwd == cwd,
{
    let dir = match content {
        Some(s) => {
            let t = trim(s);
            if t.as_str().is_empty() {
                None
            } else {
                Some(t)
            }
        },
        None => None,
    };
    let label = if dir.is_some() {
        "Custom".to_string()
    } else {
        "Default".to_string()
    };
    DefaultProjectDirResult { default_label: label, dir, resolved_cwd: cwd }
}

/// What a choice of default directory writes: the trimmed path, or nothing when
/// the setting is cleared and its file removed.
pub fn settings_set_default_project_dir(dir: &Option<String>) -> (r: Option<String>)
    ensures
        opt_text(r) == saved_dir(opt_text(*dir)),
{
    match dir {
        Some(s) => {
            let t = trim(s);
            if t.as_str().is_empty() {
                None
            } else {
                Some(t)
            }
        },
        None => None,
    }
}

/// A setting that was written is read back.
pub proof fn law_saved_dir_is_read_back(dir: Option<Seq<char>>)
    ensures
        saved_dir(saved_dir(dir)) == saved_dir(dir),
{
    if let Some(s) = dir {
        crate::text::lemma_trim_idempotent(s, Class::White);
    }
}

/// The answer of the directory picker.
pub open spec fn picked_dir(picked: Option<Seq<char>>) -> JsonV {
    JsonV::Obj(
        put(
            put(no_fields(), "canceled"@, JsonV::Bool(picked is None)),
            "dir"@,
            opt_str(picked),
        ),
    )
}

pub fn settings_pick_default_project_dir(picked: &Option<String>) -> (r: Json)
    ensures
        r@ == picked_dir(opt_text(*picked)),
{
    broadcast use crate::json::group_json_views;

    let mut o: Vec<(String, Json)> = Vec::new();
    assert(fields(o@) =~= no_fields());
    set_field(&mut o, "canceled", Json::Bool(picked.is_none()));
    set_field(&mut o, "dir", Json::from_opt(picked));
    Json::Obj(o)
}

} // verus!
