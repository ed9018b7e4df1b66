//! Text as a sequence of characters: the operations the rest of the library
//! is written with, each with the function on `Seq<char>` that it computes.

use vstd::prelude::*;

verus! {

// ---------------------------------------------------------------------------
// Characters and plain conversions
// ---------------------------------------------------------------------------

/// A set of characters that text is trimmed or split by.
#[derive(Clone, Copy)]
pub enum Class {
    /// The Unicode `White_Space` characters.
    White,
    /// Space, tab, line feed, form feed and carriage return.
    AsciiWhite,
    /// One given character.
    One(char),
}

/// The Unicode `White_Space` property.
pub open spec fn white_space(c: char) -> bool {
    let n = c as u32;
    ||| 0x9 <= n <= 0xd
    ||| n == 0x20
    ||| n == 0x85
    ||| n == 0xa0
    ||| n == 0x1680
    ||| 0x2000 <= n <= 0x200a
    ||| n == 0x2028
    ||| n == 0x2029
    ||| n == 0x202f
    ||| n == 0x205f
    ||| n == 0x3000
}

pub open spec fn ascii_white(c: char) -> bool {
    c == ' ' || c == '\t' || c == '\n' || c == '\x0c' || c == '\r'
}

pub open spec fn in_class(k: Class, c: char) -> bool {
    match k {
        Class::White => white_space(c),
        Class::AsciiWhite => ascii_white(c),
        Class::One(x) => c == x,
    }
}

/// Whether `c` belongs to the class.
pub fn class_has(k: Class, c: char) -> (r: bool)
    ensures
        r == in_class(k, c),
{
    match k {
        Class::White => {
            let n: u32 = c as u32;
            (0x9 <= n && n <= 0xd) || n == 0x20 || n == 0x85 || n == 0xa0 || n == 0x1680 || (0x2000
                <= n && n <= 0x200a) || n == 0x2028 || n == 0x2029 || n == 0x202f || n == 0x205f
                || n == 0x3000
        },
        Class::AsciiWhite => c == ' ' || c == '\t' || c == '\n' || c == '\x0c' || c == '\r',
        Class::One(x) => c == x,
    }
}

pub open spec fn digit(c: char) -> bool {
    '0' <= c && c <= '9'
}

pub open spec fn lower_letter(c: char) -> bool {
    'a' <= c && c <= 'z'
}

pub open spec fn upper_letter(c: char) -> bool {
    'A' <= c && c <= 'Z'
}

pub open spec fn alnum(c: char) -> bool {
    digit(c) || lower_letter(c) || upper_letter(c)
}

pub fn is_digit(c: char) -> (r: bool)
    ensures
        r == digit(c),
{
    '0' <= c && c <= '9'
}

pub fn is_lower_letter(c: char) -> (r: bool)
    ensures
        r == lower_letter(c),
{
    'a' <= c && c <= 'z'
}

/// ASCII letters and digits.
pub fn is_alnum(c: char) -> (r: bool)
    ensures
        r == alnum(c),
{
    ('0' <= c && c <= '9') || ('a' <= c && c <= 'z') || ('A' <= c && c <= 'Z')
}

/// The views of a list of strings.
pub open spec fn texts(v: Seq<String>) -> Seq<Seq<char>> {
    v.map_values(|s: String| s@)
}

/// `String::push`: puts one character at the end.
pub assume_specification[ String::push ](s: &mut String, c: char)
    ensures
        final(s)@ == old(s)@.push(c),
;

/// The characters of `s`, in order.
pub fn chars_of(s: &str) -> (r: Vec<char>)
    ensures
        r@ == s@,
{
    let mut out: Vec<char> = Vec::new();
    for c in it: s.chars()
        invariant
            it.seq() == s@,
            out@ == s@.take(it.index()),
    {
        out.push(c);
    }
    out
}

/// The text made of the characters from `from` up to, not including, `to`.
pub fn text_range(v: &Vec<char>, from: usize, to: usize) -> (r: String)
    requires
        from <= to <= v@.len(),
    ensures
        r@ == v@.subrange(from as int, to as int),
{
    let mut out = String::new();
    let mut i: usize = from;
    while i < to
        invariant
            from <= i <= to <= v@.len(),
            out@ == v@.subrange(from as int, i as int),
        decreases to - i,
    {
        out.push(v[i]);
        i += 1;
    }
    out
}

/// The text made of all the characters.
pub fn text_of(v: &Vec<char>) -> (r: String)
    ensures
        r@ == v@,
{
    text_range(v, 0, v.len())
}

/// Equality of two texts.
pub fn same(a: &str, b: &str) -> (r: bool)
    ensures
        r == (a@ == b@),
{
    let x = chars_of(a);
    let y = chars_of(b);
    if x.len() != y.len() {
        return false;
    }
    let mut i: usize = 0;
    while i < x.len()
        invariant
            i <= x@.len(),
            x@.len() == y@.len(),
            x@ == a@,
            y@ == b@,
            forall|j: int| 0 <= j < i ==> x@[j] == y@[j],
        decreases x@.len() - i,
    {
        if x[i] != y[i] {
            return false;
        }
        i += 1;
    }
    assert(x@ =~= y@);
    true
}

pub open spec fn opt_text(o: Option<String>) -> Option<Seq<char>> {
    match o {
        Some(s) => Some(s@),
        None => None,
    }
}

/// The text, or the empty one for none.
pub open spec fn or_empty(o: Option<Seq<char>>) -> Seq<char> {
    match o {
        Some(s) => s,
        None => Seq::empty(),
    }
}

pub open spec fn text_result(r: Result<String, String>) -> Result<Seq<char>, Seq<char>> {
    match r {
        Ok(s) => Ok(s@),
        Err(e) => Err(e@),
    }
}

pub open spec fn unit_result(r: Result<(), String>) -> Result<(), Seq<char>> {
    match r {
        Ok(_) => Ok(()),
        Err(e) => Err(e@),
    }
}

/// A copy of an optional text, or the empty text for none.
pub fn text_or_empty(o: &Option<String>) -> (r: String)
    ensures
        r@ == or_empty(opt_text(*o)),
{
    match o {
        Some(s) => s.clone(),
        None => {
            let none = String::new();
            assert(none@ =~= Seq::<char>::empty());
            none
        },
    }
}

/// A copy of an optional text.
pub fn copy_opt(o: &Option<String>) -> (r: Option<String>)
    ensures
        opt_text(r) == opt_text(*o),
{
    match o {
        Some(s) => Some(s.clone()),
        None => None,
    }
}

/// A copy of a list of texts.
pub fn copy_texts(v: &Vec<String>) -> (r: Vec<String>)
    ensures
        texts(r@) == texts(v@),
{
    let mut out: Vec<String> = Vec::new();
    let mut i: usize = 0;
    while i < v.len()
        invariant
            i <= v@.len(),
            texts(out@) == texts(v@).take(i as int),
        decreases v@.len() - i,
    {
        let ghost before = texts(out@);
        let s = v[i].clone();
        out.push(s);
        assert(texts(out@) =~= before.push(s@));
        assert(texts(v@)[i as int] == s@);
        assert(texts(v@).take(i + 1) =~= texts(v@).take(i as int).push(s@));
        i += 1;
    }
    assert(texts(v@).take(i as int) =~= texts(v@));
    out
}

/// Equality of two optional texts.
pub fn same_opt(a: &Option<String>, b: &Option<String>) -> (r: bool)
    ensures
        r == (opt_text(*a) == opt_text(*b)),
{
    match a {
        Some(x) => match b {
            Some(y) => same(x, y),
            None => false,
        },
        None => match b {
            Some(_) => false,
            None => true,
        },
    }
}

/// Whether the list holds the text.
pub fn list_has(v: &Vec<String>, x: &str) -> (r: bool)
    ensures
        r == texts(v@).contains(x@),
{
    let mut i: usize = 0;
    while i < v.len()
        invariant
            i <= v@.len(),
            forall|j: int| 0 <= j < i ==> #[trigger] texts(v@)[j] != x@,
        decreases v@.len() - i,
    {
        if same(&v[i], x) {
            assert(texts(v@)[i as int] == x@);
            return true;
        }
        i += 1;
    }
    false
}

// ---------------------------------------------------------------------------
// Trimming
// ---------------------------------------------------------------------------

pub open spec fn trim_start_of(s: Seq<char>, k: Class) -> Seq<char>
    decreases s.len(),
{
    if s.len() > 0 && in_class(k, s[0]) {
        trim_start_of(s.drop_first(), k)
    } else {
        s
    }
}

pub open spec fn trim_end_of(s: Seq<char>, k: Class) -> Seq<char>
    decreases s.len(),
{
    if s.len() > 0 && in_class(k, s.last()) {
        trim_end_of(s.drop_last(), k)
    } else {
        s
    }
}

pub open spec fn trim_of(s: Seq<char>, k: Class) -> Seq<char> {
    trim_end_of(trim_start_of(s, k), k)
}

/// `s` without the white space at its ends.
pub open spec fn trimmed(s: Seq<char>) -> Seq<char> {
    trim_of(s, Class::White)
}

pub fn trim_start_class(s: &str, k: Class) -> (r: String)
    ensures
        r@ == trim_start_of(s@, k),
{
    let v = chars_of(s);
    let mut i: usize = 0;
    assert(s@.skip(0) == s@);
    while i < v.len() && class_has(k, v[i])
        invariant
            i <= v@.len(),
            v@ == s@,
            trim_start_of(s@, k) == trim_start_of(s@.skip(i as int), k),
        decreases v@.len() - i,
    {
        assert(s@.skip(i as int).drop_first() == s@.skip(i + 1));
        i += 1;
    }
    assert(s@.skip(i as int) == v@.subrange(i as int, v@.len() as int));
    text_range(&v, i, v.len())
}

pub fn trim_end_class(s: &str, k: Class) -> (r: String)
    ensures
        r@ == trim_end_of(s@, k),
{
    let v = chars_of(s);
    let mut n: usize = v.len();
    assert(s@.take(n as int) == s@);
    while n > 0 && class_has(k, v[n - 1])
        invariant
            n <= v@.len(),
            v@ == s@,
            trim_end_of(s@, k) == trim_end_of(s@.take(n as int), k),
        decreases n,
    {
        assert(s@.take(n as int).drop_last() == s@.take(n - 1));
        n -= 1;
    }
    assert(s@.take(n as int) == v@.subrange(0, n as int));
    text_range(&v, 0, n)
}

pub fn trim_class(s: &str, k: Class) -> (r: String)
    ensures
        r@ == trim_of(s@, k),
{
    let a = trim_start_class(s, k);
    trim_end_class(&a, k)
}

/// Both ends without white space.
pub fn trim(s: &str) -> (r: String)
    ensures
        r@ == trimmed(s@),
{
    trim_class(s, Class::White)
}

/// Every trailing `c` removed.
pub fn trim_end_char(s: &str, c: char) -> (r: String)
    ensures
        r@ == trim_end_of(s@, Class::One(c)),
{
    trim_end_class(s, Class::One(c))
}

pub proof fn lemma_trim_start(s: Seq<char>, k: Class)
    ensures
        trim_start_of(s, k).len() <= s.len(),
        trim_start_of(s, k) == s.skip(s.len() - trim_start_of(s, k).len()),
        trim_start_of(s, k).len() > 0 ==> !in_class(k, trim_start_of(s, k)[0]),
        forall|i: int|
            0 <= i < s.len() - trim_start_of(s, k).len() ==> in_class(k, #[trigger] s[i]),
    decreases s.len(),
{
    if s.len() > 0 && in_class(k, s[0]) {
        let t = s.drop_first();
        lemma_trim_start(t, k);
        assert forall|i: int| 0 <= i < s.len() - trim_start_of(s, k).len() implies in_class(
            k,
            #[trigger] s[i],
        ) by {
            if i > 0 {
                assert(s[i] == t[i - 1]);
            }
        }
    }
}

pub proof fn lemma_trim_end(s: Seq<char>, k: Class)
    ensures
        trim_end_of(s, k).len() <= s.len(),
        trim_end_of(s, k) == s.take(trim_end_of(s, k).len() as int),
        trim_end_of(s, k).len() > 0 ==> !in_class(k, trim_end_of(s, k).last()),
        forall|i: int|
            trim_end_of(s, k).len() <= i < s.len() ==> in_class(k, #[trigger] s[i]),
    decreases s.len(),
{
    if s.len() > 0 && in_class(k, s.last()) {
        let t = s.drop_last();
        lemma_trim_end(t, k);
        assert forall|i: int| trim_end_of(s, k).len() <= i < s.len() implies in_class(
            k,
            #[trigger] s[i],
        ) by {
            if i < t.len() {
                assert(s[i] == t[i]);
            }
        }
    }
}

/// Trimmed text has no character of the class at either end.
pub proof fn lemma_trim_ends(s: Seq<char>, k: Class)
    ensures
        trim_of(s, k).len() <= s.len(),
        trim_of(s, k).len() > 0 ==> !in_class(k, trim_of(s, k)[0]) && !in_class(
            k,
            trim_of(s, k).last(),
        ),
{
    lemma_trim_start(s, k);
    lemma_trim_end(trim_start_of(s, k), k);
}

/// Text with no character of the class at its ends is left as it is.
pub proof fn lemma_trim_fixed(s: Seq<char>, k: Class)
    requires
        s.len() > 0 ==> !in_class(k, s[0]) && !in_class(k, s.last()),
    ensures
        trim_of(s, k) == s,
{
}

/// Trimming twice is trimming once.
pub proof fn lemma_trim_idempotent(s: Seq<char>, k: Class)
    ensures
        trim_of(trim_of(s, k), k) == trim_of(s, k),
{
    lemma_trim_ends(s, k);
    lemma_trim_fixed(trim_of(s, k), k);
}

// ---------------------------------------------------------------------------
// Prefixes, suffixes, searching
// ---------------------------------------------------------------------------

pub open spec fn starts(s: Seq<char>, p: Seq<char>) -> bool {
    s.len() >= p.len() && s.take(p.len() as int) == p
}

pub open spec fn ends(s: Seq<char>, p: Seq<char>) -> bool {
    s.len() >= p.len() && s.skip(s.len() - p.len()) == p
}

/// What follows the prefix `p`, when `s` starts with it.
pub open spec fn after_prefix(s: Seq<char>, p: Seq<char>) -> Option<Seq<char>> {
    if starts(s, p) {
        Some(s.skip(p.len() as int))
    } else {
        None
    }
}

/// What precedes the suffix `p`, when `s` ends with it.
pub open spec fn before_suffix(s: Seq<char>, p: Seq<char>) -> Option<Seq<char>> {
    if ends(s, p) {
        Some(s.take(s.len() - p.len()))
    } else {
        None
    }
}

pub open spec fn occurs_at(s: Seq<char>, p: Seq<char>, i: int) -> bool {
    0 <= i && i + p.len() <= s.len() && s.subrange(i, i + p.len()) == p
}

/// The least position at or after `i` where `p` occurs in `s`.
pub open spec fn find_from(s: Seq<char>, p: Seq<char>, i: int) -> Option<int>
    decreases s.len() - i,
{
    if i < 0 || i + p.len() > s.len() {
        None
    } else if occurs_at(s, p, i) {
        Some(i)
    } else if i >= s.len() {
        None
    } else {
        find_from(s, p, i + 1)
    }
}

pub open spec fn find_of(s: Seq<char>, p: Seq<char>) -> Option<int> {
    find_from(s, p, 0)
}

pub open spec fn contains_of(s: Seq<char>, p: Seq<char>) -> bool {
    find_of(s, p) is Some
}

pub fn occurs(v: &Vec<char>, p: &Vec<char>, i: usize) -> (r: bool)
    ensures
        r == occurs_at(v@, p@, i as int),
{
    if i > v.len() || p.len() > v.len() - i {
        return false;
    }
    let n: usize = v.len();
    let mut j: usize = 0;
    while j < p.len()
        invariant
            j <= p@.len(),
            n == v@.len(),
            i + p@.len() <= n,
            forall|x: int| 0 <= x < j ==> v@[i + x] == p@[x],
        decreases p@.len() - j,
    {
        if v[i + j] != p[j] {
            assert(v@.subrange(i as int, i + p@.len())[j as int] != p@[j as int]);
            return false;
        }
        j += 1;
    }
    assert(v@.subrange(i as int, i + p@.len()) =~= p@);
    true
}

/// The first place at or after `from` where `p` occurs in `v`.
pub fn find_chars(v: &Vec<char>, p: &Vec<char>, from: usize) -> (r: Option<usize>)
    requires
        from <= v@.len(),
    ensures
        match r {
            Some(i) => find_from(v@, p@, from as int) == Some(i as int) && occurs_at(
                v@,
                p@,
                i as int,
            ),
            None => find_from(v@, p@, from as int) is None,
        },
{
    let mut i: usize = from;
    while p.len() <= v.len() - i
        invariant
            from <= i <= v@.len(),
            find_from(v@, p@, from as int) == find_from(v@, p@, i as int),
        decreases v@.len() - i,
    {
        if occurs(v, p, i) {
            return Some(i);
        }
        if i == v.len() {
            return None;
        }
        i += 1;
    }
    None
}

pub fn starts_with(s: &str, p: &str) -> (r: bool)
    ensures
        r == starts(s@, p@),
{
    let v = chars_of(s);
    let q = chars_of(p);
    let r = occurs(&v, &q, 0);
    assert(s@.len() >= p@.len() ==> s@.subrange(0, p@.len() as int) == s@.take(p@.len() as int));
    r
}

pub fn ends_with(s: &str, p: &str) -> (r: bool)
    ensures
        r == ends(s@, p@),
{
    let v = chars_of(s);
    let q = chars_of(p);
    if v.len() < q.len() {
        return false;
    }
    let at: usize = v.len() - q.len();
    assert(s@.subrange(at as int, at + q@.len()) == s@.skip(at as int));
    occurs(&v, &q, at)
}

pub fn strip_prefix(s: &str, p: &str) -> (r: Option<String>)
    ensures
        opt_text(r) == after_prefix(s@, p@),
{
    if starts_with(s, p) {
        let v = chars_of(s);
        let n: usize = chars_of(p).len();
        assert(s@.skip(n as int) == v@.subrange(n as int, v@.len() as int));
        Some(text_range(&v, n, v.len()))
    } else {
        None
    }
}

pub fn strip_suffix(s: &str, p: &str) -> (r: Option<String>)
    ensures
        opt_text(r) == before_suffix(s@, p@),
{
    if ends_with(s, p) {
        let v = chars_of(s);
        let n: usize = v.len() - chars_of(p).len();
        assert(s@.take(n as int) == v@.subrange(0, n as int));
        Some(text_range(&v, 0, n))
    } else {
        None
    }
}

/// The first index of `c` at or after `i`.
pub open spec fn index_from(s: Seq<char>, c: char, i: int) -> Option<int>
    decreases s.len() - i,
{
    if i < 0 || i >= s.len() {
        None
    } else if s[i] == c {
        Some(i)
    } else {
        index_from(s, c, i + 1)
    }
}

pub open spec fn index_of(s: Seq<char>, c: char) -> Option<int> {
    index_from(s, c, 0)
}

pub fn find_char(v: &Vec<char>, c: char) -> (r: Option<usize>)
    ensures
        match r {
            Some(i) => index_of(v@, c) == Some(i as int) && i < v@.len(),
            None => index_of(v@, c) is None,
        },
{
    let mut i: usize = 0;
    while i < v.len()
        invariant
            i <= v@.len(),
            index_of(v@, c) == index_from(v@, c, i as int),
        decreases v@.len() - i,
    {
        if v[i] == c {
            return Some(i);
        }
        i += 1;
    }
    None
}

pub proof fn lemma_index_from(s: Seq<char>, c: char, i: int)
    requires
        0 <= i <= s.len(),
    ensures
        match index_from(s, c, i) {
            Some(k) => i <= k < s.len() && s[k] == c && forall|j: int|
                i <= j < k ==> s[j] != c,
            None => forall|j: int| i <= j < s.len() ==> s[j] != c,
        },
    decreases s.len() - i,
{
    if i < s.len() && s[i] != c {
        lemma_index_from(s, c, i + 1);
    }
}

/// The last index of `c`.
pub open spec fn last_index_of(s: Seq<char>, c: char) -> Option<int>
    decreases s.len(),
{
    if s.len() == 0 {
        None
    } else if s.last() == c {
        Some(s.len() - 1)
    } else {
        last_index_of(s.drop_last(), c)
    }
}

pub proof fn lemma_last_index_of(s: Seq<char>, c: char)
    ensures
        match last_index_of(s, c) {
            Some(i) => 0 <= i < s.len() && s[i] == c && forall|j: int|
                i < j < s.len() ==> #[trigger] s[j] != c,
            None => !s.contains(c),
        },
    decreases s.len(),
{
    if s.len() > 0 && s.last() != c {
        let t = s.drop_last();
        lemma_last_index_of(t, c);
        if let Some(i) = last_index_of(t, c) {
            assert forall|j: int| i < j < s.len() implies #[trigger] s[j] != c by {
                if j < t.len() {
                    assert(t[j] == s[j]);
                }
            }
        } else if s.contains(c) {
            let j = choose|j: int| 0 <= j < s.len() && s[j] == c;
            assert(t[j] == c);
        }
    }
}

pub fn rfind_char(v: &Vec<char>, c: char) -> (r: Option<usize>)
    ensures
        match r {
            Some(i) => last_index_of(v@, c) == Some(i as int) && i < v@.len(),
            None => last_index_of(v@, c) is None,
        },
{
    let mut n: usize = v.len();
    assert(v@.take(n as int) == v@);
    while n > 0
        invariant
            n <= v@.len(),
            last_index_of(v@, c) == last_index_of(v@.take(n as int), c),
        decreases n,
    {
        assert(v@.take(n as int).drop_last() == v@.take(n - 1));
        if v[n - 1] == c {
            return Some(n - 1);
        }
        n -= 1;
    }
    None
}

/// How many times `c` occurs.
pub open spec fn count_of(s: Seq<char>, c: char) -> nat
    decreases s.len(),
{
    if s.len() == 0 {
        0
    } else {
        count_of(s.drop_last(), c) + if s.last() == c {
            1nat
        } else {
            0nat
        }
    }
}

pub fn count_char(v: &Vec<char>, c: char) -> (r: usize)
    ensures
        r == count_of(v@, c),
{
    let mut n: usize = 0;
    let mut i: usize = 0;
    while i < v.len()
        invariant
            i <= v@.len(),
            n <= i,
            n == count_of(v@.take(i as int), c),
        decreases v@.len() - i,
    {
        assert(v@.take(i + 1).drop_last() == v@.take(i as int));
        if v[i] == c {
            n += 1;
        }
        i += 1;
    }
    assert(v@.take(i as int) == v@);
    n
}

pub fn contains(s: &str, p: &str) -> (r: bool)
    ensures
        r == contains_of(s@, p@),
{
    let v = chars_of(s);
    let q = chars_of(p);
    find_chars(&v, &q, 0).is_some()
}

/// Whether every character satisfies the predicate.
pub open spec fn every(s: Seq<char>, p: spec_fn(char) -> bool) -> bool {
    forall|i: int| 0 <= i < s.len() ==> #[trigger] p(s[i])
}

/// At most the first `n` characters.
pub open spec fn first_chars(s: Seq<char>, n: int) -> Seq<char> {
    if s.len() <= n {
        s
    } else {
        s.take(n)
    }
}

pub fn take_chars(s: &str, n: usize) -> (r: String)
    ensures
        r@ == first_chars(s@, n as int),
{
    let v = chars_of(s);
    let m: usize = if v.len() <= n {
        v.len()
    } else {
        n
    };
    assert(v@.subrange(0, m as int) =~= first_chars(s@, n as int));
    text_range(&v, 0, m)
}

// ---------------------------------------------------------------------------
// Splitting and joining
// ---------------------------------------------------------------------------

/// The pieces between the occurrences of `c`; always at least one.
pub open spec fn split_of(s: Seq<char>, c: char) -> Seq<Seq<char>>
    decreases s.len(),
{
    if s.len() == 0 {
        seq![Seq::<char>::empty()]
    } else {
        let r = split_of(s.drop_last(), c);
        if s.last() == c {
            r.push(Seq::empty())
        } else {
            r.drop_last().push(r.last().push(s.last()))
        }
    }
}

pub fn split(s: &str, c: char) -> (r: Vec<String>)
    ensures
        texts(r@) == split_of(s@, c),
{
    let v = chars_of(s);
    let mut done: Vec<String> = Vec::new();
    let mut cur = String::new();
    let mut i: usize = 0;
    assert(texts(done@).push(cur@) =~= seq![Seq::<char>::empty()]);
    while i < v.len()
        invariant
            i <= v@.len(),
            v@ == s@,
            split_of(s@.take(i as int), c) == texts(done@).push(cur@),
        decreases v@.len() - i,
    {
        let ghost before = texts(done@);
        assert(s@.take(i + 1).drop_last() == s@.take(i as int));
        assert(before.push(cur@).drop_last() == before);
        if v[i] == c {
            done.push(cur);
            cur = String::new();
            assert(texts(done@) == before.push(before.push(done@.last()@).last()));
        } else {
            cur.push(v[i]);
        }
        i += 1;
    }
    assert(s@.take(i as int) == s@);
    let ghost before = texts(done@);
    done.push(cur);
    assert(texts(done@) == before.push(done@.last()@));
    done
}

pub proof fn lemma_split_nonempty(s: Seq<char>, c: char)
    ensures
        split_of(s, c).len() >= 1,
    decreases s.len(),
{
    if s.len() > 0 {
        lemma_split_nonempty(s.drop_last(), c);
    }
}

/// A separator and a piece without it add one piece to a split.
pub proof fn lemma_split_append(s: Seq<char>, piece: Seq<char>, c: char)
    requires
        forall|i: int| 0 <= i < piece.len() ==> #[trigger] piece[i] != c,
    ensures
        split_of(s + seq![c] + piece, c) == split_of(s, c).push(piece),
    decreases piece.len(),
{
    let t = s + seq![c] + piece;
    if piece.len() == 0 {
        assert(t.drop_last() == s);
        assert(t.last() == c);
        assert(piece =~= Seq::<char>::empty());
    } else {
        let shorter = piece.drop_last();
        assert forall|i: int| 0 <= i < shorter.len() implies #[trigger] shorter[i] != c by {
            assert(shorter[i] == piece[i]);
        }
        lemma_split_append(s, shorter, c);
        assert(t.drop_last() == s + seq![c] + shorter);
        assert(t.last() == piece.last());
        assert(shorter.push(piece.last()) == piece);
        let r = split_of(s, c).push(shorter);
        assert(r.drop_last() == split_of(s, c));
    }
}

/// A text without the separator is one piece.
pub proof fn lemma_split_one(piece: Seq<char>, c: char)
    requires
        forall|i: int| 0 <= i < piece.len() ==> #[trigger] piece[i] != c,
    ensures
        split_of(piece, c) == seq![piece],
    decreases piece.len(),
{
    if piece.len() == 0 {
        assert(piece =~= Seq::<char>::empty());
    } else {
        let shorter = piece.drop_last();
        assert forall|i: int| 0 <= i < shorter.len() implies #[trigger] shorter[i] != c by {
            assert(shorter[i] == piece[i]);
        }
        lemma_split_one(shorter, c);
        assert(shorter.push(piece.last()) == piece);
        assert(seq![shorter].drop_last() =~= Seq::<Seq<char>>::empty());
    }
}

/// A line without the carriage return of a `\r\n` ending.
pub open spec fn without_cr(s: Seq<char>) -> Seq<char> {
    if s.len() > 0 && s.last() == '\r' {
        s.drop_last()
    } else {
        s
    }
}

/// The lines of a text: each ends at `\n` or `\r\n`, and the last ending is
/// optional.
pub open spec fn lines_of(s: Seq<char>) -> Seq<Seq<char>> {
    let p = split_of(s, '\n');
    let head = p.drop_last().map_values(|x: Seq<char>| without_cr(x));
    if p.last().len() == 0 {
        head
    } else {
        head.push(p.last())
    }
}

pub fn lines(s: &str) -> (r: Vec<String>)
    ensures
        texts(r@) == lines_of(s@),
{
    let p = split(s, '\n');
    let ghost ps = split_of(s@, '\n');
    proof {
        lemma_split_nonempty(s@, '\n');
        assert(texts(p@).len() == p@.len());
    }
    let n: usize = p.len() - 1;
    let mut out: Vec<String> = Vec::new();
    let ghost head = ps.drop_last().map_values(|x: Seq<char>| without_cr(x));
    let mut i: usize = 0;
    while i < n
        invariant
            i <= n,
            n + 1 == p@.len(),
            texts(p@) == ps,
            head == ps.drop_last().map_values(|x: Seq<char>| without_cr(x)),
            texts(out@) == head.take(i as int),
        decreases n - i,
    {
        let v = chars_of(&p[i]);
        let m: usize = if v.len() > 0 && v[v.len() - 1] == '\r' {
            v.len() - 1
        } else {
            v.len()
        };
        let line = text_range(&v, 0, m);
        assert(p@[i as int]@ == texts(p@)[i as int]);
        assert(line@ =~= without_cr(ps[i as int]));
        let ghost before = texts(out@);
        out.push(line);
        assert(texts(out@) == before.push(line@));
        assert(head.take(i + 1) == head.take(i as int).push(head[i as int]));
        i += 1;
    }
    assert(head.take(n as int) == head);
    assert(p@[n as int]@ == texts(p@)[n as int]);
    let tail = chars_of(&p[n]);
    if tail.len() > 0 {
        let ghost before = texts(out@);
        let last = text_of(&tail);
        out.push(last);
        assert(texts(out@) == before.push(last@));
    }
    out
}

/// The finished words of a text, and the word still open at its end.
pub open spec fn words_open(s: Seq<char>, k: Class) -> (Seq<Seq<char>>, Seq<char>)
    decreases s.len(),
{
    if s.len() == 0 {
        (Seq::empty(), Seq::empty())
    } else {
        let (done, cur) = words_open(s.drop_last(), k);
        if in_class(k, s.last()) {
            (if cur.len() > 0 {
                done.push(cur)
            } else {
                done
            }, Seq::empty())
        } else {
            (done, cur.push(s.last()))
        }
    }
}

/// The longest runs of characters outside the class.
pub open spec fn words_of(s: Seq<char>, k: Class) -> Seq<Seq<char>> {
    let (done, cur) = words_open(s, k);
    if cur.len() > 0 {
        done.push(cur)
    } else {
        done
    }
}

pub fn words(s: &str, k: Class) -> (r: Vec<String>)
    ensures
        texts(r@) == words_of(s@, k),
{
    let v = chars_of(s);
    let mut done: Vec<String> = Vec::new();
    let mut cur: Vec<char> = Vec::new();
    let mut i: usize = 0;
    assert(texts(done@) =~= Seq::<Seq<char>>::empty());
    assert(words_open(s@.take(0), k) == (texts(done@), cur@));
    while i < v.len()
        invariant
            i <= v@.len(),
            v@ == s@,
            words_open(s@.take(i as int), k) == (texts(done@), cur@),
        decreases v@.len() - i,
    {
        assert(s@.take(i + 1).drop_last() == s@.take(i as int));
        let ghost before = texts(done@);
        if class_has(k, v[i]) {
            if cur.len() > 0 {
                let w = text_of(&cur);
                done.push(w);
                assert(texts(done@) == before.push(w@));
            }
            cur = Vec::new();
        } else {
            cur.push(v[i]);
        }
        i += 1;
    }
    assert(s@.take(i as int) == s@);
    if cur.len() > 0 {
        let ghost before = texts(done@);
        let w = text_of(&cur);
        done.push(w);
        assert(texts(done@) == before.push(w@));
    }
    done
}

/// What `f` makes of the pieces, without those it makes nothing of.
pub open spec fn pick<A>(p: Seq<Seq<char>>, f: spec_fn(Seq<char>) -> Option<A>) -> Seq<A>
    decreases p.len(),
{
    if p.len() == 0 {
        Seq::empty()
    } else {
        match f(p.last()) {
            Some(a) => pick(p.drop_last(), f).push(a),
            None => pick(p.drop_last(), f),
        }
    }
}

/// The pieces with `sep` between each two.
pub open spec fn join_of(p: Seq<Seq<char>>, sep: Seq<char>) -> Seq<char>
    decreases p.len(),
{
    if p.len() == 0 {
        Seq::empty()
    } else if p.len() == 1 {
        p[0]
    } else {
        join_of(p.drop_last(), sep) + sep + p.last()
    }
}

pub fn join(p: &Vec<String>, sep: &str) -> (r: String)
    ensures
        r@ == join_of(texts(p@), sep@),
{
    let mut out = String::new();
    let mut i: usize = 0;
    while i < p.len()
        invariant
            i <= p@.len(),
            out@ == join_of(texts(p@).take(i as int), sep@),
        decreases p@.len() - i,
    {
        let ghost t = texts(p@).take(i + 1);
        assert(t.drop_last() == texts(p@).take(i as int));
        assert(t.last() == p@[i as int]@);
        if i > 0 {
            out.append(sep);
        }
        out.append(&p[i]);
        i += 1;
    }
    assert(texts(p@).take(i as int) == texts(p@));
    out
}

/// Every occurrence of one character replaced by a text.
pub open spec fn replace_of(s: Seq<char>, c: char, to: Seq<char>) -> Seq<char>
    decreases s.len(),
{
    if s.len() == 0 {
        Seq::empty()
    } else {
        replace_of(s.drop_last(), c, to) + if s.last() == c {
            to
        } else {
            seq![s.last()]
        }
    }
}

pub fn replace(s: &str, c: char, to: &str) -> (r: String)
    ensures
        r@ == replace_of(s@, c, to@),
{
    let v = chars_of(s);
    let mut out = String::new();
    let mut i: usize = 0;
    while i < v.len()
        invariant
            i <= v@.len(),
            v@ == s@,
            out@ == replace_of(s@.take(i as int), c, to@),
        decreases v@.len() - i,
    {
        assert(s@.take(i + 1).drop_last() == s@.take(i as int));
        if v[i] == c {
            out.append(to);
        } else {
            out.push(v[i]);
        }
        i += 1;
    }
    assert(s@.take(i as int) == s@);
    out
}

// ---------------------------------------------------------------------------
// Letter case and order
// ---------------------------------------------------------------------------

pub open spec fn lower_char(c: char) -> char {
    if upper_letter(c) {
        (c as u8 + 32) as char
    } else {
        c
    }
}

/// ASCII letters in lower case, everything else unchanged.
pub open spec fn ascii_lower(s: Seq<char>) -> Seq<char> {
    s.map_values(|c: char| lower_char(c))
}

pub open spec fn upper_char(c: char) -> char {
    if lower_letter(c) {
        (c as u8 - 32) as char
    } else {
        c
    }
}

/// ASCII letters in upper case, everything else unchanged.
pub open spec fn ascii_upper(s: Seq<char>) -> Seq<char> {
    s.map_values(|c: char| upper_char(c))
}

pub fn to_ascii_lower(s: &str) -> (r: String)
    ensures
        r@ == ascii_lower(s@),
{
    let v = chars_of(s);
    let mut out = String::new();
    let mut i: usize = 0;
    while i < v.len()
        invariant
            i <= v@.len(),
            v@ == s@,
            out@ == ascii_lower(s@).take(i as int),
        decreases v@.len() - i,
    {
        let c = v[i];
        if 'A' <= c && c <= 'Z' {
            out.push((c as u8 + 32) as char);
        } else {
            out.push(c);
        }
        i += 1;
    }
    out
}

/// `a` comes before `b` in the order of `String`.
pub open spec fn before(a: Seq<char>, b: Seq<char>) -> bool
    decreases a.len(),
{
    if b.len() == 0 {
        false
    } else if a.len() == 0 {
        true
    } else if a[0] != b[0] {
        a[0] < b[0]
    } else {
        before(a.drop_first(), b.drop_first())
    }
}

pub fn is_before(a: &str, b: &str) -> (r: bool)
    ensures
        r == before(a@, b@),
{
    let x = chars_of(a);
    let y = chars_of(b);
    let mut i: usize = 0;
    assert(a@.skip(0) == a@ && b@.skip(0) == b@);
    while i < x.len() && i < y.len()
        invariant
            i <= x@.len(),
            i <= y@.len(),
            x@ == a@,
            y@ == b@,
            before(a@, b@) == before(a@.skip(i as int), b@.skip(i as int)),
        decreases x@.len() - i,
    {
        assert(a@.skip(i as int)[0] == x@[i as int]);
        assert(b@.skip(i as int)[0] == y@[i as int]);
        assert(a@.skip(i as int).drop_first() == a@.skip(i + 1));
        assert(b@.skip(i as int).drop_first() == b@.skip(i + 1));
        if x[i] != y[i] {
            return x[i] < y[i];
        }
        i += 1;
    }
    i < y.len()
}

pub proof fn lemma_before_total(a: Seq<char>, b: Seq<char>)
    ensures
        before(a, b) || before(b, a) || a == b,
        !(before(a, b) && before(b, a)),
        !before(a, a),
    decreases a.len() + b.len(),
{
    if a.len() > 0 && b.len() > 0 && a[0] == b[0] {
        lemma_before_total(a.drop_first(), b.drop_first());
        if a.drop_first() == b.drop_first() {
            assert(a == seq![a[0]] + a.drop_first());
            assert(b == seq![b[0]] + b.drop_first());
        }
    }
    if a.len() == 0 && b.len() == 0 {
        assert(a == b);
    }
    if a.len() > 0 {
        lemma_before_irreflexive(a);
    }
}

pub proof fn lemma_before_transitive(a: Seq<char>, b: Seq<char>, c: Seq<char>)
    requires
        !before(b, a),
        !before(c, b),
    ensures
        !before(c, a),
    decreases a.len(),
{
    if a.len() > 0 && b.len() > 0 && c.len() > 0 && a[0] == b[0] && b[0] == c[0] {
        lemma_before_transitive(a.drop_first(), b.drop_first(), c.drop_first());
    }
}

pub proof fn lemma_before_irreflexive(a: Seq<char>)
    ensures
        !before(a, a),
    decreases a.len(),
{
    if a.len() > 0 {
        lemma_before_irreflexive(a.drop_first());
    }
}

// ---------------------------------------------------------------------------
// Numbers
// ---------------------------------------------------------------------------

pub open spec fn digit_char(d: int) -> char {
    (48 + d) as char
}

/// The decimal digits of `n`.
pub open spec fn dec(n: nat) -> Seq<char>
    decreases n,
{
    if n < 10 {
        seq![digit_char(n as int)]
    } else {
        dec(n / 10).push(digit_char((n % 10) as int))
    }
}

/// The decimal form of an integer.
pub open spec fn dec_int(n: int) -> Seq<char> {
    if n < 0 {
        seq!['-'] + dec((-n) as nat)
    } else {
        dec(n as nat)
    }
}

fn push_decimal(out: &mut String, n: u128)
    ensures
        final(out)@ == old(out)@ + dec(n as nat),
    decreases n,
{
    if n >= 10 {
        push_decimal(out, n / 10);
    }
    let d: u8 = (n % 10) as u8;
    out.push((48 + d) as char);
}

pub fn decimal(n: u128) -> (r: String)
    ensures
        r@ == dec(n as nat),
{
    let mut out = String::new();
    push_decimal(&mut out, n);
    out
}

pub fn decimal_int(n: i128) -> (r: String)
    requires
        n > i128::MIN,
    ensures
        r@ == dec_int(n as int),
{
    if n < 0 {
        let mut out = String::new();
        out.push('-');
        push_decimal(&mut out, (0 - n) as u128);
        out
    } else {
        decimal(n as u128)
    }
}

/// The value of a digit in any radix up to sixteen.
pub open spec fn digit_value(c: char) -> Option<nat> {
    if digit(c) {
        Some((c as u32 - 48) as nat)
    } else if 'a' <= c && c <= 'f' {
        Some((c as u32 - 87) as nat)
    } else if 'A' <= c && c <= 'F' {
        Some((c as u32 - 55) as nat)
    } else {
        None
    }
}

pub open spec fn digit_in(c: char, radix: nat) -> bool {
    digit_value(c) is Some && digit_value(c)->0 < radix
}

/// The value of a run of digits.
pub open spec fn value_of(s: Seq<char>, radix: nat) -> nat
    decreases s.len(),
{
    if s.len() == 0 {
        0
    } else {
        value_of(s.drop_last(), radix) * radix + (match digit_value(s.last()) {
            Some(d) => d,
            None => 0,
        })
    }
}

/// One or more digits of the radix.
pub open spec fn number_text(s: Seq<char>, radix: nat) -> bool {
    s.len() > 0 && forall|i: int| 0 <= i < s.len() ==> #[trigger] digit_in(s[i], radix)
}

/// Digits after an optional plus sign.
pub open spec fn parse_nat_of(s: Seq<char>, radix: nat) -> Option<nat> {
    let body = if s.len() > 0 && s[0] == '+' {
        s.drop_first()
    } else {
        s
    };
    if number_text(body, radix) {
        Some(value_of(body, radix))
    } else {
        None
    }
}

/// Decimal digits after an optional sign.
pub open spec fn parse_int_of(s: Seq<char>) -> Option<int> {
    if s.len() > 0 && s[0] == '-' {
        if number_text(s.drop_first(), 10) {
            Some(-(value_of(s.drop_first(), 10) as int))
        } else {
            None
        }
    } else {
        match parse_nat_of(s, 10) {
            Some(n) => Some(n as int),
            None => None,
        }
    }
}

pub fn digit_number(c: char) -> (r: Option<u8>)
    ensures
        match r {
            Some(d) => digit_value(c) == Some(d as nat) && d < 16,
            None => digit_value(c) is None,
        },
{
    if '0' <= c && c <= '9' {
        Some((c as u32 - 48) as u8)
    } else if 'a' <= c && c <= 'f' {
        Some((c as u32 - 87) as u8)
    } else if 'A' <= c && c <= 'F' {
        Some((c as u32 - 55) as u8)
    } else {
        None
    }
}

pub proof fn lemma_value_monotonic(s: Seq<char>, i: int, radix: nat)
    requires
        0 <= i <= s.len(),
        radix >= 1,
    ensures
        value_of(s.take(i), radix) <= value_of(s, radix),
    decreases s.len() - i,
{
    if i < s.len() {
        lemma_value_monotonic(s, i + 1, radix);
        assert(s.take(i + 1).drop_last() == s.take(i));
        let a = value_of(s.take(i), radix);
        assert(a * radix >= a) by (nonlinear_arith)
            requires
                radix >= 1,
        ;
    } else {
        assert(s.take(i) == s);
    }
}

/// The value of the digits from `from` on, when they are digits and the value
/// fits.
pub fn digits_u64(v: &Vec<char>, from: usize, radix: u8) -> (r: Option<u64>)
    requires
        from <= v@.len(),
        2 <= radix <= 16,
    ensures
        match r {
            Some(n) => number_text(v@.skip(from as int), radix as nat) && value_of(
                v@.skip(from as int),
                radix as nat,
            ) == n,
            None => number_text(v@.skip(from as int), radix as nat) ==> value_of(
                v@.skip(from as int),
                radix as nat,
            ) > u64::MAX,
        },
{
    let ghost s = v@.skip(from as int);
    if from == v.len() {
        return None;
    }
    let mut n: u64 = 0;
    let mut i: usize = from;
    while i < v.len()
        invariant
            from <= i <= v@.len(),
            2 <= radix <= 16,
            s == v@.skip(from as int),
            n == value_of(s.take(i - from), radix as nat),
            forall|j: int| 0 <= j < i - from ==> #[trigger] digit_in(s[j], radix as nat),
        decreases v@.len() - i,
    {
        let ghost k = i - from;
        assert(s[k] == v@[i as int]);
        match digit_number(v[i]) {
            Some(d) => {
                if d >= radix {
                    assert(!digit_in(s[k], radix as nat));
                    return None;
                }
                assert(n * radix <= 0xffff_ffff_ffff_ffff * 16) by (nonlinear_arith)
                    requires
                        n <= 0xffff_ffff_ffff_ffff,
                        radix <= 16,
                ;
                let wide: u128 = n as u128 * radix as u128 + d as u128;
                assert(s.take(k + 1).drop_last() == s.take(k));
                assert(s.take(k + 1).last() == s[k]);
                assert(value_of(s.take(k + 1), radix as nat) == wide);
                if wide > u64::MAX as u128 {
                    proof {
                        lemma_value_monotonic(s, k + 1, radix as nat);
                    }
                    return None;
                }
                n = wide as u64;
            },
            None => {
                assert(!digit_in(s[k], radix as nat));
                return None;
            },
        }
        i += 1;
    }
    assert(s.take(i - from) == s);
    Some(n)
}

/// `str::parse::<u64>` and `u64::from_str_radix`.
pub fn parse_u64(s: &str, radix: u8) -> (r: Option<u64>)
    requires
        2 <= radix <= 16,
    ensures
        match r {
            Some(n) => parse_nat_of(s@, radix as nat) == Some(n as nat),
            None => parse_nat_of(s@, radix as nat) is None || parse_nat_of(s@, radix as nat)->0
                > u64::MAX,
        },
{
    let v = chars_of(s);
    let from: usize = if v.len() > 0 && v[0] == '+' {
        1
    } else {
        0
    };
    assert(s@.skip(0) == s@);
    digits_u64(&v, from, radix)
}

/// `str::parse::<i64>`.
pub fn parse_i64(s: &str) -> (r: Option<i64>)
    ensures
        match r {
            Some(n) => parse_int_of(s@) == Some(n as int),
            None => parse_int_of(s@) is None || !(i64::MIN <= parse_int_of(s@)->0 <= i64::MAX),
        },
{
    let v = chars_of(s);
    if v.len() > 0 && v[0] == '-' {
        match digits_u64(&v, 1, 10) {
            Some(n) => if n <= 0x7fff_ffff_ffff_ffff {
                Some(0 - (n as i64))
            } else if n == 0x8000_0000_0000_0000 {
                Some(i64::MIN)
            } else {
                None
            },
            None => None,
        }
    } else {
        match parse_u64(s, 10) {
            Some(n) => if n <= 0x7fff_ffff_ffff_ffff {
                Some(n as i64)
            } else {
                None
            },
            None => None,
        }
    }
}

pub proof fn lemma_digit_char(d: int)
    requires
        0 <= d < 10,
    ensures
        digit(digit_char(d)),
        digit_value(digit_char(d)) == Some(d as nat),
{
}

/// Reading back a decimal form gives the number.
pub proof fn lemma_dec_value(n: nat)
    ensures
        number_text(dec(n), 10),
        value_of(dec(n), 10) == n,
        forall|i: int| 0 <= i < dec(n).len() ==> digit(#[trigger] dec(n)[i]),
    decreases n,
{
    reveal_with_fuel(value_of, 2);
    if n < 10 {
        lemma_digit_char(n as int);
        assert(dec(n).drop_last() == Seq::<char>::empty());
    } else {
        lemma_dec_value(n / 10);
        lemma_digit_char((n % 10) as int);
        assert(dec(n).drop_last() == dec(n / 10));
        assert forall|i: int| 0 <= i < dec(n).len() implies digit_in(#[trigger] dec(n)[i], 10)
            && digit(dec(n)[i]) by {
            if i < dec(n / 10).len() {
                assert(dec(n)[i] == dec(n / 10)[i]);
                assert(digit_in(dec(n / 10)[i], 10));
            }
        }
    }
}

/// Different numbers have different decimal forms.
pub proof fn lemma_dec_injective(a: nat, b: nat)
    requires
        dec(a) == dec(b),
    ensures
        a == b,
{
    lemma_dec_value(a);
    lemma_dec_value(b);
}

pub open spec fn hex_char(d: int) -> char {
    if d < 10 {
        (48 + d) as char
    } else {
        (87 + d) as char
    }
}

/// A byte as two lower-case hexadecimal digits.
pub open spec fn hex2(b: u8) -> Seq<char> {
    seq![hex_char(b as int / 16), hex_char(b as int % 16)]
}

/// All the bytes, two digits each.
pub open spec fn hex_of(s: Seq<u8>) -> Seq<char>
    decreases s.len(),
{
    if s.len() == 0 {
        Seq::empty()
    } else {
        hex_of(s.drop_last()) + hex2(s.last())
    }
}

/// The digits are ASCII letters and digits.
pub proof fn lemma_hex_plain(s: Seq<u8>)
    ensures
        forall|i: int| 0 <= i < hex_of(s).len() ==> alnum(#[trigger] hex_of(s)[i]),
    decreases s.len(),
{
    if s.len() > 0 {
        let r = hex_of(s.drop_last());
        lemma_hex_plain(s.drop_last());
        assert forall|i: int| 0 <= i < hex_of(s).len() implies alnum(#[trigger] hex_of(s)[i]) by {
            if i < r.len() {
                assert(hex_of(s)[i] == r[i]);
            }
        }
    }
}

fn hex_digit(d: u8) -> (r: char)
    requires
        d < 16,
    ensures
        r == hex_char(d as int),
{
    if d < 10 {
        (48 + d) as char
    } else {
        (87 + d) as char
    }
}

pub fn hex(v: &Vec<u8>) -> (r: String)
    ensures
        r@ == hex_of(v@),
{
    let mut out = String::new();
    let mut i: usize = 0;
    while i < v.len()
        invariant
            i <= v@.len(),
            out@ == hex_of(v@.take(i as int)),
        decreases v@.len() - i,
    {
        assert(v@.take(i + 1).drop_last() == v@.take(i as int));
        out.push(hex_digit(v[i] / 16));
        out.push(hex_digit(v[i] % 16));
        i += 1;
    }
    assert(v@.take(i as int) == v@);
    out
}

/// A number in lower-case hexadecimal digits.
pub open spec fn hex_nat(n: nat) -> Seq<char>
    decreases n,
{
    if n < 16 {
        seq![hex_char(n as int)]
    } else {
        hex_nat(n / 16).push(hex_char((n % 16) as int))
    }
}

pub fn hex_number(n: u128) -> (r: String)
    ensures
        r@ == hex_nat(n as nat),
    decreases n,
{
    let d: u8 = (n % 16) as u8;
    let c: char = if d < 10 {
        (48 + d) as char
    } else {
        (87 + d) as char
    };
    let mut out = if n < 16 {
        let none = String::new();
        assert(none@ =~= Seq::<char>::empty());
        none
    } else {
        hex_number(n / 16)
    };
    out.push(c);
    assert(out@ =~= hex_nat(n as nat));
    out
}

} // verus!
