//! What holds of splitting, trimming and comparing text, whatever the text.

use crate::text::{
    before, contains_of, dec, dec_int, find_from, first_chars, in_class, join_of, lemma_dec_value,
    lemma_split_nonempty, lemma_trim_end, lemma_trim_start, lines_of, occurs_at, parse_int_of,
    parse_nat_of, pick, replace_of, split_of, trim_end_of, trim_of, trim_start_of, trimmed,
    without_cr, words_of, words_open, Class,
};
use vstd::prelude::*;

verus! {

// ---------------------------------------------------------------------------
// Words
// ---------------------------------------------------------------------------

proof fn lemma_words_open_after(a: Seq<char>, c: char, b: Seq<char>, k: Class)
    requires
        in_class(k, c),
    ensures
        words_open(a + seq![c] + b, k) == (
            words_of(a, k) + words_open(b, k).0,
            words_open(b, k).1,
        ),
    decreases b.len(),
{
    let s = a + seq![c] + b;
    if b.len() == 0 {
        assert(s.drop_last() =~= a);
        assert(s.last() == c);
        assert(words_of(a, k) + words_open(b, k).0 =~= words_of(a, k));
        assert(words_open(b, k).1 =~= Seq::<char>::empty());
    } else {
        lemma_words_open_after(a, c, b.drop_last(), k);
        assert(s.drop_last() =~= a + seq![c] + b.drop_last());
        assert(s.last() == b.last());
        let (done, cur) = words_open(b.drop_last(), k);
        assert((words_of(a, k) + done).push(cur) =~= words_of(a, k) + done.push(cur));
    }
}

/// A separator parts the words before it from those after it, and adds none.
pub proof fn law_words_part_at_a_separator(a: Seq<char>, c: char, b: Seq<char>, k: Class)
    requires
        in_class(k, c),
    ensures
        words_of(a + seq![c] + b, k) == words_of(a, k) + words_of(b, k),
{
    lemma_words_open_after(a, c, b, k);
    let (done, cur) = words_open(b, k);
    assert((words_of(a, k) + done).push(cur) =~= words_of(a, k) + done.push(cur));
}

proof fn lemma_words_open_word(w: Seq<char>, k: Class)
    requires
        forall|i: int| 0 <= i < w.len() ==> !in_class(k, #[trigger] w[i]),
    ensures
        words_open(w, k) == (Seq::<Seq<char>>::empty(), w),
    decreases w.len(),
{
    if w.len() > 0 {
        lemma_words_open_word(w.drop_last(), k);
        assert(w.drop_last().push(w.last()) =~= w);
    } else {
        assert(w =~= Seq::<char>::empty());
    }
}

/// A text without separators is one word; the empty text has none.
pub proof fn law_a_word_is_itself(w: Seq<char>, k: Class)
    requires
        forall|i: int| 0 <= i < w.len() ==> !in_class(k, #[trigger] w[i]),
    ensures
        w.len() > 0 ==> words_of(w, k) == seq![w],
        w.len() == 0 ==> words_of(w, k) == Seq::<Seq<char>>::empty(),
{
    lemma_words_open_word(w, k);
    assert(w.len() > 0 ==> words_of(w, k) =~= seq![w]);
}

// ---------------------------------------------------------------------------
// Pieces and lines
// ---------------------------------------------------------------------------

/// A separator parts the pieces before it from those after it.
pub proof fn law_pieces_part_at_a_separator(a: Seq<char>, b: Seq<char>, c: char)
    ensures
        split_of(a + seq![c] + b, c) == split_of(a, c) + split_of(b, c),
    decreases b.len(),
{
    let s = a + seq![c] + b;
    if b.len() == 0 {
        assert(s.drop_last() =~= a);
        assert(s.last() == c);
        assert(split_of(a, c).push(Seq::<char>::empty()) =~= split_of(a, c) + split_of(b, c));
    } else {
        law_pieces_part_at_a_separator(a, b.drop_last(), c);
        lemma_split_nonempty(b.drop_last(), c);
        assert(s.drop_last() =~= a + seq![c] + b.drop_last());
        assert(s.last() == b.last());
        let p = split_of(a, c);
        let r = split_of(b.drop_last(), c);
        assert((p + r).last() == r.last());
        if b.last() == c {
            assert((p + r).push(Seq::<char>::empty()) =~= p + r.push(Seq::<char>::empty()));
        } else {
            assert((p + r).drop_last() =~= p + r.drop_last());
            let x = r.last().push(b.last());
            assert((p + r.drop_last()).push(x) =~= p + r.drop_last().push(x));
        }
    }
}

proof fn lemma_join_push(p: Seq<Seq<char>>, x: Seq<char>, sep: Seq<char>)
    requires
        p.len() > 0,
    ensures
        join_of(p.push(x), sep) == join_of(p, sep) + sep + x,
{
    assert(p.push(x).drop_last() =~= p);
}

/// A text without the separator is its own only piece.
pub proof fn law_a_piece_is_itself(s: Seq<char>, c: char)
    requires
        !s.contains(c),
    ensures
        split_of(s, c) == seq![s],
    decreases s.len(),
{
    if s.len() == 0 {
        assert(s =~= Seq::<char>::empty());
    } else {
        let t = s.drop_last();
        assert(s.contains(s.last()));
        if t.contains(c) {
            let i = choose|i: int| 0 <= i < t.len() && t[i] == c;
            assert(s[i] == c);
        }
        law_a_piece_is_itself(t, c);
        assert(t.push(s.last()) =~= s);
        assert(split_of(s, c) =~= seq![s]);
    }
}

/// The pieces hold no separator, and joined by it they are the text again.
pub proof fn law_pieces_join_to_the_text(s: Seq<char>, c: char)
    ensures
        join_of(split_of(s, c), seq![c]) == s,
        forall|i: int|
            0 <= i < split_of(s, c).len() ==> !(#[trigger] split_of(s, c)[i]).contains(c),
    decreases s.len(),
{
    if s.len() == 0 {
        assert(split_of(s, c)[0] =~= s);
    } else {
        law_pieces_join_to_the_text(s.drop_last(), c);
        lemma_split_nonempty(s.drop_last(), c);
        let r = split_of(s.drop_last(), c);
        let p = split_of(s, c);
        assert(s =~= s.drop_last().push(s.last()));
        if s.last() == c {
            lemma_join_push(r, Seq::empty(), seq![c]);
            assert(join_of(p, seq![c]) =~= s);
            assert forall|i: int| 0 <= i < p.len() implies !(#[trigger] p[i]).contains(c) by {
                if i < r.len() {
                    assert(p[i] == r[i]);
                }
            }
        } else {
            let x = r.last().push(s.last());
            assert(r =~= r.drop_last().push(r.last()));
            if r.len() > 1 {
                lemma_join_push(r.drop_last(), r.last(), seq![c]);
                lemma_join_push(r.drop_last(), x, seq![c]);
            } else {
                assert(r[0] == r.last());
                assert(p[0] == x);
            }
            assert(join_of(p, seq![c]) =~= join_of(r, seq![c]).push(s.last()));
            assert forall|i: int| 0 <= i < p.len() implies !(#[trigger] p[i]).contains(c) by {
                if i < r.len() - 1 {
                    assert(p[i] == r[i]);
                } else {
                    assert(p[i] == x);
                    if x.contains(c) {
                        let k = choose|k: int| 0 <= k < x.len() && x[k] == c;
                        assert(r.last()[k] == c);
                        assert(r[r.len() - 1].contains(c));
                    }
                }
            }
        }
    }
}

/// A line feed ends a line: what is before it and what is after it are read on
/// their own.
pub proof fn law_lines_part_at_a_line_feed(a: Seq<char>, b: Seq<char>)
    ensures
        lines_of(a + seq!['\n'] + b) == lines_of(a + seq!['\n']) + lines_of(b),
{
    let cr = |x: Seq<char>| without_cr(x);
    let e = Seq::<char>::empty();
    law_pieces_part_at_a_separator(a, b, '\n');
    law_pieces_part_at_a_separator(a, e, '\n');
    assert(a + seq!['\n'] + e =~= a + seq!['\n']);
    lemma_split_nonempty(b, '\n');
    let p = split_of(a, '\n');
    let q = split_of(b, '\n');
    assert((p + q).drop_last() =~= p + q.drop_last());
    assert((p + split_of(e, '\n')).drop_last() =~= p);
    assert((p + split_of(e, '\n')).last() =~= e);
    assert((p + q.drop_last()).map_values(cr) =~= p.map_values(cr) + q.drop_last().map_values(cr));
    assert((p + q).last() == q.last());
    assert(lines_of(a + seq!['\n'] + b) =~= lines_of(a + seq!['\n']) + lines_of(b));
}

/// A line comes out as it went in, without its line end; the last one needs
/// none, and no text has no lines.
pub proof fn law_a_line_is_itself(w: Seq<char>)
    requires
        !w.contains('\n'),
        w.len() > 0 ==> w.last() != '\r',
    ensures
        lines_of(w + seq!['\n']) == seq![w],
        lines_of(w + seq!['\r', '\n']) == seq![w],
        w.len() > 0 ==> lines_of(w) == seq![w],
        w.len() == 0 ==> lines_of(w) == Seq::<Seq<char>>::empty(),
{
    let e = Seq::<char>::empty();
    let cr = w.push('\r');
    assert forall|i: int| 0 <= i < w.len() implies #[trigger] w[i] != '\n' by {
        assert(w.contains(w[i]));
    }
    crate::text::lemma_split_one(w, '\n');
    crate::text::lemma_split_one(cr, '\n');
    crate::text::lemma_split_append(w, e, '\n');
    crate::text::lemma_split_append(cr, e, '\n');
    assert(w + seq!['\n'] + e =~= w + seq!['\n']);
    assert(cr + seq!['\n'] + e =~= w + seq!['\r', '\n']);
    assert(seq![w].push(e).drop_last() =~= seq![w]);
    assert(seq![cr].push(e).drop_last() =~= seq![cr]);
    assert(cr.drop_last() =~= w);
    assert(lines_of(w + seq!['\n']) =~= seq![w]);
    assert(lines_of(w + seq!['\r', '\n']) =~= seq![w]);
    if w.len() > 0 {
        assert(seq![w].drop_last() =~= Seq::<Seq<char>>::empty());
        assert(lines_of(w) =~= seq![w]);
    } else {
        assert(lines_of(w) =~= Seq::<Seq<char>>::empty());
    }
}

/// What is picked from two lists is picked from each.
pub proof fn law_picking_goes_piece_by_piece<A>(
    a: Seq<Seq<char>>,
    b: Seq<Seq<char>>,
    f: spec_fn(Seq<char>) -> Option<A>,
)
    ensures
        pick(a + b, f) == pick(a, f) + pick(b, f),
        forall|x: Seq<char>|
            #![trigger f(x)]
            pick(seq![x], f) == match f(x) {
                Some(y) => seq![y],
                None => Seq::empty(),
            },
    decreases b.len(),
{
    assert forall|x: Seq<char>| #![trigger f(x)] pick(seq![x], f) == match f(x) {
        Some(y) => seq![y],
        None => Seq::empty(),
    } by {
        assert(seq![x].drop_last() =~= Seq::<Seq<char>>::empty());
        assert(pick(seq![x].drop_last(), f) =~= Seq::<A>::empty());
        assert(pick(seq![x], f) =~= match f(x) {
            Some(y) => seq![y],
            None => Seq::empty(),
        });
    }
    if b.len() == 0 {
        assert(a + b =~= a);
        assert(pick(a, f) + pick(b, f) =~= pick(a, f));
    } else {
        law_picking_goes_piece_by_piece(a, b.drop_last(), f);
        assert((a + b).drop_last() =~= a + b.drop_last());
        assert((a + b).last() == b.last());
        assert(pick(a + b, f) =~= pick(a, f) + pick(b, f));
    }
}

// ---------------------------------------------------------------------------
// Ends
// ---------------------------------------------------------------------------

/// Trimming takes off what belongs to the class at both ends, and nothing else.
pub proof fn law_trimming_takes_off_the_ends(a: Seq<char>, w: Seq<char>, b: Seq<char>, k: Class)
    requires
        forall|i: int| 0 <= i < a.len() ==> in_class(k, #[trigger] a[i]),
        forall|i: int| 0 <= i < b.len() ==> in_class(k, #[trigger] b[i]),
        w.len() > 0,
        !in_class(k, w[0]),
        !in_class(k, w.last()),
    ensures
        trim_of(a + w + b, k) == w,
        trim_end_of(w + b, k) == w,
        trim_start_of(a + w, k) == w,
{
    let s = a + w + b;
    lemma_trim_start(s, k);
    let t = trim_start_of(s, k);
    let n = s.len() - t.len();
    if n < a.len() {
        assert(t[0] == s[n as int]);
        assert(s[n as int] == a[n as int]);
    } else if n > a.len() {
        assert(s[a.len() as int] == w[0]);
    }
    assert(t =~= w + b);
    lemma_trim_end(t, k);
    let u = trim_end_of(t, k);
    if u.len() > w.len() {
        assert(u.last() == t[u.len() - 1]);
        assert(t[u.len() - 1] == b[u.len() - 1 - w.len()]);
    } else if u.len() < w.len() {
        assert(t[w.len() - 1] == w.last());
    }
    assert(u =~= w);
    lemma_trim_start(a + w, k);
    let v = trim_start_of(a + w, k);
    let m = (a + w).len() - v.len();
    if m < a.len() {
        assert(v[0] == (a + w)[m as int]);
        assert((a + w)[m as int] == a[m as int]);
    } else if m > a.len() {
        assert((a + w)[a.len() as int] == w[0]);
    }
    assert(v =~= w);
}

/// Text that does not start or end with white space, and is not empty.
pub open spec fn trim_text(t: Seq<char>) -> bool {
    t.len() > 0 && !in_class(Class::White, t[0]) && !in_class(Class::White, t.last())
}

/// Nothing but characters of a class.
pub open spec fn only(s: Seq<char>, k: Class) -> bool {
    forall|i: int| 0 <= i < s.len() ==> in_class(k, #[trigger] s[i])
}

/// Text without white space at its ends is trimmed.
pub proof fn lemma_as_it_is(t: Seq<char>)
    requires
        trim_text(t),
    ensures
        trimmed(t) == t,
{
    law_trimming_takes_off_the_ends(Seq::empty(), t, Seq::empty(), Class::White);
    assert(Seq::<char>::empty() + t + Seq::<char>::empty() =~= t);
}

/// What is all of the class trims to nothing.
pub proof fn law_blank_trims_to_nothing(s: Seq<char>, k: Class)
    requires
        forall|i: int| 0 <= i < s.len() ==> in_class(k, #[trigger] s[i]),
    ensures
        trim_of(s, k).len() == 0,
{
    lemma_trim_start(s, k);
    let t = trim_start_of(s, k);
    if t.len() > 0 {
        assert(t[0] == s[s.len() - t.len()]);
    }
}

/// White space is spaces, tabs and line ends, and no letter, digit or sign of
/// ASCII.
pub proof fn law_ascii_white_space(c: char)
    requires
        (c as u32) < 128,
    ensures
        in_class(Class::White, c) <==> c == ' ' || c == '\t' || c == '\n' || c == '\r' || c
            == '\x0b' || c == '\x0c',
        in_class(Class::AsciiWhite, c) <==> c == ' ' || c == '\t' || c == '\n' || c == '\r' || c
            == '\x0c',
{
}

// ---------------------------------------------------------------------------
// Searching, numbers and order
// ---------------------------------------------------------------------------

pub proof fn lemma_find_from(s: Seq<char>, p: Seq<char>, from: int, at: int)
    requires
        0 <= from <= at,
        occurs_at(s, p, at),
    ensures
        find_from(s, p, from) is Some,
        from <= find_from(s, p, from)->0 <= at,
        occurs_at(s, p, find_from(s, p, from)->0),
    decreases at - from,
{
    if from < at && !occurs_at(s, p, from) {
        lemma_find_from(s, p, from + 1, at);
    }
}

proof fn lemma_found_occurs(s: Seq<char>, p: Seq<char>, from: int)
    ensures
        find_from(s, p, from) is Some ==> occurs_at(s, p, find_from(s, p, from)->0),
    decreases s.len() - from,
{
    if 0 <= from && from + p.len() <= s.len() && !occurs_at(s, p, from) && from < s.len() {
        lemma_found_occurs(s, p, from + 1);
    }
}

/// A text contains another exactly when it is something, the other, and
/// something more.
pub proof fn law_containing_is_occurring(s: Seq<char>, p: Seq<char>)
    ensures
        contains_of(s, p) <==> exists|a: Seq<char>, b: Seq<char>| s == #[trigger] (a + p + b),
{
    lemma_found_occurs(s, p, 0);
    if contains_of(s, p) {
        let i = find_from(s, p, 0)->0;
        assert(s =~= s.take(i) + p + s.skip(i + p.len()));
    }
    if exists|a: Seq<char>, b: Seq<char>| s == #[trigger] (a + p + b) {
        let (a, b) = choose|a: Seq<char>, b: Seq<char>| s == #[trigger] (a + p + b);
        assert(s.subrange(a.len() as int, (a.len() + p.len()) as int) =~= p);
        lemma_find_from(s, p, 0, a.len() as int);
    }
}

/// A written number reads as itself.
pub proof fn law_numbers_read_back(n: int)
    ensures
        parse_int_of(dec_int(n)) == Some(n),
        n >= 0 ==> parse_nat_of(dec(n as nat), 10) == Some(n as nat),
        n >= 0 ==> parse_nat_of(seq!['+'] + dec(n as nat), 10) == Some(n as nat),
{
    let m = if n < 0 {
        (-n) as nat
    } else {
        n as nat
    };
    lemma_dec_value(m);
    let d = dec(m);
    assert(crate::text::digit(d[0]));
    assert((seq!['-'] + d).drop_first() =~= d);
    assert((seq!['+'] + d).drop_first() =~= d);
    assert(dec_int(n)[0] == if n < 0 {
        '-'
    } else {
        d[0]
    });
}

/// Replacing one character by another changes it wherever it is, and nothing
/// else.
pub proof fn law_replacing_a_character(s: Seq<char>, c: char, d: char)
    ensures
        replace_of(s, c, seq![d]).len() == s.len(),
        forall|i: int|
            0 <= i < s.len() ==> #[trigger] replace_of(s, c, seq![d])[i] == if s[i] == c {
                d
            } else {
                s[i]
            },
    decreases s.len(),
{
    if s.len() > 0 {
        law_replacing_a_character(s.drop_last(), c, d);
        let r = replace_of(s, c, seq![d]);
        assert forall|i: int| 0 <= i < s.len() implies #[trigger] r[i] == if s[i] == c {
            d
        } else {
            s[i]
        } by {
            if i < s.len() - 1 {
                assert(r[i] == replace_of(s.drop_last(), c, seq![d])[i]);
            }
        }
    }
}

/// Texts are ordered by the first character in which they differ, and a text
/// comes before what goes on from it.
pub proof fn law_order_of_texts(p: Seq<char>, x: char, a: Seq<char>, y: char, b: Seq<char>)
    ensures
        x != y ==> before(p + seq![x] + a, p + seq![y] + b) == (x < y),
        before(p, p + seq![y] + b),
        !before(p + seq![y] + b, p),
    decreases p.len(),
{
    let s = p + seq![x] + a;
    let t = p + seq![y] + b;
    if p.len() > 0 {
        let q = p.drop_first();
        law_order_of_texts(q, x, a, y, b);
        assert(s.drop_first() =~= q + seq![x] + a);
        assert(t.drop_first() =~= q + seq![y] + b);
        assert(s[0] == p[0] && t[0] == p[0]);
    } else {
        assert(s[0] == x && t[0] == y);
    }
}

/// The first characters are the start of the text, as many as are asked for or
/// as there are.
pub proof fn law_first_characters(s: Seq<char>, n: nat)
    ensures
        first_chars(s, n as int).len() == if s.len() < n {
            s.len()
        } else {
            n
        },
        first_chars(s, n as int).is_prefix_of(s),
{
}

/// Where both ends of a text are outside the class, trimming leaves it.
pub proof fn law_trimmed_text_stays(s: Seq<char>)
    ensures
        trimmed(trimmed(s)) == trimmed(s),
        exists|a: Seq<char>, b: Seq<char>| s == #[trigger] (a + trimmed(s) + b),
{
    crate::text::lemma_trim_idempotent(s, Class::White);
    lemma_trim_start(s, Class::White);
    let t = trim_start_of(s, Class::White);
    lemma_trim_end(t, Class::White);
    let n = s.len() - t.len();
    let u = trim_end_of(t, Class::White);
    assert(s =~= s.take(n as int) + u + t.skip(u.len() as int));
}

} // verus!
